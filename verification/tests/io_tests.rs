use xiv_csolver_lib::io::{Args, Parameters};
use xiv_csolver_lib::results::{test_final_results, test_info, test_result, Info, SolverResult};

#[test]
fn test_parameters_derived_attributes() {
    let def = Parameters { byregot_step: 0, depth: 0, desperate: false, threads: 42, verbose: 1 };
    let def2 = def;
    let def3 = def2.clone();

    assert_eq!(def2, def3);
}

#[test]
fn test_display() {
    let def = SolverResult::default();
    assert_ne!(def.to_string(), "");
    assert_eq!(def.to_string(), "[\"Act1\", \"Act2\"]");
}

#[test]
fn test_parameters() {
    let ar = Args {
        recipe_name: "recipe".to_string(),
        character_name: "dan".to_string(),
        file_name: "bigfile.toml".to_string(),
        verbose: 3,
        depth: 45,
        threads: 4,
        desperate: true,
        long: true,
    };
    let p = Parameters::from_args(&ar);
    assert_eq!(p.depth, 11);
    assert_eq!(p.verbose, 3);
    assert_eq!(p.threads, 4);
    assert_eq!(p.desperate, true);
    assert_eq!(p.byregot_step, 6);

    let ar = Args {
        recipe_name: "default_recipe".to_string(),
        character_name: "default_character".to_string(),
        file_name: "craft.toml".to_string(),
        verbose: 0,
        depth: 8,
        threads: 4,
        desperate: false,
        long: false,
    };
    let p = Parameters::from_args(&ar);
    assert_eq!(p.depth, 8);
    assert_eq!(p.verbose, 0);
    assert_eq!(p.threads, 4);
    assert_eq!(p.desperate, false);
    assert_eq!(p.byregot_step, 8);
}

#[test]
fn test_function_call() {
    let (results, info) = test_final_results();
    assert_eq!(results.len(), 2);
    assert_eq!(info, Info::default());
    assert_eq!(test_info(), Info::new(0, 0, false));
    let made_up = test_result();
    assert_eq!(made_up.actions, vec!["Act1".to_string(), "Act2".to_string()]);
    assert_eq!(made_up.steps, 0);
    assert_eq!(made_up.total_quality, 0);
}

#[test]
fn a_record_prints_escaped_names() {
    let mut record = SolverResult::default();
    record.actions = vec!["byregot's \"blessing\"".to_string()];
    assert_eq!(record.to_string(), "[\"byregot's \\\"blessing\\\"\"]");
    record.actions = Vec::new();
    assert_eq!(record.to_string(), "[]");
}
