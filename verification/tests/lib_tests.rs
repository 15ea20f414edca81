use xiv_csolver_lib::action::ActionList;
use xiv_csolver_lib::craft::Craft;
use xiv_csolver_lib::io::Parameters;
use xiv_csolver_lib::results::{Info, SolverResult};
use xiv_csolver_lib::specs::{Recipe, Stats};
use xiv_csolver_lib::{
    collect_results, find_fast_route, find_quality_route, find_safe_route, solve_craft,
};

fn two_star(actions: &ActionList) -> Craft<'_> {
    Craft::new(
        Recipe {
            durability: 70,
            progress: 3900,
            quality: 10920,
            progress_divider: 130,
            quality_divider: 115,
            progress_modifier: 80,
            quality_modifier: 70,
        },
        Stats { craftsmanship: 4041, control: 3975, max_cp: 595 },
        Parameters { threads: 4, verbose: 0, depth: 8, desperate: false, byregot_step: 10 },
        actions,
    )
}

fn record(steps: u32, quality: u32, durability: i32) -> SolverResult {
    let mut made = SolverResult::default();
    made.steps = steps;
    made.quality = quality;
    made.durability = durability;
    made
}

#[test]
fn test_lib_find_route() {
    let actions = ActionList::default();
    let mut craft = two_star(&actions);
    let res = solve_craft(craft.recipe, craft.stats, craft.args, &actions);
    assert!(res.unwrap().0.len() > 2000);

    craft.recipe.progress = 0;
    let res = solve_craft(craft.recipe, craft.stats, craft.args, &actions);
    assert!(res.is_none());

    craft.recipe.progress = 100;
    craft.stats.max_cp = 0;
    craft.cp = 0;

    let mut res = solve_craft(craft.recipe, craft.stats, craft.args, &actions).unwrap();
    assert_eq!(res.0.len(), 1);
    assert_eq!(res.0.pop().unwrap().actions, vec!("basicSynth2"));
}

#[test]
fn test_lib_best_solutions() {
    let actions = ActionList::default();
    let craft = two_star(&actions);
    let routes = solve_craft(craft.recipe, craft.stats, craft.args, &actions).unwrap();

    assert!(find_fast_route(&((vec![], Info::default()))).is_none());
    assert!(find_quality_route(&((vec![], Info::default()))).is_none());
    assert!(find_safe_route(&((vec![], Info::default()))).is_none());

    let sol = find_fast_route(&routes).unwrap();
    assert_eq!(sol.steps, 17);
    assert_eq!(sol.quality, 11129);
    assert_eq!(sol.progression, 3750);
    assert_eq!(sol.durability, 0);
    assert_eq!(sol.cp, 7);
    assert_eq!(routes.1.step1_solutions, 9);
    assert_eq!(routes.1.step2_solutions, 24851);
    assert_eq!(routes.1.found_100_percent, true);
    assert_eq!(
        sol.actions,
        vec!(
            "muscleMemory",
            "manipulation",
            "veneration",
            "wasteNot2",
            "groundwork",
            "delicateSynthesis",
            "delicateSynthesis",
            "innovation",
            "preparatoryTouch",
            "preparatoryTouch",
            "preparatoryTouch",
            "preparatoryTouch",
            "innovation",
            "basicTouch",
            "standardTouch",
            "greatStrides",
            "byregotsBlessing",
            "basicSynth2"
        )
    );

    let sol = find_quality_route(&routes).unwrap();
    assert_eq!(sol.steps, 23);
    assert_eq!(sol.quality, 12032);
    assert_eq!(sol.progression, 3675);
    assert_eq!(sol.durability, -5);
    assert_eq!(sol.cp, 3);
    assert_eq!(routes.1.step1_solutions, 9);
    assert_eq!(routes.1.step2_solutions, 24851);
    assert_eq!(routes.1.found_100_percent, true);
    assert_eq!(
        sol.actions,
        vec!(
            "muscleMemory",
            "manipulation",
            "veneration",
            "groundwork",
            "prudentSynthesis",
            "innovation",
            "prudentTouch",
            "basicTouch",
            "standardTouch",
            "advancedTouch",
            "manipulation",
            "innovation",
            "prudentTouch",
            "basicTouch",
            "standardTouch",
            "advancedTouch",
            "innovation",
            "basicTouch",
            "standardTouch",
            "advancedTouch",
            "greatStrides",
            "innovation",
            "byregotsBlessing",
            "basicSynth2"
        )
    );

    let sol = find_safe_route(&routes).unwrap();
    assert_eq!(sol.durability, 10);
    let expected = vec![
        "muscleMemory",
        "manipulation",
        "veneration",
        "groundwork",
        "carefulSynthesis",
        "prudentTouch",
        "innovation",
        "prudentTouch",
        "prudentTouch",
        "prudentTouch",
        "prudentTouch",
        "manipulation",
        "innovation",
        "prudentTouch",
        "basicTouch",
        "standardTouch",
        "advancedTouch",
        "innovation",
        "basicTouch",
        "standardTouch",
        "greatStrides",
        "byregotsBlessing",
        "basicSynth2",
    ];
    let sol = routes.0.iter().find(|r| r.actions == expected).unwrap();
    assert_eq!(sol.steps, 22);
    assert_eq!(sol.quality, 11161);
    assert_eq!(sol.progression, 3675);
    assert_eq!(sol.durability, 10);
    assert_eq!(sol.cp, 4);
    assert_eq!(routes.1.step1_solutions, 9);
    assert_eq!(routes.1.step2_solutions, 24851);
    assert_eq!(routes.1.found_100_percent, true);
    assert!(routes.0.iter().all(|r| r.durability <= 10));
}

#[test]
fn the_summary_counts_seeds_and_crafts() {
    let actions = ActionList::default();
    let craft = two_star(&actions);
    let (results, info) = solve_craft(craft.recipe, craft.stats, craft.args, &actions).unwrap();
    assert_eq!(info.step1_solutions, 9);
    assert_eq!(info.step2_solutions, 24851);
    assert_eq!(info.found_100_percent, true);
    assert_eq!(results.len(), 5401);
    assert!(results.iter().all(|r| r.quality >= 10920));
}

#[test]
fn the_reducers_pick_first_least_and_last_greatest() {
    let list = vec![
        record(9, 50, 10),
        record(7, 80, 30),
        record(7, 90, 30),
        record(8, 90, 20),
    ];
    let routes = (list, Info::default());
    let fast = find_fast_route(&routes).unwrap();
    assert_eq!((fast.steps, fast.quality), (7, 80));
    let best = find_quality_route(&routes).unwrap();
    assert_eq!((best.steps, best.quality), (8, 90));
    let safe = find_safe_route(&routes).unwrap();
    assert_eq!((safe.quality, safe.durability), (90, 30));
}

#[test]
fn no_craft_gives_no_answer() {
    assert!(collect_results(&Vec::new(), 3).is_none());
}

#[test]
fn an_answer_falls_back_to_all_crafts() {
    let actions = ActionList::default();
    let mut low = two_star(&actions);
    low.quality = 10;
    let mut lower = two_star(&actions);
    lower.quality = 5;
    let (results, info) = collect_results(&vec![low.clone(), lower.clone()], 1).unwrap();
    assert_eq!(results.len(), 2);
    assert_eq!(results[0].quality, 10);
    assert_eq!(results[1].quality, 5);
    assert_eq!(info, Info::new(1, 2, false));

    let mut high = two_star(&actions);
    high.quality = 10920;
    let (results, info) = collect_results(&vec![low, high, lower], 2).unwrap();
    assert_eq!(results.len(), 1);
    assert_eq!(results[0].quality, 10920);
    assert_eq!(info, Info::new(2, 3, true));
}
