use xiv_csolver_lib::action::{Action, ActionList};
use xiv_csolver_lib::craft::Craft;
use xiv_csolver_lib::io::Parameters;
use xiv_csolver_lib::solver::{
    generate_routes_phase1, generate_routes_phase2, next_action_phase_2, next_action_picker_1,
};
use xiv_csolver_lib::specs::{Recipe, Stats, Success};

fn endgame_recipe() -> Recipe {
    Recipe {
        durability: 70,
        progress: 3900,
        quality: 10920,
        progress_divider: 130,
        quality_divider: 115,
        progress_modifier: 80,
        quality_modifier: 70,
    }
}

fn search_settings() -> Parameters {
    Parameters { threads: 4, verbose: 0, depth: 8, desperate: false, byregot_step: 10 }
}

fn zero_star(actions: &ActionList) -> Craft<'_> {
    Craft::new(
        Recipe {
            durability: 60,
            progress: 100,
            quality: 100,
            progress_divider: 100,
            quality_divider: 100,
            progress_modifier: 100,
            quality_modifier: 100,
        },
        Stats { craftsmanship: 100, control: 100, max_cp: 100 },
        search_settings(),
        actions,
    )
}

fn two_star(actions: &ActionList) -> Craft<'_> {
    Craft::new(
        endgame_recipe(),
        Stats { craftsmanship: 4041, control: 3975, max_cp: 595 },
        search_settings(),
        actions,
    )
}

fn three_star(actions: &ActionList) -> Craft<'_> {
    Craft::new(
        endgame_recipe(),
        Stats { craftsmanship: 4041, control: 3959, max_cp: 602 },
        search_settings(),
        actions,
    )
}

#[test]
fn solver_test_first_step() {
    let actions = ActionList::default();
    let mut craft = three_star(&actions);
    craft.success = Success::Failure;
    let vact = next_action_picker_1(&craft);
    assert_eq!(vact, vec![None::<&Action>]);
    craft.success = Success::Pending;

    let vact = next_action_picker_1(&craft);
    assert_eq!(vact, vec![Some(&actions.muscle_memory)]);
    craft.run_action(&actions.muscle_memory);

    let vact = next_action_picker_1(&craft);
    assert_eq!(vact, vec![Some(&actions.manipulation)]);
    craft.run_action(&actions.manipulation);

    let vact = next_action_picker_1(&craft);
    assert_eq!(vact, vec![Some(&actions.veneration)]);
    craft.run_action(&actions.veneration);

    let vact = next_action_picker_1(&craft);
    assert_eq!(vact, vec![Some(&actions.waste_not_ii), Some(&actions.groundwork)]);
    craft.run_action(&actions.waste_not_ii);

    let vact = next_action_picker_1(&craft);
    assert_eq!(vact, vec![Some(&actions.groundwork)]);
    craft.run_action(&actions.careful_synthesis);

    let vact = next_action_picker_1(&craft);
    assert_eq!(
        vact,
        vec![Some(&actions.groundwork), Some(&actions.basic_synthesis), Some(&actions.careful_synthesis), Some(&actions.delicate_synthesis)]
    );
    craft.run_action(&actions.careful_synthesis);

    let vact = next_action_picker_1(&craft);
    assert_eq!(
        vact,
        vec![Some(&actions.groundwork), Some(&actions.basic_synthesis), Some(&actions.careful_synthesis), Some(&actions.delicate_synthesis)]
    );
    craft.run_action(&actions.careful_synthesis);

    let vact = next_action_picker_1(&craft);
    assert_eq!(
        vact,
        vec![Some(&actions.groundwork), Some(&actions.basic_synthesis), Some(&actions.careful_synthesis), Some(&actions.delicate_synthesis)]
    );
    craft.run_action(&actions.careful_synthesis);

    craft.buffs.waste_not = 0;
    craft.progression = 0;
    let vact = next_action_picker_1(&craft);
    assert_eq!(
        vact,
        vec![Some(&actions.basic_synthesis), Some(&actions.careful_synthesis), Some(&actions.prudent_synthesis), Some(&actions.delicate_synthesis)]
    );
    craft.run_action(&actions.delicate_synthesis);

    let vact = next_action_picker_1(&craft);
    assert_eq!(
        vact,
        vec![Some(&actions.basic_synthesis), Some(&actions.careful_synthesis), Some(&actions.prudent_synthesis), Some(&actions.delicate_synthesis), Some(&actions.waste_not_ii), Some(&actions.waste_not)]
    );

    craft.args.desperate = true;
    let vact = next_action_picker_1(&craft);
    assert_eq!(
        vact,
        vec![Some(&actions.basic_synthesis), Some(&actions.careful_synthesis), Some(&actions.prudent_synthesis), Some(&actions.delicate_synthesis), Some(&actions.groundwork), Some(&actions.masters_mend), Some(&actions.waste_not_ii), Some(&actions.waste_not)]
    );
}

#[test]
fn solver_test_routes_p1() {
    let actions = ActionList::default();
    let craft = three_star(&actions);
    let mut routes1 = generate_routes_phase1(craft);

    for route in routes1.iter() {
        println!("{:?}", route.actions);
    }
    assert_eq!(routes1.len(), 9);
    let route = routes1.pop().unwrap();
    assert_eq!(
        route.actions,
        vec![
            &actions.muscle_memory,
            &actions.manipulation,
            &actions.veneration,
            &actions.waste_not_ii,
            &actions.groundwork,
            &actions.delicate_synthesis,
            &actions.delicate_synthesis
        ]
    );

    let route = routes1.pop().unwrap();
    assert_eq!(
        route.actions,
        vec![
            &actions.muscle_memory,
            &actions.manipulation,
            &actions.veneration,
            &actions.waste_not_ii,
            &actions.groundwork,
            &actions.delicate_synthesis,
            &actions.basic_synthesis,
        ]
    );

    let route = routes1.pop().unwrap();
    assert_eq!(
        route.actions,
        vec![
            &actions.muscle_memory,
            &actions.manipulation,
            &actions.veneration,
            &actions.waste_not_ii,
            &actions.groundwork,
            &actions.careful_synthesis
        ]
    );

    let route = routes1.pop().unwrap();
    assert_eq!(
        route.actions,
        vec![
            &actions.muscle_memory,
            &actions.manipulation,
            &actions.veneration,
            &actions.waste_not_ii,
            &actions.groundwork,
            &actions.basic_synthesis
        ]
    );

    let route = routes1.pop().unwrap();
    assert_eq!(
        route.actions,
        vec![
            &actions.muscle_memory,
            &actions.manipulation,
            &actions.veneration,
            &actions.groundwork,
            &actions.delicate_synthesis,
            &actions.delicate_synthesis
        ]
    );

    let route = routes1.pop().unwrap();
    assert_eq!(
        route.actions,
        vec![
            &actions.muscle_memory,
            &actions.manipulation,
            &actions.veneration,
            &actions.groundwork,
            &actions.delicate_synthesis,
            &actions.basic_synthesis
        ]
    );

    let route = routes1.pop().unwrap();
    assert_eq!(
        route.actions,
        vec![
            &actions.muscle_memory,
            &actions.manipulation,
            &actions.veneration,
            &actions.groundwork,
            &actions.prudent_synthesis
        ]
    );

    let route = routes1.pop().unwrap();
    assert_eq!(
        route.actions,
        vec![
            &actions.muscle_memory,
            &actions.manipulation,
            &actions.veneration,
            &actions.groundwork,
            &actions.careful_synthesis
        ]
    );

    let route = routes1.pop().unwrap();
    assert_eq!(
        route.actions,
        vec![
            &actions.muscle_memory,
            &actions.manipulation,
            &actions.veneration,
            &actions.groundwork,
            &actions.basic_synthesis
        ]
    );

    let route = routes1.pop();
    match route {
        None => (),
        Some(..) => panic!(),
    }
}

#[test]
fn test_solver_test_first_step() {
    let actions = ActionList::default();
    let mut craft = two_star(&actions);
    craft.success = Success::Failure;
    let vact = next_action_picker_1(&craft);
    assert_eq!(vact, vec![None::<&Action>]);
    craft.success = Success::Pending;

    let vact = next_action_picker_1(&craft);
    assert_eq!(vact, vec![Some(&actions.muscle_memory)]);
    craft.run_action(&actions.muscle_memory);

    let vact = next_action_picker_1(&craft);
    assert_eq!(vact, vec![Some(&actions.manipulation)]);
    craft.run_action(&actions.manipulation);

    let vact = next_action_picker_1(&craft);
    assert_eq!(vact, vec![Some(&actions.veneration)]);
    craft.run_action(&actions.veneration);

    let vact = next_action_picker_1(&craft);
    assert_eq!(vact, vec![Some(&actions.waste_not_ii), Some(&actions.groundwork)]);
    craft.run_action(&actions.waste_not_ii);

    let vact = next_action_picker_1(&craft);
    assert_eq!(vact, vec![Some(&actions.groundwork)]);
    craft.run_action(&actions.careful_synthesis);

    let vact = next_action_picker_1(&craft);
    assert_eq!(
        vact,
        vec![Some(&actions.groundwork), Some(&actions.basic_synthesis), Some(&actions.careful_synthesis), Some(&actions.delicate_synthesis)]
    );
    craft.run_action(&actions.careful_synthesis);

    let vact = next_action_picker_1(&craft);
    assert_eq!(
        vact,
        vec![Some(&actions.groundwork), Some(&actions.basic_synthesis), Some(&actions.careful_synthesis), Some(&actions.delicate_synthesis)]
    );
    craft.run_action(&actions.careful_synthesis);

    let vact = next_action_picker_1(&craft);
    assert_eq!(
        vact,
        vec![Some(&actions.groundwork), Some(&actions.basic_synthesis), Some(&actions.careful_synthesis), Some(&actions.delicate_synthesis)]
    );
    craft.run_action(&actions.careful_synthesis);

    craft.buffs.waste_not = 0;
    craft.progression = 0;
    let vact = next_action_picker_1(&craft);
    assert_eq!(
        vact,
        vec![Some(&actions.basic_synthesis), Some(&actions.careful_synthesis), Some(&actions.prudent_synthesis), Some(&actions.delicate_synthesis)]
    );
    craft.run_action(&actions.delicate_synthesis);

    let vact = next_action_picker_1(&craft);
    assert_eq!(
        vact,
        vec![Some(&actions.basic_synthesis), Some(&actions.careful_synthesis), Some(&actions.prudent_synthesis), Some(&actions.delicate_synthesis), Some(&actions.waste_not_ii), Some(&actions.waste_not)]
    );

    craft.args.desperate = true;
    let vact = next_action_picker_1(&craft);
    assert_eq!(
        vact,
        vec![Some(&actions.basic_synthesis), Some(&actions.careful_synthesis), Some(&actions.prudent_synthesis), Some(&actions.delicate_synthesis), Some(&actions.groundwork), Some(&actions.masters_mend), Some(&actions.waste_not_ii), Some(&actions.waste_not)]
    );
    assert_eq!(craft.progression, 250);
    assert_eq!(craft.quality, 266);
    assert_eq!(craft.cp, 317);
}

#[test]
fn test_solver_test_routes_p1() {
    let actions = ActionList::default();
    let craft = two_star(&actions);
    let mut routes1 = generate_routes_phase1(craft);

    for route in routes1.iter() {
        println!("{:?}", route.actions);
    }
    assert_eq!(routes1.len(), 9);
    let route = routes1.pop().unwrap();
    assert_eq!(
        route.actions,
        vec![
            &actions.muscle_memory,
            &actions.manipulation,
            &actions.veneration,
            &actions.waste_not_ii,
            &actions.groundwork,
            &actions.delicate_synthesis,
            &actions.delicate_synthesis
        ]
    );

    let route = routes1.pop().unwrap();
    assert_eq!(
        route.actions,
        vec![
            &actions.muscle_memory,
            &actions.manipulation,
            &actions.veneration,
            &actions.waste_not_ii,
            &actions.groundwork,
            &actions.delicate_synthesis,
            &actions.basic_synthesis,
        ]
    );

    let route = routes1.pop().unwrap();
    assert_eq!(
        route.actions,
        vec![
            &actions.muscle_memory,
            &actions.manipulation,
            &actions.veneration,
            &actions.waste_not_ii,
            &actions.groundwork,
            &actions.careful_synthesis
        ]
    );

    let route = routes1.pop().unwrap();
    assert_eq!(
        route.actions,
        vec![
            &actions.muscle_memory,
            &actions.manipulation,
            &actions.veneration,
            &actions.waste_not_ii,
            &actions.groundwork,
            &actions.basic_synthesis
        ]
    );

    let route = routes1.pop().unwrap();
    assert_eq!(
        route.actions,
        vec![
            &actions.muscle_memory,
            &actions.manipulation,
            &actions.veneration,
            &actions.groundwork,
            &actions.delicate_synthesis,
            &actions.delicate_synthesis
        ]
    );

    let route = routes1.pop().unwrap();
    assert_eq!(
        route.actions,
        vec![
            &actions.muscle_memory,
            &actions.manipulation,
            &actions.veneration,
            &actions.groundwork,
            &actions.delicate_synthesis,
            &actions.basic_synthesis
        ]
    );

    let route = routes1.pop().unwrap();
    assert_eq!(
        route.actions,
        vec![
            &actions.muscle_memory,
            &actions.manipulation,
            &actions.veneration,
            &actions.groundwork,
            &actions.prudent_synthesis
        ]
    );

    let route = routes1.pop().unwrap();
    assert_eq!(
        route.actions,
        vec![
            &actions.muscle_memory,
            &actions.manipulation,
            &actions.veneration,
            &actions.groundwork,
            &actions.careful_synthesis
        ]
    );

    let route = routes1.pop().unwrap();
    assert_eq!(
        route.actions,
        vec![
            &actions.muscle_memory,
            &actions.manipulation,
            &actions.veneration,
            &actions.groundwork,
            &actions.basic_synthesis
        ]
    );

    let route = routes1.pop();
    assert!(route.is_none());
}

#[test]
fn test_custom_p1_routes() {
    let actions = ActionList::default();
    let mut craft = zero_star(&actions);
    craft.success = Success::Failure;
    let routes1 = generate_routes_phase1(craft.clone());
    assert!(routes1.is_empty());
}

#[test]
fn test_second_step() {
    let actions = ActionList::default();
    let mut craft = two_star(&actions);
    craft.cp = 10000;
    let mut routes1 = generate_routes_phase1(craft);
    let mut craft2 = routes1.pop().unwrap();
    let vact = next_action_phase_2(&craft2);
    assert_eq!(vact, vec![Some(&actions.innovation)]);
    craft2.run_action(&actions.innovation);

    let vact = next_action_phase_2(&craft2);
    assert_eq!(
        vact,
        vec![Some(&actions.basic_touch), Some(&actions.preparatory_touch)]
    );
    craft2.run_action(&actions.basic_touch);

    let vact = next_action_phase_2(&craft2);
    assert_eq!(
        vact,
        vec![Some(&actions.preparatory_touch), Some(&actions.standard_touch)]
    );
    craft2.run_action(&actions.standard_touch);

    let vact = next_action_phase_2(&craft2);
    assert_eq!(
        vact,
        vec![Some(&actions.preparatory_touch), Some(&actions.advanced_touch)]
    );
    craft2.run_action(&actions.advanced_touch);

    let vact = next_action_phase_2(&craft2);
    assert_eq!(
        vact,
        vec![Some(&actions.basic_touch), Some(&actions.preparatory_touch), Some(&actions.manipulation)]
    );
    craft2.run_action(&actions.manipulation);

    let vact = next_action_phase_2(&craft2);
    assert_eq!(vact, vec![Some(&actions.innovation)]);
    craft2.run_action(&actions.innovation);

    let vact = next_action_phase_2(&craft2);
    assert_eq!(
        vact,
        vec![Some(&actions.basic_touch), Some(&actions.prudent_touch)]
    );
    craft2.run_action(&actions.basic_touch);

    let vact = next_action_phase_2(&craft2);
    assert_eq!(
        vact,
        vec![Some(&actions.prudent_touch), Some(&actions.standard_touch)]
    );
    craft2.run_action(&actions.prudent_touch);

    let vact = next_action_phase_2(&craft2);
    assert_eq!(
        vact,
        vec![Some(&actions.basic_touch), Some(&actions.prudent_touch)]
    );
    craft2.run_action(&actions.prudent_touch);

    let vact = next_action_phase_2(&craft2);
    assert_eq!(
        vact,
        vec![Some(&actions.basic_touch), Some(&actions.prudent_touch)]
    );
    craft2.run_action(&actions.prudent_touch);

    let vact = next_action_phase_2(&craft2);
    assert_eq!(vact, vec![Some(&actions.innovation)]);
    craft2.run_action(&actions.innovation);

    let vact = next_action_phase_2(&craft2);
    assert_eq!(
        vact,
        vec![Some(&actions.basic_touch), Some(&actions.prudent_touch)]
    );
    craft2.run_action(&actions.prudent_touch);

    let vact = next_action_phase_2(&craft2);
    assert_eq!(
        vact,
        vec![Some(&actions.basic_touch), Some(&actions.prudent_touch), Some(&actions.trained_finesse), Some(&actions.great_strides)]
    );
    craft2.run_action(&actions.great_strides);

    let vact = next_action_phase_2(&craft2);
    assert_eq!(
        vact,
        vec![Some(&actions.basic_touch), Some(&actions.prudent_touch), Some(&actions.byregot_blessing)]
    );

    craft2.run_action(&actions.byregot_blessing);
    craft2.success = Success::Success;
    assert_eq!(next_action_phase_2(&craft2), vec![None::<&Action>]);
    assert_eq!(craft2.progression, 3750);
    assert_eq!(craft2.quality, 9899);
    assert_eq!(craft2.cp, 9322);
}

#[test]
fn test_generate_routes_p2() {
    let actions = ActionList::default();
    let craft = two_star(&actions);
    let mut routes1 = generate_routes_phase1(craft);
    let craft1 = routes1.pop().unwrap();
    let routes2 = generate_routes_phase2(craft1);
    assert_eq!(routes2.unwrap().len(), 241);

}
