use xiv_csolver_lib::action::{Action, ActionList};
use xiv_csolver_lib::craft::Craft;
use xiv_csolver_lib::io::Parameters;
use xiv_csolver_lib::results::SolverResult;
use xiv_csolver_lib::solver::{
    generate_routes_phase1, generate_routes_phase2, next_action_phase_2, next_action_picker_1,
};
use xiv_csolver_lib::specs::{Recipe, Stats, Success};
use xiv_csolver_lib::{find_quality_route, solve_craft};

fn endgame(actions: &ActionList, depth: u32, desperate: bool) -> Craft<'_> {
    Craft::new(
        Recipe {
            durability: 70,
            progress: 3900,
            quality: 10920,
            progress_divider: 130,
            quality_divider: 115,
            progress_modifier: 80,
            quality_modifier: 70,
        },
        Stats { craftsmanship: 4041, control: 3975, max_cp: 595 },
        Parameters { threads: 4, verbose: 0, depth, desperate, byregot_step: 10 },
        actions,
    )
}

fn plain(actions: &ActionList, progress: u32) -> Craft<'_> {
    Craft::new(
        Recipe {
            durability: 60,
            progress,
            quality: 100,
            progress_divider: 100,
            quality_divider: 100,
            progress_modifier: 100,
            quality_modifier: 100,
        },
        Stats { craftsmanship: 100, control: 100, max_cp: 100 },
        Parameters { threads: 1, verbose: 0, depth: 8, desperate: false, byregot_step: 10 },
        actions,
    )
}

fn names(route: &Craft) -> Vec<String> {
    route.actions.iter().map(|a| a.short_name.clone()).collect()
}

fn short(picks: &Vec<Option<&Action>>) -> Vec<String> {
    picks.iter().map(|a| a.unwrap().short_name.clone()).collect()
}

#[test]
fn the_depth_bounds_the_first_phase() {
    let actions = ActionList::default();
    for (depth, seeds) in [(0, 0), (1, 0), (3, 0), (4, 0), (5, 3), (6, 7), (7, 9), (8, 9), (30, 9)] {
        assert_eq!(generate_routes_phase1(endgame(&actions, depth, false)).len(), seeds);
    }
}

#[test]
fn the_first_phase_finds_a_seed_where_a_rotation_leads_to_one() {
    let actions = ActionList::default();
    let mut craft = endgame(&actions, 8, false);
    let rotation = [
        &actions.muscle_memory,
        &actions.manipulation,
        &actions.veneration,
        &actions.groundwork,
        &actions.prudent_synthesis,
    ];
    for action in rotation.iter() {
        let picks = next_action_picker_1(&craft);
        assert!(picks.iter().any(|a| a.unwrap().short_name == action.short_name));
        craft.run_action(action);
    }
    assert_eq!(craft.progression, 3675);
    let seeds = generate_routes_phase1(endgame(&actions, 8, false));
    assert!(!seeds.is_empty());
    let seed = seeds.iter().find(|s| names(s) == names(&craft)).unwrap();
    assert_eq!(seed.progression, craft.progression);
    assert_eq!(seed.cp, craft.cp);
    assert_eq!(seed.durability, craft.durability - 10);
    assert_eq!(seed.success, Success::Pending);
}

#[test]
fn seeds_set_the_finish_aside() {
    let actions = ActionList::default();
    let seeds = generate_routes_phase1(endgame(&actions, 8, false));
    let found: Vec<(i32, i32, u32, u32)> =
        seeds.iter().map(|s| (s.cp, s.durability, s.progression, s.step_count)).collect();
    assert_eq!(
        found,
        vec![
            (450, 35, 3450, 5),
            (450, 35, 3675, 5),
            (439, 40, 3675, 5),
            (425, 30, 3825, 6),
            (393, 30, 3750, 6),
            (352, 55, 3450, 6),
            (352, 55, 3675, 6),
            (327, 55, 3825, 7),
            (295, 55, 3750, 7),
        ]
    );
}

#[test]
fn the_finish_is_chosen_by_the_progress_missing() {
    let actions = ActionList::default();
    let finishes: Vec<(u32, Option<(i32, Vec<&str>)>)> = vec![
        (36, None),
        (37, Some((94, vec!["basicSynth2"]))),
        (50, Some((94, vec!["basicSynth2"]))),
        (51, Some((87, vec!["carefulSynthesis"]))),
        (57, Some((87, vec!["carefulSynthesis"]))),
        (58, Some((82, vec!["observe", "focusedSynthesis"]))),
        (59, Some((82, vec!["observe", "focusedSynthesis"]))),
        (60, Some((82, vec![]))),
        (61, None),
    ];
    for (progress, finish) in finishes {
        let seeds = generate_routes_phase1(plain(&actions, progress));
        match finish {
            None => assert!(seeds.is_empty()),
            Some((cp, moves)) => {
                assert_eq!(seeds.len(), 1);
                assert_eq!(seeds[0].cp, cp);
                assert_eq!(seeds[0].durability, 40);
                assert_eq!(seeds[0].progression, 36);
                let record = SolverResult::from_craft(&seeds[0]);
                let mut expected = vec!["muscleMemory"];
                expected.extend(moves);
                assert_eq!(record.actions, expected);
            },
        }
    }
}

#[test]
fn a_record_copies_the_craft() {
    let actions = ActionList::default();
    let mut craft = endgame(&actions, 8, false);
    craft.run_action(&actions.muscle_memory);
    craft.run_action(&actions.waste_not_ii);
    let record = SolverResult::from_craft(&craft);
    assert_eq!(record.steps, 2);
    assert_eq!(record.quality, 0);
    assert_eq!(record.progression, 750);
    assert_eq!(record.durability, 60);
    assert_eq!(record.cp, 595 - 6 - 98);
    assert_eq!(record.total_cp, 595);
    assert_eq!(record.total_progression, 3900);
    assert_eq!(record.total_quality, 10920);
    assert_eq!(record.total_durability, 70);
    assert_eq!(record.actions, vec!["muscleMemory", "wasteNot2"]);
    craft.progression = 4000;
    assert_eq!(SolverResult::from_craft(&craft).actions, vec!["muscleMemory", "wasteNot2"]);
    craft.progression = 3900;
    assert_eq!(SolverResult::from_craft(&craft).actions, vec!["muscleMemory", "wasteNot2"]);
    craft.progression = 3899;
    assert_eq!(
        SolverResult::from_craft(&craft).actions,
        vec!["muscleMemory", "wasteNot2", "basicSynth2"]
    );
    craft.progression = 3600;
    assert_eq!(
        SolverResult::from_craft(&craft).actions,
        vec!["muscleMemory", "wasteNot2", "carefulSynthesis"]
    );
    craft.progression = 3450;
    assert_eq!(
        SolverResult::from_craft(&craft).actions,
        vec!["muscleMemory", "wasteNot2", "observe", "focusedSynthesis"]
    );
    craft.recipe.progress_modifier = 0;
    assert_eq!(SolverResult::from_craft(&craft).actions, vec!["muscleMemory", "wasteNot2"]);
}

#[test]
fn desperate_mode_tries_harder() {
    let actions = ActionList::default();
    let seeds = generate_routes_phase1(endgame(&actions, 11, true));
    assert_eq!(seeds.len(), 306);
    assert_eq!(
        names(&seeds[0]),
        vec!["muscleMemory", "manipulation", "veneration", "mastersMend", "groundwork", "basicSynth2"]
    );
    let last = &seeds[305];
    assert_eq!(
        names(last),
        vec![
            "muscleMemory",
            "manipulation",
            "veneration",
            "wasteNot2",
            "groundwork",
            "delicateSynthesis",
            "mastersMend",
            "mastersMend",
            "delicateSynthesis"
        ]
    );
    assert_eq!((last.cp, last.durability, last.progression), (119, 5, 3625));
}

#[test]
fn the_blessing_closes_a_rotation() {
    let actions = ActionList::default();
    let mut seeds = generate_routes_phase1(endgame(&actions, 8, false));
    let seed = seeds.pop().unwrap();
    let steps = seed.step_count;
    let routes = generate_routes_phase2(seed).unwrap();
    assert_eq!(routes.len(), 241);
    for route in routes.iter() {
        let used = names(route);
        assert_eq!(used.last().unwrap(), "byregotsBlessing");
        assert_eq!(used.iter().filter(|n| n.as_str() == "byregotsBlessing").count(), 1);
        assert_eq!(route.buffs.inner_quiet, 0);
        assert!(route.step_count > steps);
    }
    let best = routes.last().unwrap();
    assert_eq!(best.quality, 11306);
    assert!(routes.iter().all(|r| r.quality <= best.quality));
    assert_eq!(routes[0].quality, 11129);
    assert_eq!(routes[0].step_count, 17);

    let other = seeds.swap_remove(4);
    let routes = generate_routes_phase2(other).unwrap();
    assert_eq!(routes.len(), 111);
    let best = routes.last().unwrap();
    assert_eq!((best.quality, best.step_count, best.cp, best.durability), (11223, 21, 11, 0));
}

#[test]
fn a_seed_is_its_own_best_where_nothing_raises_the_quality() {
    let actions = ActionList::default();
    let mut seed = endgame(&actions, 8, false);
    seed.cp = 17;
    seed.quality = 3;
    let routes = generate_routes_phase2(seed.clone()).unwrap();
    assert_eq!(routes.len(), 1);
    assert_eq!(routes[0].quality, 3);
    assert_eq!(routes[0].step_count, 0);
    assert!(routes[0].actions.is_empty());

    seed.cp = 595;
    seed.success = Success::Failure;
    let routes = generate_routes_phase2(seed).unwrap();
    assert_eq!(routes.len(), 1);
    assert_eq!(routes[0].success, Success::Failure);
}

#[test]
fn a_target_out_of_reach_still_gives_every_best_craft() {
    let actions = ActionList::default();
    let mut craft = endgame(&actions, 8, false);
    craft.recipe.quality = u32::MAX;
    let answer = solve_craft(craft.recipe, craft.stats, craft.args, &actions).unwrap();
    assert_eq!(answer.0.len(), 9);
    assert!(answer.0.iter().all(|r| r.quality < u32::MAX));
    assert_eq!(answer.1.step1_solutions, 9);
    assert_eq!(answer.1.step2_solutions, 9);
    assert_eq!(answer.1.found_100_percent, false);
    let qualities: Vec<u32> = answer.0.iter().map(|r| r.quality).collect();
    assert_eq!(qualities, vec![11774, 11774, 12032, 11521, 11223, 11738, 11738, 11388, 11306]);
    assert_eq!(find_quality_route(&answer).unwrap().quality, 12032);
}

#[test]
fn the_second_phase_offers_by_the_buffs() {
    let actions = ActionList::default();
    let mut craft = endgame(&actions, 8, false);
    assert_eq!(
        short(&next_action_phase_2(&craft)),
        vec!["basicTouch", "prudentTouch", "innovation", "manipulation"]
    );
    craft.buffs.inner_quiet = 2;
    assert_eq!(short(&next_action_phase_2(&craft)), vec!["innovation", "manipulation"]);
    craft.buffs.innovation = 1;
    craft.buffs.manipulation = 1;
    assert_eq!(short(&next_action_phase_2(&craft)), vec!["basicTouch", "prudentTouch"]);
    craft.buffs.waste_not = 1;
    assert_eq!(short(&next_action_phase_2(&craft)), vec!["basicTouch", "preparatoryTouch"]);
    craft.buffs.basic_touch = 1;
    assert_eq!(short(&next_action_phase_2(&craft)), vec!["preparatoryTouch", "standardTouch"]);
    craft.buffs.basic_touch = 0;
    craft.buffs.standard_touch = 1;
    assert_eq!(short(&next_action_phase_2(&craft)), vec!["preparatoryTouch", "advancedTouch"]);
    craft.buffs.standard_touch = 0;
    craft.buffs.waste_not = 0;
    craft.buffs.inner_quiet = 10;
    assert_eq!(
        short(&next_action_phase_2(&craft)),
        vec!["basicTouch", "prudentTouch", "trainedFinesse", "greatStrides"]
    );
    craft.buffs.great_strides = 2;
    assert_eq!(
        short(&next_action_phase_2(&craft)),
        vec!["basicTouch", "prudentTouch", "byregotsBlessing"]
    );
    craft.buffs.innovation = 0;
    assert_eq!(short(&next_action_phase_2(&craft)), vec!["innovation"]);
    craft.args.byregot_step = 11;
    craft.buffs.great_strides = 0;
    craft.buffs.innovation = 3;
    assert_eq!(short(&next_action_phase_2(&craft)), vec!["basicTouch", "prudentTouch"]);
    craft.buffs.manipulation = 0;
    craft.buffs.inner_quiet = 7;
    assert_eq!(
        short(&next_action_phase_2(&craft)),
        vec!["basicTouch", "prudentTouch", "manipulation"]
    );
    craft.buffs.inner_quiet = 8;
    assert_eq!(short(&next_action_phase_2(&craft)), vec!["basicTouch", "prudentTouch"]);
}

#[test]
fn the_first_phase_offers_only_what_can_be_used() {
    let actions = ActionList::default();
    let mut craft = endgame(&actions, 8, false);
    craft.step_count = 3;
    craft.cp = 17;
    assert_eq!(short(&next_action_picker_1(&craft)), vec!["basicSynth2", "carefulSynthesis"]);
    craft.cp = 6;
    assert_eq!(short(&next_action_picker_1(&craft)), vec!["basicSynth2"]);
    craft.cp = -4;
    assert!(next_action_picker_1(&craft).is_empty());
    craft.step_count = 0;
    assert_eq!(short(&next_action_picker_1(&craft)), vec!["muscleMemory"]);
    craft.success = Success::Success;
    assert_eq!(next_action_picker_1(&craft), vec![None::<&Action>]);
    assert_eq!(next_action_phase_2(&craft), vec![None::<&Action>]);
}

#[test]
fn free_touches_leave_the_second_phase_without_work() {
    let mut actions = ActionList::default();
    actions.innovation.cp = 0;
    let seed = endgame(&actions, 8, false);
    assert!(generate_routes_phase2(seed.clone()).is_none());
    assert!(solve_craft(seed.recipe, seed.stats, seed.args, &actions).is_none());
    assert_eq!(generate_routes_phase1(seed).len(), 9);
}
