//! What holds of every craft and of every search, whatever the recipe.

use crate::action::{Action, ActionList};
use crate::craft::{buffs_after, CraftView};
use crate::frontier::{
    best_of, closed_by, extended_by, goes_on, is_closing, is_seed, kept_of, lemma_extended_by,
    lemma_take_first, lemma_take_last, phase1_found, phase2_found, phase2_routes, seeded,
    seeds_by, touched_by, touches_cost, work_left, Phase,
};
use crate::io::Parameters;
use crate::solver::{holds_effect, phase1_candidates, phase2_candidates, pruned};
use crate::specs::{stacked, ticked, Buff, BuffState, Recipe, Stats, INNER_QUIET_CAP};
use crate::{meeting, phase2_all, reported};
use vstd::prelude::*;

verus! {

/// An action never lowers progress or quality. An action that can be used
/// adds one step and one entry to the list of actions; one that cannot adds
/// none.
pub proof fn lemma_step_monotone<'a>(c: CraftView<'a>, action: &'a Action)
    ensures
        c.after(action).progression >= c.progression,
        c.after(action).quality >= c.quality,
        action.can_use_in(c) && c.step_count < u32::MAX ==> c.after(action).step_count
            == c.step_count + 1,
        action.can_use_in(c) ==> c.after(action).actions == c.actions.push(action),
        !action.can_use_in(c) ==> c.after(action).step_count == c.step_count && c.after(
            action,
        ).actions == c.actions,
{
}

/// Over a whole rotation progress and quality never fall, and the step
/// count grows by at most the number of actions.
pub proof fn lemma_rotation_monotone<'a>(c: CraftView<'a>, actions: Seq<&'a Action>)
    ensures
        c.after_all(actions).progression >= c.progression,
        c.after_all(actions).quality >= c.quality,
        c.step_count <= c.after_all(actions).step_count <= c.step_count + actions.len(),
    decreases actions.len(),
{
    if actions.len() > 0 {
        lemma_rotation_monotone(c, actions.drop_last());
        lemma_step_monotone(c.after_all(actions.drop_last()), actions.last());
    }
}

/// A tick takes one step off every running counter, and none off Inner
/// Quiet: no counter loses more than one step.
pub proof fn lemma_tick_steps(buffs: BuffState, buff: Buff)
    ensures
        buff != Buff::InnerQuiet ==> buffs.after_tick().level(buff) == ticked(buffs.level(buff)),
        buffs.after_tick().inner_quiet == buffs.inner_quiet,
        buffs.after_tick().level(buff) <= buffs.level(buff) <= buffs.after_tick().level(buff) + 1,
{
}

/// The catalog of the game has no free touch.
pub proof fn lemma_game_touches_cost(catalog: &ActionList)
    requires
        catalog.wf(),
    ensures
        touches_cost(catalog),
{
}

/// Whether applying `action` sets the counter of `buff` itself: the action
/// grants the buff, or it is a progress action ending Muscle Memory, or a
/// quality action ending Great Strides or adding to Inner Quiet.
pub open spec fn sets_counter(action: &Action, buff: Buff) -> bool {
    ||| (action.buff.is_some() && action.buff.unwrap().0 == buff)
    ||| (buff == Buff::MuscleMemory && action.progress > 0)
    ||| (buff == Buff::GreatStrides && action.quality > 0)
    ||| (buff == Buff::InnerQuiet && action.quality > 0)
}

/// Setting the counter of one buff leaves the counters of the others.
pub proof fn lemma_with_level(buffs: BuffState, set: Buff, value: u8, buff: Buff)
    ensures
        buffs.with_level(set, value).level(set) == value,
        buff != set ==> buffs.with_level(set, value).level(buff) == buffs.level(buff),
{
}

/// After a step the ledger holds Inner Quiet within its cap, and every
/// counter that the action does not set itself has lost one step if it was
/// running, Inner Quiet none.
pub proof fn lemma_buffs_after(buffs: BuffState, action: &Action, buff: Buff)
    ensures
        buffs_after(buffs, action).inner_quiet <= INNER_QUIET_CAP,
        !sets_counter(action, buff) && buff != Buff::InnerQuiet ==> buffs_after(
            buffs,
            action,
        ).level(buff) == ticked(buffs.level(buff)),
        !sets_counter(action, buff) && buff == Buff::InnerQuiet && buffs.inner_quiet
            <= INNER_QUIET_CAP ==> buffs_after(buffs, action).inner_quiet == buffs.inner_quiet,
{
    let quiet = if action.quality > 0 {
        BuffState { inner_quiet: stacked(buffs.inner_quiet, 1), ..buffs }
    } else {
        buffs
    };
    let aged = quiet.after_tick();
    let synth = if action.progress > 0 {
        aged.removed(Buff::MuscleMemory)
    } else {
        aged
    };
    let touch = if action.quality > 0 {
        synth.removed(Buff::GreatStrides)
    } else {
        synth
    };
    let granted = match action.buff {
        Some((set, value)) => touch.applied(set, value),
        None => touch,
    };
    if !sets_counter(action, buff) {
        lemma_tick_steps(quiet, buff);
        assert(aged.level(buff) == if buff == Buff::InnerQuiet {
            buffs.inner_quiet
        } else {
            ticked(buffs.level(buff))
        });
        lemma_with_level(aged, Buff::MuscleMemory, 0, buff);
        assert(synth.level(buff) == aged.level(buff));
        lemma_with_level(synth, Buff::GreatStrides, 0, buff);
        assert(touch.level(buff) == aged.level(buff));
        match action.buff {
            Some((set, value)) => {
                lemma_with_level(touch, set, value, buff);
                lemma_with_level(touch, set, stacked(touch.inner_quiet, value), buff);
            },
            None => {},
        }
        assert(granted.level(buff) == aged.level(buff));
    }
}

/// After an action that can be used, Inner Quiet is within its cap, and
/// every counter that the action does not set itself has lost one step if it
/// was running, Inner Quiet none.
pub proof fn lemma_step_buffs<'a>(c: CraftView<'a>, action: &'a Action, buff: Buff)
    requires
        action.can_use_in(c),
    ensures
        c.after(action).buffs.inner_quiet <= INNER_QUIET_CAP,
        !sets_counter(action, buff) && buff != Buff::InnerQuiet ==> c.after(action).buffs.level(
            buff,
        ) == ticked(c.buffs.level(buff)),
        !sets_counter(action, buff) && buff == Buff::InnerQuiet && c.buffs.inner_quiet
            <= INNER_QUIET_CAP ==> c.after(action).buffs.inner_quiet == c.buffs.inner_quiet,
{
    lemma_buffs_after(c.buffs, action, buff);
}

/// After an action that can be used, durability is within the recipe's.
pub proof fn lemma_step_durability<'a>(c: CraftView<'a>, action: &'a Action)
    requires
        action.can_use_in(c),
    ensures
        c.after(action).durability <= c.after(action).recipe.durability,
        c.after(action).recipe == c.recipe,
{
}

/// An action keeps a craft well formed.
pub proof fn lemma_step_wf<'a>(c: CraftView<'a>, action: &'a Action)
    requires
        c.wf(),
    ensures
        c.after(action).wf(),
{
}

/// Every craft reached from the start by a rotation is well formed: Inner
/// Quiet within its cap, durability within the recipe's.
pub proof fn lemma_rotation_wf<'a>(
    recipe: Recipe,
    stats: Stats,
    params: Parameters,
    catalog: &'a ActionList,
    actions: Seq<&'a Action>,
)
    ensures
        CraftView::start(recipe, stats, params, catalog).after_all(actions).wf(),
    decreases actions.len(),
{
    let start = CraftView::start(recipe, stats, params, catalog);
    if actions.len() > 0 {
        lemma_rotation_wf(recipe, stats, params, catalog, actions.drop_last());
        lemma_step_wf(start.after_all(actions.drop_last()), actions.last());
    }
}

/// The same rotation applied to the same craft gives the same craft.
pub proof fn lemma_replay_same<'a>(a: CraftView<'a>, b: CraftView<'a>, actions: Seq<&'a Action>)
    requires
        a == b,
    ensures
        a.after_all(actions) == b.after_all(actions),
{
}

/// Whether the rotation `path` takes the first phase from craft `c` to a
/// seed: each action is a candidate where it is applied, every craft
/// on the way goes on, and the last one is a seed.
pub open spec fn leads_to_seed<'a>(c: CraftView<'a>, path: Seq<&'a Action>) -> bool
    decreases path.len(),
{
    &&& path.len() > 0
    &&& phase1_candidates(c).contains(path[0])
    &&& if path.len() == 1 {
        is_seed(c.after(path[0]))
    } else {
        goes_on(c.after(path[0])) && leads_to_seed(c.after(path[0]), path.skip(1))
    }
}

proof fn lemma_seeds_by_has<'a>(c: CraftView<'a>, actions: Seq<&'a Action>, j: int)
    requires
        0 <= j < actions.len(),
        is_seed(c.after(actions[j])),
    ensures
        seeds_by(c, actions).contains(seeded(c.after(actions[j]))),
    decreases actions.len(),
{
    let all = seeds_by(c, actions);
    if j < actions.len() - 1 {
        lemma_seeds_by_has(c, actions.drop_last(), j);
        let before = seeds_by(c, actions.drop_last());
        let m = choose|m: int| 0 <= m < before.len() && before[m] == seeded(c.after(actions[j]));
        assert(all[m] == seeded(c.after(actions[j])));
    } else {
        assert(all[all.len() - 1] == seeded(c.after(actions[j])));
    }
}

proof fn lemma_extended_by_has<'a>(c: CraftView<'a>, actions: Seq<&'a Action>, j: int)
    requires
        0 <= j < actions.len(),
        goes_on(c.after(actions[j])),
    ensures
        extended_by(c, actions).contains(c.after(actions[j])),
    decreases actions.len(),
{
    let all = extended_by(c, actions);
    if j < actions.len() - 1 {
        lemma_extended_by_has(c, actions.drop_last(), j);
        let before = extended_by(c, actions.drop_last());
        let m = choose|m: int| 0 <= m < before.len() && before[m] == c.after(actions[j]);
        assert(all[m] == c.after(actions[j]));
    } else {
        assert(all[all.len() - 1] == c.after(actions[j]));
    }
}

/// The first phase finds the seed of every rotation of its candidates that
/// leads from a craft on its list to a seed.
pub proof fn lemma_phase1_finds<'a>(stack: Seq<CraftView<'a>>, k: int, path: Seq<&'a Action>)
    requires
        0 <= k < stack.len(),
        leads_to_seed(stack[k], path),
    ensures
        phase1_found(stack).contains(seeded(stack[k].after_all(path))),
    decreases work_left(stack, Phase::Reach),
{
    let c = stack.last();
    let candidates = phase1_candidates(c);
    let seeds = seeds_by(c, candidates);
    let next = stack.drop_last() + extended_by(c, candidates);
    let goal = seeded(stack[k].after_all(path));
    lemma_take_last(stack, Phase::Reach);
    lemma_after_all_first(stack[k], path);
    if k == stack.len() - 1 && path.len() == 1 {
        let j = choose|j: int| 0 <= j < candidates.len() && candidates[j] == path[0];
        lemma_seeds_by_has(c, candidates, j);
        assert(path.skip(1).len() == 0);
        let m = choose|m: int| 0 <= m < seeds.len() && seeds[m] == goal;
        assert(phase1_found(stack)[m] == goal);
    } else {
        let at = if k == stack.len() - 1 {
            let j = choose|j: int| 0 <= j < candidates.len() && candidates[j] == path[0];
            lemma_extended_by_has(c, candidates, j);
            let deferred = extended_by(c, candidates);
            let m = choose|m: int| 0 <= m < deferred.len() && deferred[m] == c.after(path[0]);
            assert(next[stack.len() - 1 + m] == c.after(path[0]));
            lemma_phase1_finds(next, stack.len() - 1 + m, path.skip(1));
            stack.len() - 1 + m
        } else {
            assert(next[k] == stack[k]);
            lemma_phase1_finds(next, k, path);
            k
        };
        let rest = phase1_found(next);
        let m = choose|m: int| 0 <= m < rest.len() && rest[m] == goal;
        assert(phase1_found(stack)[seeds.len() + m] == goal);
    }
}

/// The first phase, started on one craft, returns the seed of every
/// rotation of its candidates that leads from that craft to a seed: where
/// there is such a rotation, it returns at least one seed.
pub proof fn lemma_phase1_complete<'a>(c: CraftView<'a>, path: Seq<&'a Action>)
    requires
        leads_to_seed(c, path),
    ensures
        phase1_found(seq![c]).contains(seeded(c.after_all(path))),
        phase1_found(seq![c]).len() > 0,
{
    lemma_phase1_finds(seq![c], 0, path);
}

/// What pruning keeps is allowed: no kept action is forbidden, and where
/// only usable actions are wanted, every kept action can be used.
pub proof fn lemma_pruned_allowed<'a>(
    offered: Seq<&'a Action>,
    forbidden: Seq<&'a Action>,
    c: CraftView<'a>,
    usable_only: bool,
    i: int,
)
    requires
        0 <= i < pruned(offered, forbidden, c, usable_only).len(),
    ensures
        !holds_effect(forbidden, pruned(offered, forbidden, c, usable_only)[i]),
        usable_only ==> pruned(offered, forbidden, c, usable_only)[i].can_use_in(c),
    decreases offered.len(),
{
    if offered.len() > 0 {
        if i < pruned(offered.drop_last(), forbidden, c, usable_only).len() {
            lemma_pruned_allowed(offered.drop_last(), forbidden, c, usable_only, i);
        }
    }
}

/// What pruning keeps is free of doubles: no two kept actions have the
/// same costs and efficiencies.
pub proof fn lemma_pruned_distinct<'a>(
    offered: Seq<&'a Action>,
    forbidden: Seq<&'a Action>,
    c: CraftView<'a>,
    usable_only: bool,
    i: int,
    j: int,
)
    requires
        0 <= i < j < pruned(offered, forbidden, c, usable_only).len(),
    ensures
        !pruned(offered, forbidden, c, usable_only)[i].same_effect(
            pruned(offered, forbidden, c, usable_only)[j],
        ),
    decreases offered.len(),
{
    if offered.len() > 0 {
        let before = pruned(offered.drop_last(), forbidden, c, usable_only);
        if j < before.len() {
            lemma_pruned_distinct(offered.drop_last(), forbidden, c, usable_only, i, j);
        } else {
            assert(before[i].same_effect(offered.last()) ==> holds_effect(before, offered.last()));
        }
    }
}

/// Pruning drops nothing it should keep: every offered action that is not
/// forbidden, and can be used where that is asked, is kept or has a kept
/// equal.
pub proof fn lemma_pruned_complete<'a>(
    offered: Seq<&'a Action>,
    forbidden: Seq<&'a Action>,
    c: CraftView<'a>,
    usable_only: bool,
    j: int,
)
    requires
        0 <= j < offered.len(),
        !holds_effect(forbidden, offered[j]),
        usable_only ==> offered[j].can_use_in(c),
    ensures
        holds_effect(pruned(offered, forbidden, c, usable_only), offered[j]),
    decreases offered.len(),
{
    let all = pruned(offered, forbidden, c, usable_only);
    let before = pruned(offered.drop_last(), forbidden, c, usable_only);
    if j < offered.len() - 1 {
        lemma_pruned_complete(offered.drop_last(), forbidden, c, usable_only, j);
        let m = choose|m: int| 0 <= m < before.len() && (#[trigger] before[m]).same_effect(offered[j]);
        assert(all[m].same_effect(offered[j]));
    } else if holds_effect(before, offered[j]) {
        let m = choose|m: int| 0 <= m < before.len() && (#[trigger] before[m]).same_effect(offered[j]);
        assert(all[m].same_effect(offered[j]));
    } else {
        assert(all[all.len() - 1].same_effect(offered[j]));
    }
}

proof fn lemma_closed_by_last<'a>(c: CraftView<'a>, actions: Seq<&'a Action>, i: int)
    requires
        0 <= i < closed_by(c, actions).len(),
    ensures
        closed_by(c, actions)[i].actions.len() > 0,
        is_closing(c, closed_by(c, actions)[i].actions.last()),
        closed_by(c, actions)[i].catalog == c.catalog,
    decreases actions.len(),
{
    if actions.len() > 0 {
        if i < closed_by(c, actions.drop_last()).len() {
            lemma_closed_by_last(c, actions.drop_last(), i);
        }
    }
}

/// Every craft that the second phase closes ends with Byregot's Blessing:
/// nothing is applied to a craft once it is closed.
pub proof fn lemma_found_is_closed<'a>(queue: Seq<CraftView<'a>>, i: int)
    requires
        0 <= i < phase2_found(queue).len(),
    ensures
        phase2_found(queue)[i].actions.len() > 0,
        is_closing(phase2_found(queue)[i], phase2_found(queue)[i].actions.last()),
    decreases work_left(queue, Phase::Refine),
{
    let c = queue.first();
    let candidates = phase2_candidates(c);
    let closed = closed_by(c, candidates);
    let next = queue.drop_first() + touched_by(c, candidates);
    lemma_take_first(queue, Phase::Refine);
    if i < closed.len() {
        lemma_closed_by_last(c, candidates, i);
    } else {
        lemma_found_is_closed(next, i - closed.len());
    }
}

/// The second phase returns at least one craft for every seed.
pub proof fn lemma_phase2_routes_some<'a>(seed: CraftView<'a>)
    ensures
        phase2_routes(seed).len() > 0,
{
}

/// Over a list of seeds the second phase returns at least as many crafts as
/// there are seeds: none only where there is no seed.
pub proof fn lemma_phase2_all_some<'a>(seeds: Seq<CraftView<'a>>)
    requires
        forall|i: int| 0 <= i < seeds.len() ==> touches_cost((#[trigger] seeds[i]).catalog),
    ensures
        phase2_all(seeds).len() >= seeds.len(),
    decreases seeds.len(),
{
    if seeds.len() > 0 {
        lemma_phase2_all_some(seeds.drop_last());
        lemma_phase2_routes_some(seeds.last());
    }
}

/// The crafts that meet the quality target are some of the crafts, and
/// each of them meets it.
pub proof fn lemma_meeting<'a>(routes: Seq<CraftView<'a>>, i: int)
    requires
        0 <= i < meeting(routes).len(),
    ensures
        meeting(routes).len() <= routes.len(),
        routes.contains(meeting(routes)[i]),
        meeting(routes)[i].quality >= meeting(routes)[i].recipe.quality,
    decreases routes.len(),
{
    if routes.len() > 0 {
        let before = meeting(routes.drop_last());
        if i < before.len() {
            lemma_meeting(routes.drop_last(), i);
            let j = choose|j: int| 0 <= j < routes.drop_last().len() && routes.drop_last()[j] == before[i];
            assert(routes[j] == before[i]);
        } else {
            assert(meeting(routes)[i] == routes[routes.len() - 1]);
        }
        if before.len() > 0 {
            lemma_meeting(routes.drop_last(), 0);
        }
    }
}

/// A search that has any craft reports one: where no craft meets the
/// quality target, all crafts are reported, each below the target.
pub proof fn lemma_reported_falls_back<'a>(routes: Seq<CraftView<'a>>)
    requires
        routes.len() > 0,
    ensures
        reported(routes).len() > 0,
        meeting(routes).len() == 0 ==> reported(routes) == routes && forall|i: int|
            0 <= i < routes.len() ==> (#[trigger] routes[i]).quality < routes[i].recipe.quality,
    decreases routes.len(),
{
    if meeting(routes).len() == 0 {
        assert forall|i: int| 0 <= i < routes.len() implies (#[trigger] routes[i]).quality
            < routes[i].recipe.quality by {
            lemma_none_meeting(routes, i);
        }
    }
}

proof fn lemma_none_meeting<'a>(routes: Seq<CraftView<'a>>, i: int)
    requires
        meeting(routes).len() == 0,
        0 <= i < routes.len(),
    ensures
        routes[i].quality < routes[i].recipe.quality,
    decreases routes.len(),
{
    if i < routes.len() - 1 {
        lemma_none_meeting(routes.drop_last(), i);
    }
}

/// The crafts of two lists that meet the quality target are those of the
/// first list followed by those of the second: lists may be merged in any
/// order.
pub proof fn lemma_meeting_concat<'a>(a: Seq<CraftView<'a>>, b: Seq<CraftView<'a>>)
    ensures
        meeting(a + b) == meeting(a) + meeting(b),
    decreases b.len(),
{
    if b.len() == 0 {
        assert(a + b == a);
        assert(meeting(a) + meeting(b) == meeting(a));
    } else {
        assert((a + b).drop_last() == a + b.drop_last());
        assert((a + b).last() == b.last());
        lemma_meeting_concat(a, b.drop_last());
        assert((meeting(a) + meeting(b.drop_last())).push(b.last()) == meeting(a) + meeting(
            b.drop_last(),
        ).push(b.last()));
    }
}

/// The best craft of the second phase is the seed or one of the closed
/// crafts, and none of them is of higher quality.
pub proof fn lemma_best_of<'a>(found: Seq<CraftView<'a>>, seed: CraftView<'a>)
    ensures
        best_of(found, seed) == seed || found.contains(best_of(found, seed)),
        best_of(found, seed).quality >= seed.quality,
        forall|i: int| 0 <= i < found.len() ==> best_of(found, seed).quality >= (#[trigger] found[i]).quality,
    decreases found.len(),
{
    if found.len() > 0 {
        let before = found.drop_last();
        lemma_best_of(before, seed);
        let best = best_of(found, seed);
        if best != seed {
            if best == found.last() {
                assert(found[found.len() - 1] == best);
            } else {
                let m = choose|m: int| 0 <= m < before.len() && before[m] == best;
                assert(found[m] == best);
            }
        }
        assert forall|i: int| 0 <= i < found.len() implies best.quality >= (#[trigger] found[i]).quality by {
            if i < before.len() {
                assert(before[i] == found[i]);
            }
        }
    }
}

/// Every craft that the second phase keeps is one of the closed crafts.
pub proof fn lemma_kept_of<'a>(found: Seq<CraftView<'a>>, seed: CraftView<'a>, i: int)
    requires
        0 <= i < kept_of(found, seed).len(),
    ensures
        found.contains(kept_of(found, seed)[i]),
    decreases found.len(),
{
    if found.len() > 0 {
        let before = kept_of(found.drop_last(), seed);
        if i < before.len() {
            lemma_kept_of(found.drop_last(), seed, i);
            let m = choose|m: int| 0 <= m < found.drop_last().len() && found.drop_last()[m] == before[i];
            assert(found[m] == before[i]);
        } else {
            assert(found[found.len() - 1] == kept_of(found, seed)[i]);
        }
    }
}

proof fn lemma_seeds_by_from<'a>(c: CraftView<'a>, actions: Seq<&'a Action>, i: int)
    requires
        0 <= i < seeds_by(c, actions).len(),
    ensures
        exists|j: int|
            0 <= j < actions.len() && is_seed(c.after(#[trigger] actions[j])) && seeds_by(
                c,
                actions,
            )[i] == seeded(c.after(actions[j])),
    decreases actions.len(),
{
    if actions.len() > 0 {
        let before = seeds_by(c, actions.drop_last());
        if i < before.len() {
            lemma_seeds_by_from(c, actions.drop_last(), i);
            let j = choose|j: int|
                0 <= j < actions.drop_last().len() && is_seed(
                    c.after(#[trigger] actions.drop_last()[j]),
                ) && before[i] == seeded(c.after(actions.drop_last()[j]));
            assert(actions[j] == actions.drop_last()[j]);
        } else {
            assert(seeds_by(c, actions)[i] == seeded(c.after(actions[actions.len() - 1])));
        }
    }
}

/// Every seed that the first phase finds is the seed of a rotation of its
/// candidates that leads there from a craft on its list.
pub proof fn lemma_phase1_sound<'a>(stack: Seq<CraftView<'a>>, i: int) -> (r: (
    int,
    Seq<&'a Action>,
))
    requires
        0 <= i < phase1_found(stack).len(),
    ensures
        0 <= r.0 < stack.len(),
        leads_to_seed(stack[r.0], r.1),
        phase1_found(stack)[i] == seeded(stack[r.0].after_all(r.1)),
    decreases work_left(stack, Phase::Reach),
{
    let c = stack.last();
    let candidates = phase1_candidates(c);
    let seeds = seeds_by(c, candidates);
    let deferred = extended_by(c, candidates);
    let next = stack.drop_last() + deferred;
    lemma_take_last(stack, Phase::Reach);
    if i < seeds.len() {
        lemma_seeds_by_from(c, candidates, i);
        let j = choose|j: int|
            0 <= j < candidates.len() && is_seed(c.after(#[trigger] candidates[j])) && seeds[i]
                == seeded(c.after(candidates[j]));
        let path = seq![candidates[j]];
        assert(path[0] == candidates[j]);
        lemma_after_all_first(c, path);
        assert(path.skip(1).len() == 0);
        (stack.len() - 1, path)
    } else {
        let (k, rest) = lemma_phase1_sound(next, i - seeds.len());
        if k < stack.len() - 1 {
            assert(next[k] == stack[k]);
            (k, rest)
        } else {
            let m = k - (stack.len() - 1);
            assert(next[k] == deferred[m]);
            lemma_extended_by(c, candidates, m);
            let j = choose|j: int|
                0 <= j < candidates.len() && deferred[m] == c.after(#[trigger] candidates[j])
                    && goes_on(c.after(candidates[j]));
            let path = seq![candidates[j]] + rest;
            assert(path[0] == candidates[j]);
            assert(path.skip(1) == rest);
            lemma_after_all_first(c, path);
            (stack.len() - 1, path)
        }
    }
}

/// Whether the rotation `path` takes the second phase from craft `c` to a
/// closed craft: each action is a candidate where it is applied and can be
/// used there, and the last one, and no other, is closing.
pub open spec fn leads_to_close<'a>(c: CraftView<'a>, path: Seq<&'a Action>) -> bool
    decreases path.len(),
{
    &&& path.len() > 0
    &&& phase2_candidates(c).contains(path[0])
    &&& path[0].can_use_in(c)
    &&& if path.len() == 1 {
        is_closing(c, path[0])
    } else {
        !is_closing(c, path[0]) && leads_to_close(c.after(path[0]), path.skip(1))
    }
}

proof fn lemma_closed_by_has<'a>(c: CraftView<'a>, actions: Seq<&'a Action>, j: int)
    requires
        0 <= j < actions.len(),
        actions[j].can_use_in(c),
        is_closing(c, actions[j]),
    ensures
        closed_by(c, actions).contains(c.after(actions[j])),
    decreases actions.len(),
{
    let all = closed_by(c, actions);
    if j < actions.len() - 1 {
        lemma_closed_by_has(c, actions.drop_last(), j);
        let before = closed_by(c, actions.drop_last());
        let m = choose|m: int| 0 <= m < before.len() && before[m] == c.after(actions[j]);
        assert(all[m] == c.after(actions[j]));
    } else {
        assert(all[all.len() - 1] == c.after(actions[j]));
    }
}

proof fn lemma_touched_by_has<'a>(c: CraftView<'a>, actions: Seq<&'a Action>, j: int)
    requires
        0 <= j < actions.len(),
        actions[j].can_use_in(c),
        !is_closing(c, actions[j]),
    ensures
        touched_by(c, actions).contains(c.after(actions[j])),
    decreases actions.len(),
{
    let all = touched_by(c, actions);
    if j < actions.len() - 1 {
        lemma_touched_by_has(c, actions.drop_last(), j);
        let before = touched_by(c, actions.drop_last());
        let m = choose|m: int| 0 <= m < before.len() && before[m] == c.after(actions[j]);
        assert(all[m] == c.after(actions[j]));
    } else {
        assert(all[all.len() - 1] == c.after(actions[j]));
    }
}

proof fn lemma_closed_by_from<'a>(c: CraftView<'a>, actions: Seq<&'a Action>, i: int)
    requires
        0 <= i < closed_by(c, actions).len(),
    ensures
        exists|j: int|
            0 <= j < actions.len() && (#[trigger] actions[j]).can_use_in(c) && is_closing(
                c,
                actions[j],
            ) && closed_by(c, actions)[i] == c.after(actions[j]),
    decreases actions.len(),
{
    if actions.len() > 0 {
        let before = closed_by(c, actions.drop_last());
        if i < before.len() {
            lemma_closed_by_from(c, actions.drop_last(), i);
            let j = choose|j: int|
                0 <= j < actions.drop_last().len() && (#[trigger] actions.drop_last()[j]).can_use_in(
                    c,
                ) && is_closing(c, actions.drop_last()[j]) && before[i] == c.after(
                    actions.drop_last()[j],
                );
            assert(actions[j] == actions.drop_last()[j]);
        } else {
            assert(closed_by(c, actions)[i] == c.after(actions[actions.len() - 1]));
        }
    }
}

proof fn lemma_touched_by_from<'a>(c: CraftView<'a>, actions: Seq<&'a Action>, i: int)
    requires
        0 <= i < touched_by(c, actions).len(),
    ensures
        exists|j: int|
            0 <= j < actions.len() && (#[trigger] actions[j]).can_use_in(c) && !is_closing(
                c,
                actions[j],
            ) && touched_by(c, actions)[i] == c.after(actions[j]),
    decreases actions.len(),
{
    if actions.len() > 0 {
        let before = touched_by(c, actions.drop_last());
        if i < before.len() {
            lemma_touched_by_from(c, actions.drop_last(), i);
            let j = choose|j: int|
                0 <= j < actions.drop_last().len() && (#[trigger] actions.drop_last()[j]).can_use_in(
                    c,
                ) && !is_closing(c, actions.drop_last()[j]) && before[i] == c.after(
                    actions.drop_last()[j],
                );
            assert(actions[j] == actions.drop_last()[j]);
        } else {
            assert(touched_by(c, actions)[i] == c.after(actions[actions.len() - 1]));
        }
    }
}

/// The second phase is exhaustive: it closes the craft of every rotation
/// of its candidates that leads from a craft on its list to a closed craft.
pub proof fn lemma_phase2_finds<'a>(queue: Seq<CraftView<'a>>, k: int, path: Seq<&'a Action>)
    requires
        forall|i: int| 0 <= i < queue.len() ==> touches_cost((#[trigger] queue[i]).catalog),
        0 <= k < queue.len(),
        leads_to_close(queue[k], path),
    ensures
        phase2_found(queue).contains(queue[k].after_all(path)),
    decreases work_left(queue, Phase::Refine),
{
    let c = queue.first();
    let candidates = phase2_candidates(c);
    let closed = closed_by(c, candidates);
    let deferred = touched_by(c, candidates);
    let next = queue.drop_first() + deferred;
    let goal = queue[k].after_all(path);
    lemma_take_first(queue, Phase::Refine);
    lemma_after_all_first(queue[k], path);
    assert forall|i: int| 0 <= i < next.len() implies touches_cost(
        (#[trigger] next[i]).catalog,
    ) by {
        if i >= queue.len() - 1 {
            lemma_touched_by_from(c, candidates, i - (queue.len() - 1));
        } else {
            assert(next[i] == queue[i + 1]);
        }
    }
    if k == 0 && path.len() == 1 {
        let j = choose|j: int| 0 <= j < candidates.len() && candidates[j] == path[0];
        lemma_closed_by_has(c, candidates, j);
        assert(path.skip(1).len() == 0);
        let m = choose|m: int| 0 <= m < closed.len() && closed[m] == goal;
        assert(phase2_found(queue)[m] == goal);
    } else {
        if k == 0 {
            let j = choose|j: int| 0 <= j < candidates.len() && candidates[j] == path[0];
            lemma_touched_by_has(c, candidates, j);
            let m = choose|m: int| 0 <= m < deferred.len() && deferred[m] == c.after(path[0]);
            assert(next[queue.len() - 1 + m] == c.after(path[0]));
            lemma_phase2_finds(next, queue.len() - 1 + m, path.skip(1));
        } else {
            assert(next[k - 1] == queue[k]);
            lemma_phase2_finds(next, k - 1, path);
        }
        let rest = phase2_found(next);
        let m = choose|m: int| 0 <= m < rest.len() && rest[m] == goal;
        assert(phase2_found(queue)[closed.len() + m] == goal);
    }
}

/// Every craft that the second phase closes is the craft of a rotation of
/// its candidates that leads there from a craft on its list.
pub proof fn lemma_phase2_sound<'a>(queue: Seq<CraftView<'a>>, i: int) -> (r: (
    int,
    Seq<&'a Action>,
))
    requires
        0 <= i < phase2_found(queue).len(),
    ensures
        0 <= r.0 < queue.len(),
        leads_to_close(queue[r.0], r.1),
        phase2_found(queue)[i] == queue[r.0].after_all(r.1),
    decreases work_left(queue, Phase::Refine),
{
    let c = queue.first();
    let candidates = phase2_candidates(c);
    let closed = closed_by(c, candidates);
    let deferred = touched_by(c, candidates);
    let next = queue.drop_first() + deferred;
    lemma_take_first(queue, Phase::Refine);
    if i < closed.len() {
        lemma_closed_by_from(c, candidates, i);
        let j = choose|j: int|
            0 <= j < candidates.len() && (#[trigger] candidates[j]).can_use_in(c) && is_closing(
                c,
                candidates[j],
            ) && closed[i] == c.after(candidates[j]);
        let path = seq![candidates[j]];
        assert(path[0] == candidates[j]);
        lemma_after_all_first(c, path);
        assert(path.skip(1).len() == 0);
        (0, path)
    } else {
        let (k, rest) = lemma_phase2_sound(next, i - closed.len());
        if k < queue.len() - 1 {
            assert(next[k] == queue[k + 1]);
            (k + 1, rest)
        } else {
            let m = k - (queue.len() - 1);
            assert(next[k] == deferred[m]);
            lemma_touched_by_from(c, candidates, m);
            let j = choose|j: int|
                0 <= j < candidates.len() && (#[trigger] candidates[j]).can_use_in(c)
                    && !is_closing(c, candidates[j]) && deferred[m] == c.after(candidates[j]);
            let path = seq![candidates[j]] + rest;
            assert(path[0] == candidates[j]);
            assert(path.skip(1) == rest);
            lemma_after_all_first(c, path);
            (0, path)
        }
    }
}

/// Applying a rotation is applying its first action and then the rest.
pub proof fn lemma_after_all_first<'a>(c: CraftView<'a>, actions: Seq<&'a Action>)
    requires
        actions.len() > 0,
    ensures
        c.after_all(actions) == c.after(actions[0]).after_all(actions.skip(1)),
    decreases actions.len(),
{
    if actions.len() == 1 {
        assert(actions.drop_last().len() == 0);
        assert(actions.skip(1).len() == 0);
        assert(actions.last() == actions[0]);
    } else {
        lemma_after_all_first(c, actions.drop_last());
        assert(actions.drop_last()[0] == actions[0]);
        assert(actions.drop_last().skip(1) == actions.skip(1).drop_last());
        assert(actions.skip(1).last() == actions.last());
    }
}

} // verus!
