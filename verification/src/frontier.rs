//! The shape of the two searches: which crafts each phase keeps working on,
//! and why the work comes to an end.

use crate::action::{Action, ActionList};
use crate::craft::CraftView;
use crate::numbers::clamp_i32;
use crate::solver::{
    phase1_candidates, phase2_candidates, phase2_forbidden, phase2_offered, pruned, only_if,
    MANIPULATION_LAST_STACKS,
};
use crate::specs::Success;
use vstd::prelude::*;

verus! {

/// Crafting points set aside for a finish by Careful Synthesis.
pub const CAREFUL_FINISH_CP: i32 = 7;

/// Crafting points set aside for a finish by Observe and Focused Synthesis.
pub const FOCUSED_FINISH_CP: i32 = 12;

/// Durability set aside for the finish.
pub const FINISH_DURABILITY: i32 = 10;

/// One of the two phases of the search.
#[derive(Debug, Clone, Copy, PartialEq, Eq, Structural)]
pub enum Phase {
    /// Bringing the craft within reach of completion.
    Reach,
    /// Raising the quality.
    Refine,
}

/// Progress still missing.
pub open spec fn deficit(c: CraftView) -> int {
    c.recipe.progress - c.progression
}

/// Whether the progress missing is at most twice the base progression.
pub open spec fn within_reach(c: CraftView) -> bool {
    deficit(c) <= 2 * c.base_progression()
}

/// Whether the first phase ends a branch in `c` with a seed: progress is
/// missing, but no more than twice the base progression.
pub open spec fn is_seed(c: CraftView) -> bool {
    0 < deficit(c) && within_reach(c)
}

/// Crafting points the finish will cost: none while the progress missing is
/// at most 1.2 times the base progression, those of Careful Synthesis up to
/// 1.8 times, those of Observe and Focused Synthesis beyond.
pub open spec fn finishing_cp(c: CraftView) -> int {
    if 5 * deficit(c) <= 6 * c.base_progression() {
        0
    } else if 5 * deficit(c) <= 9 * c.base_progression() {
        CAREFUL_FINISH_CP as int
    } else {
        FOCUSED_FINISH_CP as int
    }
}

/// The seed made of `c`: the finish is paid for in advance.
pub open spec fn seeded<'a>(c: CraftView<'a>) -> CraftView<'a> {
    CraftView {
        cp: clamp_i32(c.cp - finishing_cp(c)),
        durability: clamp_i32(c.durability - FINISH_DURABILITY),
        ..c
    }
}

/// Whether the first phase keeps extending `c`: it is not within reach yet
/// and the depth allows another step.
pub open spec fn goes_on(c: CraftView) -> bool {
    !within_reach(c) && c.step_count < c.args.depth
}

/// The seeds that the first phase gets from craft `c` by one action of
/// `actions`, in the order of the actions.
pub open spec fn seeds_by<'a>(c: CraftView<'a>, actions: Seq<&'a Action>) -> Seq<CraftView<'a>>
    decreases actions.len(),
{
    if actions.len() == 0 {
        Seq::empty()
    } else {
        let before = seeds_by(c, actions.drop_last());
        let next = c.after(actions.last());
        if is_seed(next) {
            before.push(seeded(next))
        } else {
            before
        }
    }
}

/// The crafts that the first phase gets from craft `c` by one action of
/// `actions` and keeps extending, in the order of the actions.
pub open spec fn extended_by<'a>(c: CraftView<'a>, actions: Seq<&'a Action>) -> Seq<
    CraftView<'a>,
>
    decreases actions.len(),
{
    if actions.len() == 0 {
        Seq::empty()
    } else {
        let before = extended_by(c, actions.drop_last());
        let next = c.after(actions.last());
        if goes_on(next) {
            before.push(next)
        } else {
            before
        }
    }
}

/// Whether `a` ends a branch of the second phase in craft `c`: it is
/// Byregot's Blessing.
pub open spec fn is_closing(c: CraftView, a: &Action) -> bool {
    a.same_effect(&c.catalog.byregot_blessing)
}

/// The crafts that the second phase gets from craft `c` by a closing action
/// of `actions` that can be used, in the order of the actions.
pub open spec fn closed_by<'a>(c: CraftView<'a>, actions: Seq<&'a Action>) -> Seq<CraftView<'a>>
    decreases actions.len(),
{
    if actions.len() == 0 {
        Seq::empty()
    } else {
        let before = closed_by(c, actions.drop_last());
        let a = actions.last();
        if a.can_use_in(c) && is_closing(c, a) {
            before.push(c.after(a))
        } else {
            before
        }
    }
}

/// The crafts that the second phase gets from craft `c` by an action of
/// `actions` that can be used and is not closing, in the order of the
/// actions.
pub open spec fn touched_by<'a>(c: CraftView<'a>, actions: Seq<&'a Action>) -> Seq<CraftView<'a>>
    decreases actions.len(),
{
    if actions.len() == 0 {
        Seq::empty()
    } else {
        let before = touched_by(c, actions.drop_last());
        let a = actions.last();
        if a.can_use_in(c) && !is_closing(c, a) {
            before.push(c.after(a))
        } else {
            before
        }
    }
}

/// The crafts that a phase puts back on its list of work when it takes `c`
/// off it.
pub open spec fn deferred<'a>(c: CraftView<'a>, phase: Phase) -> Seq<CraftView<'a>> {
    match phase {
        Phase::Reach => extended_by(c, phase1_candidates(c)),
        Phase::Refine => touched_by(c, phase2_candidates(c)),
    }
}

/// A bound on the steps a phase can still add to craft `c`, plus one while
/// the craft is pending: the depth left in the first phase, the crafting
/// points left in the second.
pub open spec fn rank(c: CraftView, phase: Phase) -> nat {
    if c.success != Success::Pending {
        0
    } else {
        match phase {
            Phase::Reach => if c.step_count < c.args.depth {
                (1 + c.args.depth - c.step_count) as nat
            } else {
                1
            },
            Phase::Refine => if c.cp > 0 {
                (1 + c.cp) as nat
            } else {
                1
            },
        }
    }
}

/// Whether every craft that a phase defers from `c` is of lower rank.
pub open spec fn descends(c: CraftView, phase: Phase) -> bool {
    forall|i: int|
        0 <= i < deferred(c, phase).len() ==> rank(#[trigger] deferred(c, phase)[i], phase) < rank(
            c,
            phase,
        )
}

/// The number of crafts a phase takes off its list of work on account of
/// `c`: the craft itself and all that come of it.
pub open spec fn tree_size(c: CraftView, phase: Phase) -> nat
    decreases rank(c, phase), 1nat, 0nat,
{
    1 + tree_size_below(c, phase, deferred(c, phase).len())
}

/// The crafts taken off the list on account of the first `k` crafts deferred
/// from `c`, a deferred craft counting only where it is of lower rank than
/// `c`, as `lemma_reach_descends` and `lemma_refine_descends` show it to be.
pub open spec fn tree_size_below(c: CraftView, phase: Phase, k: nat) -> nat
    decreases rank(c, phase), 0nat, k,
{
    if k == 0 {
        0
    } else {
        let next = deferred(c, phase)[k - 1];
        (if k <= deferred(c, phase).len() && rank(next, phase) < rank(c, phase) {
            tree_size(next, phase)
        } else {
            0
        }) + tree_size_below(c, phase, (k - 1) as nat)
    }
}

/// The number of crafts a phase will take off its list of work, given the
/// crafts on it now.
pub open spec fn work_left(list: Seq<CraftView>, phase: Phase) -> nat
    decreases list.len(),
{
    if list.len() == 0 {
        0
    } else {
        work_left(list.drop_last(), phase) + tree_size(list.last(), phase)
    }
}

/// Whether every action that the second phase may use costs crafting
/// points, combo or not.
pub open spec fn touches_cost(catalog: &ActionList) -> bool {
    &&& catalog.basic_touch.cp > 0
    &&& catalog.prudent_touch.cp > 0
    &&& catalog.preparatory_touch.cp > 0
    &&& catalog.innovation.cp > 0
    &&& catalog.manipulation.cp > 0
    &&& catalog.standard_touch.cp > 0
    &&& catalog.advanced_touch.cp > 0
    &&& catalog.trained_finesse.cp > 0
    &&& catalog.great_strides.cp > 0
    &&& catalog.byregot_blessing.cp > 0
}

/// The work left on two lists is the sum of the work left on each.
pub proof fn lemma_work_left_concat(a: Seq<CraftView>, b: Seq<CraftView>, phase: Phase)
    ensures
        work_left(a + b, phase) == work_left(a, phase) + work_left(b, phase),
    decreases b.len(),
{
    if b.len() == 0 {
        assert(a + b == a);
    } else {
        assert((a + b).drop_last() == a + b.drop_last());
        assert((a + b).last() == b.last());
        lemma_work_left_concat(a, b.drop_last(), phase);
    }
}

proof fn lemma_tree_size_below(c: CraftView, phase: Phase, k: nat)
    requires
        descends(c, phase),
        k <= deferred(c, phase).len(),
    ensures
        tree_size_below(c, phase, k) == work_left(deferred(c, phase).take(k as int), phase),
    decreases k,
{
    let d = deferred(c, phase);
    if k > 0 {
        lemma_tree_size_below(c, phase, (k - 1) as nat);
        assert(d.take(k as int).drop_last() == d.take(k - 1));
        assert(d.take(k as int).last() == d[k - 1]);
    } else {
        assert(d.take(0).len() == 0);
    }
}

/// Where the crafts deferred from `c` are of lower rank, the tree of `c` is
/// `c` and the trees of those crafts.
pub proof fn lemma_tree_size(c: CraftView, phase: Phase)
    requires
        descends(c, phase),
    ensures
        tree_size(c, phase) == 1 + work_left(deferred(c, phase), phase),
{
    let d = deferred(c, phase);
    lemma_tree_size_below(c, phase, d.len());
    assert(d.take(d.len() as int) == d);
}

/// Every craft that the first phase keeps extending comes of one of the
/// actions and goes on.
pub proof fn lemma_extended_by<'a>(c: CraftView<'a>, actions: Seq<&'a Action>, i: int)
    requires
        0 <= i < extended_by(c, actions).len(),
    ensures
        exists|j: int|
            0 <= j < actions.len() && extended_by(c, actions)[i] == c.after(#[trigger] actions[j])
                && goes_on(c.after(actions[j])),
    decreases actions.len(),
{
    if actions.len() > 0 {
        let before = extended_by(c, actions.drop_last());
        if i < before.len() {
            lemma_extended_by(c, actions.drop_last(), i);
            let j = choose|j: int|
                0 <= j < actions.drop_last().len() && before[i] == c.after(
                    #[trigger] actions.drop_last()[j],
                ) && goes_on(c.after(actions.drop_last()[j]));
            assert(actions[j] == actions.drop_last()[j]);
        } else {
            assert(extended_by(c, actions)[i] == c.after(actions[actions.len() - 1]));
        }
    }
}

/// Every craft that the second phase keeps working on comes of one of the
/// actions, which could be used.
pub proof fn lemma_touched_by<'a>(c: CraftView<'a>, actions: Seq<&'a Action>, i: int)
    requires
        0 <= i < touched_by(c, actions).len(),
    ensures
        exists|j: int|
            0 <= j < actions.len() && touched_by(c, actions)[i] == c.after(#[trigger] actions[j])
                && actions[j].can_use_in(c),
    decreases actions.len(),
{
    if actions.len() > 0 {
        let before = touched_by(c, actions.drop_last());
        if i < before.len() {
            lemma_touched_by(c, actions.drop_last(), i);
            let j = choose|j: int|
                0 <= j < actions.drop_last().len() && before[i] == c.after(
                    #[trigger] actions.drop_last()[j],
                ) && actions.drop_last()[j].can_use_in(c);
            assert(actions[j] == actions.drop_last()[j]);
        } else {
            assert(touched_by(c, actions)[i] == c.after(actions[actions.len() - 1]));
        }
    }
}

/// In the first phase every deferred craft is nearer to the depth than the
/// craft it comes of.
pub proof fn lemma_reach_descends(c: CraftView)
    ensures
        descends(c, Phase::Reach),
{
    let d = deferred(c, Phase::Reach);
    assert forall|i: int| 0 <= i < d.len() implies rank(#[trigger] d[i], Phase::Reach) < rank(
        c,
        Phase::Reach,
    ) by {
        lemma_extended_by(c, phase1_candidates(c), i);
    }
}

/// Every action that pruning keeps is one of those offered.
pub proof fn lemma_pruned_from<'a>(
    offered: Seq<&'a Action>,
    forbidden: Seq<&'a Action>,
    c: CraftView<'a>,
    usable_only: bool,
    i: int,
)
    requires
        0 <= i < pruned(offered, forbidden, c, usable_only).len(),
    ensures
        exists|j: int|
            0 <= j < offered.len() && pruned(offered, forbidden, c, usable_only)[i]
                == #[trigger] offered[j],
    decreases offered.len(),
{
    if offered.len() > 0 {
        let before = pruned(offered.drop_last(), forbidden, c, usable_only);
        if i < before.len() {
            lemma_pruned_from(offered.drop_last(), forbidden, c, usable_only, i);
            let j = choose|j: int|
                0 <= j < offered.drop_last().len() && before[i] == #[trigger] offered.drop_last()[j];
            assert(offered[j] == offered.drop_last()[j]);
        } else {
            assert(pruned(offered, forbidden, c, usable_only)[i] == offered[offered.len() - 1]);
        }
    }
}

/// Where the touches cost crafting points, so does everything that the
/// second phase offers.
pub proof fn lemma_offered_costs(c: CraftView)
    requires
        touches_cost(c.catalog),
    ensures
        forall|j: int|
            0 <= j < phase2_offered(c).len() ==> (#[trigger] phase2_offered(c)[j]).cp > 0,
{
    let cat = c.catalog;
    let b = c.buffs;
    let plain = seq![&cat.basic_touch, &cat.prudent_touch, &cat.preparatory_touch];
    let boosted = plain + only_if(b.innovation == 0, seq![&cat.innovation]);
    assert forall|j: int| 0 <= j < boosted.len() implies (#[trigger] boosted[j]).cp > 0 by {}
    let mended = boosted + only_if(
        b.manipulation == 0 && b.basic_touch == 0 && b.standard_touch == 0 && b.inner_quiet
            < MANIPULATION_LAST_STACKS,
        seq![&cat.manipulation],
    );
    assert forall|j: int| 0 <= j < mended.len() implies (#[trigger] mended[j]).cp > 0 by {}
    let light = mended + (if b.waste_not > 0 {
        seq![&cat.preparatory_touch]
    } else {
        seq![&cat.prudent_touch]
    });
    assert forall|j: int| 0 <= j < light.len() implies (#[trigger] light[j]).cp > 0 by {}
    let second = light + only_if(b.basic_touch > 0, seq![&cat.standard_touch]);
    assert forall|j: int| 0 <= j < second.len() implies (#[trigger] second[j]).cp > 0 by {}
    let third = second + only_if(b.standard_touch > 0, seq![&cat.advanced_touch]);
    assert forall|j: int| 0 <= j < third.len() implies (#[trigger] third[j]).cp > 0 by {}
    let closing = third + only_if(
        b.inner_quiet >= c.args.byregot_step,
        seq![&cat.trained_finesse, &cat.great_strides],
    );
    assert forall|j: int| 0 <= j < closing.len() implies (#[trigger] closing[j]).cp > 0 by {}
    let all = closing + only_if(b.great_strides > 0 && b.innovation > 0, seq![&cat.byregot_blessing]);
    assert forall|j: int| 0 <= j < all.len() implies (#[trigger] all[j]).cp > 0 by {}
    assert(all == phase2_offered(c));
}

/// Where the touches cost crafting points, every craft that the second
/// phase defers has fewer of them than the craft it comes of.
pub proof fn lemma_refine_descends(c: CraftView)
    requires
        touches_cost(c.catalog),
    ensures
        descends(c, Phase::Refine),
{
    let d = deferred(c, Phase::Refine);
    let candidates = phase2_candidates(c);
    assert forall|i: int| 0 <= i < d.len() implies rank(#[trigger] d[i], Phase::Refine) < rank(
        c,
        Phase::Refine,
    ) by {
        lemma_touched_by(c, candidates, i);
        let j = choose|j: int|
            0 <= j < candidates.len() && d[i] == c.after(#[trigger] candidates[j])
                && candidates[j].can_use_in(c);
        let a = candidates[j];
        lemma_pruned_from(phase2_offered(c), phase2_forbidden(c), c, false, j);
        lemma_offered_costs(c);
        assert(a.cp > 0);
        assert(a.cp_cost_in(c) > 0);
        assert(c.after(a).cp < c.cp);
        assert(c.after(a).success != Success::Pending || c.after(a).cp == c.cp - a.cp_cost_in(c));
    }
}

/// The seeds of the first phase, in the order in which it finds them, when
/// its list of work holds `stack` and it always takes the last craft.
pub open spec fn phase1_found<'a>(stack: Seq<CraftView<'a>>) -> Seq<CraftView<'a>>
    decreases work_left(stack, Phase::Reach),
{
    if stack.len() == 0 {
        Seq::empty()
    } else {
        let c = stack.last();
        let candidates = phase1_candidates(c);
        proof {
            lemma_take_last(stack, Phase::Reach);
        }
        seeds_by(c, candidates) + phase1_found(stack.drop_last() + extended_by(c, candidates))
    }
}

/// The closed crafts of the second phase, in the order in which it finds
/// them, when its list of work holds `queue` and it always takes the first
/// craft. Nothing is said of a catalog whose touches are free.
pub open spec fn phase2_found<'a>(queue: Seq<CraftView<'a>>) -> Seq<CraftView<'a>>
    decreases work_left(queue, Phase::Refine),
{
    if queue.len() == 0 || !touches_cost(queue.first().catalog) {
        Seq::empty()
    } else {
        let c = queue.first();
        let candidates = phase2_candidates(c);
        proof {
            lemma_take_first(queue, Phase::Refine);
        }
        closed_by(c, candidates) + phase2_found(queue.drop_first() + touched_by(c, candidates))
    }
}

/// Taking the last craft off a list and putting back what it defers leaves
/// one craft less to take off.
pub proof fn lemma_take_last(list: Seq<CraftView>, phase: Phase)
    requires
        list.len() > 0,
        descends(list.last(), phase) || phase == Phase::Reach,
    ensures
        work_left(list.drop_last() + deferred(list.last(), phase), phase) + 1 == work_left(
            list,
            phase,
        ),
{
    if phase == Phase::Reach {
        lemma_reach_descends(list.last());
    }
    lemma_tree_size(list.last(), phase);
    lemma_work_left_concat(list.drop_last(), deferred(list.last(), phase), phase);
}

/// Taking the first craft off a list and putting back what it defers leaves
/// one craft less to take off.
pub proof fn lemma_take_first(list: Seq<CraftView>, phase: Phase)
    requires
        list.len() > 0,
        descends(list.first(), phase) || phase == Phase::Reach || touches_cost(
            list.first().catalog,
        ),
    ensures
        work_left(list.drop_first() + deferred(list.first(), phase), phase) + 1 == work_left(
            list,
            phase,
        ),
{
    match phase {
        Phase::Reach => lemma_reach_descends(list.first()),
        Phase::Refine => {
            if touches_cost(list.first().catalog) {
                lemma_refine_descends(list.first());
            }
        },
    }
    lemma_tree_size(list.first(), phase);
    lemma_work_left_concat(list.drop_first(), deferred(list.first(), phase), phase);
    assert(seq![list.first()] + list.drop_first() == list);
    lemma_work_left_concat(seq![list.first()], list.drop_first(), phase);
    assert(seq![list.first()].drop_last() == Seq::<CraftView>::empty());
    assert(seq![list.first()].last() == list.first());
    assert(work_left(Seq::<CraftView>::empty(), phase) == 0);
    assert(work_left(seq![list.first()], phase) == tree_size(list.first(), phase));
}

/// The best craft of the second phase after the closed crafts `found`, in
/// the order in which they were found: the seed, until a craft of higher
/// quality is found; of several of the highest quality the first.
pub open spec fn best_of<'a>(found: Seq<CraftView<'a>>, seed: CraftView<'a>) -> CraftView<'a>
    decreases found.len(),
{
    if found.len() == 0 {
        seed
    } else {
        let best = best_of(found.drop_last(), seed);
        if best.quality < found.last().quality {
            found.last()
        } else {
            best
        }
    }
}

/// The closed crafts that the second phase keeps besides the best one: each
/// craft found when the best before it had already met the quality target.
pub open spec fn kept_of<'a>(found: Seq<CraftView<'a>>, seed: CraftView<'a>) -> Seq<CraftView<'a>>
    decreases found.len(),
{
    if found.len() == 0 {
        Seq::empty()
    } else {
        let kept = kept_of(found.drop_last(), seed);
        if best_of(found.drop_last(), seed).quality >= found.last().recipe.quality {
            kept.push(found.last())
        } else {
            kept
        }
    }
}

/// What the second phase returns for a seed: the crafts it keeps, in the
/// order in which it found them, and last the best one.
pub open spec fn phase2_routes<'a>(seed: CraftView<'a>) -> Seq<CraftView<'a>> {
    let found = phase2_found(seq![seed]);
    kept_of(found, seed).push(best_of(found, seed))
}

/// Whether two crafts are set on the same recipe, stats, settings and
/// catalog.
pub open spec fn same_setting(a: CraftView, b: CraftView) -> bool {
    a.recipe == b.recipe && a.stats == b.stats && a.args == b.args && a.catalog == b.catalog
}

/// Every seed made of `c` keeps its setting.
pub proof fn lemma_seeds_by_setting<'a>(c: CraftView<'a>, actions: Seq<&'a Action>, i: int)
    requires
        0 <= i < seeds_by(c, actions).len(),
    ensures
        same_setting(seeds_by(c, actions)[i], c),
    decreases actions.len(),
{
    if actions.len() > 0 {
        if i < seeds_by(c, actions.drop_last()).len() {
            lemma_seeds_by_setting(c, actions.drop_last(), i);
        }
    }
}

/// Every seed of the first phase is set as the crafts it started from.
pub proof fn lemma_phase1_found_setting<'a>(
    stack: Seq<CraftView<'a>>,
    root: CraftView<'a>,
    i: int,
)
    requires
        forall|k: int| 0 <= k < stack.len() ==> same_setting(#[trigger] stack[k], root),
        0 <= i < phase1_found(stack).len(),
    ensures
        same_setting(phase1_found(stack)[i], root),
    decreases work_left(stack, Phase::Reach),
{
    let c = stack.last();
    let candidates = phase1_candidates(c);
    let seeds = seeds_by(c, candidates);
    let next = stack.drop_last() + extended_by(c, candidates);
    lemma_take_last(stack, Phase::Reach);
    if i < seeds.len() {
        lemma_seeds_by_setting(c, candidates, i);
    } else {
        assert forall|k: int| 0 <= k < next.len() implies same_setting(
            #[trigger] next[k],
            root,
        ) by {
            if k >= stack.len() - 1 {
                lemma_extended_by(c, candidates, k - (stack.len() - 1));
            } else {
                assert(next[k] == stack[k]);
            }
        }
        lemma_phase1_found_setting(next, root, i - seeds.len());
    }
}

} // verus!
