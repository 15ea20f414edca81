//! The two phases of the search: the first brings a craft within reach of
//! completion, the second raises the quality of each craft so found.

use crate::action::{Action, ActionList};
use crate::craft::{views, Craft, CraftView};
use crate::frontier::{
    best_of, closed_by, extended_by, kept_of, lemma_phase1_found_setting, lemma_take_first,
    lemma_take_last, lemma_touched_by, phase1_found, phase2_found, phase2_routes, same_setting,
    seeded, seeds_by, touched_by, touches_cost, work_left, Phase,
    CAREFUL_FINISH_CP, FINISH_DURABILITY, FOCUSED_FINISH_CP,
};
use crate::specs::Success;
use std::collections::VecDeque;
use vstd::prelude::*;

verus! {

/// Step at which the first phase may open Waste Not II.
pub const WASTE_NOT_OPENING_STEP: u32 = 3;

/// Step count beyond which the first phase may renew Waste Not.
pub const WASTE_NOT_RENEWAL_STEP: u32 = 8;

/// Inner Quiet stacks from which the second phase touches only under
/// Innovation.
pub const INNOVATION_FIRST_STACKS: u8 = 2;

/// Inner Quiet stacks from which the second phase no longer renews
/// Manipulation.
pub const MANIPULATION_LAST_STACKS: u8 = 8;

/// Whether a list holds an action with the costs and efficiencies of `a`.
pub open spec fn holds_effect(list: Seq<&Action>, a: &Action) -> bool {
    exists|i: int| 0 <= i < list.len() && (#[trigger] list[i]).same_effect(a)
}

/// The actions of `offered` that are not forbidden and, where `usable_only`
/// is set, can be used in craft `c`; of several with the same costs and
/// efficiencies the first one only. The order of `offered` is kept.
pub open spec fn pruned<'a>(
    offered: Seq<&'a Action>,
    forbidden: Seq<&'a Action>,
    c: CraftView<'a>,
    usable_only: bool,
) -> Seq<&'a Action>
    decreases offered.len(),
{
    if offered.len() == 0 {
        Seq::empty()
    } else {
        let kept = pruned(offered.drop_last(), forbidden, c, usable_only);
        let a = offered.last();
        if !holds_effect(forbidden, a) && (!usable_only || a.can_use_in(c)) && !holds_effect(
            kept,
            a,
        ) {
            kept.push(a)
        } else {
            kept
        }
    }
}

/// `list` if `condition` holds, else nothing.
pub open spec fn only_if<'a>(condition: bool, list: Seq<&'a Action>) -> Seq<&'a Action> {
    if condition {
        list
    } else {
        Seq::empty()
    }
}

/// What the first phase offers from its fourth step on, before pruning:
/// Waste Not II at its opening step; Groundwork under Waste Not or Muscle
/// Memory; the four synthesis actions; in desperate mode Groundwork and
/// Master's Mend; late in the craft a renewal of Waste Not.
pub open spec fn phase1_offered<'a>(c: CraftView<'a>) -> Seq<&'a Action> {
    let cat = c.catalog;
    only_if(c.step_count == WASTE_NOT_OPENING_STEP, seq![&cat.waste_not_ii]) + only_if(
        c.buffs.waste_not > 0 || c.buffs.muscle_memory > 0,
        seq![&cat.groundwork],
    ) + seq![
        &cat.basic_synthesis,
        &cat.careful_synthesis,
        &cat.prudent_synthesis,
        &cat.delicate_synthesis,
    ] + only_if(c.args.desperate, seq![&cat.groundwork, &cat.masters_mend]) + only_if(
        c.step_count > WASTE_NOT_RENEWAL_STEP && c.buffs.waste_not == 0,
        seq![&cat.waste_not_ii, &cat.waste_not],
    )
}

/// What the first phase forbids: the four synthesis actions while Muscle
/// Memory waits for Groundwork, Prudent Synthesis under Waste Not.
pub open spec fn phase1_forbidden<'a>(c: CraftView<'a>) -> Seq<&'a Action> {
    let cat = c.catalog;
    only_if(
        c.buffs.muscle_memory > 0,
        seq![
            &cat.basic_synthesis,
            &cat.careful_synthesis,
            &cat.prudent_synthesis,
            &cat.delicate_synthesis,
        ],
    ) + only_if(c.buffs.waste_not > 0, seq![&cat.prudent_synthesis])
}

/// The actions the first phase tries in craft `c`, in order: none once the
/// craft is over; the fixed opening of Muscle Memory, Manipulation and
/// Veneration on the first three steps; after that what is offered, not
/// forbidden and usable.
pub open spec fn phase1_candidates<'a>(c: CraftView<'a>) -> Seq<&'a Action> {
    if c.success != Success::Pending {
        Seq::empty()
    } else if c.step_count == 0 {
        seq![&c.catalog.muscle_memory]
    } else if c.step_count == 1 {
        seq![&c.catalog.manipulation]
    } else if c.step_count == 2 {
        seq![&c.catalog.veneration]
    } else {
        pruned(phase1_offered(c), phase1_forbidden(c), c, true)
    }
}

/// What the second phase offers, before pruning: the three plain touches;
/// Innovation unless it is active; Manipulation while neither it nor a combo
/// is active and Inner Quiet is low; Preparatory Touch under Waste Not, else
/// Prudent Touch; the next touch of a combo; from the closing stack count on
/// Trained Finesse and Great Strides; Byregot's Blessing under both Great
/// Strides and Innovation.
pub open spec fn phase2_offered<'a>(c: CraftView<'a>) -> Seq<&'a Action> {
    let cat = c.catalog;
    let b = c.buffs;
    seq![&cat.basic_touch, &cat.prudent_touch, &cat.preparatory_touch] + only_if(
        b.innovation == 0,
        seq![&cat.innovation],
    ) + only_if(
        b.manipulation == 0 && b.basic_touch == 0 && b.standard_touch == 0 && b.inner_quiet
            < MANIPULATION_LAST_STACKS,
        seq![&cat.manipulation],
    ) + (if b.waste_not > 0 {
        seq![&cat.preparatory_touch]
    } else {
        seq![&cat.prudent_touch]
    }) + only_if(b.basic_touch > 0, seq![&cat.standard_touch]) + only_if(
        b.standard_touch > 0,
        seq![&cat.advanced_touch],
    ) + only_if(
        b.inner_quiet >= c.args.byregot_step,
        seq![&cat.trained_finesse, &cat.great_strides],
    ) + only_if(b.great_strides > 0 && b.innovation > 0, seq![&cat.byregot_blessing])
}

/// What the second phase forbids: Innovation while it is active; without
/// it, from two stacks of Inner Quiet on, every touch and the Blessing;
/// Prudent Touch under Waste Not, else Preparatory Touch; Basic Touch inside
/// a combo; Trained Finesse and Great Strides under Great Strides.
pub open spec fn phase2_forbidden<'a>(c: CraftView<'a>) -> Seq<&'a Action> {
    let cat = c.catalog;
    let b = c.buffs;
    (if b.innovation > 0 {
        seq![&cat.innovation]
    } else {
        only_if(
            b.inner_quiet >= INNOVATION_FIRST_STACKS,
            seq![
                &cat.basic_touch,
                &cat.standard_touch,
                &cat.advanced_touch,
                &cat.trained_finesse,
                &cat.prudent_touch,
                &cat.preparatory_touch,
                &cat.byregot_blessing,
            ],
        )
    }) + (if b.waste_not > 0 {
        seq![&cat.prudent_touch]
    } else {
        seq![&cat.preparatory_touch]
    }) + only_if(b.basic_touch > 0, seq![&cat.basic_touch]) + only_if(
        b.standard_touch > 0,
        seq![&cat.basic_touch],
    ) + only_if(b.great_strides > 0, seq![&cat.trained_finesse, &cat.great_strides])
}

/// The actions the second phase considers in craft `c`, in order: none once
/// the craft is over, else what is offered and not forbidden. Whether an
/// action can be used is left to the search.
pub open spec fn phase2_candidates<'a>(c: CraftView<'a>) -> Seq<&'a Action> {
    if c.success != Success::Pending {
        Seq::empty()
    } else {
        pruned(phase2_offered(c), phase2_forbidden(c), c, false)
    }
}

/// What a picker hands out for a list of candidates: each action in `Some`,
/// or a single `None` once the craft is over.
pub open spec fn handed_out<'a>(c: CraftView<'a>, candidates: Seq<&'a Action>) -> Seq<
    Option<&'a Action>,
> {
    if c.success != Success::Pending {
        seq![None]
    } else {
        Seq::new(candidates.len(), |i: int| Some(candidates[i]))
    }
}

fn holds(list: &Vec<&Action>, a: &Action) -> (r: bool)
    ensures
        r == holds_effect(list@, a),
{
    let n = list.len();
    let mut i: usize = 0;
    while i < n
        invariant
            n == list@.len(),
            i <= n,
            forall|j: int| 0 <= j < i ==> !(#[trigger] list@[j]).same_effect(a),
        decreases n - i,
    {
        if list[i].is_same(a) {
            return true;
        }
        i = i + 1;
    }
    false
}

fn prune<'a>(
    offered: &Vec<&'a Action>,
    forbidden: &Vec<&'a Action>,
    craft: &Craft<'a>,
    usable_only: bool,
) -> (r: Vec<&'a Action>)
    ensures
        r@ == pruned(offered@, forbidden@, craft@, usable_only),
{
    let n = offered.len();
    let mut kept: Vec<&'a Action> = Vec::new();
    let mut i: usize = 0;
    while i < n
        invariant
            n == offered@.len(),
            i <= n,
            kept@ == pruned(offered@.take(i as int), forbidden@, craft@, usable_only),
        decreases n - i,
    {
        let a = offered[i];
        assert(offered@.take(i + 1).drop_last() == offered@.take(i as int));
        if !holds(forbidden, a) && (!usable_only || a.can_use(craft)) && !holds(&kept, a) {
            kept.push(a);
        }
        i = i + 1;
    }
    assert(offered@.take(n as int) == offered@);
    kept
}

fn hand_out<'a>(craft: &Craft<'a>, candidates: &Vec<&'a Action>) -> (r: Vec<Option<&'a Action>>)
    requires
        craft@.success == Success::Pending,
    ensures
        r@ == handed_out(craft@, candidates@),
{
    let n = candidates.len();
    let mut out: Vec<Option<&'a Action>> = Vec::new();
    let mut i: usize = 0;
    while i < n
        invariant
            n == candidates@.len(),
            i <= n,
            out@.len() == i,
            forall|j: int| 0 <= j < i ==> out@[j] == Some(candidates@[j]),
        decreases n - i,
    {
        out.push(Some(candidates[i]));
        i = i + 1;
    }
    out
}

/// The actions the first phase tries at this stage of the craft.
pub fn next_action_picker_1<'a>(craft: &Craft<'a>) -> (r: Vec<Option<&'a Action>>)
    ensures
        r@ == handed_out(craft@, phase1_candidates(craft@)),
{
    if craft.success != Success::Pending {
        let out: Vec<Option<&'a Action>> = vec![None];
        return out;
    }
    let cat = craft.catalog;
    let mut offered: Vec<&'a Action> = Vec::new();
    let mut forbidden: Vec<&'a Action> = Vec::new();
    if craft.step_count == 0 {
        offered.push(&cat.muscle_memory);
        return hand_out(craft, &offered);
    }
    if craft.step_count == 1 {
        offered.push(&cat.manipulation);
        return hand_out(craft, &offered);
    }
    if craft.step_count == 2 {
        offered.push(&cat.veneration);
        return hand_out(craft, &offered);
    }
    if craft.step_count == WASTE_NOT_OPENING_STEP {
        offered.push(&cat.waste_not_ii);
    }
    if craft.buffs.waste_not > 0 || craft.buffs.muscle_memory > 0 {
        offered.push(&cat.groundwork);
    }
    if craft.buffs.muscle_memory > 0 {
        forbidden.push(&cat.basic_synthesis);
        forbidden.push(&cat.careful_synthesis);
        forbidden.push(&cat.prudent_synthesis);
        forbidden.push(&cat.delicate_synthesis);
    }
    if craft.buffs.waste_not > 0 {
        forbidden.push(&cat.prudent_synthesis);
    }
    offered.push(&cat.basic_synthesis);
    offered.push(&cat.careful_synthesis);
    offered.push(&cat.prudent_synthesis);
    offered.push(&cat.delicate_synthesis);
    if craft.args.desperate {
        offered.push(&cat.groundwork);
        offered.push(&cat.masters_mend);
    }
    if craft.step_count > WASTE_NOT_RENEWAL_STEP && craft.buffs.waste_not == 0 {
        offered.push(&cat.waste_not_ii);
        offered.push(&cat.waste_not);
    }
    assert(offered@ =~= phase1_offered(craft@));
    assert(forbidden@ =~= phase1_forbidden(craft@));
    let kept = prune(&offered, &forbidden, craft, true);
    hand_out(craft, &kept)
}

fn phase2_offer<'a>(craft: &Craft<'a>) -> (r: Vec<&'a Action>)
    ensures
        r@ == phase2_offered(craft@),
{
    let cat = craft.catalog;
    let mut offered: Vec<&'a Action> = Vec::new();
    offered.push(&cat.basic_touch);
    offered.push(&cat.prudent_touch);
    offered.push(&cat.preparatory_touch);
    if craft.buffs.innovation == 0 {
        offered.push(&cat.innovation);
    }
    if craft.buffs.manipulation == 0 && craft.buffs.basic_touch == 0 && craft.buffs.standard_touch
        == 0 && craft.buffs.inner_quiet < MANIPULATION_LAST_STACKS {
        offered.push(&cat.manipulation);
    }
    if craft.buffs.waste_not > 0 {
        offered.push(&cat.preparatory_touch);
    } else {
        offered.push(&cat.prudent_touch);
    }
    if craft.buffs.basic_touch > 0 {
        offered.push(&cat.standard_touch);
    }
    if craft.buffs.standard_touch > 0 {
        offered.push(&cat.advanced_touch);
    }
    if craft.buffs.inner_quiet >= craft.args.byregot_step {
        offered.push(&cat.trained_finesse);
        offered.push(&cat.great_strides);
    }
    if craft.buffs.great_strides > 0 && craft.buffs.innovation > 0 {
        offered.push(&cat.byregot_blessing);
    }
    offered
}

fn phase2_forbid<'a>(craft: &Craft<'a>) -> (r: Vec<&'a Action>)
    ensures
        r@ == phase2_forbidden(craft@),
{
    let cat = craft.catalog;
    let mut forbidden: Vec<&'a Action> = Vec::new();
    if craft.buffs.innovation > 0 {
        forbidden.push(&cat.innovation);
    } else if craft.buffs.inner_quiet >= INNOVATION_FIRST_STACKS {
        forbidden.push(&cat.basic_touch);
        forbidden.push(&cat.standard_touch);
        forbidden.push(&cat.advanced_touch);
        forbidden.push(&cat.trained_finesse);
        forbidden.push(&cat.prudent_touch);
        forbidden.push(&cat.preparatory_touch);
        forbidden.push(&cat.byregot_blessing);
    }
    if craft.buffs.waste_not > 0 {
        forbidden.push(&cat.prudent_touch);
    } else {
        forbidden.push(&cat.preparatory_touch);
    }
    if craft.buffs.basic_touch > 0 {
        forbidden.push(&cat.basic_touch);
    }
    if craft.buffs.standard_touch > 0 {
        forbidden.push(&cat.basic_touch);
    }
    if craft.buffs.great_strides > 0 {
        forbidden.push(&cat.trained_finesse);
        forbidden.push(&cat.great_strides);
    }
    forbidden
}

/// The actions the second phase considers at this stage of the craft.
pub fn next_action_phase_2<'a>(craft: &Craft<'a>) -> (r: Vec<Option<&'a Action>>)
    ensures
        r@ == handed_out(craft@, phase2_candidates(craft@)),
{
    if craft.success != Success::Pending {
        let out: Vec<Option<&'a Action>> = vec![None];
        return out;
    }
    let offered = phase2_offer(craft);
    let forbidden = phase2_forbid(craft);
    let kept = prune(&offered, &forbidden, craft, false);
    hand_out(craft, &kept)
}

/// Tries every candidate of the first phase on `craft`: the seeds go to
/// `routes`, the crafts to extend further go to `stack`.
fn expand_phase1<'a>(craft: &Craft<'a>, routes: &mut Vec<Craft<'a>>, stack: &mut Vec<Craft<'a>>)
    ensures
        views(final(routes)@) == views(old(routes)@) + seeds_by(
            craft@,
            phase1_candidates(craft@),
        ),
        views(final(stack)@) == views(old(stack)@) + extended_by(
            craft@,
            phase1_candidates(craft@),
        ),
{
    let ghost candidates = phase1_candidates(craft@);
    let ghost routes_before = views(routes@);
    let ghost stack_before = views(stack@);
    if craft.success != Success::Pending {
        return ;
    }
    let picks = next_action_picker_1(craft);
    let n = picks.len();
    let mut k: usize = 0;
    while k < n
        invariant
            craft@.success == Success::Pending,
            candidates == phase1_candidates(craft@),
            picks@ == handed_out(craft@, candidates),
            n == candidates.len(),
            k <= n,
            views(routes@) == routes_before + seeds_by(craft@, candidates.take(k as int)),
            views(stack@) == stack_before + extended_by(craft@, candidates.take(k as int)),
        decreases n - k,
    {
        assert(candidates.take(k + 1).drop_last() == candidates.take(k as int));
        match picks[k] {
            Some(a) => {
                let mut next = craft.clone();
                next.run_action(a);
                let ghost after = next@;
                let base: i64 = next.get_base_progression() as i64;
                let deficit: i64 = (next.recipe.progress as i64) - (next.progression as i64);
                if deficit <= 2 * base {
                    if deficit > 0 {
                        let set_aside: i64 = if 5 * deficit <= 6 * base {
                            0
                        } else if 5 * deficit <= 9 * base {
                            CAREFUL_FINISH_CP as i64
                        } else {
                            FOCUSED_FINISH_CP as i64
                        };
                        let cp: i64 = (next.cp as i64) - set_aside;
                        next.cp = if cp < i32::MIN as i64 {
                            i32::MIN
                        } else {
                            cp as i32
                        };
                        let durability: i64 = (next.durability as i64) - (FINISH_DURABILITY as i64);
                        next.durability = if durability < i32::MIN as i64 {
                            i32::MIN
                        } else {
                            durability as i32
                        };
                        let ghost before = views(routes@);
                        routes.push(next);
                        assert(views(routes@) == before.push(seeded(after)));
                    }
                } else if next.step_count < next.args.depth {
                    let ghost before = views(stack@);
                    stack.push(next);
                    assert(views(stack@) == before.push(after));
                }
            },
            None => {},
        }
        k = k + 1;
    }
    assert(candidates.take(n as int) == candidates);
}

/// The first phase: finds the crafts from which the recipe can be finished
/// in one more move. Starting from `craft`, it tries the candidates of each
/// craft in turn, always going on with the craft it put aside last. A craft
/// whose missing progress is at most twice the base progression becomes a
/// seed, with the cost of the finish set aside; one that overshoots is
/// dropped; any other is extended while the depth allows.
pub fn generate_routes_phase1<'a>(craft: Craft<'a>) -> (routes: Vec<Craft<'a>>)
    ensures
        views(routes@) == phase1_found(seq![craft@]),
        forall|i: int| 0 <= i < routes@.len() ==> same_setting((#[trigger] routes@[i])@, craft@),
{
    let ghost root = craft@;
    let mut stack: Vec<Craft<'a>> = Vec::new();
    stack.push(craft);
    let mut routes: Vec<Craft<'a>> = Vec::new();
    while stack.len() > 0
        invariant
            views(routes@) + phase1_found(views(stack@)) == phase1_found(seq![root]),
        decreases work_left(views(stack@), Phase::Reach),
    {
        let ghost before = views(stack@);
        let craft = stack.pop().unwrap();
        assert(views(stack@) == before.drop_last());
        expand_phase1(&craft, &mut routes, &mut stack);
        proof {
            lemma_take_last(before, Phase::Reach);
        }
    }
    assert forall|i: int| 0 <= i < routes@.len() implies same_setting(
        (#[trigger] routes@[i])@,
        root,
    ) by {
        lemma_phase1_found_setting(seq![root], root, i);
    }
    routes
}

/// Tries every candidate of the second phase on `craft`: a closed craft is
/// held against the best so far, any other goes to the queue.
fn expand_phase2<'a>(
    craft: &Craft<'a>,
    top: &mut Craft<'a>,
    tops: &mut Vec<Craft<'a>>,
    queue: &mut VecDeque<Craft<'a>>,
    Ghost(done): Ghost<Seq<CraftView<'a>>>,
    Ghost(seed): Ghost<CraftView<'a>>,
)
    requires
        old(top)@ == best_of(done, seed),
        views(old(tops)@) == kept_of(done, seed),
    ensures
        final(top)@ == best_of(done + closed_by(craft@, phase2_candidates(craft@)), seed),
        views(final(tops)@) == kept_of(
            done + closed_by(craft@, phase2_candidates(craft@)),
            seed,
        ),
        views(final(queue)@) == views(old(queue)@) + touched_by(
            craft@,
            phase2_candidates(craft@),
        ),
{
    let ghost candidates = phase2_candidates(craft@);
    let ghost queue_before = views(queue@);
    if craft.success != Success::Pending {
        return ;
    }
    let picks = next_action_phase_2(craft);
    let n = picks.len();
    let mut k: usize = 0;
    while k < n
        invariant
            craft@.success == Success::Pending,
            candidates == phase2_candidates(craft@),
            picks@ == handed_out(craft@, candidates),
            n == candidates.len(),
            k <= n,
            top@ == best_of(done + closed_by(craft@, candidates.take(k as int)), seed),
            views(tops@) == kept_of(done + closed_by(craft@, candidates.take(k as int)), seed),
            views(queue@) == queue_before + touched_by(craft@, candidates.take(k as int)),
        decreases n - k,
    {
        assert(candidates.take(k + 1).drop_last() == candidates.take(k as int));
        let ghost closed = closed_by(craft@, candidates.take(k as int));
        match picks[k] {
            Some(a) => {
                if a.can_use(craft) {
                    let mut next = craft.clone();
                    next.run_action(a);
                    if a.is_same(&craft.catalog.byregot_blessing) {
                        assert((done + closed.push(next@)).drop_last() == done + closed);
                        if top.quality >= next.recipe.quality {
                            tops.push(next.clone());
                        }
                        if top.quality < next.quality {
                            *top = next;
                        }
                    } else {
                        let ghost before = views(queue@);
                        queue.push_back(next);
                        assert(views(queue@) == before.push(next@));
                    }
                }
            },
            None => {},
        }
        k = k + 1;
    }
    assert(candidates.take(n as int) == candidates);
}

/// Tells whether every action that the second phase may use costs crafting
/// points.
pub fn touches_have_cost(catalog: &ActionList) -> (r: bool)
    ensures
        r == touches_cost(catalog),
{
    catalog.basic_touch.cp > 0 && catalog.prudent_touch.cp > 0 && catalog.preparatory_touch.cp > 0
        && catalog.innovation.cp > 0 && catalog.manipulation.cp > 0 && catalog.standard_touch.cp
        > 0 && catalog.advanced_touch.cp > 0 && catalog.trained_finesse.cp > 0
        && catalog.great_strides.cp > 0 && catalog.byregot_blessing.cp > 0
}

/// The second phase: from a seed, tries every rotation of quality actions
/// that the rules allow, level by level, until crafting points or moves run
/// out. Byregot's Blessing closes a rotation. Returned are the closed crafts
/// found once the best had met the quality target, and last the best craft,
/// which is the seed itself where no rotation raised the quality. With a
/// catalog whose touches are free the search would have no end: nothing is
/// returned.
pub fn generate_routes_phase2<'a>(craft: Craft<'a>) -> (r: Option<Vec<Craft<'a>>>)
    ensures
        r.is_some() == touches_cost(craft@.catalog),
        r matches Some(routes) ==> views(routes@) == phase2_routes(craft@),
{
    if !touches_have_cost(craft.catalog) {
        return None;
    }
    let ghost seed = craft@;
    let mut queue: VecDeque<Craft<'a>> = VecDeque::new();
    let mut top_route = craft.clone();
    let mut top_routes: Vec<Craft<'a>> = Vec::new();
    queue.push_back(craft);
    let ghost done = Seq::<CraftView<'a>>::empty();
    while queue.len() > 0
        invariant
            forall|i: int| 0 <= i < queue@.len() ==> (#[trigger] queue@[i])@.catalog == seed.catalog,
            touches_cost(seed.catalog),
            done + phase2_found(views(queue@)) == phase2_found(seq![seed]),
            top_route@ == best_of(done, seed),
            views(top_routes@) == kept_of(done, seed),
        decreases work_left(views(queue@), Phase::Refine),
    {
        let ghost before = views(queue@);
        let current = queue.pop_front().unwrap();
        assert(views(queue@) == before.drop_first());
        let ghost candidates = phase2_candidates(current@);
        let ghost waiting = queue@;
        expand_phase2(
            &current,
            &mut top_route,
            &mut top_routes,
            &mut queue,
            Ghost(done),
            Ghost(seed),
        );
        proof {
            lemma_take_first(before, Phase::Refine);
            done = done + closed_by(current@, candidates);
            assert forall|i: int| 0 <= i < queue@.len() implies (#[trigger] queue@[i])@.catalog
                == seed.catalog by {
                if i >= waiting.len() {
                    lemma_touched_by(current@, candidates, i - waiting.len());
                    assert(views(queue@)[i] == touched_by(current@, candidates)[i - waiting.len()]);
                } else {
                    assert(views(queue@)[i] == views(waiting)[i]);
                }
            }
        }
    }
    top_routes.push(top_route);
    Some(top_routes)
}

} // verus!
