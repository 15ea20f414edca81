//! The state of one craft, and the transition that applies one action to it.

use crate::action::{Action, ActionList};
use crate::io::Parameters;
use crate::numbers::{base_value, clamp_i32, clamp_u32, compute_base_value, compute_gain, gain};
use crate::specs::{Buff, BuffState, Recipe, Stats, Success, INNER_QUIET_CAP, stacked};
use vstd::prelude::*;

verus! {

/// Craftsmanship counts towards progress with this much added, in percent
/// points.
pub const PROGRESS_OFFSET: u32 = 2;

/// Control counts towards quality with this much added, in percent points.
pub const QUALITY_OFFSET: u32 = 35;

/// Durability that Manipulation gives back after a step.
pub const MANIPULATION_REGEN: i32 = 5;

/// One craft in progress: a branch of the search owns one such value.
#[derive(Debug)]
pub struct Craft<'a> {
    /// The recipe being crafted.
    pub recipe: Recipe,
    /// The crafter's stats.
    pub stats: Stats,
    /// The buff ledger.
    pub buffs: BuffState,
    /// Number of actions applied.
    pub step_count: u32,
    /// Durability left; at zero or below the craft has failed.
    pub durability: i32,
    /// Progress made.
    pub progression: u32,
    /// Quality reached.
    pub quality: u32,
    /// Crafting points left.
    pub cp: i32,
    /// Outcome so far.
    pub success: Success,
    /// The actions applied, in order.
    pub actions: Vec<&'a Action>,
    /// The settings of the search.
    pub args: Parameters,
    /// The catalog whose entries the rules name.
    pub catalog: &'a ActionList,
}

/// The mathematical value of a craft.
pub struct CraftView<'a> {
    pub recipe: Recipe,
    pub stats: Stats,
    pub buffs: BuffState,
    pub step_count: u32,
    pub durability: i32,
    pub progression: u32,
    pub quality: u32,
    pub cp: i32,
    pub success: Success,
    pub actions: Seq<&'a Action>,
    pub args: Parameters,
    pub catalog: &'a ActionList,
}

impl<'a> View for Craft<'a> {
    type V = CraftView<'a>;

    open spec fn view(&self) -> CraftView<'a> {
        CraftView {
            recipe: self.recipe,
            stats: self.stats,
            buffs: self.buffs,
            step_count: self.step_count,
            durability: self.durability,
            progression: self.progression,
            quality: self.quality,
            cp: self.cp,
            success: self.success,
            actions: self.actions@,
            args: self.args,
            catalog: self.catalog,
        }
    }
}

/// The mathematical values of a list of crafts.
pub open spec fn views<'a>(crafts: Seq<Craft<'a>>) -> Seq<CraftView<'a>> {
    Seq::new(crafts.len(), |i: int| crafts[i]@)
}

/// The ledger after a step in which `action` was applied: a quality action
/// adds a stack of Inner Quiet, every duration loses a step, a progress
/// action ends Muscle Memory and a quality action Great Strides, the action's
/// own buff is granted, and Inner Quiet is cut off at its cap.
pub open spec fn buffs_after(buffs: BuffState, action: &Action) -> BuffState {
    let quiet = if action.quality > 0 {
        BuffState { inner_quiet: stacked(buffs.inner_quiet, 1), ..buffs }
    } else {
        buffs
    };
    let ticked = quiet.after_tick();
    let synth = if action.progress > 0 {
        ticked.removed(Buff::MuscleMemory)
    } else {
        ticked
    };
    let touch = if action.quality > 0 {
        synth.removed(Buff::GreatStrides)
    } else {
        synth
    };
    let granted = match action.buff {
        Some((buff, value)) => touch.applied(buff, value),
        None => touch,
    };
    if granted.inner_quiet > INNER_QUIET_CAP {
        BuffState { inner_quiet: INNER_QUIET_CAP, ..granted }
    } else {
        granted
    }
}

impl<'a> CraftView<'a> {
    /// A craft at its start: full durability and crafting points, nothing
    /// done, no buff active.
    pub open spec fn start(
        recipe: Recipe,
        stats: Stats,
        params: Parameters,
        catalog: &'a ActionList,
    ) -> CraftView<'a> {
        CraftView {
            recipe,
            stats,
            buffs: BuffState::cleared(),
            step_count: 0,
            durability: clamp_i32(recipe.durability as int),
            progression: 0,
            quality: 0,
            cp: clamp_i32(stats.max_cp as int),
            success: Success::Pending,
            actions: Seq::empty(),
            args: params,
            catalog,
        }
    }

    /// What one percent of progress efficiency is worth to this crafter on
    /// this recipe.
    pub open spec fn base_progression(self) -> u32 {
        base_value(
            self.stats.craftsmanship,
            self.recipe.progress_divider,
            self.recipe.progress_modifier,
            PROGRESS_OFFSET,
        )
    }

    /// What one percent of quality efficiency is worth to this crafter on
    /// this recipe.
    pub open spec fn base_quality(self) -> u32 {
        base_value(
            self.stats.control,
            self.recipe.quality_divider,
            self.recipe.quality_modifier,
            QUALITY_OFFSET,
        )
    }

    /// The craft once the step is counted and the costs of `action` are paid:
    /// the state in which the action's effect is worked out.
    pub open spec fn paid(self, action: &Action) -> CraftView<'a> {
        CraftView {
            step_count: clamp_u32(self.step_count + 1),
            cp: clamp_i32(self.cp - action.cp_cost_in(self)),
            durability: clamp_i32(self.durability - action.durability_cost_in(self)),
            ..self
        }
    }

    /// The craft after `action` is applied to it. An action that cannot be
    /// used fails the craft and changes nothing else.
    pub open spec fn after(self, action: &'a Action) -> CraftView<'a> {
        if !action.can_use_in(self) {
            CraftView { success: Success::Failure, ..self }
        } else {
            let paid = self.paid(action);
            let progression = clamp_u32(
                self.progression + gain(action.progress_in(paid), self.base_progression()),
            );
            let quality = clamp_u32(
                self.quality + gain(action.quality_in(paid), self.base_quality()),
            );
            let regen = if self.buffs.manipulation > 0 {
                MANIPULATION_REGEN as int
            } else {
                0
            };
            let restored = paid.durability + regen;
            CraftView {
                step_count: paid.step_count,
                cp: paid.cp,
                durability: clamp_i32(
                    if restored > self.recipe.durability {
                        self.recipe.durability as int
                    } else {
                        restored
                    },
                ),
                progression,
                quality,
                success: if paid.durability <= 0 {
                    Success::Failure
                } else if progression >= self.recipe.progress {
                    Success::Success
                } else {
                    Success::Pending
                },
                buffs: buffs_after(self.buffs, action),
                actions: self.actions.push(action),
                ..self
            }
        }
    }

    /// The craft after a sequence of actions is applied to it in order.
    pub open spec fn after_all(self, actions: Seq<&'a Action>) -> CraftView<'a>
        decreases actions.len(),
    {
        if actions.len() == 0 {
            self
        } else {
            self.after_all(actions.drop_last()).after(actions.last())
        }
    }

    /// What holds of every craft that started from `Craft::new`: Inner Quiet
    /// is within its cap, durability within the recipe's, and while the step
    /// count has not reached the largest `u32` the action list is as long as
    /// the step count says.
    pub open spec fn wf(self) -> bool {
        &&& self.buffs.inner_quiet <= INNER_QUIET_CAP
        &&& self.durability <= self.recipe.durability
        &&& self.step_count < u32::MAX ==> self.actions.len() == self.step_count
    }
}

impl<'a> Clone for Craft<'a> {
    /// An independent copy: the same state, on the same catalog.
    fn clone(&self) -> (r: Self)
        ensures
            r@ == self@,
    {
        let mut actions: Vec<&'a Action> = Vec::new();
        let n = self.actions.len();
        let mut i: usize = 0;
        while i < n
            invariant
                n == self.actions@.len(),
                i <= n,
                actions@ == self.actions@.take(i as int),
            decreases n - i,
        {
            actions.push(self.actions[i]);
            i = i + 1;
        }
        assert(self.actions@.take(n as int) == self.actions@);
        Craft {
            recipe: self.recipe,
            stats: self.stats,
            buffs: self.buffs,
            step_count: self.step_count,
            durability: self.durability,
            progression: self.progression,
            quality: self.quality,
            cp: self.cp,
            success: self.success,
            actions,
            args: self.args,
            catalog: self.catalog,
        }
    }
}

impl<'a> Craft<'a> {
    /// A craft at its start: full durability and crafting points, nothing
    /// done, no buff active.
    pub fn new(recipe: Recipe, stats: Stats, params: Parameters, catalog: &'a ActionList) -> (r:
        Craft<'a>)
        ensures
            r@ == CraftView::start(recipe, stats, params, catalog),
    {
        Craft {
            recipe,
            stats,
            buffs: BuffState::default(),
            step_count: 0,
            durability: if recipe.durability > i32::MAX as u32 {
                i32::MAX
            } else {
                recipe.durability as i32
            },
            progression: 0,
            quality: 0,
            cp: if stats.max_cp > i32::MAX as u32 {
                i32::MAX
            } else {
                stats.max_cp as i32
            },
            success: Success::Pending,
            actions: Vec::new(),
            args: params,
            catalog,
        }
    }

    /// What one percent of progress efficiency is worth.
    pub fn get_base_progression(&self) -> (r: u32)
        ensures
            r == self@.base_progression(),
    {
        compute_base_value(
            self.stats.craftsmanship,
            self.recipe.progress_divider,
            self.recipe.progress_modifier,
            PROGRESS_OFFSET,
        )
    }

    /// What one percent of quality efficiency is worth.
    pub fn get_base_quality(&self) -> (r: u32)
        ensures
            r == self@.base_quality(),
    {
        compute_base_value(
            self.stats.control,
            self.recipe.quality_divider,
            self.recipe.quality_modifier,
            QUALITY_OFFSET,
        )
    }

    /// Applies one action. An action that cannot be used fails the craft and
    /// changes nothing else. Otherwise the step is counted, the costs are
    /// paid, progress and quality are added, the outcome is settled, and the
    /// buffs move on by one step.
    pub fn run_action(&mut self, action: &'a Action) -> (r: &mut Craft<'a>)
        ensures
            r@ == old(self)@.after(action),
            *final(self) == *final(r),
    {
        if !action.can_use(self) {
            self.success = Success::Failure;
            return self;
        }
        let ghost before = self@;
        self.pay(action);
        let progress = compute_gain(action.get_progress(self), self.get_base_progression());
        let quality = compute_gain(action.get_quality(self), self.get_base_quality());
        self.progression = if progress > u32::MAX - self.progression {
            u32::MAX
        } else {
            self.progression + progress
        };
        self.quality = if quality > u32::MAX - self.quality {
            u32::MAX
        } else {
            self.quality + quality
        };
        if self.progression >= self.recipe.progress {
            self.success = Success::Success;
        }
        if self.durability <= 0 {
            self.success = Success::Failure;
        }
        let mut restored: i64 = self.durability as i64;
        if self.buffs.manipulation > 0 {
            restored = restored + (MANIPULATION_REGEN as i64);
        }
        if restored > self.recipe.durability as i64 {
            restored = self.recipe.durability as i64;
        }
        self.durability = if restored > i32::MAX as i64 {
            i32::MAX
        } else {
            restored as i32
        };
        advance_buffs(&mut self.buffs, action);
        self.actions.push(action);
        self
    }

    /// Counts the step and pays the costs of `action`.
    fn pay(&mut self, action: &Action)
        requires
            action.can_use_in(old(self)@),
        ensures
            final(self)@ == old(self)@.paid(action),
    {
        let cp_cost = action.get_cp_cost(self);
        let durability_cost = action.get_durability_cost(self);
        if self.step_count < u32::MAX {
            self.step_count = self.step_count + 1;
        }
        self.cp = self.cp - (cp_cost as i32);
        let lowered: i64 = (self.durability as i64) - (durability_cost as i64);
        self.durability = if lowered < i32::MIN as i64 {
            i32::MIN
        } else {
            lowered as i32
        };
    }
}

/// Moves the ledger on by the step in which `action` was applied.
fn advance_buffs(buffs: &mut BuffState, action: &Action)
    ensures
        *final(buffs) == buffs_after(*old(buffs), action),
{
    if action.quality > 0 && buffs.inner_quiet < u8::MAX {
        buffs.inner_quiet = buffs.inner_quiet + 1;
    }
    buffs.tick();
    if action.progress > 0 {
        buffs.remove(Buff::MuscleMemory);
    }
    if action.quality > 0 {
        buffs.remove(Buff::GreatStrides);
    }
    match action.get_buff() {
        Some((buff, value)) => buffs.apply(buff, value),
        None => {},
    }
    if buffs.inner_quiet > INNER_QUIET_CAP {
        buffs.inner_quiet = INNER_QUIET_CAP;
    }
}

} // verus!
