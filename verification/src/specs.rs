//! Plain data of a craft: the recipe, the crafter's stats, the buff ledger
//! and the outcome flag.

use vstd::prelude::*;

verus! {

/// The recipe to craft.
#[derive(Debug, Clone, Copy, PartialEq, Eq, Structural)]
pub struct Recipe {
    /// Durability the craft starts with, and the ceiling it is clamped to.
    pub durability: u32,
    /// Progress needed to complete the craft.
    pub progress: u32,
    /// Quality needed for the best grade.
    pub quality: u32,
    /// Divider applied to craftsmanship, in percent.
    pub progress_divider: u32,
    /// Divider applied to control, in percent.
    pub quality_divider: u32,
    /// Multiplier applied to the base progress, in percent.
    pub progress_modifier: u32,
    /// Multiplier applied to the base quality, in percent.
    pub quality_modifier: u32,
}

/// The crafter's attributes.
#[derive(Debug, Clone, Copy, PartialEq, Eq, Structural)]
pub struct Stats {
    /// Drives progress.
    pub craftsmanship: u32,
    /// Drives quality.
    pub control: u32,
    /// Crafting points available at the start.
    pub max_cp: u32,
}

/// The kinds of buff the ledger tracks.
#[derive(Debug, Clone, Copy, PartialEq, Eq, Structural)]
pub enum Buff {
    /// Stacks gained with every quality action, at most ten; each adds 10% to
    /// quality actions.
    InnerQuiet,
    /// Halves durability loss.
    WasteNot,
    /// Doubles the efficiency of the next quality action.
    GreatStrides,
    /// Adds 50% to quality actions.
    Innovation,
    /// Adds 50% to progress actions.
    Veneration,
    /// Restores durability after each step.
    Manipulation,
    /// Doubles the efficiency of the next progress action.
    MuscleMemory,
    /// Combo marker left by Basic Touch.
    BasicTouch,
    /// Combo marker left by Standard Touch.
    StandardTouch,
    /// Combo marker left by Observe.
    Observe,
}

/// Largest number of Inner Quiet stacks a craft keeps.
pub const INNER_QUIET_CAP: u8 = 10;

/// One counter per buff kind: stacks for Inner Quiet, remaining steps for the
/// others, zero meaning inactive.
#[derive(Debug, Clone, Copy, PartialEq, Eq, Structural)]
pub struct BuffState {
    /// Inner Quiet stacks.
    pub inner_quiet: u8,
    /// Steps of Waste Not left.
    pub waste_not: u8,
    /// Steps of Great Strides left.
    pub great_strides: u8,
    /// Steps of Innovation left.
    pub innovation: u8,
    /// Steps of Veneration left.
    pub veneration: u8,
    /// Steps of Manipulation left.
    pub manipulation: u8,
    /// Steps of Muscle Memory left.
    pub muscle_memory: u8,
    /// Steps of the Basic Touch combo left.
    pub basic_touch: u8,
    /// Steps of the Standard Touch combo left.
    pub standard_touch: u8,
    /// Steps of the Observe combo left.
    pub observe: u8,
}

/// A duration after one step has passed.
pub open spec fn ticked(duration: u8) -> u8 {
    if duration > 0 {
        (duration - 1) as u8
    } else {
        0
    }
}

/// Addition of stacks that stops at the largest `u8`.
pub open spec fn stacked(stacks: u8, more: u8) -> u8 {
    if stacks + more > u8::MAX {
        u8::MAX
    } else {
        (stacks + more) as u8
    }
}

impl BuffState {
    /// The ledger with every counter at zero.
    pub open spec fn cleared() -> BuffState {
        BuffState {
            inner_quiet: 0,
            waste_not: 0,
            great_strides: 0,
            innovation: 0,
            veneration: 0,
            manipulation: 0,
            muscle_memory: 0,
            basic_touch: 0,
            standard_touch: 0,
            observe: 0,
        }
    }

    /// The counter of one buff.
    pub open spec fn level(self, buff: Buff) -> u8 {
        match buff {
            Buff::InnerQuiet => self.inner_quiet,
            Buff::WasteNot => self.waste_not,
            Buff::GreatStrides => self.great_strides,
            Buff::Innovation => self.innovation,
            Buff::Veneration => self.veneration,
            Buff::Manipulation => self.manipulation,
            Buff::MuscleMemory => self.muscle_memory,
            Buff::BasicTouch => self.basic_touch,
            Buff::StandardTouch => self.standard_touch,
            Buff::Observe => self.observe,
        }
    }

    /// The ledger with the counter of one buff replaced.
    pub open spec fn with_level(self, buff: Buff, value: u8) -> BuffState {
        match buff {
            Buff::InnerQuiet => BuffState { inner_quiet: value, ..self },
            Buff::WasteNot => BuffState { waste_not: value, ..self },
            Buff::GreatStrides => BuffState { great_strides: value, ..self },
            Buff::Innovation => BuffState { innovation: value, ..self },
            Buff::Veneration => BuffState { veneration: value, ..self },
            Buff::Manipulation => BuffState { manipulation: value, ..self },
            Buff::MuscleMemory => BuffState { muscle_memory: value, ..self },
            Buff::BasicTouch => BuffState { basic_touch: value, ..self },
            Buff::StandardTouch => BuffState { standard_touch: value, ..self },
            Buff::Observe => BuffState { observe: value, ..self },
        }
    }

    /// The ledger after `remove`.
    pub open spec fn removed(self, buff: Buff) -> BuffState {
        self.with_level(buff, 0)
    }

    /// The ledger after `apply`: Inner Quiet gains `value` stacks, or loses
    /// all of them when `value` is zero; any other buff lasts `value` steps.
    pub open spec fn applied(self, buff: Buff, value: u8) -> BuffState {
        if buff == Buff::InnerQuiet && value != 0 {
            self.with_level(buff, stacked(self.inner_quiet, value))
        } else {
            self.with_level(buff, value)
        }
    }

    /// The ledger after `tick`: every duration is one step shorter, Inner
    /// Quiet keeps its stacks.
    pub open spec fn after_tick(self) -> BuffState {
        BuffState {
            inner_quiet: self.inner_quiet,
            waste_not: ticked(self.waste_not),
            great_strides: ticked(self.great_strides),
            innovation: ticked(self.innovation),
            veneration: ticked(self.veneration),
            manipulation: ticked(self.manipulation),
            muscle_memory: ticked(self.muscle_memory),
            basic_touch: ticked(self.basic_touch),
            standard_touch: ticked(self.standard_touch),
            observe: ticked(self.observe),
        }
    }

    /// The ledger a craft starts with: nothing is active.
    pub fn default() -> (r: Self)
        ensures
            r == BuffState::cleared(),
    {
        BuffState {
            inner_quiet: 0,
            waste_not: 0,
            great_strides: 0,
            innovation: 0,
            veneration: 0,
            manipulation: 0,
            muscle_memory: 0,
            basic_touch: 0,
            standard_touch: 0,
            observe: 0,
        }
    }

    /// Zeroes the counter of `buff`.
    pub fn remove(&mut self, buff: Buff)
        ensures
            *final(self) == old(self).removed(buff),
    {
        match buff {
            Buff::InnerQuiet => self.inner_quiet = 0,
            Buff::WasteNot => self.waste_not = 0,
            Buff::GreatStrides => self.great_strides = 0,
            Buff::Innovation => self.innovation = 0,
            Buff::Veneration => self.veneration = 0,
            Buff::Manipulation => self.manipulation = 0,
            Buff::MuscleMemory => self.muscle_memory = 0,
            Buff::BasicTouch => self.basic_touch = 0,
            Buff::StandardTouch => self.standard_touch = 0,
            Buff::Observe => self.observe = 0,
        }
    }

    /// Grants `buff` for `value` steps. Inner Quiet gains `value` stacks
    /// instead, and a `value` of zero takes all its stacks away.
    pub fn apply(&mut self, buff: Buff, value: u8)
        ensures
            *final(self) == old(self).applied(buff, value),
    {
        match buff {
            Buff::InnerQuiet => {
                if value == 0 {
                    self.inner_quiet = 0;
                } else if self.inner_quiet > u8::MAX - value {
                    self.inner_quiet = u8::MAX;
                } else {
                    self.inner_quiet = self.inner_quiet + value;
                }
            },
            Buff::WasteNot => self.waste_not = value,
            Buff::GreatStrides => self.great_strides = value,
            Buff::Innovation => self.innovation = value,
            Buff::Veneration => self.veneration = value,
            Buff::Manipulation => self.manipulation = value,
            Buff::MuscleMemory => self.muscle_memory = value,
            Buff::BasicTouch => self.basic_touch = value,
            Buff::StandardTouch => self.standard_touch = value,
            Buff::Observe => self.observe = value,
        }
    }

    /// Lets one step pass: every active duration loses one step.
    pub fn tick(&mut self)
        ensures
            *final(self) == old(self).after_tick(),
    {
        if self.waste_not > 0 {
            self.waste_not = self.waste_not - 1;
        }
        if self.great_strides > 0 {
            self.great_strides = self.great_strides - 1;
        }
        if self.innovation > 0 {
            self.innovation = self.innovation - 1;
        }
        if self.veneration > 0 {
            self.veneration = self.veneration - 1;
        }
        if self.manipulation > 0 {
            self.manipulation = self.manipulation - 1;
        }
        if self.muscle_memory > 0 {
            self.muscle_memory = self.muscle_memory - 1;
        }
        if self.basic_touch > 0 {
            self.basic_touch = self.basic_touch - 1;
        }
        if self.standard_touch > 0 {
            self.standard_touch = self.standard_touch - 1;
        }
        if self.observe > 0 {
            self.observe = self.observe - 1;
        }
    }
}

/// Outcome of a craft so far.
#[derive(Debug, Clone, Copy, PartialEq, Eq, Structural)]
pub enum Success {
    /// Still being worked on.
    Pending,
    /// The progress target was reached.
    Success,
    /// Durability ran out, or an unusable action was attempted.
    Failure,
}

} // verus!
