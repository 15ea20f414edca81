//! The actions a crafter can take, and what each is worth in a given craft.

use crate::craft::{Craft, CraftView};
use crate::numbers::clamp_u32;
use crate::specs::{Buff, Success, INNER_QUIET_CAP};
use crate::text::{compacted, first_lowered, numerals_replaced, short_name, short_name_of};
use vstd::prelude::*;
use vstd::std_specs::cmp::PartialEqSpecImpl;
use vstd::string::StringExecFns;

verus! {

/// Durability an action costs unless it says otherwise.
pub const DEFAULT_DURABILITY_COST: u32 = 10;

/// Crafting points a touch costs when it follows its combo predecessor.
pub const COMBO_CP_COST: u32 = 18;

/// Durability that Master's Mend is charged.
pub const MEND_DURABILITY_COST: u32 = 30;

/// Least durability that an action with an effect costs.
pub const LEAST_DURABILITY_COST: u32 = 5;

/// Base durability cost of the actions that lose half their efficiency when
/// durability falls short of their cost.
pub const HEAVY_DURABILITY_COST: u32 = 20;

/// One entry of the catalog.
#[derive(Debug)]
pub struct Action {
    /// The name as the game shows it.
    pub name: String,
    /// Durability cost before buffs.
    pub dur: u32,
    /// Cost in crafting points before combos.
    pub cp: u32,
    /// Progress efficiency in percent.
    pub progress: u32,
    /// Quality efficiency in percent.
    pub quality: u32,
    /// The buff the action grants, with its duration or stacks.
    pub buff: Option<(Buff, u8)>,
    /// The stable token by which callers know the action.
    pub short_name: String,
}

impl PartialEq for Action {
    /// Actions are told apart by their four costs and efficiencies.
    fn eq(&self, other: &Self) -> (r: bool) {
        self.cp == other.cp && self.dur == other.dur && self.progress == other.progress
            && self.quality == other.quality
    }
}

impl PartialEqSpecImpl for Action {
    open spec fn obeys_eq_spec() -> bool {
        true
    }

    open spec fn eq_spec(&self, other: &Self) -> bool {
        self.cp == other.cp && self.dur == other.dur && self.progress == other.progress
            && self.quality == other.quality
    }
}

impl Clone for Action {
    fn clone(&self) -> (r: Self)
        ensures
            r == *self,
    {
        Action {
            name: self.name.clone(),
            dur: self.dur,
            cp: self.cp,
            progress: self.progress,
            quality: self.quality,
            buff: self.buff,
            short_name: self.short_name.clone(),
        }
    }
}

/// Twice the factor by which buffs raise the efficiency of an action: Muscle
/// Memory or Great Strides adds 100%, Veneration or Innovation 50%.
pub open spec fn doubled_factor(full: u8, half: u8) -> int {
    2 + (if full > 0 {
        2int
    } else {
        0
    }) + (if half > 0 {
        1int
    } else {
        0
    })
}

impl Action {
    /// Whether two actions are the same as far as the rules can tell: they
    /// agree in their costs and efficiencies.
    pub open spec fn same_effect(&self, other: &Action) -> bool {
        self.cp == other.cp && self.dur == other.dur && self.progress == other.progress
            && self.quality == other.quality
    }

    /// Crafting points the action costs in craft `c`: a touch that follows
    /// its combo predecessor costs less.
    pub open spec fn cp_cost_in(&self, c: CraftView) -> u32 {
        if self.same_effect(&c.catalog.standard_touch) && c.buffs.basic_touch > 0 {
            COMBO_CP_COST
        } else if self.same_effect(&c.catalog.advanced_touch) && c.buffs.standard_touch > 0 {
            COMBO_CP_COST
        } else {
            self.cp
        }
    }

    /// Durability the action costs in craft `c`: a fixed charge for Master's
    /// Mend, nothing for an action without effect, else the base cost, halved
    /// under Waste Not, and no less than the least cost.
    pub open spec fn durability_cost_in(&self, c: CraftView) -> u32 {
        if self.same_effect(&c.catalog.masters_mend) {
            MEND_DURABILITY_COST
        } else if self.dur == 0 || (self.progress == 0 && self.quality == 0) {
            0
        } else {
            let cost = if c.buffs.waste_not > 0 {
                self.dur / 2
            } else {
                self.dur
            };
            if cost < LEAST_DURABILITY_COST {
                LEAST_DURABILITY_COST
            } else {
                cost
            }
        }
    }

    /// Whether the action works at half its efficiency in craft `c`: it is a
    /// heavy action and the durability left is less than its cost.
    pub open spec fn halved_in(&self, c: CraftView) -> bool {
        self.dur == HEAVY_DURABILITY_COST && c.durability < self.durability_cost_in(c)
    }

    /// Progress efficiency of the action in craft `c`, in percent: the floor
    /// of the base efficiency, halved where that applies, times the factor of
    /// Muscle Memory and Veneration.
    pub open spec fn progress_in(&self, c: CraftView) -> u32 {
        clamp_u32(
            (self.progress * doubled_factor(c.buffs.muscle_memory, c.buffs.veneration)) / (if
                self.halved_in(c) {
                4int
            } else {
                2int
            }),
        )
    }

    /// Base quality efficiency in craft `c`: Byregot's Blessing is worth 100%
    /// and 20% more for each stack of Inner Quiet.
    pub open spec fn base_quality_in(&self, c: CraftView) -> int {
        if self.same_effect(&c.catalog.byregot_blessing) {
            100 + 20 * c.buffs.inner_quiet
        } else {
            self.quality as int
        }
    }

    /// Quality efficiency of the action in craft `c`, in percent: the floor
    /// of the base efficiency, halved where that applies, times the factor of
    /// Great Strides and Innovation, times one and a tenth for each stack of
    /// Inner Quiet.
    pub open spec fn quality_in(&self, c: CraftView) -> u32 {
        clamp_u32(
            (self.base_quality_in(c) * doubled_factor(c.buffs.great_strides, c.buffs.innovation)
                * (10 + c.buffs.inner_quiet)) / (if self.halved_in(c) {
                40int
            } else {
                20int
            }),
        )
    }

    /// Whether the action can be used in craft `c`: the craft is pending and
    /// has the crafting points; Byregot's Blessing needs a stack of Inner
    /// Quiet, Muscle Memory and Reflect open a craft, Trained Finesse needs
    /// all the stacks.
    pub open spec fn can_use_in(&self, c: CraftView) -> bool {
        if self.cp_cost_in(c) > c.cp {
            false
        } else if c.success != Success::Pending {
            false
        } else if self.same_effect(&c.catalog.byregot_blessing) {
            c.buffs.inner_quiet > 0
        } else if self.same_effect(&c.catalog.muscle_memory) || self.same_effect(
            &c.catalog.reflect,
        ) {
            c.step_count == 0
        } else if self.same_effect(&c.catalog.trained_finesse) {
            c.buffs.inner_quiet >= INNER_QUIET_CAP
        } else {
            true
        }
    }

    /// Tells whether two actions agree in their costs and efficiencies.
    pub fn is_same(&self, other: &Action) -> (r: bool)
        ensures
            r == self.same_effect(other),
    {
        self.cp == other.cp && self.dur == other.dur && self.progress == other.progress
            && self.quality == other.quality
    }

    /// The name as the game shows it.
    pub fn get_name(&self) -> (r: String)
        ensures
            r@ == self.name@,
    {
        self.name.clone()
    }

    /// Crafting points the action costs at this stage of the craft.
    pub fn get_cp_cost(&self, craft: &Craft) -> (r: u32)
        ensures
            r == self.cp_cost_in(craft@),
    {
        if self.is_same(&craft.catalog.standard_touch) && craft.buffs.basic_touch > 0 {
            return COMBO_CP_COST;
        }
        if self.is_same(&craft.catalog.advanced_touch) && craft.buffs.standard_touch > 0 {
            return COMBO_CP_COST;
        }
        self.cp
    }

    /// Durability the action costs at this stage of the craft.
    pub fn get_durability_cost(&self, craft: &Craft) -> (r: u32)
        ensures
            r == self.durability_cost_in(craft@),
    {
        if self.is_same(&craft.catalog.masters_mend) {
            return MEND_DURABILITY_COST;
        }
        if self.dur == 0 || (self.progress == 0 && self.quality == 0) {
            return 0;
        }
        let mut cost = self.dur;
        if craft.buffs.waste_not > 0 {
            cost = cost / 2;
        }
        if cost < LEAST_DURABILITY_COST {
            cost = LEAST_DURABILITY_COST;
        }
        cost
    }

    fn is_halved(&self, craft: &Craft) -> (r: bool)
        ensures
            r == self.halved_in(craft@),
    {
        self.dur == HEAVY_DURABILITY_COST && (craft.durability as i64) < (self.get_durability_cost(
            craft,
        ) as i64)
    }

    /// Progress efficiency of the action at this stage of the craft, in
    /// percent.
    pub fn get_progress(&self, craft: &Craft) -> (r: u32)
        ensures
            r == self.progress_in(craft@),
    {
        let mut factor: u64 = 2;
        if craft.buffs.muscle_memory > 0 {
            factor = factor + 2;
        }
        if craft.buffs.veneration > 0 {
            factor = factor + 1;
        }
        let divisor: u64 = if self.is_halved(craft) {
            4
        } else {
            2
        };
        let percent: u64 = ((self.progress as u64) * factor) / divisor;
        if percent > u32::MAX as u64 {
            u32::MAX
        } else {
            percent as u32
        }
    }

    /// Quality efficiency of the action at this stage of the craft, in
    /// percent.
    pub fn get_quality(&self, craft: &Craft) -> (r: u32)
        ensures
            r == self.quality_in(craft@),
    {
        let stacks: u64 = craft.buffs.inner_quiet as u64;
        let base: u64 = if self.is_same(&craft.catalog.byregot_blessing) {
            100 + 20 * stacks
        } else {
            self.quality as u64
        };
        let mut factor: u64 = 2;
        if craft.buffs.great_strides > 0 {
            factor = factor + 2;
        }
        if craft.buffs.innovation > 0 {
            factor = factor + 1;
        }
        let divisor: u64 = if self.is_halved(craft) {
            40
        } else {
            20
        };
        assert(base * factor <= 0x5_0000_0000) by (nonlinear_arith)
            requires
                base <= 0xffff_ffff,
                factor <= 5,
        ;
        assert(base * factor * (10 + stacks) <= 0x1000_0000_0000) by (nonlinear_arith)
            requires
                base * factor <= 0x5_0000_0000,
                stacks <= 255,
        ;
        let percent: u64 = (base * factor * (10 + stacks)) / divisor;
        if percent > u32::MAX as u64 {
            u32::MAX
        } else {
            percent as u32
        }
    }

    /// The buff the action grants, if any.
    pub fn get_buff(&self) -> (r: Option<(Buff, u8)>)
        ensures
            r == self.buff,
    {
        self.buff
    }

    /// Whether the action can be used at this stage of the craft. This is
    /// about the rules of the game, not about whether the action is worth
    /// using.
    pub fn can_use(&self, craft: &Craft) -> (r: bool)
        ensures
            r == self.can_use_in(craft@),
    {
        if (self.get_cp_cost(craft) as i64) > (craft.cp as i64) {
            return false;
        }
        if craft.success != Success::Pending {
            return false;
        }
        if self.is_same(&craft.catalog.byregot_blessing) {
            return craft.buffs.inner_quiet > 0;
        }
        if self.is_same(&craft.catalog.muscle_memory) || self.is_same(&craft.catalog.reflect) {
            return craft.step_count == 0;
        }
        if self.is_same(&craft.catalog.trained_finesse) {
            return craft.buffs.inner_quiet >= INNER_QUIET_CAP;
        }
        true
    }
}

/// Builds an action field by field.
pub struct ActionBuilder {
    action: Action,
}

impl View for ActionBuilder {
    type V = Action;

    closed spec fn view(&self) -> Action {
        self.action
    }
}

impl ActionBuilder {
    /// Starts an action called `name`: the default durability cost, no other
    /// cost, no effect, no buff, and the short name that belongs to `name`.
    pub fn new(name: &str) -> (r: Self)
        ensures
            r@.name@ == name@,
            r@.short_name@ == short_name_of(name@),
            r@.dur == DEFAULT_DURABILITY_COST,
            r@.cp == 0,
            r@.progress == 0,
            r@.quality == 0,
            r@.buff == None::<(Buff, u8)>,
    {
        ActionBuilder {
            action: Action {
                name: String::from_str(name),
                dur: DEFAULT_DURABILITY_COST,
                cp: 0,
                progress: 0,
                quality: 0,
                buff: None,
                short_name: short_name(name),
            },
        }
    }

    /// Sets the durability cost.
    pub fn dur(self, dur: u32) -> (r: Self)
        ensures
            r@ == (Action { dur: dur, ..self@ }),
    {
        let mut action = self.action;
        action.dur = dur;
        ActionBuilder { action }
    }

    /// Sets the cost in crafting points.
    pub fn cp(self, cp: u32) -> (r: Self)
        ensures
            r@ == (Action { cp: cp, ..self@ }),
    {
        let mut action = self.action;
        action.cp = cp;
        ActionBuilder { action }
    }

    /// Sets the progress efficiency.
    pub fn progress(self, progress: u32) -> (r: Self)
        ensures
            r@ == (Action { progress: progress, ..self@ }),
    {
        let mut action = self.action;
        action.progress = progress;
        ActionBuilder { action }
    }

    /// Sets the quality efficiency.
    pub fn quality(self, quality: u32) -> (r: Self)
        ensures
            r@ == (Action { quality: quality, ..self@ }),
    {
        let mut action = self.action;
        action.quality = quality;
        ActionBuilder { action }
    }

    /// Sets the buff the action grants.
    pub fn buff(self, buff: Option<(Buff, u8)>) -> (r: Self)
        ensures
            r@ == (Action { buff: buff, ..self@ }),
    {
        let mut action = self.action;
        action.buff = buff;
        ActionBuilder { action }
    }

    /// The action as built.
    pub fn build(self) -> (r: Action)
        ensures
            r == self@,
    {
        self.action
    }
}

impl Action {
    /// Whether the action is the catalog entry called `name`, known to
    /// callers as `short`, with the given costs, efficiencies and buff.
    pub open spec fn is_entry(
        &self,
        name: Seq<char>,
        short: Seq<char>,
        dur: u32,
        cp: u32,
        progress: u32,
        quality: u32,
        buff: Option<(Buff, u8)>,
    ) -> bool {
        &&& self.name@ == name
        &&& self.short_name@ == short
        &&& self.dur == dur
        &&& self.cp == cp
        &&& self.progress == progress
        &&& self.quality == quality
        &&& self.buff == buff
    }
}

/// The catalog: one entry for each action the search knows.
#[derive(Debug)]
pub struct ActionList {
    /// Opens a craft: progress at 300%, and the next progress action counts
    /// double. Usable on the first step only.
    pub muscle_memory: Action,
    /// Opens a craft: quality at 100%, and a further stack of Inner Quiet.
    /// Usable on the first step only.
    pub reflect: Action,
    /// Progress at 120%, free of crafting points.
    pub basic_synthesis: Action,
    /// Progress at 180%.
    pub careful_synthesis: Action,
    /// Progress at 360% for twice the durability; half as much when
    /// durability falls short of the cost.
    pub groundwork: Action,
    /// Progress at 180% for half the durability.
    pub prudent_synthesis: Action,
    /// Progress and quality, both at 100%.
    pub delicate_synthesis: Action,
    /// Quality at 100%; opens the touch combo.
    pub basic_touch: Action,
    /// Quality at 125%; cheaper right after Basic Touch.
    pub standard_touch: Action,
    /// Quality at 100% and 20% more for each stack of Inner Quiet, which it
    /// uses up. Needs at least one stack.
    pub byregot_blessing: Action,
    /// Quality at 100% for half the durability.
    pub prudent_touch: Action,
    /// Quality at 200% for twice the durability, and a further stack of
    /// Inner Quiet.
    pub preparatory_touch: Action,
    /// Quality at 150%; cheaper right after Standard Touch.
    pub advanced_touch: Action,
    /// Quality at 100% at no cost to durability. Needs all ten stacks of
    /// Inner Quiet.
    pub trained_finesse: Action,
    /// Mends the item.
    pub masters_mend: Action,
    /// Halves durability loss for four steps.
    pub waste_not: Action,
    /// Halves durability loss for eight steps.
    pub waste_not_ii: Action,
    /// Restores durability after each of the next eight steps.
    pub manipulation: Action,
    /// Adds 50% to progress actions for four steps.
    pub veneration: Action,
    /// Doubles the next quality action within three steps.
    pub great_strides: Action,
    /// Adds 50% to quality actions for four steps.
    pub innovation: Action,
}

impl ActionList {
    /// Whether this is the catalog of the game: every entry has its name and
    /// its numbers.
    pub open spec fn wf(&self) -> bool {
        &&& self.muscle_memory.is_entry(
            "Muscle Memory"@,
            "muscleMemory"@,
            10, 6, 300, 0,
            Some((Buff::MuscleMemory, 5u8)),
        )
        &&& self.reflect.is_entry(
            "Reflect"@,
            "reflect"@,
            10, 6, 0, 100,
            Some((Buff::InnerQuiet, 1u8)),
        )
        &&& self.basic_synthesis.is_entry(
            "Basic Synthesis"@,
            "basicSynth2"@,
            10, 0, 120, 0,
            None::<(Buff, u8)>,
        )
        &&& self.careful_synthesis.is_entry(
            "Careful Synthesis"@,
            "carefulSynthesis"@,
            10, 7, 180, 0,
            None::<(Buff, u8)>,
        )
        &&& self.groundwork.is_entry(
            "Groundwork"@,
            "groundwork"@,
            20, 18, 360, 0,
            None::<(Buff, u8)>,
        )
        &&& self.prudent_synthesis.is_entry(
            "Prudent Synthesis"@,
            "prudentSynthesis"@,
            5, 18, 180, 0,
            None::<(Buff, u8)>,
        )
        &&& self.delicate_synthesis.is_entry(
            "Delicate Synthesis"@,
            "delicateSynthesis"@,
            10, 32, 100, 100,
            None::<(Buff, u8)>,
        )
        &&& self.basic_touch.is_entry(
            "Basic Touch"@,
            "basicTouch"@,
            10, 18, 0, 100,
            Some((Buff::BasicTouch, 1u8)),
        )
        &&& self.standard_touch.is_entry(
            "Standard Touch"@,
            "standardTouch"@,
            10, 32, 0, 125,
            Some((Buff::StandardTouch, 1u8)),
        )
        &&& self.byregot_blessing.is_entry(
            "Byregot's Blessing"@,
            "byregotsBlessing"@,
            10, 24, 0, 100,
            Some((Buff::InnerQuiet, 0u8)),
        )
        &&& self.prudent_touch.is_entry(
            "Prudent Touch"@,
            "prudentTouch"@,
            5, 25, 0, 100,
            None::<(Buff, u8)>,
        )
        &&& self.preparatory_touch.is_entry(
            "Preparatory Touch"@,
            "preparatoryTouch"@,
            20, 40, 0, 200,
            Some((Buff::InnerQuiet, 1u8)),
        )
        &&& self.advanced_touch.is_entry(
            "Advanced Touch"@,
            "advancedTouch"@,
            10, 46, 0, 150,
            None::<(Buff, u8)>,
        )
        &&& self.trained_finesse.is_entry(
            "Trained Finesse"@,
            "trainedFinesse"@,
            0, 32, 0, 100,
            None::<(Buff, u8)>,
        )
        &&& self.masters_mend.is_entry(
            "Master's Mend"@,
            "mastersMend"@,
            10, 88, 0, 0,
            None::<(Buff, u8)>,
        )
        &&& self.waste_not.is_entry(
            "Waste Not"@,
            "wasteNot"@,
            10, 56, 0, 0,
            Some((Buff::WasteNot, 4u8)),
        )
        &&& self.waste_not_ii.is_entry(
            "Waste Not II"@,
            "wasteNot2"@,
            10, 98, 0, 0,
            Some((Buff::WasteNot, 8u8)),
        )
        &&& self.manipulation.is_entry(
            "Manipulation"@,
            "manipulation"@,
            10, 96, 0, 0,
            Some((Buff::Manipulation, 8u8)),
        )
        &&& self.veneration.is_entry(
            "Veneration"@,
            "veneration"@,
            10, 18, 0, 0,
            Some((Buff::Veneration, 4u8)),
        )
        &&& self.great_strides.is_entry(
            "Great Strides"@,
            "greatStrides"@,
            10, 32, 0, 0,
            Some((Buff::GreatStrides, 3u8)),
        )
        &&& self.innovation.is_entry(
            "Innovation"@,
            "innovation"@,
            10, 18, 0, 0,
            Some((Buff::Innovation, 4u8)),
        )
    }
}

// The short name of each entry of the catalog, worked out.

proof fn lemma_short_muscle_memory()
    ensures
        short_name_of("Muscle Memory"@) == "muscleMemory"@,
{
    reveal_strlit("Muscle Memory");
    reveal_strlit("MuscleMemory");
    reveal_strlit("muscleMemory");
    reveal_strlit("Basic Synthesis");
    reveal_with_fuel(numerals_replaced, 20);
    reveal_with_fuel(compacted, 20);
    assert(numerals_replaced("Muscle Memory"@) =~= "Muscle Memory"@);
    assert(compacted("Muscle Memory"@) =~= "MuscleMemory"@);
    assert(first_lowered("MuscleMemory"@) =~= "muscleMemory"@);
}

proof fn lemma_short_reflect()
    ensures
        short_name_of("Reflect"@) == "reflect"@,
{
    reveal_strlit("Reflect");
    reveal_strlit("reflect");
    reveal_strlit("Basic Synthesis");
    reveal_with_fuel(numerals_replaced, 20);
    reveal_with_fuel(compacted, 20);
    assert(numerals_replaced("Reflect"@) =~= "Reflect"@);
    assert(compacted("Reflect"@) =~= "Reflect"@);
    assert(first_lowered("Reflect"@) =~= "reflect"@);
}

proof fn lemma_short_careful_synthesis()
    ensures
        short_name_of("Careful Synthesis"@) == "carefulSynthesis"@,
{
    reveal_strlit("Careful Synthesis");
    reveal_strlit("CarefulSynthesis");
    reveal_strlit("carefulSynthesis");
    reveal_strlit("Basic Synthesis");
    reveal_with_fuel(numerals_replaced, 20);
    reveal_with_fuel(compacted, 20);
    assert(numerals_replaced("Careful Synthesis"@) =~= "Careful Synthesis"@);
    assert(compacted("Careful Synthesis"@) =~= "CarefulSynthesis"@);
    assert(first_lowered("CarefulSynthesis"@) =~= "carefulSynthesis"@);
}

proof fn lemma_short_groundwork()
    ensures
        short_name_of("Groundwork"@) == "groundwork"@,
{
    reveal_strlit("Groundwork");
    reveal_strlit("groundwork");
    reveal_strlit("Basic Synthesis");
    reveal_with_fuel(numerals_replaced, 20);
    reveal_with_fuel(compacted, 20);
    assert(numerals_replaced("Groundwork"@) =~= "Groundwork"@);
    assert(compacted("Groundwork"@) =~= "Groundwork"@);
    assert(first_lowered("Groundwork"@) =~= "groundwork"@);
}

proof fn lemma_short_prudent_synthesis()
    ensures
        short_name_of("Prudent Synthesis"@) == "prudentSynthesis"@,
{
    reveal_strlit("Prudent Synthesis");
    reveal_strlit("PrudentSynthesis");
    reveal_strlit("prudentSynthesis");
    reveal_strlit("Basic Synthesis");
    reveal_with_fuel(numerals_replaced, 20);
    reveal_with_fuel(compacted, 20);
    assert(numerals_replaced("Prudent Synthesis"@) =~= "Prudent Synthesis"@);
    assert(compacted("Prudent Synthesis"@) =~= "PrudentSynthesis"@);
    assert(first_lowered("PrudentSynthesis"@) =~= "prudentSynthesis"@);
}

proof fn lemma_short_delicate_synthesis()
    ensures
        short_name_of("Delicate Synthesis"@) == "delicateSynthesis"@,
{
    reveal_strlit("Delicate Synthesis");
    reveal_strlit("DelicateSynthesis");
    reveal_strlit("delicateSynthesis");
    reveal_strlit("Basic Synthesis");
    reveal_with_fuel(numerals_replaced, 20);
    reveal_with_fuel(compacted, 20);
    assert(numerals_replaced("Delicate Synthesis"@) =~= "Delicate Synthesis"@);
    assert(compacted("Delicate Synthesis"@) =~= "DelicateSynthesis"@);
    assert(first_lowered("DelicateSynthesis"@) =~= "delicateSynthesis"@);
}

proof fn lemma_short_basic_touch()
    ensures
        short_name_of("Basic Touch"@) == "basicTouch"@,
{
    reveal_strlit("Basic Touch");
    reveal_strlit("BasicTouch");
    reveal_strlit("basicTouch");
    reveal_strlit("Basic Synthesis");
    reveal_with_fuel(numerals_replaced, 20);
    reveal_with_fuel(compacted, 20);
    assert(numerals_replaced("Basic Touch"@) =~= "Basic Touch"@);
    assert(compacted("Basic Touch"@) =~= "BasicTouch"@);
    assert(first_lowered("BasicTouch"@) =~= "basicTouch"@);
}

proof fn lemma_short_standard_touch()
    ensures
        short_name_of("Standard Touch"@) == "standardTouch"@,
{
    reveal_strlit("Standard Touch");
    reveal_strlit("StandardTouch");
    reveal_strlit("standardTouch");
    reveal_strlit("Basic Synthesis");
    reveal_with_fuel(numerals_replaced, 20);
    reveal_with_fuel(compacted, 20);
    assert(numerals_replaced("Standard Touch"@) =~= "Standard Touch"@);
    assert(compacted("Standard Touch"@) =~= "StandardTouch"@);
    assert(first_lowered("StandardTouch"@) =~= "standardTouch"@);
}

proof fn lemma_short_byregot_blessing()
    ensures
        short_name_of("Byregot's Blessing"@) == "byregotsBlessing"@,
{
    reveal_strlit("Byregot's Blessing");
    reveal_strlit("ByregotsBlessing");
    reveal_strlit("byregotsBlessing");
    reveal_strlit("Basic Synthesis");
    reveal_with_fuel(numerals_replaced, 20);
    reveal_with_fuel(compacted, 20);
    assert(numerals_replaced("Byregot's Blessing"@) =~= "Byregot's Blessing"@);
    assert(compacted("Byregot's Blessing"@) =~= "ByregotsBlessing"@);
    assert(first_lowered("ByregotsBlessing"@) =~= "byregotsBlessing"@);
}

proof fn lemma_short_prudent_touch()
    ensures
        short_name_of("Prudent Touch"@) == "prudentTouch"@,
{
    reveal_strlit("Prudent Touch");
    reveal_strlit("PrudentTouch");
    reveal_strlit("prudentTouch");
    reveal_strlit("Basic Synthesis");
    reveal_with_fuel(numerals_replaced, 20);
    reveal_with_fuel(compacted, 20);
    assert(numerals_replaced("Prudent Touch"@) =~= "Prudent Touch"@);
    assert(compacted("Prudent Touch"@) =~= "PrudentTouch"@);
    assert(first_lowered("PrudentTouch"@) =~= "prudentTouch"@);
}

proof fn lemma_short_preparatory_touch()
    ensures
        short_name_of("Preparatory Touch"@) == "preparatoryTouch"@,
{
    reveal_strlit("Preparatory Touch");
    reveal_strlit("PreparatoryTouch");
    reveal_strlit("preparatoryTouch");
    reveal_strlit("Basic Synthesis");
    reveal_with_fuel(numerals_replaced, 20);
    reveal_with_fuel(compacted, 20);
    assert(numerals_replaced("Preparatory Touch"@) =~= "Preparatory Touch"@);
    assert(compacted("Preparatory Touch"@) =~= "PreparatoryTouch"@);
    assert(first_lowered("PreparatoryTouch"@) =~= "preparatoryTouch"@);
}

proof fn lemma_short_advanced_touch()
    ensures
        short_name_of("Advanced Touch"@) == "advancedTouch"@,
{
    reveal_strlit("Advanced Touch");
    reveal_strlit("AdvancedTouch");
    reveal_strlit("advancedTouch");
    reveal_strlit("Basic Synthesis");
    reveal_with_fuel(numerals_replaced, 20);
    reveal_with_fuel(compacted, 20);
    assert(numerals_replaced("Advanced Touch"@) =~= "Advanced Touch"@);
    assert(compacted("Advanced Touch"@) =~= "AdvancedTouch"@);
    assert(first_lowered("AdvancedTouch"@) =~= "advancedTouch"@);
}

proof fn lemma_short_trained_finesse()
    ensures
        short_name_of("Trained Finesse"@) == "trainedFinesse"@,
{
    reveal_strlit("Trained Finesse");
    reveal_strlit("TrainedFinesse");
    reveal_strlit("trainedFinesse");
    reveal_strlit("Basic Synthesis");
    reveal_with_fuel(numerals_replaced, 20);
    reveal_with_fuel(compacted, 20);
    assert(numerals_replaced("Trained Finesse"@) =~= "Trained Finesse"@);
    assert(compacted("Trained Finesse"@) =~= "TrainedFinesse"@);
    assert(first_lowered("TrainedFinesse"@) =~= "trainedFinesse"@);
}

proof fn lemma_short_masters_mend()
    ensures
        short_name_of("Master's Mend"@) == "mastersMend"@,
{
    reveal_strlit("Master's Mend");
    reveal_strlit("MastersMend");
    reveal_strlit("mastersMend");
    reveal_strlit("Basic Synthesis");
    reveal_with_fuel(numerals_replaced, 20);
    reveal_with_fuel(compacted, 20);
    assert(numerals_replaced("Master's Mend"@) =~= "Master's Mend"@);
    assert(compacted("Master's Mend"@) =~= "MastersMend"@);
    assert(first_lowered("MastersMend"@) =~= "mastersMend"@);
}

proof fn lemma_short_waste_not()
    ensures
        short_name_of("Waste Not"@) == "wasteNot"@,
{
    reveal_strlit("Waste Not");
    reveal_strlit("WasteNot");
    reveal_strlit("wasteNot");
    reveal_strlit("Basic Synthesis");
    reveal_with_fuel(numerals_replaced, 20);
    reveal_with_fuel(compacted, 20);
    assert(numerals_replaced("Waste Not"@) =~= "Waste Not"@);
    assert(compacted("Waste Not"@) =~= "WasteNot"@);
    assert(first_lowered("WasteNot"@) =~= "wasteNot"@);
}

proof fn lemma_short_waste_not_ii()
    ensures
        short_name_of("Waste Not II"@) == "wasteNot2"@,
{
    reveal_strlit("Waste Not II");
    reveal_strlit("Waste Not 2");
    reveal_strlit("WasteNot2");
    reveal_strlit("wasteNot2");
    reveal_strlit("Basic Synthesis");
    reveal_with_fuel(numerals_replaced, 20);
    reveal_with_fuel(compacted, 20);
    assert(numerals_replaced("Waste Not II"@) =~= "Waste Not 2"@);
    assert(compacted("Waste Not 2"@) =~= "WasteNot2"@);
    assert(first_lowered("WasteNot2"@) =~= "wasteNot2"@);
}

proof fn lemma_short_manipulation()
    ensures
        short_name_of("Manipulation"@) == "manipulation"@,
{
    reveal_strlit("Manipulation");
    reveal_strlit("manipulation");
    reveal_strlit("Basic Synthesis");
    reveal_with_fuel(numerals_replaced, 20);
    reveal_with_fuel(compacted, 20);
    assert(numerals_replaced("Manipulation"@) =~= "Manipulation"@);
    assert(compacted("Manipulation"@) =~= "Manipulation"@);
    assert(first_lowered("Manipulation"@) =~= "manipulation"@);
}

proof fn lemma_short_veneration()
    ensures
        short_name_of("Veneration"@) == "veneration"@,
{
    reveal_strlit("Veneration");
    reveal_strlit("veneration");
    reveal_strlit("Basic Synthesis");
    reveal_with_fuel(numerals_replaced, 20);
    reveal_with_fuel(compacted, 20);
    assert(numerals_replaced("Veneration"@) =~= "Veneration"@);
    assert(compacted("Veneration"@) =~= "Veneration"@);
    assert(first_lowered("Veneration"@) =~= "veneration"@);
}

proof fn lemma_short_great_strides()
    ensures
        short_name_of("Great Strides"@) == "greatStrides"@,
{
    reveal_strlit("Great Strides");
    reveal_strlit("GreatStrides");
    reveal_strlit("greatStrides");
    reveal_strlit("Basic Synthesis");
    reveal_with_fuel(numerals_replaced, 20);
    reveal_with_fuel(compacted, 20);
    assert(numerals_replaced("Great Strides"@) =~= "Great Strides"@);
    assert(compacted("Great Strides"@) =~= "GreatStrides"@);
    assert(first_lowered("GreatStrides"@) =~= "greatStrides"@);
}

proof fn lemma_short_innovation()
    ensures
        short_name_of("Innovation"@) == "innovation"@,
{
    reveal_strlit("Innovation");
    reveal_strlit("innovation");
    reveal_strlit("Basic Synthesis");
    reveal_with_fuel(numerals_replaced, 20);
    reveal_with_fuel(compacted, 20);
    assert(numerals_replaced("Innovation"@) =~= "Innovation"@);
    assert(compacted("Innovation"@) =~= "Innovation"@);
    assert(first_lowered("Innovation"@) =~= "innovation"@);
}

impl Default for ActionList {
    /// The catalog of the game.
    fn default() -> (r: Self)
        ensures
            r.wf(),
    {
        proof {
            lemma_short_muscle_memory();
            lemma_short_reflect();
            lemma_short_careful_synthesis();
            lemma_short_groundwork();
            lemma_short_prudent_synthesis();
            lemma_short_delicate_synthesis();
            lemma_short_basic_touch();
            lemma_short_standard_touch();
            lemma_short_byregot_blessing();
            lemma_short_prudent_touch();
            lemma_short_preparatory_touch();
            lemma_short_advanced_touch();
            lemma_short_trained_finesse();
            lemma_short_masters_mend();
            lemma_short_waste_not();
            lemma_short_waste_not_ii();
            lemma_short_manipulation();
            lemma_short_veneration();
            lemma_short_great_strides();
            lemma_short_innovation();
        }
        ActionList {
            muscle_memory: ActionBuilder::new("Muscle Memory")
                .cp(6)
                .progress(300)
                .buff(Some((Buff::MuscleMemory, 5)))
                .build(),
            reflect: ActionBuilder::new("Reflect")
                .cp(6)
                .quality(100)
                .buff(Some((Buff::InnerQuiet, 1)))
                .build(),
            basic_synthesis: ActionBuilder::new("Basic Synthesis").progress(120).build(),
            careful_synthesis: ActionBuilder::new("Careful Synthesis").cp(7).progress(180).build(),
            groundwork: ActionBuilder::new("Groundwork").dur(20).cp(18).progress(360).build(),
            prudent_synthesis: ActionBuilder::new("Prudent Synthesis")
                .dur(5)
                .cp(18)
                .progress(180)
                .build(),
            delicate_synthesis: ActionBuilder::new("Delicate Synthesis")
                .cp(32)
                .progress(100)
                .quality(100)
                .build(),
            basic_touch: ActionBuilder::new("Basic Touch")
                .cp(18)
                .quality(100)
                .buff(Some((Buff::BasicTouch, 1)))
                .build(),
            standard_touch: ActionBuilder::new("Standard Touch")
                .cp(32)
                .quality(125)
                .buff(Some((Buff::StandardTouch, 1)))
                .build(),
            byregot_blessing: ActionBuilder::new("Byregot's Blessing")
                .cp(24)
                .quality(100)
                .buff(Some((Buff::InnerQuiet, 0)))
                .build(),
            prudent_touch: ActionBuilder::new("Prudent Touch").dur(5).cp(25).quality(100).build(),
            preparatory_touch: ActionBuilder::new("Preparatory Touch")
                .dur(20)
                .cp(40)
                .quality(200)
                .buff(Some((Buff::InnerQuiet, 1)))
                .build(),
            advanced_touch: ActionBuilder::new("Advanced Touch").cp(46).quality(150).build(),
            trained_finesse: ActionBuilder::new("Trained Finesse")
                .dur(0)
                .cp(32)
                .quality(100)
                .build(),
            masters_mend: ActionBuilder::new("Master's Mend").cp(88).build(),
            waste_not: ActionBuilder::new("Waste Not")
                .cp(56)
                .buff(Some((Buff::WasteNot, 4)))
                .build(),
            waste_not_ii: ActionBuilder::new("Waste Not II")
                .cp(98)
                .buff(Some((Buff::WasteNot, 8)))
                .build(),
            manipulation: ActionBuilder::new("Manipulation")
                .cp(96)
                .buff(Some((Buff::Manipulation, 8)))
                .build(),
            veneration: ActionBuilder::new("Veneration")
                .cp(18)
                .buff(Some((Buff::Veneration, 4)))
                .build(),
            great_strides: ActionBuilder::new("Great Strides")
                .cp(32)
                .buff(Some((Buff::GreatStrides, 3)))
                .build(),
            innovation: ActionBuilder::new("Innovation")
                .cp(18)
                .buff(Some((Buff::Innovation, 4)))
                .build(),
        }
    }
}

} // verus!
