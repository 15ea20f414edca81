//! What a search hands back: one record per rotation, and a summary.

use crate::craft::{Craft, CraftView};
use crate::frontier::deficit;
use vstd::prelude::*;
use vstd::string::StringExecFns;

verus! {

/// One rotation found by the search, with the state it leaves the craft in.
#[derive(Debug)]
pub struct SolverResult {
    /// Number of steps the rotation takes, the finish not counted.
    pub steps: u32,
    /// Quality at the end.
    pub quality: u32,
    /// Progress before the finish.
    pub progression: u32,
    /// Durability left.
    pub durability: i32,
    /// Crafting points left.
    pub cp: i32,
    /// Crafting points the crafter started with.
    pub total_cp: u32,
    /// Progress the recipe needs.
    pub total_progression: u32,
    /// Quality the recipe aims at.
    pub total_quality: u32,
    /// Durability of the recipe.
    pub total_durability: u32,
    /// The short names of the actions, in order, the finish included.
    pub actions: Vec<String>,
}

/// Summary of a search.
#[derive(Debug, Clone, Copy, PartialEq, Eq, Structural)]
pub struct Info {
    /// Number of seeds the first phase found.
    pub step1_solutions: usize,
    /// Number of crafts the second phase returned over all seeds.
    pub step2_solutions: usize,
    /// Whether a rotation met the quality target.
    pub found_100_percent: bool,
}

impl Info {
    /// A summary with the given counts.
    pub fn new(step1_solutions: usize, step2_solutions: usize, found_100_percent: bool) -> (r:
        Self)
        ensures
            r == (Info { step1_solutions, step2_solutions, found_100_percent }),
    {
        Info { step1_solutions, step2_solutions, found_100_percent }
    }

    /// The summary of a search that found nothing.
    pub fn default() -> (r: Self)
        ensures
            r == (Info { step1_solutions: 0, step2_solutions: 0, found_100_percent: false }),
    {
        Info { step1_solutions: 0, step2_solutions: 0, found_100_percent: false }
    }
}

/// The characters of each string of a list.
pub open spec fn texts(list: Seq<String>) -> Seq<Seq<char>> {
    Seq::new(list.len(), |i: int| list[i]@)
}

/// The short names of the actions applied to a craft, in order.
pub open spec fn short_names(c: CraftView) -> Seq<Seq<char>> {
    Seq::new(c.actions.len(), |i: int| c.actions[i].short_name@)
}

/// The moves that finish craft `c`, by the progress missing: Basic Synthesis
/// below 1.2 times the base progression, Careful Synthesis from there to
/// below 1.8 times, Observe and Focused Synthesis from there to below twice;
/// none where nothing is missing or twice the base progression or more.
pub open spec fn finishing_moves(c: CraftView) -> Seq<Seq<char>> {
    let missing = deficit(c);
    let base = c.base_progression();
    if 0 < missing && 5 * missing < 6 * base {
        seq!["basicSynth2"@]
    } else if 0 < missing && 6 * base <= 5 * missing && 5 * missing < 9 * base {
        seq!["carefulSynthesis"@]
    } else if 0 < missing && 9 * base <= 5 * missing && missing < 2 * base {
        seq!["observe"@, "focusedSynthesis"@]
    } else {
        Seq::empty()
    }
}

/// The canonical text of a list of strings as `Debug` prints it.
pub uninterp spec fn debug_text(list: Seq<Seq<char>>) -> Seq<char>;

/// Formats a list of strings with `Debug`, as `format!("{:?}", ..)` does:
/// the text depends on the characters of the strings alone.
#[verifier::external_body]
fn debug_list(list: &Vec<String>) -> (r: String)
    ensures
        r@ == debug_text(texts(list@)),
{
    format!("{:?}", list)
}

impl SolverResult {
    /// Whether this record describes craft `c`: the numbers of the craft and
    /// of its recipe, the short names of its actions, and the finish.
    pub open spec fn describes(&self, c: CraftView) -> bool {
        &&& self.steps == c.step_count
        &&& self.quality == c.quality
        &&& self.progression == c.progression
        &&& self.durability == c.durability
        &&& self.cp == c.cp
        &&& self.total_cp == c.stats.max_cp
        &&& self.total_progression == c.recipe.progress
        &&& self.total_quality == c.recipe.quality
        &&& self.total_durability == c.recipe.durability
        &&& texts(self.actions@) == short_names(c) + finishing_moves(c)
    }

    /// The record of a craft as the search left it.
    pub fn from_craft(craft: &Craft) -> (r: SolverResult)
        ensures
            r.describes(craft@),
    {
        let mut actions: Vec<String> = Vec::new();
        let n = craft.actions.len();
        let mut i: usize = 0;
        while i < n
            invariant
                n == craft.actions@.len(),
                i <= n,
                actions@.len() == i,
                forall|j: int| 0 <= j < i ==> (#[trigger] actions@[j])@ == craft.actions@[j].short_name@,
            decreases n - i,
        {
            actions.push(craft.actions[i].short_name.clone());
            i = i + 1;
        }
        assert(texts(actions@) =~= short_names(craft@));
        let base: i64 = craft.get_base_progression() as i64;
        let missing: i64 = (craft.recipe.progress as i64) - (craft.progression as i64);
        let ghost named = texts(actions@);
        if 0 < missing && 5 * missing < 6 * base {
            actions.push(String::from_str("basicSynth2"));
            assert(texts(actions@) =~= named + seq!["basicSynth2"@]);
        } else if 0 < missing && 6 * base <= 5 * missing && 5 * missing < 9 * base {
            actions.push(String::from_str("carefulSynthesis"));
            assert(texts(actions@) =~= named + seq!["carefulSynthesis"@]);
        } else if 0 < missing && 9 * base <= 5 * missing && missing < 2 * base {
            actions.push(String::from_str("observe"));
            actions.push(String::from_str("focusedSynthesis"));
            assert(texts(actions@) =~= named + seq!["observe"@, "focusedSynthesis"@]);
        }
        SolverResult {
            steps: craft.step_count,
            progression: craft.progression,
            quality: craft.quality,
            durability: craft.durability,
            actions,
            total_progression: craft.recipe.progress,
            total_quality: craft.recipe.quality,
            total_durability: craft.recipe.durability,
            cp: craft.cp,
            total_cp: craft.stats.max_cp,
        }
    }

    /// Whether this is the made-up record: all numbers at zero, and two
    /// made-up actions.
    pub open spec fn is_made_up(&self) -> bool {
        &&& self.steps == 0
        &&& self.quality == 0
        &&& self.progression == 0
        &&& self.durability == 0
        &&& self.cp == 0
        &&& self.total_cp == 0
        &&& self.total_progression == 0
        &&& self.total_quality == 0
        &&& self.total_durability == 0
        &&& texts(self.actions@) == seq!["Act1"@, "Act2"@]
    }

    /// A record with all numbers at zero and two made-up actions, to try an
    /// interface with.
    pub fn default() -> (r: Self)
        ensures
            r.is_made_up(),
    {
        let mut actions: Vec<String> = Vec::new();
        actions.push(String::from_str("Act1"));
        actions.push(String::from_str("Act2"));
        assert(texts(actions@) =~= seq!["Act1"@, "Act2"@]);
        SolverResult {
            steps: 0,
            progression: 0,
            quality: 0,
            durability: 0,
            total_progression: 0,
            total_quality: 0,
            total_durability: 0,
            actions,
            cp: 0,
            total_cp: 0,
        }
    }

    /// The record as text: its list of actions.
    pub fn to_string(&self) -> (r: String)
        ensures
            r@ == debug_text(texts(self.actions@)),
    {
        debug_list(&self.actions)
    }
}

/// A made-up record, to try an interface with.
pub fn test_result() -> (r: SolverResult)
    ensures
        r.is_made_up(),
{
    SolverResult::default()
}

/// The summary of a search that found nothing, to try an interface with.
pub fn test_info() -> (r: Info)
    ensures
        r == (Info { step1_solutions: 0, step2_solutions: 0, found_100_percent: false }),
{
    Info::default()
}

/// A made-up answer of two records, to try an interface with.
pub fn test_final_results() -> (r: (Vec<SolverResult>, Info))
    ensures
        r.0@.len() == 2,
        r.0@[0].is_made_up(),
        r.0@[1].is_made_up(),
        r.1 == (Info { step1_solutions: 0, step2_solutions: 0, found_100_percent: false }),
{
    let mut results: Vec<SolverResult> = Vec::new();
    results.push(SolverResult::default());
    results.push(SolverResult::default());
    (results, Info::default())
}

} // verus!
