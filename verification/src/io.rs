//! Settings of a search, and the command-line arguments they are taken from.

use vstd::prelude::*;

verus! {

/// Search depth used for the first phase.
pub const DEFAULT_DEPTH: u32 = 8;

/// Search depth used for the first phase in desperate mode.
pub const DESPERATE_DEPTH: u32 = 11;

/// Inner Quiet stacks from which the closing moves are tried.
pub const DEFAULT_BYREGOT_STEP: u8 = 8;

/// Inner Quiet stacks from which the closing moves are tried in long mode.
pub const LONG_BYREGOT_STEP: u8 = 6;

/// The settings of one search.
#[derive(Debug, Clone, Copy, PartialEq, Eq, Structural)]
pub struct Parameters {
    /// Number of worker threads a caller may spread the second phase over.
    pub threads: usize,
    /// Verbosity, from 0 to 3.
    pub verbose: u8,
    /// Step count up to which the first phase keeps extending a rotation.
    pub depth: u32,
    /// Whether the first phase may also mend and use its heaviest action.
    pub desperate: bool,
    /// Inner Quiet stacks from which the second phase tries its closing moves.
    pub byregot_step: u8,
}

/// The arguments of the command line.
#[derive(Debug, Clone)]
pub struct Args {
    /// Name of the recipe.
    pub recipe_name: String,
    /// Name of the character.
    pub character_name: String,
    /// Name of the file that holds both.
    pub file_name: String,
    /// Verbosity.
    pub verbose: u8,
    /// Depth of the first phase.
    pub depth: u32,
    /// Number of threads.
    pub threads: usize,
    /// Desperate mode: finish the craft above all.
    pub desperate: bool,
    /// Long mode: look for more solutions, at the expense of time.
    pub long: bool,
}

impl Parameters {
    /// The settings the arguments ask for. The depth follows from the mode
    /// alone, not from the depth argument.
    pub fn from_args(args: &Args) -> (r: Self)
        ensures
            r.depth == (if args.desperate { DESPERATE_DEPTH } else { DEFAULT_DEPTH }),
            r.threads == args.threads,
            r.verbose == args.verbose,
            r.desperate == args.desperate,
            r.byregot_step == (if args.long { LONG_BYREGOT_STEP } else { DEFAULT_BYREGOT_STEP }),
    {
        Parameters {
            depth: if args.desperate { DESPERATE_DEPTH } else { DEFAULT_DEPTH },
            threads: args.threads,
            verbose: args.verbose,
            desperate: args.desperate,
            byregot_step: if args.long { LONG_BYREGOT_STEP } else { DEFAULT_BYREGOT_STEP },
        }
    }
}

} // verus!
