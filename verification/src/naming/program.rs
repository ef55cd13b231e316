//! Labels of the three places that every net has from the start.

use vstd::prelude::*;

verus! {

/// Label of the place that holds the initial token.
pub const PROGRAM_START: &'static str = "PROGRAM_START";

/// Label of the place that the program reaches when it ends normally.
pub const PROGRAM_END: &'static str = "PROGRAM_END";

/// Label of the place that the program reaches when it panics.
pub const PROGRAM_PANIC: &'static str = "PROGRAM_PANIC";

} // verus!
