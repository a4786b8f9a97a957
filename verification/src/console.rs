//! The console window of the host process.

use vstd::prelude::*;

verus! {

/// The console window; opening it is the host's work.
pub struct Console;

} // verus!
