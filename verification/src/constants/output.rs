//! Output formatting configuration.

use vstd::prelude::*;

verus! {

/// Default output format when not specified.
pub const DEFAULT_FORMAT: &'static str = "human";

} // verus!
