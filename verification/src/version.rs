//! The name and version of the program.
use vstd::prelude::*;

verus! {

/// The version of the program.
pub const VERSION: &'static str = "0.11.3";

/// The name and version of the program, as feeds name it.
pub const GENERATOR: &'static str = "rsspls version 0.11.3";

/// The name and version of the program.
#[must_use]
pub fn version_string() -> (r: &'static str)
    ensures
        r@ == "rsspls version 0.11.3"@,
{
    GENERATOR
}

/// The version of the program.
pub fn version() -> (r: &'static str)
    ensures
        r@ == "0.11.3"@,
{
    VERSION
}

} // verus!
