pub mod anchor;
pub mod color;
pub mod ops;
pub mod style;
pub mod backend;
pub mod snowflake;

use vstd::prelude::*;

verus! {

/// The opaque error the drawing-backend interface requires. No operation of
/// the adapter ever produces it; the type only satisfies the interface's
/// associated-error-type requirement.
#[derive(Clone, Copy, Debug, PartialEq, Eq, Structural)]
pub struct OrbtkError;

impl OrbtkError {
    /// A printable description, in place of a formatter-based impl.
    pub fn describe(&self) -> (r: &'static str)
        ensures
            r@ == "OrbtkError"@,
    {
        "OrbtkError"
    }
}

} // verus!
