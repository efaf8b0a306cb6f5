//! Errors of reading and writing event data.
use vstd::prelude::*;

verus! {

/// Why reading or writing failed.
#[derive(Clone, Copy, Debug, PartialEq, Eq, Structural)]
pub enum Error {
    /// The data does not have the expected form: a field holds a value that
    /// the format does not allow, a name is not in the animation definition,
    /// or the data ends early.
    Invalid,
    /// A size or a count does not fit in its field.
    Overflow,
}

} // verus!
