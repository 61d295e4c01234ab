//! The errors a decode or a descriptor build can report.

use vstd::prelude::*;

verus! {

/// What can go wrong while reading bytes or building a descriptor.
#[derive(Debug, PartialEq, Eq, Hash)]
pub enum BytecodeError {
    /// The bytes are long enough, but no value of the type encodes to them.
    InvalidInstruction,
    /// The bytes end before one value is complete.
    IncompleteInstruction,
    /// A configuration failure, reported while a descriptor is built or when
    /// a value handed to the encoder does not have the shape of its type.
    Other(&'static str),
}

} // verus!
