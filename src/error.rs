use vstd::prelude::*;

verus! {

/// Why a hash was refused. Both are found before any field arithmetic.
#[derive(Clone, Copy, Debug, PartialEq, Eq, Structural)]
pub enum PoseidonError {
    /// The number of inputs is 0 or above 16.
    InvalidArity,
    /// The byte-oriented entry point was given no input.
    EmptyInput,
}

} // verus!
