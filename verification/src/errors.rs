use vstd::prelude::*;

verus! {

/// Failures surfaced by the contract operations.
///
/// All three are fail-fast: the enclosing operation aborts and leaves the
/// state unmodified.
#[derive(Clone, Copy, Debug, PartialEq, Eq, Structural)]
pub enum Error {
    /// A referenced identifier is absent from its store.
    NotFound,
    /// The caller is not the owner principal on an owner-gated operation.
    Unauthorized,
    /// The owner principal handed to the constructor is malformed.
    InvalidAccount,
}

} // verus!
