use vstd::prelude::*;

verus! {

/// The ways a synchronous entry point can fail.
///
/// `Unauthorized` is returned when an owner or trust check fails;
/// `NotFound` when a caller has no worker record.  Both abort the call
/// with no state mutated.
#[derive(Clone, Copy, Debug, PartialEq, Eq, Structural)]
pub enum Error {
    Unauthorized,
    NotFound,
}

} // verus!
