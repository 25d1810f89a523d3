//! Runtime support for programs that execute inside a restrictive,
//! deterministic virtual machine and receive all of their input through a
//! single pre-serialized byte buffer supplied by the host.
//!
//! The crate interprets that buffer in place: it walks the account section
//! once, hands out lightweight handles to the records it finds, tracks
//! shared and exclusive access grants to each record's balance and data
//! through a single status byte, supports in-place growth of a record's
//! data region under the host's growth ceiling, and marshals handles into
//! the fixed binary descriptors that the host's invoke call expects.

use vstd::prelude::*;

pub mod account_info;
pub mod borrow_state;
pub mod buffer;
pub mod cpi;
pub mod input;
pub mod layout;
pub mod system;

verus! {

/// The error kinds this layer reports. Every error is returned to the
/// caller; none is swallowed and none is retried here.
#[derive(Clone, Copy, Debug, PartialEq, Eq, Structural)]
pub enum ProgramError {
    /// A requested shared or exclusive access grant could not be issued.
    BorrowConflict,
    /// A data growth request exceeds the host-imposed growth ceiling.
    ReallocTooLarge,
    /// Fewer accounts were supplied than a schema expects.
    NotEnoughAccountKeys,
}

/// Checks that at least `expected` accounts were supplied to an
/// instruction whose schema expects that many.
pub fn check_account_count(provided: usize, expected: usize) -> (r: Result<(), ProgramError>)
    ensures
        r is Ok <==> provided >= expected,
        r is Err ==> r == Err::<(), ProgramError>(ProgramError::NotEnoughAccountKeys),
{
    if provided < expected {
        Err(ProgramError::NotEnoughAccountKeys)
    } else {
        Ok(())
    }
}

} // verus!
