use vstd::prelude::*;

verus! {

/// Why a command or a status poll did not succeed.
#[derive(Clone, Copy, Debug, PartialEq, Eq, Structural)]
pub enum Error {
    /// The job is unknown: never started, cancelled, or acknowledged.
    NotFound,
    /// The command has no defined effect in the job's current state.
    InvalidStateForOperation,
    /// Nothing was latched before the poll's bound elapsed.
    Timeout,
    /// The monitor lost its connection to the job (for instance after a cancel).
    NotConnected,
    /// A failure reported by the transfer engine, carried through unchanged.
    EngineError { code: i32 },
}

} // verus!
