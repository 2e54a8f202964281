//! The ways in which a relay ends.

use vstd::prelude::*;

verus! {

/// Why a relay stopped. Every one of these is final: a relay that has
/// failed stays failed.
#[derive(Clone, Copy, Debug, PartialEq, Eq, Structural)]
pub enum RelayError {
    /// A request named a program that the registry does not hold.
    RegistryMiss,
    /// A request event, or the input of a program, could not be decoded.
    DecodeError,
    /// The program could not be run, or its run ended without a journal.
    ExecutionFailure,
    /// The callback transaction was rejected.
    SubmissionFailure,
    /// The stream of request events ended.
    StreamTerminated,
    /// The relay's own contract could not be deployed.
    DeploymentFailure,
    /// The relay was handed the outcome of a step that it was not waiting
    /// for.
    UnexpectedEvent,
}

} // verus!
