//! The signal that carries the address of the relay's contract from the
//! relay's start-up to the one caller that waits for it.

use vstd::prelude::*;

verus! {

/// Where a handshake stands.
#[derive(Clone, Copy, Debug, PartialEq, Eq)]
pub enum HandshakeState {
    /// Nothing was signalled yet.
    Pending,
    /// The address was signalled and waits to be taken.
    Fired { address: [u8; 20] },
    /// The producer gave up before it had an address.
    Aborted,
    /// The signal was taken.
    Taken,
}

/// Why an operation on a handshake was refused.
#[derive(Clone, Copy, Debug, PartialEq, Eq, Structural)]
pub enum HandshakeError {
    /// The producer had signalled before.
    AlreadySignalled,
    /// The signal had been taken before.
    AlreadyTaken,
    /// The producer gave up: there is no address to take.
    ProducerFailed,
}

/// What the consumer gets from one attempt to take the signal.
#[derive(Clone, Copy, Debug, PartialEq, Eq)]
pub enum Taken {
    /// Nothing was signalled yet: the consumer has to wait and ask again.
    NotYet,
    /// The address that the producer signalled.
    Address { address: [u8; 20] },
}

/// The state after the producer signals, and whether the signal counted.
pub open spec fn after_signal(state: HandshakeState, signal: HandshakeState) -> (
    HandshakeState,
    Result<(), HandshakeError>,
) {
    match state {
        HandshakeState::Pending => (signal, Ok(())),
        _ => (state, Err(HandshakeError::AlreadySignalled)),
    }
}

/// The state after the consumer asks, and what the consumer gets.
pub open spec fn after_take(state: HandshakeState) -> (
    HandshakeState,
    Result<Taken, HandshakeError>,
) {
    match state {
        HandshakeState::Pending => (HandshakeState::Pending, Ok(Taken::NotYet)),
        HandshakeState::Fired { address } => (HandshakeState::Taken, Ok(Taken::Address { address })),
        HandshakeState::Aborted => (HandshakeState::Taken, Err(HandshakeError::ProducerFailed)),
        HandshakeState::Taken => (HandshakeState::Taken, Err(HandshakeError::AlreadyTaken)),
    }
}

/// A signal that is given at most once and taken at most once.
#[derive(Debug)]
pub struct DeploymentHandshake {
    state: HandshakeState,
}

impl DeploymentHandshake {
    /// Where the handshake stands.
    pub closed spec fn spec_state(&self) -> HandshakeState {
        self.state
    }

    /// A handshake on which nothing was signalled yet.
    pub fn new() -> (handshake: DeploymentHandshake)
        ensures
            handshake.spec_state() == HandshakeState::Pending,
    {
        DeploymentHandshake { state: HandshakeState::Pending }
    }

    /// Where the handshake stands.
    pub fn state(&self) -> (state: HandshakeState)
        ensures
            state == self.spec_state(),
    {
        self.state
    }

    /// The producer signals the address. It counts only as the first signal.
    pub fn fire(&mut self, address: [u8; 20]) -> (r: Result<(), HandshakeError>)
        ensures
            (final(self).spec_state(), r) == after_signal(
                old(self).spec_state(),
                HandshakeState::Fired { address },
            ),
    {
        match self.state {
            HandshakeState::Pending => {
                self.state = HandshakeState::Fired { address };
                Ok(())
            },
            _ => Err(HandshakeError::AlreadySignalled),
        }
    }

    /// The producer signals that there will be no address. It counts only
    /// as the first signal.
    pub fn abort(&mut self) -> (r: Result<(), HandshakeError>)
        ensures
            (final(self).spec_state(), r) == after_signal(
                old(self).spec_state(),
                HandshakeState::Aborted,
            ),
    {
        match self.state {
            HandshakeState::Pending => {
                self.state = HandshakeState::Aborted;
                Ok(())
            },
            _ => Err(HandshakeError::AlreadySignalled),
        }
    }

    /// The consumer asks for the address. Before any signal the answer is
    /// to wait; the first answer after the signal takes it, and every later
    /// attempt is an error.
    pub fn take(&mut self) -> (r: Result<Taken, HandshakeError>)
        ensures
            (final(self).spec_state(), r) == after_take(old(self).spec_state()),
    {
        match self.state {
            HandshakeState::Pending => Ok(Taken::NotYet),
            HandshakeState::Fired { address } => {
                self.state = HandshakeState::Taken;
                Ok(Taken::Address { address })
            },
            HandshakeState::Aborted => {
                self.state = HandshakeState::Taken;
                Err(HandshakeError::ProducerFailed)
            },
            HandshakeState::Taken => Err(HandshakeError::AlreadyTaken),
        }
    }
}

/// Only the first signal counts: whatever was signalled first, a second
/// signal is refused and changes nothing.
pub proof fn lemma_signal_once(state: HandshakeState, first: HandshakeState, second: HandshakeState)
    requires
        first != HandshakeState::Pending,
        after_signal(state, first).1 is Ok,
    ensures
        after_signal(after_signal(state, first).0, second) == (
            first,
            Err::<(), HandshakeError>(HandshakeError::AlreadySignalled),
        ),
{
}

/// The address is handed out once: after an attempt that got an address or
/// an error, every further attempt is refused as already taken.
pub proof fn lemma_take_once(state: HandshakeState)
    requires
        after_take(state).1 != Ok::<Taken, HandshakeError>(Taken::NotYet),
    ensures
        after_take(after_take(state).0) == (
            HandshakeState::Taken,
            Err::<Taken, HandshakeError>(HandshakeError::AlreadyTaken),
        ),
{
}

} // verus!
