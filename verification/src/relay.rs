//! The relay's decisions: from the state it is in and the outcome of the
//! step it asked for, to its next state and the next step to take.

use crate::adapter::conclude;
use crate::adapter::job_for;
use crate::adapter::prepare;
use crate::adapter::JobModel;
use crate::adapter::ProverJob;
use crate::error::RelayError;
use crate::registry::ProgramId;
use crate::registry::ProgramRegistry;
use vstd::prelude::*;

verus! {

/// One request for a computation, as a request event carries it.
#[derive(Debug)]
pub struct ComputeRequest {
    /// The program to run.
    pub program_id: ProgramId,
    /// The input of the program.
    pub input: Vec<u8>,
    /// The contract to call back with the result.
    pub callback_address: [u8; 20],
    /// The function of that contract to call.
    pub callback_selector: [u8; 4],
}

/// What a request is known by in contracts.
pub struct RequestModel {
    pub program_id: Seq<u8>,
    pub input: Seq<u8>,
    pub callback_address: Seq<u8>,
    pub callback_selector: Seq<u8>,
}

impl View for ComputeRequest {
    type V = RequestModel;

    open spec fn view(&self) -> RequestModel {
        RequestModel {
            program_id: self.program_id@,
            input: self.input@,
            callback_address: self.callback_address@,
            callback_selector: self.callback_selector@,
        }
    }
}

/// The state of a relay.
#[derive(Debug)]
pub enum RelayState {
    /// The relay's contract is being deployed.
    Deploying,
    /// The relay waits for the next request.
    Watching,
    /// The program of a request runs.
    Computing { request: ComputeRequest },
    /// The callback of a request is on its way.
    Submitting,
    /// The relay has stopped for good.
    Failed { error: RelayError },
}

/// What a state is known by in contracts.
pub enum StateModel {
    Deploying,
    Watching,
    Computing { request: RequestModel },
    Submitting,
    Failed { error: RelayError },
}

impl View for RelayState {
    type V = StateModel;

    open spec fn view(&self) -> StateModel {
        match self {
            RelayState::Deploying => StateModel::Deploying,
            RelayState::Watching => StateModel::Watching,
            RelayState::Computing { request } => StateModel::Computing { request: request@ },
            RelayState::Submitting => StateModel::Submitting,
            RelayState::Failed { error } => StateModel::Failed { error: *error },
        }
    }
}

/// The outcome of a step that the relay asked for.
#[derive(Debug)]
pub enum Event {
    /// The relay's contract is deployed at `address`, and its request
    /// events are subscribed to.
    Deployed { address: [u8; 20] },
    /// The deployment or the subscription failed.
    DeploymentFailed,
    /// The stream delivered a request.
    RequestObserved { request: ComputeRequest },
    /// The stream delivered an event that could not be decoded.
    MalformedEvent,
    /// The stream ended.
    StreamEnded,
    /// The program ran and left this receipt.
    Computed { journal: Vec<u8>, seal: Vec<u32> },
    /// The program could not be run, or its run failed.
    ExecutionFailed,
    /// The callback transaction was accepted.
    Submitted,
    /// The callback transaction was rejected.
    SubmissionFailed,
}

/// What an event is known by in contracts.
pub enum EventModel {
    Deployed { address: Seq<u8> },
    DeploymentFailed,
    RequestObserved { request: RequestModel },
    MalformedEvent,
    StreamEnded,
    Computed { journal: Seq<u8>, seal: Seq<u32> },
    ExecutionFailed,
    Submitted,
    SubmissionFailed,
}

impl View for Event {
    type V = EventModel;

    open spec fn view(&self) -> EventModel {
        match self {
            Event::Deployed { address } => EventModel::Deployed { address: address@ },
            Event::DeploymentFailed => EventModel::DeploymentFailed,
            Event::RequestObserved { request } => EventModel::RequestObserved { request: request@ },
            Event::MalformedEvent => EventModel::MalformedEvent,
            Event::StreamEnded => EventModel::StreamEnded,
            Event::Computed { journal, seal } => EventModel::Computed {
                journal: journal@,
                seal: seal@,
            },
            Event::ExecutionFailed => EventModel::ExecutionFailed,
            Event::Submitted => EventModel::Submitted,
            Event::SubmissionFailed => EventModel::SubmissionFailed,
        }
    }
}

/// The step that the relay asks for next.
#[derive(Debug)]
pub enum Action {
    /// Deploy the relay's contract and subscribe to its request events.
    Deploy,
    /// Signal `address` through the deployment handshake, then wait for the
    /// next request.
    Announce { address: [u8; 20] },
    /// Wait for the next request.
    AwaitRequest,
    /// Run a program.
    Compute { job: ProverJob },
    /// Call `selector` of the contract at `target` with the program's
    /// identifier and the journal.
    Submit { target: [u8; 20], selector: [u8; 4], program_id: ProgramId, journal: Vec<u8> },
    /// Stop: the relay has failed with `error`.
    Halt { error: RelayError },
}

/// What an action is known by in contracts.
pub enum ActionModel {
    Deploy,
    Announce { address: Seq<u8> },
    AwaitRequest,
    Compute { job: JobModel },
    Submit { target: Seq<u8>, selector: Seq<u8>, program_id: Seq<u8>, journal: Seq<u8> },
    Halt { error: RelayError },
}

impl View for Action {
    type V = ActionModel;

    open spec fn view(&self) -> ActionModel {
        match self {
            Action::Deploy => ActionModel::Deploy,
            Action::Announce { address } => ActionModel::Announce { address: address@ },
            Action::AwaitRequest => ActionModel::AwaitRequest,
            Action::Compute { job } => ActionModel::Compute { job: job@ },
            Action::Submit { target, selector, program_id, journal } => ActionModel::Submit {
                target: target@,
                selector: selector@,
                program_id: program_id@,
                journal: journal@,
            },
            Action::Halt { error } => ActionModel::Halt { error: *error },
        }
    }
}

/// The relay stops with `error`.
pub open spec fn fail(error: RelayError) -> (StateModel, ActionModel) {
    (StateModel::Failed { error }, ActionModel::Halt { error })
}

/// What a waiting relay does with a request: it fails where the program is
/// not registered or the input cannot be framed, and else has the program
/// run.
pub open spec fn resolve(registry: Map<Seq<u8>, Seq<u8>>, skip_seal: bool, request: RequestModel)
    -> (StateModel, ActionModel) {
    if !registry.contains_key(request.program_id) {
        fail(RelayError::RegistryMiss)
    } else if request.input.len() > u32::MAX {
        fail(RelayError::ExecutionFailure)
    } else {
        (
            StateModel::Computing { request },
            ActionModel::Compute {
                job: job_for(
                    registry[request.program_id],
                    request.program_id,
                    request.input,
                    skip_seal,
                ),
            },
        )
    }
}

/// The relay's transition: its next state and the step it asks for, given
/// its state and the outcome of the step before. An outcome that the state
/// does not wait for is fatal, and a failed relay stays failed.
pub open spec fn next(
    registry: Map<Seq<u8>, Seq<u8>>,
    skip_seal: bool,
    state: StateModel,
    event: EventModel,
) -> (StateModel, ActionModel) {
    match state {
        StateModel::Failed { error } => fail(error),
        StateModel::Deploying => match event {
            EventModel::Deployed { address } => (
                StateModel::Watching,
                ActionModel::Announce { address },
            ),
            EventModel::DeploymentFailed => fail(RelayError::DeploymentFailure),
            _ => fail(RelayError::UnexpectedEvent),
        },
        StateModel::Watching => match event {
            EventModel::RequestObserved { request } => resolve(registry, skip_seal, request),
            EventModel::MalformedEvent => fail(RelayError::DecodeError),
            EventModel::StreamEnded => fail(RelayError::StreamTerminated),
            _ => fail(RelayError::UnexpectedEvent),
        },
        StateModel::Computing { request } => match event {
            EventModel::Computed { journal, seal } => (
                StateModel::Submitting,
                ActionModel::Submit {
                    target: request.callback_address,
                    selector: request.callback_selector,
                    program_id: request.program_id,
                    journal,
                },
            ),
            EventModel::ExecutionFailed => fail(RelayError::ExecutionFailure),
            _ => fail(RelayError::UnexpectedEvent),
        },
        StateModel::Submitting => match event {
            EventModel::Submitted => (StateModel::Watching, ActionModel::AwaitRequest),
            EventModel::SubmissionFailed => fail(RelayError::SubmissionFailure),
            _ => fail(RelayError::UnexpectedEvent),
        },
    }
}

/// A relay: its registry, whether it leaves proofs out, and its state.
pub struct Relay {
    registry: ProgramRegistry,
    skip_seal: bool,
    state: RelayState,
}

impl Relay {
    /// The mapping of the relay's registry.
    pub closed spec fn spec_registry(&self) -> Map<Seq<u8>, Seq<u8>> {
        self.registry@
    }

    /// Whether the relay leaves proofs out.
    pub closed spec fn spec_skip_seal(&self) -> bool {
        self.skip_seal
    }

    /// The state of the relay.
    pub closed spec fn spec_state(&self) -> StateModel {
        self.state@
    }

    /// A relay over `registry` that is about to deploy its contract, and the
    /// step that starts it.
    pub fn start(registry: ProgramRegistry, skip_seal: bool) -> (r: (Relay, Action))
        ensures
            r.0.spec_registry() == registry@,
            r.0.spec_skip_seal() == skip_seal,
            r.0.spec_state() == StateModel::Deploying,
            r.1@ == ActionModel::Deploy,
    {
        (Relay { registry, skip_seal, state: RelayState::Deploying }, Action::Deploy)
    }

    /// The state of the relay.
    pub fn state(&self) -> (state: &RelayState)
        ensures
            state@ == self.spec_state(),
    {
        &self.state
    }

    /// The error that the relay failed with, if it has failed.
    pub fn failure(&self) -> (error: Option<RelayError>)
        ensures
            error == (match self.spec_state() {
                StateModel::Failed { error } => Some(error),
                _ => None,
            }),
    {
        match &self.state {
            RelayState::Failed { error } => Some(*error),
            _ => None,
        }
    }

    /// The binary registered under `id`, if there is one.
    pub fn program(&self, id: &ProgramId) -> (found: Option<&Vec<u8>>)
        ensures
            found matches Some(program) ==> self.spec_registry().contains_key(id@) && program@
                == self.spec_registry()[id@],
            found is None ==> !self.spec_registry().contains_key(id@),
    {
        self.registry.lookup(id)
    }

    /// Takes the outcome of the step that the relay asked for last, and
    /// gives the relay in its next state and the step to take next.
    pub fn step(self, event: Event) -> (r: (Relay, Action))
        ensures
            r.0.spec_registry() == self.spec_registry(),
            r.0.spec_skip_seal() == self.spec_skip_seal(),
            (r.0.spec_state(), r.1@) == next(
                self.spec_registry(),
                self.spec_skip_seal(),
                self.spec_state(),
                event@,
            ),
    {
        let Relay { registry, skip_seal, state } = self;
        let (state, action) = match state {
            RelayState::Failed { error } => stop(error),
            RelayState::Deploying => match event {
                Event::Deployed { address } => (RelayState::Watching, Action::Announce { address }),
                Event::DeploymentFailed => stop(RelayError::DeploymentFailure),
                _ => stop(RelayError::UnexpectedEvent),
            },
            RelayState::Watching => match event {
                Event::RequestObserved { request } => on_request(&registry, skip_seal, request),
                Event::MalformedEvent => stop(RelayError::DecodeError),
                Event::StreamEnded => stop(RelayError::StreamTerminated),
                _ => stop(RelayError::UnexpectedEvent),
            },
            RelayState::Computing { request } => match event {
                Event::Computed { journal, seal } => {
                    let result = conclude(skip_seal, journal, seal);
                    (
                        RelayState::Submitting,
                        Action::Submit {
                            target: request.callback_address,
                            selector: request.callback_selector,
                            program_id: request.program_id,
                            journal: result.journal,
                        },
                    )
                },
                Event::ExecutionFailed => stop(RelayError::ExecutionFailure),
                _ => stop(RelayError::UnexpectedEvent),
            },
            RelayState::Submitting => match event {
                Event::Submitted => (RelayState::Watching, Action::AwaitRequest),
                Event::SubmissionFailed => stop(RelayError::SubmissionFailure),
                _ => stop(RelayError::UnexpectedEvent),
            },
        };
        (Relay { registry, skip_seal, state }, action)
    }
}

/// The failed state and the order to stop.
fn stop(error: RelayError) -> (r: (RelayState, Action))
    ensures
        (r.0@, r.1@) == fail(error),
{
    (RelayState::Failed { error }, Action::Halt { error })
}

/// Resolves the program of a request and prepares its run.
fn on_request(registry: &ProgramRegistry, skip_seal: bool, request: ComputeRequest) -> (r: (
    RelayState,
    Action,
))
    ensures
        (r.0@, r.1@) == resolve(registry@, skip_seal, request@),
{
    match registry.lookup(&request.program_id) {
        None => stop(RelayError::RegistryMiss),
        Some(program) => match prepare(
            program,
            request.program_id,
            request.input.as_slice(),
            skip_seal,
        ) {
            Ok(job) => (RelayState::Computing { request }, Action::Compute { job }),
            Err(_) => stop(RelayError::ExecutionFailure),
        },
    }
}

} // verus!
