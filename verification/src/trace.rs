//! What holds of every run of a relay, whatever outcomes it is handed.

use crate::error::RelayError;
use crate::relay::next;
use crate::relay::ActionModel;
use crate::relay::EventModel;
use crate::relay::RequestModel;
use crate::relay::StateModel;
use vstd::prelude::*;

verus! {

/// The callback that a request asks for, or that a submission makes.
pub struct Callback {
    pub target: Seq<u8>,
    pub selector: Seq<u8>,
    pub program_id: Seq<u8>,
}

/// The callback that `request` asks for.
pub open spec fn callback_of(request: RequestModel) -> Callback {
    Callback {
        target: request.callback_address,
        selector: request.callback_selector,
        program_id: request.program_id,
    }
}

/// The state that a relay reaches from its start on `events`, and the
/// steps that it asks for on the way, one for each event.
pub open spec fn run(registry: Map<Seq<u8>, Seq<u8>>, skip_seal: bool, events: Seq<EventModel>) -> (
    StateModel,
    Seq<ActionModel>,
)
    decreases events.len(),
{
    if events.len() == 0 {
        (StateModel::Deploying, Seq::empty())
    } else {
        let before = run(registry, skip_seal, events.drop_last());
        let step = next(registry, skip_seal, before.0, events.last());
        (step.0, before.1.push(step.1))
    }
}

/// The callbacks that the requests among `events` ask for, in the order of
/// the events.
pub open spec fn callbacks_requested(events: Seq<EventModel>) -> Seq<Callback>
    decreases events.len(),
{
    if events.len() == 0 {
        Seq::empty()
    } else {
        let before = callbacks_requested(events.drop_last());
        match events.last() {
            EventModel::RequestObserved { request } => before.push(callback_of(request)),
            _ => before,
        }
    }
}

/// The journals of the receipts among `events`, in the order of the events.
pub open spec fn journals_computed(events: Seq<EventModel>) -> Seq<Seq<u8>>
    decreases events.len(),
{
    if events.len() == 0 {
        Seq::empty()
    } else {
        let before = journals_computed(events.drop_last());
        match events.last() {
            EventModel::Computed { journal, seal } => before.push(journal),
            _ => before,
        }
    }
}

/// The callbacks that the submissions among `actions` make, in the order
/// of the actions.
pub open spec fn callbacks_made(actions: Seq<ActionModel>) -> Seq<Callback>
    decreases actions.len(),
{
    if actions.len() == 0 {
        Seq::empty()
    } else {
        let before = callbacks_made(actions.drop_last());
        match actions.last() {
            ActionModel::Submit { target, selector, program_id, journal } => before.push(
                Callback { target, selector, program_id },
            ),
            _ => before,
        }
    }
}

/// The journals that the submissions among `actions` carry, in the order
/// of the actions.
pub open spec fn journals_submitted(actions: Seq<ActionModel>) -> Seq<Seq<u8>>
    decreases actions.len(),
{
    if actions.len() == 0 {
        Seq::empty()
    } else {
        let before = journals_submitted(actions.drop_last());
        match actions.last() {
            ActionModel::Submit { target, selector, program_id, journal } => before.push(journal),
            _ => before,
        }
    }
}

/// How the callbacks made stand to the callbacks asked for, by the state
/// that the relay is in: all made, all but that of the request at work, or,
/// once the relay has failed, the first ones made and the rest not.
pub open spec fn delivery_holds(
    state: StateModel,
    requested: Seq<Callback>,
    made: Seq<Callback>,
) -> bool {
    match state {
        StateModel::Deploying => requested.len() == 0 && made.len() == 0,
        StateModel::Watching => made == requested,
        StateModel::Submitting => made == requested,
        StateModel::Computing { request } => made.push(callback_of(request)) == requested,
        StateModel::Failed { error } => made.is_prefix_of(requested),
    }
}

/// Every request is answered once and in order: however a run goes, the
/// callbacks that it has made are the callbacks that its requests asked for,
/// one for one and in the same order, up to the request that is still at
/// work; only a relay that has failed leaves requests unanswered.
pub proof fn lemma_requests_answered_in_order(
    registry: Map<Seq<u8>, Seq<u8>>,
    skip_seal: bool,
    events: Seq<EventModel>,
)
    ensures
        delivery_holds(
            run(registry, skip_seal, events).0,
            callbacks_requested(events),
            callbacks_made(run(registry, skip_seal, events).1),
        ),
        callbacks_made(run(registry, skip_seal, events).1).is_prefix_of(
            callbacks_requested(events),
        ),
    decreases events.len(),
{
    if events.len() > 0 {
        let earlier = events.drop_last();
        lemma_requests_answered_in_order(registry, skip_seal, earlier);
        let before = run(registry, skip_seal, earlier);
        let step = next(registry, skip_seal, before.0, events.last());
        let actions = before.1.push(step.1);
        assert(actions.drop_last() =~= before.1);
        assert(actions.last() == step.1);
        let requested = callbacks_requested(events);
        let made = callbacks_made(actions);
        let made_before = callbacks_made(before.1);
        let requested_before = callbacks_requested(earlier);
        match before.0 {
            StateModel::Computing { request } => {
                assert(made_before.push(callback_of(request)) == requested_before);
                assert(made_before =~= requested_before.subrange(0, made_before.len() as int));
                match events.last() {
                    EventModel::Computed { journal, seal } => {
                        assert(made =~= requested);
                    },
                    EventModel::RequestObserved { request: other } => {
                        assert(made =~= requested.subrange(0, made.len() as int));
                    },
                    _ => {},
                }
            },
            StateModel::Failed { error } => {
                assert(made =~= requested.subrange(0, made.len() as int));
            },
            _ => {
                assert(made_before == requested_before);
                assert(made =~= requested.subrange(0, made.len() as int));
            },
        }
    }
}

/// Every callback carries the journal of its own run: as long as the relay
/// has not failed, the journals submitted are the journals computed, one
/// for one and in the same order.
pub proof fn lemma_journals_passed_on(
    registry: Map<Seq<u8>, Seq<u8>>,
    skip_seal: bool,
    events: Seq<EventModel>,
)
    ensures
        journals_submitted(run(registry, skip_seal, events).1).is_prefix_of(
            journals_computed(events),
        ),
        !(run(registry, skip_seal, events).0 is Failed) ==> journals_submitted(
            run(registry, skip_seal, events).1,
        ) == journals_computed(events),
    decreases events.len(),
{
    if events.len() > 0 {
        let earlier = events.drop_last();
        lemma_journals_passed_on(registry, skip_seal, earlier);
        let before = run(registry, skip_seal, earlier);
        let step = next(registry, skip_seal, before.0, events.last());
        let actions = before.1.push(step.1);
        assert(actions.drop_last() =~= before.1);
        assert(actions.last() == step.1);
        let computed = journals_computed(events);
        let submitted = journals_submitted(actions);
        assert(submitted =~= computed.subrange(0, submitted.len() as int));
    }
}

/// A request for a program that the registry does not hold stops the
/// relay: a waiting relay that is handed such a request fails with
/// `RegistryMiss`, asks for nothing but to stop, and makes no callback.
pub proof fn lemma_unknown_program_is_fatal(
    registry: Map<Seq<u8>, Seq<u8>>,
    skip_seal: bool,
    request: RequestModel,
)
    requires
        !registry.contains_key(request.program_id),
    ensures
        next(
            registry,
            skip_seal,
            StateModel::Watching,
            EventModel::RequestObserved { request },
        ) == (
            StateModel::Failed { error: RelayError::RegistryMiss },
            ActionModel::Halt { error: RelayError::RegistryMiss },
        ),
{
}

/// There is no way out of failure: a relay that has failed stays failed
/// with the same error, whatever it is handed, and asks only to stop.
pub proof fn lemma_failure_is_final(
    registry: Map<Seq<u8>, Seq<u8>>,
    skip_seal: bool,
    error: RelayError,
    event: EventModel,
)
    ensures
        next(registry, skip_seal, StateModel::Failed { error }, event) == (
            StateModel::Failed { error },
            ActionModel::Halt { error },
        ),
{
}

} // verus!
