use std::collections::HashMap;

use bonsai_relay::abi::{decode_journal, encode_input};
use bonsai_relay::error::RelayError;
use bonsai_relay::guest::run;
use bonsai_relay::handshake::{DeploymentHandshake, Taken};
use bonsai_relay::registry::{ProgramId, ProgramRegistry, RegistryEntry};
use bonsai_relay::relay::{Action, ComputeRequest, Event, Relay, RelayState};
use bonsai_relay::word::Word;

const SEQUENCE_PROGRAM: [u8; 4] = [0x7f, 0x45, 0x4c, 0x46];

fn sequence_id() -> ProgramId {
    ProgramId::new([0xabu8; 32])
}

fn registry() -> ProgramRegistry {
    ProgramRegistry::new(vec![RegistryEntry {
        id: sequence_id(),
        program: SEQUENCE_PROGRAM.to_vec(),
    }])
}

fn request(n: u64, target: u8) -> ComputeRequest {
    ComputeRequest {
        program_id: sequence_id(),
        input: encode_input(&Word::from_u64(n)),
        callback_address: [target; 20],
        callback_selector: [0xde, 0xad, 0xbe, 0xef],
    }
}

fn watching(skip_seal: bool) -> Relay {
    let (relay, action) = Relay::start(registry(), skip_seal);
    assert!(matches!(action, Action::Deploy));
    let (relay, action) = relay.step(Event::Deployed { address: [0x11u8; 20] });
    assert!(matches!(action, Action::Announce { address } if address == [0x11u8; 20]));
    assert!(matches!(relay.state(), RelayState::Watching));
    relay
}

fn computing(n: u64) -> Relay {
    let (relay, action) = watching(true).step(Event::RequestObserved { request: request(n, 1) });
    assert!(matches!(action, Action::Compute { .. }));
    relay
}

fn submitting(n: u64) -> Relay {
    let (relay, action) =
        computing(n).step(Event::Computed { journal: vec![1, 2, 3], seal: Vec::new() });
    assert!(matches!(action, Action::Submit { .. }));
    relay
}

/// Stands for the proving backend: reads the framed input back and runs
/// the sequence program on it.
fn backend(words: &[u32]) -> Event {
    let length = words[0] as usize;
    let input: Vec<u8> = words[1..1 + length].iter().map(|w| *w as u8).collect();
    match run(&input) {
        Ok(journal) => Event::Computed { journal, seal: Vec::new() },
        Err(_) => Event::ExecutionFailed,
    }
}

fn assert_failed(relay: &Relay, action: &Action, expected: RelayError) {
    assert!(matches!(relay.state(), RelayState::Failed { error } if *error == expected));
    assert!(matches!(action, Action::Halt { error } if *error == expected));
    assert_eq!(relay.failure(), Some(expected));
}

fn happy_path(skip_seal: bool) {
    let mut handshake = DeploymentHandshake::new();
    let mut stored: HashMap<[u64; 4], [u64; 4]> = HashMap::new();

    let (relay, action) = Relay::start(registry(), skip_seal);
    assert!(matches!(action, Action::Deploy));
    assert_eq!(handshake.take(), Ok(Taken::NotYet));

    let (relay, action) = relay.step(Event::Deployed { address: [0x11u8; 20] });
    match action {
        Action::Announce { address } => assert_eq!(handshake.fire(address), Ok(())),
        other => panic!("unexpected action {:?}", other),
    }
    assert_eq!(handshake.take(), Ok(Taken::Address { address: [0x11u8; 20] }));

    let (relay, action) = relay.step(Event::RequestObserved { request: request(10, 0x22) });
    assert!(matches!(relay.state(), RelayState::Computing { .. }));
    let outcome = match action {
        Action::Compute { job } => {
            assert_eq!(job.program, SEQUENCE_PROGRAM.to_vec());
            assert_eq!(job.program_id, sequence_id());
            assert_eq!(job.skip_seal, skip_seal);
            backend(&job.input_words)
        }
        other => panic!("unexpected action {:?}", other),
    };

    let (relay, action) = relay.step(outcome);
    assert!(matches!(relay.state(), RelayState::Submitting));
    match action {
        Action::Submit { target, selector, program_id, journal } => {
            assert_eq!(target, [0x22u8; 20]);
            assert_eq!(selector, [0xde, 0xad, 0xbe, 0xef]);
            assert_eq!(program_id, sequence_id());
            let (n, result) = decode_journal(&journal).unwrap();
            assert_eq!(n, Word::from_u64(10));
            assert_eq!(result, Word::from_u64(89));
            stored.insert(n.limbs(), result.limbs());
        }
        other => panic!("unexpected action {:?}", other),
    }

    let (relay, action) = relay.step(Event::Submitted);
    assert!(matches!(action, Action::AwaitRequest));
    assert!(matches!(relay.state(), RelayState::Watching));
    assert_eq!(relay.failure(), None);
    assert_eq!(stored.get(&[10, 0, 0, 0]), Some(&[89, 0, 0, 0]));
}

#[test]
fn contract_tests_test_happy_path() {
    happy_path(true);
}

#[test]
fn main_test_happy_path() {
    happy_path(false);
}

#[test]
fn relay_answers_requests_in_the_order_observed() {
    let mut relay = watching(true);
    let mut callbacks: Vec<([u8; 20], Word, Word)> = Vec::new();
    for (n, target) in [(3u64, 7u8), (10, 8), (1, 9), (10, 7)] {
        let (next, action) = relay.step(Event::RequestObserved { request: request(n, target) });
        let outcome = match action {
            Action::Compute { job } => backend(&job.input_words),
            other => panic!("unexpected action {:?}", other),
        };
        let (next, action) = next.step(outcome);
        match action {
            Action::Submit { target, journal, .. } => {
                let (n, result) = decode_journal(&journal).unwrap();
                callbacks.push((target, n, result));
            }
            other => panic!("unexpected action {:?}", other),
        }
        let (next, action) = next.step(Event::Submitted);
        assert!(matches!(action, Action::AwaitRequest));
        relay = next;
    }
    let expected: Vec<([u8; 20], Word, Word)> = [(7u8, 3u64, 3u64), (8, 10, 89), (9, 1, 1), (7, 10, 89)]
        .iter()
        .map(|(target, n, result)| ([*target; 20], Word::from_u64(*n), Word::from_u64(*result)))
        .collect();
    assert_eq!(callbacks, expected);
}

#[test]
fn relay_passes_the_journal_on_unchanged() {
    let (relay, action) =
        computing(10).step(Event::Computed { journal: vec![9, 8, 7, 6], seal: vec![1, 2] });
    assert!(matches!(relay.state(), RelayState::Submitting));
    match action {
        Action::Submit { target, selector, program_id, journal } => {
            assert_eq!(journal, vec![9u8, 8, 7, 6]);
            assert_eq!(target, [1u8; 20]);
            assert_eq!(selector, [0xde, 0xad, 0xbe, 0xef]);
            assert_eq!(program_id, sequence_id());
        }
        other => panic!("unexpected action {:?}", other),
    }
}

#[test]
fn relay_program_reads_the_registry() {
    let relay = watching(true);
    assert_eq!(relay.program(&sequence_id()), Some(&SEQUENCE_PROGRAM.to_vec()));
    assert_eq!(relay.program(&ProgramId::new([0u8; 32])), None);
}

#[test]
fn relay_fails_on_an_unknown_program() {
    let mut unknown = request(10, 1);
    unknown.program_id = ProgramId::new([0x01u8; 32]);
    let (relay, action) = watching(true).step(Event::RequestObserved { request: unknown });
    assert_failed(&relay, &action, RelayError::RegistryMiss);
}

#[test]
fn relay_fails_when_deployment_fails() {
    let (relay, _) = Relay::start(registry(), true);
    let (relay, action) = relay.step(Event::DeploymentFailed);
    assert_failed(&relay, &action, RelayError::DeploymentFailure);
}

#[test]
fn relay_fails_on_a_malformed_event() {
    let (relay, action) = watching(true).step(Event::MalformedEvent);
    assert_failed(&relay, &action, RelayError::DecodeError);
}

#[test]
fn relay_fails_when_the_stream_ends() {
    let (relay, action) = watching(true).step(Event::StreamEnded);
    assert_failed(&relay, &action, RelayError::StreamTerminated);
}

#[test]
fn relay_fails_when_the_program_fails() {
    let (relay, action) = computing(10).step(Event::ExecutionFailed);
    assert_failed(&relay, &action, RelayError::ExecutionFailure);
}

#[test]
fn relay_fails_when_the_program_overflows() {
    let (relay, action) = watching(true).step(Event::RequestObserved { request: request(370, 1) });
    let outcome = match action {
        Action::Compute { job } => backend(&job.input_words),
        other => panic!("unexpected action {:?}", other),
    };
    assert!(matches!(outcome, Event::ExecutionFailed));
    let (relay, action) = relay.step(outcome);
    assert_failed(&relay, &action, RelayError::ExecutionFailure);
}

#[test]
fn relay_fails_when_the_callback_is_rejected() {
    let (relay, action) = submitting(10).step(Event::SubmissionFailed);
    assert_failed(&relay, &action, RelayError::SubmissionFailure);
}

#[test]
fn relay_fails_on_an_outcome_it_did_not_wait_for() {
    let (relay, action) = watching(true).step(Event::Submitted);
    assert_failed(&relay, &action, RelayError::UnexpectedEvent);
    let (relay, action) = computing(10).step(Event::RequestObserved { request: request(3, 1) });
    assert_failed(&relay, &action, RelayError::UnexpectedEvent);
    let (relay, action) = submitting(10).step(Event::StreamEnded);
    assert_failed(&relay, &action, RelayError::UnexpectedEvent);
    let (relay, _) = Relay::start(registry(), true);
    let (relay, action) = relay.step(Event::Computed { journal: Vec::new(), seal: Vec::new() });
    assert_failed(&relay, &action, RelayError::UnexpectedEvent);
}

#[test]
fn relay_stays_failed() {
    let (relay, _) = watching(true).step(Event::StreamEnded);
    let (relay, action) = relay.step(Event::RequestObserved { request: request(10, 1) });
    assert_failed(&relay, &action, RelayError::StreamTerminated);
    let (relay, action) = relay.step(Event::Submitted);
    assert_failed(&relay, &action, RelayError::StreamTerminated);
    let (relay, action) = relay.step(Event::Deployed { address: [0u8; 20] });
    assert_failed(&relay, &action, RelayError::StreamTerminated);
}
