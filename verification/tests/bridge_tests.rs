use eventsourcing::bridge::{
    BridgeAction, BridgeError, BridgeEvent, BridgeMachine, BridgeRequest, BridgeResponse,
};
use eventsourcing::stream::ExpectedRevision;

fn text(s: &str) -> BridgeEvent {
    BridgeEvent::Returned(BridgeResponse::Text(String::from(s)))
}

#[test]
fn happy_path_replays_decides_and_appends() {
    let (machine, action) = BridgeMachine::start(String::from("{\"cmd\":\"pause\"}"));
    match action {
        BridgeAction::Call(BridgeRequest::StreamId { command }) => {
            assert_eq!(command, "{\"cmd\":\"pause\"}");
        }
        _ => panic!("expected the stream_id call"),
    }

    let (machine, action) = machine.step(text("monitoring:1"));
    assert!(matches!(action, BridgeAction::Call(BridgeRequest::InitialState)));

    let (machine, action) = machine.step(text("{\"id\":null}"));
    assert!(matches!(action, BridgeAction::ReadNext));

    // One record is replayed: unmarshal, then evolve.
    let (machine, action) = machine.step(BridgeEvent::Record {
        event_type: String::from("MonitoringStarted"),
        payload: Vec::from("{...}".as_bytes()),
    });
    assert!(matches!(action, BridgeAction::Call(BridgeRequest::UnmarshalEvent { .. })));

    let (machine, action) = machine.step(text("{\"started\":1}"));
    match action {
        BridgeAction::Call(BridgeRequest::Evolve { state, event }) => {
            assert_eq!(state, "{\"id\":null}");
            assert_eq!(event, "{\"started\":1}");
        }
        _ => panic!("expected the evolve call"),
    }

    let (machine, action) = machine.step(text("{\"id\":\"1\"}"));
    assert!(matches!(action, BridgeAction::ReadNext));

    let (machine, action) = machine.step(BridgeEvent::EndOfStream);
    assert!(matches!(action, BridgeAction::Call(BridgeRequest::IsTerminal { .. })));

    let (machine, action) = machine.step(BridgeEvent::Returned(BridgeResponse::Flag(false)));
    match action {
        BridgeAction::Call(BridgeRequest::Decide { state, command }) => {
            assert_eq!(state, "{\"id\":\"1\"}");
            assert_eq!(command, "{\"cmd\":\"pause\"}");
        }
        _ => panic!("expected the decide call"),
    }

    let (machine, action) = machine.step(BridgeEvent::Returned(BridgeResponse::Events(vec![
        String::from("{\"paused\":1}"),
    ])));
    match action {
        BridgeAction::Call(BridgeRequest::EventType { event }) => {
            assert_eq!(event, "{\"paused\":1}");
        }
        _ => panic!("expected the event_type call"),
    }

    let (machine, action) = machine.step(text("MonitoringPaused"));
    assert!(matches!(action, BridgeAction::Call(BridgeRequest::MarshalEvent { .. })));

    let (machine, action) = machine.step(BridgeEvent::Returned(BridgeResponse::Bytes(Vec::from(
        "{\"paused\":1}".as_bytes(),
    ))));
    match action {
        BridgeAction::Append { expected, batch } => {
            // One record was replayed, so the append asserts revision 0.
            assert!(matches!(expected, ExpectedRevision::Exact(0)));
            assert_eq!(batch.len(), 1);
            assert_eq!(batch[0].0, "MonitoringPaused");
        }
        _ => panic!("expected the append"),
    }

    let (_machine, action) = machine.step(BridgeEvent::AppendAccepted { next_expected_version: 1 });
    match action {
        BridgeAction::Finish(Ok(result)) => {
            assert_eq!(result.next_expected_version, 1);
            assert_eq!(result.events, vec![String::from("{\"paused\":1}")]);
        }
        _ => panic!("expected a successful finish"),
    }
}

#[test]
fn empty_stream_asserts_no_stream_at_append() {
    let (machine, _) = BridgeMachine::start(String::from("c"));
    let (machine, _) = machine.step(text("monitoring:1"));
    let (machine, _) = machine.step(text("s0"));
    let (machine, _) = machine.step(BridgeEvent::EndOfStream);
    let (machine, _) = machine.step(BridgeEvent::Returned(BridgeResponse::Flag(false)));
    let (machine, _) = machine.step(BridgeEvent::Returned(BridgeResponse::Events(vec![
        String::from("e0"),
    ])));
    let (machine, _) = machine.step(text("SomeEvent"));
    let (_machine, action) =
        machine.step(BridgeEvent::Returned(BridgeResponse::Bytes(Vec::from("e0".as_bytes()))));
    match action {
        BridgeAction::Append { expected, .. } => {
            assert!(matches!(expected, ExpectedRevision::NoStream));
        }
        _ => panic!("expected the append"),
    }
}

#[test]
fn terminal_state_finishes_without_a_decide_call() {
    let (machine, _) = BridgeMachine::start(String::from("c"));
    let (machine, _) = machine.step(text("monitoring:1"));
    let (machine, _) = machine.step(text("s0"));
    let (machine, _) = machine.step(BridgeEvent::EndOfStream);
    let (_machine, action) = machine.step(BridgeEvent::Returned(BridgeResponse::Flag(true)));
    assert!(matches!(
        action,
        BridgeAction::Finish(Err(BridgeError::StateIsTerminal))
    ));
}

#[test]
fn domain_rejection_is_surfaced() {
    let (machine, _) = BridgeMachine::start(String::from("c"));
    let (machine, _) = machine.step(text("monitoring:1"));
    let (machine, _) = machine.step(text("s0"));
    let (machine, _) = machine.step(BridgeEvent::EndOfStream);
    let (machine, _) = machine.step(BridgeEvent::Returned(BridgeResponse::Flag(false)));
    let (_machine, action) = machine.step(BridgeEvent::Returned(BridgeResponse::Rejected(
        String::from("NotFound"),
    )));
    match action {
        BridgeAction::Finish(Err(BridgeError::Domain(msg))) => assert_eq!(msg, "NotFound"),
        _ => panic!("expected a domain rejection"),
    }
}

#[test]
fn zero_decided_events_skip_the_append() {
    let (machine, _) = BridgeMachine::start(String::from("c"));
    let (machine, _) = machine.step(text("monitoring:1"));
    let (machine, _) = machine.step(text("s0"));
    let (machine, _) = machine.step(BridgeEvent::EndOfStream);
    let (machine, _) = machine.step(BridgeEvent::Returned(BridgeResponse::Flag(false)));
    let (_machine, action) =
        machine.step(BridgeEvent::Returned(BridgeResponse::Events(Vec::new())));
    match action {
        BridgeAction::Finish(Ok(result)) => {
            assert_eq!(result.next_expected_version, 0);
            assert!(result.events.is_empty());
        }
        _ => panic!("expected an immediate finish"),
    }
}

#[test]
fn out_of_phase_response_is_a_boundary_error() {
    let (machine, _) = BridgeMachine::start(String::from("c"));
    let (_machine, action) = machine.step(BridgeEvent::Returned(BridgeResponse::Flag(true)));
    assert!(matches!(action, BridgeAction::Finish(Err(BridgeError::Boundary))));
}

#[test]
fn transport_fault_is_a_boundary_error() {
    let (machine, _) = BridgeMachine::start(String::from("c"));
    let (machine, _) = machine.step(text("monitoring:1"));
    let (_machine, action) = machine.step(BridgeEvent::TransportFault);
    assert!(matches!(action, BridgeAction::Finish(Err(BridgeError::Boundary))));
}

#[test]
fn append_conflict_is_surfaced() {
    let (machine, _) = BridgeMachine::start(String::from("c"));
    let (machine, _) = machine.step(text("monitoring:1"));
    let (machine, _) = machine.step(text("s0"));
    let (machine, _) = machine.step(BridgeEvent::EndOfStream);
    let (machine, _) = machine.step(BridgeEvent::Returned(BridgeResponse::Flag(false)));
    let (machine, _) = machine.step(BridgeEvent::Returned(BridgeResponse::Events(vec![
        String::from("e0"),
    ])));
    let (machine, _) = machine.step(text("SomeEvent"));
    let (machine, _) =
        machine.step(BridgeEvent::Returned(BridgeResponse::Bytes(Vec::from("e0".as_bytes()))));
    let (_machine, action) = machine.step(BridgeEvent::AppendConflict);
    assert!(matches!(action, BridgeAction::Finish(Err(BridgeError::Conflict))));
}
