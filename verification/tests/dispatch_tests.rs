use eventsourcing::codec::MonitoringCodec;
use eventsourcing::decider::MonitoringDecider;
use eventsourcing::eventsourcing::{
    CausationId, CommandHandlerError, CorrelationId, EventSourcingDecider, Options,
    StoreError,
};
use eventsourcing::monitoring::{
    Command, CreateMonitoring, Error, Event, PauseMonitoring, ResumeMonitoring, Status,
};
use eventsourcing::stream::{EventLog, ExpectedRevision, Metadata, Record};

fn handler() -> EventSourcingDecider<MonitoringDecider, MonitoringCodec> {
    EventSourcingDecider::new(MonitoringDecider, MonitoringCodec)
}

fn create_cmd(id: &str) -> Command {
    Command::CreateMonitoring(CreateMonitoring {
        id: String::from(id),
        url: String::from("https://example.com"),
    })
}

#[test]
fn dispatch_create_on_empty_stream_appends_one_event() {
    let es = handler();
    let mut log = EventLog::new();
    let result = es.dispatch_command(&mut log, &create_cmd("1"), None).unwrap();
    assert_eq!(result.next_expected_version, 0);
    assert_eq!(
        result.events,
        vec![Event::MonitoringStarted {
            id: String::from("1"),
            url: String::from("https://example.com"),
        }]
    );
    assert_eq!(log.len(), 1);
    let record = log.record_at(0);
    assert_eq!(record.event_type, "MonitoringStarted");
    assert_eq!(
        String::from_utf8(record.payload.clone()).unwrap(),
        "{\"MonitoringStarted\":{\"id\":\"1\",\"url\":\"https://example.com\"}}"
    );
}

#[test]
fn dispatch_replays_the_stream_before_deciding() {
    let es = handler();
    let mut log = EventLog::new();
    es.dispatch_command(&mut log, &create_cmd("1"), None).unwrap();

    let pause = Command::PauseMonitoring(PauseMonitoring { id: String::from("1") });
    let paused = es.dispatch_command(&mut log, &pause, None).unwrap();
    assert_eq!(paused.next_expected_version, 1);
    assert_eq!(paused.events, vec![Event::MonitoringPaused { id: String::from("1") }]);

    let resume = Command::ResumeMonitoring(ResumeMonitoring { id: String::from("1") });
    let resumed = es.dispatch_command(&mut log, &resume, None).unwrap();
    assert_eq!(resumed.next_expected_version, 2);
    assert_eq!(log.len(), 3);
}

#[test]
fn dispatch_domain_rejection_appends_nothing() {
    let es = handler();
    let mut log = EventLog::new();
    let pause = Command::PauseMonitoring(PauseMonitoring { id: String::from("1") });
    let result = es.dispatch_command(&mut log, &pause, None);
    assert!(matches!(result, Err(CommandHandlerError::Domain(Error::NotFound))));
    assert_eq!(log.len(), 0);
}

#[test]
fn dispatch_create_twice_is_rejected_and_stream_unchanged() {
    let es = handler();
    let mut log = EventLog::new();
    es.dispatch_command(&mut log, &create_cmd("1"), None).unwrap();
    let result = es.dispatch_command(&mut log, &create_cmd("2"), None);
    assert!(matches!(result, Err(CommandHandlerError::Domain(Error::AlreadyExists))));
    assert_eq!(log.len(), 1);
}

#[test]
fn stale_expected_revision_is_a_concurrency_conflict() {
    let es = handler();
    let mut log = EventLog::new();
    es.dispatch_command(&mut log, &create_cmd("1"), None).unwrap();

    // A racer that read the stream before the create landed would assert
    // `NoStream`; its append must be refused and the stream left intact.
    let pause = Command::PauseMonitoring(PauseMonitoring { id: String::from("1") });
    let opts = Options {
        expected_revision: Some(ExpectedRevision::NoStream),
        metadata: None,
        correlation_id: None,
        causation_id: None,
    };
    let result = es.dispatch_command(&mut log, &pause, Some(opts));
    assert!(matches!(
        result,
        Err(CommandHandlerError::EventStore(StoreError::WrongExpectedVersion))
    ));
    assert_eq!(log.len(), 1);
}

#[test]
fn dispatch_injects_supplied_tracing_identifiers() {
    let es = handler();
    let mut log = EventLog::new();
    let mut metadata = Metadata::new();
    metadata.insert(String::from("tenant"), String::from("acme"));
    let opts = Options {
        metadata: Some(metadata),
        expected_revision: None,
        correlation_id: Some(CorrelationId::new(String::from("corr-1"))),
        causation_id: Some(CausationId::new(String::from("cause-1"))),
    };
    es.dispatch_command(&mut log, &create_cmd("1"), Some(opts)).unwrap();
    let record = log.record_at(0);
    assert_eq!(record.metadata.get("$correlationId").unwrap(), "corr-1");
    assert_eq!(record.metadata.get("$causationId").unwrap(), "cause-1");
    assert_eq!(record.metadata.get("tenant").unwrap(), "acme");
}

#[test]
fn dispatch_generates_fresh_tracing_identifiers_when_unset() {
    let es = handler();
    let mut log = EventLog::new();
    es.dispatch_command(&mut log, &create_cmd("1"), None).unwrap();
    let record = log.record_at(0);
    assert_eq!(record.metadata.get("$correlationId").unwrap().len(), 36);
    assert_eq!(record.metadata.get("$causationId").unwrap().len(), 36);
}

#[test]
fn options_default_sets_nothing() {
    let opts = Options::default();
    assert!(opts.metadata.is_none());
    assert!(opts.expected_revision.is_none());
    assert!(opts.correlation_id.is_none());
    assert!(opts.causation_id.is_none());
}

#[test]
fn handler_exposes_the_decider_operations() {
    let es = handler();
    let state = es.initial_state();
    assert!(state.id.is_none());
    assert_eq!(state.status, Status::Paused);
    assert!(!es.is_terminal(&state));
    let events = es.decide(&state, &create_cmd("1")).unwrap();
    let after = es.evolve(&state, &events[0]);
    assert_eq!(after.status, Status::Running);
    assert_eq!(es.get_stream_id(&create_cmd("7")), "monitoring:7");
    assert_eq!(es.get_event_type(&events[0]), "MonitoringStarted");
    let (tag, payload) = es.marshal_event(&events[0]).unwrap();
    let back = es.unmarshal_event(tag.as_str(), &payload).unwrap();
    assert_eq!(back, events[0]);
}

#[test]
fn append_refuses_a_mismatched_expected_revision() {
    let mut log = EventLog::new();
    let record = Record {
        event_type: String::from("MonitoringPaused"),
        payload: Vec::from("{\"MonitoringPaused\":{\"id\":\"1\"}}".as_bytes()),
        metadata: Metadata::new(),
    };
    let refused = log.append(ExpectedRevision::Exact(0), vec![record]);
    assert!(matches!(refused, Err(StoreError::WrongExpectedVersion)));
    assert_eq!(log.len(), 0);
}

#[test]
fn append_under_any_skips_the_check() {
    let mut log = EventLog::new();
    let record = Record {
        event_type: String::from("MonitoringPaused"),
        payload: Vec::from("{\"MonitoringPaused\":{\"id\":\"1\"}}".as_bytes()),
        metadata: Metadata::new(),
    };
    let tail = log.append(ExpectedRevision::Any, vec![record]).unwrap();
    assert_eq!(tail, 0);
    assert_eq!(log.len(), 1);
}

#[test]
fn racing_creates_on_one_stream_one_wins_one_conflicts() {
    // Both writers read the empty stream and prepared a batch asserting
    // `NoStream`; whichever append lands second must be refused.
    let mut log = EventLog::new();
    let first = Record {
        event_type: String::from("MonitoringStarted"),
        payload: Vec::from("{\"MonitoringStarted\":{\"id\":\"1\",\"url\":\"a\"}}".as_bytes()),
        metadata: Metadata::new(),
    };
    let second = Record {
        event_type: String::from("MonitoringStarted"),
        payload: Vec::from("{\"MonitoringStarted\":{\"id\":\"1\",\"url\":\"b\"}}".as_bytes()),
        metadata: Metadata::new(),
    };
    let won = log.append(ExpectedRevision::NoStream, vec![first]);
    assert!(matches!(won, Ok(0)));
    let lost = log.append(ExpectedRevision::NoStream, vec![second]);
    assert!(matches!(lost, Err(StoreError::WrongExpectedVersion)));
    assert_eq!(log.len(), 1);
}

#[test]
fn replay_fails_fast_on_an_unknown_event_type() {
    let es = handler();
    let mut log = EventLog::new();
    let alien = Record {
        event_type: String::from("SomethingElse"),
        payload: Vec::from("{}".as_bytes()),
        metadata: Metadata::new(),
    };
    log.append(ExpectedRevision::NoStream, vec![alien]).unwrap();
    let result = es.dispatch_command(&mut log, &create_cmd("1"), None);
    assert!(matches!(
        result,
        Err(CommandHandlerError::MarshalError(
            eventsourcing::eventsourcing::MarshalError::UnknownEventType
        ))
    ));
    assert_eq!(log.len(), 1);
}

#[test]
fn matching_expected_revision_override_is_accepted() {
    let es = handler();
    let mut log = EventLog::new();
    es.dispatch_command(&mut log, &create_cmd("1"), None).unwrap();
    let pause = Command::PauseMonitoring(PauseMonitoring { id: String::from("1") });
    let opts = Options {
        expected_revision: Some(ExpectedRevision::Exact(0)),
        metadata: None,
        correlation_id: None,
        causation_id: None,
    };
    let result = es.dispatch_command(&mut log, &pause, Some(opts)).unwrap();
    assert_eq!(result.next_expected_version, 1);
    assert_eq!(log.len(), 2);
}

#[test]
fn metadata_later_insert_shadows_earlier() {
    let mut metadata = Metadata::new();
    metadata.insert(String::from("k"), String::from("first"));
    metadata.insert(String::from("k"), String::from("second"));
    assert_eq!(metadata.get("k").unwrap(), "second");
    assert!(metadata.get("other").is_none());
    let copy = metadata.duplicate();
    assert_eq!(copy.get("k").unwrap(), "second");
}
