use eventsourcing::codec::{event_type, get_stream_id, marshal_event, unmarshal_event, CodecError};
use eventsourcing::eventsourcing::MarshalError;
use eventsourcing::monitoring::{Command, CreateMonitoring, Event, PauseMonitoring};

#[test]
fn marshal_started_is_canonical_json() {
    let event = Event::MonitoringStarted {
        id: String::from("1"),
        url: String::from("https://example.com"),
    };
    let data = marshal_event(&event).unwrap();
    assert_eq!(
        String::from_utf8(data).unwrap(),
        "{\"MonitoringStarted\":{\"id\":\"1\",\"url\":\"https://example.com\"}}"
    );
}

#[test]
fn marshal_paused_is_canonical_json() {
    let event = Event::MonitoringPaused { id: String::from("1") };
    let data = marshal_event(&event).unwrap();
    assert_eq!(
        String::from_utf8(data).unwrap(),
        "{\"MonitoringPaused\":{\"id\":\"1\"}}"
    );
}

#[test]
fn marshal_escapes_quotes_and_backslashes() {
    let event = Event::MonitoringPaused {
        id: String::from("a\"b\\c"),
    };
    let data = marshal_event(&event).unwrap();
    assert_eq!(
        String::from_utf8(data).unwrap(),
        "{\"MonitoringPaused\":{\"id\":\"a\\\"b\\\\c\"}}"
    );
}

#[test]
fn marshal_rejects_control_characters() {
    let event = Event::MonitoringPaused {
        id: String::from("a\nb"),
    };
    assert_eq!(
        marshal_event(&event),
        Err(MarshalError::MarshalEvent(CodecError::ControlCharacter))
    );
}

#[test]
fn round_trip_started() {
    let event = Event::MonitoringStarted {
        id: String::from("entity-7"),
        url: String::from("https://example.com/path?q=1"),
    };
    let data = marshal_event(&event).unwrap();
    let back = unmarshal_event(event_type(&event), &data).unwrap();
    assert_eq!(back, event);
}

#[test]
fn round_trip_paused_with_escapes() {
    let event = Event::MonitoringPaused {
        id: String::from("we\"ird\\id"),
    };
    let data = marshal_event(&event).unwrap();
    let back = unmarshal_event(event_type(&event), &data).unwrap();
    assert_eq!(back, event);
}

#[test]
fn round_trip_resumed() {
    let event = Event::MonitoringResumed { id: String::from("1") };
    let data = marshal_event(&event).unwrap();
    let back = unmarshal_event(event_type(&event), &data).unwrap();
    assert_eq!(back, event);
}

#[test]
fn unmarshal_unknown_tag_is_distinct_error() {
    let data = Vec::from("{\"MonitoringStarted\":{\"id\":\"1\",\"url\":\"u\"}}".as_bytes());
    assert_eq!(
        unmarshal_event("SomethingElse", &data),
        Err(MarshalError::UnknownEventType)
    );
}

#[test]
fn unmarshal_malformed_payload_is_error_not_crash() {
    let data = Vec::from("{\"MonitoringPaused\":{\"id\":".as_bytes());
    assert_eq!(
        unmarshal_event("MonitoringPaused", &data),
        Err(MarshalError::UnmarshalEvent(CodecError::MalformedPayload))
    );
}

#[test]
fn unmarshal_wrong_shape_for_tag_is_error() {
    let data = Vec::from("{\"MonitoringPaused\":{\"id\":\"1\"}}".as_bytes());
    assert_eq!(
        unmarshal_event("MonitoringStarted", &data),
        Err(MarshalError::UnmarshalEvent(CodecError::MalformedPayload))
    );
}

#[test]
fn unmarshal_invalid_utf8_is_error() {
    let data = vec![0xffu8, 0xfe, 0xfd];
    assert_eq!(
        unmarshal_event("MonitoringPaused", &data),
        Err(MarshalError::UnmarshalEvent(CodecError::InvalidUtf8))
    );
}

#[test]
fn unmarshal_rejects_trailing_garbage() {
    let data = Vec::from("{\"MonitoringPaused\":{\"id\":\"1\"}}x".as_bytes());
    assert_eq!(
        unmarshal_event("MonitoringPaused", &data),
        Err(MarshalError::UnmarshalEvent(CodecError::MalformedPayload))
    );
}

#[test]
fn event_type_is_the_variant_tag() {
    let started = Event::MonitoringStarted {
        id: String::from("1"),
        url: String::from("u"),
    };
    let paused = Event::MonitoringPaused { id: String::from("1") };
    let resumed = Event::MonitoringResumed { id: String::from("1") };
    assert_eq!(event_type(&started), "MonitoringStarted");
    assert_eq!(event_type(&paused), "MonitoringPaused");
    assert_eq!(event_type(&resumed), "MonitoringResumed");
}

#[test]
fn stream_id_joins_category_and_entity() {
    let command = Command::CreateMonitoring(CreateMonitoring {
        id: String::from("42"),
        url: String::from("https://example.com"),
    });
    assert_eq!(get_stream_id(&command), "monitoring:42");
    let pause = Command::PauseMonitoring(PauseMonitoring { id: String::from("42") });
    assert_eq!(get_stream_id(&pause), "monitoring:42");
}
