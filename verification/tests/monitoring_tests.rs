use eventsourcing::monitoring::{
    decide, evolve, initial_state, is_terminal, Command, CreateMonitoring, Error, Event,
    Monitoring, PauseMonitoring, ResumeMonitoring, Status,
};

#[test]
fn it_works() {
    let state = initial_state();
    let command = Command::CreateMonitoring(CreateMonitoring {
        id: String::from("1"),
        url: String::from("https://example.com"),
    });
    let events = decide(&state, &command).unwrap();
    assert_eq!(
        events,
        vec![Event::MonitoringStarted {
            id: String::from("1"),
            url: String::from("https://example.com"),
        }]
    );
}

#[test]
fn initial_state_is_paused_without_id() {
    let state = initial_state();
    assert!(state.id.is_none());
    assert_eq!(state.status, Status::Paused);
}

#[test]
fn monitoring_is_never_terminal() {
    assert!(!is_terminal(&initial_state()));
    let running = Monitoring {
        id: Some(String::from("1")),
        status: Status::Running,
    };
    assert!(!is_terminal(&running));
}

#[test]
fn create_on_empty_stream_starts_monitoring() {
    let state = initial_state();
    let command = Command::CreateMonitoring(CreateMonitoring {
        id: String::from("1"),
        url: String::from("https://example.com"),
    });
    let events = decide(&state, &command).unwrap();
    assert_eq!(events.len(), 1);
    let after = evolve(&state, &events[0]);
    assert_eq!(
        after,
        Monitoring {
            id: Some(String::from("1")),
            status: Status::Running,
        }
    );
}

#[test]
fn pause_on_running_state_pauses() {
    let state = Monitoring {
        id: Some(String::from("1")),
        status: Status::Running,
    };
    let command = Command::PauseMonitoring(PauseMonitoring { id: String::from("1") });
    let events = decide(&state, &command).unwrap();
    assert_eq!(events, vec![Event::MonitoringPaused { id: String::from("1") }]);
    let after = evolve(&state, &events[0]);
    assert_eq!(
        after,
        Monitoring {
            id: Some(String::from("1")),
            status: Status::Paused,
        }
    );
}

#[test]
fn pause_on_empty_state_is_not_found() {
    let state = initial_state();
    let command = Command::PauseMonitoring(PauseMonitoring { id: String::from("1") });
    assert_eq!(decide(&state, &command), Err(Error::NotFound));
}

#[test]
fn resume_on_empty_state_is_not_found() {
    let state = initial_state();
    let command = Command::ResumeMonitoring(ResumeMonitoring { id: String::from("1") });
    assert_eq!(decide(&state, &command), Err(Error::NotFound));
}

#[test]
fn create_on_existing_state_already_exists() {
    let state = Monitoring {
        id: Some(String::from("1")),
        status: Status::Running,
    };
    let command = Command::CreateMonitoring(CreateMonitoring {
        id: String::from("2"),
        url: String::from("https://example.org"),
    });
    assert_eq!(decide(&state, &command), Err(Error::AlreadyExists));
}

#[test]
fn resume_on_paused_state_resumes() {
    let state = Monitoring {
        id: Some(String::from("1")),
        status: Status::Paused,
    };
    let command = Command::ResumeMonitoring(ResumeMonitoring { id: String::from("1") });
    let events = decide(&state, &command).unwrap();
    assert_eq!(events, vec![Event::MonitoringResumed { id: String::from("1") }]);
    let after = evolve(&state, &events[0]);
    assert_eq!(after.status, Status::Running);
    assert_eq!(after.id, Some(String::from("1")));
}

#[test]
fn replay_is_deterministic() {
    let events = vec![
        Event::MonitoringStarted {
            id: String::from("1"),
            url: String::from("https://example.com"),
        },
        Event::MonitoringPaused { id: String::from("1") },
        Event::MonitoringResumed { id: String::from("1") },
    ];
    let mut first = initial_state();
    for e in &events {
        first = evolve(&first, e);
    }
    let mut second = initial_state();
    for e in &events {
        second = evolve(&second, e);
    }
    assert_eq!(first, second);
    assert_eq!(
        first,
        Monitoring {
            id: Some(String::from("1")),
            status: Status::Running,
        }
    );
}
