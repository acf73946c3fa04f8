use eventsourcing::decider::MonitoringDecider;
use eventsourcing::monitoring::{
    initial_state, Command, CreateMonitoring, Error, Event, Monitoring, PauseMonitoring, Status,
};
use eventsourcing::multi::{Multi, StepStates};

#[test]
fn single_step_run_decides_once() {
    let mut multi = Multi::new(MonitoringDecider, initial_state());
    multi.execute(String::from("create"));
    let command = Command::CreateMonitoring(CreateMonitoring {
        id: String::from("1"),
        url: String::from("https://example.com"),
    });
    let events = multi.run(&command).unwrap();
    assert_eq!(
        events,
        vec![Event::MonitoringStarted {
            id: String::from("1"),
            url: String::from("https://example.com"),
        }]
    );
}

#[test]
fn second_step_sees_the_first_steps_events() {
    // The create step installs the id, so the same command meets an
    // existing entity in the second step and is rejected: the state
    // evolved between steps.
    let mut multi = Multi::new(MonitoringDecider, initial_state());
    multi.execute(String::from("first"));
    multi.execute(String::from("second"));
    let command = Command::CreateMonitoring(CreateMonitoring {
        id: String::from("1"),
        url: String::from("https://example.com"),
    });
    assert_eq!(multi.run(&command), Err(Error::AlreadyExists));
}

#[test]
fn reducer_steps_run_once_per_list_element() {
    let started = Monitoring {
        id: Some(String::from("1")),
        status: Status::Running,
    };
    let mut multi = Multi::new(MonitoringDecider, started);
    multi.reduce(
        String::from("pause-batch"),
        vec![String::from("a"), String::from("b")],
    );
    let command = Command::PauseMonitoring(PauseMonitoring { id: String::from("1") });
    let events = multi.run(&command).unwrap();
    assert_eq!(
        events,
        vec![
            Event::MonitoringPaused { id: String::from("1") },
            Event::MonitoringPaused { id: String::from("1") },
        ]
    );
}

#[test]
fn failed_step_aborts_the_run() {
    let mut multi = Multi::new(MonitoringDecider, initial_state());
    multi.execute(String::from("pause"));
    let command = Command::PauseMonitoring(PauseMonitoring { id: String::from("1") });
    assert_eq!(multi.run(&command), Err(Error::NotFound));
}

#[test]
fn step_states_keeps_the_latest_snapshot_per_name() {
    let mut states: StepStates<Monitoring> = StepStates::new();
    states.insert(
        String::from("create"),
        Monitoring { id: Some(String::from("1")), status: Status::Running },
    );
    states.insert(
        String::from("pause"),
        Monitoring { id: Some(String::from("1")), status: Status::Paused },
    );
    states.insert(
        String::from("create"),
        Monitoring { id: Some(String::from("2")), status: Status::Running },
    );
    let create = states.get("create").unwrap();
    assert_eq!(create.id, Some(String::from("2")));
    let pause = states.get("pause").unwrap();
    assert_eq!(pause.status, Status::Paused);
    assert!(states.get("missing").is_none());
}
