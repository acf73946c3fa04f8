//! A small illustrative domain: monitoring of a URL that can be created,
//! paused and resumed. Its decider is the functional core that the
//! dispatcher exercises.

use vstd::prelude::*;

verus! {

/// Whether a monitored entity is currently running or paused.
#[derive(Clone, Copy, PartialEq, Eq, Structural, Debug)]
pub enum Status {
    Paused,
    Running,
}

/// Domain rejections of the monitoring decider.
#[derive(Clone, Copy, PartialEq, Eq, Structural, Debug)]
pub enum Error {
    AlreadyExists,
    NotFound,
}

/// Create a monitoring entity with the given id, watching the given URL.
#[derive(Debug)]
pub struct CreateMonitoring {
    pub id: String,
    pub url: String,
}

/// Pause the monitoring entity with the given id.
#[derive(Debug)]
pub struct PauseMonitoring {
    pub id: String,
}

/// Resume the monitoring entity with the given id.
#[derive(Debug)]
pub struct ResumeMonitoring {
    pub id: String,
}

/// The commands the monitoring decider accepts.
#[derive(Debug)]
pub enum Command {
    CreateMonitoring(CreateMonitoring),
    PauseMonitoring(PauseMonitoring),
    ResumeMonitoring(ResumeMonitoring),
}

/// The state of one monitoring entity: its id once created, and its status.
#[derive(Debug)]
pub struct Monitoring {
    pub id: Option<String>,
    pub status: Status,
}

/// The events of the monitoring domain.
#[derive(Debug)]
pub enum Event {
    MonitoringStarted { id: String, url: String },
    MonitoringPaused { id: String },
    MonitoringResumed { id: String },
}

/// The mathematical model of a command: its text fields as character sequences.
pub enum CommandView {
    CreateMonitoring { id: Seq<char>, url: Seq<char> },
    PauseMonitoring { id: Seq<char> },
    ResumeMonitoring { id: Seq<char> },
}

/// The mathematical model of a monitoring state.
pub struct MonitoringView {
    pub id: Option<Seq<char>>,
    pub status: Status,
}

/// The mathematical model of an event.
pub enum EventView {
    MonitoringStarted { id: Seq<char>, url: Seq<char> },
    MonitoringPaused { id: Seq<char> },
    MonitoringResumed { id: Seq<char> },
}

impl DeepView for Status {
    type V = Status;

    open spec fn deep_view(&self) -> Status {
        *self
    }
}

impl DeepView for Error {
    type V = Error;

    open spec fn deep_view(&self) -> Error {
        *self
    }
}

impl DeepView for Command {
    type V = CommandView;

    open spec fn deep_view(&self) -> CommandView {
        match self {
            Command::CreateMonitoring(c) => CommandView::CreateMonitoring {
                id: c.id@,
                url: c.url@,
            },
            Command::PauseMonitoring(c) => CommandView::PauseMonitoring { id: c.id@ },
            Command::ResumeMonitoring(c) => CommandView::ResumeMonitoring { id: c.id@ },
        }
    }
}

impl DeepView for Monitoring {
    type V = MonitoringView;

    open spec fn deep_view(&self) -> MonitoringView {
        MonitoringView {
            id: match self.id {
                Some(ref s) => Some(s@),
                None => None,
            },
            status: self.status,
        }
    }
}

impl DeepView for Event {
    type V = EventView;

    open spec fn deep_view(&self) -> EventView {
        match self {
            Event::MonitoringStarted { id, url } => EventView::MonitoringStarted {
                id: id@,
                url: url@,
            },
            Event::MonitoringPaused { id } => EventView::MonitoringPaused { id: id@ },
            Event::MonitoringResumed { id } => EventView::MonitoringResumed { id: id@ },
        }
    }
}

impl PartialEq for Event {
    fn eq(&self, other: &Event) -> bool {
        match (self, other) {
            (
                Event::MonitoringStarted { id: a, url: b },
                Event::MonitoringStarted { id: c, url: d },
            ) => *a == *c && *b == *d,
            (Event::MonitoringPaused { id: a }, Event::MonitoringPaused { id: c }) => *a == *c,
            (Event::MonitoringResumed { id: a }, Event::MonitoringResumed { id: c }) => *a == *c,
            _ => false,
        }
    }
}

impl vstd::std_specs::cmp::PartialEqSpecImpl for Event {
    open spec fn obeys_eq_spec() -> bool {
        true
    }

    open spec fn eq_spec(&self, other: &Event) -> bool {
        self.deep_view() == other.deep_view()
    }
}

impl PartialEq for Monitoring {
    fn eq(&self, other: &Monitoring) -> bool {
        let ids_equal = match (&self.id, &other.id) {
            (Some(a), Some(b)) => *a == *b,
            (None, None) => true,
            _ => false,
        };
        ids_equal && self.status == other.status
    }
}

impl vstd::std_specs::cmp::PartialEqSpecImpl for Monitoring {
    open spec fn obeys_eq_spec() -> bool {
        true
    }

    open spec fn eq_spec(&self, other: &Monitoring) -> bool {
        self.deep_view() == other.deep_view()
    }
}

/// The model of the zero state: no id, paused.
pub open spec fn spec_initial_state() -> MonitoringView {
    MonitoringView { id: None, status: Status::Paused }
}

/// What `decide` returns for every state and command: creation is rejected
/// once an id exists, pausing and resuming are rejected before one does.
pub open spec fn spec_decide(s: MonitoringView, c: CommandView) -> Result<Seq<EventView>, Error> {
    match c {
        CommandView::CreateMonitoring { id, url } => {
            if s.id is Some {
                Err(Error::AlreadyExists)
            } else {
                Ok(seq![EventView::MonitoringStarted { id, url }])
            }
        },
        CommandView::PauseMonitoring { id } => {
            if s.id is None {
                Err(Error::NotFound)
            } else {
                Ok(seq![EventView::MonitoringPaused { id }])
            }
        },
        CommandView::ResumeMonitoring { id } => {
            if s.id is None {
                Err(Error::NotFound)
            } else {
                Ok(seq![EventView::MonitoringResumed { id }])
            }
        },
    }
}

/// What `evolve` returns: starting installs the id and runs, pausing and
/// resuming keep the id and set the status.
pub open spec fn spec_evolve(s: MonitoringView, e: EventView) -> MonitoringView {
    match e {
        EventView::MonitoringStarted { id, url } => MonitoringView {
            id: Some(id),
            status: Status::Running,
        },
        EventView::MonitoringPaused { id } => MonitoringView { id: s.id, status: Status::Paused },
        EventView::MonitoringResumed { id } => MonitoringView {
            id: s.id,
            status: Status::Running,
        },
    }
}

/// The zero state for a stream that has never been written.
pub fn initial_state() -> (s: Monitoring)
    ensures
        s.deep_view() == spec_initial_state(),
{
    Monitoring { id: None, status: Status::Paused }
}

/// Monitoring streams never become terminal: every state accepts commands.
pub fn is_terminal(aggregate: &Monitoring) -> (b: bool)
    ensures
        !b,
{
    let _ = aggregate;
    false
}

/// The monitoring decision function, exactly [`spec_decide`] on the models.
pub fn decide(aggregate: &Monitoring, command: &Command) -> (r: Result<Vec<Event>, Error>)
    ensures
        r matches Ok(v) ==> spec_decide(aggregate.deep_view(), command.deep_view()) == Ok::<
            Seq<EventView>,
            Error,
        >(v.deep_view()),
        r matches Err(e) ==> spec_decide(aggregate.deep_view(), command.deep_view()) == Err::<
            Seq<EventView>,
            Error,
        >(e),
{
    match command {
        Command::CreateMonitoring(c) => {
            if aggregate.id.is_some() {
                Err(Error::AlreadyExists)
            } else {
                let v = vec![Event::MonitoringStarted { id: c.id.clone(), url: c.url.clone() }];
                proof {
                    assert(v.deep_view() =~= seq![
                        EventView::MonitoringStarted { id: c.id@, url: c.url@ },
                    ]);
                }
                Ok(v)
            }
        },
        Command::PauseMonitoring(c) => {
            if aggregate.id.is_none() {
                Err(Error::NotFound)
            } else {
                let v = vec![Event::MonitoringPaused { id: c.id.clone() }];
                proof {
                    assert(v.deep_view() =~= seq![EventView::MonitoringPaused { id: c.id@ }]);
                }
                Ok(v)
            }
        },
        Command::ResumeMonitoring(c) => {
            if aggregate.id.is_none() {
                Err(Error::NotFound)
            } else {
                let v = vec![Event::MonitoringResumed { id: c.id.clone() }];
                proof {
                    assert(v.deep_view() =~= seq![EventView::MonitoringResumed { id: c.id@ }]);
                }
                Ok(v)
            }
        },
    }
}

/// The monitoring evolution function, exactly [`spec_evolve`] on the models.
pub fn evolve(aggregate: &Monitoring, event: &Event) -> (r: Monitoring)
    ensures
        r.deep_view() == spec_evolve(aggregate.deep_view(), event.deep_view()),
{
    match event {
        Event::MonitoringStarted { id, url } => {
            let _ = url;
            Monitoring { id: Some(id.clone()), status: Status::Running }
        },
        Event::MonitoringPaused { id } => {
            let _ = id;
            Monitoring { id: clone_id(&aggregate.id), status: Status::Paused }
        },
        Event::MonitoringResumed { id } => {
            let _ = id;
            Monitoring { id: clone_id(&aggregate.id), status: Status::Running }
        },
    }
}

fn clone_id(id: &Option<String>) -> (r: Option<String>)
    ensures
        r matches Some(s) ==> id matches Some(t) && s@ == t@,
        r is None <==> id is None,
{
    match id {
        Some(s) => Some(s.clone()),
        None => None,
    }
}

} // verus!
