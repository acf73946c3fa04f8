//! The functional core of a domain: a decider groups `initial_state`,
//! `decide`, `evolve` and `is_terminal`, all pure. Each executable
//! operation is pinned to a specification function over the mathematical
//! models of the domain's types, so that the dispatcher's contract can
//! speak of replays and decisions exactly.

use vstd::prelude::*;
use crate::monitoring;
use crate::monitoring::{Command, CommandView, Error, Event, EventView, Monitoring, MonitoringView};

verus! {

/// A domain's pure functional core.
///
/// `spec_evolve` is a left fold step: replaying a stream folds its events
/// through it in log order, which makes state reconstruction deterministic
/// and idempotent. `decide` is the only fallible operation; its error is
/// the domain's own. Once `spec_is_terminal` holds of a state, the
/// dispatcher refuses further commands without consulting `decide`.
pub trait Decider: Sized {
    type State: DeepView;

    type Command: DeepView;

    type Event: DeepView;

    type DomainError: DeepView;

    /// The model of the zero state of a never-written stream.
    spec fn spec_initial_state(&self) -> <Self::State as DeepView>::V;

    /// The model of the decision function.
    spec fn spec_decide(
        &self,
        s: <Self::State as DeepView>::V,
        c: <Self::Command as DeepView>::V,
    ) -> Result<Seq<<Self::Event as DeepView>::V>, <Self::DomainError as DeepView>::V>;

    /// The model of the evolution function.
    spec fn spec_evolve(
        &self,
        s: <Self::State as DeepView>::V,
        e: <Self::Event as DeepView>::V,
    ) -> <Self::State as DeepView>::V;

    /// The model of the terminal test.
    spec fn spec_is_terminal(&self, s: <Self::State as DeepView>::V) -> bool;

    /// The zero state for a stream that has never been written.
    fn initial_state(&self) -> (s: Self::State)
        ensures
            s.deep_view() == self.spec_initial_state(),
    ;

    /// Decides which events a command produces on a state, or rejects it
    /// for domain reasons; exactly [`Self::spec_decide`] on the models.
    fn decide(&self, state: &Self::State, command: &Self::Command) -> (r: Result<
        Vec<Self::Event>,
        Self::DomainError,
    >)
        ensures
            r matches Ok(v) ==> self.spec_decide(state.deep_view(), command.deep_view()) == Ok::<
                Seq<<Self::Event as DeepView>::V>,
                <Self::DomainError as DeepView>::V,
            >(v.deep_view()),
            r matches Err(e) ==> self.spec_decide(state.deep_view(), command.deep_view()) == Err::<
                Seq<<Self::Event as DeepView>::V>,
                <Self::DomainError as DeepView>::V,
            >(e.deep_view()),
    ;

    /// Folds one event into a state; exactly [`Self::spec_evolve`] on the
    /// models, total and deterministic.
    fn evolve(&self, state: &Self::State, event: &Self::Event) -> (r: Self::State)
        ensures
            r.deep_view() == self.spec_evolve(state.deep_view(), event.deep_view()),
    ;

    /// Whether a state accepts no further commands.
    fn is_terminal(&self, state: &Self::State) -> (b: bool)
        ensures
            b == self.spec_is_terminal(state.deep_view()),
    ;
}

/// The monitoring domain's decider.
pub struct MonitoringDecider;

impl Decider for MonitoringDecider {
    type State = Monitoring;

    type Command = Command;

    type Event = Event;

    type DomainError = Error;

    open spec fn spec_initial_state(&self) -> MonitoringView {
        monitoring::spec_initial_state()
    }

    open spec fn spec_decide(&self, s: MonitoringView, c: CommandView) -> Result<
        Seq<EventView>,
        Error,
    > {
        monitoring::spec_decide(s, c)
    }

    open spec fn spec_evolve(&self, s: MonitoringView, e: EventView) -> MonitoringView {
        monitoring::spec_evolve(s, e)
    }

    open spec fn spec_is_terminal(&self, s: MonitoringView) -> bool {
        false
    }

    fn initial_state(&self) -> (s: Monitoring) {
        monitoring::initial_state()
    }

    fn decide(&self, state: &Monitoring, command: &Command) -> (r: Result<Vec<Event>, Error>) {
        monitoring::decide(state, command)
    }

    fn evolve(&self, state: &Monitoring, event: &Event) -> (r: Monitoring) {
        monitoring::evolve(state, event)
    }

    fn is_terminal(&self, state: &Monitoring) -> (b: bool) {
        monitoring::is_terminal(state)
    }
}

} // verus!
