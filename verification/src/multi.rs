//! The multi-step composer: several named decision steps run against one
//! evolving state line, in registration order. Each step's events are
//! folded into the running state before the next step runs, and a named
//! snapshot of the state *after* each step — its own events included — is
//! kept so later steps can consult earlier results by name.

use vstd::prelude::*;
use crate::monitoring;
use crate::monitoring::{Command, CommandView, Error, Event, EventView, Monitoring, MonitoringView};
use crate::decider::MonitoringDecider;

verus! {

/// The decision surface a composer drives: the shared evolution, a plain
/// step decision, and a reducer step decision parameterized by one value
/// from a supplied list and by the named snapshots taken so far.
pub trait MultiDecider: Sized {
    type Item: DeepView;

    type State: DeepView;

    type Command: DeepView;

    type Event: DeepView;

    type Error: DeepView;

    /// The model of the shared evolution function.
    spec fn spec_evolve(
        &self,
        s: <Self::State as DeepView>::V,
        e: <Self::Event as DeepView>::V,
    ) -> <Self::State as DeepView>::V;

    /// The model of a plain step decision.
    spec fn spec_decide_step(
        &self,
        name: Seq<char>,
        s: <Self::State as DeepView>::V,
        c: <Self::Command as DeepView>::V,
    ) -> Result<Seq<<Self::Event as DeepView>::V>, <Self::Error as DeepView>::V>;

    /// The model of a reducer step decision.
    spec fn spec_decide_reduce(
        &self,
        name: Seq<char>,
        s: <Self::State as DeepView>::V,
        c: <Self::Command as DeepView>::V,
        item: <Self::Item as DeepView>::V,
        states: Map<Seq<char>, <Self::State as DeepView>::V>,
    ) -> Result<Seq<<Self::Event as DeepView>::V>, <Self::Error as DeepView>::V>;

    /// Folds one event into a state; exactly [`Self::spec_evolve`].
    fn evolve(&self, state: &Self::State, event: &Self::Event) -> (r: Self::State)
        ensures
            r.deep_view() == self.spec_evolve(state.deep_view(), event.deep_view()),
    ;

    /// A copy of a state with the same model.
    fn clone_state(&self, state: &Self::State) -> (r: Self::State)
        ensures
            r.deep_view() == state.deep_view(),
    ;

    /// A plain step decision; exactly [`Self::spec_decide_step`].
    fn decide_step(&self, name: &str, state: &Self::State, command: &Self::Command) -> (r: Result<
        Vec<Self::Event>,
        Self::Error,
    >)
        ensures
            r matches Ok(v) ==> self.spec_decide_step(
                name@,
                state.deep_view(),
                command.deep_view(),
            ) == Ok::<Seq<<Self::Event as DeepView>::V>, <Self::Error as DeepView>::V>(
                v.deep_view(),
            ),
            r matches Err(e) ==> self.spec_decide_step(
                name@,
                state.deep_view(),
                command.deep_view(),
            ) == Err::<Seq<<Self::Event as DeepView>::V>, <Self::Error as DeepView>::V>(
                e.deep_view(),
            ),
    ;

    /// A reducer step decision; exactly [`Self::spec_decide_reduce`].
    fn decide_reduce(
        &self,
        name: &str,
        state: &Self::State,
        command: &Self::Command,
        item: &Self::Item,
        states: &StepStates<Self::State>,
    ) -> (r: Result<Vec<Self::Event>, Self::Error>)
        ensures
            r matches Ok(v) ==> self.spec_decide_reduce(
                name@,
                state.deep_view(),
                command.deep_view(),
                item.deep_view(),
                states@,
            ) == Ok::<Seq<<Self::Event as DeepView>::V>, <Self::Error as DeepView>::V>(
                v.deep_view(),
            ),
            r matches Err(e) ==> self.spec_decide_reduce(
                name@,
                state.deep_view(),
                command.deep_view(),
                item.deep_view(),
                states@,
            ) == Err::<Seq<<Self::Event as DeepView>::V>, <Self::Error as DeepView>::V>(
                e.deep_view(),
            ),
    ;
}

/// The map a snapshot entry sequence denotes: later snapshots of one name
/// shadow earlier ones.
pub open spec fn states_map_of<State: DeepView>(s: Seq<(String, State)>) -> Map<
    Seq<char>,
    <State as DeepView>::V,
>
    decreases s.len(),
{
    if s.len() == 0 {
        Map::empty()
    } else {
        states_map_of(s.drop_last()).insert(s.last().0@, s.last().1.deep_view())
    }
}

/// The side channel threading snapshots between steps: a map from step
/// name to the state after that step.
pub struct StepStates<State> {
    entries: Vec<(String, State)>,
}

impl<State: DeepView> View for StepStates<State> {
    type V = Map<Seq<char>, <State as DeepView>::V>;

    closed spec fn view(&self) -> Map<Seq<char>, <State as DeepView>::V> {
        states_map_of(self.entries@)
    }
}

impl<State: DeepView> StepStates<State> {
    /// No snapshots yet.
    pub fn new() -> (r: StepStates<State>)
        ensures
            r@ == Map::<Seq<char>, <State as DeepView>::V>::empty(),
    {
        StepStates { entries: Vec::new() }
    }

    /// Records the snapshot for a step name, shadowing any earlier one.
    pub fn insert(&mut self, key: String, value: State)
        ensures
            final(self)@ == old(self)@.insert(key@, value.deep_view()),
    {
        let ghost pre = self.entries@;
        let ghost k = key@;
        let ghost v = value.deep_view();
        self.entries.push((key, value));
        proof {
            assert(self.entries@.drop_last() =~= pre);
            assert(self.entries@.last().0@ == k);
            assert(self.entries@.last().1.deep_view() == v);
        }
    }

    /// The snapshot recorded for a step name, if any.
    pub fn get(&self, key: &str) -> (r: Option<&State>)
        ensures
            r matches Some(v) ==> self@.contains_key(key@) && self@[key@] == v.deep_view(),
            r is None ==> !self@.contains_key(key@),
    {
        let mut i: usize = self.entries.len();
        proof {
            assert(self.entries@.take(i as int) =~= self.entries@);
        }
        while i > 0
            invariant
                i <= self.entries.len(),
                states_map_of(self.entries@).contains_key(key@) == states_map_of(
                    self.entries@.take(i as int),
                ).contains_key(key@),
                states_map_of(self.entries@).contains_key(key@) ==> states_map_of(
                    self.entries@,
                )[key@] == states_map_of(self.entries@.take(i as int))[key@],
            decreases i,
        {
            let ghost pre = self.entries@.take(i as int);
            proof {
                assert(pre.drop_last() =~= self.entries@.take(i - 1));
                assert(pre.last() == self.entries@[i - 1]);
            }
            let found = {
                let pair = &self.entries[i - 1];
                crate::codec::str_eq(pair.0.as_str(), key)
            };
            if found {
                return Some(&self.entries[i - 1].1);
            }
            i -= 1;
        }
        proof {
            assert(self.entries@.take(0) =~= Seq::<(String, State)>::empty());
        }
        None
    }
}

/// What one registered step is: a plain decision, or a reduction over one
/// value of a supplied list.
pub enum StepKind<T> {
    Decide,
    Reduce(T),
}

impl<T: DeepView> DeepView for StepKind<T> {
    type V = StepKind<T::V>;

    open spec fn deep_view(&self) -> StepKind<T::V> {
        match self {
            StepKind::Decide => StepKind::Decide,
            StepKind::Reduce(t) => StepKind::Reduce(t.deep_view()),
        }
    }
}

/// The state a fold of events through the shared evolution reaches.
pub open spec fn spec_fold<D: MultiDecider>(
    d: D,
    s: <D::State as DeepView>::V,
    events: Seq<<D::Event as DeepView>::V>,
) -> <D::State as DeepView>::V
    decreases events.len(),
{
    if events.len() == 0 {
        s
    } else {
        d.spec_evolve(spec_fold(d, s, events.drop_last()), events.last())
    }
}

/// What running a step sequence yields: each step decides on the running
/// state, its events are folded in before the next step, its own snapshot
/// — after its events — is recorded under its name, and the accumulated
/// events of all steps are returned; the first rejection aborts the run.
pub open spec fn spec_run<D: MultiDecider>(
    d: D,
    c: <D::Command as DeepView>::V,
    s: <D::State as DeepView>::V,
    states: Map<Seq<char>, <D::State as DeepView>::V>,
    steps: Seq<(Seq<char>, StepKind<<D::Item as DeepView>::V>)>,
) -> Result<Seq<<D::Event as DeepView>::V>, <D::Error as DeepView>::V>
    decreases steps.len(),
{
    if steps.len() == 0 {
        Ok(Seq::empty())
    } else {
        let name = steps[0].0;
        let decided = match steps[0].1 {
            StepKind::Decide => d.spec_decide_step(name, s, c),
            StepKind::Reduce(item) => d.spec_decide_reduce(name, s, c, item, states),
        };
        match decided {
            Err(e) => Err(e),
            Ok(events) => {
                let s2 = spec_fold(d, s, events);
                match spec_run(d, c, s2, states.insert(name, s2), steps.drop_first()) {
                    Ok(more) => Ok(events + more),
                    Err(e) => Err(e),
                }
            },
        }
    }
}

/// Prepends already-accumulated events to a run result.
pub open spec fn prepend_run<Event, Error>(
    acc: Seq<Event>,
    r: Result<Seq<Event>, Error>,
) -> Result<Seq<Event>, Error> {
    match r {
        Ok(more) => Ok(acc + more),
        Err(e) => Err(e),
    }
}

/// Several named decision steps over one evolving state line.
pub struct Multi<D: MultiDecider> {
    pub decider: D,
    pub state: D::State,
    pub steps: Vec<(String, StepKind<D::Item>)>,
}

/// The models of a registered step sequence.
pub open spec fn steps_view<D: MultiDecider>(
    steps: Seq<(String, StepKind<D::Item>)>,
) -> Seq<(Seq<char>, StepKind<<D::Item as DeepView>::V>)> {
    steps.map_values(
        |p: (String, StepKind<D::Item>)| (p.0@, p.1.deep_view()),
    )
}

impl<D: MultiDecider> Multi<D> {
    /// A composer over a decision surface, starting from a given state,
    /// with no steps registered yet.
    pub fn new(decider: D, state: D::State) -> (r: Self)
        ensures
            r.decider == decider,
            r.state == state,
            r.steps@ =~= Seq::<(String, StepKind<D::Item>)>::empty(),
    {
        Multi { decider, state, steps: Vec::new() }
    }

    /// Registers a plain decision step under a name.
    pub fn execute(&mut self, step_name: String)
        ensures
            final(self).decider == old(self).decider,
            final(self).state == old(self).state,
            final(self).steps@ == old(self).steps@.push((step_name, StepKind::Decide)),
    {
        self.steps.push((step_name, StepKind::Decide));
    }

    /// Registers one reducer step per value of the supplied list, all
    /// under one name, in list order.
    #[verifier::loop_isolation(false)]
    pub fn reduce(&mut self, step_name: String, lists: Vec<D::Item>)
        ensures
            final(self).decider == old(self).decider,
            final(self).state == old(self).state,
            final(self).steps@.len() == old(self).steps@.len() + lists@.len(),
            forall|j: int|
                0 <= j < old(self).steps@.len() ==> final(self).steps@[j] == old(self).steps@[j],
            forall|j: int|
                0 <= j < lists@.len() ==> #[trigger] final(self).steps@[old(self).steps@.len() + j].0@
                    == step_name@ && final(self).steps@[old(self).steps@.len() + j].1
                    == StepKind::Reduce(lists@[j]),
    {
        let ghost base = self.steps@;
        let ghost items = lists@;
        let mut values = lists;
        let total = values.len();
        let mut i: usize = 0;
        proof {
            assert(values@ =~= items.skip(0));
        }
        while values.len() > 0
            invariant
                total == items.len(),
                0 <= i <= total,
                i + values@.len() == total,
                values@ == items.skip(i as int),
                self.steps@.len() == base.len() + i,
                self.decider == old(self).decider,
                self.state == old(self).state,
                forall|j: int| 0 <= j < base.len() ==> self.steps@[j] == base[j],
                forall|j: int|
                    0 <= j < i ==> #[trigger] self.steps@[base.len() + j].0@ == step_name@
                        && self.steps@[base.len() + j].1 == StepKind::Reduce(items[j]),
            decreases values@.len(),
        {
            let item = values.remove(0);
            proof {
                assert(item == items[i as int]);
                assert(values@ =~= items.skip(i + 1));
            }
            self.steps.push((step_name.clone(), StepKind::Reduce(item)));
            i += 1;
        }
    }

    /// Runs the registered steps in order against the composer's state;
    /// exactly [`spec_run`] starting from that state with no snapshots.
    #[verifier::loop_isolation(false)]
    pub fn run(&self, command: &D::Command) -> (r: Result<Vec<D::Event>, D::Error>)
        ensures
            r matches Ok(v) ==> spec_run(
                self.decider,
                command.deep_view(),
                self.state.deep_view(),
                Map::empty(),
                steps_view::<D>(self.steps@),
            ) == Ok::<Seq<<D::Event as DeepView>::V>, <D::Error as DeepView>::V>(v.deep_view()),
            r matches Err(e) ==> spec_run(
                self.decider,
                command.deep_view(),
                self.state.deep_view(),
                Map::empty(),
                steps_view::<D>(self.steps@),
            ) == Err::<Seq<<D::Event as DeepView>::V>, <D::Error as DeepView>::V>(e.deep_view()),
    {
        let ghost cv = command.deep_view();
        let ghost sviews = steps_view::<D>(self.steps@);
        let mut acc: Vec<D::Event> = Vec::new();
        let mut current = self.decider.clone_state(&self.state);
        let mut states: StepStates<D::State> = StepStates::new();
        let mut i: usize = 0;
        proof {
            assert(sviews.skip(0) =~= sviews);
            match spec_run(self.decider, cv, current.deep_view(), states@, sviews) {
                Ok(more) => {
                    assert(acc.deep_view() + more =~= more);
                },
                Err(_) => {},
            }
        }
        while i < self.steps.len()
            invariant
                0 <= i <= self.steps@.len(),
                spec_run(self.decider, cv, self.state.deep_view(), Map::empty(), sviews)
                    == prepend_run(
                    acc.deep_view(),
                    spec_run(self.decider, cv, current.deep_view(), states@, sviews.skip(i as int)),
                ),
            decreases self.steps@.len() - i,
        {
            let ghost tail = sviews.skip(i as int);
            proof {
                assert(tail[0] == sviews[i as int]);
                assert(tail.drop_first() =~= sviews.skip(i + 1));
            }
            let name = &self.steps[i].0;
            let decided = match &self.steps[i].1 {
                StepKind::Decide => self.decider.decide_step(name.as_str(), &current, command),
                StepKind::Reduce(item) => self.decider.decide_reduce(
                    name.as_str(),
                    &current,
                    command,
                    item,
                    &states,
                ),
            };
            match decided {
                Ok(events) => {
                    let ghost evs = events.deep_view();
                    let ghost st_pre = current.deep_view();
                    let mut k: usize = 0;
                    proof {
                        assert(evs.take(0) =~= Seq::<<D::Event as DeepView>::V>::empty());
                    }
                    while k < events.len()
                        invariant
                            0 <= k <= events@.len(),
                            evs == events.deep_view(),
                            current.deep_view() == spec_fold(
                                self.decider,
                                st_pre,
                                evs.take(k as int),
                            ),
                        decreases events@.len() - k,
                    {
                        proof {
                            assert(events[k as int].deep_view() == evs[k as int]);
                            assert(evs.take(k + 1).drop_last() =~= evs.take(k as int));
                            assert(evs.take(k + 1).last() == evs[k as int]);
                        }
                        current = self.decider.evolve(&current, &events[k]);
                        k += 1;
                    }
                    proof {
                        assert(evs.take(events@.len() as int) =~= evs);
                    }
                    states.insert(name.clone(), self.decider.clone_state(&current));
                    let ghost acc_pre = acc.deep_view();
                    let mut ev = events;
                    acc.append(&mut ev);
                    proof {
                        assert(acc.deep_view() =~= acc_pre + evs);
                        match spec_run(
                            self.decider,
                            cv,
                            current.deep_view(),
                            states@,
                            sviews.skip(i + 1),
                        ) {
                            Ok(more) => {
                                assert((acc_pre + evs) + more =~= acc_pre + (evs + more));
                            },
                            Err(_) => {},
                        }
                    }
                },
                Err(e) => {
                    return Err(e);
                },
            }
            i += 1;
        }
        proof {
            assert(sviews.skip(self.steps@.len() as int).len() == 0);
        }
        Ok(acc)
    }
}

/// The monitoring domain bound to the composer. Monitoring has no
/// per-step or per-item decision logic of its own, so both step forms
/// delegate to the domain's single decision function; the composer still
/// threads state, snapshots and accumulated events between steps.
impl MultiDecider for MonitoringDecider {
    type Item = String;

    type State = Monitoring;

    type Command = Command;

    type Event = Event;

    type Error = Error;

    open spec fn spec_evolve(&self, s: MonitoringView, e: EventView) -> MonitoringView {
        monitoring::spec_evolve(s, e)
    }

    open spec fn spec_decide_step(&self, name: Seq<char>, s: MonitoringView, c: CommandView) -> Result<
        Seq<EventView>,
        Error,
    > {
        monitoring::spec_decide(s, c)
    }

    open spec fn spec_decide_reduce(
        &self,
        name: Seq<char>,
        s: MonitoringView,
        c: CommandView,
        item: Seq<char>,
        states: Map<Seq<char>, MonitoringView>,
    ) -> Result<Seq<EventView>, Error> {
        monitoring::spec_decide(s, c)
    }

    fn evolve(&self, state: &Monitoring, event: &Event) -> (r: Monitoring) {
        monitoring::evolve(state, event)
    }

    fn clone_state(&self, state: &Monitoring) -> (r: Monitoring) {
        Monitoring { id: clone_optional_id(&state.id), status: state.status }
    }

    fn decide_step(&self, name: &str, state: &Monitoring, command: &Command) -> (r: Result<
        Vec<Event>,
        Error,
    >) {
        monitoring::decide(state, command)
    }

    fn decide_reduce(
        &self,
        name: &str,
        state: &Monitoring,
        command: &Command,
        item: &String,
        states: &StepStates<Monitoring>,
    ) -> (r: Result<Vec<Event>, Error>) {
        monitoring::decide(state, command)
    }
}

fn clone_optional_id(id: &Option<String>) -> (r: Option<String>)
    ensures
        r matches Some(s) ==> id matches Some(t) && s@ == t@,
        r is None <==> id is None,
{
    match id {
        Some(s) => Some(s.clone()),
        None => None,
    }
}

} // verus!
