//! The command dispatcher and its surroundings: the marshalling adapter
//! contract, per-dispatch options, tracing identifiers, the error taxonomy
//! and the dispatch result.
//!
//! A dispatch is one sequential read–replay–decide–append cycle over a
//! single stream: replay the stream through the decider's `evolve`, refuse
//! terminal states, let `decide` produce events, marshal them, and append
//! the batch guarded by the exact revision that was read.

use vstd::prelude::*;
use vstd::string::*;
use crate::decider::Decider;
use crate::stream::{
    EventLog,
    ExpectedRevision,
    Metadata,
    Record,
    RecordView,
    revision_matches,
};

verus! {

/// A marshalling failure: encoding or decoding an event, or meeting a type
/// tag that no decoder knows. Unknown tags are a distinct error so that a
/// replay never silently skips a record.
#[derive(PartialEq, Eq, Debug)]
pub enum MarshalError<E> {
    UnmarshalEvent(E),
    MarshalEvent(E),
    UnknownEventType,
}

impl<E: DeepView> DeepView for MarshalError<E> {
    type V = MarshalError<E::V>;

    open spec fn deep_view(&self) -> MarshalError<E::V> {
        match self {
            MarshalError::UnmarshalEvent(e) => MarshalError::UnmarshalEvent(e.deep_view()),
            MarshalError::MarshalEvent(e) => MarshalError::MarshalEvent(e.deep_view()),
            MarshalError::UnknownEventType => MarshalError::UnknownEventType,
        }
    }
}

/// A failure of the log service at append time.
#[derive(Clone, Copy, PartialEq, Eq, Structural, Debug)]
pub enum StoreError {
    /// The expected revision did not match the stream's actual tail.
    WrongExpectedVersion,
}

/// Everything a dispatch can fail with: a terminal state, a domain
/// rejection, a marshalling defect, or a fault of the log service.
#[derive(PartialEq, Eq, Debug)]
pub enum CommandHandlerError<E, ME> {
    StateIsTerminal,
    Domain(E),
    MarshalError(ME),
    InvalidConnection,
    EventStore(StoreError),
}

impl<E: DeepView, ME: DeepView> DeepView for CommandHandlerError<E, ME> {
    type V = CommandHandlerError<E::V, ME::V>;

    open spec fn deep_view(&self) -> CommandHandlerError<E::V, ME::V> {
        match self {
            CommandHandlerError::StateIsTerminal => CommandHandlerError::StateIsTerminal,
            CommandHandlerError::Domain(e) => CommandHandlerError::Domain(e.deep_view()),
            CommandHandlerError::MarshalError(m) => CommandHandlerError::MarshalError(
                m.deep_view(),
            ),
            CommandHandlerError::InvalidConnection => CommandHandlerError::InvalidConnection,
            CommandHandlerError::EventStore(s) => CommandHandlerError::EventStore(*s),
        }
    }
}

/// Relies on `uuid::Uuid::new_v4` and uuid's hyphenated display form: a
/// freshly generated identifier, 36 characters long.
#[verifier::external_body]
fn fresh_uuid() -> (r: String)
    ensures
        r@.len() == 36,
{
    uuid::Uuid::new_v4().to_string()
}

/// A tracing identifier linking every command and event of one workflow.
#[derive(Debug)]
pub struct CorrelationId(String);

impl View for CorrelationId {
    type V = Seq<char>;

    closed spec fn view(&self) -> Seq<char> {
        self.0@
    }
}

impl CorrelationId {
    /// Wraps an identifier chosen by the caller.
    pub fn new(id: String) -> (r: CorrelationId)
        ensures
            r@ == id@,
    {
        CorrelationId(id)
    }

    /// The identifier as text.
    pub fn into_string(self) -> (r: String)
        ensures
            r@ == self@,
    {
        self.0
    }
}

impl Default for CorrelationId {
    /// A freshly generated identifier.
    fn default() -> (r: CorrelationId)
        ensures
            r@.len() == 36,
    {
        CorrelationId(fresh_uuid())
    }
}

/// A tracing identifier naming the message that caused this dispatch.
#[derive(Debug)]
pub struct CausationId(String);

impl View for CausationId {
    type V = Seq<char>;

    closed spec fn view(&self) -> Seq<char> {
        self.0@
    }
}

impl CausationId {
    /// Wraps an identifier chosen by the caller.
    pub fn new(id: String) -> (r: CausationId)
        ensures
            r@ == id@,
    {
        CausationId(id)
    }

    /// The identifier as text.
    pub fn into_string(self) -> (r: String)
        ensures
            r@ == self@,
    {
        self.0
    }
}

impl Default for CausationId {
    /// A freshly generated identifier.
    fn default() -> (r: CausationId)
        ensures
            r@.len() == 36,
    {
        CausationId(fresh_uuid())
    }
}

/// Per-dispatch configuration: caller metadata, an expected-revision
/// override, and the tracing identifiers, each generated fresh when unset.
#[derive(Debug)]
pub struct Options {
    pub metadata: Option<Metadata>,
    pub expected_revision: Option<ExpectedRevision>,
    pub correlation_id: Option<CorrelationId>,
    pub causation_id: Option<CausationId>,
}

impl Default for Options {
    /// Options with nothing set.
    fn default() -> (r: Options)
        ensures
            r.metadata is None,
            r.expected_revision is None,
            r.correlation_id is None,
            r.causation_id is None,
    {
        Options { expected_revision: None, metadata: None, correlation_id: None, causation_id: None }
    }
}

/// The outcome of a successful dispatch: the revision assigned to the last
/// appended event — unchanged when nothing was appended — and the events
/// the decision produced, in order.
#[derive(Debug)]
pub struct DecisionResult<Event> {
    pub next_expected_version: u64,
    pub events: Vec<Event>,
}

/// Binds a decider to byte-level event codecs and stream-id derivation.
///
/// `spec_stream_id` and `spec_event_type` are pure projections that never
/// fail; marshalling may fail with the adapter's own error. The proof
/// obligation [`Marshaller::round_trip`] demands of every implementation
/// that unmarshalling inverts marshalling.
pub trait Marshaller: Sized {
    type Command: DeepView;

    type Event: DeepView;

    type MError: DeepView;

    /// The stable type tag of an event.
    spec fn spec_event_type(&self, e: <Self::Event as DeepView>::V) -> Seq<char>;

    /// The stream a command addresses; deterministic, so that two commands
    /// for one logical entity always meet the same stream.
    spec fn spec_stream_id(&self, c: <Self::Command as DeepView>::V) -> Seq<char>;

    /// The payload bytes of an event, or the adapter's encoding error.
    spec fn spec_marshal(&self, e: <Self::Event as DeepView>::V) -> Result<
        Seq<u8>,
        <Self::MError as DeepView>::V,
    >;

    /// The event a tag and payload decode to, or the adapter's decoding
    /// error.
    spec fn spec_unmarshal(&self, tag: Seq<char>, data: Seq<u8>) -> Result<
        <Self::Event as DeepView>::V,
        <Self::MError as DeepView>::V,
    >;

    /// Round-trip marshalling: whatever marshals successfully unmarshals
    /// back to itself under its own type tag.
    proof fn round_trip(&self, e: <Self::Event as DeepView>::V)
        requires
            self.spec_marshal(e) is Ok,
        ensures
            self.spec_unmarshal(self.spec_event_type(e), self.spec_marshal(e)->Ok_0) == Ok::<
                <Self::Event as DeepView>::V,
                <Self::MError as DeepView>::V,
            >(e),
    ;

    /// The stable type tag of an event; exactly [`Self::spec_event_type`].
    fn get_event_type(&self, event: &Self::Event) -> (t: String)
        ensures
            t@ == self.spec_event_type(event.deep_view()),
    ;

    /// The stream a command addresses; exactly [`Self::spec_stream_id`].
    fn get_stream_id(&self, command: &Self::Command) -> (id: String)
        ensures
            id@ == self.spec_stream_id(command.deep_view()),
    ;

    /// Marshals one event to its wire form: its type tag and payload.
    fn marshal_event(&self, event: &Self::Event) -> (r: Result<(String, Vec<u8>), Self::MError>)
        ensures
            r matches Ok(p) ==> p.0@ == self.spec_event_type(event.deep_view())
                && self.spec_marshal(event.deep_view()) == Ok::<
                Seq<u8>,
                <Self::MError as DeepView>::V,
            >(p.1@),
            r matches Err(m) ==> self.spec_marshal(event.deep_view()) == Err::<
                Seq<u8>,
                <Self::MError as DeepView>::V,
            >(m.deep_view()),
    ;

    /// Unmarshals one record's payload under its type tag.
    fn unmarshal_event(&self, event_type: &str, data: &Vec<u8>) -> (r: Result<
        Self::Event,
        Self::MError,
    >)
        ensures
            r matches Ok(e) ==> self.spec_unmarshal(event_type@, data@) == Ok::<
                <Self::Event as DeepView>::V,
                <Self::MError as DeepView>::V,
            >(e.deep_view()),
            r matches Err(m) ==> self.spec_unmarshal(event_type@, data@) == Err::<
                <Self::Event as DeepView>::V,
                <Self::MError as DeepView>::V,
            >(m.deep_view()),
    ;
}

/// The expected-revision override a caller supplied, if any.
pub open spec fn opts_expected(opts: Option<Options>) -> Option<ExpectedRevision> {
    match opts {
        Some(o) => o.expected_revision,
        None => None,
    }
}

/// The metadata a caller supplied, as a map; empty when unset.
pub open spec fn opts_metadata_map(opts: Option<Options>) -> Map<Seq<char>, Seq<char>> {
    match opts {
        Some(o) => match o.metadata {
            Some(m) => m@,
            None => Map::empty(),
        },
        None => Map::empty(),
    }
}

/// The correlation id a caller supplied, if any.
pub open spec fn opts_correlation(opts: Option<Options>) -> Option<Seq<char>> {
    match opts {
        Some(o) => match o.correlation_id {
            Some(c) => Some(c@),
            None => None,
        },
        None => None,
    }
}

/// The causation id a caller supplied, if any.
pub open spec fn opts_causation(opts: Option<Options>) -> Option<Seq<char>> {
    match opts {
        Some(o) => match o.causation_id {
            Some(c) => Some(c@),
            None => None,
        },
        None => None,
    }
}

/// Whether the tracing identifiers used by a dispatch respect the caller's
/// choices: a supplied id is used as given; an unsupplied one may be any
/// freshly generated value.
pub open spec fn dispatch_ids_ok(
    ocid: Option<Seq<char>>,
    okid: Option<Seq<char>>,
    cid: Seq<char>,
    kid: Seq<char>,
) -> bool {
    &&& (ocid matches Some(c) ==> cid == c)
    &&& (okid matches Some(k) ==> kid == k)
}

/// The expected revision a dispatch asserts: the caller's override when
/// present, else exactly what the read showed — `NoStream` for an empty
/// stream, the tail revision otherwise.
pub open spec fn spec_expected(oexp: Option<ExpectedRevision>, len: nat) -> ExpectedRevision {
    match oexp {
        Some(e) => e,
        None => if len == 0 {
            ExpectedRevision::NoStream
        } else {
            ExpectedRevision::Exact((len - 1) as u64)
        },
    }
}

/// The metadata attached to every appended record: the caller's map with
/// the reserved tracing keys always injected.
pub open spec fn merged_metadata(
    base: Map<Seq<char>, Seq<char>>,
    cid: Seq<char>,
    kid: Seq<char>,
) -> Map<Seq<char>, Seq<char>> {
    base.insert("$correlationId"@, cid).insert("$causationId"@, kid)
}

/// The records a marshalled batch becomes, all carrying one metadata map.
pub open spec fn records_of(
    batch: Seq<(Seq<char>, Seq<u8>)>,
    md: Map<Seq<char>, Seq<char>>,
) -> Seq<RecordView> {
    batch.map_values(
        |p: (Seq<char>, Seq<u8>)|
            RecordView { event_type: p.0, payload: p.1, metadata: md },
    )
}

/// Wraps a decider and its marshalling adapter and orchestrates the
/// read–replay–decide–append cycle with optimistic concurrency.
pub struct EventSourcingDecider<D, M> {
    pub decider: D,
    pub marshaller: M,
}

impl<D: Decider, M: Marshaller<Command = D::Command, Event = D::Event>> EventSourcingDecider<
    D,
    M,
> {
    /// Binds a decider to a marshalling adapter.
    pub fn new(decider: D, marshaller: M) -> (r: Self)
        ensures
            r.decider == decider,
            r.marshaller == marshaller,
    {
        EventSourcingDecider { decider, marshaller }
    }

    /// The stable type tag of an event.
    pub fn get_event_type(&self, event: &D::Event) -> (t: String)
        ensures
            t@ == self.marshaller.spec_event_type(event.deep_view()),
    {
        self.marshaller.get_event_type(event)
    }

    /// The stream a command addresses.
    pub fn get_stream_id(&self, command: &D::Command) -> (id: String)
        ensures
            id@ == self.marshaller.spec_stream_id(command.deep_view()),
    {
        self.marshaller.get_stream_id(command)
    }

    /// Unmarshals one record's payload under its type tag.
    pub fn unmarshal_event(&self, event_type: &str, data: &Vec<u8>) -> (r: Result<
        D::Event,
        M::MError,
    >)
        ensures
            r matches Ok(e) ==> self.marshaller.spec_unmarshal(event_type@, data@) == Ok::<
                <D::Event as DeepView>::V,
                <M::MError as DeepView>::V,
            >(e.deep_view()),
            r matches Err(m) ==> self.marshaller.spec_unmarshal(event_type@, data@) == Err::<
                <D::Event as DeepView>::V,
                <M::MError as DeepView>::V,
            >(m.deep_view()),
    {
        self.marshaller.unmarshal_event(event_type, data)
    }

    /// Marshals one event to its wire form.
    pub fn marshal_event(&self, event: &D::Event) -> (r: Result<(String, Vec<u8>), M::MError>)
        ensures
            r matches Ok(p) ==> p.0@ == self.marshaller.spec_event_type(event.deep_view())
                && self.marshaller.spec_marshal(event.deep_view()) == Ok::<
                Seq<u8>,
                <M::MError as DeepView>::V,
            >(p.1@),
            r matches Err(m) ==> self.marshaller.spec_marshal(event.deep_view()) == Err::<
                Seq<u8>,
                <M::MError as DeepView>::V,
            >(m.deep_view()),
    {
        self.marshaller.marshal_event(event)
    }

    /// The zero state for a stream that has never been written.
    pub fn initial_state(&self) -> (s: D::State)
        ensures
            s.deep_view() == self.decider.spec_initial_state(),
    {
        self.decider.initial_state()
    }

    /// Decides which events a command produces on a state.
    pub fn decide(&self, state: &D::State, command: &D::Command) -> (r: Result<
        Vec<D::Event>,
        D::DomainError,
    >)
        ensures
            r matches Ok(v) ==> self.decider.spec_decide(state.deep_view(), command.deep_view())
                == Ok::<
                Seq<<D::Event as DeepView>::V>,
                <D::DomainError as DeepView>::V,
            >(v.deep_view()),
            r matches Err(e) ==> self.decider.spec_decide(state.deep_view(), command.deep_view())
                == Err::<
                Seq<<D::Event as DeepView>::V>,
                <D::DomainError as DeepView>::V,
            >(e.deep_view()),
    {
        self.decider.decide(state, command)
    }

    /// Folds one event into a state.
    pub fn evolve(&self, state: &D::State, event: &D::Event) -> (r: D::State)
        ensures
            r.deep_view() == self.decider.spec_evolve(state.deep_view(), event.deep_view()),
    {
        self.decider.evolve(state, event)
    }

    /// Whether a state accepts no further commands.
    pub fn is_terminal(&self, state: &D::State) -> (b: bool)
        ensures
            b == self.decider.spec_is_terminal(state.deep_view()),
    {
        self.decider.is_terminal(state)
    }

    /// The state a record sequence replays to: the left fold of the
    /// decider's evolution over the decoded events in log order, or the
    /// first decoding error met.
    pub open spec fn spec_replay(&self, records: Seq<RecordView>) -> Result<
        <D::State as DeepView>::V,
        <M::MError as DeepView>::V,
    >
        decreases records.len(),
    {
        if records.len() == 0 {
            Ok(self.decider.spec_initial_state())
        } else {
            match self.spec_replay(records.drop_last()) {
                Ok(s) => match self.marshaller.spec_unmarshal(
                    records.last().event_type,
                    records.last().payload,
                ) {
                    Ok(e) => Ok(self.decider.spec_evolve(s, e)),
                    Err(m) => Err(m),
                },
                Err(m) => Err(m),
            }
        }
    }

    /// The marshalled batch of a decided event sequence: each event's type
    /// tag and payload, in program order, or the first encoding error met.
    pub open spec fn spec_marshal_batch(&self, events: Seq<<D::Event as DeepView>::V>) -> Result<
        Seq<(Seq<char>, Seq<u8>)>,
        <M::MError as DeepView>::V,
    >
        decreases events.len(),
    {
        if events.len() == 0 {
            Ok(Seq::empty())
        } else {
            match self.spec_marshal_batch(events.drop_last()) {
                Ok(b) => match self.marshaller.spec_marshal(events.last()) {
                    Ok(d) => Ok(b.push((self.marshaller.spec_event_type(events.last()), d))),
                    Err(m) => Err(m),
                },
                Err(m) => Err(m),
            }
        }
    }

    /// A replay error in a prefix is the error of the whole replay: replay
    /// fails fast on the first undecodable record.
    pub proof fn lemma_replay_err_prefix(&self, records: Seq<RecordView>, i: int)
        requires
            0 <= i <= records.len(),
            self.spec_replay(records.take(i)) is Err,
        ensures
            self.spec_replay(records) == self.spec_replay(records.take(i)),
        decreases records.len() - i,
    {
        if i == records.len() {
            assert(records.take(i) =~= records);
        } else {
            assert(records.take(i + 1).drop_last() =~= records.take(i));
            assert(records.take(i + 1).last() == records[i]);
            self.lemma_replay_err_prefix(records, i + 1);
        }
    }

    /// A marshalling error in a prefix of the batch is the error of the
    /// whole batch: marshalling fails fast on the first rejected event.
    pub proof fn lemma_batch_err_prefix(&self, events: Seq<<D::Event as DeepView>::V>, i: int)
        requires
            0 <= i <= events.len(),
            self.spec_marshal_batch(events.take(i)) is Err,
        ensures
            self.spec_marshal_batch(events) == self.spec_marshal_batch(events.take(i)),
        decreases events.len() - i,
    {
        if i == events.len() {
            assert(events.take(i) =~= events);
        } else {
            assert(events.take(i + 1).drop_last() =~= events.take(i));
            assert(events.take(i + 1).last() == events[i]);
            self.lemma_batch_err_prefix(events, i + 1);
        }
    }

    /// What a dispatch returns, as a function of the records read, the
    /// command and the expected-revision override alone.
    pub open spec fn spec_dispatch_outcome(
        &self,
        log0: Seq<RecordView>,
        c: <D::Command as DeepView>::V,
        oexp: Option<ExpectedRevision>,
    ) -> Result<
        (u64, Seq<<D::Event as DeepView>::V>),
        CommandHandlerError<<D::DomainError as DeepView>::V, <M::MError as DeepView>::V>,
    > {
        match self.spec_replay(log0) {
            Err(m) => Err(CommandHandlerError::MarshalError(m)),
            Ok(state) => if self.decider.spec_is_terminal(state) {
                Err(CommandHandlerError::StateIsTerminal)
            } else {
                match self.decider.spec_decide(state, c) {
                    Err(e) => Err(CommandHandlerError::Domain(e)),
                    Ok(events) => if events.len() == 0 {
                        Ok(
                            (
                                if log0.len() == 0 {
                                    0u64
                                } else {
                                    (log0.len() - 1) as u64
                                },
                                events,
                            ),
                        )
                    } else {
                        match self.spec_marshal_batch(events) {
                            Err(m) => Err(CommandHandlerError::MarshalError(m)),
                            Ok(batch) => if revision_matches(
                                spec_expected(oexp, log0.len()),
                                log0.len(),
                            ) {
                                Ok(((log0.len() + events.len() - 1) as u64, events))
                            } else {
                                Err(
                                    CommandHandlerError::EventStore(
                                        StoreError::WrongExpectedVersion,
                                    ),
                                )
                            },
                        }
                    },
                }
            },
        }
    }

    /// What the stream holds after a dispatch: unchanged unless the
    /// decision produced a non-empty batch and the expected revision
    /// matched, in which case the batch is appended in program order, each
    /// record carrying the merged metadata.
    pub open spec fn spec_dispatch_log(
        &self,
        log0: Seq<RecordView>,
        c: <D::Command as DeepView>::V,
        oexp: Option<ExpectedRevision>,
        meta0: Map<Seq<char>, Seq<char>>,
        cid: Seq<char>,
        kid: Seq<char>,
    ) -> Seq<RecordView> {
        match self.spec_replay(log0) {
            Err(m) => log0,
            Ok(state) => if self.decider.spec_is_terminal(state) {
                log0
            } else {
                match self.decider.spec_decide(state, c) {
                    Err(e) => log0,
                    Ok(events) => if events.len() == 0 {
                        log0
                    } else {
                        match self.spec_marshal_batch(events) {
                            Err(m) => log0,
                            Ok(batch) => if revision_matches(
                                spec_expected(oexp, log0.len()),
                                log0.len(),
                            ) {
                                log0 + records_of(batch, merged_metadata(meta0, cid, kid))
                            } else {
                                log0
                            },
                        }
                    },
                }
            },
        }
    }

    /// Dispatches one command against one stream: replay, terminal guard,
    /// decision, marshalling, conditional append. The result and the new
    /// stream contents are exactly [`Self::spec_dispatch_outcome`] and
    /// [`Self::spec_dispatch_log`] on the stream as it was read. A
    /// decision of zero events appends nothing and reports the tail
    /// revision that was read (zero for a stream that does not exist).
    #[verifier::loop_isolation(false)]
    pub fn dispatch_command(
        &self,
        log: &mut EventLog,
        command: &D::Command,
        opts: Option<Options>,
    ) -> (r: Result<
        DecisionResult<D::Event>,
        CommandHandlerError<D::DomainError, M::MError>,
    >)
        ensures
            r matches Ok(d) ==> self.spec_dispatch_outcome(
                old(log)@,
                command.deep_view(),
                opts_expected(opts),
            ) == Ok::<
                (u64, Seq<<D::Event as DeepView>::V>),
                CommandHandlerError<<D::DomainError as DeepView>::V, <M::MError as DeepView>::V>,
            >((d.next_expected_version, d.events.deep_view())),
            r matches Err(e) ==> self.spec_dispatch_outcome(
                old(log)@,
                command.deep_view(),
                opts_expected(opts),
            ) == Err::<
                (u64, Seq<<D::Event as DeepView>::V>),
                CommandHandlerError<<D::DomainError as DeepView>::V, <M::MError as DeepView>::V>,
            >(e.deep_view()),
            exists|cid: Seq<char>, kid: Seq<char>|
                #[trigger] dispatch_ids_ok(opts_correlation(opts), opts_causation(opts), cid, kid)
                    && final(log)@ == self.spec_dispatch_log(
                    old(log)@,
                    command.deep_view(),
                    opts_expected(opts),
                    opts_metadata_map(opts),
                    cid,
                    kid,
                ),
    {
        let ghost log0 = log@;
        let ghost cv = command.deep_view();
        let ghost oexp = opts_expected(opts);
        let ghost meta0 = opts_metadata_map(opts);
        let ghost ocid = opts_correlation(opts);
        let ghost okid = opts_causation(opts);

        let o = match opts {
            Some(o) => o,
            None => Options::default(),
        };

        // Replay: fold every record of the stream into the state.
        let mut state = self.decider.initial_state();
        let n = log.len();
        let mut i: usize = 0;
        proof {
            assert(log0.take(0) =~= Seq::<RecordView>::empty());
        }
        while i < n
            invariant
                n == log0.len(),
                log@ == log0,
                0 <= i <= n,
                self.spec_replay(log0.take(i as int)) == Ok::<
                    <D::State as DeepView>::V,
                    <M::MError as DeepView>::V,
                >(state.deep_view()),
            decreases n - i,
        {
            let rec = log.record_at(i);
            proof {
                assert(log0.take(i + 1).drop_last() =~= log0.take(i as int));
                assert(log0.take(i + 1).last() == log0[i as int]);
            }
            match self.marshaller.unmarshal_event(rec.event_type.as_str(), &rec.payload) {
                Ok(ev) => {
                    state = self.decider.evolve(&state, &ev);
                },
                Err(m) => {
                    proof {
                        self.lemma_replay_err_prefix(log0, i + 1);
                        let cw: Seq<char> = match ocid {
                            Some(c) => c,
                            None => Seq::empty(),
                        };
                        let kw: Seq<char> = match okid {
                            Some(k) => k,
                            None => Seq::empty(),
                        };
                        assert(dispatch_ids_ok(ocid, okid, cw, kw));
                        assert(log@ == self.spec_dispatch_log(log0, cv, oexp, meta0, cw, kw));
                    }
                    return Err(CommandHandlerError::MarshalError(m));
                },
            }
            i += 1;
        }
        proof {
            assert(log0.take(n as int) =~= log0);
        }

        // Terminal guard: a terminal state accepts no further commands,
        // and the decision function is never consulted.
        if self.decider.is_terminal(&state) {
            proof {
                let cw: Seq<char> = match ocid {
                    Some(c) => c,
                    None => Seq::empty(),
                };
                let kw: Seq<char> = match okid {
                    Some(k) => k,
                    None => Seq::empty(),
                };
                assert(dispatch_ids_ok(ocid, okid, cw, kw));
                assert(log@ == self.spec_dispatch_log(log0, cv, oexp, meta0, cw, kw));
            }
            return Err(CommandHandlerError::StateIsTerminal);
        }

        // Decision: a domain rejection is surfaced unchanged.
        let events = match self.decider.decide(&state, command) {
            Ok(v) => v,
            Err(e) => {
                proof {
                    let cw: Seq<char> = match ocid {
                        Some(c) => c,
                        None => Seq::empty(),
                    };
                    let kw: Seq<char> = match okid {
                        Some(k) => k,
                        None => Seq::empty(),
                    };
                    assert(dispatch_ids_ok(ocid, okid, cw, kw));
                    assert(log@ == self.spec_dispatch_log(log0, cv, oexp, meta0, cw, kw));
                }
                return Err(CommandHandlerError::Domain(e));
            },
        };
        let ghost evs = events.deep_view();

        // Zero events: nothing to append; the stream and its tail revision
        // are left unchanged.
        if events.len() == 0 {
            let tail: u64 = if n == 0 {
                0
            } else {
                (n - 1) as u64
            };
            proof {
                assert(evs =~= Seq::<<D::Event as DeepView>::V>::empty());
                let cw: Seq<char> = match ocid {
                    Some(c) => c,
                    None => Seq::empty(),
                };
                let kw: Seq<char> = match okid {
                    Some(k) => k,
                    None => Seq::empty(),
                };
                assert(dispatch_ids_ok(ocid, okid, cw, kw));
                assert(log@ == self.spec_dispatch_log(log0, cv, oexp, meta0, cw, kw));
            }
            return Ok(DecisionResult { next_expected_version: tail, events });
        }

        // Metadata: the caller's map with the reserved tracing keys always
        // injected, generated fresh when the caller supplied none.
        let mut md = match o.metadata {
            Some(m) => m,
            None => Metadata::new(),
        };
        let cid = match o.correlation_id {
            Some(c) => c,
            None => CorrelationId::default(),
        };
        let kid = match o.causation_id {
            Some(k) => k,
            None => CausationId::default(),
        };
        let ghost cidv = cid@;
        let ghost kidv = kid@;
        md.insert(String::from_str("$correlationId"), cid.into_string());
        md.insert(String::from_str("$causationId"), kid.into_string());
        let ghost mdv = md@;
        proof {
            assert(mdv == merged_metadata(meta0, cidv, kidv));
            assert(dispatch_ids_ok(ocid, okid, cidv, kidv));
        }

        // Marshalling: each event in program order; fail fast before any
        // append.
        let mut recs: Vec<Record> = Vec::new();
        let mut j: usize = 0;
        proof {
            assert(evs.take(0) =~= Seq::<<D::Event as DeepView>::V>::empty());
            assert(recs@.map_values(|x: Record| x@) =~= records_of(
                Seq::<(Seq<char>, Seq<u8>)>::empty(),
                mdv,
            ));
        }
        while j < events.len()
            invariant
                0 <= j <= events.len(),
                evs == events.deep_view(),
                evs.len() == events@.len(),
                recs@.len() == j,
                self.spec_marshal_batch(evs.take(j as int)) matches Ok(b) && recs@.map_values(
                    |x: Record| x@,
                ) == records_of(b, mdv),
            decreases events@.len() - j,
        {
            let ev = &events[j];
            proof {
                assert(ev.deep_view() == evs[j as int]);
                assert(evs.take(j + 1).drop_last() =~= evs.take(j as int));
                assert(evs.take(j + 1).last() == evs[j as int]);
            }
            match self.marshaller.marshal_event(ev) {
                Ok(p) => {
                    let (t, d) = p;
                    let ghost tv = t@;
                    let ghost dv = d@;
                    let ghost pre = recs@.map_values(|x: Record| x@);
                    let rec = Record { event_type: t, payload: d, metadata: md.duplicate() };
                    proof {
                        assert(rec@ == RecordView { event_type: tv, payload: dv, metadata: mdv });
                    }
                    recs.push(rec);
                    proof {
                        let b = self.spec_marshal_batch(evs.take(j as int))->Ok_0;
                        assert(self.spec_marshal_batch(evs.take(j + 1)) == Ok::<
                            Seq<(Seq<char>, Seq<u8>)>,
                            <M::MError as DeepView>::V,
                        >(b.push((tv, dv))));
                        assert(recs@.map_values(|x: Record| x@) =~= pre.push(
                            RecordView { event_type: tv, payload: dv, metadata: mdv },
                        ));
                        assert(records_of(b.push((tv, dv)), mdv) =~= records_of(b, mdv).push(
                            RecordView { event_type: tv, payload: dv, metadata: mdv },
                        ));
                    }
                },
                Err(m) => {
                    proof {
                        assert(self.spec_marshal_batch(evs.take(j + 1)) is Err);
                        self.lemma_batch_err_prefix(evs, j + 1);
                        assert(log@ == self.spec_dispatch_log(log0, cv, oexp, meta0, cidv, kidv));
                    }
                    return Err(CommandHandlerError::MarshalError(m));
                },
            }
            j += 1;
        }
        proof {
            assert(evs.take(events@.len() as int) =~= evs);
        }

        // Expected revision: the caller's override takes precedence; else
        // exactly what the read showed.
        let expected = match o.expected_revision {
            Some(e) => e,
            None => if n == 0 {
                ExpectedRevision::NoStream
            } else {
                ExpectedRevision::Exact((n - 1) as u64)
            },
        };
        proof {
            assert(expected == spec_expected(oexp, log0.len()));
            assert(recs@.len() > 0);
        }

        // Append: atomic, guarded by the expected revision.
        match log.append(expected, recs) {
            Ok(tail) => {
                proof {
                    assert(log@ == self.spec_dispatch_log(log0, cv, oexp, meta0, cidv, kidv));
                    assert(tail as int == log0.len() + evs.len() - 1);
                }
                Ok(DecisionResult { next_expected_version: tail, events })
            },
            Err(e) => {
                proof {
                    assert(log@ == self.spec_dispatch_log(log0, cv, oexp, meta0, cidv, kidv));
                }
                Err(CommandHandlerError::EventStore(e))
            },
        }
    }
}

/// The state a decided event sequence folds a state to, in program order.
pub open spec fn spec_fold_evolve<D: Decider>(
    d: D,
    s: <D::State as DeepView>::V,
    events: Seq<<D::Event as DeepView>::V>,
) -> <D::State as DeepView>::V
    decreases events.len(),
{
    if events.len() == 0 {
        s
    } else {
        d.spec_evolve(spec_fold_evolve(d, s, events.drop_last()), events.last())
    }
}

/// Persistence loses nothing: when a dispatch appends the marshalled batch
/// of its decided events, replaying the stream afterwards reaches exactly
/// the state the events fold the replayed state to — the marshalling
/// round trip carries every event across the log intact, whatever
/// metadata the records were given.
pub proof fn lemma_append_replays_back<
    D: Decider,
    M: Marshaller<Command = D::Command, Event = D::Event>,
>(
    es: EventSourcingDecider<D, M>,
    log0: Seq<RecordView>,
    events: Seq<<D::Event as DeepView>::V>,
    batch: Seq<(Seq<char>, Seq<u8>)>,
    md: Map<Seq<char>, Seq<char>>,
)
    requires
        es.spec_marshal_batch(events) == Ok::<Seq<(Seq<char>, Seq<u8>)>, <M::MError as DeepView>::V>(
            batch,
        ),
        es.spec_replay(log0) is Ok,
    ensures
        es.spec_replay(log0 + records_of(batch, md)) == Ok::<
            <D::State as DeepView>::V,
            <M::MError as DeepView>::V,
        >(spec_fold_evolve(es.decider, es.spec_replay(log0)->Ok_0, events)),
    decreases events.len(),
{
    let s0 = es.spec_replay(log0)->Ok_0;
    if events.len() == 0 {
        assert(batch =~= Seq::<(Seq<char>, Seq<u8>)>::empty());
        assert(records_of(batch, md) =~= Seq::<RecordView>::empty());
        assert(log0 + records_of(batch, md) =~= log0);
    } else {
        let pre = events.drop_last();
        let last = events.last();
        let bp = es.spec_marshal_batch(pre)->Ok_0;
        let d = es.marshaller.spec_marshal(last)->Ok_0;
        let tag = es.marshaller.spec_event_type(last);
        assert(batch == bp.push((tag, d)));
        lemma_append_replays_back(es, log0, pre, bp, md);
        let grown = log0 + records_of(bp, md);
        let rec = RecordView { event_type: tag, payload: d, metadata: md };
        assert(records_of(batch, md) =~= records_of(bp, md).push(rec));
        assert(log0 + records_of(batch, md) =~= grown.push(rec));
        assert(grown.push(rec).drop_last() =~= grown);
        assert(grown.push(rec).last() == rec);
        es.marshaller.round_trip(last);
    }
}

/// Replay determinism: the state a stream replays to is a function of the
/// record sequence alone, so any two replays of the same records — however
/// often a stream is re-read — reconstruct the very same state.
pub proof fn lemma_replay_deterministic<
    D: Decider,
    M: Marshaller<Command = D::Command, Event = D::Event>,
>(
    es: EventSourcingDecider<D, M>,
    records: Seq<RecordView>,
    r1: Result<<D::State as DeepView>::V, <M::MError as DeepView>::V>,
    r2: Result<<D::State as DeepView>::V, <M::MError as DeepView>::V>,
)
    requires
        r1 == es.spec_replay(records),
        r2 == es.spec_replay(records),
    ensures
        r1 == r2,
{
}

/// Terminal guard: once the replayed state is terminal, the dispatch
/// outcome is `StateIsTerminal` and the stream is left unchanged, whatever
/// the decision function would have said and whatever metadata or
/// identifiers the dispatch carries.
pub proof fn lemma_terminal_guard<
    D: Decider,
    M: Marshaller<Command = D::Command, Event = D::Event>,
>(
    es: EventSourcingDecider<D, M>,
    log0: Seq<RecordView>,
    c: <D::Command as DeepView>::V,
    oexp: Option<ExpectedRevision>,
    meta0: Map<Seq<char>, Seq<char>>,
    cid: Seq<char>,
    kid: Seq<char>,
)
    requires
        es.spec_replay(log0) matches Ok(s) && es.decider.spec_is_terminal(s),
    ensures
        es.spec_dispatch_outcome(log0, c, oexp) == Err::<
            (u64, Seq<<D::Event as DeepView>::V>),
            CommandHandlerError<<D::DomainError as DeepView>::V, <M::MError as DeepView>::V>,
        >(CommandHandlerError::StateIsTerminal),
        es.spec_dispatch_log(log0, c, oexp, meta0, cid, kid) == log0,
{
}

/// A no-op decision does not advance the stream: a command that decides
/// zero events appends nothing, leaves the stream exactly as it was, and
/// reports the tail revision the read had shown.
pub proof fn lemma_noop_preserves_stream<
    D: Decider,
    M: Marshaller<Command = D::Command, Event = D::Event>,
>(
    es: EventSourcingDecider<D, M>,
    log0: Seq<RecordView>,
    c: <D::Command as DeepView>::V,
    oexp: Option<ExpectedRevision>,
    meta0: Map<Seq<char>, Seq<char>>,
    cid: Seq<char>,
    kid: Seq<char>,
)
    requires
        es.spec_replay(log0) matches Ok(s) && !es.decider.spec_is_terminal(s)
            && es.decider.spec_decide(s, c) == Ok::<
            Seq<<D::Event as DeepView>::V>,
            <D::DomainError as DeepView>::V,
        >(Seq::empty()),
    ensures
        es.spec_dispatch_log(log0, c, oexp, meta0, cid, kid) == log0,
        es.spec_dispatch_outcome(log0, c, oexp) == Ok::<
            (u64, Seq<<D::Event as DeepView>::V>),
            CommandHandlerError<<D::DomainError as DeepView>::V, <M::MError as DeepView>::V>,
        >(
            (
                if log0.len() == 0 {
                    0u64
                } else {
                    (log0.len() - 1) as u64
                },
                Seq::empty(),
            ),
        ),
{
}

} // verus!
