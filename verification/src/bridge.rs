//! The sandboxed decision bridge: the same read–replay–decide–append cycle
//! as the in-process dispatcher, but every decider and adapter operation is
//! a serialized request/response call across an isolation boundary, and the
//! stream is read and appended by the host. The cycle's control logic is a
//! pure step function here; the host loop performs one action at a time —
//! a boundary call, a stream read, or the append — and feeds the outcome
//! back. A malformed or out-of-phase response is an infrastructure error,
//! never a panic, and a call that exhausts its execution budget is reported
//! the same way.

use vstd::prelude::*;
use crate::eventsourcing::DecisionResult;
use crate::stream::ExpectedRevision;

verus! {

/// One request across the isolation boundary: a named operation with its
/// serialized payload. State and events cross as plain serialized values;
/// the guest never holds live references.
pub enum BridgeRequest {
    StreamId { command: String },
    InitialState,
    UnmarshalEvent { event_type: String, payload: Vec<u8> },
    Evolve { state: String, event: String },
    IsTerminal { state: String },
    Decide { state: String, command: String },
    EventType { event: String },
    MarshalEvent { event: String },
}

/// What a boundary call returned, as the transport hands it over.
pub enum BridgeResponse {
    /// A serialized value: a stream id, a state, an event or a type tag.
    Text(String),
    /// Marshalled payload bytes.
    Bytes(Vec<u8>),
    /// The terminal test's verdict.
    Flag(bool),
    /// The decided events, each serialized.
    Events(Vec<String>),
    /// The guest rejected the command for domain reasons.
    Rejected(String),
    /// The call failed: a malformed response, or an exhausted execution
    /// budget.
    Fault,
}

/// What the host feeds into the machine: a call's response, one stream
/// record, the end of the stream, or the append's verdict.
pub enum BridgeEvent {
    Returned(BridgeResponse),
    Record { event_type: String, payload: Vec<u8> },
    EndOfStream,
    AppendAccepted { next_expected_version: u64 },
    AppendConflict,
    TransportFault,
}

/// What the host must do next.
pub enum BridgeAction {
    /// Perform one boundary call and feed its response back.
    Call(BridgeRequest),
    /// Read the next stream record, or report the end of the stream.
    ReadNext,
    /// Append the batch, asserting the expected revision, and feed the
    /// verdict back.
    Append { expected: ExpectedRevision, batch: Vec<(String, Vec<u8>)> },
    /// The dispatch is over; this is its outcome.
    Finish(Result<DecisionResult<String>, BridgeError>),
}

/// How a bridged dispatch fails.
#[derive(Debug)]
pub enum BridgeError {
    /// The replayed state forbids further commands.
    StateIsTerminal,
    /// The guest rejected the command; its serialized rejection.
    Domain(String),
    /// The boundary misbehaved: a malformed or out-of-phase response, an
    /// exhausted budget, or a transport fault.
    Boundary,
    /// The expected revision did not match the stream's tail at append.
    Conflict,
}

/// Where the cycle stands: which call or stream operation is in flight,
/// with everything the remaining steps need.
pub enum BridgePhase {
    /// `stream_id(command)` is in flight.
    ResolvingStream,
    /// `initial_state()` is in flight.
    FetchingInitialState { stream_id: String },
    /// Ready for the next record; `state` is the running serialized
    /// state, `read` how many records have been folded in.
    Reading { stream_id: String, state: String, read: u64 },
    /// `unmarshal_event` is in flight for the record at revision `read`.
    Unmarshalling { stream_id: String, state: String, read: u64 },
    /// `evolve` is in flight; its result becomes the running state.
    Evolving { stream_id: String, read: u64 },
    /// `is_terminal(state)` is in flight after the stream was exhausted.
    CheckingTerminal { stream_id: String, state: String, read: u64 },
    /// `decide(state, command)` is in flight.
    Deciding { stream_id: String, state: String, read: u64 },
    /// `event_type` is in flight for the event at index `batch.len()`.
    Tagging { read: u64, events: Vec<String>, batch: Vec<(String, Vec<u8>)> },
    /// `marshal_event` is in flight for the same event, tagged `tag`.
    Marshalling { read: u64, events: Vec<String>, batch: Vec<(String, Vec<u8>)>, tag: String },
    /// The conditional append is in flight.
    Appending { events: Vec<String> },
    /// The dispatch is over.
    Done,
}

/// The bridged dispatch cycle: the command being dispatched and the phase
/// the cycle stands in.
pub struct BridgeMachine {
    pub command: String,
    pub phase: BridgePhase,
}

/// The expected revision a bridged dispatch asserts after folding `read`
/// records: `NoStream` when none existed, else exactly the last revision
/// read.
pub open spec fn spec_bridge_expected(read: u64) -> ExpectedRevision {
    if read == 0 {
        ExpectedRevision::NoStream
    } else {
        ExpectedRevision::Exact((read - 1) as u64)
    }
}

/// The tail revision a bridged no-op dispatch reports: what the read had
/// shown, zero for a stream that does not exist.
pub open spec fn spec_bridge_tail(read: u64) -> u64 {
    if read == 0 {
        0u64
    } else {
        (read - 1) as u64
    }
}

/// The (phase, event) pairs the protocol allows; every other pair ends
/// the dispatch with a `Boundary` error.
pub open spec fn protocol_pair(phase: BridgePhase, ev: BridgeEvent) -> bool {
    match phase {
        BridgePhase::ResolvingStream => ev matches BridgeEvent::Returned(BridgeResponse::Text(_)),
        BridgePhase::FetchingInitialState { .. } => ev matches BridgeEvent::Returned(
            BridgeResponse::Text(_),
        ),
        BridgePhase::Reading { .. } => ev matches BridgeEvent::Record { .. } || ev
            matches BridgeEvent::EndOfStream,
        BridgePhase::Unmarshalling { .. } => ev matches BridgeEvent::Returned(
            BridgeResponse::Text(_),
        ),
        BridgePhase::Evolving { read, .. } => (ev matches BridgeEvent::Returned(
            BridgeResponse::Text(_),
        )) && read < u64::MAX,
        BridgePhase::CheckingTerminal { .. } => ev matches BridgeEvent::Returned(
            BridgeResponse::Flag(_),
        ),
        BridgePhase::Deciding { .. } => ev matches BridgeEvent::Returned(BridgeResponse::Events(_))
            || ev matches BridgeEvent::Returned(BridgeResponse::Rejected(_)),
        BridgePhase::Tagging { events, batch, .. } => (ev matches BridgeEvent::Returned(
            BridgeResponse::Text(_),
        )) && batch@.len() < events@.len(),
        BridgePhase::Marshalling { events, batch, .. } => (ev matches BridgeEvent::Returned(
            BridgeResponse::Bytes(_),
        )) && batch@.len() + 1 <= events@.len(),
        BridgePhase::Appending { .. } => ev matches BridgeEvent::AppendAccepted { .. } || ev
            matches BridgeEvent::AppendConflict,
        BridgePhase::Done => false,
    }
}

impl BridgeMachine {
    /// Starts a bridged dispatch of a serialized command. The first action
    /// is the `stream_id` call.
    pub fn start(command: String) -> (r: (BridgeMachine, BridgeAction))
        ensures
            r.0.command@ == command@,
            r.0.phase is ResolvingStream,
            r.1 matches BridgeAction::Call(BridgeRequest::StreamId { command: c }) && c@
                == command@,
    {
        let c = command.clone();
        (
            BridgeMachine { command, phase: BridgePhase::ResolvingStream },
            BridgeAction::Call(BridgeRequest::StreamId { command: c }),
        )
    }

    /// One transition of the cycle: consumes the machine and the incoming
    /// event, yields the machine afterwards and the action the host must
    /// perform. The clauses below are the protocol's transition relation;
    /// any (phase, event) pair outside [`protocol_pair`] — a malformed,
    /// out-of-phase or faulted response — ends the dispatch with a
    /// `Boundary` error, never a panic.
    pub fn step(self, ev: BridgeEvent) -> (r: (BridgeMachine, BridgeAction))
        ensures
            r.0.command == self.command,
            !protocol_pair(self.phase, ev) ==> ({
                &&& r.0.phase is Done
                &&& r.1 matches BridgeAction::Finish(Err(BridgeError::Boundary))
            }),
            self.phase is ResolvingStream ==> (ev matches BridgeEvent::Returned(
                BridgeResponse::Text(id),
            ) ==> ({
                &&& r.0.phase matches BridgePhase::FetchingInitialState { stream_id }
                &&& stream_id == id
                &&& r.1 matches BridgeAction::Call(BridgeRequest::InitialState)
            })),
            self.phase matches BridgePhase::FetchingInitialState { stream_id: sid } ==> (ev matches
                BridgeEvent::Returned(BridgeResponse::Text(st)) ==> ({
                &&& r.0.phase matches BridgePhase::Reading { stream_id, state, read }
                &&& stream_id == sid
                &&& state == st
                &&& read == 0
                &&& r.1 is ReadNext
            })),
            self.phase matches BridgePhase::Reading { stream_id: sid, state: st, read: rd } ==> (ev
                matches BridgeEvent::Record { event_type: t, payload: p } ==> ({
                &&& r.0.phase matches BridgePhase::Unmarshalling { stream_id, state, read }
                &&& stream_id == sid
                &&& state == st
                &&& read == rd
                &&& r.1 matches BridgeAction::Call(
                    BridgeRequest::UnmarshalEvent { event_type, payload },
                )
                &&& event_type == t
                &&& payload == p
            })),
            self.phase matches BridgePhase::Reading { stream_id: sid, state: st, read: rd } ==> (ev
                is EndOfStream ==> ({
                &&& r.0.phase matches BridgePhase::CheckingTerminal { stream_id, state, read }
                &&& stream_id == sid
                &&& state@ == st@
                &&& read == rd
                &&& r.1 matches BridgeAction::Call(BridgeRequest::IsTerminal { state: probe })
                &&& probe@ == st@
            })),
            self.phase matches BridgePhase::Unmarshalling { stream_id: sid, state: st, read: rd }
                ==> (ev matches BridgeEvent::Returned(BridgeResponse::Text(e)) ==> ({
                &&& r.0.phase matches BridgePhase::Evolving { stream_id, read }
                &&& stream_id == sid
                &&& read == rd
                &&& r.1 matches BridgeAction::Call(BridgeRequest::Evolve { state, event })
                &&& state == st
                &&& event == e
            })),
            self.phase matches BridgePhase::Evolving { stream_id: sid, read: rd } ==> (ev matches
                BridgeEvent::Returned(BridgeResponse::Text(st)) ==> (rd < u64::MAX ==> ({
                &&& r.0.phase matches BridgePhase::Reading { stream_id, state, read }
                &&& stream_id == sid
                &&& state == st
                &&& read == rd + 1
                &&& r.1 is ReadNext
            }))),
            self.phase matches BridgePhase::CheckingTerminal { stream_id: sid, state: st, read: rd }
                ==> (ev matches BridgeEvent::Returned(BridgeResponse::Flag(b)) ==> (b ==> ({
                &&& r.0.phase is Done
                &&& r.1 matches BridgeAction::Finish(Err(BridgeError::StateIsTerminal))
            }))),
            self.phase matches BridgePhase::CheckingTerminal { stream_id: sid, state: st, read: rd }
                ==> (ev matches BridgeEvent::Returned(BridgeResponse::Flag(b)) ==> (!b ==> ({
                &&& r.0.phase matches BridgePhase::Deciding { stream_id, state, read }
                &&& stream_id == sid
                &&& state@ == st@
                &&& read == rd
                &&& r.1 matches BridgeAction::Call(BridgeRequest::Decide { state: probe, command })
                &&& probe@ == st@
                &&& command@ == self.command@
            }))),
            self.phase matches BridgePhase::Deciding { read: rd, .. } ==> (ev matches
                BridgeEvent::Returned(BridgeResponse::Events(evs)) ==> (evs@.len() == 0 ==> ({
                &&& r.0.phase is Done
                &&& r.1 matches BridgeAction::Finish(Ok(d))
                &&& d.next_expected_version == spec_bridge_tail(rd)
                &&& d.events == evs
            }))),
            self.phase matches BridgePhase::Deciding { read: rd, .. } ==> (ev matches
                BridgeEvent::Returned(BridgeResponse::Events(evs)) ==> (evs@.len() > 0 ==> ({
                &&& r.0.phase matches BridgePhase::Tagging { read, events, batch }
                &&& read == rd
                &&& events == evs
                &&& batch@.len() == 0
                &&& r.1 matches BridgeAction::Call(BridgeRequest::EventType { event })
                &&& event@ == evs[0]@
            }))),
            self.phase matches BridgePhase::Deciding { .. } ==> (ev matches BridgeEvent::Returned(
                BridgeResponse::Rejected(msg),
            ) ==> ({
                &&& r.0.phase is Done
                &&& r.1 matches BridgeAction::Finish(Err(BridgeError::Domain(m)))
                &&& m == msg
            })),
            self.phase matches BridgePhase::Tagging { read: rd, events: evs, batch: b } ==> (ev
                matches BridgeEvent::Returned(BridgeResponse::Text(tag)) ==> (b@.len() < evs@.len()
                ==> ({
                &&& r.0.phase matches BridgePhase::Marshalling { read, events, batch, tag: tg }
                &&& read == rd
                &&& events == evs
                &&& batch == b
                &&& tg == tag
                &&& r.1 matches BridgeAction::Call(BridgeRequest::MarshalEvent { event })
                &&& event@ == evs[b@.len() as int]@
            }))),
            self.phase matches BridgePhase::Marshalling { read: rd, events: evs, batch: b, tag: tg }
                ==> (ev matches BridgeEvent::Returned(BridgeResponse::Bytes(data)) ==> (b@.len() + 1
                == evs@.len() ==> ({
                &&& r.0.phase matches BridgePhase::Appending { events }
                &&& events == evs
                &&& r.1 matches BridgeAction::Append { expected, batch }
                &&& expected == spec_bridge_expected(rd)
                &&& batch@ == b@.push((tg, data))
            }))),
            self.phase matches BridgePhase::Marshalling { read: rd, events: evs, batch: b, tag: tg }
                ==> (ev matches BridgeEvent::Returned(BridgeResponse::Bytes(data)) ==> (b@.len() + 1
                < evs@.len() ==> ({
                &&& r.0.phase matches BridgePhase::Tagging { read, events, batch }
                &&& read == rd
                &&& events == evs
                &&& batch@ == b@.push((tg, data))
                &&& r.1 matches BridgeAction::Call(BridgeRequest::EventType { event })
                &&& event@ == evs[b@.len() as int + 1]@
            }))),
            self.phase matches BridgePhase::Appending { events: evs } ==> (ev matches
                BridgeEvent::AppendAccepted { next_expected_version: nv } ==> ({
                &&& r.0.phase is Done
                &&& r.1 matches BridgeAction::Finish(Ok(d))
                &&& d.next_expected_version == nv
                &&& d.events == evs
            })),
            self.phase matches BridgePhase::Appending { .. } ==> (ev is AppendConflict ==> ({
                &&& r.0.phase is Done
                &&& r.1 matches BridgeAction::Finish(Err(BridgeError::Conflict))
            })),
    {
        let BridgeMachine { command, phase } = self;
        match (phase, ev) {
            (BridgePhase::ResolvingStream, BridgeEvent::Returned(BridgeResponse::Text(id))) => (
                BridgeMachine {
                    command,
                    phase: BridgePhase::FetchingInitialState { stream_id: id },
                },
                BridgeAction::Call(BridgeRequest::InitialState),
            ),
            (
                BridgePhase::FetchingInitialState { stream_id },
                BridgeEvent::Returned(BridgeResponse::Text(st)),
            ) => (
                BridgeMachine {
                    command,
                    phase: BridgePhase::Reading { stream_id, state: st, read: 0 },
                },
                BridgeAction::ReadNext,
            ),
            (
                BridgePhase::Reading { stream_id, state, read },
                BridgeEvent::Record { event_type, payload },
            ) => (
                BridgeMachine {
                    command,
                    phase: BridgePhase::Unmarshalling { stream_id, state, read },
                },
                BridgeAction::Call(BridgeRequest::UnmarshalEvent { event_type, payload }),
            ),
            (BridgePhase::Reading { stream_id, state, read }, BridgeEvent::EndOfStream) => {
                let probe = state.clone();
                (
                    BridgeMachine {
                        command,
                        phase: BridgePhase::CheckingTerminal { stream_id, state, read },
                    },
                    BridgeAction::Call(BridgeRequest::IsTerminal { state: probe }),
                )
            },
            (
                BridgePhase::Unmarshalling { stream_id, state, read },
                BridgeEvent::Returned(BridgeResponse::Text(event)),
            ) => (
                BridgeMachine { command, phase: BridgePhase::Evolving { stream_id, read } },
                BridgeAction::Call(BridgeRequest::Evolve { state, event }),
            ),
            (
                BridgePhase::Evolving { stream_id, read },
                BridgeEvent::Returned(BridgeResponse::Text(st)),
            ) => {
                if read < u64::MAX {
                    (
                        BridgeMachine {
                            command,
                            phase: BridgePhase::Reading { stream_id, state: st, read: read + 1 },
                        },
                        BridgeAction::ReadNext,
                    )
                } else {
                    (
                        BridgeMachine { command, phase: BridgePhase::Done },
                        BridgeAction::Finish(Err(BridgeError::Boundary)),
                    )
                }
            },
            (
                BridgePhase::CheckingTerminal { stream_id, state, read },
                BridgeEvent::Returned(BridgeResponse::Flag(b)),
            ) => {
                if b {
                    (
                        BridgeMachine { command, phase: BridgePhase::Done },
                        BridgeAction::Finish(Err(BridgeError::StateIsTerminal)),
                    )
                } else {
                    let probe = state.clone();
                    let cmd = command.clone();
                    (
                        BridgeMachine {
                            command,
                            phase: BridgePhase::Deciding { stream_id, state, read },
                        },
                        BridgeAction::Call(BridgeRequest::Decide { state: probe, command: cmd }),
                    )
                }
            },
            (
                BridgePhase::Deciding { stream_id, state, read },
                BridgeEvent::Returned(BridgeResponse::Events(events)),
            ) => {
                if events.len() == 0 {
                    let tail: u64 = if read == 0 {
                        0
                    } else {
                        read - 1
                    };
                    (
                        BridgeMachine { command, phase: BridgePhase::Done },
                        BridgeAction::Finish(
                            Ok(DecisionResult { next_expected_version: tail, events }),
                        ),
                    )
                } else {
                    let first = events[0].clone();
                    (
                        BridgeMachine {
                            command,
                            phase: BridgePhase::Tagging { read, events, batch: Vec::new() },
                        },
                        BridgeAction::Call(BridgeRequest::EventType { event: first }),
                    )
                }
            },
            (
                BridgePhase::Deciding { stream_id, state, read },
                BridgeEvent::Returned(BridgeResponse::Rejected(msg)),
            ) => (
                BridgeMachine { command, phase: BridgePhase::Done },
                BridgeAction::Finish(Err(BridgeError::Domain(msg))),
            ),
            (
                BridgePhase::Tagging { read, events, batch },
                BridgeEvent::Returned(BridgeResponse::Text(tag)),
            ) => {
                if batch.len() < events.len() {
                    let next = events[batch.len()].clone();
                    (
                        BridgeMachine {
                            command,
                            phase: BridgePhase::Marshalling { read, events, batch, tag },
                        },
                        BridgeAction::Call(BridgeRequest::MarshalEvent { event: next }),
                    )
                } else {
                    (
                        BridgeMachine { command, phase: BridgePhase::Done },
                        BridgeAction::Finish(Err(BridgeError::Boundary)),
                    )
                }
            },
            (
                BridgePhase::Marshalling { read, events, batch, tag },
                BridgeEvent::Returned(BridgeResponse::Bytes(data)),
            ) => {
                let blen = batch.len();
                let elen = events.len();
                if elen > 0 && blen == elen - 1 {
                    let mut full = batch;
                    full.push((tag, data));
                    let expected = if read == 0 {
                        ExpectedRevision::NoStream
                    } else {
                        ExpectedRevision::Exact(read - 1)
                    };
                    (
                        BridgeMachine { command, phase: BridgePhase::Appending { events } },
                        BridgeAction::Append { expected, batch: full },
                    )
                } else if blen < elen {
                    let mut grown = batch;
                    grown.push((tag, data));
                    let next = events[grown.len()].clone();
                    (
                        BridgeMachine {
                            command,
                            phase: BridgePhase::Tagging { read, events, batch: grown },
                        },
                        BridgeAction::Call(BridgeRequest::EventType { event: next }),
                    )
                } else {
                    (
                        BridgeMachine { command, phase: BridgePhase::Done },
                        BridgeAction::Finish(Err(BridgeError::Boundary)),
                    )
                }
            },
            (
                BridgePhase::Appending { events },
                BridgeEvent::AppendAccepted { next_expected_version },
            ) => (
                BridgeMachine { command, phase: BridgePhase::Done },
                BridgeAction::Finish(Ok(DecisionResult { next_expected_version, events })),
            ),
            (BridgePhase::Appending { events }, BridgeEvent::AppendConflict) => (
                BridgeMachine { command, phase: BridgePhase::Done },
                BridgeAction::Finish(Err(BridgeError::Conflict)),
            ),
            (_, _) => (
                BridgeMachine { command, phase: BridgePhase::Done },
                BridgeAction::Finish(Err(BridgeError::Boundary)),
            ),
        }
    }
}

/// The bridged dispatch asserts `NoStream` exactly when its replay saw no
/// record: the optimistic-concurrency intent survives the serialization
/// boundary.
pub proof fn lemma_bridge_expected_no_stream(read: u64)
    ensures
        (spec_bridge_expected(read) is NoStream) <==> read == 0,
{
}

} // verus!
