//! The model of the append-only log: per-record metadata, stream records,
//! the expected-revision guard, and an event stream with atomic,
//! conditional append — the engine's sole concurrency-control primitive.

use vstd::prelude::*;
use crate::eventsourcing::StoreError;

verus! {

/// String-to-string metadata attached to a record, with last-insert-wins
/// lookup; modelled as a map from character sequences to character
/// sequences.
#[derive(Debug)]
pub struct Metadata {
    entries: Vec<(String, String)>,
}

/// The map an entry sequence denotes: later entries shadow earlier ones.
pub open spec fn map_of_entries(s: Seq<(String, String)>) -> Map<Seq<char>, Seq<char>>
    decreases s.len(),
{
    if s.len() == 0 {
        Map::empty()
    } else {
        map_of_entries(s.drop_last()).insert(s.last().0@, s.last().1@)
    }
}

impl View for Metadata {
    type V = Map<Seq<char>, Seq<char>>;

    closed spec fn view(&self) -> Map<Seq<char>, Seq<char>> {
        map_of_entries(self.entries@)
    }
}

impl Metadata {
    /// An empty metadata map.
    pub fn new() -> (r: Metadata)
        ensures
            r@ == Map::<Seq<char>, Seq<char>>::empty(),
    {
        Metadata { entries: Vec::new() }
    }

    /// Binds `key` to `value`, shadowing any earlier binding.
    pub fn insert(&mut self, key: String, value: String)
        ensures
            final(self)@ == old(self)@.insert(key@, value@),
    {
        let ghost pre = self.entries@;
        let ghost k = key@;
        let ghost v = value@;
        self.entries.push((key, value));
        proof {
            assert(self.entries@.drop_last() =~= pre);
            assert(self.entries@.last().0@ == k);
            assert(self.entries@.last().1@ == v);
        }
    }

    /// Looks `key` up: the latest binding, if any.
    pub fn get(&self, key: &str) -> (r: Option<&String>)
        ensures
            r matches Some(v) ==> self@.contains_key(key@) && self@[key@] == v@,
            r is None ==> !self@.contains_key(key@),
    {
        let mut i: usize = self.entries.len();
        proof {
            assert(self.entries@.take(i as int) =~= self.entries@);
        }
        while i > 0
            invariant
                i <= self.entries.len(),
                map_of_entries(self.entries@).contains_key(key@) == map_of_entries(
                    self.entries@.take(i as int),
                ).contains_key(key@),
                map_of_entries(self.entries@).contains_key(key@) ==> map_of_entries(
                    self.entries@,
                )[key@] == map_of_entries(self.entries@.take(i as int))[key@],
            decreases i,
        {
            let ghost pre = self.entries@.take(i as int);
            proof {
                assert(pre.drop_last() =~= self.entries@.take(i - 1));
                assert(pre.last() == self.entries@[i - 1]);
            }
            let found = {
                let pair = &self.entries[i - 1];
                crate::codec::str_eq(pair.0.as_str(), key)
            };
            if found {
                return Some(&self.entries[i - 1].1);
            }
            i -= 1;
        }
        proof {
            assert(self.entries@.take(0) =~= Seq::<(String, String)>::empty());
        }
        None
    }

    /// A copy denoting the same map.
    pub fn duplicate(&self) -> (r: Metadata)
        ensures
            r@ == self@,
    {
        let mut out: Vec<(String, String)> = Vec::new();
        let mut i: usize = 0;
        while i < self.entries.len()
            invariant
                i <= self.entries.len(),
                out@.len() == i,
                forall|j: int| 0 <= j < i ==> out@[j] == self.entries@[j],
            decreases self.entries.len() - i,
        {
            let k = self.entries[i].0.clone();
            let v = self.entries[i].1.clone();
            out.push((k, v));
            i += 1;
        }
        proof {
            assert(out@ =~= self.entries@);
        }
        Metadata { entries: out }
    }
}

/// One record of a stream: the wire type tag, the payload bytes and the
/// metadata attached at append time. Its revision is its position.
#[derive(Debug)]
pub struct Record {
    pub event_type: String,
    pub payload: Vec<u8>,
    pub metadata: Metadata,
}

/// The mathematical model of a record.
pub struct RecordView {
    pub event_type: Seq<char>,
    pub payload: Seq<u8>,
    pub metadata: Map<Seq<char>, Seq<char>>,
}

impl View for Record {
    type V = RecordView;

    open spec fn view(&self) -> RecordView {
        RecordView { event_type: self.event_type@, payload: self.payload@, metadata: self.metadata@ }
    }
}

/// The optimistic-concurrency intent asserted at append time.
#[derive(Clone, Copy, PartialEq, Eq, Structural, Debug)]
pub enum ExpectedRevision {
    /// The stream must not exist yet.
    NoStream,
    /// The stream's last revision must be exactly the given one.
    Exact(u64),
    /// Skip the check.
    Any,
}

/// Whether an expected revision accepts a stream currently holding `len`
/// records. Revisions are dense and zero-based, so the tail revision of a
/// non-empty stream of `len` records is `len - 1`.
pub open spec fn revision_matches(e: ExpectedRevision, len: nat) -> bool {
    match e {
        ExpectedRevision::NoStream => len == 0,
        ExpectedRevision::Exact(n) => len == n + 1,
        ExpectedRevision::Any => true,
    }
}

/// One entity's append-only event stream. Reading never mutates it;
/// appending is atomic and conditional on the expected revision.
#[derive(Debug)]
pub struct EventLog {
    records: Vec<Record>,
}

impl View for EventLog {
    type V = Seq<RecordView>;

    closed spec fn view(&self) -> Seq<RecordView> {
        self.records@.map_values(|r: Record| r@)
    }
}

impl EventLog {
    /// A stream that has never been written.
    pub fn new() -> (r: EventLog)
        ensures
            r@ == Seq::<RecordView>::empty(),
    {
        let r = EventLog { records: Vec::new() };
        proof {
            assert(r@ =~= Seq::<RecordView>::empty());
        }
        r
    }

    /// How many records the stream holds.
    pub fn len(&self) -> (n: usize)
        ensures
            n == self@.len(),
    {
        self.records.len()
    }

    /// The record at a revision.
    pub fn record_at(&self, i: usize) -> (r: &Record)
        requires
            i < self@.len(),
        ensures
            r@ == self@[i as int],
    {
        &self.records[i]
    }

    /// Appends a batch atomically, guarded by the expected revision: on a
    /// match every record is appended in order and the new tail revision is
    /// returned; on a mismatch the stream is left exactly as it was.
    pub fn append(&mut self, expected: ExpectedRevision, batch: Vec<Record>) -> (r: Result<
        u64,
        StoreError,
    >)
        requires
            batch@.len() > 0,
        ensures
            r matches Ok(n) ==> revision_matches(expected, old(self)@.len()) && final(self)@ == old(
                self,
            )@ + batch@.map_values(|x: Record| x@) && n + 1 == final(self)@.len(),
            r matches Err(e) ==> !revision_matches(expected, old(self)@.len()) && final(self)@
                == old(self)@ && e == StoreError::WrongExpectedVersion,
    {
        let len = self.records.len();
        let accepted = match expected {
            ExpectedRevision::NoStream => len == 0,
            ExpectedRevision::Exact(n) => len > 0 && (len - 1) as u64 == n,
            ExpectedRevision::Any => true,
        };
        if !accepted {
            return Err(StoreError::WrongExpectedVersion);
        }
        let ghost pre = self.records@;
        let ghost batch0 = batch@;
        let mut b = batch;
        self.records.append(&mut b);
        proof {
            assert(self.records@ == pre + batch0);
            assert(self@ =~= old(self)@ + batch0.map_values(|x: Record| x@));
        }
        Ok((self.records.len() - 1) as u64)
    }
}

/// Optimistic concurrency: of two dispatches racing against the same
/// never-before-written stream, both asserting `NoStream`, the one whose
/// append lands first is accepted, and the other's append — arriving at the
/// stream the first one filled — must be refused.
pub proof fn lemma_optimistic_concurrency(
    log0: Seq<RecordView>,
    batch1: Seq<RecordView>,
    batch2: Seq<RecordView>,
)
    requires
        log0.len() == 0,
        batch1.len() > 0,
    ensures
        revision_matches(ExpectedRevision::NoStream, log0.len()),
        !revision_matches(ExpectedRevision::NoStream, (log0 + batch1).len()),
{
}

} // verus!
