//! The byte-level codec of the monitoring domain: each event is written as
//! a JSON object whose single key is the event's type tag, with `"` and `\`
//! escaped inside text fields. Marshalling and unmarshalling round-trip,
//! which [`lemma_marshal_round_trip`] proves.

use vstd::prelude::*;
use vstd::string::*;
use vstd::utf8::*;
use crate::eventsourcing::MarshalError;
use crate::monitoring::{Command, CommandView, Event, EventView};

verus! {

/// A defect found by the codec itself.
#[derive(Clone, Copy, PartialEq, Eq, Structural, Debug)]
pub enum CodecError {
    /// The payload is not valid UTF-8.
    InvalidUtf8,
    /// The payload is UTF-8 but not a well-formed encoding of any event.
    MalformedPayload,
    /// A text field holds a control character, which this codec does not
    /// encode.
    ControlCharacter,
}

/// A control character, which the codec refuses inside text fields.
pub open spec fn is_ctl(c: char) -> bool {
    (c as u32) < 0x20
}

/// Text the codec encodes: free of control characters.
pub open spec fn valid_text(s: Seq<char>) -> bool {
    forall|i: int| 0 <= i < s.len() ==> !is_ctl(s[i])
}

/// An event all of whose text fields the codec encodes.
pub open spec fn valid_event(e: EventView) -> bool {
    match e {
        EventView::MonitoringStarted { id, url } => valid_text(id) && valid_text(url),
        EventView::MonitoringPaused { id } => valid_text(id),
        EventView::MonitoringResumed { id } => valid_text(id),
    }
}

/// How one character is written inside a JSON string.
pub open spec fn esc_char(c: char) -> Seq<char> {
    if c == '"' {
        seq!['\\', '"']
    } else if c == '\\' {
        seq!['\\', '\\']
    } else {
        seq![c]
    }
}

/// How a text field is written inside a JSON string.
pub open spec fn esc(s: Seq<char>) -> Seq<char>
    decreases s.len(),
{
    if s.len() == 0 {
        Seq::empty()
    } else {
        esc_char(s[0]) + esc(s.drop_first())
    }
}

/// The stable type tag of an event.
pub open spec fn spec_event_type(e: EventView) -> Seq<char> {
    match e {
        EventView::MonitoringStarted { .. } => "MonitoringStarted"@,
        EventView::MonitoringPaused { .. } => "MonitoringPaused"@,
        EventView::MonitoringResumed { .. } => "MonitoringResumed"@,
    }
}

/// The type tags this codec decodes.
pub open spec fn known_tag(tag: Seq<char>) -> bool {
    tag == "MonitoringStarted"@ || tag == "MonitoringPaused"@ || tag == "MonitoringResumed"@
}

/// The JSON text an event is marshalled to.
pub open spec fn json_text(e: EventView) -> Seq<char> {
    match e {
        EventView::MonitoringStarted { id, url } => "{\"MonitoringStarted\":{\"id\":\""@ + esc(id)
            + "\",\"url\":\""@ + esc(url) + "\"}}"@,
        EventView::MonitoringPaused { id } => "{\"MonitoringPaused\":{\"id\":\""@ + esc(id)
            + "\"}}"@,
        EventView::MonitoringResumed { id } => "{\"MonitoringResumed\":{\"id\":\""@ + esc(id)
            + "\"}}"@,
    }
}

/// What marshalling returns: the UTF-8 bytes of the JSON text, or a
/// rejection of a control character.
pub open spec fn spec_marshal(e: EventView) -> Result<Seq<u8>, MarshalError<CodecError>> {
    if valid_event(e) {
        Ok(encode_utf8(json_text(e)))
    } else {
        Err(MarshalError::MarshalEvent(CodecError::ControlCharacter))
    }
}

/// The stream a command addresses: the monitoring category joined with the
/// entity's id.
pub open spec fn spec_stream_id(c: CommandView) -> Seq<char> {
    match c {
        CommandView::CreateMonitoring { id, .. } => "monitoring:"@ + id,
        CommandView::PauseMonitoring { id } => "monitoring:"@ + id,
        CommandView::ResumeMonitoring { id } => "monitoring:"@ + id,
    }
}

/// One step of JSON string scanning: the content up to the first unescaped
/// closing quote, unescaped, and what follows the quote; `None` when the
/// quote is missing, an escape is unknown, or a control character appears.
pub open spec fn scan_string(s: Seq<char>) -> Option<(Seq<char>, Seq<char>)>
    decreases s.len(),
{
    if s.len() == 0 {
        None
    } else if s[0] == '"' {
        Some((Seq::empty(), s.drop_first()))
    } else if s[0] == '\\' {
        if s.len() >= 2 && (s[1] == '"' || s[1] == '\\') {
            match scan_string(s.subrange(2, s.len() as int)) {
                Some(p) => Some((seq![s[1]] + p.0, p.1)),
                None => None,
            }
        } else {
            None
        }
    } else if is_ctl(s[0]) {
        None
    } else {
        match scan_string(s.drop_first()) {
            Some(p) => Some((seq![s[0]] + p.0, p.1)),
            None => None,
        }
    }
}

/// Prepends already-unescaped content to a scan result.
pub open spec fn prepend_scan(prefix: Seq<char>, r: Option<(Seq<char>, Seq<char>)>) -> Option<
    (Seq<char>, Seq<char>),
> {
    match r {
        Some(p) => Some((prefix + p.0, p.1)),
        None => None,
    }
}

/// Demands the literal `p` at the front of `text`, then scans one JSON
/// string.
pub open spec fn parse_after(text: Seq<char>, p: Seq<char>) -> Option<(Seq<char>, Seq<char>)> {
    if text.len() >= p.len() && text.take(p.len() as int) == p {
        scan_string(text.skip(p.len() as int))
    } else {
        None
    }
}

/// The decoder's grammar: exactly the canonical JSON text of an event whose
/// type tag is `tag`.
pub open spec fn parse_payload(tag: Seq<char>, text: Seq<char>) -> Option<EventView> {
    if tag == "MonitoringStarted"@ {
        match parse_after(text, "{\"MonitoringStarted\":{\"id\":\""@) {
            Some(p1) => match parse_after(p1.1, ",\"url\":\""@) {
                Some(p2) => if p2.1 == "}}"@ {
                    Some(EventView::MonitoringStarted { id: p1.0, url: p2.0 })
                } else {
                    None
                },
                None => None,
            },
            None => None,
        }
    } else if tag == "MonitoringPaused"@ {
        match parse_after(text, "{\"MonitoringPaused\":{\"id\":\""@) {
            Some(p1) => if p1.1 == "}}"@ {
                Some(EventView::MonitoringPaused { id: p1.0 })
            } else {
                None
            },
            None => None,
        }
    } else if tag == "MonitoringResumed"@ {
        match parse_after(text, "{\"MonitoringResumed\":{\"id\":\""@) {
            Some(p1) => if p1.1 == "}}"@ {
                Some(EventView::MonitoringResumed { id: p1.0 })
            } else {
                None
            },
            None => None,
        }
    } else {
        None
    }
}

/// What unmarshalling returns: the unique event whose canonical encoding
/// under `tag` is `data`, or the error that says why there is none.
pub open spec fn spec_unmarshal(tag: Seq<char>, data: Seq<u8>) -> Result<
    EventView,
    MarshalError<CodecError>,
> {
    if !known_tag(tag) {
        Err(MarshalError::UnknownEventType)
    } else if !valid_utf8(data) {
        Err(MarshalError::UnmarshalEvent(CodecError::InvalidUtf8))
    } else {
        match parse_payload(tag, decode_utf8(data)) {
            Some(e) => Ok(e),
            None => Err(MarshalError::UnmarshalEvent(CodecError::MalformedPayload)),
        }
    }
}

/// Escaping distributes over concatenation.
pub proof fn lemma_esc_add(a: Seq<char>, b: Seq<char>)
    ensures
        esc(a + b) == esc(a) + esc(b),
    decreases a.len(),
{
    if a.len() == 0 {
        assert(a + b =~= b);
        assert(esc(a) + esc(b) =~= esc(b));
    } else {
        assert((a + b).drop_first() =~= a.drop_first() + b);
        lemma_esc_add(a.drop_first(), b);
        assert(esc_char((a + b)[0]) + (esc(a.drop_first()) + esc(b)) =~= (esc_char(a[0]) + esc(
            a.drop_first(),
        )) + esc(b));
    }
}

/// Relies on std's `String::push`: appends one character.
#[verifier::external_body]
fn push_char(s: &mut String, c: char)
    ensures
        final(s)@ == old(s)@.push(c),
{
    s.push(c);
}

/// Whether every character of `s` is outside the control range.
fn text_is_valid(s: &str) -> (b: bool)
    ensures
        b == valid_text(s@),
{
    let n = s.unicode_len();
    let mut i: usize = 0;
    while i < n
        invariant
            n == s@.len(),
            0 <= i <= n,
            forall|j: int| 0 <= j < i ==> !is_ctl(s@[j]),
        decreases n - i,
    {
        let c = s.get_char(i);
        if (c as u32) < 0x20 {
            assert(is_ctl(s@[i as int]));
            return false;
        }
        i += 1;
    }
    true
}

/// Appends the escaped form of `s` to `out`.
fn append_escaped(out: &mut String, s: &str)
    ensures
        final(out)@ == old(out)@ + esc(s@),
{
    let n = s.unicode_len();
    let mut i: usize = 0;
    while i < n
        invariant
            n == s@.len(),
            0 <= i <= n,
            out@ == old(out)@ + esc(s@.take(i as int)),
        decreases n - i,
    {
        let c = s.get_char(i);
        let ghost pre = out@;
        if c == '"' {
            push_char(out, '\\');
            push_char(out, '"');
        } else if c == '\\' {
            push_char(out, '\\');
            push_char(out, '\\');
        } else {
            push_char(out, c);
        }
        proof {
            assert(out@ =~= pre + esc_char(s@[i as int]));
            assert(s@.take(i + 1) =~= s@.take(i as int) + seq![s@[i as int]]);
            lemma_esc_add(s@.take(i as int), seq![s@[i as int]]);
            assert(seq![s@[i as int]].drop_first() =~= Seq::<char>::empty());
            assert(esc(Seq::<char>::empty()) == Seq::<char>::empty());
            assert(esc(seq![s@[i as int]]) =~= esc_char(s@[i as int]));
            assert(out@ =~= old(out)@ + esc(s@.take(i + 1)));
        }
        i += 1;
    }
    proof {
        assert(s@.take(n as int) =~= s@);
    }
}

/// Composing two prepends is prepending the concatenation.
proof fn lemma_prepend_prepend(a: Seq<char>, b: Seq<char>, r: Option<(Seq<char>, Seq<char>)>)
    ensures
        prepend_scan(a, prepend_scan(b, r)) == prepend_scan(a + b, r),
{
    match r {
        Some(p) => {
            assert(a + (b + p.0) =~= (a + b) + p.0);
        },
        None => {},
    }
}

/// Relies on std's `String::from_utf8`: it succeeds exactly on valid UTF-8
/// and returns the characters that the bytes encode.
#[verifier::external_body]
fn bytes_to_string(data: &Vec<u8>) -> (r: Option<String>)
    ensures
        r matches Some(s) ==> valid_utf8(data@) && s@ == decode_utf8(data@),
        r is None ==> !valid_utf8(data@),
{
    match String::from_utf8(data.clone()) {
        Ok(s) => Some(s),
        Err(_) => None,
    }
}

/// Whether two string slices hold the same characters.
pub(crate) fn str_eq(a: &str, b: &str) -> (r: bool)
    ensures
        r == (a@ == b@),
{
    let x = String::from_str(a);
    let y = String::from_str(b);
    x == y
}

/// Demands the literal `lit` at position `pos` of `s`; returns the position
/// after it.
pub(crate) fn expect_lit(s: &str, pos: usize, lit: &str) -> (r: Option<usize>)
    requires
        pos <= s@.len(),
    ensures
        r matches Some(j) ==> pos + lit@.len() == j && j <= s@.len() && s@.subrange(
            pos as int,
            j as int,
        ) == lit@,
        r is None ==> !(pos + lit@.len() <= s@.len() && s@.subrange(
            pos as int,
            pos as int + lit@.len() as int,
        ) == lit@),
{
    let n = s.unicode_len();
    let m = lit.unicode_len();
    if m > n - pos {
        return None;
    }
    let mut k: usize = 0;
    while k < m
        invariant
            n == s@.len(),
            m == lit@.len(),
            pos + m <= n,
            0 <= k <= m,
            forall|j: int| 0 <= j < k ==> s@[pos + j] == lit@[j],
        decreases m - k,
    {
        let a = s.get_char(pos + k);
        let b = lit.get_char(k);
        if a != b {
            proof {
                assert(s@.subrange(pos as int, pos as int + m as int)[k as int] == s@[pos + k]);
            }
            return None;
        }
        k += 1;
    }
    proof {
        assert(s@.subrange(pos as int, pos as int + m as int) =~= lit@);
    }
    Some(pos + m)
}

/// Scans one JSON string starting at `pos`, exactly [`scan_string`] on the
/// remaining characters.
fn scan_json_string(s: &str, pos: usize) -> (r: Option<(String, usize)>)
    requires
        pos <= s@.len(),
    ensures
        r matches Some(p) ==> pos < p.1 <= s@.len() && scan_string(s@.skip(pos as int)) == Some(
            (p.0@, s@.skip(p.1 as int)),
        ),
        r is None ==> scan_string(s@.skip(pos as int)) is None,
{
    let n = s.unicode_len();
    let mut out = String::new();
    let mut i: usize = pos;
    proof {
        match scan_string(s@.skip(pos as int)) {
            Some(p) => {
                assert(Seq::<char>::empty() + p.0 =~= p.0);
            },
            None => {},
        }
    }
    while i < n
        invariant
            n == s@.len(),
            pos <= i <= n,
            scan_string(s@.skip(pos as int)) == prepend_scan(out@, scan_string(s@.skip(i as int))),
        decreases n - i,
    {
        let c = s.get_char(i);
        proof {
            assert(s@.skip(i as int).len() == n - i);
            assert(s@.skip(i as int)[0] == s@[i as int]);
        }
        if c == '"' {
            proof {
                assert(s@.skip(i as int).drop_first() =~= s@.skip(i + 1));
                assert(out@ + Seq::<char>::empty() =~= out@);
            }
            return Some((out, i + 1));
        } else if c == '\\' {
            if i + 1 >= n {
                proof {
                    assert(s@.skip(i as int).len() == 1);
                }
                return None;
            }
            let d = s.get_char(i + 1);
            proof {
                assert(s@.skip(i as int)[1] == s@[i + 1]);
            }
            if d == '"' || d == '\\' {
                let ghost pre = out@;
                push_char(&mut out, d);
                proof {
                    assert(s@.skip(i as int).subrange(2, s@.skip(i as int).len() as int) =~= s@.skip(
                        i + 2,
                    ));
                    assert(scan_string(s@.skip(i as int)) == prepend_scan(
                        seq![s@[i + 1]],
                        scan_string(s@.skip(i + 2)),
                    ));
                    lemma_prepend_prepend(pre, seq![s@[i + 1]], scan_string(s@.skip(i + 2)));
                    assert(out@ =~= pre + seq![s@[i + 1]]);
                }
                i += 2;
            } else {
                return None;
            }
        } else if (c as u32) < 0x20 {
            proof {
                assert(is_ctl(s@[i as int]));
            }
            return None;
        } else {
            let ghost pre = out@;
            push_char(&mut out, c);
            proof {
                assert(s@.skip(i as int).drop_first() =~= s@.skip(i + 1));
                assert(scan_string(s@.skip(i as int)) == prepend_scan(
                    seq![s@[i as int]],
                    scan_string(s@.skip(i + 1)),
                ));
                lemma_prepend_prepend(pre, seq![s@[i as int]], scan_string(s@.skip(i + 1)));
                assert(out@ =~= pre + seq![s@[i as int]]);
            }
            i += 1;
        }
    }
    proof {
        assert(s@.skip(i as int).len() == 0);
    }
    None
}

/// The stable type tag of an event, used as the wire event-type and as the
/// dispatch key for decoding.
pub fn event_type(event: &Event) -> (r: &str)
    ensures
        r@ == spec_event_type(event.deep_view()),
{
    match event {
        Event::MonitoringStarted { .. } => "MonitoringStarted",
        Event::MonitoringPaused { .. } => "MonitoringPaused",
        Event::MonitoringResumed { .. } => "MonitoringResumed",
    }
}

/// The stream id a command addresses; a pure projection that never fails.
pub fn get_stream_id(command: &Command) -> (r: String)
    ensures
        r@ == spec_stream_id(command.deep_view()),
{
    let mut out = String::from_str("monitoring:");
    match command {
        Command::CreateMonitoring(c) => out.append(c.id.as_str()),
        Command::PauseMonitoring(c) => out.append(c.id.as_str()),
        Command::ResumeMonitoring(c) => out.append(c.id.as_str()),
    }
    out
}

/// Marshals an event to its payload bytes, exactly [`spec_marshal`].
pub fn marshal_event(event: &Event) -> (r: Result<Vec<u8>, MarshalError<CodecError>>)
    ensures
        r matches Ok(d) ==> spec_marshal(event.deep_view()) == Ok::<
            Seq<u8>,
            MarshalError<CodecError>,
        >(d@),
        r matches Err(m) ==> spec_marshal(event.deep_view()) == Err::<
            Seq<u8>,
            MarshalError<CodecError>,
        >(m),
{
    match event {
        Event::MonitoringStarted { id, url } => {
            if !text_is_valid(id.as_str()) || !text_is_valid(url.as_str()) {
                return Err(MarshalError::MarshalEvent(CodecError::ControlCharacter));
            }
            let mut out = String::from_str("{\"MonitoringStarted\":{\"id\":\"");
            append_escaped(&mut out, id.as_str());
            out.append("\",\"url\":\"");
            append_escaped(&mut out, url.as_str());
            out.append("\"}}");
            proof {
                assert(out@ =~= json_text(event.deep_view()));
            }
            Ok(out.as_str().as_bytes_vec())
        },
        Event::MonitoringPaused { id } => {
            if !text_is_valid(id.as_str()) {
                return Err(MarshalError::MarshalEvent(CodecError::ControlCharacter));
            }
            let mut out = String::from_str("{\"MonitoringPaused\":{\"id\":\"");
            append_escaped(&mut out, id.as_str());
            out.append("\"}}");
            proof {
                assert(out@ =~= json_text(event.deep_view()));
            }
            Ok(out.as_str().as_bytes_vec())
        },
        Event::MonitoringResumed { id } => {
            if !text_is_valid(id.as_str()) {
                return Err(MarshalError::MarshalEvent(CodecError::ControlCharacter));
            }
            let mut out = String::from_str("{\"MonitoringResumed\":{\"id\":\"");
            append_escaped(&mut out, id.as_str());
            out.append("\"}}");
            proof {
                assert(out@ =~= json_text(event.deep_view()));
            }
            Ok(out.as_str().as_bytes_vec())
        },
    }
}

/// Demands `lit` at `pos`, then scans one JSON string; together exactly
/// [`parse_after`] on the characters from `pos`.
fn parse_prefixed_string(s: &str, pos: usize, lit: &str) -> (r: Option<(String, usize)>)
    requires
        pos <= s@.len(),
    ensures
        r matches Some(p) ==> pos < p.1 <= s@.len() && parse_after(s@.skip(pos as int), lit@)
            == Some((p.0@, s@.skip(p.1 as int))),
        r is None ==> parse_after(s@.skip(pos as int), lit@) is None,
{
    let ghost tail = s@.skip(pos as int);
    match expect_lit(s, pos, lit) {
        Some(j) => {
            proof {
                assert(tail.take(lit@.len() as int) =~= s@.subrange(pos as int, j as int));
                assert(tail.skip(lit@.len() as int) =~= s@.skip(j as int));
            }
            scan_json_string(s, j)
        },
        None => {
            proof {
                if pos + lit@.len() <= s@.len() {
                    assert(tail.take(lit@.len() as int) =~= s@.subrange(
                        pos as int,
                        pos as int + lit@.len() as int,
                    ));
                }
            }
            None
        },
    }
}

/// Whether the characters from `pos` are exactly the closing braces that
/// end every payload.
fn at_tail(s: &str, pos: usize) -> (r: bool)
    requires
        pos <= s@.len(),
    ensures
        r == (s@.skip(pos as int) == "}}"@),
{
    proof {
        reveal_strlit("}}");
        assert(s@.skip(pos as int) =~= s@.subrange(pos as int, s@.len() as int));
    }
    let n = s.unicode_len();
    match expect_lit(s, pos, "}}") {
        Some(j) => {
            if j == n {
                proof {
                    assert(s@.skip(pos as int) =~= "}}"@);
                }
                true
            } else {
                proof {
                    assert(s@.skip(pos as int).len() != ("}}"@).len());
                }
                false
            }
        },
        None => {
            proof {
                if s@.skip(pos as int) == "}}"@ {
                    assert(s@.skip(pos as int).len() == 2);
                    assert(s@.subrange(pos as int, pos as int + 2) =~= s@.skip(pos as int));
                    assert(false);
                }
            }
            false
        },
    }
}

/// Unmarshals a payload under its type tag, exactly [`spec_unmarshal`]:
/// the unique event whose canonical encoding the payload is, an
/// `UnknownEventType` for a tag no decoder knows, and an `UnmarshalEvent`
/// defect for anything malformed — never a crash.
pub fn unmarshal_event(event_type: &str, data: &Vec<u8>) -> (r: Result<
    Event,
    MarshalError<CodecError>,
>)
    ensures
        r matches Ok(e) ==> spec_unmarshal(event_type@, data@) == Ok::<
            EventView,
            MarshalError<CodecError>,
        >(e.deep_view()),
        r matches Err(m) ==> spec_unmarshal(event_type@, data@) == Err::<
            EventView,
            MarshalError<CodecError>,
        >(m),
{
    let is_started = str_eq(event_type, "MonitoringStarted");
    let is_paused = str_eq(event_type, "MonitoringPaused");
    let is_resumed = str_eq(event_type, "MonitoringResumed");
    if !is_started && !is_paused && !is_resumed {
        return Err(MarshalError::UnknownEventType);
    }
    let text = match bytes_to_string(data) {
        Some(t) => t,
        None => {
            return Err(MarshalError::UnmarshalEvent(CodecError::InvalidUtf8));
        },
    };
    let s = text.as_str();
    proof {
        assert(s@.skip(0) =~= s@);
    }
    if is_started {
        match parse_prefixed_string(s, 0, "{\"MonitoringStarted\":{\"id\":\"") {
            Some((id, p2)) => {
                match parse_prefixed_string(s, p2, ",\"url\":\"") {
                    Some((url, p4)) => {
                        if at_tail(s, p4) {
                            Ok(Event::MonitoringStarted { id, url })
                        } else {
                            Err(MarshalError::UnmarshalEvent(CodecError::MalformedPayload))
                        }
                    },
                    None => Err(MarshalError::UnmarshalEvent(CodecError::MalformedPayload)),
                }
            },
            None => Err(MarshalError::UnmarshalEvent(CodecError::MalformedPayload)),
        }
    } else if is_paused {
        match parse_prefixed_string(s, 0, "{\"MonitoringPaused\":{\"id\":\"") {
            Some((id, p2)) => {
                if at_tail(s, p2) {
                    Ok(Event::MonitoringPaused { id })
                } else {
                    Err(MarshalError::UnmarshalEvent(CodecError::MalformedPayload))
                }
            },
            None => Err(MarshalError::UnmarshalEvent(CodecError::MalformedPayload)),
        }
    } else {
        match parse_prefixed_string(s, 0, "{\"MonitoringResumed\":{\"id\":\"") {
            Some((id, p2)) => {
                if at_tail(s, p2) {
                    Ok(Event::MonitoringResumed { id })
                } else {
                    Err(MarshalError::UnmarshalEvent(CodecError::MalformedPayload))
                }
            },
            None => Err(MarshalError::UnmarshalEvent(CodecError::MalformedPayload)),
        }
    }
}

/// Scanning the escaped form of a text, a closing quote and a remainder
/// recovers the text and the remainder.
pub proof fn lemma_scan_esc(x: Seq<char>, rest: Seq<char>)
    requires
        valid_text(x),
    ensures
        scan_string(esc(x) + seq!['"'] + rest) == Some((x, rest)),
    decreases x.len(),
{
    let s = esc(x) + seq!['"'] + rest;
    if x.len() == 0 {
        assert(s =~= seq!['"'] + rest);
        assert(s[0] == '"');
        assert(s.drop_first() =~= rest);
        assert(x =~= Seq::<char>::empty());
    } else {
        let c = x[0];
        let x2 = x.drop_first();
        assert(!is_ctl(c));
        assert forall|j: int| 0 <= j < x2.len() implies !is_ctl(x2[j]) by {
            assert(x2[j] == x[j + 1]);
        }
        let s2 = esc(x2) + seq!['"'] + rest;
        lemma_scan_esc(x2, rest);
        assert(esc(x) == esc_char(c) + esc(x2));
        if c == '"' {
            assert(s =~= seq!['\\', '"'] + s2);
            assert(s[0] == '\\' && s.len() >= 2 && s[1] == '"');
            assert(s.subrange(2, s.len() as int) =~= s2);
            assert(seq![s[1]] + x2 =~= x);
        } else if c == '\\' {
            assert(s =~= seq!['\\', '\\'] + s2);
            assert(s[0] == '\\' && s.len() >= 2 && s[1] == '\\');
            assert(s.subrange(2, s.len() as int) =~= s2);
            assert(seq![s[1]] + x2 =~= x);
        } else {
            assert(s =~= seq![c] + s2);
            assert(s[0] == c && c != '"' && c != '\\' && !is_ctl(c));
            assert(s.drop_first() =~= s2);
            assert(seq![s[0]] + x2 =~= x);
        }
    }
}

/// The canonical JSON text of a valid event parses back to the event under
/// its own type tag.
pub proof fn lemma_parse_canonical(e: EventView)
    requires
        valid_event(e),
    ensures
        parse_payload(spec_event_type(e), json_text(e)) == Some(e),
{
    reveal_strlit("MonitoringStarted");
    reveal_strlit("MonitoringPaused");
    reveal_strlit("MonitoringResumed");
    assert(("MonitoringStarted"@).len() == 17);
    assert(("MonitoringPaused"@).len() == 16);
    assert(("MonitoringResumed"@).len() == 17);
    assert(("MonitoringStarted"@)[10] == 'S');
    assert(("MonitoringResumed"@)[10] == 'R');
    match e {
        EventView::MonitoringStarted { id, url } => {
            let p = "{\"MonitoringStarted\":{\"id\":\""@;
            let mid = "\",\"url\":\""@;
            let m = ",\"url\":\""@;
            let tl = "\"}}"@;
            reveal_strlit("{\"MonitoringStarted\":{\"id\":\"");
            reveal_strlit("\",\"url\":\"");
            reveal_strlit(",\"url\":\"");
            reveal_strlit("\"}}");
            reveal_strlit("}}");
            let text = json_text(e);
            assert(mid =~= seq!['"'] + m);
            assert(tl =~= seq!['"'] + "}}"@);
            let rest1 = m + esc(url) + seq!['"'] + "}}"@;
            assert(text =~= p + (esc(id) + seq!['"'] + rest1));
            assert(text.take(p.len() as int) =~= p);
            assert(text.skip(p.len() as int) =~= esc(id) + seq!['"'] + rest1);
            lemma_scan_esc(id, rest1);
            assert(parse_after(text, p) == Some((id, rest1)));
            assert(rest1.take(m.len() as int) =~= m);
            assert(rest1.skip(m.len() as int) =~= esc(url) + seq!['"'] + "}}"@);
            lemma_scan_esc(url, "}}"@);
            assert(parse_after(rest1, m) == Some((url, "}}"@)));
        },
        EventView::MonitoringPaused { id } => {
            let p = "{\"MonitoringPaused\":{\"id\":\""@;
            let tl = "\"}}"@;
            reveal_strlit("{\"MonitoringPaused\":{\"id\":\"");
            reveal_strlit("\"}}");
            reveal_strlit("}}");
            let text = json_text(e);
            assert(tl =~= seq!['"'] + "}}"@);
            assert(text =~= p + (esc(id) + seq!['"'] + "}}"@));
            assert(text.take(p.len() as int) =~= p);
            assert(text.skip(p.len() as int) =~= esc(id) + seq!['"'] + "}}"@);
            lemma_scan_esc(id, "}}"@);
            assert(parse_after(text, p) == Some((id, "}}"@)));
        },
        EventView::MonitoringResumed { id } => {
            let p = "{\"MonitoringResumed\":{\"id\":\""@;
            let tl = "\"}}"@;
            reveal_strlit("{\"MonitoringResumed\":{\"id\":\"");
            reveal_strlit("\"}}");
            reveal_strlit("}}");
            let text = json_text(e);
            assert(tl =~= seq!['"'] + "}}"@);
            assert(text =~= p + (esc(id) + seq!['"'] + "}}"@));
            assert(text.take(p.len() as int) =~= p);
            assert(text.skip(p.len() as int) =~= esc(id) + seq!['"'] + "}}"@);
            lemma_scan_esc(id, "}}"@);
            assert(parse_after(text, p) == Some((id, "}}"@)));
        },
    }
}

/// Scanning is exact: whatever a scan accepts is the escaped form of its
/// content, followed by the closing quote and the remainder it reports.
pub proof fn lemma_scan_sound(s: Seq<char>)
    requires
        scan_string(s) is Some,
    ensures
        ({
            let p = scan_string(s)->Some_0;
            valid_text(p.0) && s == esc(p.0) + seq!['"'] + p.1
        }),
    decreases s.len(),
{
    let p = scan_string(s)->Some_0;
    if s[0] == '"' {
        assert(esc(p.0) == Seq::<char>::empty());
        assert(s =~= Seq::<char>::empty() + seq!['"'] + s.drop_first());
    } else if s[0] == '\\' {
        let s2 = s.subrange(2, s.len() as int);
        lemma_scan_sound(s2);
        let q = scan_string(s2)->Some_0;
        assert(p.0 == seq![s[1]] + q.0);
        assert(!is_ctl(s[1]));
        assert forall|j: int| 0 <= j < p.0.len() implies !is_ctl(p.0[j]) by {
            if j > 0 {
                assert(p.0[j] == q.0[j - 1]);
            }
        }
        assert(esc_char(s[1]) =~= seq![s[0], s[1]]);
        lemma_esc_add(seq![s[1]], q.0);
        assert(seq![s[1]].drop_first() =~= Seq::<char>::empty());
        assert(esc(Seq::<char>::empty()) == Seq::<char>::empty());
        assert(esc(seq![s[1]]) =~= esc_char(s[1]));
        assert(esc(p.0) =~= seq![s[0], s[1]] + esc(q.0));
        assert(s =~= seq![s[0], s[1]] + s2);
        assert(s =~= esc(p.0) + seq!['"'] + p.1);
    } else {
        let s2 = s.drop_first();
        lemma_scan_sound(s2);
        let q = scan_string(s2)->Some_0;
        assert(p.0 == seq![s[0]] + q.0);
        assert forall|j: int| 0 <= j < p.0.len() implies !is_ctl(p.0[j]) by {
            if j > 0 {
                assert(p.0[j] == q.0[j - 1]);
            }
        }
        assert(esc_char(s[0]) =~= seq![s[0]]);
        lemma_esc_add(seq![s[0]], q.0);
        assert(seq![s[0]].drop_first() =~= Seq::<char>::empty());
        assert(esc(Seq::<char>::empty()) == Seq::<char>::empty());
        assert(esc(seq![s[0]]) =~= esc_char(s[0]));
        assert(esc(p.0) =~= seq![s[0]] + esc(q.0));
        assert(s =~= seq![s[0]] + s2);
        assert(s =~= esc(p.0) + seq!['"'] + p.1);
    }
}

/// Parsing is exact: whatever the grammar accepts under a tag is a valid
/// event whose type tag is that tag and whose canonical JSON text is the
/// parsed text — the decoder accepts canonical encodings and nothing else.
pub proof fn lemma_parse_sound(tag: Seq<char>, text: Seq<char>)
    requires
        parse_payload(tag, text) is Some,
    ensures
        ({
            let e = parse_payload(tag, text)->Some_0;
            valid_event(e) && spec_event_type(e) == tag && json_text(e) == text
        }),
{
    reveal_strlit("\",\"url\":\"");
    reveal_strlit(",\"url\":\"");
    reveal_strlit("\"}}");
    reveal_strlit("}}");
    let e = parse_payload(tag, text)->Some_0;
    let mid = "\",\"url\":\""@;
    let m = ",\"url\":\""@;
    let tl = "\"}}"@;
    assert(mid =~= seq!['"'] + m);
    assert(tl =~= seq!['"'] + "}}"@);
    if tag == "MonitoringStarted"@ {
        let p = "{\"MonitoringStarted\":{\"id\":\""@;
        let p1 = parse_after(text, p)->Some_0;
        lemma_scan_sound(text.skip(p.len() as int));
        assert(text =~= text.take(p.len() as int) + text.skip(p.len() as int));
        let p2 = parse_after(p1.1, m)->Some_0;
        lemma_scan_sound(p1.1.skip(m.len() as int));
        assert(p1.1 =~= p1.1.take(m.len() as int) + p1.1.skip(m.len() as int));
        assert(text =~= p + (esc(p1.0) + seq!['"'] + (m + (esc(p2.0) + seq!['"'] + "}}"@))));
        assert(json_text(e) =~= p + esc(p1.0) + mid + esc(p2.0) + tl);
        assert(text =~= json_text(e));
    } else if tag == "MonitoringPaused"@ {
        let p = "{\"MonitoringPaused\":{\"id\":\""@;
        let p1 = parse_after(text, p)->Some_0;
        lemma_scan_sound(text.skip(p.len() as int));
        assert(text =~= text.take(p.len() as int) + text.skip(p.len() as int));
        assert(text =~= p + (esc(p1.0) + seq!['"'] + "}}"@));
        assert(json_text(e) =~= p + esc(p1.0) + tl);
        assert(text =~= json_text(e));
    } else {
        let p = "{\"MonitoringResumed\":{\"id\":\""@;
        let p1 = parse_after(text, p)->Some_0;
        lemma_scan_sound(text.skip(p.len() as int));
        assert(text =~= text.take(p.len() as int) + text.skip(p.len() as int));
        assert(text =~= p + (esc(p1.0) + seq!['"'] + "}}"@));
        assert(json_text(e) =~= p + esc(p1.0) + tl);
        assert(text =~= json_text(e));
    }
}

/// Unmarshalling inverts marshalling too: whatever decodes under a tag is
/// the unique valid event whose canonical payload the data is, so
/// marshalling the decoded event reproduces the payload exactly.
pub proof fn lemma_unmarshal_inverts(tag: Seq<char>, data: Seq<u8>)
    requires
        spec_unmarshal(tag, data) is Ok,
    ensures
        ({
            let e = spec_unmarshal(tag, data)->Ok_0;
            valid_event(e) && spec_event_type(e) == tag && spec_marshal(e) == Ok::<
                Seq<u8>,
                MarshalError<CodecError>,
            >(data)
        }),
{
    let text = decode_utf8(data);
    lemma_parse_sound(tag, text);
    decode_utf8_encode_utf8(data);
}

/// Round-trip marshalling: a valid event marshals successfully, and
/// unmarshalling that payload under the event's own type tag yields the
/// event back.
pub proof fn lemma_marshal_round_trip(e: EventView)
    requires
        valid_event(e),
    ensures
        spec_marshal(e) == Ok::<Seq<u8>, MarshalError<CodecError>>(encode_utf8(json_text(e))),
        spec_unmarshal(spec_event_type(e), encode_utf8(json_text(e))) == Ok::<
            EventView,
            MarshalError<CodecError>,
        >(e),
{
    let t = json_text(e);
    encode_utf8_valid_utf8(t);
    encode_utf8_decode_utf8(t);
    lemma_parse_canonical(e);
}

impl DeepView for CodecError {
    type V = CodecError;

    open spec fn deep_view(&self) -> CodecError {
        *self
    }
}

/// The marshalling adapter of the monitoring domain: this module's codec
/// behind the [`Marshaller`] contract.
pub struct MonitoringCodec;

impl crate::eventsourcing::Marshaller for MonitoringCodec {
    type Command = Command;

    type Event = Event;

    type MError = MarshalError<CodecError>;

    open spec fn spec_event_type(&self, e: EventView) -> Seq<char> {
        spec_event_type(e)
    }

    open spec fn spec_stream_id(&self, c: CommandView) -> Seq<char> {
        spec_stream_id(c)
    }

    open spec fn spec_marshal(&self, e: EventView) -> Result<Seq<u8>, MarshalError<CodecError>> {
        spec_marshal(e)
    }

    open spec fn spec_unmarshal(&self, tag: Seq<char>, data: Seq<u8>) -> Result<
        EventView,
        MarshalError<CodecError>,
    > {
        spec_unmarshal(tag, data)
    }

    proof fn round_trip(&self, e: EventView) {
        lemma_marshal_round_trip(e);
    }

    fn get_event_type(&self, event: &Event) -> (t: String) {
        String::from_str(event_type(event))
    }

    fn get_stream_id(&self, command: &Command) -> (id: String) {
        get_stream_id(command)
    }

    fn marshal_event(&self, event: &Event) -> (r: Result<
        (String, Vec<u8>),
        MarshalError<CodecError>,
    >) {
        match marshal_event(event) {
            Ok(data) => Ok((String::from_str(event_type(event)), data)),
            Err(m) => Err(m),
        }
    }

    fn unmarshal_event(&self, event_type: &str, data: &Vec<u8>) -> (r: Result<
        Event,
        MarshalError<CodecError>,
    >) {
        unmarshal_event(event_type, data)
    }
}

} // verus!
