//! Incremental framing of server-sent events.

use vstd::prelude::*;

use vstd::utf8::{decode_utf8, encode_utf8, valid_utf8};

use crate::common::{add_capped, byte_len, bytes_of, capped, lemma_views_push, views};
use crate::error::{stream_error, Error, ErrorView};
use crate::text::{find_char, first_position, lemma_first_position, same_text, slice_text, to_chars};
use crate::utf8::decode;

verus! {

broadcast use lemma_views_push;

/// Limit on one line, and on the data of one event.
pub const MAX_EVENT_BYTES: usize = 1024 * 1024;

/// Limit on the data of one response.
pub const MAX_DATA_BYTES: usize = 10 * 1024 * 1024;

/// Incremental SSE framing, including split UTF-8, CR/LF/CRLF, comments and multiline data.
pub struct SseDecoder {
    line: Vec<u8>,
    data: String,
    data_seen: bool,
    skip_lf: bool,
    started: bool,
    total: usize,
}

// ---------------------------------------------------------------------------------------------
// Models
// ---------------------------------------------------------------------------------------------

/// The model of an [`SseDecoder`].
pub struct SseView {
    /// The bytes of the line so far.
    pub line: Seq<u8>,
    /// The data of the event so far, each field with its line break.
    pub data: Seq<char>,
    /// Whether the event has a data field.
    pub data_seen: bool,
    /// Whether a line feed would belong to the carriage return before it.
    pub skip_lf: bool,
    /// Whether a line has ended.
    pub started: bool,
    /// The bytes of all data fields.
    pub total: nat,
}

/// What one byte does.
pub enum StepView {
    Next(SseView),
    Event(SseView, Seq<char>),
    Fail(SseView, Seq<char>),
}

/// What some bytes do: the events they end, or why they cannot be taken. A decoder that fails
/// keeps the line that it could not take, and counts its data.
pub enum FeedView {
    Done(SseView, Seq<Seq<char>>),
    Failed(SseView, Seq<char>),
}

impl View for SseDecoder {
    type V = SseView;

    closed spec fn view(&self) -> SseView {
        SseView {
            line: self.line@,
            data: self.data@,
            data_seen: self.data_seen,
            skip_lf: self.skip_lf,
            started: self.started,
            total: self.total as nat,
        }
    }
}

impl SseView {
    /// The decoder before the first byte.
    pub open spec fn initial() -> SseView {
        SseView {
            line: seq![],
            data: seq![],
            data_seen: false,
            skip_lf: false,
            started: false,
            total: 0,
        }
    }

    /// What holds between bytes, also behind one that could not be taken.
    pub open spec fn wf(self) -> bool {
        &&& byte_len(self.data) <= MAX_EVENT_BYTES + 1
        &&& self.data_seen ==> self.data.len() > 0
    }
}

/// `text` without byte order marks at its beginning.
pub open spec fn without_marks(text: Seq<char>) -> Seq<char>
    decreases text.len(),
{
    if text.len() > 0 && text[0] == '\u{feff}' {
        without_marks(text.drop_first())
    } else {
        text
    }
}

/// The name of the field on a line: what stands before the first colon.
pub open spec fn field_name(line: Seq<char>) -> Seq<char> {
    line.take(first_position(line, ':'))
}

/// The value of the field on a line: what stands behind the first colon and one space.
pub open spec fn field_value(line: Seq<char>) -> Seq<char> {
    let n = first_position(line, ':');
    if n + 1 < line.len() && line[n + 1] == ' ' {
        line.skip(n + 2)
    } else if n < line.len() {
        line.skip(n + 1)
    } else {
        seq![]
    }
}

/// What a complete line does.
pub open spec fn sse_line(s: SseView, line: Seq<char>) -> StepView {
    if line.len() == 0 {
        if s.data_seen {
            StepView::Event(
                SseView { data: seq![], data_seen: false, ..s },
                s.data.drop_last(),
            )
        } else {
            StepView::Next(s)
        }
    } else if field_name(line) != "data"@ {
        StepView::Next(s)
    } else {
        let value = field_value(line);
        let total = capped((s.total + byte_len(value)) as int) as nat;
        if total > MAX_DATA_BYTES || byte_len(s.data) + byte_len(value) > MAX_EVENT_BYTES {
            StepView::Fail(
                SseView { total, ..s },
                "SSE data exceeded the response/event size limit"@,
            )
        } else {
            StepView::Next(
                SseView { data: (s.data + value).push('\n'), data_seen: true, total, ..s },
            )
        }
    }
}

/// What the end of a line does. A line that was taken is cleared.
pub open spec fn sse_line_end(s: SseView) -> StepView {
    if !valid_utf8(s.line) {
        StepView::Fail(s, "invalid UTF-8 in SSE frame"@)
    } else {
        let text = decode_utf8(s.line);
        match sse_line(
            SseView { started: true, ..s },
            if s.started {
                text
            } else {
                without_marks(text)
            },
        ) {
            StepView::Next(t) => StepView::Next(SseView { line: seq![], ..t }),
            StepView::Event(t, event) => StepView::Event(SseView { line: seq![], ..t }, event),
            StepView::Fail(t, message) => StepView::Fail(t, message),
        }
    }
}

/// What one byte does.
pub open spec fn sse_step(s: SseView, byte: u8) -> StepView {
    if s.skip_lf && byte == 10 {
        StepView::Next(SseView { skip_lf: false, ..s })
    } else if byte == 13 || byte == 10 {
        sse_line_end(SseView { skip_lf: byte == 13, ..s })
    } else {
        let longer = SseView { skip_lf: false, line: s.line.push(byte), ..s };
        if longer.line.len() > MAX_EVENT_BYTES {
            StepView::Fail(longer, "SSE line exceeded the size limit"@)
        } else {
            StepView::Next(longer)
        }
    }
}

/// What some bytes do.
pub open spec fn sse_feed(s: SseView, bytes: Seq<u8>) -> FeedView
    decreases bytes.len(),
{
    if bytes.len() == 0 {
        FeedView::Done(s, seq![])
    } else {
        match sse_feed(s, bytes.drop_last()) {
            FeedView::Failed(t, message) => FeedView::Failed(t, message),
            FeedView::Done(t, events) => match sse_step(t, bytes.last()) {
                StepView::Next(u) => FeedView::Done(u, events),
                StepView::Event(u, event) => FeedView::Done(u, events.push(event)),
                StepView::Fail(u, message) => FeedView::Failed(u, message),
            },
        }
    }
}

// ---------------------------------------------------------------------------------------------
// Functions
// ---------------------------------------------------------------------------------------------

proof fn lemma_without_marks(text: Seq<char>, k: int)
    requires
        0 <= k <= text.len(),
        forall|i: int| 0 <= i < k ==> text[i] == '\u{feff}',
        k < text.len() ==> text[k] != '\u{feff}',
    ensures
        without_marks(text) == text.skip(k),
    decreases k,
{
    if k == 0 {
        assert(text.skip(0) =~= text);
    } else {
        assert(text[0] == '\u{feff}');
        lemma_without_marks(text.drop_first(), k - 1);
        assert(text.drop_first().skip(k - 1) =~= text.skip(k));
    }
}

fn skip_marks(text: &str) -> (r: String)
    ensures
        r@ == without_marks(text@),
{
    let chars = to_chars(text);
    let mut k: usize = 0;
    while k < chars.len() && chars[k] == '\u{feff}'
        invariant
            k <= chars@.len(),
            forall|i: int| 0 <= i < k ==> chars@[i] == '\u{feff}',
        decreases chars@.len() - k,
    {
        k += 1;
    }
    proof {
        lemma_without_marks(text@, k as int);
    }
    let r = slice_text(&chars, k, chars.len());
    assert(r@ =~= text@.skip(k as int));
    r
}

fn split_field(line: &str) -> (r: (String, String))
    ensures
        r.0@ == field_name(line@),
        r.1@ == field_value(line@),
{
    let chars = to_chars(line);
    let n = find_char(&chars, 0, ':');
    assert(chars@.skip(0) =~= chars@);
    let name = slice_text(&chars, 0, n);
    assert(name@ =~= line@.take(n as int));
    let value = if n < chars.len() && n + 1 < chars.len() && chars[n + 1] == ' ' {
        let value = slice_text(&chars, n + 2, chars.len());
        assert(value@ =~= line@.skip(n + 2));
        value
    } else if n < chars.len() {
        let value = slice_text(&chars, n + 1, chars.len());
        assert(value@ =~= line@.skip(n + 1));
        value
    } else {
        let value = String::new();
        assert(value@ =~= seq![]);
        value
    };
    (name, value)
}

/// A text without its last character.
fn without_last(text: &str) -> (r: String)
    requires
        text@.len() > 0,
    ensures
        r@ == text@.drop_last(),
{
    let chars = to_chars(text);
    let r = slice_text(&chars, 0, chars.len() - 1);
    assert(r@ =~= text@.drop_last());
    r
}

proof fn lemma_byte_len_push(s: Seq<char>, t: Seq<char>)
    ensures
        byte_len(s + t) == byte_len(s) + byte_len(t),
    decreases s.len(),
{
    if s.len() == 0 {
        assert(s + t =~= t);
    } else {
        lemma_byte_len_push(s.drop_first(), t);
        assert((s + t).drop_first() =~= s.drop_first() + t);
    }
}

proof fn lemma_byte_len_newline(s: Seq<char>)
    ensures
        byte_len(s.push('\n')) == byte_len(s) + 1,
{
    let end = seq!['\n'];
    lemma_byte_len_push(s, end);
    assert(s.push('\n') =~= s + end);
    assert(end.drop_first() =~= seq![]);
    assert(encode_utf8(end) =~= vstd::utf8::encode_scalar('\n' as u32) + encode_utf8(
        end.drop_first(),
    ));
    assert(encode_utf8(end.drop_first()).len() == 0);
}

impl Default for SseDecoder {
    fn default() -> (decoder: Self)
        ensures
            decoder@ == SseView::initial(),
            decoder@.wf(),
    {
        let decoder = SseDecoder {
            line: Vec::new(),
            data: String::new(),
            data_seen: false,
            skip_lf: false,
            started: false,
            total: 0,
        };
        assert(decoder@.line =~= seq![]);
        assert(decoder@.data =~= seq![]);
        decoder
    }
}

impl SseDecoder {
    fn take_line(&mut self, line: &str) -> (r: Result<Option<String>, Error>)
        requires
            old(self)@.wf(),
        ensures
            final(self)@.wf(),
            match sse_line(old(self)@, line@) {
                StepView::Next(s) => (r matches Ok(None)) && final(self)@ == s,
                StepView::Event(s, event) => (r matches Ok(Some(text)) && text@ == event)
                    && final(self)@ == s,
                StepView::Fail(s, message) => (r matches Err(e) && e@ == ErrorView::Stream(message))
                    && final(self)@ == s,
            },
    {
        if line.unicode_len() == 0 {
            if self.data_seen {
                let event = without_last(self.data.as_str());
                self.data = String::new();
                self.data_seen = false;
                proof {
                    assert(self@.data =~= seq![]);
                    assert(byte_len(self@.data) == 0);
                }
                return Ok(Some(event));
            }
            return Ok(None);
        }
        let (name, value) = split_field(line);
        if same_text(name.as_str(), "data") {
            let size: usize = bytes_of(value.as_str());
            let held: usize = bytes_of(self.data.as_str());
            self.total = add_capped(self.total, size);
            if self.total > MAX_DATA_BYTES || add_capped(held, size) > MAX_EVENT_BYTES {
                return Err(stream_error("SSE data exceeded the response/event size limit"));
            }
            proof {
                lemma_byte_len_push(self.data@, value@);
                lemma_byte_len_newline(self.data@ + value@);
            }
            self.data.append(value.as_str());
            self.data.push('\n');
            self.data_seen = true;
        }
        Ok(None)
    }

    fn end_line(&mut self) -> (r: Result<Option<String>, Error>)
        requires
            old(self)@.wf(),
        ensures
            final(self)@.wf(),
            match sse_line_end(old(self)@) {
                StepView::Next(s) => (r matches Ok(None)) && final(self)@ == s,
                StepView::Event(s, event) => (r matches Ok(Some(text)) && text@ == event)
                    && final(self)@ == s,
                StepView::Fail(s, message) => (r matches Err(e) && e@ == ErrorView::Stream(message))
                    && final(self)@ == s,
            },
    {
        let text = match decode(&self.line) {
            Some(text) => text,
            None => return Err(stream_error("invalid UTF-8 in SSE frame")),
        };
        let text = if self.started {
            text
        } else {
            skip_marks(text.as_str())
        };
        self.started = true;
        let r = self.take_line(text.as_str());
        if r.is_ok() {
            self.line = Vec::new();
            assert(self@.line =~= seq![]);
        }
        r
    }

    fn step(&mut self, byte: u8) -> (r: Result<Option<String>, Error>)
        requires
            old(self)@.wf(),
        ensures
            final(self)@.wf(),
            match sse_step(old(self)@, byte) {
                StepView::Next(s) => (r matches Ok(None)) && final(self)@ == s,
                StepView::Event(s, event) => (r matches Ok(Some(text)) && text@ == event)
                    && final(self)@ == s,
                StepView::Fail(s, message) => (r matches Err(e) && e@ == ErrorView::Stream(message))
                    && final(self)@ == s,
            },
    {
        if self.skip_lf && byte == 10 {
            self.skip_lf = false;
            return Ok(None);
        }
        if byte == 13 || byte == 10 {
            self.skip_lf = byte == 13;
            return self.end_line();
        }
        self.skip_lf = false;
        self.line.push(byte);
        if self.line.len() > MAX_EVENT_BYTES {
            return Err(stream_error("SSE line exceeded the size limit"));
        }
        Ok(None)
    }

    /// Take the next bytes of a response, and return the events that they complete.
    pub fn feed(&mut self, bytes: &[u8]) -> (r: Result<Vec<String>, Error>)
        requires
            old(self)@.wf(),
        ensures
            final(self)@.wf(),
            match sse_feed(old(self)@, bytes@) {
                FeedView::Done(s, events) => (r matches Ok(texts) && views(texts@) == events)
                    && final(self)@ == s,
                FeedView::Failed(s, message) => (r matches Err(e) && e@ == ErrorView::Stream(
                    message,
                )) && final(self)@ == s,
            },
    {
        let mut events: Vec<String> = Vec::new();
        let mut i: usize = 0;
        assert(views(events@) =~= seq![]);
        while i < bytes.len()
            invariant
                i <= bytes@.len(),
                self@.wf(),
                sse_feed(old(self)@, bytes@.take(i as int)) == FeedView::Done(
                    self@,
                    views(events@),
                ),
            decreases bytes@.len() - i,
        {
            proof {
                assert(bytes@.take(i + 1).drop_last() =~= bytes@.take(i as int));
                assert(bytes@.take(i + 1).last() == bytes@[i as int]);
            }
            match self.step(bytes[i]) {
                Ok(Some(event)) => {
                    events.push(event);
                },
                Ok(None) => {},
                Err(error) => {
                    proof {
                        lemma_failure_lasts(old(self)@, bytes@, i + 1);
                    }
                    return Err(error);
                },
            }
            i += 1;
        }
        assert(bytes@.take(i as int) =~= bytes@);
        Ok(events)
    }
}

/// Once a prefix fails, so does the whole, in the same way.
proof fn lemma_failure_lasts(s: SseView, bytes: Seq<u8>, k: int)
    requires
        0 <= k <= bytes.len(),
        sse_feed(s, bytes.take(k)) is Failed,
    ensures
        sse_feed(s, bytes) == sse_feed(s, bytes.take(k)),
    decreases bytes.len(),
{
    if k == bytes.len() {
        assert(bytes.take(k) =~= bytes);
    } else {
        assert(bytes.drop_last().take(k) =~= bytes.take(k));
        lemma_failure_lasts(s, bytes.drop_last(), k);
    }
}

// ---------------------------------------------------------------------------------------------
// Laws
// ---------------------------------------------------------------------------------------------

/// What two pieces of a response do one after the other.
pub open spec fn fed_in_turn(s: SseView, first: Seq<u8>, second: Seq<u8>) -> FeedView {
    match sse_feed(s, first) {
        FeedView::Failed(t, message) => FeedView::Failed(t, message),
        FeedView::Done(t, events) => match sse_feed(t, second) {
            FeedView::Failed(u, message) => FeedView::Failed(u, message),
            FeedView::Done(u, more) => FeedView::Done(u, events + more),
        },
    }
}

/// It does not matter where a response is cut into pieces, not even inside a character or a line
/// ending: the events are the same.
pub proof fn pieces_do_not_matter(s: SseView, first: Seq<u8>, second: Seq<u8>)
    ensures
        sse_feed(s, first + second) == fed_in_turn(s, first, second),
    decreases second.len(),
{
    if second.len() == 0 {
        assert(first + second =~= first);
        if let FeedView::Done(t, events) = sse_feed(s, first) {
            assert(events + Seq::<Seq<char>>::empty() =~= events);
        }
    } else {
        pieces_do_not_matter(s, first, second.drop_last());
        assert((first + second).drop_last() =~= first + second.drop_last());
        assert((first + second).last() == second.last());
        if let FeedView::Done(t, events) = sse_feed(s, first) {
            if let FeedView::Done(u, more) = sse_feed(t, second.drop_last()) {
                if let StepView::Event(v, event) = sse_step(u, second.last()) {
                    assert((events + more).push(event) =~= events + more.push(event));
                }
            }
        }
    }
}

/// A carriage return with a line feed ends a line just as a line feed alone does, and a line that
/// cannot be taken fails behind either for the same reason.
pub proof fn both_line_endings_are_one(s: SseView)
    requires
        !s.skip_lf,
    ensures
        match sse_feed(s, seq![10u8]) {
            FeedView::Done(t, events) => sse_feed(s, seq![13u8, 10u8]) == FeedView::Done(t, events),
            FeedView::Failed(_, message) => sse_feed(s, seq![13u8, 10u8]) matches FeedView::Failed(
                _,
                m,
            ) && m == message,
        },
{
    let crlf = seq![13u8, 10u8];
    let cr = seq![13u8];
    let lf = seq![10u8];
    assert(crlf.drop_last() =~= cr);
    assert(cr.drop_last() =~= seq![]);
    assert(lf.drop_last() =~= seq![]);
    assert(sse_feed(s, cr.drop_last()) == FeedView::Done(s, seq![]));
    assert(sse_feed(s, lf.drop_last()) == FeedView::Done(s, seq![]));
    let none = Seq::<Seq<char>>::empty();
    assert(cr.last() == 13 && lf.last() == 10 && crlf.last() == 10);
    let after_cr = sse_feed(s, cr);
    assert(after_cr == match sse_step(s, 13) {
        StepView::Next(u) => FeedView::Done(u, none),
        StepView::Event(u, event) => FeedView::Done(u, none.push(event)),
        StepView::Fail(u, message) => FeedView::Failed(u, message),
    });
    assert(sse_feed(s, lf) == match sse_step(s, 10) {
        StepView::Next(u) => FeedView::Done(u, none),
        StepView::Event(u, event) => FeedView::Done(u, none.push(event)),
        StepView::Fail(u, message) => FeedView::Failed(u, message),
    });
}

/// Whether no byte ends a line.
pub open spec fn on_one_line(bytes: Seq<u8>) -> bool {
    forall|i: int| 0 <= i < bytes.len() ==> bytes[i] != 10 && bytes[i] != 13
}

proof fn lemma_line_grows(s: SseView, bytes: Seq<u8>)
    requires
        on_one_line(bytes),
        s.line.len() + bytes.len() <= MAX_EVENT_BYTES,
        bytes.len() > 0,
    ensures
        sse_feed(s, bytes) == FeedView::Done(
            SseView { line: s.line + bytes, skip_lf: false, ..s },
            seq![],
        ),
    decreases bytes.len(),
{
    let front = bytes.drop_last();
    assert(bytes[bytes.len() - 1] != 10 && bytes[bytes.len() - 1] != 13);
    assert(s.line + bytes =~= (s.line + front).push(bytes.last()));
    if front.len() == 0 {
        assert(s.line + front =~= s.line);
        assert(sse_feed(s, front) == FeedView::Done(s, seq![]));
    } else {
        assert forall|i: int| 0 <= i < front.len() implies front[i] != 10 && front[i] != 13 by {
            assert(front[i] == bytes[i]);
        }
        lemma_line_grows(s, front);
    }
}

/// Whether no character ends a line.
pub open spec fn single_line(text: Seq<char>) -> bool {
    forall|i: int| 0 <= i < text.len() ==> text[i] != '\n' && text[i] != '\r'
}

proof fn lemma_wide_bytes(v: u32)
    by (bit_vector)
    ensures
        0xC0u8 | ((v >> 6) & 0x1F) as u8 >= 0x80,
        0xE0u8 | ((v >> 12) & 0x0F) as u8 >= 0x80,
        0xF0u8 | ((v >> 18) & 0x7) as u8 >= 0x80,
        0x80u8 | (v & 0x3F) as u8 >= 0x80,
        0x80u8 | ((v >> 6) & 0x3F) as u8 >= 0x80,
        0x80u8 | ((v >> 12) & 0x3F) as u8 >= 0x80,
{
}

proof fn lemma_narrow_byte(v: u32)
    by (bit_vector)
    requires
        v <= 0x7F,
    ensures
        (v & 0x7F) as u8 == v,
{
}

proof fn lemma_single_line_bytes(text: Seq<char>)
    requires
        single_line(text),
    ensures
        on_one_line(encode_utf8(text)),
    decreases text.len(),
{
    if text.len() > 0 {
        let v = text[0] as u32;
        let rest = text.drop_first();
        vstd::utf8::char_is_scalar(text[0]);
        vstd::utf8::char_u32_cast(text[0], v);
        assert(text[0] != '\n' && text[0] != '\r');
        assert forall|i: int| 0 <= i < rest.len() implies rest[i] != '\n' && rest[i] != '\r' by {
            assert(rest[i] == text[i + 1]);
        }
        lemma_single_line_bytes(rest);
        lemma_wide_bytes(v);
        if v <= 0x7F {
            lemma_narrow_byte(v);
        }
        let head = vstd::utf8::encode_scalar(v);
        let tail = encode_utf8(rest);
        assert(v != 10 && v != 13);
        assert(on_one_line(head));
        assert forall|i: int| 0 <= i < (head + tail).len() implies (head + tail)[i] != 10 && (head
            + tail)[i] != 13 by {
            if i >= head.len() {
                assert((head + tail)[i] == tail[i - head.len()]);
            }
        }
    }
}

/// Between two events, with room for another.
pub open spec fn between_events(s: SseView) -> bool {
    s.line.len() == 0 && s.data.len() == 0 && !s.data_seen
}

/// What is written as one event is read as that event: a line with the data, and an empty line.
pub proof fn an_event_is_read_back(s: SseView, text: Seq<char>)
    requires
        between_events(s),
        single_line(text),
        byte_len(text) + 6 <= MAX_EVENT_BYTES,
        s.total + byte_len(text) <= MAX_DATA_BYTES,
    ensures
        sse_feed(s, encode_utf8("data: "@ + text) + seq![10u8, 10u8]) == FeedView::Done(
            SseView { skip_lf: false, started: true, total: s.total + byte_len(text), ..s },
            seq![text],
        ),
{
    reveal_strlit("data: ");
    reveal_strlit("data");
    let line = "data: "@ + text;
    let bytes = encode_utf8(line);
    assert(single_line(line)) by {
        assert forall|i: int| 0 <= i < line.len() implies line[i] != '\n' && line[i] != '\r' by {
            if i >= 6 {
                assert(line[i] == text[i - 6]);
            }
        }
    }
    lemma_single_line_bytes(line);
    lemma_byte_len_push("data: "@, text);
    lemma_ascii_len("data: "@);
    assert(bytes.len() == 6 + byte_len(text));
    lemma_line_grows(s, bytes);
    assert(s.line + bytes =~= bytes);
    let t = SseView { line: bytes, skip_lf: false, ..s };
    vstd::utf8::encode_utf8_valid_utf8(line);
    vstd::utf8::encode_utf8_decode_utf8(line);
    assert(line[0] == 'd');
    assert(without_marks(line) == line);
    lemma_first_position(line, ':');
    assert(first_position(line, ':') == 4) by {
        let n = first_position(line, ':');
        assert(line[4] == ':');
        if n > 4 {
            assert(line[4] != ':');
        } else if n < 4 {
            assert(line[n] != ':');
        }
    }
    assert(field_name(line) =~= "data"@);
    assert(line[5] == ' ');
    if text.len() > 0 {
        assert(field_value(line) =~= text);
    } else {
        assert(field_value(line) =~= text);
    }
    assert(byte_len(s.data) == 0);
    let u = SseView {
        line: seq![],
        data: (s.data + text).push('\n'),
        data_seen: true,
        started: true,
        total: s.total + byte_len(text),
        ..t
    };
    let one = bytes.push(10u8);
    let two = one.push(10u8);
    assert(one.drop_last() =~= bytes);
    assert(two.drop_last() =~= one);
    assert(two =~= bytes + seq![10u8, 10u8]);
    assert(sse_step(t, 10) == StepView::Next(u));
    assert(sse_feed(s, one) == FeedView::Done(u, seq![]));
    vstd::utf8::encode_utf8_valid_utf8(seq![]);
    assert(encode_utf8(Seq::<char>::empty()) =~= seq![]);
    assert(decode_utf8(Seq::<u8>::empty()) =~= seq![]);
    assert((s.data + text).push('\n').drop_last() =~= text);
    assert(s.data =~= seq![]);
    assert(s.line =~= seq![]);
    assert(Seq::<Seq<char>>::empty().push(text) =~= seq![text]);
}

proof fn lemma_ascii_len(text: Seq<char>)
    requires
        forall|i: int| 0 <= i < text.len() ==> (#[trigger] text[i] as u32) < 0x80,
    ensures
        byte_len(text) == text.len(),
    decreases text.len(),
{
    if text.len() > 0 {
        assert((text[0] as u32) < 0x80);
        assert forall|i: int| 0 <= i < text.drop_first().len() implies (#[trigger] text.drop_first()[
            i
        ] as u32) < 0x80 by {
            assert((text[i + 1] as u32) < 0x80);
        }
        lemma_ascii_len(text.drop_first());
    }
}

} // verus!
