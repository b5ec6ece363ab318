//! What holds of server-sent events as they are framed: which lines count, what they add up to,
//! where they end, and how much of them is taken.

use vstd::prelude::*;

use vstd::utf8::{decode_utf8, valid_utf8};

use crate::common::byte_len;
use crate::streaming::reader::before_mark;
use crate::streaming::sse::{sse_line, sse_line_end, sse_step, without_marks, SseView, StepView};
use crate::text::lemma_first_position_unique;

verus! {

/// A line of data adds its value to the event, and a line feed behind it; one space behind the
/// colon is no part of the value. Beyond a mebibyte in an event, or ten in a response, it is
/// refused.
pub proof fn data_lines_are_gathered(s: SseView, value: Seq<char>)
    requires
        s.total + byte_len(value) <= usize::MAX,
    ensures
        ({
            let total = s.total + byte_len(value);
            let fits = total <= 10485760 && byte_len(s.data) + byte_len(value) <= 1048576;
            let spaced = sse_line(s, "data: "@ + value);
            &&& fits ==> spaced == StepView::Next(
                SseView { data: (s.data + value).push('\n'), data_seen: true, total, ..s },
            )
            &&& !fits ==> spaced == StepView::Fail(
                SseView { total, ..s },
                "SSE data exceeded the response/event size limit"@,
            )
            &&& value.len() == 0 || value[0] != ' ' ==> sse_line(s, "data:"@ + value) == spaced
        }),
        s.total <= 10485760 && byte_len(s.data) <= 1048576 ==> sse_line(s, "data"@) == sse_line(
            s,
            "data:"@,
        ),
{
    reveal_strlit("data: ");
    reveal_strlit("data:");
    reveal_strlit("data");
    let spaced = "data: "@ + value;
    let plain = "data:"@ + value;
    lemma_first_position_unique(spaced, ':', 4);
    lemma_first_position_unique(plain, ':', 4);
    assert(spaced.take(4) =~= "data"@);
    assert(plain.take(4) =~= "data"@);
    assert(spaced.skip(6) =~= value);
    assert(plain.skip(5) =~= value);
    if value.len() > 0 {
        assert(plain[5] == value[0]);
    }
    assert(crate::streaming::sse::field_value(spaced) =~= value);
    assert(value.len() == 0 || value[0] != ' ' ==> crate::streaming::sse::field_value(plain)
        =~= value);
    lemma_first_position_unique("data"@, ':', 4);
    lemma_first_position_unique("data:"@, ':', 4);
    assert("data"@.take(4) =~= "data"@);
    assert("data:"@.take(4) =~= "data"@);
    assert("data:"@.skip(5) =~= seq![]);
}

/// Comments and other fields change nothing.
pub proof fn other_lines_change_nothing(s: SseView, name: Seq<char>, rest: Seq<char>)
    requires
        !name.contains(':'),
        name != "data"@,
    ensures
        sse_line(s, name.push(':') + rest) == StepView::Next(s),
        name.len() > 0 ==> sse_line(s, name) == StepView::Next(s),
{
    let line = name.push(':') + rest;
    assert(line[name.len() as int] == ':');
    assert forall|i: int| 0 <= i < name.len() implies name[i] != ':' by {
        assert(name.contains(name[i]));
    }
    assert forall|i: int| 0 <= i < name.len() implies line[i] != ':' by {
        assert(line[i] == name[i]);
    }
    lemma_first_position_unique(line, ':', name.len() as int);
    lemma_first_position_unique(name, ':', name.len() as int);
    assert(line.take(name.len() as int) =~= name);
    assert(name.take(name.len() as int) =~= name);
}

/// An empty line ends an event that has data: the data without its last line feed. Without data
/// it does nothing.
pub proof fn empty_lines_end_events(s: SseView, data: Seq<char>)
    ensures
        s.data_seen && s.data == data.push('\n') ==> sse_line(s, seq![]) == StepView::Event(
            SseView { data: seq![], data_seen: false, ..s },
            data,
        ),
        !s.data_seen ==> sse_line(s, seq![]) == StepView::Next(s),
{
    assert(data.push('\n').drop_last() =~= data);
}

/// Bytes are gathered until a line feed or a carriage return, a line feed behind a carriage return
/// being one end with it; a line of more than a mebibyte is refused.
pub proof fn bytes_are_gathered_into_lines(s: SseView, byte: u8)
    ensures
        byte != 10 && byte != 13 && s.line.len() < 1048576 ==> sse_step(s, byte) == StepView::Next(
            SseView { skip_lf: false, line: s.line.push(byte), ..s },
        ),
        byte != 10 && byte != 13 && s.line.len() >= 1048576 ==> (sse_step(s, byte) matches
        StepView::Fail(_, message) && message == "SSE line exceeded the size limit"@),
        s.skip_lf ==> sse_step(s, 10) == StepView::Next(SseView { skip_lf: false, ..s }),
        !s.skip_lf ==> sse_step(s, 10) == sse_line_end(SseView { skip_lf: false, ..s }),
        sse_step(s, 13) == sse_line_end(SseView { skip_lf: true, ..s }),
{
}

/// A line that ends is read as UTF-8, without byte order marks where it is the first; then the
/// next line begins. Other bytes are refused.
pub proof fn ended_lines_are_read(s: SseView)
    ensures
        !valid_utf8(s.line) ==> sse_line_end(s) == StepView::Fail(s, "invalid UTF-8 in SSE frame"@),
        valid_utf8(s.line) ==> ({
            let text = decode_utf8(s.line);
            let begun = SseView { started: true, ..s };
            let line = if s.started {
                text
            } else {
                without_marks(text)
            };
            match sse_line(begun, line) {
                StepView::Next(t) => sse_line_end(s) == StepView::Next(
                    SseView { line: seq![], ..t },
                ),
                StepView::Event(t, event) => sse_line_end(s) == StepView::Event(
                    SseView { line: seq![], ..t },
                    event,
                ),
                StepView::Fail(t, message) => sse_line_end(s) == StepView::Fail(t, message),
            }
        }),
{
}

/// Byte order marks before a text are dropped, and nothing else of it.
pub proof fn marks_are_dropped_at_the_beginning(text: Seq<char>)
    ensures
        without_marks(seq!['\u{feff}'] + text) == without_marks(text),
        text.len() == 0 || text[0] != '\u{feff}' ==> without_marks(text) == text,
{
    assert((seq!['\u{feff}'] + text).drop_first() =~= text);
}

/// The events before the end mark are the chunks of a response, all of them and in order; without
/// an end mark all events are.
pub proof fn events_before_the_end_mark_are_chunks(
    events: Seq<Seq<char>>,
    more: Seq<Seq<char>>,
)
    requires
        !events.contains("[DONE]"@),
    ensures
        before_mark(events) == events,
        before_mark(events.push("[DONE]"@) + more) == events,
{
    let all = events.push("[DONE]"@) + more;
    let n = events.len() as int;
    assert forall|i: int| 0 <= i < n implies events[i] != "[DONE]"@ by {
        assert(events.contains(events[i]));
    }
    assert(all[n] == "[DONE]"@);
    assert forall|i: int| 0 <= i < n implies all[i] != "[DONE]"@ by {
        assert(all[i] == events[i]);
    }
    lemma_first_position_unique(events, "[DONE]"@, n);
    lemma_first_position_unique(all, "[DONE]"@, n);
    assert(events.take(n) =~= events);
    assert(all.take(n) =~= events);
}

} // verus!
