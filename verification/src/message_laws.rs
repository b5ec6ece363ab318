//! What holds of messages and their contents: what shows, what counts, and what a response is
//! received as.

use vstd::prelude::*;

use crate::chat::{received, response_of, MessageRole, MessageView, WireView};
use crate::common::byte_len;
use crate::content::{content_empty, payload_sum, shown_text, ContentView, PartView};
use crate::json::JsonView;
use crate::session::edit_laws::lemma_same_filter;
use crate::text::occurs;

verus! {

proof fn lemma_parts_concat(a: Seq<PartView>, b: Seq<PartView>)
    ensures
        shown_text(a + b) == shown_text(a) + shown_text(b),
        payload_sum(a + b) == payload_sum(a) + payload_sum(b),
    decreases b.len(),
{
    if b.len() == 0 {
        assert(a + b =~= a);
        assert(shown_text(a) + shown_text(b) =~= shown_text(a));
    } else {
        lemma_parts_concat(a, b.drop_last());
        assert((a + b).drop_last() =~= a + b.drop_last());
        assert((a + b).last() == b.last());
        assert((shown_text(a) + shown_text(b.drop_last())) + b.last().shown() =~= shown_text(a) + (
        shown_text(b.drop_last()) + b.last().shown()));
    }
}

/// Contents are shown and counted part by part: the text of parts is their texts joined, and their
/// payload is the sum of theirs.
pub proof fn contents_go_part_by_part(a: Seq<PartView>, b: Seq<PartView>)
    ensures
        ContentView::Parts(a + b).text() == ContentView::Parts(a).text() + ContentView::Parts(
            b,
        ).text(),
        ContentView::Parts(a + b).payload() == ContentView::Parts(a).payload()
            + ContentView::Parts(b).payload(),
        ContentView::Parts(a + b).has_media() == (ContentView::Parts(a).has_media()
            || ContentView::Parts(b).has_media()),
{
    lemma_parts_concat(a, b);
    if ContentView::Parts(a).has_media() {
        let i = choose|i: int| 0 <= i < a.len() && !((#[trigger] a[i]) is Text);
        assert(!((a + b)[i] is Text));
    }
    if ContentView::Parts(b).has_media() {
        let i = choose|i: int| 0 <= i < b.len() && !((#[trigger] b[i]) is Text);
        assert(!((a + b)[i + a.len()] is Text));
    }
    if ContentView::Parts(a + b).has_media() {
        let i = choose|i: int| 0 <= i < (a + b).len() && !((#[trigger] (a + b)[i]) is Text);
        if i < a.len() {
            assert(!(a[i] is Text));
        } else {
            assert(!(b[i - a.len()] is Text));
        }
    }
}

/// One part shows its text alone, and counts every byte that it holds; it is media where it is no
/// text. A plain text shows itself, counts its bytes and is no media.
pub proof fn each_part_counts_what_it_holds(part: PartView, text: Seq<char>)
    ensures
        ({
            let content = ContentView::Parts(seq![part]);
            match part {
                PartView::Text(text) => content.text() == text && content.payload() == byte_len(
                    text,
                ) && !content.has_media(),
                PartView::Image { url, .. } => content.text().len() == 0 && content.payload()
                    == byte_len(url) && content.has_media(),
                PartView::File { filename, data } => content.text().len() == 0 && content.payload()
                    == byte_len(data) + (match filename {
                    Some(filename) => byte_len(filename),
                    None => 0,
                }) && content.has_media(),
                PartView::Audio { data, format } => content.text().len() == 0 && content.payload()
                    == byte_len(data) + byte_len(format) && content.has_media(),
                PartView::Video { url } => content.text().len() == 0 && content.payload()
                    == byte_len(url) && content.has_media(),
            }
        }),
        ContentView::Text(text).text() == text,
        ContentView::Text(text).payload() == byte_len(text),
        !ContentView::Text(text).has_media(),
        ContentView::Parts(seq![]).text().len() == 0,
        ContentView::Parts(seq![]).payload() == 0,
        !ContentView::Parts(seq![]).has_media(),
{
    let parts = seq![part];
    assert(parts.drop_last() =~= seq![]);
    assert(parts.last() == part);
    assert(parts[0] == part);
    reveal_with_fuel(shown_text, 2);
    reveal_with_fuel(payload_sum, 2);
    assert(shown_text(seq![]) =~= seq![]);
    assert(Seq::<char>::empty() + part.shown() =~= part.shown());
}

/// A content is empty where nothing shows and no part is media.
pub proof fn empty_contents_hold_nothing(content: ContentView)
    ensures
        content_empty(content) <==> match content {
            ContentView::Text(text) => text.len() == 0,
            ContentView::Parts(parts) => forall|i: int|
                0 <= i < parts.len() ==> ((#[trigger] parts[i]) matches PartView::Text(text)
                    && text.len() == 0),
        },
{
    if let ContentView::Parts(parts) = content {
        lemma_shows_nothing(parts);
    }
}

proof fn lemma_shows_nothing(parts: Seq<PartView>)
    ensures
        shown_text(parts).len() == 0 <==> forall|i: int|
            0 <= i < parts.len() ==> ((#[trigger] parts[i]) matches PartView::Text(text)
                ==> text.len() == 0),
    decreases parts.len(),
{
    if parts.len() > 0 {
        let front = parts.drop_last();
        lemma_shows_nothing(front);
        if shown_text(parts).len() == 0 {
            assert forall|i: int| 0 <= i < parts.len() implies ((#[trigger] parts[i]) matches
            PartView::Text(text) ==> text.len() == 0) by {
                if i < front.len() {
                    assert(front[i] == parts[i]);
                }
            }
        }
        if forall|i: int|
            0 <= i < parts.len() ==> ((#[trigger] parts[i]) matches PartView::Text(text)
                ==> text.len() == 0) {
            assert(parts[parts.len() - 1] == parts.last());
            assert forall|i: int| 0 <= i < front.len() implies ((#[trigger] front[i]) matches
            PartView::Text(text) ==> text.len() == 0) by {
                assert(front[i] == parts[i]);
            }
        }
    }
}

/// A response is received as an assistant message with all that came. Its text is kept but where
/// tool calls came and their markup leaked into it: then a plain text is dropped, and of parts
/// those texts alone that hold markup.
pub proof fn responses_are_received_whole(wire: WireView)
    ensures
        ({
            let message = received(wire);
            let content = match wire.content {
                Some(content) => content,
                None => ContentView::Text(seq![]),
            };
            let leaked = |text: Seq<char>|
                occurs(text, "DSML"@) && (occurs(text, "tool_calls"@) || occurs(text, "invoke"@));
            &&& message == (MessageView {
                role: MessageRole::Assistant,
                content: message.content,
                annotations: wire.annotations,
                reasoning: wire.reasoning,
                tool_calls: wire.tool_calls,
                tool_call_id: None,
                name: None,
            })
            &&& wire.tool_calls.len() == 0 || !leaked(content.text()) ==> message.content == content
            &&& wire.tool_calls.len() > 0 && leaked(content.text()) ==> match content {
                ContentView::Text(_) => message.content == ContentView::Text(seq![]),
                ContentView::Parts(parts) => message.content == ContentView::Parts(
                    parts.filter(
                        |p: PartView|
                            match p {
                                PartView::Text(text) => !leaked(text),
                                _ => true,
                            },
                    ),
                ),
            }
        }),
{
    if let Some(ContentView::Parts(parts)) = wire.content {
        let leaked = |text: Seq<char>|
            occurs(text, "DSML"@) && (occurs(text, "tool_calls"@) || occurs(text, "invoke"@));
        lemma_same_filter(
            parts,
            |p: PartView| !(p is Text && crate::chat::leaked_markup(p->Text_0)),
            |p: PartView|
                match p {
                    PartView::Text(text) => !leaked(text),
                    _ => true,
                },
        );
    }
}

/// A response holds its message and its raw value, and its reasoning apart where there is any.
pub proof fn responses_hold_their_message(message: MessageView, raw: JsonView)
    ensures
        response_of(message, raw).message == message,
        response_of(message, raw).raw == raw,
        response_of(message, raw).reasoning matches Some(reasoning) ==> reasoning
            == message.reasoning,
        response_of(message, raw).reasoning is None <==> message.reasoning.reasoning is None
            && message.reasoning.reasoning_content is None
            && message.reasoning.reasoning_details is None,
{
}

} // verus!
