//! What holds of assembled responses as a whole.

use vstd::prelude::*;

use crate::chat::CallView;
use crate::json::parsed_json;
use crate::streaming::accumulator::{annotations_delta, call_error, calls_error, choice_delta, choice_step};
use crate::streaming::accumulator::{choices_in_turn, chunk_step, continued, detail_delta, details_delta};
use crate::streaming::accumulator::{message_fields, push_step, unmoved};
use crate::streaming::accumulator::{details_in_turn, finish_error, id_taken, slot_call};
use crate::streaming::accumulator::{slot_position, slot_put, text_delta, tool_delta, tools_delta};
use crate::streaming::accumulator::{tools_in_turn, AccView, Progress, SlotView, TextField};
use crate::streaming::event::StreamView;
use crate::value::Tree;

verus! {

// ---------------------------------------------------------------------------------------------
// Text
// ---------------------------------------------------------------------------------------------

/// The visible text of events, joined.
pub open spec fn shown(events: Seq<StreamView>) -> Seq<char>
    decreases events.len(),
{
    if events.len() == 0 {
        seq![]
    } else {
        shown(events.drop_last()) + match events.last() {
            StreamView::TextDelta { text } => text,
            _ => seq![],
        }
    }
}

/// The content so far.
pub open spec fn content_so_far(acc: AccView) -> Seq<char> {
    match acc.content {
        Some(text) => text,
        None => seq![],
    }
}

/// Whether the content grew by exactly what the events show.
pub open spec fn shows_its_growth(acc: AccView, p: Progress) -> bool {
    content_so_far(p.acc) == content_so_far(acc) + shown(p.events)
}

proof fn lemma_shown_concat(a: Seq<StreamView>, b: Seq<StreamView>)
    ensures
        shown(a + b) == shown(a) + shown(b),
    decreases b.len(),
{
    if b.len() == 0 {
        assert(a + b =~= a);
        assert(shown(a) + shown(b) =~= shown(a));
    } else {
        lemma_shown_concat(a, b.drop_last());
        assert((a + b).drop_last() =~= a + b.drop_last());
        let last = match b.last() {
            StreamView::TextDelta { text } => text,
            _ => seq![],
        };
        assert((shown(a) + shown(b.drop_last())) + last =~= shown(a) + (shown(b.drop_last())
            + last));
    }
}

proof fn lemma_shown_none(acc: AccView)
    ensures
        content_so_far(acc) + shown(seq![]) == content_so_far(acc),
{
    assert(content_so_far(acc) + Seq::<char>::empty() =~= content_so_far(acc));
}

proof fn lemma_continued(acc: AccView, before: Progress, next: spec_fn(AccView) -> Progress)
    requires
        shows_its_growth(acc, before),
        before.error is None ==> shows_its_growth(before.acc, next(before.acc)),
    ensures
        shows_its_growth(acc, continued(before, next)),
{
    if before.error is None {
        let after = next(before.acc);
        lemma_shown_concat(before.events, after.events);
        assert((content_so_far(acc) + shown(before.events)) + shown(after.events)
            =~= content_so_far(acc) + (shown(before.events) + shown(after.events)));
    }
}

proof fn lemma_text_delta(acc: AccView, delta: Tree, field: TextField)
    ensures
        shows_its_growth(acc, text_delta(acc, delta, field)),
{
    lemma_shown_none(acc);
    let p = text_delta(acc, delta, field);
    if p.events.len() > 0 {
        assert(p.events.drop_last() =~= seq![]);
        assert(shown(p.events.drop_last()) =~= seq![]);
    }
    if let Tree::Str(text) = delta.field(crate::streaming::accumulator::field_key(field)) {
        if field == TextField::Content {
            if text.len() > 0 {
                assert(shown(p.events) =~= text);
            } else {
                assert(text =~= seq![]);
                assert(shown(p.events) =~= seq![]);
            }
            if acc.content is None {
                assert(content_so_far(acc) + text =~= text);
            }
        } else {
            assert(shown(p.events) =~= seq![]);
        }
    }
}

proof fn lemma_detail_delta(acc: AccView, delta: Tree, detail: Tree)
    ensures
        shows_its_growth(acc, detail_delta(acc, delta, detail)),
{
    lemma_shown_none(acc);
    let p = detail_delta(acc, delta, detail);
    if p.events.len() > 0 {
        assert(p.events.drop_last() =~= seq![]);
        assert(shown(p.events.drop_last()) =~= seq![]);
        assert(shown(p.events) =~= seq![]);
    } else {
        assert(p.events =~= seq![]);
    }
}

proof fn lemma_details_in_turn(acc: AccView, delta: Tree, details: Seq<Tree>)
    ensures
        shows_its_growth(acc, details_in_turn(acc, delta, details)),
    decreases details.len(),
{
    lemma_shown_none(acc);
    if details.len() > 0 {
        let before = details_in_turn(acc, delta, details.drop_last());
        lemma_details_in_turn(acc, delta, details.drop_last());
        lemma_detail_delta(before.acc, delta, details.last());
        lemma_continued(acc, before, |a: AccView| detail_delta(a, delta, details.last()));
    }
}

proof fn lemma_tool_delta(acc: AccView, call: Tree)
    ensures
        shows_its_growth(acc, tool_delta(acc, call)),
{
    lemma_shown_none(acc);
    let p = tool_delta(acc, call);
    if p.events.len() > 0 {
        assert(p.events.drop_last() =~= seq![]);
        assert(shown(p.events.drop_last()) =~= seq![]);
        assert(shown(p.events) =~= seq![]);
    } else {
        assert(p.events =~= seq![]);
    }
}

proof fn lemma_tools_in_turn(acc: AccView, calls: Seq<Tree>)
    ensures
        shows_its_growth(acc, tools_in_turn(acc, calls)),
    decreases calls.len(),
{
    lemma_shown_none(acc);
    if calls.len() > 0 {
        let before = tools_in_turn(acc, calls.drop_last());
        lemma_tools_in_turn(acc, calls.drop_last());
        lemma_tool_delta(before.acc, calls.last());
        lemma_continued(acc, before, |a: AccView| tool_delta(a, calls.last()));
    }
}

proof fn lemma_choice_delta(acc: AccView, delta: Tree)
    ensures
        shows_its_growth(acc, choice_delta(acc, delta)),
{
    let p1 = text_delta(acc, delta, TextField::Content);
    lemma_text_delta(acc, delta, TextField::Content);
    let f2 = |a: AccView| text_delta(a, delta, TextField::ReasoningContent);
    lemma_text_delta(p1.acc, delta, TextField::ReasoningContent);
    lemma_continued(acc, p1, f2);
    let p2 = continued(p1, f2);
    let f3 = |a: AccView| text_delta(a, delta, TextField::Reasoning);
    lemma_text_delta(p2.acc, delta, TextField::Reasoning);
    lemma_continued(acc, p2, f3);
    let p3 = continued(p2, f3);
    let f4 = |a: AccView| details_delta(a, delta);
    lemma_shown_none(p3.acc);
    if let Some(Tree::Array(details)) = delta.present("reasoning_details"@) {
        lemma_details_in_turn(p3.acc, delta, details);
    }
    assert(shows_its_growth(p3.acc, f4(p3.acc)));
    lemma_continued(acc, p3, f4);
    let p4 = continued(p3, f4);
    let f5 = |a: AccView| annotations_delta(a, delta);
    lemma_shown_none(p4.acc);
    assert(shows_its_growth(p4.acc, f5(p4.acc)));
    lemma_continued(acc, p4, f5);
    let p5 = continued(p4, f5);
    let f6 = |a: AccView| tools_delta(a, delta);
    lemma_shown_none(p5.acc);
    if let Some(Tree::Array(calls)) = delta.present("tool_calls"@) {
        lemma_tools_in_turn(p5.acc, calls);
    }
    assert(shows_its_growth(p5.acc, f6(p5.acc)));
    lemma_continued(acc, p5, f6);
}

proof fn lemma_choice_step(acc: AccView, choice: Tree)
    ensures
        shows_its_growth(acc, choice_step(acc, choice)),
{
    lemma_shown_none(acc);
    if choice.field("index"@).as_unsigned() == Some(0u64) {
        let seen = AccView { seen_choice: true, ..acc };
        let reason = choice.field("finish_reason"@).as_text();
        let finished = match reason {
            Some(text) => AccView { finish: Some(text), ..seen },
            None => seen,
        };
        lemma_shown_none(seen);
        lemma_shown_none(finished);
        if let Tree::Object(fields) = choice.field("delta"@) {
            lemma_choice_delta(finished, Tree::Object(fields));
        }
    }
}

proof fn lemma_choices_in_turn(acc: AccView, choices: Seq<Tree>)
    ensures
        shows_its_growth(acc, choices_in_turn(acc, choices)),
    decreases choices.len(),
{
    lemma_shown_none(acc);
    if choices.len() > 0 {
        let before = choices_in_turn(acc, choices.drop_last());
        lemma_choices_in_turn(acc, choices.drop_last());
        lemma_choice_step(before.acc, choices.last());
        lemma_continued(acc, before, |a: AccView| choice_step(a, choices.last()));
    }
}

/// What a listener was shown is what the response holds: every chunk makes the content grow by
/// exactly the text of its text deltas.
pub proof fn shown_text_is_the_content(acc: AccView, chunk: Tree)
    ensures
        shows_its_growth(acc, chunk_step(acc, chunk)),
{
    lemma_shown_none(acc);
    if let Tree::Object(fields) = chunk {
        let next = AccView {
            metadata: crate::streaming::accumulator::metadata_with(acc.metadata, fields),
            ..acc
        };
        lemma_shown_none(next);
        if let Tree::Array(choices) = chunk.field("choices"@) {
            lemma_choices_in_turn(next, choices);
        }
    }
}

/// What some chunks do one after the other, up to the first that fails.
pub open spec fn pushed_in_turn(acc: AccView, chunks: Seq<Tree>) -> Progress
    decreases chunks.len(),
{
    if chunks.len() == 0 {
        unmoved(acc)
    } else {
        continued(
            pushed_in_turn(acc, chunks.drop_last()),
            |a: AccView| push_step(a, chunks.last()),
        )
    }
}

proof fn lemma_pushed_in_turn(acc: AccView, chunks: Seq<Tree>)
    ensures
        shows_its_growth(acc, pushed_in_turn(acc, chunks)),
    decreases chunks.len(),
{
    lemma_shown_none(acc);
    if chunks.len() > 0 {
        let before = pushed_in_turn(acc, chunks.drop_last());
        lemma_pushed_in_turn(acc, chunks.drop_last());
        lemma_shown_none(before.acc);
        shown_text_is_the_content(before.acc, chunks.last());
        lemma_continued(acc, before, |a: AccView| push_step(a, chunks.last()));
    }
}

/// Over a whole stream, the text deltas that a listener was shown, joined, are the content of the
/// assembled message.
pub proof fn a_stream_shows_the_whole_message(chunks: Seq<Tree>)
    ensures
        ({
            let p = pushed_in_turn(AccView::initial(), chunks);
            &&& content_so_far(p.acc) == shown(p.events)
            &&& p.acc.content is Some ==> Tree::Object(message_fields(p.acc)).get("content"@)
                == Some(Tree::Str(shown(p.events)))
        }),
{
    let p = pushed_in_turn(AccView::initial(), chunks);
    lemma_pushed_in_turn(AccView::initial(), chunks);
    assert(content_so_far(AccView::initial()) + shown(p.events) =~= shown(p.events));
    if p.acc.content is Some {
        assert(message_fields(p.acc)[0] == ("content"@, Tree::Str(p.acc.content->0)));
    }
}

// ---------------------------------------------------------------------------------------------
// Tool calls
// ---------------------------------------------------------------------------------------------

/// Whether indexes rise.
pub open spec fn rising<T>(slots: Seq<(u64, T)>) -> bool {
    forall|i: int, j: int| 0 <= i < j < slots.len() ==> (#[trigger] slots[i]).0 < (#[trigger]
        slots[j]).0
}

/// Every slot before the position of an index has a smaller index, and the one there has not.
pub proof fn lemma_slot_position_bounds<T>(slots: Seq<(u64, T)>, index: u64)
    ensures
        0 <= slot_position(slots, index) <= slots.len(),
        forall|i: int| 0 <= i < slot_position(slots, index) ==> (#[trigger] slots[i]).0 < index,
        slot_position(slots, index) < slots.len() ==> slots[slot_position(slots, index)].0 >= index,
    decreases slots.len(),
{
    if slots.len() > 0 && slots[0].0 < index {
        let rest = slots.drop_first();
        lemma_slot_position_bounds(rest, index);
        let k = slot_position(rest, index);
        assert forall|i: int| 0 <= i < k + 1 implies (#[trigger] slots[i]).0 < index by {
            if i > 0 {
                assert(rest[i - 1].0 < index);
            }
        }
        if k < rest.len() {
            assert(rest[k] == slots[k + 1]);
        }
    }
}

/// Calls and details are kept in the order of their indexes, each index once, in whatever order
/// their deltas arrive.
pub proof fn slots_stay_in_order<T>(slots: Seq<(u64, T)>, index: u64, x: T)
    requires
        rising(slots),
    ensures
        rising(slot_put(slots, index, x)),
{
    lemma_slot_position_bounds(slots, index);
    let k = slot_position(slots, index);
    let after = slot_put(slots, index, x);
    assert forall|i: int, j: int| 0 <= i < j < after.len() implies (#[trigger] after[i]).0 < (
    #[trigger] after[j]).0 by {
        if k < slots.len() && slots[k].0 == index {
            assert(slots[i].0 < slots[j].0);
        } else {
            if j < k {
                assert(slots[i].0 < slots[j].0);
            } else if j == k {
                assert(slots[i].0 < index);
            } else if i < k {
                assert(slots[i].0 < slots[j - 1].0);
            } else if i == k {
                assert(slots[k].0 >= index);
                if j - 1 > k {
                    assert(slots[k].0 < slots[j - 1].0);
                }
            } else {
                assert(slots[i - 1].0 < slots[j - 1].0);
            }
        }
    }
}

/// A call that a completed response may hold.
pub open spec fn valid_call(call: CallView) -> bool {
    &&& call.id.len() > 0
    &&& call.name.len() > 0
    &&& call.kind == "function"@
    &&& parsed_json(call.arguments) matches Ok(json) && json.shape is Object
}

proof fn lemma_calls_error(tools: Seq<(u64, SlotView)>, n: int, k: int)
    requires
        0 <= k < n <= tools.len(),
        calls_error(tools, n) is None,
    ensures
        call_error(tools, k) is None,
    decreases n,
{
    if k < n - 1 {
        lemma_calls_error(tools, n - 1, k);
    }
}

/// Every tool call of a completed response is whole: it has an id of its own, names a function,
/// and its arguments are a JSON object.
pub proof fn completed_calls_are_valid(acc: AccView, k: int)
    requires
        finish_error(acc) is None,
        0 <= k < acc.tools.len(),
    ensures
        slot_call(acc.tools[k].1) matches Ok(call) && valid_call(call) && forall|j: int|
            0 <= j < k ==> (#[trigger] acc.tools[j]).1.id != Some(call.id),
{
    lemma_calls_error(acc.tools, acc.tools.len() as int, k);
    let call = slot_call(acc.tools[k].1)->Ok_0;
    assert forall|j: int| 0 <= j < k implies (#[trigger] acc.tools[j]).1.id != Some(call.id) by {
        if acc.tools[j].1.id == Some(call.id) {
            assert(id_taken(acc.tools, k, call.id));
        }
    }
}

/// A response that stopped to call tools holds a tool call.
pub proof fn a_tool_stop_has_tool_calls(acc: AccView)
    requires
        finish_error(acc) is None,
        acc.finish == Some("tool_calls"@),
    ensures
        acc.tools.len() > 0,
{
}

} // verus!
