//! What holds of the deltas of streamed responses: where each part of a delta goes, and what is
//! left alone.

use vstd::prelude::*;

use crate::error::ErrorView;
use crate::json::parsed_json;
use crate::json_value::rendered;
use crate::streaming::accumulator::{annotations_delta, assembled, call_error, calls_error};
use crate::streaming::accumulator::{choice_delta, choice_step, id_taken};
use crate::streaming::accumulator::{choices_in_turn, continued, detail_delta, detail_fragments};
use crate::streaming::accumulator::{details_delta, function_fragments, slot_delta};
use crate::streaming::accumulator::{details_in_turn, finish_error, fresh_slot, message_fields};
use crate::streaming::accumulator::{metadata_with, push_step, slot_of, slot_position, slot_put};
use crate::streaming::accumulator::{detail_text, text_delta, text_event, tool_delta};
use crate::streaming::accumulator::{tools_delta, tools_in_turn};
use crate::streaming::accumulator::{AccView, SlotView, TextField};
use crate::streaming::event::StreamView;
use crate::streaming::laws::{lemma_slot_position_bounds, rising, slots_stay_in_order};
use crate::streaming::merge::{merge_fields, merged};
use crate::streaming::text_laws::is_first_choice;
use crate::value::{assigned, assignment_is_read_back, lemma_lookup, lookup, Tree};

verus! {

// ---------------------------------------------------------------------------------------------
// Slots
// ---------------------------------------------------------------------------------------------

/// What is held under an index.
pub open spec fn held<T>(slots: Seq<(u64, T)>, index: u64) -> Option<T> {
    if exists|k: int| 0 <= k < slots.len() && (#[trigger] slots[k]).0 == index {
        Some(slots[choose|k: int| 0 <= k < slots.len() && (#[trigger] slots[k]).0 == index].1)
    } else {
        None
    }
}

proof fn lemma_held<T>(slots: Seq<(u64, T)>, index: u64, fresh: T)
    requires
        rising(slots),
    ensures
        slot_of(slots, index, fresh) == (match held(slots, index) {
            Some(x) => x,
            None => fresh,
        }),
{
    lemma_slot_position_bounds(slots, index);
    let k = slot_position(slots, index);
    if exists|j: int| 0 <= j < slots.len() && (#[trigger] slots[j]).0 == index {
        let j = choose|j: int| 0 <= j < slots.len() && (#[trigger] slots[j]).0 == index;
        if j < k {
            assert(slots[j].0 < index);
        } else if j > k {
            assert(slots[k].0 < slots[j].0);
        }
    } else if k < slots.len() {
        assert(slots[k].0 != index);
    }
}

/// A slot that was put is held under its index, and every other index holds what it held.
pub proof fn slots_hold_what_was_put<T>(slots: Seq<(u64, T)>, index: u64, x: T, other: u64)
    requires
        rising(slots),
    ensures
        rising(slot_put(slots, index, x)),
        held(slot_put(slots, index, x), index) == Some(x),
        other != index ==> held(slot_put(slots, index, x), other) == held(slots, other),
{
    slots_stay_in_order(slots, index, x);
    lemma_slot_position_bounds(slots, index);
    let k = slot_position(slots, index);
    let after = slot_put(slots, index, x);
    assert(after[k] == (index, x));
    let j = choose|j: int| 0 <= j < after.len() && (#[trigger] after[j]).0 == index;
    if j < k {
        assert(after[j].0 < after[k].0);
    } else if j > k {
        assert(after[k].0 < after[j].0);
    }
    if other != index {
        let replaced = k < slots.len() && slots[k].0 == index;
        if exists|i: int| 0 <= i < slots.len() && (#[trigger] slots[i]).0 == other {
            let i = choose|i: int| 0 <= i < slots.len() && (#[trigger] slots[i]).0 == other;
            let at: int = if replaced || i < k {
                i
            } else {
                i + 1
            };
            assert(after[at] == slots[i]);
            let m = choose|m: int| 0 <= m < after.len() && (#[trigger] after[m]).0 == other;
            if m < at {
                assert(after[m].0 < after[at].0);
            } else if m > at {
                assert(after[at].0 < after[m].0);
            }
        } else if exists|m: int| 0 <= m < after.len() && (#[trigger] after[m]).0 == other {
            let m = choose|m: int| 0 <= m < after.len() && (#[trigger] after[m]).0 == other;
            let at: int = if replaced || m < k {
                m
            } else {
                m - 1
            };
            assert(m != k);
            assert(after[m] == slots[at]);
        }
    }
}

// ---------------------------------------------------------------------------------------------
// Tool calls and reasoning details
// ---------------------------------------------------------------------------------------------

/// The text of a string, where there is one.
pub open spec fn text_or_none(value: Option<Tree>) -> Seq<char> {
    match value {
        Some(Tree::Str(text)) => text,
        _ => seq![],
    }
}

/// The texts that entries carry under a key, joined.
pub open spec fn texts_under(fields: Seq<(Seq<char>, Tree)>, key: Seq<char>) -> Seq<char>
    decreases fields.len(),
{
    if fields.len() == 0 {
        seq![]
    } else {
        texts_under(fields.drop_last(), key) + if fields.last().0 == key {
            text_or_none(Some(fields.last().1))
        } else {
            seq![]
        }
    }
}

/// The entries of an object.
pub open spec fn entries_of(value: Tree) -> Seq<(Seq<char>, Tree)> {
    match value {
        Tree::Object(fields) => fields,
        _ => seq![],
    }
}

/// The last value other than null that entries carry under a key, or else `before`.
pub open spec fn last_under(
    fields: Seq<(Seq<char>, Tree)>,
    key: Seq<char>,
    before: Option<Tree>,
) -> Option<Tree>
    decreases fields.len(),
{
    if fields.len() == 0 {
        before
    } else if fields.last().0 == key && !(fields.last().1 is Null) {
        Some(fields.last().1)
    } else {
        last_under(fields.drop_last(), key, before)
    }
}

proof fn lemma_merged(
    entries: Seq<(Seq<char>, Tree)>,
    fields: Seq<(Seq<char>, Tree)>,
    fragments: Seq<Seq<char>>,
    key: Seq<char>,
)
    requires
        merge_fields(entries, fields, fragments).error is None,
    ensures
        ({
            let after = lookup(merge_fields(entries, fields, fragments).entries, key);
            let before = lookup(entries, key);
            &&& key == "index"@ ==> after == before
            &&& key != "index"@ && fragments.contains(key) ==> text_or_none(after) == text_or_none(
                before,
            ) + texts_under(fields, key)
            &&& key != "index"@ && !fragments.contains(key) ==> after == last_under(
                fields,
                key,
                before,
            )
        }),
    decreases fields.len(),
{
    let before = text_or_none(lookup(entries, key));
    if fields.len() == 0 {
        assert(before + Seq::<char>::empty() =~= before);
    } else {
        let front = merge_fields(entries, fields.drop_last(), fragments);
        assert(front.error is None);
        lemma_merged(entries, fields.drop_last(), fragments, key);
        let (k, value) = fields.last();
        let so_far = text_or_none(lookup(front.entries, key));
        assert(so_far + Seq::<char>::empty() =~= so_far);
        let piece = text_or_none(Some(value));
        assert((before + texts_under(fields.drop_last(), key)) + piece =~= before + (texts_under(
            fields.drop_last(),
            key,
        ) + piece));
        assert(before + texts_under(fields.drop_last(), key) =~= before + (texts_under(
            fields.drop_last(),
            key,
        ) + Seq::<char>::empty()));
        assignment_is_read_back(front.entries, k, value, key);
        if let Tree::Str(text) = value {
            assert(Seq::<char>::empty() + text =~= text);
            if let Some(Tree::Str(earlier)) = lookup(front.entries, k) {
                assignment_is_read_back(front.entries, k, Tree::Str(earlier + text), key);
            }
        }
    }
}

/// A tool call delta goes to the call of its index alone: the pieces of its id, of its function's
/// name and of its arguments are joined to what was there, its type replaces the earlier one, and
/// it is shown as it came.
pub proof fn call_deltas_are_joined(acc: AccView, call: Tree, index: u64, other: u64)
    requires
        rising(acc.tools),
        call.field("index"@) == Tree::Unsigned(index),
        tool_delta(acc, call).error is None,
    ensures
        ({
            let p = tool_delta(acc, call);
            let start = match held(acc.tools, index) {
                Some(slot) => slot,
                None => SlotView { id: None, kind: Tree::Str("function"@), function: seq![] },
            };
            let function = entries_of(call.field("function"@));
            &&& rising(p.acc.tools)
            &&& p.acc == AccView { tools: p.acc.tools, ..acc }
            &&& p.events == seq![StreamView::ToolCallDelta { index, delta: call }]
            &&& other != index ==> held(p.acc.tools, other) == held(acc.tools, other)
            &&& held(p.acc.tools, index) matches Some(slot) && {
                &&& (match slot.id {
                    Some(id) => id,
                    None => seq![],
                }) == (match start.id {
                    Some(id) => id,
                    None => seq![],
                }) + text_or_none(call.get("id"@))
                &&& slot.id is None <==> start.id is None && call.field("id"@) is Null
                &&& text_or_none(lookup(slot.function, "name"@)) == text_or_none(
                    lookup(start.function, "name"@),
                ) + texts_under(function, "name"@)
                &&& text_or_none(lookup(slot.function, "arguments"@)) == text_or_none(
                    lookup(start.function, "arguments"@),
                ) + texts_under(function, "arguments"@)
                &&& slot.kind == (match call.field("type"@) {
                    Tree::Null => start.kind,
                    kind => kind,
                })
            }
        }),
{
    reveal_strlit("name");
    reveal_strlit("arguments");
    reveal_strlit("index");
    assert("name"@.len() == 4 && "arguments"@.len() == 9 && "index"@.len() == 5);
    let start = slot_of(acc.tools, index, fresh_slot());
    lemma_held(acc.tools, index, fresh_slot());
    let step = slot_delta(start, call);
    assert(step.error is None);
    slots_hold_what_was_put(acc.tools, index, step.slot, other);
    assert(function_fragments()[0] == "name"@ && function_fragments()[1] == "arguments"@);
    assert(function_fragments().contains("name"@) && function_fragments().contains("arguments"@));
    if let Some(Tree::Object(fields)) = call.present("function"@) {
        lemma_merged(start.function, fields, function_fragments(), "name"@);
        lemma_merged(start.function, fields, function_fragments(), "arguments"@);
    } else {
        assert(call.field("function"@) is Null);
        let name = text_or_none(lookup(start.function, "name"@));
        let arguments = text_or_none(lookup(start.function, "arguments"@));
        assert(name + Seq::<char>::empty() =~= name);
        assert(arguments + Seq::<char>::empty() =~= arguments);
    }
    let id = match start.id {
        Some(id) => id,
        None => seq![],
    };
    assert(id + Seq::<char>::empty() =~= id);
    if let Some(Tree::Str(more)) = call.get("id"@) {
        assert(Seq::<char>::empty() + more =~= more);
    }
}

/// Whether what entries hold under a key is a text, or nothing.
pub open spec fn text_at(entries: Seq<(Seq<char>, Tree)>, key: Seq<char>) -> bool {
    match lookup(entries, key) {
        None => true,
        Some(Tree::Str(_)) => true,
        Some(_) => false,
    }
}

/// Whether the entries under some keys are texts or nulls.
pub open spec fn texts_or_nulls(fields: Seq<(Seq<char>, Tree)>, keys: Seq<Seq<char>>) -> bool {
    forall|i: int|
        0 <= i < fields.len() && keys.contains((#[trigger] fields[i]).0) ==> fields[i].1 is Null
            || fields[i].1 is Str
}

proof fn lemma_merge_taken(
    entries: Seq<(Seq<char>, Tree)>,
    fields: Seq<(Seq<char>, Tree)>,
    keys: Seq<Seq<char>>,
)
    requires
        forall|k: int| 0 <= k < keys.len() ==> text_at(entries, #[trigger] keys[k]),
        !keys.contains("index"@),
    ensures
        merge_fields(entries, fields, keys).error is None <==> texts_or_nulls(fields, keys),
        merge_fields(entries, fields, keys).error is None ==> forall|k: int|
            0 <= k < keys.len() ==> text_at(
                merge_fields(entries, fields, keys).entries,
                #[trigger] keys[k],
            ),
    decreases fields.len(),
{
    if fields.len() > 0 {
        let front = fields.drop_last();
        let (key, value) = fields.last();
        lemma_merge_taken(entries, front, keys);
        let before = merge_fields(entries, front, keys);
        assert(fields[fields.len() - 1] == (key, value));
        if texts_or_nulls(fields, keys) {
            assert forall|i: int| 0 <= i < front.len() && keys.contains(
                (#[trigger] front[i]).0,
            ) implies front[i].1 is Null || front[i].1 is Str by {
                assert(fields[i] == front[i]);
            }
        }
        if before.error is None {
            if keys.contains(key) {
                let k = choose|k: int| 0 <= k < keys.len() && keys[k] == key;
                assert(text_at(before.entries, keys[k]));
            }
            let after = merge_fields(entries, fields, keys);
            if after.error is None {
                assert forall|i: int| 0 <= i < fields.len() && keys.contains(
                    (#[trigger] fields[i]).0,
                ) implies fields[i].1 is Null || fields[i].1 is Str by {
                    if i < front.len() {
                        assert(front[i] == fields[i]);
                    }
                }
                assert forall|k: int| 0 <= k < keys.len() implies text_at(
                    after.entries,
                    #[trigger] keys[k],
                ) by {
                    assert(text_at(before.entries, keys[k]));
                    assignment_is_read_back(before.entries, key, value, keys[k]);
                    if let Tree::Str(text) = value {
                        if let Some(Tree::Str(earlier)) = lookup(before.entries, key) {
                            assignment_is_read_back(
                                before.entries,
                                key,
                                Tree::Str(earlier + text),
                                keys[k],
                            );
                        }
                    }
                }
            }
        }
    }
}

/// A tool call delta is taken where it has an index, its id is a text where it has one, and its
/// function an object with texts for its name and its arguments; otherwise it is refused.
pub proof fn whole_call_deltas_are_taken(acc: AccView, call: Tree)
    requires
        rising(acc.tools),
        forall|i: int|
            0 <= i < acc.tools.len() ==> text_at((#[trigger] acc.tools[i]).1.function, "name"@)
                && text_at(acc.tools[i].1.function, "arguments"@),
    ensures
        tool_delta(acc, call).error is None <==> {
            &&& call.field("index"@) is Unsigned
            &&& call.field("id"@) is Null || call.field("id"@) is Str
            &&& match call.field("function"@) {
                Tree::Null => true,
                Tree::Object(fields) => texts_or_nulls(fields, seq!["name"@, "arguments"@]),
                _ => false,
            }
        },
        !(call.field("index"@) is Unsigned) ==> tool_delta(acc, call).error == Some(
            ErrorView::Stream("tool delta has no index"@),
        ),
        call.field("index"@) is Unsigned && !(call.field("id"@) is Null) && !(call.field("id"@)
            is Str) ==> tool_delta(acc, call).error == Some(ErrorView::Stream("invalid tool id"@)),
{
    reveal_strlit("name");
    reveal_strlit("arguments");
    reveal_strlit("index");
    assert("name"@.len() == 4 && "arguments"@.len() == 9 && "index"@.len() == 5);
    let keys = function_fragments();
    assert(keys =~= seq!["name"@, "arguments"@]);
    assert(keys[0] == "name"@ && keys[1] == "arguments"@);
    if let Tree::Unsigned(index) = call.field("index"@) {
        let start = slot_of(acc.tools, index, fresh_slot());
        lemma_slot_position_bounds(acc.tools, index);
        assert(text_at(start.function, "name"@) && text_at(start.function, "arguments"@));
        assert forall|k: int| 0 <= k < keys.len() implies text_at(
            start.function,
            #[trigger] keys[k],
        ) by {
            assert(k == 0 || k == 1);
        }
        if let Tree::Object(fields) = call.field("function"@) {
            lemma_merge_taken(start.function, fields, keys);
        }
    }
}

/// A reasoning detail is taken where it is an object with texts for its text, summary, data and
/// signature; otherwise it is refused.
pub proof fn whole_detail_deltas_are_taken(acc: AccView, delta: Tree, detail: Tree)
    requires
        rising(acc.details),
        forall|i: int|
            0 <= i < acc.details.len() ==> text_at((#[trigger] acc.details[i]).1, "text"@)
                && text_at(acc.details[i].1, "summary"@) && text_at(acc.details[i].1, "data"@)
                && text_at(acc.details[i].1, "signature"@),
    ensures
        detail_delta(acc, delta, detail).error is None <==> (detail matches Tree::Object(fields)
            && texts_or_nulls(fields, seq!["text"@, "summary"@, "data"@, "signature"@])),
{
    reveal_strlit("text");
    reveal_strlit("summary");
    reveal_strlit("data");
    reveal_strlit("signature");
    reveal_strlit("index");
    let keys = detail_fragments();
    assert(keys =~= seq!["text"@, "summary"@, "data"@, "signature"@]);
    assert("text"@.len() == 4 && "summary"@.len() == 7 && "data"@.len() == 4 && "signature"@.len()
        == 9 && "index"@.len() == 5);
    let index: u64 = match detail.field("index"@) {
        Tree::Unsigned(index) => index,
        _ => 0,
    };
    let start = slot_of(acc.details, index, seq![]);
    lemma_slot_position_bounds(acc.details, index);
    assert(text_at(start, "text"@) && text_at(start, "summary"@) && text_at(start, "data"@)
        && text_at(start, "signature"@));
    assert forall|k: int| 0 <= k < keys.len() implies text_at(start, #[trigger] keys[k]) by {
        assert(k == 0 || k == 1 || k == 2 || k == 3);
    }
    if let Tree::Object(fields) = detail {
        lemma_merge_taken(start, fields, keys);
    }
}

/// A reasoning detail goes to the slot of its index alone, the first where it names none: the
/// pieces of its text, summary, data and signature are joined to what was there, and any other
/// field replaces the earlier one.
pub proof fn detail_deltas_are_joined(
    acc: AccView,
    delta: Tree,
    detail: Tree,
    other: u64,
    key: Seq<char>,
)
    requires
        rising(acc.details),
        detail_delta(acc, delta, detail).error is None,
        key != "index"@,
    ensures
        ({
            let p = detail_delta(acc, delta, detail);
            let index: u64 = match detail.field("index"@) {
                Tree::Unsigned(index) => index,
                _ => 0,
            };
            let before = match held(acc.details, index) {
                Some(entries) => lookup(entries, key),
                None => None,
            };
            &&& rising(p.acc.details)
            &&& p.acc == AccView { details: p.acc.details, ..acc }
            &&& other != index ==> held(p.acc.details, other) == held(acc.details, other)
            &&& held(p.acc.details, index) matches Some(entries) && (if key == "text"@ || key
                == "summary"@ || key == "data"@ || key == "signature"@ {
                text_or_none(lookup(entries, key)) == text_or_none(before) + texts_under(
                    entries_of(detail),
                    key,
                )
            } else {
                lookup(entries, key) == last_under(entries_of(detail), key, before)
            })
        }),
{
    let index: u64 = match detail.field("index"@) {
        Tree::Unsigned(index) => index,
        _ => 0,
    };
    let start = slot_of(acc.details, index, seq![]);
    lemma_held(acc.details, index, seq![]);
    let m = merged(start, detail, detail_fragments());
    assert(m.error is None);
    slots_hold_what_was_put(acc.details, index, m.entries, other);
    let f = detail_fragments();
    assert(f[0] == "text"@ && f[1] == "summary"@ && f[2] == "data"@ && f[3] == "signature"@);
    assert(f.contains(key) <==> key == "text"@ || key == "summary"@ || key == "data"@ || key
        == "signature"@);
    lemma_merged(start, entries_of(detail), f, key);
}

// ---------------------------------------------------------------------------------------------
// Choices
// ---------------------------------------------------------------------------------------------

/// The items of an array.
pub open spec fn items_of(value: Tree) -> Seq<Tree> {
    match value {
        Tree::Array(items) => items,
        _ => seq![],
    }
}

/// The event that tells of a text, where there is one to tell.
pub open spec fn told(text: Seq<char>, event: StreamView) -> Seq<StreamView> {
    if text.len() > 0 {
        seq![event]
    } else {
        seq![]
    }
}

/// The reasoning that details show: the text of each, or else its summary.
pub open spec fn details_told(details: Seq<Tree>) -> Seq<StreamView>
    decreases details.len(),
{
    if details.len() == 0 {
        seq![]
    } else {
        let text = match (details.last().field("text"@), details.last().field("summary"@)) {
            (Tree::Str(text), _) => text,
            (_, Tree::Str(summary)) => summary,
            _ => seq![],
        };
        details_told(details.drop_last()) + told(text, StreamView::ReasoningDelta { text })
    }
}

proof fn lemma_details_told(acc: AccView, delta: Tree, details: Seq<Tree>)
    requires
        details_in_turn(acc, delta, details).error is None,
    ensures
        details_in_turn(acc, delta, details).events == (if text_or_none(
            delta.get("reasoning"@),
        ).len() > 0 || text_or_none(delta.get("reasoning_content"@)).len() > 0 {
            seq![]
        } else {
            details_told(details)
        }),
    decreases details.len(),
{
    if details.len() > 0 {
        let before = details_in_turn(acc, delta, details.drop_last());
        assert(before.error is None);
        lemma_details_told(acc, delta, details.drop_last());
        let detail = details.last();
        let after = detail_delta(before.acc, delta, detail);
        assert(after.error is None);
        assert(Seq::<StreamView>::empty() + Seq::<StreamView>::empty() =~= seq![]);
        assert(after.events == text_event(TextField::Reasoning, detail_text(delta, detail)));
    }
}

proof fn lemma_tools_told(acc: AccView, calls: Seq<Tree>)
    requires
        tools_in_turn(acc, calls).error is None,
    ensures
        tools_in_turn(acc, calls).events == calls.map_values(
            |c: Tree|
                StreamView::ToolCallDelta { index: c.field("index"@)->Unsigned_0, delta: c },
        ),
    decreases calls.len(),
{
    let f = |c: Tree|
        StreamView::ToolCallDelta { index: c.field("index"@)->Unsigned_0, delta: c };
    if calls.len() > 0 {
        let before = tools_in_turn(acc, calls.drop_last());
        assert(before.error is None);
        lemma_tools_told(acc, calls.drop_last());
        let after = tool_delta(before.acc, calls.last());
        assert(after.error is None);
        assert(after.events =~= seq![f(calls.last())]);
        assert(calls.map_values(f) =~= calls.drop_last().map_values(f) + seq![f(calls.last())]);
    } else {
        assert(calls.map_values(f) =~= seq![]);
    }
}

proof fn lemma_tools_apart(a: AccView, b: AccView, calls: Seq<Tree>)
    requires
        a.tools == b.tools,
    ensures
        tools_in_turn(a, calls).acc == (AccView { tools: tools_in_turn(b, calls).acc.tools, ..a }),
        tools_in_turn(a, calls).error == tools_in_turn(b, calls).error,
    decreases calls.len(),
{
    if calls.len() > 0 {
        lemma_tools_apart(a, b, calls.drop_last());
    }
}

proof fn lemma_details_apart(a: AccView, b: AccView, delta: Tree, details: Seq<Tree>)
    requires
        a.details == b.details,
    ensures
        details_in_turn(a, delta, details).acc == (AccView {
            details: details_in_turn(b, delta, details).acc.details,
            ..a
        }),
        details_in_turn(a, delta, details).error == details_in_turn(b, delta, details).error,
    decreases details.len(),
{
    if details.len() > 0 {
        lemma_details_apart(a, b, delta, details.drop_last());
    }
}

/// Choices other than the first change nothing and show nothing.
pub proof fn other_choices_change_nothing(acc: AccView, choice: Tree)
    requires
        !is_first_choice(choice),
    ensures
        ({
            let p = choice_step(acc, choice);
            p.acc == acc && p.events.len() == 0 && p.error is None
        }),
{
}

/// The delta of the first choice is taken whole, whatever else it holds: its annotations are
/// joined to the earlier ones, its reasoning details and its tool calls go to their slots, its
/// finish reason is kept, and all of it is shown in order.
pub proof fn deltas_are_taken_whole(acc: AccView, choice: Tree)
    requires
        is_first_choice(choice),
        choice_step(acc, choice).error is None,
    ensures
        ({
            let p = choice_step(acc, choice);
            let delta = choice.field("delta"@);
            let details = items_of(delta.field("reasoning_details"@));
            let calls = items_of(delta.field("tool_calls"@));
            let content = text_or_none(delta.get("content"@));
            let reasoning_content = text_or_none(delta.get("reasoning_content"@));
            let reasoning = text_or_none(delta.get("reasoning"@));
            &&& p.acc.seen_choice
            &&& p.acc.metadata == acc.metadata
            &&& p.acc.finish == (match choice.field("finish_reason"@) {
                Tree::Str(reason) => Some(reason),
                _ => acc.finish,
            })
            &&& p.acc.annotations == (match delta.field("annotations"@) {
                Tree::Array(items) => Some(
                    (match acc.annotations {
                        Some(earlier) => earlier,
                        None => seq![],
                    }) + items,
                ),
                _ => acc.annotations,
            })
            &&& p.acc.details == details_in_turn(acc, delta, details).acc.details
            &&& p.acc.tools == tools_in_turn(acc, calls).acc.tools
            &&& p.events == told(content, StreamView::TextDelta { text: content }) + told(
                reasoning_content,
                StreamView::ReasoningDelta { text: reasoning_content },
            ) + told(reasoning, StreamView::ReasoningDelta { text: reasoning }) + (if reasoning.len()
                > 0 || reasoning_content.len() > 0 {
                seq![]
            } else {
                details_told(details)
            }) + calls.map_values(
                |c: Tree|
                    StreamView::ToolCallDelta { index: c.field("index"@)->Unsigned_0, delta: c },
            )
        }),
{
    let seen = AccView { seen_choice: true, ..acc };
    let finished = match choice.field("finish_reason"@).as_text() {
        Some(text) => AccView { finish: Some(text), ..seen },
        None => seen,
    };
    let delta = choice.field("delta"@);
    let none = Seq::<StreamView>::empty();
    let details = items_of(delta.field("reasoning_details"@));
    let calls = items_of(delta.field("tool_calls"@));
    let f = |c: Tree|
        StreamView::ToolCallDelta { index: c.field("index"@)->Unsigned_0, delta: c };
    assert(Seq::<Tree>::empty().map_values(f) =~= none);
    assert(none + none + none + none + none =~= none);
    if let Tree::Object(_) = delta {
        let f2 = |a: AccView| text_delta(a, delta, TextField::ReasoningContent);
        let f3 = |a: AccView| text_delta(a, delta, TextField::Reasoning);
        let f4 = |a: AccView| details_delta(a, delta);
        let f5 = |a: AccView| annotations_delta(a, delta);
        let f6 = |a: AccView| tools_delta(a, delta);
        let p1 = text_delta(finished, delta, TextField::Content);
        let p2 = continued(p1, f2);
        let p3 = continued(p2, f3);
        let p4 = continued(p3, f4);
        let p5 = continued(p4, f5);
        let p6 = continued(p5, f6);
        assert(choice_delta(finished, delta) == p6);
        assert(p5.error is None && p4.error is None && p3.error is None && p2.error is None
            && p1.error is None);
        lemma_details_apart(p3.acc, acc, delta, details);
        lemma_tools_apart(p5.acc, acc, calls);
        lemma_details_told(p3.acc, delta, details);
        lemma_tools_told(p5.acc, calls);
        if let Some(Tree::Array(items)) = delta.present("annotations"@) {
            assert(Seq::<Tree>::empty() + items =~= items);
        }
        let e4 = f4(p3.acc).events;
        let e5 = f5(p4.acc).events;
        let e6 = f6(p5.acc).events;
        assert(e5 =~= none);
        assert(p5.events =~= p4.events);
        assert(e4 == details_in_turn(p3.acc, delta, details).events);
        assert(e6 == tools_in_turn(p5.acc, calls).events);
    }
}

/// Calls, details and choices that come in one list are taken one after the other, up to the first
/// that cannot be taken.
pub proof fn lists_are_taken_in_turn(acc: AccView, choices: Seq<Tree>, delta: Tree)
    requires
        choices.len() > 0,
    ensures
        ({
            let before = choices_in_turn(acc, choices.drop_last());
            let last = choice_step(before.acc, choices.last());
            let p = choices_in_turn(acc, choices);
            if before.error is Some {
                p == before
            } else {
                p.acc == last.acc && p.events == before.events + last.events && p.error
                    == last.error
            }
        }),
        ({
            let before = tools_in_turn(acc, choices.drop_last());
            let last = tool_delta(before.acc, choices.last());
            let p = tools_in_turn(acc, choices);
            if before.error is Some {
                p == before
            } else {
                p.acc == last.acc && p.events == before.events + last.events && p.error
                    == last.error
            }
        }),
        ({
            let before = details_in_turn(acc, delta, choices.drop_last());
            let last = detail_delta(before.acc, delta, choices.last());
            let p = details_in_turn(acc, delta, choices);
            if before.error is Some {
                p == before
            } else {
                p.acc == last.acc && p.events == before.events + last.events && p.error
                    == last.error
            }
        }),
{
}

// ---------------------------------------------------------------------------------------------
// Chunks
// ---------------------------------------------------------------------------------------------

proof fn lemma_metadata(
    metadata: Seq<(Seq<char>, Tree)>,
    fields: Seq<(Seq<char>, Tree)>,
    key: Seq<char>,
)
    ensures
        ({
            let after = lookup(metadata_with(metadata, fields), key);
            &&& key == "choices"@ || key == "object"@ ==> after == lookup(metadata, key)
            &&& (forall|i: int| 0 <= i < fields.len() ==> (#[trigger] fields[i]).0 != key) ==> after
                == lookup(metadata, key)
            &&& key != "choices"@ && key != "object"@ ==> forall|i: int|
                0 <= i < fields.len() && (#[trigger] fields[i]).0 == key && (forall|j: int|
                    i < j < fields.len() ==> (#[trigger] fields[j]).0 != key) ==> after == Some(
                    fields[i].1,
                )
        }),
    decreases fields.len(),
{
    if fields.len() > 0 {
        let front = fields.drop_last();
        lemma_metadata(metadata, front, key);
        let before = metadata_with(metadata, front);
        let (k, value) = fields.last();
        assignment_is_read_back(before, k, value, key);
        assert(fields[fields.len() - 1] == (k, value));
        assert(forall|i: int| 0 <= i < front.len() ==> (#[trigger] front[i]) == fields[i]);
        let after = lookup(metadata_with(metadata, fields), key);
        if key != "choices"@ && key != "object"@ {
            assert forall|i: int|
                0 <= i < fields.len() && (#[trigger] fields[i]).0 == key && (forall|j: int|
                    i < j < fields.len() ==> (#[trigger] fields[j]).0 != key) implies after == Some(
                fields[i].1,
            ) by {
                if i < front.len() {
                    assert(front[i].0 == key);
                }
            }
        }
        if forall|i: int| 0 <= i < fields.len() ==> (#[trigger] fields[i]).0 != key {
            assert forall|i: int| 0 <= i < front.len() implies (#[trigger] front[i]).0 != key by {
                assert(fields[i].0 != key);
            }
        }
    }
}

/// Each field of a chunk but its choices and its object name is kept for the response, a later
/// value in place of an earlier one; a field that the chunk lacks stays as it was.
pub proof fn fields_of_chunks_are_kept(
    acc: AccView,
    fields: Seq<(Seq<char>, Tree)>,
    key: Seq<char>,
)
    requires
        Tree::Object(fields).field("error"@) is Null,
        push_step(acc, Tree::Object(fields)).error is None,
    ensures
        ({
            let after = lookup(push_step(acc, Tree::Object(fields)).acc.metadata, key);
            &&& key == "choices"@ || key == "object"@ ==> after == lookup(acc.metadata, key)
            &&& (forall|i: int| 0 <= i < fields.len() ==> (#[trigger] fields[i]).0 != key) ==> after
                == lookup(acc.metadata, key)
            &&& key != "choices"@ && key != "object"@ ==> forall|i: int|
                0 <= i < fields.len() && (#[trigger] fields[i]).0 == key && (forall|j: int|
                    i < j < fields.len() ==> (#[trigger] fields[j]).0 != key) ==> after == Some(
                    fields[i].1,
                )
        }),
{
    lemma_metadata(acc.metadata, fields, key);
    let next = AccView { metadata: metadata_with(acc.metadata, fields), ..acc };
    lemma_choices_keep_metadata(next, items_of(Tree::Object(fields).field("choices"@)));
}

proof fn lemma_choices_keep_metadata(acc: AccView, choices: Seq<Tree>)
    requires
        choices_in_turn(acc, choices).error is None,
    ensures
        choices_in_turn(acc, choices).acc.metadata == acc.metadata,
    decreases choices.len(),
{
    if choices.len() > 0 {
        let before = choices_in_turn(acc, choices.drop_last());
        assert(before.error is None);
        lemma_choices_keep_metadata(acc, choices.drop_last());
        if is_first_choice(choices.last()) {
            deltas_are_taken_whole(before.acc, choices.last());
        } else {
            other_choices_change_nothing(before.acc, choices.last());
        }
    }
}

/// A chunk is taken by its choices, in order; one that reports an error, that is no object, or
/// that has no list of choices is refused, and a provider's error is told as it came.
pub proof fn chunks_are_taken_by_their_choices(acc: AccView, chunk: Tree)
    ensures
        ({
            let p = push_step(acc, chunk);
            let error = chunk.field("error"@);
            if !(error is Null) {
                p.acc == acc && p.events.len() == 0 && p.error == Some(
                    ErrorView::Stream("provider error: "@ + rendered(error)),
                )
            } else if !(chunk is Object) {
                p.acc == acc && p.events.len() == 0 && p.error == Some(
                    ErrorView::Stream("expected a chunk object"@),
                )
            } else if !(chunk.field("choices"@) is Array) {
                p.events.len() == 0 && p.error == Some(
                    ErrorView::Stream("chunk has no choices array"@),
                )
            } else {
                exists|metadata: Seq<(Seq<char>, Tree)>|
                    p == #[trigger] choices_in_turn(
                        AccView { metadata, ..acc },
                        items_of(chunk.field("choices"@)),
                    )
            }
        }),
{
    if let Tree::Object(fields) = chunk {
        let metadata = metadata_with(acc.metadata, fields);
        if chunk.field("error"@) is Null && chunk.field("choices"@) is Array {
            assert(push_step(acc, chunk) == choices_in_turn(
                AccView { metadata, ..acc },
                items_of(chunk.field("choices"@)),
            ));
        }
    }
}

/// A first choice that reports a generation error, or whose delta is neither null nor an object,
/// is refused; so is a text that is no string, and annotations, details and calls that are no
/// lists.
pub proof fn malformed_deltas_are_refused(acc: AccView, choice: Tree)
    requires
        is_first_choice(choice),
    ensures
        choice.field("finish_reason"@) == Tree::Str("error"@) ==> choice_step(acc, choice).error
            == Some(ErrorView::Stream("provider reported a generation error"@)),
        choice.field("finish_reason"@) != Tree::Str("error"@) && !(choice.field("delta"@) is Null)
            && !(choice.field("delta"@) is Object) ==> choice_step(acc, choice).error == Some(
            ErrorView::Stream("invalid choice delta"@),
        ),
        choice_step(acc, choice).error is None ==> ({
            let delta = choice.field("delta"@);
            let texts = |key: Seq<char>| delta.field(key) is Null || delta.field(key) is Str;
            let lists = |key: Seq<char>| delta.field(key) is Null || delta.field(key) is Array;
            &&& texts("content"@) && texts("reasoning_content"@) && texts("reasoning"@)
            &&& lists("reasoning_details"@) && lists("annotations"@) && lists("tool_calls"@)
        }),
{
}

/// A first choice is taken where it reports no error and its delta is null, or an object whose
/// texts are texts, whose annotations are a list, and whose details and calls are lists that can
/// be taken, whatever else it holds.
pub proof fn whole_deltas_are_taken(acc: AccView, choice: Tree)
    requires
        is_first_choice(choice),
        choice.field("finish_reason"@) != Tree::Str("error"@),
    ensures
        ({
            let delta = choice.field("delta"@);
            let texts = |key: Seq<char>| delta.field(key) is Null || delta.field(key) is Str;
            let lists = |key: Seq<char>| delta.field(key) is Null || delta.field(key) is Array;
            choice_step(acc, choice).error is None <==> {
                ||| delta is Null
                ||| delta is Object && texts("content"@) && texts("reasoning_content"@) && texts(
                    "reasoning"@,
                ) && lists("reasoning_details"@) && lists("annotations"@) && lists("tool_calls"@)
                    && details_in_turn(
                    acc,
                    delta,
                    items_of(delta.field("reasoning_details"@)),
                ).error is None && tools_in_turn(acc, items_of(delta.field("tool_calls"@))).error
                    is None
            }
        }),
{
    let seen = AccView { seen_choice: true, ..acc };
    let finished = match choice.field("finish_reason"@).as_text() {
        Some(text) => AccView { finish: Some(text), ..seen },
        None => seen,
    };
    let delta = choice.field("delta"@);
    let details = items_of(delta.field("reasoning_details"@));
    let calls = items_of(delta.field("tool_calls"@));
    if let Tree::Object(_) = delta {
        let f2 = |a: AccView| text_delta(a, delta, TextField::ReasoningContent);
        let f3 = |a: AccView| text_delta(a, delta, TextField::Reasoning);
        let f4 = |a: AccView| details_delta(a, delta);
        let f5 = |a: AccView| annotations_delta(a, delta);
        let f6 = |a: AccView| tools_delta(a, delta);
        let p1 = text_delta(finished, delta, TextField::Content);
        let p2 = continued(p1, f2);
        let p3 = continued(p2, f3);
        let p4 = continued(p3, f4);
        let p5 = continued(p4, f5);
        let p6 = continued(p5, f6);
        assert(choice_delta(finished, delta) == p6);
        assert(p3.acc.details == acc.details && p3.acc.tools == acc.tools);
        lemma_details_apart(p3.acc, acc, delta, details);
        assert(p5.acc.tools == acc.tools);
        lemma_tools_apart(p5.acc, acc, calls);
    }
}

// ---------------------------------------------------------------------------------------------
// Responses
// ---------------------------------------------------------------------------------------------

/// The response is a chat completion with one choice, which holds the finish reason and the
/// message; every other field is the one that the chunks gave.
pub proof fn responses_hold_one_choice(acc: AccView, key: Seq<char>)
    requires
        acc.finish is Some,
        key != "object"@,
        key != "choices"@,
    ensures
        assembled(acc).get("object"@) == Some(Tree::Str("chat.completion"@)),
        assembled(acc).get(key) == lookup(acc.metadata, key),
        assembled(acc).get("choices"@) matches Some(Tree::Array(choices)) && choices.len() == 1 && {
            &&& choices[0].get("index"@) == Some(Tree::Unsigned(0))
            &&& choices[0].get("finish_reason"@) == Some(Tree::Str(acc.finish->0))
            &&& choices[0].get("message"@) == Some(Tree::Object(message_fields(acc)))
        },
{
    reveal_strlit("object");
    reveal_strlit("choices");
    reveal_strlit("index");
    reveal_strlit("finish_reason");
    reveal_strlit("message");
    assert("object"@.len() == 6 && "choices"@.len() == 7 && "index"@.len() == 5
        && "finish_reason"@.len() == 13 && "message"@.len() == 7);
    let named = assigned(acc.metadata, "object"@, Tree::Str("chat.completion"@));
    let entries = seq![
        ("index"@, Tree::Unsigned(0)),
        ("finish_reason"@, Tree::Str(acc.finish->0)),
        ("message"@, Tree::Object(message_fields(acc))),
    ];
    let list = Tree::Array(seq![Tree::Object(entries)]);
    assert("object"@ != "choices"@);
    assignment_is_read_back(acc.metadata, "object"@, Tree::Str("chat.completion"@), key);
    assignment_is_read_back(named, "choices"@, list, key);
    assignment_is_read_back(named, "choices"@, list, "object"@);
    lemma_lookup(entries, "index"@, 0);
    lemma_lookup(entries, "finish_reason"@, 1);
    assert("message"@[0] != "index"@[0]);
    lemma_lookup(entries, "message"@, 2);
}

/// Whether a call is whole and the first with its id.
pub open spec fn whole_call(tools: Seq<(u64, SlotView)>, k: int) -> bool {
    let slot = tools[k].1;
    &&& slot.kind == Tree::Str("function"@)
    &&& slot.id matches Some(id) && id.len() > 0 && forall|j: int|
        0 <= j < k ==> (#[trigger] tools[j]).1.id != Some(id)
    &&& lookup(slot.function, "name"@) matches Some(Tree::Str(name)) && name.len() > 0
    &&& lookup(slot.function, "arguments"@) matches Some(Tree::Str(arguments)) && (parsed_json(
        arguments,
    ) matches Ok(json) && json.shape is Object)
}

proof fn lemma_whole_calls(tools: Seq<(u64, SlotView)>, n: int)
    requires
        0 <= n <= tools.len(),
    ensures
        calls_error(tools, n) is None <==> forall|k: int| 0 <= k < n ==> whole_call(tools, k),
    decreases n,
{
    if n > 0 {
        lemma_whole_calls(tools, n - 1);
        let k = n - 1;
        assert(call_error(tools, k) is None <==> whole_call(tools, k)) by {
            if let Some(id) = tools[k].1.id {
                assert(id_taken(tools, k, id) <==> !(forall|j: int|
                    0 <= j < k ==> (#[trigger] tools[j]).1.id != Some(id)));
            }
        }
        if calls_error(tools, n) is None {
            assert(calls_error(tools, n - 1) is None);
        }
    }
}

/// A stream is a response where a first choice was seen, and generation ended: with whole tool
/// calls to make them or to stop, or without tool calls because it stopped, grew too long or was
/// filtered. Any other stream is refused, and told why.
pub proof fn streams_end_as_they_may(acc: AccView)
    ensures
        finish_error(acc) is None <==> acc.seen_choice && (acc.finish matches Some(reason)
            && if acc.tools.len() > 0 {
            (reason == "tool_calls"@ || reason == "stop"@) && forall|k: int|
                0 <= k < acc.tools.len() ==> whole_call(acc.tools, k)
        } else {
            reason == "stop"@ || reason == "length"@ || reason == "content_filter"@
        }),
        acc.finish is None || !acc.seen_choice ==> finish_error(acc) == Some(
            ErrorView::Stream("stream ended without a completed choice"@),
        ),
        acc.seen_choice ==> (acc.finish matches Some(reason) ==> {
            &&& reason != "stop"@ && reason != "tool_calls"@ && reason != "length"@ && reason
                != "content_filter"@ ==> finish_error(acc) == Some(
                ErrorView::Stream("generation stopped: "@ + reason),
            )
            &&& reason == "tool_calls"@ && acc.tools.len() == 0 ==> finish_error(acc) == Some(
                ErrorView::Stream("stream finished with missing tool calls"@),
            )
            &&& (reason == "length"@ || reason == "content_filter"@) && acc.tools.len() > 0
                ==> finish_error(acc) == Some(
                ErrorView::Stream("tool call generation was interrupted"@),
            )
        }),
{
    reveal_strlit("stop");
    reveal_strlit("tool_calls");
    reveal_strlit("length");
    reveal_strlit("content_filter");
    assert("stop"@.len() == 4 && "tool_calls"@.len() == 10 && "length"@.len() == 6
        && "content_filter"@.len() == 14);
    lemma_whole_calls(acc.tools, acc.tools.len() as int);
}

} // verus!
