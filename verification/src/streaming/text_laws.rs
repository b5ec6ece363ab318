//! What holds of the texts, annotations and ending of streamed messages as a whole.

use vstd::prelude::*;

use crate::streaming::accumulator::{annotations_delta, choice_delta, choices_in_turn};
use crate::streaming::accumulator::{continued, details_delta};
use crate::streaming::accumulator::{details_in_turn, message_fields, metadata_with, push_step};
use crate::streaming::accumulator::{text_delta, tools_delta, tools_in_turn};
use crate::streaming::accumulator::{detail_tree, slot_tree, text_entry};
use crate::streaming::accumulator::{AccView, SlotView, TextField};
use crate::streaming::laws::pushed_in_turn;
use crate::value::{lookup, Tree};

verus! {

/// The key under which a delta carries a piece of a text.
pub open spec fn piece_key(field: TextField) -> Seq<char> {
    match field {
        TextField::Content => "content"@,
        TextField::ReasoningContent => "reasoning_content"@,
        TextField::Reasoning => "reasoning"@,
    }
}

/// Whether a choice is the first one.
pub open spec fn is_first_choice(choice: Tree) -> bool {
    choice.field("index"@) == Tree::Unsigned(0)
}

/// The piece of a text that the delta of a choice carries.
pub open spec fn piece_of(choice: Tree, field: TextField) -> Seq<char> {
    match choice.field("delta"@).field(piece_key(field)) {
        Tree::Str(text) => text,
        _ => seq![],
    }
}

/// The pieces of a text that the first choices among `choices` carry, joined.
pub open spec fn pieces_of(choices: Seq<Tree>, field: TextField) -> Seq<char>
    decreases choices.len(),
{
    if choices.len() == 0 {
        seq![]
    } else {
        pieces_of(choices.drop_last(), field) + if is_first_choice(choices.last()) {
            piece_of(choices.last(), field)
        } else {
            seq![]
        }
    }
}

/// The choices of a chunk.
pub open spec fn choices_of(chunk: Tree) -> Seq<Tree> {
    match chunk.field("choices"@) {
        Tree::Array(choices) => choices,
        _ => seq![],
    }
}

/// The pieces of a text that chunks carry, joined.
pub open spec fn streamed(chunks: Seq<Tree>, field: TextField) -> Seq<char>
    decreases chunks.len(),
{
    if chunks.len() == 0 {
        seq![]
    } else {
        streamed(chunks.drop_last(), field) + pieces_of(choices_of(chunks.last()), field)
    }
}

/// A text so far.
pub open spec fn text_so_far(acc: AccView, field: TextField) -> Seq<char> {
    let text = match field {
        TextField::Content => acc.content,
        TextField::ReasoningContent => acc.reasoning_content,
        TextField::Reasoning => acc.reasoning,
    };
    match text {
        Some(text) => text,
        None => seq![],
    }
}

proof fn lemma_detail_keeps_texts(acc: AccView, delta: Tree, details: Seq<Tree>)
    ensures
        ({
            let p = details_in_turn(acc, delta, details);
            &&& p.acc.content == acc.content
            &&& p.acc.reasoning_content == acc.reasoning_content
            &&& p.acc.reasoning == acc.reasoning
            &&& p.acc.annotations == acc.annotations
            &&& p.acc.tools == acc.tools
            &&& p.acc.metadata == acc.metadata
            &&& p.acc.finish == acc.finish
            &&& p.acc.seen_choice == acc.seen_choice
        }),
    decreases details.len(),
{
    if details.len() > 0 {
        lemma_detail_keeps_texts(acc, delta, details.drop_last());
    }
}

proof fn lemma_tools_keep_texts(acc: AccView, calls: Seq<Tree>)
    ensures
        ({
            let p = tools_in_turn(acc, calls);
            &&& p.acc.content == acc.content
            &&& p.acc.reasoning_content == acc.reasoning_content
            &&& p.acc.reasoning == acc.reasoning
            &&& p.acc.annotations == acc.annotations
            &&& p.acc.details == acc.details
            &&& p.acc.metadata == acc.metadata
            &&& p.acc.finish == acc.finish
            &&& p.acc.seen_choice == acc.seen_choice
        }),
    decreases calls.len(),
{
    if calls.len() > 0 {
        lemma_tools_keep_texts(acc, calls.drop_last());
    }
}

proof fn lemma_text_piece(acc: AccView, delta: Tree, field: TextField, other: TextField)
    ensures
        ({
            let p = text_delta(acc, delta, field);
            &&& p.error is None ==> text_so_far(p.acc, field) == text_so_far(acc, field) + (
            match delta.field(piece_key(field)) {
                Tree::Str(text) => text,
                _ => Seq::<char>::empty(),
            })
            &&& other != field ==> text_so_far(p.acc, other) == text_so_far(acc, other)
        }),
{
    let p = text_delta(acc, delta, field);
    assert(text_so_far(acc, field) + Seq::<char>::empty() =~= text_so_far(acc, field));
    if let Tree::Str(text) = delta.field(piece_key(field)) {
        assert(Seq::<char>::empty() + text =~= text);
    }
}

/// The parts of a message that the details, annotations and tool calls of a delta do not touch.
proof fn lemma_rest_keeps_texts(acc: AccView, delta: Tree, field: TextField)
    ensures
        text_so_far(details_delta(acc, delta).acc, field) == text_so_far(acc, field),
        text_so_far(annotations_delta(acc, delta).acc, field) == text_so_far(acc, field),
        text_so_far(tools_delta(acc, delta).acc, field) == text_so_far(acc, field),
{
    if let Some(Tree::Array(details)) = delta.present("reasoning_details"@) {
        lemma_detail_keeps_texts(acc, delta, details);
    }
    if let Some(Tree::Array(calls)) = delta.present("tool_calls"@) {
        lemma_tools_keep_texts(acc, calls);
    }
}

proof fn lemma_choice_piece(acc: AccView, delta: Tree, field: TextField)
    requires
        choice_delta(acc, delta).error is None,
    ensures
        text_so_far(choice_delta(acc, delta).acc, field) == text_so_far(acc, field) + (
        match delta.field(piece_key(field)) {
            Tree::Str(text) => text,
            _ => Seq::<char>::empty(),
        }),
{
    let f2 = |a: AccView| text_delta(a, delta, TextField::ReasoningContent);
    let f3 = |a: AccView| text_delta(a, delta, TextField::Reasoning);
    let f4 = |a: AccView| details_delta(a, delta);
    let f5 = |a: AccView| annotations_delta(a, delta);
    let f6 = |a: AccView| tools_delta(a, delta);
    let p1 = text_delta(acc, delta, TextField::Content);
    let p2 = continued(p1, f2);
    let p3 = continued(p2, f3);
    let p4 = continued(p3, f4);
    let p5 = continued(p4, f5);
    let p6 = continued(p5, f6);
    assert(choice_delta(acc, delta) == p6);
    assert(p5.error is None && p4.error is None && p3.error is None && p2.error is None
        && p1.error is None);
    lemma_text_piece(acc, delta, TextField::Content, field);
    lemma_text_piece(p1.acc, delta, TextField::ReasoningContent, field);
    lemma_text_piece(p2.acc, delta, TextField::Reasoning, field);
    lemma_rest_keeps_texts(p3.acc, delta, field);
    lemma_rest_keeps_texts(p4.acc, delta, field);
    lemma_rest_keeps_texts(p5.acc, delta, field);
}

proof fn lemma_choices_pieces(acc: AccView, choices: Seq<Tree>, field: TextField)
    requires
        choices_in_turn(acc, choices).error is None,
    ensures
        text_so_far(choices_in_turn(acc, choices).acc, field) == text_so_far(acc, field)
            + pieces_of(choices, field),
    decreases choices.len(),
{
    let start = text_so_far(acc, field);
    if choices.len() == 0 {
        assert(start + Seq::<char>::empty() =~= start);
    } else {
        let front = choices.drop_last();
        let choice = choices.last();
        let before = choices_in_turn(acc, front);
        assert(before.error is None);
        lemma_choices_pieces(acc, front, field);
        let here = text_so_far(before.acc, field);
        assert(here + Seq::<char>::empty() =~= here);
        assert(here + piece_of(choice, field) =~= start + (pieces_of(front, field) + piece_of(
            choice,
            field,
        )));
        assert(here =~= start + (pieces_of(front, field) + Seq::<char>::empty()));
        assert(is_first_choice(choice) == (choice.field("index"@).as_unsigned() == Some(0u64)));
        if is_first_choice(choice) {
            let seen = AccView { seen_choice: true, ..before.acc };
            let finished = match choice.field("finish_reason"@).as_text() {
                Some(text) => AccView { finish: Some(text), ..seen },
                None => seen,
            };
            if let Tree::Object(fields) = choice.field("delta"@) {
                lemma_choice_piece(finished, Tree::Object(fields), field);
            }
        }
    }
}

proof fn lemma_chunk_pieces(acc: AccView, chunk: Tree, field: TextField)
    requires
        push_step(acc, chunk).error is None,
    ensures
        text_so_far(push_step(acc, chunk).acc, field) == text_so_far(acc, field) + pieces_of(
            choices_of(chunk),
            field,
        ),
{
    if let Tree::Object(fields) = chunk {
        let next = AccView { metadata: metadata_with(acc.metadata, fields), ..acc };
        lemma_choices_pieces(next, choices_of(chunk), field);
    }
}

/// Over any chunks that are taken without an error, each text of the message (content, reasoning
/// content and reasoning) grows by exactly the pieces that the deltas of the first choice carry
/// under its key, joined in order.
pub proof fn texts_are_their_pieces_joined(acc: AccView, chunks: Seq<Tree>, field: TextField)
    requires
        pushed_in_turn(acc, chunks).error is None,
    ensures
        text_so_far(pushed_in_turn(acc, chunks).acc, field) == text_so_far(acc, field) + streamed(
            chunks,
            field,
        ),
    decreases chunks.len(),
{
    let start = text_so_far(acc, field);
    if chunks.len() == 0 {
        assert(start + Seq::<char>::empty() =~= start);
    } else {
        let front = chunks.drop_last();
        let before = pushed_in_turn(acc, front);
        assert(before.error is None);
        texts_are_their_pieces_joined(acc, front, field);
        lemma_chunk_pieces(before.acc, chunks.last(), field);
        let last = pieces_of(choices_of(chunks.last()), field);
        assert((start + streamed(front, field)) + last =~= start + (streamed(front, field) + last));
    }
}

/// The assembled message holds each text under its key, as the pieces of the stream joined.
pub proof fn the_message_holds_the_streamed_texts(chunks: Seq<Tree>, field: TextField)
    requires
        pushed_in_turn(AccView::initial(), chunks).error is None,
    ensures
        ({
            let acc = pushed_in_turn(AccView::initial(), chunks).acc;
            match Tree::Object(message_fields(acc)).get(piece_key(field)) {
                Some(value) => value == Tree::Str(streamed(chunks, field)),
                None => streamed(chunks, field).len() == 0,
            }
        }),
{
    let acc = pushed_in_turn(AccView::initial(), chunks).acc;
    texts_are_their_pieces_joined(AccView::initial(), chunks, field);
    assert(Seq::<char>::empty() + streamed(chunks, field) =~= streamed(chunks, field));
    lemma_message_texts(acc, field);
}

proof fn lemma_message_texts(acc: AccView, field: TextField)
    ensures
        Tree::Object(message_fields(acc)).get(piece_key(field)) == (match (match field {
            TextField::Content => acc.content,
            TextField::ReasoningContent => acc.reasoning_content,
            TextField::Reasoning => acc.reasoning,
        }) {
            Some(text) => Some(Tree::Str(text)),
            None => None,
        }),
{
    the_message_holds_what_was_gathered(acc);
}

/// The assembled message holds each part that was gathered under its key, and no other part: the
/// texts, the annotations, the tool calls and the reasoning details in the order of their indexes,
/// and the role.
pub proof fn the_message_holds_what_was_gathered(acc: AccView)
    ensures
        ({
            let message = Tree::Object(message_fields(acc));
            &&& message.get("content"@) == (match acc.content {
                Some(text) => Some(Tree::Str(text)),
                None => None,
            })
            &&& message.get("reasoning_content"@) == (match acc.reasoning_content {
                Some(text) => Some(Tree::Str(text)),
                None => None,
            })
            &&& message.get("reasoning"@) == (match acc.reasoning {
                Some(text) => Some(Tree::Str(text)),
                None => None,
            })
            &&& message.get("annotations"@) == (match acc.annotations {
                Some(items) => Some(Tree::Array(items)),
                None => None,
            })
            &&& message.get("role"@) == Some(Tree::Str("assistant"@))
            &&& message.get("tool_calls"@) is Some <==> acc.tools.len() > 0
            &&& message.get("tool_calls"@) matches Some(Tree::Array(calls)) ==> calls.len()
                == acc.tools.len() && forall|i: int|
                0 <= i < calls.len() ==> {
                    let slot = acc.tools[i].1;
                    &&& #[trigger] calls[i].get("type"@) == Some(slot.kind)
                    &&& calls[i].get("function"@) == Some(Tree::Object(slot.function))
                    &&& calls[i].get("id"@) == (match slot.id {
                        Some(id) => Some(Tree::Str(id)),
                        None => None,
                    })
                }
            &&& message.get("reasoning_details"@) is Some <==> acc.details.len() > 0
            &&& message.get("reasoning_details"@) matches Some(Tree::Array(details))
                ==> details.len() == acc.details.len() && forall|i: int|
                0 <= i < details.len() ==> #[trigger] details[i].get("index"@) == Some(
                    Tree::Unsigned(acc.details[i].0),
                )
        }),
{
    lemma_keys_differ();
    let a = text_entry("content"@, acc.content);
    let b = text_entry("reasoning_content"@, acc.reasoning_content);
    let c = text_entry("reasoning"@, acc.reasoning);
    let d = match acc.annotations {
        Some(items) => seq![("annotations"@, Tree::Array(items))],
        None => seq![],
    };
    let calls = Tree::Array(acc.tools.map_values(|s: (u64, SlotView)| slot_tree(s.1)));
    let e = if acc.tools.len() > 0 {
        seq![("tool_calls"@, calls)]
    } else {
        seq![]
    };
    let details = Tree::Array(
        acc.details.map_values(|d: (u64, Seq<(Seq<char>, Tree)>)| detail_tree(d.0, d.1)),
    );
    let f = if acc.details.len() > 0 {
        seq![("reasoning_details"@, details)]
    } else {
        seq![]
    };
    let g = seq![("role"@, Tree::Str("assistant"@))];
    assert(message_fields(acc) == a + b + c + d + e + f + g);
    lemma_lookup_message("content"@, a, b, c, d, e, f, g);
    lemma_lookup_message("reasoning_content"@, a, b, c, d, e, f, g);
    lemma_lookup_message("reasoning"@, a, b, c, d, e, f, g);
    lemma_lookup_message("annotations"@, a, b, c, d, e, f, g);
    lemma_lookup_message("tool_calls"@, a, b, c, d, e, f, g);
    lemma_lookup_message("reasoning_details"@, a, b, c, d, e, f, g);
    lemma_lookup_message("role"@, a, b, c, d, e, f, g);
    if acc.tools.len() > 0 {
        assert forall|i: int| 0 <= i < calls->Array_0.len() implies {
            let slot = acc.tools[i].1;
            &&& #[trigger] calls->Array_0[i].get("type"@) == Some(slot.kind)
            &&& calls->Array_0[i].get("function"@) == Some(Tree::Object(slot.function))
            &&& calls->Array_0[i].get("id"@) == (match slot.id {
                Some(id) => Some(Tree::Str(id)),
                None => None,
            })
        } by {
            lemma_slot_tree(acc.tools[i].1);
        }
    }
    if acc.details.len() > 0 {
        assert forall|i: int| 0 <= i < details->Array_0.len() implies #[trigger] details->Array_0[i].get(
            "index"@,
        ) == Some(Tree::Unsigned(acc.details[i].0)) by {
            crate::value::assignment_is_read_back(
                acc.details[i].1,
                "index"@,
                Tree::Unsigned(acc.details[i].0),
                "index"@,
            );
        }
    }
}

proof fn lemma_slot_tree(slot: SlotView)
    ensures
        slot_tree(slot).get("type"@) == Some(slot.kind),
        slot_tree(slot).get("function"@) == Some(Tree::Object(slot.function)),
        slot_tree(slot).get("id"@) == (match slot.id {
            Some(id) => Some(Tree::Str(id)),
            None => None,
        }),
{
    reveal_strlit("type");
    reveal_strlit("function");
    reveal_strlit("id");
    assert("type"@.len() == 4 && "function"@.len() == 8 && "id"@.len() == 2);
    let a = seq![("type"@, slot.kind), ("function"@, Tree::Object(slot.function))];
    let b = text_entry("id"@, slot.id);
    lemma_lookup_concat(a, b, "type"@);
    lemma_lookup_concat(a, b, "function"@);
    lemma_lookup_concat(a, b, "id"@);
    reveal_with_fuel(lookup, 3);
    assert(a.drop_first() =~= seq![("function"@, Tree::Object(slot.function))]);
    assert(a.drop_first().drop_first() =~= seq![]);
}

proof fn lemma_lookup_concat(
    a: Seq<(Seq<char>, Tree)>,
    b: Seq<(Seq<char>, Tree)>,
    key: Seq<char>,
)
    ensures
        lookup(a + b, key) == (match lookup(a, key) {
            Some(value) => Some(value),
            None => lookup(b, key),
        }),
    decreases a.len(),
{
    if a.len() == 0 {
        assert(a + b =~= b);
    } else {
        assert((a + b).drop_first() =~= a.drop_first() + b);
        lemma_lookup_concat(a.drop_first(), b, key);
    }
}

proof fn lemma_lookup_message(
    key: Seq<char>,
    a: Seq<(Seq<char>, Tree)>,
    b: Seq<(Seq<char>, Tree)>,
    c: Seq<(Seq<char>, Tree)>,
    d: Seq<(Seq<char>, Tree)>,
    e: Seq<(Seq<char>, Tree)>,
    f: Seq<(Seq<char>, Tree)>,
    g: Seq<(Seq<char>, Tree)>,
)
    requires
        a.len() <= 1 && b.len() <= 1 && c.len() <= 1 && d.len() <= 1,
        e.len() <= 1 && f.len() <= 1 && g.len() <= 1,
    ensures
        lookup(a + b + c + d + e + f + g, key) == (if a.len() == 1 && a[0].0 == key {
            Some(a[0].1)
        } else if b.len() == 1 && b[0].0 == key {
            Some(b[0].1)
        } else if c.len() == 1 && c[0].0 == key {
            Some(c[0].1)
        } else if d.len() == 1 && d[0].0 == key {
            Some(d[0].1)
        } else if e.len() == 1 && e[0].0 == key {
            Some(e[0].1)
        } else if f.len() == 1 && f[0].0 == key {
            Some(f[0].1)
        } else if g.len() == 1 && g[0].0 == key {
            Some(g[0].1)
        } else {
            None
        }),
{
    lemma_lookup_concat(a, b, key);
    lemma_lookup_concat(a + b, c, key);
    lemma_lookup_concat(a + b + c, d, key);
    lemma_lookup_concat(a + b + c + d, e, key);
    lemma_lookup_concat(a + b + c + d + e, f, key);
    lemma_lookup_concat(a + b + c + d + e + f, g, key);
    lemma_lookup_one(a, key);
    lemma_lookup_one(b, key);
    lemma_lookup_one(c, key);
    lemma_lookup_one(d, key);
    lemma_lookup_one(e, key);
    lemma_lookup_one(f, key);
    lemma_lookup_one(g, key);
}

proof fn lemma_lookup_one(a: Seq<(Seq<char>, Tree)>, key: Seq<char>)
    requires
        a.len() <= 1,
    ensures
        lookup(a, key) == (if a.len() == 1 && a[0].0 == key {
            Some(a[0].1)
        } else {
            None
        }),
{
    if a.len() == 1 {
        assert(a.drop_first() =~= seq![]);
        assert(lookup(a.drop_first(), key) is None);
    }
}

proof fn lemma_keys_differ()
    ensures
        "content"@ != "reasoning_content"@,
        "content"@ != "reasoning"@,
        "content"@ != "annotations"@,
        "content"@ != "tool_calls"@,
        "content"@ != "reasoning_details"@,
        "content"@ != "role"@,
        "reasoning_content"@ != "reasoning"@,
        "reasoning_content"@ != "annotations"@,
        "reasoning_content"@ != "tool_calls"@,
        "reasoning_content"@ != "reasoning_details"@,
        "reasoning_content"@ != "role"@,
        "reasoning"@ != "annotations"@,
        "reasoning"@ != "tool_calls"@,
        "reasoning"@ != "reasoning_details"@,
        "reasoning"@ != "role"@,
        "annotations"@ != "tool_calls"@,
        "annotations"@ != "reasoning_details"@,
        "annotations"@ != "role"@,
        "tool_calls"@ != "reasoning_details"@,
        "tool_calls"@ != "role"@,
        "reasoning_details"@ != "role"@,
{
    reveal_strlit("content");
    reveal_strlit("reasoning_content");
    reveal_strlit("reasoning");
    reveal_strlit("annotations");
    reveal_strlit("tool_calls");
    reveal_strlit("reasoning_details");
    reveal_strlit("role");
    assert("content"@.len() == 7);
    assert("reasoning"@.len() == 9);
    assert("annotations"@.len() == 11);
    assert("tool_calls"@.len() == 10);
    assert("role"@.len() == 4);
    assert("reasoning_content"@[10] == 'c');
    assert("reasoning_details"@[10] == 'd');
}

} // verus!
