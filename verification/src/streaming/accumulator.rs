//! Assembly of a streamed chat completion from its chunks.

use vstd::prelude::*;

use vstd::utf8::encode_utf8;

use crate::chat::{CallView, ToolCall, ToolCallFunction};
use crate::common::{lemma_take_push, lemma_views_push, view_of, views, Duplicate};
use crate::error::{stream_error, Error, ErrorView};
use crate::json::{parsed_json, JsonText};
use crate::json_value::{decode_text, missing_field, missing_message, parse_value, parsed_value};
use crate::json_value::{render, rendered, text_of};
use crate::streaming::event::{StreamEvent, StreamView};
use crate::streaming::merge::{merge_object, merged};
use crate::text::{concat2, concat3, same_text};
use crate::value::{assigned, entry_views, get_entry, lemma_array, lemma_object, lookup};
use crate::value::{duplicate_entries, set_entry, Json, Tree};

verus! {

broadcast use lemma_views_push;

// ---------------------------------------------------------------------------------------------
// Types
// ---------------------------------------------------------------------------------------------

/// A tool call while its deltas arrive.
pub struct ToolSlot {
    id: Option<String>,
    kind: Json,
    function: Vec<(String, Json)>,
}

/// A chat completion while its chunks arrive.
pub struct Accumulator {
    metadata: Vec<(String, Json)>,
    content: Option<String>,
    reasoning_content: Option<String>,
    reasoning: Option<String>,
    annotations: Option<Vec<Json>>,
    tools: Vec<(u64, ToolSlot)>,
    details: Vec<(u64, Vec<(String, Json)>)>,
    finish: Option<String>,
    seen_choice: bool,
}

/// The texts that a delta may continue.
#[derive(Clone, Copy, PartialEq, Eq, Structural)]
pub enum TextField {
    Content,
    ReasoningContent,
    Reasoning,
}

// ---------------------------------------------------------------------------------------------
// Models
// ---------------------------------------------------------------------------------------------

/// The model of a [`ToolSlot`].
pub struct SlotView {
    pub id: Option<Seq<char>>,
    pub kind: Tree,
    pub function: Seq<(Seq<char>, Tree)>,
}

/// The model of an [`Accumulator`].
pub struct AccView {
    pub metadata: Seq<(Seq<char>, Tree)>,
    pub content: Option<Seq<char>>,
    pub reasoning_content: Option<Seq<char>>,
    pub reasoning: Option<Seq<char>>,
    pub annotations: Option<Seq<Tree>>,
    pub tools: Seq<(u64, SlotView)>,
    pub details: Seq<(u64, Seq<(Seq<char>, Tree)>)>,
    pub finish: Option<Seq<char>>,
    pub seen_choice: bool,
}

impl View for ToolSlot {
    type V = SlotView;

    closed spec fn view(&self) -> SlotView {
        SlotView {
            id: view_of(self.id),
            kind: self.kind@,
            function: entry_views(self.function@),
        }
    }
}

/// The models of slots.
spec fn slot_views(slots: Seq<(u64, ToolSlot)>) -> Seq<(u64, SlotView)> {
    slots.map_values(|s: (u64, ToolSlot)| (s.0, s.1@))
}

/// The models of reasoning details.
spec fn detail_views(details: Seq<(u64, Vec<(String, Json)>)>) -> Seq<
    (u64, Seq<(Seq<char>, Tree)>),
> {
    details.map_values(|d: (u64, Vec<(String, Json)>)| (d.0, entry_views(d.1@)))
}

impl View for Accumulator {
    type V = AccView;

    closed spec fn view(&self) -> AccView {
        AccView {
            metadata: entry_views(self.metadata@),
            content: view_of(self.content),
            reasoning_content: view_of(self.reasoning_content),
            reasoning: view_of(self.reasoning),
            annotations: match self.annotations {
                Some(items) => Some(views(items@)),
                None => None,
            },
            tools: slot_views(self.tools@),
            details: detail_views(self.details@),
            finish: view_of(self.finish),
            seen_choice: self.seen_choice,
        }
    }
}

impl AccView {
    /// Before the first chunk.
    pub open spec fn initial() -> AccView {
        AccView {
            metadata: seq![],
            content: None,
            reasoning_content: None,
            reasoning: None,
            annotations: None,
            tools: seq![],
            details: seq![],
            finish: None,
            seen_choice: false,
        }
    }

    /// The text so far.
    pub open spec fn text(self, field: TextField) -> Option<Seq<char>> {
        match field {
            TextField::Content => self.content,
            TextField::ReasoningContent => self.reasoning_content,
            TextField::Reasoning => self.reasoning,
        }
    }

    /// With another text so far.
    pub open spec fn with_text(self, field: TextField, text: Seq<char>) -> AccView {
        match field {
            TextField::Content => AccView { content: Some(text), ..self },
            TextField::ReasoningContent => AccView { reasoning_content: Some(text), ..self },
            TextField::Reasoning => AccView { reasoning: Some(text), ..self },
        }
    }
}

/// The key of a text in a delta.
pub open spec fn field_key(field: TextField) -> Seq<char> {
    match field {
        TextField::Content => "content"@,
        TextField::ReasoningContent => "reasoning_content"@,
        TextField::Reasoning => "reasoning"@,
    }
}

/// The position of the first slot whose index is not below `index`.
pub open spec fn slot_position<T>(slots: Seq<(u64, T)>, index: u64) -> int
    decreases slots.len(),
{
    if slots.len() == 0 || slots[0].0 >= index {
        0
    } else {
        1 + slot_position(slots.drop_first(), index)
    }
}

/// What the slot `index` holds, or `fresh` where there is none.
pub open spec fn slot_of<T>(slots: Seq<(u64, T)>, index: u64, fresh: T) -> T {
    let k = slot_position(slots, index);
    if k < slots.len() && slots[k].0 == index {
        slots[k].1
    } else {
        fresh
    }
}

/// The slots with `x` in the slot `index`; new slots go where their index belongs.
pub open spec fn slot_put<T>(slots: Seq<(u64, T)>, index: u64, x: T) -> Seq<(u64, T)> {
    let k = slot_position(slots, index);
    if k < slots.len() && slots[k].0 == index {
        slots.update(k, (index, x))
    } else {
        slots.insert(k, (index, x))
    }
}

/// A tool call before its first delta.
pub open spec fn fresh_slot() -> SlotView {
    SlotView { id: None, kind: Tree::Str("function"@), function: seq![] }
}

/// How far a chunk was taken: the accumulator and the events so far, and why it stopped, where it
/// did.
pub struct Progress {
    pub acc: AccView,
    pub events: Seq<StreamView>,
    pub error: Option<ErrorView>,
}

/// Nothing taken yet.
pub open spec fn unmoved(acc: AccView) -> Progress {
    Progress { acc, events: seq![], error: None }
}

/// Stopped.
pub open spec fn stopped(acc: AccView, message: Seq<char>) -> Progress {
    Progress { acc, events: seq![], error: Some(ErrorView::Stream(message)) }
}

/// `next`, taken up where `before` left off, unless that had stopped.
pub open spec fn continued(before: Progress, next: spec_fn(AccView) -> Progress) -> Progress {
    if before.error is Some {
        before
    } else {
        let after = next(before.acc);
        Progress { acc: after.acc, events: before.events + after.events, error: after.error }
    }
}

/// The event for a piece of text.
pub open spec fn text_event(field: TextField, text: Seq<char>) -> Seq<StreamView> {
    if text.len() == 0 {
        seq![]
    } else if field == TextField::Content {
        seq![StreamView::TextDelta { text }]
    } else {
        seq![StreamView::ReasoningDelta { text }]
    }
}

/// What a delta does to one text.
pub open spec fn text_delta(acc: AccView, delta: Tree, field: TextField) -> Progress {
    match delta.field(field_key(field)) {
        Tree::Null => unmoved(acc),
        Tree::Str(text) => Progress {
            acc: acc.with_text(
                field,
                match acc.text(field) {
                    Some(earlier) => earlier + text,
                    None => text,
                },
            ),
            events: text_event(field, text),
            error: None,
        },
        _ => stopped(acc, "unsupported "@ + field_key(field) + " delta type"@),
    }
}

/// The fields of a reasoning detail that arrive in fragments.
pub open spec fn detail_fragments() -> Seq<Seq<char>> {
    seq!["text"@, "summary"@, "data"@, "signature"@]
}

/// The text that a reasoning detail shows, where the delta shows no reasoning of its own.
pub open spec fn detail_text(delta: Tree, detail: Tree) -> Seq<char> {
    if delta.field("reasoning"@).text_or_empty().len() > 0 || delta.field(
        "reasoning_content"@,
    ).text_or_empty().len() > 0 {
        seq![]
    } else {
        match detail.field("text"@).as_text() {
            Some(text) => text,
            None => detail.field("summary"@).text_or_empty(),
        }
    }
}

/// What one reasoning detail does.
pub open spec fn detail_delta(acc: AccView, delta: Tree, detail: Tree) -> Progress {
    let index = match detail.field("index"@).as_unsigned() {
        Some(index) => index,
        None => 0,
    };
    let m = merged(slot_of(acc.details, index, seq![]), detail, detail_fragments());
    let after = AccView { details: slot_put(acc.details, index, m.entries), ..acc };
    match m.error {
        Some(message) => stopped(after, message),
        None => Progress {
            acc: after,
            events: text_event(TextField::Reasoning, detail_text(delta, detail)),
            error: None,
        },
    }
}

/// What a list of reasoning details does.
pub open spec fn details_in_turn(acc: AccView, delta: Tree, details: Seq<Tree>) -> Progress
    decreases details.len(),
{
    if details.len() == 0 {
        unmoved(acc)
    } else {
        continued(
            details_in_turn(acc, delta, details.drop_last()),
            |a: AccView| detail_delta(a, delta, details.last()),
        )
    }
}

/// What a delta does to the reasoning details.
pub open spec fn details_delta(acc: AccView, delta: Tree) -> Progress {
    match delta.present("reasoning_details"@) {
        None => unmoved(acc),
        Some(Tree::Array(details)) => details_in_turn(acc, delta, details),
        Some(_) => stopped(acc, "invalid reasoning_details"@),
    }
}

/// What a delta does to the annotations.
pub open spec fn annotations_delta(acc: AccView, delta: Tree) -> Progress {
    match delta.present("annotations"@) {
        None => unmoved(acc),
        Some(Tree::Array(items)) => unmoved(
            AccView {
                annotations: Some(
                    match acc.annotations {
                        Some(earlier) => earlier + items,
                        None => items,
                    },
                ),
                ..acc
            },
        ),
        Some(_) => stopped(acc, "invalid annotations"@),
    }
}

/// The fields of a tool's function that arrive in fragments.
pub open spec fn function_fragments() -> Seq<Seq<char>> {
    seq!["name"@, "arguments"@]
}

/// A slot after a delta, and why the delta stopped, where it did.
pub struct SlotStep {
    pub slot: SlotView,
    pub error: Option<Seq<char>>,
}

/// What a delta does to the function of a tool call.
pub open spec fn function_delta(slot: SlotView, call: Tree) -> SlotStep {
    match call.present("function"@) {
        None => SlotStep { slot, error: None },
        Some(function) => {
            let m = merged(slot.function, function, function_fragments());
            SlotStep { slot: SlotView { function: m.entries, ..slot }, error: m.error }
        },
    }
}

/// What a delta does to the type and function of a tool call.
pub open spec fn kind_delta(slot: SlotView, call: Tree) -> SlotStep {
    match call.present("type"@) {
        None => function_delta(slot, call),
        Some(kind) => function_delta(SlotView { kind, ..slot }, call),
    }
}

/// What a delta does to a tool call: its id and the fragments of its function are joined.
pub open spec fn slot_delta(slot: SlotView, call: Tree) -> SlotStep {
    match call.present("id"@) {
        None => kind_delta(slot, call),
        Some(Tree::Str(id)) => kind_delta(
            SlotView {
                id: Some(
                    match slot.id {
                        Some(earlier) => earlier + id,
                        None => id,
                    },
                ),
                ..slot
            },
            call,
        ),
        Some(_) => SlotStep { slot, error: Some("invalid tool id"@) },
    }
}

/// What one tool call delta does.
pub open spec fn tool_delta(acc: AccView, call: Tree) -> Progress {
    match call.field("index"@).as_unsigned() {
        None => stopped(acc, "tool delta has no index"@),
        Some(index) => {
            let step = slot_delta(slot_of(acc.tools, index, fresh_slot()), call);
            let after = AccView { tools: slot_put(acc.tools, index, step.slot), ..acc };
            match step.error {
                Some(message) => stopped(after, message),
                None => Progress {
                    acc: after,
                    events: seq![StreamView::ToolCallDelta { index, delta: call }],
                    error: None,
                },
            }
        },
    }
}

/// What a list of tool call deltas does.
pub open spec fn tools_in_turn(acc: AccView, calls: Seq<Tree>) -> Progress
    decreases calls.len(),
{
    if calls.len() == 0 {
        unmoved(acc)
    } else {
        continued(
            tools_in_turn(acc, calls.drop_last()),
            |a: AccView| tool_delta(a, calls.last()),
        )
    }
}

/// What a delta does to the tool calls.
pub open spec fn tools_delta(acc: AccView, delta: Tree) -> Progress {
    match delta.present("tool_calls"@) {
        None => unmoved(acc),
        Some(Tree::Array(calls)) => tools_in_turn(acc, calls),
        Some(_) => stopped(acc, "invalid tool call deltas"@),
    }
}

/// What the delta of a choice does: texts, reasoning details, annotations, tool calls, in turn.
pub open spec fn choice_delta(acc: AccView, delta: Tree) -> Progress {
    continued(
        continued(
            continued(
                continued(
                    continued(
                        text_delta(acc, delta, TextField::Content),
                        |a: AccView| text_delta(a, delta, TextField::ReasoningContent),
                    ),
                    |a: AccView| text_delta(a, delta, TextField::Reasoning),
                ),
                |a: AccView| details_delta(a, delta),
            ),
            |a: AccView| annotations_delta(a, delta),
        ),
        |a: AccView| tools_delta(a, delta),
    )
}

/// What a choice does. Only the first choice counts.
pub open spec fn choice_step(acc: AccView, choice: Tree) -> Progress {
    if choice.field("index"@).as_unsigned() != Some(0u64) {
        unmoved(acc)
    } else {
        let seen = AccView { seen_choice: true, ..acc };
        let reason = choice.field("finish_reason"@).as_text();
        if reason == Some("error"@) {
            stopped(seen, "provider reported a generation error"@)
        } else {
            let finished = match reason {
                Some(text) => AccView { finish: Some(text), ..seen },
                None => seen,
            };
            match choice.field("delta"@) {
                Tree::Null => unmoved(finished),
                Tree::Object(fields) => choice_delta(finished, Tree::Object(fields)),
                _ => stopped(finished, "invalid choice delta"@),
            }
        }
    }
}

/// What a list of choices does.
pub open spec fn choices_in_turn(acc: AccView, choices: Seq<Tree>) -> Progress
    decreases choices.len(),
{
    if choices.len() == 0 {
        unmoved(acc)
    } else {
        continued(
            choices_in_turn(acc, choices.drop_last()),
            |a: AccView| choice_step(a, choices.last()),
        )
    }
}

/// Metadata with the fields of a chunk: all but the choices and the object name.
pub open spec fn metadata_with(
    metadata: Seq<(Seq<char>, Tree)>,
    fields: Seq<(Seq<char>, Tree)>,
) -> Seq<(Seq<char>, Tree)>
    decreases fields.len(),
{
    if fields.len() == 0 {
        metadata
    } else {
        let before = metadata_with(metadata, fields.drop_last());
        let (key, value) = fields.last();
        if key == "choices"@ || key == "object"@ {
            before
        } else {
            assigned(before, key, value)
        }
    }
}

/// What a chunk without an error does.
pub open spec fn chunk_step(acc: AccView, chunk: Tree) -> Progress {
    match chunk {
        Tree::Object(fields) => {
            let acc = AccView { metadata: metadata_with(acc.metadata, fields), ..acc };
            match chunk.field("choices"@) {
                Tree::Array(choices) => choices_in_turn(acc, choices),
                _ => stopped(acc, "chunk has no choices array"@),
            }
        },
        _ => stopped(acc, "expected a chunk object"@),
    }
}

// ---------------------------------------------------------------------------------------------
// Slots
// ---------------------------------------------------------------------------------------------

/// What taking a chunk does: nothing but an error where the provider sends one.
pub open spec fn push_step(acc: AccView, chunk: Tree) -> Progress {
    match chunk.present("error"@) {
        Some(error) => stopped(acc, "provider error: "@ + rendered(error)),
        None => chunk_step(acc, chunk),
    }
}

/// Whether a chunk was taken as it should be.
pub open spec fn pushed(
    before: AccView,
    chunk: Tree,
    after: AccView,
    r: Result<Vec<StreamEvent>, Error>,
) -> bool {
    let p = push_step(before, chunk);
    &&& after == p.acc
    &&& match p.error {
        Some(error) => r matches Err(e) && e@ == error,
        None => r matches Ok(events) && views(events@) == p.events,
    }
}

proof fn lemma_slot_position<T>(slots: Seq<(u64, T)>, index: u64, k: int)
    requires
        0 <= k <= slots.len(),
        forall|i: int| 0 <= i < k ==> (#[trigger] slots[i]).0 < index,
        k < slots.len() ==> slots[k].0 >= index,
    ensures
        slot_position(slots, index) == k,
    decreases k,
{
    if k > 0 {
        let rest = slots.drop_first();
        assert(slots[0].0 < index);
        assert forall|i: int| 0 <= i < k - 1 implies (#[trigger] rest[i]).0 < index by {
            assert(slots[i + 1].0 < index);
        }
        lemma_slot_position(rest, index, k - 1);
    }
}

/// The position of a slot, and whether it is there.
fn find_slot<T>(slots: &Vec<(u64, T)>, index: u64) -> (r: (usize, bool))
    ensures
        r.0 <= slots@.len(),
        r.0 == slot_position(slots@, index),
        r.1 == (r.0 < slots@.len() && slots@[r.0 as int].0 == index),
{
    let mut k: usize = 0;
    while k < slots.len() && slots[k].0 < index
        invariant
            k <= slots@.len(),
            forall|i: int| 0 <= i < k ==> (#[trigger] slots@[i]).0 < index,
        decreases slots@.len() - k,
    {
        k += 1;
    }
    proof {
        lemma_slot_position(slots@, index, k as int);
    }
    (k, k < slots.len() && slots[k].0 == index)
}

proof fn lemma_slot_position_views<T, U>(
    slots: Seq<(u64, T)>,
    others: Seq<(u64, U)>,
    index: u64,
)
    requires
        slots.len() == others.len(),
        forall|i: int| 0 <= i < slots.len() ==> (#[trigger] slots[i]).0 == others[i].0,
    ensures
        slot_position(slots, index) == slot_position(others, index),
    decreases slots.len(),
{
    if slots.len() > 0 {
        assert(slots[0].0 == others[0].0);
        let a = slots.drop_first();
        let b = others.drop_first();
        assert forall|i: int| 0 <= i < a.len() implies (#[trigger] a[i]).0 == b[i].0 by {
            assert(slots[i + 1].0 == others[i + 1].0);
        }
        lemma_slot_position_views(a, b, index);
    }
}

fn fresh_tool_slot() -> (slot: ToolSlot)
    ensures
        slot@ == fresh_slot(),
{
    let slot = ToolSlot { id: None, kind: Json::Str("function".to_owned()), function: Vec::new() };
    assert(slot@.function =~= seq![]);
    slot
}

/// Take a tool call out of its slot; a missing one is fresh.
fn take_tool(tools: &mut Vec<(u64, ToolSlot)>, index: u64) -> (r: (usize, ToolSlot))
    ensures
        r.1@ == slot_of(slot_views(old(tools)@), index, fresh_slot()),
        r.0 <= final(tools)@.len(),
        forall|slot: SlotView|
            slot_put(slot_views(old(tools)@), index, slot) == #[trigger] slot_views(
                final(tools)@,
            ).insert(r.0 as int, (index, slot)),
{
    let ghost before = slot_views(tools@);
    let (k, present) = find_slot(tools, index);
    proof {
        lemma_slot_position_views(tools@, before, index);
    }
    if present {
        let (_, slot) = tools.remove(k);
        proof {
            let after = slot_views(tools@);
            assert forall|x: SlotView| slot_put(before, index, x) == #[trigger] after.insert(
                k as int,
                (index, x),
            ) by {
                assert(before.update(k as int, (index, x)) =~= after.insert(k as int, (index, x)));
            }
        }
        (k, slot)
    } else {
        (k, fresh_tool_slot())
    }
}

/// Take a reasoning detail out of its slot; a missing one is empty.
fn take_detail(details: &mut Vec<(u64, Vec<(String, Json)>)>, index: u64) -> (r: (
    usize,
    Vec<(String, Json)>,
))
    ensures
        entry_views(r.1@) == slot_of(detail_views(old(details)@), index, seq![]),
        r.0 <= final(details)@.len(),
        forall|entries: Seq<(Seq<char>, Tree)>|
            slot_put(detail_views(old(details)@), index, entries) == #[trigger] detail_views(
                final(details)@,
            ).insert(r.0 as int, (index, entries)),
{
    let ghost before = detail_views(details@);
    let (k, present) = find_slot(details, index);
    proof {
        lemma_slot_position_views(details@, before, index);
    }
    if present {
        let (_, entries) = details.remove(k);
        proof {
            let after = detail_views(details@);
            assert forall|x: Seq<(Seq<char>, Tree)>|
                slot_put(before, index, x) == #[trigger] after.insert(k as int, (index, x)) by {
                assert(before.update(k as int, (index, x)) =~= after.insert(k as int, (index, x)));
            }
        }
        (k, entries)
    } else {
        let entries: Vec<(String, Json)> = Vec::new();
        assert(entry_views(entries@) =~= seq![]);
        (k, entries)
    }
}

// ---------------------------------------------------------------------------------------------
// Chunks
// ---------------------------------------------------------------------------------------------

/// Whether a result is what the progress says.
pub open spec fn ends_as(r: Result<(), Error>, error: Option<ErrorView>) -> bool {
    match error {
        Some(expected) => r matches Err(e) && e@ == expected,
        None => r is Ok,
    }
}

fn key_of(field: TextField) -> (key: &'static str)
    ensures
        key@ == field_key(field),
{
    match field {
        TextField::Content => "content",
        TextField::ReasoningContent => "reasoning_content",
        TextField::Reasoning => "reasoning",
    }
}

fn continue_text(target: &mut Option<String>, text: &str)
    ensures
        view_of(*final(target)) == Some(
            match view_of(*old(target)) {
                Some(earlier) => earlier + text@,
                None => text@,
            },
        ),
{
    let mut taken: Option<String> = None;
    std::mem::swap(target, &mut taken);
    *target = match taken {
        Some(mut earlier) => {
            earlier.append(text);
            Some(earlier)
        },
        None => Some(text.to_owned()),
    };
}

fn report_text(events: &mut Vec<StreamEvent>, field: TextField, text: &str)
    ensures
        views(final(events)@) == views(old(events)@) + text_event(field, text@),
{
    let ghost before = views(events@);
    if text.unicode_len() == 0 {
        assert(before + text_event(field, text@) =~= before);
        return;
    }
    if field == TextField::Content {
        events.push(StreamEvent::TextDelta { text: text.to_owned() });
    } else {
        events.push(StreamEvent::ReasoningDelta { text: text.to_owned() });
    }
    assert(views(events@) =~= before + text_event(field, text@));
}

fn list2(a: &str, b: &str) -> (r: Vec<String>)
    ensures
        views(r@) == seq![a@, b@],
{
    let mut r: Vec<String> = Vec::new();
    r.push(a.to_owned());
    r.push(b.to_owned());
    assert(views(r@) =~= seq![a@, b@]);
    r
}

impl ToolSlot {
    fn take_delta(&mut self, call: &Json) -> (r: Result<(), Error>)
        ensures
            final(self)@ == slot_delta(old(self)@, call@).slot,
            match slot_delta(old(self)@, call@).error {
                Some(message) => r matches Err(e) && e@ == ErrorView::Stream(message),
                None => r is Ok,
            },
    {
        if let Some(id) = call.present("id") {
            match id {
                Json::Str(id) => {
                    continue_text(&mut self.id, id.as_str());
                },
                _ => return Err(stream_error("invalid tool id")),
            }
        }
        if let Some(kind) = call.present("type") {
            self.kind = kind.duplicate();
        }
        if let Some(function) = call.present("function") {
            let fragments = list2("name", "arguments");
            let ghost before = self@;
            let r = merge_object(&mut self.function, function, &fragments);
            return r;
        }
        Ok(())
    }
}

impl Accumulator {
    fn take_text(&mut self, delta: &Json, field: TextField, events: &mut Vec<StreamEvent>) -> (r:
        Result<(), Error>)
        ensures
            final(self)@ == text_delta(old(self)@, delta@, field).acc,
            views(final(events)@) == views(old(events)@) + text_delta(
                old(self)@,
                delta@,
                field,
            ).events,
            ends_as(r, text_delta(old(self)@, delta@, field).error),
    {
        let ghost before = views(events@);
        let key = key_of(field);
        match delta.get(key) {
            Some(Json::Str(text)) => {
                match field {
                    TextField::Content => continue_text(&mut self.content, text.as_str()),
                    TextField::ReasoningContent => continue_text(
                        &mut self.reasoning_content,
                        text.as_str(),
                    ),
                    TextField::Reasoning => continue_text(&mut self.reasoning, text.as_str()),
                }
                report_text(events, field, text.as_str());
                Ok(())
            },
            Some(Json::Null) => {
                assert(before + Seq::<StreamView>::empty() =~= before);
                Ok(())
            },
            None => {
                assert(before + Seq::<StreamView>::empty() =~= before);
                Ok(())
            },
            Some(_) => {
                assert(before + Seq::<StreamView>::empty() =~= before);
                Err(Error::Stream(concat3("unsupported ", key, " delta type")))
            },
        }
    }

    fn take_detail_delta(
        &mut self,
        delta: &Json,
        detail: &Json,
        fragments: &Vec<String>,
        events: &mut Vec<StreamEvent>,
    ) -> (r: Result<(), Error>)
        requires
            views(fragments@) == detail_fragments(),
        ensures
            final(self)@ == detail_delta(old(self)@, delta@, detail@).acc,
            views(final(events)@) == views(old(events)@) + detail_delta(
                old(self)@,
                delta@,
                detail@,
            ).events,
            ends_as(r, detail_delta(old(self)@, delta@, detail@).error),
    {
        let ghost before = views(events@);
        let index: u64 = match detail.unsigned_at("index") {
            Some(index) => index,
            None => 0,
        };
        let (k, mut entries) = take_detail(&mut self.details, index);
        let r = merge_object(&mut entries, detail, fragments);
        let ghost merged_entries = entry_views(entries@);
        let ghost rest = detail_views(self.details@);
        self.details.insert(k, (index, entries));
        proof {
            assert(detail_views(self.details@) =~= rest.insert(k as int, (index, merged_entries)));
        }
        if let Err(error) = r {
            assert(before + Seq::<StreamView>::empty() =~= before);
            return Err(error);
        }
        let reasoning = text_or_empty(delta.text_at("reasoning"));
        let reasoning_content = text_or_empty(delta.text_at("reasoning_content"));
        if reasoning.as_str().unicode_len() == 0 && reasoning_content.as_str().unicode_len() == 0 {
            let text = match detail.text_at("text") {
                Some(text) => text.clone(),
                None => text_or_empty(detail.text_at("summary")),
            };
            report_text(events, TextField::Reasoning, text.as_str());
        } else {
            assert(before + Seq::<StreamView>::empty() =~= before);
        }
        Ok(())
    }

    fn take_details(&mut self, delta: &Json, events: &mut Vec<StreamEvent>) -> (r: Result<
        (),
        Error,
    >)
        ensures
            final(self)@ == details_delta(old(self)@, delta@).acc,
            views(final(events)@) == views(old(events)@) + details_delta(
                old(self)@,
                delta@,
            ).events,
            ends_as(r, details_delta(old(self)@, delta@).error),
    {
        let ghost before = views(events@);
        let details = match delta.present("reasoning_details") {
            None => {
                assert(before + Seq::<StreamView>::empty() =~= before);
                return Ok(());
            },
            Some(Json::Array(details)) => details,
            Some(_) => {
                assert(before + Seq::<StreamView>::empty() =~= before);
                return Err(stream_error("invalid reasoning_details"));
            },
        };
        let ghost all = views(details@);
        let ghost start = self@;
        proof {
            lemma_array(*details);
            assert(before + Seq::<StreamView>::empty() =~= before);
        }
        let mut fragments = list2("text", "summary");
        fragments.push("data".to_owned());
        fragments.push("signature".to_owned());
        assert(views(fragments@) =~= detail_fragments());
        let mut i: usize = 0;
        while i < details.len()
            invariant
                i <= details@.len(),
                all == views(details@),
                start == old(self)@,
                before == views(old(events)@),
                delta@.present("reasoning_details"@) == Some(Tree::Array(all)),
                views(fragments@) == detail_fragments(),
                details_in_turn(start, delta@, all.take(i as int)).acc == self@,
                details_in_turn(start, delta@, all.take(i as int)).error is None,
                views(events@) == before + details_in_turn(
                    start,
                    delta@,
                    all.take(i as int),
                ).events,
            decreases details@.len() - i,
        {
            proof {
                assert(all.take(i + 1).drop_last() =~= all.take(i as int));
                assert(all.take(i + 1).last() == details@[i as int]@);
            }
            let ghost so_far = details_in_turn(start, delta@, all.take(i as int)).events;
            let ghost now = detail_delta(self@, delta@, details@[i as int]@).events;
            let r = self.take_detail_delta(delta, &details[i], &fragments, events);
            assert((before + so_far) + now =~= before + (so_far + now));
            if let Err(error) = r {
                proof {
                    lemma_details_stop(start, delta@, all, i + 1);
                }
                return Err(error);
            }
            i += 1;
        }
        assert(all.take(i as int) =~= all);
        Ok(())
    }

    fn take_annotations(&mut self, delta: &Json) -> (r: Result<(), Error>)
        ensures
            final(self)@ == annotations_delta(old(self)@, delta@).acc,
            annotations_delta(old(self)@, delta@).events == Seq::<StreamView>::empty(),
            ends_as(r, annotations_delta(old(self)@, delta@).error),
    {
        let items = match delta.present("annotations") {
            None => return Ok(()),
            Some(Json::Array(items)) => items,
            Some(_) => return Err(stream_error("invalid annotations")),
        };
        proof {
            lemma_array(*items);
        }
        let ghost before = self@;
        let mut taken: Option<Vec<Json>> = None;
        std::mem::swap(&mut self.annotations, &mut taken);
        let mut list: Vec<Json> = match taken {
            Some(list) => list,
            None => Vec::new(),
        };
        let ghost earlier = views(list@);
        let mut more = crate::common::duplicate_all(items);
        let ghost added = views(more@);
        list.append(&mut more);
        proof {
            assert(views(list@) =~= earlier + added);
            if before.annotations is None {
                assert(earlier + added =~= added);
            }
        }
        self.annotations = Some(list);
        Ok(())
    }

    fn take_tool_delta(&mut self, call: &Json, events: &mut Vec<StreamEvent>) -> (r: Result<
        (),
        Error,
    >)
        ensures
            final(self)@ == tool_delta(old(self)@, call@).acc,
            views(final(events)@) == views(old(events)@) + tool_delta(old(self)@, call@).events,
            ends_as(r, tool_delta(old(self)@, call@).error),
    {
        let ghost before = views(events@);
        assert(before + Seq::<StreamView>::empty() =~= before);
        let index: u64 = match call.unsigned_at("index") {
            Some(index) => index,
            None => return Err(stream_error("tool delta has no index")),
        };
        let (k, mut slot) = take_tool(&mut self.tools, index);
        let r = slot.take_delta(call);
        let ghost now = slot@;
        let ghost rest = slot_views(self.tools@);
        self.tools.insert(k, (index, slot));
        proof {
            assert(slot_views(self.tools@) =~= rest.insert(k as int, (index, now)));
        }
        if let Err(error) = r {
            return Err(error);
        }
        events.push(StreamEvent::ToolCallDelta { index, delta: call.duplicate() });
        assert(views(events@) =~= before + tool_delta(old(self)@, call@).events);
        Ok(())
    }

    fn take_tools(&mut self, delta: &Json, events: &mut Vec<StreamEvent>) -> (r: Result<(), Error>)
        ensures
            final(self)@ == tools_delta(old(self)@, delta@).acc,
            views(final(events)@) == views(old(events)@) + tools_delta(old(self)@, delta@).events,
            ends_as(r, tools_delta(old(self)@, delta@).error),
    {
        let ghost before = views(events@);
        assert(before + Seq::<StreamView>::empty() =~= before);
        let calls = match delta.present("tool_calls") {
            None => return Ok(()),
            Some(Json::Array(calls)) => calls,
            Some(_) => return Err(stream_error("invalid tool call deltas")),
        };
        let ghost all = views(calls@);
        let ghost start = self@;
        proof {
            lemma_array(*calls);
        }
        let mut i: usize = 0;
        while i < calls.len()
            invariant
                i <= calls@.len(),
                all == views(calls@),
                start == old(self)@,
                before == views(old(events)@),
                delta@.present("tool_calls"@) == Some(Tree::Array(all)),
                tools_in_turn(start, all.take(i as int)).acc == self@,
                tools_in_turn(start, all.take(i as int)).error is None,
                views(events@) == before + tools_in_turn(start, all.take(i as int)).events,
            decreases calls@.len() - i,
        {
            proof {
                assert(all.take(i + 1).drop_last() =~= all.take(i as int));
                assert(all.take(i + 1).last() == calls@[i as int]@);
            }
            let ghost so_far = tools_in_turn(start, all.take(i as int)).events;
            let ghost now = tool_delta(self@, calls@[i as int]@).events;
            let r = self.take_tool_delta(&calls[i], events);
            assert((before + so_far) + now =~= before + (so_far + now));
            if let Err(error) = r {
                proof {
                    lemma_tools_stop(start, all, i + 1);
                }
                return Err(error);
            }
            i += 1;
        }
        assert(all.take(i as int) =~= all);
        Ok(())
    }

    fn take_choice_delta(&mut self, delta: &Json, events: &mut Vec<StreamEvent>) -> (r: Result<
        (),
        Error,
    >)
        ensures
            final(self)@ == choice_delta(old(self)@, delta@).acc,
            views(final(events)@) == views(old(events)@) + choice_delta(
                old(self)@,
                delta@,
            ).events,
            ends_as(r, choice_delta(old(self)@, delta@).error),
    {
        let ghost before = views(events@);
        let ghost a0 = self@;
        let ghost p1 = text_delta(a0, delta@, TextField::Content);
        let ghost p2 = continued(
            p1,
            |a: AccView| text_delta(a, delta@, TextField::ReasoningContent),
        );
        let ghost p3 = continued(p2, |a: AccView| text_delta(a, delta@, TextField::Reasoning));
        let ghost p4 = continued(p3, |a: AccView| details_delta(a, delta@));
        let ghost p5 = continued(p4, |a: AccView| annotations_delta(a, delta@));
        let ghost p6 = continued(p5, |a: AccView| tools_delta(a, delta@));
        assert(choice_delta(a0, delta@) == p6);
        let r = self.take_text(delta, TextField::Content, events);
        if r.is_err() {
            return r;
        }
        let ghost now = text_delta(self@, delta@, TextField::ReasoningContent).events;
        let r = self.take_text(delta, TextField::ReasoningContent, events);
        assert((before + p1.events) + now =~= before + (p1.events + now));
        if r.is_err() {
            return r;
        }
        let ghost now = text_delta(self@, delta@, TextField::Reasoning).events;
        let r = self.take_text(delta, TextField::Reasoning, events);
        assert((before + p2.events) + now =~= before + (p2.events + now));
        if r.is_err() {
            return r;
        }
        let ghost now = details_delta(self@, delta@).events;
        let r = self.take_details(delta, events);
        assert((before + p3.events) + now =~= before + (p3.events + now));
        if r.is_err() {
            return r;
        }
        let r = self.take_annotations(delta);
        assert(p5.events =~= p4.events);
        if r.is_err() {
            return r;
        }
        let ghost now = tools_delta(self@, delta@).events;
        let r = self.take_tools(delta, events);
        assert((before + p5.events) + now =~= before + (p5.events + now));
        r
    }

    fn take_choice(&mut self, choice: &Json, events: &mut Vec<StreamEvent>) -> (r: Result<
        (),
        Error,
    >)
        ensures
            final(self)@ == choice_step(old(self)@, choice@).acc,
            views(final(events)@) == views(old(events)@) + choice_step(
                old(self)@,
                choice@,
            ).events,
            ends_as(r, choice_step(old(self)@, choice@).error),
    {
        let ghost before = views(events@);
        assert(before + Seq::<StreamView>::empty() =~= before);
        match choice.unsigned_at("index") {
            Some(0) => {},
            _ => return Ok(()),
        }
        self.seen_choice = true;
        if let Some(reason) = choice.text_at("finish_reason") {
            if same_text(reason.as_str(), "error") {
                return Err(stream_error("provider reported a generation error"));
            }
            self.finish = Some(reason.clone());
        }
        let delta = match choice.get("delta") {
            None => return Ok(()),
            Some(Json::Null) => return Ok(()),
            Some(delta) => delta,
        };
        if !delta.is_object() {
            return Err(stream_error("invalid choice delta"));
        }
        self.take_choice_delta(delta, events)
    }

    fn take_metadata(&mut self, fields: &Vec<(String, Json)>)
        ensures
            final(self)@ == (AccView {
                metadata: metadata_with(old(self)@.metadata, entry_views(fields@)),
                ..old(self)@
            }),
    {
        let ghost all = entry_views(fields@);
        let ghost start = self@;
        let mut i: usize = 0;
        while i < fields.len()
            invariant
                i <= fields@.len(),
                all == entry_views(fields@),
                self@ == (AccView {
                    metadata: metadata_with(start.metadata, all.take(i as int)),
                    ..start
                }),
            decreases fields@.len() - i,
        {
            proof {
                assert(all.take(i + 1).drop_last() =~= all.take(i as int));
                assert(all.take(i + 1).last() == (fields@[i as int].0@, fields@[i as int].1@));
            }
            let key = fields[i].0.as_str();
            if !same_text(key, "choices") && !same_text(key, "object") {
                set_entry(&mut self.metadata, key, fields[i].1.duplicate());
            }
            i += 1;
        }
        assert(all.take(i as int) =~= all);
    }

    fn take_chunk(&mut self, chunk: &Json, events: &mut Vec<StreamEvent>) -> (r: Result<
        (),
        Error,
    >)
        ensures
            final(self)@ == chunk_step(old(self)@, chunk@).acc,
            views(final(events)@) == views(old(events)@) + chunk_step(old(self)@, chunk@).events,
            ends_as(r, chunk_step(old(self)@, chunk@).error),
    {
        let ghost before = views(events@);
        assert(before + Seq::<StreamView>::empty() =~= before);
        let fields = match chunk {
            Json::Object(fields) => fields,
            _ => return Err(stream_error("expected a chunk object")),
        };
        proof {
            lemma_object(*fields);
        }
        self.take_metadata(fields);
        let choices = match chunk.get("choices") {
            Some(Json::Array(choices)) => choices,
            _ => return Err(stream_error("chunk has no choices array")),
        };
        let ghost all = views(choices@);
        let ghost start = self@;
        proof {
            lemma_array(*choices);
        }
        let mut i: usize = 0;
        while i < choices.len()
            invariant
                i <= choices@.len(),
                all == views(choices@),
                before == views(old(events)@),
                chunk_step(old(self)@, chunk@) == choices_in_turn(start, all),
                choices_in_turn(start, all.take(i as int)).acc == self@,
                choices_in_turn(start, all.take(i as int)).error is None,
                views(events@) == before + choices_in_turn(start, all.take(i as int)).events,
            decreases choices@.len() - i,
        {
            proof {
                assert(all.take(i + 1).drop_last() =~= all.take(i as int));
                assert(all.take(i + 1).last() == choices@[i as int]@);
            }
            let ghost so_far = choices_in_turn(start, all.take(i as int)).events;
            let ghost now = choice_step(self@, choices@[i as int]@).events;
            let r = self.take_choice(&choices[i], events);
            assert((before + so_far) + now =~= before + (so_far + now));
            if let Err(error) = r {
                proof {
                    lemma_choices_stop(start, all, i + 1);
                }
                return Err(error);
            }
            i += 1;
        }
        assert(all.take(i as int) =~= all);
        Ok(())
    }

    /// Take the next chunk of a response, and return the events that it gives rise to.
    pub fn push(&mut self, chunk: &Json) -> (r: Result<Vec<StreamEvent>, Error>)
        ensures
            pushed(old(self)@, chunk@, final(self)@, r),
    {
        if let Some(error) = chunk.present("error") {
            return Err(Error::Stream(concat2("provider error: ", render(error).as_str())));
        }
        let mut events: Vec<StreamEvent> = Vec::new();
        let r = self.take_chunk(chunk, &mut events);
        assert(Seq::<StreamView>::empty() + chunk_step(old(self)@, chunk@).events =~= chunk_step(
            old(self)@,
            chunk@,
        ).events);
        match r {
            Ok(()) => Ok(events),
            Err(error) => Err(error),
        }
    }

    /// Take the next chunk, which the text of an event holds.
    pub fn push_text(&mut self, text: &str) -> (r: Result<Vec<StreamEvent>, Error>)
        ensures
            match parsed_value(encode_utf8(text@)) {
                Ok(chunk) => pushed(old(self)@, chunk, final(self)@, r),
                Err(message) => (r matches Err(e) && e@ == ErrorView::Json(message))
                    && final(self)@ == old(self)@,
            },
    {
        match parse_value(text.as_bytes()) {
            Ok(chunk) => self.push(&chunk),
            Err(error) => Err(error),
        }
    }
}

fn text_or_empty(text: Option<&String>) -> (r: String)
    ensures
        r@ == match text {
            Some(text) => text@,
            None => seq![],
        },
{
    match text {
        Some(text) => text.clone(),
        None => {
            let r = String::new();
            assert(r@ =~= seq![]);
            r
        },
    }
}

proof fn lemma_details_stop(acc: AccView, delta: Tree, details: Seq<Tree>, k: int)
    requires
        0 <= k <= details.len(),
        details_in_turn(acc, delta, details.take(k)).error is Some,
    ensures
        details_in_turn(acc, delta, details) == details_in_turn(acc, delta, details.take(k)),
    decreases details.len(),
{
    if k == details.len() {
        assert(details.take(k) =~= details);
    } else {
        assert(details.drop_last().take(k) =~= details.take(k));
        lemma_details_stop(acc, delta, details.drop_last(), k);
    }
}

proof fn lemma_tools_stop(acc: AccView, calls: Seq<Tree>, k: int)
    requires
        0 <= k <= calls.len(),
        tools_in_turn(acc, calls.take(k)).error is Some,
    ensures
        tools_in_turn(acc, calls) == tools_in_turn(acc, calls.take(k)),
    decreases calls.len(),
{
    if k == calls.len() {
        assert(calls.take(k) =~= calls);
    } else {
        assert(calls.drop_last().take(k) =~= calls.take(k));
        lemma_tools_stop(acc, calls.drop_last(), k);
    }
}

proof fn lemma_choices_stop(acc: AccView, choices: Seq<Tree>, k: int)
    requires
        0 <= k <= choices.len(),
        choices_in_turn(acc, choices.take(k)).error is Some,
    ensures
        choices_in_turn(acc, choices) == choices_in_turn(acc, choices.take(k)),
    decreases choices.len(),
{
    if k == choices.len() {
        assert(choices.take(k) =~= choices);
    } else {
        assert(choices.drop_last().take(k) =~= choices.take(k));
        lemma_choices_stop(acc, choices.drop_last(), k);
    }
}

impl Default for Accumulator {
    fn default() -> (acc: Self)
        ensures
            acc@ == AccView::initial(),
    {
        let acc = Accumulator {
            metadata: Vec::new(),
            content: None,
            reasoning_content: None,
            reasoning: None,
            annotations: None,
            tools: Vec::new(),
            details: Vec::new(),
            finish: None,
            seen_choice: false,
        };
        assert(acc@.metadata =~= seq![]);
        assert(acc@.tools =~= seq![]);
        assert(acc@.details =~= seq![]);
        acc
    }
}

// ---------------------------------------------------------------------------------------------
// The assembled response
// ---------------------------------------------------------------------------------------------

/// Whether generation can end for the reason.
pub open spec fn complete_reason(reason: Seq<char>) -> bool {
    reason == "stop"@ || reason == "tool_calls"@ || reason == "length"@ || reason
        == "content_filter"@
}

/// The tool call in a slot, or the error of a field that it lacks or that is no string.
pub open spec fn slot_call(slot: SlotView) -> Result<CallView, ErrorView> {
    match (lookup(slot.function, "name"@), lookup(slot.function, "arguments"@)) {
        (Some(Tree::Str(name)), Some(Tree::Str(arguments))) => match (text_of(slot.kind), slot.id) {
            (Ok(kind), Some(id)) => Ok(CallView { id, kind, name, arguments }),
            (Ok(_), None) => Err(ErrorView::Json(missing_message("id"@))),
            (Err(error), _) => Err(error),
        },
        (Some(Tree::Str(_)), _) => Err(ErrorView::Json(missing_message("arguments"@))),
        _ => Err(ErrorView::Json(missing_message("name"@))),
    }
}

/// What is wrong with the call in slot `k`, where something is: it has to be complete, a function,
/// the first with its id, and its arguments a JSON object.
pub open spec fn call_error(tools: Seq<(u64, SlotView)>, k: int) -> Option<ErrorView> {
    match slot_call(tools[k].1) {
        Err(error) => Some(error),
        Ok(call) => if call.id.len() == 0 || call.name.len() == 0 || call.kind != "function"@
            || id_taken(tools, k, call.id) {
            Some(ErrorView::Stream("incomplete or duplicate tool call"@))
        } else {
            match parsed_json(call.arguments) {
                Err(message) => Some(ErrorView::Json(message)),
                Ok(json) => if json.shape is Object {
                    None
                } else {
                    Some(ErrorView::Stream("tool arguments must be a JSON object"@))
                },
            }
        },
    }
}

/// Whether a slot before `k` has the id.
pub open spec fn id_taken(tools: Seq<(u64, SlotView)>, k: int, id: Seq<char>) -> bool {
    exists|j: int| 0 <= j < k && (#[trigger] tools[j]).1.id == Some(id)
}

/// The first error among the first `k` calls.
pub open spec fn calls_error(tools: Seq<(u64, SlotView)>, k: int) -> Option<ErrorView>
    decreases k,
{
    if k <= 0 {
        None
    } else {
        match calls_error(tools, k - 1) {
            Some(error) => Some(error),
            None => call_error(tools, k - 1),
        }
    }
}

/// Why a stream that ended is no response, where it is none.
pub open spec fn finish_error(acc: AccView) -> Option<ErrorView> {
    match acc.finish {
        None => Some(ErrorView::Stream("stream ended without a completed choice"@)),
        Some(reason) => if !acc.seen_choice {
            Some(ErrorView::Stream("stream ended without a completed choice"@))
        } else if !complete_reason(reason) {
            Some(ErrorView::Stream("generation stopped: "@ + reason))
        } else if acc.tools.len() == 0 {
            if reason == "tool_calls"@ {
                Some(ErrorView::Stream("stream finished with missing tool calls"@))
            } else {
                None
            }
        } else if reason != "tool_calls"@ && reason != "stop"@ {
            Some(ErrorView::Stream("tool call generation was interrupted"@))
        } else {
            calls_error(acc.tools, acc.tools.len() as int)
        },
    }
}

/// An entry for a text, where there is one.
pub open spec fn text_entry(key: Seq<char>, text: Option<Seq<char>>) -> Seq<(Seq<char>, Tree)> {
    match text {
        Some(text) => seq![(key, Tree::Str(text))],
        None => seq![],
    }
}

/// A tool call as the value that providers send.
pub open spec fn slot_tree(slot: SlotView) -> Tree {
    Tree::Object(
        seq![("type"@, slot.kind), ("function"@, Tree::Object(slot.function))] + text_entry(
            "id"@,
            slot.id,
        ),
    )
}

/// A reasoning detail as the value that providers send, its index kept for replay.
pub open spec fn detail_tree(index: u64, entries: Seq<(Seq<char>, Tree)>) -> Tree {
    Tree::Object(assigned(entries, "index"@, Tree::Unsigned(index)))
}

/// The assembled message.
pub open spec fn message_fields(acc: AccView) -> Seq<(Seq<char>, Tree)> {
    text_entry("content"@, acc.content) + text_entry("reasoning_content"@, acc.reasoning_content)
        + text_entry("reasoning"@, acc.reasoning) + (match acc.annotations {
        Some(items) => seq![("annotations"@, Tree::Array(items))],
        None => seq![],
    }) + (if acc.tools.len() > 0 {
        seq![
            (
                "tool_calls"@,
                Tree::Array(acc.tools.map_values(|s: (u64, SlotView)| slot_tree(s.1))),
            ),
        ]
    } else {
        seq![]
    }) + (if acc.details.len() > 0 {
        seq![
            (
                "reasoning_details"@,
                Tree::Array(
                    acc.details.map_values(
                        |d: (u64, Seq<(Seq<char>, Tree)>)| detail_tree(d.0, d.1),
                    ),
                ),
            ),
        ]
    } else {
        seq![]
    }) + seq![("role"@, Tree::Str("assistant"@))]
}

/// The assembled response.
pub open spec fn assembled(acc: AccView) -> Tree {
    let choice = Tree::Object(
        seq![
            ("index"@, Tree::Unsigned(0)),
            ("finish_reason"@, Tree::Str(acc.finish->0)),
            ("message"@, Tree::Object(message_fields(acc))),
        ],
    );
    Tree::Object(
        assigned(
            assigned(acc.metadata, "object"@, Tree::Str("chat.completion"@)),
            "choices"@,
            Tree::Array(seq![choice]),
        ),
    )
}

fn decode_slot(slot: &ToolSlot) -> (r: Result<ToolCall, Error>)
    ensures
        match slot_call(slot@) {
            Ok(call) => r matches Ok(c) && c@ == call,
            Err(error) => r matches Err(e) && e@ == error,
        },
{
    let name = match get_entry(&slot.function, "name") {
        Some(Json::Str(name)) => name,
        _ => return Err(Error::Json(missing_field("name"))),
    };
    let arguments = match get_entry(&slot.function, "arguments") {
        Some(Json::Str(arguments)) => arguments,
        _ => return Err(Error::Json(missing_field("arguments"))),
    };
    let kind = match decode_text(&slot.kind) {
        Ok(kind) => kind,
        Err(error) => return Err(error),
    };
    match &slot.id {
        Some(id) => Ok(
            ToolCall {
                id: id.clone(),
                kind,
                function: ToolCallFunction { name: name.clone(), arguments: arguments.clone() },
            },
        ),
        None => Err(Error::Json(missing_field("id"))),
    }
}

fn check_call(tools: &Vec<(u64, ToolSlot)>, k: usize) -> (r: Result<(), Error>)
    requires
        k < tools@.len(),
    ensures
        ends_as(r, call_error(slot_views(tools@), k as int)),
{
    let ghost all = slot_views(tools@);
    let call = match decode_slot(&tools[k].1) {
        Ok(call) => call,
        Err(error) => return Err(error),
    };
    let mut taken = false;
    let mut j: usize = 0;
    while j < k
        invariant
            j <= k < tools@.len(),
            all == slot_views(tools@),
            taken == (exists|i: int| 0 <= i < j && (#[trigger] all[i]).1.id == Some(call@.id)),
        decreases k - j,
    {
        let same = match &tools[j].1.id {
            Some(id) => same_text(id.as_str(), call.id.as_str()),
            None => false,
        };
        assert(same == (all[j as int].1.id == Some(call@.id)));
        taken = taken || same;
        j += 1;
    }
    if call.id.as_str().unicode_len() == 0 || call.function.name.as_str().unicode_len() == 0
        || !same_text(call.kind.as_str(), "function") || taken {
        return Err(stream_error("incomplete or duplicate tool call"));
    }
    match JsonText::parse(call.function.arguments.as_str()) {
        Err(error) => Err(error),
        Ok(json) => if json.is_object() {
            Ok(())
        } else {
            Err(stream_error("tool arguments must be a JSON object"))
        },
    }
}

fn check_calls(tools: &Vec<(u64, ToolSlot)>) -> (r: Result<(), Error>)
    ensures
        ends_as(r, calls_error(slot_views(tools@), tools@.len() as int)),
{
    let ghost all = slot_views(tools@);
    let mut k: usize = 0;
    while k < tools.len()
        invariant
            k <= tools@.len(),
            all == slot_views(tools@),
            calls_error(all, k as int) is None,
        decreases tools@.len() - k,
    {
        let r = check_call(tools, k);
        assert(calls_error(all, k + 1) == call_error(all, k as int));
        if r.is_err() {
            proof {
                lemma_calls_error_lasts(all, k + 1, all.len() as int);
            }
            return r;
        }
        k += 1;
    }
    Ok(())
}

proof fn lemma_calls_error_lasts(tools: Seq<(u64, SlotView)>, k: int, n: int)
    requires
        0 <= k <= n,
        calls_error(tools, k) is Some,
    ensures
        calls_error(tools, n) == calls_error(tools, k),
    decreases n - k,
{
    if k < n {
        lemma_calls_error_lasts(tools, k, n - 1);
    }
}

fn push_text(fields: &mut Vec<(String, Json)>, key: &str, text: &Option<String>)
    ensures
        entry_views(final(fields)@) == entry_views(old(fields)@) + text_entry(key@, view_of(*text)),
{
    let ghost before = entry_views(fields@);
    match text {
        Some(text) => {
            fields.push((key.to_owned(), Json::Str(text.clone())));
            assert(entry_views(fields@) =~= before + text_entry(key@, Some(text@)));
        },
        None => {
            assert(before + text_entry(key@, None) =~= before);
        },
    }
}

fn slot_value(slot: &ToolSlot) -> (value: Json)
    ensures
        value@ == slot_tree(slot@),
{
    let mut fields: Vec<(String, Json)> = Vec::new();
    fields.push(("type".to_owned(), slot.kind.duplicate()));
    let function = Json::Object(duplicate_entries(&slot.function));
    proof {
        lemma_object(function->Object_0);
    }
    fields.push(("function".to_owned(), function));
    assert(entry_views(fields@) =~= seq![
        ("type"@, slot@.kind),
        ("function"@, Tree::Object(slot@.function)),
    ]);
    push_text(&mut fields, "id", &slot.id);
    proof {
        lemma_object(fields);
    }
    Json::Object(fields)
}

fn tool_values(tools: &Vec<(u64, ToolSlot)>) -> (value: Json)
    ensures
        value@ == Tree::Array(
            slot_views(tools@).map_values(|s: (u64, SlotView)| slot_tree(s.1)),
        ),
{
    let ghost all = slot_views(tools@).map_values(|s: (u64, SlotView)| slot_tree(s.1));
    let mut items: Vec<Json> = Vec::new();
    let mut i: usize = 0;
    while i < tools.len()
        invariant
            i <= tools@.len(),
            all == slot_views(tools@).map_values(|s: (u64, SlotView)| slot_tree(s.1)),
            views(items@) =~= all.take(i as int),
        decreases tools@.len() - i,
    {
        items.push(slot_value(&tools[i].1));
        proof {
            lemma_take_push(all, i as int);
        }
        i += 1;
    }
    proof {
        assert(all.take(i as int) =~= all);
        lemma_array(items);
    }
    Json::Array(items)
}

fn detail_values(details: &Vec<(u64, Vec<(String, Json)>)>) -> (value: Json)
    ensures
        value@ == Tree::Array(
            detail_views(details@).map_values(
                |d: (u64, Seq<(Seq<char>, Tree)>)| detail_tree(d.0, d.1),
            ),
        ),
{
    let ghost all = detail_views(details@).map_values(
        |d: (u64, Seq<(Seq<char>, Tree)>)| detail_tree(d.0, d.1),
    );
    let mut items: Vec<Json> = Vec::new();
    let mut i: usize = 0;
    while i < details.len()
        invariant
            i <= details@.len(),
            all == detail_views(details@).map_values(
                |d: (u64, Seq<(Seq<char>, Tree)>)| detail_tree(d.0, d.1),
            ),
            views(items@) =~= all.take(i as int),
        decreases details@.len() - i,
    {
        let mut fields = duplicate_entries(&details[i].1);
        set_entry(&mut fields, "index", Json::Unsigned(details[i].0));
        proof {
            lemma_object(fields);
            lemma_take_push(all, i as int);
        }
        items.push(Json::Object(fields));
        i += 1;
    }
    proof {
        assert(all.take(i as int) =~= all);
        lemma_array(items);
    }
    Json::Array(items)
}

fn push_field(fields: &mut Vec<(String, Json)>, key: &str, value: Json)
    ensures
        entry_views(final(fields)@) == entry_views(old(fields)@) + seq![(key@, value@)],
{
    let ghost before = entry_views(fields@);
    fields.push((key.to_owned(), value));
    assert(entry_views(fields@) =~= before + seq![(key@, value@)]);
}

impl Accumulator {
    fn message_value(&self) -> (value: Json)
        ensures
            value@ == Tree::Object(message_fields(self@)),
    {
        let mut fields: Vec<(String, Json)> = Vec::new();
        assert(entry_views(fields@) =~= seq![]);
        push_text(&mut fields, "content", &self.content);
        assert(Seq::<(Seq<char>, Tree)>::empty() + text_entry("content"@, self@.content)
            =~= text_entry("content"@, self@.content));
        push_text(&mut fields, "reasoning_content", &self.reasoning_content);
        push_text(&mut fields, "reasoning", &self.reasoning);
        let ghost none = Seq::<(Seq<char>, Tree)>::empty();
        let ghost before = entry_views(fields@);
        assert(before + none =~= before);
        if let Some(items) = &self.annotations {
            let items = crate::common::duplicate_all(items);
            proof {
                lemma_array(items);
            }
            push_field(&mut fields, "annotations", Json::Array(items));
        }
        let ghost before = entry_views(fields@);
        assert(before + none =~= before);
        if self.tools.len() > 0 {
            push_field(&mut fields, "tool_calls", tool_values(&self.tools));
        }
        let ghost before = entry_views(fields@);
        assert(before + none =~= before);
        if self.details.len() > 0 {
            push_field(&mut fields, "reasoning_details", detail_values(&self.details));
        }
        push_field(&mut fields, "role", Json::Str("assistant".to_owned()));
        proof {
            lemma_object(fields);
        }
        Json::Object(fields)
    }

    /// The response that the chunks make, once the stream has ended.
    pub fn finish(self) -> (r: Result<Json, Error>)
        ensures
            match finish_error(self@) {
                Some(error) => r matches Err(e) && e@ == error,
                None => r matches Ok(value) && value@ == assembled(self@),
            },
    {
        let reason = match &self.finish {
            Some(reason) => reason.clone(),
            None => return Err(stream_error("stream ended without a completed choice")),
        };
        if !self.seen_choice {
            return Err(stream_error("stream ended without a completed choice"));
        }
        let stop = same_text(reason.as_str(), "stop");
        let tool_calls = same_text(reason.as_str(), "tool_calls");
        if !stop && !tool_calls && !same_text(reason.as_str(), "length") && !same_text(
            reason.as_str(),
            "content_filter",
        ) {
            let mut message = "generation stopped: ".to_owned();
            message.append(reason.as_str());
            return Err(Error::Stream(message));
        }
        if self.tools.len() == 0 {
            if tool_calls {
                return Err(stream_error("stream finished with missing tool calls"));
            }
        } else {
            if !tool_calls && !stop {
                return Err(stream_error("tool call generation was interrupted"));
            }
            match check_calls(&self.tools) {
                Ok(()) => {},
                Err(error) => return Err(error),
            }
        }
        let message = self.message_value();
        let mut choice: Vec<(String, Json)> = Vec::new();
        choice.push(("index".to_owned(), Json::Unsigned(0)));
        choice.push(("finish_reason".to_owned(), Json::Str(reason)));
        choice.push(("message".to_owned(), message));
        proof {
            lemma_object(choice);
            assert(entry_views(choice@) =~= seq![
                ("index"@, Tree::Unsigned(0)),
                ("finish_reason"@, Tree::Str(self@.finish->0)),
                ("message"@, Tree::Object(message_fields(self@))),
            ]);
        }
        let mut choices: Vec<Json> = Vec::new();
        choices.push(Json::Object(choice));
        proof {
            lemma_array(choices);
            assert(views(choices@) =~= seq![choices@[0]@]);
        }
        let mut fields = self.metadata;
        set_entry(&mut fields, "object", Json::Str("chat.completion".to_owned()));
        set_entry(&mut fields, "choices", Json::Array(choices));
        proof {
            lemma_object(fields);
        }
        Ok(Json::Object(fields))
    }
}

} // verus!
