//! Context estimates: how much of a model's context a session's history takes.

use vstd::prelude::*;

use crate::chat::{CallView, MessageRole, ReasoningPayload, ReasoningView, ToolCall};
use crate::common::{add_capped, bytes_of, chars_of, duplicate_option};
use crate::common::{byte_len, capped, view_of, views, Duplicate};
use crate::json::JsonView;
use crate::session::turn::{SessionTurn, TurnView};
use crate::text::same_text;
use crate::tools::compact::{preview, preview_view};

verus! {

// ---------------------------------------------------------------------------------------------
// Types
// ---------------------------------------------------------------------------------------------

/// When and how a session trims its context.
#[derive(Clone, Copy, Debug, PartialEq, Eq, Structural)]
pub struct CompactionConfig {
    pub enabled: bool,
    pub trigger_estimated_tokens: usize,
    pub target_estimated_tokens: usize,
    pub max_compaction_rounds: usize,
    pub always_offer_tools: bool,
    pub protect_recent_turns: usize,
    pub top_consumers: usize,
}

/// The estimated usage of one turn.
#[derive(Debug, PartialEq, Eq)]
pub struct ContextUsage {
    pub turn_id: u64,
    pub role: MessageRole,
    pub name: Option<String>,
    pub bytes: usize,
    pub estimated_tokens: usize,
    pub summary: String,
}

/// The estimated usage of one tool call with its results.
#[derive(Debug, PartialEq, Eq)]
pub struct ToolCallUsage {
    pub tool_call_id: String,
    pub name: String,
    pub request_turn_id: u64,
    pub result_turn_ids: Vec<u64>,
    pub bytes: usize,
    pub estimated_tokens: usize,
    pub arguments_preview: String,
}

/// Estimated usage of a whole session, with its largest consumers first.
#[derive(Debug, PartialEq, Eq)]
pub struct ContextUsageBreakdown {
    pub total_bytes: usize,
    pub total_estimated_tokens: usize,
    pub largest_turns: Vec<ContextUsage>,
    pub largest_tool_calls: Vec<ToolCallUsage>,
}

/// The model of a [`ContextUsage`].
pub struct UsageView {
    pub turn_id: u64,
    pub role: MessageRole,
    pub name: Option<Seq<char>>,
    pub bytes: usize,
    pub tokens: usize,
    pub summary: Seq<char>,
}

/// The model of a [`ToolCallUsage`].
pub struct CallUsageView {
    pub tool_call_id: Seq<char>,
    pub name: Seq<char>,
    pub request_turn_id: u64,
    pub result_turn_ids: Seq<u64>,
    pub bytes: usize,
    pub tokens: usize,
    pub arguments_preview: Seq<char>,
}

/// The model of a [`ContextUsageBreakdown`].
pub struct BreakdownView {
    pub total_bytes: usize,
    pub total_tokens: usize,
    pub largest_turns: Seq<UsageView>,
    pub largest_tool_calls: Seq<CallUsageView>,
}

impl View for ContextUsage {
    type V = UsageView;

    open spec fn view(&self) -> UsageView {
        UsageView {
            turn_id: self.turn_id,
            role: self.role,
            name: view_of(self.name),
            bytes: self.bytes,
            tokens: self.estimated_tokens,
            summary: self.summary@,
        }
    }
}

impl View for ToolCallUsage {
    type V = CallUsageView;

    open spec fn view(&self) -> CallUsageView {
        CallUsageView {
            tool_call_id: self.tool_call_id@,
            name: self.name@,
            request_turn_id: self.request_turn_id,
            result_turn_ids: self.result_turn_ids@,
            bytes: self.bytes,
            tokens: self.estimated_tokens,
            arguments_preview: self.arguments_preview@,
        }
    }
}

impl View for ContextUsageBreakdown {
    type V = BreakdownView;

    open spec fn view(&self) -> BreakdownView {
        BreakdownView {
            total_bytes: self.total_bytes,
            total_tokens: self.total_estimated_tokens,
            largest_turns: views(self.largest_turns@),
            largest_tool_calls: views(self.largest_tool_calls@),
        }
    }
}

impl Duplicate for ContextUsage {
    fn duplicate(&self) -> (copy: Self) {
        ContextUsage {
            turn_id: self.turn_id,
            role: self.role,
            name: duplicate_option(&self.name),
            bytes: self.bytes,
            estimated_tokens: self.estimated_tokens,
            summary: self.summary.clone(),
        }
    }
}

impl Clone for ContextUsage {
    fn clone(&self) -> (copy: Self)
        ensures
            copy@ == self@,
    {
        self.duplicate()
    }
}

impl Duplicate for ToolCallUsage {
    fn duplicate(&self) -> (copy: Self) {
        ToolCallUsage {
            tool_call_id: self.tool_call_id.clone(),
            name: self.name.clone(),
            request_turn_id: self.request_turn_id,
            result_turn_ids: self.result_turn_ids.clone(),
            bytes: self.bytes,
            estimated_tokens: self.estimated_tokens,
            arguments_preview: self.arguments_preview.clone(),
        }
    }
}

impl Clone for ToolCallUsage {
    fn clone(&self) -> (copy: Self)
        ensures
            copy@ == self@,
    {
        self.duplicate()
    }
}

impl Default for ContextUsageBreakdown {
    fn default() -> (breakdown: Self)
        ensures
            breakdown@ == (BreakdownView {
                total_bytes: 0,
                total_tokens: 0,
                largest_turns: seq![],
                largest_tool_calls: seq![],
            }),
    {
        let breakdown = ContextUsageBreakdown {
            total_bytes: 0,
            total_estimated_tokens: 0,
            largest_turns: Vec::new(),
            largest_tool_calls: Vec::new(),
        };
        assert(breakdown@.largest_turns =~= seq![]);
        assert(breakdown@.largest_tool_calls =~= seq![]);
        breakdown
    }
}

impl Default for CompactionConfig {
    fn default() -> (config: Self)
        ensures
            config == (CompactionConfig {
                enabled: true,
                trigger_estimated_tokens: 200_000,
                target_estimated_tokens: 160_000,
                max_compaction_rounds: 4,
                always_offer_tools: true,
                protect_recent_turns: 4,
                top_consumers: 30,
            }),
    {
        CompactionConfig {
            enabled: true,
            trigger_estimated_tokens: 200_000,
            target_estimated_tokens: 160_000,
            max_compaction_rounds: 4,
            always_offer_tools: true,
            protect_recent_turns: 4,
            top_consumers: 30,
        }
    }
}

impl CompactionConfig {
    /// The default configuration, switched off.
    pub fn disabled() -> (config: Self)
        ensures
            config == (CompactionConfig {
                enabled: false,
                trigger_estimated_tokens: 200_000,
                target_estimated_tokens: 160_000,
                max_compaction_rounds: 4,
                always_offer_tools: true,
                protect_recent_turns: 4,
                top_consumers: 30,
            }),
    {
        let mut config = CompactionConfig::default();
        config.enabled = false;
        config
    }
}

// ---------------------------------------------------------------------------------------------
// Estimates: models
// ---------------------------------------------------------------------------------------------

/// How much of something a text counts for.
pub enum Unit {
    Bytes,
    Chars,
}

/// The size of `text` in `unit`.
pub open spec fn measure(unit: Unit, text: Seq<char>) -> nat {
    match unit {
        Unit::Bytes => byte_len(text),
        Unit::Chars => text.len(),
    }
}

/// The size of an optional text.
pub open spec fn measure_option(unit: Unit, text: Option<Seq<char>>) -> nat {
    match text {
        Some(text) => measure(unit, text),
        None => 0,
    }
}

/// The size of an optional JSON value.
pub open spec fn measure_json(unit: Unit, json: Option<JsonView>) -> nat {
    match json {
        Some(json) => measure(unit, json.text),
        None => 0,
    }
}

/// The size of reasoning.
pub open spec fn measure_reasoning(unit: Unit, reasoning: Option<ReasoningView>) -> nat {
    match reasoning {
        Some(r) => measure_json(unit, r.reasoning) + measure_option(unit, r.reasoning_content)
            + measure_json(unit, r.reasoning_details),
        None => 0,
    }
}

/// The size of a tool call.
pub open spec fn measure_call(unit: Unit, call: CallView) -> nat {
    measure(unit, call.id) + measure(unit, call.kind) + measure(unit, call.name) + measure(
        unit,
        call.arguments,
    )
}

/// The size of tool calls together.
pub open spec fn measure_calls(unit: Unit, calls: Seq<CallView>) -> nat
    decreases calls.len(),
{
    if calls.len() == 0 {
        0
    } else {
        measure_calls(unit, calls.drop_last()) + measure_call(unit, calls.last())
    }
}

/// The size of a turn: text and metadata. Bytes count encoded media too; characters, from which
/// tokens are estimated, do not. Annotations count for neither.
pub open spec fn measure_turn(unit: Unit, turn: TurnView) -> nat {
    (match unit {
        Unit::Bytes => turn.content.payload(),
        Unit::Chars => turn.content.text().len(),
    }) + measure_reasoning(unit, turn.reasoning) + measure_calls(unit, turn.tool_calls)
        + measure_option(unit, turn.tool_call_id) + measure_option(unit, turn.name)
}

/// The size of turns together.
pub open spec fn measure_turns(unit: Unit, turns: Seq<TurnView>) -> nat
    decreases turns.len(),
{
    if turns.len() == 0 {
        0
    } else {
        measure_turns(unit, turns.drop_last()) + measure_turn(unit, turns.last())
    }
}

/// Tokens estimated from characters: four characters to a token, rounded up.
pub open spec fn tokens_from_chars(chars: nat) -> usize {
    capped((chars + 3) as int) / 4
}

/// Estimated tokens of a context.
pub open spec fn context_tokens(turns: Seq<TurnView>) -> usize {
    tokens_from_chars(measure_turns(Unit::Chars, turns))
}

/// The usage of one turn.
pub open spec fn usage_of_turn(turn: TurnView) -> UsageView {
    UsageView {
        turn_id: turn.id,
        role: turn.role,
        name: turn.name,
        bytes: capped(measure_turn(Unit::Bytes, turn) as int),
        tokens: tokens_from_chars(measure_turn(Unit::Chars, turn)),
        summary: preview_view(turn.content.text(), 180),
    }
}

/// The turns that answer the call `id`.
pub open spec fn results_of(turns: Seq<TurnView>, id: Seq<char>) -> Seq<TurnView> {
    turns.filter(|t: TurnView| t.role == MessageRole::Tool && t.tool_call_id == Some(id))
}

/// The usage of one call of `turn` with its results among `turns`.
pub open spec fn usage_of_call(
    turns: Seq<TurnView>,
    request_turn_id: u64,
    call: CallView,
) -> CallUsageView {
    let results = results_of(turns, call.id);
    CallUsageView {
        tool_call_id: call.id,
        name: call.name,
        request_turn_id,
        result_turn_ids: results.map_values(|t: TurnView| t.id),
        bytes: capped(
            (byte_len(call.name) + byte_len(call.arguments) + measure_turns(Unit::Bytes, results)) as int,
        ),
        tokens: tokens_from_chars(
            call.name.len() + call.arguments.len() + measure_turns(Unit::Chars, results),
        ),
        arguments_preview: preview_view(call.arguments, 180),
    }
}

/// The usages of the calls of one turn.
pub open spec fn usages_of_calls(
    turns: Seq<TurnView>,
    request_turn_id: u64,
    calls: Seq<CallView>,
) -> Seq<CallUsageView> {
    calls.map_values(|c: CallView| usage_of_call(turns, request_turn_id, c))
}

/// The usages of the calls of the turns in `part`, in order.
pub open spec fn call_usages(turns: Seq<TurnView>, part: Seq<TurnView>) -> Seq<CallUsageView>
    decreases part.len(),
{
    if part.len() == 0 {
        seq![]
    } else {
        call_usages(turns, part.drop_last()) + usages_of_calls(
            turns,
            part.last().id,
            part.last().tool_calls,
        )
    }
}

/// `x` put into `s` behind every item with as many tokens or more.
pub open spec fn ranked_insert<T>(s: Seq<T>, key: spec_fn(T) -> usize, x: T) -> Seq<T>
    decreases s.len(),
{
    if s.len() == 0 {
        seq![x]
    } else if key(s.last()) >= key(x) {
        s.push(x)
    } else {
        ranked_insert(s.drop_last(), key, x).push(s.last())
    }
}

/// The items of `s` by falling key; items with the same key keep their order.
pub open spec fn ranked<T>(s: Seq<T>, key: spec_fn(T) -> usize) -> Seq<T>
    decreases s.len(),
{
    if s.len() == 0 {
        seq![]
    } else {
        ranked_insert(ranked(s.drop_last(), key), key, s.last())
    }
}

/// The first `limit` items of `s`.
pub open spec fn at_most<T>(s: Seq<T>, limit: nat) -> Seq<T> {
    if limit < s.len() {
        s.take(limit as int)
    } else {
        s
    }
}

/// The breakdown of `turns`, with at most `limit` consumers of each sort.
pub open spec fn breakdown_of(turns: Seq<TurnView>, limit: nat) -> BreakdownView {
    BreakdownView {
        total_bytes: capped(measure_turns(Unit::Bytes, turns) as int),
        total_tokens: context_tokens(turns),
        largest_turns: at_most(
            ranked(
                turns.map_values(|t: TurnView| usage_of_turn(t)),
                |u: UsageView| u.tokens,
            ),
            limit,
        ),
        largest_tool_calls: at_most(
            ranked(call_usages(turns, turns), |u: CallUsageView| u.tokens),
            limit,
        ),
    }
}

// ---------------------------------------------------------------------------------------------
// Estimates: functions
// ---------------------------------------------------------------------------------------------

fn measure_text(bytes: bool, text: &str) -> (n: usize)
    ensures
        n == measure(unit_of(bytes), text@),
{
    if bytes {
        bytes_of(text)
    } else {
        chars_of(text)
    }
}

/// The unit that a flag stands for.
pub open spec fn unit_of(bytes: bool) -> Unit {
    if bytes {
        Unit::Bytes
    } else {
        Unit::Chars
    }
}

fn estimate_option(bytes: bool, text: &Option<String>) -> (n: usize)
    ensures
        n == measure_option(unit_of(bytes), view_of(*text)),
{
    match text {
        Some(text) => measure_text(bytes, text.as_str()),
        None => 0,
    }
}

fn estimate_reasoning(bytes: bool, reasoning: &Option<ReasoningPayload>) -> (n: usize)
    ensures
        n == capped(measure_reasoning(unit_of(bytes), view_of(*reasoning)) as int),
{
    match reasoning {
        Some(r) => {
            let first: usize = match &r.reasoning {
                Some(json) => measure_text(bytes, json.as_str()),
                None => 0,
            };
            let second = estimate_option(bytes, &r.reasoning_content);
            let third: usize = match &r.reasoning_details {
                Some(json) => measure_text(bytes, json.as_str()),
                None => 0,
            };
            add_capped(add_capped(first, second), third)
        },
        None => 0,
    }
}

fn estimate_calls(bytes: bool, calls: &Vec<ToolCall>) -> (n: usize)
    ensures
        n == capped(measure_calls(unit_of(bytes), views(calls@)) as int),
{
    let mut n: usize = 0;
    let mut i: usize = 0;
    while i < calls.len()
        invariant
            i <= calls@.len(),
            n == capped(measure_calls(unit_of(bytes), views(calls@).take(i as int)) as int),
        decreases calls@.len() - i,
    {
        proof {
            assert(views(calls@).take(i + 1).drop_last() =~= views(calls@).take(i as int));
            assert(views(calls@).take(i + 1).last() == calls@[i as int]@);
        }
        let call = &calls[i];
        n = add_capped(n, measure_text(bytes, call.id.as_str()));
        n = add_capped(n, measure_text(bytes, call.kind.as_str()));
        n = add_capped(n, measure_text(bytes, call.function.name.as_str()));
        n = add_capped(n, measure_text(bytes, call.function.arguments.as_str()));
        i += 1;
    }
    assert(views(calls@).take(i as int) =~= views(calls@));
    n
}

fn estimate_turn(bytes: bool, turn: &SessionTurn) -> (n: usize)
    ensures
        n == capped(measure_turn(unit_of(bytes), turn@) as int),
{
    let mut n: usize = if bytes {
        turn.content.len()
    } else {
        chars_of(turn.content.text().as_str())
    };
    n = add_capped(n, estimate_reasoning(bytes, &turn.reasoning));
    n = add_capped(n, estimate_calls(bytes, &turn.tool_calls));
    n = add_capped(n, estimate_option(bytes, &turn.tool_call_id));
    add_capped(n, estimate_option(bytes, &turn.name))
}

/// Estimated bytes of a turn, encoded media included.
pub fn estimate_turn_bytes(turn: &SessionTurn) -> (n: usize)
    ensures
        n == capped(measure_turn(Unit::Bytes, turn@) as int),
{
    estimate_turn(true, turn)
}

/// Characters of a turn's text and metadata.
pub fn estimate_turn_chars(turn: &SessionTurn) -> (n: usize)
    ensures
        n == capped(measure_turn(Unit::Chars, turn@) as int),
{
    estimate_turn(false, turn)
}

fn estimate_turns(bytes: bool, turns: &Vec<SessionTurn>) -> (n: usize)
    ensures
        n == capped(measure_turns(unit_of(bytes), views(turns@)) as int),
{
    let mut n: usize = 0;
    let mut i: usize = 0;
    while i < turns.len()
        invariant
            i <= turns@.len(),
            n == capped(measure_turns(unit_of(bytes), views(turns@).take(i as int)) as int),
        decreases turns@.len() - i,
    {
        proof {
            assert(views(turns@).take(i + 1).drop_last() =~= views(turns@).take(i as int));
            assert(views(turns@).take(i + 1).last() == turns@[i as int]@);
        }
        n = add_capped(n, estimate_turn(bytes, &turns[i]));
        i += 1;
    }
    assert(views(turns@).take(i as int) =~= views(turns@));
    n
}

/// Tokens estimated from a (capped) number of characters.
pub fn estimate_tokens_from_chars(chars: usize) -> (n: usize)
    ensures
        n == capped(chars + 3) / 4,
{
    add_capped(chars, 3) / 4
}

fn turn_usage(turn: &SessionTurn) -> (usage: ContextUsage)
    ensures
        usage@ == usage_of_turn(turn@),
{
    ContextUsage {
        turn_id: turn.id,
        role: turn.role,
        name: duplicate_option(&turn.name),
        bytes: estimate_turn_bytes(turn),
        estimated_tokens: estimate_tokens_from_chars(estimate_turn_chars(turn)),
        summary: preview(turn.content.text().as_str(), 180),
    }
}

/// Whether `turn` answers the call `id`.
fn answers(turn: &SessionTurn, id: &str) -> (b: bool)
    ensures
        b == (turn@.role == MessageRole::Tool && turn@.tool_call_id == Some(id@)),
{
    turn.role == MessageRole::Tool && has_call_id(turn, id)
}

/// Whether `turn` carries the tool call id `id`.
fn has_call_id(turn: &SessionTurn, id: &str) -> (b: bool)
    ensures
        b == (turn@.tool_call_id == Some(id@)),
{
    match &turn.tool_call_id {
        Some(own) => same_text(own.as_str(), id),
        None => false,
    }
}

fn call_usage(turns: &Vec<SessionTurn>, request_turn_id: u64, call: &ToolCall) -> (usage:
    ToolCallUsage)
    ensures
        usage@ == usage_of_call(views(turns@), request_turn_id, call@),
{
    let ghost all = views(turns@);
    let ghost keep = |t: TurnView|
        t.role == MessageRole::Tool && t.tool_call_id == Some(call@.id);
    let name = call.function.name.as_str();
    let arguments = call.function.arguments.as_str();
    let request_bytes: usize = add_capped(bytes_of(name), bytes_of(arguments));
    let request_chars: usize = add_capped(chars_of(name), chars_of(arguments));
    let mut ids: Vec<u64> = Vec::new();
    let mut bytes: usize = 0;
    let mut chars: usize = 0;
    let mut i: usize = 0;
    proof {
        reveal(Seq::filter);
        assert(all.take(0).filter(keep) =~= seq![]);
        assert(ids@ =~= all.take(0).filter(keep).map_values(|t: TurnView| t.id));
    }
    while i < turns.len()
        invariant
            i <= turns@.len(),
            all == views(turns@),
            keep == (|t: TurnView|
                t.role == MessageRole::Tool && t.tool_call_id == Some(call@.id)),
            ids@ == all.take(i as int).filter(keep).map_values(|t: TurnView| t.id),
            bytes == capped(
                measure_turns(Unit::Bytes, all.take(i as int).filter(keep)) as int,
            ),
            chars == capped(
                measure_turns(Unit::Chars, all.take(i as int).filter(keep)) as int,
            ),
        decreases turns@.len() - i,
    {
        let turn = &turns[i];
        let ghost before = all.take(i as int).filter(keep);
        proof {
            reveal(Seq::filter);
            assert(all.take(i + 1).drop_last() =~= all.take(i as int));
            assert(all.take(i + 1).last() == turn@);
        }
        if answers(turn, call.id.as_str()) {
            ids.push(turn.id);
            bytes = add_capped(bytes, estimate_turn_bytes(turn));
            chars = add_capped(chars, estimate_turn_chars(turn));
            proof {
                let now = all.take(i + 1).filter(keep);
                assert(now == before.push(turn@));
                assert(now.drop_last() =~= before);
                assert(now.map_values(|t: TurnView| t.id) =~= before.map_values(
                    |t: TurnView| t.id,
                ).push(turn@.id));
            }
        }
        i += 1;
    }
    assert(all.take(i as int) =~= all);
    ToolCallUsage {
        tool_call_id: call.id.clone(),
        name: call.function.name.clone(),
        request_turn_id,
        result_turn_ids: ids,
        bytes: add_capped(request_bytes, bytes),
        estimated_tokens: estimate_tokens_from_chars(add_capped(request_chars, chars)),
        arguments_preview: preview(arguments, 180),
    }
}

/// The usage of every tool call with its results, in the order of the calls.
pub fn tool_call_usages(turns: &Vec<SessionTurn>) -> (usages: Vec<ToolCallUsage>)
    ensures
        views(usages@) == call_usages(views(turns@), views(turns@)),
{
    let ghost all = views(turns@);
    let mut usages: Vec<ToolCallUsage> = Vec::new();
    let mut i: usize = 0;
    assert(views(usages@) =~= call_usages(all, all.take(0)));
    while i < turns.len()
        invariant
            i <= turns@.len(),
            all == views(turns@),
            views(usages@) == call_usages(all, all.take(i as int)),
        decreases turns@.len() - i,
    {
        let turn = &turns[i];
        let ghost before = views(usages@);
        let mut j: usize = 0;
        proof {
            assert(views(usages@) =~= before + usages_of_calls(
                all,
                turn.id,
                turn@.tool_calls.take(0),
            ));
        }
        while j < turn.tool_calls.len()
            invariant
                j <= turn.tool_calls@.len(),
                all == views(turns@),
                views(usages@) == before + usages_of_calls(
                    all,
                    turn.id,
                    turn@.tool_calls.take(j as int),
                ),
            decreases turn.tool_calls@.len() - j,
        {
            let usage = call_usage(turns, turn.id, &turn.tool_calls[j]);
            let ghost listed = views(usages@);
            usages.push(usage);
            proof {
                assert(views(usages@) =~= listed.push(usage@));
                let calls = turn@.tool_calls;
                assert(calls[j as int] == turn.tool_calls@[j as int]@);
                assert(usages_of_calls(all, turn.id, calls.take(j + 1)) =~= usages_of_calls(
                    all,
                    turn.id,
                    calls.take(j as int),
                ).push(usage@));
                assert(views(usages@) =~= before + usages_of_calls(
                    all,
                    turn.id,
                    calls.take(j + 1),
                ));
            }
            j += 1;
        }
        proof {
            assert(turn@.tool_calls.take(j as int) =~= turn@.tool_calls);
            assert(all.take(i + 1).drop_last() =~= all.take(i as int));
            assert(all.take(i + 1).last() == turn@);
        }
        i += 1;
    }
    assert(all.take(i as int) =~= all);
    usages
}

/// What [`ranked_insert`] does, told by position.
proof fn lemma_ranked_insert<T>(s: Seq<T>, key: spec_fn(T) -> usize, x: T, k: int)
    requires
        0 <= k <= s.len(),
        k > 0 ==> key(s[k - 1]) >= key(x),
        forall|i: int| k <= i < s.len() ==> key(#[trigger] s[i]) < key(x),
    ensures
        ranked_insert(s, key, x) == s.insert(k, x),
    decreases s.len(),
{
    if s.len() == 0 {
        assert(s.insert(k, x) =~= seq![x]);
    } else if k == s.len() {
        assert(s.insert(k, x) =~= s.push(x));
    } else {
        lemma_ranked_insert(s.drop_last(), key, x, k);
        assert(s.insert(k, x) =~= s.drop_last().insert(k, x).push(s.last()));
    }
}

fn rank_turns(usages: Vec<ContextUsage>) -> (r: Vec<ContextUsage>)
    ensures
        views(r@) == ranked(views(usages@), |u: UsageView| u.tokens),
{
    let ghost key = |u: UsageView| u.tokens;
    let mut r: Vec<ContextUsage> = Vec::new();
    let mut i: usize = 0;
    assert(views(r@) =~= ranked(views(usages@).take(0), key));
    while i < usages.len()
        invariant
            i <= usages@.len(),
            key == (|u: UsageView| u.tokens),
            views(r@) == ranked(views(usages@).take(i as int), key),
        decreases usages@.len() - i,
    {
        let usage = usages[i].duplicate();
        let mut k: usize = r.len();
        while k > 0 && r[k - 1].estimated_tokens < usage.estimated_tokens
            invariant
                k <= r@.len(),
                key == (|u: UsageView| u.tokens),
                forall|j: int|
                    k <= j < r@.len() ==> key(#[trigger] views(r@)[j]) < key(usage@),
            decreases k,
        {
            k -= 1;
        }
        proof {
            let now = views(usages@).take(i + 1);
            assert(now.drop_last() =~= views(usages@).take(i as int));
            assert(now.last() == usage@);
            assert(k > 0 ==> views(r@)[k - 1] == r@[k - 1]@);
            lemma_ranked_insert(views(r@), key, usage@, k as int);
            assert(views(r@.insert(k as int, usage)) =~= views(r@).insert(k as int, usage@));
        }
        r.insert(k, usage);
        i += 1;
    }
    assert(views(usages@).take(i as int) =~= views(usages@));
    r
}

fn rank_calls(usages: Vec<ToolCallUsage>) -> (r: Vec<ToolCallUsage>)
    ensures
        views(r@) == ranked(views(usages@), |u: CallUsageView| u.tokens),
{
    let ghost key = |u: CallUsageView| u.tokens;
    let mut r: Vec<ToolCallUsage> = Vec::new();
    let mut i: usize = 0;
    assert(views(r@) =~= ranked(views(usages@).take(0), key));
    while i < usages.len()
        invariant
            i <= usages@.len(),
            key == (|u: CallUsageView| u.tokens),
            views(r@) == ranked(views(usages@).take(i as int), key),
        decreases usages@.len() - i,
    {
        let usage = usages[i].duplicate();
        let mut k: usize = r.len();
        while k > 0 && r[k - 1].estimated_tokens < usage.estimated_tokens
            invariant
                k <= r@.len(),
                key == (|u: CallUsageView| u.tokens),
                forall|j: int|
                    k <= j < r@.len() ==> key(#[trigger] views(r@)[j]) < key(usage@),
            decreases k,
        {
            k -= 1;
        }
        proof {
            let now = views(usages@).take(i + 1);
            assert(now.drop_last() =~= views(usages@).take(i as int));
            assert(now.last() == usage@);
            assert(k > 0 ==> views(r@)[k - 1] == r@[k - 1]@);
            lemma_ranked_insert(views(r@), key, usage@, k as int);
            assert(views(r@.insert(k as int, usage)) =~= views(r@).insert(k as int, usage@));
        }
        r.insert(k, usage);
        i += 1;
    }
    assert(views(usages@).take(i as int) =~= views(usages@));
    r
}

fn turn_usages(turns: &Vec<SessionTurn>) -> (usages: Vec<ContextUsage>)
    ensures
        views(usages@) == views(turns@).map_values(|t: TurnView| usage_of_turn(t)),
{
    let ghost all = views(turns@).map_values(|t: TurnView| usage_of_turn(t));
    let mut usages: Vec<ContextUsage> = Vec::new();
    let mut i: usize = 0;
    assert(views(usages@) =~= all.take(0));
    while i < turns.len()
        invariant
            i <= turns@.len(),
            all == views(turns@).map_values(|t: TurnView| usage_of_turn(t)),
            views(usages@) == all.take(i as int),
        decreases turns@.len() - i,
    {
        let usage = turn_usage(&turns[i]);
        let ghost before = views(usages@);
        usages.push(usage);
        proof {
            assert(views(usages@) =~= before.push(usage@));
            assert(all.take(i + 1) =~= all.take(i as int).push(all[i as int]));
        }
        i += 1;
    }
    assert(all.take(i as int) =~= all);
    usages
}

/// Estimated usage of `turns`, with at most `limit` consumers of each sort.
pub fn usage_breakdown(turns: &Vec<SessionTurn>, limit: usize) -> (breakdown: ContextUsageBreakdown)
    ensures
        breakdown@ == breakdown_of(views(turns@), limit as nat),
{
    let mut largest_turns = rank_turns(turn_usages(turns));
    if limit < largest_turns.len() {
        let ghost all = views(largest_turns@);
        largest_turns.truncate(limit);
        assert(views(largest_turns@) =~= all.take(limit as int));
    }
    let mut largest_tool_calls = rank_calls(tool_call_usages(turns));
    if limit < largest_tool_calls.len() {
        let ghost all = views(largest_tool_calls@);
        largest_tool_calls.truncate(limit);
        assert(views(largest_tool_calls@) =~= all.take(limit as int));
    }
    ContextUsageBreakdown {
        total_bytes: estimate_turns(true, turns),
        total_estimated_tokens: estimate_tokens_from_chars(estimate_turns(false, turns)),
        largest_turns,
        largest_tool_calls,
    }
}

} // verus!
