//! What holds of the size of a context: what counts, how it is estimated, and what is listed as
//! its largest parts.

use vstd::prelude::*;

use crate::chat::{CallView, MessageRole};
use crate::common::{byte_len, capped};
use crate::session::compaction::{at_most, breakdown_of, call_usages, context_tokens};
use crate::session::compaction::{measure_calls, measure_turn, measure_turns, ranked};
use crate::session::compaction::{results_of, usage_of_call, usage_of_turn};
use crate::session::compaction::{CallUsageView, Unit, UsageView};
use crate::session::edit_laws::lemma_same_filter;
use crate::session::laws::{falling, ranking_is_a_falling_permutation};
use crate::session::turn::TurnView;
use crate::tools::compact::preview_view;

verus! {

/// Turns are measured one by one: their sizes add up.
pub proof fn sizes_add_up(unit: Unit, a: Seq<TurnView>, b: Seq<TurnView>, turn: TurnView)
    ensures
        measure_turns(unit, a + b) == measure_turns(unit, a) + measure_turns(unit, b),
        measure_turns(unit, seq![turn]) == measure_turn(unit, turn),
        measure_turns(unit, seq![]) == 0,
    decreases b.len(),
{
    assert(seq![turn].drop_last() =~= seq![]);
    assert(measure_turns(unit, seq![turn].drop_last()) == 0);
    if b.len() == 0 {
        assert(a + b =~= a);
    } else {
        sizes_add_up(unit, a, b.drop_last(), turn);
        assert((a + b).drop_last() =~= a + b.drop_last());
        assert((a + b).last() == b.last());
    }
}

/// Every part of a turn counts, in characters or in bytes: its content, its reasoning, the id,
/// type, name and arguments of each call, the id of the call that it answers, and its name.
pub proof fn every_part_of_a_turn_counts(turn: TurnView, call: CallView)
    ensures
        ({
            let more = TurnView { tool_calls: turn.tool_calls.push(call), ..turn };
            &&& measure_turn(Unit::Chars, more) == measure_turn(Unit::Chars, turn) + call.id.len()
                + call.kind.len() + call.name.len() + call.arguments.len()
            &&& measure_turn(Unit::Bytes, more) == measure_turn(Unit::Bytes, turn) + byte_len(
                call.id,
            ) + byte_len(call.kind) + byte_len(call.name) + byte_len(call.arguments)
        }),
        turn.tool_calls.len() == 0 ==> ({
            let id = match turn.tool_call_id {
                Some(id) => id,
                None => seq![],
            };
            let name = match turn.name {
                Some(name) => name,
                None => seq![],
            };
            let (a, b, c) = match turn.reasoning {
                Some(r) => (
                    match r.reasoning {
                        Some(json) => json.text,
                        None => seq![],
                    },
                    match r.reasoning_content {
                        Some(text) => text,
                        None => seq![],
                    },
                    match r.reasoning_details {
                        Some(json) => json.text,
                        None => seq![],
                    },
                ),
                None => (seq![], seq![], seq![]),
            };
            &&& measure_turn(Unit::Chars, turn) == turn.content.text().len() + a.len() + b.len()
                + c.len() + id.len() + name.len()
            &&& measure_turn(Unit::Bytes, turn) == turn.content.payload() + byte_len(a) + byte_len(
                b,
            ) + byte_len(c) + byte_len(id) + byte_len(name)
        }),
{
    let calls = turn.tool_calls.push(call);
    assert(calls.drop_last() =~= turn.tool_calls);
    assert(calls.last() == call);
    assert(measure_calls(Unit::Chars, calls) == measure_calls(Unit::Chars, turn.tool_calls)
        + crate::session::compaction::measure_call(Unit::Chars, call));
    assert(measure_calls(Unit::Bytes, calls) == measure_calls(Unit::Bytes, turn.tool_calls)
        + crate::session::compaction::measure_call(Unit::Bytes, call));
    lemma_no_bytes();
}

proof fn lemma_no_bytes()
    ensures
        byte_len(seq![]) == 0,
{
    reveal_with_fuel(vstd::utf8::encode_utf8, 2);
}

/// The estimate of a context is a quarter of its characters, rounded up.
pub proof fn four_characters_are_a_token(turns: Seq<TurnView>)
    ensures
        ({
            let chars = measure_turns(Unit::Chars, turns) as int;
            let tokens = context_tokens(turns) as int;
            &&& chars + 3 <= usize::MAX ==> 4 * tokens - 4 < chars <= 4 * tokens
            &&& chars + 3 > usize::MAX ==> tokens == usize::MAX as int / 4
        }),
{
}

/// Tokens of a number of characters.
pub open spec fn quarter(chars: nat) -> usize {
    capped((chars + 3) as int) / 4
}

/// The usage of a turn tells the turn, its size, and the beginning of its text.
pub open spec fn told_turn(turn: TurnView) -> UsageView {
    UsageView {
        turn_id: turn.id,
        role: turn.role,
        name: turn.name,
        bytes: capped(measure_turn(Unit::Bytes, turn) as int),
        tokens: quarter(measure_turn(Unit::Chars, turn)),
        summary: preview_view(turn.content.text(), 180),
    }
}

/// Whether a usage tells of a call that a turn requests: who requested it, which turns answer it,
/// and what its name, its arguments and its answers take together.
pub open spec fn tells_of_call(
    usage: CallUsageView,
    turns: Seq<TurnView>,
    request: TurnView,
    call: CallView,
) -> bool {
    let answers = turns.filter(
        |t: TurnView| t.role == MessageRole::Tool && t.tool_call_id == Some(call.id),
    );
    &&& usage.tool_call_id == call.id
    &&& usage.name == call.name
    &&& usage.request_turn_id == request.id
    &&& usage.result_turn_ids == answers.map_values(|t: TurnView| t.id)
    &&& usage.bytes == capped(
        (byte_len(call.name) + byte_len(call.arguments) + measure_turns(
            Unit::Bytes,
            answers,
        )) as int,
    )
    &&& usage.tokens == quarter(
        call.name.len() + call.arguments.len() + measure_turns(Unit::Chars, answers),
    )
    &&& usage.arguments_preview == preview_view(call.arguments, 180)
}

/// The number of calls that turns request.
pub open spec fn calls_in(turns: Seq<TurnView>) -> nat
    decreases turns.len(),
{
    if turns.len() == 0 {
        0
    } else {
        calls_in(turns.drop_last()) + turns.last().tool_calls.len()
    }
}

/// Each call that a turn requests is told once, in the order of the turns and of their calls.
pub proof fn every_call_is_told(turns: Seq<TurnView>, part: Seq<TurnView>, i: int, j: int)
    requires
        0 <= i < part.len(),
        0 <= j < part[i].tool_calls.len(),
    ensures
        call_usages(turns, part).len() == calls_in(part),
        calls_in(part.take(i)) + j < calls_in(part),
        tells_of_call(
            call_usages(turns, part)[calls_in(part.take(i)) + j],
            turns,
            part[i],
            part[i].tool_calls[j],
        ),
    decreases part.len(),
{
    let front = part.drop_last();
    lemma_calls_told(turns, part);
    lemma_calls_told(turns, front);
    if i < front.len() {
        assert(front.take(i) =~= part.take(i));
        every_call_is_told(turns, front, i, j);
    } else {
        assert(part.take(i) =~= front);
        let call = part[i].tool_calls[j];
        let usages = part.last().tool_calls.map_values(
            |c: CallView| usage_of_call(turns, part.last().id, c),
        );
        assert(call_usages(turns, part)[call_usages(turns, front).len() + j] == usages[j]);
        assert(results_of(turns, call.id) == turns.filter(
            |t: TurnView| t.role == MessageRole::Tool && t.tool_call_id == Some(call.id),
        )) by {
            lemma_same_filter(
                turns,
                |t: TurnView| t.role == MessageRole::Tool && t.tool_call_id == Some(call.id),
                |t: TurnView| t.role == MessageRole::Tool && t.tool_call_id == Some(call.id),
            );
        }
    }
}

proof fn lemma_calls_told(turns: Seq<TurnView>, part: Seq<TurnView>)
    ensures
        call_usages(turns, part).len() == calls_in(part),
    decreases part.len(),
{
    if part.len() > 0 {
        lemma_calls_told(turns, part.drop_last());
    }
}

/// The largest of `all`, in falling order and at most `limit` of them: what is left out is no
/// larger than what is listed.
pub open spec fn largest_of<T>(
    listed: Seq<T>,
    all: Seq<T>,
    key: spec_fn(T) -> usize,
    limit: nat,
) -> bool {
    exists|order: Seq<T>|
        #![trigger falling(order, key)]
        order.to_multiset() == all.to_multiset() && falling(order, key) && listed == order.take(
            if limit < order.len() {
                limit as int
            } else {
                order.len() as int
            },
        )
}

proof fn lemma_largest<T>(all: Seq<T>, key: spec_fn(T) -> usize, limit: nat)
    ensures
        largest_of(at_most(ranked(all, key), limit), all, key, limit),
{
    ranking_is_a_falling_permutation(all, key);
    let order = ranked(all, key);
    assert(order.take(order.len() as int) =~= order);
    assert(falling(order, key));
}

/// A breakdown tells the size of the whole context, and lists the largest turns and the largest
/// calls, by their tokens, at most as many of each as were asked for.
pub proof fn breakdowns_list_the_largest(turns: Seq<TurnView>, limit: nat)
    ensures
        ({
            let breakdown = breakdown_of(turns, limit);
            &&& breakdown.total_bytes == capped(measure_turns(Unit::Bytes, turns) as int)
            &&& breakdown.total_tokens == quarter(measure_turns(Unit::Chars, turns))
            &&& largest_of(
                breakdown.largest_turns,
                turns.map_values(|t: TurnView| told_turn(t)),
                |u: UsageView| u.tokens,
                limit,
            )
            &&& largest_of(
                breakdown.largest_tool_calls,
                call_usages(turns, turns),
                |u: CallUsageView| u.tokens,
                limit,
            )
        }),
{
    let usages = turns.map_values(|t: TurnView| usage_of_turn(t));
    assert(usages =~= turns.map_values(|t: TurnView| told_turn(t)));
    lemma_largest(usages, |u: UsageView| u.tokens, limit);
    lemma_largest(call_usages(turns, turns), |u: CallUsageView| u.tokens, limit);
}

} // verus!
