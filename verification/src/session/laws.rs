//! What holds of context estimates and edits as a whole.

use vstd::prelude::*;

use crate::chat::{CallView, MessageRole};
use crate::session::compaction::{context_tokens, measure_calls, measure_turns};
use crate::session::compaction::{ranked, ranked_insert, Unit};
use crate::session::edit::{answers_call_of, chosen_calls, chosen_turns, cleanup};
use crate::session::edit::{compaction_call, compaction_turn, earlier_calls, earlier_turns, edit_error};
use crate::session::edit::{edited, hollow, ids_of, known, protected, removal};
use crate::session::edit::{removes_call, removes_turn, selection_error, survivor, summarization};
use crate::session::edit::{calls_id, compaction_turn_for, turn_with, without_calls};
use crate::session::turn::TurnView;
use crate::text::{first_position, lemma_first_position};

verus! {

// ---------------------------------------------------------------------------------------------
// Lemmas
// ---------------------------------------------------------------------------------------------

/// Whether `t` is what is left of the turn at `i`.
pub open spec fn left_of(
    turns: Seq<TurnView>,
    ids: Set<u64>,
    calls: Set<Seq<char>>,
    i: int,
    t: TurnView,
) -> bool {
    0 <= i < turns.len() && survivor(turns[i], ids, calls) == Some(t)
}

/// A turn is left exactly where it is what is left of some turn.
proof fn lemma_edited_contains(
    turns: Seq<TurnView>,
    ids: Set<u64>,
    calls: Set<Seq<char>>,
    t: TurnView,
)
    ensures
        edited(turns, ids, calls).contains(t) == (exists|i: int| left_of(turns, ids, calls, i, t)),
    decreases turns.len(),
{
    let left = edited(turns, ids, calls);
    if turns.len() > 0 {
        let front = turns.drop_last();
        lemma_edited_contains(front, ids, calls, t);
        let rest = edited(front, ids, calls);
        let last = turns.len() - 1;
        if left.contains(t) {
            let k = choose|k: int| 0 <= k < left.len() && left[k] == t;
            if k < rest.len() {
                assert(rest[k] == t);
                assert(rest.contains(t));
                let i = choose|i: int| left_of(front, ids, calls, i, t);
                assert(left_of(turns, ids, calls, i, t));
            } else {
                assert(left_of(turns, ids, calls, last, t));
            }
        }
        if exists|i: int| left_of(turns, ids, calls, i, t) {
            let i = choose|i: int| left_of(turns, ids, calls, i, t);
            if i < last {
                assert(left_of(front, ids, calls, i, t));
                let k = choose|k: int| 0 <= k < rest.len() && rest[k] == t;
                assert(left[k] == t);
            } else {
                assert(left[left.len() - 1] == t);
            }
        }
    }
}

proof fn lemma_filter_contains<T>(s: Seq<T>, keep: spec_fn(T) -> bool, x: T)
    ensures
        s.filter(keep).contains(x) == (s.contains(x) && keep(x)),
{
    if s.filter(keep).contains(x) {
        let i = choose|i: int| 0 <= i < s.filter(keep).len() && s.filter(keep)[i] == x;
        s.lemma_filter_pred(keep, i);
        s.lemma_filter_contains_rev(keep, x);
    }
    if s.contains(x) && keep(x) {
        let i = choose|i: int| 0 <= i < s.len() && s[i] == x;
        s.lemma_filter_contains(keep, i);
    }
}

// ---------------------------------------------------------------------------------------------
// Removal
// ---------------------------------------------------------------------------------------------

/// No selected turn is left.
pub proof fn selected_turns_are_gone(turns: Seq<TurnView>, ids: Seq<u64>, t: TurnView)
    requires
        removal(turns, ids).contains(t),
    ensures
        !ids.contains(t.id),
{
    let chosen = chosen_turns(turns, ids);
    let calls = chosen_calls(turns, ids);
    lemma_edited_contains(turns, chosen, calls, t);
    let i = choose|i: int| left_of(turns, chosen, calls, i, t);
    if ids.contains(t.id) {
        let k = choose|k: int| 0 <= k < ids.len() && ids[k] == t.id;
        assert(removes_turn(turns, ids[k], turns[i].id));
    }
}

/// No turn that is left requests a call that was removed: a transcript never holds a request
/// whose answer was taken away with the selected turns.
pub proof fn removed_calls_are_not_requested(
    turns: Seq<TurnView>,
    ids: Seq<u64>,
    t: TurnView,
    c: CallView,
)
    requires
        removal(turns, ids).contains(t),
        t.tool_calls.contains(c),
    ensures
        !chosen_calls(turns, ids).contains(c.id),
{
    let chosen = chosen_turns(turns, ids);
    let calls = chosen_calls(turns, ids);
    lemma_edited_contains(turns, chosen, calls, t);
    let i = choose|i: int| left_of(turns, chosen, calls, i, t);
    if calls.contains(c.id) {
        assert(calls != Set::<Seq<char>>::empty());
        assert(t == without_calls(turns[i], calls));
        lemma_filter_contains(turns[i].tool_calls, |c: CallView| !calls.contains(c.id), c);
    }
}

/// Removing a tool result removes the matching request: no turn that is left calls it.
pub proof fn a_result_takes_its_request_along(
    turns: Seq<TurnView>,
    ids: Seq<u64>,
    selected: u64,
    t: TurnView,
    c: CallView,
)
    requires
        ids.contains(selected),
        known(turns, selected),
        turn_with(turns, selected).role == MessageRole::Tool,
        removal(turns, ids).contains(t),
        t.tool_calls.contains(c),
    ensures
        turn_with(turns, selected).tool_call_id != Some(c.id),
{
    if turn_with(turns, selected).tool_call_id == Some(c.id) {
        let k = choose|k: int| 0 <= k < ids.len() && ids[k] == selected;
        assert(removes_call(turns, ids[k], c.id));
        removed_calls_are_not_requested(turns, ids, t, c);
    }
}

/// Removing a request removes its answers: no turn that is left answers one of its calls.
pub proof fn a_request_takes_its_answers_along(
    turns: Seq<TurnView>,
    ids: Seq<u64>,
    selected: u64,
    t: TurnView,
)
    requires
        ids.contains(selected),
        known(turns, selected),
        turn_with(turns, selected).role != MessageRole::Tool,
        removal(turns, ids).contains(t),
    ensures
        !answers_call_of(t, turn_with(turns, selected).tool_calls),
{
    let chosen = chosen_turns(turns, ids);
    let calls = chosen_calls(turns, ids);
    lemma_edited_contains(turns, chosen, calls, t);
    let i = choose|i: int| left_of(turns, chosen, calls, i, t);
    let k = choose|k: int| 0 <= k < ids.len() && ids[k] == selected;
    if answers_call_of(t, turn_with(turns, selected).tool_calls) {
        assert(turns[i].id == t.id && turns[i].tool_call_id == t.tool_call_id);
        assert(removes_turn(turns, ids[k], turns[i].id));
    }
}

/// A turn that was not chosen, requested none of the removed calls and holds something is left
/// exactly as it was, its media, annotations and reasoning included.
pub proof fn other_turns_are_kept(turns: Seq<TurnView>, ids: Seq<u64>, i: int)
    requires
        0 <= i < turns.len(),
        !chosen_turns(turns, ids).contains(turns[i].id),
        forall|c: CallView| #[trigger]
            turns[i].tool_calls.contains(c) ==> !chosen_calls(turns, ids).contains(c.id),
        !hollow(turns[i]),
    ensures
        removal(turns, ids).contains(turns[i]),
{
    let chosen = chosen_turns(turns, ids);
    let calls = chosen_calls(turns, ids);
    let keep = |c: CallView| !calls.contains(c.id);
    assert forall|j: int| 0 <= j < turns[i].tool_calls.len() implies keep(
        #[trigger] turns[i].tool_calls[j],
    ) by {
        assert(turns[i].tool_calls.contains(turns[i].tool_calls[j]));
    }
    lemma_filter_all(turns[i].tool_calls, keep);
    assert(without_calls(turns[i], calls) == turns[i]);
    lemma_edited_contains(turns, chosen, calls, turns[i]);
    assert(left_of(turns, chosen, calls, i, turns[i]));
}

proof fn lemma_filter_all<T>(s: Seq<T>, keep: spec_fn(T) -> bool)
    requires
        forall|j: int| 0 <= j < s.len() ==> keep(#[trigger] s[j]),
    ensures
        s.filter(keep) == s,
    decreases s.len(),
{
    reveal(Seq::filter);
    if s.len() > 0 {
        let front = s.drop_last();
        assert forall|j: int| 0 <= j < front.len() implies keep(#[trigger] front[j]) by {
            assert(front[j] == s[j]);
        }
        lemma_filter_all(front, keep);
        assert(keep(s[s.len() - 1]));
        assert(front.push(s.last()) =~= s);
    }
}

proof fn lemma_selection_error(turns: Seq<TurnView>, recent: nat, ids: Seq<u64>, k: int)
    requires
        selection_error(turns, recent, ids) is None,
        0 <= k < ids.len(),
    ensures
        known(turns, ids[k]),
        !protected(turns, recent, ids[k]),
    decreases k,
{
    if k > 0 {
        lemma_selection_error(turns, recent, ids.drop_first(), k - 1);
        assert(ids.drop_first()[k - 1] == ids[k]);
    }
}

/// An accepted edit selects neither the root system prompt nor a recent turn.
pub proof fn protected_turns_are_never_selected(
    turns: Seq<TurnView>,
    recent: nat,
    ids: Seq<u64>,
    id: u64,
)
    requires
        edit_error(turns, recent, ids) is None,
        protected(turns, recent, id),
    ensures
        !ids.contains(id),
{
    if ids.contains(id) {
        let k = choose|k: int| 0 <= k < ids.len() && ids[k] == id;
        lemma_selection_error(turns, recent, ids, k);
    }
}

/// An accepted edit never touches the root system prompt: it stays the first turn.
pub proof fn the_root_prompt_is_kept(turns: Seq<TurnView>, recent: nat, ids: Seq<u64>)
    requires
        edit_error(turns, recent, ids) is None,
        ids_of(turns).no_duplicates(),
        turns.len() > 0,
        turns[0].role == MessageRole::System,
        turns[0].tool_call_id is None,
        turns[0].tool_calls.len() == 0,
    ensures
        removal(turns, ids).len() > 0,
        removal(turns, ids)[0] == turns[0],
{
    let chosen = chosen_turns(turns, ids);
    let calls = chosen_calls(turns, ids);
    if chosen.contains(turns[0].id) {
        let k = choose|k: int| 0 <= k < ids.len() && removes_turn(turns, #[trigger] ids[k], turns[0].id);
        lemma_selection_error(turns, recent, ids, k);
        assert(protected(turns, recent, turns[0].id));
        let i = choose|i: int|
            0 <= i < turns.len() && (#[trigger] turns[i]).id == turns[0].id && answers_call_of(
                turns[i],
                turn_with(turns, ids[k]).tool_calls,
            );
        assert(ids_of(turns)[i] == ids_of(turns)[0]);
        assert(i == 0);
    }
    lemma_filter_all(turns[0].tool_calls, |c: CallView| !calls.contains(c.id));
    assert(without_calls(turns[0], calls) == turns[0]);
    assert(survivor(turns[0], chosen, calls) == Some(turns[0]));
    lemma_edited_first(turns, chosen, calls);
}

proof fn lemma_edited_first(turns: Seq<TurnView>, ids: Set<u64>, calls: Set<Seq<char>>)
    requires
        turns.len() > 0,
        survivor(turns[0], ids, calls) == Some(turns[0]),
    ensures
        edited(turns, ids, calls).len() > 0,
        edited(turns, ids, calls)[0] == turns[0],
    decreases turns.len(),
{
    if turns.len() > 1 {
        lemma_edited_first(turns.drop_last(), ids, calls);
    } else {
        assert(turns.drop_last() =~= seq![]);
        assert(edited(turns.drop_last(), ids, calls) =~= seq![]);
    }
}

proof fn lemma_measure_filter(unit: Unit, calls: Seq<CallView>, keep: spec_fn(CallView) -> bool)
    ensures
        measure_calls(unit, calls.filter(keep)) <= measure_calls(unit, calls),
    decreases calls.len(),
{
    reveal(Seq::filter);
    if calls.len() > 0 {
        let front = calls.drop_last();
        lemma_measure_filter(unit, front, keep);
        if keep(calls.last()) {
            let kept = front.filter(keep).push(calls.last());
            assert(kept.drop_last() =~= front.filter(keep));
        }
    }
}

proof fn lemma_measure_edited(
    unit: Unit,
    turns: Seq<TurnView>,
    ids: Set<u64>,
    calls: Set<Seq<char>>,
)
    ensures
        measure_turns(unit, edited(turns, ids, calls)) <= measure_turns(unit, turns),
    decreases turns.len(),
{
    if turns.len() > 0 {
        let front = turns.drop_last();
        lemma_measure_edited(unit, front, ids, calls);
        let left = edited(front, ids, calls);
        lemma_measure_filter(
            unit,
            turns.last().tool_calls,
            |c: CallView| !calls.contains(c.id),
        );
        if let Some(t) = survivor(turns.last(), ids, calls) {
            assert(left.push(t).drop_last() =~= left);
        }
    }
}

/// Removing turns never makes the estimate larger.
pub proof fn removal_never_grows_the_context(turns: Seq<TurnView>, ids: Seq<u64>)
    ensures
        context_tokens(removal(turns, ids)) <= context_tokens(turns),
{
    lemma_measure_edited(
        Unit::Chars,
        turns,
        chosen_turns(turns, ids),
        chosen_calls(turns, ids),
    );
}

proof fn lemma_edited_ids(turns: Seq<TurnView>, ids: Set<u64>, calls: Set<Seq<char>>)
    requires
        ids_of(turns).no_duplicates(),
    ensures
        ids_of(edited(turns, ids, calls)).no_duplicates(),
        forall|id: u64| #[trigger]
            ids_of(edited(turns, ids, calls)).contains(id) ==> ids_of(turns).contains(id),
    decreases turns.len(),
{
    if turns.len() > 0 {
        let front = turns.drop_last();
        assert(ids_of(front) =~= ids_of(turns).drop_last());
        assert(ids_of(front).no_duplicates());
        lemma_edited_ids(front, ids, calls);
        let left = edited(front, ids, calls);
        assert forall|id: u64| ids_of(front).contains(id) implies #[trigger] ids_of(
            turns,
        ).contains(id) by {
            let k = choose|k: int| 0 <= k < ids_of(front).len() && ids_of(front)[k] == id;
            assert(ids_of(turns)[k] == id);
        }
        if let Some(t) = survivor(turns.last(), ids, calls) {
            let all = left.push(t);
            assert(ids_of(all) =~= ids_of(left).push(t.id));
            assert(ids_of(turns)[turns.len() - 1] == t.id);
            assert(!ids_of(front).contains(t.id)) by {
                if ids_of(front).contains(t.id) {
                    let k = choose|k: int|
                        0 <= k < ids_of(front).len() && ids_of(front)[k] == t.id;
                    assert(ids_of(turns)[k] == ids_of(turns)[turns.len() - 1]);
                }
            }
            assert forall|id: u64| #[trigger] ids_of(all).contains(id) implies ids_of(
                turns,
            ).contains(id) by {
                let k = choose|k: int| 0 <= k < ids_of(all).len() && ids_of(all)[k] == id;
                if k < left.len() {
                    assert(ids_of(left)[k] == id);
                    assert(ids_of(left).contains(id));
                }
            }
            assert forall|a: int, b: int|
                0 <= a < ids_of(all).len() && 0 <= b < ids_of(all).len() && a != b implies ids_of(
                all,
            )[a] != ids_of(all)[b] by {
                if a == left.len() {
                    assert(ids_of(left).contains(ids_of(left)[b]));
                } else if b == left.len() {
                    assert(ids_of(left).contains(ids_of(left)[a]));
                }
            }
        }
    }
}

/// Turn ids stay unique under removal.
pub proof fn removal_keeps_ids_unique(turns: Seq<TurnView>, ids: Seq<u64>)
    requires
        ids_of(turns).no_duplicates(),
    ensures
        ids_of(removal(turns, ids)).no_duplicates(),
{
    lemma_edited_ids(turns, chosen_turns(turns, ids), chosen_calls(turns, ids));
}

/// The turn at `i`, found by its id.
pub proof fn lemma_turn_with(turns: Seq<TurnView>, i: int)
    requires
        ids_of(turns).no_duplicates(),
        0 <= i < turns.len(),
    ensures
        turn_with(turns, turns[i].id) == turns[i],
{
    let n = first_position(ids_of(turns), turns[i].id);
    lemma_first_position(ids_of(turns), turns[i].id);
    assert(ids_of(turns)[i] == turns[i].id);
    if n != i {
        assert(n < turns.len()) by {
            if n == turns.len() {
                assert(ids_of(turns)[i] != turns[i].id);
            }
        }
        assert(ids_of(turns)[n] == ids_of(turns)[i]);
    }
}

/// Whether every id is that of a turn.
pub open spec fn all_known(turns: Seq<TurnView>, ids: Seq<u64>) -> bool {
    forall|k: int| 0 <= k < ids.len() ==> known(turns, #[trigger] ids[k])
}

/// Whether a turn requests the call.
pub open spec fn requests(turn: TurnView, call: Seq<char>) -> bool {
    calls_id(turn.tool_calls, call)
}

/// Whether a turn is the result of the call.
pub open spec fn results_from(turn: TurnView, call: Seq<char>) -> bool {
    turn.role == MessageRole::Tool && turn.tool_call_id == Some(call)
}

/// Whether some turn requests the call.
pub open spec fn some_requests(turns: Seq<TurnView>, call: Seq<char>) -> bool {
    exists|t: TurnView| #[trigger] turns.contains(t) && requests(t, call)
}

/// A tool answer that is left keeps its request: where the turn at `answer` is the only result of
/// a call that the turn at `request` requests, and removal leaves the answer, some turn that is
/// left requests the call.
pub proof fn an_answer_that_is_left_keeps_its_request(
    turns: Seq<TurnView>,
    ids: Seq<u64>,
    request: int,
    answer: int,
    call: Seq<char>,
)
    requires
        ids_of(turns).no_duplicates(),
        all_known(turns, ids),
        0 <= request < turns.len(),
        turns[request].role != MessageRole::Tool,
        turns[request].tool_call_id is None,
        requests(turns[request], call),
        0 <= answer < turns.len(),
        results_from(turns[answer], call),
        forall|k: int|
            0 <= k < turns.len() && results_from(#[trigger] turns[k], call) ==> k == answer,
        !chosen_turns(turns, ids).contains(turns[answer].id),
    ensures
        some_requests(removal(turns, ids), call),
{
    let chosen = chosen_turns(turns, ids);
    let calls = chosen_calls(turns, ids);
    assert forall|k: int| 0 <= k < ids.len() implies !removes_turn(
        turns,
        #[trigger] ids[k],
        turns[answer].id,
    ) by {}
    if calls.contains(call) {
        let k = choose|k: int| 0 <= k < ids.len() && removes_call(turns, #[trigger] ids[k], call);
        let n = choose|n: int| 0 <= n < turns.len() && ids_of(turns)[n] == ids[k];
        lemma_turn_with(turns, n);
        if turns[n].role == MessageRole::Tool {
            assert(results_from(turns[n], call));
            assert(n == answer);
            assert(removes_turn(turns, ids[k], turns[answer].id));
        } else {
            assert(answers_call_of(turns[answer], turns[n].tool_calls));
            assert(removes_turn(turns, ids[k], turns[answer].id));
        }
    }
    if chosen.contains(turns[request].id) {
        let k = choose|k: int|
            0 <= k < ids.len() && removes_turn(turns, #[trigger] ids[k], turns[request].id);
        lemma_turn_with(turns, request);
        if ids[k] == turns[request].id {
            assert(answers_call_of(turns[answer], turns[request].tool_calls));
            assert(removes_turn(turns, ids[k], turns[answer].id));
        } else {
            let i = choose|i: int|
                0 <= i < turns.len() && (#[trigger] turns[i]).id == turns[request].id
                    && answers_call_of(turns[i], turn_with(turns, ids[k]).tool_calls);
            assert(ids_of(turns)[i] == ids_of(turns)[request]);
            assert(i == request);
        }
    }
    let j = choose|j: int|
        0 <= j < turns[request].tool_calls.len() && (#[trigger] turns[request].tool_calls[j]).id
            == call;
    let c = turns[request].tool_calls[j];
    assert(turns[request].tool_calls.contains(c));
    let left = if calls == Set::<Seq<char>>::empty() {
        turns[request]
    } else {
        without_calls(turns[request], calls)
    };
    lemma_filter_contains(turns[request].tool_calls, |c: CallView| !calls.contains(c.id), c);
    assert(left.tool_calls.contains(c));
    let m = choose|m: int| 0 <= m < left.tool_calls.len() && left.tool_calls[m] == c;
    assert(left.tool_calls[m].id == call);
    assert(left_of(turns, chosen, calls, request, left));
    lemma_edited_contains(turns, chosen, calls, left);
    assert(removal(turns, ids).contains(left) && requests(left, call));
}

/// A request that is left keeps its answers: where removal leaves a turn that requests a call, it
/// leaves every result of the call, as it was but for calls of its own.
pub proof fn a_request_that_is_left_keeps_its_answers(
    turns: Seq<TurnView>,
    ids: Seq<u64>,
    answer: int,
    call: Seq<char>,
)
    requires
        ids_of(turns).no_duplicates(),
        all_known(turns, ids),
        0 <= answer < turns.len(),
        results_from(turns[answer], call),
        some_requests(removal(turns, ids), call),
    ensures
        removal(turns, ids).contains(turns[answer]) || removal(turns, ids).contains(
            without_calls(turns[answer], chosen_calls(turns, ids)),
        ),
        turns[answer].tool_calls.len() == 0 ==> removal(turns, ids).contains(turns[answer]),
{
    let chosen = chosen_turns(turns, ids);
    let calls = chosen_calls(turns, ids);
    let t = choose|t: TurnView| #[trigger] removal(turns, ids).contains(t) && requests(t, call);
    let j = choose|j: int| 0 <= j < t.tool_calls.len() && (#[trigger] t.tool_calls[j]).id == call;
    assert(t.tool_calls.contains(t.tool_calls[j]));
    removed_calls_are_not_requested(turns, ids, t, t.tool_calls[j]);
    if chosen.contains(turns[answer].id) {
        let k = choose|k: int|
            0 <= k < ids.len() && removes_turn(turns, #[trigger] ids[k], turns[answer].id);
        if ids[k] == turns[answer].id {
            lemma_turn_with(turns, answer);
            assert(removes_call(turns, ids[k], call));
        } else {
            let i = choose|i: int|
                0 <= i < turns.len() && (#[trigger] turns[i]).id == turns[answer].id
                    && answers_call_of(turns[i], turn_with(turns, ids[k]).tool_calls);
            assert(ids_of(turns)[i] == ids_of(turns)[answer]);
            assert(i == answer);
            assert(removes_call(turns, ids[k], call));
        }
        assert(calls.contains(call));
    }
    let left = if calls == Set::<Seq<char>>::empty() {
        turns[answer]
    } else {
        without_calls(turns[answer], calls)
    };
    assert(left_of(turns, chosen, calls, answer, left));
    lemma_edited_contains(turns, chosen, calls, left);
    if turns[answer].tool_calls.len() == 0 {
        lemma_filter_all(turns[answer].tool_calls, |c: CallView| !calls.contains(c.id));
    }
}

// ---------------------------------------------------------------------------------------------
// Summaries
// ---------------------------------------------------------------------------------------------

/// A summary leaves what removal leaves, with one turn more.
pub proof fn a_summary_stands_for_what_it_removes(
    turns: Seq<TurnView>,
    ids: Seq<u64>,
    id: u64,
    summary: Seq<char>,
    reason: Seq<char>,
)
    ensures
        exists|at: int|
            0 <= at <= removal(turns, ids).len() && #[trigger] removal(turns, ids).insert(
                at,
                crate::session::edit::summary_turn(id, summary, reason),
            ) == summarization(turns, ids, id, summary, reason),
{
    let chosen = chosen_turns(turns, ids);
    let calls = chosen_calls(turns, ids);
    let at = crate::session::edit::first_chosen(turns, chosen);
    lemma_first_chosen_bounds(turns, chosen);
    let front = edited(turns.take(at), chosen, calls);
    let back = edited(turns.skip(at), chosen, calls);
    lemma_edited_split(turns, chosen, calls, at);
    let turn = crate::session::edit::summary_turn(id, summary, reason);
    assert((front + back).insert(front.len() as int, turn) =~= front.push(turn) + back);
    assert(removal(turns, ids).insert(front.len() as int, turn) == summarization(
        turns,
        ids,
        id,
        summary,
        reason,
    ));
}

proof fn lemma_first_chosen_bounds(turns: Seq<TurnView>, ids: Set<u64>)
    ensures
        0 <= crate::session::edit::first_chosen(turns, ids) <= turns.len(),
    decreases turns.len(),
{
    if turns.len() > 0 {
        lemma_first_chosen_bounds(turns.drop_first(), ids);
    }
}

proof fn lemma_edited_split(turns: Seq<TurnView>, ids: Set<u64>, calls: Set<Seq<char>>, at: int)
    requires
        0 <= at <= turns.len(),
    ensures
        edited(turns, ids, calls) == edited(turns.take(at), ids, calls) + edited(
            turns.skip(at),
            ids,
            calls,
        ),
    decreases turns.len(),
{
    if at == turns.len() {
        assert(turns.take(at) =~= turns);
        assert(turns.skip(at) =~= seq![]);
        assert(edited(turns.skip(at), ids, calls) =~= seq![]);
        assert(edited(turns, ids, calls) + Seq::<TurnView>::empty() =~= edited(turns, ids, calls));
    } else {
        let front = turns.drop_last();
        lemma_edited_split(front, ids, calls, at);
        assert(front.take(at) =~= turns.take(at));
        assert(turns.skip(at).drop_last() =~= front.skip(at));
        assert(turns.skip(at).last() == turns.last());
        let a = edited(turns.take(at), ids, calls);
        let b = edited(front.skip(at), ids, calls);
        if let Some(t) = survivor(turns.last(), ids, calls) {
            assert((a + b).push(t) =~= a + b.push(t));
        }
    }
}

// ---------------------------------------------------------------------------------------------
// Cleanup
// ---------------------------------------------------------------------------------------------

/// Cleanup leaves no compaction call and no answer to one.
pub proof fn cleanup_leaves_no_compaction_turns(turns: Seq<TurnView>, t: TurnView)
    requires
        cleanup(turns).contains(t),
    ensures
        !compaction_turn(t),
{
    let ids = earlier_turns(turns);
    let calls = earlier_calls(turns);
    lemma_edited_contains(turns, ids, calls, t);
    let i = choose|i: int| left_of(turns, ids, calls, i, t);
    if compaction_turn(t) {
        if !crate::session::edit::compaction_result(t) {
            let j = choose|j: int|
                0 <= j < t.tool_calls.len() && compaction_call(#[trigger] t.tool_calls[j]);
            let c = t.tool_calls[j];
            assert(t.tool_calls.contains(c));
            if calls != Set::<Seq<char>>::empty() {
                lemma_filter_contains(turns[i].tool_calls, |c: CallView| !calls.contains(c.id), c);
            }
            assert(turns[i].tool_calls.contains(c));
            let m = choose|m: int|
                0 <= m < turns[i].tool_calls.len() && turns[i].tool_calls[m] == c;
            assert(compaction_call(turns[i].tool_calls[m]));
        }
        assert(compaction_turn(turns[i]));
        assert(ids.contains(turns[i].id));
    }
}

/// Cleanup never makes the estimate larger.
pub proof fn cleanup_never_grows_the_context(turns: Seq<TurnView>)
    ensures
        context_tokens(cleanup(turns)) <= context_tokens(turns),
{
    lemma_measure_edited(Unit::Chars, turns, earlier_turns(turns), earlier_calls(turns));
}

proof fn lemma_nothing_edited(turns: Seq<TurnView>)
    ensures
        edited(turns, Set::empty(), Set::empty()) == turns,
    decreases turns.len(),
{
    if turns.len() > 0 {
        lemma_nothing_edited(turns.drop_last());
        assert(turns.drop_last().push(turns.last()) =~= turns);
    } else {
        assert(edited(turns, Set::empty(), Set::empty()) =~= turns);
    }
}

/// What was cleaned up once is clean: cleanup of it changes nothing.
pub proof fn cleanup_is_idempotent(turns: Seq<TurnView>)
    ensures
        cleanup(cleanup(turns)) == cleanup(turns),
{
    let clean = cleanup(turns);
    assert forall|i: int| 0 <= i < clean.len() implies !compaction_turn(#[trigger] clean[i]) by {
        assert(clean.contains(clean[i]));
        cleanup_leaves_no_compaction_turns(turns, clean[i]);
    }
    assert(earlier_turns(clean) =~= Set::empty());
    assert(earlier_calls(clean) =~= Set::empty()) by {
        assert forall|id: Seq<char>| !earlier_calls(clean).contains(id) by {
            if earlier_calls(clean).contains(id) {
                let i = choose|i: int|
                    0 <= i < clean.len() && compaction_turn_for(#[trigger] clean[i], id);
                assert(compaction_turn(clean[i]));
            }
        }
    }
    lemma_nothing_edited(clean);
}

/// Cleanup keeps every system turn as it was.
pub proof fn cleanup_keeps_system_turns(turns: Seq<TurnView>, i: int)
    requires
        ids_of(turns).no_duplicates(),
        0 <= i < turns.len(),
        turns[i].role == MessageRole::System,
        turns[i].tool_calls.len() == 0,
    ensures
        cleanup(turns).contains(turns[i]),
{
    let ids = earlier_turns(turns);
    let calls = earlier_calls(turns);
    if ids.contains(turns[i].id) {
        let j = choose|j: int|
            0 <= j < turns.len() && (#[trigger] turns[j]).id == turns[i].id && compaction_turn(
                turns[j],
            );
        assert(ids_of(turns)[j] == ids_of(turns)[i]);
    }
    lemma_filter_all(turns[i].tool_calls, |c: CallView| !calls.contains(c.id));
    assert(without_calls(turns[i], calls) == turns[i]);
    assert(left_of(turns, ids, calls, i, turns[i]));
    lemma_edited_contains(turns, ids, calls, turns[i]);
}

// ---------------------------------------------------------------------------------------------
// Ranking
// ---------------------------------------------------------------------------------------------

/// Whether keys never rise.
pub open spec fn falling<T>(s: Seq<T>, key: spec_fn(T) -> usize) -> bool {
    forall|i: int, j: int| 0 <= i <= j < s.len() ==> key(#[trigger] s[i]) >= key(#[trigger] s[j])
}

proof fn lemma_ranked_insert_falls<T>(s: Seq<T>, key: spec_fn(T) -> usize, x: T)
    requires
        falling(s, key),
    ensures
        falling(ranked_insert(s, key, x), key),
        ranked_insert(s, key, x).to_multiset() == s.to_multiset().insert(x),
        forall|i: int|
            0 <= i < ranked_insert(s, key, x).len() ==> {
                let y = #[trigger] ranked_insert(s, key, x)[i];
                y == x || s.contains(y)
            },
    decreases s.len(),
{
    broadcast use vstd::seq_lib::group_to_multiset_ensures;

    if s.len() == 0 {
        assert(seq![x] =~= s.push(x));
    } else if key(s.last()) >= key(x) {
        let r = s.push(x);
        assert forall|i: int, j: int| 0 <= i <= j < r.len() implies key(#[trigger] r[i]) >= key(
            #[trigger] r[j],
        ) by {
            if j == s.len() && i < s.len() {
                assert(key(s[i]) >= key(s[s.len() - 1]));
            }
        }
        assert forall|i: int| 0 <= i < r.len() implies {
            let y = #[trigger] r[i];
            y == x || s.contains(y)
        } by {
            if i < s.len() {
                assert(s.contains(s[i]));
            }
        }
    } else {
        let front = s.drop_last();
        lemma_ranked_insert_falls(front, key, x);
        let inner = ranked_insert(front, key, x);
        let r = inner.push(s.last());
        assert forall|i: int, j: int| 0 <= i <= j < r.len() implies key(#[trigger] r[i]) >= key(
            #[trigger] r[j],
        ) by {
            if j == inner.len() && i < inner.len() {
                let y = inner[i];
                if y != x {
                    let m = choose|m: int| 0 <= m < front.len() && front[m] == y;
                    assert(key(s[m]) >= key(s[s.len() - 1]));
                }
            }
        }
        assert forall|i: int| 0 <= i < r.len() implies {
            let y = #[trigger] r[i];
            y == x || s.contains(y)
        } by {
            if i < inner.len() {
                let y = inner[i];
                if y != x {
                    let m = choose|m: int| 0 <= m < front.len() && front[m] == y;
                    assert(s[m] == y);
                }
            } else {
                assert(s[s.len() - 1] == s.last());
            }
        }
        assert(front.push(s.last()) =~= s);
        assert(r.to_multiset() =~= s.to_multiset().insert(x));
    }
}

/// Ranking puts the largest consumers first, loses none and adds none.
pub proof fn ranking_is_a_falling_permutation<T>(s: Seq<T>, key: spec_fn(T) -> usize)
    ensures
        falling(ranked(s, key), key),
        ranked(s, key).to_multiset() == s.to_multiset(),
        ranked(s, key).len() == s.len(),
    decreases s.len(),
{
    broadcast use vstd::seq_lib::group_to_multiset_ensures;

    if s.len() > 0 {
        ranking_is_a_falling_permutation(s.drop_last(), key);
        lemma_ranked_insert_falls(ranked(s.drop_last(), key), key, s.last());
        assert(s.drop_last().push(s.last()) =~= s);
        assert(ranked(s, key).len() == ranked(s, key).to_multiset().len());
    }
}

proof fn lemma_ranked_insert_stable<T>(s: Seq<T>, key: spec_fn(T) -> usize, x: T, k: usize)
    requires
        falling(s, key),
    ensures
        ranked_insert(s, key, x).filter(|y: T| key(y) == k) == if key(x) == k {
            s.filter(|y: T| key(y) == k).push(x)
        } else {
            s.filter(|y: T| key(y) == k)
        },
    decreases s.len(),
{
    reveal(Seq::filter);
    let keep = |y: T| key(y) == k;
    if s.len() == 0 {
        assert(seq![x].drop_last() =~= s);
        assert(s.filter(keep) =~= s);
        assert(seq![x].filter(keep) == if keep(x) {
            s.push(x)
        } else {
            s
        });
    } else if key(s.last()) >= key(x) {
        assert(s.push(x).drop_last() =~= s);
    } else {
        let front = s.drop_last();
        lemma_ranked_insert_stable(front, key, x, k);
        let inner = ranked_insert(front, key, x);
        assert(inner.push(s.last()).drop_last() =~= inner);
    }
}

/// Consumers of the same size keep the order of the conversation.
pub proof fn ranking_is_stable<T>(s: Seq<T>, key: spec_fn(T) -> usize, k: usize)
    ensures
        ranked(s, key).filter(|y: T| key(y) == k) == s.filter(|y: T| key(y) == k),
    decreases s.len(),
{
    reveal(Seq::filter);
    if s.len() > 0 {
        ranking_is_stable(s.drop_last(), key, k);
        ranking_is_a_falling_permutation(s.drop_last(), key);
        lemma_ranked_insert_stable(ranked(s.drop_last(), key), key, s.last(), k);
    }
}

} // verus!
