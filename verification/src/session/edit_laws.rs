//! What holds of edits to the history: which turns are left, in which order, and which edits are
//! refused.

use vstd::prelude::*;

use crate::chat::{CallView, MessageRole};
use crate::content::ContentView;
use crate::error::ErrorView;
use crate::session::edit::{chosen_calls, chosen_turns, cleanup, earlier_calls, earlier_turns};
use crate::session::edit::{calls_id, compaction_turn_for, edit_error, edited, first_chosen};
use crate::session::edit::{ids_of, known, protected, removal, removes_call, removes_turn};
use crate::session::edit::{selection_error, summarization, turn_with, without_calls};
use crate::session::laws::{all_known, lemma_turn_with};
use crate::session::turn::TurnView;
use crate::text::{blank, decimal, trimmed};
use crate::tools::compact::{COMPACT_REMOVE_MESSAGES, COMPACT_SUMMARIZE_MESSAGES};

verus! {

// ---------------------------------------------------------------------------------------------
// What is left
// ---------------------------------------------------------------------------------------------

/// Whether a turn requests the call `id`.
pub open spec fn calls_for(turn: TurnView, id: Seq<char>) -> bool {
    exists|j: int| 0 <= j < turn.tool_calls.len() && (#[trigger] turn.tool_calls[j]).id == id
}

/// Whether a turn goes when `ids` are selected: it is selected itself, or it answers a call that a
/// selected turn requests.
pub open spec fn goes(turns: Seq<TurnView>, ids: Seq<u64>, turn: TurnView) -> bool {
    ||| ids.contains(turn.id)
    ||| exists|j: int|
        0 <= j < turns.len() && ids.contains((#[trigger] turns[j]).id) && turns[j].role
            != MessageRole::Tool && (turn.tool_call_id matches Some(id) && calls_for(turns[j], id))
}

/// Whether the request of a call goes when `ids` are selected: its answer is selected, or a turn
/// that requests it.
pub open spec fn call_goes(turns: Seq<TurnView>, ids: Seq<u64>, id: Seq<char>) -> bool {
    exists|j: int|
        0 <= j < turns.len() && ids.contains((#[trigger] turns[j]).id) && if turns[j].role
            == MessageRole::Tool {
            turns[j].tool_call_id == Some(id)
        } else {
            calls_for(turns[j], id)
        }
}

/// Whether a turn goes as part of earlier compaction: it requests a compaction tool, or holds the
/// result of one.
pub open spec fn earlier_goes(turn: TurnView) -> bool {
    ||| turn.role == MessageRole::Tool && (turn.name == Some(COMPACT_REMOVE_MESSAGES@) || turn.name
        == Some(COMPACT_SUMMARIZE_MESSAGES@))
    ||| exists|j: int|
        0 <= j < turn.tool_calls.len() && ((#[trigger] turn.tool_calls[j]).name
            == COMPACT_REMOVE_MESSAGES@ || turn.tool_calls[j].name == COMPACT_SUMMARIZE_MESSAGES@)
}

/// Whether a call was one of earlier compaction: it requests a compaction tool, or a result of one
/// answers it.
pub open spec fn earlier_call_goes(turns: Seq<TurnView>, id: Seq<char>) -> bool {
    exists|i: int|
        #![trigger turns[i]]
        0 <= i < turns.len() && {
            ||| turns[i].role == MessageRole::Tool && (turns[i].name == Some(
                COMPACT_REMOVE_MESSAGES@,
            ) || turns[i].name == Some(COMPACT_SUMMARIZE_MESSAGES@)) && turns[i].tool_call_id
                == Some(id)
            ||| exists|j: int|
                0 <= j < turns[i].tool_calls.len() && ((#[trigger] turns[i].tool_calls[j]).name
                    == COMPACT_REMOVE_MESSAGES@ || turns[i].tool_calls[j].name
                    == COMPACT_SUMMARIZE_MESSAGES@) && turns[i].tool_calls[j].id == id
        }
}

/// A turn without the calls that go.
pub open spec fn cut(turn: TurnView, gone: spec_fn(Seq<char>) -> bool) -> TurnView {
    TurnView { tool_calls: turn.tool_calls.filter(|c: CallView| !gone(c.id)), ..turn }
}

/// Whether an assistant turn holds nothing at all.
pub open spec fn says_nothing(turn: TurnView) -> bool {
    &&& turn.role == MessageRole::Assistant
    &&& blank(turn.content.text())
    &&& !turn.content.has_media()
    &&& turn.annotations.len() == 0
    &&& turn.tool_calls.len() == 0
}

/// What is left of `part`: the turns that do not go, in order, without the calls that go; an
/// assistant turn that is left with nothing goes too, where some call went.
pub open spec fn left(
    part: Seq<TurnView>,
    gone: spec_fn(TurnView) -> bool,
    call_gone: spec_fn(Seq<char>) -> bool,
) -> Seq<TurnView> {
    part.filter(|t: TurnView| !gone(t)).map_values(|t: TurnView| cut(t, call_gone)).filter(
        |t: TurnView| !(says_nothing(t) && exists|id: Seq<char>| #[trigger] call_gone(id)),
    )
}

/// Two tests that agree on every item keep the same items.
pub proof fn lemma_same_filter<T>(s: Seq<T>, f: spec_fn(T) -> bool, g: spec_fn(T) -> bool)
    requires
        forall|i: int| 0 <= i < s.len() ==> f(#[trigger] s[i]) == g(s[i]),
    ensures
        s.filter(f) == s.filter(g),
    decreases s.len(),
{
    reveal(Seq::filter);
    if s.len() > 0 {
        assert(f(s[s.len() - 1]) == g(s[s.len() - 1]));
        assert forall|i: int| 0 <= i < s.drop_last().len() implies f(#[trigger] s.drop_last()[i])
            == g(s.drop_last()[i]) by {
            assert(f(s[i]) == g(s[i]));
        }
        lemma_same_filter(s.drop_last(), f, g);
    }
}

proof fn lemma_all_filter<T>(s: Seq<T>, f: spec_fn(T) -> bool)
    requires
        forall|i: int| 0 <= i < s.len() ==> f(#[trigger] s[i]),
    ensures
        s.filter(f) == s,
    decreases s.len(),
{
    reveal(Seq::filter);
    if s.len() > 0 {
        assert(f(s[s.len() - 1]));
        assert forall|i: int| 0 <= i < s.drop_last().len() implies f(
            #[trigger] s.drop_last()[i],
        ) by {
            assert(f(s[i]));
        }
        lemma_all_filter(s.drop_last(), f);
    }
}

proof fn lemma_left_step(
    part: Seq<TurnView>,
    gone: spec_fn(TurnView) -> bool,
    call_gone: spec_fn(Seq<char>) -> bool,
)
    requires
        part.len() > 0,
    ensures
        ({
            let front = left(part.drop_last(), gone, call_gone);
            let turn = cut(part.last(), call_gone);
            left(part, gone, call_gone) == if gone(part.last()) || (says_nothing(turn)
                && exists|id: Seq<char>| #[trigger] call_gone(id)) {
                front
            } else {
                front.push(turn)
            }
        }),
{
    reveal(Seq::filter);
    let f = |t: TurnView| !gone(t);
    let g = |t: TurnView| cut(t, call_gone);
    let h = |t: TurnView| !(says_nothing(t) && exists|id: Seq<char>| #[trigger] call_gone(id));
    let a = part.drop_last().filter(f);
    if !gone(part.last()) {
        assert(part.filter(f) =~= a.push(part.last()));
        let mapped = a.push(part.last()).map_values(g);
        assert(mapped =~= a.map_values(g).push(g(part.last())));
        assert(mapped.drop_last() =~= a.map_values(g));
        assert(mapped.last() == g(part.last()));
    }
}

proof fn lemma_edited_is_left(
    part: Seq<TurnView>,
    ids: Set<u64>,
    calls: Set<Seq<char>>,
    gone: spec_fn(TurnView) -> bool,
    call_gone: spec_fn(Seq<char>) -> bool,
)
    requires
        forall|i: int| 0 <= i < part.len() ==> ids.contains((#[trigger] part[i]).id) == gone(part[i]),
        forall|id: Seq<char>| #[trigger] calls.contains(id) == call_gone(id),
    ensures
        edited(part, ids, calls) == left(part, gone, call_gone),
    decreases part.len(),
{
    if part.len() == 0 {
        reveal(Seq::filter);
        assert(left(part, gone, call_gone) =~= seq![]);
    } else {
        let front = part.drop_last();
        let turn = part.last();
        assert(ids.contains(part[part.len() - 1].id) == gone(turn));
        assert forall|i: int| 0 <= i < front.len() implies ids.contains((#[trigger] front[i]).id)
            == gone(front[i]) by {
            assert(ids.contains(part[i].id) == gone(part[i]));
        }
        lemma_edited_is_left(front, ids, calls, gone, call_gone);
        lemma_left_step(part, gone, call_gone);
        let f = |c: CallView| !calls.contains(c.id);
        let g = |c: CallView| !call_gone(c.id);
        lemma_same_filter(turn.tool_calls, f, g);
        assert(without_calls(turn, calls) == cut(turn, call_gone));
        if exists|id: Seq<char>| #[trigger] call_gone(id) {
            let id = choose|id: Seq<char>| #[trigger] call_gone(id);
            assert(calls.contains(id));
            assert(calls != Set::<Seq<char>>::empty());
        } else {
            assert forall|id: Seq<char>| !(#[trigger] calls.contains(id)) by {
                assert(!call_gone(id));
            }
            assert(calls =~= Set::<Seq<char>>::empty());
            lemma_all_filter(turn.tool_calls, g);
            assert(cut(turn, call_gone) == turn);
        }
    }
}

proof fn lemma_chosen(turns: Seq<TurnView>, ids: Seq<u64>, i: int)
    requires
        ids_of(turns).no_duplicates(),
        all_known(turns, ids),
        0 <= i < turns.len(),
    ensures
        chosen_turns(turns, ids).contains(turns[i].id) == goes(turns, ids, turns[i]),
{
    let turn = turns[i];
    if chosen_turns(turns, ids).contains(turn.id) {
        let k = choose|k: int| 0 <= k < ids.len() && removes_turn(turns, #[trigger] ids[k], turn.id);
        assert(ids.contains(ids[k]));
        assert(known(turns, ids[k]));
        let j = choose|j: int| 0 <= j < ids_of(turns).len() && ids_of(turns)[j] == ids[k];
        assert(turns[j].id == ids[k]);
        lemma_turn_with(turns, j);
        if ids[k] != turn.id {
            let m = choose|m: int|
                0 <= m < turns.len() && (#[trigger] turns[m]).id == turn.id
                    && crate::session::edit::answers_call_of(
                    turns[m],
                    turn_with(turns, ids[k]).tool_calls,
                );
            assert(ids_of(turns)[m] == ids_of(turns)[i]);
            assert(m == i);
            assert(ids.contains(turns[j].id) && calls_for(turns[j], turn.tool_call_id->0));
        }
    }
    if goes(turns, ids, turn) {
        if ids.contains(turn.id) {
            let k = choose|k: int| 0 <= k < ids.len() && ids[k] == turn.id;
            assert(removes_turn(turns, ids[k], turn.id));
        } else {
            let j = choose|j: int|
                0 <= j < turns.len() && ids.contains((#[trigger] turns[j]).id) && turns[j].role
                    != MessageRole::Tool && (turn.tool_call_id matches Some(id) && calls_for(
                    turns[j],
                    id,
                ));
            lemma_turn_with(turns, j);
            let k = choose|k: int| 0 <= k < ids.len() && ids[k] == turns[j].id;
            assert(crate::session::edit::answers_call_of(turns[i], turns[j].tool_calls));
            assert(removes_turn(turns, ids[k], turn.id));
        }
    }
}

proof fn lemma_chosen_call(turns: Seq<TurnView>, ids: Seq<u64>, id: Seq<char>)
    requires
        ids_of(turns).no_duplicates(),
        all_known(turns, ids),
    ensures
        chosen_calls(turns, ids).contains(id) == call_goes(turns, ids, id),
{
    if chosen_calls(turns, ids).contains(id) {
        let k = choose|k: int| 0 <= k < ids.len() && removes_call(turns, #[trigger] ids[k], id);
        assert(ids.contains(ids[k]));
        assert(known(turns, ids[k]));
        let j = choose|j: int| 0 <= j < ids_of(turns).len() && ids_of(turns)[j] == ids[k];
        assert(turns[j].id == ids[k]);
        lemma_turn_with(turns, j);
        assert(ids.contains(turns[j].id));
        assert(calls_id(turns[j].tool_calls, id) == calls_for(turns[j], id));
    }
    if call_goes(turns, ids, id) {
        let j = choose|j: int|
            0 <= j < turns.len() && ids.contains((#[trigger] turns[j]).id) && if turns[j].role
                == MessageRole::Tool {
                turns[j].tool_call_id == Some(id)
            } else {
                calls_for(turns[j], id)
            };
        lemma_turn_with(turns, j);
        let k = choose|k: int| 0 <= k < ids.len() && ids[k] == turns[j].id;
        assert(calls_id(turns[j].tool_calls, id) == calls_for(turns[j], id));
        assert(removes_call(turns, ids[k], id));
    }
}

proof fn lemma_part_is_left(turns: Seq<TurnView>, ids: Seq<u64>, part: Seq<TurnView>)
    requires
        ids_of(turns).no_duplicates(),
        all_known(turns, ids),
        forall|i: int| 0 <= i < part.len() ==> turns.contains(#[trigger] part[i]),
    ensures
        edited(part, chosen_turns(turns, ids), chosen_calls(turns, ids)) == left(
            part,
            |t: TurnView| goes(turns, ids, t),
            |id: Seq<char>| call_goes(turns, ids, id),
        ),
{
    let gone = |t: TurnView| goes(turns, ids, t);
    let call_gone = |id: Seq<char>| call_goes(turns, ids, id);
    assert forall|i: int| 0 <= i < part.len() implies chosen_turns(turns, ids).contains(
        (#[trigger] part[i]).id,
    ) == gone(part[i]) by {
        let j = choose|j: int| 0 <= j < turns.len() && turns[j] == part[i];
        lemma_chosen(turns, ids, j);
    }
    assert forall|id: Seq<char>| #[trigger] chosen_calls(turns, ids).contains(id) == call_gone(
        id,
    ) by {
        lemma_chosen_call(turns, ids, id);
    }
    lemma_edited_is_left(
        part,
        chosen_turns(turns, ids),
        chosen_calls(turns, ids),
        gone,
        call_gone,
    );
}

/// Removing turns leaves exactly the turns that were not selected and answer no call of a selected
/// turn, in order and as they were but for the requests of calls that went; an assistant turn that
/// is left with nothing goes too.
pub proof fn removal_leaves_the_rest(turns: Seq<TurnView>, ids: Seq<u64>)
    requires
        ids_of(turns).no_duplicates(),
        all_known(turns, ids),
    ensures
        removal(turns, ids) == left(
            turns,
            |t: TurnView| goes(turns, ids, t),
            |id: Seq<char>| call_goes(turns, ids, id),
        ),
{
    assert forall|i: int| 0 <= i < turns.len() implies turns.contains(#[trigger] turns[i]) by {}
    lemma_part_is_left(turns, ids, turns);
}

proof fn lemma_first_chosen(turns: Seq<TurnView>, ids: Set<u64>)
    ensures
        0 <= first_chosen(turns, ids) <= turns.len(),
        forall|i: int| 0 <= i < first_chosen(turns, ids) ==> !ids.contains((#[trigger] turns[i]).id),
        first_chosen(turns, ids) < turns.len() ==> ids.contains(
            turns[first_chosen(turns, ids)].id,
        ),
    decreases turns.len(),
{
    if turns.len() > 0 && !ids.contains(turns[0].id) {
        let rest = turns.drop_first();
        lemma_first_chosen(rest, ids);
        assert forall|i: int| 0 <= i < first_chosen(turns, ids) implies !ids.contains(
            (#[trigger] turns[i]).id,
        ) by {
            if i > 0 {
                assert(!ids.contains(rest[i - 1].id));
            }
        }
    }
}

/// A summary stands where the first turn stood that went: before it what is left of the turns
/// before, behind it what is left of the others, and in it the summary and the reason, trimmed.
pub proof fn a_summary_stands_in_its_place(
    turns: Seq<TurnView>,
    ids: Seq<u64>,
    id: u64,
    summary: Seq<char>,
    reason: Seq<char>,
)
    requires
        ids_of(turns).no_duplicates(),
        all_known(turns, ids),
    ensures
        exists|at: int|
            #![trigger turns.take(at)]
            0 <= at <= turns.len() && (forall|i: int|
                0 <= i < at ==> !goes(turns, ids, #[trigger] turns[i])) && (at < turns.len() ==> goes(
                turns,
                ids,
                turns[at],
            )) && summarization(turns, ids, id, summary, reason) == left(
                turns.take(at),
                |t: TurnView| goes(turns, ids, t),
                |id: Seq<char>| call_goes(turns, ids, id),
            ) + seq![
                TurnView {
                    id,
                    role: MessageRole::System,
                    content: ContentView::Text(
                        "Compacted context summary: "@ + trimmed(summary)
                            + "\nCompaction reason: "@ + trimmed(reason),
                    ),
                    annotations: seq![],
                    reasoning: None,
                    tool_calls: seq![],
                    tool_call_id: None,
                    name: Some("context_summary"@),
                },
            ] + left(
                turns.skip(at),
                |t: TurnView| goes(turns, ids, t),
                |id: Seq<char>| call_goes(turns, ids, id),
            ),
{
    let chosen = chosen_turns(turns, ids);
    let calls = chosen_calls(turns, ids);
    let at = first_chosen(turns, chosen);
    lemma_first_chosen(turns, chosen);
    assert forall|i: int| 0 <= i < at implies !goes(turns, ids, #[trigger] turns[i]) by {
        assert(!chosen.contains(turns[i].id));
        lemma_chosen(turns, ids, i);
    }
    if at < turns.len() {
        lemma_chosen(turns, ids, at);
    }
    assert forall|i: int| 0 <= i < turns.take(at).len() implies turns.contains(
        #[trigger] turns.take(at)[i],
    ) by {
        assert(turns[i] == turns.take(at)[i]);
    }
    assert forall|i: int| 0 <= i < turns.skip(at).len() implies turns.contains(
        #[trigger] turns.skip(at)[i],
    ) by {
        assert(turns[i + at] == turns.skip(at)[i]);
    }
    lemma_part_is_left(turns, ids, turns.take(at));
    lemma_part_is_left(turns, ids, turns.skip(at));
    let front = edited(turns.take(at), chosen, calls);
    let turn = crate::session::edit::summary_turn(id, summary, reason);
    assert(front.push(turn) =~= front + seq![turn]);
}

/// Cleaning up leaves exactly the turns that are no part of earlier compaction, in order and as
/// they were but for the requests of compaction tools.
pub proof fn cleanup_leaves_the_rest(turns: Seq<TurnView>)
    requires
        ids_of(turns).no_duplicates(),
    ensures
        cleanup(turns) == left(
            turns,
            |t: TurnView| earlier_goes(t),
            |id: Seq<char>| earlier_call_goes(turns, id),
        ),
{
    let gone = |t: TurnView| earlier_goes(t);
    let call_gone = |id: Seq<char>| earlier_call_goes(turns, id);
    assert forall|t: TurnView| crate::session::edit::compaction_turn(t) == earlier_goes(t) by {
        if exists|j: int|
            0 <= j < t.tool_calls.len() && crate::session::edit::compaction_call(
                #[trigger] t.tool_calls[j],
            ) {
            let j = choose|j: int|
                0 <= j < t.tool_calls.len() && crate::session::edit::compaction_call(
                    #[trigger] t.tool_calls[j],
                );
            assert(t.tool_calls[j].name == COMPACT_REMOVE_MESSAGES@ || t.tool_calls[j].name
                == COMPACT_SUMMARIZE_MESSAGES@);
        }
        if exists|j: int|
            0 <= j < t.tool_calls.len() && ((#[trigger] t.tool_calls[j]).name
                == COMPACT_REMOVE_MESSAGES@ || t.tool_calls[j].name == COMPACT_SUMMARIZE_MESSAGES@) {
            let j = choose|j: int|
                0 <= j < t.tool_calls.len() && ((#[trigger] t.tool_calls[j]).name
                    == COMPACT_REMOVE_MESSAGES@ || t.tool_calls[j].name
                    == COMPACT_SUMMARIZE_MESSAGES@);
            assert(crate::session::edit::compaction_call(t.tool_calls[j]));
        }
    }
    assert forall|i: int| 0 <= i < turns.len() implies earlier_turns(turns).contains(
        (#[trigger] turns[i]).id,
    ) == gone(turns[i]) by {
        if earlier_turns(turns).contains(turns[i].id) {
            let m = choose|m: int|
                0 <= m < turns.len() && (#[trigger] turns[m]).id == turns[i].id
                    && crate::session::edit::compaction_turn(turns[m]);
            assert(ids_of(turns)[m] == ids_of(turns)[i]);
        }
        assert(crate::session::edit::compaction_turn(turns[i]) == earlier_goes(turns[i]));
    }
    assert forall|id: Seq<char>| #[trigger] earlier_calls(turns).contains(id) == call_gone(id) by {
        if earlier_calls(turns).contains(id) {
            let i = choose|i: int|
                0 <= i < turns.len() && compaction_turn_for(#[trigger] turns[i], id);
            if !(crate::session::edit::compaction_result(turns[i]) && turns[i].tool_call_id == Some(
                id,
            )) {
                let j = choose|j: int|
                    0 <= j < turns[i].tool_calls.len() && crate::session::edit::compaction_call(
                        #[trigger] turns[i].tool_calls[j],
                    ) && turns[i].tool_calls[j].id == id;
                assert(turns[i].tool_calls[j].id == id);
            }
            assert(earlier_call_goes(turns, id));
        }
        if earlier_call_goes(turns, id) {
            let i = choose|i: int|
                #![trigger turns[i]]
                0 <= i < turns.len() && {
                    ||| turns[i].role == MessageRole::Tool && (turns[i].name == Some(
                        COMPACT_REMOVE_MESSAGES@,
                    ) || turns[i].name == Some(COMPACT_SUMMARIZE_MESSAGES@))
                        && turns[i].tool_call_id == Some(id)
                    ||| exists|j: int|
                        0 <= j < turns[i].tool_calls.len() && ((
                        #[trigger] turns[i].tool_calls[j]).name == COMPACT_REMOVE_MESSAGES@
                            || turns[i].tool_calls[j].name == COMPACT_SUMMARIZE_MESSAGES@)
                            && turns[i].tool_calls[j].id == id
                };
            if !(turns[i].role == MessageRole::Tool && (turns[i].name == Some(
                COMPACT_REMOVE_MESSAGES@,
            ) || turns[i].name == Some(COMPACT_SUMMARIZE_MESSAGES@)) && turns[i].tool_call_id
                == Some(id)) {
                let j = choose|j: int|
                    0 <= j < turns[i].tool_calls.len() && ((#[trigger] turns[i].tool_calls[j]).name
                        == COMPACT_REMOVE_MESSAGES@ || turns[i].tool_calls[j].name
                        == COMPACT_SUMMARIZE_MESSAGES@) && turns[i].tool_calls[j].id == id;
                assert(crate::session::edit::compaction_call(turns[i].tool_calls[j]));
            }
            assert(compaction_turn_for(turns[i], id));
        }
    }
    lemma_edited_is_left(turns, earlier_turns(turns), earlier_calls(turns), gone, call_gone);
}

// ---------------------------------------------------------------------------------------------
// Refusals
// ---------------------------------------------------------------------------------------------

/// Whether a turn may be selected: there is one with the id, it is not the system prompt at the
/// front, and it is not among the `recent` last ones.
pub open spec fn selectable(turns: Seq<TurnView>, recent: nat, id: u64) -> bool {
    &&& exists|i: int| 0 <= i < turns.len() && (#[trigger] turns[i]).id == id
    &&& turns.len() > 0 && turns[0].id == id ==> turns[0].role != MessageRole::System
    &&& forall|i: int| 0 <= i < turns.len() && turns.len() - recent <= i ==> (#[trigger] turns[i]).id
        != id
}

proof fn lemma_selectable(turns: Seq<TurnView>, recent: nat, id: u64)
    ensures
        selectable(turns, recent, id) == (known(turns, id) && !protected(turns, recent, id)),
        known(turns, id) == exists|i: int| 0 <= i < turns.len() && (#[trigger] turns[i]).id == id,
{
    if known(turns, id) {
        let i = choose|i: int| 0 <= i < ids_of(turns).len() && ids_of(turns)[i] == id;
        assert(turns[i].id == id);
    }
    if exists|i: int| 0 <= i < turns.len() && (#[trigger] turns[i]).id == id {
        let i = choose|i: int| 0 <= i < turns.len() && (#[trigger] turns[i]).id == id;
        assert(ids_of(turns)[i] == id);
    }
}

proof fn lemma_selection(turns: Seq<TurnView>, recent: nat, ids: Seq<u64>)
    ensures
        selection_error(turns, recent, ids) is None <==> forall|k: int|
            0 <= k < ids.len() ==> selectable(turns, recent, #[trigger] ids[k]),
        forall|k: int|
            0 <= k < ids.len() && !selectable(turns, recent, #[trigger] ids[k]) && (forall|j: int|
                0 <= j < k ==> selectable(turns, recent, #[trigger] ids[j])) ==> selection_error(
                turns,
                recent,
                ids,
            ) == Some(
                ErrorView::Tool(
                    if exists|i: int| 0 <= i < turns.len() && (#[trigger] turns[i]).id == ids[k] {
                        "turn_id "@ + decimal(ids[k] as nat) + " is protected"@
                    } else {
                        "unknown turn_id "@ + decimal(ids[k] as nat)
                    },
                ),
            ),
    decreases ids.len(),
{
    if ids.len() > 0 {
        let rest = ids.drop_first();
        lemma_selectable(turns, recent, ids[0]);
        lemma_selection(turns, recent, rest);
        assert(forall|k: int| 0 <= k < rest.len() ==> #[trigger] rest[k] == ids[k + 1]);
        if selectable(turns, recent, ids[0]) {
            if selection_error(turns, recent, ids) is None {
                assert forall|k: int| 0 <= k < ids.len() implies selectable(
                    turns,
                    recent,
                    #[trigger] ids[k],
                ) by {
                    if k > 0 {
                        assert(selectable(turns, recent, rest[k - 1]));
                    }
                }
            }
            if forall|k: int| 0 <= k < ids.len() ==> selectable(turns, recent, #[trigger] ids[k]) {
                assert forall|k: int| 0 <= k < rest.len() implies selectable(
                    turns,
                    recent,
                    #[trigger] rest[k],
                ) by {
                    assert(selectable(turns, recent, ids[k + 1]));
                }
            }
            assert forall|k: int|
                0 <= k < ids.len() && !selectable(turns, recent, #[trigger] ids[k]) && (forall|
                    j: int,
                |
                    0 <= j < k ==> selectable(turns, recent, #[trigger] ids[j])) implies selection_error(
            turns, recent, ids) == Some(
                ErrorView::Tool(
                    if exists|i: int| 0 <= i < turns.len() && (#[trigger] turns[i]).id == ids[k] {
                        "turn_id "@ + decimal(ids[k] as nat) + " is protected"@
                    } else {
                        "unknown turn_id "@ + decimal(ids[k] as nat)
                    },
                ),
            ) by {
                assert(k > 0);
                assert(rest[k - 1] == ids[k]);
                assert forall|j: int| 0 <= j < k - 1 implies selectable(
                    turns,
                    recent,
                    #[trigger] rest[j],
                ) by {
                    assert(selectable(turns, recent, ids[j + 1]));
                }
            }
        }
    }
}

/// An edit is accepted where some turn is selected and every selected one may be; otherwise it is
/// refused with the first that may not, which is unknown or protected.
pub proof fn edits_are_accepted_where_every_turn_may_go(
    turns: Seq<TurnView>,
    recent: nat,
    ids: Seq<u64>,
    k: int,
)
    ensures
        edit_error(turns, recent, ids) is None <==> ids.len() > 0 && forall|k: int|
            0 <= k < ids.len() ==> selectable(turns, recent, #[trigger] ids[k]),
        ids.len() == 0 ==> edit_error(turns, recent, ids) == Some(
            ErrorView::Tool("compaction requires at least one turn_id"@),
        ),
        0 <= k < ids.len() && !selectable(turns, recent, ids[k]) && (forall|j: int|
            0 <= j < k ==> selectable(turns, recent, #[trigger] ids[j])) ==> edit_error(
            turns,
            recent,
            ids,
        ) == Some(
            ErrorView::Tool(
                if exists|i: int| 0 <= i < turns.len() && (#[trigger] turns[i]).id == ids[k] {
                    "turn_id "@ + decimal(ids[k] as nat) + " is protected"@
                } else {
                    "unknown turn_id "@ + decimal(ids[k] as nat)
                },
            ),
        ),
{
    lemma_selection(turns, recent, ids);
}

} // verus!
