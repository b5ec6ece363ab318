//! Edits that trim a session's history: removal, summaries, and the cleanup of earlier edits.

use vstd::prelude::*;

use crate::chat::{CallView, MessageRole, ToolCall};
use crate::common::{view_of, views, Duplicate};
use crate::content::{ContentView, MessageContent};
use crate::error::{tool_error, Error, ErrorView};
use crate::session::compaction::CompactionConfig;
use crate::session::turn::{SessionTurn, TurnView};
use crate::text::{blank, decimal, first_position, lemma_first_position, trimmed};
use crate::text::{contains_string, decimal_text, is_blank, same_text, trim_text};
use crate::tools::compact::{compaction_tool, is_compaction_tool};

verus! {

// ---------------------------------------------------------------------------------------------
// Models
// ---------------------------------------------------------------------------------------------

/// The ids of `turns`.
pub open spec fn ids_of(turns: Seq<TurnView>) -> Seq<u64> {
    turns.map_values(|t: TurnView| t.id)
}

/// Whether some turn has the id.
pub open spec fn known(turns: Seq<TurnView>, id: u64) -> bool {
    ids_of(turns).contains(id)
}

/// The first turn with the id.
pub open spec fn turn_with(turns: Seq<TurnView>, id: u64) -> TurnView {
    turns[first_position(ids_of(turns), id)]
}

/// Whether the id belongs to the root system prompt or to one of the `recent` last turns.
pub open spec fn protected(turns: Seq<TurnView>, recent: nat, id: u64) -> bool {
    ||| turns.len() > 0 && turns[0].role == MessageRole::System && turns[0].id == id
    ||| exists|i: int|
        0 <= i < turns.len() && turns.len() - recent <= i && (#[trigger] turns[i]).id == id
}

/// Whether `id` is the id of one of `calls`.
pub open spec fn calls_id(calls: Seq<CallView>, id: Seq<char>) -> bool {
    exists|j: int| 0 <= j < calls.len() && (#[trigger] calls[j]).id == id
}

/// Whether selecting the turn `selected` removes the turns with `id`: itself, and, unless it is a
/// tool result, the answers to its calls.
pub open spec fn removes_turn(turns: Seq<TurnView>, selected: u64, id: u64) -> bool {
    ||| id == selected
    ||| turn_with(turns, selected).role != MessageRole::Tool && exists|i: int|
        0 <= i < turns.len() && (#[trigger] turns[i]).id == id && answers_call_of(
            turns[i],
            turn_with(turns, selected).tool_calls,
        )
}

/// Whether `turn` answers one of `calls`.
pub open spec fn answers_call_of(turn: TurnView, calls: Seq<CallView>) -> bool {
    turn.tool_call_id is Some && calls_id(calls, turn.tool_call_id->0)
}

/// Whether selecting the turn `selected` removes the call `call` wherever it was requested: the
/// call that a tool result answers, and the calls of any other turn.
pub open spec fn removes_call(turns: Seq<TurnView>, selected: u64, call: Seq<char>) -> bool {
    let turn = turn_with(turns, selected);
    if turn.role == MessageRole::Tool {
        turn.tool_call_id == Some(call)
    } else {
        calls_id(turn.tool_calls, call)
    }
}

/// The ids of the turns that selecting `ids` removes.
pub open spec fn chosen_turns(turns: Seq<TurnView>, ids: Seq<u64>) -> Set<u64> {
    Set::new(
        |id: u64|
            exists|k: int| 0 <= k < ids.len() && removes_turn(turns, #[trigger] ids[k], id),
    )
}

/// The ids of the calls that selecting `ids` removes.
pub open spec fn chosen_calls(turns: Seq<TurnView>, ids: Seq<u64>) -> Set<Seq<char>> {
    Set::new(
        |call: Seq<char>|
            exists|k: int| 0 <= k < ids.len() && removes_call(turns, #[trigger] ids[k], call),
    )
}

/// `turn` without the calls in `calls`.
pub open spec fn without_calls(turn: TurnView, calls: Set<Seq<char>>) -> TurnView {
    TurnView {
        tool_calls: turn.tool_calls.filter(|c: CallView| !calls.contains(c.id)),
        ..turn
    }
}

/// Whether an assistant turn holds nothing: no text, media, annotations or calls.
pub open spec fn hollow(turn: TurnView) -> bool {
    &&& turn.role == MessageRole::Assistant
    &&& blank(turn.content.text())
    &&& !turn.content.has_media()
    &&& turn.annotations.len() == 0
    &&& turn.tool_calls.len() == 0
}

/// What an edit that removes `ids` and `calls` leaves of `turn`.
pub open spec fn survivor(turn: TurnView, ids: Set<u64>, calls: Set<Seq<char>>) -> Option<TurnView> {
    if ids.contains(turn.id) {
        None
    } else if calls == Set::<Seq<char>>::empty() {
        Some(turn)
    } else if hollow(without_calls(turn, calls)) {
        None
    } else {
        Some(without_calls(turn, calls))
    }
}

/// What an edit that removes `ids` and `calls` leaves of `turns`.
pub open spec fn edited(turns: Seq<TurnView>, ids: Set<u64>, calls: Set<Seq<char>>) -> Seq<TurnView>
    decreases turns.len(),
{
    if turns.len() == 0 {
        seq![]
    } else {
        let front = edited(turns.drop_last(), ids, calls);
        match survivor(turns.last(), ids, calls) {
            Some(turn) => front.push(turn),
            None => front,
        }
    }
}

/// `edited`, with `summary` where the turn at `at` stood.
pub open spec fn edited_with(
    turns: Seq<TurnView>,
    ids: Set<u64>,
    calls: Set<Seq<char>>,
    at: int,
    summary: TurnView,
) -> Seq<TurnView> {
    edited(turns.take(at), ids, calls).push(summary) + edited(turns.skip(at), ids, calls)
}

/// The error of the first selected id that is unknown or protected.
pub open spec fn selection_error(turns: Seq<TurnView>, recent: nat, ids: Seq<u64>) -> Option<
    ErrorView,
>
    decreases ids.len(),
{
    if ids.len() == 0 {
        None
    } else if !known(turns, ids[0]) {
        Some(ErrorView::Tool("unknown turn_id "@ + decimal(ids[0] as nat)))
    } else if protected(turns, recent, ids[0]) {
        Some(ErrorView::Tool("turn_id "@ + decimal(ids[0] as nat) + " is protected"@))
    } else {
        selection_error(turns, recent, ids.drop_first())
    }
}

/// The error of a selection: an empty one, or that of its first bad id.
pub open spec fn edit_error(turns: Seq<TurnView>, recent: nat, ids: Seq<u64>) -> Option<ErrorView> {
    if ids.len() == 0 {
        Some(ErrorView::Tool("compaction requires at least one turn_id"@))
    } else {
        selection_error(turns, recent, ids)
    }
}

/// How many turns fewer there are after an edit.
pub open spec fn shrinkage(before: nat, after: nat) -> nat {
    if before >= after {
        (before - after) as nat
    } else {
        0
    }
}

/// The history after removing the selected turns.
pub open spec fn removal(turns: Seq<TurnView>, ids: Seq<u64>) -> Seq<TurnView> {
    edited(turns, chosen_turns(turns, ids), chosen_calls(turns, ids))
}

/// The position of the first turn whose id is in `ids`, or the end.
pub open spec fn first_chosen(turns: Seq<TurnView>, ids: Set<u64>) -> int
    decreases turns.len(),
{
    if turns.len() == 0 || ids.contains(turns[0].id) {
        0
    } else {
        1 + first_chosen(turns.drop_first(), ids)
    }
}

/// The turn that stands for summarized ones.
pub open spec fn summary_turn(id: u64, summary: Seq<char>, reason: Seq<char>) -> TurnView {
    TurnView {
        id,
        role: MessageRole::System,
        content: ContentView::Text(
            "Compacted context summary: "@ + trimmed(summary) + "\nCompaction reason: "@
                + trimmed(reason),
        ),
        annotations: seq![],
        reasoning: None,
        tool_calls: seq![],
        tool_call_id: None,
        name: Some("context_summary"@),
    }
}

/// The history after summarizing the selected turns in the turn `id`.
pub open spec fn summarization(
    turns: Seq<TurnView>,
    ids: Seq<u64>,
    id: u64,
    summary: Seq<char>,
    reason: Seq<char>,
) -> Seq<TurnView> {
    let chosen = chosen_turns(turns, ids);
    edited_with(
        turns,
        chosen,
        chosen_calls(turns, ids),
        first_chosen(turns, chosen),
        summary_turn(id, summary, reason),
    )
}

/// The id that follows `id`; the last id follows itself.
pub open spec fn id_after(id: u64) -> u64 {
    if id < u64::MAX {
        (id + 1) as u64
    } else {
        id
    }
}

/// Whether `turn` is the answer to a compaction call.
pub open spec fn compaction_result(turn: TurnView) -> bool {
    turn.role == MessageRole::Tool && turn.name is Some && compaction_tool(turn.name->0)
}

/// Whether `call` is a compaction call.
pub open spec fn compaction_call(call: CallView) -> bool {
    compaction_tool(call.name)
}

/// Whether `turn` requests or answers a compaction call.
pub open spec fn compaction_turn(turn: TurnView) -> bool {
    compaction_result(turn) || exists|j: int|
        0 <= j < turn.tool_calls.len() && compaction_call(#[trigger] turn.tool_calls[j])
}

/// Whether `turn` requests the compaction call `id` or answers it.
pub open spec fn compaction_turn_for(turn: TurnView, id: Seq<char>) -> bool {
    ||| compaction_result(turn) && turn.tool_call_id == Some(id)
    ||| exists|j: int|
        0 <= j < turn.tool_calls.len() && compaction_call(#[trigger] turn.tool_calls[j])
            && turn.tool_calls[j].id == id
}

/// The ids of the turns that request or answer a compaction call.
pub open spec fn earlier_turns(turns: Seq<TurnView>) -> Set<u64> {
    Set::new(
        |id: u64|
            exists|i: int|
                0 <= i < turns.len() && (#[trigger] turns[i]).id == id && compaction_turn(turns[i]),
    )
}

/// The ids of the compaction calls in `turns`.
pub open spec fn earlier_calls(turns: Seq<TurnView>) -> Set<Seq<char>> {
    Set::new(
        |id: Seq<char>|
            exists|i: int| 0 <= i < turns.len() && compaction_turn_for(#[trigger] turns[i], id),
    )
}

/// The history without earlier compaction calls and their answers.
pub open spec fn cleanup(turns: Seq<TurnView>) -> Seq<TurnView> {
    edited(turns, earlier_turns(turns), earlier_calls(turns))
}

// ---------------------------------------------------------------------------------------------
// Lemmas
// ---------------------------------------------------------------------------------------------

proof fn lemma_push_contains<T>(s: Seq<T>, x: T, y: T)
    ensures
        s.push(x).contains(y) == (s.contains(y) || x == y),
{
    if s.contains(y) {
        let i = choose|i: int| 0 <= i < s.len() && s[i] == y;
        assert(s.push(x)[i] == y);
    }
    if x == y {
        assert(s.push(x)[s.len() as int] == y);
    }
    if s.push(x).contains(y) && x != y {
        let i = choose|i: int| 0 <= i < s.push(x).len() && s.push(x)[i] == y;
        assert(s[i] == y);
    }
}

proof fn lemma_edited_nothing(turns: Seq<TurnView>)
    ensures
        edited(turns, Set::empty(), Set::empty()) == turns,
    decreases turns.len(),
{
    if turns.len() > 0 {
        lemma_edited_nothing(turns.drop_last());
        assert(turns.drop_last().push(turns.last()) =~= turns);
    }
}

proof fn lemma_first_chosen(turns: Seq<TurnView>, ids: Set<u64>, k: int)
    requires
        0 <= k <= turns.len(),
        forall|i: int| 0 <= i < k ==> !ids.contains((#[trigger] turns[i]).id),
        k < turns.len() ==> ids.contains(turns[k].id),
    ensures
        first_chosen(turns, ids) == k,
    decreases turns.len(),
{
    if k > 0 {
        let rest = turns.drop_first();
        assert(!ids.contains(turns[0].id));
        assert forall|i: int| 0 <= i < k - 1 implies !ids.contains((#[trigger] rest[i]).id) by {
            assert(rest[i] == turns[i + 1]);
        }
        lemma_first_chosen(rest, ids, k - 1);
    }
}

// ---------------------------------------------------------------------------------------------
// The edit
// ---------------------------------------------------------------------------------------------

/// The turns and calls that an edit removes.
struct CompactionEdit {
    turn_ids: Vec<u64>,
    call_ids: Vec<String>,
}

impl CompactionEdit {
    spec fn turns(&self) -> Set<u64> {
        self.turn_ids@.to_set()
    }

    spec fn calls(&self) -> Set<Seq<char>> {
        views(self.call_ids@).to_set()
    }

    fn new() -> (edit: Self)
        ensures
            edit.turns() == Set::<u64>::empty(),
            edit.calls() == Set::<Seq<char>>::empty(),
    {
        let edit = CompactionEdit { turn_ids: Vec::new(), call_ids: Vec::new() };
        assert(edit.turns() =~= Set::<u64>::empty());
        assert(edit.calls() =~= Set::<Seq<char>>::empty());
        edit
    }

    fn add_turn(&mut self, id: u64)
        ensures
            final(self).turns() == old(self).turns().insert(id),
            final(self).calls() == old(self).calls(),
    {
        self.turn_ids.push(id);
        proof {
            assert forall|x: u64| self.turns().contains(x) == old(self).turns().insert(
                id,
            ).contains(x) by {
                lemma_push_contains(old(self).turn_ids@, id, x);
            }
            assert(self.turns() =~= old(self).turns().insert(id));
        }
    }

    fn add_call(&mut self, id: &String)
        ensures
            final(self).turns() == old(self).turns(),
            final(self).calls() == old(self).calls().insert(id@),
    {
        self.call_ids.push(id.clone());
        proof {
            let before = views(old(self).call_ids@);
            assert(views(self.call_ids@) =~= before.push(id@));
            assert forall|x: Seq<char>| self.calls().contains(x) == old(self).calls().insert(
                id@,
            ).contains(x) by {
                lemma_push_contains(before, id@, x);
            }
            assert(self.calls() =~= old(self).calls().insert(id@));
        }
    }
}

fn contains_id(ids: &Vec<u64>, id: u64) -> (b: bool)
    ensures
        b == ids@.contains(id),
{
    let mut i: usize = 0;
    while i < ids.len()
        invariant
            i <= ids@.len(),
            forall|j: int| 0 <= j < i ==> ids@[j] != id,
        decreases ids@.len() - i,
    {
        if ids[i] == id {
            return true;
        }
        i += 1;
    }
    false
}

/// The position of the first turn with the id.
fn find_turn(turns: &Vec<SessionTurn>, id: u64) -> (r: Option<usize>)
    ensures
        match r {
            Some(i) => i < turns@.len() && known(views(turns@), id) && i == first_position(
                ids_of(views(turns@)),
                id,
            ),
            None => !known(views(turns@), id),
        },
{
    let ghost ids = ids_of(views(turns@));
    let mut i: usize = 0;
    while i < turns.len()
        invariant
            i <= turns@.len(),
            ids == ids_of(views(turns@)),
            forall|j: int| 0 <= j < i ==> ids[j] != id,
        decreases turns@.len() - i,
    {
        if turns[i].id == id {
            proof {
                assert(ids[i as int] == id);
                crate::text::lemma_first_position_unique(ids, id, i as int);
            }
            return Some(i);
        }
        i += 1;
    }
    None
}

fn is_protected(turns: &Vec<SessionTurn>, config: &CompactionConfig, id: u64) -> (b: bool)
    ensures
        b == protected(views(turns@), config.protect_recent_turns as nat, id),
{
    let ghost all = views(turns@);
    if turns.len() > 0 && turns[0].role == MessageRole::System && turns[0].id == id {
        return true;
    }
    let start: usize = if config.protect_recent_turns <= turns.len() {
        turns.len() - config.protect_recent_turns
    } else {
        0
    };
    let mut i: usize = start;
    while i < turns.len()
        invariant
            start <= i <= turns@.len(),
            all == views(turns@),
            start >= turns@.len() - config.protect_recent_turns,
            start == turns@.len() - config.protect_recent_turns || start == 0,
            forall|j: int| start <= j < i ==> (#[trigger] all[j]).id != id,
        decreases turns@.len() - i,
    {
        if turns[i].id == id {
            assert(all[i as int].id == id);
            return true;
        }
        i += 1;
    }
    false
}

fn answers_one_of(turn: &SessionTurn, calls: &Vec<ToolCall>) -> (b: bool)
    ensures
        b == answers_call_of(turn@, views(calls@)),
{
    let id = match &turn.tool_call_id {
        Some(id) => id,
        None => return false,
    };
    let mut i: usize = 0;
    while i < calls.len()
        invariant
            i <= calls@.len(),
            turn@.tool_call_id == Some(id@),
            forall|j: int| 0 <= j < i ==> (#[trigger] views(calls@)[j]).id != id@,
        decreases calls@.len() - i,
    {
        if same_text(calls[i].id.as_str(), id.as_str()) {
            assert(views(calls@)[i as int].id == id@);
            return true;
        }
        i += 1;
    }
    false
}

/// Add what selecting the turn `id` removes.
fn add_turn_to_compaction_edit(turns: &Vec<SessionTurn>, id: u64, edit: &mut CompactionEdit)
    requires
        known(views(turns@), id),
    ensures
        forall|x: u64| #[trigger]
            final(edit).turns().contains(x) == (old(edit).turns().contains(x) || removes_turn(
                views(turns@),
                id,
                x,
            )),
        forall|x: Seq<char>| #[trigger]
            final(edit).calls().contains(x) == (old(edit).calls().contains(x) || removes_call(
                views(turns@),
                id,
                x,
            )),
{
    let ghost all = views(turns@);
    let at: usize = match find_turn(turns, id) {
        Some(at) => at,
        None => return,
    };
    let turn = &turns[at];
    proof {
        lemma_first_position(ids_of(all), id);
        assert(turn_with(all, id) == turn@);
    }
    edit.add_turn(id);
    if turn.role == MessageRole::Tool {
        if let Some(call) = &turn.tool_call_id {
            edit.add_call(call);
        }
        return;
    }
    let ghost calls = views(turn.tool_calls@);
    let mut j: usize = 0;
    while j < turn.tool_calls.len()
        invariant
            j <= turn.tool_calls@.len(),
            calls == views(turn.tool_calls@),
            edit.turns() == old(edit).turns().insert(id),
            forall|x: Seq<char>| #[trigger]
                edit.calls().contains(x) == (old(edit).calls().contains(x) || calls_id(
                    calls.take(j as int),
                    x,
                )),
        decreases turn.tool_calls@.len() - j,
    {
        let call_id = &turn.tool_calls[j].id;
        let ghost before = edit.calls();
        edit.add_call(call_id);
        proof {
            assert(calls[j as int].id == call_id@);
            assert forall|x: Seq<char>| #[trigger]
                edit.calls().contains(x) == (old(edit).calls().contains(x) || calls_id(
                    calls.take(j + 1),
                    x,
                )) by {
                if calls_id(calls.take(j as int), x) {
                    let k = choose|k: int|
                        0 <= k < calls.take(j as int).len() && (#[trigger] calls.take(
                            j as int,
                        )[k]).id == x;
                    assert(calls.take(j + 1)[k].id == x);
                }
                if calls_id(calls.take(j + 1), x) {
                    let k = choose|k: int|
                        0 <= k < calls.take(j + 1).len() && (#[trigger] calls.take(j + 1)[k]).id
                            == x;
                    if k < j {
                        assert(calls.take(j as int)[k].id == x);
                    }
                }
                if x == call_id@ {
                    assert(calls.take(j + 1)[j as int].id == x);
                }
            }
        }
        j += 1;
    }
    assert(calls.take(j as int) =~= calls);
    let ghost base = edit.turns();
    let ghost done = edit.calls();
    let mut i: usize = 0;
    while i < turns.len()
        invariant
            i <= turns@.len(),
            all == views(turns@),
            calls == views(turn.tool_calls@),
            edit.calls() == done,
            forall|x: u64| #[trigger]
                edit.turns().contains(x) == (base.contains(x) || exists|k: int|
                    0 <= k < i && (#[trigger] all[k]).id == x && answers_call_of(all[k], calls)),
        decreases turns@.len() - i,
    {
        let candidate = &turns[i];
        let ghost before = edit.turns();
        assert(all[i as int] == candidate@);
        if answers_one_of(candidate, &turn.tool_calls) {
            edit.add_turn(candidate.id);
            proof {
                assert forall|x: u64| #[trigger]
                    edit.turns().contains(x) == (base.contains(x) || exists|k: int|
                        0 <= k < i + 1 && (#[trigger] all[k]).id == x && answers_call_of(
                            all[k],
                            calls,
                        )) by {
                    assert(edit.turns().contains(x) == (before.contains(x) || x == candidate.id));
                    if x == candidate.id {
                        assert(all[i as int].id == x);
                    }
                }
            }
        }
        i += 1;
    }
}

/// What selecting `ids` removes, or why it cannot.
fn compaction_edit(
    turns: &Vec<SessionTurn>,
    config: &CompactionConfig,
    ids: &Vec<u64>,
) -> (r: Result<CompactionEdit, Error>)
    ensures
        match r {
            Ok(edit) => edit_error(
                views(turns@),
                config.protect_recent_turns as nat,
                ids@,
            ) is None && edit.turns() == chosen_turns(views(turns@), ids@) && edit.calls()
                == chosen_calls(views(turns@), ids@),
            Err(e) => edit_error(views(turns@), config.protect_recent_turns as nat, ids@) == Some(
                e@,
            ),
        },
{
    if ids.len() == 0 {
        return Err(tool_error("compaction requires at least one turn_id"));
    }
    let ghost all = views(turns@);
    let ghost recent = config.protect_recent_turns as nat;
    let mut edit = CompactionEdit::new();
    let mut k: usize = 0;
    assert(ids@.skip(0) =~= ids@);
    while k < ids.len()
        invariant
            k <= ids@.len(),
            all == views(turns@),
            recent == config.protect_recent_turns as nat,
            ids@.len() > 0,
            selection_error(all, recent, ids@.skip(k as int)) == selection_error(all, recent, ids@),
            forall|x: u64| #[trigger]
                edit.turns().contains(x) == (exists|j: int|
                    0 <= j < k && removes_turn(all, #[trigger] ids@[j], x)),
            forall|x: Seq<char>| #[trigger]
                edit.calls().contains(x) == (exists|j: int|
                    0 <= j < k && removes_call(all, #[trigger] ids@[j], x)),
        decreases ids@.len() - k,
    {
        let id = ids[k];
        proof {
            assert(ids@.skip(k as int)[0] == id);
            assert(ids@.skip(k as int).drop_first() =~= ids@.skip(k + 1));
        }
        if find_turn(turns, id).is_none() {
            let mut message = "unknown turn_id ".to_owned();
            message.append(decimal_text(id).as_str());
            return Err(Error::Tool(message));
        }
        if is_protected(turns, config, id) {
            let mut message = "turn_id ".to_owned();
            message.append(decimal_text(id).as_str());
            message.append(" is protected");
            return Err(Error::Tool(message));
        }
        let ghost before = edit;
        add_turn_to_compaction_edit(turns, id, &mut edit);
        proof {
            assert forall|x: u64| #[trigger]
                edit.turns().contains(x) == (exists|j: int|
                    0 <= j < k + 1 && removes_turn(all, #[trigger] ids@[j], x)) by {
                assert(edit.turns().contains(x) == (before.turns().contains(x) || removes_turn(
                    all,
                    id,
                    x,
                )));
                if removes_turn(all, id, x) {
                    assert(removes_turn(all, ids@[k as int], x));
                }
            }
            assert forall|x: Seq<char>| #[trigger]
                edit.calls().contains(x) == (exists|j: int|
                    0 <= j < k + 1 && removes_call(all, #[trigger] ids@[j], x)) by {
                assert(edit.calls().contains(x) == (before.calls().contains(x) || removes_call(
                    all,
                    id,
                    x,
                )));
                if removes_call(all, id, x) {
                    assert(removes_call(all, ids@[k as int], x));
                }
            }
        }
        k += 1;
    }
    proof {
        assert(ids@.skip(k as int) =~= Seq::<u64>::empty());
        assert(edit.turns() =~= chosen_turns(all, ids@));
        assert(edit.calls() =~= chosen_calls(all, ids@));
    }
    Ok(edit)
}

fn is_hollow(turn: &SessionTurn) -> (b: bool)
    ensures
        b == hollow(turn@),
{
    turn.role == MessageRole::Assistant && is_blank(turn.content.text().as_str())
        && !turn.content.has_media() && turn.annotations.len() == 0 && turn.tool_calls.len() == 0
}

fn retain_calls(calls: &Vec<ToolCall>, edit: &CompactionEdit) -> (kept: Vec<ToolCall>)
    ensures
        views(kept@) == views(calls@).filter(|c: CallView| !edit.calls().contains(c.id)),
{
    let ghost keep = |c: CallView| !edit.calls().contains(c.id);
    let ghost all = views(calls@);
    let mut kept: Vec<ToolCall> = Vec::new();
    let mut i: usize = 0;
    proof {
        reveal(Seq::filter);
        assert(views(kept@) =~= all.take(0).filter(keep));
    }
    while i < calls.len()
        invariant
            i <= calls@.len(),
            all == views(calls@),
            keep == (|c: CallView| !edit.calls().contains(c.id)),
            views(kept@) == all.take(i as int).filter(keep),
        decreases calls@.len() - i,
    {
        let call = calls[i].duplicate();
        let ghost before = views(kept@);
        proof {
            reveal(Seq::filter);
            assert(all.take(i + 1).drop_last() =~= all.take(i as int));
            assert(all.take(i + 1).last() == call@);
        }
        if !contains_string(&edit.call_ids, call.id.as_str()) {
            kept.push(call);
            assert(views(kept@) =~= before.push(call@));
        }
        i += 1;
    }
    assert(all.take(i as int) =~= all);
    kept
}

fn survive(turn: &SessionTurn, edit: &CompactionEdit) -> (r: Option<SessionTurn>)
    ensures
        view_of(r) == survivor(turn@, edit.turns(), edit.calls()),
{
    if contains_id(&edit.turn_ids, turn.id) {
        return None;
    }
    let mut kept = turn.duplicate();
    if edit.call_ids.len() == 0 {
        assert(edit.calls() =~= Set::<Seq<char>>::empty());
        return Some(kept);
    }
    proof {
        let first = views(edit.call_ids@)[0];
        assert(views(edit.call_ids@).contains(first));
        assert(edit.calls().contains(first));
    }
    kept.tool_calls = retain_calls(&turn.tool_calls, edit);
    assert(kept@ == without_calls(turn@, edit.calls()));
    if is_hollow(&kept) {
        None
    } else {
        Some(kept)
    }
}

fn survivors(turns: &Vec<SessionTurn>, start: usize, end: usize, edit: &CompactionEdit) -> (r: Vec<
    SessionTurn,
>)
    requires
        start <= end <= turns@.len(),
    ensures
        views(r@) == edited(
            views(turns@).subrange(start as int, end as int),
            edit.turns(),
            edit.calls(),
        ),
{
    let ghost all = views(turns@);
    let mut r: Vec<SessionTurn> = Vec::new();
    let mut i: usize = start;
    assert(views(r@) =~= edited(all.subrange(start as int, start as int), edit.turns(), edit.calls()));
    while i < end
        invariant
            start <= i <= end <= turns@.len(),
            all == views(turns@),
            views(r@) == edited(all.subrange(start as int, i as int), edit.turns(), edit.calls()),
        decreases end - i,
    {
        let ghost before = views(r@);
        proof {
            let now = all.subrange(start as int, i + 1);
            assert(now.drop_last() =~= all.subrange(start as int, i as int));
            assert(now.last() == turns@[i as int]@);
        }
        if let Some(turn) = survive(&turns[i], edit) {
            r.push(turn);
            assert(views(r@) =~= before.push(turn@));
        }
        i += 1;
    }
    r
}

fn shrunk_by(before: usize, after: usize) -> (n: usize)
    ensures
        n == shrinkage(before as nat, after as nat),
{
    if before >= after {
        before - after
    } else {
        0
    }
}

/// Apply an edit, and return by how many turns the history became shorter.
fn apply_compaction_edit(turns: &mut Vec<SessionTurn>, edit: &CompactionEdit) -> (removed: usize)
    ensures
        views(final(turns)@) == edited(views(old(turns)@), edit.turns(), edit.calls()),
        removed == shrinkage(old(turns)@.len(), final(turns)@.len()),
{
    let before: usize = turns.len();
    let updated = survivors(turns, 0, before, edit);
    assert(views(turns@).subrange(0, before as int) =~= views(turns@));
    let after: usize = updated.len();
    *turns = updated;
    shrunk_by(before, after)
}

/// Apply an edit that leaves `summary` where the turn at `at` stood.
fn apply_compaction_edit_with(
    turns: &mut Vec<SessionTurn>,
    edit: &CompactionEdit,
    at: usize,
    summary: SessionTurn,
) -> (removed: usize)
    requires
        at <= old(turns)@.len(),
    ensures
        views(final(turns)@) == edited_with(
            views(old(turns)@),
            edit.turns(),
            edit.calls(),
            at as int,
            summary@,
        ),
        removed == shrinkage(old(turns)@.len(), final(turns)@.len()),
{
    let before: usize = turns.len();
    let ghost all = views(turns@);
    let mut updated = survivors(turns, 0, at, edit);
    let mut rest = survivors(turns, at, before, edit);
    let ghost front = views(updated@);
    let ghost back = views(rest@);
    updated.push(summary);
    proof {
        assert(all.subrange(0, at as int) =~= all.take(at as int));
        assert(all.subrange(at as int, before as int) =~= all.skip(at as int));
        assert(views(updated@) =~= front.push(summary@));
    }
    updated.append(&mut rest);
    assert(views(updated@) =~= front.push(summary@) + back);
    let after: usize = updated.len();
    *turns = updated;
    shrunk_by(before, after)
}

// ---------------------------------------------------------------------------------------------
// Operations
// ---------------------------------------------------------------------------------------------

/// Remove the selected turns, with the requests and answers that belong to them.
pub fn remove_messages(
    turns: &mut Vec<SessionTurn>,
    config: &CompactionConfig,
    turn_ids: &Vec<u64>,
    reason: &str,
) -> (r: Result<String, Error>)
    ensures
        match edit_error(views(old(turns)@), config.protect_recent_turns as nat, turn_ids@) {
            Some(error) => r matches Err(e) && e@ == error && *final(turns) == *old(turns),
            None => {
                &&& views(final(turns)@) == removal(views(old(turns)@), turn_ids@)
                &&& r matches Ok(message) && message@ == "Removed "@ + decimal(
                    shrinkage(old(turns)@.len(), final(turns)@.len()),
                ) + " turn(s) from active context. Reason: "@ + reason@
            },
        },
{
    let edit = match compaction_edit(turns, config, turn_ids) {
        Ok(edit) => edit,
        Err(error) => return Err(error),
    };
    let removed = apply_compaction_edit(turns, &edit);
    let mut message = "Removed ".to_owned();
    message.append(decimal_text(removed as u64).as_str());
    message.append(" turn(s) from active context. Reason: ");
    message.append(reason);
    Ok(message)
}

/// Take the next id.
pub fn allocate_turn_id(next_turn_id: &mut u64) -> (id: u64)
    ensures
        id == *old(next_turn_id),
        *final(next_turn_id) == id_after(*old(next_turn_id)),
{
    let id: u64 = *next_turn_id;
    *next_turn_id = id.saturating_add(1);
    id
}

fn position_of_chosen(turns: &Vec<SessionTurn>, edit: &CompactionEdit) -> (at: usize)
    ensures
        at <= turns@.len(),
        at == first_chosen(views(turns@), edit.turns()),
{
    let ghost all = views(turns@);
    let mut at: usize = 0;
    while at < turns.len() && !contains_id(&edit.turn_ids, turns[at].id)
        invariant
            at <= turns@.len(),
            all == views(turns@),
            forall|i: int| 0 <= i < at ==> !edit.turns().contains((#[trigger] all[i]).id),
        decreases turns@.len() - at,
    {
        at += 1;
    }
    proof {
        lemma_first_chosen(all, edit.turns(), at as int);
    }
    at
}

/// Replace the selected turns, with the requests and answers that belong to them, by a summary.
pub fn summarize_messages(
    turns: &mut Vec<SessionTurn>,
    next_turn_id: &mut u64,
    config: &CompactionConfig,
    turn_ids: &Vec<u64>,
    summary: &str,
    reason: &str,
) -> (r: Result<String, Error>)
    ensures
        if blank(summary@) {
            &&& r matches Err(e) && e@ == ErrorView::Tool(
                "compact_summarize_messages requires a non-empty summary"@,
            )
            &&& *final(turns) == *old(turns)
            &&& *final(next_turn_id) == *old(next_turn_id)
        } else {
            match edit_error(views(old(turns)@), config.protect_recent_turns as nat, turn_ids@) {
                Some(error) => {
                    &&& r matches Err(e) && e@ == error
                    &&& *final(turns) == *old(turns)
                    &&& *final(next_turn_id) == *old(next_turn_id)
                },
                None => {
                    &&& views(final(turns)@) == summarization(
                        views(old(turns)@),
                        turn_ids@,
                        *old(next_turn_id),
                        summary@,
                        reason@,
                    )
                    &&& *final(next_turn_id) == id_after(*old(next_turn_id))
                    &&& r matches Ok(message) && message@ == "Summarized "@ + decimal(
                        shrinkage(old(turns)@.len(), final(turns)@.len()),
                    ) + " turn(s) in active context. Reason: "@ + reason@
                },
            }
        },
{
    if is_blank(summary) {
        return Err(tool_error("compact_summarize_messages requires a non-empty summary"));
    }
    let edit = match compaction_edit(turns, config, turn_ids) {
        Ok(edit) => edit,
        Err(error) => return Err(error),
    };
    let at = position_of_chosen(turns, &edit);
    let id = allocate_turn_id(next_turn_id);
    let mut content = "Compacted context summary: ".to_owned();
    content.append(trim_text(summary).as_str());
    content.append("\nCompaction reason: ");
    content.append(trim_text(reason).as_str());
    let turn = SessionTurn {
        id,
        role: MessageRole::System,
        content: MessageContent::Text(content),
        annotations: Vec::new(),
        reasoning: None,
        tool_calls: Vec::new(),
        tool_call_id: None,
        name: Some("context_summary".to_owned()),
    };
    proof {
        assert(turn@.annotations =~= seq![]);
        assert(turn@.tool_calls =~= seq![]);
    }
    let removed = apply_compaction_edit_with(turns, &edit, at, turn);
    let mut message = "Summarized ".to_owned();
    message.append(decimal_text(removed as u64).as_str());
    message.append(" turn(s) in active context. Reason: ");
    message.append(reason);
    Ok(message)
}

fn is_compaction_result(turn: &SessionTurn) -> (b: bool)
    ensures
        b == compaction_result(turn@),
{
    turn.role == MessageRole::Tool && match &turn.name {
        Some(name) => is_compaction_tool(name.as_str()),
        None => false,
    }
}

/// Add what the compaction calls that `turn` requests or answers remove.
fn add_earlier(turn: &SessionTurn, edit: &mut CompactionEdit)
    ensures
        forall|x: u64| #[trigger]
            final(edit).turns().contains(x) == (old(edit).turns().contains(x) || (x == turn@.id
                && compaction_turn(turn@))),
        forall|x: Seq<char>| #[trigger]
            final(edit).calls().contains(x) == (old(edit).calls().contains(x)
                || compaction_turn_for(turn@, x)),
{
    let ghost calls = turn@.tool_calls;
    let mut j: usize = 0;
    while j < turn.tool_calls.len()
        invariant
            j <= turn.tool_calls@.len(),
            calls == turn@.tool_calls,
            forall|x: u64| #[trigger]
                edit.turns().contains(x) == (old(edit).turns().contains(x) || (x == turn@.id
                    && exists|k: int| 0 <= k < j && compaction_call(#[trigger] calls[k]))),
            forall|x: Seq<char>| #[trigger]
                edit.calls().contains(x) == (old(edit).calls().contains(x) || exists|k: int|
                    0 <= k < j && compaction_call(#[trigger] calls[k]) && calls[k].id == x),
        decreases turn.tool_calls@.len() - j,
    {
        let call = &turn.tool_calls[j];
        assert(calls[j as int] == call@);
        if is_compaction_tool(call.function.name.as_str()) {
            let ghost before = *edit;
            edit.add_call(&call.id);
            edit.add_turn(turn.id);
            proof {
                assert(compaction_call(calls[j as int]));
                assert forall|x: u64| #[trigger]
                    edit.turns().contains(x) == (old(edit).turns().contains(x) || (x == turn@.id
                        && exists|k: int| 0 <= k < j + 1 && compaction_call(#[trigger] calls[k])))
                    by {
                    assert(edit.turns().contains(x) == (before.turns().contains(x) || x
                        == turn.id));
                }
                assert forall|x: Seq<char>| #[trigger]
                    edit.calls().contains(x) == (old(edit).calls().contains(x) || exists|k: int|
                        0 <= k < j + 1 && compaction_call(#[trigger] calls[k]) && calls[k].id == x)
                    by {
                    assert(edit.calls().contains(x) == (before.calls().contains(x) || x
                        == call.id@));
                    if x == call.id@ {
                        assert(calls[j as int].id == x);
                    }
                }
            }
        }
        j += 1;
    }
    if is_compaction_result(turn) {
        edit.add_turn(turn.id);
        if let Some(call) = &turn.tool_call_id {
            edit.add_call(call);
        }
    }
}

/// Remove the compaction calls and answers that earlier compactions left, and return by how many
/// turns the history became shorter.
pub fn remove_previous_tool_messages(turns: &mut Vec<SessionTurn>) -> (removed: usize)
    ensures
        views(final(turns)@) == cleanup(views(old(turns)@)),
        removed == shrinkage(old(turns)@.len(), final(turns)@.len()),
{
    let ghost all = views(turns@);
    let mut edit = CompactionEdit::new();
    let mut i: usize = 0;
    while i < turns.len()
        invariant
            i <= turns@.len(),
            *turns == *old(turns),
            all == views(turns@),
            forall|x: u64| #[trigger]
                edit.turns().contains(x) == (exists|k: int|
                    0 <= k < i && (#[trigger] all[k]).id == x && compaction_turn(all[k])),
            forall|x: Seq<char>| #[trigger]
                edit.calls().contains(x) == (exists|k: int|
                    0 <= k < i && compaction_turn_for(#[trigger] all[k], x)),
        decreases turns@.len() - i,
    {
        let ghost before = edit;
        let turn = &turns[i];
        assert(all[i as int] == turn@);
        add_earlier(turn, &mut edit);
        proof {
            assert forall|x: u64| #[trigger]
                edit.turns().contains(x) == (exists|k: int|
                    0 <= k < i + 1 && (#[trigger] all[k]).id == x && compaction_turn(all[k])) by {
                assert(edit.turns().contains(x) == (before.turns().contains(x) || (x == turn@.id
                    && compaction_turn(turn@))));
                if x == turn@.id && compaction_turn(turn@) {
                    assert(all[i as int].id == x);
                }
            }
            assert forall|x: Seq<char>| #[trigger]
                edit.calls().contains(x) == (exists|k: int|
                    0 <= k < i + 1 && compaction_turn_for(#[trigger] all[k], x)) by {
                assert(edit.calls().contains(x) == (before.calls().contains(x)
                    || compaction_turn_for(turn@, x)));
                if compaction_turn_for(turn@, x) {
                    assert(compaction_turn_for(all[i as int], x));
                }
            }
        }
        i += 1;
    }
    proof {
        assert(edit.turns() =~= earlier_turns(all));
        assert(edit.calls() =~= earlier_calls(all));
    }
    if edit.turn_ids.len() == 0 && edit.call_ids.len() == 0 {
        proof {
            assert(edit.turns() =~= Set::<u64>::empty());
            assert(edit.calls() =~= Set::<Seq<char>>::empty());
            lemma_edited_nothing(all);
        }
        return 0;
    }
    apply_compaction_edit(turns, &edit)
}

} // verus!
