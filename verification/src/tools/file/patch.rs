//! The patch format, and patching a text.

use vstd::prelude::*;

use crate::common::{lemma_take_push, lemma_views_push, views};
use crate::error::{tool_error, Error, ErrorView};
use crate::text::{
    concat3, has_prefix, is_blank, join_texts, lines_of, same_text, slice_text, strip_prefix,
    to_chars,
};
use crate::text::{blank, joined, lemma_first_position_unique, occurs_at, text_lines};

verus! {

broadcast use lemma_views_push;

/// One line of a hunk.
#[derive(Debug, PartialEq, Eq)]
pub enum HunkLine {
    /// A line that stays.
    Context(String),
    /// A line that goes.
    Remove(String),
    /// A line that comes.
    Add(String),
}

/// A run of lines to be found and replaced.
#[derive(Debug, PartialEq, Eq)]
pub struct Hunk {
    pub lines: Vec<HunkLine>,
}

/// One operation of a patch.
#[derive(Debug, PartialEq, Eq)]
pub enum PatchOperation {
    /// Add a file.
    Add { path: String, lines: Vec<String> },
    /// Delete a file.
    Delete { path: String },
    /// Update a file.
    Update { path: String, hunks: Vec<Hunk> },
}

/// The model of a [`HunkLine`].
pub enum HunkLineView {
    Context(Seq<char>),
    Remove(Seq<char>),
    Add(Seq<char>),
}

/// The model of a [`PatchOperation`].
pub enum OperationView {
    Add { path: Seq<char>, lines: Seq<Seq<char>> },
    Delete { path: Seq<char> },
    Update { path: Seq<char>, hunks: Seq<Seq<HunkLineView>> },
}

impl View for HunkLine {
    type V = HunkLineView;

    open spec fn view(&self) -> HunkLineView {
        match self {
            HunkLine::Context(text) => HunkLineView::Context(text@),
            HunkLine::Remove(text) => HunkLineView::Remove(text@),
            HunkLine::Add(text) => HunkLineView::Add(text@),
        }
    }
}

impl View for Hunk {
    type V = Seq<HunkLineView>;

    open spec fn view(&self) -> Seq<HunkLineView> {
        views(self.lines@)
    }
}

impl View for PatchOperation {
    type V = OperationView;

    open spec fn view(&self) -> OperationView {
        match self {
            PatchOperation::Add { path, lines } => OperationView::Add {
                path: path@,
                lines: views(lines@),
            },
            PatchOperation::Delete { path } => OperationView::Delete { path: path@ },
            PatchOperation::Update { path, hunks } => OperationView::Update {
                path: path@,
                hunks: views(hunks@),
            },
        }
    }
}

impl OperationView {
    /// The file that the operation is about.
    pub open spec fn path(self) -> Seq<char> {
        match self {
            OperationView::Add { path, .. } => path,
            OperationView::Delete { path } => path,
            OperationView::Update { path, .. } => path,
        }
    }
}

impl PatchOperation {
    /// The file that the operation is about.
    pub fn path(&self) -> (path: &str)
        ensures
            path@ == self@.path(),
    {
        match self {
            PatchOperation::Add { path, .. } => path.as_str(),
            PatchOperation::Delete { path } => path.as_str(),
            PatchOperation::Update { path, .. } => path.as_str(),
        }
    }
}

// ---------------------------------------------------------------------------------------------
// The format
// ---------------------------------------------------------------------------------------------

/// Whether a line begins an operation, or ends the patch.
pub open spec fn starred(line: Seq<char>) -> bool {
    "*** "@.is_prefix_of(line)
}

/// How many lines stand before the next operation.
pub open spec fn section_length(body: Seq<Seq<char>>) -> nat
    decreases body.len(),
{
    if body.len() == 0 || starred(body[0]) {
        0
    } else {
        1 + section_length(body.drop_first())
    }
}

/// The lines of an added file.
pub open spec fn added_lines(section: Seq<Seq<char>>) -> Result<Seq<Seq<char>>, ErrorView> {
    if forall|i: int| 0 <= i < section.len() ==> "+"@.is_prefix_of(#[trigger] section[i]) {
        Ok(section.map_values(|line: Seq<char>| line.skip("+"@.len() as int)))
    } else {
        Err(ErrorView::Tool("add file lines must start with `+`"@))
    }
}

/// Whether a line begins a hunk.
pub open spec fn hunk_header(line: Seq<char>) -> bool {
    line == "@@"@ || "@@ "@.is_prefix_of(line)
}

/// What a line of a hunk says.
pub open spec fn hunk_line(line: Seq<char>) -> Result<HunkLineView, ErrorView> {
    if line.len() == 0 {
        Err(ErrorView::Tool("empty patch hunk line"@))
    } else if line[0] == ' ' {
        Ok(HunkLineView::Context(line.skip(1)))
    } else if line[0] == '-' {
        Ok(HunkLineView::Remove(line.skip(1)))
    } else if line[0] == '+' {
        Ok(HunkLineView::Add(line.skip(1)))
    } else {
        Err(ErrorView::Tool("unsupported update hunk line prefix `"@ + line.take(1) + "`"@))
    }
}

/// The closed hunks of a section, and the lines of the open one.
pub open spec fn gathered(section: Seq<Seq<char>>) -> Result<
    (Seq<Seq<HunkLineView>>, Seq<HunkLineView>),
    ErrorView,
>
    decreases section.len(),
{
    if section.len() == 0 {
        Ok((seq![], seq![]))
    } else {
        match gathered(section.drop_last()) {
            Err(e) => Err(e),
            Ok((hunks, open)) => if hunk_header(section.last()) {
                Ok((closed_hunks(hunks, open), seq![]))
            } else {
                match hunk_line(section.last()) {
                    Err(e) => Err(e),
                    Ok(line) => Ok((hunks, open.push(line))),
                }
            },
        }
    }
}

/// `hunks` with the open one closed, where it has lines.
pub open spec fn closed_hunks(hunks: Seq<Seq<HunkLineView>>, open: Seq<HunkLineView>) -> Seq<
    Seq<HunkLineView>,
> {
    if open.len() > 0 {
        hunks.push(open)
    } else {
        hunks
    }
}

/// The hunks of an updated file.
pub open spec fn section_hunks(section: Seq<Seq<char>>) -> Result<
    Seq<Seq<HunkLineView>>,
    ErrorView,
> {
    match gathered(section) {
        Err(e) => Err(e),
        Ok((hunks, open)) => if closed_hunks(hunks, open).len() == 0 {
            Err(ErrorView::Tool("update file contained no hunks"@))
        } else {
            Ok(closed_hunks(hunks, open))
        },
    }
}

/// `first` and what follows, unless that is an error.
pub open spec fn followed_by(
    first: Seq<OperationView>,
    rest: Result<Seq<OperationView>, ErrorView>,
) -> Result<Seq<OperationView>, ErrorView> {
    match rest {
        Ok(rest) => Ok(first + rest),
        Err(e) => Err(e),
    }
}

/// The operations between the first and the last line of a patch.
pub open spec fn body_operations(body: Seq<Seq<char>>) -> Result<Seq<OperationView>, ErrorView>
    decreases body.len(),
    via body_operations_decreases
{
    if body.len() == 0 {
        Ok(seq![])
    } else {
        let line = body[0];
        let rest = body.drop_first();
        let n = section_length(rest) as int;
        if "*** Add File: "@.is_prefix_of(line) {
            match added_lines(rest.take(n)) {
                Err(e) => Err(e),
                Ok(lines) => followed_by(
                    seq![
                        OperationView::Add {
                            path: line.skip("*** Add File: "@.len() as int),
                            lines,
                        },
                    ],
                    body_operations(rest.skip(n)),
                ),
            }
        } else if "*** Delete File: "@.is_prefix_of(line) {
            followed_by(
                seq![
                    OperationView::Delete { path: line.skip("*** Delete File: "@.len() as int) },
                ],
                body_operations(rest),
            )
        } else if "*** Update File: "@.is_prefix_of(line) {
            match section_hunks(rest.take(n)) {
                Err(e) => Err(e),
                Ok(hunks) => followed_by(
                    seq![
                        OperationView::Update {
                            path: line.skip("*** Update File: "@.len() as int),
                            hunks,
                        },
                    ],
                    body_operations(rest.skip(n)),
                ),
            }
        } else if blank(line) {
            body_operations(rest)
        } else {
            Err(ErrorView::Tool("unsupported patch operation `"@ + line + "`"@))
        }
    }
}

#[via_fn]
proof fn body_operations_decreases(body: Seq<Seq<char>>) {
    if body.len() > 0 {
        lemma_section_length(body.drop_first());
    }
}

/// The operations of a patch.
pub open spec fn patch_operations(patch: Seq<char>) -> Result<Seq<OperationView>, ErrorView> {
    let lines = text_lines(patch);
    if lines.len() > 0 && lines[0] == "*** Begin Patch"@ && lines.last() == "*** End Patch"@ {
        body_operations(lines.subrange(1, lines.len() - 1))
    } else {
        Err(
            ErrorView::Tool(
                "patch must start with `*** Begin Patch` and end with `*** End Patch`"@,
            ),
        )
    }
}

proof fn lemma_section_length(body: Seq<Seq<char>>)
    ensures
        section_length(body) <= body.len(),
        forall|i: int| 0 <= i < section_length(body) ==> !starred(#[trigger] body[i]),
        section_length(body) < body.len() ==> starred(body[section_length(body) as int]),
    decreases body.len(),
{
    if body.len() > 0 && !starred(body[0]) {
        let rest = body.drop_first();
        lemma_section_length(rest);
        assert forall|i: int| 0 <= i < section_length(body) implies !starred(
            #[trigger] body[i],
        ) by {
            if i > 0 {
                assert(body[i] == rest[i - 1]);
            }
        }
    }
}

proof fn lemma_section_end(body: Seq<Seq<char>>, n: int)
    requires
        0 <= n <= body.len(),
        forall|i: int| 0 <= i < n ==> !starred(#[trigger] body[i]),
        n == body.len() || starred(body[n]),
    ensures
        section_length(body) == n,
{
    lemma_section_length(body);
    if section_length(body) < n {
        assert(!starred(body[section_length(body) as int]));
    }
    if section_length(body) > n {
        assert(!starred(body[n]));
    }
}

proof fn lemma_gathered_stop(section: Seq<Seq<char>>, k: int)
    requires
        0 <= k <= section.len(),
        gathered(section.take(k)) is Err,
    ensures
        gathered(section) == gathered(section.take(k)),
    decreases section.len() - k,
{
    if k < section.len() {
        assert(section.take(k + 1).drop_last() =~= section.take(k));
        lemma_gathered_stop(section, k + 1);
    } else {
        assert(section.take(k) =~= section);
    }
}

/// The end of the section that begins at `start`.
fn section_end(lines: &Vec<String>, start: usize, end: usize) -> (r: usize)
    requires
        start <= end <= lines@.len(),
    ensures
        start <= r <= end,
        r - start == section_length(views(lines@).subrange(start as int, end as int)),
{
    let ghost body = views(lines@).subrange(start as int, end as int);
    let mut r: usize = start;
    while r < end && !has_prefix(lines[r].as_str(), "*** ")
        invariant
            start <= r <= end <= lines@.len(),
            body == views(lines@).subrange(start as int, end as int),
            forall|i: int| 0 <= i < r - start ==> !starred(#[trigger] body[i]),
        ensures
            start <= r <= end,
            forall|i: int| 0 <= i < r - start ==> !starred(#[trigger] body[i]),
            r == end || starred(body[r - start]),
        decreases end - r,
    {
        assert(body[r - start] == lines@[r as int]@);
        r += 1;
    }
    proof {
        lemma_section_end(body, r - start);
    }
    r
}

fn read_added(lines: &Vec<String>, start: usize, end: usize) -> (r: Result<Vec<String>, Error>)
    requires
        start <= end <= lines@.len(),
    ensures
        match r {
            Ok(added) => added_lines(views(lines@).subrange(start as int, end as int)) == Ok::<
                Seq<Seq<char>>,
                ErrorView,
            >(views(added@)),
            Err(e) => added_lines(views(lines@).subrange(start as int, end as int)) == Err::<
                Seq<Seq<char>>,
                ErrorView,
            >(e@),
        },
{
    let ghost section = views(lines@).subrange(start as int, end as int);
    let ghost strip = |line: Seq<char>| line.skip("+"@.len() as int);
    let mut added: Vec<String> = Vec::new();
    let mut i: usize = start;
    while i < end
        invariant
            start <= i <= end <= lines@.len(),
            section == views(lines@).subrange(start as int, end as int),
            strip == (|line: Seq<char>| line.skip("+"@.len() as int)),
            views(added@) =~= section.take(i - start).map_values(strip),
            forall|j: int| 0 <= j < i - start ==> "+"@.is_prefix_of(#[trigger] section[j]),
        decreases end - i,
    {
        assert(section[i - start] == lines@[i as int]@);
        match strip_prefix(lines[i].as_str(), "+") {
            Some(content) => {
                proof {
                    lemma_take_push(section, i - start);
                    assert(strip(section[i - start]) == content@);
                }
                added.push(content);
            },
            None => {
                return Err(tool_error("add file lines must start with `+`"));
            },
        }
        i += 1;
    }
    assert(section.take(end - start) =~= section);
    Ok(added)
}

fn read_hunk_line(line: &str) -> (r: Result<HunkLine, Error>)
    ensures
        match r {
            Ok(parsed) => hunk_line(line@) == Ok::<HunkLineView, ErrorView>(parsed@),
            Err(e) => hunk_line(line@) == Err::<HunkLineView, ErrorView>(e@),
        },
{
    let chars = to_chars(line);
    if chars.len() == 0 {
        return Err(tool_error("empty patch hunk line"));
    }
    let content = slice_text(&chars, 1, chars.len());
    proof {
        assert(content@ =~= line@.skip(1));
    }
    let first = chars[0];
    if first == ' ' {
        Ok(HunkLine::Context(content))
    } else if first == '-' {
        Ok(HunkLine::Remove(content))
    } else if first == '+' {
        Ok(HunkLine::Add(content))
    } else {
        let prefix = slice_text(&chars, 0, 1);
        proof {
            assert(prefix@ =~= line@.take(1));
        }
        let message = concat3("unsupported update hunk line prefix `", prefix.as_str(), "`");
        Err(Error::Tool(message))
    }
}

fn read_hunks(lines: &Vec<String>, start: usize, end: usize) -> (r: Result<Vec<Hunk>, Error>)
    requires
        start <= end <= lines@.len(),
    ensures
        match r {
            Ok(hunks) => section_hunks(views(lines@).subrange(start as int, end as int)) == Ok::<
                Seq<Seq<HunkLineView>>,
                ErrorView,
            >(views(hunks@)),
            Err(e) => section_hunks(views(lines@).subrange(start as int, end as int)) == Err::<
                Seq<Seq<HunkLineView>>,
                ErrorView,
            >(e@),
        },
{
    let ghost section = views(lines@).subrange(start as int, end as int);
    let mut hunks: Vec<Hunk> = Vec::new();
    let mut open: Vec<HunkLine> = Vec::new();
    let mut i: usize = start;
    assert(views(hunks@) =~= seq![]);
    assert(views(open@) =~= seq![]);
    while i < end
        invariant
            start <= i <= end <= lines@.len(),
            section == views(lines@).subrange(start as int, end as int),
            gathered(section.take(i - start)) == Ok::<
                (Seq<Seq<HunkLineView>>, Seq<HunkLineView>),
                ErrorView,
            >((views(hunks@), views(open@))),
        decreases end - i,
    {
        let line = lines[i].as_str();
        proof {
            assert(section.take(i - start + 1).drop_last() =~= section.take(i - start));
            assert(section.take(i - start + 1).last() == line@);
        }
        if same_text(line, "@@") || has_prefix(line, "@@ ") {
            if open.len() > 0 {
                let hunk = Hunk { lines: open };
                hunks.push(hunk);
                open = Vec::new();
                assert(views(open@) =~= seq![]);
            } else {
                assert(views(open@) =~= seq![]);
            }
        } else {
            match read_hunk_line(line) {
                Ok(parsed) => {
                    open.push(parsed);
                },
                Err(e) => {
                    proof {
                        lemma_gathered_stop(section, i - start + 1);
                    }
                    return Err(e);
                },
            }
        }
        i += 1;
    }
    assert(section.take(end - start) =~= section);
    if open.len() > 0 {
        let hunk = Hunk { lines: open };
        hunks.push(hunk);
    }
    if hunks.len() == 0 {
        return Err(tool_error("update file contained no hunks"));
    }
    Ok(hunks)
}

/// Read a patch.
pub fn parse_patch(patch: &str) -> (r: Result<Vec<PatchOperation>, Error>)
    ensures
        match r {
            Ok(operations) => patch_operations(patch@) == Ok::<Seq<OperationView>, ErrorView>(
                views(operations@),
            ),
            Err(e) => patch_operations(patch@) == Err::<Seq<OperationView>, ErrorView>(e@),
        },
{
    let lines = lines_of(patch);
    let ghost all = views(lines@);
    if lines.len() == 0 || !same_text(lines[0].as_str(), "*** Begin Patch") || !same_text(
        lines[lines.len() - 1].as_str(),
        "*** End Patch",
    ) {
        return Err(
            tool_error("patch must start with `*** Begin Patch` and end with `*** End Patch`"),
        );
    }
    let end: usize = lines.len() - 1;
    proof {
        reveal_strlit("*** Begin Patch");
        reveal_strlit("*** End Patch");
        assert("*** Begin Patch"@.len() != "*** End Patch"@.len());
        assert(end > 0);
    }
    let ghost body = all.subrange(1, end as int);
    let mut operations: Vec<PatchOperation> = Vec::new();
    let mut i: usize = 1;
    proof {
        assert(all.subrange(1, end as int) =~= body);
        assert(views(operations@) =~= seq![]);
        lemma_followed_by_nothing(body_operations(body));
    }
    while i < end
        invariant
            1 <= i <= end,
            end == lines@.len() - 1,
            all == views(lines@),
            all.len() > 0,
            all[0] == "*** Begin Patch"@,
            all.last() == "*** End Patch"@,
            all == text_lines(patch@),
            body == all.subrange(1, end as int),
            body_operations(body) == followed_by(
                views(operations@),
                body_operations(all.subrange(i as int, end as int)),
            ),
        decreases end - i,
    {
        let line = lines[i].as_str();
        let ghost left = all.subrange(i as int, end as int);
        let ghost done = views(operations@);
        proof {
            assert(left[0] == line@);
            assert(left.drop_first() =~= all.subrange(i + 1, end as int));
        }
        if let Some(path) = strip_prefix(line, "*** Add File: ") {
            let stop = section_end(&lines, i + 1, end);
            proof {
                assert(left.drop_first().take(stop - i - 1) =~= all.subrange(
                    i + 1,
                    stop as int,
                ));
                assert(left.drop_first().skip(stop - i - 1) =~= all.subrange(
                    stop as int,
                    end as int,
                ));
            }
            match read_added(&lines, i + 1, stop) {
                Ok(added) => {
                    let operation = PatchOperation::Add { path, lines: added };
                    proof {
                        lemma_followed_by(
                            done,
                            operation@,
                            body_operations(all.subrange(stop as int, end as int)),
                        );
                    }
                    operations.push(operation);
                },
                Err(e) => {
                    return Err(e);
                },
            }
            i = stop;
        } else if let Some(path) = strip_prefix(line, "*** Delete File: ") {
            let operation = PatchOperation::Delete { path };
            proof {
                lemma_followed_by(
                    done,
                    operation@,
                    body_operations(all.subrange(i + 1, end as int)),
                );
            }
            operations.push(operation);
            i += 1;
        } else if let Some(path) = strip_prefix(line, "*** Update File: ") {
            let stop = section_end(&lines, i + 1, end);
            proof {
                assert(left.drop_first().take(stop - i - 1) =~= all.subrange(
                    i + 1,
                    stop as int,
                ));
                assert(left.drop_first().skip(stop - i - 1) =~= all.subrange(
                    stop as int,
                    end as int,
                ));
            }
            match read_hunks(&lines, i + 1, stop) {
                Ok(hunks) => {
                    let operation = PatchOperation::Update { path, hunks };
                    proof {
                        lemma_followed_by(
                            done,
                            operation@,
                            body_operations(all.subrange(stop as int, end as int)),
                        );
                    }
                    operations.push(operation);
                },
                Err(e) => {
                    return Err(e);
                },
            }
            i = stop;
        } else if is_blank(line) {
            i += 1;
        } else {
            let message = concat3("unsupported patch operation `", line, "`");
            return Err(Error::Tool(message));
        }
    }
    proof {
        assert(all.subrange(end as int, end as int) =~= seq![]);
        assert(views(operations@) + Seq::<OperationView>::empty() =~= views(operations@));
    }
    Ok(operations)
}

proof fn lemma_followed_by(
    done: Seq<OperationView>,
    operation: OperationView,
    rest: Result<Seq<OperationView>, ErrorView>,
)
    ensures
        followed_by(done, followed_by(seq![operation], rest)) == followed_by(
            done.push(operation),
            rest,
        ),
{
    if let Ok(rest) = rest {
        assert(done + (seq![operation] + rest) =~= done.push(operation) + rest);
    }
}

proof fn lemma_followed_by_nothing(rest: Result<Seq<OperationView>, ErrorView>)
    ensures
        followed_by(seq![], rest) == rest,
{
    if let Ok(rest) = rest {
        assert(Seq::<OperationView>::empty() + rest =~= rest);
    }
}

// ---------------------------------------------------------------------------------------------
// Patching
// ---------------------------------------------------------------------------------------------

/// The lines that a hunk looks for.
pub open spec fn sought(hunk: Seq<HunkLineView>) -> Seq<Seq<char>>
    decreases hunk.len(),
{
    if hunk.len() == 0 {
        seq![]
    } else {
        let before = sought(hunk.drop_last());
        match hunk.last() {
            HunkLineView::Context(line) => before.push(line),
            HunkLineView::Remove(line) => before.push(line),
            HunkLineView::Add(_) => before,
        }
    }
}

/// The lines that a hunk puts in their place.
pub open spec fn replacement(hunk: Seq<HunkLineView>) -> Seq<Seq<char>>
    decreases hunk.len(),
{
    if hunk.len() == 0 {
        seq![]
    } else {
        let before = replacement(hunk.drop_last());
        match hunk.last() {
            HunkLineView::Context(line) => before.push(line),
            HunkLineView::Remove(_) => before,
            HunkLineView::Add(line) => before.push(line),
        }
    }
}

/// Whether `expected` is found at `at`, at or behind `start`, and nowhere between.
pub open spec fn first_match(
    lines: Seq<Seq<char>>,
    start: int,
    expected: Seq<Seq<char>>,
    at: int,
) -> bool {
    &&& start <= at
    &&& occurs_at(lines, expected, at)
    &&& forall|i: int| start <= i < at ==> !#[trigger] occurs_at(lines, expected, i)
}

/// Where `expected` is first found at or behind `start`.
pub open spec fn match_position(
    lines: Seq<Seq<char>>,
    start: int,
    expected: Seq<Seq<char>>,
) -> Option<int> {
    if exists|at: int| first_match(lines, start, expected, at) {
        Some(choose|at: int| first_match(lines, start, expected, at))
    } else {
        None
    }
}

/// The lines from `cursor` on, with `hunks` applied in order.
pub open spec fn patched_lines(
    lines: Seq<Seq<char>>,
    cursor: int,
    hunks: Seq<Seq<HunkLineView>>,
) -> Option<Seq<Seq<char>>>
    decreases hunks.len(),
{
    if hunks.len() == 0 {
        Some(lines.skip(cursor))
    } else {
        let hunk = hunks[0];
        match match_position(lines, cursor, sought(hunk)) {
            None => None,
            Some(at) => match patched_lines(lines, at + sought(hunk).len(), hunks.drop_first()) {
                None => None,
                Some(rest) => Some(lines.subrange(cursor, at) + replacement(hunk) + rest),
            },
        }
    }
}

/// `text` with `hunks` applied: its final line break is kept, unless nothing else is left.
pub open spec fn patched_text(text: Seq<char>, hunks: Seq<Seq<HunkLineView>>) -> Option<Seq<char>> {
    match patched_lines(text_lines(text), 0, hunks) {
        None => None,
        Some(lines) => {
            let patched = joined(lines, "\n"@);
            if text.len() > 0 && text.last() == '\n' && patched.len() > 0 {
                Some(patched.push('\n'))
            } else {
                Some(patched)
            }
        },
    }
}

proof fn lemma_match_position(lines: Seq<Seq<char>>, start: int, expected: Seq<Seq<char>>, at: int)
    requires
        first_match(lines, start, expected, at),
    ensures
        match_position(lines, start, expected) == Some(at),
{
    let found = choose|at: int| first_match(lines, start, expected, at);
    assert(first_match(lines, start, expected, found));
    if found < at {
        assert(!occurs_at(lines, expected, found));
    }
    if at < found {
        assert(!occurs_at(lines, expected, at));
    }
}

fn lines_match(lines: &Vec<String>, at: usize, expected: &Vec<String>) -> (b: bool)
    requires
        at + expected@.len() <= lines@.len(),
    ensures
        b == occurs_at(views(lines@), views(expected@), at as int),
{
    let ghost all = views(lines@);
    let ghost wanted = views(expected@);
    let total: usize = lines.len();
    let mut i: usize = 0;
    while i < expected.len()
        invariant
            i <= expected@.len(),
            at + expected@.len() <= lines@.len(),
            total == lines@.len(),
            all == views(lines@),
            wanted == views(expected@),
            forall|j: int| 0 <= j < i ==> #[trigger] wanted[j] == all[at + j],
        decreases expected@.len() - i,
    {
        if !same_text(lines[at + i].as_str(), expected[i].as_str()) {
            proof {
                assert(all.subrange(at as int, at + wanted.len())[i as int] == all[at + i]);
                assert(wanted[i as int] != all[at + i]);
            }
            return false;
        }
        assert(wanted[i as int] == all[at + i]);
        i += 1;
    }
    assert(all.subrange(at as int, at + wanted.len()) =~= wanted);
    true
}

fn find_sequence(lines: &Vec<String>, start: usize, expected: &Vec<String>) -> (r: Option<usize>)
    requires
        start <= lines@.len(),
    ensures
        match r {
            Some(at) => match_position(views(lines@), start as int, views(expected@)) == Some(
                at as int,
            ) && start <= at && at + expected@.len() <= lines@.len(),
            None => match_position(views(lines@), start as int, views(expected@)) is None,
        },
{
    let ghost all = views(lines@);
    let ghost wanted = views(expected@);
    let total: usize = lines.len();
    let count: usize = expected.len();
    let mut at: usize = start;
    while at < total && count <= total - at
        invariant
            start <= at <= total,
            total == lines@.len(),
            count == expected@.len(),
            all == views(lines@),
            wanted == views(expected@),
            forall|i: int| start <= i < at ==> !#[trigger] occurs_at(all, wanted, i),
        decreases total - at,
    {
        if lines_match(lines, at, expected) {
            proof {
                lemma_match_position(all, start as int, wanted, at as int);
            }
            return Some(at);
        }
        at += 1;
    }
    if count == 0 {
        proof {
            assert(all.subrange(at as int, at as int) =~= wanted);
            lemma_match_position(all, start as int, wanted, at as int);
        }
        return Some(at);
    }
    proof {
        assert forall|i: int| !first_match(all, start as int, wanted, i) by {
            if first_match(all, start as int, wanted, i) {
                assert(occurs_at(all, wanted, i));
                assert(i >= at);
                assert(i + wanted.len() <= all.len());
            }
        }
    }
    None
}

/// The lines that a hunk looks for.
fn sought_lines(hunk: &Hunk) -> (r: Vec<String>)
    ensures
        views(r@) == sought(hunk@),
{
    let mut r: Vec<String> = Vec::new();
    let mut i: usize = 0;
    assert(views(r@) =~= seq![]);
    while i < hunk.lines.len()
        invariant
            i <= hunk.lines@.len(),
            views(r@) == sought(hunk@.take(i as int)),
        decreases hunk.lines@.len() - i,
    {
        proof {
            assert(hunk@.take(i + 1).drop_last() =~= hunk@.take(i as int));
            assert(hunk@.take(i + 1).last() == hunk.lines@[i as int]@);
        }
        match &hunk.lines[i] {
            HunkLine::Context(line) => {
                let line = line.clone();
                r.push(line);
            },
            HunkLine::Remove(line) => {
                let line = line.clone();
                r.push(line);
            },
            HunkLine::Add(_) => {},
        }
        i += 1;
    }
    assert(hunk@.take(i as int) =~= hunk@);
    r
}

fn push_replacement(output: &mut Vec<String>, hunk: &Hunk)
    ensures
        views(final(output)@) == views(old(output)@) + replacement(hunk@),
{
    let ghost before = views(output@);
    let mut i: usize = 0;
    assert(before + Seq::<Seq<char>>::empty() =~= before);
    while i < hunk.lines.len()
        invariant
            i <= hunk.lines@.len(),
            views(output@) == before + replacement(hunk@.take(i as int)),
        decreases hunk.lines@.len() - i,
    {
        let ghost so_far = replacement(hunk@.take(i as int));
        proof {
            assert(hunk@.take(i + 1).drop_last() =~= hunk@.take(i as int));
            assert(hunk@.take(i + 1).last() == hunk.lines@[i as int]@);
        }
        match &hunk.lines[i] {
            HunkLine::Context(line) => {
                let line = line.clone();
                output.push(line);
                assert((before + so_far).push(line@) =~= before + so_far.push(line@));
            },
            HunkLine::Remove(_) => {},
            HunkLine::Add(line) => {
                let line = line.clone();
                output.push(line);
                assert((before + so_far).push(line@) =~= before + so_far.push(line@));
            },
        }
        i += 1;
    }
    assert(hunk@.take(i as int) =~= hunk@);
}

fn push_lines(output: &mut Vec<String>, lines: &Vec<String>, start: usize, end: usize)
    requires
        start <= end <= lines@.len(),
    ensures
        views(final(output)@) == views(old(output)@) + views(lines@).subrange(
            start as int,
            end as int,
        ),
{
    let ghost before = views(output@);
    let ghost all = views(lines@);
    let mut i: usize = start;
    assert(before + all.subrange(start as int, start as int) =~= before);
    while i < end
        invariant
            start <= i <= end <= lines@.len(),
            all == views(lines@),
            views(output@) == before + all.subrange(start as int, i as int),
        decreases end - i,
    {
        let line = lines[i].clone();
        proof {
            assert(line@ == all[i as int]);
            assert((before + all.subrange(start as int, i as int)).push(line@) =~= before
                + all.subrange(start as int, i + 1));
        }
        output.push(line);
        i += 1;
    }
}

/// Apply hunks to a text, each behind the one before it.
pub fn apply_hunks(original: &str, hunks: &Vec<Hunk>) -> (r: Result<String, Error>)
    ensures
        match r {
            Ok(text) => patched_text(original@, views(hunks@)) == Some(text@),
            Err(e) => patched_text(original@, views(hunks@)) is None && e@ == ErrorView::Tool(
                "update hunk did not match the target file"@,
            ),
        },
{
    let lines = lines_of(original);
    let ghost all = views(lines@);
    let ghost wanted = views(hunks@);
    let mut output: Vec<String> = Vec::new();
    let mut cursor: usize = 0;
    let mut i: usize = 0;
    assert(views(output@) =~= seq![]);
    assert(wanted.skip(0) =~= wanted);
    proof {
        if let Some(rest) = patched_lines(all, 0, wanted) {
            assert(Seq::<Seq<char>>::empty() + rest =~= rest);
        }
    }
    while i < hunks.len()
        invariant
            i <= hunks@.len(),
            cursor <= lines@.len(),
            all == views(lines@),
            all == text_lines(original@),
            wanted == views(hunks@),
            match patched_lines(all, cursor as int, wanted.skip(i as int)) {
                None => patched_lines(all, 0, wanted) is None,
                Some(rest) => patched_lines(all, 0, wanted) == Some(views(output@) + rest),
            },
        decreases hunks@.len() - i,
    {
        let hunk = &hunks[i];
        proof {
            assert(wanted.skip(i as int)[0] == hunk@);
            assert(wanted.skip(i as int).drop_first() =~= wanted.skip(i + 1));
        }
        let expected = sought_lines(hunk);
        let ghost before = views(output@);
        match find_sequence(&lines, cursor, &expected) {
            None => {
                return Err(tool_error("update hunk did not match the target file"));
            },
            Some(at) => {
                push_lines(&mut output, &lines, cursor, at);
                push_replacement(&mut output, hunk);
                proof {
                    let next = at + sought(hunk@).len();
                    if let Some(rest) = patched_lines(all, next, wanted.skip(i + 1)) {
                        assert(before + (all.subrange(cursor as int, at as int) + replacement(
                            hunk@,
                        ) + rest) =~= before + all.subrange(cursor as int, at as int)
                            + replacement(hunk@) + rest);
                    }
                }
                let total: usize = lines.len();
                assert(at + expected@.len() <= total);
                cursor = at + expected.len();
            },
        }
        i += 1;
    }
    let ghost before = views(output@);
    push_lines(&mut output, &lines, cursor, lines.len());
    proof {
        assert(wanted.skip(i as int) =~= seq![]);
        assert(all.subrange(cursor as int, all.len() as int) =~= all.skip(cursor as int));
    }
    let mut text = join_texts(&output, "\n");
    let chars = to_chars(original);
    if chars.len() > 0 && chars[chars.len() - 1] == '\n' && text.unicode_len() > 0 {
        text.push('\n');
    }
    Ok(text)
}

/// The text of an added file: each line with its line break.
pub open spec fn file_text(lines: Seq<Seq<char>>) -> Seq<char> {
    if lines.len() > 0 {
        joined(lines, "\n"@).push('\n')
    } else {
        seq![]
    }
}

/// The text of an added file.
pub fn lines_to_text(lines: &Vec<String>) -> (text: String)
    ensures
        text@ == file_text(views(lines@)),
{
    let mut text = join_texts(lines, "\n");
    if lines.len() > 0 {
        text.push('\n');
    } else {
        assert(text@ =~= seq![]);
    }
    text
}

// ---------------------------------------------------------------------------------------------
// Laws
// ---------------------------------------------------------------------------------------------

/// Whether a line could stand in a file: it holds no line break.
pub open spec fn plain_line(line: Seq<char>) -> bool {
    &&& forall|i: int| 0 <= i < line.len() ==> #[trigger] line[i] != '\n'
    &&& line.len() > 0 ==> line.last() != '\r'
}

proof fn lemma_joined_first(parts: Seq<Seq<char>>, separator: Seq<char>)
    requires
        parts.len() >= 2,
    ensures
        joined(parts, separator) == parts[0] + separator + joined(parts.drop_first(), separator),
    decreases parts.len(),
{
    let rest = parts.drop_first();
    if parts.len() == 2 {
        assert(joined(parts.drop_last(), separator) == parts[0]);
        assert(joined(rest, separator) == parts[1]);
    } else {
        lemma_joined_first(parts.drop_last(), separator);
        assert(parts.drop_last().drop_first() =~= rest.drop_last());
        assert(joined(parts, separator) =~= parts[0] + separator + joined(rest, separator));
    }
}

/// An added file reads back as its lines.
pub proof fn added_files_read_back(lines: Seq<Seq<char>>)
    requires
        forall|i: int| 0 <= i < lines.len() ==> plain_line(#[trigger] lines[i]),
    ensures
        text_lines(file_text(lines)) == lines,
    decreases lines.len(),
{
    if lines.len() > 0 {
        let first = lines[0];
        let rest = lines.drop_first();
        assert forall|i: int| 0 <= i < rest.len() implies plain_line(#[trigger] rest[i]) by {
            assert(rest[i] == lines[i + 1]);
        }
        added_files_read_back(rest);
        let text = file_text(lines);
        reveal_strlit("\n");
        assert(text =~= first + "\n"@ + file_text(rest)) by {
            if lines.len() > 1 {
                lemma_joined_first(lines, "\n"@);
            }
        }
        assert(plain_line(first));
        lemma_first_position_unique(text, '\n', first.len() as int);
        assert(text.take(first.len() as int) =~= first);
        assert(text.skip(first.len() as int + 1) =~= file_text(rest));
        assert(seq![first] + rest =~= lines);
    }
}

/// Whether a hunk holds lines that stay, and no others.
pub open spec fn only_context(hunk: Seq<HunkLineView>) -> bool {
    forall|i: int| 0 <= i < hunk.len() ==> (#[trigger] hunk[i]) is Context
}

proof fn lemma_only_context(hunk: Seq<HunkLineView>)
    requires
        only_context(hunk),
    ensures
        sought(hunk) == replacement(hunk),
    decreases hunk.len(),
{
    if hunk.len() > 0 {
        assert(hunk[hunk.len() - 1] is Context);
        assert forall|i: int| 0 <= i < hunk.drop_last().len() implies (#[trigger] hunk.drop_last()[i])
            is Context by {
            assert(hunk.drop_last()[i] == hunk[i]);
        }
        lemma_only_context(hunk.drop_last());
    }
}

/// Hunks that hold nothing but lines that stay leave every line as it is.
pub proof fn context_alone_changes_nothing(
    lines: Seq<Seq<char>>,
    cursor: int,
    hunks: Seq<Seq<HunkLineView>>,
)
    requires
        0 <= cursor <= lines.len(),
        forall|i: int| 0 <= i < hunks.len() ==> only_context(#[trigger] hunks[i]),
    ensures
        patched_lines(lines, cursor, hunks) matches Some(patched) ==> patched == lines.skip(cursor),
    decreases hunks.len(),
{
    if hunks.len() > 0 {
        let hunk = hunks[0];
        let rest = hunks.drop_first();
        let expected = sought(hunk);
        lemma_only_context(hunk);
        if let Some(at) = match_position(lines, cursor, expected) {
            assert(first_match(lines, cursor, expected, at));
            assert forall|i: int| 0 <= i < rest.len() implies only_context(#[trigger] rest[i]) by {
                assert(rest[i] == hunks[i + 1]);
            }
            context_alone_changes_nothing(lines, at + expected.len(), rest);
            assert(lines.subrange(cursor, at) + lines.subrange(at, at + expected.len())
                + lines.skip(at + expected.len()) =~= lines.skip(cursor));
        }
    }
}

/// A hunk is found wherever the lines that it looks for stand, at the first such place.
pub proof fn hunks_are_found_where_they_stand(
    lines: Seq<Seq<char>>,
    start: int,
    expected: Seq<Seq<char>>,
    at: int,
)
    requires
        start <= at,
        occurs_at(lines, expected, at),
    ensures
        match_position(lines, start, expected) matches Some(found) && start <= found <= at
            && occurs_at(lines, expected, found),
    decreases at - start,
{
    if forall|i: int| start <= i < at ==> !#[trigger] occurs_at(lines, expected, i) {
        lemma_match_position(lines, start, expected, at);
    } else {
        let earlier = choose|i: int| start <= i < at && #[trigger] occurs_at(lines, expected, i);
        hunks_are_found_where_they_stand(lines, start, expected, earlier);
    }
}

/// The text of a line of a hunk, without its mark.
pub open spec fn line_text(line: HunkLineView) -> Seq<char> {
    match line {
        HunkLineView::Context(text) => text,
        HunkLineView::Remove(text) => text,
        HunkLineView::Add(text) => text,
    }
}

/// The texts of the lines of a hunk that pass, each unchanged and in order.
pub open spec fn texts_where(hunk: Seq<HunkLineView>, passes: spec_fn(HunkLineView) -> bool) -> Seq<
    Seq<char>,
> {
    hunk.filter(passes).map_values(|line: HunkLineView| line_text(line))
}

/// A hunk looks for exactly its context lines and the lines that it removes, and puts in their place
/// exactly its context lines and the lines that it adds: each with its text unchanged, blank ones
/// included, and in order.
pub proof fn hunks_replace_line_by_line(hunk: Seq<HunkLineView>)
    ensures
        sought(hunk) == texts_where(hunk, |line: HunkLineView| !(line is Add)),
        replacement(hunk) == texts_where(hunk, |line: HunkLineView| !(line is Remove)),
    decreases hunk.len(),
{
    reveal(Seq::filter);
    let stays = |line: HunkLineView| !(line is Add);
    let comes = |line: HunkLineView| !(line is Remove);
    if hunk.len() == 0 {
        assert(sought(hunk) =~= texts_where(hunk, stays));
        assert(replacement(hunk) =~= texts_where(hunk, comes));
    } else {
        hunks_replace_line_by_line(hunk.drop_last());
        assert(sought(hunk) =~= texts_where(hunk, stays));
        assert(replacement(hunk) =~= texts_where(hunk, comes));
    }
}

/// A hunk that adds, removes and keeps so many lines looks for as many as it keeps and removes, and
/// puts as many in their place as it keeps and adds.
pub proof fn hunks_count_their_lines(hunk: Seq<HunkLineView>)
    ensures
        sought(hunk).len() + hunk.filter(|line: HunkLineView| line is Add).len() == hunk.len(),
        replacement(hunk).len() + hunk.filter(|line: HunkLineView| line is Remove).len()
            == hunk.len(),
    decreases hunk.len(),
{
    reveal(Seq::filter);
    if hunk.len() > 0 {
        hunks_count_their_lines(hunk.drop_last());
    }
}

/// One hunk replaces the lines that it looks for at the first place where they stand, and no
/// other line; where they stand nowhere the file is not patched.
pub proof fn one_hunk_changes_one_place(lines: Seq<Seq<char>>, hunk: Seq<HunkLineView>)
    ensures
        match patched_lines(lines, 0, seq![hunk]) {
            Some(patched) => exists|at: int|
                {
                    &&& 0 <= at <= lines.len() - sought(hunk).len()
                    &&& #[trigger] lines.subrange(at, at + sought(hunk).len()) == sought(hunk)
                    &&& forall|i: int|
                        0 <= i < at ==> #[trigger] lines.subrange(i, i + sought(hunk).len())
                            != sought(hunk)
                    &&& patched == lines.take(at) + replacement(hunk) + lines.skip(
                        at + sought(hunk).len(),
                    )
                },
            None => forall|i: int|
                0 <= i <= lines.len() - sought(hunk).len() ==> #[trigger] lines.subrange(
                    i,
                    i + sought(hunk).len(),
                ) != sought(hunk),
        },
{
    let expected = sought(hunk);
    let hunks = seq![hunk];
    assert(hunks.drop_first() =~= seq![]);
    match match_position(lines, 0, expected) {
        Some(at) => {
            assert(first_match(lines, 0, expected, at));
            assert(patched_lines(lines, at + expected.len(), hunks.drop_first()) == Some(
                lines.skip(at + expected.len()),
            ));
            assert(lines.subrange(0, at) =~= lines.take(at));
            assert(lines.subrange(at, at + expected.len()) == expected);
            assert forall|i: int| 0 <= i < at implies #[trigger] lines.subrange(
                i,
                i + expected.len(),
            ) != expected by {
                assert(!occurs_at(lines, expected, i));
            }
        },
        None => {
            assert forall|i: int|
                0 <= i <= lines.len() - expected.len() implies #[trigger] lines.subrange(
                i,
                i + expected.len(),
            ) != expected by {
                if lines.subrange(i, i + expected.len()) == expected {
                    assert(occurs_at(lines, expected, i));
                    hunks_are_found_where_they_stand(lines, 0, expected, i);
                }
            }
        },
    }
}

/// Whether lines stand at `i` among others.
pub open spec fn stands_at(lines: Seq<Seq<char>>, expected: Seq<Seq<char>>, i: int) -> bool {
    0 <= i && i + expected.len() <= lines.len() && forall|j: int|
        0 <= j < expected.len() ==> #[trigger] expected[j] == lines[i + j]
}

/// Hunks are applied one behind the other: the first one where its lines first stand at or behind
/// the cursor, then the rest to the lines behind it. Where its lines stand nowhere there, or the
/// rest cannot be applied, the file is not patched.
pub proof fn hunks_are_applied_in_turn(
    lines: Seq<Seq<char>>,
    cursor: int,
    hunks: Seq<Seq<HunkLineView>>,
    at: int,
)
    requires
        0 <= cursor <= lines.len(),
        hunks.len() > 0,
    ensures
        ({
            let expected = sought(hunks[0]);
            &&& cursor <= at && stands_at(lines, expected, at) && (forall|i: int|
                cursor <= i < at ==> !#[trigger] stands_at(lines, expected, i)) ==> (
            match patched_lines(lines, at + expected.len(), hunks.drop_first()) {
                Some(rest) => patched_lines(lines, cursor, hunks) == Some(
                    lines.subrange(cursor, at) + replacement(hunks[0]) + rest,
                ),
                None => patched_lines(lines, cursor, hunks) is None,
            })
            &&& (forall|i: int| cursor <= i ==> !#[trigger] stands_at(lines, expected, i))
                ==> patched_lines(lines, cursor, hunks) is None
        }),
        patched_lines(lines, cursor, seq![]) == Some(lines.skip(cursor)),
{
    let expected = sought(hunks[0]);
    assert forall|i: int| #[trigger] occurs_at(lines, expected, i) == stands_at(
        lines,
        expected,
        i,
    ) by {
        if occurs_at(lines, expected, i) {
            assert forall|j: int| 0 <= j < expected.len() implies #[trigger] expected[j] == lines[i
                + j] by {
                assert(lines.subrange(i, i + expected.len())[j] == lines[i + j]);
            }
        }
        if stands_at(lines, expected, i) {
            assert(lines.subrange(i, i + expected.len()) =~= expected);
        }
    }
    if cursor <= at && stands_at(lines, expected, at) && (forall|i: int|
        cursor <= i < at ==> !#[trigger] stands_at(lines, expected, i)) {
        assert(occurs_at(lines, expected, at));
        assert forall|i: int| cursor <= i < at implies !#[trigger] occurs_at(
            lines,
            expected,
            i,
        ) by {
            assert(!stands_at(lines, expected, i));
        }
        assert(first_match(lines, cursor, expected, at));
        lemma_match_position(lines, cursor, expected, at);
    }
    if forall|i: int| cursor <= i ==> !#[trigger] stands_at(lines, expected, i) {
        if let Some(found) = match_position(lines, cursor, expected) {
            assert(first_match(lines, cursor, expected, found));
            assert(occurs_at(lines, expected, found));
            assert(!stands_at(lines, expected, found));
        }
    }
}

/// A patched file keeps whether it ends in a line break, unless nothing else is left of it, and is
/// otherwise its patched lines, joined by line breaks.
pub proof fn patched_files_keep_their_ending(text: Seq<char>, hunks: Seq<Seq<HunkLineView>>)
    ensures
        match (patched_lines(text_lines(text), 0, hunks), patched_text(text, hunks)) {
            (Some(lines), Some(patched)) => {
                let body = joined(lines, "\n"@);
                &&& text.len() > 0 && text.last() == '\n' && body.len() > 0 ==> patched == body.push(
                    '\n',
                )
                &&& !(text.len() > 0 && text.last() == '\n' && body.len() > 0) ==> patched == body
            },
            (None, None) => true,
            _ => false,
        },
{
}

// The format, written out

/// A line of a hunk as a patch writes it.
pub open spec fn written_line(line: HunkLineView) -> Seq<char> {
    match line {
        HunkLineView::Context(text) => seq![' '] + text,
        HunkLineView::Remove(text) => seq!['-'] + text,
        HunkLineView::Add(text) => seq!['+'] + text,
    }
}

/// A hunk as a patch writes it.
pub open spec fn written_hunk(hunk: Seq<HunkLineView>) -> Seq<Seq<char>> {
    seq!["@@"@] + hunk.map_values(|line: HunkLineView| written_line(line))
}

/// Hunks as a patch writes them.
pub open spec fn written_hunks(hunks: Seq<Seq<HunkLineView>>) -> Seq<Seq<char>>
    decreases hunks.len(),
{
    if hunks.len() == 0 {
        seq![]
    } else {
        written_hunks(hunks.drop_last()) + written_hunk(hunks.last())
    }
}

/// The lines of an operation as a patch writes it, behind its first one.
pub open spec fn written_section(operation: OperationView) -> Seq<Seq<char>> {
    match operation {
        OperationView::Add { lines, .. } => lines.map_values(
            |line: Seq<char>| seq!['+'] + line,
        ),
        OperationView::Delete { .. } => seq![],
        OperationView::Update { hunks, .. } => written_hunks(hunks),
    }
}

/// The first line of an operation as a patch writes it.
pub open spec fn written_header(operation: OperationView) -> Seq<char> {
    match operation {
        OperationView::Add { path, .. } => "*** Add File: "@ + path,
        OperationView::Delete { path } => "*** Delete File: "@ + path,
        OperationView::Update { path, .. } => "*** Update File: "@ + path,
    }
}

/// Operations as a patch writes them, between its first and its last line.
pub open spec fn written_operations(operations: Seq<OperationView>) -> Seq<Seq<char>>
    decreases operations.len(),
{
    if operations.len() == 0 {
        seq![]
    } else {
        seq![written_header(operations[0])] + written_section(operations[0])
            + written_operations(operations.drop_first())
    }
}

/// Whether an operation can be written: an update has hunks, and each hunk has lines.
pub open spec fn writable(operation: OperationView) -> bool {
    operation matches OperationView::Update { hunks, .. } ==> hunks.len() > 0 && forall|i: int|
        0 <= i < hunks.len() ==> (#[trigger] hunks[i]).len() > 0
}

proof fn lemma_written_line(line: HunkLineView)
    ensures
        hunk_line(written_line(line)) == Ok::<HunkLineView, ErrorView>(line),
        !hunk_header(written_line(line)),
        !starred(written_line(line)),
{
    let text = written_line(line);
    reveal_strlit("@@");
    reveal_strlit("@@ ");
    reveal_strlit("*** ");
    assert(text.skip(1) =~= line_text(line));
    assert("@@"@[0] == '@' && "@@ "@[0] == '@' && "*** "@[0] == '*');
    if "@@ "@.is_prefix_of(text) {
        assert(text[0] == "@@ "@[0]);
    }
    if "*** "@.is_prefix_of(text) {
        assert(text[0] == "*** "@[0]);
    }
}

proof fn lemma_gathered_hunk(
    before: Seq<Seq<char>>,
    hunks: Seq<Seq<HunkLineView>>,
    open: Seq<HunkLineView>,
    hunk: Seq<HunkLineView>,
    k: int,
)
    requires
        gathered(before) == Ok::<(Seq<Seq<HunkLineView>>, Seq<HunkLineView>), ErrorView>(
            (hunks, open),
        ),
        0 <= k <= hunk.len(),
    ensures
        gathered(before + written_hunk(hunk).take(k + 1)) == Ok::<
            (Seq<Seq<HunkLineView>>, Seq<HunkLineView>),
            ErrorView,
        >((closed_hunks(hunks, open), hunk.take(k))),
    decreases k,
{
    let written = written_hunk(hunk);
    let section = before + written.take(k + 1);
    assert(section.drop_last() =~= before + written.take(k));
    if k == 0 {
        assert(before + written.take(0) =~= before);
        assert(section.last() == "@@"@);
        assert(hunk.take(0) =~= seq![]);
    } else {
        lemma_gathered_hunk(before, hunks, open, hunk, k - 1);
        lemma_written_line(hunk[k - 1]);
        assert(section.last() == written_line(hunk[k - 1]));
        assert(hunk.take(k - 1).push(hunk[k - 1]) =~= hunk.take(k));
    }
}

proof fn lemma_gathered_hunks(hunks: Seq<Seq<HunkLineView>>)
    requires
        forall|i: int| 0 <= i < hunks.len() ==> (#[trigger] hunks[i]).len() > 0,
    ensures
        hunks.len() == 0 ==> gathered(written_hunks(hunks)) == Ok::<
            (Seq<Seq<HunkLineView>>, Seq<HunkLineView>),
            ErrorView,
        >((seq![], seq![])),
        hunks.len() > 0 ==> gathered(written_hunks(hunks)) == Ok::<
            (Seq<Seq<HunkLineView>>, Seq<HunkLineView>),
            ErrorView,
        >((hunks.drop_last(), hunks.last())),
    decreases hunks.len(),
{
    if hunks.len() > 0 {
        let front = hunks.drop_last();
        let last = hunks.last();
        assert forall|i: int| 0 <= i < front.len() implies (#[trigger] front[i]).len() > 0 by {
            assert(front[i] == hunks[i]);
        }
        lemma_gathered_hunks(front);
        let before = written_hunks(front);
        let written = written_hunk(last);
        assert(written.take(last.len() as int + 1) =~= written);
        assert(last.take(last.len() as int) =~= last);
        if front.len() == 0 {
            lemma_gathered_hunk(before, seq![], seq![], last, last.len() as int);
            assert(front =~= seq![]);
        } else {
            assert(front[front.len() - 1].len() > 0);
            lemma_gathered_hunk(
                before,
                front.drop_last(),
                front.last(),
                last,
                last.len() as int,
            );
            assert(front.drop_last().push(front.last()) =~= front);
        }
    }
}

proof fn lemma_hunks_not_starred(hunks: Seq<Seq<HunkLineView>>, k: int)
    requires
        0 <= k < written_hunks(hunks).len(),
    ensures
        !starred(written_hunks(hunks)[k]),
    decreases hunks.len(),
{
    let front = written_hunks(hunks.drop_last());
    if k < front.len() {
        lemma_hunks_not_starred(hunks.drop_last(), k);
    } else {
        let j = k - front.len();
        reveal_strlit("@@");
        reveal_strlit("*** ");
        assert(written_hunks(hunks)[k] == written_hunk(hunks.last())[j]);
        if j == 0 {
            if "*** "@.is_prefix_of("@@"@) {
                assert("@@"@[0] == "*** "@[0]);
            }
        } else {
            lemma_written_line(hunks.last()[j - 1]);
        }
    }
}

proof fn lemma_written_section(operation: OperationView, k: int)
    requires
        0 <= k < written_section(operation).len(),
    ensures
        !starred(written_section(operation)[k]),
{
    reveal_strlit("*** ");
    match operation {
        OperationView::Add { lines, .. } => {
            let line = written_section(operation)[k];
            assert(line[0] == '+');
            if starred(line) {
                assert(line[0] == "*** "@[0]);
            }
        },
        OperationView::Update { hunks, .. } => {
            lemma_hunks_not_starred(hunks, k);
        },
        _ => {},
    }
}

proof fn lemma_prefix_differs(a: Seq<char>, b: Seq<char>, rest: Seq<char>, i: int)
    requires
        0 <= i < a.len(),
        i < b.len(),
        a[i] != b[i],
    ensures
        !b.is_prefix_of(a + rest),
{
    if b.is_prefix_of(a + rest) {
        assert((a + rest)[i] == b[i]);
    }
}

proof fn lemma_headers(path: Seq<char>)
    ensures
        starred("*** Add File: "@ + path),
        starred("*** Delete File: "@ + path),
        starred("*** Update File: "@ + path),
        !"*** Add File: "@.is_prefix_of("*** Delete File: "@ + path),
        !"*** Add File: "@.is_prefix_of("*** Update File: "@ + path),
        !"*** Delete File: "@.is_prefix_of("*** Update File: "@ + path),
{
    reveal_strlit("*** ");
    reveal_strlit("*** Add File: ");
    reveal_strlit("*** Delete File: ");
    reveal_strlit("*** Update File: ");
    assert(("*** Add File: "@ + path).take(4) =~= "*** "@);
    assert(("*** Delete File: "@ + path).take(4) =~= "*** "@);
    assert(("*** Update File: "@ + path).take(4) =~= "*** "@);
    lemma_prefix_differs("*** Delete File: "@, "*** Add File: "@, path, 4);
    lemma_prefix_differs("*** Update File: "@, "*** Add File: "@, path, 4);
    lemma_prefix_differs("*** Update File: "@, "*** Delete File: "@, path, 4);
}

proof fn lemma_section_of(first: OperationView, more: Seq<Seq<char>>)
    requires
        more.len() == 0 || starred(more[0]),
    ensures
        ({
            let rest = written_section(first) + more;
            let n = section_length(rest) as int;
            &&& rest.take(n) == written_section(first)
            &&& rest.skip(n) == more
        }),
{
    let section = written_section(first);
    let rest = section + more;
    let n = section.len() as int;
    assert forall|i: int| 0 <= i < n implies !starred(#[trigger] rest[i]) by {
        lemma_written_section(first, i);
        assert(rest[i] == section[i]);
    }
    if more.len() > 0 {
        assert(rest[n] == more[0]);
    }
    lemma_section_end(rest, n);
    assert(rest.take(n) =~= section);
    assert(rest.skip(n) =~= more);
}

proof fn lemma_read_add(
    path: Seq<char>,
    lines: Seq<Seq<char>>,
    more: Seq<Seq<char>>,
    others: Seq<OperationView>,
)
    requires
        more.len() == 0 || starred(more[0]),
        body_operations(more) == Ok::<Seq<OperationView>, ErrorView>(others),
    ensures
        body_operations(
            seq!["*** Add File: "@ + path] + (written_section(OperationView::Add { path, lines })
                + more),
        ) == Ok::<Seq<OperationView>, ErrorView>(seq![OperationView::Add { path, lines }] + others),
{
    let first = OperationView::Add { path, lines };
    let section = written_section(first);
    let header = "*** Add File: "@;
    let body = seq![header + path] + (section + more);
    assert(body.drop_first() =~= section + more);
    lemma_section_of(first, more);
    assert((header + path).take(header.len() as int) =~= header);
    assert((header + path).skip(header.len() as int) =~= path);
    reveal_strlit("+");
    assert forall|i: int| 0 <= i < section.len() implies "+"@.is_prefix_of(
        #[trigger] section[i],
    ) by {
        assert(section[i].take(1) =~= "+"@);
    }
    let read = section.map_values(|line: Seq<char>| line.skip("+"@.len() as int));
    assert forall|i: int| 0 <= i < lines.len() implies read[i] == lines[i] by {
        assert((seq!['+'] + lines[i]).skip(1) =~= lines[i]);
    }
    assert(read =~= lines);
    assert(added_lines(section) == Ok::<Seq<Seq<char>>, ErrorView>(lines));
}

proof fn lemma_read_delete(path: Seq<char>, more: Seq<Seq<char>>, others: Seq<OperationView>)
    requires
        body_operations(more) == Ok::<Seq<OperationView>, ErrorView>(others),
    ensures
        body_operations(seq!["*** Delete File: "@ + path] + more) == Ok::<
            Seq<OperationView>,
            ErrorView,
        >(seq![OperationView::Delete { path }] + others),
{
    let header = "*** Delete File: "@;
    let body = seq![header + path] + more;
    assert(body.drop_first() =~= more);
    lemma_headers(path);
    assert((header + path).take(header.len() as int) =~= header);
    assert((header + path).skip(header.len() as int) =~= path);
}

proof fn lemma_read_update(
    path: Seq<char>,
    hunks: Seq<Seq<HunkLineView>>,
    more: Seq<Seq<char>>,
    others: Seq<OperationView>,
)
    requires
        writable(OperationView::Update { path, hunks }),
        more.len() == 0 || starred(more[0]),
        body_operations(more) == Ok::<Seq<OperationView>, ErrorView>(others),
    ensures
        body_operations(
            seq!["*** Update File: "@ + path] + (written_hunks(hunks) + more),
        ) == Ok::<Seq<OperationView>, ErrorView>(
            seq![OperationView::Update { path, hunks }] + others,
        ),
{
    let first = OperationView::Update { path, hunks };
    let section = written_section(first);
    let header = "*** Update File: "@;
    let body = seq![header + path] + (section + more);
    assert(body.drop_first() =~= section + more);
    lemma_section_of(first, more);
    lemma_headers(path);
    assert((header + path).take(header.len() as int) =~= header);
    assert((header + path).skip(header.len() as int) =~= path);
    lemma_gathered_hunks(hunks);
    assert(hunks[hunks.len() - 1].len() > 0);
    assert(hunks.drop_last().push(hunks.last()) =~= hunks);
    assert(section_hunks(section) == Ok::<Seq<Seq<HunkLineView>>, ErrorView>(hunks));
}

/// What is written in the format of patches is read back: the operations in order, each with its
/// path, and every line of it unchanged.
pub proof fn written_operations_are_read_back(operations: Seq<OperationView>)
    requires
        forall|i: int| 0 <= i < operations.len() ==> writable(#[trigger] operations[i]),
    ensures
        body_operations(written_operations(operations)) == Ok::<Seq<OperationView>, ErrorView>(
            operations,
        ),
    decreases operations.len(),
{
    if operations.len() == 0 {
        assert(operations =~= seq![]);
    } else {
        let first = operations[0];
        let others = operations.drop_first();
        assert forall|i: int| 0 <= i < others.len() implies writable(#[trigger] others[i]) by {
            assert(others[i] == operations[i + 1]);
        }
        written_operations_are_read_back(others);
        let body = written_operations(operations);
        let section = written_section(first);
        let more = written_operations(others);
        assert(body =~= seq![written_header(first)] + (section + more));
        if others.len() > 0 {
            assert(more[0] == written_header(others[0]));
            lemma_headers(others[0].path());
        }
        assert(seq![first] + others =~= operations);
        match first {
            OperationView::Add { path, lines } => {
                lemma_read_add(path, lines, more, others);
            },
            OperationView::Delete { path } => {
                assert(section + more =~= more);
                lemma_read_delete(path, more, others);
            },
            OperationView::Update { path, hunks } => {
                lemma_read_update(path, hunks, more, others);
            },
        }
    }
}

/// A whole patch as text.
pub open spec fn written_patch(operations: Seq<OperationView>) -> Seq<char> {
    file_text(
        seq!["*** Begin Patch"@] + written_operations(operations) + seq!["*** End Patch"@],
    )
}

/// A patch that is written in the documented format is read back as its operations.
pub proof fn written_patches_are_read_back(operations: Seq<OperationView>)
    requires
        forall|i: int| 0 <= i < operations.len() ==> writable(#[trigger] operations[i]),
        forall|i: int|
            0 <= i < written_operations(operations).len() ==> plain_line(
                #[trigger] written_operations(operations)[i],
            ),
    ensures
        patch_operations(written_patch(operations)) == Ok::<Seq<OperationView>, ErrorView>(
            operations,
        ),
{
    let body = written_operations(operations);
    let lines = seq!["*** Begin Patch"@] + body + seq!["*** End Patch"@];
    reveal_strlit("*** Begin Patch");
    reveal_strlit("*** End Patch");
    assert forall|i: int| 0 <= i < lines.len() implies plain_line(#[trigger] lines[i]) by {
        if 0 < i < lines.len() - 1 {
            assert(lines[i] == body[i - 1]);
        }
    }
    added_files_read_back(lines);
    written_operations_are_read_back(operations);
    assert(lines.subrange(1, lines.len() - 1) =~= body);
}

/// A patch without its first or its last line is refused, whatever stands between.
pub proof fn unframed_patches_are_refused(patch: Seq<char>)
    requires
        text_lines(patch).len() == 0 || text_lines(patch)[0] != "*** Begin Patch"@ || text_lines(
            patch,
        ).last() != "*** End Patch"@,
    ensures
        patch_operations(patch) is Err,
{
}

/// A line of a hunk is taken exactly where it carries one of the three marks, and then by its mark;
/// a line of an added file exactly where it carries the mark of additions.
pub proof fn lines_are_taken_by_their_marks(line: Seq<char>, section: Seq<Seq<char>>)
    ensures
        hunk_line(line) is Ok <==> line.len() > 0 && (line[0] == ' ' || line[0] == '-' || line[0]
            == '+'),
        hunk_line(line) matches Ok(read) ==> {
            &&& line_text(read) == line.skip(1)
            &&& (read is Context) == (line[0] == ' ')
            &&& (read is Remove) == (line[0] == '-')
            &&& (read is Add) == (line[0] == '+')
        },
        added_lines(section) is Ok <==> forall|i: int|
            0 <= i < section.len() ==> (#[trigger] section[i]).len() > 0 && section[i][0] == '+',
        added_lines(section) matches Ok(lines) ==> lines.len() == section.len() && forall|i: int|
            0 <= i < section.len() ==> #[trigger] lines[i] == section[i].skip(1),
{
    reveal_strlit("+");
    assert forall|i: int| 0 <= i < section.len() implies "+"@.is_prefix_of(#[trigger] section[i])
        == (section[i].len() > 0 && section[i][0] == '+') by {
        if section[i].len() > 0 && section[i][0] == '+' {
            assert(section[i].take(1) =~= "+"@);
        }
        if "+"@.is_prefix_of(section[i]) {
            assert(section[i][0] == "+"@[0]);
        }
    }
}

/// A patch is read operation by operation: a section goes on to the next line that begins with
/// stars, blank lines between operations are passed over, and any other line there is refused.
pub proof fn operations_are_read_in_turn(line: Seq<char>, rest: Seq<Seq<char>>, n: int)
    requires
        0 <= n <= rest.len(),
        forall|i: int| 0 <= i < n ==> !"*** "@.is_prefix_of(#[trigger] rest[i]),
        n == rest.len() || "*** "@.is_prefix_of(rest[n]),
    ensures
        ({
            let body = seq![line] + rest;
            let adds = "*** Add File: "@.is_prefix_of(line);
            let deletes = "*** Delete File: "@.is_prefix_of(line);
            let updates = "*** Update File: "@.is_prefix_of(line);
            &&& adds ==> (match (added_lines(rest.take(n)), body_operations(rest.skip(n))) {
                (Ok(lines), Ok(more)) => body_operations(body) == Ok::<
                    Seq<OperationView>,
                    ErrorView,
                >(seq![OperationView::Add { path: line.skip(14), lines }] + more),
                _ => body_operations(body) is Err,
            })
            &&& deletes ==> (match body_operations(rest) {
                Ok(more) => body_operations(body) == Ok::<Seq<OperationView>, ErrorView>(
                    seq![OperationView::Delete { path: line.skip(17) }] + more,
                ),
                _ => body_operations(body) is Err,
            })
            &&& updates ==> (match (section_hunks(rest.take(n)), body_operations(rest.skip(n))) {
                (Ok(hunks), Ok(more)) => body_operations(body) == Ok::<
                    Seq<OperationView>,
                    ErrorView,
                >(seq![OperationView::Update { path: line.skip(17), hunks }] + more),
                _ => body_operations(body) is Err,
            })
            &&& !adds && !deletes && !updates && blank(line) ==> body_operations(body)
                == body_operations(rest)
            &&& !adds && !deletes && !updates && !blank(line) ==> body_operations(body) == Err::<
                Seq<OperationView>,
                ErrorView,
            >(ErrorView::Tool("unsupported patch operation `"@ + line + "`"@))
        }),
        body_operations(seq![]) == Ok::<Seq<OperationView>, ErrorView>(seq![]),
{
    let body = seq![line] + rest;
    assert(body[0] == line);
    assert(body.drop_first() =~= rest);
    lemma_section_end(rest, n);
    reveal_strlit("*** Add File: ");
    reveal_strlit("*** Delete File: ");
    reveal_strlit("*** Update File: ");
    if "*** Add File: "@.is_prefix_of(line) {
        assert(line[4] == "*** Add File: "@[4]);
        assert(!"*** Delete File: "@.is_prefix_of(line)) by {
            if "*** Delete File: "@.is_prefix_of(line) {
                assert(line[4] == "*** Delete File: "@[4]);
            }
        }
        assert(!"*** Update File: "@.is_prefix_of(line)) by {
            if "*** Update File: "@.is_prefix_of(line) {
                assert(line[4] == "*** Update File: "@[4]);
            }
        }
    } else if "*** Delete File: "@.is_prefix_of(line) {
        assert(line[4] == "*** Delete File: "@[4]);
        if "*** Update File: "@.is_prefix_of(line) {
            assert(line[4] == "*** Update File: "@[4]);
        }
    }
}

/// The hunks of an update are parted by lines that begin with two at signs; a part without lines
/// is no hunk, a first hunk may stand without such a line, and an update has to have one.
pub proof fn hunks_are_parted_by_their_headers(section: Seq<Seq<char>>, line: Seq<char>)
    ensures
        gathered(seq![]) == Ok::<(Seq<Seq<HunkLineView>>, Seq<HunkLineView>), ErrorView>(
            (seq![], seq![]),
        ),
        gathered(section) matches Ok((hunks, open)) ==> {
            let header = line == "@@"@ || "@@ "@.is_prefix_of(line);
            let whole = if open.len() > 0 {
                hunks.push(open)
            } else {
                hunks
            };
            &&& header ==> gathered(section.push(line)) == Ok::<
                (Seq<Seq<HunkLineView>>, Seq<HunkLineView>),
                ErrorView,
            >((whole, seq![]))
            &&& !header ==> (match hunk_line(line) {
                Ok(read) => gathered(section.push(line)) == Ok::<
                    (Seq<Seq<HunkLineView>>, Seq<HunkLineView>),
                    ErrorView,
                >((hunks, open.push(read))),
                Err(_) => gathered(section.push(line)) is Err,
            })
            &&& whole.len() > 0 ==> section_hunks(section) == Ok::<
                Seq<Seq<HunkLineView>>,
                ErrorView,
            >(whole)
            &&& whole.len() == 0 ==> section_hunks(section) == Err::<
                Seq<Seq<HunkLineView>>,
                ErrorView,
            >(ErrorView::Tool("update file contained no hunks"@))
        },
        gathered(section) is Err ==> section_hunks(section) is Err && gathered(section.push(line))
            is Err,
{
    assert(section.push(line).drop_last() =~= section);
}

} // verus!
