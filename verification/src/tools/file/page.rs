//! Reading a file page by page.

use vstd::prelude::*;

use crate::common::{chars_of, view_of};
use crate::error::{tool_error, Error, ErrorView};
use crate::text::{slice_text, to_chars};

verus! {

/// The most lines that one page holds.
pub const READ_MAX_LINES: usize = 100;

/// The most characters that one page holds.
pub const READ_MAX_CHARS: usize = 10_000;

/// What follows a page where the file goes on.
pub const READ_TRUNCATION_NOTICE: &'static str = "\n\n[Read truncated: more content is available. Continue with line-offset or character-offset; each read is capped at 100 lines or 10,000 characters.]";

/// Reads one page of a file, line by line.
pub struct PageReader {
    skip_lines: usize,
    skip_chars: usize,
    max_lines: usize,
    max_chars: usize,
    lines: usize,
    chars: usize,
    output: String,
}

/// What a [`PageReader`] needs next.
#[derive(Debug, PartialEq, Eq)]
pub enum PageStep {
    /// The next line of the file, or its end.
    ReadLine,
    /// Whether the file goes on.
    Probe,
    /// Nothing: this is the page.
    Done(String),
}

/// The model of a [`PageReader`].
pub struct PageView {
    pub skip_lines: nat,
    pub skip_chars: nat,
    pub max_lines: nat,
    pub max_chars: nat,
    pub lines: nat,
    pub output: Seq<char>,
}

/// What a page reader has come to.
pub enum PageStepView {
    ReadLine(PageView),
    Probe(PageView),
    Done(Seq<char>),
}

/// A requested count, or the default, at most `most`.
pub open spec fn clamped(requested: Option<usize>, most: usize) -> nat {
    match requested {
        Some(n) => if n < most {
            n as nat
        } else {
            most as nat
        },
        None => most as nat,
    }
}

/// A requested offset.
pub open spec fn offset_of(requested: Option<usize>) -> nat {
    match requested {
        Some(n) => n as nat,
        None => 0,
    }
}

/// A reader that has shown nothing yet.
pub open spec fn page_start(
    line_offset: nat,
    character_offset: nat,
    max_lines: nat,
    max_chars: nat,
) -> PageView {
    PageView {
        skip_lines: line_offset,
        skip_chars: character_offset,
        max_lines,
        max_chars,
        lines: 0,
        output: seq![],
    }
}

/// A page with the notice that the file goes on.
pub open spec fn marked(text: Seq<char>) -> Seq<char> {
    text + READ_TRUNCATION_NOTICE@
}

/// A reader after a line that is shown.
pub open spec fn line_shown(v: PageView, line: Seq<char>) -> PageStepView {
    let room = v.max_chars - v.output.len();
    if line.len() > room {
        PageStepView::Done(marked(v.output + line.take(room)))
    } else {
        let after = PageView { output: v.output + line, lines: v.lines + 1, ..v };
        if after.lines == v.max_lines || after.output.len() == v.max_chars {
            PageStepView::Probe(after)
        } else {
            PageStepView::ReadLine(after)
        }
    }
}

/// A reader after a line, or the end of the file.
pub open spec fn page_step(v: PageView, line: Option<Seq<char>>) -> PageStepView {
    match line {
        None => PageStepView::Done(v.output),
        Some(line) => if v.skip_lines > 0 {
            PageStepView::ReadLine(PageView { skip_lines: (v.skip_lines - 1) as nat, ..v })
        } else if v.skip_chars >= line.len() {
            PageStepView::ReadLine(
                PageView { skip_chars: (v.skip_chars - line.len()) as nat, ..v },
            )
        } else {
            line_shown(PageView { skip_chars: 0, ..v }, line.skip(v.skip_chars as int))
        },
    }
}

impl View for PageReader {
    type V = PageView;

    closed spec fn view(&self) -> PageView {
        PageView {
            skip_lines: self.skip_lines as nat,
            skip_chars: self.skip_chars as nat,
            max_lines: self.max_lines as nat,
            max_chars: self.max_chars as nat,
            lines: self.lines as nat,
            output: self.output@,
        }
    }
}

impl PageReader {
    /// There is room for more, and the counters count.
    pub closed spec fn wf(&self) -> bool {
        &&& self.chars == self.output@.len()
        &&& self.chars < self.max_chars
        &&& self.lines < self.max_lines
    }

    /// A reader for the requested part of a file. No count may be zero.
    pub fn new(
        line_offset: Option<usize>,
        character_offset: Option<usize>,
        line_count: Option<usize>,
        character_count: Option<usize>,
    ) -> (r: Result<Self, Error>)
        ensures
            match r {
                Ok(reader) => {
                    &&& line_count != Some(0usize)
                    &&& character_count != Some(0usize)
                    &&& reader.wf()
                    &&& reader@ == page_start(
                        offset_of(line_offset),
                        offset_of(character_offset),
                        clamped(line_count, READ_MAX_LINES),
                        clamped(character_count, READ_MAX_CHARS),
                    )
                },
                Err(e) => {
                    &&& line_count == Some(0usize) || character_count == Some(0usize)
                    &&& e@ == ErrorView::Tool(
                        "line-count and character-count must be positive when provided"@,
                    )
                },
            },
    {
        let max_lines: usize = clamp(line_count, READ_MAX_LINES);
        let max_chars: usize = clamp(character_count, READ_MAX_CHARS);
        if max_lines == 0 || max_chars == 0 {
            return Err(tool_error("line-count and character-count must be positive when provided"));
        }
        let output = String::new();
        assert(output@ =~= seq![]);
        Ok(
            PageReader {
                skip_lines: line_offset.unwrap_or(0),
                skip_chars: character_offset.unwrap_or(0),
                max_lines,
                max_chars,
                lines: 0,
                chars: 0,
                output,
            },
        )
    }

    /// Go on with the next line of the file, its line break included, or with the file's end.
    pub fn on_line(&mut self, line: Option<String>) -> (step: PageStep)
        requires
            old(self).wf(),
            line matches Some(text) ==> text@.len() > 0,
        ensures
            match page_step(old(self)@, view_of(line)) {
                PageStepView::ReadLine(v) => step is ReadLine && final(self)@ == v && final(
                    self
                ).wf(),
                PageStepView::Probe(v) => step is Probe && final(self)@ == v,
                PageStepView::Done(text) => step is Done && step->0@ == text,
            },
    {
        let line = match line {
            Some(line) => line,
            None => {
                return PageStep::Done(self.output.clone());
            },
        };
        if self.skip_lines > 0 {
            self.skip_lines = self.skip_lines - 1;
            return PageStep::ReadLine;
        }
        let length: usize = chars_of(line.as_str());
        if self.skip_chars >= length {
            self.skip_chars = self.skip_chars - length;
            return PageStep::ReadLine;
        }
        let chars = to_chars(line.as_str());
        let ghost shown = line@.skip(self.skip_chars as int);
        let room: usize = self.max_chars - self.chars;
        let rest: usize = length - self.skip_chars;
        if rest > room {
            let mut page = self.output.clone();
            let cut = slice_text(&chars, self.skip_chars, self.skip_chars + room);
            proof {
                assert(cut@ =~= shown.take(room as int));
            }
            page.append(cut.as_str());
            page.append(READ_TRUNCATION_NOTICE);
            return PageStep::Done(page);
        }
        let text = slice_text(&chars, self.skip_chars, length);
        proof {
            assert(text@ =~= shown);
        }
        self.output.append(text.as_str());
        self.skip_chars = 0;
        self.chars = self.chars + rest;
        self.lines = self.lines + 1;
        if self.lines == self.max_lines || self.chars == self.max_chars {
            PageStep::Probe
        } else {
            PageStep::ReadLine
        }
    }

    /// The page, once it is known whether the file goes on.
    pub fn on_probe(&self, more: bool) -> (page: String)
        ensures
            page@ == if more {
                marked(self@.output)
            } else {
                self@.output
            },
    {
        let mut page = self.output.clone();
        if more {
            page.append(READ_TRUNCATION_NOTICE);
        }
        page
    }
}

fn clamp(requested: Option<usize>, most: usize) -> (n: usize)
    ensures
        n == clamped(requested, most),
{
    match requested {
        Some(n) => if n < most {
            n
        } else {
            most
        },
        None => most,
    }
}

// ---------------------------------------------------------------------------------------------
// Laws
// ---------------------------------------------------------------------------------------------

/// The text of a file, from its lines.
pub open spec fn whole(lines: Seq<Seq<char>>) -> Seq<char>
    decreases lines.len(),
{
    if lines.len() == 0 {
        seq![]
    } else {
        lines[0] + whole(lines.drop_first())
    }
}

/// What a reader shows of a file whose remaining lines are `lines`.
pub open spec fn page_run(v: PageView, lines: Seq<Seq<char>>) -> Seq<char>
    decreases lines.len(),
{
    if lines.len() == 0 {
        page_step(v, None)->Done_0
    } else {
        match page_step(v, Some(lines[0])) {
            PageStepView::ReadLine(after) => page_run(after, lines.drop_first()),
            PageStepView::Probe(after) => if lines.len() > 1 {
                marked(after.output)
            } else {
                after.output
            },
            PageStepView::Done(page) => page,
        }
    }
}

/// The smaller of two numbers.
pub open spec fn smaller(a: nat, b: nat) -> nat {
    if a < b {
        a
    } else {
        b
    }
}

/// `lines` without the first `n` characters.
pub open spec fn without_chars(lines: Seq<Seq<char>>, n: nat) -> Seq<Seq<char>>
    decreases lines.len(),
{
    if lines.len() == 0 {
        lines
    } else if n >= lines[0].len() {
        without_chars(lines.drop_first(), (n - lines[0].len()) as nat)
    } else {
        seq![lines[0].skip(n as int)] + lines.drop_first()
    }
}

/// How many characters of `lines` fit on a page.
pub open spec fn page_length(lines: Seq<Seq<char>>, max_lines: nat, max_chars: nat) -> nat {
    smaller(max_chars, whole(lines.take(smaller(max_lines, lines.len()) as int)).len())
}

/// The page that begins with `lines`: what fits, with a notice where that is not all.
pub open spec fn page(lines: Seq<Seq<char>>, max_lines: nat, max_chars: nat) -> Seq<char> {
    let fits = page_length(lines, max_lines, max_chars);
    if fits < whole(lines).len() {
        marked(whole(lines).take(fits as int))
    } else {
        whole(lines)
    }
}

/// No line of a file is empty: each ends with its line break, but for the last.
pub open spec fn file_lines(lines: Seq<Seq<char>>) -> bool {
    forall|i: int| 0 <= i < lines.len() ==> (#[trigger] lines[i]).len() > 0
}

proof fn lemma_file_lines_rest(lines: Seq<Seq<char>>)
    requires
        file_lines(lines),
        lines.len() > 0,
    ensures
        file_lines(lines.drop_first()),
        lines[0].len() > 0,
{
    let rest = lines.drop_first();
    assert forall|i: int| 0 <= i < rest.len() implies (#[trigger] rest[i]).len() > 0 by {
        assert(rest[i] == lines[i + 1]);
    }
}

proof fn lemma_page_first(lines: Seq<Seq<char>>, max_lines: nat, max_chars: nat)
    requires
        lines.len() > 0,
        max_lines > 0,
        lines[0].len() <= max_chars,
    ensures
        page_length(lines, max_lines, max_chars) == lines[0].len() + page_length(
            lines.drop_first(),
            (max_lines - 1) as nat,
            (max_chars - lines[0].len()) as nat,
        ),
        page(lines, max_lines, max_chars) == lines[0] + page(
            lines.drop_first(),
            (max_lines - 1) as nat,
            (max_chars - lines[0].len()) as nat,
        ),
{
    let rest = lines.drop_first();
    let k = smaller(max_lines, lines.len()) as int;
    let shown = lines.take(k);
    assert(k == 1 + smaller((max_lines - 1) as nat, rest.len()));
    assert(shown.drop_first() =~= rest.take(k - 1));
    assert(shown[0] == lines[0]);
    assert(whole(shown) == lines[0] + whole(rest.take(k - 1)));
    let fits = page_length(lines, max_lines, max_chars);
    let fits_rest = page_length(
        rest,
        (max_lines - 1) as nat,
        (max_chars - lines[0].len()) as nat,
    );
    assert(fits == lines[0].len() + fits_rest);
    lemma_whole_take(rest, k - 1);
    if fits < whole(lines).len() {
        assert(whole(lines).take(fits as int) =~= lines[0] + whole(rest).take(fits_rest as int));
        assert(marked(whole(lines).take(fits as int)) =~= lines[0] + marked(
            whole(rest).take(fits_rest as int),
        ));
    }
}

proof fn lemma_whole_take(lines: Seq<Seq<char>>, k: int)
    requires
        0 <= k <= lines.len(),
    ensures
        whole(lines.take(k)).len() <= whole(lines).len(),
    decreases lines.len(),
{
    if k > 0 {
        assert(lines.take(k).drop_first() =~= lines.drop_first().take(k - 1));
        lemma_whole_take(lines.drop_first(), k - 1);
    }
}

proof fn lemma_page_empty(max_lines: nat, max_chars: nat)
    ensures
        page(seq![], max_lines, max_chars) == Seq::<char>::empty(),
{
    let none = Seq::<Seq<char>>::empty();
    assert(none.take(0) =~= none);
    assert(whole(none).len() == 0);
}

proof fn lemma_run_shown(v: PageView, lines: Seq<Seq<char>>)
    requires
        file_lines(lines),
        v.skip_lines == 0,
        v.skip_chars == 0,
        v.lines < v.max_lines,
        v.output.len() < v.max_chars,
    ensures
        page_run(v, lines) == v.output + page(
            lines,
            (v.max_lines - v.lines) as nat,
            (v.max_chars - v.output.len()) as nat,
        ),
    decreases lines.len(),
{
    let more_lines = (v.max_lines - v.lines) as nat;
    let room = (v.max_chars - v.output.len()) as nat;
    if lines.len() == 0 {
        assert(lines =~= seq![]);
        lemma_page_empty(more_lines, room);
        assert(v.output + Seq::<char>::empty() =~= v.output);
    } else {
        lemma_file_lines_rest(lines);
        let line = lines[0];
        let rest = lines.drop_first();
        assert(line.skip(0) =~= line);
        assert(PageView { skip_chars: 0, ..v } == v);
        if line.len() > room {
            let k = smaller(more_lines, lines.len()) as int;
            assert(lines.take(k)[0] == line);
            assert(whole(lines.take(k)).len() >= line.len());
            assert(whole(lines).take(room as int) =~= line.take(room as int));
            assert(marked(v.output + line.take(room as int)) =~= v.output + marked(
                line.take(room as int),
            ));
        } else {
            lemma_page_first(lines, more_lines, room);
            let after = PageView { output: v.output + line, lines: v.lines + 1, ..v };
            let less = (room - line.len()) as nat;
            if after.lines == v.max_lines || after.output.len() == v.max_chars {
                let shown = rest.take(smaller((more_lines - 1) as nat, rest.len()) as int);
                if more_lines == 1 {
                    assert(shown =~= seq![]);
                    assert(whole(shown).len() == 0);
                }
                assert(page_length(rest, (more_lines - 1) as nat, less) == 0);
                if rest.len() > 0 {
                    lemma_file_lines_rest(rest);
                    assert(whole(rest).len() > 0);
                    assert(whole(rest).take(0) =~= seq![]);
                    assert(marked(v.output + line) =~= v.output + (line + marked(
                        whole(rest).take(0),
                    )));
                } else {
                    assert(whole(rest) =~= seq![]);
                    assert(v.output + line =~= v.output + (line + whole(rest)));
                }
            } else {
                lemma_run_shown(after, rest);
                assert((v.output + line) + page(rest, (more_lines - 1) as nat, less) =~= v.output
                    + (line + page(rest, (more_lines - 1) as nat, less)));
            }
        }
    }
}

proof fn lemma_run_chars(v: PageView, lines: Seq<Seq<char>>)
    requires
        file_lines(lines),
        v.skip_lines == 0,
        v.lines == 0,
        v.output.len() == 0,
        v.max_lines > 0,
        v.max_chars > 0,
    ensures
        page_run(v, lines) == page(without_chars(lines, v.skip_chars), v.max_lines, v.max_chars),
    decreases lines.len(),
{
    if lines.len() == 0 {
        assert(lines =~= seq![]);
        lemma_page_empty(v.max_lines, v.max_chars);
        assert(v.output =~= seq![]);
    } else {
        lemma_file_lines_rest(lines);
        let rest = lines.drop_first();
        if v.skip_chars >= lines[0].len() {
            lemma_run_chars(
                PageView { skip_chars: (v.skip_chars - lines[0].len()) as nat, ..v },
                rest,
            );
        } else {
            let cut = seq![lines[0].skip(v.skip_chars as int)] + rest;
            let plain = PageView { skip_chars: 0, ..v };
            assert(cut.drop_first() =~= rest);
            assert forall|i: int| 0 <= i < cut.len() implies (#[trigger] cut[i]).len() > 0 by {
                if i > 0 {
                    assert(cut[i] == rest[i - 1]);
                }
            }
            assert(cut[0].skip(0) =~= cut[0]);
            assert(page_run(v, lines) == page_run(plain, cut));
            lemma_run_shown(plain, cut);
            assert(plain.output + page(cut, v.max_lines, v.max_chars) =~= page(
                cut,
                v.max_lines,
                v.max_chars,
            ));
        }
    }
}

/// A reader shows the page that begins behind the requested lines and characters.
pub proof fn pages_begin_at_their_offsets(
    lines: Seq<Seq<char>>,
    line_offset: nat,
    character_offset: nat,
    max_lines: nat,
    max_chars: nat,
)
    requires
        file_lines(lines),
        max_lines > 0,
        max_chars > 0,
    ensures
        page_run(page_start(line_offset, character_offset, max_lines, max_chars), lines) == page(
            without_chars(
                lines.skip(smaller(line_offset, lines.len()) as int),
                character_offset,
            ),
            max_lines,
            max_chars,
        ),
    decreases lines.len(),
{
    let v = page_start(line_offset, character_offset, max_lines, max_chars);
    if line_offset == 0 || lines.len() == 0 {
        assert(lines.skip(0) =~= lines);
        if lines.len() == 0 {
            assert(lines =~= seq![]);
            lemma_page_empty(max_lines, max_chars);
        } else {
            lemma_run_chars(v, lines);
        }
    } else {
        lemma_file_lines_rest(lines);
        let rest = lines.drop_first();
        pages_begin_at_their_offsets(
            rest,
            (line_offset - 1) as nat,
            character_offset,
            max_lines,
            max_chars,
        );
        assert(rest.skip(smaller((line_offset - 1) as nat, rest.len()) as int) =~= lines.skip(
            smaller(line_offset, lines.len()) as int,
        ));
    }
}

/// Character offsets count the characters of the text, line breaks included.
pub proof fn character_offsets_count_characters(lines: Seq<Seq<char>>, n: nat)
    ensures
        whole(without_chars(lines, n)) == whole(lines).skip(
            smaller(n, whole(lines).len()) as int,
        ),
    decreases lines.len(),
{
    if lines.len() > 0 {
        let rest = lines.drop_first();
        if n >= lines[0].len() {
            let m = (n - lines[0].len()) as nat;
            character_offsets_count_characters(rest, m);
            assert(whole(lines).skip(smaller(n, whole(lines).len()) as int) =~= whole(rest).skip(
                smaller(m, whole(rest).len()) as int,
            ));
        } else {
            let cut = seq![lines[0].skip(n as int)] + rest;
            assert(cut.drop_first() =~= rest);
            assert(whole(lines).skip(n as int) =~= lines[0].skip(n as int) + whole(rest));
        }
    } else {
        assert(whole(lines).skip(0) =~= whole(lines));
    }
}

/// A page never holds more characters, nor more lines, than were asked for; and what is left out
/// begins where the page ends.
pub proof fn pages_are_bounded(lines: Seq<Seq<char>>, max_lines: nat, max_chars: nat)
    ensures
        page_length(lines, max_lines, max_chars) <= max_chars,
        page_length(lines, max_lines, max_chars) <= whole(
            lines.take(smaller(max_lines, lines.len()) as int),
        ).len() <= whole(lines).len(),
        whole(without_chars(lines, page_length(lines, max_lines, max_chars))) == whole(lines).skip(
            page_length(lines, max_lines, max_chars) as int,
        ),
{
    lemma_whole_take(lines, smaller(max_lines, lines.len()) as int);
    character_offsets_count_characters(lines, page_length(lines, max_lines, max_chars));
}

} // verus!
