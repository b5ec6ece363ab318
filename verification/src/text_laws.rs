//! What holds of texts as they are trimmed, split into lines, joined, replaced and written as
//! numbers.

use vstd::prelude::*;

use crate::text::{ascii_lower, blank, decimal, digit, joined, lemma_first_position_unique};
use crate::text::{occurs, occurs_at, replaced, text_lines, trimmed, trimmed_end, trimmed_start};
use crate::text::white_space;
use crate::tools::compact::preview_view;

verus! {

// ---------------------------------------------------------------------------------------------
// Trimming
// ---------------------------------------------------------------------------------------------

proof fn lemma_trimmed_start(s: Seq<char>)
    ensures
        exists|n: int|
            #![trigger s.skip(n)]
            0 <= n <= s.len() && trimmed_start(s) == s.skip(n) && blank(s.take(n)),
        trimmed_start(s).len() > 0 ==> !white_space(trimmed_start(s)[0]),
    decreases s.len(),
{
    if s.len() > 0 && white_space(s[0]) {
        let rest = s.drop_first();
        lemma_trimmed_start(rest);
        let n = choose|n: int|
            #![trigger rest.skip(n)]
            0 <= n <= rest.len() && trimmed_start(rest) == rest.skip(n) && blank(rest.take(n));
        assert(s.skip(n + 1) =~= rest.skip(n));
        assert forall|i: int| 0 <= i < s.take(n + 1).len() implies white_space(
            #[trigger] s.take(n + 1)[i],
        ) by {
            if i > 0 {
                assert(rest.take(n)[i - 1] == s.take(n + 1)[i]);
            }
        }
    } else {
        assert(s.skip(0) =~= s);
        assert(blank(s.take(0)));
    }
}

proof fn lemma_trimmed_end(s: Seq<char>)
    ensures
        exists|n: int|
            #![trigger s.take(n)]
            0 <= n <= s.len() && trimmed_end(s) == s.take(n) && blank(s.skip(n)),
        trimmed_end(s).len() > 0 ==> !white_space(trimmed_end(s).last()),
    decreases s.len(),
{
    if s.len() > 0 && white_space(s.last()) {
        let rest = s.drop_last();
        lemma_trimmed_end(rest);
        let n = choose|n: int|
            #![trigger rest.take(n)]
            0 <= n <= rest.len() && trimmed_end(rest) == rest.take(n) && blank(rest.skip(n));
        assert(s.take(n) =~= rest.take(n));
        assert forall|i: int| 0 <= i < s.skip(n).len() implies white_space(
            #[trigger] s.skip(n)[i],
        ) by {
            if i < rest.skip(n).len() {
                assert(rest.skip(n)[i] == s.skip(n)[i]);
            }
        }
    } else {
        assert(s.take(s.len() as int) =~= s);
        assert(blank(s.skip(s.len() as int)));
    }
}

/// Trimming takes away white space at both ends, all of it and nothing else.
pub proof fn trimming_takes_the_white_space(s: Seq<char>)
    ensures
        exists|a: Seq<char>, b: Seq<char>|
            s == #[trigger] (a + trimmed(s) + b) && blank(a) && blank(b),
        trimmed(s).len() > 0 ==> !white_space(trimmed(s)[0]) && !white_space(trimmed(s).last()),
{
    lemma_trimmed_start(s);
    let n = choose|n: int|
        #![trigger s.skip(n)]
        0 <= n <= s.len() && trimmed_start(s) == s.skip(n) && blank(s.take(n));
    let t = trimmed_start(s);
    lemma_trimmed_end(t);
    let m = choose|m: int|
        #![trigger t.take(m)]
        0 <= m <= t.len() && trimmed_end(t) == t.take(m) && blank(t.skip(m));
    let a = s.take(n);
    let b = t.skip(m);
    assert(s =~= a + trimmed(s) + b);
    if trimmed(s).len() > 0 {
        assert(trimmed(s)[0] == t[0]);
    }
}

// ---------------------------------------------------------------------------------------------
// Lines
// ---------------------------------------------------------------------------------------------

/// A text of lines, each ended by a line feed.
pub open spec fn ended_lines(lines: Seq<Seq<char>>) -> Seq<char>
    decreases lines.len(),
{
    if lines.len() == 0 {
        seq![]
    } else {
        lines[0].push('\n') + ended_lines(lines.drop_first())
    }
}

/// Lines are split at line feeds, which are no part of them, and a carriage return before one is
/// none either; what stands behind the last line feed is a line where there is anything.
pub proof fn lines_are_split_at_their_ends(line: Seq<char>, rest: Seq<char>)
    requires
        !line.contains('\n'),
    ensures
        line.len() == 0 || line.last() != '\r' ==> text_lines(line.push('\n') + rest) == seq![line]
            + text_lines(rest),
        text_lines(line.push('\r').push('\n') + rest) == seq![line] + text_lines(rest),
        line.len() > 0 ==> text_lines(line) == seq![line],
        text_lines(seq![]).len() == 0,
{
    lemma_split(line, rest);
    let returned = line.push('\r');
    assert forall|c: char| returned.contains(c) implies c == '\r' || line.contains(c) by {
        let i = choose|i: int| 0 <= i < returned.len() && returned[i] == c;
        if i < line.len() {
            assert(line[i] == c);
        }
    }
    lemma_split(returned, rest);
    assert(returned.drop_last() =~= line);
    if line.len() > 0 {
        lemma_whole(line);
    }
}

proof fn lemma_split(line: Seq<char>, rest: Seq<char>)
    requires
        !line.contains('\n'),
    ensures
        text_lines(line.push('\n') + rest) == seq![crate::text::without_final_return(line)]
            + text_lines(rest),
{
    let s = line.push('\n') + rest;
    let n = line.len() as int;
    assert(s[n] == '\n');
    assert forall|i: int| 0 <= i < n implies s[i] != '\n' by {
        assert(s[i] == line[i]);
        assert(line.contains(line[i]));
    }
    lemma_first_position_unique(s, '\n', n);
    assert(s.take(n) =~= line);
    assert(s.skip(n + 1) =~= rest);
}

proof fn lemma_whole(line: Seq<char>)
    requires
        line.len() > 0,
        !line.contains('\n'),
    ensures
        text_lines(line) == seq![line],
{
    assert forall|i: int| 0 <= i < line.len() implies line[i] != '\n' by {
        assert(line.contains(line[i]));
    }
    lemma_first_position_unique(line, '\n', line.len() as int);
}

/// What was written as lines is read as those lines.
pub proof fn written_lines_are_read_back(lines: Seq<Seq<char>>)
    requires
        forall|i: int|
            0 <= i < lines.len() ==> !(#[trigger] lines[i]).contains('\n') && (lines[i].len() == 0
                || lines[i].last() != '\r'),
    ensures
        text_lines(ended_lines(lines)) == lines,
    decreases lines.len(),
{
    if lines.len() == 0 {
        assert(text_lines(seq![]) =~= lines);
    } else {
        let rest = lines.drop_first();
        assert(!lines[0].contains('\n'));
        assert forall|i: int| 0 <= i < rest.len() implies !(#[trigger] rest[i]).contains('\n') && (
        rest[i].len() == 0 || rest[i].last() != '\r') by {
            assert(!lines[i + 1].contains('\n'));
        }
        written_lines_are_read_back(rest);
        lines_are_split_at_their_ends(lines[0], ended_lines(rest));
        assert(seq![lines[0]] + rest =~= lines);
    }
}

// ---------------------------------------------------------------------------------------------
// Joining and replacing
// ---------------------------------------------------------------------------------------------

/// Joined texts stand in order with the separator between each two of them.
pub proof fn separators_stand_between(
    a: Seq<Seq<char>>,
    b: Seq<Seq<char>>,
    one: Seq<char>,
    separator: Seq<char>,
)
    ensures
        joined(seq![], separator).len() == 0,
        joined(seq![one], separator) == one,
        a.len() > 0 && b.len() > 0 ==> joined(a + b, separator) == joined(a, separator) + separator
            + joined(b, separator),
    decreases b.len(),
{
    if a.len() > 0 && b.len() > 0 {
        let front = (a + b).drop_last();
        assert((a + b).last() == b.last());
        assert(front =~= a + b.drop_last());
        if b.len() == 1 {
            assert(front =~= a);
            assert(b.last() == b[0]);
        } else {
            separators_stand_between(a, b.drop_last(), one, separator);
            assert((joined(a, separator) + separator + joined(b.drop_last(), separator))
                + separator + b.last() =~= joined(a, separator) + separator + (joined(
                b.drop_last(),
                separator,
            ) + separator + b.last()));
        }
    }
}

/// Every occurrence of a pattern is replaced, from the first on, and nothing else changes.
pub proof fn occurrences_are_replaced(
    before: Seq<char>,
    after: Seq<char>,
    pattern: Seq<char>,
    with: Seq<char>,
)
    requires
        pattern.len() > 0,
    ensures
        (forall|i: int| !(#[trigger] occurs_at(before, pattern, i))) ==> replaced(
            before,
            pattern,
            with,
        ) == before,
        (forall|i: int|
            0 <= i < before.len() ==> !(#[trigger] occurs_at(before + pattern + after, pattern, i)))
            ==> replaced(before + pattern + after, pattern, with) == before + with + replaced(
            after,
            pattern,
            with,
        ),
    decreases before.len(),
{
    let all = before + pattern + after;
    if forall|i: int| !(#[trigger] occurs_at(before, pattern, i)) {
        lemma_nothing_to_replace(before, pattern, with);
    }
    if forall|i: int| 0 <= i < before.len() ==> !(#[trigger] occurs_at(all, pattern, i)) {
        if before.len() == 0 {
            assert(all =~= pattern + after);
            assert(pattern.is_prefix_of(all));
            assert(all.skip(pattern.len() as int) =~= after);
            assert(before + with =~= with);
        } else {
            let rest = before.drop_first();
            assert(!occurs_at(all, pattern, 0));
            if pattern.is_prefix_of(all) {
                assert(all.subrange(0, pattern.len() as int) =~= pattern);
            }
            assert(all.drop_first() =~= rest + pattern + after);
            assert forall|i: int| 0 <= i < rest.len() implies !(#[trigger] occurs_at(
                rest + pattern + after,
                pattern,
                i,
            )) by {
                assert(!occurs_at(all, pattern, i + 1));
                assert((rest + pattern + after).subrange(i, i + pattern.len()) =~= all.subrange(
                    i + 1,
                    i + 1 + pattern.len(),
                ));
            }
            occurrences_are_replaced(rest, after, pattern, with);
            assert(seq![all[0]] + (rest + with + replaced(after, pattern, with)) =~= before + with
                + replaced(after, pattern, with));
        }
    }
}

proof fn lemma_nothing_to_replace(s: Seq<char>, pattern: Seq<char>, with: Seq<char>)
    requires
        pattern.len() > 0,
        forall|i: int| !(#[trigger] occurs_at(s, pattern, i)),
    ensures
        replaced(s, pattern, with) == s,
    decreases s.len(),
{
    if s.len() >= pattern.len() {
        let rest = s.drop_first();
        assert(!occurs_at(s, pattern, 0));
        if pattern.is_prefix_of(s) {
            assert(s.subrange(0, pattern.len() as int) =~= pattern);
        }
        assert forall|i: int| !(#[trigger] occurs_at(rest, pattern, i)) by {
            if occurs_at(rest, pattern, i) {
                assert(s.subrange(i + 1, i + 1 + pattern.len()) =~= rest.subrange(
                    i,
                    i + pattern.len(),
                ));
                assert(occurs_at(s, pattern, i + 1));
            }
        }
        lemma_nothing_to_replace(rest, pattern, with);
        assert(seq![s[0]] + rest =~= s);
    }
}

/// A preview shows the first characters of a text, at most as many as the limit, without control
/// characters but tabs and line feeds, with each line feed written as an escape, and with dots
/// where something was cut.
pub proof fn previews_show_the_beginning(text: Seq<char>, limit: nat)
    ensures
        ({
            let visible = |c: char|
                c == '\n' || c == '\t' || !((c as u32) < 0x20 || 0x7f <= (c as u32) <= 0x9f);
            &&& text.len() <= limit ==> preview_view(text, limit) == replaced(
                text.filter(visible),
                "\n"@,
                "\\n"@,
            )
            &&& text.len() > limit ==> preview_view(text, limit) == replaced(
                text.take(limit as int).filter(visible) + "..."@,
                "\n"@,
                "\\n"@,
            )
        }),
{
    let visible = |c: char|
        c == '\n' || c == '\t' || !((c as u32) < 0x20 || 0x7f <= (c as u32) <= 0x9f);
    let shown = |c: char| crate::tools::compact::previewed(c);
    let part = if limit <= text.len() {
        text.take(limit as int)
    } else {
        text
    };
    assert(text.take(text.len() as int) =~= text);
    crate::session::edit_laws::lemma_same_filter(part, shown, visible);
    if text.len() == limit {
        assert(text.take(limit as int) =~= text);
    }
}

// ---------------------------------------------------------------------------------------------
// Numbers
// ---------------------------------------------------------------------------------------------

/// The number that digits write.
pub open spec fn number_of(text: Seq<char>) -> int
    decreases text.len(),
{
    if text.len() == 0 {
        0
    } else {
        number_of(text.drop_last()) * 10 + (text.last() as u32 - 48)
    }
}

/// A number is written in digits that give it back, without a zero before them.
pub proof fn numbers_are_read_back(n: nat)
    ensures
        number_of(decimal(n)) == n,
        decimal(n).len() > 0,
        forall|i: int| 0 <= i < decimal(n).len() ==> '0' <= (#[trigger] decimal(n)[i]) <= '9',
        n > 0 ==> decimal(n)[0] != '0',
    decreases n,
{
    if n < 10 {
        let text = seq![digit(n)];
        assert(text.drop_last() =~= seq![]);
        assert(number_of(text.drop_last()) == 0);
    } else {
        numbers_are_read_back(n / 10);
        let front = decimal(n / 10);
        let text = front.push(digit(n % 10));
        assert(text.drop_last() =~= front);
        assert forall|i: int| 0 <= i < text.len() implies '0' <= (#[trigger] text[i]) <= '9' by {
            if i < front.len() {
                assert(text[i] == front[i]);
            }
        }
        assert(text[0] == front[0]);
    }
}

// ---------------------------------------------------------------------------------------------
// Characters
// ---------------------------------------------------------------------------------------------

/// A text occurs in another where it stands between what is before and behind it.
pub proof fn texts_occur_where_they_stand(s: Seq<char>, a: Seq<char>, needle: Seq<char>, b: Seq<char>)
    ensures
        occurs(a + needle + b, needle),
        occurs(s, needle) ==> exists|x: Seq<char>, y: Seq<char>| s == #[trigger] (x + needle + y),
{
    let all = a + needle + b;
    assert(all.subrange(a.len() as int, a.len() as int + needle.len()) =~= needle);
    assert(occurs_at(all, needle, a.len() as int));
    if occurs(s, needle) {
        let i = choose|i: int| #[trigger] occurs_at(s, needle, i);
        let x = s.take(i);
        let y = s.skip(i + needle.len());
        assert(s =~= x + s.subrange(i, i + needle.len()) + y);
    }
}

/// The letters from A to Z are lowered, and no other character is.
pub proof fn letters_are_lowered(c: char)
    ensures
        0x41 <= c as u32 <= 0x5a ==> ascii_lower(c) as u32 == c as u32 + 0x20,
        !(0x41 <= c as u32 <= 0x5a) ==> ascii_lower(c) == c,
{
}

/// White space is the space, tabs and line ends of ASCII, and the spaces and line ends beyond it.
pub proof fn white_space_is_what_it_is(c: char)
    ensures
        white_space(c) <==> {
            let n = c as u32;
            n == 9 || n == 10 || n == 11 || n == 12 || n == 13 || n == 32 || n == 133 || n == 160
                || n == 5760 || 8192 <= n <= 8202 || n == 8232 || n == 8233 || n == 8239 || n == 8287
                || n == 12288
        },
{
}

} // verus!
