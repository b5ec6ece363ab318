//! What holds of searches as a whole: what ripgrep is called with, and what is made of its output.

use vstd::prelude::*;

use crate::common::views;
use crate::error::ErrorView;
use crate::path::{path_text, without_verbatim_prefix, Part};
use crate::text::{blank, decimal, occurs_at};
use crate::text_laws::occurrences_are_replaced;
use crate::tools::file::{counted_flag, flag, glob_flags, rg_arguments, sanitized, search_answer};
use crate::tools::file::{search_error, search_flags, searched_texts, RgArgs};

verus! {

/// The words of a search between `--no-config` and the pattern: each option by its own field alone.
pub open spec fn option_words(args: RgArgs) -> Seq<Seq<char>> {
    let globs = views(args.glob@);
    seq![
        (args.fixed_strings, "--fixed-strings"@),
        (args.ignore_case, "--ignore-case"@),
        (args.smart_case, "--smart-case"@),
        (args.line_number, "--line-number"@),
        (args.files_with_matches, "--files-with-matches"@),
    ].filter(|option: (bool, Seq<char>)| option.0).map_values(
        |option: (bool, Seq<char>)| option.1,
    ) + (if args.context is Some {
        seq!["--context"@, decimal(args.context->0 as nat)]
    } else {
        seq![]
    }) + (if args.max_count is Some {
        seq!["--max-count"@, decimal(args.max_count->0 as nat)]
    } else {
        seq![]
    }) + Seq::new(
        2 * globs.len(),
        |i: int|
            if i % 2 == 0 {
                "--glob"@
            } else {
                globs[i / 2]
            },
    )
}

proof fn lemma_glob_words(globs: Seq<Seq<char>>)
    ensures
        glob_flags(globs) == Seq::new(
            2 * globs.len(),
            |i: int|
                if i % 2 == 0 {
                    "--glob"@
                } else {
                    globs[i / 2]
                },
        ),
    decreases globs.len(),
{
    let words = Seq::new(
        2 * globs.len(),
        |i: int|
            if i % 2 == 0 {
                "--glob"@
            } else {
                globs[i / 2]
            },
    );
    if globs.len() > 0 {
        let front = globs.drop_last();
        lemma_glob_words(front);
        assert forall|i: int| 0 <= i < glob_flags(globs).len() implies glob_flags(globs)[i]
            == words[i] by {
            if i < 2 * front.len() {
                assert(i / 2 < front.len());
            } else if i == 2 * front.len() {
                assert(i % 2 == 0);
            } else {
                assert(i == 2 * front.len() + 1);
                assert(i % 2 == 1 && i / 2 == front.len());
            }
        }
    }
    assert(glob_flags(globs) =~= words);
}

proof fn lemma_filter_push(s: Seq<(bool, Seq<char>)>, option: (bool, Seq<char>))
    ensures
        s.push(option).filter(|option: (bool, Seq<char>)| option.0) == if option.0 {
            s.filter(|option: (bool, Seq<char>)| option.0).push(option)
        } else {
            s.filter(|option: (bool, Seq<char>)| option.0)
        },
{
    reveal(Seq::filter);
    assert(s.push(option).drop_last() =~= s);
}

/// A search passes every option by its own field alone, whatever the others are, then its pattern,
/// then its paths; a listing passes nothing but its paths. No configuration is ever read.
pub proof fn each_option_is_passed_by_its_own_field(
    args: RgArgs,
    paths: Seq<Seq<Part>>,
    separator: char,
)
    ensures
        args.files ==> rg_arguments(args, paths, separator) == seq!["--no-config"@, "--files"@]
            + searched_texts(paths, separator),
        !args.files ==> rg_arguments(args, paths, separator) == seq!["--no-config"@] + option_words(
            args,
        ) + seq![
            if args.pattern is Some {
                args.pattern->0@
            } else {
                Seq::<char>::empty()
            },
        ] + searched_texts(paths, separator),
        searched_texts(paths, separator).len() == paths.len(),
        forall|i: int|
            0 <= i < paths.len() ==> #[trigger] searched_texts(paths, separator)[i]
                == without_verbatim_prefix(path_text(paths[i], separator)),
{
    lemma_glob_words(views(args.glob@));
    let none = Seq::<(bool, Seq<char>)>::empty();
    let o1 = (args.fixed_strings, "--fixed-strings"@);
    let o2 = (args.ignore_case, "--ignore-case"@);
    let o3 = (args.smart_case, "--smart-case"@);
    let o4 = (args.line_number, "--line-number"@);
    let o5 = (args.files_with_matches, "--files-with-matches"@);
    lemma_filter_push(none, o1);
    lemma_filter_push(none.push(o1), o2);
    lemma_filter_push(none.push(o1).push(o2), o3);
    lemma_filter_push(none.push(o1).push(o2).push(o3), o4);
    lemma_filter_push(none.push(o1).push(o2).push(o3).push(o4), o5);
    reveal(Seq::filter);
    let set = |option: (bool, Seq<char>)| option.0;
    assert(none.filter(set) =~= none);
    let options = seq![o1, o2, o3, o4, o5];
    assert(options =~= none.push(o1).push(o2).push(o3).push(o4).push(o5));
    let words = options.filter(set).map_values(|option: (bool, Seq<char>)| option.1);
    assert(words =~= flag(args.fixed_strings, "--fixed-strings"@)
        + flag(args.ignore_case, "--ignore-case"@) + flag(
        args.smart_case,
        "--smart-case"@,
    ) + flag(args.line_number, "--line-number"@) + flag(
        args.files_with_matches,
        "--files-with-matches"@,
    ));
    let called = rg_arguments(args, paths, separator);
    if args.files {
        assert(called =~= seq!["--no-config"@, "--files"@] + searched_texts(paths, separator));
    } else {
        let pattern = if args.pattern is Some {
            args.pattern->0@
        } else {
            Seq::<char>::empty()
        };
        assert(search_flags(args) =~= option_words(args));
        assert(called =~= seq!["--no-config"@] + option_words(args) + seq![pattern]
            + searched_texts(paths, separator));
    }
}

/// An option that is set stands before the pattern, whatever else is asked for.
pub proof fn set_options_are_passed(args: RgArgs, paths: Seq<Seq<Part>>, separator: char)
    requires
        !args.files,
    ensures
        ({
            let called = rg_arguments(args, paths, separator);
            let before = called.take(called.len() - paths.len() - 1);
            &&& args.fixed_strings ==> before.contains("--fixed-strings"@)
            &&& args.ignore_case ==> before.contains("--ignore-case"@)
            &&& args.smart_case ==> before.contains("--smart-case"@)
            &&& args.line_number ==> before.contains("--line-number"@)
            &&& args.files_with_matches ==> before.contains("--files-with-matches"@)
            &&& args.context is Some ==> before.contains("--context"@) && before.contains(
                decimal(args.context->0 as nat),
            )
            &&& args.max_count is Some ==> before.contains("--max-count"@) && before.contains(
                decimal(args.max_count->0 as nat),
            )
            &&& forall|i: int|
                0 <= i < args.glob@.len() ==> before.contains(#[trigger] views(args.glob@)[i])
        }),
{
    let called = rg_arguments(args, paths, separator);
    let before = called.take(called.len() - paths.len() - 1);
    let flags = search_flags(args);
    assert(before =~= seq!["--no-config"@] + flags);
    assert forall|x: Seq<char>| flags.contains(x) implies #[trigger] before.contains(x) by {
        lemma_concat_contains(seq!["--no-config"@], flags, x);
    }
    if args.fixed_strings {
        lemma_piece_is_passed(args, 0, "--fixed-strings"@, 0);
    }
    if args.ignore_case {
        lemma_piece_is_passed(args, 1, "--ignore-case"@, 0);
    }
    if args.smart_case {
        lemma_piece_is_passed(args, 2, "--smart-case"@, 0);
    }
    if args.line_number {
        lemma_piece_is_passed(args, 3, "--line-number"@, 0);
    }
    if args.files_with_matches {
        lemma_piece_is_passed(args, 4, "--files-with-matches"@, 0);
    }
    if args.context is Some {
        lemma_piece_is_passed(args, 5, "--context"@, 0);
        lemma_piece_is_passed(args, 5, decimal(args.context->0 as nat), 1);
    }
    if args.max_count is Some {
        lemma_piece_is_passed(args, 6, "--max-count"@, 0);
        lemma_piece_is_passed(args, 6, decimal(args.max_count->0 as nat), 1);
    }
    let globs = views(args.glob@);
    assert forall|i: int| 0 <= i < args.glob@.len() implies before.contains(
        #[trigger] globs[i],
    ) by {
        lemma_glob_words(globs);
        let k = 2 * i + 1;
        assert(k % 2 == 1 && k / 2 == i);
        assert(glob_flags(globs)[k] == globs[i]);
        lemma_piece_is_passed(args, 7, globs[i], k);
    }
}

/// The pieces of the options, in order.
spec fn option_piece(args: RgArgs, n: int) -> Seq<Seq<char>> {
    if n == 0 {
        flag(args.fixed_strings, "--fixed-strings"@)
    } else if n == 1 {
        flag(args.ignore_case, "--ignore-case"@)
    } else if n == 2 {
        flag(args.smart_case, "--smart-case"@)
    } else if n == 3 {
        flag(args.line_number, "--line-number"@)
    } else if n == 4 {
        flag(args.files_with_matches, "--files-with-matches"@)
    } else if n == 5 {
        counted_flag(args.context, "--context"@)
    } else if n == 6 {
        counted_flag(args.max_count, "--max-count"@)
    } else {
        glob_flags(views(args.glob@))
    }
}

proof fn lemma_concat_contains(a: Seq<Seq<char>>, b: Seq<Seq<char>>, x: Seq<char>)
    ensures
        a.contains(x) ==> (a + b).contains(x),
        b.contains(x) ==> (a + b).contains(x),
{
    if a.contains(x) {
        let i = choose|i: int| 0 <= i < a.len() && a[i] == x;
        assert((a + b)[i] == x);
    }
    if b.contains(x) {
        let i = choose|i: int| 0 <= i < b.len() && b[i] == x;
        assert((a + b)[a.len() + i] == x);
    }
}

proof fn lemma_piece_is_passed(args: RgArgs, n: int, x: Seq<char>, i: int)
    requires
        0 <= n <= 7,
        0 <= i < option_piece(args, n).len(),
        option_piece(args, n)[i] == x,
    ensures
        search_flags(args).contains(x),
{
    assert(option_piece(args, n).contains(x));
    let p0 = option_piece(args, 0);
    let p1 = p0 + option_piece(args, 1);
    let p2 = p1 + option_piece(args, 2);
    let p3 = p2 + option_piece(args, 3);
    let p4 = p3 + option_piece(args, 4);
    let p5 = p4 + option_piece(args, 5);
    let p6 = p5 + option_piece(args, 6);
    let p7 = p6 + option_piece(args, 7);
    lemma_concat_contains(p0, option_piece(args, 1), x);
    lemma_concat_contains(p1, option_piece(args, 2), x);
    lemma_concat_contains(p2, option_piece(args, 3), x);
    lemma_concat_contains(p3, option_piece(args, 4), x);
    lemma_concat_contains(p4, option_piece(args, 5), x);
    lemma_concat_contains(p5, option_piece(args, 6), x);
    lemma_concat_contains(p6, option_piece(args, 7), x);
    assert(search_flags(args) == p7);
}

/// A search is refused exactly where it says no path, or says no pattern and does not list files.
pub proof fn searches_say_where_and_for_what(args: RgArgs)
    ensures
        search_error(args) is Some <==> args.paths@.len() == 0 || (!args.files && (args.pattern is None
            || args.pattern->0@.len() == 0)),
        args.paths@.len() == 0 ==> search_error(args) == Some(
            ErrorView::Tool("ripgrep requires at least one path under an allowed read root"@),
        ),
        args.paths@.len() > 0 && search_error(args) is Some ==> search_error(args) == Some(
            ErrorView::Tool("ripgrep requires `pattern` unless `files` is true"@),
        ),
{
}

/// A search succeeds where ripgrep did, or found nothing, and fails otherwise with its status and
/// its errors. What it found is shown whole; where that is blank it says so instead.
pub proof fn searches_answer_with_what_was_found(
    files: bool,
    succeeded: bool,
    code: Option<i32>,
    status: Seq<char>,
    stdout: Seq<char>,
    stderr: Seq<char>,
)
    ensures
        ({
            let answer = search_answer(files, succeeded, code, status, stdout, stderr);
            let output = if succeeded {
                sanitized(stdout)
            } else {
                sanitized(stdout) + sanitized(stderr)
            };
            &&& answer is Ok <==> succeeded || code == Some(1i32)
            &&& answer is Ok && !blank(output) ==> answer == Ok::<Seq<char>, ErrorView>(output)
            &&& answer is Ok && blank(output) && files ==> answer == Ok::<Seq<char>, ErrorView>(
                "No files found under the requested paths."@,
            )
            &&& answer is Ok && blank(output) && !files ==> answer == Ok::<Seq<char>, ErrorView>(
                "No matches found."@,
            )
            &&& answer is Err ==> answer == Err::<Seq<char>, ErrorView>(
                ErrorView::Tool(
                    "ripgrep failed with status "@ + status + ": "@ + sanitized(stderr),
                ),
            )
        }),
{
}

/// Output in which no path is verbatim is shown as it came.
pub proof fn plain_output_is_shown_as_it_came(text: Seq<char>)
    requires
        forall|i: int| !(#[trigger] occurs_at(text, "\\\\?\\"@, i)),
    ensures
        sanitized(text) == text,
{
    let mark = "\\\\?\\"@;
    let share = "\\\\?\\UNC\\"@;
    reveal_strlit("\\\\?\\");
    reveal_strlit("\\\\?\\UNC\\");
    assert(share.take(mark.len() as int) =~= mark);
    lemma_no_share(text, mark, share);
    occurrences_are_replaced(text, seq![], share, "\\\\"@);
    occurrences_are_replaced(text, seq![], mark, ""@);
}

proof fn lemma_one_mark(
    before: Seq<char>,
    after: Seq<char>,
    mark: Seq<char>,
    unc: Seq<char>,
    share: Seq<char>,
    i: int,
)
    requires
        share == mark + unc,
        !unc.is_prefix_of(after),
        forall|i: int| occurs_at(before + mark + after, mark, i) ==> i == before.len(),
    ensures
        !occurs_at(before + mark + after, share, i),
{
    let all = before + mark + after;
    if occurs_at(all, share, i) {
        let found = all.subrange(i, i + share.len());
        assert forall|j: int| 0 <= j < mark.len() implies all.subrange(i, i + mark.len())[j]
            == mark[j] by {
            assert(found[j] == share[j]);
        }
        assert(all.subrange(i, i + mark.len()) =~= mark);
        assert(occurs_at(all, mark, i));
        assert(i == before.len());
        assert forall|j: int| 0 <= j < unc.len() implies after.subrange(0, unc.len() as int)[j]
            == unc[j] by {
            assert(found[j + mark.len()] == share[j + mark.len()]);
        }
        assert(after.subrange(0, unc.len() as int) =~= unc);
        assert(unc.is_prefix_of(after));
    }
}

/// What makes a path verbatim is not shown; what stands before and behind it is.
pub proof fn verbatim_paths_are_shown_plainly(before: Seq<char>, after: Seq<char>)
    requires
        forall|i: int|
            occurs_at(before + "\\\\?\\"@ + after, "\\\\?\\"@, i) ==> i == before.len(),
        !"UNC\\"@.is_prefix_of(after),
    ensures
        sanitized(before + "\\\\?\\"@ + after) == before + after,
{
    let mark = "\\\\?\\"@;
    let unc = "UNC\\"@;
    let share = "\\\\?\\UNC\\"@;
    let all = before + mark + after;
    assert(share =~= mark + unc && mark.len() == 4 && share.len() == 8) by {
        reveal_strlit("\\\\?\\");
        reveal_strlit("\\\\?\\UNC\\");
        reveal_strlit("UNC\\");
    }
    assert forall|i: int| !(#[trigger] occurs_at(all, share, i)) by {
        lemma_one_mark(before, after, mark, unc, share, i);
    }
    occurrences_are_replaced(all, seq![], share, "\\\\"@);
    assert forall|i: int| 0 <= i < before.len() implies !(#[trigger] occurs_at(all, mark, i)) by {}
    occurrences_are_replaced(before, after, mark, ""@);
    assert forall|i: int| !(#[trigger] occurs_at(after, mark, i)) by {
        if occurs_at(after, mark, i) {
            let k = i + before.len() + mark.len();
            assert(all.subrange(k, k + mark.len()) =~= after.subrange(i, i + mark.len()));
            assert(occurs_at(all, mark, k));
        }
    }
    occurrences_are_replaced(after, seq![], mark, ""@);
    assert(before + ""@ + after =~= before + after) by {
        reveal_strlit("");
    }
}

proof fn lemma_no_share(text: Seq<char>, mark: Seq<char>, share: Seq<char>)
    requires
        share.len() >= mark.len(),
        share.take(mark.len() as int) == mark,
        forall|i: int| !(#[trigger] occurs_at(text, mark, i)),
    ensures
        forall|i: int| !(#[trigger] occurs_at(text, share, i)),
{
    assert forall|i: int| !(#[trigger] occurs_at(text, share, i)) by {
        if occurs_at(text, share, i) {
            assert(text.subrange(i, i + mark.len()) =~= mark) by {
                assert forall|j: int| 0 <= j < mark.len() implies text[i + j] == mark[j] by {
                    assert(text.subrange(i, i + share.len())[j] == share[j]);
                    assert(share.take(mark.len() as int)[j] == share[j]);
                }
            }
            assert(occurs_at(text, mark, i));
        }
    }
}

} // verus!
