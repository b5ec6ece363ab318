//! The built-in file tools.

pub mod apply;
pub mod apply_laws;
pub mod change;
pub mod page;
pub mod patch;
pub mod search_laws;

use vstd::prelude::*;

use crate::common::{views, lemma_views_push, Duplicate};
use crate::error::{tool_error, Error, ErrorView};
use crate::path::{strip_windows_verbatim_prefix, FilePath, Part};
use crate::path::{path_text, without_verbatim_prefix};
use crate::state::{under_any, AgentState, RootsView};
use crate::text::{concat2, concat3, decimal_text, is_blank, replace_text};
use crate::text::{blank, decimal, replaced};
use crate::tools::file::page::PageReader;
use crate::tools::file::page::{clamped, offset_of, page_start, READ_MAX_CHARS, READ_MAX_LINES};
use crate::utf8::{from_utf8_lossy, lossy_text};

verus! {

broadcast use lemma_views_push;

/// Description of the `read` tool.
pub const READ_DESCRIPTION: &'static str = r#"Read a UTF-8 text file from an allowed read root.

Output limits:
- At most 100 lines or 10,000 characters are returned, whichever is reached first.
- character-offset: optional zero-based Unicode character offset, applied after line-offset.
- line-offset: optional zero-based number of complete lines to skip first.
- character-count: optional requested character count, clamped to 10,000.
- line-count: optional requested line count, clamped to 100.
- A truncation notice is appended when additional file content exists. Continue with offsets or use ripgrep to locate a targeted passage.

Required parameters:
- path: file path to read. Relative paths are resolved from the current process directory.

Example:
{"path":"src/lib.rs"}"#;

/// Description of the `create_file` tool.
pub const CREATE_FILE_DESCRIPTION: &'static str = r#"Create a UTF-8 text file under an allowed write root.

Required parameters:
- path: file path to create. Relative paths are resolved from the current process directory.
- content: complete file contents to write.

Optional parameters:
- overwrite: true to replace an existing file. Defaults to false.
- create_parent_dirs: true to create missing parent directories. Defaults to true.

Example:
{"path":"notes/todo.txt","content":"- first task\n"}"#;

/// Description of the `delete_file` tool.
pub const DELETE_FILE_DESCRIPTION: &'static str = r#"Delete a file under an allowed write root.

Required parameters:
- path: file path to delete. The path must refer to an existing file, not a directory.

Example:
{"path":"notes/old.txt"}"#;

/// Description of the `apply_patch` tool.
pub const APPLY_PATCH_DESCRIPTION: &'static str = r#"Apply a small patch to files under allowed write roots.

Required parameters:
- patch: a patch string using this format:
  *** Begin Patch
  *** Add File: path
  +new line
  *** Update File: path
  @@
   unchanged context line
  -old line
  +new line
  *** Delete File: path
  *** End Patch

Every touched file must be under an allowed write root. Update hunks use exact line matching, so include nearby context lines when possible.

Example:
{"patch":"*** Begin Patch\n*** Update File: README.md\n@@\n-Old text\n+New text\n*** End Patch\n"}"#;

/// Description of the `ripgrep` tool.
pub const RIPGREP_DESCRIPTION: &'static str = r#"Search allowed read roots with ripgrep.

Required parameters:
- pattern: regex or literal text to search for.
- paths: one or more files/directories to search. Each path must be under an allowed read root.

Optional parameters:
- fixed_strings: true to pass --fixed-strings for literal matching.
- ignore_case: true to pass --ignore-case.
- smart_case: true to pass --smart-case.
- line_number: true to pass --line-number.
- context: number of context lines, passed as --context.
- glob: glob filters, passed as --glob. May include exclusions like "!target/**".
- max_count: maximum matching lines per file, passed as --max-count.
- files_with_matches: true to print only files with matches.
- files: true to list searchable files instead of searching for pattern.

Examples:
{"pattern":"ToolRegistry","paths":["src"],"line_number":true}
{"pattern":"TODO","paths":["src","tests"],"fixed_strings":true,"glob":["*.rs"]}"#;

/// Arguments for the built-in `read` tool.
#[derive(Debug, PartialEq, Eq)]
pub struct ReadArgs {
    /// File path to read. Relative paths are resolved from the current process directory.
    pub path: String,
    /// Zero-based Unicode character offset applied after line-offset.
    pub character_offset: Option<usize>,
    /// Zero-based number of complete lines to skip before character-offset.
    pub line_offset: Option<usize>,
    /// Requested character count. Values above 10,000 are clamped.
    pub character_count: Option<usize>,
    /// Requested line count. Values above 100 are clamped.
    pub line_count: Option<usize>,
}

/// Arguments for the built-in `create_file` tool.
#[derive(Debug, PartialEq, Eq)]
pub struct CreateFileArgs {
    /// File path to create. Relative paths are resolved from the current process directory.
    pub path: String,
    /// Complete UTF-8 text contents to write.
    pub content: String,
    /// Replace an existing file instead of failing.
    pub overwrite: bool,
    /// Create missing parent directories before writing.
    pub create_parent_dirs: bool,
}

/// Arguments for the built-in `delete_file` tool.
#[derive(Debug, PartialEq, Eq)]
pub struct DeleteFileArgs {
    /// File path to delete. The path must refer to an existing file, not a directory.
    pub path: String,
}

/// Arguments for the built-in `apply_patch` tool.
#[derive(Debug, PartialEq, Eq)]
pub struct ApplyPatchArgs {
    /// Patch text in the documented begin/end patch format.
    pub patch: String,
}

/// Arguments for the built-in `ripgrep` tool.
#[derive(Debug, PartialEq, Eq)]
pub struct RgArgs {
    /// Regex pattern to search for. Optional only when `files` is true.
    pub pattern: Option<String>,
    /// Files or directories to search. Required; every path must be under an allowed read root.
    pub paths: Vec<String>,
    /// Treat the pattern as a literal string instead of a regex.
    pub fixed_strings: bool,
    /// Search case-insensitively.
    pub ignore_case: bool,
    /// Search case-insensitively only if the pattern is all lowercase.
    pub smart_case: bool,
    /// Print 1-based line numbers.
    pub line_number: bool,
    /// Number of context lines before and after matches.
    pub context: Option<u32>,
    /// Glob filters passed to ripgrep, e.g. "*.rs" or "!target/**".
    pub glob: Vec<String>,
    /// Maximum matching lines per file.
    pub max_count: Option<u32>,
    /// Print only paths with at least one match.
    pub files_with_matches: bool,
    /// List files ripgrep would search instead of searching for a pattern.
    pub files: bool,
}

impl Default for RgArgs {
    fn default() -> (args: Self)
        ensures
            args.pattern is None,
            args.paths@.len() == 0,
            !args.fixed_strings,
            !args.ignore_case,
            !args.smart_case,
            !args.line_number,
            args.context is None,
            args.glob@.len() == 0,
            args.max_count is None,
            !args.files_with_matches,
            !args.files,
    {
        RgArgs {
            pattern: None,
            paths: Vec::new(),
            fixed_strings: false,
            ignore_case: false,
            smart_case: false,
            line_number: false,
            context: None,
            glob: Vec::new(),
            max_count: None,
            files_with_matches: false,
            files: false,
        }
    }
}

// ---------------------------------------------------------------------------------------------
// Permissions
// ---------------------------------------------------------------------------------------------

/// The refusal to read a file whose path, as it was given, is `given`.
pub open spec fn read_refused(given: Seq<char>) -> ErrorView {
    ErrorView::PathNotAllowed { path: without_verbatim_prefix(given), access: "read"@ }
}

/// The refusal to write a file whose path, as it was given, is `given`.
pub open spec fn write_refused(given: Seq<char>) -> ErrorView {
    ErrorView::PathNotAllowed { path: without_verbatim_prefix(given), access: "write"@ }
}

/// The normalized form of a path whose text is `path`, where it may be read.
pub fn ensure_can_read(state: &AgentState, path: &str, normalized: FilePath) -> (r: Result<
    FilePath,
    Error,
>)
    ensures
        match r {
            Ok(allowed) => under_any(normalized@, state@.read) && allowed@ == normalized@,
            Err(e) => !under_any(normalized@, state@.read) && e@ == read_refused(path@),
        },
{
    match state.readable_path(normalized) {
        Some(allowed) => Ok(allowed),
        None => Err(
            Error::PathNotAllowed {
                path: strip_windows_verbatim_prefix(path),
                access: "read".to_owned(),
            },
        ),
    }
}

/// The normalized form of a path whose text is `path`, where it may be written.
pub fn ensure_can_write(state: &AgentState, path: &str, normalized: FilePath) -> (r: Result<
    FilePath,
    Error,
>)
    ensures
        match r {
            Ok(allowed) => under_any(normalized@, state@.write) && allowed@ == normalized@,
            Err(e) => !under_any(normalized@, state@.write) && e@ == write_refused(path@),
        },
{
    match state.writable_path(normalized) {
        Some(allowed) => Ok(allowed),
        None => Err(
            Error::PathNotAllowed {
                path: strip_windows_verbatim_prefix(path),
                access: "write".to_owned(),
            },
        ),
    }
}

// ---------------------------------------------------------------------------------------------
// Reading, creating, deleting
// ---------------------------------------------------------------------------------------------

/// The message of a failure over a path.
pub open spec fn about_path(before: Seq<char>, path: Seq<char>, after: Seq<char>) -> ErrorView {
    ErrorView::Tool(before + without_verbatim_prefix(path) + after)
}

fn path_error(before: &str, path: &str, after: &str) -> (e: Error)
    ensures
        e@ == about_path(before@, path@, after@),
{
    Error::Tool(concat3(before, strip_windows_verbatim_prefix(path).as_str(), after))
}

/// Whether the file at `path`, a path's text, can be read: a directory cannot.
pub fn check_read(path: &str, is_directory: bool) -> (r: Result<(), Error>)
    ensures
        match r {
            Ok(_) => !is_directory,
            Err(e) => is_directory && e@ == about_path(
                "read only accepts UTF-8 files, not directories: "@,
                path@,
                ". Use ripgrep with files=true to list files."@,
            ),
        },
{
    if is_directory {
        return Err(
            path_error(
                "read only accepts UTF-8 files, not directories: ",
                path,
                ". Use ripgrep with files=true to list files.",
            ),
        );
    }
    Ok(())
}

impl ReadArgs {
    /// A reader for the requested part of the file. No count may be zero.
    pub fn reader(&self) -> (r: Result<PageReader, Error>)
        ensures
            match r {
                Ok(reader) => {
                    &&& self.line_count != Some(0usize)
                    &&& self.character_count != Some(0usize)
                    &&& reader.wf()
                    &&& reader@ == page_start(
                        offset_of(self.line_offset),
                        offset_of(self.character_offset),
                        clamped(self.line_count, READ_MAX_LINES),
                        clamped(self.character_count, READ_MAX_CHARS),
                    )
                },
                Err(e) => {
                    &&& self.line_count == Some(0usize) || self.character_count == Some(0usize)
                    &&& e@ == ErrorView::Tool(
                        "line-count and character-count must be positive when provided"@,
                    )
                },
            },
    {
        PageReader::new(
            self.line_offset,
            self.character_offset,
            self.line_count,
            self.character_count,
        )
    }

    /// Whether a part of the file is asked for, and not the whole.
    pub fn is_partial(&self) -> (b: bool)
        ensures
            b == (self.character_offset is Some || self.line_offset is Some
                || self.character_count is Some || self.line_count is Some),
    {
        self.character_offset.is_some() || self.line_offset.is_some()
            || self.character_count.is_some() || self.line_count.is_some()
    }
}

/// Whether a file can be created at `path`, a path's text: one that exists is only replaced where
/// that is asked for.
pub fn check_create(path: &str, exists_there: bool, overwrite: bool) -> (r: Result<(), Error>)
    ensures
        match r {
            Ok(_) => !exists_there || overwrite,
            Err(e) => exists_there && !overwrite && e@ == about_path(
                "cannot create file that already exists without overwrite=true: "@,
                path@,
                ""@,
            ),
        },
{
    if exists_there && !overwrite {
        return Err(
            path_error(
                "cannot create file that already exists without overwrite=true: ",
                path,
                "",
            ),
        );
    }
    Ok(())
}

/// What is told of a created file.
pub fn created(path: &str) -> (text: String)
    ensures
        text@ == "created "@ + without_verbatim_prefix(path@),
{
    concat2("created ", strip_windows_verbatim_prefix(path).as_str())
}

/// Whether the file at `path`, a path's text, can be deleted: it must exist and be no directory.
pub fn check_delete(path: &str, exists_there: bool, is_directory: bool) -> (r: Result<(), Error>)
    ensures
        match r {
            Ok(_) => exists_there && !is_directory,
            Err(e) => if exists_there {
                is_directory && e@ == about_path(
                    "delete_file only deletes files, not directories: "@,
                    path@,
                    ""@,
                )
            } else {
                e@ == about_path("cannot delete missing file: "@, path@, ""@)
            },
        },
{
    if !exists_there {
        return Err(path_error("cannot delete missing file: ", path, ""));
    }
    if is_directory {
        return Err(path_error("delete_file only deletes files, not directories: ", path, ""));
    }
    Ok(())
}

/// What is told of a deleted file.
pub fn deleted(path: &str) -> (text: String)
    ensures
        text@ == "deleted "@ + without_verbatim_prefix(path@),
{
    concat2("deleted ", strip_windows_verbatim_prefix(path).as_str())
}

// ---------------------------------------------------------------------------------------------
// Searching
// ---------------------------------------------------------------------------------------------

/// The pattern, or nothing.
pub open spec fn pattern_of(args: RgArgs) -> Seq<char> {
    match args.pattern {
        Some(pattern) => pattern@,
        None => seq![],
    }
}

/// `flag` where it is set.
pub open spec fn flag(set: bool, flag: Seq<char>) -> Seq<Seq<char>> {
    if set {
        seq![flag]
    } else {
        seq![]
    }
}

/// `flag` with its number, where one is given.
pub open spec fn counted_flag(count: Option<u32>, flag: Seq<char>) -> Seq<Seq<char>> {
    match count {
        Some(n) => seq![flag, decimal(n as nat)],
        None => seq![],
    }
}

/// The filters, each behind its flag.
pub open spec fn glob_flags(globs: Seq<Seq<char>>) -> Seq<Seq<char>>
    decreases globs.len(),
{
    if globs.len() == 0 {
        seq![]
    } else {
        glob_flags(globs.drop_last()) + seq!["--glob"@, globs.last()]
    }
}

/// What a search passes to ripgrep before the pattern.
pub open spec fn search_flags(args: RgArgs) -> Seq<Seq<char>> {
    flag(args.fixed_strings, "--fixed-strings"@) + flag(args.ignore_case, "--ignore-case"@) + flag(
        args.smart_case,
        "--smart-case"@,
    ) + flag(args.line_number, "--line-number"@) + flag(
        args.files_with_matches,
        "--files-with-matches"@,
    ) + counted_flag(args.context, "--context"@) + counted_flag(args.max_count, "--max-count"@)
        + glob_flags(views(args.glob@))
}

/// What ripgrep is called with, for normalized paths.
pub open spec fn rg_arguments(args: RgArgs, paths: Seq<Seq<Part>>, separator: char) -> Seq<
    Seq<char>,
> {
    seq!["--no-config"@] + (if args.files {
        seq!["--files"@]
    } else {
        search_flags(args).push(pattern_of(args))
    }) + searched_texts(paths, separator)
}

/// The texts of the paths that ripgrep searches.
pub open spec fn searched_texts(paths: Seq<Seq<Part>>, separator: char) -> Seq<Seq<char>> {
    paths.map_values(|path: Seq<Part>| without_verbatim_prefix(path_text(path, separator)))
}

fn push_flag(arguments: &mut Vec<String>, set: bool, text: &str)
    ensures
        views(final(arguments)@) == views(old(arguments)@) + flag(set, text@),
{
    let ghost before = views(arguments@);
    if set {
        arguments.push(text.to_owned());
        assert(views(arguments@) =~= before + seq![text@]);
    } else {
        assert(before + Seq::<Seq<char>>::empty() =~= before);
    }
}

fn push_counted_flag(arguments: &mut Vec<String>, count: Option<u32>, text: &str)
    ensures
        views(final(arguments)@) == views(old(arguments)@) + counted_flag(count, text@),
{
    let ghost before = views(arguments@);
    match count {
        Some(n) => {
            arguments.push(text.to_owned());
            arguments.push(decimal_text(n as u64));
            assert(views(arguments@) =~= before + seq![text@, decimal(n as nat)]);
        },
        None => {
            assert(before + Seq::<Seq<char>>::empty() =~= before);
        },
    }
}

/// Why a search is refused whatever the roots are, where it is: it has to say where, and, unless
/// it lists files, for what.
pub open spec fn search_error(args: RgArgs) -> Option<ErrorView> {
    if args.paths@.len() == 0 {
        Some(ErrorView::Tool("ripgrep requires at least one path under an allowed read root"@))
    } else if !args.files && pattern_of(args).len() == 0 {
        Some(ErrorView::Tool("ripgrep requires `pattern` unless `files` is true"@))
    } else {
        None
    }
}

/// Whether the first `k` paths may be read.
pub open spec fn readable_before(paths: Seq<Seq<Part>>, roots: RootsView, k: int) -> bool {
    forall|i: int| 0 <= i < k ==> under_any(#[trigger] paths[i], roots.read)
}

impl RgArgs {
    /// Whether a search says where, and, unless it lists files, for what.
    pub fn check(&self) -> (r: Result<(), Error>)
        ensures
            match search_error(*self) {
                None => r is Ok,
                Some(error) => r matches Err(e) && e@ == error,
            },
    {
        if self.paths.len() == 0 {
            return Err(tool_error("ripgrep requires at least one path under an allowed read root"));
        }
        let empty = match &self.pattern {
            Some(pattern) => pattern.unicode_len() == 0,
            None => true,
        };
        if !self.files && empty {
            return Err(tool_error("ripgrep requires `pattern` unless `files` is true"));
        }
        Ok(())
    }

    /// What a search passes to ripgrep before the pattern.
    fn flags(&self) -> (flags: Vec<String>)
        ensures
            views(flags@) == search_flags(*self),
    {
        let mut flags: Vec<String> = Vec::new();
        assert(views(flags@) + flag(self.fixed_strings, "--fixed-strings"@) =~= flag(
            self.fixed_strings,
            "--fixed-strings"@,
        ));
        push_flag(&mut flags, self.fixed_strings, "--fixed-strings");
        push_flag(&mut flags, self.ignore_case, "--ignore-case");
        push_flag(&mut flags, self.smart_case, "--smart-case");
        push_flag(&mut flags, self.line_number, "--line-number");
        push_flag(&mut flags, self.files_with_matches, "--files-with-matches");
        push_counted_flag(&mut flags, self.context, "--context");
        push_counted_flag(&mut flags, self.max_count, "--max-count");
        push_globs(&mut flags, &self.glob);
        flags
    }

    /// What ripgrep is called with, for the normalized paths, on a system with the separator. The
    /// first path that may not be read is refused, and nothing is searched.
    pub fn arguments(
        &self,
        state: &AgentState,
        normalized: &Vec<FilePath>,
        separator: char,
    ) -> (r: Result<Vec<String>, Error>)
        requires
            normalized@.len() == self.paths@.len(),
        ensures
            match (search_error(*self), r) {
                (Some(error), r) => r matches Err(e) && e@ == error,
                (None, Ok(arguments)) => {
                    &&& readable_before(views(normalized@), state@, normalized@.len() as int)
                    &&& views(arguments@) == rg_arguments(*self, views(normalized@), separator)
                },
                (None, Err(e)) => exists|k: int|
                    {
                        &&& 0 <= k < normalized@.len()
                        &&& !under_any((#[trigger] normalized@[k])@, state@.read)
                        &&& readable_before(views(normalized@), state@, k)
                        &&& e@ == read_refused(self.paths@[k]@)
                    },
            },
    {
        if let Err(error) = self.check() {
            return Err(error);
        }
        let mut i: usize = 0;
        while i < self.paths.len()
            invariant
                i <= self.paths@.len(),
                normalized@.len() == self.paths@.len(),
                readable_before(views(normalized@), state@, i as int),
                search_error(*self) is None,
            decreases self.paths@.len() - i,
        {
            let path = normalized[i].duplicate();
            assert(views(normalized@)[i as int] == path@);
            if let Err(error) = ensure_can_read(state, self.paths[i].as_str(), path) {
                assert(!under_any(normalized@[i as int]@, state@.read));
                return Err(error);
            }
            i += 1;
        }
        Ok(self.call(normalized, separator))
    }

    /// What ripgrep is called with, for the normalized paths.
    fn call(&self, paths: &Vec<FilePath>, separator: char) -> (arguments: Vec<String>)
        ensures
            views(arguments@) == rg_arguments(*self, views(paths@), separator),
    {
        let mut arguments: Vec<String> = Vec::new();
        arguments.push("--no-config".to_owned());
        let ghost first = seq!["--no-config"@];
        assert(views(arguments@) =~= first);
        if self.files {
            arguments.push("--files".to_owned());
            assert(views(arguments@) =~= first + seq!["--files"@]);
        } else {
            let mut search = self.flags();
            let pattern = match &self.pattern {
                Some(pattern) => pattern.clone(),
                None => {
                    let none = String::new();
                    assert(none@ =~= seq![]);
                    none
                },
            };
            search.push(pattern);
            let ghost added = views(search@);
            arguments.append(&mut search);
            assert(views(arguments@) =~= first + added);
        }
        push_paths(&mut arguments, paths, separator);
        arguments
    }
}

fn push_globs(arguments: &mut Vec<String>, globs: &Vec<String>)
    ensures
        views(final(arguments)@) == views(old(arguments)@) + glob_flags(views(globs@)),
{
    let ghost before = views(arguments@);
    let ghost all = views(globs@);
    let mut i: usize = 0;
    assert(before + Seq::<Seq<char>>::empty() =~= before);
    while i < globs.len()
        invariant
            i <= globs@.len(),
            all == views(globs@),
            views(arguments@) == before + glob_flags(all.take(i as int)),
        decreases globs@.len() - i,
    {
        let ghost so_far = glob_flags(all.take(i as int));
        let glob = globs[i].clone();
        arguments.push("--glob".to_owned());
        arguments.push(glob);
        proof {
            assert(all.take(i + 1).drop_last() =~= all.take(i as int));
            assert(all.take(i + 1).last() == glob@);
            assert(views(arguments@) =~= before + (so_far + seq!["--glob"@, glob@]));
        }
        i += 1;
    }
    assert(all.take(i as int) =~= all);
}

fn push_paths(arguments: &mut Vec<String>, paths: &Vec<FilePath>, separator: char)
    ensures
        views(final(arguments)@) == views(old(arguments)@) + searched_texts(
            views(paths@),
            separator,
        ),
{
    let ghost before = views(arguments@);
    let ghost all = views(paths@);
    let ghost shown = searched_texts(all, separator);
    let mut i: usize = 0;
    assert(before + shown.take(0) =~= before);
    while i < paths.len()
        invariant
            i <= paths@.len(),
            all == views(paths@),
            shown == searched_texts(all, separator),
            views(arguments@) == before + shown.take(i as int),
        decreases paths@.len() - i,
    {
        let text = paths[i].text(separator);
        let path = strip_windows_verbatim_prefix(text.as_str());
        proof {
            assert(shown[i as int] == path@);
            assert((before + shown.take(i as int)).push(path@) =~= before + shown.take(i + 1));
        }
        arguments.push(path);
        i += 1;
    }
    assert(shown.take(i as int) =~= shown);
}

/// Output of a tool without the prefixes by which Windows marks paths as verbatim.
pub open spec fn sanitized(output: Seq<char>) -> Seq<char> {
    replaced(replaced(output, "\\\\?\\UNC\\"@, "\\\\"@), "\\\\?\\"@, ""@)
}

/// Output of a tool as it is shown.
pub fn sanitize_tool_output(output: &str) -> (text: String)
    ensures
        text@ == sanitized(output@),
{
    let shares = replace_text(output, "\\\\?\\UNC\\", "\\\\");
    replace_text(shares.as_str(), "\\\\?\\", "")
}

/// What a search says that found nothing.
pub open spec fn nothing_found(files: bool) -> Seq<char> {
    if files {
        "No files found under the requested paths."@
    } else {
        "No matches found."@
    }
}

/// `output`, or what is said where it is blank.
pub open spec fn found_or_nothing(files: bool, output: Seq<char>) -> Seq<char> {
    if blank(output) {
        nothing_found(files)
    } else {
        output
    }
}

/// What a search answers, from how ripgrep ended and what it wrote.
pub open spec fn search_answer(
    files: bool,
    succeeded: bool,
    code: Option<i32>,
    status: Seq<char>,
    stdout: Seq<char>,
    stderr: Seq<char>,
) -> Result<Seq<char>, ErrorView> {
    if succeeded {
        Ok(found_or_nothing(files, sanitized(stdout)))
    } else if code == Some(1i32) {
        Ok(found_or_nothing(files, sanitized(stdout) + sanitized(stderr)))
    } else {
        Err(
            ErrorView::Tool(
                "ripgrep failed with status "@ + status + ": "@ + sanitized(stderr),
            ),
        )
    }
}

fn shown_or_nothing(files: bool, output: String) -> (text: String)
    ensures
        text@ == found_or_nothing(files, output@),
{
    if is_blank(output.as_str()) {
        if files {
            "No files found under the requested paths.".to_owned()
        } else {
            "No matches found.".to_owned()
        }
    } else {
        output
    }
}

/// What a search answers, from how ripgrep ended, in numbers and in words, and the texts that it
/// wrote.
pub fn answer_search(
    files: bool,
    succeeded: bool,
    code: Option<i32>,
    status: &str,
    stdout: &str,
    stderr: &str,
) -> (r: Result<String, Error>)
    ensures
        crate::common::outcome(r) == search_answer(
            files,
            succeeded,
            code,
            status@,
            stdout@,
            stderr@,
        ),
{
    let shown = sanitize_tool_output(stdout);
    let errors = sanitize_tool_output(stderr);
    if succeeded {
        return Ok(shown_or_nothing(files, shown));
    }
    let nothing = match code {
        Some(n) => n == 1,
        None => false,
    };
    if nothing {
        return Ok(shown_or_nothing(files, concat2(shown.as_str(), errors.as_str())));
    }
    let mut message = "ripgrep failed with status ".to_owned();
    message.append(status);
    message.append(": ");
    message.append(errors.as_str());
    Err(Error::Tool(message))
}

/// What a search answers, from how ripgrep ended and the bytes that it wrote.
pub fn read_search_output(
    files: bool,
    succeeded: bool,
    code: Option<i32>,
    status: &str,
    stdout: &[u8],
    stderr: &[u8],
) -> (r: Result<String, Error>)
    ensures
        crate::common::outcome(r) == search_answer(
            files,
            succeeded,
            code,
            status@,
            lossy_text(stdout@),
            lossy_text(stderr@),
        ),
{
    let shown = from_utf8_lossy(stdout);
    let errors = from_utf8_lossy(stderr);
    answer_search(files, succeeded, code, status, shown.as_str(), errors.as_str())
}

} // verus!
