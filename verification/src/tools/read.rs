//! Calls of the `read` tool, from its arguments to what is read.

use vstd::prelude::*;

use crate::common::view_of;
use crate::content::{ContentView, MessageContent};
use crate::error::{Error, ErrorView};
use crate::path::{path_text, FilePath, Part};
use crate::state::under_any;
use crate::tools::builtin::{BuiltinTool, BuiltinView};
use crate::tools::file::page::{
    clamped, offset_of, page_start, PageReader, READ_MAX_CHARS, READ_MAX_LINES,
};
use crate::tools::file::{about_path, check_read, ensure_can_read, read_refused, ReadArgs};
use crate::tools::media::{check_media, media_content, MediaRead, MediaReadView, MediaReaderView};
use crate::tools::media::{media_format_of, media_parts, modality_name, undecodable};
use crate::tools::media::{read_plan, too_large, Modality, READ_MAX_MEDIA_BYTES};

verus! {

/// A file that may be read, as text.
pub struct TextFile {
    path: FilePath,
    text: String,
    args: ReadArgs,
}

/// A file that may be read, as media.
pub struct MediaFile {
    path: FilePath,
    modality: Modality,
    format: &'static str,
    given: String,
    name: String,
}

/// How a file that may be read is read.
pub enum ReadStep {
    Text(TextFile),
    Media(MediaFile),
}

/// The model of a [`TextFile`].
pub struct TextFileView {
    pub path: Seq<Part>,
    pub text: Seq<char>,
    pub args: ReadArgs,
}

/// The model of a [`MediaFile`].
pub struct MediaFileView {
    pub path: Seq<Part>,
    pub modality: Modality,
    pub format: Seq<char>,
    pub given: Seq<char>,
    pub name: Seq<char>,
}

/// The model of a [`ReadStep`].
pub enum StepView {
    Text(TextFileView),
    Media(MediaFileView),
}

impl View for TextFile {
    type V = TextFileView;

    closed spec fn view(&self) -> TextFileView {
        TextFileView { path: self.path@, text: self.text@, args: self.args }
    }
}

impl View for MediaFile {
    type V = MediaFileView;

    closed spec fn view(&self) -> MediaFileView {
        MediaFileView {
            path: self.path@,
            modality: self.modality,
            format: self.format@,
            given: self.given@,
            name: self.name@,
        }
    }
}

impl View for ReadStep {
    type V = StepView;

    open spec fn view(&self) -> StepView {
        match self {
            ReadStep::Text(file) => StepView::Text(file@),
            ReadStep::Media(file) => StepView::Media(file@),
        }
    }
}

/// A file's name, or nothing.
pub open spec fn name_or_empty(name: Option<Seq<char>>) -> Seq<char> {
    match name {
        Some(name) => name,
        None => seq![],
    }
}

/// What a read begins with, for the name of the file as it was given, the normalized path and its
/// text. The roots decide first, then the format and what the model takes.
pub open spec fn read_start(
    tool: BuiltinView,
    args: ReadArgs,
    name: Option<Seq<char>>,
    path: Seq<Part>,
    text: Seq<char>,
) -> Result<StepView, ErrorView> {
    if !under_any(path, tool.roots.read) {
        Err(read_refused(args.path@))
    } else {
        match tool.media {
            None => Ok(StepView::Text(TextFileView { path, text, args })),
            Some(reader) => match read_plan(reader, name, args) {
                Err(error) => Err(error),
                Ok(MediaReadView::Text) => Ok(StepView::Text(TextFileView { path, text, args })),
                Ok(MediaReadView::Media(modality, format)) => Ok(
                    StepView::Media(
                        MediaFileView {
                            path,
                            modality,
                            format,
                            given: args.path@,
                            name: name_or_empty(name),
                        },
                    ),
                ),
            },
        }
    }
}

/// Why an opened media file is not read, where it is not.
pub open spec fn opened_error(is_file: bool, size: u64) -> Option<ErrorView> {
    if !is_file {
        Some(ErrorView::Tool("read requires a regular file"@))
    } else if size > READ_MAX_MEDIA_BYTES {
        Some(too_large())
    } else {
        None
    }
}

/// The content of a media file with the given bytes.
pub open spec fn media_result(file: MediaFileView, bytes: Seq<u8>) -> Result<
    ContentView,
    ErrorView,
> {
    if bytes.len() > READ_MAX_MEDIA_BYTES {
        Err(too_large())
    } else {
        Ok(
            ContentView::Parts(
                media_parts(file.modality, file.format, file.given, file.name, bytes),
            ),
        )
    }
}

impl BuiltinTool {
    /// Begin to read a file whose name, as it was given, is `name`, and whose normalized path is
    /// `normalized`, on a system with the separator.
    pub fn begin_read(
        &self,
        args: ReadArgs,
        name: Option<&str>,
        normalized: FilePath,
        separator: char,
    ) -> (r: Result<ReadStep, Error>)
        ensures
            match read_start(
                self@,
                args,
                view_of(name),
                normalized@,
                path_text(normalized@, separator),
            ) {
                Ok(step) => r matches Ok(s) && s@ == step,
                Err(error) => r matches Err(e) && e@ == error,
            },
    {
        let text = normalized.text(separator);
        let path = match ensure_can_read(&self.state, args.path.as_str(), normalized) {
            Ok(path) => path,
            Err(error) => return Err(error),
        };
        let plan = match &self.media {
            None => MediaRead::Text,
            Some(reader) => match reader.plan(name, &args) {
                Ok(plan) => plan,
                Err(error) => return Err(error),
            },
        };
        match plan {
            MediaRead::Text => Ok(ReadStep::Text(TextFile { path, text, args })),
            MediaRead::Media(modality, format) => {
                let name = match name {
                    Some(name) => name.to_owned(),
                    None => {
                        let none = String::new();
                        assert(none@ =~= seq![]);
                        none
                    },
                };
                Ok(ReadStep::Media(MediaFile { path, modality, format, given: args.path, name }))
            },
        }
    }
}

impl TextFile {
    /// The file.
    pub fn path(&self) -> (path: &FilePath)
        ensures
            path@ == self@.path,
    {
        &self.path
    }

    /// Whether the file can be read, once it is known whether it is a directory.
    pub fn on_found(&self, is_directory: bool) -> (r: Result<(), Error>)
        ensures
            match r {
                Ok(_) => !is_directory,
                Err(e) => is_directory && e@ == about_path(
                    "read only accepts UTF-8 files, not directories: "@,
                    self@.text,
                    ". Use ripgrep with files=true to list files."@,
                ),
            },
    {
        check_read(self.text.as_str(), is_directory)
    }

    /// A reader for the requested part of the file, once it is open.
    pub fn on_opened(&self) -> (r: Result<PageReader, Error>)
        ensures
            match r {
                Ok(reader) => {
                    &&& self@.args.line_count != Some(0usize)
                    &&& self@.args.character_count != Some(0usize)
                    &&& reader.wf()
                    &&& reader@ == page_start(
                        offset_of(self@.args.line_offset),
                        offset_of(self@.args.character_offset),
                        clamped(self@.args.line_count, READ_MAX_LINES),
                        clamped(self@.args.character_count, READ_MAX_CHARS),
                    )
                },
                Err(e) => {
                    &&& self@.args.line_count == Some(0usize) || self@.args.character_count == Some(
                        0usize,
                    )
                    &&& e@ == ErrorView::Tool(
                        "line-count and character-count must be positive when provided"@,
                    )
                },
            },
    {
        self.args.reader()
    }
}

impl MediaFile {
    /// The file.
    pub fn path(&self) -> (path: &FilePath)
        ensures
            path@ == self@.path,
    {
        &self.path
    }

    /// Whether the opened file can be read: it must be a regular file within the limit.
    pub fn on_opened(&self, is_file: bool, size: u64) -> (r: Result<(), Error>)
        ensures
            match opened_error(is_file, size) {
                None => r is Ok,
                Some(error) => r matches Err(e) && e@ == error,
            },
    {
        check_media(is_file, size)
    }

    /// What is read: a line about the file, and the file.
    pub fn on_bytes(&self, bytes: &Vec<u8>) -> (r: Result<MessageContent, Error>)
        ensures
            match media_result(self@, bytes@) {
                Ok(content) => r matches Ok(c) && c@ == content,
                Err(error) => r matches Err(e) && e@ == error,
            },
    {
        media_content(
            self.modality,
            self.format,
            self.given.as_str(),
            self.name.as_str(),
            bytes,
        )
    }
}

// ---------------------------------------------------------------------------------------------
// Laws
// ---------------------------------------------------------------------------------------------

/// The whole of a read of a media file: what it begins with, then the opened file, then its bytes.
/// Nothing for a file that is read as text.
pub open spec fn media_read(
    tool: BuiltinView,
    args: ReadArgs,
    name: Option<Seq<char>>,
    path: Seq<Part>,
    text: Seq<char>,
    is_file: bool,
    size: u64,
    bytes: Seq<u8>,
) -> Result<Option<ContentView>, ErrorView> {
    match read_start(tool, args, name, path, text) {
        Err(error) => Err(error),
        Ok(StepView::Text(_)) => Ok(None),
        Ok(StepView::Media(file)) => match opened_error(is_file, size) {
            Some(error) => Err(error),
            None => match media_result(file, bytes) {
                Err(error) => Err(error),
                Ok(content) => Ok(Some(content)),
            },
        },
    }
}

/// Whether a part of the file is asked for, and not the whole.
pub open spec fn partial(args: ReadArgs) -> bool {
    args.character_offset is Some || args.line_offset is Some || args.character_count is Some
        || args.line_count is Some
}

/// A file of a media format is read exactly where it is under a read root, the model takes its
/// modality, the provider decodes its format, the whole file is asked for, and it is a regular
/// file within the limit. What is read is a line that names the path as it was given and one part
/// that encodes the whole file.
pub proof fn media_is_read_whole_where_it_may_be(
    tool: BuiltinView,
    reader: MediaReaderView,
    modality: Modality,
    format: Seq<char>,
    args: ReadArgs,
    name: Option<Seq<char>>,
    path: Seq<Part>,
    text: Seq<char>,
    is_file: bool,
    size: u64,
    bytes: Seq<u8>,
)
    requires
        tool.media == Some(reader),
        media_format_of(reader.formats, name) == Some((modality, format)),
    ensures
        media_read(tool, args, name, path, text, is_file, size, bytes) is Ok <==> {
            &&& under_any(path, tool.roots.read)
            &&& reader.capabilities.modalities.contains(modality_name(modality))
            &&& !undecodable(reader.formats, format)
            &&& !partial(args)
            &&& is_file
            &&& size <= READ_MAX_MEDIA_BYTES
            &&& bytes.len() <= READ_MAX_MEDIA_BYTES
        },
        media_read(tool, args, name, path, text, is_file, size, bytes) matches Ok(content)
            ==> content == Some(
            ContentView::Parts(
                media_parts(modality, format, args.path@, name_or_empty(name), bytes),
            ),
        ),
        !under_any(path, tool.roots.read) ==> media_read(
            tool,
            args,
            name,
            path,
            text,
            is_file,
            size,
            bytes,
        ) == Err::<Option<ContentView>, ErrorView>(read_refused(args.path@)),
{
}

/// No file outside the read roots is opened: a read of one is refused whatever the tool, the
/// arguments and the file are, and a file that is opened is the one that was allowed.
pub proof fn reads_stay_under_the_read_roots(
    tool: BuiltinView,
    args: ReadArgs,
    name: Option<Seq<char>>,
    path: Seq<Part>,
    text: Seq<char>,
)
    ensures
        !under_any(path, tool.roots.read) ==> read_start(tool, args, name, path, text) == Err::<
            StepView,
            ErrorView,
        >(read_refused(args.path@)),
        match read_start(tool, args, name, path, text) {
            Ok(StepView::Text(file)) => file.path == path && under_any(path, tool.roots.read),
            Ok(StepView::Media(file)) => file.path == path && under_any(path, tool.roots.read),
            Err(_) => true,
        },
{
}

/// Without media, and for every other file, a read under a root is a read of text.
pub proof fn other_reads_are_of_text(
    tool: BuiltinView,
    args: ReadArgs,
    name: Option<Seq<char>>,
    path: Seq<Part>,
    text: Seq<char>,
)
    requires
        under_any(path, tool.roots.read),
        tool.media matches Some(reader) ==> media_format_of(reader.formats, name) is None,
    ensures
        read_start(tool, args, name, path, text) == Ok::<StepView, ErrorView>(
            StepView::Text(TextFileView { path, text, args }),
        ),
{
}

} // verus!
