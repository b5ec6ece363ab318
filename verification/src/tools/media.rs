//! Capability-aware extension of the built-in text reader.

use vstd::prelude::*;

use crate::common::{lemma_views_push, outcome, views, Duplicate};
use crate::content::{ContentPart, ContentView, MessageContent, PartView};
use crate::content::{base64_standard, data_url_view};
use crate::error::{tool_error, Error, ErrorView};
use crate::provider::{CapabilitiesView, ModelCapabilities};
use crate::text::{concat3, decimal_text, join_texts, lower_ascii, same_text, slice_text, to_chars};
use crate::text::{ascii_lower, decimal, joined};
use crate::tools::file::ReadArgs;

verus! {

broadcast use lemma_views_push;

/// Maximum size of a local media file before base64 encoding (20 MiB).
/// Model-specific limits can be lower; large media must be resized or split by the application.
pub const READ_MAX_MEDIA_BYTES: usize = 20 * 1024 * 1024;

/// What a model can take as input beside text.
#[derive(Clone, Copy, Debug, PartialEq, Eq, Structural)]
pub enum Modality {
    Image,
    Video,
    Audio,
    File,
}

/// Which media formats a reader knows.
#[derive(Clone, Copy, Debug, PartialEq, Eq, Structural)]
pub enum FormatSet {
    /// The formats that OpenRouter takes.
    OpenRouter,
    /// The formats that llama.cpp's decoders take.
    LlamaCpp,
}

/// How a file is read.
#[derive(Clone, Copy, Debug, PartialEq, Eq)]
pub enum MediaRead {
    /// As text.
    Text,
    /// As media of a format.
    Media(Modality, &'static str),
}

/// What extends a reader of text: the formats that it knows, and what the model can take.
#[derive(Debug, PartialEq, Eq)]
pub struct MediaReader {
    pub formats: FormatSet,
    pub capabilities: ModelCapabilities,
}

/// The model of a [`MediaReader`].
pub struct MediaReaderView {
    pub formats: FormatSet,
    pub capabilities: CapabilitiesView,
}

/// The model of a [`MediaRead`].
pub enum MediaReadView {
    Text,
    Media(Modality, Seq<char>),
}

impl View for MediaReader {
    type V = MediaReaderView;

    open spec fn view(&self) -> MediaReaderView {
        MediaReaderView { formats: self.formats, capabilities: self.capabilities@ }
    }
}

impl View for MediaRead {
    type V = MediaReadView;

    open spec fn view(&self) -> MediaReadView {
        match self {
            MediaRead::Text => MediaReadView::Text,
            MediaRead::Media(modality, format) => MediaReadView::Media(*modality, format@),
        }
    }
}

impl Duplicate for MediaReader {
    fn duplicate(&self) -> (copy: Self) {
        MediaReader { formats: self.formats, capabilities: self.capabilities.duplicate() }
    }
}

/// The name of a modality, as metadata gives it.
pub open spec fn modality_name(modality: Modality) -> Seq<char> {
    match modality {
        Modality::Image => "image"@,
        Modality::Video => "video"@,
        Modality::Audio => "audio"@,
        Modality::File => "file"@,
    }
}

impl Modality {
    /// The name of this modality.
    pub fn name(self) -> (name: &'static str)
        ensures
            name@ == modality_name(self),
    {
        match self {
            Modality::Image => "image",
            Modality::Video => "video",
            Modality::Audio => "audio",
            Modality::File => "file",
        }
    }
}

// ---------------------------------------------------------------------------------------------
// Formats
// ---------------------------------------------------------------------------------------------

/// The modality and the format of files with the extension, in lower case.
pub open spec fn known_format(set: FormatSet, extension: Seq<char>) -> Option<(Modality, Seq<char>)> {
    if extension == "png"@ {
        Some((Modality::Image, "image/png"@))
    } else if extension == "jpg"@ {
        Some((Modality::Image, "image/jpeg"@))
    } else if extension == "jpeg"@ {
        Some((Modality::Image, "image/jpeg"@))
    } else if extension == "webp"@ {
        Some((Modality::Image, "image/webp"@))
    } else if extension == "gif"@ {
        Some((Modality::Image, "image/gif"@))
    } else if extension == "mp4"@ {
        Some((Modality::Video, "video/mp4"@))
    } else if extension == "mpeg"@ {
        Some((Modality::Video, "video/mpeg"@))
    } else if extension == "mpg"@ {
        Some((Modality::Video, "video/mpeg"@))
    } else if extension == "mov"@ {
        Some((Modality::Video, "video/mov"@))
    } else if extension == "webm"@ {
        Some((Modality::Video, "video/webm"@))
    } else if extension == "wav"@ {
        Some((Modality::Audio, "wav"@))
    } else if extension == "mp3"@ {
        Some((Modality::Audio, "mp3"@))
    } else if extension == "aiff"@ {
        Some((Modality::Audio, "aiff"@))
    } else if extension == "aif"@ {
        Some((Modality::Audio, "aiff"@))
    } else if extension == "aac"@ {
        Some((Modality::Audio, "aac"@))
    } else if extension == "ogg"@ {
        Some((Modality::Audio, "ogg"@))
    } else if extension == "flac"@ {
        Some((Modality::Audio, "flac"@))
    } else if extension == "m4a"@ {
        Some((Modality::Audio, "m4a"@))
    } else if extension == "pdf"@ {
        Some((Modality::File, "application/pdf"@))
    } else if set is LlamaCpp && extension == "bmp"@ {
        Some((Modality::Image, "image/bmp"@))
    } else if set is LlamaCpp && extension == "tga"@ {
        Some((Modality::Image, "image/tga"@))
    } else {
        None
    }
}

/// Whether the format is known, but not to the decoders.
pub open spec fn undecodable(set: FormatSet, format: Seq<char>) -> bool {
    set is LlamaCpp && (format == "image/webp"@ || format == "aiff"@ || format == "aac"@ || format
        == "ogg"@ || format == "m4a"@)
}

/// The position of the last dot, or -1.
pub open spec fn last_dot(name: Seq<char>) -> int
    decreases name.len(),
{
    if name.len() == 0 {
        -1
    } else if name.last() == '.' {
        name.len() - 1
    } else {
        last_dot(name.drop_last())
    }
}

/// The extension of a file name: what follows its last dot, unless that is its first character
/// too.
pub open spec fn extension(name: Seq<char>) -> Option<Seq<char>> {
    if last_dot(name) <= 0 || name == ".."@ {
        None
    } else {
        Some(name.skip(last_dot(name) + 1))
    }
}

/// The modality and the format of a file, by its name.
pub open spec fn media_format_of(set: FormatSet, name: Option<Seq<char>>) -> Option<
    (Modality, Seq<char>),
> {
    match name {
        None => None,
        Some(name) => match extension(name) {
            None => None,
            Some(extension) => known_format(set, extension.map_values(|c: char| ascii_lower(c))),
        },
    }
}

fn find_format(set: FormatSet, e: &str) -> (r: Option<(Modality, &'static str)>)
    ensures
        match r {
            Some((modality, format)) => known_format(set, e@) == Some((modality, format@)),
            None => known_format(set, e@) is None,
        },
{
    let llama = match set {
        FormatSet::LlamaCpp => true,
        FormatSet::OpenRouter => false,
    };
    if same_text(e, "png") {
        Some((Modality::Image, "image/png"))
    } else if same_text(e, "jpg") {
        Some((Modality::Image, "image/jpeg"))
    } else if same_text(e, "jpeg") {
        Some((Modality::Image, "image/jpeg"))
    } else if same_text(e, "webp") {
        Some((Modality::Image, "image/webp"))
    } else if same_text(e, "gif") {
        Some((Modality::Image, "image/gif"))
    } else if same_text(e, "mp4") {
        Some((Modality::Video, "video/mp4"))
    } else if same_text(e, "mpeg") {
        Some((Modality::Video, "video/mpeg"))
    } else if same_text(e, "mpg") {
        Some((Modality::Video, "video/mpeg"))
    } else if same_text(e, "mov") {
        Some((Modality::Video, "video/mov"))
    } else if same_text(e, "webm") {
        Some((Modality::Video, "video/webm"))
    } else if same_text(e, "wav") {
        Some((Modality::Audio, "wav"))
    } else if same_text(e, "mp3") {
        Some((Modality::Audio, "mp3"))
    } else if same_text(e, "aiff") {
        Some((Modality::Audio, "aiff"))
    } else if same_text(e, "aif") {
        Some((Modality::Audio, "aiff"))
    } else if same_text(e, "aac") {
        Some((Modality::Audio, "aac"))
    } else if same_text(e, "ogg") {
        Some((Modality::Audio, "ogg"))
    } else if same_text(e, "flac") {
        Some((Modality::Audio, "flac"))
    } else if same_text(e, "m4a") {
        Some((Modality::Audio, "m4a"))
    } else if same_text(e, "pdf") {
        Some((Modality::File, "application/pdf"))
    } else if llama && same_text(e, "bmp") {
        Some((Modality::Image, "image/bmp"))
    } else if llama && same_text(e, "tga") {
        Some((Modality::Image, "image/tga"))
    } else {
        None
    }
}

/// The extension of a file name.
pub fn extension_of(name: &str) -> (r: Option<String>)
    ensures
        match r {
            Some(text) => extension(name@) == Some(text@),
            None => extension(name@) is None,
        },
{
    let chars = to_chars(name);
    let mut end: usize = chars.len();
    assert(name@.take(end as int) =~= name@);
    while end > 0 && chars[end - 1] != '.'
        invariant
            end <= chars@.len(),
            chars@ == name@,
            last_dot(name@) == last_dot(name@.take(end as int)),
        decreases end,
    {
        assert(name@.take(end as int).drop_last() =~= name@.take(end - 1));
        end -= 1;
    }
    if end <= 1 || same_text(name, "..") {
        return None;
    }
    let text = slice_text(&chars, end, chars.len());
    assert(text@ =~= name@.skip(end as int));
    Some(text)
}

/// The modality and the format of a file, by its name.
pub fn media_format(set: FormatSet, name: Option<&str>) -> (r: Option<(Modality, &'static str)>)
    ensures
        match r {
            Some((modality, format)) => media_format_of(set, crate::common::view_of(name)) == Some(
                (modality, format@),
            ),
            None => media_format_of(set, crate::common::view_of(name)) is None,
        },
{
    match name {
        None => None,
        Some(name) => match extension_of(name) {
            None => None,
            Some(extension) => find_format(set, lower_ascii(extension.as_str()).as_str()),
        },
    }
}

// ---------------------------------------------------------------------------------------------
// Description
// ---------------------------------------------------------------------------------------------

/// What a description says of a modality.
pub open spec fn format_list(set: FormatSet, modality: Modality) -> Seq<char> {
    match (set, modality) {
        (FormatSet::OpenRouter, Modality::Image) => "images: .png, .jpg, .jpeg, .webp, .gif"@,
        (FormatSet::LlamaCpp, Modality::Image) => "images: .png, .jpg, .jpeg, .gif, .bmp, .tga"@,
        (_, Modality::Video) => "videos: .mp4, .mpeg, .mpg, .mov, .webm"@,
        (FormatSet::OpenRouter, Modality::Audio) =>
        "audio: .wav, .mp3, .aiff, .aif, .aac, .ogg, .flac, .m4a"@,
        (FormatSet::LlamaCpp, Modality::Audio) => "audio: .wav, .mp3, .flac"@,
        (_, Modality::File) => "PDF documents: .pdf"@,
    }
}

/// The list for a modality, where the model takes it.
pub open spec fn listed(reader: MediaReaderView, modality: Modality) -> Seq<Seq<char>> {
    if reader.capabilities.modalities.contains(modality_name(modality)) {
        seq![format_list(reader.formats, modality)]
    } else {
        seq![]
    }
}

/// The lists for all that the model takes.
pub open spec fn format_lists(reader: MediaReaderView) -> Seq<Seq<char>> {
    listed(reader, Modality::Image) + listed(reader, Modality::Video) + listed(
        reader,
        Modality::Audio,
    ) + listed(reader, Modality::File)
}

/// What the description of a reader of text is extended by.
pub open spec fn media_description(lists: Seq<Seq<char>>) -> Seq<char> {
    "\n\nThis model can also read these local media formats: "@ + joined(lists, "; "@)
        + ". The path's extension selects the format. Media is attached directly for analysis, rather than converted to text. Media reads accept only path, return the complete file, and are capped at 20 MiB before encoding. Do not supply text offsets/counts for media. Upstream format limits may be narrower."@
}

fn list_for(set: FormatSet, modality: Modality) -> (text: &'static str)
    ensures
        text@ == format_list(set, modality),
{
    match (set, modality) {
        (FormatSet::OpenRouter, Modality::Image) => "images: .png, .jpg, .jpeg, .webp, .gif",
        (FormatSet::LlamaCpp, Modality::Image) => "images: .png, .jpg, .jpeg, .gif, .bmp, .tga",
        (_, Modality::Video) => "videos: .mp4, .mpeg, .mpg, .mov, .webm",
        (FormatSet::OpenRouter, Modality::Audio) =>
        "audio: .wav, .mp3, .aiff, .aif, .aac, .ogg, .flac, .m4a",
        (FormatSet::LlamaCpp, Modality::Audio) => "audio: .wav, .mp3, .flac",
        (_, Modality::File) => "PDF documents: .pdf",
    }
}

impl MediaReader {
    fn push_list(&self, lists: &mut Vec<String>, modality: Modality)
        ensures
            views(final(lists)@) == views(old(lists)@) + listed(self@, modality),
    {
        let ghost before = views(lists@);
        if self.capabilities.supports_input(modality.name()) {
            lists.push(list_for(self.formats, modality).to_owned());
            assert(views(lists@) =~= before + listed(self@, modality));
        } else {
            assert(before + Seq::<Seq<char>>::empty() =~= before);
        }
    }

    /// `description` extended by the formats that the model takes; nothing where it takes none.
    pub fn describe(&self, description: &str) -> (r: Option<String>)
        ensures
            match r {
                Some(text) => format_lists(self@).len() > 0 && text@ == description@
                    + media_description(format_lists(self@)),
                None => format_lists(self@).len() == 0,
            },
    {
        let mut lists: Vec<String> = Vec::new();
        assert(views(lists@) + listed(self@, Modality::Image) =~= listed(self@, Modality::Image));
        self.push_list(&mut lists, Modality::Image);
        self.push_list(&mut lists, Modality::Video);
        self.push_list(&mut lists, Modality::Audio);
        self.push_list(&mut lists, Modality::File);
        if lists.len() == 0 {
            return None;
        }
        let notice = concat3(
            "\n\nThis model can also read these local media formats: ",
            join_texts(&lists, "; ").as_str(),
            ". The path's extension selects the format. Media is attached directly for analysis, rather than converted to text. Media reads accept only path, return the complete file, and are capped at 20 MiB before encoding. Do not supply text offsets/counts for media. Upstream format limits may be narrower.",
        );
        Some(crate::text::concat2(description, notice.as_str()))
    }

    /// How a file is read, by its name and by what is asked for.
    pub fn plan(&self, name: Option<&str>, args: &ReadArgs) -> (r: Result<MediaRead, Error>)
        ensures
            outcome(r) == read_plan(self@, crate::common::view_of(name), *args),
    {
        let (modality, format) = match media_format(self.formats, name) {
            Some(known) => known,
            None => {
                return Ok(MediaRead::Text);
            },
        };
        if !self.capabilities.supports_input(modality.name()) {
            let mut message = "model '".to_owned();
            message.append(self.capabilities.model.as_str());
            message.append("' does not advertise ");
            message.append(modality.name());
            message.append(" input support");
            return Err(Error::Tool(message));
        }
        if is_undecodable(self.formats, format) {
            let message = crate::text::concat2("llama.cpp decoders do not support ", format);
            return Err(Error::Tool(message));
        }
        if args.is_partial() {
            return Err(
                tool_error(
                    "media reads return the complete file; text offsets/counts are not supported",
                ),
            );
        }
        Ok(MediaRead::Media(modality, format))
    }
}

fn is_undecodable(set: FormatSet, format: &str) -> (b: bool)
    ensures
        b == undecodable(set, format@),
{
    match set {
        FormatSet::OpenRouter => false,
        FormatSet::LlamaCpp => same_text(format, "image/webp") || same_text(format, "aiff")
            || same_text(format, "aac") || same_text(format, "ogg") || same_text(format, "m4a"),
    }
}

// ---------------------------------------------------------------------------------------------
// Reading
// ---------------------------------------------------------------------------------------------

/// How a file is read, by its name and by what is asked for.
pub open spec fn read_plan(
    reader: MediaReaderView,
    name: Option<Seq<char>>,
    args: ReadArgs,
) -> Result<MediaReadView, ErrorView> {
    match media_format_of(reader.formats, name) {
        None => Ok(MediaReadView::Text),
        Some((modality, format)) => if !reader.capabilities.modalities.contains(
            modality_name(modality),
        ) {
            Err(
                ErrorView::Tool(
                    "model '"@ + reader.capabilities.model + "' does not advertise "@
                        + modality_name(modality) + " input support"@,
                ),
            )
        } else if undecodable(reader.formats, format) {
            Err(ErrorView::Tool("llama.cpp decoders do not support "@ + format))
        } else if args.character_offset is Some || args.line_offset is Some
            || args.character_count is Some || args.line_count is Some {
            Err(
                ErrorView::Tool(
                    "media reads return the complete file; text offsets/counts are not supported"@,
                ),
            )
        } else {
            Ok(MediaReadView::Media(modality, format))
        },
    }
}

/// What is said of a file over the limit.
pub open spec fn too_large() -> ErrorView {
    ErrorView::Tool(
        "media file exceeds the read limit of 20 MiB; resize or split it before reading"@,
    )
}

fn media_too_large() -> (e: Error)
    ensures
        e@ == too_large(),
{
    tool_error("media file exceeds the read limit of 20 MiB; resize or split it before reading")
}

/// Whether a media file can be read: it must be a regular file within the limit.
pub fn check_media(is_file: bool, size: u64) -> (r: Result<(), Error>)
    ensures
        match r {
            Ok(_) => is_file && size <= READ_MAX_MEDIA_BYTES,
            Err(e) => if is_file {
                size > READ_MAX_MEDIA_BYTES && e@ == too_large()
            } else {
                e@ == ErrorView::Tool("read requires a regular file"@)
            },
        },
{
    if !is_file {
        return Err(tool_error("read requires a regular file"));
    }
    if size > READ_MAX_MEDIA_BYTES as u64 {
        return Err(media_too_large());
    }
    Ok(())
}

/// The content part for a media file.
pub open spec fn media_part(
    modality: Modality,
    format: Seq<char>,
    name: Seq<char>,
    bytes: Seq<u8>,
) -> PartView {
    match modality {
        Modality::Image => PartView::Image { url: data_url_view(format, bytes), detail: None },
        Modality::Video => PartView::Video { url: data_url_view(format, bytes) },
        Modality::Audio => PartView::Audio { data: base64_standard(bytes), format },
        Modality::File => PartView::File {
            filename: Some(name),
            data: data_url_view("application/pdf"@, bytes),
        },
    }
}

/// What is read of a media file: a line about it, and the file.
pub open spec fn media_parts(
    modality: Modality,
    format: Seq<char>,
    path: Seq<char>,
    name: Seq<char>,
    bytes: Seq<u8>,
) -> Seq<PartView> {
    seq![
        PartView::Text(
            "Read "@ + path + " ("@ + format + ", "@ + decimal(bytes.len()) + " bytes)."@,
        ),
        media_part(modality, format, name, bytes),
    ]
}

/// The content of a media file whose path, as it was given, is `path`, and whose name is `name`.
pub fn media_content(
    modality: Modality,
    format: &str,
    path: &str,
    name: &str,
    bytes: &Vec<u8>,
) -> (r: Result<MessageContent, Error>)
    ensures
        match r {
            Ok(content) => bytes@.len() <= READ_MAX_MEDIA_BYTES && content@ == ContentView::Parts(
                media_parts(modality, format@, path@, name@, bytes@),
            ),
            Err(e) => bytes@.len() > READ_MAX_MEDIA_BYTES && e@ == too_large(),
        },
{
    if bytes.len() > READ_MAX_MEDIA_BYTES {
        return Err(media_too_large());
    }
    let part = match modality {
        Modality::Image => ContentPart::image_bytes(format, bytes.as_slice()),
        Modality::Video => ContentPart::video_bytes(format, bytes.as_slice()),
        Modality::Audio => ContentPart::audio_bytes(format, bytes.as_slice()),
        Modality::File => ContentPart::pdf_bytes(name, bytes.as_slice()),
    };
    let mut line = "Read ".to_owned();
    line.append(path);
    line.append(" (");
    line.append(format);
    line.append(", ");
    line.append(decimal_text(bytes.len() as u64).as_str());
    line.append(" bytes).");
    let mut parts: Vec<ContentPart> = Vec::new();
    parts.push(ContentPart::text(line));
    parts.push(part);
    proof {
        assert(views(parts@) =~= media_parts(modality, format@, path@, name@, bytes@));
    }
    Ok(MessageContent::Parts(parts))
}

// ---------------------------------------------------------------------------------------------
// Laws
// ---------------------------------------------------------------------------------------------

/// Media is read only where the model takes it, and never in part.
pub proof fn media_is_read_only_where_it_is_taken(
    reader: MediaReaderView,
    name: Option<Seq<char>>,
    args: ReadArgs,
    modality: Modality,
    format: Seq<char>,
)
    requires
        read_plan(reader, name, args) == Ok::<MediaReadView, ErrorView>(
            MediaReadView::Media(modality, format),
        ),
    ensures
        reader.capabilities.modalities.contains(modality_name(modality)),
        args.character_offset is None && args.line_offset is None,
        args.character_count is None && args.line_count is None,
        !undecodable(reader.formats, format),
{
}

/// A reader of media reads every other file as text, whatever part of it is asked for.
pub proof fn other_files_are_read_as_text(
    reader: MediaReaderView,
    name: Option<Seq<char>>,
    args: ReadArgs,
)
    ensures
        read_plan(reader, name, args) == Ok::<MediaReadView, ErrorView>(MediaReadView::Text)
            <==> media_format_of(reader.formats, name) is None,
{
}

} // verus!
