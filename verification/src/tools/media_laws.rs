//! What holds of files as tools read and change them: which formats there are, what is refused, and
//! what is reported.

use vstd::prelude::*;

use crate::content::{base64_standard, ContentView, PartView};
use crate::error::ErrorView;
use crate::path::{without_verbatim_prefix, Part};
use crate::provider::ProviderKind;
use crate::state::under_any;
use crate::text::{ascii_lower, decimal};
use crate::tools::builtin::provider_formats;
use crate::tools::file::change::{creation_start, creation_write, deletion_start};
use crate::tools::file::change::deletion_removal;
use crate::tools::file::page::{clamped, marked, offset_of, READ_MAX_CHARS, READ_MAX_LINES};
use crate::tools::file::{CreateFileArgs, DeleteFileArgs, ReadArgs};
use crate::tools::media::{extension, format_lists, known_format, last_dot, media_format_of};
use crate::tools::media::{media_parts, read_plan, FormatSet, MediaReadView, MediaReaderView};
use crate::tools::media::Modality;
use crate::tools::read::{media_result, opened_error, MediaFileView};

verus! {

// ---------------------------------------------------------------------------------------------
// Formats
// ---------------------------------------------------------------------------------------------

/// The formats that every provider's files may have: an extension, the kind of media, and the
/// format that it is sent as.
pub open spec fn common_formats() -> Seq<(Seq<char>, Modality, Seq<char>)> {
    seq![
        ("png"@, Modality::Image, "image/png"@),
        ("jpg"@, Modality::Image, "image/jpeg"@),
        ("jpeg"@, Modality::Image, "image/jpeg"@),
        ("webp"@, Modality::Image, "image/webp"@),
        ("gif"@, Modality::Image, "image/gif"@),
        ("mp4"@, Modality::Video, "video/mp4"@),
        ("mpeg"@, Modality::Video, "video/mpeg"@),
        ("mpg"@, Modality::Video, "video/mpeg"@),
        ("mov"@, Modality::Video, "video/mov"@),
        ("webm"@, Modality::Video, "video/webm"@),
        ("wav"@, Modality::Audio, "wav"@),
        ("mp3"@, Modality::Audio, "mp3"@),
        ("aiff"@, Modality::Audio, "aiff"@),
        ("aif"@, Modality::Audio, "aiff"@),
        ("aac"@, Modality::Audio, "aac"@),
        ("ogg"@, Modality::Audio, "ogg"@),
        ("flac"@, Modality::Audio, "flac"@),
        ("m4a"@, Modality::Audio, "m4a"@),
        ("pdf"@, Modality::File, "application/pdf"@),
    ]
}

/// The formats of a set: llama.cpp decodes two more kinds of images.
pub open spec fn formats(set: FormatSet) -> Seq<(Seq<char>, Modality, Seq<char>)> {
    match set {
        FormatSet::OpenRouter => common_formats(),
        FormatSet::LlamaCpp => common_formats() + seq![
            ("bmp"@, Modality::Image, "image/bmp"@),
            ("tga"@, Modality::Image, "image/tga"@),
        ],
    }
}

/// A number by which the extensions are told apart.
spec fn code(text: Seq<char>) -> int {
    text.len() * 16777216 + text[0] as int * 65536 + text[1] as int * 256 + text.last() as int
}

proof fn lemma_codes()
    ensures
        code("png"@) == 57699943,
        code("jpg"@) == 57307239,
        code("jpeg"@) == 74084455,
        code("webp"@) == 74933616,
        code("gif"@) == 57108838,
        code("mp4"@) == 57503796,
        code("mpeg"@) == 74281063,
        code("mpg"@) == 57503847,
        code("mov"@) == 57503606,
        code("webm"@) == 74933613,
        code("wav"@) == 58155382,
        code("mp3"@) == 57503795,
        code("aiff"@) == 73492838,
        code("aif"@) == 56715622,
        code("aac"@) == 56713571,
        code("ogg"@) == 57632615,
        code("flac"@) == 73821283,
        code("m4a"@) == 57488481,
        code("pdf"@) == 57697382,
        code("bmp"@) == 56782192,
        code("tga"@) == 57960289,
{
    reveal_strlit("png");
    reveal_strlit("jpg");
    reveal_strlit("jpeg");
    reveal_strlit("webp");
    reveal_strlit("gif");
    reveal_strlit("mp4");
    reveal_strlit("mpeg");
    reveal_strlit("mpg");
    reveal_strlit("mov");
    reveal_strlit("webm");
    reveal_strlit("wav");
    reveal_strlit("mp3");
    reveal_strlit("aiff");
    reveal_strlit("aif");
    reveal_strlit("aac");
    reveal_strlit("ogg");
    reveal_strlit("flac");
    reveal_strlit("m4a");
    reveal_strlit("pdf");
    reveal_strlit("bmp");
    reveal_strlit("tga");
}

proof fn lemma_known_format(set: FormatSet, k: int)
    requires
        0 <= k < formats(set).len(),
    ensures
        known_format(set, formats(set)[k].0) == Some((formats(set)[k].1, formats(set)[k].2)),
{
    lemma_codes();
    let e = formats(set)[k].0;
    if k == 0 {
        assert(e == "png"@);
    } else if k == 1 {
        assert(e == "jpg"@);
    } else if k == 2 {
        assert(e == "jpeg"@);
    } else if k == 3 {
        assert(e == "webp"@);
    } else if k == 4 {
        assert(e == "gif"@);
    } else if k == 5 {
        assert(e == "mp4"@);
    } else if k == 6 {
        assert(e == "mpeg"@);
    } else if k == 7 {
        assert(e == "mpg"@);
    } else if k == 8 {
        assert(e == "mov"@);
    } else if k == 9 {
        assert(e == "webm"@);
    } else if k == 10 {
        assert(e == "wav"@);
    } else if k == 11 {
        assert(e == "mp3"@);
    } else if k == 12 {
        assert(e == "aiff"@);
    } else if k == 13 {
        assert(e == "aif"@);
    } else if k == 14 {
        assert(e == "aac"@);
    } else if k == 15 {
        assert(e == "ogg"@);
    } else if k == 16 {
        assert(e == "flac"@);
    } else if k == 17 {
        assert(e == "m4a"@);
    } else if k == 18 {
        assert(e == "pdf"@);
    } else if k == 19 {
        assert(e == "bmp"@);
    } else if k == 20 {
        assert(e == "tga"@);
    }
}

proof fn lemma_last_dot(stem: Seq<char>, ending: Seq<char>)
    requires
        !ending.contains('.'),
    ensures
        last_dot(stem.push('.') + ending) == stem.len(),
    decreases ending.len(),
{
    let name = stem.push('.') + ending;
    if ending.len() == 0 {
        assert(name =~= stem.push('.'));
    } else {
        assert(ending.contains(ending.last()));
        assert(name.last() == ending.last());
        assert(name.drop_last() =~= stem.push('.') + ending.drop_last());
        assert forall|c: char| ending.drop_last().contains(c) implies ending.contains(c) by {
            let i = choose|i: int| 0 <= i < ending.drop_last().len() && ending.drop_last()[i] == c;
            assert(ending[i] == c);
        }
        lemma_last_dot(stem, ending.drop_last());
    }
}

proof fn lemma_no_dot(name: Seq<char>)
    requires
        !name.contains('.'),
    ensures
        last_dot(name) == -1,
    decreases name.len(),
{
    if name.len() > 0 {
        assert(name.contains(name.last()));
        assert forall|c: char| name.drop_last().contains(c) implies name.contains(c) by {
            let i = choose|i: int| 0 <= i < name.drop_last().len() && name.drop_last()[i] == c;
            assert(name[i] == c);
        }
        lemma_no_dot(name.drop_last());
    }
}

/// The extension of a file's name selects its format, in whatever case it is written and whatever
/// stands before it; a name without an extension, or with another one, is no media.
pub proof fn extensions_select_the_format(
    set: FormatSet,
    stem: Seq<char>,
    ending: Seq<char>,
    k: int,
)
    requires
        stem.len() > 0,
        ending.len() > 0,
        !ending.contains('.'),
    ensures
        ({
            let lower = ending.map_values(|c: char| ascii_lower(c));
            let found = media_format_of(set, Some(stem.push('.') + ending));
            &&& 0 <= k < formats(set).len() && formats(set)[k].0 == lower ==> found == Some(
                (formats(set)[k].1, formats(set)[k].2),
            )
            &&& (forall|i: int| 0 <= i < formats(set).len() ==> (#[trigger] formats(set)[i]).0
                != lower) ==> found is None
        }),
        media_format_of(set, Some(seq!['.'] + ending)) is None,
        !stem.contains('.') ==> media_format_of(set, Some(stem)) is None,
        media_format_of(set, None) is None,
{
    let name = stem.push('.') + ending;
    let lower = ending.map_values(|c: char| ascii_lower(c));
    lemma_last_dot(stem, ending);
    reveal_strlit("..");
    if name == ".."@ {
        assert(ending.contains(ending[0]));
        assert(name[name.len() - 1] == ending[ending.len() - 1]);
        assert(ending.contains(ending[ending.len() - 1]));
    }
    assert(name.skip(stem.len() as int + 1) =~= ending);
    assert(extension(name) == Some(ending));
    if 0 <= k < formats(set).len() && formats(set)[k].0 == lower {
        lemma_known_format(set, k);
    }
    if forall|i: int| 0 <= i < formats(set).len() ==> (#[trigger] formats(set)[i]).0 != lower {
        let all = formats(set);
        assert(all[0].0 != lower && all[1].0 != lower && all[2].0 != lower && all[3].0 != lower
            && all[4].0 != lower && all[5].0 != lower && all[6].0 != lower && all[7].0 != lower
            && all[8].0 != lower && all[9].0 != lower && all[10].0 != lower && all[11].0 != lower
            && all[12].0 != lower && all[13].0 != lower && all[14].0 != lower && all[15].0 != lower
            && all[16].0 != lower && all[17].0 != lower && all[18].0 != lower);
        if set is LlamaCpp {
            assert(all[19].0 != lower && all[20].0 != lower);
        }
    }
    lemma_last_dot(seq![], ending);
    assert(Seq::<char>::empty().push('.') + ending =~= seq!['.'] + ending);
    if !stem.contains('.') {
        lemma_no_dot(stem);
    }
}

/// OpenRouter's formats are those of every provider but llama.cpp.
pub proof fn llama_has_formats_of_its_own(kind: ProviderKind)
    ensures
        provider_formats(kind) is LlamaCpp <==> kind == ProviderKind::LlamaCpp,
{
}

// ---------------------------------------------------------------------------------------------
// Reading
// ---------------------------------------------------------------------------------------------

/// The name of a kind of media in a model's capabilities.
pub open spec fn advertised_as(modality: Modality) -> Seq<char> {
    match modality {
        Modality::Image => "image"@,
        Modality::Video => "video"@,
        Modality::Audio => "audio"@,
        Modality::File => "file"@,
    }
}

/// Media is read where the model advertises its kind, its format can be decoded, and no part of it
/// is asked for; otherwise the first of these that fails is told.
pub proof fn media_is_refused_for_its_reason(
    reader: MediaReaderView,
    name: Option<Seq<char>>,
    args: ReadArgs,
    modality: Modality,
    format: Seq<char>,
)
    requires
        media_format_of(reader.formats, name) == Some((modality, format)),
    ensures
        ({
            let plan = read_plan(reader, name, args);
            let advertised = reader.capabilities.modalities.contains(advertised_as(modality));
            let decoded = reader.formats is OpenRouter || (format != "image/webp"@ && format
                != "aiff"@ && format != "aac"@ && format != "ogg"@ && format != "m4a"@);
            let whole = args.character_offset is None && args.line_offset is None
                && args.character_count is None && args.line_count is None;
            &&& advertised && decoded && whole ==> plan == Ok::<MediaReadView, ErrorView>(
                MediaReadView::Media(modality, format),
            )
            &&& !advertised ==> plan == Err::<MediaReadView, ErrorView>(
                ErrorView::Tool(
                    "model '"@ + reader.capabilities.model + "' does not advertise "@
                        + advertised_as(modality) + " input support"@,
                ),
            )
            &&& advertised && !decoded ==> plan == Err::<MediaReadView, ErrorView>(
                ErrorView::Tool("llama.cpp decoders do not support "@ + format),
            )
            &&& advertised && decoded && !whole ==> plan == Err::<MediaReadView, ErrorView>(
                ErrorView::Tool(
                    "media reads return the complete file; text offsets/counts are not supported"@,
                ),
            )
        }),
{
}

/// A reader lists the formats of each kind that the model advertises, images first, then videos,
/// audio and documents, and of no other.
pub proof fn readers_list_what_is_advertised(reader: MediaReaderView)
    ensures
        ({
            let has = |modality: Modality|
                reader.capabilities.modalities.contains(advertised_as(modality));
            let llama = reader.formats is LlamaCpp;
            let one = |on: bool, text: Seq<char>|
                if on {
                    seq![text]
                } else {
                    seq![]
                };
            format_lists(reader) == one(
                has(Modality::Image),
                if llama {
                    "images: .png, .jpg, .jpeg, .gif, .bmp, .tga"@
                } else {
                    "images: .png, .jpg, .jpeg, .webp, .gif"@
                },
            ) + one(has(Modality::Video), "videos: .mp4, .mpeg, .mpg, .mov, .webm"@) + one(
                has(Modality::Audio),
                if llama {
                    "audio: .wav, .mp3, .flac"@
                } else {
                    "audio: .wav, .mp3, .aiff, .aif, .aac, .ogg, .flac, .m4a"@
                },
            ) + one(has(Modality::File), "PDF documents: .pdf"@)
        }),
{
}

/// Media of at most twenty mebibytes is attached whole: a line that tells what was read, and the
/// bytes in the form that its kind is sent in. A larger file, or what is no file, is refused.
pub proof fn media_is_attached_whole(file: MediaFileView, bytes: Seq<u8>, is_file: bool, size: u64)
    ensures
        opened_error(is_file, size) is None <==> is_file && size <= 20971520,
        !is_file ==> opened_error(is_file, size) == Some(
            ErrorView::Tool("read requires a regular file"@),
        ),
        media_result(file, bytes) is Ok <==> bytes.len() <= 20971520,
        media_result(file, bytes) matches Ok(content) ==> (content matches ContentView::Parts(parts)
            && {
            let encoded = base64_standard(bytes);
            &&& parts.len() == 2
            &&& parts[0] == PartView::Text(
                "Read "@ + file.given + " ("@ + file.format + ", "@ + decimal(bytes.len())
                    + " bytes)."@,
            )
            &&& parts[1] == (match file.modality {
                Modality::Image => PartView::Image {
                    url: "data:"@ + file.format + ";base64,"@ + encoded,
                    detail: None,
                },
                Modality::Video => PartView::Video {
                    url: "data:"@ + file.format + ";base64,"@ + encoded,
                },
                Modality::Audio => PartView::Audio { data: encoded, format: file.format },
                Modality::File => PartView::File {
                    filename: Some(file.name),
                    data: "data:"@ + "application/pdf"@ + ";base64,"@ + encoded,
                },
            })
        }),
        ({
            let refused = ErrorView::Tool(
                "media file exceeds the read limit of 20 MiB; resize or split it before reading"@,
            );
            &&& is_file && size > 20971520 ==> opened_error(is_file, size) == Some(refused)
            &&& bytes.len() > 20971520 ==> media_result(file, bytes) == Err::<
                ContentView,
                ErrorView,
            >(refused)
        }),
{
    let parts = media_parts(file.modality, file.format, file.given, file.name, bytes);
    assert(parts.len() == 2);
}

// ---------------------------------------------------------------------------------------------
// Changing
// ---------------------------------------------------------------------------------------------

/// A file is created as it was asked for, parents and all, and reported by its path; over an
/// earlier file only where that was asked for.
pub proof fn created_files_are_reported(
    args: CreateFileArgs,
    write: Seq<Seq<Part>>,
    path: Seq<Part>,
    text: Seq<char>,
)
    requires
        under_any(path, write),
    ensures
        creation_start(args, write, path, text) matches Ok(creation) && {
            &&& creation_write(creation, false) matches Ok(written) && written.path == path
                && written.content == args.content@ && written.create_parent_dirs
                == args.create_parent_dirs && written.report == "created "@
                + without_verbatim_prefix(text)
            &&& args.overwrite ==> creation_write(creation, true) == creation_write(creation, false)
            &&& !args.overwrite ==> creation_write(creation, true) is Err
        },
{
}

/// A file is deleted and reported by its path; what is missing, and what is a directory, is
/// refused for that reason.
pub proof fn deleted_files_are_reported(
    args: DeleteFileArgs,
    write: Seq<Seq<Part>>,
    path: Seq<Part>,
    text: Seq<char>,
    is_directory: bool,
)
    requires
        under_any(path, write),
    ensures
        deletion_start(args, write, path, text) matches Ok(deletion) && {
            &&& deletion_removal(deletion, true, false) matches Ok(removed) && removed.path == path
                && removed.report == "deleted "@ + without_verbatim_prefix(text)
            &&& deletion_removal(deletion, false, is_directory) == Err::<
                crate::tools::file::change::RemovalView,
                ErrorView,
            >(
                ErrorView::Tool(
                    "cannot delete missing file: "@ + without_verbatim_prefix(text) + ""@,
                ),
            )
            &&& deletion_removal(deletion, true, true) == Err::<
                crate::tools::file::change::RemovalView,
                ErrorView,
            >(
                ErrorView::Tool(
                    "delete_file only deletes files, not directories: "@ + without_verbatim_prefix(
                        text,
                    ) + ""@,
                ),
            )
        },
{
}

/// A page is asked for by offsets that count from zero, and by counts of at most a hundred lines
/// and ten thousand characters, which are also what is taken where none is given.
pub proof fn pages_are_asked_for_within_limits(requested: usize)
    ensures
        clamped(None, READ_MAX_LINES) == 100,
        clamped(None, READ_MAX_CHARS) == 10_000,
        requested <= 100 ==> clamped(Some(requested), READ_MAX_LINES) == requested,
        requested > 100 ==> clamped(Some(requested), READ_MAX_LINES) == 100,
        requested <= 10_000 ==> clamped(Some(requested), READ_MAX_CHARS) == requested,
        requested > 10_000 ==> clamped(Some(requested), READ_MAX_CHARS) == 10_000,
        offset_of(None) == 0,
        offset_of(Some(requested)) == requested,
{
}

/// A page that is cut says so behind what it shows, and how to go on.
pub proof fn cut_pages_say_so(text: Seq<char>)
    ensures
        marked(text) == text
            + "\n\n[Read truncated: more content is available. Continue with line-offset or character-offset; each read is capped at 100 lines or 10,000 characters.]"@,
{
}

} // verus!
