//! Ordered chat content: plain text, or a list of text and media parts.

use vstd::prelude::*;

use base64::Engine;

use crate::common::{add_capped, bytes_of, byte_len, capped, duplicate_all, duplicate_option, view_of, views};
use crate::common::{Duplicate, TextSource};
use crate::text::same_text;

verus! {

// ---------------------------------------------------------------------------------------------
// Types
// ---------------------------------------------------------------------------------------------

/// A plain string or an ordered array of multimodal content parts.
///
/// Use [`MessageContent::text`] for display; the value itself keeps every attachment.
#[derive(Debug, PartialEq, Eq)]
pub enum MessageContent {
    Text(String),
    Parts(Vec<ContentPart>),
}

/// One part of a multimodal input. Order is preserved on replay.
#[derive(Debug, PartialEq, Eq)]
pub enum ContentPart {
    Text { text: String },
    ImageUrl { image_url: ImageUrl },
    File { file: FileInput },
    InputAudio { input_audio: InputAudio },
    VideoUrl { video_url: VideoUrl },
}

/// An image URL or a base64 data URL.
#[derive(Debug, PartialEq, Eq)]
pub struct ImageUrl {
    pub url: String,
    pub detail: Option<ImageDetail>,
}

/// How closely a model should look at an image.
#[derive(Clone, Copy, Debug, PartialEq, Eq, Structural)]
pub enum ImageDetail {
    Auto,
    Low,
    High,
}

/// A PDF URL or a base64 data URL, with an optional filename.
#[derive(Debug, PartialEq, Eq)]
pub struct FileInput {
    pub filename: Option<String>,
    pub file_data: String,
}

/// Audio uses raw base64, not a URL or a data URL.
#[derive(Debug, PartialEq, Eq)]
pub struct InputAudio {
    pub data: String,
    /// For example, `wav` or `mp3`. Supported formats depend on the model.
    pub format: String,
}

/// A video URL or a base64 data URL. URL support depends on the provider and model.
#[derive(Debug, PartialEq, Eq)]
pub struct VideoUrl {
    pub url: String,
}

// ---------------------------------------------------------------------------------------------
// Models
// ---------------------------------------------------------------------------------------------

/// The model of a [`ContentPart`].
pub enum PartView {
    Text(Seq<char>),
    Image { url: Seq<char>, detail: Option<ImageDetail> },
    File { filename: Option<Seq<char>>, data: Seq<char> },
    Audio { data: Seq<char>, format: Seq<char> },
    Video { url: Seq<char> },
}

/// The model of a [`MessageContent`].
pub enum ContentView {
    Text(Seq<char>),
    Parts(Seq<PartView>),
}

impl View for ContentPart {
    type V = PartView;

    open spec fn view(&self) -> PartView {
        match self {
            ContentPart::Text { text } => PartView::Text(text@),
            ContentPart::ImageUrl { image_url } => PartView::Image {
                url: image_url.url@,
                detail: image_url.detail,
            },
            ContentPart::File { file } => PartView::File {
                filename: view_of(file.filename),
                data: file.file_data@,
            },
            ContentPart::InputAudio { input_audio } => PartView::Audio {
                data: input_audio.data@,
                format: input_audio.format@,
            },
            ContentPart::VideoUrl { video_url } => PartView::Video { url: video_url.url@ },
        }
    }
}

impl View for MessageContent {
    type V = ContentView;

    open spec fn view(&self) -> ContentView {
        match self {
            MessageContent::Text(text) => ContentView::Text(text@),
            MessageContent::Parts(parts) => ContentView::Parts(views(parts@)),
        }
    }
}

impl PartView {
    /// The text that this part shows: none for media.
    pub open spec fn shown(self) -> Seq<char> {
        match self {
            PartView::Text(text) => text,
            _ => seq![],
        }
    }

    /// The payload bytes of this part.
    pub open spec fn payload(self) -> nat {
        match self {
            PartView::Text(text) => byte_len(text),
            PartView::Image { url, .. } => byte_len(url),
            PartView::File { filename: Some(filename), data } => byte_len(filename) + byte_len(
                data,
            ),
            PartView::File { filename: None, data } => byte_len(data),
            PartView::Audio { data, format } => byte_len(data) + byte_len(format),
            PartView::Video { url } => byte_len(url),
        }
    }
}

/// The shown texts of `parts` in a row.
pub open spec fn shown_text(parts: Seq<PartView>) -> Seq<char>
    decreases parts.len(),
{
    if parts.len() == 0 {
        seq![]
    } else {
        shown_text(parts.drop_last()) + parts.last().shown()
    }
}

/// The payload bytes of `parts` together.
pub open spec fn payload_sum(parts: Seq<PartView>) -> nat
    decreases parts.len(),
{
    if parts.len() == 0 {
        0
    } else {
        payload_sum(parts.drop_last()) + parts.last().payload()
    }
}

impl ContentView {
    /// The text parts in order, without media URLs or base64 data.
    pub open spec fn text(self) -> Seq<char> {
        match self {
            ContentView::Text(text) => text,
            ContentView::Parts(parts) => shown_text(parts),
        }
    }

    /// Whether some part holds media.
    pub open spec fn has_media(self) -> bool {
        match self {
            ContentView::Text(_) => false,
            ContentView::Parts(parts) => exists|i: int|
                0 <= i < parts.len() && !((#[trigger] parts[i]) is Text),
        }
    }

    /// The payload bytes, encoded media among them.
    pub open spec fn payload(self) -> nat {
        match self {
            ContentView::Text(text) => byte_len(text),
            ContentView::Parts(parts) => payload_sum(parts),
        }
    }
}

/// Whether base64 of `n` bytes fits in one allocation.
pub open spec fn encodable(n: nat) -> bool {
    (n + 2) / 3 * 4 <= isize::MAX
}

/// What `base64`'s standard engine, with padding, encodes `bytes` to.
pub uninterp spec fn base64_standard(bytes: Seq<u8>) -> Seq<char>;

/// The data URL of `bytes`.
pub open spec fn data_url_view(mime_type: Seq<char>, bytes: Seq<u8>) -> Seq<char> {
    "data:"@ + mime_type + ";base64,"@ + base64_standard(bytes)
}

// ---------------------------------------------------------------------------------------------
// Encoding
// ---------------------------------------------------------------------------------------------

/// `base64::engine::general_purpose::STANDARD.encode`: the padded standard encoding of `bytes`,
/// a function of the bytes alone. It panics only where the encoding's length leaves the
/// address space.
#[verifier::external_body]
pub(crate) fn base64_encode(bytes: &[u8]) -> (text: String)
    requires
        encodable(bytes@.len()),
    ensures
        text@ == base64_standard(bytes@),
{
    base64::engine::general_purpose::STANDARD.encode(bytes)
}

fn data_url(mime_type: &str, bytes: &[u8]) -> (url: String)
    requires
        encodable(bytes@.len()),
    ensures
        url@ == data_url_view(mime_type@, bytes@),
{
    let mut url = "data:".to_owned();
    url.append(mime_type);
    url.append(";base64,");
    url.append(base64_encode(bytes).as_str());
    url
}

// ---------------------------------------------------------------------------------------------
// Copies and conversions
// ---------------------------------------------------------------------------------------------

impl Duplicate for ContentPart {
    fn duplicate(&self) -> (copy: Self) {
        match self {
            ContentPart::Text { text } => ContentPart::Text { text: text.clone() },
            ContentPart::ImageUrl { image_url } => ContentPart::ImageUrl {
                image_url: ImageUrl { url: image_url.url.clone(), detail: image_url.detail },
            },
            ContentPart::File { file } => ContentPart::File {
                file: FileInput {
                    filename: duplicate_option(&file.filename),
                    file_data: file.file_data.clone(),
                },
            },
            ContentPart::InputAudio { input_audio } => ContentPart::InputAudio {
                input_audio: InputAudio {
                    data: input_audio.data.clone(),
                    format: input_audio.format.clone(),
                },
            },
            ContentPart::VideoUrl { video_url } => ContentPart::VideoUrl {
                video_url: VideoUrl { url: video_url.url.clone() },
            },
        }
    }
}

impl Clone for ContentPart {
    fn clone(&self) -> (copy: Self)
        ensures
            copy@ == self@,
    {
        self.duplicate()
    }
}

impl Duplicate for MessageContent {
    fn duplicate(&self) -> (copy: Self) {
        match self {
            MessageContent::Text(text) => MessageContent::Text(text.clone()),
            MessageContent::Parts(parts) => MessageContent::Parts(duplicate_all(parts)),
        }
    }
}

impl Clone for MessageContent {
    fn clone(&self) -> (copy: Self)
        ensures
            copy@ == self@,
    {
        self.duplicate()
    }
}

impl Default for MessageContent {
    fn default() -> (content: Self)
        ensures
            content@ == ContentView::Text(seq![]),
    {
        let content = MessageContent::Text(String::new());
        assert(content@->Text_0 =~= seq![]);
        content
    }
}

impl From<String> for MessageContent {
    fn from(text: String) -> (content: Self)
        ensures
            content@ == ContentView::Text(text@),
    {
        MessageContent::Text(text)
    }
}

impl vstd::std_specs::convert::FromSpecImpl<String> for MessageContent {
    open spec fn obeys_from_spec() -> bool {
        true
    }

    open spec fn from_spec(text: String) -> Self {
        MessageContent::Text(text)
    }
}

impl From<&str> for MessageContent {
    fn from(text: &str) -> (content: Self)
        ensures
            content@ == ContentView::Text(text@),
    {
        MessageContent::Text(text.to_owned())
    }
}

impl vstd::std_specs::convert::FromSpecImpl<&str> for MessageContent {
    open spec fn obeys_from_spec() -> bool {
        false
    }

    open spec fn from_spec(text: &str) -> Self {
        arbitrary()
    }
}

impl From<&String> for MessageContent {
    fn from(text: &String) -> (content: Self)
        ensures
            content@ == ContentView::Text(text@),
    {
        MessageContent::Text(text.clone())
    }
}

impl vstd::std_specs::convert::FromSpecImpl<&String> for MessageContent {
    open spec fn obeys_from_spec() -> bool {
        true
    }

    open spec fn from_spec(text: &String) -> Self {
        MessageContent::Text(*text)
    }
}

impl From<Vec<ContentPart>> for MessageContent {
    fn from(parts: Vec<ContentPart>) -> (content: Self)
        ensures
            content@ == ContentView::Parts(views(parts@)),
    {
        MessageContent::Parts(parts)
    }
}

impl vstd::std_specs::convert::FromSpecImpl<Vec<ContentPart>> for MessageContent {
    open spec fn obeys_from_spec() -> bool {
        true
    }

    open spec fn from_spec(parts: Vec<ContentPart>) -> Self {
        MessageContent::Parts(parts)
    }
}

impl PartialEq<&str> for MessageContent {
    fn eq(&self, other: &&str) -> (same: bool) {
        match self {
            MessageContent::Text(text) => same_text(text.as_str(), other),
            MessageContent::Parts(_) => false,
        }
    }
}

impl vstd::std_specs::cmp::PartialEqSpecImpl<&str> for MessageContent {
    open spec fn obeys_eq_spec() -> bool {
        true
    }

    open spec fn eq_spec(&self, other: &&str) -> bool {
        self@ == ContentView::Text((*other)@)
    }
}

// ---------------------------------------------------------------------------------------------
// Reading content
// ---------------------------------------------------------------------------------------------

/// Content without any part is empty in both representations; content that shows text or holds
/// media is not.
pub open spec fn content_empty(content: ContentView) -> bool {
    content.text().len() == 0 && !content.has_media()
}

proof fn lemma_shown_empty(parts: Seq<PartView>)
    ensures
        (shown_text(parts).len() == 0) == (forall|i: int|
            0 <= i < parts.len() ==> (#[trigger] parts[i]).shown().len() == 0),
    decreases parts.len(),
{
    if parts.len() > 0 {
        let front = parts.drop_last();
        lemma_shown_empty(front);
        if shown_text(parts).len() == 0 {
            assert forall|i: int| 0 <= i < parts.len() implies (#[trigger] parts[i]).shown().len()
                == 0 by {
                if i < parts.len() - 1 {
                    assert(front[i].shown().len() == 0);
                }
            }
        } else if forall|i: int| 0 <= i < parts.len() ==> (#[trigger] parts[i]).shown().len() == 0 {
            assert forall|i: int| 0 <= i < front.len() implies (#[trigger] front[i]).shown().len()
                == 0 by {
                assert(parts[i].shown().len() == 0);
            }
            assert(parts[parts.len() - 1].shown().len() == 0);
        }
    }
}

fn part_len(part: &ContentPart) -> (n: usize)
    ensures
        n == capped(part@.payload() as int),
{
    match part {
        ContentPart::Text { text } => bytes_of(text.as_str()),
        ContentPart::ImageUrl { image_url } => bytes_of(image_url.url.as_str()),
        ContentPart::File { file } => {
            let name: usize = match &file.filename {
                Some(filename) => bytes_of(filename.as_str()),
                None => 0,
            };
            add_capped(name, bytes_of(file.file_data.as_str()))
        },
        ContentPart::InputAudio { input_audio } => add_capped(
            bytes_of(input_audio.data.as_str()),
            bytes_of(input_audio.format.as_str()),
        ),
        ContentPart::VideoUrl { video_url } => bytes_of(video_url.url.as_str()),
    }
}

impl MessageContent {
    /// Concatenate text parts in order, without exposing media URLs or base64 data.
    pub fn text(&self) -> (text: String)
        ensures
            text@ == self@.text(),
    {
        match self {
            MessageContent::Text(text) => text.clone(),
            MessageContent::Parts(parts) => {
                let mut text = String::new();
                let mut i: usize = 0;
                assert(text@ =~= shown_text(views(parts@).take(0)));
                while i < parts.len()
                    invariant
                        i <= parts@.len(),
                        text@ == shown_text(views(parts@).take(i as int)),
                    decreases parts@.len() - i,
                {
                    proof {
                        assert(views(parts@).take(i + 1).drop_last() =~= views(parts@).take(
                            i as int,
                        ));
                    }
                    if let ContentPart::Text { text: shown } = &parts[i] {
                        text.append(shown.as_str());
                    }
                    assert(text@ =~= shown_text(views(parts@).take(i + 1)));
                    i += 1;
                }
                assert(views(parts@).take(i as int) =~= views(parts@));
                text
            },
        }
    }

    /// The displayed form: the same as [`MessageContent::text`].
    pub fn to_string(&self) -> (text: String)
        ensures
            text@ == self@.text(),
    {
        self.text()
    }

    /// True only when there is no nonempty text and no media part.
    pub fn is_empty(&self) -> (b: bool)
        ensures
            b == content_empty(self@),
    {
        match self {
            MessageContent::Text(text) => bytes_empty(text.as_str()),
            MessageContent::Parts(parts) => {
                proof {
                    lemma_shown_empty(views(parts@));
                }
                let mut i: usize = 0;
                while i < parts.len()
                    invariant
                        i <= parts@.len(),
                        self@ == ContentView::Parts(views(parts@)),
                        (shown_text(views(parts@)).len() == 0) == (forall|j: int|
                            0 <= j < views(parts@).len() ==> (#[trigger] views(
                                parts@,
                            )[j]).shown().len() == 0),
                        forall|j: int|
                            0 <= j < i ==> (#[trigger] views(parts@)[j]) is Text && views(
                                parts@,
                            )[j].shown().len() == 0,
                    decreases parts@.len() - i,
                {
                    let blank = match &parts[i] {
                        ContentPart::Text { text } => bytes_empty(text.as_str()),
                        _ => false,
                    };
                    if !blank {
                        assert(!(views(parts@)[i as int] is Text && views(
                            parts@,
                        )[i as int].shown().len() == 0));
                        return false;
                    }
                    i += 1;
                }
                true
            },
        }
    }

    /// Whether any part contains media, including a PDF or file attachment.
    pub fn has_media(&self) -> (b: bool)
        ensures
            b == self@.has_media(),
    {
        match self {
            MessageContent::Text(_) => false,
            MessageContent::Parts(parts) => {
                let mut i: usize = 0;
                while i < parts.len()
                    invariant
                        i <= parts@.len(),
                        self@ == ContentView::Parts(views(parts@)),
                        forall|j: int| 0 <= j < i ==> (#[trigger] views(parts@)[j]) is Text,
                    decreases parts@.len() - i,
                {
                    let media = match &parts[i] {
                        ContentPart::Text { .. } => false,
                        _ => true,
                    };
                    if media {
                        assert(!(views(parts@)[i as int] is Text));
                        return true;
                    }
                    i += 1;
                }
                false
            },
        }
    }

    /// Approximate payload bytes, including encoded media but excluding JSON overhead.
    pub fn len(&self) -> (n: usize)
        ensures
            n == capped(self@.payload() as int),
    {
        match self {
            MessageContent::Text(text) => bytes_of(text.as_str()),
            MessageContent::Parts(parts) => {
                let mut n: usize = 0;
                let mut i: usize = 0;
                while i < parts.len()
                    invariant
                        i <= parts@.len(),
                        n == capped(payload_sum(views(parts@).take(i as int)) as int),
                    decreases parts@.len() - i,
                {
                    proof {
                        assert(views(parts@).take(i + 1).drop_last() =~= views(parts@).take(
                            i as int,
                        ));
                    }
                    n = add_capped(n, part_len(&parts[i]));
                    i += 1;
                }
                assert(views(parts@).take(i as int) =~= views(parts@));
                n
            },
        }
    }
}

fn bytes_empty(text: &str) -> (b: bool)
    ensures
        b == (text@.len() == 0),
{
    text.unicode_len() == 0
}

// ---------------------------------------------------------------------------------------------
// Building parts
// ---------------------------------------------------------------------------------------------

impl ContentPart {
    /// A text part.
    pub fn text(text: impl TextSource) -> (part: Self)
        ensures
            part@ == PartView::Text(text.text_view()),
    {
        ContentPart::Text { text: text.into_text() }
    }

    /// Use a public image URL or an already encoded data URL.
    pub fn image_url(url: impl TextSource) -> (part: Self)
        ensures
            part@ == (PartView::Image { url: url.text_view(), detail: None }),
    {
        ContentPart::ImageUrl { image_url: ImageUrl { url: url.into_text(), detail: None } }
    }

    /// Encode image bytes as a data URL (for example with MIME type `image/png`).
    pub fn image_bytes(mime_type: &str, bytes: &[u8]) -> (part: Self)
        requires
            encodable(bytes@.len()),
        ensures
            part@ == (PartView::Image { url: data_url_view(mime_type@, bytes@), detail: None }),
    {
        Self::image_url(data_url(mime_type, bytes))
    }

    /// Use a PDF URL or an already encoded data URL.
    pub fn file(filename: impl TextSource, file_data: impl TextSource) -> (part: Self)
        ensures
            part@ == (PartView::File {
                filename: Some(filename.text_view()),
                data: file_data.text_view(),
            }),
    {
        ContentPart::File {
            file: FileInput {
                filename: Some(filename.into_text()),
                file_data: file_data.into_text(),
            },
        }
    }

    /// Encode a PDF as a data URL.
    pub fn pdf_bytes(filename: impl TextSource, bytes: &[u8]) -> (part: Self)
        requires
            encodable(bytes@.len()),
        ensures
            part@ == (PartView::File {
                filename: Some(filename.text_view()),
                data: data_url_view("application/pdf"@, bytes@),
            }),
    {
        Self::file(filename, data_url("application/pdf", bytes))
    }

    /// Supply raw base64 audio with its format (for example `wav`).
    pub fn input_audio(data: impl TextSource, format: impl TextSource) -> (part: Self)
        ensures
            part@ == (PartView::Audio { data: data.text_view(), format: format.text_view() }),
    {
        ContentPart::InputAudio {
            input_audio: InputAudio { data: data.into_text(), format: format.into_text() },
        }
    }

    /// Encode audio bytes as raw base64.
    pub fn audio_bytes(format: impl TextSource, bytes: &[u8]) -> (part: Self)
        requires
            encodable(bytes@.len()),
        ensures
            part@ == (PartView::Audio {
                data: base64_standard(bytes@),
                format: format.text_view(),
            }),
    {
        Self::input_audio(base64_encode(bytes), format)
    }

    /// Use a video URL or an already encoded data URL.
    pub fn video_url(url: impl TextSource) -> (part: Self)
        ensures
            part@ == (PartView::Video { url: url.text_view() }),
    {
        ContentPart::VideoUrl { video_url: VideoUrl { url: url.into_text() } }
    }

    /// Encode video bytes as a data URL.
    pub fn video_bytes(mime_type: &str, bytes: &[u8]) -> (part: Self)
        requires
            encodable(bytes@.len()),
        ensures
            part@ == (PartView::Video { url: data_url_view(mime_type@, bytes@) }),
    {
        Self::video_url(data_url(mime_type, bytes))
    }
}

// ---------------------------------------------------------------------------------------------
// Laws
// ---------------------------------------------------------------------------------------------

/// Media never reaches displayed text: dropping every media part leaves the text as it was.
pub proof fn media_does_not_show(parts: Seq<PartView>)
    ensures
        ContentView::Parts(parts).text() == ContentView::Parts(
            parts.filter(|p: PartView| p is Text),
        ).text(),
    decreases parts.len(),
{
    reveal(Seq::filter);
    if parts.len() > 0 {
        let keep = |p: PartView| p is Text;
        let front = parts.drop_last();
        media_does_not_show(front);
        if keep(parts.last()) {
            let kept = front.filter(keep).push(parts.last());
            assert(parts.filter(keep) == kept);
            assert(kept.drop_last() =~= front.filter(keep));
        } else {
            assert(parts.filter(keep) == front.filter(keep));
            assert(shown_text(parts) =~= shown_text(front));
        }
    }
}

} // verus!
