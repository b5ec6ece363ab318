//! Discovery of the inputs that a model takes.

use vstd::prelude::*;

use crate::common::{lemma_views_push, view_of, views};
use crate::error::{tool_error, Error, ErrorView};
use crate::provider::{CapabilitiesView, ChatProvider, ConfigView, ModelCapabilities, ProviderKind};
use crate::json_value::{
    check_list, check_map, decode_flag, decode_text, flag_of, not_a_list, not_a_map, text_of,
};
use crate::text::{find_char, first_position, same_text, slice_text, to_chars};
use crate::url_text::{extend_url, extension, join_url, joined_url};
use crate::value::{lemma_array, Json, Tree};

verus! {

broadcast use lemma_views_push;

/// Where a model's metadata can be had.
#[derive(Debug, PartialEq, Eq)]
pub enum CapabilityLookup {
    /// Nowhere: the provider has no metadata for this model.
    Unavailable,
    /// At the URL, with the model as a query parameter where it is given.
    Fetch { url: String, model_query: Option<String> },
}

/// What fetching a model's metadata gave.
#[derive(Debug, PartialEq, Eq)]
pub enum MetadataAnswer {
    /// There is no such model, or no such endpoint.
    NotFound,
    /// The metadata.
    Body(Json),
}

/// The model of a [`CapabilityLookup`].
pub enum LookupView {
    Unavailable,
    Fetch { url: Seq<char>, model_query: Option<Seq<char>> },
}

/// The model of a [`MetadataAnswer`].
pub enum AnswerView {
    NotFound,
    Body(Tree),
}

impl View for CapabilityLookup {
    type V = LookupView;

    open spec fn view(&self) -> LookupView {
        match self {
            CapabilityLookup::Unavailable => LookupView::Unavailable,
            CapabilityLookup::Fetch { url, model_query } => LookupView::Fetch {
                url: url@,
                model_query: view_of(*model_query),
            },
        }
    }
}

impl View for MetadataAnswer {
    type V = AnswerView;

    open spec fn view(&self) -> AnswerView {
        match self {
            MetadataAnswer::NotFound => AnswerView::NotFound,
            MetadataAnswer::Body(body) => AnswerView::Body(body@),
        }
    }
}

// ---------------------------------------------------------------------------------------------
// Lookup
// ---------------------------------------------------------------------------------------------

/// Whether a text can be a segment of a model's path.
pub open spec fn path_part(part: Seq<char>) -> bool {
    part.len() > 0 && part != "."@ && part != ".."@ && !part.contains('/')
}

/// The author of a model `author/slug`.
pub open spec fn model_author(model: Seq<char>) -> Seq<char> {
    model.take(first_position(model, '/'))
}

/// The slug of a model `author/slug`.
pub open spec fn model_slug(model: Seq<char>) -> Seq<char> {
    model.skip(first_position(model, '/') + 1)
}

/// Whether a model has the form `author/slug`.
pub open spec fn two_parts(model: Seq<char>) -> bool {
    first_position(model, '/') < model.len() && path_part(model_author(model)) && path_part(
        model_slug(model),
    )
}

/// Where OpenRouter has a model's metadata.
pub open spec fn openrouter_lookup(config: ConfigView) -> Result<LookupView, ErrorView> {
    if config.model == "openrouter/auto"@ || !two_parts(config.model) {
        Ok(LookupView::Unavailable)
    } else {
        match joined_url(config.url, "../model/"@) {
            Err(message) => Err(ErrorView::Url(message)),
            Ok(base) => match extension(
                base,
                seq![model_author(config.model), model_slug(config.model)],
            ) {
                None => Err(ErrorView::Tool("provider URL cannot contain model paths"@)),
                Some(url) => Ok(LookupView::Fetch { url, model_query: None }),
            },
        }
    }
}

/// Where a provider has the metadata of its model.
pub open spec fn lookup_for(config: ConfigView) -> Result<LookupView, ErrorView> {
    match config.kind {
        ProviderKind::OpenRouter => openrouter_lookup(config),
        ProviderKind::LlamaCpp => match joined_url(config.url, "../../props"@) {
            Err(message) => Err(ErrorView::Url(message)),
            Ok(url) => Ok(LookupView::Fetch { url, model_query: Some(config.model) }),
        },
        ProviderKind::OpenAiCompatible => Ok(LookupView::Unavailable),
    }
}

fn is_path_part(part: &str) -> (b: bool)
    ensures
        b == path_part(part@),
{
    let chars = to_chars(part);
    if chars.len() == 0 || same_text(part, ".") || same_text(part, "..") {
        return false;
    }
    let n = find_char(&chars, 0, '/');
    assert(n < chars@.len() ==> part@.contains('/'));
    n == chars.len()
}

fn split_model(model: &str) -> (r: Option<(String, String)>)
    ensures
        match r {
            Some((author, slug)) => two_parts(model@) && author@ == model_author(model@) && slug@
                == model_slug(model@),
            None => !two_parts(model@),
        },
{
    let chars = to_chars(model);
    let n = find_char(&chars, 0, '/');
    assert(chars@.skip(0) =~= chars@);
    if n >= chars.len() {
        return None;
    }
    let author = slice_text(&chars, 0, n);
    let slug = slice_text(&chars, n + 1, chars.len());
    assert(author@ =~= model_author(model@));
    assert(slug@ =~= model_slug(model@));
    if is_path_part(author.as_str()) && is_path_part(slug.as_str()) {
        Some((author, slug))
    } else {
        None
    }
}

// ---------------------------------------------------------------------------------------------
// Reading
// ---------------------------------------------------------------------------------------------

/// The texts of an array of strings, or the error of its first other item.
pub open spec fn texts_of(items: Seq<Tree>) -> Result<Seq<Seq<char>>, ErrorView>
    decreases items.len(),
{
    if items.len() == 0 {
        Ok(seq![])
    } else {
        match texts_of(items.drop_last()) {
            Err(error) => Err(error),
            Ok(texts) => match text_of(items.last()) {
                Ok(text) => Ok(texts.push(text)),
                Err(error) => Err(error),
            },
        }
    }
}

/// The modalities that OpenRouter's metadata lists, where it does.
pub open spec fn openrouter_modalities(body: Tree) -> Result<Option<Seq<Seq<char>>>, ErrorView> {
    match body.field("data"@).field("architecture"@).field("input_modalities"@) {
        Tree::Null => Ok(None),
        Tree::Array(items) => match texts_of(items) {
            Ok(texts) => Ok(Some(texts)),
            Err(error) => Err(error),
        },
        other => Err(not_a_list(other)),
    }
}

/// A flag of llama.cpp's metadata; a missing one is not set.
pub open spec fn flag(modalities: Tree, key: Seq<char>) -> Result<bool, ErrorView> {
    match modalities.get(key) {
        None => Ok(false),
        Some(value) => flag_of(value),
    }
}

/// A modality, where it is supported.
pub open spec fn where_set(set: bool, modality: Seq<char>) -> Seq<Seq<char>> {
    if set {
        seq![modality]
    } else {
        seq![]
    }
}

/// The modalities that llama.cpp's metadata advertises, where it does.
pub open spec fn llama_modalities(body: Tree) -> Result<Option<Seq<Seq<char>>>, ErrorView> {
    match body.field("modalities"@) {
        Tree::Null => Ok(None),
        Tree::Object(entries) => {
            let modalities = Tree::Object(entries);
            match (
                flag(modalities, "audio"@),
                flag(modalities, "video"@),
                flag(modalities, "vision"@),
            ) {
                (Ok(audio), Ok(video), Ok(vision)) => Ok(
                    Some(
                        seq!["text"@] + where_set(vision, "image"@) + where_set(audio, "audio"@)
                            + where_set(video, "video"@),
                    ),
                ),
                (Err(error), _, _) => Err(error),
                (_, Err(error), _) => Err(error),
                (_, _, Err(error)) => Err(error),
            }
        },
        other => Err(not_a_map(other)),
    }
}

/// The capabilities that an answer stands for, where it stands for some.
pub open spec fn capabilities_for(config: ConfigView, answer: AnswerView) -> Result<
    Option<CapabilitiesView>,
    ErrorView,
> {
    match answer {
        AnswerView::NotFound => Ok(None),
        AnswerView::Body(body) => match (match config.kind {
            ProviderKind::OpenRouter => openrouter_modalities(body),
            ProviderKind::LlamaCpp => llama_modalities(body),
            ProviderKind::OpenAiCompatible => Ok(None),
        }) {
            Err(error) => Err(error),
            Ok(None) => Ok(None),
            Ok(Some(modalities)) => Ok(Some(CapabilitiesView { model: config.model, modalities })),
        },
    }
}

proof fn lemma_texts_fail(items: Seq<Tree>, k: int)
    requires
        0 <= k <= items.len(),
        texts_of(items.take(k)) is Err,
    ensures
        texts_of(items) == texts_of(items.take(k)),
    decreases items.len(),
{
    if k == items.len() {
        assert(items.take(k) =~= items);
    } else {
        assert(items.drop_last().take(k) =~= items.take(k));
        lemma_texts_fail(items.drop_last(), k);
    }
}

fn read_texts(items: &Vec<Json>) -> (r: Result<Vec<String>, Error>)
    ensures
        match texts_of(views(items@)) {
            Ok(texts) => r matches Ok(t) && views(t@) == texts,
            Err(error) => r matches Err(e) && e@ == error,
        },
{
    let ghost all = views(items@);
    let mut texts: Vec<String> = Vec::new();
    let mut i: usize = 0;
    assert(views(texts@) =~= seq![]);
    while i < items.len()
        invariant
            i <= items@.len(),
            all == views(items@),
            texts_of(all.take(i as int)) == Ok::<Seq<Seq<char>>, ErrorView>(views(texts@)),
        decreases items@.len() - i,
    {
        proof {
            assert(all.take(i + 1).drop_last() =~= all.take(i as int));
            assert(all.take(i + 1).last() == items@[i as int]@);
        }
        match decode_text(&items[i]) {
            Ok(text) => texts.push(text),
            Err(error) => {
                proof {
                    lemma_texts_fail(all, i + 1);
                }
                return Err(error);
            },
        }
        i += 1;
    }
    assert(all.take(i as int) =~= all);
    Ok(texts)
}

fn read_openrouter(body: &Json) -> (r: Result<Option<Vec<String>>, Error>)
    ensures
        match openrouter_modalities(body@) {
            Ok(Some(texts)) => r matches Ok(Some(t)) && views(t@) == texts,
            Ok(None) => r matches Ok(None),
            Err(error) => r matches Err(e) && e@ == error,
        },
{
    let data = match body.get("data") {
        Some(data) => data,
        None => return Ok(None),
    };
    let architecture = match data.get("architecture") {
        Some(architecture) => architecture,
        None => return Ok(None),
    };
    match architecture.get("input_modalities") {
        None => Ok(None),
        Some(Json::Null) => Ok(None),
        Some(Json::Array(items)) => {
            proof {
                lemma_array(*items);
            }
            match read_texts(items) {
                Ok(texts) => Ok(Some(texts)),
                Err(error) => Err(error),
            }
        },
        Some(other) => match check_list(other) {
            Ok(()) => Ok(None),
            Err(error) => Err(error),
        },
    }
}

fn read_flag(modalities: &Json, key: &str) -> (r: Result<bool, Error>)
    ensures
        match flag(modalities@, key@) {
            Ok(set) => r == Ok::<bool, Error>(set),
            Err(error) => r matches Err(e) && e@ == error,
        },
{
    match modalities.get(key) {
        None => Ok(false),
        Some(value) => decode_flag(value),
    }
}

fn push_where(texts: &mut Vec<String>, set: bool, modality: &str)
    ensures
        views(final(texts)@) == views(old(texts)@) + where_set(set, modality@),
{
    let ghost before = views(texts@);
    if set {
        texts.push(modality.to_owned());
        assert(views(texts@) =~= before + where_set(set, modality@));
    } else {
        assert(before + where_set(set, modality@) =~= before);
    }
}

fn read_llama(body: &Json) -> (r: Result<Option<Vec<String>>, Error>)
    ensures
        match llama_modalities(body@) {
            Ok(Some(texts)) => r matches Ok(Some(t)) && views(t@) == texts,
            Ok(None) => r matches Ok(None),
            Err(error) => r matches Err(e) && e@ == error,
        },
{
    let modalities = match body.get("modalities") {
        None => return Ok(None),
        Some(Json::Null) => return Ok(None),
        Some(modalities) => modalities,
    };
    if let Err(error) = check_map(modalities) {
        return Err(error);
    }
    let audio = match read_flag(modalities, "audio") {
        Ok(audio) => audio,
        Err(error) => return Err(error),
    };
    let video = match read_flag(modalities, "video") {
        Ok(video) => video,
        Err(error) => return Err(error),
    };
    let vision = match read_flag(modalities, "vision") {
        Ok(vision) => vision,
        Err(error) => return Err(error),
    };
    let mut texts: Vec<String> = Vec::new();
    texts.push("text".to_owned());
    assert(views(texts@) =~= seq!["text"@]);
    push_where(&mut texts, vision, "image");
    push_where(&mut texts, audio, "audio");
    push_where(&mut texts, video, "video");
    Ok(Some(texts))
}

impl MetadataAnswer {
    /// The answer that a response's status alone gives: one that is not found has no metadata.
    /// For any other status the body decides.
    pub fn of_status(status: u16) -> (r: Option<Self>)
        ensures
            match r {
                Some(answer) => status == 404 && answer@ == AnswerView::NotFound,
                None => status != 404,
            },
    {
        if status == 404 {
            Some(MetadataAnswer::NotFound)
        } else {
            None
        }
    }
}

impl ChatProvider {
    /// Where the metadata of the configured model can be had.
    ///
    /// Nowhere for generic providers, automatic routing, and model ids without an author.
    pub fn capability_lookup(&self) -> (r: Result<CapabilityLookup, Error>)
        ensures
            match lookup_for(self@) {
                Ok(lookup) => r matches Ok(l) && l@ == lookup,
                Err(error) => r matches Err(e) && e@ == error,
            },
    {
        let config = self.config();
        let model = config.default_model.as_str();
        match config.kind {
            ProviderKind::OpenRouter => {
                if same_text(model, "openrouter/auto") {
                    return Ok(CapabilityLookup::Unavailable);
                }
                let (author, slug) = match split_model(model) {
                    Some(parts) => parts,
                    None => return Ok(CapabilityLookup::Unavailable),
                };
                let base = match join_url(config.chat_completions_url.as_str(), "../model/") {
                    Ok(base) => base,
                    Err(error) => return Err(error),
                };
                let mut segments: Vec<String> = Vec::new();
                segments.push(author);
                segments.push(slug);
                assert(views(segments@) =~= seq![
                    model_author(self@.model),
                    model_slug(self@.model),
                ]);
                match extend_url(base.as_str(), &segments) {
                    Some(url) => Ok(CapabilityLookup::Fetch { url, model_query: None }),
                    None => Err(tool_error("provider URL cannot contain model paths")),
                }
            },
            ProviderKind::LlamaCpp => match join_url(
                config.chat_completions_url.as_str(),
                "../../props",
            ) {
                Ok(url) => Ok(
                    CapabilityLookup::Fetch { url, model_query: Some(model.to_owned()) },
                ),
                Err(error) => Err(error),
            },
            ProviderKind::OpenAiCompatible => Ok(CapabilityLookup::Unavailable),
        }
    }

    /// The capabilities of the configured model, from what fetching its metadata gave.
    ///
    /// None for unknown models and for missing metadata.
    pub fn read_capabilities(&self, answer: &MetadataAnswer) -> (r: Result<
        Option<ModelCapabilities>,
        Error,
    >)
        ensures
            match capabilities_for(self@, answer@) {
                Ok(Some(capabilities)) => r matches Ok(Some(c)) && c@ == capabilities,
                Ok(None) => r matches Ok(None),
                Err(error) => r matches Err(e) && e@ == error,
            },
    {
        let body = match answer {
            MetadataAnswer::NotFound => return Ok(None),
            MetadataAnswer::Body(body) => body,
        };
        let config = self.config();
        let modalities = match config.kind {
            ProviderKind::OpenRouter => read_openrouter(body),
            ProviderKind::LlamaCpp => read_llama(body),
            ProviderKind::OpenAiCompatible => return Ok(None),
        };
        match modalities {
            Err(error) => Err(error),
            Ok(None) => Ok(None),
            Ok(Some(input_modalities)) => Ok(
                Some(
                    ModelCapabilities { model: config.default_model.clone(), input_modalities },
                ),
            ),
        }
    }
}

/// Vision alone does not advertise video: only its own flag does.
pub proof fn video_is_advertised_only_by_its_flag(body: Tree)
    requires
        llama_modalities(body) matches Ok(Some(modalities)) && modalities.contains("video"@),
    ensures
        body.field("modalities"@).get("video"@) == Some(Tree::Bool(true)),
{
    let modalities = llama_modalities(body)->Ok_0->0;
    reveal_strlit("text");
    reveal_strlit("image");
    reveal_strlit("audio");
    reveal_strlit("video");
    assert("text"@[0] == 't' && "image"@[0] == 'i' && "audio"@[0] == 'a' && "video"@[0] == 'v');
    let k = choose|k: int| 0 <= k < modalities.len() && modalities[k] == "video"@;
    assert(modalities[k] == "video"@);
}

} // verus!
