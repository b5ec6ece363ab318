//! OpenAI-compatible provider configuration, requests, and responses.

pub mod body;
pub mod capabilities;
pub mod laws;

use vstd::prelude::*;

use crate::chat::{ChatMessage, ChatRequest, MessageView, ReasoningConfig, ReasoningConfigView, RequestView};
use crate::common::{duplicate_all, duplicate_option, lemma_views_push, view_of, views, Duplicate, TextSource};
use crate::content::{ContentPart, PartView};
use crate::error::{Error, ErrorView};
use crate::json::{JsonText, JsonView, ShapeView};
use crate::secrets::SecretStore;
use crate::text::{ascii_lower, concat2, same_text};
use crate::tools::{DefinitionView, ToolDefinition};
use crate::url_text::{below, parse_url, parsed_url, url_below};
use crate::value::{debug_quoted, quoted};

verus! {

broadcast use lemma_views_push;

// ---------------------------------------------------------------------------------------------
// Types
// ---------------------------------------------------------------------------------------------

/// Supported provider presets.
#[derive(Clone, Copy, Debug, PartialEq, Eq, Structural)]
pub enum ProviderKind {
    /// OpenRouter's OpenAI-compatible chat-completions endpoint.
    OpenRouter,
    /// A local llama.cpp server exposing `/v1/chat/completions`.
    LlamaCpp,
    /// Generic OpenAI-compatible endpoint.
    OpenAiCompatible,
}

/// Where a provider should obtain its API key.
#[derive(PartialEq, Eq)]
pub enum ApiKeyRef {
    /// No API key is sent.
    NoKey,
    /// Use the provided literal API key.
    Literal(String),
    /// Look up an API key by provider id in the configured [`crate::secrets::SecretStore`].
    Keyring(String),
}

/// Configuration for an OpenAI-compatible chat-completions provider.
pub struct ProviderConfig {
    /// Human-readable provider name used in telemetry.
    pub name: String,
    /// Provider preset.
    pub kind: ProviderKind,
    /// Full chat-completions URL.
    pub chat_completions_url: String,
    /// API-key lookup behavior.
    pub api_key: ApiKeyRef,
    /// Model used when building requests.
    pub default_model: String,
    /// Extra HTTP headers to send on every request.
    pub headers: Vec<(String, String)>,
    /// Optional provider-specific reasoning configuration.
    pub reasoning: Option<ReasoningConfig>,
}

/// A configured provider: what to send, and how to read what comes back.
pub struct ChatProvider {
    config: ProviderConfig,
}

/// Input modalities advertised by the configured model, not its output capabilities.
/// Format and size limits and upstream availability still depend on the selected model.
#[derive(Debug, PartialEq, Eq)]
pub struct ModelCapabilities {
    pub model: String,
    pub input_modalities: Vec<String>,
}

/// A content part in the form that one provider takes.
#[derive(Debug, PartialEq, Eq)]
pub enum WirePart {
    /// The part as it is.
    Plain(ContentPart),
    /// A video in llama.cpp's own form.
    InputVideo { url: String },
}

// ---------------------------------------------------------------------------------------------
// Models
// ---------------------------------------------------------------------------------------------

/// The model of an [`ApiKeyRef`].
pub enum KeyView {
    NoKey,
    Literal(Seq<char>),
    Keyring(Seq<char>),
}

/// The model of a [`ProviderConfig`].
pub struct ConfigView {
    pub name: Seq<char>,
    pub kind: ProviderKind,
    pub url: Seq<char>,
    pub api_key: KeyView,
    pub model: Seq<char>,
    pub headers: Seq<(Seq<char>, Seq<char>)>,
    pub reasoning: Option<ReasoningConfigView>,
}

/// The model of [`ModelCapabilities`].
pub struct CapabilitiesView {
    pub model: Seq<char>,
    pub modalities: Seq<Seq<char>>,
}

/// The model of a [`WirePart`].
pub enum WirePartView {
    Plain(PartView),
    InputVideo { url: Seq<char> },
}

impl View for ApiKeyRef {
    type V = KeyView;

    open spec fn view(&self) -> KeyView {
        match self {
            ApiKeyRef::NoKey => KeyView::NoKey,
            ApiKeyRef::Literal(key) => KeyView::Literal(key@),
            ApiKeyRef::Keyring(id) => KeyView::Keyring(id@),
        }
    }
}

/// The models of header pairs.
pub open spec fn pair_views(pairs: Seq<(String, String)>) -> Seq<(Seq<char>, Seq<char>)> {
    pairs.map_values(|p: (String, String)| (p.0@, p.1@))
}

impl View for ProviderConfig {
    type V = ConfigView;

    open spec fn view(&self) -> ConfigView {
        ConfigView {
            name: self.name@,
            kind: self.kind,
            url: self.chat_completions_url@,
            api_key: self.api_key@,
            model: self.default_model@,
            headers: pair_views(self.headers@),
            reasoning: view_of(self.reasoning),
        }
    }
}

impl View for ChatProvider {
    type V = ConfigView;

    closed spec fn view(&self) -> ConfigView {
        self.config@
    }
}

impl View for ModelCapabilities {
    type V = CapabilitiesView;

    open spec fn view(&self) -> CapabilitiesView {
        CapabilitiesView { model: self.model@, modalities: views(self.input_modalities@) }
    }
}

impl View for WirePart {
    type V = WirePartView;

    open spec fn view(&self) -> WirePartView {
        match self {
            WirePart::Plain(part) => WirePartView::Plain(part@),
            WirePart::InputVideo { url } => WirePartView::InputVideo { url: url@ },
        }
    }
}

/// A configuration that sends an API key from a keyring, without extra headers.
pub open spec fn preset(
    name: Seq<char>,
    kind: ProviderKind,
    url: Seq<char>,
    api_key: KeyView,
    model: Seq<char>,
    reasoning: Option<ReasoningConfigView>,
) -> ConfigView {
    ConfigView { name, kind, url, api_key, model, headers: seq![], reasoning }
}

/// The request of a provider for `messages` and `tools`.
pub open spec fn request_for(
    config: ConfigView,
    messages: Seq<MessageView>,
    tools: Seq<DefinitionView>,
) -> RequestView {
    RequestView {
        model: config.model,
        messages,
        tools,
        tool_choice: None,
        temperature_bits: None,
        max_tokens: None,
        reasoning: config.reasoning,
        response_format: None,
    }
}

/// A part in the form that a provider takes: llama.cpp has its own for video.
pub open spec fn wire_part(kind: ProviderKind, part: PartView) -> WirePartView {
    match (kind, part) {
        (ProviderKind::LlamaCpp, PartView::Video { url }) => WirePartView::InputVideo { url },
        _ => WirePartView::Plain(part),
    }
}

/// The debug form of an API key reference: a literal key is never shown.
pub open spec fn key_debug(key: KeyView) -> Seq<char> {
    match key {
        KeyView::NoKey => "None"@,
        KeyView::Literal(_) => "Literal(\"[REDACTED]\")"@,
        KeyView::Keyring(id) => "Keyring("@ + debug_quoted(id) + ")"@,
    }
}

// ---------------------------------------------------------------------------------------------
// API keys
// ---------------------------------------------------------------------------------------------

impl Duplicate for ApiKeyRef {
    fn duplicate(&self) -> (copy: Self) {
        match self {
            ApiKeyRef::NoKey => ApiKeyRef::NoKey,
            ApiKeyRef::Literal(key) => ApiKeyRef::Literal(key.clone()),
            ApiKeyRef::Keyring(id) => ApiKeyRef::Keyring(id.clone()),
        }
    }
}

impl Clone for ApiKeyRef {
    fn clone(&self) -> (copy: Self)
        ensures
            copy@ == self@,
    {
        self.duplicate()
    }
}

impl ApiKeyRef {
    /// The debug form: a literal key is never shown.
    pub fn to_debug_string(&self) -> (text: String)
        ensures
            text@ == key_debug(self@),
    {
        match self {
            ApiKeyRef::NoKey => "None".to_owned(),
            ApiKeyRef::Literal(_) => "Literal(\"[REDACTED]\")".to_owned(),
            ApiKeyRef::Keyring(id) => {
                let mut text = "Keyring(".to_owned();
                text.append(quoted(id.as_str()).as_str());
                text.append(")");
                text
            },
        }
    }
}

/// The debug form of a literal API key says nothing of the key.
pub proof fn debug_output_does_not_depend_on_the_key(a: Seq<char>, b: Seq<char>)
    ensures
        key_debug(KeyView::Literal(a)) == key_debug(KeyView::Literal(b)),
{
}

/// What looking an API key up in a store gave.
pub open spec fn key_from_store(
    id: Seq<char>,
    found: Result<Option<Seq<char>>, ErrorView>,
) -> Result<Option<Seq<char>>, ErrorView> {
    match found {
        Ok(Some(key)) => Ok(Some(key)),
        Ok(None) => Err(ErrorView::MissingApiKey(id)),
        Err(error) => Err(error),
    }
}

/// The view of a looked-up key.
pub open spec fn found_view(found: Result<Option<String>, Error>) -> Result<
    Option<Seq<char>>,
    ErrorView,
> {
    match found {
        Ok(key) => Ok(view_of(key)),
        Err(error) => Err(error@),
    }
}

/// The API key under `id`, from what a store gave for it.
pub fn resolve_stored_key(id: &str, found: Result<Option<String>, Error>) -> (r: Result<
    Option<String>,
    Error,
>)
    ensures
        found_view(r) == key_from_store(id@, found_view(found)),
{
    match found {
        Ok(Some(key)) => Ok(Some(key)),
        Ok(None) => Err(Error::MissingApiKey(id.to_owned())),
        Err(error) => Err(error),
    }
}

// ---------------------------------------------------------------------------------------------
// Headers
// ---------------------------------------------------------------------------------------------

/// Whether a character may stand in a header name.
pub open spec fn token_char(c: char) -> bool {
    ||| 'a' <= c <= 'z'
    ||| 'A' <= c <= 'Z'
    ||| '0' <= c <= '9'
    ||| c == '!' || c == '#' || c == '$' || c == '%' || c == '&' || c == '\'' || c == '*'
    ||| c == '+' || c == '-' || c == '.' || c == '^' || c == '_' || c == '`' || c == '|' || c
        == '~'
}

/// The normalized form of a header name, in lower case; none where it is not valid.
pub open spec fn header_name_of(name: Seq<char>) -> Option<Seq<char>> {
    if 0 < name.len() <= 65535 && forall|i: int|
        0 <= i < name.len() ==> token_char(#[trigger] name[i]) {
        Some(name.map_values(|c: char| ascii_lower(c)))
    } else {
        None
    }
}

/// Whether a text is a valid header value: no control character but the tab.
pub open spec fn header_value_ok(value: Seq<char>) -> bool {
    forall|i: int|
        0 <= i < value.len() ==> ((#[trigger] value[i]) as u32 >= 32 && value[i] as u32 != 127)
            || value[i] == '\t'
}

/// `reqwest::header::HeaderName::from_bytes`: the normalized name, or the message of its error,
/// which is the same for every name that is not valid. A name holds 1 to 65535 token characters,
/// and capitals become small letters.
#[verifier::external_body]
fn normalize_header_name(name: &str) -> (r: Result<String, String>)
    ensures
        match header_name_of(name@) {
            Some(normalized) => r matches Ok(n) && n@ == normalized,
            None => r matches Err(message) && message@ == "invalid HTTP header name"@,
        },
{
    reqwest::header::HeaderName::from_bytes(name.as_bytes())
        .map(|name| name.as_str().to_owned())
        .map_err(|error| error.to_string())
}

/// `reqwest::header::HeaderValue::from_str`: whether the text is a valid value, or the message of
/// its error, which is the same for every other text. Every byte has to be a tab, or neither below
/// 32 nor 127.
#[verifier::external_body]
fn check_header_value(value: &str) -> (r: Result<(), String>)
    ensures
        match r {
            Ok(()) => header_value_ok(value@),
            Err(message) => !header_value_ok(value@) && message@
                == "failed to parse header value"@,
        },
{
    reqwest::header::HeaderValue::from_str(value).map(|_| ()).map_err(|error| error.to_string())
}

/// The headers with `value` under `name`: in the place of the header with the name, or at the end.
pub open spec fn with_header(
    headers: Seq<(Seq<char>, Seq<char>)>,
    name: Seq<char>,
    value: Seq<char>,
) -> Seq<(Seq<char>, Seq<char>)>
    decreases headers.len(),
{
    if headers.len() == 0 {
        seq![(name, value)]
    } else if headers[0].0 == name {
        headers.update(0, (name, value))
    } else {
        seq![headers[0]] + with_header(headers.drop_first(), name, value)
    }
}

/// What configured headers add to those of every request, or the first that is not valid.
pub open spec fn extra_headers(
    headers: Seq<(Seq<char>, Seq<char>)>,
    extra: Seq<(Seq<char>, Seq<char>)>,
) -> Result<Seq<(Seq<char>, Seq<char>)>, ErrorView>
    decreases extra.len(),
{
    if extra.len() == 0 {
        Ok(headers)
    } else {
        match extra_headers(headers, extra.drop_last()) {
            Err(error) => Err(error),
            Ok(before) => match header_name_of(extra.last().0) {
                None => Err(ErrorView::InvalidHeaderName("invalid HTTP header name"@)),
                Some(name) => if header_value_ok(extra.last().1) {
                    Ok(with_header(before, name, extra.last().1))
                } else {
                    Err(ErrorView::InvalidHeaderValue("failed to parse header value"@))
                },
            },
        }
    }
}

/// The headers of a request: JSON, the API key as a bearer token, and what is configured.
pub open spec fn headers_for(config: ConfigView, api_key: Option<Seq<char>>) -> Result<
    Seq<(Seq<char>, Seq<char>)>,
    ErrorView,
> {
    let first = seq![("content-type"@, "application/json"@)];
    match api_key {
        None => extra_headers(first, config.headers),
        Some(key) => if header_value_ok("Bearer "@ + key) {
            extra_headers(first.push(("authorization"@, "Bearer "@ + key)), config.headers)
        } else {
            Err(ErrorView::InvalidHeaderValue("failed to parse header value"@))
        },
    }
}

proof fn lemma_with_header(
    headers: Seq<(Seq<char>, Seq<char>)>,
    name: Seq<char>,
    value: Seq<char>,
    k: int,
)
    requires
        0 <= k <= headers.len(),
        forall|i: int| 0 <= i < k ==> (#[trigger] headers[i]).0 != name,
        k < headers.len() ==> headers[k].0 == name,
    ensures
        with_header(headers, name, value) == if k < headers.len() {
            headers.update(k, (name, value))
        } else {
            headers.push((name, value))
        },
    decreases k,
{
    if k == 0 {
        if headers.len() == 0 {
            assert(seq![(name, value)] =~= headers.push((name, value)));
        }
    } else {
        assert(headers[0].0 != name);
        let rest = headers.drop_first();
        assert forall|i: int| 0 <= i < k - 1 implies (#[trigger] rest[i]).0 != name by {
            assert(headers[i + 1].0 != name);
        }
        lemma_with_header(rest, name, value, k - 1);
        if k < headers.len() {
            assert(seq![headers[0]] + rest.update(k - 1, (name, value)) =~= headers.update(
                k,
                (name, value),
            ));
        } else {
            assert(seq![headers[0]] + rest.push((name, value)) =~= headers.push((name, value)));
        }
    }
}

fn insert_header(headers: &mut Vec<(String, String)>, name: String, value: String)
    ensures
        pair_views(final(headers)@) == with_header(pair_views(old(headers)@), name@, value@),
{
    let ghost all = pair_views(headers@);
    let mut k: usize = 0;
    while k < headers.len() && !same_text(headers[k].0.as_str(), name.as_str())
        invariant
            k <= headers@.len(),
            *headers == *old(headers),
            all == pair_views(headers@),
            forall|i: int| 0 <= i < k ==> (#[trigger] all[i]).0 != name@,
        decreases headers@.len() - k,
    {
        k += 1;
    }
    proof {
        lemma_with_header(all, name@, value@, k as int);
    }
    if k < headers.len() {
        headers.set(k, (name, value));
        assert(pair_views(headers@) =~= all.update(k as int, (name@, value@)));
    } else {
        headers.push((name, value));
        assert(pair_views(headers@) =~= all.push((name@, value@)));
    }
}

proof fn lemma_extra_headers_fail(
    headers: Seq<(Seq<char>, Seq<char>)>,
    extra: Seq<(Seq<char>, Seq<char>)>,
    k: int,
)
    requires
        0 <= k <= extra.len(),
        extra_headers(headers, extra.take(k)) is Err,
    ensures
        extra_headers(headers, extra) == extra_headers(headers, extra.take(k)),
    decreases extra.len(),
{
    if k == extra.len() {
        assert(extra.take(k) =~= extra);
    } else {
        assert(extra.drop_last().take(k) =~= extra.take(k));
        lemma_extra_headers_fail(headers, extra.drop_last(), k);
    }
}

// ---------------------------------------------------------------------------------------------
// Configurations
// ---------------------------------------------------------------------------------------------

fn duplicate_pairs(pairs: &Vec<(String, String)>) -> (copy: Vec<(String, String)>)
    ensures
        pair_views(copy@) == pair_views(pairs@),
{
    let mut copy: Vec<(String, String)> = Vec::new();
    let mut i: usize = 0;
    assert(pair_views(copy@) =~= pair_views(pairs@).take(0));
    while i < pairs.len()
        invariant
            i <= pairs@.len(),
            pair_views(copy@) == pair_views(pairs@).take(i as int),
        decreases pairs@.len() - i,
    {
        let ghost before = pair_views(copy@);
        copy.push((pairs[i].0.clone(), pairs[i].1.clone()));
        proof {
            assert(pair_views(copy@) =~= before.push(pair_views(pairs@)[i as int]));
            crate::common::lemma_take_push(pair_views(pairs@), i as int);
        }
        i += 1;
    }
    assert(pair_views(pairs@).take(i as int) =~= pair_views(pairs@));
    copy
}

impl Duplicate for ProviderConfig {
    fn duplicate(&self) -> (copy: Self) {
        ProviderConfig {
            name: self.name.clone(),
            kind: self.kind,
            chat_completions_url: self.chat_completions_url.clone(),
            api_key: self.api_key.duplicate(),
            default_model: self.default_model.clone(),
            headers: duplicate_pairs(&self.headers),
            reasoning: duplicate_option(&self.reasoning),
        }
    }
}

impl Clone for ProviderConfig {
    fn clone(&self) -> (copy: Self)
        ensures
            copy@ == self@,
    {
        self.duplicate()
    }
}

fn preset_config(
    name: &str,
    kind: ProviderKind,
    url: String,
    api_key: ApiKeyRef,
    model: String,
    reasoning: Option<ReasoningConfig>,
) -> (config: ProviderConfig)
    ensures
        config@ == preset(name@, kind, url@, api_key@, model@, view_of(reasoning)),
{
    let config = ProviderConfig {
        name: name.to_owned(),
        kind,
        chat_completions_url: url,
        api_key,
        default_model: model,
        headers: Vec::new(),
        reasoning,
    };
    assert(config@.headers =~= seq![]);
    config
}

/// OpenRouter's reasoning configuration.
pub open spec fn openrouter_reasoning() -> ReasoningConfigView {
    ReasoningConfigView {
        enabled: Some(true),
        exclude: Some(false),
        effort: None,
        max_tokens: None,
    }
}

/// The path of chat completions behind the root of a llama.cpp server.
pub open spec fn llama_segments() -> Seq<Seq<char>> {
    seq!["v1"@, "chat"@, "completions"@]
}

/// The path of chat completions behind the root of a DeepSeek server.
pub open spec fn deepseek_segments() -> Seq<Seq<char>> {
    seq!["chat"@, "completions"@]
}

impl ProviderConfig {
    /// OpenRouter configuration using a compatibility key id named `openrouter`.
    ///
    /// Apps should usually prefer [`ProviderConfig::openrouter_with_keyring`] so each application
    /// can choose its own keyring id instead of sharing one universal OpenRouter key.
    pub fn openrouter(model: impl TextSource) -> (r: Result<Self, Error>)
        ensures
            match parsed_url("https://openrouter.ai/api/v1/chat/completions"@) {
                Ok(url) => r matches Ok(config) && config@ == preset(
                    "openrouter"@,
                    ProviderKind::OpenRouter,
                    url,
                    KeyView::Keyring("openrouter"@),
                    model.text_view(),
                    Some(openrouter_reasoning()),
                ),
                Err(message) => r matches Err(e) && e@ == ErrorView::Url(message),
            },
    {
        Self::openrouter_with_keyring(model, "openrouter")
    }

    /// OpenRouter configuration using an app-provided keyring id.
    ///
    /// The same id must be used when storing the key through
    /// [`crate::secrets::SecretStore::set_api_key`].
    pub fn openrouter_with_keyring(model: impl TextSource, keyring_id: impl TextSource) -> (r:
        Result<Self, Error>)
        ensures
            match parsed_url("https://openrouter.ai/api/v1/chat/completions"@) {
                Ok(url) => r matches Ok(config) && config@ == preset(
                    "openrouter"@,
                    ProviderKind::OpenRouter,
                    url,
                    KeyView::Keyring(keyring_id.text_view()),
                    model.text_view(),
                    Some(openrouter_reasoning()),
                ),
                Err(message) => r matches Err(e) && e@ == ErrorView::Url(message),
            },
    {
        let url = match parse_url("https://openrouter.ai/api/v1/chat/completions") {
            Ok(url) => url,
            Err(error) => return Err(error),
        };
        Ok(
            preset_config(
                "openrouter",
                ProviderKind::OpenRouter,
                url,
                ApiKeyRef::Keyring(keyring_id.into_text()),
                model.into_text(),
                Some(ReasoningConfig::openrouter_enabled()),
            ),
        )
    }

    /// DeepSeek configuration using a key id named `deepseek`.
    pub fn deepseek(model: impl TextSource) -> (r: Result<Self, Error>)
        ensures
            match parsed_url("https://api.deepseek.com/chat/completions"@) {
                Ok(url) => r matches Ok(config) && config@ == preset(
                    "deepseek"@,
                    ProviderKind::OpenAiCompatible,
                    url,
                    KeyView::Keyring("deepseek"@),
                    model.text_view(),
                    None,
                ),
                Err(message) => r matches Err(e) && e@ == ErrorView::Url(message),
            },
    {
        Self::deepseek_with_keyring(model, "deepseek")
    }

    /// DeepSeek configuration using an app-provided keyring id. Omitted reasoning configuration
    /// uses the API defaults.
    ///
    /// Content parts are sent in the common form of compatible providers. DeepSeek's own flat form
    /// for file parts that hold inline image data is not produced: send such data as an image part.
    pub fn deepseek_with_keyring(model: impl TextSource, keyring_id: impl TextSource) -> (r: Result<
        Self,
        Error,
    >)
        ensures
            match parsed_url("https://api.deepseek.com/chat/completions"@) {
                Ok(url) => r matches Ok(config) && config@ == preset(
                    "deepseek"@,
                    ProviderKind::OpenAiCompatible,
                    url,
                    KeyView::Keyring(keyring_id.text_view()),
                    model.text_view(),
                    None,
                ),
                Err(message) => r matches Err(e) && e@ == ErrorView::Url(message),
            },
    {
        let url = match parse_url("https://api.deepseek.com/chat/completions") {
            Ok(url) => url,
            Err(error) => return Err(error),
        };
        Ok(
            preset_config(
                "deepseek",
                ProviderKind::OpenAiCompatible,
                url,
                ApiKeyRef::Keyring(keyring_id.into_text()),
                model.into_text(),
                None,
            ),
        )
    }

    /// DeepSeek configuration for a server root or path prefix, behind which `/chat/completions`
    /// stands. A query and a fragment of the root are dropped. Content parts are sent as for
    /// [`ProviderConfig::deepseek_with_keyring`].
    pub fn deepseek_at(
        root: impl TextSource,
        model: impl TextSource,
        reasoning: Option<ReasoningConfig>,
    ) -> (r: Result<Self, Error>)
        ensures
            match below(root.text_view(), deepseek_segments()) {
                Ok(url) => r matches Ok(config) && config@ == preset(
                    "deepseek"@,
                    ProviderKind::OpenAiCompatible,
                    url,
                    KeyView::Keyring("deepseek"@),
                    model.text_view(),
                    view_of(reasoning),
                ),
                Err(error) => r matches Err(e) && e@ == error,
            },
    {
        let mut segments: Vec<String> = Vec::new();
        segments.push("chat".to_owned());
        segments.push("completions".to_owned());
        assert(views(segments@) =~= deepseek_segments());
        match url_below(root.into_text().as_str(), &segments) {
            Ok(url) => Ok(
                preset_config(
                    "deepseek",
                    ProviderKind::OpenAiCompatible,
                    url,
                    ApiKeyRef::Keyring("deepseek".to_owned()),
                    model.into_text(),
                    reasoning,
                ),
            ),
            Err(error) => Err(error),
        }
    }

    /// llama.cpp server configuration.
    ///
    /// The base URL should be the server root, for example `http://127.0.0.1:8080`. It may hold a
    /// path prefix, with or without a trailing slash; a query and a fragment are dropped.
    pub fn llama_cpp(base_url: impl TextSource, model: impl TextSource) -> (r: Result<Self, Error>)
        ensures
            match below(base_url.text_view(), llama_segments()) {
                Ok(url) => r matches Ok(config) && config@ == preset(
                    "llama-cpp"@,
                    ProviderKind::LlamaCpp,
                    url,
                    KeyView::NoKey,
                    model.text_view(),
                    None,
                ),
                Err(error) => r matches Err(e) && e@ == error,
            },
    {
        let mut segments: Vec<String> = Vec::new();
        segments.push("v1".to_owned());
        segments.push("chat".to_owned());
        segments.push("completions".to_owned());
        assert(views(segments@) =~= llama_segments());
        match url_below(base_url.into_text().as_str(), &segments) {
            Ok(url) => Ok(
                preset_config(
                    "llama-cpp",
                    ProviderKind::LlamaCpp,
                    url,
                    ApiKeyRef::NoKey,
                    model.into_text(),
                    None,
                ),
            ),
            Err(error) => Err(error),
        }
    }
}

// ---------------------------------------------------------------------------------------------
// Providers
// ---------------------------------------------------------------------------------------------

impl ModelCapabilities {
    /// Whether the model takes inputs of the modality.
    pub fn supports_input(&self, modality: &str) -> (b: bool)
        ensures
            b == self@.modalities.contains(modality@),
    {
        crate::text::contains_string(&self.input_modalities, modality)
    }
}

impl Duplicate for ModelCapabilities {
    fn duplicate(&self) -> (copy: Self) {
        ModelCapabilities {
            model: self.model.clone(),
            input_modalities: duplicate_all(&self.input_modalities),
        }
    }
}

impl Clone for ModelCapabilities {
    fn clone(&self) -> (copy: Self)
        ensures
            copy@ == self@,
    {
        self.duplicate()
    }
}

impl Duplicate for ChatProvider {
    fn duplicate(&self) -> (copy: Self) {
        ChatProvider { config: self.config.duplicate() }
    }
}

impl Clone for ChatProvider {
    fn clone(&self) -> (copy: Self)
        ensures
            copy@ == self@,
    {
        self.duplicate()
    }
}

impl ChatProvider {
    /// A provider with the given configuration.
    pub fn new(config: ProviderConfig) -> (provider: Self)
        ensures
            provider@ == config@,
    {
        ChatProvider { config }
    }

    /// Provider configuration.
    pub fn config(&self) -> (config: &ProviderConfig)
        ensures
            config@ == self@,
    {
        &self.config
    }

    /// Build a request without sending it.
    pub fn build_request(&self, messages: &Vec<ChatMessage>, tools: Vec<ToolDefinition>) -> (request:
        ChatRequest)
        ensures
            request@ == request_for(self@, views(messages@), views(tools@)),
    {
        ChatRequest {
            model: self.config.default_model.clone(),
            messages: duplicate_all(messages),
            tools,
            tool_choice: None,
            temperature_bits: None,
            max_tokens: None,
            reasoning: duplicate_option(&self.config.reasoning),
            response_format: None,
        }
    }

    /// The API key to send, looked up in `secrets` where the configuration names a keyring id.
    pub fn api_key<S: SecretStore>(&self, secrets: Option<&S>) -> (r: Result<Option<String>, Error>)
        ensures
            match self@.api_key {
                KeyView::NoKey => r matches Ok(None),
                KeyView::Literal(key) => r matches Ok(Some(k)) && k@ == key,
                KeyView::Keyring(id) => match secrets {
                    None => r matches Err(e) && e@ == ErrorView::MissingApiKey(id),
                    Some(store) => exists|asked: &str, found: Result<Option<String>, Error>|
                        {
                            &&& asked@ == id
                            &&& #[trigger] call_ensures(S::get_api_key, (store, asked), found)
                            &&& found_view(r) == key_from_store(id, found_view(found))
                        },
                },
            },
    {
        match &self.config.api_key {
            ApiKeyRef::NoKey => Ok(None),
            ApiKeyRef::Literal(key) => Ok(Some(key.clone())),
            ApiKeyRef::Keyring(id) => match secrets {
                None => Err(Error::MissingApiKey(id.clone())),
                Some(store) => {
                    let asked = id.as_str();
                    let found = store.get_api_key(asked);
                    let ghost seen = found;
                    let r = resolve_stored_key(asked, found);
                    assert(call_ensures(S::get_api_key, (store, asked), seen));
                    r
                },
            },
        }
    }

    /// The headers of a request, with their names normalized.
    pub fn headers(&self, api_key: Option<String>) -> (r: Result<Vec<(String, String)>, Error>)
        ensures
            match headers_for(self@, view_of(api_key)) {
                Ok(headers) => r matches Ok(h) && pair_views(h@) == headers,
                Err(error) => r matches Err(e) && e@ == error,
            },
    {
        let mut headers: Vec<(String, String)> = Vec::new();
        headers.push(("content-type".to_owned(), "application/json".to_owned()));
        assert(pair_views(headers@) =~= seq![("content-type"@, "application/json"@)]);
        if let Some(key) = &api_key {
            let value = concat2("Bearer ", key.as_str());
            if let Err(message) = check_header_value(value.as_str()) {
                return Err(Error::InvalidHeaderValue(message));
            }
            let ghost before = pair_views(headers@);
            headers.push(("authorization".to_owned(), value));
            assert(pair_views(headers@) =~= before.push(("authorization"@, value@)));
        }
        let extra = &self.config.headers;
        let ghost start = pair_views(headers@);
        let ghost all = pair_views(extra@);
        let mut i: usize = 0;
        while i < extra.len()
            invariant
                i <= extra@.len(),
                all == pair_views(extra@),
                headers_for(self@, view_of(api_key)) == extra_headers(start, all),
                extra_headers(start, all.take(i as int)) == Ok::<
                    Seq<(Seq<char>, Seq<char>)>,
                    ErrorView,
                >(pair_views(headers@)),
            decreases extra@.len() - i,
        {
            proof {
                assert(all.take(i + 1).drop_last() =~= all.take(i as int));
                assert(all.take(i + 1).last() == (extra@[i as int].0@, extra@[i as int].1@));
            }
            let name = match normalize_header_name(extra[i].0.as_str()) {
                Ok(name) => name,
                Err(message) => {
                    proof {
                        lemma_extra_headers_fail(start, all, i + 1);
                    }
                    return Err(Error::InvalidHeaderName(message));
                },
            };
            if let Err(message) = check_header_value(extra[i].1.as_str()) {
                proof {
                    lemma_extra_headers_fail(start, all, i + 1);
                }
                return Err(Error::InvalidHeaderValue(message));
            }
            insert_header(&mut headers, name, extra[i].1.clone());
            i += 1;
        }
        assert(all.take(i as int) =~= all);
        Ok(headers)
    }
}

/// The content parts of a message in the form that a provider takes: llama.cpp has its own form for
/// video, and every other part is sent as it is. The message is not changed.
pub fn wire_parts(kind: ProviderKind, parts: &Vec<ContentPart>) -> (wire: Vec<WirePart>)
    ensures
        views(wire@) == views(parts@).map_values(|p: PartView| wire_part(kind, p)),
{
    let ghost all = views(parts@).map_values(|p: PartView| wire_part(kind, p));
    let mut wire: Vec<WirePart> = Vec::new();
    let mut i: usize = 0;
    while i < parts.len()
        invariant
            i <= parts@.len(),
            all == views(parts@).map_values(|p: PartView| wire_part(kind, p)),
            views(wire@) =~= all.take(i as int),
        decreases parts@.len() - i,
    {
        let part = match (&parts[i], kind) {
            (ContentPart::VideoUrl { video_url }, ProviderKind::LlamaCpp) => WirePart::InputVideo {
                url: video_url.url.clone(),
            },
            (part, _) => WirePart::Plain(part.duplicate()),
        };
        wire.push(part);
        proof {
            crate::common::lemma_take_push(all, i as int);
        }
        i += 1;
    }
    assert(all.take(i as int) =~= all);
    wire
}

/// Ask a provider to answer with a JSON object.
pub fn json_object_response_format() -> (format: JsonText)
    ensures
        format@ == (JsonView { text: "{\"type\":\"json_object\"}"@, shape: ShapeView::Object }),
{
    JsonText::json_object_format()
}

/// Only llama.cpp sees another form of a part, and only of videos.
pub proof fn other_parts_are_sent_as_they_are(kind: ProviderKind, part: PartView)
    requires
        kind != ProviderKind::LlamaCpp || !(part is Video),
    ensures
        wire_part(kind, part) == WirePartView::Plain(part),
{
}

} // verus!
