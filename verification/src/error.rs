//! Crate-wide error type.

use vstd::prelude::*;

use crate::common::Duplicate;
use crate::text::{decimal, decimal_text};

verus! {

/// Everything that can go wrong while an agent runs.
#[derive(Debug, PartialEq, Eq)]
pub enum Error {
    /// The credential store failed.
    Keyring(String),
    /// The HTTP transport failed.
    Http(String),
    /// An unsuccessful HTTP response. The body is limited to a 16 KiB prefix (decoded as UTF-8),
    /// with a notice appended if it was truncated.
    Provider { status: u16, body: String },
    /// A URL could not be parsed.
    Url(String),
    /// A text was not the JSON that was expected.
    Json(String),
    /// An input or output operation failed.
    Io(String),
    /// A configured header has an invalid name.
    InvalidHeaderName(String),
    /// A configured header, or the API key, has an invalid value.
    InvalidHeaderValue(String),
    /// No API key is stored for a provider.
    MissingApiKey(String),
    /// A response was larger than the limit.
    ProviderResponseTooLarge { limit: usize },
    /// There is no native keyring store on this target.
    UnsupportedNativeKeyring(String),
    /// A response held no choice.
    MissingAssistantMessage,
    /// A model called a tool that is not registered.
    UnknownTool(String),
    /// A tool failed.
    Tool(String),
    /// A path lies outside the allowed roots.
    PathNotAllowed { path: String, access: String },
    /// A streamed response was malformed or incomplete.
    Stream(String),
}

/// The model of an [`Error`].
pub enum ErrorView {
    Keyring(Seq<char>),
    Http(Seq<char>),
    Provider { status: u16, body: Seq<char> },
    Url(Seq<char>),
    Json(Seq<char>),
    Io(Seq<char>),
    InvalidHeaderName(Seq<char>),
    InvalidHeaderValue(Seq<char>),
    MissingApiKey(Seq<char>),
    ProviderResponseTooLarge { limit: usize },
    UnsupportedNativeKeyring(Seq<char>),
    MissingAssistantMessage,
    UnknownTool(Seq<char>),
    Tool(Seq<char>),
    PathNotAllowed { path: Seq<char>, access: Seq<char> },
    Stream(Seq<char>),
}

/// The result of an operation that can fail with an [`Error`].
pub type Result<T> = std::result::Result<T, Error>;

impl View for Error {
    type V = ErrorView;

    open spec fn view(&self) -> ErrorView {
        match self {
            Error::Keyring(m) => ErrorView::Keyring(m@),
            Error::Http(m) => ErrorView::Http(m@),
            Error::Provider { status, body } => ErrorView::Provider { status: *status, body: body@ },
            Error::Url(m) => ErrorView::Url(m@),
            Error::Json(m) => ErrorView::Json(m@),
            Error::Io(m) => ErrorView::Io(m@),
            Error::InvalidHeaderName(m) => ErrorView::InvalidHeaderName(m@),
            Error::InvalidHeaderValue(m) => ErrorView::InvalidHeaderValue(m@),
            Error::MissingApiKey(id) => ErrorView::MissingApiKey(id@),
            Error::ProviderResponseTooLarge { limit } => ErrorView::ProviderResponseTooLarge {
                limit: *limit,
            },
            Error::UnsupportedNativeKeyring(os) => ErrorView::UnsupportedNativeKeyring(os@),
            Error::MissingAssistantMessage => ErrorView::MissingAssistantMessage,
            Error::UnknownTool(name) => ErrorView::UnknownTool(name@),
            Error::Tool(m) => ErrorView::Tool(m@),
            Error::PathNotAllowed { path, access } => ErrorView::PathNotAllowed {
                path: path@,
                access: access@,
            },
            Error::Stream(m) => ErrorView::Stream(m@),
        }
    }
}

impl ErrorView {
    /// The message of this error.
    pub open spec fn message(self) -> Seq<char> {
        match self {
            ErrorView::Keyring(m) => "keyring error: "@ + m,
            ErrorView::Http(m) => "http error: "@ + m,
            ErrorView::Provider { status, body } => "provider returned HTTP "@ + decimal(
                status as nat,
            ) + ": "@ + body,
            ErrorView::Url(m) => "url error: "@ + m,
            ErrorView::Json(m) => "json error: "@ + m,
            ErrorView::Io(m) => "io error: "@ + m,
            ErrorView::InvalidHeaderName(m) => "invalid http header name: "@ + m,
            ErrorView::InvalidHeaderValue(m) => "invalid http header value: "@ + m,
            ErrorView::MissingApiKey(id) => "api key is not configured for provider '"@ + id
                + "'"@,
            ErrorView::ProviderResponseTooLarge { limit } => "provider response exceeded the "@
                + decimal(limit as nat) + " byte limit"@,
            ErrorView::UnsupportedNativeKeyring(os) =>
            "no native keyring store is configured for target OS '"@ + os + "'"@,
            ErrorView::MissingAssistantMessage => "provider returned no assistant message"@,
            ErrorView::UnknownTool(name) => "unknown tool '"@ + name + "'"@,
            ErrorView::Tool(m) => "tool failed: "@ + m,
            ErrorView::PathNotAllowed { path, access } => "path '"@ + path
                + "' is outside the allowed "@ + access + " roots"@,
            ErrorView::Stream(m) => "stream error: "@ + m,
        }
    }
}

/// `prefix` followed by `rest`.
fn prefixed(prefix: &str, rest: &str) -> (text: String)
    ensures
        text@ == prefix@ + rest@,
{
    let mut text = prefix.to_owned();
    text.append(rest);
    text
}

impl Error {
    /// The message of this error.
    pub fn to_string(&self) -> (text: String)
        ensures
            text@ == self@.message(),
    {
        match self {
            Error::Keyring(m) => prefixed("keyring error: ", m.as_str()),
            Error::Http(m) => prefixed("http error: ", m.as_str()),
            Error::Provider { status, body } => {
                let mut text = prefixed(
                    "provider returned HTTP ",
                    decimal_text(*status as u64).as_str(),
                );
                text.append(": ");
                text.append(body.as_str());
                text
            },
            Error::Url(m) => prefixed("url error: ", m.as_str()),
            Error::Json(m) => prefixed("json error: ", m.as_str()),
            Error::Io(m) => prefixed("io error: ", m.as_str()),
            Error::InvalidHeaderName(m) => prefixed("invalid http header name: ", m.as_str()),
            Error::InvalidHeaderValue(m) => prefixed("invalid http header value: ", m.as_str()),
            Error::MissingApiKey(id) => {
                let mut text = prefixed("api key is not configured for provider '", id.as_str());
                text.append("'");
                text
            },
            Error::ProviderResponseTooLarge { limit } => {
                let mut text = prefixed(
                    "provider response exceeded the ",
                    decimal_text(*limit as u64).as_str(),
                );
                text.append(" byte limit");
                text
            },
            Error::UnsupportedNativeKeyring(os) => {
                let mut text = prefixed(
                    "no native keyring store is configured for target OS '",
                    os.as_str(),
                );
                text.append("'");
                text
            },
            Error::MissingAssistantMessage => "provider returned no assistant message".to_owned(),
            Error::UnknownTool(name) => {
                let mut text = prefixed("unknown tool '", name.as_str());
                text.append("'");
                text
            },
            Error::Tool(m) => prefixed("tool failed: ", m.as_str()),
            Error::PathNotAllowed { path, access } => {
                let mut text = prefixed("path '", path.as_str());
                text.append("' is outside the allowed ");
                text.append(access.as_str());
                text.append(" roots");
                text
            },
            Error::Stream(m) => prefixed("stream error: ", m.as_str()),
        }
    }
}

impl Duplicate for Error {
    fn duplicate(&self) -> (copy: Self) {
        match self {
            Error::Keyring(m) => Error::Keyring(m.clone()),
            Error::Http(m) => Error::Http(m.clone()),
            Error::Provider { status, body } => Error::Provider {
                status: *status,
                body: body.clone(),
            },
            Error::Url(m) => Error::Url(m.clone()),
            Error::Json(m) => Error::Json(m.clone()),
            Error::Io(m) => Error::Io(m.clone()),
            Error::InvalidHeaderName(m) => Error::InvalidHeaderName(m.clone()),
            Error::InvalidHeaderValue(m) => Error::InvalidHeaderValue(m.clone()),
            Error::MissingApiKey(id) => Error::MissingApiKey(id.clone()),
            Error::ProviderResponseTooLarge { limit } => Error::ProviderResponseTooLarge {
                limit: *limit,
            },
            Error::UnsupportedNativeKeyring(os) => Error::UnsupportedNativeKeyring(os.clone()),
            Error::MissingAssistantMessage => Error::MissingAssistantMessage,
            Error::UnknownTool(name) => Error::UnknownTool(name.clone()),
            Error::Tool(m) => Error::Tool(m.clone()),
            Error::PathNotAllowed { path, access } => Error::PathNotAllowed {
                path: path.clone(),
                access: access.clone(),
            },
            Error::Stream(m) => Error::Stream(m.clone()),
        }
    }
}

/// A tool error with the given message.
pub fn tool_error(message: &str) -> (e: Error)
    ensures
        e@ == ErrorView::Tool(message@),
{
    Error::Tool(message.to_owned())
}

/// A stream error with the given message.
pub fn stream_error(message: &str) -> (e: Error)
    ensures
        e@ == ErrorView::Stream(message@),
{
    Error::Stream(message.to_owned())
}

} // verus!
