//! JSON values that the library carries without looking inside, kept as compact text.

use vstd::prelude::*;

use vstd::utf8::encode_utf8;

use crate::common::Duplicate;
use crate::error::{Error, ErrorView};
use crate::json_value::{compact, parse_compact, parsed_value};
use crate::value::{Json, Tree};

verus! {

/// What sort of JSON value a text holds.
#[derive(Debug, PartialEq, Eq)]
pub enum JsonShape {
    /// A string, with its unescaped contents.
    Text(String),
    /// An object.
    Object,
    /// Anything else.
    Other,
}

/// A JSON value as compact text.
#[derive(Debug, PartialEq, Eq)]
pub struct JsonText {
    text: String,
    shape: JsonShape,
}

/// The model of a [`JsonShape`].
pub enum ShapeView {
    Text(Seq<char>),
    Object,
    Other,
}

/// The model of a [`JsonText`].
pub struct JsonView {
    pub text: Seq<char>,
    pub shape: ShapeView,
}

impl View for JsonShape {
    type V = ShapeView;

    open spec fn view(&self) -> ShapeView {
        match self {
            JsonShape::Text(text) => ShapeView::Text(text@),
            JsonShape::Object => ShapeView::Object,
            JsonShape::Other => ShapeView::Other,
        }
    }
}

impl View for JsonText {
    type V = JsonView;

    closed spec fn view(&self) -> JsonView {
        JsonView { text: self.text@, shape: self.shape@ }
    }
}

/// What sort of value a tree is.
pub open spec fn shape_of(tree: Tree) -> ShapeView {
    match tree {
        Tree::Str(contents) => ShapeView::Text(contents),
        Tree::Object(_) => ShapeView::Object,
        _ => ShapeView::Other,
    }
}

/// What a text holds: the value in compact form, or the message of why the text is not JSON.
pub open spec fn parsed_json(text: Seq<char>) -> Result<JsonView, Seq<char>> {
    match parsed_value(encode_utf8(text)) {
        Ok(tree) => Ok(JsonView { text: compact(tree), shape: shape_of(tree) }),
        Err(message) => Err(message),
    }
}

impl Duplicate for JsonText {
    fn duplicate(&self) -> (copy: Self) {
        JsonText {
            text: self.text.clone(),
            shape: match &self.shape {
                JsonShape::Text(text) => JsonShape::Text(text.clone()),
                JsonShape::Object => JsonShape::Object,
                JsonShape::Other => JsonShape::Other,
            },
        }
    }
}

impl Clone for JsonText {
    fn clone(&self) -> (copy: Self)
        ensures
            copy@ == self@,
    {
        self.duplicate()
    }
}

impl JsonText {
    /// Parse a JSON text.
    pub fn parse(text: &str) -> (r: Result<Self, Error>)
        ensures
            match parsed_json(text@) {
                Ok(json) => r matches Ok(value) && value@ == json,
                Err(message) => r matches Err(e) && e@ == ErrorView::Json(message),
            },
    {
        let (value, text) = match parse_compact(text) {
            Ok(parsed) => parsed,
            Err(error) => return Err(error),
        };
        let shape = match value {
            Json::Str(contents) => JsonShape::Text(contents),
            Json::Object(_) => JsonShape::Object,
            _ => JsonShape::Other,
        };
        Ok(JsonText { text, shape })
    }

    /// The value that asks a provider for a JSON object.
    pub(crate) fn json_object_format() -> (json: Self)
        ensures
            json@ == (JsonView { text: "{\"type\":\"json_object\"}"@, shape: ShapeView::Object }),
    {
        JsonText { text: "{\"type\":\"json_object\"}".to_owned(), shape: JsonShape::Object }
    }

    /// The empty object.
    pub fn empty_object() -> (json: Self)
        ensures
            json@ == (JsonView { text: "{}"@, shape: ShapeView::Object }),
    {
        JsonText { text: "{}".to_owned(), shape: JsonShape::Object }
    }

    /// The compact text.
    pub fn as_str(&self) -> (text: &str)
        ensures
            text@ == self@.text,
    {
        self.text.as_str()
    }

    /// Whether the value is an object.
    pub fn is_object(&self) -> (b: bool)
        ensures
            b == (self@.shape is Object),
    {
        match &self.shape {
            JsonShape::Object => true,
            _ => false,
        }
    }

    /// The text that a model reads: the contents of a string, and the compact text of any other
    /// value.
    pub fn into_plain_text(self) -> (text: String)
        ensures
            text@ == plain_text(self@),
    {
        match self.shape {
            JsonShape::Text(text) => text,
            _ => self.text,
        }
    }
}

/// The contents of a string, and the compact text of any other value.
pub open spec fn plain_text(json: JsonView) -> Seq<char> {
    match json.shape {
        ShapeView::Text(text) => text,
        _ => json.text,
    }
}

} // verus!
