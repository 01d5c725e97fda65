//! JSON values.
//!
//! The library looks at a value only as far as its rules need: whether it is `null`, a boolean or
//! a string. Numbers, arrays and objects are carried in their compact text.

use crate::model;
use vstd::prelude::*;
use vstd::string::*;

verus! {

/// A JSON value.
#[derive(Debug, PartialEq, Eq)]
pub enum Json {
    /// `null`.
    Null,
    /// `true` or `false`.
    Bool(bool),
    /// A string, unquoted and unescaped.
    Text(String),
    /// A number, an array or an object, as compact JSON text with the keys of objects in
    /// ascending order.
    Raw(String),
}

/// Model of a JSON value.
#[verifier::ext_equal]
pub enum JsonView {
    Null,
    Bool(bool),
    Text(Seq<char>),
    Raw(Seq<char>),
}

impl View for Json {
    type V = JsonView;

    open spec fn view(&self) -> JsonView {
        match *self {
            Json::Null => JsonView::Null,
            Json::Bool(b) => JsonView::Bool(b),
            Json::Text(s) => JsonView::Text(s@),
            Json::Raw(s) => JsonView::Raw(s@),
        }
    }
}

impl DeepView for Json {
    type V = JsonView;

    open spec fn deep_view(&self) -> JsonView {
        self@
    }
}

impl Clone for Json {
    fn clone(&self) -> (r: Self)
        ensures
            r@ == self@,
    {
        match self {
            Json::Null => Json::Null,
            Json::Bool(b) => Json::Bool(*b),
            Json::Text(s) => Json::Text(s.clone()),
            Json::Raw(s) => Json::Raw(s.clone()),
        }
    }
}

/// A hexadecimal digit, in lower case.
pub open spec fn hex_digit(n: int) -> char {
    if n < 10 {
        ('0' as u32 + n) as char
    } else {
        ('a' as u32 + (n - 10)) as char
    }
}

/// How a character is written between the quotes of a JSON string.
pub open spec fn escaped(c: char) -> Seq<char> {
    if c == '"' {
        seq!['\\', '"']
    } else if c == '\\' {
        seq!['\\', '\\']
    } else if c == '\x08' {
        seq!['\\', 'b']
    } else if c == '\t' {
        seq!['\\', 't']
    } else if c == '\n' {
        seq!['\\', 'n']
    } else if c == '\x0C' {
        seq!['\\', 'f']
    } else if c == '\r' {
        seq!['\\', 'r']
    } else if (c as u32) < 0x20 {
        seq!['\\', 'u', '0', '0', hex_digit((c as u32 / 16) as int), hex_digit((c as u32 % 16) as int)]
    } else {
        seq![c]
    }
}

/// The characters of a JSON string between its quotes.
pub open spec fn escaped_text(s: Seq<char>) -> Seq<char>
    decreases s.len(),
{
    if s.len() == 0 {
        Seq::empty()
    } else {
        escaped_text(s.drop_last()) + escaped(s.last())
    }
}

/// A text as a JSON string.
pub open spec fn quoted(s: Seq<char>) -> Seq<char> {
    seq!['"'] + escaped_text(s) + seq!['"']
}

/// The compact text of a value.
pub open spec fn json_text(j: JsonView) -> Seq<char> {
    match j {
        JsonView::Null => "null"@,
        JsonView::Bool(b) => if b {
            "true"@
        } else {
            "false"@
        },
        JsonView::Text(s) => quoted(s),
        JsonView::Raw(s) => s,
    }
}

/// What `serde_json::from_str` reads out of a text: a value, or the message of the error that it
/// reports.
pub uninterp spec fn json_value(text: Seq<char>) -> Result<JsonView, Seq<char>>;

/// `serde_json::from_str` for a `serde_json::Value`: what comes out depends on the text alone.
/// `null`, booleans and strings come back as such, other values by their compact text; an error
/// comes back as its message. Which texts it accepts is not stated.
#[verifier::external_body]
fn read_value(text: &str) -> (r: Result<Json, String>)
    ensures
        model::result_view(r) == json_value(text@),
{
    match serde_json::from_str::<serde_json::Value>(text) {
        Ok(serde_json::Value::Null) => Ok(Json::Null),
        Ok(serde_json::Value::Bool(b)) => Ok(Json::Bool(b)),
        Ok(serde_json::Value::String(s)) => Ok(Json::Text(s)),
        Ok(v) => Ok(Json::Raw(v.to_string())),
        Err(e) => Err(e.to_string()),
    }
}

/// `serde_json::to_string` for a text: the text between quotes, with quotes, backslashes and
/// control characters escaped. It does not fail on a text.
#[verifier::external_body]
pub(crate) fn quote(s: &str) -> (r: String)
    ensures
        r@ == quoted(s@),
{
    serde_json::to_string(s).unwrap_or_default()
}

impl Json {
    /// Reads a JSON text.
    pub fn parse(text: &str) -> (r: Result<Json, String>)
        ensures
            model::result_view(r) == json_value(text@),
    {
        read_value(text)
    }

    /// The object without members.
    pub fn empty_object() -> (r: Json)
        ensures
            r@ == JsonView::Raw("{}"@),
    {
        Json::Raw("{}".to_owned())
    }

    /// Whether the value is `null`.
    pub fn is_null(&self) -> (r: bool)
        ensures
            r == (self@ == JsonView::Null),
    {
        match self {
            Json::Null => true,
            _ => false,
        }
    }

    /// The boolean that the value is, if it is one.
    pub fn as_bool(&self) -> (r: Option<bool>)
        ensures
            r == match self@ {
                JsonView::Bool(b) => Some(b),
                _ => None,
            },
    {
        match self {
            Json::Bool(b) => Some(*b),
            _ => None,
        }
    }

    /// The compact text of the value.
    pub fn to_text(&self) -> (r: String)
        ensures
            r@ == json_text(self@),
    {
        match self {
            Json::Null => "null".to_owned(),
            Json::Bool(b) => if *b {
                "true".to_owned()
            } else {
                "false".to_owned()
            },
            Json::Text(s) => quote(s.as_str()),
            Json::Raw(s) => s.clone(),
        }
    }

    /// The value as a text: a string is itself, any other value its compact text.
    pub fn body(&self) -> (r: String)
        ensures
            r@ == json_body(self@),
    {
        match self {
            Json::Text(s) => s.clone(),
            _ => self.to_text(),
        }
    }
}

/// A value as a text: a string is itself, any other value its compact text.
pub open spec fn json_body(j: JsonView) -> Seq<char> {
    match j {
        JsonView::Text(s) => s,
        _ => json_text(j),
    }
}

} // verus!
