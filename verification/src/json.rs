//! JSON values as they cross the boundary to and from the user interface.
//!
//! A value keeps what the library reads of it: its kind, booleans, integers,
//! strings, and the text of everything else. A number that is not an
//! integer, and an array or object, is carried by the compact text
//! `serde_json` renders for it; the code that parses incoming JSON fills that
//! text in.

use vstd::prelude::*;

use crate::text::{decimal, hex_digit_char, signed_decimal, string_from_chars, u64_text, i64_text};

verus! {

/// A JSON number: a non-negative integer, a negative integer, or any other
/// number by its rendered text.
#[derive(Clone, Debug, PartialEq, Eq)]
pub enum JsonNumber {
    PosInt(u64),
    NegInt(i64),
    Float(String),
}

/// A JSON value.
#[derive(Clone, Debug, PartialEq, Eq)]
pub enum JsonValue {
    Null,
    Bool(bool),
    Number(JsonNumber),
    String(String),
    /// An array, by its compact JSON text.
    Array(String),
    /// An object, by its compact JSON text.
    Object(String),
}

/// The mathematical model of a [`JsonNumber`].
pub ghost enum NumberModel {
    PosInt(nat),
    NegInt(int),
    Float(Seq<char>),
}

/// The mathematical model of a [`JsonValue`].
pub ghost enum JsonModel {
    Null,
    Bool(bool),
    Number(NumberModel),
    String(Seq<char>),
    Array(Seq<char>),
    Object(Seq<char>),
}

impl View for JsonNumber {
    type V = NumberModel;

    open spec fn view(&self) -> NumberModel {
        match self {
            JsonNumber::PosInt(n) => NumberModel::PosInt(*n as nat),
            JsonNumber::NegInt(n) => NumberModel::NegInt(*n as int),
            JsonNumber::Float(t) => NumberModel::Float(t@),
        }
    }
}

impl View for JsonValue {
    type V = JsonModel;

    open spec fn view(&self) -> JsonModel {
        match self {
            JsonValue::Null => JsonModel::Null,
            JsonValue::Bool(b) => JsonModel::Bool(*b),
            JsonValue::Number(n) => JsonModel::Number(n@),
            JsonValue::String(s) => JsonModel::String(s@),
            JsonValue::Array(t) => JsonModel::Array(t@),
            JsonValue::Object(t) => JsonModel::Object(t@),
        }
    }
}

/// `Number::as_i64`: the number as an `i64`, where it is an integer that fits.
pub open spec fn number_as_i64(n: NumberModel) -> Option<int> {
    match n {
        NumberModel::PosInt(v) => if v <= i64::MAX as nat {
            Some(v as int)
        } else {
            None
        },
        NumberModel::NegInt(v) => Some(v),
        NumberModel::Float(_) => None,
    }
}

/// The text of a number (`Display` for `Number`).
pub open spec fn number_text(n: NumberModel) -> Seq<char> {
    match n {
        NumberModel::PosInt(v) => decimal(v),
        NumberModel::NegInt(v) => signed_decimal(v),
        NumberModel::Float(t) => t,
    }
}

/// The text of `true` or `false`.
pub open spec fn bool_text(b: bool) -> Seq<char> {
    if b {
        seq!['t', 'r', 'u', 'e']
    } else {
        seq!['f', 'a', 'l', 's', 'e']
    }
}

/// How `serde_json` writes one character of a string: a quote and a
/// backslash escaped with a backslash, the control characters that have a
/// short escape by it, other ASCII control characters as `\u00XX` in
/// lower-case hexadecimal, and everything else as itself.
pub open spec fn json_escape(c: char) -> Seq<char> {
    if c == '"' {
        seq!['\\', '"']
    } else if c == '\\' {
        seq!['\\', '\\']
    } else if c == '\u{8}' {
        seq!['\\', 'b']
    } else if c == '\t' {
        seq!['\\', 't']
    } else if c == '\n' {
        seq!['\\', 'n']
    } else if c == '\u{c}' {
        seq!['\\', 'f']
    } else if c == '\r' {
        seq!['\\', 'r']
    } else if (c as int) < 32 {
        seq![
            '\\',
            'u',
            '0',
            '0',
            hex_digit_char(((c as int) / 16) as nat),
            hex_digit_char(((c as int) % 16) as nat),
        ]
    } else {
        seq![c]
    }
}

/// The characters of a string, each as `serde_json` writes it.
pub open spec fn json_escaped(s: Seq<char>) -> Seq<char>
    decreases s.len(),
{
    if s.len() == 0 {
        Seq::empty()
    } else {
        json_escaped(s.drop_last()) + json_escape(s.last())
    }
}

/// The text that `serde_json` writes for a string: the string in double
/// quotes, with its escapes.
pub open spec fn json_string_literal(s: Seq<char>) -> Seq<char> {
    seq!['"'] + json_escaped(s) + seq!['"']
}

/// The compact JSON text of a value (`Display` for `Value`).
pub open spec fn json_text(v: JsonModel) -> Seq<char> {
    match v {
        JsonModel::Null => seq!['n', 'u', 'l', 'l'],
        JsonModel::Bool(b) => bool_text(b),
        JsonModel::Number(n) => number_text(n),
        JsonModel::String(s) => json_string_literal(s),
        JsonModel::Array(t) => t,
        JsonModel::Object(t) => t,
    }
}

/// What a table cell shows for a value: nothing for `null`, a string's own
/// characters, and the JSON text of everything else.
pub open spec fn cell_text(v: JsonModel) -> Seq<char> {
    match v {
        JsonModel::Null => Seq::empty(),
        JsonModel::String(s) => s,
        _ => json_text(v),
    }
}

/// `serde_json::to_string` for a string: the string in double quotes, each
/// character escaped as `serde_json`'s escape table says (see
/// [`json_escape`]).
#[verifier::external_body]
fn json_quote(s: &str) -> (r: String)
    ensures
        r@ == json_string_literal(s@),
{
    serde_json::to_string(s).unwrap_or_default()
}

/// The number `serde_json` reads from `text`, where the whole of `text` is
/// one JSON number.
pub uninterp spec fn json_number_from_text(text: Seq<char>) -> Option<NumberModel>;

/// `serde_json::from_str::<Value>`, kept where it yields a number: the
/// number, classified as `serde_json` holds it.
#[verifier::external_body]
pub(crate) fn parse_json_number(text: &str) -> (r: Option<JsonNumber>)
    ensures
        match r {
            Some(n) => json_number_from_text(text@) == Some(n@),
            None => json_number_from_text(text@) is None,
        },
{
    match serde_json::from_str::<serde_json::Value>(text) {
        Ok(serde_json::Value::Number(n)) => Some(match (n.as_u64(), n.as_i64()) {
            (Some(u), _) => JsonNumber::PosInt(u),
            (None, Some(i)) => JsonNumber::NegInt(i),
            (None, None) => JsonNumber::Float(n.to_string()),
        }),
        _ => None,
    }
}

fn bool_string(b: bool) -> (s: String)
    ensures
        s@ == bool_text(b),
{
    if b {
        let v: Vec<char> = vec!['t', 'r', 'u', 'e'];
        assert(v@ =~= bool_text(b));
        string_from_chars(v.as_slice())
    } else {
        let v: Vec<char> = vec!['f', 'a', 'l', 's', 'e'];
        assert(v@ =~= bool_text(b));
        string_from_chars(v.as_slice())
    }
}

impl JsonNumber {
    /// The number from an `i64`, as `serde_json` holds one: non-negative
    /// values as `PosInt`, negative ones as `NegInt`.
    pub fn from_i64(n: i64) -> (r: JsonNumber)
        ensures
            n >= 0 ==> r@ == NumberModel::PosInt(n as nat),
            n < 0 ==> r@ == NumberModel::NegInt(n as int),
    {
        if n >= 0 {
            JsonNumber::PosInt(n as u64)
        } else {
            JsonNumber::NegInt(n)
        }
    }

    /// `Number::as_i64`.
    pub fn as_i64(&self) -> (r: Option<i64>)
        ensures
            match r {
                Some(v) => number_as_i64(self@) == Some(v as int),
                None => number_as_i64(self@) is None,
            },
    {
        match self {
            JsonNumber::PosInt(v) => if *v <= i64::MAX as u64 {
                Some(*v as i64)
            } else {
                None
            },
            JsonNumber::NegInt(v) => Some(*v),
            JsonNumber::Float(_) => None,
        }
    }

    /// `Number::to_string`.
    pub fn to_text(&self) -> (s: String)
        ensures
            s@ == number_text(self@),
    {
        match self {
            JsonNumber::PosInt(v) => u64_text(*v),
            JsonNumber::NegInt(v) => i64_text(*v),
            JsonNumber::Float(t) => t.clone(),
        }
    }
}

impl JsonValue {
    /// An independent copy of the value.
    pub fn copy(&self) -> (r: JsonValue)
        ensures
            r@ == self@,
    {
        match self {
            JsonValue::Null => JsonValue::Null,
            JsonValue::Bool(b) => JsonValue::Bool(*b),
            JsonValue::Number(n) => JsonValue::Number(
                match n {
                    JsonNumber::PosInt(v) => JsonNumber::PosInt(*v),
                    JsonNumber::NegInt(v) => JsonNumber::NegInt(*v),
                    JsonNumber::Float(t) => JsonNumber::Float(t.clone()),
                },
            ),
            JsonValue::String(s) => JsonValue::String(s.clone()),
            JsonValue::Array(t) => JsonValue::Array(t.clone()),
            JsonValue::Object(t) => JsonValue::Object(t.clone()),
        }
    }

    /// `Value::is_null`.
    pub fn is_null(&self) -> (r: bool)
        ensures
            r == (self@ is Null),
    {
        matches!(self, JsonValue::Null)
    }

    /// `Value::is_number`.
    pub fn is_number(&self) -> (r: bool)
        ensures
            r == (self@ is Number),
    {
        matches!(self, JsonValue::Number(_))
    }

    /// `Value::is_string`.
    pub fn is_string(&self) -> (r: bool)
        ensures
            r == (self@ is String),
    {
        matches!(self, JsonValue::String(_))
    }

    /// `Value::is_boolean`.
    pub fn is_boolean(&self) -> (r: bool)
        ensures
            r == (self@ is Bool),
    {
        matches!(self, JsonValue::Bool(_))
    }

    /// Whether the value is an array or an object, which the row detail panel
    /// shows as formatted JSON.
    pub fn is_composite(&self) -> (r: bool)
        ensures
            r == (self@ is Array || self@ is Object),
    {
        matches!(self, JsonValue::Array(_) | JsonValue::Object(_))
    }

    /// `Value::as_i64`.
    pub fn as_i64(&self) -> (r: Option<i64>)
        ensures
            match self@ {
                JsonModel::Number(n) => match r {
                    Some(v) => number_as_i64(n) == Some(v as int),
                    None => number_as_i64(n) is None,
                },
                _ => r is None,
            },
    {
        match self {
            JsonValue::Number(n) => n.as_i64(),
            _ => None,
        }
    }

    /// `Value::to_string`: the compact JSON text.
    pub fn to_json_text(&self) -> (s: String)
        ensures
            s@ == json_text(self@),
    {
        match self {
            JsonValue::Null => {
                let v: Vec<char> = vec!['n', 'u', 'l', 'l'];
                assert(v@ =~= json_text(self@));
                string_from_chars(v.as_slice())
            },
            JsonValue::Bool(b) => bool_string(*b),
            JsonValue::Number(n) => n.to_text(),
            JsonValue::String(s) => json_quote(s.as_str()),
            JsonValue::Array(t) => t.clone(),
            JsonValue::Object(t) => t.clone(),
        }
    }
}

/// The text a table cell shows for `val`; a `null` shows as nothing here and
/// is marked separately by the view.
pub fn format_value(val: &JsonValue) -> (s: String)
    ensures
        s@ == cell_text(val@),
{
    match val {
        JsonValue::Null => String::new(),
        JsonValue::String(s) => s.clone(),
        _ => val.to_json_text(),
    }
}

} // verus!
