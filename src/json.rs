//! Reading JSON text: what stands at a path of keys and indices, and the
//! JSON form of a string.
use serde_json::Value;
use vstd::prelude::*;

verus! {

pub enum JsonStep {
    Key(String),
    Index(usize),
}

pub enum JsonStepView {
    Key(Seq<char>),
    Index(nat),
}

/// What stands at a path: nothing (or `null`), a string, an array of a
/// length, an object, a boolean, an integer within `i64`, or another
/// number.
pub enum JsonField {
    Missing,
    Text(String),
    List(usize),
    Object,
    Bool(bool),
    Int(i64),
    Other,
}

pub enum JsonFieldView {
    Missing,
    Text(Seq<char>),
    List(nat),
    Object,
    Bool(bool),
    Int(i64),
    Other,
}

pub open spec fn step_views(p: Seq<JsonStep>) -> Seq<JsonStepView> {
    p.map_values(
        |s: JsonStep|
            match s {
                JsonStep::Key(k) => JsonStepView::Key(k@),
                JsonStep::Index(i) => JsonStepView::Index(i as nat),
            },
    )
}

pub open spec fn field_view(f: Option<JsonField>) -> Option<JsonFieldView> {
    match f {
        None => None,
        Some(JsonField::Missing) => Some(JsonFieldView::Missing),
        Some(JsonField::Text(s)) => Some(JsonFieldView::Text(s@)),
        Some(JsonField::List(n)) => Some(JsonFieldView::List(n as nat)),
        Some(JsonField::Object) => Some(JsonFieldView::Object),
        Some(JsonField::Bool(b)) => Some(JsonFieldView::Bool(b)),
        Some(JsonField::Int(i)) => Some(JsonFieldView::Int(i)),
        Some(JsonField::Other) => Some(JsonFieldView::Other),
    }
}

/// What stands at `path` in the JSON text `doc`; `None` where `doc` is not JSON.
pub uninterp spec fn json_at(doc: Seq<char>, path: Seq<JsonStepView>) -> Option<JsonFieldView>;

/// Relies on `serde_json::from_str` into a `Value`, on `Value`'s indexing,
/// which gives `null` for an absent key or index, and on `Number::as_i64`:
/// the outcome depends on the text and the path alone.
#[verifier::external_body]
pub(crate) fn json_lookup(doc: &str, path: &Vec<JsonStep>) -> (r: Option<JsonField>)
    ensures
        field_view(r) == json_at(doc@, step_views(path@)),
{
    let root: Value = serde_json::from_str(doc).ok()?;
    let mut v = &root;
    for step in path.iter() {
        v = match step { JsonStep::Key(k) => &v[k.as_str()], JsonStep::Index(i) => &v[*i] };
    }
    Some(match v {
        Value::Null => JsonField::Missing,
        Value::String(s) => JsonField::Text(s.clone()),
        Value::Array(a) => JsonField::List(a.len()),
        Value::Object(_) => JsonField::Object,
        Value::Bool(b) => JsonField::Bool(*b),
        Value::Number(n) => n.as_i64().map_or(JsonField::Other, JsonField::Int),
        _ => JsonField::Other,
    })
}

/// The string at `path`, where one stands there.
pub open spec fn text_at(doc: Seq<char>, path: Seq<JsonStepView>) -> Option<Seq<char>> {
    match json_at(doc, path) {
        Some(JsonFieldView::Text(s)) => Some(s),
        _ => None,
    }
}

/// The length of the array at `path`, where one stands there.
pub open spec fn list_at(doc: Seq<char>, path: Seq<JsonStepView>) -> Option<nat> {
    match json_at(doc, path) {
        Some(JsonFieldView::List(n)) => Some(n),
        _ => None,
    }
}

pub open spec fn is_json(doc: Seq<char>) -> bool {
    json_at(doc, Seq::<JsonStepView>::empty()) is Some
}

pub fn text_lookup(doc: &str, path: &Vec<JsonStep>) -> (r: Option<String>)
    ensures
        crate::settings::opt_view(r) == text_at(doc@, step_views(path@)),
{
    match json_lookup(doc, path) {
        Some(JsonField::Text(s)) => Some(s),
        _ => None,
    }
}

pub fn list_lookup(doc: &str, path: &Vec<JsonStep>) -> (r: Option<usize>)
    ensures
        match r {
            Some(n) => list_at(doc@, step_views(path@)) == Some(n as nat),
            None => list_at(doc@, step_views(path@)) is None,
        },
{
    match json_lookup(doc, path) {
        Some(JsonField::List(n)) => Some(n),
        _ => None,
    }
}

pub fn parses(doc: &str) -> (r: bool)
    ensures
        r == is_json(doc@),
{
    let path: Vec<JsonStep> = Vec::new();
    assert(step_views(path@) =~= Seq::<JsonStepView>::empty());
    json_lookup(doc, &path).is_some()
}

/// The path of one key.
pub fn key_path(key: &str) -> (r: Vec<JsonStep>)
    ensures
        step_views(r@) == seq![JsonStepView::Key(key@)],
{
    let mut p: Vec<JsonStep> = Vec::new();
    p.push(JsonStep::Key(String::from_str(key)));
    assert(step_views(p@) =~= seq![JsonStepView::Key(key@)]);
    p
}

/// The string under `key` at the top of `doc`.
pub open spec fn text_field(doc: Seq<char>, key: Seq<char>) -> Option<Seq<char>> {
    text_at(doc, seq![JsonStepView::Key(key)])
}

pub fn text_field_of(doc: &str, key: &str) -> (r: Option<String>)
    ensures
        crate::settings::opt_view(r) == text_field(doc@, key@),
{
    let p = key_path(key);
    text_lookup(doc, &p)
}

/// A lowercase hexadecimal digit.
pub open spec fn hex_lower(d: int) -> char {
    if d < 10 {
        ((d + 48) as u32) as char
    } else {
        ((d + 87) as u32) as char
    }
}

/// How a JSON string literal writes `c`: a quote, a backslash and the
/// named control characters with a backslash, other control characters as
/// `\u00` and two hexadecimal digits, anything else as itself.
pub open spec fn json_escape(c: char) -> Seq<char> {
    if c == '"' {
        seq!['\\', '"']
    } else if c == '\\' {
        seq!['\\', '\\']
    } else if c == '\u{8}' {
        seq!['\\', 'b']
    } else if c == '\t' {
        seq!['\\', 't']
    } else if c == '\n' {
        seq!['\\', 'n']
    } else if c == '\u{c}' {
        seq!['\\', 'f']
    } else if c == '\r' {
        seq!['\\', 'r']
    } else if (c as u32) < 0x20 {
        seq!['\\', 'u', '0', '0', hex_lower((c as int) / 16), hex_lower((c as int) % 16)]
    } else {
        seq![c]
    }
}

pub open spec fn json_escaped(s: Seq<char>) -> Seq<char>
    decreases s.len(),
{
    if s.len() == 0 {
        Seq::<char>::empty()
    } else {
        json_escaped(s.drop_last()) + json_escape(s.last())
    }
}

/// The JSON string literal of `s`.
pub open spec fn json_quoted_of(s: Seq<char>) -> Seq<char> {
    seq!['"'] + json_escaped(s) + seq!['"']
}

/// Relies on `serde_json::to_string` on a `str` (its escape table and
/// `write_char_escape`): the quoted literal with the escapes above; it does
/// not fail on a string.
#[verifier::external_body]
pub(crate) fn json_quote(s: &str) -> (r: String)
    ensures
        r@ == json_quoted_of(s@),
{
    serde_json::to_string(s).unwrap_or_default()
}

} // verus!
