//! JSON values: `serde_json::Value` behind a model of its content.
use crate::errors::{ErrorView, RustProviderError};
use crate::text::{cat2, same};
use vstd::prelude::*;

verus! {

/// `serde_json::Value`, a JSON tree.
#[verifier::external_type_specification]
#[verifier::external_body]
pub struct ExValue(serde_json::Value);

/// What a JSON tree holds.
pub enum JsonView {
    Null,
    Bool(bool),
    /// A number: its value where it is a whole number of 64 bits, and how it is written.
    Number(Option<u64>, Seq<char>),
    Text(Seq<char>),
    List(Seq<JsonView>),
    Object(Map<Seq<char>, JsonView>),
}

/// The content of a `serde_json::Value`.
pub uninterp spec fn json_value(value: serde_json::Value) -> JsonView;

/// What `serde_json::from_str` makes of a text: a tree, or the text of its error.
pub uninterp spec fn json_parsed(text: Seq<char>) -> Result<JsonView, Seq<char>>;

/// How a JSON tree is written on one line.
pub uninterp spec fn json_text(value: JsonView) -> Seq<char>;

/// The contents of the trees of a list.
pub open spec fn json_values(list: Seq<serde_json::Value>) -> Seq<JsonView> {
    list.map_values(|v: serde_json::Value| json_value(v))
}

/// Whether a number's text is that of a negative whole number of 64 bits.
pub open spec fn is_negative(text: Seq<char>) -> bool {
    exists|n: nat|
        0 < n <= 0x8000_0000_0000_0000 && text == seq!['-'] + #[trigger] crate::numbers::decimal(n)
}

/// Whether a tree's numbers are whole numbers of 64 bits, and its lists and
/// objects stand in one another at most `depth` deep.
pub open spec fn is_whole_tree(value: JsonView, depth: nat) -> bool
    decreases depth,
{
    match value {
        JsonView::Number(whole, text) => whole is Some || is_negative(text),
        JsonView::List(items) => depth > 0 && forall|i: int|
            0 <= i < items.len() ==> is_whole_tree(#[trigger] items[i], (depth - 1) as nat),
        JsonView::Object(fields) => depth > 0 && forall|key: Seq<char>| #[trigger]
            fields.contains_key(key) ==> is_whole_tree(fields[key], (depth - 1) as nat),
        _ => true,
    }
}

/// How deep the lists and objects of a text may stand in one another where it is read.
pub const DEPTH_LIMIT: u8 = 127;

/// What an operation that gives a tree gave.
pub open spec fn json_outcome(r: Result<serde_json::Value, RustProviderError>) -> Result<
    JsonView,
    ErrorView,
> {
    match r {
        Ok(v) => Ok(json_value(v)),
        Err(e) => Err(e.deep_view()),
    }
}

impl JsonView {
    /// The member `key` of an object.
    pub open spec fn get(self, key: Seq<char>) -> Option<JsonView> {
        match self {
            JsonView::Object(fields) if fields.contains_key(key) => Some(fields[key]),
            _ => None,
        }
    }

    /// The text that the tree is, if it is one.
    pub open spec fn as_text(self) -> Option<Seq<char>> {
        match self {
            JsonView::Text(text) => Some(text),
            _ => None,
        }
    }

    /// The list that the tree is, if it is one.
    pub open spec fn as_list(self) -> Option<Seq<JsonView>> {
        match self {
            JsonView::List(list) => Some(list),
            _ => None,
        }
    }

    /// The whole number of 64 bits that the tree is, if it is one.
    pub open spec fn as_whole(self) -> Option<u64> {
        match self {
            JsonView::Number(whole, _) => whole,
            _ => None,
        }
    }

    /// The truth value that the tree is, if it is one.
    pub open spec fn as_flag(self) -> Option<bool> {
        match self {
            JsonView::Bool(flag) => Some(flag),
            _ => None,
        }
    }

    /// The text of member `key`, if it has one.
    pub open spec fn text_at(self, key: Seq<char>) -> Option<Seq<char>> {
        match self.get(key) {
            Some(member) => member.as_text(),
            None => None,
        }
    }

    /// The whole number of member `key`, if it has one.
    pub open spec fn whole_at(self, key: Seq<char>) -> Option<u64> {
        match self.get(key) {
            Some(member) => member.as_whole(),
            None => None,
        }
    }

    /// The truth value of member `key`, if it has one.
    pub open spec fn flag_at(self, key: Seq<char>) -> Option<bool> {
        match self.get(key) {
            Some(member) => member.as_flag(),
            None => None,
        }
    }

    /// The list of member `key`; empty where there is none.
    pub open spec fn list_at(self, key: Seq<char>) -> Seq<JsonView> {
        match self.get(key) {
            Some(member) => match member.as_list() {
                Some(list) => list,
                None => Seq::empty(),
            },
            None => Seq::empty(),
        }
    }
}

/// The object without members.
pub open spec fn no_fields() -> Map<Seq<char>, JsonView> {
    Map::empty()
}

/// `serde_json::from_str` into a `Value`: the tree that the text denotes, or the
/// text of the error. Which tree or error that is depends on the text alone.
#[verifier::external_body]
pub(crate) fn parse_value(text: &str) -> (r: Result<serde_json::Value, String>)
    ensures
        json_parsed(text@) == match r {
            Ok(v) => Ok(json_value(v)),
            Err(e) => Err(e@),
        },
{
    serde_json::from_str::<serde_json::Value>(text).map_err(|e| e.to_string())
}

/// `Value`'s `Display`: the tree written on one line, which depends on its content
/// alone, and from which `serde_json::from_str` reads the same tree where its
/// numbers are whole and it is not nested too deep. (Of other numbers, which are
/// read as floating point numbers, that is not said.)
#[verifier::external_body]
fn show_value(value: &serde_json::Value) -> (r: String)
    ensures
        r@ == json_text(json_value(*value)),
        is_whole_tree(json_value(*value), DEPTH_LIMIT as nat) ==> json_parsed(r@) is Ok
            && json_parsed(r@)->Ok_0 == json_value(*value),
{
    value.to_string()
}

/// A tree written on one line. A tree of whole numbers that is not nested too
/// deep is read back as it was.
pub fn show_json(value: &serde_json::Value) -> (r: String)
    ensures
        r@ == json_text(json_value(*value)),
        is_whole_tree(json_value(*value), DEPTH_LIMIT as nat) ==> json_or_text(r@) == json_value(
            *value,
        ),
{
    show_value(value)
}

/// `Value::get` with a text key: the member of an object, nothing on another tree.
#[verifier::external_body]
pub(crate) fn member<'a>(value: &'a serde_json::Value, key: &str) -> (r: Option<
    &'a serde_json::Value,
>)
    ensures
        json_value(*value).get(key@) == match r {
            Some(v) => Some(json_value(*v)),
            None => None,
        },
{
    value.get(key)
}

/// `Value::as_str`: the text that the tree is.
#[verifier::external_body]
pub(crate) fn value_text<'a>(value: &'a serde_json::Value) -> (r: Option<&'a str>)
    ensures
        json_value(*value).as_text() == match r {
            Some(s) => Some(s@),
            None => None,
        },
{
    value.as_str()
}

/// `Value::as_array`: the list that the tree is.
#[verifier::external_body]
pub(crate) fn value_list<'a>(value: &'a serde_json::Value) -> (r: Option<
    &'a Vec<serde_json::Value>,
>)
    ensures
        json_value(*value).as_list() == match r {
            Some(list) => Some(json_values(list@)),
            None => None,
        },
{
    value.as_array()
}

/// `Value::as_u64`: the whole number of 64 bits that the tree is.
#[verifier::external_body]
pub(crate) fn value_whole(value: &serde_json::Value) -> (r: Option<u64>)
    ensures
        r == json_value(*value).as_whole(),
{
    value.as_u64()
}

/// `Value::as_bool`: the truth value that the tree is.
#[verifier::external_body]
pub(crate) fn value_flag(value: &serde_json::Value) -> (r: Option<bool>)
    ensures
        r == json_value(*value).as_flag(),
{
    value.as_bool()
}

/// `Value`'s `Clone`: a tree with the same content.
#[verifier::external_body]
pub(crate) fn copy_value(value: &serde_json::Value) -> (r: serde_json::Value)
    ensures
        json_value(r) == json_value(*value),
{
    value.clone()
}

/// `Value::from` on a text: the tree that is that text.
#[verifier::external_body]
pub(crate) fn text_value(text: &str) -> (r: serde_json::Value)
    ensures
        json_value(r) == JsonView::Text(text@),
{
    serde_json::Value::from(text)
}

/// `Value::from` on a list of trees: the tree that is that list.
#[verifier::external_body]
pub(crate) fn list_value(list: Vec<serde_json::Value>) -> (r: serde_json::Value)
    ensures
        json_value(r) == JsonView::List(json_values(list@)),
{
    serde_json::Value::from(list)
}

/// `Value::from` on a whole number: the tree that is that number, written in decimal.
#[verifier::external_body]
pub(crate) fn number_value(number: u64) -> (r: serde_json::Value)
    ensures
        json_value(r) == JsonView::Number(Some(number), crate::numbers::decimal(number as nat)),
{
    serde_json::Value::from(number)
}

/// `Value::from` on a truth value: the tree that is that value.
#[verifier::external_body]
pub(crate) fn flag_value(flag: bool) -> (r: serde_json::Value)
    ensures
        json_value(r) == JsonView::Bool(flag),
{
    serde_json::Value::from(flag)
}

/// `serde_json::Map::new`: the object without members.
#[verifier::external_body]
pub(crate) fn empty_object() -> (r: serde_json::Value)
    ensures
        json_value(r) == JsonView::Object(no_fields()),
{
    serde_json::Value::Object(serde_json::Map::new())
}

/// `Value`'s `IndexMut` with a text key, on an object: the member is set, the
/// others stay. (On a list, a text, a number or a truth value it would panic.)
#[verifier::external_body]
pub(crate) fn set_member(value: &mut serde_json::Value, key: &str, item: serde_json::Value)
    requires
        json_value(*old(value)) is Object,
    ensures
        json_value(*final(value)) == JsonView::Object(
            json_value(*old(value))->Object_0.insert(key@, json_value(item)),
        ),
{
    value[key] = item;
}

/// The text of member `key`, if it has one.
pub fn text_member<'a>(value: &'a serde_json::Value, key: &str) -> (r: Option<&'a str>)
    ensures
        json_value(*value).text_at(key@) == match r {
            Some(s) => Some(s@),
            None => None,
        },
{
    match member(value, key) {
        Some(v) => value_text(v),
        None => None,
    }
}

/// An owned copy of the text of member `key`, if it has one.
pub fn owned_text(value: &serde_json::Value, key: &str) -> (r: Option<String>)
    ensures
        r.deep_view() == json_value(*value).text_at(key@),
{
    match text_member(value, key) {
        Some(s) => Some(s.to_owned()),
        None => None,
    }
}

/// Whether member `key` is the text `expected`.
pub fn text_is(value: &serde_json::Value, key: &str, expected: &str) -> (r: bool)
    ensures
        r == (json_value(*value).text_at(key@) == Some(expected@)),
{
    match text_member(value, key) {
        Some(s) => same(s, expected),
        None => false,
    }
}

/// The whole number of member `key`, if it has one.
pub fn whole_member(value: &serde_json::Value, key: &str) -> (r: Option<u64>)
    ensures
        r == json_value(*value).whole_at(key@),
{
    match member(value, key) {
        Some(v) => value_whole(v),
        None => None,
    }
}

/// The truth value of member `key`, if it has one.
pub fn flag_member(value: &serde_json::Value, key: &str) -> (r: Option<bool>)
    ensures
        r == json_value(*value).flag_at(key@),
{
    match member(value, key) {
        Some(v) => value_flag(v),
        None => None,
    }
}

/// The trees of the list of member `key`; none where there is no list.
pub fn list_member(value: &serde_json::Value, key: &str) -> (r: Vec<serde_json::Value>)
    ensures
        json_values(r@) == json_value(*value).list_at(key@),
{
    let mut out: Vec<serde_json::Value> = Vec::new();
    assert(json_values(out@) =~= Seq::<JsonView>::empty());
    if let Some(v) = member(value, key) {
        if let Some(list) = value_list(v) {
            for i in 0..list.len()
                invariant
                    out@.len() == i,
                    forall|k: int|
                        0 <= k < i ==> json_value(#[trigger] out@[k]) == json_value(list@[k]),
            {
                out.push(copy_value(&list[i]));
            }
            assert(json_values(out@) =~= json_values(list@));
        }
    }
    out
}

/// The text of member `key`, or the failure that names the missing member.
pub fn value_str(value: &serde_json::Value, key: &str) -> (r: Result<String, RustProviderError>)
    ensures
        crate::errors::outcome(r) == required_text(json_value(*value), key@),
{
    match text_member(value, key) {
        Some(s) => Ok(s.to_owned()),
        None => Err(RustProviderError::Internal(cat2("missing ", key))),
    }
}

/// The text of member `key`, or the failure that names the missing member.
pub open spec fn required_text(value: JsonView, key: Seq<char>) -> Result<Seq<char>, ErrorView> {
    match value.text_at(key) {
        Some(s) => Ok(s),
        None => Err(ErrorView::Internal("missing "@ + key)),
    }
}

/// Sets member `key` of an object to a text.
pub(crate) fn put_text(value: &mut serde_json::Value, key: &str, text: &str)
    requires
        json_value(*old(value)) is Object,
    ensures
        json_value(*final(value)) == JsonView::Object(
            json_value(*old(value))->Object_0.insert(key@, JsonView::Text(text@)),
        ),
{
    set_member(value, key, text_value(text));
}

/// The list of texts as a tree.
pub open spec fn text_list(list: Seq<Seq<char>>) -> JsonView {
    JsonView::List(list.map_values(|s: Seq<char>| JsonView::Text(s)))
}

/// The list of texts as a tree.
pub fn texts_value(list: &Vec<String>) -> (r: serde_json::Value)
    ensures
        json_value(r) == text_list(crate::text::texts(list@)),
{
    let mut out: Vec<serde_json::Value> = Vec::new();
    for i in 0..list.len()
        invariant
            out@.len() == i,
            forall|k: int|
                0 <= k < i ==> json_value(#[trigger] out@[k]) == JsonView::Text(list@[k]@),
    {
        out.push(text_value(list[i].as_str()));
    }
    assert(json_values(out@) =~= crate::text::texts(list@).map_values(
        |s: Seq<char>| JsonView::Text(s),
    ));
    list_value(out)
}

/// What a command line argument denotes: a JSON tree where it is one, else the text itself.
pub open spec fn json_or_text(text: Seq<char>) -> JsonView {
    match json_parsed(text) {
        Ok(value) => value,
        Err(_) => JsonView::Text(text),
    }
}

/// A text that is no JSON stands for itself, to the letter.
pub proof fn other_text_stays(text: Seq<char>)
    requires
        json_parsed(text) is Err,
    ensures
        json_or_text(text) == JsonView::Text(text),
{
}

/// The tree that a text denotes, or the text as a tree.
pub fn parse_json_or_string(raw: &str) -> (r: serde_json::Value)
    ensures
        json_value(r) == json_or_text(raw@),
{
    match parse_value(raw) {
        Ok(value) => value,
        Err(_) => text_value(raw),
    }
}

} // verus!
