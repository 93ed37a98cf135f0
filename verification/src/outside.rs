//! What the library takes on trust from other crates and from std.

use crate::json::{is_simple, no_members, JsonView};
use vstd::prelude::*;
use vstd::utf8::{decode_utf8, valid_utf8};

verus! {

/// `serde_json::Value`, a JSON value.
#[verifier::external_type_specification]
#[verifier::external_body]
pub struct ExValue(serde_json::Value);

/// `serde_json::Map`, the members of a JSON object.
#[verifier::external_type_specification]
#[verifier::external_body]
#[verifier::reject_recursive_types(K)]
#[verifier::reject_recursive_types(V)]
pub struct ExMap<K, V>(serde_json::Map<K, V>);

/// What a `serde_json::Value` holds.
pub uninterp spec fn value_tree(value: serde_json::Value) -> JsonView;

/// What a `serde_json::Map` holds.
pub uninterp spec fn map_tree(members: serde_json::Map<String, serde_json::Value>) -> Map<
    Seq<char>,
    JsonView,
>;

/// What each of several values holds.
pub open spec fn value_trees(values: Seq<serde_json::Value>) -> Seq<JsonView> {
    values.map_values(|value| value_tree(value))
}

/// What `serde_json::from_str` makes of a text: the value in it, or `None` for
/// a text that it refuses.
pub uninterp spec fn parsed_tree(text: Seq<char>) -> Option<JsonView>;

/// The text that `serde_json` prints for a value.
pub uninterp spec fn printed(tree: JsonView) -> Seq<char>;

/// One level of a `serde_json::Value`. A number that is an integer is known by
/// it, any other by the text that it is printed as.
pub(crate) enum Node {
    Null,
    Bool(bool),
    Number(Option<i128>, String),
    Text(String),
    Array(Vec<serde_json::Value>),
    Object(Vec<(String, serde_json::Value)>),
}

/// What the entries of an object hold.
pub open spec fn entries_tree(entries: Seq<(String, serde_json::Value)>) -> Map<
    Seq<char>,
    JsonView,
>
    decreases entries.len(),
{
    if entries.len() == 0 {
        Map::empty()
    } else {
        entries_tree(entries.drop_last()).insert(entries.last().0@, value_tree(entries.last().1))
    }
}

/// No two entries have one name.
pub open spec fn names_differ(entries: Seq<(String, serde_json::Value)>) -> bool {
    forall|i: int, j: int|
        0 <= i < j < entries.len() ==> (#[trigger] entries[i]).0@ != (#[trigger] entries[j]).0@
}

impl Node {
    /// The value that this is the first level of.
    pub(crate) open spec fn tree(self) -> JsonView {
        match self {
            Node::Null => JsonView::Null,
            Node::Bool(b) => JsonView::Bool(b),
            Node::Number(Some(n), _) => JsonView::Integer(n as int),
            Node::Number(None, text) => JsonView::Fraction(text@),
            Node::Text(text) => JsonView::Text(text@),
            Node::Array(items) => JsonView::Array(value_trees(items@)),
            Node::Object(entries) => JsonView::Object(entries_tree(entries@)),
        }
    }
}

/// `serde_json::from_str`, read as a value: the value that the text writes in
/// JSON, or `None` if it refuses the text. What it makes of a text depends on
/// the text alone; which texts are JSON is left unsaid.
#[verifier::external_body]
pub(crate) fn parse_value(text: &str) -> (parsed: Option<serde_json::Value>)
    ensures
        match parsed {
            Some(value) => parsed_tree(text@) == Some(value_tree(value)),
            None => parsed_tree(text@) is None,
        },
{
    serde_json::from_str(text).ok()
}

/// One level of a value, by its variant. A number comes as the integer that
/// `serde_json::Number::as_i128` gives for one that fits in 64 bits, signed or
/// unsigned, and with the text that its `Display` prints. The members of an
/// object come out of `serde_json::Map::into_iter`, each name once.
#[verifier::external_body]
pub(crate) fn open_value(value: serde_json::Value) -> (node: Node)
    ensures
        node.tree() == value_tree(value),
        node matches Node::Object(entries) ==> names_differ(entries@),
{
    match value {
        serde_json::Value::Null => Node::Null,
        serde_json::Value::Bool(b) => Node::Bool(b),
        serde_json::Value::Number(n) => Node::Number(n.as_i128(), n.to_string()),
        serde_json::Value::String(text) => Node::Text(text),
        serde_json::Value::Array(items) => Node::Array(items),
        serde_json::Value::Object(members) => Node::Object(members.into_iter().collect()),
    }
}

/// `serde_json::Map::new`: a map without members.
#[verifier::external_body]
pub(crate) fn new_map() -> (members: serde_json::Map<String, serde_json::Value>)
    ensures
        map_tree(members) == no_members(),
{
    serde_json::Map::new()
}

/// `serde_json::Map::insert`: the map then holds the value under the name, and
/// nothing else that was under that name.
#[verifier::external_body]
pub(crate) fn map_insert(
    members: &mut serde_json::Map<String, serde_json::Value>,
    name: String,
    value: serde_json::Value,
)
    ensures
        map_tree(*final(members)) == map_tree(*old(members)).insert(name@, value_tree(value)),
{
    members.insert(name, value);
}

/// `serde_json::Value::from` a map: the object with those members.
#[verifier::external_body]
pub(crate) fn object_value(members: serde_json::Map<String, serde_json::Value>) -> (value:
    serde_json::Value)
    ensures
        value_tree(value) == JsonView::Object(map_tree(members)),
{
    serde_json::Value::from(members)
}

/// `serde_json::Value::from` a vector: the array with those items.
#[verifier::external_body]
pub(crate) fn array_value(items: Vec<serde_json::Value>) -> (value: serde_json::Value)
    ensures
        value_tree(value) == JsonView::Array(value_trees(items@)),
{
    serde_json::Value::from(items)
}

/// `serde_json::Value::from` a string slice: the string with that text.
#[verifier::external_body]
pub(crate) fn text_value(text: &str) -> (value: serde_json::Value)
    ensures
        value_tree(value) == JsonView::Text(text@),
{
    serde_json::Value::from(text)
}

/// `serde_json::Value::from` an unsigned integer: that number.
#[verifier::external_body]
pub(crate) fn u64_value(n: u64) -> (value: serde_json::Value)
    ensures
        value_tree(value) == JsonView::Integer(n as int),
{
    serde_json::Value::from(n)
}

/// `serde_json::Value::from` a signed integer: that number.
#[verifier::external_body]
pub(crate) fn i64_value(n: i64) -> (value: serde_json::Value)
    ensures
        value_tree(value) == JsonView::Integer(n as int),
{
    serde_json::Value::from(n)
}

/// `serde_json::Value::from` a boolean: that boolean.
#[verifier::external_body]
pub(crate) fn bool_value(b: bool) -> (value: serde_json::Value)
    ensures
        value_tree(value) == JsonView::Bool(b),
{
    serde_json::Value::from(b)
}

/// `serde_json::Value::to_string`: the value printed without spaces between
/// its parts, the members of each object in the order of their names. The text
/// depends on nothing but what the value holds. `serde_json::from_str` reads
/// the value back from it, if there is no fraction in it and it is not nested
/// too deep; how the text is written is left unsaid.
#[verifier::external_body]
pub(crate) fn value_text(value: &serde_json::Value) -> (text: String)
    ensures
        text@ == printed(value_tree(*value)),
        is_simple(value_tree(*value), 100) ==> parsed_tree(text@) == Some(value_tree(*value)),
{
    value.to_string()
}

/// The text that `String::from_utf8_lossy` reads in bytes.
pub uninterp spec fn lossy(bytes: Seq<u8>) -> Seq<char>;

/// `String::from_utf8_lossy`: the text that the bytes encode in UTF-8. Where
/// they are not UTF-8, replacement characters stand in the text; where these
/// stand is left unsaid, but the text depends on the bytes alone.
#[verifier::external_body]
pub(crate) fn lossy_text(bytes: &[u8]) -> (text: String)
    ensures
        text@ == lossy(bytes@),
        valid_utf8(bytes@) ==> text@ == decode_utf8(bytes@),
{
    String::from_utf8_lossy(bytes).into_owned()
}

} // verus!
