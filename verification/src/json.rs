//! JSON documents as the library reads them.

use crate::outside::{
    entries_tree, names_differ, open_value, parse_value, parsed_tree, value_tree, value_trees, Node,
};
use crate::text::same_text;
use vstd::prelude::*;

verus! {

/// What a JSON value says.
///
/// An integer is a number that fits in 64 bits, signed or unsigned. Every
/// other number is a fraction, known by the text it is printed as. An object
/// has no order.
pub enum JsonView {
    Null,
    Bool(bool),
    Integer(int),
    Fraction(Seq<char>),
    Text(Seq<char>),
    Array(Seq<JsonView>),
    Object(Map<Seq<char>, JsonView>),
}

impl JsonView {
    /// The member of that name, if this is an object that has one.
    pub open spec fn get(self, name: Seq<char>) -> Option<JsonView> {
        match self {
            JsonView::Object(members) => if members.contains_key(name) {
                Some(members[name])
            } else {
                None
            },
            _ => None,
        }
    }

    /// The value as an unsigned 64-bit integer.
    pub open spec fn as_u64(self) -> Option<u64> {
        match self {
            JsonView::Integer(n) => if 0 <= n <= u64::MAX {
                Some(n as u64)
            } else {
                None
            },
            _ => None,
        }
    }

    /// The value as a signed 64-bit integer.
    pub open spec fn as_i64(self) -> Option<i64> {
        match self {
            JsonView::Integer(n) => if i64::MIN <= n <= i64::MAX {
                Some(n as i64)
            } else {
                None
            },
            _ => None,
        }
    }

    /// The text of a string.
    pub open spec fn as_text(self) -> Option<Seq<char>> {
        match self {
            JsonView::Text(text) => Some(text),
            _ => None,
        }
    }
}

/// Whether a value has no fraction in it, and is nested no deeper than `depth`
/// levels.
pub open spec fn is_simple(tree: JsonView, depth: nat) -> bool
    decreases depth,
{
    match tree {
        JsonView::Fraction(_) => false,
        JsonView::Array(items) => depth > 0 && forall|i: int|
            0 <= i < items.len() ==> is_simple(#[trigger] items[i], (depth - 1) as nat),
        JsonView::Object(members) => depth > 0 && forall|name: Seq<char>|
            members.contains_key(name) ==> is_simple(#[trigger] members[name], (depth - 1) as nat),
        _ => true,
    }
}

/// The members of an empty object.
pub open spec fn no_members() -> Map<Seq<char>, JsonView> {
    Map::empty()
}

/// One member of a JSON object.
#[derive(Debug)]
pub struct Member {
    pub name: String,
    pub value: Json,
}

/// A JSON document.
///
/// Where a name occurs twice in an object, the later member counts.
#[derive(Debug)]
pub enum Json {
    Null,
    Bool(bool),
    Integer(i128),
    Fraction(String),
    Text(String),
    Array(Vec<Json>),
    Object(Vec<Member>),
}

/// What the members of an object say.
pub open spec fn members_view(members: Seq<Member>) -> Map<Seq<char>, JsonView>
    decreases members,
{
    if members.len() == 0 {
        Map::empty()
    } else {
        members_view(members.drop_last()).insert(members.last().name@, members.last().value.tree())
    }
}

impl Json {
    /// What this document says.
    pub open spec fn tree(self) -> JsonView
        decreases self,
    {
        match self {
            Json::Null => JsonView::Null,
            Json::Bool(b) => JsonView::Bool(b),
            Json::Integer(n) => JsonView::Integer(n as int),
            Json::Fraction(text) => JsonView::Fraction(text@),
            Json::Text(text) => JsonView::Text(text@),
            Json::Array(items) => JsonView::Array(
                Seq::new(
                    items@.len(),
                    |i: int|
                        if 0 <= i < items@.len() {
                            items@[i].tree()
                        } else {
                            JsonView::Null
                        },
                ),
            ),
            Json::Object(members) => JsonView::Object(members_view(members@)),
        }
    }
}

impl View for Json {
    type V = JsonView;

    open spec fn view(&self) -> JsonView {
        self.tree()
    }
}

/// What a part of a document says, if it is there.
pub open spec fn part_view(part: Option<&Json>) -> Option<JsonView> {
    match part {
        Some(json) => Some(json@),
        None => None,
    }
}

/// What a piece of text says, if it is there.
pub open spec fn text_view(text: Option<&str>) -> Option<Seq<char>> {
    match text {
        Some(text) => Some(text@),
        None => None,
    }
}

impl Json {
    /// The member of that name, if this is an object that has one.
    pub fn get(&self, name: &str) -> (member: Option<&Json>)
        ensures
            part_view(member) == self@.get(name@),
    {
        match self {
            Json::Object(members) => {
                let mut i: usize = members.len();
                assert(members@.take(i as int) =~= members@);
                while i > 0
                    invariant
                        i <= members@.len(),
                        self@ == JsonView::Object(members_view(members@)),
                        self@.get(name@) == JsonView::Object(
                            members_view(members@.take(i as int)),
                        ).get(name@),
                    decreases i,
                {
                    assert(members@.take(i as int).drop_last() =~= members@.take(i - 1));
                    i -= 1;
                    if same_text(members[i].name.as_str(), name) {
                        return Some(&members[i].value);
                    }
                }
                None
            },
            _ => None,
        }
    }

    /// The value as an unsigned 64-bit integer.
    pub fn as_u64(&self) -> (n: Option<u64>)
        ensures
            n == self@.as_u64(),
    {
        match self {
            Json::Integer(n) => if 0 <= *n && *n <= u64::MAX as i128 {
                Some(*n as u64)
            } else {
                None
            },
            _ => None,
        }
    }

    /// The value as a signed 64-bit integer.
    pub fn as_i64(&self) -> (n: Option<i64>)
        ensures
            n == self@.as_i64(),
    {
        match self {
            Json::Integer(n) => if i64::MIN as i128 <= *n && *n <= i64::MAX as i128 {
                Some(*n as i64)
            } else {
                None
            },
            _ => None,
        }
    }

    /// The text of a string.
    pub fn as_str(&self) -> (text: Option<&str>)
        ensures
            text_view(text) == self@.as_text(),
    {
        match self {
            Json::Text(text) => Some(text.as_str()),
            _ => None,
        }
    }
}

/// An item of an array comes before the array.
proof fn lemma_item_decreases(items: Seq<JsonView>, i: int)
    requires
        0 <= i < items.len(),
    ensures
        decreases_to!(JsonView::Array(items) => items[i]),
{
    let whole = JsonView::Array(items);
    assert(decreases_to!(whole => whole->Array_0));
    assert(decreases_to!(items => items[i]));
}

/// A member of an object comes before the object.
proof fn lemma_member_decreases(members: Map<Seq<char>, JsonView>, name: Seq<char>)
    requires
        members.dom().finite(),
        members.contains_key(name),
    ensures
        decreases_to!(JsonView::Object(members) => members[name]),
{
    let whole = JsonView::Object(members);
    assert(decreases_to!(whole => whole->Object_0));
    assert(decreases_to!(members => members[name]));
}

/// The members of an object are finitely many.
proof fn lemma_entries_finite(entries: Seq<(String, serde_json::Value)>)
    ensures
        entries_tree(entries).dom().finite(),
    decreases entries.len(),
{
    if entries.len() > 0 {
        lemma_entries_finite(entries.drop_last());
    }
}

/// Where names differ, each entry is found under its name.
proof fn lemma_entry_found(entries: Seq<(String, serde_json::Value)>, i: int)
    requires
        names_differ(entries),
        0 <= i < entries.len(),
    ensures
        entries_tree(entries).dom().finite(),
        entries_tree(entries).contains_key(entries[i].0@),
        entries_tree(entries)[entries[i].0@] == value_tree(entries[i].1),
    decreases entries.len(),
{
    lemma_entries_finite(entries);
    if i < entries.len() - 1 {
        let rest = entries.drop_last();
        assert(names_differ(rest)) by {
            assert forall|a: int, b: int| 0 <= a < b < rest.len() implies (#[trigger] rest[a]).0@
                != (#[trigger] rest[b]).0@ by {
                assert(rest[a] == entries[a] && rest[b] == entries[b]);
            }
        }
        lemma_entry_found(rest, i);
        assert(rest[i] == entries[i]);
        assert(entries[i].0@ != entries[entries.len() - 1].0@);
    }
}

/// The document that a `serde_json::Value` holds.
fn from_value(value: serde_json::Value) -> (json: Json)
    ensures
        json@ == value_tree(value),
    decreases value_tree(value),
{
    let ghost whole = value_tree(value);
    match open_value(value) {
        Node::Null => Json::Null,
        Node::Bool(b) => Json::Bool(b),
        Node::Number(Some(n), _) => Json::Integer(n),
        Node::Number(None, text) => Json::Fraction(text),
        Node::Text(text) => Json::Text(text),
        Node::Array(values) => {
            let ghost all = values@;
            let ghost trees = value_trees(all);
            let mut items: Vec<Json> = Vec::new();
            for v in it: values
                invariant
                    it.seq() == all,
                    trees == value_trees(all),
                    whole == JsonView::Array(trees),
                    whole == value_tree(value),
                    items@.len() == it.index(),
                    forall|i: int| 0 <= i < it.index() ==> (#[trigger] items@[i])@ == trees[i],
            {
                proof {
                    lemma_item_decreases(trees, it.index() as int);
                }
                items.push(from_value(v));
            }
            let json = Json::Array(items);
            assert(json@->Array_0 =~= trees);
            json
        },
        Node::Object(entries) => {
            let ghost all = entries@;
            let mut members: Vec<Member> = Vec::new();
            for entry in it: entries
                invariant
                    it.seq() == all,
                    names_differ(all),
                    whole == JsonView::Object(entries_tree(all)),
                    whole == value_tree(value),
                    members_view(members@) == entries_tree(all.take(it.index() as int)),
            {
                proof {
                    lemma_entry_found(all, it.index() as int);
                    lemma_member_decreases(entries_tree(all), entry.0@);
                    assert(all.take(it.index() + 1).drop_last() =~= all.take(it.index() as int));
                }
                let ghost before = members@;
                let (name, part) = entry;
                members.push(Member { name, value: from_value(part) });
                assert(members@.drop_last() =~= before);
            }
            assert(all.take(all.len() as int) =~= all);
            Json::Object(members)
        },
    }
}

/// The document in `text`, or `None` if `text` is not JSON.
pub fn parse_json(text: &str) -> (parsed: Option<Json>)
    ensures
        match parsed {
            Some(json) => parsed_tree(text@) == Some(json@),
            None => parsed_tree(text@) is None,
        },
{
    match parse_value(text) {
        Some(value) => Some(from_value(value)),
        None => None,
    }
}

} // verus!
