//! JSON values as the rest of the library sees them.
//!
//! [`Json`] is an ordinary tree; its view is [`JsonTree`], where an object is a map.
//! Reading and printing JSON text is `serde_json`'s work: the trusted items here say
//! what one of its values holds and which text stands for it.

use crate::encoding;
use crate::strings::same_text;
use vstd::prelude::*;
use vstd::utf8::*;

verus! {

/// `serde_json::Value`: an outside type. What a value holds is named by [`json_tree`].
#[verifier::external_type_specification]
#[verifier::external_body]
pub struct ExValue(serde_json::Value);

/// `serde_json::Number`: an outside type, only carried through.
#[verifier::external_type_specification]
#[verifier::external_body]
pub struct ExNumber(serde_json::Number);

/// `serde_json::Error`: an outside type, never looked into.
#[verifier::external_type_specification]
#[verifier::external_body]
pub struct ExError(serde_json::Error);

/// A JSON number that is no integer of 64 bits. Only reading a `serde_json::Value`
/// makes one.
#[derive(Debug, PartialEq)]
pub struct Fraction {
    number: serde_json::Number,
}

/// The mathematical content of a JSON value.
#[verifier::ext_equal]
pub enum JsonTree {
    Null,
    Bool(bool),
    /// An integer in the range of `i64` or of `u64`.
    Int(int),
    Float(Fraction),
    Text(Seq<char>),
    Array(Seq<JsonTree>),
    Object(Map<Seq<char>, JsonTree>),
}

/// A JSON value. Where an object names a key twice, the later entry counts.
#[derive(Debug, PartialEq)]
pub enum Json {
    Null,
    Bool(bool),
    Int(i64),
    UInt(u64),
    Float(Fraction),
    Text(String),
    Array(Vec<Json>),
    Object(Vec<(String, Json)>),
}

/// One level of a `serde_json::Value`.
pub(crate) enum JsonNode {
    Null,
    Bool(bool),
    Int(i64),
    UInt(u64),
    Float(Fraction),
    Text(String),
    Array(Vec<serde_json::Value>),
    Object(Vec<(String, serde_json::Value)>),
}

/// The map that a list of entries stands for: a later entry replaces an earlier one.
pub open spec fn entries_map(entries: Seq<(Seq<char>, JsonTree)>) -> Map<Seq<char>, JsonTree>
    decreases entries.len(),
{
    if entries.len() == 0 {
        Map::empty()
    } else {
        entries_map(entries.drop_last()).insert(entries.last().0, entries.last().1)
    }
}

/// What each value of `items` holds.
pub open spec fn items_view(items: Seq<Json>) -> Seq<JsonTree>
    decreases items,
{
    Seq::new(
        items.len(),
        |i: int|
            if 0 <= i < items.len() {
                items[i].view()
            } else {
                JsonTree::Null
            },
    )
}

/// What each entry of an object holds.
pub open spec fn entries_view(entries: Seq<(String, Json)>) -> Seq<(Seq<char>, JsonTree)>
    decreases entries,
{
    Seq::new(
        entries.len(),
        |i: int|
            if 0 <= i < entries.len() {
                (entries[i].0@, entries[i].1.view())
            } else {
                (Seq::empty(), JsonTree::Null)
            },
    )
}

impl JsonTree {
    /// The object without fields.
    pub open spec fn object() -> JsonTree {
        JsonTree::Object(Map::empty())
    }

    /// An object with one more field, or with another value for it.
    pub open spec fn with(self, key: Seq<char>, value: JsonTree) -> JsonTree {
        match self {
            JsonTree::Object(fields) => JsonTree::Object(fields.insert(key, value)),
            other => other,
        }
    }
}

impl View for Json {
    type V = JsonTree;

    open spec fn view(&self) -> JsonTree
        decreases self,
    {
        match self {
            Json::Null => JsonTree::Null,
            Json::Bool(b) => JsonTree::Bool(*b),
            Json::Int(i) => JsonTree::Int(*i as int),
            Json::UInt(u) => JsonTree::Int(*u as int),
            Json::Float(f) => JsonTree::Float(*f),
            Json::Text(s) => JsonTree::Text(s@),
            Json::Array(items) => JsonTree::Array(items_view(items@)),
            Json::Object(entries) => JsonTree::Object(entries_map(entries_view(entries@))),
        }
    }
}


/// Appending a value appends what it holds.
proof fn lemma_items_push(items: Seq<Json>, item: Json)
    ensures
        items_view(items.push(item)) == items_view(items).push(item@),
{
    assert forall|i: int| 0 <= i <= items.len() implies items_view(items.push(item))[i]
        == #[trigger] items_view(items).push(item@)[i] by {
        if i < items.len() {
            assert(items.push(item)[i] == items[i]);
        }
    }
    assert(items_view(items.push(item)) =~= items_view(items).push(item@));
}

/// Appending an entry appends what it holds.
proof fn lemma_entries_push(entries: Seq<(String, Json)>, entry: (String, Json))
    ensures
        entries_view(entries.push(entry)) == entries_view(entries).push((entry.0@, entry.1@)),
{
    assert forall|i: int| 0 <= i <= entries.len() implies entries_view(entries.push(entry))[i]
        == #[trigger] entries_view(entries).push((entry.0@, entry.1@))[i] by {
        if i < entries.len() {
            assert(entries.push(entry)[i] == entries[i]);
        }
    }
    assert(entries_view(entries.push(entry)) =~= entries_view(entries).push((entry.0@, entry.1@)));
}

/// What a `serde_json::Value` holds.
pub uninterp spec fn json_tree(value: serde_json::Value) -> JsonTree;

/// What `serde_json::from_slice` reads from a document; an error is a text.
pub uninterp spec fn json_document(bytes: Seq<u8>) -> Result<JsonTree, Seq<char>>;

/// `bytes` are a document that is read as `tree`.
pub open spec fn is_document_of(bytes: Seq<u8>, tree: JsonTree) -> bool {
    json_document(bytes) == Ok::<JsonTree, Seq<char>>(tree)
}

/// The compact text that `serde_json::to_vec` prints for a value.
pub uninterp spec fn json_text(tree: JsonTree) -> Seq<u8>;

/// The indented text that `serde_json::to_string_pretty` prints for a value.
pub uninterp spec fn json_pretty_text(tree: JsonTree) -> Seq<char>;

/// No number in `tree` is a fraction, and arrays and objects nest at most `depth` deep.
pub open spec fn exact_within(tree: JsonTree, depth: nat) -> bool
    decreases depth,
{
    match tree {
        JsonTree::Float(_) => false,
        JsonTree::Array(items) => depth > 0 && forall|i: int|
            0 <= i < items.len() ==> exact_within(#[trigger] items[i], (depth - 1) as nat),
        JsonTree::Object(fields) => depth > 0 && forall|key: Seq<char>|
            fields.contains_key(key) ==> exact_within(#[trigger] fields[key], (depth - 1) as nat),
        _ => true,
    }
}

/// How deep a document may nest for `serde_json` to read it.
pub open spec fn nesting_limit() -> nat {
    127
}

/// No key of an object is longer than `limit` bytes.
pub open spec fn keys_within(tree: JsonTree, limit: nat) -> bool {
    tree is Object ==> forall|key: Seq<char>| #[trigger]
        tree->Object_0.contains_key(key) ==> encoding::byte_len(key) <= limit
}

/// What one level of a value holds.
spec fn node_tree(node: JsonNode) -> JsonTree {
    match node {
        JsonNode::Null => JsonTree::Null,
        JsonNode::Bool(b) => JsonTree::Bool(b),
        JsonNode::Int(i) => JsonTree::Int(i as int),
        JsonNode::UInt(u) => JsonTree::Int(u as int),
        JsonNode::Float(f) => JsonTree::Float(f),
        JsonNode::Text(s) => JsonTree::Text(s@),
        JsonNode::Array(items) => JsonTree::Array(trees_of(items@)),
        JsonNode::Object(entries) => JsonTree::Object(entries_map(entry_trees_of(entries@))),
    }
}

spec fn trees_of(items: Seq<serde_json::Value>) -> Seq<JsonTree> {
    Seq::new(items.len(), |i: int| json_tree(items[i]))
}

spec fn entry_trees_of(entries: Seq<(String, serde_json::Value)>) -> Seq<(Seq<char>, JsonTree)> {
    Seq::new(entries.len(), |i: int| (entries[i].0@, json_tree(entries[i].1)))
}

/// `serde_json::from_slice`, reading a `Value`: the document's content, or the text of the
/// error. Which one depends on the bytes alone.
#[verifier::external_body]
fn value_from_slice(bytes: &[u8]) -> (r: Result<serde_json::Value, String>)
    ensures
        (match r {
            Ok(value) => Ok(json_tree(value)),
            Err(text) => Err(text@),
        }) == json_document(bytes@),
{
    serde_json::from_slice(bytes).map_err(|e| e.to_string())
}

/// `serde_json::to_vec` on a `Value`. It cannot fail there: every key is a string. What it
/// prints is UTF-8 text, and is read back as the same value, unless a number is a fraction
/// (the reader may round it) or the value nests deeper than the reader goes.
#[verifier::external_body]
fn value_to_vec(value: &serde_json::Value) -> (r: Result<Vec<u8>, serde_json::Error>)
    ensures
        r is Ok,
        r->Ok_0@ == json_text(json_tree(*value)),
        valid_utf8(r->Ok_0@),
        exact_within(json_tree(*value), nesting_limit()) ==> is_document_of(
            r->Ok_0@,
            json_tree(*value),
        ),
{
    serde_json::to_vec(value)
}

/// `serde_json::to_string_pretty` on a `Value`, which cannot fail there.
#[verifier::external_body]
fn value_to_string_pretty(value: &serde_json::Value) -> (r: Result<String, serde_json::Error>)
    ensures
        r is Ok,
        r->Ok_0@ == json_pretty_text(json_tree(*value)),
{
    serde_json::to_string_pretty(value)
}

/// The variants of `serde_json::Value`, one level deep. An integer comes out as one
/// (`Number::as_i64`, `Number::as_u64`); an object gives its entries, whose keys differ.
#[verifier::external_body]
fn value_node(value: serde_json::Value) -> (r: JsonNode)
    ensures
        node_tree(r) == json_tree(value),
        r matches JsonNode::Object(entries) ==> forall|i: int, j: int|
            0 <= i < j < entries@.len() ==> entries@[i].0@ != entries@[j].0@,
{
    match value {
        serde_json::Value::Null => JsonNode::Null,
        serde_json::Value::Bool(b) => JsonNode::Bool(b),
        serde_json::Value::Number(n) => match (n.as_i64(), n.as_u64()) {
            (Some(i), _) => JsonNode::Int(i),
            (None, Some(u)) => JsonNode::UInt(u),
            (None, None) => JsonNode::Float(Fraction { number: n }),
        },
        serde_json::Value::String(s) => JsonNode::Text(s),
        serde_json::Value::Array(items) => JsonNode::Array(items),
        serde_json::Value::Object(fields) => JsonNode::Object(fields.into_iter().collect()),
    }
}

/// Builds a `serde_json::Value` from one level; entries are inserted in turn into its
/// map, so that a later one replaces an earlier one.
#[verifier::external_body]
fn node_value(node: JsonNode) -> (r: serde_json::Value)
    ensures
        json_tree(r) == node_tree(node),
{
    match node {
        JsonNode::Null => serde_json::Value::Null,
        JsonNode::Bool(b) => serde_json::Value::Bool(b),
        JsonNode::Int(i) => serde_json::Value::Number(serde_json::Number::from(i)),
        JsonNode::UInt(u) => serde_json::Value::Number(serde_json::Number::from(u)),
        JsonNode::Float(f) => serde_json::Value::Number(f.number),
        JsonNode::Text(s) => serde_json::Value::String(s),
        JsonNode::Array(items) => serde_json::Value::Array(items),
        JsonNode::Object(entries) => serde_json::Value::Object(entries.into_iter().collect()),
    }
}

/// `Clone` of `serde_json::Number` (derived there): the same number.
pub assume_specification[ <serde_json::Number as Clone>::clone ](
    number: &serde_json::Number,
) -> (r: serde_json::Number)
    ensures
        r == *number,
;

impl Clone for Fraction {
    fn clone(&self) -> (r: Self)
        ensures
            r == *self,
    {
        Fraction { number: self.number.clone() }
    }
}

impl Clone for Json {
    fn clone(&self) -> (r: Self)
        ensures
            r@ == self@,
        decreases self,
    {
        match self {
            Json::Null => Json::Null,
            Json::Bool(b) => Json::Bool(*b),
            Json::Int(i) => Json::Int(*i),
            Json::UInt(u) => Json::UInt(*u),
            Json::Float(f) => Json::Float(f.clone()),
            Json::Text(s) => Json::Text(s.clone()),
            Json::Array(items) => {
                let mut out: Vec<Json> = Vec::new();
                let mut i: usize = 0;
                while i < items.len()
                    invariant
                        self matches Json::Array(v) && v == items,
                        i <= items.len(),
                        items_view(out@) == items_view(items@).take(i as int),
                    decreases items.len() - i,
                {
                    assert(decreases_to!(self => items@[i as int]));
                    let copy = items[i].clone();
                    proof {
                        lemma_items_push(out@, copy);
                    }
                    out.push(copy);
                    i = i + 1;
                }
                assert(items_view(items@).take(i as int) == items_view(items@));
                Json::Array(out)
            },
            Json::Object(entries) => {
                let mut out: Vec<(String, Json)> = Vec::new();
                let mut i: usize = 0;
                while i < entries.len()
                    invariant
                        self matches Json::Object(v) && v == entries,
                        i <= entries.len(),
                        entries_view(out@) == entries_view(entries@).take(i as int),
                    decreases entries.len() - i,
                {
                    assert(decreases_to!(self => entries@[i as int].1));
                    let entry = (entries[i].0.clone(), entries[i].1.clone());
                    proof {
                        lemma_entries_push(out@, entry);
                    }
                    out.push(entry);
                    i = i + 1;
                }
                assert(entries_view(entries@).take(i as int) == entries_view(entries@));
                Json::Object(out)
            },
        }
    }
}

/// The last entry that names a key gives its value.
proof fn lemma_entries_map_contains(entries: Seq<(Seq<char>, JsonTree)>, i: int)
    requires
        0 <= i < entries.len(),
        forall|j: int| i < j < entries.len() ==> entries[j].0 != entries[i].0,
    ensures
        entries_map(entries).contains_key(entries[i].0),
        entries_map(entries)[entries[i].0] == entries[i].1,
        entries_map(entries).dom().finite(),
    decreases entries.len(),
{
    lemma_entries_map_finite(entries);
    if i < entries.len() - 1 {
        assert(entries.last().0 != entries[i].0);
        lemma_entries_map_contains(entries.drop_last(), i);
    }
}

proof fn lemma_entries_map_finite(entries: Seq<(Seq<char>, JsonTree)>)
    ensures
        entries_map(entries).dom().finite(),
    decreases entries.len(),
{
    if entries.len() > 0 {
        lemma_entries_map_finite(entries.drop_last());
    }
}

/// A key that an entry names is in the map.
proof fn lemma_entries_map_key(entries: Seq<(Seq<char>, JsonTree)>, i: int)
    requires
        0 <= i < entries.len(),
    ensures
        entries_map(entries).contains_key(entries[i].0),
    decreases entries.len(),
{
    if i < entries.len() - 1 {
        lemma_entries_map_key(entries.drop_last(), i);
    }
}

/// A key that no entry names is not in the map.
proof fn lemma_entries_map_absent(entries: Seq<(Seq<char>, JsonTree)>, key: Seq<char>)
    requires
        forall|j: int| 0 <= j < entries.len() ==> entries[j].0 != key,
    ensures
        !entries_map(entries).contains_key(key),
    decreases entries.len(),
{
    if entries.len() > 0 {
        assert(entries.last().0 != key);
        lemma_entries_map_absent(entries.drop_last(), key);
    }
}

/// A key of the map is named by an entry that no later one replaces.
proof fn lemma_entries_map_last(entries: Seq<(Seq<char>, JsonTree)>, key: Seq<char>) -> (i: int)
    requires
        entries_map(entries).contains_key(key),
    ensures
        0 <= i < entries.len(),
        entries[i].0 == key,
        entries_map(entries)[key] == entries[i].1,
        forall|j: int| i < j < entries.len() ==> entries[j].0 != key,
    decreases entries.len(),
{
    if entries.last().0 == key {
        entries.len() - 1
    } else {
        let i = lemma_entries_map_last(entries.drop_last(), key);
        assert forall|j: int| i < j < entries.len() implies entries[j].0 != key by {
            if j < entries.len() - 1 {
                assert(entries.drop_last()[j] == entries[j]);
            }
        }
        i
    }
}

/// The field `key` of an object.
pub open spec fn tree_field(tree: JsonTree, key: Seq<char>) -> Option<JsonTree> {
    match tree {
        JsonTree::Object(fields) => if fields.contains_key(key) {
            Some(fields[key])
        } else {
            None
        },
        _ => None,
    }
}

/// The element of an array at a place.
pub open spec fn tree_element(tree: JsonTree, place: int) -> Option<JsonTree> {
    match tree {
        JsonTree::Array(items) => if 0 <= place < items.len() {
            Some(items[place])
        } else {
            None
        },
        _ => None,
    }
}

/// The text that a string value holds.
pub open spec fn tree_text(tree: JsonTree) -> Option<Seq<char>> {
    match tree {
        JsonTree::Text(s) => Some(s),
        _ => None,
    }
}

/// The number that an integer value holds, where it fits in `i64`.
pub open spec fn tree_int(tree: JsonTree) -> Option<int> {
    match tree {
        JsonTree::Int(i) => if i64::MIN <= i <= i64::MAX {
            Some(i)
        } else {
            None
        },
        _ => None,
    }
}

impl Json {
    /// The tree that a `serde_json::Value` holds.
    pub fn from_value(value: serde_json::Value) -> (r: Json)
        ensures
            r@ == json_tree(value),
        decreases json_tree(value),
    {
        match value_node(value) {
            JsonNode::Null => Json::Null,
            JsonNode::Bool(b) => Json::Bool(b),
            JsonNode::Int(i) => Json::Int(i),
            JsonNode::UInt(u) => Json::UInt(u),
            JsonNode::Float(f) => Json::Float(f),
            JsonNode::Text(s) => Json::Text(s),
            JsonNode::Array(items) => {
                let ghost trees = trees_of(items@);
                let ghost tree = json_tree(value);
                let mut out: Vec<Json> = Vec::new();
                for item in it: items
                    invariant
                        it.seq() == items@,
                        trees == trees_of(items@),
                        tree == json_tree(value),
                        tree == JsonTree::Array(trees),
                        items_view(out@) == trees.take(it.index() as int),
                {
                    let ghost k = it.index() as int;
                    assert(trees[k] == json_tree(item));
                    let ghost inner = tree->Array_0;
                    assert(decreases_to!(tree => inner[k]));
                    let next = Json::from_value(item);
                    proof {
                        lemma_items_push(out@, next);
                    }
                    out.push(next);
                }
                assert(trees.take(trees.len() as int) == trees);
                Json::Array(out)
            },
            JsonNode::Object(entries) => {
                let ghost trees = entry_trees_of(entries@);
                let ghost tree = json_tree(value);
                let mut out: Vec<(String, Json)> = Vec::new();
                for entry in it: entries
                    invariant
                        it.seq() == entries@,
                        trees == entry_trees_of(entries@),
                        tree == json_tree(value),
                        tree == JsonTree::Object(entries_map(trees)),
                        forall|i: int, j: int|
                            0 <= i < j < entries@.len() ==> entries@[i].0@ != entries@[j].0@,
                        entries_view(out@) == trees.take(it.index() as int),
                {
                    let ghost k = it.index() as int;
                    assert(trees[k] == (entry.0@, json_tree(entry.1)));
                    proof {
                        lemma_entries_map_contains(trees, k);
                    }
                    let ghost fields = tree->Object_0;
                    assert(decreases_to!(tree => fields[trees[k].0]));
                    let next = (entry.0, Json::from_value(entry.1));
                    proof {
                        lemma_entries_push(out@, next);
                    }
                    out.push(next);
                }
                assert(trees.take(trees.len() as int) == trees);
                Json::Object(out)
            },
        }
    }

    /// The `serde_json::Value` that holds this tree.
    pub fn to_value(&self) -> (r: serde_json::Value)
        ensures
            json_tree(r) == self@,
        decreases self,
    {
        match self {
            Json::Null => node_value(JsonNode::Null),
            Json::Bool(b) => node_value(JsonNode::Bool(*b)),
            Json::Int(i) => node_value(JsonNode::Int(*i)),
            Json::UInt(u) => node_value(JsonNode::UInt(*u)),
            Json::Float(f) => node_value(JsonNode::Float(f.clone())),
            Json::Text(s) => node_value(JsonNode::Text(s.clone())),
            Json::Array(items) => {
                let mut out: Vec<serde_json::Value> = Vec::new();
                let mut i: usize = 0;
                while i < items.len()
                    invariant
                        self matches Json::Array(v) && v == items,
                        i <= items.len(),
                        trees_of(out@) == items_view(items@).take(i as int),
                    decreases items.len() - i,
                {
                    assert(decreases_to!(self => items@[i as int]));
                    let next = items[i].to_value();
                    assert(trees_of(out@.push(next)) == trees_of(out@).push(json_tree(next)));
                    out.push(next);
                    i = i + 1;
                }
                assert(items_view(items@).take(i as int) == items_view(items@));
                node_value(JsonNode::Array(out))
            },
            Json::Object(entries) => {
                let mut out: Vec<(String, serde_json::Value)> = Vec::new();
                let mut i: usize = 0;
                while i < entries.len()
                    invariant
                        self matches Json::Object(v) && v == entries,
                        i <= entries.len(),
                        entry_trees_of(out@) == entries_view(entries@).take(i as int),
                    decreases entries.len() - i,
                {
                    assert(decreases_to!(self => entries@[i as int].1));
                    let next = (entries[i].0.clone(), entries[i].1.to_value());
                    assert(entry_trees_of(out@.push(next)) == entry_trees_of(out@).push(
                        (next.0@, json_tree(next.1)),
                    ));
                    out.push(next);
                    i = i + 1;
                }
                assert(entries_view(entries@).take(i as int) == entries_view(entries@));
                node_value(JsonNode::Object(out))
            },
        }
    }

    /// The object without fields.
    pub fn object() -> (r: Json)
        ensures
            r@ == JsonTree::object(),
    {
        Json::Object(Vec::new())
    }

    /// This object with one more field, or with another value for it.
    pub fn with(self, key: &str, value: Json) -> (r: Json)
        ensures
            r@ == self@.with(key@, value@),
    {
        match self {
            Json::Object(entries) => {
                let mut entries = entries;
                let entry = (key.to_string(), value);
                proof {
                    lemma_entries_push(entries@, entry);
                    let views = entries_view(entries@);
                    assert(views.push((entry.0@, entry.1@)).drop_last() == views);
                }
                entries.push(entry);
                Json::Object(entries)
            },
            other => other,
        }
    }

    /// The array of one value.
    pub fn array_of_one(item: Json) -> (r: Json)
        ensures
            r@ == JsonTree::Array(seq![item@]),
    {
        let mut items: Vec<Json> = Vec::new();
        proof {
            lemma_items_push(items@, item);
        }
        items.push(item);
        assert(items_view(items@) == seq![item@]);
        Json::Array(items)
    }

    /// The array of `n` nulls.
    pub fn nulls(n: usize) -> (r: Json)
        ensures
            r@ == JsonTree::Array(Seq::new(n as nat, |i: int| JsonTree::Null)),
    {
        let mut items: Vec<Json> = Vec::new();
        let mut i: usize = 0;
        while i < n
            invariant
                i <= n,
                items_view(items@) == Seq::new(i as nat, |i: int| JsonTree::Null),
            decreases n - i,
        {
            proof {
                lemma_items_push(items@, Json::Null);
            }
            items.push(Json::Null);
            i = i + 1;
        }
        Json::Array(items)
    }

    /// Whether no key of this object is longer than `limit` bytes.
    pub fn has_keys_within(&self, limit: usize) -> (r: bool)
        ensures
            r == keys_within(self@, limit as nat),
    {
        match self {
            Json::Object(entries) => {
                let ghost views = entries_view(entries@);
                let mut i: usize = 0;
                while i < entries.len()
                    invariant
                        self@ == JsonTree::Object(entries_map(views)),
                        views == entries_view(entries@),
                        i <= entries.len(),
                        forall|j: int|
                            0 <= j < i ==> encoding::byte_len(#[trigger] views[j].0) <= limit,
                    decreases entries.len() - i,
                {
                    assert(views[i as int].0 == entries@[i as int].0@);
                    if entries[i].0.as_str().as_bytes().len() > limit {
                        proof {
                            lemma_entries_map_key(views, i as int);
                            assert(self@->Object_0.contains_key(views[i as int].0));
                        }
                        return false;
                    }
                    i = i + 1;
                }
                assert forall|key: Seq<char>| #[trigger]
                    entries_map(views).contains_key(key) implies encoding::byte_len(key) <= limit by {
                    let k = lemma_entries_map_last(views, key);
                    assert(encoding::byte_len(views[k].0) <= limit);
                }
                true
            },
            _ => true,
        }
    }

    /// The element of an array at a place.
    pub fn element(&self, place: usize) -> (r: Option<&Json>)
        ensures
            r is Some == tree_element(self@, place as int) is Some,
            r matches Some(json) ==> tree_element(self@, place as int) == Some(json@),
    {
        match self {
            Json::Array(items) => if place < items.len() {
                assert(items_view(items@)[place as int] == items@[place as int]@);
                Some(&items[place])
            } else {
                None
            },
            _ => None,
        }
    }

    /// Reads a JSON document, or says why it is malformed.
    pub fn parse(bytes: &[u8]) -> (r: Result<Json, String>)
        ensures
            (match r {
                Ok(json) => Ok(json@),
                Err(text) => Err(text@),
            }) == json_document(bytes@),
    {
        match value_from_slice(bytes) {
            Ok(value) => Ok(Json::from_value(value)),
            Err(text) => Err(text),
        }
    }

    /// The compact text of this value. Unless it holds a fraction or nests too deep for
    /// the reader, [`Json::parse`] gives the value back.
    pub fn encode(&self) -> (r: Vec<u8>)
        ensures
            r@ == json_text(self@),
            valid_utf8(r@),
            exact_within(self@, nesting_limit()) ==> is_document_of(r@, self@),
    {
        match value_to_vec(&self.to_value()) {
            Ok(bytes) => bytes,
            Err(_) => Vec::new(),
        }
    }

    /// The indented text of this value.
    pub fn pretty(&self) -> (r: String)
        ensures
            r@ == json_pretty_text(self@),
    {
        match value_to_string_pretty(&self.to_value()) {
            Ok(text) => text,
            Err(_) => String::new(),
        }
    }

    /// The field `key`, where this is an object that has one.
    pub fn get(&self, key: &str) -> (r: Option<&Json>)
        ensures
            r is Some == tree_field(self@, key@) is Some,
            r matches Some(json) ==> tree_field(self@, key@) == Some(json@),
    {
        match self {
            Json::Object(entries) => {
                let ghost views = entries_view(entries@);
                let mut i: usize = entries.len();
                while i > 0
                    invariant
                        self matches Json::Object(v) && v == entries,
                        views == entries_view(entries@),
                        i <= entries.len(),
                        forall|j: int| i <= j < entries.len() ==> views[j].0 != key@,
                    decreases i,
                {
                    i = i - 1;
                    if same_text(entries[i].0.as_str(), key) {
                        proof {
                            lemma_entries_map_contains(views, i as int);
                        }
                        return Some(&entries[i].1);
                    }
                }
                proof {
                    lemma_entries_map_absent(views, key@);
                }
                None
            },
            _ => None,
        }
    }

    /// The text of a string value.
    pub fn as_str(&self) -> (r: Option<&str>)
        ensures
            r is Some == tree_text(self@) is Some,
            r matches Some(s) ==> tree_text(self@) == Some(s@),
    {
        match self {
            Json::Text(s) => Some(s.as_str()),
            _ => None,
        }
    }

    /// The number of an integer value, where it fits in `i64`.
    pub fn as_i64(&self) -> (r: Option<i64>)
        ensures
            r is Some == tree_int(self@) is Some,
            r matches Some(i) ==> tree_int(self@) == Some(i as int),
    {
        match self {
            Json::Int(i) => Some(*i),
            Json::UInt(u) => if *u <= 0x7fff_ffff_ffff_ffff {
                Some(*u as i64)
            } else {
                None
            },
            _ => None,
        }
    }
}

// ---- laws ----

/// Of several entries of an object with the same key, the last counts; a key that no entry
/// names is not there.
pub proof fn law_last_entry_counts(
    entries: Seq<(Seq<char>, JsonTree)>,
    key: Seq<char>,
    value: JsonTree,
    other: Seq<char>,
)
    ensures
        entries_map(Seq::empty()) == Map::<Seq<char>, JsonTree>::empty(),
        entries_map(entries.push((key, value))).contains_pair(key, value),
        other != key ==> entries_map(entries.push((key, value))).contains_key(other)
            == entries_map(entries).contains_key(other),
        other != key && entries_map(entries).contains_key(other) ==> entries_map(
            entries.push((key, value)),
        )[other] == entries_map(entries)[other],
{
    assert(entries.push((key, value)).drop_last() =~= entries);
}

/// A field that an object was given is read back, and its other fields stay as they were.
pub proof fn law_field_round_trip(
    tree: JsonTree,
    key: Seq<char>,
    value: JsonTree,
    other: Seq<char>,
)
    requires
        tree is Object,
    ensures
        tree_field(tree.with(key, value), key) == Some(value),
        other != key ==> tree_field(tree.with(key, value), other) == tree_field(tree, other),
        tree_field(JsonTree::object(), key) is None,
{
}

/// A field, an element, a text or a number is read from a value only where the value is of
/// that form, and it is the one that the value holds.
pub proof fn law_reading_a_tree(
    fields: Map<Seq<char>, JsonTree>,
    items: Seq<JsonTree>,
    text: Seq<char>,
    number: int,
    tree: JsonTree,
    key: Seq<char>,
    place: int,
)
    ensures
        fields.contains_key(key) ==> tree_field(JsonTree::Object(fields), key) == Some(fields[key]),
        !fields.contains_key(key) ==> tree_field(JsonTree::Object(fields), key) is None,
        !(tree is Object) ==> tree_field(tree, key) is None,
        0 <= place < items.len() ==> tree_element(JsonTree::Array(items), place) == Some(
            items[place],
        ),
        !(0 <= place < items.len()) ==> tree_element(JsonTree::Array(items), place) is None,
        !(tree is Array) ==> tree_element(tree, place) is None,
        tree_text(JsonTree::Text(text)) == Some(text),
        !(tree is Text) ==> tree_text(tree) is None,
        i64::MIN <= number <= i64::MAX ==> tree_int(JsonTree::Int(number)) == Some(number),
        !(i64::MIN <= number <= i64::MAX) ==> tree_int(JsonTree::Int(number)) is None,
        !(tree is Int) ==> tree_int(tree) is None,
{
}

/// A value holds what it is made of; a list holds what each of its values holds.
pub proof fn law_value_view(
    b: bool,
    i: i64,
    u: u64,
    text: String,
    items: Vec<Json>,
    entries: Vec<(String, Json)>,
    k: int,
)
    ensures
        Json::Null@ == JsonTree::Null,
        Json::Bool(b)@ == JsonTree::Bool(b),
        Json::Int(i)@ == JsonTree::Int(i as int),
        Json::UInt(u)@ == JsonTree::Int(u as int),
        Json::Text(text)@ == JsonTree::Text(text@),
        Json::Array(items)@ is Array,
        Json::Array(items)@->Array_0.len() == items@.len(),
        0 <= k < items@.len() ==> Json::Array(items)@->Array_0[k] == items@[k]@,
        Json::Object(entries)@ is Object,
        Json::Object(entries)@->Object_0 == entries_map(entries_view(entries@)),
        entries_view(entries@).len() == entries@.len(),
        0 <= k < entries@.len() ==> entries_view(entries@)[k] == (
            entries@[k].0@,
            entries@[k].1@,
        ),
{
    assert(Json::Array(items)@ == JsonTree::Array(items_view(items@)));
    assert(Json::Object(entries)@ == JsonTree::Object(entries_map(entries_view(entries@))));
}

} // verus!
