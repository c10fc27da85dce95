//! JSON documents: the tree that the protocol logic reads and builds, and the
//! text form that travels.

use crate::codec::text_of;
use crate::text::same_text;
use vstd::prelude::*;
use vstd::utf8::{decode_utf8, encode_utf8, valid_utf8};

verus! {

/// The JSON crate's value. It is handed from the parser to `from_value` and
/// from `to_value` to the printer, and nothing else looks at it.
#[verifier::external_type_specification]
#[verifier::external_body]
pub struct ExJsonValue(::json::JsonValue);

/// The JSON crate's number. It is carried through as it is.
#[verifier::external_type_specification]
#[verifier::external_body]
pub struct ExNumber(::json::number::Number);

/// The JSON crate's error. Only that there is one is looked at.
#[verifier::external_type_specification]
#[verifier::external_body]
pub struct ExJsonError(::json::Error);

/// A JSON value. A number is carried as the parser made it; nothing here
/// looks inside one.
#[derive(Debug, PartialEq)]
pub enum Json {
    Null,
    Flag(bool),
    Number(::json::number::Number),
    Text(String),
    List(Vec<Json>),
    Record(Vec<(String, Json)>),
}

/// What a `Json` value stands for.
pub enum Tree {
    Null,
    Flag(bool),
    Number(::json::number::Number),
    Text(Seq<char>),
    List(Seq<Tree>),
    Record(Seq<(Seq<char>, Tree)>),
}

/// The tree that `j` stands for.
pub open spec fn tree_of(j: Json) -> Tree
    decreases j,
{
    match j {
        Json::Null => Tree::Null,
        Json::Flag(b) => Tree::Flag(b),
        Json::Number(n) => Tree::Number(n),
        Json::Text(s) => Tree::Text(s@),
        Json::List(items) => Tree::List(
            Seq::new(
                items@.len(),
                |i: int|
                    if 0 <= i < items@.len() {
                        tree_of(items@[i])
                    } else {
                        Tree::Null
                    },
            ),
        ),
        Json::Record(members) => Tree::Record(
            Seq::new(
                members@.len(),
                |i: int|
                    if 0 <= i < members@.len() {
                        (members@[i].0@, tree_of(members@[i].1))
                    } else {
                        (Seq::empty(), Tree::Null)
                    },
            ),
        ),
    }
}

impl View for Json {
    type V = Tree;

    open spec fn view(&self) -> Tree {
        tree_of(*self)
    }
}

/// The view of a list, item by item.
proof fn lemma_list_view(items: Vec<Json>)
    ensures
        Json::List(items)@ matches Tree::List(ts) && ts.len() == items@.len() && forall|i: int|
            0 <= i < ts.len() ==> #[trigger] ts[i] == items@[i]@,
{
}

/// The view of a record, member by member.
proof fn lemma_record_view(members: Vec<(String, Json)>)
    ensures
        Json::Record(members)@ matches Tree::Record(ms) && ms.len() == members@.len() && forall|
            i: int,
        |
            0 <= i < ms.len() ==> #[trigger] ms[i] == (members@[i].0@, members@[i].1@),
{
}

/// The value of the first member at or after `from` whose key is `key`.
pub open spec fn find_member(members: Seq<(Seq<char>, Tree)>, key: Seq<char>, from: int) -> Option<
    Tree,
>
    decreases members.len() - from,
{
    if from < 0 || from >= members.len() {
        None
    } else if members[from].0 == key {
        Some(members[from].1)
    } else {
        find_member(members, key, from + 1)
    }
}

impl Tree {
    /// The characters of a text; nothing for any other value.
    pub open spec fn as_text(self) -> Option<Seq<char>> {
        match self {
            Tree::Text(s) => Some(s),
            _ => None,
        }
    }

    /// The value that a record holds under `key`; nothing where the key is
    /// missing or the value is no record.
    pub open spec fn member(self, key: Seq<char>) -> Option<Tree> {
        match self {
            Tree::Record(members) => find_member(members, key, 0),
            _ => None,
        }
    }

    /// The text that a record holds under `key`.
    pub open spec fn member_text(self, key: Seq<char>) -> Option<Seq<char>> {
        match self.member(key) {
            Some(v) => v.as_text(),
            None => None,
        }
    }

    /// The number of items of a list or of members of a record; 0 for any
    /// other value.
    pub open spec fn len(self) -> nat {
        match self {
            Tree::List(items) => items.len(),
            Tree::Record(members) => members.len(),
            _ => 0,
        }
    }

    /// The item of a list at position `i`.
    pub open spec fn element(self, i: int) -> Option<Tree> {
        match self {
            Tree::List(items) => if 0 <= i < items.len() {
                Some(items[i])
            } else {
                None
            },
            _ => None,
        }
    }

    /// Whether no record in the value, at any depth, holds a key twice.
    pub open spec fn keys_distinct(self) -> bool
        decreases self,
    {
        match self {
            Tree::List(items) => forall|i: int|
                0 <= i < items.len() ==> (#[trigger] items[i]).keys_distinct(),
            Tree::Record(members) => {
                &&& forall|i: int, j: int|
                    0 <= i < j < members.len() ==> (#[trigger] members[i]).0 != (
                    #[trigger] members[j]).0
                &&& forall|i: int|
                    0 <= i < members.len() ==> (#[trigger] members[i]).1.keys_distinct()
            },
            _ => true,
        }
    }
}

/// What a value of the JSON crate holds.
pub uninterp spec fn json_contents(value: ::json::JsonValue) -> Tree;

/// What the JSON crate's parser makes of a text: the value, or nothing where
/// it rejects the text.
pub uninterp spec fn json_parsed(text: Seq<char>) -> Option<Tree>;

/// The text that the JSON crate prints for a value, in its compact form.
pub uninterp spec fn json_dumped(tree: Tree) -> Seq<char>;

/// The longest text that is read as JSON, in bytes of UTF-8.
pub const TEXT_LIMIT: usize = 32767;

/// What reading a text as JSON gives: nothing for a text of more than
/// `TEXT_LIMIT` bytes, which is not handed to the parser; else what the
/// parser makes of it.
pub open spec fn parsed(text: Seq<char>) -> Option<Tree> {
    if encode_utf8(text).len() > TEXT_LIMIT {
        None
    } else {
        json_parsed(text)
    }
}

/// What reading the bytes of a record as JSON gives: nothing for bytes that
/// are not UTF-8; else what reading their text gives.
pub open spec fn parsed_record(record: Seq<u8>) -> Option<Tree> {
    if valid_utf8(record) {
        parsed(decode_utf8(record))
    } else {
        None
    }
}

/// `json::parse`. Whether the parser accepts a text, and the value it then
/// makes, depend on the text alone. The parser counts the digits of a
/// fraction down in 16 bits, and a number with more digits than that takes
/// the count below its range; a text within the limit holds no such number.
#[verifier::external_body]
fn parse_value(text: &str) -> (r: Result<::json::JsonValue, ::json::Error>)
    requires
        encode_utf8(text@).len() <= TEXT_LIMIT,
    ensures
        r is Ok <==> json_parsed(text@) is Some,
        r matches Ok(v) ==> json_parsed(text@) == Some(json_contents(v)),
{
    ::json::parse(text)
}

/// `JsonValue::dump`. The text depends on what the value holds alone.
#[verifier::external_body]
fn dump_value(value: &::json::JsonValue) -> (r: String)
    ensures
        r@ == json_dumped(json_contents(*value)),
{
    value.dump()
}

/// Reads a value of the JSON crate into a `Json`, variant by variant: a short
/// and a long string both as a text, the members of an object in the order in
/// which the object hands them out.
#[verifier::external_body]
fn from_value(value: &::json::JsonValue) -> (r: Json)
    ensures
        r@ == json_contents(*value),
{
    match value {
        ::json::JsonValue::Null => Json::Null,
        ::json::JsonValue::Boolean(b) => Json::Flag(*b),
        ::json::JsonValue::Number(n) => Json::Number(*n),
        ::json::JsonValue::Short(s) => Json::Text(s.as_str().to_string()),
        ::json::JsonValue::String(s) => Json::Text(s.clone()),
        ::json::JsonValue::Array(a) => Json::List(a.iter().map(from_value).collect()),
        ::json::JsonValue::Object(o) => Json::Record(
            o.iter().map(|(k, v)| (k.to_string(), from_value(v))).collect(),
        ),
    }
}

/// Builds the value of the JSON crate that holds what a `Json` holds, with
/// `Object::insert` for each member in turn. As `insert` replaces the value of
/// a key that is already there, the result holds the same only where no
/// record has a key twice.
#[verifier::external_body]
fn to_value(j: &Json) -> (r: ::json::JsonValue)
    ensures
        j@.keys_distinct() ==> json_contents(r) == j@,
{
    match j {
        Json::Null => ::json::JsonValue::Null,
        Json::Flag(b) => ::json::JsonValue::Boolean(*b),
        Json::Number(n) => ::json::JsonValue::Number(*n),
        Json::Text(s) => ::json::JsonValue::String(s.clone()),
        Json::List(items) => ::json::JsonValue::Array(items.iter().map(to_value).collect()),
        Json::Record(members) => {
            let mut o = ::json::object::Object::new();
            for (k, v) in members.iter() {
                o.insert(k, to_value(v));
            }
            ::json::JsonValue::Object(o)
        },
    }
}

impl Json {
    /// A text value.
    pub fn text(s: &str) -> (r: Json)
        ensures
            r@ == Tree::Text(s@),
    {
        Json::Text(s.to_owned())
    }

    /// A list of the given items.
    pub fn list(items: Vec<Json>) -> (r: Json)
        ensures
            r == Json::List(items),
            r@ matches Tree::List(ts) && ts.len() == items@.len() && forall|i: int|
                0 <= i < ts.len() ==> #[trigger] ts[i] == items@[i]@,
    {
        proof {
            lemma_list_view(items);
        }
        Json::List(items)
    }

    /// A record of the given members.
    pub fn record(members: Vec<(String, Json)>) -> (r: Json)
        ensures
            r == Json::Record(members),
            r@ matches Tree::Record(ms) && ms.len() == members@.len() && forall|i: int|
                0 <= i < ms.len() ==> #[trigger] ms[i] == (members@[i].0@, members@[i].1@),
    {
        proof {
            lemma_record_view(members);
        }
        Json::Record(members)
    }

    /// A member of a record: a key and the text under it.
    pub fn entry(key: &str, value: &str) -> (r: (String, Json))
        ensures
            r.0@ == key@,
            r.1@ == Tree::Text(value@),
    {
        (key.to_owned(), Json::text(value))
    }

    /// Whether no record in the value, at any depth, holds a key twice.
    pub fn keys_distinct(&self) -> (r: bool)
        ensures
            r == self@.keys_distinct(),
        decreases self,
    {
        match self {
            Json::List(items) => {
                proof {
                    lemma_list_view(*items);
                }
                let mut i: usize = 0;
                while i < items.len()
                    invariant
                        i <= items.len(),
                        self == Json::List(*items),
                        self@ matches Tree::List(ts) && ts.len() == items.len() && (forall|
                            k: int,
                        |
                            0 <= k < ts.len() ==> #[trigger] ts[k] == items@[k]@) && (forall|
                            k: int,
                        |
                            0 <= k < i ==> (#[trigger] ts[k]).keys_distinct()),
                    decreases items.len() - i,
                {
                    if !items[i].keys_distinct() {
                        assert(!self@->List_0[i as int].keys_distinct());
                        return false;
                    }
                    i += 1;
                }
                true
            },
            Json::Record(members) => {
                proof {
                    lemma_record_view(*members);
                }
                let mut i: usize = 0;
                while i < members.len()
                    invariant
                        i <= members.len(),
                        self == Json::Record(*members),
                        self@ matches Tree::Record(ms) && ms.len() == members.len() && (forall|
                            k: int,
                        |
                            0 <= k < ms.len() ==> #[trigger] ms[k] == (
                                members@[k].0@,
                                members@[k].1@,
                            )) && (forall|k: int|
                            0 <= k < i ==> (#[trigger] ms[k]).1.keys_distinct()) && (forall|
                            k: int,
                            l: int,
                        |
                            0 <= k < l < ms.len() && k < i ==> (#[trigger] ms[k]).0 != (
                            #[trigger] ms[l]).0),
                    decreases members.len() - i,
                {
                    if !members[i].1.keys_distinct() {
                        assert(!self@->Record_0[i as int].1.keys_distinct());
                        return false;
                    }
                    let mut j: usize = i + 1;
                    while j < members.len()
                        invariant
                            i < j <= members.len(),
                            self@ matches Tree::Record(ms) && ms.len() == members.len() && (
                            forall|k: int|
                                0 <= k < ms.len() ==> #[trigger] ms[k] == (
                                    members@[k].0@,
                                    members@[k].1@,
                                )) && (forall|l: int|
                                i < l < j ==> ms[i as int].0 != (#[trigger] ms[l]).0),
                        decreases members.len() - j,
                    {
                        if members[i].0 == members[j].0 {
                            let ghost ms = self@->Record_0;
                            assert(ms[i as int].0 == ms[j as int].0);
                            return false;
                        }
                        j += 1;
                    }
                    i += 1;
                }
                true
            },
            _ => true,
        }
    }

    /// The text of a text value.
    pub fn as_text(&self) -> (r: Option<&String>)
        ensures
            match r {
                Some(s) => self@.as_text() == Some(s@),
                None => self@.as_text() is None,
            },
    {
        match self {
            Json::Text(s) => Some(s),
            _ => None,
        }
    }

    /// The value under `key` in a record.
    pub fn member(&self, key: &str) -> (r: Option<&Json>)
        ensures
            match r {
                Some(v) => self@.member(key@) == Some(v@),
                None => self@.member(key@) is None,
            },
    {
        match self {
            Json::Record(members) => {
                proof {
                    lemma_record_view(*members);
                }
                let mut i: usize = 0;
                while i < members.len()
                    invariant
                        i <= members.len(),
                        self@ matches Tree::Record(ms) && ms.len() == members.len() && (forall|
                            k: int,
                        |
                            0 <= k < ms.len() ==> #[trigger] ms[k] == (
                                members@[k].0@,
                                members@[k].1@,
                            )) && find_member(ms, key@, 0) == find_member(ms, key@, i as int),
                    decreases members.len() - i,
                {
                    if same_text(members[i].0.as_str(), key) {
                        return Some(&members[i].1);
                    }
                    i += 1;
                }
                None
            },
            _ => None,
        }
    }

    /// The text under `key` in a record.
    pub fn member_text(&self, key: &str) -> (r: Option<&String>)
        ensures
            match r {
                Some(s) => self@.member_text(key@) == Some(s@),
                None => self@.member_text(key@) is None,
            },
    {
        match self.member(key) {
            Some(v) => v.as_text(),
            None => None,
        }
    }

    /// The number of items of a list or of members of a record.
    pub fn len(&self) -> (r: usize)
        ensures
            r == self@.len(),
    {
        match self {
            Json::List(items) => {
                proof {
                    lemma_list_view(*items);
                }
                items.len()
            },
            Json::Record(members) => {
                proof {
                    lemma_record_view(*members);
                }
                members.len()
            },
            _ => 0,
        }
    }

    /// The item of a list at position `i`.
    pub fn element(&self, i: usize) -> (r: Option<&Json>)
        ensures
            match r {
                Some(v) => self@.element(i as int) == Some(v@),
                None => self@.element(i as int) is None,
            },
    {
        match self {
            Json::List(items) => if i < items.len() {
                Some(&items[i])
            } else {
                None
            },
            _ => None,
        }
    }
}

/// Reads a JSON text. A text of more than `TEXT_LIMIT` bytes is not read.
pub fn parse(text: &str) -> (r: Option<Json>)
    ensures
        match r {
            Some(j) => parsed(text@) == Some(j@),
            None => parsed(text@) is None,
        },
{
    if text.as_bytes().len() > TEXT_LIMIT {
        return None;
    }
    match parse_value(text) {
        Ok(v) => Some(from_value(&v)),
        Err(_) => None,
    }
}

/// Reads the bytes of a record as JSON: they must be UTF-8, and their text
/// JSON of no more than `TEXT_LIMIT` bytes.
pub fn parse_record(record: &[u8]) -> (r: Option<Json>)
    ensures
        match r {
            Some(j) => parsed_record(record@) == Some(j@),
            None => parsed_record(record@) is None,
        },
{
    match text_of(record) {
        Some(text) => parse(text.as_str()),
        None => None,
    }
}

/// Writes a value as JSON text, in the compact form. A value in which a
/// record holds a key twice has no text: an object of JSON holds each key
/// once.
pub fn render(j: &Json) -> (r: Option<String>)
    ensures
        match r {
            Some(text) => j@.keys_distinct() && text@ == json_dumped(j@),
            None => !j@.keys_distinct(),
        },
{
    if j.keys_distinct() {
        Some(render_distinct(j))
    } else {
        None
    }
}

/// Writes a value in which no record holds a key twice.
pub(crate) fn render_distinct(j: &Json) -> (r: String)
    requires
        j@.keys_distinct(),
    ensures
        r@ == json_dumped(j@),
{
    let v = to_value(j);
    dump_value(&v)
}

} // verus!
