//! JSON documents: the library's own tree, its mathematical view, and the two
//! ways between it and text, both through `serde_json`.

use crate::text::{decimal, text_eq};
use vstd::prelude::*;

verus! {

// ---------------------------------------------------------------------------
// The view

/// A JSON number: the bits of the double nearest to it, and its text.
pub ghost struct NumberView {
    pub bits: u64,
    pub literal: Seq<char>,
}

/// A JSON document. An object is a map: the order of its keys means nothing.
pub ghost enum JsonView {
    Null,
    Bool(bool),
    Number(NumberView),
    Text(Seq<char>),
    Array(Seq<JsonView>),
    Object(Map<Seq<char>, JsonView>),
}

/// What stands under `key`, where `v` is an object with that key.
pub open spec fn field(v: JsonView, key: Seq<char>) -> Option<JsonView> {
    match v {
        JsonView::Object(m) => if m.contains_key(key) {
            Some(m[key])
        } else {
            None
        },
        _ => None,
    }
}

/// What stands under `key`, or null.
pub open spec fn key_of(v: JsonView, key: Seq<char>) -> JsonView {
    match field(v, key) {
        Some(x) => x,
        None => JsonView::Null,
    }
}

/// The item at `index`, where `v` is an array that long, or null.
pub open spec fn item_of(v: JsonView, index: int) -> JsonView {
    match v {
        JsonView::Array(items) => if 0 <= index < items.len() {
            items[index]
        } else {
            JsonView::Null
        },
        _ => JsonView::Null,
    }
}

/// The text of a JSON string.
pub open spec fn str_of(v: JsonView) -> Option<Seq<char>> {
    match v {
        JsonView::Text(s) => Some(s),
        _ => None,
    }
}

// ---------------------------------------------------------------------------
// serde_json

/// `serde_json::Value`, the tree that `serde_json` parses into and prints.
#[verifier::external_type_specification]
#[verifier::external_body]
pub struct ExValue(serde_json::Value);

/// `serde_json::Number`, an integer or a finite double.
#[verifier::external_type_specification]
#[verifier::external_body]
pub struct ExNumber(serde_json::Number);

/// The document that a `serde_json::Value` holds.
pub uninterp spec fn json_of(v: serde_json::Value) -> JsonView;

/// The number that a `serde_json::Number` holds.
pub uninterp spec fn number_of(n: serde_json::Number) -> NumberView;

/// What `serde_json::from_str` makes of a text: a document, or the message of
/// its error.
pub uninterp spec fn json_parse(text: Seq<char>) -> Result<JsonView, Seq<char>>;

/// The compact text that `serde_json` prints of a document.
pub uninterp spec fn json_text(v: JsonView) -> Seq<char>;

/// The text that formatting a double with `{}` gives, by the double's bits.
pub uninterp spec fn double_text(bits: u64) -> Seq<char>;

/// The bits of the double nearest to an integer.
pub uninterp spec fn int_bits(n: i64) -> u64;

/// One level of a `serde_json::Value`.
pub enum Node {
    Null,
    Bool(bool),
    Number(serde_json::Number),
    Text(String),
    Array(Vec<serde_json::Value>),
    Object(Vec<(String, serde_json::Value)>),
}

/// The map of `entries`; of two entries with one key the later one counts.
pub open spec fn value_map(entries: Seq<(String, serde_json::Value)>) -> Map<Seq<char>, JsonView>
    decreases entries.len(),
{
    if entries.len() == 0 {
        Map::empty()
    } else {
        value_map(entries.drop_last()).insert(entries.last().0@, json_of(entries.last().1))
    }
}

/// The document of which `n` is the top level.
pub open spec fn node_view(n: Node) -> JsonView {
    match n {
        Node::Null => JsonView::Null,
        Node::Bool(b) => JsonView::Bool(b),
        Node::Number(n) => JsonView::Number(number_of(n)),
        Node::Text(s) => JsonView::Text(s@),
        Node::Array(items) => JsonView::Array(
            items@.map_values(|v: serde_json::Value| json_of(v)),
        ),
        Node::Object(entries) => JsonView::Object(value_map(entries@)),
    }
}

/// No key occurs twice.
pub open spec fn distinct_keys(entries: Seq<(String, serde_json::Value)>) -> bool {
    forall|i: int, j: int|
        0 <= i < j < entries.len() ==> (#[trigger] entries[i]).0@ != (#[trigger] entries[j]).0@
}

/// Takes a `serde_json::Value` apart by its variant. The entries of a
/// `serde_json::Map` come out one per key.
#[verifier::external_body]
fn open_value(v: serde_json::Value) -> (r: Node)
    ensures
        node_view(r) == json_of(v),
        r matches Node::Object(entries) ==> distinct_keys(entries@),
{
    match v {
        serde_json::Value::Null => Node::Null,
        serde_json::Value::Bool(b) => Node::Bool(b),
        serde_json::Value::Number(n) => Node::Number(n),
        serde_json::Value::String(s) => Node::Text(s),
        serde_json::Value::Array(items) => Node::Array(items),
        serde_json::Value::Object(map) => Node::Object(map.into_iter().collect()),
    }
}

/// Builds a `serde_json::Value` of a variant. The entries of an object, no two
/// of which have one key, are collected into a `serde_json::Map`.
#[verifier::external_body]
fn close_value(n: Node) -> (r: serde_json::Value)
    requires
        n matches Node::Object(entries) ==> distinct_keys(entries@),
    ensures
        json_of(r) == node_view(n),
{
    match n {
        Node::Null => serde_json::Value::Null,
        Node::Bool(b) => serde_json::Value::Bool(b),
        Node::Number(n) => serde_json::Value::Number(n),
        Node::Text(s) => serde_json::Value::String(s),
        Node::Array(items) => serde_json::Value::Array(items),
        Node::Object(entries) => serde_json::Value::Object(entries.into_iter().collect()),
    }
}

/// `serde_json::from_str` into a `serde_json::Value`; an error is given by its
/// message.
#[verifier::external_body]
fn parse_value(text: &str) -> (r: Result<serde_json::Value, String>)
    ensures
        match r {
            Ok(v) => json_parse(text@) == Ok::<JsonView, Seq<char>>(json_of(v)),
            Err(e) => json_parse(text@) == Err::<JsonView, Seq<char>>(e@),
        },
{
    serde_json::from_str::<serde_json::Value>(text).map_err(|e| e.to_string())
}

/// A text is parsed into this document.
pub open spec fn reads_as(text: Seq<char>, v: JsonView) -> bool {
    json_parse(text) == Ok::<JsonView, Seq<char>>(v)
}

/// A document without numbers, whose arrays and objects are nested at most
/// `depth` deep.
pub open spec fn readable(v: JsonView, depth: nat) -> bool
    decreases depth,
{
    match v {
        JsonView::Number(_) => false,
        JsonView::Array(items) => depth > 0 && forall|i: int|
            0 <= i < items.len() ==> readable(#[trigger] items[i], (depth - 1) as nat),
        JsonView::Object(m) => depth > 0 && forall|key: Seq<char>| #[trigger]
            m.contains_key(key) ==> readable(m[key], (depth - 1) as nat),
        _ => true,
    }
}

/// The `Display` of `serde_json::Value`: compact JSON. `serde_json::from_str`
/// reads it back as it was, where there is no double in it that might be
/// rounded and where it stays within the parser's limit on nesting.
#[verifier::external_body]
fn value_text(v: &serde_json::Value) -> (r: String)
    ensures
        r@ == json_text(json_of(*v)),
        readable(json_of(*v), 127) ==> reads_as(r@, json_of(*v)),
{
    v.to_string()
}

/// `serde_json::Number::as_f64`, which always gives a double, by its bits.
#[verifier::external_body]
pub(crate) fn number_bits(n: &serde_json::Number) -> (r: u64)
    ensures
        r == number_of(*n).bits,
{
    match n.as_f64() {
        Some(c) => c.to_bits(),
        None => 0,
    }
}

/// `serde_json::Number::as_f64`, which always gives a double, formatted with
/// `{}`.
#[verifier::external_body]
pub(crate) fn number_text(n: &serde_json::Number) -> (r: String)
    ensures
        r@ == double_text(number_of(*n).bits),
{
    match n.as_f64() {
        Some(c) => format!("{}", c),
        None => String::new(),
    }
}

/// `n` in decimal, with a sign where it is negative.
pub open spec fn signed_decimal(n: int) -> Seq<char> {
    if n < 0 {
        seq!['-'] + decimal((-n) as nat)
    } else {
        decimal(n as nat)
    }
}

/// The number `n`.
pub open spec fn int_view(n: i64) -> NumberView {
    NumberView { bits: int_bits(n), literal: signed_decimal(n as int) }
}

/// `serde_json::Number::from` an integer, which is printed in decimal, and
/// whose double is the nearest one. The doubles 0.0 and 1.0 are given by their
/// bits.
#[verifier::external_body]
fn int_number(n: i64) -> (r: serde_json::Number)
    ensures
        number_of(r).bits == int_bits(n),
        n == 0 ==> number_of(r).bits == 0,
        n == 1 ==> number_of(r).bits == 0x3ff0_0000_0000_0000,
        number_of(r).literal == signed_decimal(n as int),
{
    serde_json::Number::from(n)
}

/// The `Clone` of `serde_json::Number`: the same number.
#[verifier::external_body]
fn copy_number(n: &serde_json::Number) -> (r: serde_json::Number)
    ensures
        number_of(r) == number_of(*n),
{
    n.clone()
}

// ---------------------------------------------------------------------------
// The tree

/// A JSON document.
pub enum Json {
    Null,
    Bool(bool),
    Number(serde_json::Number),
    Text(String),
    Array(Vec<Json>),
    /// Of two entries with one key the later one counts.
    Object(Vec<(String, Json)>),
}

impl View for Json {
    type V = JsonView;

    open spec fn view(&self) -> JsonView {
        json_view(*self)
    }
}

/// The document that `j` stands for.
pub open spec fn json_view(j: Json) -> JsonView
    decreases j,
{
    match j {
        Json::Null => JsonView::Null,
        Json::Bool(b) => JsonView::Bool(b),
        Json::Number(n) => JsonView::Number(number_of(n)),
        Json::Text(s) => JsonView::Text(s@),
        Json::Array(items) => JsonView::Array(items_view(items@)),
        Json::Object(entries) => JsonView::Object(entries_view(entries@)),
    }
}

/// The documents that `items` stand for.
pub open spec fn items_view(items: Seq<Json>) -> Seq<JsonView>
    decreases items,
{
    if items.len() == 0 {
        seq![]
    } else {
        items_view(items.drop_last()).push(json_view(items.last()))
    }
}

/// The map of `entries`; of two entries with one key the later one counts.
pub open spec fn entries_view(entries: Seq<(String, Json)>) -> Map<Seq<char>, JsonView>
    decreases entries,
{
    if entries.len() == 0 {
        Map::empty()
    } else {
        entries_view(entries.drop_last()).insert(entries.last().0@, json_view(entries.last().1))
    }
}

/// `items_view` goes item by item.
pub proof fn lemma_items_view(items: Seq<Json>)
    ensures
        items_view(items).len() == items.len(),
        forall|i: int|
            0 <= i < items.len() ==> #[trigger] items_view(items)[i] == json_view(items[i]),
    decreases items.len(),
{
    if items.len() > 0 {
        lemma_items_view(items.drop_last());
        let rest = items.drop_last();
        assert forall|i: int| 0 <= i < items.len() implies #[trigger] items_view(items)[i]
            == json_view(items[i]) by {
            if i < rest.len() {
                assert(items_view(rest)[i] == json_view(rest[i]));
            }
        }
    }
}

proof fn lemma_value_map(entries: Seq<(String, serde_json::Value)>)
    requires
        distinct_keys(entries),
    ensures
        value_map(entries).dom().finite(),
        forall|k: Seq<char>| #[trigger]
            value_map(entries).contains_key(k) ==> exists|i: int|
                0 <= i < entries.len() && (#[trigger] entries[i]).0@ == k,
        forall|i: int|
            0 <= i < entries.len() ==> value_map(entries).contains_key(
                (#[trigger] entries[i]).0@,
            ) && value_map(entries)[entries[i].0@] == json_of(entries[i].1),
    decreases entries.len(),
{
    if entries.len() > 0 {
        let rest = entries.drop_last();
        assert(distinct_keys(rest));
        lemma_value_map(rest);
        assert forall|k: Seq<char>| #[trigger] value_map(entries).contains_key(k) implies exists|
            i: int,
        |
            0 <= i < entries.len() && (#[trigger] entries[i]).0@ == k by {
            if k == entries.last().0@ {
                assert(entries[entries.len() - 1].0@ == k);
            } else {
                assert(value_map(rest).contains_key(k));
                let i = choose|i: int| 0 <= i < rest.len() && (#[trigger] rest[i]).0@ == k;
                assert(entries[i].0@ == k);
            }
        }
        assert forall|i: int| 0 <= i < entries.len() implies value_map(entries).contains_key(
            (#[trigger] entries[i]).0@,
        ) && value_map(entries)[entries[i].0@] == json_of(entries[i].1) by {
            if i < rest.len() {
                assert(rest[i] == entries[i]);
                assert(entries[i].0@ != entries[entries.len() - 1].0@);
            }
        }
    }
}

/// To replace the entry under a key is to insert under that key.
proof fn lemma_replace(
    entries: Seq<(String, serde_json::Value)>,
    j: int,
    entry: (String, serde_json::Value),
)
    requires
        distinct_keys(entries),
        0 <= j < entries.len(),
        entries[j].0@ == entry.0@,
    ensures
        distinct_keys(entries.update(j, entry)),
        value_map(entries.update(j, entry)) == value_map(entries).insert(
            entry.0@,
            json_of(entry.1),
        ),
    decreases entries.len(),
{
    let updated = entries.update(j, entry);
    let rest = entries.drop_last();
    assert forall|a: int, b: int| 0 <= a < b < updated.len() implies (#[trigger] updated[a]).0@ != (
    #[trigger] updated[b]).0@ by {
        assert(entries[a].0@ != entries[b].0@);
    }
    assert(distinct_keys(rest));
    if j == entries.len() - 1 {
        assert(updated.drop_last() =~= rest);
    } else {
        lemma_replace(rest, j, entry);
        assert(updated.drop_last() =~= rest.update(j, entry));
        assert(entries[j].0@ != entries[entries.len() - 1].0@);
    }
    assert(value_map(updated) =~= value_map(entries).insert(entry.0@, json_of(entry.1)));
}

/// Sets what stands under `key`, in the place of what stood there.
fn put(entries: &mut Vec<(String, serde_json::Value)>, key: &str, value: serde_json::Value)
    requires
        distinct_keys(old(entries)@),
    ensures
        distinct_keys(final(entries)@),
        value_map(final(entries)@) == value_map(old(entries)@).insert(key@, json_of(value)),
{
    let ghost before = entries@;
    let mut i: usize = 0;
    while i < entries.len()
        invariant
            entries@ == before,
            before == old(entries)@,
            distinct_keys(before),
            0 <= i <= before.len(),
            forall|j: int| 0 <= j < i ==> (#[trigger] before[j]).0@ != key@,
        decreases before.len() - i,
    {
        if text_eq(entries[i].0.as_str(), key) {
            let entry = (key.to_owned(), value);
            proof {
                lemma_replace(before, i as int, entry);
            }
            entries.set(i, entry);
            return;
        }
        i = i + 1;
    }
    entries.push((key.to_owned(), value));
    assert(entries@.drop_last() == before);
}

impl Json {
    /// The document that a `serde_json::Value` holds.
    pub fn from_value(v: serde_json::Value) -> (r: Json)
        ensures
            r@ == json_of(v),
        decreases json_of(v),
    {
        match open_value(v) {
            Node::Null => Json::Null,
            Node::Bool(b) => Json::Bool(b),
            Node::Number(n) => Json::Number(n),
            Node::Text(s) => Json::Text(s),
            Node::Array(items) => {
                let mut out: Vec<Json> = Vec::new();
                let ghost all = items@;
                for item in it: items
                    invariant
                        it.seq() == all,
                        json_of(v) == JsonView::Array(
                            all.map_values(|v: serde_json::Value| json_of(v)),
                        ),
                        out.len() == it.index(),
                        forall|i: int|
                            0 <= i < out.len() ==> json_view(#[trigger] out@[i]) == json_of(all[i]),
                {
                    proof {
                        let whole = json_of(v);
                        assert(whole->Array_0[it.index()] == json_of(item));
                        assert(decreases_to!(whole => whole->Array_0));
                        assert(decreases_to!(whole->Array_0 => whole->Array_0[it.index()]));
                    }
                    out.push(Json::from_value(item));
                }
                proof {
                    lemma_items_view(out@);
                    assert(items_view(out@) =~= all.map_values(
                        |v: serde_json::Value| json_of(v),
                    ));
                }
                Json::Array(out)
            },
            Node::Object(entries) => {
                let mut out: Vec<(String, Json)> = Vec::new();
                let ghost all = entries@;
                for entry in it: entries
                    invariant
                        it.seq() == all,
                        distinct_keys(all),
                        json_of(v) == JsonView::Object(value_map(all)),
                        entries_view(out@) == value_map(all.take(it.index())),
                {
                    let (key, value) = entry;
                    proof {
                        lemma_value_map(all);
                        let whole = json_of(v);
                        assert(all[it.index()].0@ == key@);
                        assert(whole->Object_0[key@] == json_of(value));
                        assert(decreases_to!(whole => whole->Object_0));
                        assert(decreases_to!(whole->Object_0 => whole->Object_0[key@]));
                        assert(all.take(it.index() + 1).drop_last() == all.take(it.index()));
                    }
                    let ghost before = out@;
                    out.push((key, Json::from_value(value)));
                    assert(out@.drop_last() == before);
                }
                assert(all.take(all.len() as int) == all);
                Json::Object(out)
            },
        }
    }
}

impl Json {
    /// The `serde_json::Value` of this document.
    pub fn to_value(&self) -> (r: serde_json::Value)
        ensures
            json_of(r) == self@,
        decreases self,
    {
        match self {
            Json::Null => close_value(Node::Null),
            Json::Bool(b) => close_value(Node::Bool(*b)),
            Json::Number(n) => close_value(Node::Number(copy_number(n))),
            Json::Text(s) => close_value(Node::Text(s.clone())),
            Json::Array(items) => {
                let mut out: Vec<serde_json::Value> = Vec::new();
                let mut i: usize = 0;
                while i < items.len()
                    invariant
                        *self == Json::Array(*items),
                        0 <= i <= items.len(),
                        out.len() == i,
                        forall|j: int|
                            0 <= j < i ==> json_of(#[trigger] out@[j]) == json_view(items@[j]),
                    decreases items.len() - i,
                {
                    proof {
                        assert(decreases_to!(*self => self->Array_0));
                        assert(decreases_to!(items => items@));
                        assert(decreases_to!(items@ => items@[i as int]));
                    }
                    out.push(items[i].to_value());
                    i = i + 1;
                }
                proof {
                    lemma_items_view(items@);
                    assert(out@.map_values(|v: serde_json::Value| json_of(v)) =~= items_view(
                        items@,
                    ));
                }
                close_value(Node::Array(out))
            },
            Json::Object(entries) => {
                let mut out: Vec<(String, serde_json::Value)> = Vec::new();
                let mut i: usize = 0;
                while i < entries.len()
                    invariant
                        *self == Json::Object(*entries),
                        0 <= i <= entries.len(),
                        distinct_keys(out@),
                        value_map(out@) == entries_view(entries@.take(i as int)),
                    decreases entries.len() - i,
                {
                    proof {
                        assert(decreases_to!(*self => self->Object_0));
                        assert(decreases_to!(entries => entries@));
                        assert(decreases_to!(entries@ => entries@[i as int]));
                        assert(decreases_to!(entries@[i as int] => entries@[i as int].1));
                        assert(entries@.take(i + 1).drop_last() == entries@.take(i as int));
                    }
                    let value = entries[i].1.to_value();
                    put(&mut out, entries[i].0.as_str(), value);
                    i = i + 1;
                }
                assert(entries@.take(entries.len() as int) == entries@);
                close_value(Node::Object(out))
            },
        }
    }

    /// A copy of this document.
    pub fn copy(&self) -> (r: Json)
        ensures
            r@ == self@,
    {
        Json::from_value(self.to_value())
    }

    /// Parses a text as JSON; an error is given by its message.
    pub fn parse(text: &str) -> (r: Result<Json, String>)
        ensures
            match r {
                Ok(j) => json_parse(text@) == Ok::<JsonView, Seq<char>>(j@),
                Err(e) => json_parse(text@) == Err::<JsonView, Seq<char>>(e@),
            },
    {
        match parse_value(text) {
            Ok(v) => Ok(Json::from_value(v)),
            Err(e) => Err(e),
        }
    }

    /// The compact text of this document.
    pub fn render(&self) -> (r: String)
        ensures
            r@ == json_text(self@),
            readable(self@, 127) ==> reads_as(r@, self@),
    {
        let v = self.to_value();
        value_text(&v)
    }

    /// A JSON string.
    pub fn string(s: &str) -> (r: Json)
        ensures
            r@ == JsonView::Text(s@),
    {
        Json::Text(s.to_owned())
    }

    /// A JSON integer.
    pub fn integer(n: i64) -> (r: Json)
        ensures
            r@ == JsonView::Number(int_view(n)),
            n == 0 ==> r@->Number_0.bits == 0,
            n == 1 ==> r@->Number_0.bits == 0x3ff0_0000_0000_0000,
    {
        let number = int_number(n);
        assert(number_of(number) == int_view(n));
        Json::Number(number)
    }

    /// The empty object.
    pub fn object() -> (r: Json)
        ensures
            r@ == JsonView::Object(Map::empty()),
    {
        let entries: Vec<(String, Json)> = Vec::new();
        assert(entries_view(entries@) == Map::<Seq<char>, JsonView>::empty());
        Json::Object(entries)
    }

    /// This object with `value` under `key`. Anything but an object stays as
    /// it is.
    pub fn with(self, key: &str, value: Json) -> (r: Json)
        ensures
            r@ == match self@ {
                JsonView::Object(m) => JsonView::Object(m.insert(key@, value@)),
                _ => self@,
            },
    {
        match self {
            Json::Object(entries) => {
                let mut entries = entries;
                let ghost before = entries@;
                entries.push((key.to_owned(), value));
                assert(entries@.drop_last() == before);
                Json::Object(entries)
            },
            other => other,
        }
    }

    /// The empty array.
    pub fn array() -> (r: Json)
        ensures
            r@ == JsonView::Array(seq![]),
    {
        let items: Vec<Json> = Vec::new();
        assert(items_view(items@) == Seq::<JsonView>::empty());
        Json::Array(items)
    }

    /// This array with `item` at its end. Anything but an array stays as it
    /// is.
    pub fn item(self, item: Json) -> (r: Json)
        ensures
            r@ == match self@ {
                JsonView::Array(items) => JsonView::Array(items.push(item@)),
                _ => self@,
            },
    {
        match self {
            Json::Array(items) => {
                let mut items = items;
                let ghost before = items@;
                items.push(item);
                assert(items@.drop_last() == before);
                Json::Array(items)
            },
            other => other,
        }
    }

    /// What stands under `key`, where this is an object with that key.
    pub fn get(&self, key: &str) -> (r: Option<&Json>)
        ensures
            match r {
                Some(j) => field(self@, key@) == Some(j@),
                None => field(self@, key@) is None,
            },
    {
        match self {
            Json::Object(entries) => {
                let mut i: usize = entries.len();
                assert(entries@.take(i as int) == entries@);
                while i > 0
                    invariant
                        *self == Json::Object(*entries),
                        0 <= i <= entries.len(),
                        entries_view(entries@).contains_key(key@) == entries_view(
                            entries@.take(i as int),
                        ).contains_key(key@),
                        entries_view(entries@).contains_key(key@) ==> entries_view(entries@)[key@]
                            == entries_view(entries@.take(i as int))[key@],
                    decreases i,
                {
                    assert(entries@.take(i as int).drop_last() == entries@.take(i - 1));
                    if text_eq(entries[i - 1].0.as_str(), key) {
                        return Some(&entries[i - 1].1);
                    }
                    i = i - 1;
                }
                None
            },
            _ => None,
        }
    }

    /// What stands under `key`, or null.
    pub fn at_key(&self, key: &str) -> (r: &Json)
        ensures
            r@ == key_of(self@, key@),
    {
        match self.get(key) {
            Some(j) => j,
            None => &Json::Null,
        }
    }

    /// The item at `index`, or null.
    pub fn at_index(&self, index: usize) -> (r: &Json)
        ensures
            r@ == item_of(self@, index as int),
    {
        match self {
            Json::Array(items) => {
                proof {
                    lemma_items_view(items@);
                }
                if index < items.len() {
                    &items[index]
                } else {
                    &Json::Null
                }
            },
            _ => &Json::Null,
        }
    }

    /// The text of a JSON string.
    pub fn as_str(&self) -> (r: Option<&str>)
        ensures
            match r {
                Some(s) => str_of(self@) == Some(s@),
                None => str_of(self@) is None,
            },
    {
        match self {
            Json::Text(s) => Some(s.as_str()),
            _ => None,
        }
    }

    /// Whether this is null.
    pub fn is_null(&self) -> (r: bool)
        ensures
            r == (self@ is Null),
    {
        match self {
            Json::Null => true,
            _ => false,
        }
    }
}

// ---------------------------------------------------------------------------
// Laws

/// What stands under a key of an object is what the object holds there; there
/// is nothing under any other key, nor in anything that is no object.
pub proof fn law_field(v: JsonView, key: Seq<char>)
    ensures
        v matches JsonView::Object(m) ==> {
            &&& m.contains_key(key) ==> field(v, key) == Some(m[key]) && key_of(v, key) == m[key]
            &&& !m.contains_key(key) ==> (field(v, key) is None) && key_of(v, key) == JsonView::Null
        },
        !(v is Object) ==> (field(v, key) is None) && key_of(v, key) == JsonView::Null,
{
}

/// An item of an array is the one at its index; beyond the end, and in
/// anything that is no array, there is none. Only a string has a text.
pub proof fn law_item(v: JsonView, i: int)
    ensures
        v matches JsonView::Array(items) ==> {
            &&& 0 <= i < items.len() ==> item_of(v, i) == items[i]
            &&& i >= items.len() ==> item_of(v, i) == JsonView::Null
        },
        !(v is Array) ==> item_of(v, i) == JsonView::Null,
        v matches JsonView::Text(s) ==> str_of(v) == Some(s),
        !(v is Text) ==> (str_of(v) is None),
{
}

/// An entry that is set later takes the place of an earlier one under the same
/// key, and leaves all others alone; an item that is added is the last one.
pub proof fn law_later_counts(
    entries: Seq<(String, Json)>,
    entry: (String, Json),
    items: Seq<Json>,
    item: Json,
)
    ensures
        entries_view(entries.push(entry))[entry.0@] == entry.1@,
        entries_view(entries.push(entry)).dom() == entries_view(entries).dom().insert(entry.0@),
        forall|k: Seq<char>|
            k != entry.0@ && #[trigger] entries_view(entries).contains_key(k) ==> entries_view(
                entries.push(entry),
            ).contains_key(k) && entries_view(entries.push(entry))[k] == entries_view(entries)[k],
        items_view(items.push(item)) == items_view(items).push(item@),
{
    assert(entries.push(entry).drop_last() =~= entries);
    assert(items.push(item).drop_last() =~= items);
}

/// A value is what its kind says: a truth value, a text, or a list of values in
/// their places.
pub proof fn law_json_view(j: Json, i: int)
    ensures
        j is Null ==> j@ == JsonView::Null,
        j matches Json::Bool(b) ==> j@ == JsonView::Bool(b),
        j matches Json::Number(n) ==> j@ == JsonView::Number(number_of(n)),
        j matches Json::Text(s) ==> j@ == JsonView::Text(s@),
        j matches Json::Array(items) ==> (j@ matches JsonView::Array(views) && views.len()
            == items@.len() && (0 <= i < items@.len() ==> views[i] == items@[i]@)),
        j is Object <==> j@ is Object,
{
    if let Json::Array(items) = j {
        lemma_items_at(items@, i);
    }
}

proof fn lemma_items_at(items: Seq<Json>, i: int)
    ensures
        items_view(items).len() == items.len(),
        0 <= i < items.len() ==> items_view(items)[i] == items[i]@,
    decreases items.len(),
{
    if items.len() > 0 {
        lemma_items_at(items.drop_last(), i);
    }
}

/// A whole number is written with its digits, behind a minus where it is less
/// than zero.
pub proof fn law_whole_number(n: i64)
    ensures
        n >= 0 ==> int_view(n).literal == decimal(n as nat),
        n < 0 ==> int_view(n).literal == seq!['-'] + decimal((-n) as nat),
{
}

} // verus!
