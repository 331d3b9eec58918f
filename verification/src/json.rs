//! JSON values as plain data, and the two places where text becomes a value and
//! a value becomes text.
//!
//! Reading and printing JSON text is `serde_json`'s work. The rest of the
//! library reads and builds values of [`Json`], whose meaning is [`JsonView`].
use vstd::prelude::*;
use serde_json::Value;
use crate::text::{
    dictionary_order_is_total, precedes, same_text, strict_dictionary_order_is_transitive,
};

pub mod laws;

verus! {

// ---------------------------------------------------------------------------
// Values
// ---------------------------------------------------------------------------

/// A JSON number: an integer in one of the two machine ranges, or any other number as
/// `serde_json` keeps it.
#[derive(Debug, PartialEq, Eq)]
pub enum JsonNumber {
    /// An integer that fits in `i64`.
    Int(i64),
    /// An integer above `i64::MAX` that fits in `u64`.
    Big(u64),
    /// Any other number.
    Float(serde_json::Number),
}

/// A JSON value.
#[derive(Debug, PartialEq, Eq)]
pub enum Json {
    Null,
    Bool(bool),
    Number(JsonNumber),
    Text(String),
    Array(Vec<Json>),
    Object(Vec<(String, Json)>),
}

/// What a [`JsonNumber`] holds.
pub enum NumberView {
    Int(i64),
    Big(u64),
    /// A number that is no integer of the two ranges, as it is printed.
    Float(Seq<char>),
}

/// What a [`Json`] holds.
pub enum JsonView {
    Null,
    Bool(bool),
    Number(NumberView),
    Text(Seq<char>),
    Array(Seq<JsonView>),
    Object(Seq<(Seq<char>, JsonView)>),
}

impl View for JsonNumber {
    type V = NumberView;

    open spec fn view(&self) -> NumberView {
        match self {
            JsonNumber::Int(n) => NumberView::Int(*n),
            JsonNumber::Big(n) => NumberView::Big(*n),
            JsonNumber::Float(n) => number_contents(*n),
        }
    }
}

/// What a value holds, its parts included.
pub open spec fn json_view(j: Json) -> JsonView
    decreases j,
{
    match j {
        Json::Null => JsonView::Null,
        Json::Bool(b) => JsonView::Bool(b),
        Json::Number(n) => JsonView::Number(n@),
        Json::Text(s) => JsonView::Text(s@),
        Json::Array(items) => JsonView::Array(
            Seq::new(
                items@.len(),
                |i: int|
                    if 0 <= i < items@.len() {
                        json_view(items@[i])
                    } else {
                        JsonView::Null
                    },
            ),
        ),
        Json::Object(entries) => JsonView::Object(
            Seq::new(
                entries@.len(),
                |i: int|
                    if 0 <= i < entries@.len() {
                        (entries@[i].0@, json_view(entries@[i].1))
                    } else {
                        (Seq::empty(), JsonView::Null)
                    },
            ),
        ),
    }
}

impl View for Json {
    type V = JsonView;

    open spec fn view(&self) -> JsonView {
        json_view(*self)
    }
}

impl JsonView {
    /// The value stored under `key`: that of the first entry of an object with
    /// this key. Values that are no objects have no keys.
    pub open spec fn field(self, key: Seq<char>) -> Option<JsonView> {
        match self {
            JsonView::Object(entries) => first_with_key(entries, key),
            _ => None,
        }
    }

    /// The characters, where the value is a text.
    pub open spec fn text(self) -> Option<Seq<char>> {
        match self {
            JsonView::Text(s) => Some(s),
            _ => None,
        }
    }

    /// The integer, where the value is one that fits in `i64`.
    pub open spec fn integer(self) -> Option<i64> {
        match self {
            JsonView::Number(NumberView::Int(n)) => Some(n),
            _ => None,
        }
    }

    /// The text stored under `key`, where there is one.
    pub open spec fn text_field(self, key: Seq<char>) -> Option<Seq<char>> {
        match self.field(key) {
            Some(v) => v.text(),
            None => None,
        }
    }

    /// The integer stored under `key`, where there is one.
    pub open spec fn int_field(self, key: Seq<char>) -> Option<i64> {
        match self.field(key) {
            Some(v) => v.integer(),
            None => None,
        }
    }
}

/// The value of the first entry whose key is `key`.
pub open spec fn first_with_key(entries: Seq<(Seq<char>, JsonView)>, key: Seq<char>) -> Option<
    JsonView,
>
    decreases entries.len(),
{
    if entries.len() == 0 {
        None
    } else if entries[0].0 == key {
        Some(entries[0].1)
    } else {
        first_with_key(entries.drop_first(), key)
    }
}

/// What the items of an array hold.
pub open spec fn item_views(items: Seq<Json>) -> Seq<JsonView> {
    Seq::new(items.len(), |i: int| items[i]@)
}

/// What the entries of an object hold.
pub open spec fn entry_views(entries: Seq<(String, Json)>) -> Seq<(Seq<char>, JsonView)> {
    Seq::new(entries.len(), |i: int| (entries[i].0@, entries[i].1@))
}

/// An entry with this key, where there is a value for it; else none.
pub open spec fn entry_if_some(key: Seq<char>, value: Option<JsonView>) -> Seq<
    (Seq<char>, JsonView),
> {
    match value {
        Some(value) => seq![(key, value)],
        None => Seq::empty(),
    }
}

/// A text, or null where there is none.
pub open spec fn text_or_null(text: Option<Seq<char>>) -> JsonView {
    match text {
        Some(text) => JsonView::Text(text),
        None => JsonView::Null,
    }
}

/// An integer, or null where there is none.
pub open spec fn int_or_null(n: Option<i64>) -> JsonView {
    match n {
        Some(n) => JsonView::Number(NumberView::Int(n)),
        None => JsonView::Null,
    }
}

/// Appends an entry to the entries of an object.
pub fn push_entry(entries: &mut Vec<(String, Json)>, key: &str, value: Json)
    ensures
        entry_views(final(entries)@) == entry_views(old(entries)@).push((key@, value@)),
{
    let ghost before = entries@;
    entries.push((key.to_owned(), value));
    assert(entry_views(entries@) =~= entry_views(before).push((key@, value@)));
}

impl JsonNumber {
    /// The same number once more.
    pub fn duplicate(&self) -> (copy: JsonNumber)
        ensures
            copy@ == self@,
    {
        match self {
            JsonNumber::Int(n) => JsonNumber::Int(*n),
            JsonNumber::Big(n) => JsonNumber::Big(*n),
            JsonNumber::Float(n) => JsonNumber::Float(copy_number(n)),
        }
    }
}

impl Json {
    /// A text value.
    pub fn text(s: &str) -> (j: Json)
        ensures
            j@ == JsonView::Text(s@),
    {
        Json::Text(s.to_owned())
    }

    /// A text, or null where there is none.
    pub fn text_or_null(s: &Option<String>) -> (j: Json)
        ensures
            j@ == text_or_null(
                match *s {
                    Some(s) => Some(s@),
                    None => None,
                },
            ),
    {
        match s {
            Some(s) => Json::Text(s.clone()),
            None => Json::Null,
        }
    }

    /// An integer, or null where there is none.
    pub fn int_or_null(n: Option<i64>) -> (j: Json)
        ensures
            j@ == int_or_null(n),
    {
        match n {
            Some(n) => Json::Number(JsonNumber::Int(n)),
            None => Json::Null,
        }
    }

    /// An array of these items.
    pub fn array(items: Vec<Json>) -> (j: Json)
        ensures
            j@ == JsonView::Array(item_views(items@)),
    {
        let j = Json::Array(items);
        assert(j@->Array_0 =~= item_views(items@));
        j
    }

    /// An object of these entries.
    pub fn object(entries: Vec<(String, Json)>) -> (j: Json)
        ensures
            j@ == JsonView::Object(entry_views(entries@)),
    {
        let j = Json::Object(entries);
        assert(j@->Object_0 =~= entry_views(entries@));
        j
    }

    /// The value stored under `key`, where this is an object that has the key.
    pub fn get(&self, key: &str) -> (found: Option<&Json>)
        ensures
            match found {
                Some(j) => self@.field(key@) == Some(j@),
                None => self@.field(key@) is None,
            },
    {
        match self {
            Json::Object(entries) => {
                let ghost all = self@->Object_0;
                let mut i: usize = 0;
                assert(all.skip(0) == all);
                while i < entries.len()
                    invariant
                        i <= entries@.len(),
                        self == Json::Object(*entries),
                        self@ == JsonView::Object(all),
                        all.len() == entries@.len(),
                        forall|k: int|
                            0 <= k < entries@.len() ==> #[trigger] all[k] == (
                                entries@[k].0@,
                                entries@[k].1@,
                            ),
                        first_with_key(all, key@) == first_with_key(all.skip(i as int), key@),
                    decreases entries@.len() - i,
                {
                    assert(all.skip(i as int)[0] == all[i as int]);
                    if same_text(entries[i].0.as_str(), key) {
                        return Some(&entries[i].1);
                    }
                    assert(all.skip(i as int).drop_first() == all.skip(i + 1));
                    i += 1;
                }
                None
            },
            _ => None,
        }
    }

    /// The string, where this is a text.
    pub fn as_str(&self) -> (s: Option<&str>)
        ensures
            match s {
                Some(s) => self@.text() == Some(s@),
                None => self@.text() is None,
            },
    {
        match self {
            Json::Text(s) => Some(s.as_str()),
            _ => None,
        }
    }

    /// The integer, where this is one that fits in `i64`.
    pub fn as_i64(&self) -> (n: Option<i64>)
        ensures
            n == self@.integer(),
    {
        match self {
            Json::Number(JsonNumber::Int(n)) => Some(*n),
            Json::Number(JsonNumber::Float(n)) => number_as_i64(n),
            _ => None,
        }
    }

    /// The string stored under `key`, where there is one.
    pub fn get_str(&self, key: &str) -> (s: Option<&str>)
        ensures
            match s {
                Some(s) => self@.text_field(key@) == Some(s@),
                None => self@.text_field(key@) is None,
            },
    {
        match self.get(key) {
            Some(value) => value.as_str(),
            None => None,
        }
    }

    /// The integer stored under `key`, where there is one.
    pub fn get_i64(&self, key: &str) -> (n: Option<i64>)
        ensures
            n == self@.int_field(key@),
    {
        match self.get(key) {
            Some(value) => value.as_i64(),
            None => None,
        }
    }

    /// The same value once more.
    pub fn duplicate(&self) -> (copy: Json)
        ensures
            copy@ == self@,
        decreases self,
    {
        match self {
            Json::Null => Json::Null,
            Json::Bool(b) => Json::Bool(*b),
            Json::Number(n) => Json::Number(n.duplicate()),
            Json::Text(s) => Json::Text(s.clone()),
            Json::Array(items) => {
                let mut copies: Vec<Json> = Vec::new();
                let mut i: usize = 0;
                while i < items.len()
                    invariant
                        i <= items@.len(),
                        self == Json::Array(*items),
                        copies@.len() == i,
                        forall|k: int| 0 <= k < i ==> (#[trigger] copies@[k])@ == items@[k]@,
                    decreases items@.len() - i,
                {
                    assert(decreases_to!(self => self->Array_0));
                    assert(decreases_to!(self->Array_0 => self->Array_0[i as int]));
                    copies.push(items[i].duplicate());
                    i += 1;
                }
                let copy = Json::Array(copies);
                assert(copy@->Array_0 =~= self@->Array_0);
                copy
            },
            Json::Object(entries) => {
                let mut copies: Vec<(String, Json)> = Vec::new();
                let mut i: usize = 0;
                while i < entries.len()
                    invariant
                        i <= entries@.len(),
                        self == Json::Object(*entries),
                        copies@.len() == i,
                        forall|k: int|
                            0 <= k < i ==> (#[trigger] copies@[k]).0@ == entries@[k].0@
                                && copies@[k].1@ == entries@[k].1@,
                    decreases entries@.len() - i,
                {
                    assert(decreases_to!(self => self->Object_0));
                    assert(decreases_to!(self->Object_0 => self->Object_0[i as int]));
                    assert(decreases_to!(self->Object_0[i as int] => self->Object_0[i as int].1));
                    copies.push((entries[i].0.clone(), entries[i].1.duplicate()));
                    i += 1;
                }
                let copy = Json::Object(copies);
                assert(copy@->Object_0 =~= self@->Object_0);
                copy
            },
        }
    }
}

impl Clone for Json {
    fn clone(&self) -> (copy: Self)
        ensures
            copy@ == self@,
    {
        self.duplicate()
    }
}

// ---------------------------------------------------------------------------
// Text to value and back
// ---------------------------------------------------------------------------

/// `serde_json::Value`, the tree that `serde_json` parses text into. Only the
/// functions below look inside one.
#[verifier::external_type_specification]
#[verifier::external_body]
pub struct ExValue(serde_json::Value);

/// `serde_json::Number`, a number in such a tree.
#[verifier::external_type_specification]
#[verifier::external_body]
pub struct ExNumber(serde_json::Number);

/// `serde_json::Map`, an object in such a tree.
#[verifier::external_type_specification]
#[verifier::external_body]
#[verifier::reject_recursive_types(K)]
#[verifier::reject_recursive_types(V)]
pub struct ExMap<K, V>(serde_json::Map<K, V>);

/// What a `serde_json::Value` holds: its variant and the contents of its number, array
/// or map.
pub uninterp spec fn value_contents(v: serde_json::Value) -> JsonView;

/// What a `serde_json::Number` holds: an integer that fits in `i64`, else one that fits in
/// `u64`, else the text that it prints as.
pub uninterp spec fn number_contents(n: serde_json::Number) -> NumberView;

/// What a `serde_json::Map` holds: its entries in the order of its keys.
pub uninterp spec fn map_contents(m: serde_json::Map<String, Value>) -> Seq<(Seq<char>, JsonView)>;

/// What `serde_json::from_str` makes of a text when asked for a value: the
/// contents of the value, or the message of the error.
pub uninterp spec fn parsed(text: Seq<char>) -> Result<JsonView, Seq<char>>;

/// What `serde_json::to_string_pretty` prints for a value with these contents.
pub uninterp spec fn pretty_printed(contents: JsonView) -> Seq<char>;

/// Whether the keys of entries are in ascending order, and none is there twice.
pub open spec fn ascending(entries: Seq<(Seq<char>, JsonView)>) -> bool {
    forall|i: int, k: int|
        0 <= i < k < entries.len() ==> precedes(
            (#[trigger] entries[i]).0,
            (#[trigger] entries[k]).0,
        )
}

/// Whether a value has the one form in which `serde_json` keeps it: the keys of each
/// object in ascending order and none twice, and integers in the narrower of the two ranges.
pub open spec fn canonical(j: JsonView) -> bool
    decreases j,
{
    match j {
        JsonView::Number(NumberView::Big(n)) => n > i64::MAX,
        JsonView::Array(items) => forall|i: int|
            0 <= i < items.len() ==> canonical(#[trigger] items[i]),
        JsonView::Object(entries) => {
            &&& forall|i: int| 0 <= i < entries.len() ==> canonical((#[trigger] entries[i]).1)
            &&& ascending(entries)
        },
        _ => true,
    }
}

/// Whether a text is a digit, a point and a digit.
pub open spec fn one_decimal(text: Seq<char>) -> bool {
    &&& text.len() == 3
    &&& '0' <= text[0] <= '9'
    &&& text[1] == '.'
    &&& '0' <= text[2] <= '9'
}

/// Calls `serde_json::from_str` for a `serde_json::Value`. Claims that the result
/// depends on the text alone: the contents of the value, or the displayed error; and that
/// a digit, a point and a digit are read as the number that prints as just that.
#[verifier::external_body]
fn parse_value(text: &str) -> (r: Result<Value, String>)
    ensures
        (match r {
            Ok(v) => Ok(value_contents(v)),
            Err(e) => Err(e@),
        }) == parsed(text@),
        one_decimal(text@) ==> r is Ok && value_contents(r->Ok_0) == JsonView::Number(
            NumberView::Float(text@),
        ),
{
    serde_json::from_str::<Value>(text).map_err(|e| e.to_string())
}

/// Moves a `serde_json::Value` over into a [`Json`], variant by variant. Claims
/// that nothing of the contents is lost, and that they are canonical: a map is kept in the
/// order of its keys, and `serde_json::Number::as_i64` goes before
/// `serde_json::Number::as_u64`.
#[verifier::external_body]
fn json_of_value(v: Value) -> (j: Json)
    ensures
        j@ == value_contents(v),
        canonical(j@),
{
    match v {
        Value::Null => Json::Null,
        Value::Bool(b) => Json::Bool(b),
        Value::Number(n) => Json::Number(
            n.as_i64().map(JsonNumber::Int).or(n.as_u64().map(JsonNumber::Big)).unwrap_or(JsonNumber::Float(n)),
        ),
        Value::String(s) => Json::Text(s),
        Value::Array(items) => Json::Array(items.into_iter().map(json_of_value).collect()),
        Value::Object(map) => Json::Object(map.into_iter().map(|(k, v)| (k, json_of_value(v))).collect()),
    }
}

/// Calls `Clone::clone` of `serde_json::Number`. Claims that the copy holds the same, and
/// what is so of every such number: that an integer is never held in the wider range where it
/// fits in the narrower.
#[verifier::external_body]
fn copy_number(n: &serde_json::Number) -> (copy: serde_json::Number)
    ensures
        number_contents(copy) == number_contents(*n),
        canonical(JsonView::Number(number_contents(copy))),
{
    n.clone()
}

/// Calls `serde_json::Number::as_i64`. Claims that it gives the number where it is an integer
/// that fits in `i64`, and nothing where it is not.
#[verifier::external_body]
fn number_as_i64(n: &serde_json::Number) -> (r: Option<i64>)
    ensures
        r == JsonView::Number(number_contents(*n)).integer(),
{
    n.as_i64()
}

/// What a `serde_json::Value` is built of.
enum Part {
    Null,
    Bool(bool),
    Int(i64),
    Big(u64),
    Number(serde_json::Number),
    Text(String),
    Array(Vec<Value>),
    Object(serde_json::Map<String, Value>),
}

/// An integer that is not negative, in the narrower of the two ranges.
pub open spec fn narrowed(n: u64) -> NumberView {
    if n <= i64::MAX {
        NumberView::Int(n as i64)
    } else {
        NumberView::Big(n)
    }
}

/// The contents of a `serde_json::Value` that is built of this part.
spec fn part_contents(part: Part) -> JsonView {
    match part {
        Part::Null => JsonView::Null,
        Part::Bool(b) => JsonView::Bool(b),
        Part::Int(n) => JsonView::Number(NumberView::Int(n)),
        Part::Big(n) => JsonView::Number(narrowed(n)),
        Part::Number(n) => JsonView::Number(number_contents(n)),
        Part::Text(s) => JsonView::Text(s@),
        Part::Array(items) => JsonView::Array(
            Seq::new(items@.len(), |i: int| value_contents(items@[i])),
        ),
        Part::Object(map) => JsonView::Object(map_contents(map)),
    }
}

/// Builds a `serde_json::Value`: one of its variants around what it holds, and
/// `serde_json::Value::from` for an integer. Claims that the value then holds just that, an
/// integer in the narrower of the two ranges.
#[verifier::external_body]
fn build_value(part: Part) -> (v: Value)
    ensures
        value_contents(v) == part_contents(part),
{
    match part {
        Part::Null => Value::Null,
        Part::Bool(b) => Value::Bool(b),
        Part::Int(n) => Value::from(n),
        Part::Big(n) => Value::from(n),
        Part::Number(n) => Value::Number(n),
        Part::Text(s) => Value::String(s),
        Part::Array(items) => Value::Array(items),
        Part::Object(map) => Value::Object(map),
    }
}

/// Calls `serde_json::Map::new`. Claims that the map has no entries.
#[verifier::external_body]
fn new_map() -> (map: serde_json::Map<String, Value>)
    ensures
        map_contents(map) == Seq::<(Seq<char>, JsonView)>::empty(),
{
    serde_json::Map::new()
}

/// The entries of a map, which are in the order of their keys, once `value` is stored under
/// `key`: in its place among them, or in the place of what was stored there.
pub open spec fn with_entry(
    entries: Seq<(Seq<char>, JsonView)>,
    key: Seq<char>,
    value: JsonView,
) -> Seq<(Seq<char>, JsonView)>
    decreases entries.len(),
{
    if entries.len() == 0 || precedes(entries.last().0, key) {
        entries.push((key, value))
    } else if entries.last().0 == key {
        entries.drop_last().push((key, value))
    } else {
        with_entry(entries.drop_last(), key, value).push(entries.last())
    }
}

/// Calls `serde_json::Map::insert`. Claims that the value is stored under the key, in the
/// place of what was stored there, and that the other entries stay as they are.
#[verifier::external_body]
fn insert_entry(map: &mut serde_json::Map<String, Value>, key: String, value: Value)
    ensures
        map_contents(*final(map)) == with_entry(
            map_contents(*old(map)),
            key@,
            value_contents(value),
        ),
{
    map.insert(key, value);
}

/// Calls `serde_json::to_string_pretty`. Claims that there is a text, since nothing that a
/// value holds and no write to memory is refused, and that it depends on the contents of the
/// value alone.
#[verifier::external_body]
fn print_value(v: &Value) -> (text: Option<String>)
    ensures
        text is Some,
        (text->0)@ == pretty_printed(value_contents(*v)),
{
    serde_json::to_string_pretty(v).ok()
}

/// What is left of a value once `serde_json` keeps it: the entries of each object in the
/// order of their keys, of those with one key only the last, and integers in the narrower of
/// the two ranges.
pub open spec fn kept(j: JsonView) -> JsonView
    decreases j,
{
    match j {
        JsonView::Number(NumberView::Big(n)) => JsonView::Number(narrowed(n)),
        JsonView::Array(items) => JsonView::Array(
            Seq::new(
                items.len(),
                |i: int|
                    if 0 <= i < items.len() {
                        kept(items[i])
                    } else {
                        JsonView::Null
                    },
            ),
        ),
        JsonView::Object(entries) => JsonView::Object(kept_entries(entries)),
        _ => j,
    }
}

/// What is left of the entries of an object.
pub open spec fn kept_entries(entries: Seq<(Seq<char>, JsonView)>) -> Seq<(Seq<char>, JsonView)>
    decreases entries,
{
    if entries.len() == 0 {
        Seq::empty()
    } else {
        proof {
            assert(decreases_to!(entries => entries[entries.len() - 1]));
            assert(decreases_to!(entries => entries.subrange(0, entries.len() - 1)));
        }
        with_entry(
            kept_entries(entries.drop_last()),
            entries[entries.len() - 1].0,
            kept(entries[entries.len() - 1].1),
        )
    }
}

/// A value in the one form in which `serde_json` keeps it is kept as it is.
pub proof fn canonical_values_are_kept(j: JsonView)
    requires
        canonical(j),
    ensures
        kept(j) == j,
    decreases j, 0nat,
{
    match j {
        JsonView::Array(items) => {
            assert forall|i: int| 0 <= i < items.len() implies kept(#[trigger] items[i])
                == items[i] by {
                assert(decreases_to!(j => j->Array_0));
                assert(decreases_to!(j->Array_0 => j->Array_0[i]));
                canonical_values_are_kept(items[i]);
            }
            assert(kept(j)->Array_0 =~= items);
        },
        JsonView::Object(entries) => {
            assert(decreases_to!(j => j->Object_0));
            lemma_canonical_entries(j, entries.len());
            assert(entries.take(entries.len() as int) =~= entries);
        },
        _ => {},
    }
}

/// The first `n` entries of an object in the one form are kept as they are.
proof fn lemma_canonical_entries(j: JsonView, n: nat)
    requires
        j is Object,
        canonical(j),
        n <= j->Object_0.len(),
    ensures
        kept_entries(j->Object_0.take(n as int)) == j->Object_0.take(n as int),
    decreases j->Object_0, n,
{
    let all = j->Object_0;
    if n > 0 {
        let some = all.take(n as int);
        lemma_canonical_entries(j, (n - 1) as nat);
        assert(some.drop_last() =~= all.take(n - 1));
        assert(decreases_to!(all => all[n - 1]));
        assert(decreases_to!(all[n - 1] => all[n - 1].1));
        canonical_values_are_kept(all[n - 1].1);
        if n > 1 {
            assert(precedes(all[n - 2].0, all[n - 1].0));
        }
        assert(with_entry(some.drop_last(), all[n - 1].0, all[n - 1].1) =~= some);
    } else {
        assert(all.take(0) =~= Seq::empty());
    }
}

/// What comes after all keys of a map and after a new one comes after all keys once it is
/// stored.
proof fn lemma_entries_below(
    entries: Seq<(Seq<char>, JsonView)>,
    key: Seq<char>,
    value: JsonView,
    above: Seq<char>,
)
    requires
        forall|i: int| 0 <= i < entries.len() ==> precedes((#[trigger] entries[i]).0, above),
        precedes(key, above),
    ensures
        forall|i: int|
            0 <= i < with_entry(entries, key, value).len() ==> precedes(
                (#[trigger] with_entry(entries, key, value)[i]).0,
                above,
            ),
    decreases entries.len(),
{
    let with = with_entry(entries, key, value);
    let fewer = entries.drop_last();
    if entries.len() > 0 && !precedes(entries.last().0, key) && entries.last().0 != key {
        assert forall|i: int| 0 <= i < fewer.len() implies precedes(
            (#[trigger] fewer[i]).0,
            above,
        ) by {
            assert(fewer[i] == entries[i]);
        }
        lemma_entries_below(fewer, key, value, above);
    }
    assert forall|i: int| 0 <= i < with.len() implies precedes((#[trigger] with[i]).0, above) by {
        if i < with.len() - 1 {
            if with == with_entry(fewer, key, value).push(entries.last()) {
                assert(with[i] == with_entry(fewer, key, value)[i]);
            } else {
                assert(with[i] == entries[i]);
            }
        } else if entries.len() > 0 {
            assert(precedes(entries[entries.len() - 1].0, above));
        }
    }
}

/// The keys of a map stay in ascending order, and values in the one form stay among such.
proof fn lemma_entries_stay_canonical(
    entries: Seq<(Seq<char>, JsonView)>,
    key: Seq<char>,
    value: JsonView,
)
    requires
        ascending(entries),
        forall|i: int| 0 <= i < entries.len() ==> canonical((#[trigger] entries[i]).1),
        canonical(value),
    ensures
        ascending(with_entry(entries, key, value)),
        forall|i: int|
            0 <= i < with_entry(entries, key, value).len() ==> canonical(
                (#[trigger] with_entry(entries, key, value)[i]).1,
            ),
    decreases entries.len(),
{
    let n = entries.len() as int;
    if n > 0 {
        let fewer = entries.drop_last();
        let last = entries[n - 1].0;
        assert forall|i: int| 0 <= i < n - 1 implies precedes((#[trigger] entries[i]).0, last) by {
            assert(precedes(entries[i].0, entries[n - 1].0));
        }
        if precedes(last, key) {
            assert forall|i: int| 0 <= i < n implies precedes((#[trigger] entries[i]).0, key) by {
                if i < n - 1 {
                    strict_dictionary_order_is_transitive(entries[i].0, last, key);
                }
            }
        } else if last != key {
            dictionary_order_is_total(last, key);
            assert(ascending(fewer));
            lemma_entries_stay_canonical(fewer, key, value);
            lemma_entries_below(fewer, key, value, last);
            assert(canonical(entries[n - 1].1));
        }
    }
}

/// What is left of a value has the one form.
pub proof fn what_is_kept_is_canonical(j: JsonView)
    ensures
        canonical(kept(j)),
    decreases j,
{
    match j {
        JsonView::Array(items) => {
            let all = kept(j)->Array_0;
            assert forall|i: int| 0 <= i < all.len() implies canonical(#[trigger] all[i]) by {
                assert(decreases_to!(j => j->Array_0));
                assert(decreases_to!(j->Array_0 => j->Array_0[i]));
                what_is_kept_is_canonical(items[i]);
            }
        },
        JsonView::Object(entries) => {
            assert(decreases_to!(j => j->Object_0));
            lemma_kept_entries_are_canonical(entries);
        },
        _ => {},
    }
}

/// What is left of the entries of an object has the one form.
proof fn lemma_kept_entries_are_canonical(entries: Seq<(Seq<char>, JsonView)>)
    ensures
        canonical(JsonView::Object(kept_entries(entries))),
    decreases entries,
{
    if entries.len() > 0 {
        let last = entries[entries.len() - 1];
        assert(decreases_to!(entries => entries[entries.len() - 1]));
        assert(decreases_to!(last => last.1));
        assert(decreases_to!(entries => entries.subrange(0, entries.len() - 1)));
        what_is_kept_is_canonical(last.1);
        lemma_kept_entries_are_canonical(entries.drop_last());
        lemma_entries_stay_canonical(kept_entries(entries.drop_last()), last.0, kept(last.1));
    }
}

/// Hands a value over to `serde_json`.
fn value_of_json(j: &Json) -> (v: Value)
    ensures
        value_contents(v) == kept(j@),
    decreases j,
{
    match j {
        Json::Null => build_value(Part::Null),
        Json::Bool(b) => build_value(Part::Bool(*b)),
        Json::Number(JsonNumber::Int(n)) => build_value(Part::Int(*n)),
        Json::Number(JsonNumber::Big(n)) => build_value(Part::Big(*n)),
        Json::Number(JsonNumber::Float(n)) => build_value(Part::Number(copy_number(n))),
        Json::Text(s) => build_value(Part::Text(s.clone())),
        Json::Array(items) => {
            let mut values: Vec<Value> = Vec::new();
            let mut i: usize = 0;
            while i < items.len()
                invariant
                    i <= items@.len(),
                    j == Json::Array(*items),
                    values@.len() == i,
                    forall|k: int|
                        0 <= k < i ==> value_contents(#[trigger] values@[k]) == kept(items@[k]@),
                decreases items@.len() - i,
            {
                assert(decreases_to!(j => j->Array_0));
                assert(decreases_to!(j->Array_0 => j->Array_0[i as int]));
                values.push(value_of_json(&items[i]));
                i += 1;
            }
            let v = build_value(Part::Array(values));
            assert(value_contents(v)->Array_0 =~= kept(j@)->Array_0);
            v
        },
        Json::Object(entries) => {
            let ghost all = j@->Object_0;
            let mut map = new_map();
            let mut i: usize = 0;
            assert(all.take(0) =~= Seq::empty());
            while i < entries.len()
                invariant
                    i <= entries@.len(),
                    j == Json::Object(*entries),
                    all == j@->Object_0,
                    map_contents(map) == kept_entries(all.take(i as int)),
                decreases entries@.len() - i,
            {
                assert(decreases_to!(j => j->Object_0));
                assert(decreases_to!(j->Object_0 => j->Object_0[i as int]));
                assert(decreases_to!(j->Object_0[i as int] => j->Object_0[i as int].1));
                let value = value_of_json(&entries[i].1);
                insert_entry(&mut map, entries[i].0.clone(), value);
                assert(all.take(i + 1).drop_last() =~= all.take(i as int));
                assert(all[i as int] == (entries@[i as int].0@, entries@[i as int].1@));
                i += 1;
            }
            assert(all.take(i as int) =~= all);
            build_value(Part::Object(map))
        },
    }
}

/// Parses a JSON text.
pub fn parse_json(text: &str) -> (r: Result<Json, String>)
    ensures
        (match r {
            Ok(j) => Ok(j@),
            Err(e) => Err(e@),
        }) == parsed(text@),
        r is Ok ==> canonical((r->Ok_0)@),
        one_decimal(text@) ==> parsed(text@) == Ok::<JsonView, Seq<char>>(
            JsonView::Number(NumberView::Float(text@)),
        ),
{
    match parse_value(text) {
        Ok(v) => Ok(json_of_value(v)),
        Err(e) => Err(e),
    }
}

/// What [`pretty`] gives for a value.
pub open spec fn pretty_text(j: JsonView) -> Seq<char> {
    pretty_printed(kept(j))
}

/// Prints a value as indented JSON that is readable in a terminal.
pub fn pretty(v: &Json) -> (text: String)
    ensures
        text@ == pretty_text(v@),
        canonical(v@) ==> text@ == pretty_printed(v@),
{
    proof {
        if canonical(v@) {
            canonical_values_are_kept(v@);
        }
    }
    match print_value(&value_of_json(v)) {
        Some(text) => text,
        None => "(unprintable)".to_owned(),
    }
}

} // verus!
