//! What looking up, copying and keeping JSON values are for.
use vstd::prelude::*;
use crate::json::{
    ascending, canonical, entry_views, first_with_key, int_or_null, kept, kept_entries,
    number_contents, parse_json,
    parsed, pretty, pretty_printed, push_entry, text_or_null, what_is_kept_is_canonical, with_entry,
    Json, JsonNumber, JsonView, NumberView,
};
use crate::text::{dictionary_order_is_total, precedes};

verus! {

// ---------------------------------------------------------------------------
// Looking up
// ---------------------------------------------------------------------------

/// Whether the entry at this position is the first with its key.
pub open spec fn is_first(entries: Seq<(Seq<char>, JsonView)>, i: int) -> bool {
    forall|k: int| 0 <= k < i ==> (#[trigger] entries[k]).0 != entries[i].0
}

/// The value under a key of an object is that of the first entry with the key, and there is
/// none just where no entry has the key. What is no object has no keys.
pub proof fn values_are_found_by_key(j: JsonView, key: Seq<char>)
    ensures
        match j {
            JsonView::Object(entries) => match j.field(key) {
                Some(v) => exists|i: int|
                    0 <= i < entries.len() && #[trigger] entries[i] == (key, v) && is_first(
                        entries,
                        i,
                    ),
                None => forall|i: int| 0 <= i < entries.len() ==> (#[trigger] entries[i]).0 != key,
            },
            _ => j.field(key) is None,
        },
{
    if let JsonView::Object(entries) = j {
        lemma_first_with_key(entries, key);
    }
}

proof fn lemma_first_with_key(entries: Seq<(Seq<char>, JsonView)>, key: Seq<char>)
    ensures
        match first_with_key(entries, key) {
            Some(v) => exists|i: int|
                0 <= i < entries.len() && #[trigger] entries[i] == (key, v) && is_first(entries, i),
            None => forall|i: int| 0 <= i < entries.len() ==> (#[trigger] entries[i]).0 != key,
        },
    decreases entries.len(),
{
    if entries.len() > 0 {
        if entries[0].0 == key {
            assert(entries[0] == (key, entries[0].1));
            assert(is_first(entries, 0));
        } else {
            let rest = entries.drop_first();
            lemma_first_with_key(rest, key);
            match first_with_key(rest, key) {
                Some(v) => {
                    let i = choose|i: int|
                        0 <= i < rest.len() && #[trigger] rest[i] == (key, v) && is_first(rest, i);
                    assert(entries[i + 1] == rest[i]);
                    assert forall|k: int| 0 <= k < i + 1 implies (#[trigger] entries[k]).0
                        != entries[i + 1].0 by {
                        if k > 0 {
                            assert(rest[k - 1] == entries[k]);
                        }
                    }
                    assert(is_first(entries, i + 1));
                },
                None => {
                    assert forall|i: int| 0 <= i < entries.len() implies (#[trigger] entries[i]).0
                        != key by {
                        if i > 0 {
                            assert(rest[i - 1] == entries[i]);
                        }
                    }
                },
            }
        }
    }
}

/// A text is under a key just where the value under it is that text, and an integer just
/// where the value is that integer.
pub proof fn texts_and_integers_are_found_by_key(j: JsonView, key: Seq<char>)
    ensures
        match j.field(key) {
            Some(JsonView::Text(t)) => j.text_field(key) == Some(t) && j.int_field(key) is None,
            Some(JsonView::Number(NumberView::Int(n))) => j.int_field(key) == Some(n)
                && j.text_field(key) is None,
            _ => j.text_field(key) is None && j.int_field(key) is None,
        },
{
}

/// Looking up a key in a value gives what the first entry with the key holds.
pub proof fn lookups_find_the_first_entry(j: Json, key: &str, found: Option<&Json>)
    requires
        call_ensures(Json::get, (&j, key), found),
    ensures
        match j@ {
            JsonView::Object(entries) => match found {
                Some(v) => exists|i: int|
                    0 <= i < entries.len() && #[trigger] entries[i] == (key@, v@) && is_first(
                        entries,
                        i,
                    ),
                None => forall|i: int| 0 <= i < entries.len() ==> (#[trigger] entries[i]).0 != key@,
            },
            _ => found is None,
        },
{
    values_are_found_by_key(j@, key@);
}

/// Looking up a text or an integer gives what stands under the key, if it is of that kind.
pub proof fn lookups_find_texts_and_integers(
    j: Json,
    key: &str,
    s: Option<&str>,
    n: Option<i64>,
)
    requires
        call_ensures(Json::get_str, (&j, key), s),
        call_ensures(Json::get_i64, (&j, key), n),
    ensures
        match j@.field(key@) {
            Some(JsonView::Text(t)) => s is Some && (s->0)@ == t && n is None,
            Some(JsonView::Number(NumberView::Int(m))) => s is None && n == Some(m),
            _ => s is None && n is None,
        },
{
}

/// What entries are made of where each of these keys has a value or none.
pub open spec fn laid_out(parts: Seq<(Seq<char>, Option<JsonView>)>) -> Seq<(Seq<char>, JsonView)>
    decreases parts.len(),
{
    if parts.len() == 0 {
        Seq::empty()
    } else {
        match parts.last().1 {
            Some(value) => laid_out(parts.drop_last()).push((parts.last().0, value)),
            None => laid_out(parts.drop_last()),
        }
    }
}

/// Whether no key is there twice.
pub open spec fn keys_differ(parts: Seq<(Seq<char>, Option<JsonView>)>) -> bool {
    forall|i: int, k: int|
        0 <= i < k < parts.len() ==> (#[trigger] parts[i]).0 != (#[trigger] parts[k]).0
}

/// Behind entries stands what is put there, unless they have the key already.
proof fn lemma_pushed(
    entries: Seq<(Seq<char>, JsonView)>,
    key: Seq<char>,
    value: JsonView,
    asked: Seq<char>,
)
    ensures
        first_with_key(entries.push((key, value)), asked) == (match first_with_key(
            entries,
            asked,
        ) {
            Some(v) => Some(v),
            None => if key == asked {
                Some(value)
            } else {
                None
            },
        }),
    decreases entries.len(),
{
    reveal_with_fuel(first_with_key, 2);
    let more = entries.push((key, value));
    if entries.len() == 0 {
        assert(more.drop_first() =~= Seq::empty());
    } else {
        assert(more[0] == entries[0]);
        lemma_pushed(entries.drop_first(), key, value, asked);
        assert(more.drop_first() =~= entries.drop_first().push((key, value)));
    }
}

/// Entries that are laid out hold each value under its key, and nothing under others.
pub proof fn lemma_laid_out(parts: Seq<(Seq<char>, Option<JsonView>)>, key: Seq<char>)
    requires
        keys_differ(parts),
    ensures
        forall|i: int|
            0 <= i < parts.len() && (#[trigger] parts[i]).0 == key ==> first_with_key(
                laid_out(parts),
                key,
            ) == parts[i].1,
        (forall|i: int| 0 <= i < parts.len() ==> (#[trigger] parts[i]).0 != key) ==> first_with_key(
            laid_out(parts),
            key,
        ) is None,
    decreases parts.len(),
{
    if parts.len() > 0 {
        let fewer = parts.drop_last();
        let last = parts.len() - 1;
        assert forall|i: int, k: int| 0 <= i < k < fewer.len() implies (#[trigger] fewer[i]).0 != (
        #[trigger] fewer[k]).0 by {
            assert(fewer[i] == parts[i] && fewer[k] == parts[k]);
        }
        lemma_laid_out(fewer, key);
        if let Some(value) = parts[last].1 {
            lemma_pushed(laid_out(fewer), parts[last].0, value, key);
        }
        assert forall|i: int| 0 <= i < parts.len() && (#[trigger] parts[i]).0
            == key implies first_with_key(laid_out(parts), key) == parts[i].1 by {
            if i < last {
                assert(fewer[i] == parts[i]);
                assert(parts[i].0 != parts[last].0);
            } else {
                assert forall|k: int| 0 <= k < fewer.len() implies (#[trigger] fewer[k]).0
                    != key by {
                    assert(fewer[k] == parts[k]);
                    assert(parts[k].0 != parts[last].0);
                }
            }
        }
        if forall|i: int| 0 <= i < parts.len() ==> (#[trigger] parts[i]).0 != key {
            assert forall|k: int| 0 <= k < fewer.len() implies (#[trigger] fewer[k]).0 != key by {
                assert(fewer[k] == parts[k]);
            }
            assert(parts[last].0 != key);
        }
    }
}

/// A text stands for itself, and null for none; so does an integer.
pub proof fn absent_parts_are_null(text: Option<Seq<char>>, n: Option<i64>)
    ensures
        text_or_null(text).text() == text,
        text is None <==> text_or_null(text) is Null,
        int_or_null(n).integer() == n,
        n is None <==> int_or_null(n) is Null,
{
}

// ---------------------------------------------------------------------------
// Keeping
// ---------------------------------------------------------------------------

/// The integer that a value is, in whichever range it is held.
pub open spec fn integer_value(j: JsonView) -> Option<int> {
    match j {
        JsonView::Number(NumberView::Int(n)) => Some(n as int),
        JsonView::Number(NumberView::Big(n)) => Some(n as int),
        _ => None,
    }
}

/// Storing a value under a key of a map leaves it there, and changes nothing under others.
proof fn lemma_with_entry(
    entries: Seq<(Seq<char>, JsonView)>,
    key: Seq<char>,
    value: JsonView,
    asked: Seq<char>,
)
    requires
        ascending(entries),
    ensures
        first_with_key(with_entry(entries, key, value), asked) == (if asked == key {
            Some(value)
        } else {
            first_with_key(entries, asked)
        }),
    decreases entries.len(),
{
    let with = with_entry(entries, key, value);
    if entries.len() == 0 {
        lemma_pushed(entries, key, value, asked);
    } else {
        let fewer = entries.drop_last();
        let last = entries[entries.len() - 1];
        assert(entries =~= fewer.push(last));
        assert(ascending(fewer)) by {
            assert forall|i: int, k: int| 0 <= i < k < fewer.len() implies precedes(
                (#[trigger] fewer[i]).0,
                (#[trigger] fewer[k]).0,
            ) by {
                assert(fewer[i] == entries[i] && fewer[k] == entries[k]);
            }
        }
        lemma_pushed(fewer, last.0, last.1, asked);
        dictionary_order_is_total(last.0, last.0);
        if precedes(last.0, key) {
            lemma_pushed(entries, key, value, asked);
            if asked == key {
                lemma_first_with_key(entries, key);
                if first_with_key(entries, key) is Some {
                    let i = choose|i: int|
                        0 <= i < entries.len() && #[trigger] entries[i] == (
                            key,
                            first_with_key(entries, key)->0,
                        ) && is_first(entries, i);
                    if i < entries.len() - 1 {
                        assert(precedes(entries[i].0, last.0));
                    }
                    dictionary_order_is_total(key, last.0);
                }
            }
        } else if last.0 == key {
            lemma_pushed(fewer, key, value, asked);
            lemma_first_with_key(fewer, key);
            if first_with_key(fewer, key) is Some {
                let i = choose|i: int|
                    0 <= i < fewer.len() && #[trigger] fewer[i] == (
                        key,
                        first_with_key(fewer, key)->0,
                    ) && is_first(fewer, i);
                assert(entries[i] == fewer[i]);
                assert(precedes(entries[i].0, last.0));
            }
        } else {
            lemma_with_entry(fewer, key, value, asked);
            lemma_pushed(with_entry(fewer, key, value), last.0, last.1, asked);
        }
    }
}

/// What is left of an object holds the last value of each key, itself kept, and nothing else.
proof fn lemma_kept_entries(entries: Seq<(Seq<char>, JsonView)>, key: Seq<char>)
    ensures
        match first_with_key(kept_entries(entries), key) {
            Some(v) => exists|i: int|
                0 <= i < entries.len() && (#[trigger] entries[i]).0 == key && v == kept(
                    entries[i].1,
                ) && is_last(entries, i),
            None => forall|i: int| 0 <= i < entries.len() ==> (#[trigger] entries[i]).0 != key,
        },
    decreases entries.len(),
{
    if entries.len() > 0 {
        let fewer = entries.drop_last();
        let n = entries.len() - 1;
        let last = entries[n];
        lemma_kept_entries(fewer, key);
        what_is_kept_is_canonical(JsonView::Object(fewer));
        assert(ascending(kept_entries(fewer)));
        lemma_with_entry(kept_entries(fewer), last.0, kept(last.1), key);
        if last.0 == key {
            assert(is_last(entries, n));
        } else {
            match first_with_key(kept_entries(fewer), key) {
                Some(v) => {
                    let i = choose|i: int|
                        0 <= i < fewer.len() && (#[trigger] fewer[i]).0 == key && v == kept(
                            fewer[i].1,
                        ) && is_last(fewer, i);
                    assert(entries[i] == fewer[i]);
                    assert forall|k: int| i < k < entries.len() implies (#[trigger] entries[k]).0
                        != entries[i].0 by {
                        if k < n {
                            assert(fewer[k] == entries[k]);
                        }
                    }
                    assert(is_last(entries, i));
                },
                None => {
                    assert forall|i: int| 0 <= i < entries.len() implies (#[trigger] entries[i]).0
                        != key by {
                        if i < n {
                            assert(fewer[i] == entries[i]);
                        }
                    }
                },
            }
        }
    }
}

/// Whether the entry at this position is the last with its key.
pub open spec fn is_last(entries: Seq<(Seq<char>, JsonView)>, i: int) -> bool {
    forall|k: int| i < k < entries.len() ==> (#[trigger] entries[k]).0 != entries[i].0
}

/// What is left of a value once it is kept: of an object the last value of each key and
/// nothing else, of an array each item in its place, of an integer the same integer, and of
/// anything else itself.
pub proof fn keeping_keeps_what_counts(j: JsonView, key: Seq<char>)
    ensures
        match j {
            JsonView::Object(entries) => kept(j) is Object && match kept(j).field(key) {
                Some(v) => exists|i: int|
                    0 <= i < entries.len() && (#[trigger] entries[i]).0 == key && v == kept(
                        entries[i].1,
                    ) && is_last(entries, i),
                None => forall|i: int| 0 <= i < entries.len() ==> (#[trigger] entries[i]).0 != key,
            },
            JsonView::Array(items) => kept(j) is Array && (kept(j)->Array_0).len() == items.len()
                && forall|i: int|
                0 <= i < items.len() ==> #[trigger] (kept(j)->Array_0)[i] == kept(items[i]),
            JsonView::Number(NumberView::Big(_)) => integer_value(kept(j)) == integer_value(j),
            _ => kept(j) == j,
        },
{
    if let JsonView::Object(entries) = j {
        lemma_kept_entries(entries, key);
    }
}

/// A copy of a value holds the same.
pub proof fn copies_hold_the_same(j: Json, copy: Json)
    requires
        call_ensures(Json::duplicate, (&j,), copy),
    ensures
        copy@ == j@,
        canonical(copy@) == canonical(j@),
{
}

// ---------------------------------------------------------------------------
// Values
// ---------------------------------------------------------------------------

/// A value holds what it is built of.
pub proof fn values_hold_what_they_are_built_of(
    text: &str,
    some_text: Option<String>,
    n: Option<i64>,
    items: Vec<Json>,
    entries: Vec<(String, Json)>,
    of_text: Json,
    of_some_text: Json,
    of_n: Json,
    of_items: Json,
    of_entries: Json,
)
    requires
        call_ensures(Json::text, (text,), of_text),
        call_ensures(Json::text_or_null, (&some_text,), of_some_text),
        call_ensures(Json::int_or_null, (n,), of_n),
        call_ensures(Json::array, (items,), of_items),
        call_ensures(Json::object, (entries,), of_entries),
    ensures
        of_text@ == JsonView::Text(text@),
        match some_text {
            Some(t) => of_some_text@ == JsonView::Text(t@),
            None => of_some_text@ is Null,
        },
        match n {
            Some(n) => of_n@ == JsonView::Number(NumberView::Int(n)),
            None => of_n@ is Null,
        },
        of_items@ matches JsonView::Array(held) && held.len() == items@.len() && forall|i: int|
            0 <= i < held.len() ==> (#[trigger] held[i]) == items@[i]@,
        of_entries@ matches JsonView::Object(held) && held.len() == entries@.len() && forall|
            i: int,
        |
            0 <= i < held.len() ==> (#[trigger] held[i]).0 == entries@[i].0@ && held[i].1
                == entries@[i].1@,
{
}

/// A value is a text, or an integer that fits, just where it holds one.
pub proof fn values_are_what_they_hold(j: Json, s: Option<&str>, n: Option<i64>)
    requires
        call_ensures(Json::as_str, (&j,), s),
        call_ensures(Json::as_i64, (&j,), n),
    ensures
        match j@ {
            JsonView::Text(t) => s is Some && (s->0)@ == t && n is None,
            JsonView::Number(NumberView::Int(m)) => s is None && n == Some(m),
            _ => s is None && n is None,
        },
{
}

/// An entry is put behind those that are there, under its key, and those stay as they are.
pub proof fn entries_are_put_last(key: &str, value: Json)
    ensures
        forall|entries: &mut Vec<(String, Json)>| #[trigger]
            call_ensures(push_entry, (entries, key, value), ()) ==> {
                let before = entry_views((*entries)@);
                let after = entry_views((*final(entries))@);
                &&& after.len() == before.len() + 1
                &&& after.drop_last() == before
                &&& after.last().0 == key@
                &&& after.last().1 == value@
            },
{
    assert forall|entries: &mut Vec<(String, Json)>| #[trigger]
        call_ensures(push_entry, (entries, key, value), ()) implies {
        let before = entry_views((*entries)@);
        let after = entry_views((*final(entries))@);
        &&& after.len() == before.len() + 1
        &&& after.drop_last() == before
        &&& after.last().0 == key@
        &&& after.last().1 == value@
    } by {
        assert(entry_views((*final(entries))@).drop_last() =~= entry_views((*entries)@));
    }
}

/// A text is parsed to what it stands for, in the one form, or refused with the words of the
/// parser.
pub proof fn texts_are_parsed_as_they_stand(text: &str, r: Result<Json, String>)
    requires
        call_ensures(parse_json, (text,), r),
    ensures
        match parsed(text@) {
            Ok(j) => r is Ok && (r->Ok_0)@ == j && canonical(j),
            Err(e) => r is Err && (r->Err_0)@ == e,
        },
{
}

/// Two values that are kept in the same form are printed alike; one in that form already is
/// printed as it is.
pub proof fn values_are_printed_as_kept(a: Json, b: Json, of_a: String, of_b: String)
    requires
        call_ensures(pretty, (&a,), of_a),
        call_ensures(pretty, (&b,), of_b),
    ensures
        kept(a@) == kept(b@) ==> of_a@ == of_b@,
        canonical(a@) ==> of_a@ == pretty_printed(a@),
        of_a@ == pretty_printed(kept(a@)),
{
}

/// A value says what it holds.
pub proof fn values_say_what_they_hold(j: Json)
    ensures
        match j {
            Json::Null => j@ == JsonView::Null,
            Json::Bool(b) => j@ == JsonView::Bool(b),
            Json::Number(JsonNumber::Int(n)) => j@ == JsonView::Number(NumberView::Int(n)),
            Json::Number(JsonNumber::Big(n)) => j@ == JsonView::Number(NumberView::Big(n)),
            Json::Number(JsonNumber::Float(n)) => j@ == JsonView::Number(number_contents(n)),
            Json::Text(text) => j@ == JsonView::Text(text@),
            Json::Array(items) => j@ matches JsonView::Array(held) && held.len() == items@.len()
                && forall|i: int|
                0 <= i < held.len() ==> (#[trigger] held[i]) == items@[i]@,
            Json::Object(entries) => j@ matches JsonView::Object(held) && held.len()
                == entries@.len() && forall|i: int|
                0 <= i < held.len() ==> (#[trigger] held[i]).0 == entries@[i].0@ && held[i].1
                    == entries@[i].1@,
        },
{
}

} // verus!
