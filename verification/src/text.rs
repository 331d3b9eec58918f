//! Text helpers: comparison, joining, trimming, ordering and decimal rendering
//! of strings, each stated over the sequence of characters of a string.
use vstd::prelude::*;

pub mod laws;

verus! {

/// `String::push` of the standard library: appends one character to the end.
pub assume_specification[ String::push ](s: &mut String, c: char)
    ensures
        final(s)@ == old(s)@.push(c),
;

/// Whether two strings hold the same characters.
pub fn same_text(a: &str, b: &str) -> (same: bool)
    ensures
        same == (a@ == b@),
{
    a.to_owned() == b.to_owned()
}

/// The characters of a string, as a vector.
pub fn chars_of(s: &str) -> (chars: Vec<char>)
    ensures
        chars@ == s@,
{
    let mut chars: Vec<char> = Vec::new();
    for c in it: s.chars()
        invariant
            chars@ == it.seq().take(it.index()),
            it.seq() == s@,
    {
        chars.push(c);
        assert(it.seq().take(it.index() + 1) == it.seq().take(it.index()).push(c));
    }
    assert(s@.take(s@.len() as int) == s@);
    chars
}

/// The string that holds `chars[from]` up to, not including, `chars[to]`.
pub fn text_between(chars: &Vec<char>, from: usize, to: usize) -> (text: String)
    requires
        from <= to <= chars@.len(),
    ensures
        text@ == chars@.subrange(from as int, to as int),
{
    let mut text = String::new();
    let mut i: usize = from;
    assert(chars@.subrange(from as int, from as int) == Seq::<char>::empty());
    while i < to
        invariant
            from <= i <= to <= chars@.len(),
            text@ == chars@.subrange(from as int, i as int),
        decreases to - i,
    {
        text.push(chars[i]);
        assert(chars@.subrange(from as int, i + 1) == chars@.subrange(from as int, i as int).push(
            chars@[i as int],
        ));
        i += 1;
    }
    text
}

// ---------------------------------------------------------------------------
// Joining
// ---------------------------------------------------------------------------

/// The parts one after the other, with `separator` between any two of them.
pub open spec fn joined(parts: Seq<Seq<char>>, separator: Seq<char>) -> Seq<char>
    decreases parts.len(),
{
    if parts.len() == 0 {
        Seq::empty()
    } else if parts.len() == 1 {
        parts[0]
    } else {
        joined(parts.drop_last(), separator) + separator + parts.last()
    }
}

/// The characters of each string of a sequence.
pub open spec fn texts(parts: Seq<String>) -> Seq<Seq<char>> {
    Seq::new(parts.len(), |i: int| parts[i]@)
}

/// Joins strings with a separator between any two of them.
pub fn join(parts: &Vec<String>, separator: &str) -> (text: String)
    ensures
        text@ == joined(texts(parts@), separator@),
{
    let mut text = String::new();
    let mut i: usize = 0;
    let ghost all = texts(parts@);
    assert(all.take(0) == Seq::<Seq<char>>::empty());
    while i < parts.len()
        invariant
            i <= parts@.len(),
            all == texts(parts@),
            text@ == joined(all.take(i as int), separator@),
        decreases parts@.len() - i,
    {
        proof {
            assert(all.take(i + 1).drop_last() == all.take(i as int));
            assert(all.take(i + 1).last() == parts@[i as int]@);
            assert(all.take(1).len() == 1);
        }
        if i > 0 {
            text.append(separator);
        }
        text.append(parts[i].as_str());
        if i == 0 {
            assert(text@ == parts@[0]@);
            assert(all.take(1)[0] == parts@[0]@);
        }
        i += 1;
    }
    assert(all.take(all.len() as int) == all);
    text
}

// ---------------------------------------------------------------------------
// Trimming
// ---------------------------------------------------------------------------

/// `s` without the run of `c` at its end.
pub open spec fn without_trailing(s: Seq<char>, c: char) -> Seq<char>
    decreases s.len(),
{
    if s.len() > 0 && s.last() == c {
        without_trailing(s.drop_last(), c)
    } else {
        s
    }
}

/// Removes every `c` at the end of a string.
pub fn trim_trailing(s: &str, c: char) -> (text: String)
    ensures
        text@ == without_trailing(s@, c),
{
    let chars = chars_of(s);
    let mut end: usize = chars.len();
    assert(chars@.take(end as int) == s@);
    while end > 0 && chars[end - 1] == c
        invariant
            end <= chars@.len(),
            without_trailing(chars@.take(end as int), c) == without_trailing(s@, c),
        decreases end,
    {
        assert(chars@.take(end as int).drop_last() == chars@.take(end - 1));
        end -= 1;
    }
    assert(chars@.subrange(0, end as int) == chars@.take(end as int));
    text_between(&chars, 0, end)
}

/// What is left after trimming does not end in the trimmed character, and
/// trimming it once more changes nothing.
pub proof fn trimming_is_idempotent(s: Seq<char>, c: char)
    ensures
        without_trailing(s, c).len() > 0 ==> without_trailing(s, c).last() != c,
        without_trailing(without_trailing(s, c), c) == without_trailing(s, c),
    decreases s.len(),
{
    if s.len() > 0 && s.last() == c {
        trimming_is_idempotent(s.drop_last(), c);
    }
}

// ---------------------------------------------------------------------------
// Ordering
// ---------------------------------------------------------------------------

/// Whether `a` comes before `b` in the dictionary order of their characters.
pub open spec fn precedes(a: Seq<char>, b: Seq<char>) -> bool
    decreases a.len(),
{
    if b.len() == 0 {
        false
    } else if a.len() == 0 {
        true
    } else if a[0] == b[0] {
        precedes(a.drop_first(), b.drop_first())
    } else {
        a[0] < b[0]
    }
}

/// What comes before a text comes before all that comes after it.
pub proof fn strict_dictionary_order_is_transitive(a: Seq<char>, b: Seq<char>, c: Seq<char>)
    requires
        precedes(a, b),
        precedes(b, c),
    ensures
        precedes(a, c),
    decreases a.len(),
{
    if a.len() > 0 && a[0] == b[0] && b[0] == c[0] {
        strict_dictionary_order_is_transitive(a.drop_first(), b.drop_first(), c.drop_first());
    }
}

/// Of two different texts, exactly one comes first.
pub proof fn dictionary_order_is_total(a: Seq<char>, b: Seq<char>)
    ensures
        !(precedes(a, b) && precedes(b, a)),
        a != b ==> precedes(a, b) || precedes(b, a),
        !precedes(a, a),
    decreases a.len(),
{
    if a.len() > 0 {
        dictionary_order_is_total(a.drop_first(), a.drop_first());
    }
    if a.len() > 0 && b.len() > 0 && a[0] == b[0] {
        dictionary_order_is_total(a.drop_first(), b.drop_first());
        if a.drop_first() == b.drop_first() {
            assert(a =~= seq![a[0]] + a.drop_first());
            assert(b =~= seq![b[0]] + b.drop_first());
        }
    } else if a.len() == 0 && b.len() == 0 {
        assert(a =~= b);
    }
}

/// What does not come after something that does not come after a third does not come
/// after the third.
pub proof fn dictionary_order_is_transitive(a: Seq<char>, b: Seq<char>, c: Seq<char>)
    requires
        !precedes(b, a),
        !precedes(c, b),
    ensures
        !precedes(c, a),
    decreases a.len(),
{
    if a.len() > 0 && b.len() > 0 && c.len() > 0 && a[0] == b[0] && b[0] == c[0] {
        dictionary_order_is_transitive(a.drop_first(), b.drop_first(), c.drop_first());
    }
}

/// Whether no text comes before an earlier one.
pub open spec fn in_order(parts: Seq<Seq<char>>) -> bool {
    forall|i: int, k: int|
        0 <= i < k < parts.len() ==> !precedes(#[trigger] parts[k], #[trigger] parts[i])
}

/// Whether `a` comes before `b` in the dictionary order of their characters.
pub fn comes_before(a: &str, b: &str) -> (r: bool)
    ensures
        r == precedes(a@, b@),
{
    let left = chars_of(a);
    let right = chars_of(b);
    let mut i: usize = 0;
    assert(a@.skip(0) =~= a@ && b@.skip(0) =~= b@);
    while i < left.len() && i < right.len()
        invariant
            i <= left@.len(),
            i <= right@.len(),
            left@ == a@,
            right@ == b@,
            precedes(a@, b@) == precedes(a@.skip(i as int), b@.skip(i as int)),
        decreases left@.len() - i,
    {
        let ghost x = a@.skip(i as int);
        let ghost y = b@.skip(i as int);
        assert(x[0] == a@[i as int] && y[0] == b@[i as int]);
        if left[i] != right[i] {
            return left[i] < right[i];
        }
        assert(x.drop_first() =~= a@.skip(i + 1));
        assert(y.drop_first() =~= b@.skip(i + 1));
        i += 1;
    }
    i < right.len()
}

/// Puts `item` into texts that are in order, so that they still are.
fn insert_in_order(sorted: &mut Vec<String>, item: String)
    requires
        in_order(texts(old(sorted)@)),
    ensures
        in_order(texts(final(sorted)@)),
        texts(final(sorted)@).to_multiset() == texts(old(sorted)@).to_multiset().insert(item@),
{
    let ghost before = texts(sorted@);
    let mut at: usize = sorted.len();
    while at > 0 && comes_before(item.as_str(), sorted[at - 1].as_str())
        invariant
            at <= sorted@.len(),
            before == texts(sorted@),
            in_order(before),
            forall|k: int| at <= k < before.len() ==> precedes(item@, #[trigger] before[k]),
        decreases at,
    {
        at -= 1;
        assert(before[at as int] == sorted@[at as int]@);
    }
    let ghost x = item@;
    proof {
        if at > 0 {
            assert(before[at - 1] == sorted@[at - 1]@);
        }
    }
    sorted.insert(at, item);
    let ghost after = texts(sorted@);
    proof {
        assert(after =~= before.insert(at as int, x));
        assert forall|i: int, k: int| 0 <= i < k < after.len() implies !precedes(
            #[trigger] after[k],
            #[trigger] after[i],
        ) by {
            if i < at && k == at {
                if i < at - 1 {
                    assert(!precedes(before[at - 1], before[i]));
                    dictionary_order_is_transitive(before[i], before[at - 1], x);
                }
            } else if i == at {
                assert(after[k] == before[k - 1]);
                dictionary_order_is_total(x, before[k - 1]);
            } else if k < at {
                assert(after[i] == before[i] && after[k] == before[k]);
            } else if i < at {
                assert(after[i] == before[i] && after[k] == before[k - 1]);
            } else {
                assert(after[i] == before[i - 1] && after[k] == before[k - 1]);
            }
        }
        broadcast use vstd::seq_lib::group_to_multiset_ensures;

        assert(after.remove(at as int) =~= before);
        assert(after[at as int] == x);
        assert(after.contains(x));
        assert(before.to_multiset() == after.to_multiset().remove(x));
        assert(after.to_multiset() =~= before.to_multiset().insert(x));
    }
}

/// The texts in dictionary order.
pub fn sort(items: Vec<String>) -> (sorted: Vec<String>)
    ensures
        in_order(texts(sorted@)),
        texts(sorted@).to_multiset() == texts(items@).to_multiset(),
{
    let ghost all = texts(items@);
    let mut sorted: Vec<String> = Vec::new();
    let mut i: usize = 0;
    assert(texts(sorted@) =~= all.take(0));
    while i < items.len()
        invariant
            i <= items@.len(),
            all == texts(items@),
            in_order(texts(sorted@)),
            texts(sorted@).to_multiset() == all.take(i as int).to_multiset(),
        decreases items@.len() - i,
    {
        insert_in_order(&mut sorted, items[i].clone());
        proof {
            broadcast use vstd::seq_lib::group_to_multiset_ensures;

            assert(all.take(i + 1) =~= all.take(i as int).push(all[i as int]));
        }
        i += 1;
    }
    assert(all.take(i as int) =~= all);
    sorted
}

/// The same texts can be put in dictionary order in one way only.
pub proof fn sorted_texts_are_determined(a: Seq<Seq<char>>, b: Seq<Seq<char>>)
    requires
        in_order(a),
        in_order(b),
        a.to_multiset() == b.to_multiset(),
    ensures
        a == b,
    decreases a.len(),
{
    broadcast use vstd::seq_lib::group_to_multiset_ensures;

    assert(a.len() == a.to_multiset().len() && b.len() == b.to_multiset().len());
    if a.len() > 0 {
        let x = a[0];
        let y = b[0];
        assert(a.contains(x) && b.contains(y));
        assert(b.to_multiset().count(x) > 0 && a.to_multiset().count(y) > 0);
        let i = choose|i: int| 0 <= i < b.len() && b[i] == x;
        let k = choose|k: int| 0 <= k < a.len() && a[k] == y;
        assert(!precedes(b[i], b[0]) || i == 0);
        assert(!precedes(a[k], a[0]) || k == 0);
        dictionary_order_is_total(x, y);
        assert(x == y);
        assert(a.remove(0) =~= a.drop_first());
        assert(b.remove(0) =~= b.drop_first());
        sorted_texts_are_determined(a.drop_first(), b.drop_first());
        assert(a =~= seq![x] + a.drop_first());
        assert(b =~= seq![y] + b.drop_first());
    } else {
        assert(a =~= b);
    }
}

// ---------------------------------------------------------------------------
// Decimal rendering
// ---------------------------------------------------------------------------

/// The character of one decimal digit.
pub open spec fn digit(d: nat) -> char {
    (('0' as nat) + d) as char
}

/// The decimal digits of a natural number, without leading zeros.
pub open spec fn decimal(n: nat) -> Seq<char>
    decreases n,
{
    if n < 10 {
        seq![digit(n)]
    } else {
        decimal(n / 10).push(digit(n % 10))
    }
}

/// A decimal number with a minus sign in front where it is negative.
pub open spec fn signed_decimal(n: int) -> Seq<char> {
    if n < 0 {
        seq!['-'] + decimal((-n) as nat)
    } else {
        decimal(n as nat)
    }
}

/// The character of one decimal digit.
fn digit_char(d: u128) -> (c: char)
    requires
        d < 10,
    ensures
        c == digit(d as nat),
{
    (48 + d as u8) as char
}

/// Renders an unsigned number in decimal.
pub fn render_unsigned(n: u128) -> (text: String)
    ensures
        text@ == decimal(n as nat),
    decreases n,
{
    if n < 10 {
        let mut text = String::new();
        text.push(digit_char(n));
        assert(text@ == seq![digit(n as nat)]);
        text
    } else {
        let mut text = render_unsigned(n / 10);
        text.push(digit_char(n % 10));
        text
    }
}

/// Renders a signed number in decimal.
pub fn render_signed(n: i64) -> (text: String)
    ensures
        text@ == signed_decimal(n as int),
{
    if n < 0 {
        let magnitude: u128 = (-(n as i128)) as u128;
        let mut text = String::new();
        text.push('-');
        text.append(render_unsigned(magnitude).as_str());
        assert(text@ == seq!['-'] + decimal((-(n as int)) as nat));
        text
    } else {
        render_unsigned(n as u128)
    }
}

} // verus!
