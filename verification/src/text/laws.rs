//! What joining, trimming, ordering and printing are for.
use vstd::prelude::*;
use crate::text::{
    chars_of, comes_before, decimal, dictionary_order_is_total, digit, join, joined, precedes,
    render_signed, render_unsigned, same_text, signed_decimal, sort, text_between, texts, trim_trailing,
    without_trailing,
};

verus! {

// ---------------------------------------------------------------------------
// Joining
// ---------------------------------------------------------------------------

/// Texts that are joined in two parts are joined with the separator between the parts.
pub proof fn joined_in_parts(a: Seq<Seq<char>>, b: Seq<Seq<char>>, separator: Seq<char>)
    ensures
        a.len() > 0 && b.len() > 0 ==> joined(a + b, separator) == joined(a, separator) + separator
            + joined(b, separator),
        a.len() == 0 ==> joined(a + b, separator) == joined(b, separator),
    decreases b.len(),
{
    if a.len() == 0 {
        assert(a + b =~= b);
    } else if b.len() == 1 {
        assert((a + b).drop_last() =~= a);
    } else if b.len() > 1 {
        joined_in_parts(a, b.drop_last(), separator);
        assert((a + b).drop_last() =~= a + b.drop_last());
        assert(joined(a + b, separator) =~= joined(a, separator) + separator + joined(
            b,
            separator,
        ));
    }
}

/// One text is joined to itself, and none to nothing.
pub proof fn single_texts_are_joined(text: Seq<char>, separator: Seq<char>)
    ensures
        joined(seq![text], separator) == text,
        joined(Seq::empty(), separator) == Seq::<char>::empty(),
{
}

/// How many characters texts hold together.
pub open spec fn total_len(parts: Seq<Seq<char>>) -> nat
    decreases parts.len(),
{
    if parts.len() == 0 {
        0
    } else {
        total_len(parts.drop_last()) + parts.last().len()
    }
}

/// Joining loses no character: all of each text, and a separator between any two.
pub proof fn joining_loses_nothing(parts: Seq<Seq<char>>, separator: Seq<char>)
    ensures
        joined(parts, separator).len() == total_len(parts) + (if parts.len() == 0 {
            0
        } else {
            (parts.len() - 1) * separator.len()
        }),
    decreases parts.len(),
{
    if parts.len() == 1 {
        assert(parts.drop_last() =~= Seq::<Seq<char>>::empty());
        assert(total_len(parts.drop_last()) == 0);
    } else if parts.len() > 1 {
        joining_loses_nothing(parts.drop_last(), separator);
        let n = parts.len() as int;
        let m = separator.len() as int;
        assert((n - 1) * m == (n - 2) * m + m) by (nonlinear_arith);
    }
}

/// Strings that are joined in two lots are joined as all of them are.
pub proof fn strings_are_joined_in_lots(
    first: Vec<String>,
    second: Vec<String>,
    all: Vec<String>,
    separator: &str,
    a: String,
    b: String,
    c: String,
)
    requires
        call_ensures(join, (&first, separator), a),
        call_ensures(join, (&second, separator), b),
        call_ensures(join, (&all, separator), c),
        all@ == first@ + second@,
        first@.len() > 0,
        second@.len() > 0,
    ensures
        c@ == a@ + separator@ + b@,
{
    joined_in_parts(texts(first@), texts(second@), separator@);
    assert(texts(all@) =~= texts(first@) + texts(second@));
}

/// One string is joined to itself, and none to nothing.
pub proof fn single_strings_are_joined(parts: Vec<String>, separator: &str, text: String)
    requires
        call_ensures(join, (&parts, separator), text),
    ensures
        parts@.len() == 1 ==> text@ == parts@[0]@,
        parts@.len() == 0 ==> text@.len() == 0,
{
    if parts@.len() == 1 {
        assert(texts(parts@)[0] == parts@[0]@);
    }
}

// ---------------------------------------------------------------------------
// Parts
// ---------------------------------------------------------------------------

/// The characters of a string are all of them, and a part of them is what stands there.
pub proof fn parts_are_what_stands_there(
    s: &str,
    chars: Vec<char>,
    from: usize,
    to: usize,
    part: String,
)
    requires
        call_ensures(chars_of, (s,), chars),
        from <= to <= chars@.len(),
        call_ensures(text_between, (&chars, from, to), part),
    ensures
        chars@.len() == s@.len(),
        part@.len() == to - from,
        forall|i: int| 0 <= i < to - from ==> #[trigger] part@[i] == s@[from + i],
{
}

// ---------------------------------------------------------------------------
// Trimming
// ---------------------------------------------------------------------------

/// What is trimmed off is a run of the character at the end, and all of it.
pub proof fn only_the_end_is_trimmed(s: Seq<char>, c: char)
    ensures
        without_trailing(s, c).is_prefix_of(s),
        forall|i: int| without_trailing(s, c).len() <= i < s.len() ==> #[trigger] s[i] == c,
        without_trailing(s, c).len() > 0 ==> without_trailing(s, c).last() != c,
    decreases s.len(),
{
    if s.len() > 0 && s.last() == c {
        only_the_end_is_trimmed(s.drop_last(), c);
        let left = without_trailing(s.drop_last(), c);
        assert(left.is_prefix_of(s));
        assert forall|i: int| left.len() <= i < s.len() implies #[trigger] s[i] == c by {
            if i < s.len() - 1 {
                assert(s.drop_last()[i] == c);
            }
        }
    }
}

/// What is trimmed off a string is a run of the character at its end, and all of it.
pub proof fn only_the_end_of_a_string_is_trimmed(s: &str, c: char, text: String)
    requires
        call_ensures(trim_trailing, (s, c), text),
    ensures
        text@.is_prefix_of(s@),
        forall|i: int| text@.len() <= i < s@.len() ==> #[trigger] s@[i] == c,
        text@.len() > 0 ==> text@.last() != c,
{
    only_the_end_is_trimmed(s@, c);
}

// ---------------------------------------------------------------------------
// Ordering
// ---------------------------------------------------------------------------

/// Whether two texts have the same characters before this position.
pub open spec fn same_until(a: Seq<char>, b: Seq<char>, at: int) -> bool {
    forall|i: int| 0 <= i < at ==> #[trigger] a[i] == b[i]
}

/// The dictionary order: a text comes before another if it is the start of it, or if it has
/// the smaller character where the two differ first; and not otherwise.
pub proof fn the_dictionary_order(a: Seq<char>, b: Seq<char>)
    ensures
        precedes(a, b) <==> {
            ||| a.len() < b.len() && a.is_prefix_of(b)
            ||| exists|at: int|
                0 <= at < a.len() && at < b.len() && #[trigger] same_until(a, b, at) && a[at]
                    < b[at]
        },
    decreases a.len(),
{
    if a.len() > 0 && b.len() > 0 {
        let c = a.drop_first();
        let d = b.drop_first();
        if a[0] == b[0] {
            the_dictionary_order(c, d);
            assert(a =~= seq![a[0]] + c);
            assert(b =~= seq![b[0]] + d);
            if c.is_prefix_of(d) {
                assert(a.is_prefix_of(b));
            }
            if a.is_prefix_of(b) {
                assert(a[0] == b[0]);
                assert forall|i: int| 0 <= i < c.len() implies #[trigger] c[i] == d[i] by {
                    assert(c[i] == a[i + 1] && d[i] == b[i + 1]);
                    assert(a[i + 1] == b.subrange(0, a.len() as int)[i + 1]);
                }
                assert(c =~= d.subrange(0, c.len() as int));
            }
            if exists|at: int|
                0 <= at < c.len() && at < d.len() && #[trigger] same_until(c, d, at) && c[at]
                    < d[at] {
                let at = choose|at: int|
                    0 <= at < c.len() && at < d.len() && #[trigger] same_until(c, d, at) && c[at]
                        < d[at];
                assert forall|i: int| 0 <= i < at + 1 implies #[trigger] a[i] == b[i] by {
                    if i > 0 {
                        assert(c[i - 1] == d[i - 1]);
                    }
                }
                assert(same_until(a, b, at + 1));
            }
            if exists|at: int|
                0 <= at < a.len() && at < b.len() && #[trigger] same_until(a, b, at) && a[at]
                    < b[at] {
                let at = choose|at: int|
                    0 <= at < a.len() && at < b.len() && #[trigger] same_until(a, b, at) && a[at]
                        < b[at];
                assert(at > 0);
                assert forall|i: int| 0 <= i < at - 1 implies #[trigger] c[i] == d[i] by {
                    assert(a[i + 1] == b[i + 1]);
                }
                assert(same_until(c, d, at - 1));
            }
        } else {
            if a[0] < b[0] {
                assert(same_until(a, b, 0));
            }
            if a.is_prefix_of(b) {
                assert(a[0] == b.subrange(0, a.len() as int)[0]);
            }
            assert forall|at: int|
                0 <= at < a.len() && at < b.len() && #[trigger] same_until(a, b, at) && a[at]
                    < b[at] implies a[0] < b[0] by {
                if at > 0 {
                    assert(a[0] == b[0]);
                }
            }
        }
    } else if a.len() == 0 && b.len() > 0 {
        assert(a =~= b.subrange(0, 0));
    }
}

/// Strings are compared in dictionary order.
pub proof fn strings_are_in_dictionary_order(a: &str, b: &str, first: bool)
    requires
        call_ensures(comes_before, (a, b), first),
    ensures
        first <==> {
            ||| a@.len() < b@.len() && a@.is_prefix_of(b@)
            ||| exists|at: int|
                0 <= at < a@.len() && at < b@.len() && #[trigger] same_until(a@, b@, at) && a@[at]
                    < b@[at]
        },
{
    the_dictionary_order(a@, b@);
}

/// Sorting keeps each string as often as it was there, and puts none before one that it comes
/// after.
pub proof fn sorting_only_changes_the_order(items: Vec<String>, sorted: Vec<String>)
    requires
        call_ensures(sort, (items,), sorted),
    ensures
        sorted@.len() == items@.len(),
        forall|t: Seq<char>| #[trigger]
            texts(sorted@).to_multiset().count(t) == texts(items@).to_multiset().count(t),
        forall|i: int, k: int|
            0 <= i < k < sorted@.len() ==> (#[trigger] sorted@[i])@ == (#[trigger] sorted@[k])@
                || precedes(sorted@[i]@, sorted@[k]@),
{
    broadcast use vstd::seq_lib::group_to_multiset_ensures;

    let all = texts(sorted@);
    assert(all.len() == all.to_multiset().len());
    assert(texts(items@).len() == texts(items@).to_multiset().len());
    assert forall|i: int, k: int| 0 <= i < k < sorted@.len() implies (#[trigger] sorted@[i])@ == (
    #[trigger] sorted@[k])@ || precedes(sorted@[i]@, sorted@[k]@) by {
        assert(!precedes(all[k], all[i]));
        dictionary_order_is_total(sorted@[i]@, sorted@[k]@);
    }
}

// ---------------------------------------------------------------------------
// Decimal rendering
// ---------------------------------------------------------------------------

/// The number that digits stand for.
pub open spec fn digits_value(s: Seq<char>) -> int
    decreases s.len(),
{
    if s.len() == 0 {
        0
    } else {
        digits_value(s.drop_last()) * 10 + (s.last() as int - '0' as int)
    }
}

/// Whether a text is a number as it is written by hand: digits, the first of which is no zero
/// unless it is the only one.
pub open spec fn is_numeral(s: Seq<char>) -> bool {
    &&& s.len() > 0
    &&& forall|i: int| 0 <= i < s.len() ==> '0' <= #[trigger] s[i] <= '9'
    &&& s.len() > 1 ==> s[0] != '0'
}

/// A number in decimal is a numeral that stands for the number.
pub proof fn decimals_are_read_back(n: nat)
    ensures
        is_numeral(decimal(n)),
        digits_value(decimal(n)) == n,
        n > 0 ==> decimal(n)[0] != '0',
    decreases n,
{
    let s = decimal(n);
    if n < 10 {
        assert(digit(n) as int == '0' as int + n);
        assert(s.drop_last() =~= Seq::<char>::empty());
        assert(digits_value(s.drop_last()) == 0);
    } else {
        decimals_are_read_back(n / 10);
        let head = decimal(n / 10);
        assert(digit(n % 10) as int == '0' as int + n % 10);
        assert(s.drop_last() =~= head);
        assert(s[0] == head[0]);
    }
}

/// Different numbers are printed differently.
pub proof fn decimals_differ(m: int, n: int)
    ensures
        signed_decimal(m) == signed_decimal(n) ==> m == n,
{
    if m >= 0 {
        decimals_are_read_back(m as nat);
    } else {
        decimals_are_read_back((-m) as nat);
        assert(signed_decimal(m)[0] == '-');
        assert(signed_decimal(m).drop_first() =~= decimal((-m) as nat));
    }
    if n >= 0 {
        decimals_are_read_back(n as nat);
    } else {
        decimals_are_read_back((-n) as nat);
        assert(signed_decimal(n)[0] == '-');
        assert(signed_decimal(n).drop_first() =~= decimal((-n) as nat));
    }
}

/// An unsigned number is printed as the numeral that stands for it.
pub proof fn printed_numbers_are_numerals(n: u128, text: String)
    requires
        call_ensures(render_unsigned, (n,), text),
    ensures
        is_numeral(text@),
        digits_value(text@) == n,
{
    decimals_are_read_back(n as nat);
}

/// A signed number is printed as the numeral that stands for it, with a minus sign in front
/// just where it is negative.
pub proof fn printed_signed_numbers_are_numerals(n: i64, text: String)
    requires
        call_ensures(render_signed, (n,), text),
    ensures
        n >= 0 ==> is_numeral(text@) && digits_value(text@) == n,
        n < 0 ==> text@.len() > 0 && text@[0] == '-' && is_numeral(text@.drop_first())
            && digits_value(text@.drop_first()) == -n,
{
    if n >= 0 {
        decimals_are_read_back(n as nat);
    } else {
        let m = (-(n as int)) as nat;
        decimals_are_read_back(m);
        assert(text@.drop_first() =~= decimal(m));
    }
}

/// The texts of strings are what the strings hold, in order.
pub proof fn texts_are_what_strings_hold(parts: Seq<String>)
    ensures
        texts(parts).len() == parts.len(),
        forall|i: int| 0 <= i < parts.len() ==> (#[trigger] texts(parts)[i]) == parts[i]@,
{
}

/// Two strings are the same just where they have the same characters in the same places.
pub proof fn same_strings_have_the_same_characters(a: &str, b: &str, same: bool)
    requires
        call_ensures(same_text, (a, b), same),
    ensures
        same <==> a@.len() == b@.len() && forall|i: int| 0 <= i < a@.len() ==> a@[i] == b@[i],
{
    if a@.len() == b@.len() && forall|i: int| 0 <= i < a@.len() ==> a@[i] == b@[i] {
        assert(a@ =~= b@);
    }
}

} // verus!
