//! What holds of the texts that the grammar accepts, however they are written.
use vstd::prelude::*;
use crate::calc::{
    atom, closed_by, combined, constant_named, exponent_digits, followed, function_named,
    is_digit_spec, is_letter_spec, is_mantissa_spec, is_name_part_spec, is_number_spec,
    is_space_spec, is_value_of, lower_spec, lower_text, mantissa_end, name_end, named, number_end,
    pair_named, power, product, product_rest, program, skip, span_end, stands, sum, sum_rest,
    unary, Op, OpView, Pair, Phrase, SyntaxErrorView,
};

verus! {

// ---------------------------------------------------------------------------
// Characters and brackets
// ---------------------------------------------------------------------------

/// The characters of the grammar.
pub open spec fn is_grammatical(c: char) -> bool {
    ||| is_space_spec(c)
    ||| is_letter_spec(c)
    ||| is_digit_spec(c)
    ||| c == '.'
    ||| c == ','
    ||| c == '+'
    ||| c == '-'
    ||| c == '*'
    ||| c == '/'
    ||| c == '^'
    ||| c == '('
    ||| c == ')'
}

/// How many brackets are open at `to`, counted from `from` on.
pub open spec fn depth(s: Seq<char>, from: int, to: int) -> int
    decreases to - from,
{
    if to <= from {
        0
    } else if s[to - 1] == '(' {
        depth(s, from, to - 1) + 1
    } else if s[to - 1] == ')' {
        depth(s, from, to - 1) - 1
    } else {
        depth(s, from, to - 1)
    }
}

/// Whether a part of a text holds only characters of the grammar, and every bracket in it
/// is closed in it, and opened before that.
pub open spec fn tidy(s: Seq<char>, from: int, to: int) -> bool {
    &&& 0 <= from <= to <= s.len()
    &&& forall|i: int| from <= i < to ==> is_grammatical(#[trigger] s[i])
    &&& depth(s, from, to) == 0
    &&& forall|i: int| from <= i <= to ==> #[trigger] depth(s, from, i) >= 0
}

/// Whether a part of a text holds a letter or a digit.
pub open spec fn has_token(s: Seq<char>, from: int, to: int) -> bool {
    exists|i: int| from <= i < to && (is_letter_spec(#[trigger] s[i]) || is_digit_spec(s[i]))
}

/// Depths add up.
proof fn lemma_depth(s: Seq<char>, a: int, b: int, c: int)
    requires
        a <= b <= c,
    ensures
        depth(s, a, c) == depth(s, a, b) + depth(s, b, c),
    decreases c - b,
{
    if b < c {
        lemma_depth(s, a, b, c - 1);
    }
}

/// Two tidy parts in a row are tidy.
proof fn lemma_tidy_join(s: Seq<char>, a: int, b: int, c: int)
    requires
        tidy(s, a, b),
        tidy(s, b, c),
    ensures
        tidy(s, a, c),
{
    lemma_depth(s, a, b, c);
    assert forall|i: int| a <= i <= c implies #[trigger] depth(s, a, i) >= 0 by {
        if i > b {
            lemma_depth(s, a, b, i);
            assert(depth(s, b, i) >= 0);
        }
    }
}

/// Characters of the grammar without brackets are tidy.
proof fn lemma_tidy_plain(s: Seq<char>, a: int, b: int)
    requires
        0 <= a <= b <= s.len(),
        forall|i: int| a <= i < b ==> is_grammatical(#[trigger] s[i]) && s[i] != '(' && s[i] != ')',
    ensures
        tidy(s, a, b),
    decreases b - a,
{
    if a < b {
        lemma_tidy_plain(s, a, b - 1);
        assert forall|i: int| a <= i <= b implies #[trigger] depth(s, a, i) >= 0 by {
            if i == b {
                assert(s[b - 1] != '(' && s[b - 1] != ')');
            }
        }
    }
}

/// A tidy part between brackets is tidy.
proof fn lemma_tidy_brackets(s: Seq<char>, a: int, b: int)
    requires
        0 <= a,
        s[a] == '(',
        tidy(s, a + 1, b),
        b < s.len(),
        s[b] == ')',
    ensures
        tidy(s, a, b + 1),
{
    assert(depth(s, a, a) == 0);
    assert(depth(s, a, a + 1) == 1);
    lemma_depth(s, a, a + 1, b);
    assert(depth(s, a, b) == 1);
    assert(depth(s, a, b + 1) == 0);
    assert forall|i: int| a <= i <= b + 1 implies #[trigger] depth(s, a, i) >= 0 by {
        if a + 1 <= i <= b {
            lemma_depth(s, a, a + 1, i);
            assert(depth(s, a + 1, i) >= 0);
        }
    }
}

/// A letter or digit of a part is one of the whole.
proof fn lemma_token_inside(s: Seq<char>, a: int, from: int, to: int, b: int)
    requires
        a <= from,
        to <= b,
        has_token(s, from, to),
    ensures
        has_token(s, a, b),
{
    let i = choose|i: int| from <= i < to && (is_letter_spec(#[trigger] s[i]) || is_digit_spec(s[i]));
    assert(is_letter_spec(s[i]) || is_digit_spec(s[i]));
}

// ---------------------------------------------------------------------------
// Spans
// ---------------------------------------------------------------------------

/// A span holds only what passes.
proof fn lemma_span_passes(s: Seq<char>, pos: nat, p: spec_fn(char) -> bool)
    requires
        pos <= s.len(),
    ensures
        pos <= span_end(s, pos, p) <= s.len(),
        forall|i: int| pos <= i < span_end(s, pos, p) ==> p(#[trigger] s[i]),
        pos < s.len() && p(s[pos as int]) ==> pos < span_end(s, pos, p),
    decreases s.len() - pos,
{
    if pos < s.len() && p(s[pos as int]) {
        lemma_span_passes(s, pos + 1, p);
    }
}

/// White space is tidy.
proof fn lemma_skip_is_tidy(s: Seq<char>, pos: nat)
    requires
        pos <= s.len(),
    ensures
        pos <= skip(s, pos) <= s.len(),
        tidy(s, pos as int, skip(s, pos) as int),
{
    let p = |c: char| is_space_spec(c);
    lemma_span_passes(s, pos, p);
    assert forall|i: int| pos <= i < skip(s, pos) implies is_grammatical(#[trigger] s[i]) && s[i]
        != '(' && s[i] != ')' by {
        assert(p(s[i]));
    }
    lemma_tidy_plain(s, pos as int, skip(s, pos) as int);
}

/// Names that the grammar knows hold no underscore.
proof fn lemma_known_names(name: Seq<char>)
    requires
        constant_named(name) is Some || function_named(name) is Some || pair_named(name) is Some,
    ensures
        forall|i: int| 0 <= i < name.len() ==> #[trigger] name[i] != '_',
{
    reveal_strlit("pi");
    reveal_strlit("e");
    reveal_strlit("tau");
    reveal_strlit("sqrt");
    reveal_strlit("root");
    reveal_strlit("abs");
    reveal_strlit("sin");
    reveal_strlit("cos");
    reveal_strlit("tan");
    reveal_strlit("asin");
    reveal_strlit("acos");
    reveal_strlit("atan");
    reveal_strlit("exp");
    reveal_strlit("ln");
    reveal_strlit("log");
    reveal_strlit("log10");
    reveal_strlit("floor");
    reveal_strlit("ceil");
    reveal_strlit("round");
    reveal_strlit("min");
    reveal_strlit("max");
}

/// A name that the grammar knows is tidy, and holds a letter.
proof fn lemma_name_is_tidy(s: Seq<char>, pos: nat)
    requires
        pos < s.len(),
        is_letter_spec(s[pos as int]) || s[pos as int] == '_',
    ensures
        pos < name_end(s, pos) <= s.len(),
        ({
            let name = lower_text(s.subrange(pos as int, name_end(s, pos) as int));
            constant_named(name) is Some || function_named(name) is Some || pair_named(name) is Some
                ==> tidy(s, pos as int, name_end(s, pos) as int) && has_token(
                s,
                pos as int,
                name_end(s, pos) as int,
            )
        }),
{
    let p = |c: char| is_name_part_spec(c);
    lemma_span_passes(s, pos, p);
    let end = name_end(s, pos);
    let text = s.subrange(pos as int, end as int);
    let name = lower_text(text);
    if constant_named(name) is Some || function_named(name) is Some || pair_named(name) is Some {
        lemma_known_names(name);
        assert forall|i: int| pos <= i < end implies is_grammatical(#[trigger] s[i]) && s[i] != '('
            && s[i] != ')' by {
            assert(p(s[i]));
            assert(name[i - pos] == lower_spec(s[i]));
        }
        lemma_tidy_plain(s, pos as int, end as int);
        assert(name[0] == lower_spec(s[pos as int]));
    }
}

/// A number is tidy, and holds a digit.
proof fn lemma_number_is_tidy(s: Seq<char>, pos: nat)
    requires
        pos < s.len(),
        is_mantissa_spec(s[pos as int]),
    ensures
        pos < number_end(s, pos) <= s.len(),
        pos < mantissa_end(s, pos) <= number_end(s, pos),
        tidy(s, pos as int, number_end(s, pos) as int),
        is_number_spec(s.subrange(pos as int, mantissa_end(s, pos) as int)) ==> has_token(
            s,
            pos as int,
            number_end(s, pos) as int,
        ),
{
    let p = |c: char| is_mantissa_spec(c);
    let q = |c: char| is_digit_spec(c);
    lemma_span_passes(s, pos, p);
    let m = mantissa_end(s, pos);
    let end = number_end(s, pos);
    assert forall|i: int| pos <= i < m implies is_grammatical(#[trigger] s[i]) && s[i] != '(' && s[i]
        != ')' by {
        assert(p(s[i]));
    }
    if end > m {
        let k = exponent_digits(s, m);
        if k <= s.len() {
            lemma_span_passes(s, k, q);
        }
        assert forall|i: int| m <= i < end implies is_grammatical(#[trigger] s[i]) && s[i] != '('
            && s[i] != ')' by {
            if i >= k {
                assert(q(s[i]));
            }
        }
    }
    lemma_tidy_plain(s, pos as int, end as int);
    let text = s.subrange(pos as int, m as int);
    if is_number_spec(text) {
        let i = choose|i: int| 0 <= i < text.len() && is_digit_spec(#[trigger] text[i]);
        assert(s[pos + i] == text[i]);
    }
}

// ---------------------------------------------------------------------------
// Reading
// ---------------------------------------------------------------------------

/// Whether reading from `from` on to the end of `phrase` stayed in the text; and, if it had
/// no error, moved on over a tidy part with a letter or digit in it.
pub open spec fn read_well(s: Seq<char>, from: nat, phrase: Phrase) -> bool {
    &&& from <= phrase.end <= s.len()
    &&& phrase.error is None ==> {
        &&& from < phrase.end
        &&& tidy(s, from as int, phrase.end as int)
        &&& has_token(s, from as int, phrase.end as int)
    }
}

/// White space behind a phrase belongs to it.
proof fn lemma_space_behind(s: Seq<char>, from: nat, phrase: Phrase)
    requires
        read_well(s, from, phrase),
        phrase.error is None,
    ensures
        phrase.end <= skip(s, phrase.end) <= s.len(),
        read_well(s, from, Phrase { end: skip(s, phrase.end), ..phrase }),
{
    let p = skip(s, phrase.end);
    lemma_skip_is_tidy(s, phrase.end);
    lemma_tidy_join(s, from as int, phrase.end as int, p as int);
    lemma_token_inside(s, from as int, from as int, phrase.end as int, p as int);
}

/// What follows a phrase and the sign of an operation is read well with it.
proof fn lemma_read_both(s: Seq<char>, from: nat, left: Phrase, p: nat, right: Phrase)
    requires
        read_well(s, from, left),
        left.error is None,
        p == skip(s, left.end),
        p < s.len(),
        is_grammatical(s[p as int]),
        s[p as int] != '(',
        s[p as int] != ')',
        read_well(s, p + 1, right),
    ensures
        from <= right.end <= s.len(),
        right.error is None ==> {
            &&& from < right.end
            &&& tidy(s, from as int, right.end as int)
            &&& has_token(s, from as int, right.end as int)
        },
{
    lemma_space_behind(s, from, left);
    if right.error is None {
        lemma_tidy_plain(s, p as int, (p + 1) as int);
        lemma_tidy_join(s, from as int, p as int, (p + 1) as int);
        lemma_tidy_join(s, from as int, (p + 1) as int, right.end as int);
        lemma_token_inside(s, from as int, (p + 1) as int, right.end as int, right.end as int);
    }
}

/// What stands between brackets is read well with them.
proof fn lemma_read_closed(s: Seq<char>, open: nat, inner: Phrase)
    requires
        stands(s, open, '('),
        read_well(s, open + 1, inner),
    ensures
        read_well(s, open, closed_by(s, inner, ')')),
{
    if inner.error is None {
        lemma_space_behind(s, open + 1, inner);
        let p = skip(s, inner.end);
        if stands(s, p, ')') {
            lemma_tidy_brackets(s, open as int, p as int);
            lemma_token_inside(s, open as int, (open + 1) as int, p as int, (p + 1) as int);
        }
    }
}

proof fn lemma_sum_read(s: Seq<char>, pos: nat)
    requires
        pos <= s.len(),
    ensures
        read_well(s, pos, sum(s, pos)),
    decreases s.len() - pos, 7int,
{
    lemma_product_read(s, pos);
    let first = product(s, pos);
    if first.error is None {
        lemma_sum_rest_read(s, pos, first);
    }
}

proof fn lemma_sum_rest_read(s: Seq<char>, from: nat, left: Phrase)
    requires
        read_well(s, from, left),
        left.error is None,
    ensures
        read_well(s, from, sum_rest(s, left)),
    decreases s.len() - left.end, 6int,
{
    lemma_space_behind(s, from, left);
    let p = skip(s, left.end);
    if stands(s, p, '+') || stands(s, p, '-') {
        let right = product(s, p + 1);
        lemma_product_read(s, p + 1);
        lemma_read_both(s, from, left, p, right);
        let op = if s[p as int] == '+' {
            OpView::Add
        } else {
            OpView::Subtract
        };
        let both = followed(left, right, op);
        if both.error is None {
            lemma_sum_rest_read(s, from, both);
        }
    }
}

proof fn lemma_product_read(s: Seq<char>, pos: nat)
    requires
        pos <= s.len(),
    ensures
        read_well(s, pos, product(s, pos)),
    decreases s.len() - pos, 5int,
{
    lemma_power_read(s, pos);
    let first = power(s, pos);
    if first.error is None {
        lemma_product_rest_read(s, pos, first);
    }
}

proof fn lemma_product_rest_read(s: Seq<char>, from: nat, left: Phrase)
    requires
        read_well(s, from, left),
        left.error is None,
    ensures
        read_well(s, from, product_rest(s, left)),
    decreases s.len() - left.end, 4int,
{
    lemma_space_behind(s, from, left);
    let p = skip(s, left.end);
    if stands(s, p, '*') || stands(s, p, '/') {
        let right = power(s, p + 1);
        lemma_power_read(s, p + 1);
        lemma_read_both(s, from, left, p, right);
        let op = if s[p as int] == '*' {
            OpView::Multiply
        } else {
            OpView::Divide
        };
        let both = followed(left, right, op);
        if both.error is None {
            lemma_product_rest_read(s, from, both);
        }
    }
}

proof fn lemma_power_read(s: Seq<char>, pos: nat)
    requires
        pos <= s.len(),
    ensures
        read_well(s, pos, power(s, pos)),
    decreases s.len() - pos, 3int,
{
    lemma_unary_read(s, pos);
    let base = unary(s, pos);
    if base.error is None {
        lemma_space_behind(s, pos, base);
        let p = skip(s, base.end);
        if stands(s, p, '^') {
            lemma_power_read(s, p + 1);
            lemma_read_both(s, pos, base, p, power(s, p + 1));
        }
    }
}

proof fn lemma_unary_read(s: Seq<char>, pos: nat)
    requires
        pos <= s.len(),
    ensures
        read_well(s, pos, unary(s, pos)),
    decreases s.len() - pos, 2int,
{
    lemma_skip_is_tidy(s, pos);
    let p = skip(s, pos);
    if stands(s, p, '-') || stands(s, p, '+') {
        let operand = unary(s, p + 1);
        lemma_unary_read(s, p + 1);
        if operand.error is None {
            lemma_tidy_plain(s, p as int, (p + 1) as int);
            lemma_tidy_join(s, pos as int, p as int, (p + 1) as int);
            lemma_tidy_join(s, pos as int, (p + 1) as int, operand.end as int);
            lemma_token_inside(s, pos as int, (p + 1) as int, operand.end as int, operand.end as int);
        }
    } else {
        let operand = atom(s, p);
        lemma_atom_read(s, p);
        if operand.error is None {
            lemma_tidy_join(s, pos as int, p as int, operand.end as int);
            lemma_token_inside(s, pos as int, p as int, operand.end as int, operand.end as int);
        }
    }
}

proof fn lemma_atom_read(s: Seq<char>, pos: nat)
    requires
        pos <= s.len(),
    ensures
        read_well(s, pos, atom(s, pos)),
    decreases s.len() - pos, 1int,
{
    if pos < s.len() && is_mantissa_spec(s[pos as int]) {
        lemma_number_is_tidy(s, pos);
    } else if pos < s.len() && (is_letter_spec(s[pos as int]) || s[pos as int] == '_') {
        lemma_named_read(s, pos);
    } else if stands(s, pos, '(') {
        lemma_sum_read(s, pos + 1);
        lemma_read_closed(s, pos, sum(s, pos + 1));
    }
}

proof fn lemma_named_read(s: Seq<char>, pos: nat)
    requires
        pos < s.len(),
        is_letter_spec(s[pos as int]) || s[pos as int] == '_',
    ensures
        read_well(s, pos, named(s, pos)),
    decreases s.len() - pos, 0int,
{
    lemma_name_is_tidy(s, pos);
    let end = name_end(s, pos);
    let name = lower_text(s.subrange(pos as int, end as int));
    lemma_skip_is_tidy(s, end);
    let p = skip(s, end);
    if constant_named(name) is None && stands(s, p, '(') {
        let rest = match pair_named(name) {
            Some(f) => combined(s, p + 1, f),
            None => closed_by(s, sum(s, p + 1), ')'),
        };
        match pair_named(name) {
            Some(f) => {
                lemma_combined_read(s, p, f);
            },
            None => {
                lemma_sum_read(s, p + 1);
                lemma_read_closed(s, p, sum(s, p + 1));
            },
        }
        if named(s, pos).error is None {
            lemma_tidy_join(s, pos as int, end as int, p as int);
            lemma_tidy_join(s, pos as int, p as int, rest.end as int);
            lemma_token_inside(s, pos as int, pos as int, end as int, rest.end as int);
        }
    }
}

proof fn lemma_combined_read(s: Seq<char>, open: nat, f: Pair)
    requires
        stands(s, open, '('),
    ensures
        read_well(s, open, combined(s, open + 1, f)),
    decreases s.len() - open - 1, 8int,
{
    let first = sum(s, open + 1);
    lemma_sum_read(s, open + 1);
    if first.error is None {
        lemma_space_behind(s, open + 1, first);
        let p = skip(s, first.end);
        if stands(s, p, ',') {
            let second = sum(s, p + 1);
            lemma_sum_read(s, p + 1);
            lemma_read_both(s, open + 1, first, p, second);
            if second.error is None {
                lemma_read_closed(s, open, Phrase { code: first.code, ..second });
                assert(closed_by(s, second, ')').end == closed_by(
                    s,
                    Phrase { code: first.code, ..second },
                    ')',
                ).end);
            }
        }
    }
}

/// A text that is an expression is read to its end: it holds only characters of the grammar,
/// its brackets are balanced, and there is a letter or a digit in it.
pub proof fn accepted_texts_are_tidy(s: Seq<char>)
    requires
        program(s).error is None,
    ensures
        program(s).end == s.len(),
        tidy(s, 0, s.len() as int),
        has_token(s, 0, s.len() as int),
{
    lemma_sum_read(s, 0);
    lemma_space_behind(s, 0, sum(s, 0));
}

/// A text that has a value is tidy; so one with a character that is foreign to the grammar
/// has none.
pub proof fn texts_with_values_are_tidy<N>(
    does: spec_fn(Op, Seq<N>, Result<N, String>) -> bool,
    s: Seq<char>,
    r: Result<N, String>,
)
    requires
        is_value_of(does, s, r),
    ensures
        r is Ok ==> tidy(s, 0, s.len() as int) && has_token(s, 0, s.len() as int),
        (exists|i: int| 0 <= i < s.len() && !is_grammatical(#[trigger] s[i])) ==> r is Err,
{
    if r is Ok {
        accepted_texts_are_tidy(s);
    }
}

/// Reading never leaves the text, and moves on where it finds something.
pub proof fn reading_stays_in_the_text(s: Seq<char>, pos: nat)
    requires
        pos <= s.len(),
    ensures
        read_well(s, pos, sum(s, pos)),
        read_well(s, pos, unary(s, pos)),
        read_well(s, pos, atom(s, pos)),
{
    lemma_sum_read(s, pos);
    lemma_unary_read(s, pos);
    lemma_atom_read(s, pos);
}

/// Where only white space is left, an expression is missing at the end of the text.
pub proof fn white_space_is_no_expression(s: Seq<char>, pos: nat)
    requires
        pos <= s.len(),
        forall|i: int| pos <= i < s.len() ==> is_space_spec(#[trigger] s[i]),
    ensures
        sum(s, pos).error == Some(SyntaxErrorView::UnexpectedToken(s.len())),
        unary(s, pos).error == Some(SyntaxErrorView::UnexpectedToken(s.len())),
        unary(s, pos).end == s.len(),
        atom(s, skip(s, pos)).error == Some(SyntaxErrorView::UnexpectedToken(s.len())),
        atom(s, skip(s, pos)).end == s.len(),
    decreases s.len() - pos,
{
    if pos < s.len() {
        white_space_is_no_expression(s, pos + 1);
        assert(skip(s, pos) == skip(s, pos + 1));
    }
    lemma_skip_is_tidy(s, pos);
}

/// Reading a sum stays in the text.
pub proof fn lemma_sum_stays(s: Seq<char>, pos: nat)
    requires
        pos <= s.len(),
    ensures
        pos <= sum(s, pos).end <= s.len(),
        sum(s, pos).error is None ==> pos < sum(s, pos).end,
{
    lemma_sum_read(s, pos);
}

/// Reading a product stays in the text.
pub proof fn lemma_product_stays(s: Seq<char>, pos: nat)
    requires
        pos <= s.len(),
    ensures
        pos <= product(s, pos).end <= s.len(),
        product(s, pos).error is None ==> pos < product(s, pos).end,
{
    lemma_product_read(s, pos);
}

/// Reading a power stays in the text.
pub proof fn lemma_power_stays(s: Seq<char>, pos: nat)
    requires
        pos <= s.len(),
    ensures
        pos <= power(s, pos).end <= s.len(),
        power(s, pos).error is None ==> pos < power(s, pos).end,
{
    lemma_power_read(s, pos);
}

/// Reading an atom with its signs stays in the text.
pub proof fn lemma_unary_stays(s: Seq<char>, pos: nat)
    requires
        pos <= s.len(),
    ensures
        pos <= unary(s, pos).end <= s.len(),
        unary(s, pos).error is None ==> pos < unary(s, pos).end,
{
    lemma_unary_read(s, pos);
}

} // verus!
