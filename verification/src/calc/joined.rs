//! What is made of a text that stands between brackets in a longer one.
use vstd::prelude::*;
use crate::calc::laws::{
    computes, lemma_both_leave_a_value, lemma_no_skip, lemma_span, lemma_value_is_ran, occurs,
    operations_are_ruled, ran, ruled, value_view, Operator,
};
use crate::calc::texts::{
    lemma_power_stays, lemma_product_stays, lemma_sum_stays, lemma_unary_stays,
};
use crate::calc::{
    arity_spec, atom, checked, closed_by, combined, constant_named, exponent_digits, fault,
    followed, height, is_digit_spec, is_letter_spec, is_mantissa_spec, is_name_part_spec,
    is_space_spec, is_value_of, lower_text, mantissa_end, name_end, named, number, number_end,
    pair_named, power, product, product_rest, program, program_keeps_to_the_stack, skip, stands,
    sum, sum_rest, unary, Class, Fault, Op, OpView, Pair, Phrase, Sign,
};

verus! {

/// Whether `t` stands in `s` at `pos`, with a closing bracket behind it.
#[verifier::opaque]
pub open spec fn embedded(s: Seq<char>, pos: nat, t: Seq<char>) -> bool {
    &&& occurs(s, pos, t)
    &&& stands(s, pos + t.len(), ')')
}

/// A phrase that starts `pos` characters further on.
spec fn moved(phrase: Phrase, pos: nat) -> Phrase {
    Phrase { end: phrase.end + pos, ..phrase }
}

proof fn lemma_skip_moved(s: Seq<char>, pos: nat, t: Seq<char>, k: nat)
    requires
        embedded(s, pos, t),
        k <= t.len(),
    ensures
        skip(s, pos + k) == pos + skip(t, k),
        k <= skip(t, k) <= t.len(),
{
    reveal(embedded);
    lemma_span(s, pos, t, k, |c: char| is_space_spec(c));
}

proof fn lemma_stands_moved(s: Seq<char>, pos: nat, t: Seq<char>, k: nat, c: char)
    requires
        embedded(s, pos, t),
        k <= t.len(),
    ensures
        c != ')' ==> stands(s, pos + k, c) == stands(t, k, c),
        stands(t, k, c) ==> stands(s, pos + k, c),
{
    reveal(embedded);
    if k < t.len() {
        assert(s[pos + k as int] == t[k as int]);
    }
}

proof fn lemma_number_moved(s: Seq<char>, pos: nat, t: Seq<char>, k: nat)
    requires
        embedded(s, pos, t),
        k < t.len(),
        is_mantissa_spec(t[k as int]),
    ensures
        number(s, pos + k).error is None == number(t, k).error is None,
        number(t, k).error is None ==> number(s, pos + k) == moved(number(t, k), pos),
{
    reveal(embedded);
    lemma_span(s, pos, t, k, |c: char| is_mantissa_spec(c));
    let m = mantissa_end(t, k);
    lemma_stands_moved(s, pos, t, m, 'e');
    lemma_stands_moved(s, pos, t, m, 'E');
    if stands(t, m, 'e') || stands(t, m, 'E') {
        lemma_stands_moved(s, pos, t, m + 1, '-');
        lemma_stands_moved(s, pos, t, m + 1, '+');
        let d = exponent_digits(t, m);
        assert(exponent_digits(s, pos + m) == pos + d);
        lemma_span(s, pos, t, d, |c: char| is_digit_spec(c));
    }
    let end = number_end(t, k);
    assert(number_end(s, pos + k) == pos + end);
    assert(s.subrange((pos + k) as int, (pos + end) as int) =~= t.subrange(k as int, end as int));
    assert(s.subrange((pos + k) as int, (pos + m) as int) =~= t.subrange(k as int, m as int));
}

proof fn lemma_sum_moved(s: Seq<char>, pos: nat, t: Seq<char>, k: nat)
    requires
        embedded(s, pos, t),
        k <= t.len(),
        sum(t, k).error is None,
    ensures
        sum(s, pos + k) == moved(sum(t, k), pos),
    decreases t.len() - k, 7int,
{
    lemma_product_stays(t, k);
    let first = product(t, k);
    lemma_product_moved(s, pos, t, k);
    lemma_sum_rest_moved(s, pos, t, first);
}

proof fn lemma_sum_rest_moved(s: Seq<char>, pos: nat, t: Seq<char>, left: Phrase)
    requires
        embedded(s, pos, t),
        left.end <= t.len(),
        left.error is None,
        sum_rest(t, left).error is None,
    ensures
        sum_rest(s, moved(left, pos)) == moved(sum_rest(t, left), pos),
    decreases t.len() - left.end, 6int,
{
    lemma_skip_moved(s, pos, t, left.end);
    let p = skip(t, left.end);
    lemma_stands_moved(s, pos, t, p, '+');
    lemma_stands_moved(s, pos, t, p, '-');
    if stands(t, p, '+') || stands(t, p, '-') {
        let op = if t[p as int] == '+' {
            OpView::Add
        } else {
            OpView::Subtract
        };
        let right = product(t, p + 1);
        let both = followed(left, right, op);
        lemma_product_stays(t, p + 1);
        lemma_product_moved(s, pos, t, p + 1);
        assert(followed(moved(left, pos), moved(right, pos), op) == moved(both, pos));
        lemma_sum_rest_moved(s, pos, t, both);
    }
}

proof fn lemma_product_moved(s: Seq<char>, pos: nat, t: Seq<char>, k: nat)
    requires
        embedded(s, pos, t),
        k <= t.len(),
        product(t, k).error is None,
    ensures
        product(s, pos + k) == moved(product(t, k), pos),
    decreases t.len() - k, 5int,
{
    lemma_power_stays(t, k);
    let first = power(t, k);
    lemma_power_moved(s, pos, t, k);
    lemma_product_rest_moved(s, pos, t, first);
}

proof fn lemma_product_rest_moved(s: Seq<char>, pos: nat, t: Seq<char>, left: Phrase)
    requires
        embedded(s, pos, t),
        left.end <= t.len(),
        left.error is None,
        product_rest(t, left).error is None,
    ensures
        product_rest(s, moved(left, pos)) == moved(product_rest(t, left), pos),
    decreases t.len() - left.end, 4int,
{
    lemma_skip_moved(s, pos, t, left.end);
    let p = skip(t, left.end);
    lemma_stands_moved(s, pos, t, p, '*');
    lemma_stands_moved(s, pos, t, p, '/');
    if stands(t, p, '*') || stands(t, p, '/') {
        let op = if t[p as int] == '*' {
            OpView::Multiply
        } else {
            OpView::Divide
        };
        let right = power(t, p + 1);
        let both = followed(left, right, op);
        lemma_power_stays(t, p + 1);
        lemma_power_moved(s, pos, t, p + 1);
        assert(followed(moved(left, pos), moved(right, pos), op) == moved(both, pos));
        lemma_product_rest_moved(s, pos, t, both);
    }
}

proof fn lemma_power_moved(s: Seq<char>, pos: nat, t: Seq<char>, k: nat)
    requires
        embedded(s, pos, t),
        k <= t.len(),
        power(t, k).error is None,
    ensures
        power(s, pos + k) == moved(power(t, k), pos),
    decreases t.len() - k, 3int,
{
    lemma_unary_stays(t, k);
    let base = unary(t, k);
    lemma_unary_moved(s, pos, t, k);
    lemma_skip_moved(s, pos, t, base.end);
    let p = skip(t, base.end);
    lemma_stands_moved(s, pos, t, p, '^');
    if stands(t, p, '^') {
        lemma_power_moved(s, pos, t, p + 1);
    }
}

proof fn lemma_unary_moved(s: Seq<char>, pos: nat, t: Seq<char>, k: nat)
    requires
        embedded(s, pos, t),
        k <= t.len(),
        unary(t, k).error is None,
    ensures
        unary(s, pos + k) == moved(unary(t, k), pos),
    decreases t.len() - k, 2int,
{
    lemma_skip_moved(s, pos, t, k);
    let p = skip(t, k);
    lemma_stands_moved(s, pos, t, p, '-');
    lemma_stands_moved(s, pos, t, p, '+');
    if stands(t, p, '-') || stands(t, p, '+') {
        lemma_unary_moved(s, pos, t, p + 1);
    } else {
        lemma_atom_moved(s, pos, t, p);
    }
}

proof fn lemma_closed_moved(s: Seq<char>, pos: nat, t: Seq<char>, inner: Phrase)
    requires
        embedded(s, pos, t),
        inner.end <= t.len(),
        closed_by(t, inner, ')').error is None,
    ensures
        closed_by(s, moved(inner, pos), ')') == moved(closed_by(t, inner, ')'), pos),
{
    lemma_skip_moved(s, pos, t, inner.end);
    lemma_stands_moved(s, pos, t, skip(t, inner.end), ')');
}

proof fn lemma_atom_moved(s: Seq<char>, pos: nat, t: Seq<char>, k: nat)
    requires
        embedded(s, pos, t),
        k <= t.len(),
        atom(t, k).error is None,
    ensures
        atom(s, pos + k) == moved(atom(t, k), pos),
    decreases t.len() - k, 1int,
{
    assert(k < t.len());
    lemma_stands_moved(s, pos, t, k, t[k as int]);
    if is_mantissa_spec(t[k as int]) {
        lemma_number_moved(s, pos, t, k);
    } else if is_letter_spec(t[k as int]) || t[k as int] == '_' {
        lemma_named_moved(s, pos, t, k);
    } else {
        lemma_sum_stays(t, k + 1);
        lemma_sum_moved(s, pos, t, k + 1);
        lemma_closed_moved(s, pos, t, sum(t, k + 1));
    }
}

proof fn lemma_name_moved(s: Seq<char>, pos: nat, t: Seq<char>, k: nat)
    requires
        embedded(s, pos, t),
        k <= t.len(),
    ensures
        name_end(s, pos + k) == pos + name_end(t, k),
        k <= name_end(t, k) <= t.len(),
        s.subrange((pos + k) as int, (pos + name_end(t, k)) as int) == t.subrange(
            k as int,
            name_end(t, k) as int,
        ),
{
    reveal(embedded);
    lemma_span(s, pos, t, k, |c: char| is_name_part_spec(c));
    let end = name_end(t, k);
    assert(s.subrange((pos + k) as int, (pos + end) as int) =~= t.subrange(k as int, end as int));
}

proof fn lemma_named_moved(s: Seq<char>, pos: nat, t: Seq<char>, k: nat)
    requires
        embedded(s, pos, t),
        k < t.len(),
        named(t, k).error is None,
    ensures
        named(s, pos + k) == moved(named(t, k), pos),
    decreases t.len() - k, 0int,
{
    lemma_name_moved(s, pos, t, k);
    let end = name_end(t, k);
    let name = lower_text(t.subrange(k as int, end as int));
    lemma_skip_moved(s, pos, t, end);
    let p = skip(t, end);
    lemma_stands_moved(s, pos, t, p, '(');
    if constant_named(name) is None {
        match pair_named(name) {
            Some(f) => {
                lemma_combined_moved(s, pos, t, p + 1, f);
            },
            None => {
                lemma_sum_stays(t, p + 1);
                lemma_sum_moved(s, pos, t, p + 1);
                lemma_closed_moved(s, pos, t, sum(t, p + 1));
            },
        }
    }
}

proof fn lemma_combined_moved(s: Seq<char>, pos: nat, t: Seq<char>, k: nat, f: Pair)
    requires
        embedded(s, pos, t),
        k <= t.len(),
        combined(t, k, f).error is None,
    ensures
        combined(s, pos + k, f) == moved(combined(t, k, f), pos),
    decreases t.len() - k, 8int,
{
    let first = sum(t, k);
    lemma_sum_stays(t, k);
    lemma_sum_moved(s, pos, t, k);
    lemma_skip_moved(s, pos, t, first.end);
    let p = skip(t, first.end);
    lemma_stands_moved(s, pos, t, p, ',');
    let second = sum(t, p + 1);
    lemma_sum_stays(t, p + 1);
    lemma_sum_moved(s, pos, t, p + 1);
    lemma_closed_moved(s, pos, t, second);
    let rest = closed_by(t, second, ')');
    assert(combined(t, k, f) == followed(first, rest, OpView::Combine(f)));
    assert(combined(s, pos + k, f) == followed(
        moved(first, pos),
        moved(rest, pos),
        OpView::Combine(f),
    ));
}

/// A text that is an expression is read in the same way between brackets.
pub proof fn lemma_between_brackets(s: Seq<char>, pos: nat, t: Seq<char>)
    requires
        program(t).error is None,
        stands(s, pos, '('),
        embedded(s, pos + 1, t),
    ensures
        unary(s, pos) == (Phrase {
            end: pos + t.len() + 2,
            code: program(t).code,
            error: None,
        }),
{
    let whole = sum(t, 0);
    lemma_sum_stays(t, 0);
    lemma_sum_moved(s, pos + 1, t, 0);
    lemma_skip_moved(s, pos + 1, t, whole.end);
    assert(skip(t, whole.end) == t.len());
    lemma_no_skip(s, pos);
    assert(stands(s, pos + 1 + t.len(), ')')) by {
        reveal(embedded);
    }
    assert(closed_by(s, moved(whole, pos + 1), ')').end == pos + t.len() + 2);
    assert(atom(s, pos) == closed_by(s, moved(whole, pos + 1), ')'));
}

// ---------------------------------------------------------------------------
// Texts put together
// ---------------------------------------------------------------------------

/// Two texts between brackets, with an operation between them.
pub open spec fn joined(a: Seq<char>, op: Operator, b: Seq<char>) -> Seq<char> {
    seq!['('] + a + seq![')', ' ', op.sign(), ' ', '('] + b + seq![')']
}

/// A text between brackets, with white space around them.
pub open spec fn bracketed(a: Seq<char>) -> Seq<char> {
    seq![' ', '('] + a + seq![')', ' ']
}

/// A text between brackets, with a minus sign in front.
pub open spec fn negated(a: Seq<char>) -> Seq<char> {
    seq!['-', '('] + a + seq![')']
}

/// What is read to the end of the text by itself is the whole sum.
proof fn lemma_read_to_the_end(s: Seq<char>, pos: nat, phrase: Phrase)
    requires
        unary(s, pos) == phrase,
        phrase.error is None,
        pos <= phrase.end,
        skip(s, phrase.end) == s.len(),
        phrase.end <= s.len(),
    ensures
        power(s, pos) == (Phrase { end: s.len(), ..phrase }),
        product(s, pos) == (Phrase { end: s.len(), ..phrase }),
        sum(s, pos) == (Phrase { end: s.len(), ..phrase }),
{
    let whole = Phrase { end: s.len(), ..phrase };
    lemma_no_skip(s, s.len());
    assert(power(s, pos) == whole);
    assert(product_rest(s, whole) == whole);
    assert(sum_rest(s, whole) == whole);
}

/// Two operands that take up the text, with an operation between them, are the whole sum.
proof fn lemma_operation_to_the_end(s: Seq<char>, a: Phrase, p: nat, op: Operator, b: Phrase)
    requires
        unary(s, 0) == a,
        a.error is None,
        skip(s, a.end) == p,
        stands(s, p, op.sign()),
        unary(s, p + 1) == b,
        b.error is None,
        b.end == s.len(),
    ensures
        sum(s, 0) == (Phrase {
            end: s.len(),
            code: (a.code + b.code).push(op.op()),
            error: None,
        }),
{
    let left = Phrase { end: p, ..a };
    let both = followed(left, b, op.op());
    lemma_no_skip(s, p);
    lemma_no_skip(s, s.len());
    lemma_read_to_the_end(s, p + 1, b);
    assert(sum_rest(s, both) == both);
    match op {
        Operator::Add | Operator::Subtract => {
            assert(power(s, 0) == left);
            assert(product_rest(s, left) == left);
            assert(product(s, 0) == left);
            assert(sum_rest(s, left) == sum_rest(s, both));
        },
        Operator::Multiply | Operator::Divide => {
            assert(power(s, 0) == left);
            assert(product_rest(s, both) == both);
            assert(product_rest(s, left) == both);
            assert(product(s, 0) == both);
        },
        Operator::Power => {
            assert(power(s, 0) == both);
            assert(product_rest(s, both) == both);
            assert(product(s, 0) == both);
        },
    }
}

/// Where the parts of two texts that are put together stand.
spec fn is_joined(s: Seq<char>, a: Seq<char>, op: Operator, b: Seq<char>) -> bool {
    &&& s.len() == a.len() + b.len() + 7
    &&& stands(s, 0, '(')
    &&& embedded(s, 1, a)
    &&& stands(s, a.len() + 2, ' ')
    &&& stands(s, a.len() + 3, op.sign())
    &&& stands(s, a.len() + 4, ' ')
    &&& stands(s, a.len() + 5, '(')
    &&& embedded(s, a.len() + 6, b)
}

proof fn lemma_joined_layout(a: Seq<char>, op: Operator, b: Seq<char>)
    ensures
        is_joined(joined(a, op, b), a, op, b),
{
    reveal(embedded);
}

/// One space is skipped where none follows it.
proof fn lemma_one_space(s: Seq<char>, pos: nat)
    requires
        stands(s, pos, ' '),
        pos + 1 < s.len() ==> !is_space_spec(s[(pos + 1) as int]),
    ensures
        skip(s, pos) == pos + 1,
{
    lemma_no_skip(s, pos + 1);
}

/// White space in front of an operand is skipped.
proof fn lemma_space_before(s: Seq<char>, pos: nat)
    requires
        skip(s, pos) == pos + 1,
        skip(s, pos + 1) == pos + 1,
    ensures
        unary(s, pos) == unary(s, pos + 1),
{
}

proof fn lemma_joined_read(s: Seq<char>, a: Seq<char>, op: Operator, b: Seq<char>)
    requires
        is_joined(s, a, op, b),
        program(a).error is None,
        program(b).error is None,
    ensures
        program(s) == (Phrase {
            end: s.len(),
            code: (program(a).code + program(b).code).push(op.op()),
            error: None,
        }),
{
    let p = a.len() + 3;
    let left = Phrase { end: a.len() + 2, code: program(a).code, error: None };
    let right = Phrase { end: s.len(), code: program(b).code, error: None };
    assert(unary(s, 0) == left) by {
        lemma_between_brackets(s, 0, a);
    }
    assert(unary(s, p + 1) == right) by {
        lemma_between_brackets(s, p + 2, b);
        lemma_one_space(s, p + 1);
        lemma_no_skip(s, p + 2);
        lemma_space_before(s, p + 1);
    }
    lemma_one_space(s, a.len() + 2);
    lemma_operation_to_the_end(s, left, p, op, right);
    lemma_no_skip(s, s.len());
}

/// The code of two texts that are put together is the code of the one, the code of the
/// other, and the operation.
pub proof fn joined_texts_are_read(a: Seq<char>, op: Operator, b: Seq<char>)
    requires
        program(a).error is None,
        program(b).error is None,
    ensures
        program(joined(a, op, b)) == (Phrase {
            end: joined(a, op, b).len(),
            code: (program(a).code + program(b).code).push(op.op()),
            error: None,
        }),
{
    lemma_joined_layout(a, op, b);
    lemma_joined_read(joined(a, op, b), a, op, b);
}

/// The code of a text between brackets is that of the text.
pub proof fn bracketed_texts_are_read(a: Seq<char>)
    requires
        program(a).error is None,
    ensures
        program(bracketed(a)) == (Phrase {
            end: bracketed(a).len(),
            code: program(a).code,
            error: None,
        }),
{
    let s = bracketed(a);
    let inner = Phrase { end: a.len() + 3, code: program(a).code, error: None };
    assert(embedded(s, 2, a)) by {
        reveal(embedded);
    }
    assert(unary(s, 0) == inner) by {
        lemma_between_brackets(s, 1, a);
        lemma_one_space(s, 0);
        lemma_no_skip(s, 1);
        lemma_space_before(s, 0);
    }
    lemma_one_space(s, inner.end);
    lemma_no_skip(s, s.len());
    lemma_read_to_the_end(s, 0, inner);
}

/// The code of a text between brackets with a minus sign in front is that of the text, and
/// the negation.
pub proof fn negated_texts_are_read(a: Seq<char>)
    requires
        program(a).error is None,
    ensures
        program(negated(a)) == (Phrase {
            end: negated(a).len(),
            code: program(a).code.push(OpView::Negate),
            error: None,
        }),
{
    let s = negated(a);
    let inner = Phrase { end: s.len(), code: program(a).code, error: None };
    assert(embedded(s, 2, a)) by {
        reveal(embedded);
    }
    lemma_between_brackets(s, 1, a);
    lemma_no_skip(s, 0);
    assert(unary(s, 1) == inner);
    lemma_no_skip(s, s.len());
    lemma_read_to_the_end(
        s,
        0,
        Phrase { code: inner.code.push(OpView::Negate), ..inner },
    );
}

// ---------------------------------------------------------------------------
// Values of texts put together
// ---------------------------------------------------------------------------

/// Code that keeps to the stack does not touch what lies below.
proof fn lemma_frame<N>(
    f: spec_fn(OpView, Seq<N>) -> Result<N, Seq<char>>,
    code: Seq<OpView>,
    base: Seq<N>,
    stack: Seq<N>,
)
    requires
        height(code, stack.len()) is Some,
    ensures
        ran(f, code, base + stack) == (match ran(f, code, stack) {
            Ok(after) => Ok(base + after),
            Err(m) => Err(m),
        }),
        ran(f, code, stack) matches Ok(after) ==> height(code, stack.len()) == Some(after.len()),
    decreases code.len(),
{
    if code.len() > 0 {
        lemma_frame(f, code.drop_last(), base, stack);
        if let Ok(before) = ran(f, code.drop_last(), stack) {
            let op = code.last();
            let kept = before.len() - arity_spec(op);
            let all = base + before;
            assert(all.skip(base.len() + kept) =~= before.skip(kept));
            assert(all.len() - arity_spec(op) == base.len() + kept);
            if let Ok(v) = f(op, before.skip(kept)) {
                assert(all.take(base.len() + kept).push(v) =~= base + before.take(kept).push(v));
            }
        }
    }
}

/// The code of a text leaves its value on top of whatever the stack holds.
proof fn lemma_value_on_top<N>(
    does: spec_fn(Op, Seq<N>, Result<N, String>) -> bool,
    f: spec_fn(OpView, Seq<N>) -> Result<N, Seq<char>>,
    input: Seq<char>,
    x: N,
    base: Seq<N>,
)
    requires
        computes(does, f),
        is_value_of(does, input, Ok(x)),
    ensures
        program(input).error is None,
        ran(f, program(input).code, base) == Ok::<Seq<N>, Seq<char>>(base.push(x)),
{
    lemma_value_is_ran(does, f, input, Ok(x));
    program_keeps_to_the_stack(input);
    lemma_frame(f, program(input).code, base, Seq::empty());
    assert(base + Seq::<N>::empty() =~= base);
    assert(base + seq![x] =~= base.push(x));
}

/// Where operations are functions, the value of two texts that are put together is that of
/// the operation on their values.
pub proof fn joined_texts_are_evaluated<N>(
    a: Seq<char>,
    op: Operator,
    b: Seq<char>,
    does: spec_fn(Op, Seq<N>, Result<N, String>) -> bool,
    f: spec_fn(OpView, Seq<N>) -> Result<N, Seq<char>>,
    x: N,
    y: N,
    r: Result<N, String>,
)
    requires
        computes(does, f),
        is_value_of(does, a, Ok(x)),
        is_value_of(does, b, Ok(y)),
        is_value_of(does, joined(a, op, b), r),
    ensures
        value_view(r) == f(op.op(), seq![x, y]),
{
    let empty = Seq::<N>::empty();
    lemma_value_on_top(does, f, a, x, empty);
    lemma_value_on_top(does, f, b, y, empty.push(x));
    joined_texts_are_read(a, op, b);
    assert(arity_spec(op.op()) == 2);
    lemma_both_leave_a_value(f, program(a).code, program(b).code, op.op(), empty, Ok(x), Ok(y));
    lemma_value_is_ran(does, f, joined(a, op, b), r);
    lemma_top(f(op.op(), seq![x, y]), r);
}

/// Where operations are functions, brackets and white space around a text keep its value.
pub proof fn bracketed_texts_are_evaluated<N>(
    a: Seq<char>,
    does: spec_fn(Op, Seq<N>, Result<N, String>) -> bool,
    f: spec_fn(OpView, Seq<N>) -> Result<N, Seq<char>>,
    x: N,
    r: Result<N, String>,
)
    requires
        computes(does, f),
        is_value_of(does, a, Ok(x)),
        is_value_of(does, bracketed(a), r),
    ensures
        value_view(r) == Ok::<N, Seq<char>>(x),
{
    lemma_value_on_top(does, f, a, x, Seq::empty());
    bracketed_texts_are_read(a);
    lemma_value_is_ran(does, f, bracketed(a), r);
    lemma_top(Ok(x), r);
}

/// Where operations are functions, a minus sign in front of a text between brackets negates
/// its value.
pub proof fn negated_texts_are_evaluated<N>(
    a: Seq<char>,
    does: spec_fn(Op, Seq<N>, Result<N, String>) -> bool,
    f: spec_fn(OpView, Seq<N>) -> Result<N, Seq<char>>,
    x: N,
    r: Result<N, String>,
)
    requires
        computes(does, f),
        is_value_of(does, a, Ok(x)),
        is_value_of(does, negated(a), r),
    ensures
        value_view(r) == f(OpView::Negate, seq![x]),
{
    let code = program(a).code;
    let empty = Seq::<N>::empty();
    lemma_value_on_top(does, f, a, x, empty);
    negated_texts_are_read(a);
    lemma_value_is_ran(does, f, negated(a), r);
    assert(code.push(OpView::Negate).drop_last() =~= code);
    assert(empty.push(x).skip(0) =~= seq![x]);
    assert(empty.push(x).take(0) =~= empty);
    lemma_top(f(OpView::Negate, seq![x]), r);
}

/// Of two outcomes with the same stack of one value, the values are the same.
proof fn lemma_top<N>(z: Result<N, Seq<char>>, r: Result<N, String>)
    requires
        (match z {
            Ok(v) => Ok::<Seq<N>, Seq<char>>(Seq::<N>::empty().push(v)),
            Err(m) => Err(m),
        }) == (match r {
            Ok(v) => Ok(seq![v]),
            Err(message) => Err(message@),
        }),
    ensures
        value_view(r) == z,
{
    if let Ok(v) = z {
        assert(Seq::<N>::empty().push(v)[0] == v);
    }
    if let Ok(w) = r {
        assert(seq![w][0] == w);
    }
}

/// The rules on domains refuse a zero divisor.
proof fn lemma_zero_divisor<N>(
    class: spec_fn(N) -> Class,
    shown: spec_fn(N) -> Seq<char>,
    g: spec_fn(OpView, Seq<N>) -> Result<N, Seq<char>>,
    x: N,
    y: N,
)
    requires
        class(y).sign == Sign::Zero,
    ensures
        ruled(class, shown, g)(Operator::Divide.op(), seq![x, y]) == Err::<N, Seq<char>>(
            "division by zero"@,
        ),
{
    let classes = seq![x, y].map_values(class);
    assert(classes.last() == class(y));
    assert(fault(OpView::Divide, classes) == Some(Fault::DivisionByZero));
}

/// Where operations are functions that ask the rules on domains first, a quotient of two
/// texts whose divisor is zero is refused.
pub proof fn zero_divisors_are_refused<N>(
    a: Seq<char>,
    b: Seq<char>,
    does: spec_fn(Op, Seq<N>, Result<N, String>) -> bool,
    class: spec_fn(N) -> Class,
    shown: spec_fn(N) -> Seq<char>,
    g: spec_fn(OpView, Seq<N>) -> Result<N, Seq<char>>,
    x: N,
    y: N,
    r: Result<N, String>,
)
    requires
        computes(does, ruled(class, shown, g)),
        is_value_of(does, a, Ok(x)),
        is_value_of(does, b, Ok(y)),
        class(y).sign == Sign::Zero,
        is_value_of(does, joined(a, Operator::Divide, b), r),
    ensures
        value_view(r) == Err::<N, Seq<char>>("division by zero"@),
{
    let f = ruled(class, shown, g);
    lemma_zero_divisor(class, shown, g, x, y);
    joined_texts_are_evaluated(a, Operator::Divide, b, does, f, x, y, r);
}

/// Where what is handed in are functions, texts that have values have values together: sums,
/// differences and products are those of the values, a quotient is that of the values unless
/// the divisor is zero, white space and brackets change nothing, and a minus sign negates.
pub proof fn texts_with_values_have_values_together<
    N,
    C: Fn(&N) -> Class,
    W: Fn(&N) -> String,
    A: Fn(&Op, &Vec<N>) -> Result<N, String>,
>(
    classify: C,
    show: W,
    arithmetic: A,
    class: spec_fn(N) -> Class,
    shown: spec_fn(N) -> Seq<char>,
    g: spec_fn(OpView, Seq<N>) -> Result<N, Seq<char>>,
    a: Seq<char>,
    b: Seq<char>,
    x: N,
    y: N,
    sum_of: Result<N, String>,
    difference: Result<N, String>,
    product_of: Result<N, String>,
    quotient: Result<N, String>,
    around: Result<N, String>,
    negative: Result<N, String>,
)
    requires
        forall|n: N, c: Class| #[trigger] call_ensures(classify, (&n,), c) ==> c == class(n),
        forall|n: N, t: String| #[trigger] call_ensures(show, (&n,), t) ==> t@ == shown(n),
        forall|op: Op, operands: Vec<N>, r: Result<N, String>| #[trigger]
            call_ensures(arithmetic, (&op, &operands), r) ==> g(op@, operands@) == value_view(r),
        is_value_of(checked(classify, show, arithmetic), a, Ok(x)),
        is_value_of(checked(classify, show, arithmetic), b, Ok(y)),
        is_value_of(
            checked(classify, show, arithmetic),
            joined(a, Operator::Add, b),
            sum_of,
        ),
        is_value_of(
            checked(classify, show, arithmetic),
            joined(a, Operator::Subtract, b),
            difference,
        ),
        is_value_of(
            checked(classify, show, arithmetic),
            joined(a, Operator::Multiply, b),
            product_of,
        ),
        is_value_of(
            checked(classify, show, arithmetic),
            joined(a, Operator::Divide, b),
            quotient,
        ),
        is_value_of(checked(classify, show, arithmetic), bracketed(a), around),
        is_value_of(checked(classify, show, arithmetic), negated(a), negative),
    ensures
        value_view(sum_of) == g(OpView::Add, seq![x, y]),
        value_view(difference) == g(OpView::Subtract, seq![x, y]),
        value_view(product_of) == g(OpView::Multiply, seq![x, y]),
        value_view(quotient) == (if class(y).sign == Sign::Zero {
            Err("division by zero"@)
        } else {
            g(OpView::Divide, seq![x, y])
        }),
        value_view(around) == Ok::<N, Seq<char>>(x),
        value_view(negative) == g(OpView::Negate, seq![x]),
{
    let does = checked(classify, show, arithmetic);
    let f = ruled(class, shown, g);
    operations_are_ruled(classify, show, arithmetic, class, shown, g);
    lemma_ruled(class, shown, g, x, y);
    joined_texts_are_evaluated(a, Operator::Add, b, does, f, x, y, sum_of);
    joined_texts_are_evaluated(a, Operator::Subtract, b, does, f, x, y, difference);
    joined_texts_are_evaluated(a, Operator::Multiply, b, does, f, x, y, product_of);
    joined_texts_are_evaluated(a, Operator::Divide, b, does, f, x, y, quotient);
    bracketed_texts_are_evaluated(a, does, f, x, around);
    negated_texts_are_evaluated(a, does, f, x, negative);
}

/// What the rules on domains leave of the four operations on two numbers, and of the negation
/// of one.
proof fn lemma_ruled<N>(
    class: spec_fn(N) -> Class,
    shown: spec_fn(N) -> Seq<char>,
    g: spec_fn(OpView, Seq<N>) -> Result<N, Seq<char>>,
    x: N,
    y: N,
)
    ensures
        ruled(class, shown, g)(OpView::Add, seq![x, y]) == g(OpView::Add, seq![x, y]),
        ruled(class, shown, g)(OpView::Subtract, seq![x, y]) == g(OpView::Subtract, seq![x, y]),
        ruled(class, shown, g)(OpView::Multiply, seq![x, y]) == g(OpView::Multiply, seq![x, y]),
        ruled(class, shown, g)(OpView::Negate, seq![x]) == g(OpView::Negate, seq![x]),
        ruled(class, shown, g)(OpView::Divide, seq![x, y]) == (if class(y).sign == Sign::Zero {
            Err("division by zero"@)
        } else {
            g(OpView::Divide, seq![x, y])
        }),
{
    if class(y).sign == Sign::Zero {
        lemma_zero_divisor(class, shown, g, x, y);
    } else {
        assert(seq![x, y].map_values(class).last() == class(y));
    }
}

} // verus!
