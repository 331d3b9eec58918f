//! Where errors point, and which of several comes first.
use vstd::prelude::*;
use crate::calc::joined::{embedded, lemma_between_brackets};
use crate::calc::laws::{
    computes, lemma_no_skip, lemma_ran_in_parts, lemma_runs_are_ran, operations_are_ruled, ran, ruled, value_view,
    written_expressions_are_evaluated, written_expressions_are_read_at_each_level, written_expressions_are_read_back, Expr,
};
use crate::calc::{
    atom, checked, closed_by, code_view, combined, compile, constant_named, eval, evaluates,
    exponent_digits, followed, function_named, is_digit_spec, is_mantissa_spec, is_name_part_spec,
    is_name_start_spec, is_number_spec, is_space_spec, is_value_of, lower_text, mantissa_end,
    name_end, named, number, number_end, pair_named, power, product, product_rest, program,
    refuses, runs, skip, span_end, stands, sum, sum_rest, syntax_message, unary, Class, Op, OpView,
    Pair, Parser, Phrase, Program, SyntaxError, SyntaxErrorView,
};

verus! {

// ---------------------------------------------------------------------------
// Positions
// ---------------------------------------------------------------------------

/// Whether an error points at what is wrong in a text that was read up to `end`: a character
/// that cannot stand there, the place of one that is missing, a number with no digit or with
/// two dots, or the name of a function that is none.
pub open spec fn points_at(s: Seq<char>, end: nat, e: SyntaxErrorView) -> bool {
    match e {
        SyntaxErrorView::UnexpectedCharacter(c, p) => p == end && p < s.len() && s[p as int] == c
            && !is_space_spec(c),
        SyntaxErrorView::Expected(c, p) => p == end && p <= s.len() && (p < s.len() ==> s[p as int]
            != c && !is_space_spec(s[p as int])),
        SyntaxErrorView::UnexpectedToken(p) => p == end && p <= s.len() && (p < s.len() ==> {
            let c = s[p as int];
            !is_space_spec(c) && !('0' <= c <= '9') && c != '.' && !('a' <= c <= 'z') && !('A' <= c
                <= 'Z') && c != '_' && c != '(' && c != '+' && c != '-'
        }),
        SyntaxErrorView::InvalidNumber(t) => exists|from: nat, to: nat|
            #![trigger s.subrange(from as int, to as int)]
            {
                &&& from < to <= end <= s.len()
                &&& t == s.subrange(from as int, end as int)
                &&& forall|i: int|
                    from <= i < to ==> '0' <= #[trigger] s[i] <= '9' || s[i] == '.'
                &&& to < s.len() ==> !('0' <= s[to as int] <= '9') && s[to as int] != '.'
                &&& {
                    ||| forall|i: int| from <= i < to ==> #[trigger] s[i] == '.'
                    ||| exists|i: int, k: int|
                        from <= i < k < to && #[trigger] s[i] == '.' && #[trigger] s[k] == '.'
                }
            },
        SyntaxErrorView::UnknownFunction(name) => function_named(name) is None && pair_named(
            name,
        ) is None && constant_named(name) is None && exists|from: nat, to: nat|
            #![trigger s.subrange(from as int, to as int)]
            from < to < end && end <= s.len() && name == lower_text(
                s.subrange(from as int, to as int),
            ),
    }
}

/// Whether what was read stayed in the text, and its error, if it has one, points at what is
/// wrong.
spec fn well(s: Seq<char>, from: nat, phrase: Phrase) -> bool {
    &&& from <= phrase.end <= s.len()
    &&& phrase.error is None ==> from < phrase.end
    &&& phrase.error matches Some(e) ==> points_at(s, phrase.end, e)
}

/// Where a span ends.
proof fn lemma_span_ends(s: Seq<char>, pos: nat, p: spec_fn(char) -> bool)
    requires
        pos <= s.len(),
    ensures
        pos <= span_end(s, pos, p) <= s.len(),
        span_end(s, pos, p) < s.len() ==> !p(s[span_end(s, pos, p) as int]),
        forall|i: int| pos <= i < span_end(s, pos, p) ==> p(#[trigger] s[i]),
        pos < s.len() && p(s[pos as int]) ==> pos < span_end(s, pos, p),
    decreases s.len() - pos,
{
    if pos < s.len() && p(s[pos as int]) {
        lemma_span_ends(s, pos + 1, p);
    }
}

/// Where white space ends.
proof fn lemma_skip_ends(s: Seq<char>, pos: nat)
    requires
        pos <= s.len(),
    ensures
        pos <= skip(s, pos) <= s.len(),
        skip(s, pos) < s.len() ==> !is_space_spec(s[skip(s, pos) as int]),
{
    lemma_span_ends(s, pos, |c: char| is_space_spec(c));
}

proof fn lemma_number_well(s: Seq<char>, pos: nat)
    requires
        pos < s.len(),
        is_mantissa_spec(s[pos as int]),
    ensures
        well(s, pos, number(s, pos)),
{
    let p = |c: char| is_mantissa_spec(c);
    lemma_span_ends(s, pos, p);
    let m = mantissa_end(s, pos);
    if stands(s, m, 'e') || stands(s, m, 'E') {
        let k = exponent_digits(s, m);
        if k <= s.len() {
            lemma_span_ends(s, k, |c: char| is_digit_spec(c));
        }
    }
    let end = number_end(s, pos);
    assert(m <= end <= s.len());
    let digits = s.subrange(pos as int, m as int);
    if !is_number_spec(digits) {
        assert forall|i: int| pos <= i < m implies '0' <= #[trigger] s[i] <= '9' || s[i]
            == '.' by {
            assert(p(s[i]));
        }
        if !(exists|i: int| 0 <= i < digits.len() && is_digit_spec(#[trigger] digits[i])) {
            assert forall|i: int| pos <= i < m implies #[trigger] s[i] == '.' by {
                assert(digits[i - pos] == s[i]);
            }
        } else {
            let (i, k) = choose|i: int, k: int|
                0 <= i < k < digits.len() && #[trigger] digits[i] == '.' && #[trigger] digits[k]
                    == '.';
            assert(s[pos + i] == '.' && s[pos + k] == '.');
        }
        assert(points_at(s, end, SyntaxErrorView::InvalidNumber(s.subrange(pos as int, end as int))));
    }
}

/// What stands behind a phrase and has to be a certain character.
proof fn lemma_closed_well(s: Seq<char>, from: nat, inner: Phrase, c: char)
    requires
        well(s, from, inner),
    ensures
        well(s, from, closed_by(s, inner, c)),
{
    if inner.error is None {
        lemma_skip_ends(s, inner.end);
    }
}

proof fn lemma_sum_well(s: Seq<char>, pos: nat)
    requires
        pos <= s.len(),
    ensures
        well(s, pos, sum(s, pos)),
    decreases s.len() - pos, 7int,
{
    lemma_product_well(s, pos);
    let first = product(s, pos);
    if first.error is None {
        lemma_sum_rest_well(s, pos, first);
    }
}

proof fn lemma_sum_rest_well(s: Seq<char>, from: nat, left: Phrase)
    requires
        well(s, from, left),
        left.error is None,
    ensures
        well(s, from, sum_rest(s, left)),
    decreases s.len() - left.end, 6int,
{
    lemma_skip_ends(s, left.end);
    let p = skip(s, left.end);
    if stands(s, p, '+') || stands(s, p, '-') {
        lemma_product_well(s, p + 1);
        let right = product(s, p + 1);
        if right.error is None {
            let both = followed(
                left,
                right,
                if s[p as int] == '+' {
                    OpView::Add
                } else {
                    OpView::Subtract
                },
            );
            lemma_sum_rest_well(s, from, both);
        }
    }
}

proof fn lemma_product_well(s: Seq<char>, pos: nat)
    requires
        pos <= s.len(),
    ensures
        well(s, pos, product(s, pos)),
    decreases s.len() - pos, 5int,
{
    lemma_power_well(s, pos);
    let first = power(s, pos);
    if first.error is None {
        lemma_product_rest_well(s, pos, first);
    }
}

proof fn lemma_product_rest_well(s: Seq<char>, from: nat, left: Phrase)
    requires
        well(s, from, left),
        left.error is None,
    ensures
        well(s, from, product_rest(s, left)),
    decreases s.len() - left.end, 4int,
{
    lemma_skip_ends(s, left.end);
    let p = skip(s, left.end);
    if stands(s, p, '*') || stands(s, p, '/') {
        lemma_power_well(s, p + 1);
        let right = power(s, p + 1);
        if right.error is None {
            let both = followed(
                left,
                right,
                if s[p as int] == '*' {
                    OpView::Multiply
                } else {
                    OpView::Divide
                },
            );
            lemma_product_rest_well(s, from, both);
        }
    }
}

proof fn lemma_power_well(s: Seq<char>, pos: nat)
    requires
        pos <= s.len(),
    ensures
        well(s, pos, power(s, pos)),
    decreases s.len() - pos, 3int,
{
    lemma_unary_well(s, pos);
    let base = unary(s, pos);
    if base.error is None {
        lemma_skip_ends(s, base.end);
        let p = skip(s, base.end);
        if stands(s, p, '^') {
            lemma_power_well(s, p + 1);
        }
    }
}

proof fn lemma_unary_well(s: Seq<char>, pos: nat)
    requires
        pos <= s.len(),
    ensures
        well(s, pos, unary(s, pos)),
    decreases s.len() - pos, 2int,
{
    lemma_skip_ends(s, pos);
    let p = skip(s, pos);
    if stands(s, p, '-') || stands(s, p, '+') {
        lemma_unary_well(s, p + 1);
    } else {
        lemma_atom_well(s, p);
    }
}

proof fn lemma_atom_well(s: Seq<char>, pos: nat)
    requires
        pos <= s.len(),
        pos < s.len() ==> !is_space_spec(s[pos as int]) && s[pos as int] != '+' && s[pos as int]
            != '-',
    ensures
        well(s, pos, atom(s, pos)),
    decreases s.len() - pos, 1int,
{
    if pos < s.len() && is_mantissa_spec(s[pos as int]) {
        lemma_number_well(s, pos);
    } else if pos < s.len() && is_name_start_spec(s[pos as int]) {
        lemma_named_well(s, pos);
    } else if stands(s, pos, '(') {
        lemma_sum_well(s, pos + 1);
        lemma_closed_well(s, pos + 1, sum(s, pos + 1), ')');
    }
}

proof fn lemma_named_well(s: Seq<char>, pos: nat)
    requires
        pos < s.len(),
        is_name_start_spec(s[pos as int]),
    ensures
        well(s, pos, named(s, pos)),
    decreases s.len() - pos, 0int,
{
    lemma_span_ends(s, pos, |c: char| is_name_part_spec(c));
    let end = name_end(s, pos);
    let name = lower_text(s.subrange(pos as int, end as int));
    lemma_skip_ends(s, end);
    let p = skip(s, end);
    if constant_named(name) is None && stands(s, p, '(') {
        match pair_named(name) {
            Some(f) => {
                lemma_combined_well(s, p + 1, f);
            },
            None => {
                lemma_sum_well(s, p + 1);
                let argument = closed_by(s, sum(s, p + 1), ')');
                lemma_closed_well(s, p + 1, sum(s, p + 1), ')');
                if argument.error is None && function_named(name) is None {
                    assert(name == lower_text(s.subrange(pos as int, end as int)));
                    assert(points_at(s, argument.end, SyntaxErrorView::UnknownFunction(name)));
                }
            },
        }
    }
}

proof fn lemma_combined_well(s: Seq<char>, pos: nat, f: Pair)
    requires
        pos <= s.len(),
    ensures
        well(s, pos, combined(s, pos, f)),
    decreases s.len() - pos, 8int,
{
    lemma_sum_well(s, pos);
    let first = sum(s, pos);
    if first.error is None {
        lemma_skip_ends(s, first.end);
        let p = skip(s, first.end);
        if stands(s, p, ',') {
            lemma_sum_well(s, p + 1);
            lemma_closed_well(s, p + 1, sum(s, p + 1), ')');
        }
    }
}

/// The error of a text that is no expression points at what is wrong: the character that
/// cannot stand where it stands, the place where one is missing, the number that is none, or
/// the name of no function. Reading ended just there.
pub proof fn errors_point_at_what_is_wrong(s: Seq<char>)
    ensures
        program(s).error matches Some(e) ==> points_at(s, program(s).end, e),
        program(s).error is None ==> program(s).end == s.len(),
{
    lemma_sum_well(s, 0);
    let whole = sum(s, 0);
    if whole.error is None {
        lemma_skip_ends(s, whole.end);
    }
}

// ---------------------------------------------------------------------------
// The first error
// ---------------------------------------------------------------------------

/// Where operations are functions, the first of all errors is told: an operation that is
/// refused comes before anything that is wrong with the text behind it. Where no operation
/// is refused, it is what is wrong with the text; and where nothing is, the text has the
/// value that its code leaves.
pub proof fn the_first_error_is_told<N>(
    does: spec_fn(Op, Seq<N>, Result<N, String>) -> bool,
    f: spec_fn(OpView, Seq<N>) -> Result<N, Seq<char>>,
    input: Seq<char>,
    r: Result<N, String>,
)
    requires
        computes(does, f),
        is_value_of(does, input, r),
    ensures
        match ran(f, program(input).code, Seq::empty()) {
            Err(m) => value_view(r) == Err::<N, Seq<char>>(m),
            Ok(stack) => match program(input).error {
                Some(e) => value_view(r) == Err::<N, Seq<char>>(syntax_message(e)),
                None => r matches Ok(v) && stack == seq![v],
            },
        },
{
    let ops = choose|ops: Seq<Op>|
        #![trigger code_view(ops)]
        code_view(ops) == program(input).code && evaluates(does, ops, program(input).error, r);
    let empty = Seq::<N>::empty();
    match r {
        Ok(v) => {
            let stacks = choose|stacks: Seq<Seq<N>>| #[trigger]
                runs(does, ops, stacks) && stacks.last() == seq![v];
            lemma_runs_are_ran(does, f, ops, stacks);
        },
        Err(message) => {
            if exists|n: int, stacks: Seq<Seq<N>>|
                0 <= n < ops.len() && #[trigger] runs(does, ops.take(n), stacks) && refuses(
                    does,
                    ops[n],
                    stacks.last(),
                    message,
                ) {
                let (n, stacks) = choose|n: int, stacks: Seq<Seq<N>>|
                    0 <= n < ops.len() && #[trigger] runs(does, ops.take(n), stacks) && refuses(
                        does,
                        ops[n],
                        stacks.last(),
                        message,
                    );
                lemma_runs_are_ran(does, f, ops.take(n), stacks);
                let code = code_view(ops);
                let head = code.take(n + 1);
                assert(head.drop_last() =~= code_view(ops.take(n)));
                assert(head.last() == ops[n]@);
                assert(ran(f, head, empty) == Err::<Seq<N>, Seq<char>>(message@));
                assert(head + code.skip(n + 1) =~= code);
                lemma_ran_in_parts(f, head, code.skip(n + 1), empty);
            } else {
                let stacks = choose|stacks: Seq<Seq<N>>| #[trigger] runs(does, ops, stacks);
                lemma_runs_are_ran(does, f, ops, stacks);
            }
        },
    }
}

/// Where what is handed in are functions, evaluating an expression that is written out with
/// the brackets that it needs gives its value: operands from left to right, each operation
/// by the rules on domains first and then by the arithmetic.
pub proof fn evaluation_gives_the_value<
    N,
    C: Fn(&N) -> Class,
    W: Fn(&N) -> String,
    A: Fn(&Op, &Vec<N>) -> Result<N, String>,
>(
    e: Expr,
    input: &str,
    classify: C,
    show: W,
    arithmetic: A,
    class: spec_fn(N) -> Class,
    shown: spec_fn(N) -> Seq<char>,
    g: spec_fn(OpView, Seq<N>) -> Result<N, Seq<char>>,
    r: Result<N, String>,
)
    requires
        e.wf(),
        input@ == e.written(0),
        forall|n: N, c: Class| #[trigger] call_ensures(classify, (&n,), c) ==> c == class(n),
        forall|n: N, t: String| #[trigger] call_ensures(show, (&n,), t) ==> t@ == shown(n),
        forall|op: Op, operands: Vec<N>, r: Result<N, String>| #[trigger]
            call_ensures(arithmetic, (&op, &operands), r) ==> g(op@, operands@) == value_view(r),
        call_ensures(eval::<N, C, W, A>, (input, &classify, &show, &arithmetic), r),
    ensures
        value_view(r) == e.value(ruled(class, shown, g)),
{
    operations_are_ruled(classify, show, arithmetic, class, shown, g);
    written_expressions_are_evaluated(
        e,
        checked(classify, show, arithmetic),
        ruled(class, shown, g),
        r,
    );
}

/// Where what is handed in are functions, a text that breaks the grammar has no value, and
/// where no operation before the break is refused, the error is that of the grammar.
pub proof fn broken_texts_have_no_value<
    N,
    C: Fn(&N) -> Class,
    W: Fn(&N) -> String,
    A: Fn(&Op, &Vec<N>) -> Result<N, String>,
>(
    input: &str,
    classify: C,
    show: W,
    arithmetic: A,
    class: spec_fn(N) -> Class,
    shown: spec_fn(N) -> Seq<char>,
    g: spec_fn(OpView, Seq<N>) -> Result<N, Seq<char>>,
    r: Result<N, String>,
)
    requires
        program(input@).error is Some,
        forall|n: N, c: Class| #[trigger] call_ensures(classify, (&n,), c) ==> c == class(n),
        forall|n: N, t: String| #[trigger] call_ensures(show, (&n,), t) ==> t@ == shown(n),
        forall|op: Op, operands: Vec<N>, r: Result<N, String>| #[trigger]
            call_ensures(arithmetic, (&op, &operands), r) ==> g(op@, operands@) == value_view(r),
        call_ensures(eval::<N, C, W, A>, (input, &classify, &show, &arithmetic), r),
    ensures
        r is Err,
        (r->Err_0)@ == (match ran(ruled(class, shown, g), program(input@).code, Seq::empty()) {
            Err(m) => m,
            Ok(_) => syntax_message(program(input@).error->0),
        }),
{
    operations_are_ruled(classify, show, arithmetic, class, shown, g);
    the_first_error_is_told(
        checked(classify, show, arithmetic),
        ruled(class, shown, g),
        input@,
        r,
    );
}

// ---------------------------------------------------------------------------
// The parser
// ---------------------------------------------------------------------------

/// A parser starts at the first character, with nothing read.
pub proof fn parsers_start_at_the_start(input: &str, parser: Parser)
    requires
        call_ensures(Parser::new, (input,), parser),
    ensures
        parser.source() == input@,
        parser.position() == 0,
        parser.code().len() == 0,
{
}

/// A parser looks at the character at its position, if there is one.
pub proof fn parsers_look_ahead(parser: Parser, c: Option<char>)
    requires
        parser.wf(),
        call_ensures(Parser::peek_char, (&parser,), c),
    ensures
        c is None <==> parser.position() == parser.source().len(),
        c matches Some(c) ==> parser.source()[parser.position() as int] == c,
{
}

/// A parser moves over white space to the next other character, and over nothing else.
pub proof fn parsers_skip_white_space()
    ensures
        forall|parser: &mut Parser| #[trigger]
            call_ensures(Parser::skip_ws, (parser,), ()) && (*parser).wf() ==> {
                let s = (*parser).source();
                let from = (*parser).position();
                let to = (*final(parser)).position();
                &&& (*final(parser)).source() == s
                &&& (*final(parser)).code() == (*parser).code()
                &&& from <= to <= s.len()
                &&& forall|i: int| from <= i < to ==> is_space_spec(#[trigger] s[i])
                &&& to < s.len() ==> !is_space_spec(s[to as int])
            },
{
    assert forall|parser: &mut Parser| #[trigger]
        call_ensures(Parser::skip_ws, (parser,), ()) && (*parser).wf() implies {
        let s = (*parser).source();
        let from = (*parser).position();
        let to = (*final(parser)).position();
        &&& (*final(parser)).source() == s
        &&& (*final(parser)).code() == (*parser).code()
        &&& from <= to <= s.len()
        &&& forall|i: int| from <= i < to ==> is_space_spec(#[trigger] s[i])
        &&& to < s.len() ==> !is_space_spec(s[to as int])
    } by {
        let s = (*parser).source();
        let from = (*parser).position();
        let p = |c: char| is_space_spec(c);
        lemma_span_ends(s, from, p);
        assert forall|i: int| from <= i < (*final(parser)).position() implies is_space_spec(
            #[trigger] s[i],
        ) by {
            assert(p(s[i]));
        }
    }
}

/// A parser takes the character that is asked for where it is the next one behind white
/// space, and moves behind it; else it stays in front of the character that is there, and
/// the error gives what was asked for and where.
pub proof fn parsers_take_what_is_asked_for(c: char, r: Result<(), SyntaxError>)
    ensures
        forall|parser: &mut Parser| #[trigger]
            call_ensures(Parser::eat, (parser, c), r) && (*parser).wf() ==> {
                let s = (*parser).source();
                let to = (*final(parser)).position();
                &&& (*final(parser)).source() == s
                &&& (*final(parser)).code() == (*parser).code()
                &&& r is Ok ==> (*parser).position() < to <= s.len() && s[to - 1] == c
                &&& r matches Err(e) ==> {
                    &&& to <= s.len()
                    &&& to < s.len() ==> s[to as int] != c && !is_space_spec(s[to as int])
                    &&& e matches SyntaxError::Expected(asked, at) && asked == c && at == to
                }
            },
{
    assert forall|parser: &mut Parser| #[trigger]
        call_ensures(Parser::eat, (parser, c), r) && (*parser).wf() implies {
        let s = (*parser).source();
        let to = (*final(parser)).position();
        &&& (*final(parser)).source() == s
        &&& (*final(parser)).code() == (*parser).code()
        &&& r is Ok ==> (*parser).position() < to <= s.len() && s[to - 1] == c
        &&& r matches Err(e) ==> {
            &&& to <= s.len()
            &&& to < s.len() ==> s[to as int] != c && !is_space_spec(s[to as int])
            &&& e matches SyntaxError::Expected(asked, at) && asked == c && at == to
        }
    } by {
        lemma_skip_ends((*parser).source(), (*parser).position());
        if let Err(e) = r {
            assert(e@ is Expected);
        }
    }
}

/// A parser at the start of an expression that is written out reads it to its end, and emits
/// its code behind what it has emitted.
pub proof fn parsers_read_expressions(e: Expr, r: Result<(), SyntaxError>)
    requires
        e.wf(),
    ensures
        forall|parser: &mut Parser| #[trigger]
            call_ensures(Parser::parse, (parser,), r) && (*parser).source() == e.written(0)
                && (*parser).position() == 0 ==> {
                &&& r is Ok
                &&& (*final(parser)).source() == (*parser).source()
                &&& (*final(parser)).position() == e.written(0).len()
                &&& (*final(parser)).code() == (*parser).code() + e.postfix()
            },
{
    let s = e.written(0);
    written_expressions_are_read_back(e);
    lemma_sum_well(s, 0);
    lemma_skip_ends(s, sum(s, 0).end);
    lemma_sums_are_skipped(s, 0);
}

/// No white space is left behind a sum.
proof fn lemma_sums_are_skipped(s: Seq<char>, pos: nat)
    requires
        pos <= s.len(),
        sum(s, pos).error is None,
    ensures
        skip(s, sum(s, pos).end) == sum(s, pos).end,
{
    lemma_product_well(s, pos);
    lemma_sum_rest_is_skipped(s, pos, product(s, pos));
}

proof fn lemma_sum_rest_is_skipped(s: Seq<char>, from: nat, left: Phrase)
    requires
        well(s, from, left),
        left.error is None,
        sum_rest(s, left).error is None,
    ensures
        skip(s, sum_rest(s, left).end) == sum_rest(s, left).end,
    decreases s.len() - left.end,
{
    lemma_skip_ends(s, left.end);
    let p = skip(s, left.end);
    if stands(s, p, '+') || stands(s, p, '-') {
        lemma_product_well(s, p + 1);
        let right = product(s, p + 1);
        let both = followed(
            left,
            right,
            if s[p as int] == '+' {
                OpView::Add
            } else {
                OpView::Subtract
            },
        );
        if right.error is None {
            lemma_sum_rest_is_skipped(s, from, both);
        }
    }
}

/// Each part of the parser reads what is written out for it to its end: a sum, a product, a
/// power, or an operand with its signs.
pub proof fn parsers_read_at_each_level(e: Expr, r: Result<(), SyntaxError>)
    requires
        e.wf(),
    ensures
        forall|parser: &mut Parser| #[trigger]
            call_ensures(Parser::parse_addsub, (parser,), r) && (*parser).source() == e.written(0)
                && (*parser).position() == 0 ==> r is Ok && (*final(parser)).position() == e.written(
                0,
            ).len() && (*final(parser)).code() == (*parser).code() + e.postfix(),
        forall|parser: &mut Parser| #[trigger]
            call_ensures(Parser::parse_muldiv, (parser,), r) && (*parser).source() == e.written(1)
                && (*parser).position() == 0 ==> r is Ok && (*final(parser)).position() == e.written(
                1,
            ).len() && (*final(parser)).code() == (*parser).code() + e.postfix(),
        forall|parser: &mut Parser| #[trigger]
            call_ensures(Parser::parse_power, (parser,), r) && (*parser).source() == e.written(2)
                && (*parser).position() == 0 ==> r is Ok && (*final(parser)).position() == e.written(
                2,
            ).len() && (*final(parser)).code() == (*parser).code() + e.postfix(),
        forall|parser: &mut Parser| #[trigger]
            call_ensures(Parser::parse_unary, (parser,), r) && (*parser).source() == e.written(3)
                && (*parser).position() == 0 ==> r is Ok && (*final(parser)).position() == e.written(
                3,
            ).len() && (*final(parser)).code() == (*parser).code() + e.postfix(),
{
    written_expressions_are_read_at_each_level(e);
}

/// An expression between brackets is read as an atom, to the closing bracket.
pub proof fn parsers_read_brackets(a: Seq<char>, rest: Seq<char>, r: Result<(), SyntaxError>)
    requires
        program(a).error is None,
    ensures
        forall|parser: &mut Parser| #[trigger]
            call_ensures(Parser::parse_atom, (parser,), r) && (*parser).source() == seq!['('] + a
                + seq![')'] + rest && (*parser).position() == 0 ==> r is Ok && (
            *final(parser)).position() == a.len() + 2 && (*final(parser)).code() == (
            *parser).code() + program(a).code,
{
    let s = seq!['('] + a + seq![')'] + rest;
    assert(embedded(s, 1, a)) by {
        reveal(embedded);
        assert forall|i: int| 0 <= i < a.len() implies s[1 + i] == #[trigger] a[i] by {
        }
    }
    lemma_between_brackets(s, 0, a);
    lemma_no_skip(s, 0);
    assert(unary(s, 0) == atom(s, 0));
}

/// The value of a program is that of the text that it was compiled from.
pub proof fn programs_have_the_value_of_their_text<
    N,
    C: Fn(&N) -> Class,
    W: Fn(&N) -> String,
    A: Fn(&Op, &Vec<N>) -> Result<N, String>,
>(
    input: &str,
    compiled: Program,
    classify: C,
    show: W,
    arithmetic: A,
    r: Result<N, String>,
)
    requires
        call_ensures(compile, (input,), compiled),
        call_ensures(
            Program::evaluate::<N, C, W, A>,
            (&compiled, &classify, &show, &arithmetic),
            r,
        ),
    ensures
        is_value_of(checked(classify, show, arithmetic), input@, r),
{
    assert(code_view(compiled.ops@) == program(input@).code);
}

/// The classes of characters, by their numbers.
pub proof fn characters_by_numbers(c: char)
    ensures
        is_digit_spec(c) <==> 48 <= c as int <= 57,
        is_mantissa_spec(c) <==> 48 <= c as int <= 57 || c as int == 46,
        is_name_start_spec(c) <==> 65 <= c as int <= 90 || 97 <= c as int <= 122 || c as int == 95,
        is_name_part_spec(c) <==> 48 <= c as int <= 57 || 65 <= c as int <= 90 || 97 <= c as int
            <= 122 || c as int == 95,
{
}

} // verus!
