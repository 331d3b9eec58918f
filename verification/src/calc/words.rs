//! The words of the grammar: names, numbers and white space.
use vstd::prelude::*;
use crate::calc::joined::{embedded, lemma_between_brackets};
use crate::calc::laws::{lemma_no_skip, written_expressions_are_read_back, Expr};
use crate::calc::{
    applied, atom, broken, closed_by, combined, compile, constant_named, digits_end, exponent_digits,
    function_named, is_digit_spec, is_mantissa_spec, is_name_part_spec, is_number_spec, is_space,
    is_space_spec, lower_spec, lower_text, mantissa_end, name_end, named, number, number_end,
    pair_named, power, product, product_rest, program, skip, span_end, stands, sum, sum_rest, unary,
    Constant, Function, Op, OpView, Pair, Phrase, Program, SyntaxErrorView,
};

verus! {

// ---------------------------------------------------------------------------
// Spans
// ---------------------------------------------------------------------------

/// A span ends behind characters that all pass, at the first that does not.
proof fn lemma_run(s: Seq<char>, from: nat, to: nat, p: spec_fn(char) -> bool)
    requires
        from <= to <= s.len(),
        forall|i: int| from <= i < to ==> p(#[trigger] s[i]),
        to < s.len() ==> !p(s[to as int]),
    ensures
        span_end(s, from, p) == to,
    decreases to - from,
{
    if from < to {
        assert(p(s[from as int]));
        lemma_run(s, from + 1, to, p);
    }
}

// ---------------------------------------------------------------------------
// Names
// ---------------------------------------------------------------------------

/// The names of the grammar, letter by letter.
proof fn lemma_spelled()
    ensures
        "pi"@.len() == 2 && "pi"@[0] == 'p' && "pi"@[1] == 'i',
        "e"@.len() == 1 && "e"@[0] == 'e',
        "tau"@.len() == 3 && "tau"@[0] == 't' && "tau"@[1] == 'a' && "tau"@[2] == 'u',
        "sqrt"@.len() == 4 && "sqrt"@[0] == 's' && "sqrt"@[1] == 'q' && "sqrt"@[2] == 'r' && "sqrt"@[3] == 't',
        "root"@.len() == 4 && "root"@[0] == 'r' && "root"@[1] == 'o' && "root"@[2] == 'o' && "root"@[3] == 't',
        "abs"@.len() == 3 && "abs"@[0] == 'a' && "abs"@[1] == 'b' && "abs"@[2] == 's',
        "sin"@.len() == 3 && "sin"@[0] == 's' && "sin"@[1] == 'i' && "sin"@[2] == 'n',
        "cos"@.len() == 3 && "cos"@[0] == 'c' && "cos"@[1] == 'o' && "cos"@[2] == 's',
        "tan"@.len() == 3 && "tan"@[0] == 't' && "tan"@[1] == 'a' && "tan"@[2] == 'n',
        "asin"@.len() == 4 && "asin"@[0] == 'a' && "asin"@[1] == 's' && "asin"@[2] == 'i' && "asin"@[3] == 'n',
        "acos"@.len() == 4 && "acos"@[0] == 'a' && "acos"@[1] == 'c' && "acos"@[2] == 'o' && "acos"@[3] == 's',
        "atan"@.len() == 4 && "atan"@[0] == 'a' && "atan"@[1] == 't' && "atan"@[2] == 'a' && "atan"@[3] == 'n',
        "exp"@.len() == 3 && "exp"@[0] == 'e' && "exp"@[1] == 'x' && "exp"@[2] == 'p',
        "ln"@.len() == 2 && "ln"@[0] == 'l' && "ln"@[1] == 'n',
        "log"@.len() == 3 && "log"@[0] == 'l' && "log"@[1] == 'o' && "log"@[2] == 'g',
        "log10"@.len() == 5 && "log10"@[0] == 'l' && "log10"@[1] == 'o' && "log10"@[2] == 'g' && "log10"@[3] == '1' && "log10"@[4] == '0',
        "floor"@.len() == 5 && "floor"@[0] == 'f' && "floor"@[1] == 'l' && "floor"@[2] == 'o' && "floor"@[3] == 'o' && "floor"@[4] == 'r',
        "ceil"@.len() == 4 && "ceil"@[0] == 'c' && "ceil"@[1] == 'e' && "ceil"@[2] == 'i' && "ceil"@[3] == 'l',
        "round"@.len() == 5 && "round"@[0] == 'r' && "round"@[1] == 'o' && "round"@[2] == 'u' && "round"@[3] == 'n' && "round"@[4] == 'd',
        "min"@.len() == 3 && "min"@[0] == 'm' && "min"@[1] == 'i' && "min"@[2] == 'n',
        "max"@.len() == 3 && "max"@[0] == 'm' && "max"@[1] == 'a' && "max"@[2] == 'x',
{
    reveal_strlit("pi");
    reveal_strlit("e");
    reveal_strlit("tau");
    reveal_strlit("sqrt");
    reveal_strlit("root");
    reveal_strlit("abs");
    reveal_strlit("sin");
    reveal_strlit("cos");
    reveal_strlit("tan");
    reveal_strlit("asin");
    reveal_strlit("acos");
    reveal_strlit("atan");
    reveal_strlit("exp");
    reveal_strlit("ln");
    reveal_strlit("log");
    reveal_strlit("log10");
    reveal_strlit("floor");
    reveal_strlit("ceil");
    reveal_strlit("round");
    reveal_strlit("min");
    reveal_strlit("max");
}

/// The constants are `pi`, `e` and `tau`; there are no others.
pub proof fn constants_have_these_names(name: Seq<char>)
    ensures
        constant_named(name) == Some(Constant::Pi) <==> name == "pi"@,
        constant_named(name) == Some(Constant::E) <==> name == "e"@,
        constant_named(name) == Some(Constant::Tau) <==> name == "tau"@,
{
    lemma_spelled();
}

/// The functions of one argument have these names and no others; the root and the natural
/// logarithm have two each.
pub proof fn functions_have_these_names(name: Seq<char>)
    ensures
        function_named(name) == Some(Function::Sqrt) <==> name == "sqrt"@ || name == "root"@,
        function_named(name) == Some(Function::Abs) <==> name == "abs"@,
        function_named(name) == Some(Function::Sin) <==> name == "sin"@,
        function_named(name) == Some(Function::Cos) <==> name == "cos"@,
        function_named(name) == Some(Function::Tan) <==> name == "tan"@,
        function_named(name) == Some(Function::Asin) <==> name == "asin"@,
        function_named(name) == Some(Function::Acos) <==> name == "acos"@,
        function_named(name) == Some(Function::Atan) <==> name == "atan"@,
        function_named(name) == Some(Function::Exp) <==> name == "exp"@,
        function_named(name) == Some(Function::Ln) <==> name == "ln"@ || name == "log"@,
        function_named(name) == Some(Function::Log10) <==> name == "log10"@,
        function_named(name) == Some(Function::Floor) <==> name == "floor"@,
        function_named(name) == Some(Function::Ceil) <==> name == "ceil"@,
        function_named(name) == Some(Function::Round) <==> name == "round"@,
{
    lemma_spelled();
}

/// The functions of two arguments are `min` and `max`; there are no others.
pub proof fn pairs_have_these_names(name: Seq<char>)
    ensures
        pair_named(name) == Some(Pair::Min) <==> name == "min"@,
        pair_named(name) == Some(Pair::Max) <==> name == "max"@,
{
    lemma_spelled();
}

/// Whether a text is a name: letters of ASCII, digits and underscores, no digit in front.
pub open spec fn is_name(t: Seq<char>) -> bool {
    &&& t.len() > 0
    &&& !('0' <= t[0] <= '9')
    &&& forall|i: int|
        0 <= i < t.len() ==> 'a' <= #[trigger] t[i] <= 'z' || 'A' <= t[i] <= 'Z' || '0' <= t[i]
            <= '9' || t[i] == '_'
}

/// Whether a text is another up to the case of the letters of ASCII: where they differ, the
/// one has the capital of the letter that the other has.
pub open spec fn same_letters(t: Seq<char>, name: Seq<char>) -> bool {
    &&& t.len() == name.len()
    &&& forall|i: int|
        0 <= i < t.len() ==> (#[trigger] t[i]) == name[i] || ('a' <= name[i] <= 'z' && t[i] as int
            + 32 == name[i] as int)
}

/// The lower case of a text has no capitals, and is the text but for their case.
pub proof fn lower_case_only_changes_capitals(t: Seq<char>)
    ensures
        same_letters(t, lower_text(t)),
        forall|i: int| 0 <= i < t.len() ==> !('A' <= #[trigger] lower_text(t)[i] <= 'Z'),
        forall|i: int|
            0 <= i < t.len() && !('A' <= t[i] <= 'Z') ==> (#[trigger] lower_text(t)[i]) == t[i],
{
    assert forall|i: int| 0 <= i < t.len() implies same_letter(t[i], #[trigger] lower_text(t)[i])
        && !('A' <= lower_text(t)[i] <= 'Z') by {
        lemma_lower(t[i]);
    }
    assert forall|i: int| 0 <= i < t.len() implies (#[trigger] t[i]) == lower_text(t)[i] || ('a'
        <= lower_text(t)[i] <= 'z' && t[i] as int + 32 == lower_text(t)[i] as int) by {
        assert(same_letter(t[i], lower_text(t)[i]));
    }
}

/// Whether a letter is another, or its capital.
spec fn same_letter(c: char, d: char) -> bool {
    c == d || ('a' <= d <= 'z' && c as int + 32 == d as int)
}

/// The lower case of a letter.
proof fn lemma_lower(c: char)
    ensures
        same_letter(c, lower_spec(c)),
        !('A' <= lower_spec(c) <= 'Z'),
        !('A' <= c <= 'Z') ==> lower_spec(c) == c,
{
    if 'A' <= c <= 'Z' {
        let n = (c as nat) + 32;
        assert(97 <= n <= 122);
        assert((n as char) as int == n);
    }
}

/// A text that has the letters of a name without capitals has the name as its lower case.
proof fn lemma_same_letters(t: Seq<char>, name: Seq<char>)
    requires
        same_letters(t, name),
        forall|i: int| 0 <= i < name.len() ==> !('A' <= #[trigger] name[i] <= 'Z'),
    ensures
        lower_text(t) == name,
{
    assert forall|i: int| 0 <= i < t.len() implies (#[trigger] lower_text(t)[i]) == name[i] by {
        lemma_lower(t[i]);
        assert(t[i] == name[i] || ('a' <= name[i] <= 'z' && t[i] as int + 32 == name[i] as int));
    }
    assert(lower_text(t) =~= name);
}

/// No name of the grammar has capitals, and each is a name.
proof fn lemma_known(name: Seq<char>)
    requires
        constant_named(name) is Some || function_named(name) is Some || pair_named(name) is Some,
    ensures
        is_name(name),
        forall|i: int| 0 <= i < name.len() ==> !('A' <= #[trigger] name[i] <= 'Z'),
{
    reveal_strlit("pi");
    reveal_strlit("e");
    reveal_strlit("tau");
    reveal_strlit("sqrt");
    reveal_strlit("root");
    reveal_strlit("abs");
    reveal_strlit("sin");
    reveal_strlit("cos");
    reveal_strlit("tan");
    reveal_strlit("asin");
    reveal_strlit("acos");
    reveal_strlit("atan");
    reveal_strlit("exp");
    reveal_strlit("ln");
    reveal_strlit("log");
    reveal_strlit("log10");
    reveal_strlit("floor");
    reveal_strlit("ceil");
    reveal_strlit("round");
    reveal_strlit("min");
    reveal_strlit("max");
}

/// A name that has the letters of a name of the grammar is a name.
proof fn lemma_known_letters(t: Seq<char>, name: Seq<char>)
    requires
        constant_named(name) is Some || function_named(name) is Some || pair_named(name) is Some,
        same_letters(t, name),
    ensures
        is_name(t),
        lower_text(t) == name,
{
    lemma_known(name);
    lemma_same_letters(t, name);
    assert forall|i: int| 0 <= i < t.len() implies 'a' <= #[trigger] t[i] <= 'z' || 'A' <= t[i]
        <= 'Z' || '0' <= t[i] <= '9' || t[i] == '_' by {
        assert('a' <= name[i] <= 'z' || 'A' <= name[i] <= 'Z' || '0' <= name[i] <= '9' || name[i]
            == '_');
    }
    assert(t[0] == name[0] || ('a' <= name[0] <= 'z' && t[0] as int + 32 == name[0] as int));
}

/// A name ends where no letter, digit or underscore follows.
proof fn lemma_name_ends(s: Seq<char>, t: Seq<char>)
    requires
        is_name(t),
        t.len() <= s.len(),
        s.take(t.len() as int) == t,
        t.len() < s.len() ==> !is_name_part_spec(s[t.len() as int]),
    ensures
        name_end(s, 0) == t.len(),
        lower_text(s.subrange(0, name_end(s, 0) as int)) == lower_text(t),
        unary(s, 0) == named(s, 0),
{
    let p = |c: char| is_name_part_spec(c);
    assert forall|i: int| 0 <= i < t.len() implies p(#[trigger] s[i]) by {
        assert(s.take(t.len() as int)[i] == t[i]);
    }
    lemma_run(s, 0, t.len(), p);
    assert(s.subrange(0, t.len() as int) =~= t);
    assert(s.take(t.len() as int)[0] == t[0]);
    assert(s[0] == t[0]);
    lemma_no_skip(s, 0);
    assert(unary(s, 0) == atom(s, 0));
}

/// What is an atom to the end of the text is the whole text.
proof fn lemma_whole(s: Seq<char>, phrase: Phrase)
    requires
        unary(s, 0) == phrase,
        phrase.error is None,
        phrase.end == s.len(),
    ensures
        program(s) == phrase,
{
    lemma_no_skip(s, s.len());
    assert(power(s, 0) == phrase);
    assert(product_rest(s, phrase) == phrase);
    assert(product(s, 0) == phrase);
    assert(sum_rest(s, phrase) == phrase);
    assert(sum(s, 0) == phrase);
}

/// An error in an atom is that of the text.
proof fn lemma_whole_error(s: Seq<char>, phrase: Phrase)
    requires
        unary(s, 0) == phrase,
        phrase.error is Some,
    ensures
        program(s) == phrase,
{
    assert(power(s, 0) == phrase);
    assert(product(s, 0) == phrase);
    assert(sum(s, 0) == phrase);
}

/// A constant is read by its name, in whatever case its letters are.
pub proof fn constants_are_read_in_any_case(t: Seq<char>, c: Constant)
    requires
        match c {
            Constant::Pi => same_letters(t, "pi"@),
            Constant::E => same_letters(t, "e"@),
            Constant::Tau => same_letters(t, "tau"@),
        },
    ensures
        program(t) == (Phrase { end: t.len(), code: seq![OpView::Constant(c)], error: None }),
{
    let name = match c {
        Constant::Pi => "pi"@,
        Constant::E => "e"@,
        Constant::Tau => "tau"@,
    };
    constants_have_these_names(name);
    lemma_known_letters(t, name);
    assert(t.take(t.len() as int) =~= t);
    lemma_name_ends(t, t);
    lemma_whole(t, Phrase { end: t.len(), code: seq![OpView::Constant(c)], error: None });
}

/// A text as the argument of a call.
pub open spec fn call_of(t: Seq<char>, a: Seq<char>) -> Seq<char> {
    t + seq!['('] + a + seq![')']
}

/// How a call is read that is a name, a bracket, an expression and a bracket.
proof fn lemma_call(t: Seq<char>, a: Seq<char>)
    requires
        is_name(t),
        program(a).error is None,
        constant_named(lower_text(t)) is None,
        pair_named(lower_text(t)) is None,
    ensures
        unary(call_of(t, a), 0) == applied(
            lower_text(t),
            (Phrase { end: call_of(t, a).len(), code: program(a).code, error: None }),
        ),
{
    let s = call_of(t, a);
    let p = t.len();
    assert(s.take(p as int) =~= t);
    lemma_name_ends(s, t);
    assert(embedded(s, p + 1, a)) by {
        reveal(embedded);
        assert forall|i: int| 0 <= i < a.len() implies s[p + 1 + i] == #[trigger] a[i] by {
        }
    }
    lemma_no_skip(s, p);
    lemma_between_brackets(s, p, a);
    assert(unary(s, p) == atom(s, p));
    assert(atom(s, p) == closed_by(s, sum(s, p + 1), ')'));
}

/// A function is called by its name, in whatever case its letters are, with the expression
/// between the brackets as its argument.
pub proof fn calls_are_read_in_any_case(t: Seq<char>, f: Function, a: Seq<char>)
    requires
        program(a).error is None,
        match f {
            Function::Sqrt => same_letters(t, "sqrt"@) || same_letters(t, "root"@),
            Function::Abs => same_letters(t, "abs"@),
            Function::Sin => same_letters(t, "sin"@),
            Function::Cos => same_letters(t, "cos"@),
            Function::Tan => same_letters(t, "tan"@),
            Function::Asin => same_letters(t, "asin"@),
            Function::Acos => same_letters(t, "acos"@),
            Function::Atan => same_letters(t, "atan"@),
            Function::Exp => same_letters(t, "exp"@),
            Function::Ln => same_letters(t, "ln"@) || same_letters(t, "log"@),
            Function::Log10 => same_letters(t, "log10"@),
            Function::Floor => same_letters(t, "floor"@),
            Function::Ceil => same_letters(t, "ceil"@),
            Function::Round => same_letters(t, "round"@),
        },
    ensures
        program(call_of(t, a)) == (Phrase {
            end: call_of(t, a).len(),
            code: program(a).code.push(OpView::Apply(f)),
            error: None,
        }),
{
    let name = match f {
        Function::Sqrt => if same_letters(t, "sqrt"@) {
            "sqrt"@
        } else {
            "root"@
        },
        Function::Abs => "abs"@,
        Function::Sin => "sin"@,
        Function::Cos => "cos"@,
        Function::Tan => "tan"@,
        Function::Asin => "asin"@,
        Function::Acos => "acos"@,
        Function::Atan => "atan"@,
        Function::Exp => "exp"@,
        Function::Ln => if same_letters(t, "ln"@) {
            "ln"@
        } else {
            "log"@
        },
        Function::Log10 => "log10"@,
        Function::Floor => "floor"@,
        Function::Ceil => "ceil"@,
        Function::Round => "round"@,
    };
    functions_have_these_names(name);
    assert(function_named(name) == Some(f));
    lemma_spelled();
    assert(constant_named(name) is None && pair_named(name) is None);
    lemma_known_letters(t, name);
    lemma_call(t, a);
    lemma_whole(
        call_of(t, a),
        Phrase {
            end: call_of(t, a).len(),
            code: program(a).code.push(OpView::Apply(f)),
            error: None,
        },
    );
}

/// A call by any other name is refused, and the error gives the name in lower case. The
/// argument has been read by then.
pub proof fn unknown_functions_are_refused(t: Seq<char>, a: Seq<char>)
    requires
        program(a).error is None,
        is_name(t),
        constant_named(lower_text(t)) is None,
        pair_named(lower_text(t)) is None,
        function_named(lower_text(t)) is None,
    ensures
        program(call_of(t, a)).error == Some(SyntaxErrorView::UnknownFunction(lower_text(t))),
        program(call_of(t, a)).code == program(a).code,
{
    lemma_call(t, a);
    lemma_whole_error(call_of(t, a), unary(call_of(t, a), 0));
}

/// A name that is no constant asks for an opening bracket behind it.
pub proof fn names_ask_for_arguments(t: Seq<char>)
    requires
        is_name(t),
        constant_named(lower_text(t)) is None,
    ensures
        program(t).error == Some(SyntaxErrorView::Expected('(', t.len())),
{
    assert(t.take(t.len() as int) =~= t);
    lemma_name_ends(t, t);
    lemma_no_skip(t, t.len());
    lemma_whole_error(t, unary(t, 0));
}

/// A name, an opening bracket, two arguments, and what follows.
pub open spec fn two_arguments(
    t: Seq<char>,
    a: Seq<char>,
    b: Seq<char>,
    rest: Seq<char>,
) -> Seq<char> {
    t + seq!['(', '('] + a + seq![')', ',', '('] + b + seq![')'] + rest
}

/// Where the parts of two arguments stand that are followed by something.
proof fn lemma_two_arguments(t: Seq<char>, a: Seq<char>, b: Seq<char>, rest: Seq<char>)
    ensures
        ({
            let s = two_arguments(t, a, b, rest);
            let p = t.len();
            let comma = p + a.len() + 3;
            &&& s.len() == comma + b.len() + 3 + rest.len()
            &&& s.take(p as int) == t
            &&& stands(s, p, '(')
            &&& stands(s, p + 1, '(')
            &&& embedded(s, p + 2, a)
            &&& stands(s, comma, ',')
            &&& stands(s, comma + 1, '(')
            &&& embedded(s, comma + 2, b)
            &&& rest.len() > 0 ==> s[(comma + b.len() + 3) as int] == rest[0]
        }),
{
    let s = two_arguments(t, a, b, rest);
    let p = t.len();
    let comma = p + a.len() + 3;
    reveal(embedded);
    assert(s.take(p as int) =~= t);
    assert forall|i: int| 0 <= i < a.len() implies s[p + 2 + i] == #[trigger] a[i] by {
    }
    assert forall|i: int| 0 <= i < b.len() implies s[comma + 2 + i] == #[trigger] b[i] by {
    }
}

/// A call with two arguments between brackets.
pub open spec fn call_of_two(t: Seq<char>, a: Seq<char>, b: Seq<char>) -> Seq<char> {
    two_arguments(t, a, b, seq![')'])
}

/// What is an atom in front of a comma or a closing bracket is a sum.
proof fn lemma_atom_is_sum(s: Seq<char>, pos: nat, phrase: Phrase)
    requires
        unary(s, pos) == phrase,
        phrase.error is None,
        pos <= phrase.end < s.len(),
        s[phrase.end as int] == ',' || s[phrase.end as int] == ')',
    ensures
        sum(s, pos) == phrase,
{
    lemma_no_skip(s, phrase.end);
    assert(power(s, pos) == phrase);
    assert(product_rest(s, phrase) == phrase);
    assert(product(s, pos) == phrase);
    assert(sum_rest(s, phrase) == phrase);
}

/// What is known of the name of a function of two arguments.
proof fn lemma_pair_letters(t: Seq<char>, f: Pair)
    requires
        match f {
            Pair::Min => same_letters(t, "min"@),
            Pair::Max => same_letters(t, "max"@),
        },
    ensures
        is_name(t),
        constant_named(lower_text(t)) is None,
        pair_named(lower_text(t)) == Some(f),
{
    let name = match f {
        Pair::Min => "min"@,
        Pair::Max => "max"@,
    };
    lemma_spelled();
    assert(pair_named(name) == Some(f) && constant_named(name) is None);
    lemma_known_letters(t, name);
}

/// A name of a function of two arguments and a bracket are read as a call of the function.
proof fn lemma_pair_call(s: Seq<char>, t: Seq<char>, f: Pair)
    requires
        is_name(t),
        constant_named(lower_text(t)) is None,
        pair_named(lower_text(t)) == Some(f),
        t.len() < s.len(),
        s.take(t.len() as int) == t,
        stands(s, t.len(), '('),
    ensures
        unary(s, 0) == combined(s, t.len() + 1, f),
{
    lemma_name_ends(s, t);
    lemma_no_skip(s, t.len());
}

/// The smaller and the larger of two are called by name, in whatever case its letters are,
/// with the two expressions as arguments in their order.
#[verifier::rlimit(50)]
pub proof fn calls_of_two_are_read_in_any_case(t: Seq<char>, f: Pair, a: Seq<char>, b: Seq<char>)
    requires
        program(a).error is None,
        program(b).error is None,
        match f {
            Pair::Min => same_letters(t, "min"@),
            Pair::Max => same_letters(t, "max"@),
        },
    ensures
        program(call_of_two(t, a, b)) == (Phrase {
            end: call_of_two(t, a, b).len(),
            code: (program(a).code + program(b).code).push(OpView::Combine(f)),
            error: None,
        }),
{
    lemma_pair_letters(t, f);
    let s = call_of_two(t, a, b);
    let p = t.len();
    let comma = p + a.len() + 3;
    lemma_two_arguments(t, a, b, seq![')']);
    lemma_pair_call(s, t, f);
    let first = Phrase { end: comma, code: program(a).code, error: None };
    let second = Phrase { end: (s.len() - 1) as nat, code: program(b).code, error: None };
    lemma_between_brackets(s, p + 1, a);
    lemma_between_brackets(s, comma + 1, b);
    lemma_atom_is_sum(s, p + 1, first);
    lemma_atom_is_sum(s, comma + 1, second);
    lemma_no_skip(s, comma);
    lemma_no_skip(s, second.end);
    lemma_whole(s, combined(s, p + 1, f));
}

// ---------------------------------------------------------------------------
// Numbers
// ---------------------------------------------------------------------------

/// Whether a text is digits and dots.
pub open spec fn is_digits_and_dots(m: Seq<char>) -> bool {
    forall|i: int| 0 <= i < m.len() ==> '0' <= #[trigger] m[i] <= '9' || m[i] == '.'
}

/// Whether a text holds a digit.
pub open spec fn holds_a_digit(m: Seq<char>) -> bool {
    exists|i: int| 0 <= i < m.len() && '0' <= #[trigger] m[i] <= '9'
}

/// Whether a text holds two dots.
pub open spec fn holds_two_dots(m: Seq<char>) -> bool {
    exists|i: int, k: int|
        0 <= i < k < m.len() && #[trigger] m[i] == '.' && #[trigger] m[k] == '.'
}

/// Whether a text is an exponent: an `e` in either case, a sign or none, and digits.
pub open spec fn is_exponent(x: Seq<char>) -> bool {
    &&& x.len() > 1
    &&& x[0] == 'e' || x[0] == 'E'
    &&& ({
        let k: int = if x[1] == '-' || x[1] == '+' {
            2
        } else {
            1
        };
        k < x.len() && forall|i: int| k <= i < x.len() ==> '0' <= #[trigger] x[i] <= '9'
    })
}

/// Where a number ends that is digits and dots and an exponent or none.
proof fn lemma_number_text(m: Seq<char>, x: Seq<char>)
    requires
        m.len() > 0,
        is_digits_and_dots(m),
        x.len() == 0 || is_exponent(x),
    ensures
        mantissa_end(m + x, 0) == m.len(),
        number_end(m + x, 0) == (m + x).len(),
        (m + x).subrange(0, m.len() as int) == m,
        is_mantissa_spec((m + x)[0]),
{
    let s = m + x;
    let p = |c: char| is_mantissa_spec(c);
    assert forall|i: int| 0 <= i < m.len() implies p(#[trigger] s[i]) by {
        assert(s[i] == m[i]);
    }
    if x.len() > 0 {
        assert(s[m.len() as int] == x[0]);
    }
    lemma_run(s, 0, m.len(), p);
    assert(s.subrange(0, m.len() as int) =~= m);
    assert(s[0] == m[0]);
    if x.len() > 0 {
        let k = exponent_digits(s, m.len());
        assert(s[(m.len() + 1) as int] == x[1]);
        let q = |c: char| is_digit_spec(c);
        assert forall|i: int| k <= i < s.len() implies q(#[trigger] s[i]) by {
            assert(s[i] == x[i - m.len()]);
        }
        lemma_run(s, k, s.len(), q);
    }
}

/// Digits with at most one dot among them are a number, with an exponent or without; it is
/// read whole.
pub proof fn numbers_are_read_whole(m: Seq<char>, x: Seq<char>)
    requires
        is_digits_and_dots(m),
        holds_a_digit(m),
        !holds_two_dots(m),
        x.len() == 0 || is_exponent(x),
    ensures
        program(m + x) == (Phrase {
            end: (m + x).len(),
            code: seq![OpView::Number(m + x)],
            error: None,
        }),
{
    let s = m + x;
    lemma_number_text(m, x);
    let i = choose|i: int| 0 <= i < m.len() && '0' <= #[trigger] m[i] <= '9';
    assert(is_digit_spec(m[i]));
    assert(is_number_spec(m));
    let e = Expr::Number(s);
    assert(e.wf());
    assert(e.written(0) == s);
    written_expressions_are_read_back(e);
}

/// Digits and dots without a digit, or with two dots, are no number; the error quotes them
/// with the exponent that follows.
pub proof fn other_numbers_are_refused(m: Seq<char>, x: Seq<char>)
    requires
        m.len() > 0,
        is_digits_and_dots(m),
        !holds_a_digit(m) || holds_two_dots(m),
        x.len() == 0 || is_exponent(x),
    ensures
        program(m + x).error == Some(SyntaxErrorView::InvalidNumber(m + x)),
{
    let s = m + x;
    lemma_number_text(m, x);
    assert(!is_number_spec(m)) by {
        if is_number_spec(m) {
            let i = choose|i: int| 0 <= i < m.len() && is_digit_spec(#[trigger] m[i]);
            assert('0' <= m[i] <= '9');
            assert(holds_a_digit(m));
        }
    }
    lemma_no_skip(s, 0);
    assert(s.subrange(0, s.len() as int) =~= s);
    assert(unary(s, 0) == number(s, 0));
    lemma_whole_error(s, number(s, 0));
}

/// An `e` without digits behind it is no exponent: the number ends in front of it, and what
/// follows it is unexpected.
pub proof fn exponents_have_digits(m: Seq<char>, e: char)
    requires
        is_digits_and_dots(m),
        holds_a_digit(m),
        !holds_two_dots(m),
        e == 'e' || e == 'E',
    ensures
        program(m.push(e)).error == Some(SyntaxErrorView::UnexpectedCharacter(e, m.len())),
        program(m.push(e)).code == seq![OpView::Number(m)],
{
    let s = m.push(e);
    let p = |c: char| is_mantissa_spec(c);
    assert forall|i: int| 0 <= i < m.len() implies p(#[trigger] s[i]) by {
        assert(s[i] == m[i]);
    }
    lemma_run(s, 0, m.len(), p);
    assert(s.subrange(0, m.len() as int) =~= m);
    let i = choose|i: int| 0 <= i < m.len() && '0' <= #[trigger] m[i] <= '9';
    assert(is_digit_spec(m[i]));
    assert(is_number_spec(m));
    assert(s[0] == m[0]);
    lemma_no_skip(s, 0);
    lemma_no_skip(s, m.len());
    let k = exponent_digits(s, m.len());
    assert(k == s.len());
    assert(digits_end(s, k) == k);
    let phrase = Phrase { end: m.len(), code: seq![OpView::Number(m)], error: None };
    assert(number(s, 0) == phrase);
    assert(unary(s, 0) == phrase);
    assert(power(s, 0) == phrase);
    assert(product_rest(s, phrase) == phrase);
    assert(product(s, 0) == phrase);
    assert(sum_rest(s, phrase) == phrase);
    assert(sum(s, 0) == phrase);
}

// ---------------------------------------------------------------------------
// White space
// ---------------------------------------------------------------------------

/// White space is what Unicode has as such, by its numbers.
pub proof fn white_space_by_numbers(c: char, r: bool)
    requires
        call_ensures(is_space, (c,), r),
    ensures
        r <==> {
            let n = c as int;
            9 <= n <= 13 || n == 32 || n == 133 || n == 160 || n == 5760 || 8192 <= n <= 8202 || n
                == 8232 || n == 8233 || n == 8239 || n == 8287 || n == 12288
        },
{
}

/// Any amount of white space around an expression between brackets changes nothing.
pub proof fn white_space_changes_nothing(w: Seq<char>, a: Seq<char>, v: Seq<char>)
    requires
        program(a).error is None,
        forall|i: int| 0 <= i < w.len() ==> is_space_spec(#[trigger] w[i]),
        forall|i: int| 0 <= i < v.len() ==> is_space_spec(#[trigger] v[i]),
    ensures
        ({
            let s = w + seq!['('] + a + seq![')'] + v;
            program(s) == (Phrase { end: s.len(), code: program(a).code, error: None })
        }),
{
    let s = w + seq!['('] + a + seq![')'] + v;
    let p = w.len();
    let space = |c: char| is_space_spec(c);
    assert forall|i: int| 0 <= i < p implies space(#[trigger] s[i]) by {
        assert(s[i] == w[i]);
    }
    assert(s[p as int] == '(');
    lemma_run(s, 0, p, space);
    assert(embedded(s, p + 1, a)) by {
        reveal(embedded);
        assert forall|i: int| 0 <= i < a.len() implies s[p + 1 + i] == #[trigger] a[i] by {
        }
    }
    lemma_between_brackets(s, p, a);
    lemma_no_skip(s, p);
    let inner = Phrase { end: p + a.len() + 2, code: program(a).code, error: None };
    assert(unary(s, p) == inner);
    assert(unary(s, 0) == atom(s, p));
    assert(unary(s, p) == atom(s, p));
    assert forall|i: int| inner.end <= i < s.len() implies space(#[trigger] s[i]) by {
        assert(s[i] == v[i - inner.end]);
    }
    lemma_run(s, inner.end, s.len(), space);
    lemma_no_skip(s, s.len());
    let whole = Phrase { end: s.len(), ..inner };
    assert(power(s, 0) == whole);
    assert(product_rest(s, whole) == whole);
    assert(product(s, 0) == whole);
    assert(sum_rest(s, whole) == whole);
    assert(sum(s, 0) == whole);
}

// ---------------------------------------------------------------------------
// Compilation
// ---------------------------------------------------------------------------

/// An expression that is written out with the brackets that it needs is compiled to its
/// code, without error.
pub proof fn written_expressions_are_compiled(e: Expr, input: &str, p: Program)
    requires
        e.wf(),
        input@ == e.written(0),
        call_ensures(compile, (input,), p),
    ensures
        p.error is None,
        p.code() == e.postfix(),
{
    written_expressions_are_read_back(e);
}

// ---------------------------------------------------------------------------
// Signs and mistakes
// ---------------------------------------------------------------------------

/// A text between brackets, with what stands in front of them and what follows.
pub open spec fn set_in(front: Seq<char>, a: Seq<char>, rest: Seq<char>) -> Seq<char> {
    front + seq!['('] + a + seq![')'] + rest
}

/// A text between brackets is read in a longer text as it is by itself.
proof fn lemma_in_front(a: Seq<char>, front: Seq<char>, rest: Seq<char>)
    requires
        program(a).error is None,
    ensures
        ({
            let s = set_in(front, a, rest);
            unary(s, front.len()) == (Phrase {
                end: front.len() + a.len() + 2,
                code: program(a).code,
                error: None,
            })
        }),
{
    let s = set_in(front, a, rest);
    let p = front.len();
    assert(embedded(s, p + 1, a)) by {
        reveal(embedded);
        assert forall|i: int| 0 <= i < a.len() implies s[p + 1 + i] == #[trigger] a[i] by {
        }
    }
    lemma_between_brackets(s, p, a);
}

/// A plus sign in front of an expression between brackets changes nothing; a minus sign
/// negates it, and another one negates it again.
pub proof fn signs_are_read_one_by_one(a: Seq<char>)
    requires
        program(a).error is None,
    ensures
        program(set_in(seq!['+'], a, Seq::empty())).code
            == program(a).code,
        program(set_in(seq!['+'], a, Seq::empty())).error is None,
        program(set_in(seq!['-', '-'], a, Seq::empty())).code
            == program(a).code.push(OpView::Negate).push(OpView::Negate),
        program(set_in(seq!['-', '-'], a, Seq::empty())).error is None,
{
    let none = Seq::<char>::empty();
    let plus = set_in(seq!['+'], a, none);
    lemma_in_front(a, seq!['+'], none);
    lemma_no_skip(plus, 0);
    assert(unary(plus, 0) == unary(plus, 1));
    lemma_whole(plus, unary(plus, 0));
    let twice = set_in(seq!['-', '-'], a, none);
    lemma_in_front(a, seq!['-', '-'], none);
    lemma_no_skip(twice, 0);
    lemma_no_skip(twice, 1);
    let inner = unary(twice, 2);
    assert(unary(twice, 1) == (Phrase { code: inner.code.push(OpView::Negate), ..inner }));
    assert(unary(twice, 0) == (Phrase {
        code: inner.code.push(OpView::Negate).push(OpView::Negate),
        ..inner
    }));
    lemma_whole(twice, unary(twice, 0));
}

/// What follows a whole expression and cannot go on with it is an unexpected character, at
/// the place where it stands. The expression has been read by then.
pub proof fn what_follows_is_unexpected(a: Seq<char>, c: char, rest: Seq<char>)
    requires
        program(a).error is None,
        !is_space_spec(c),
        c != '+' && c != '-' && c != '*' && c != '/' && c != '^',
    ensures
        ({
            let s = set_in(Seq::empty(), a, seq![c] + rest);
            &&& program(s).error == Some(
                SyntaxErrorView::UnexpectedCharacter(c, (a.len() + 2) as nat),
            )
            &&& program(s).code == program(a).code
        }),
{
    let none = Seq::<char>::empty();
    let s = set_in(none, a, seq![c] + rest);
    lemma_in_front(a, none, seq![c] + rest);
    let phrase = unary(s, 0);
    assert(s[phrase.end as int] == c);
    lemma_no_skip(s, phrase.end);
    assert(power(s, 0) == phrase);
    assert(product_rest(s, phrase) == phrase);
    assert(product(s, 0) == phrase);
    assert(sum_rest(s, phrase) == phrase);
    assert(sum(s, 0) == phrase);
}

/// Where an operand is missing at the end of a text, the end of the text is what is
/// unexpected, and nothing is done with the operand that is there.
pub proof fn missing_operands_are_noticed(a: Seq<char>, sign: char)
    requires
        program(a).error is None,
        sign == '+' || sign == '-' || sign == '*' || sign == '/' || sign == '^',
    ensures
        ({
            let s = set_in(Seq::empty(), a, seq![sign]);
            &&& program(s).error == Some(SyntaxErrorView::UnexpectedToken(s.len()))
            &&& program(s).code == program(a).code
        }),
{
    let none = Seq::<char>::empty();
    let s = set_in(none, a, seq![sign]);
    lemma_in_front(a, none, seq![sign]);
    let left = unary(s, 0);
    let end = s.len();
    assert(s[left.end as int] == sign);
    lemma_no_skip(s, left.end);
    lemma_no_skip(s, end);
    let missing = broken(end, SyntaxErrorView::UnexpectedToken(end));
    assert(atom(s, end) == missing);
    assert(unary(s, end) == missing);
    assert(power(s, end) == missing);
    assert(product(s, end) == missing);
    assert(left.code + missing.code =~= left.code);
    if sign == '^' {
        assert(power(s, 0).error == Some(SyntaxErrorView::UnexpectedToken(end)));
    } else if sign == '*' || sign == '/' {
        assert(power(s, 0) == left);
        assert(product_rest(s, left).error == Some(SyntaxErrorView::UnexpectedToken(end)));
    } else {
        assert(power(s, 0) == left);
        assert(product_rest(s, left) == left);
        assert(product(s, 0) == left);
        assert(sum_rest(s, left).error == Some(SyntaxErrorView::UnexpectedToken(end)));
    }
}

/// Where a bracket is not closed at the end of a text, the closing bracket is what is
/// expected there.
pub proof fn open_brackets_are_noticed(a: Seq<char>)
    requires
        program(a).error is None,
    ensures
        ({
            let s = set_in(seq!['('], a, Seq::empty());
            program(s).error == Some(SyntaxErrorView::Expected(')', s.len()))
        }),
{
    let none = Seq::<char>::empty();
    let s = set_in(seq!['('], a, none);
    lemma_in_front(a, seq!['('], none);
    let inner = unary(s, 1);
    lemma_no_skip(s, s.len());
    lemma_no_skip(s, 0);
    assert(power(s, 1) == inner);
    assert(product_rest(s, inner) == inner);
    assert(product(s, 1) == inner);
    assert(sum_rest(s, inner) == inner);
    assert(sum(s, 1) == inner);
    assert(unary(s, 0) == atom(s, 0));
    lemma_whole_error(s, unary(s, 0));
}

/// The smaller and the larger of two ask for a second argument.
pub proof fn second_arguments_are_asked_for(t: Seq<char>, a: Seq<char>)
    requires
        program(a).error is None,
        same_letters(t, "min"@) || same_letters(t, "max"@),
    ensures
        ({
            let s = set_in(t + seq!['('], a, seq![')']);
            program(s).error == Some(SyntaxErrorView::Expected(',', (s.len() - 1) as nat))
        }),
{
    lemma_pair_letters(
        t,
        if same_letters(t, "min"@) {
            Pair::Min
        } else {
            Pair::Max
        },
    );
    let s = set_in(t + seq!['('], a, seq![')']);
    let front = t + seq!['('];
    let p = t.len();
    assert(s.take(p as int) =~= t);
    lemma_name_ends(s, t);
    lemma_no_skip(s, p);
    lemma_in_front(a, front, seq![')']);
    let first = unary(s, p + 1);
    assert(s[first.end as int] == ')');
    lemma_atom_is_sum(s, p + 1, first);
    lemma_no_skip(s, first.end);
    lemma_whole_error(s, unary(s, 0));
}

// ---------------------------------------------------------------------------
// What does not belong together
// ---------------------------------------------------------------------------

/// Whether a character is white space or the sign of an operation.
pub open spec fn goes_on(c: char) -> bool {
    is_space_spec(c) || c == '+' || c == '-' || c == '*' || c == '/' || c == '^'
}

/// What follows an operand and cannot go on with it ends the sum.
proof fn lemma_sum_stops(s: Seq<char>, pos: nat, phrase: Phrase)
    requires
        unary(s, pos) == phrase,
        phrase.error is None,
        pos <= phrase.end < s.len(),
        !goes_on(s[phrase.end as int]),
    ensures
        sum(s, pos) == phrase,
{
    lemma_no_skip(s, phrase.end);
    assert(power(s, pos) == phrase);
    assert(product_rest(s, phrase) == phrase);
    assert(product(s, pos) == phrase);
    assert(sum_rest(s, phrase) == phrase);
}

/// White space is skipped up to the next other character.
proof fn lemma_skipped(s: Seq<char>, from: nat, to: nat)
    requires
        from <= to < s.len(),
        forall|i: int| from <= i < to ==> is_space_spec(#[trigger] s[i]),
        !is_space_spec(s[to as int]),
    ensures
        skip(s, from) == to,
        skip(s, to) == to,
{
    let p = |d: char| is_space_spec(d);
    assert forall|i: int| from <= i < to implies p(#[trigger] s[i]) by {
    }
    lemma_run(s, from, to, p);
    lemma_no_skip(s, to);
}

/// What follows an operand behind white space and cannot go on with it ends the sum.
proof fn lemma_sum_stops_behind(s: Seq<char>, pos: nat, phrase: Phrase, to: nat)
    requires
        unary(s, pos) == phrase,
        phrase.error is None,
        pos <= phrase.end <= to < s.len(),
        forall|i: int| phrase.end <= i < to ==> is_space_spec(#[trigger] s[i]),
        !goes_on(s[to as int]),
    ensures
        sum(s, pos) == (Phrase { end: to, ..phrase }),
        skip(s, to) == to,
{
    let whole = Phrase { end: to, ..phrase };
    lemma_skipped(s, phrase.end, to);
    assert(power(s, pos) == whole);
    assert(product_rest(s, whole) == whole);
    assert(product(s, pos) == whole);
    assert(sum_rest(s, whole) == whole);
}

/// A number goes on to its last digit, and no further: neither over white space, nor into
/// what stands right behind it, with which it is not multiplied either. What follows it and
/// cannot go on with a sum is unexpected.
pub proof fn numbers_stand_by_themselves(
    m: Seq<char>,
    w: Seq<char>,
    c: char,
    rest: Seq<char>,
)
    requires
        is_digits_and_dots(m),
        holds_a_digit(m),
        !holds_two_dots(m),
        forall|i: int| 0 <= i < w.len() ==> is_space_spec(#[trigger] w[i]),
        !goes_on(c),
        w.len() == 0 ==> !('0' <= c <= '9') && c != '.' && c != 'e' && c != 'E',
    ensures
        program(m + w + seq![c] + rest).error == Some(
            SyntaxErrorView::UnexpectedCharacter(c, m.len() + w.len()),
        ),
        program(m + w + seq![c] + rest).code == seq![OpView::Number(m)],
{
    let s = m + w + seq![c] + rest;
    let p = |d: char| is_mantissa_spec(d);
    assert forall|i: int| 0 <= i < m.len() implies p(#[trigger] s[i]) by {
        assert(s[i] == m[i]);
    }
    let to = m.len() + w.len();
    assert(s[to as int] == c);
    assert forall|i: int| m.len() <= i < to implies is_space_spec(#[trigger] s[i]) by {
        assert(s[i] == w[i - m.len()]);
    }
    assert(s[m.len() as int] == if w.len() > 0 {
        w[0]
    } else {
        c
    });
    lemma_run(s, 0, m.len(), p);
    assert(s.subrange(0, m.len() as int) =~= m);
    let i = choose|i: int| 0 <= i < m.len() && '0' <= #[trigger] m[i] <= '9';
    assert(is_digit_spec(m[i]));
    assert(is_number_spec(m));
    assert(s[0] == m[0]);
    lemma_no_skip(s, 0);
    let phrase = Phrase { end: m.len(), code: seq![OpView::Number(m)], error: None };
    assert(number(s, 0) == phrase);
    assert(unary(s, 0) == phrase);
    lemma_sum_stops_behind(s, 0, phrase, to);
}

/// White space may stand between the name of a function and its bracket.
pub proof fn names_may_have_white_space_behind(
    t: Seq<char>,
    w: Seq<char>,
    a: Seq<char>,
)
    requires
        program(a).error is None,
        is_name(t),
        constant_named(lower_text(t)) is None,
        pair_named(lower_text(t)) is None,
        function_named(lower_text(t)) is Some,
        forall|i: int| 0 <= i < w.len() ==> is_space_spec(#[trigger] w[i]),
    ensures
        program(set_in(t + w, a, Seq::empty())).error is None,
        program(set_in(t + w, a, Seq::empty())).code == program(a).code.push(
            OpView::Apply(function_named(lower_text(t))->0),
        ),
{
    let none = Seq::<char>::empty();
    let s = set_in(t + w, a, none);
    let p = t.len() + w.len();
    assert(s.take(t.len() as int) =~= t);
    assert(s[p as int] == '(');
    assert forall|i: int| t.len() <= i < p implies is_space_spec(#[trigger] s[i]) by {
        assert(s[i] == w[i - t.len()]);
    }
    assert(s[t.len() as int] == if w.len() > 0 {
        w[0]
    } else {
        '('
    });
    lemma_name_ends(s, t);
    lemma_skipped(s, t.len(), p);
    lemma_in_front(a, t + w, none);
    assert(unary(s, p) == atom(s, p));
    assert(atom(s, p) == closed_by(s, sum(s, p + 1), ')'));
    lemma_whole(s, unary(s, 0));
}

/// A constant is not called, nor multiplied with what stands right behind it.
pub proof fn constants_stand_by_themselves(t: Seq<char>, k: Constant, rest: Seq<char>)
    requires
        match k {
            Constant::Pi => same_letters(t, "pi"@),
            Constant::E => same_letters(t, "e"@),
            Constant::Tau => same_letters(t, "tau"@),
        },
    ensures
        program(t + seq!['('] + rest).error == Some(
            SyntaxErrorView::UnexpectedCharacter('(', t.len()),
        ),
        program(t + seq!['('] + rest).code == seq![OpView::Constant(k)],
{
    let name = match k {
        Constant::Pi => "pi"@,
        Constant::E => "e"@,
        Constant::Tau => "tau"@,
    };
    constants_have_these_names(name);
    lemma_known_letters(t, name);
    let s = t + seq!['('] + rest;
    assert(s.take(t.len() as int) =~= t);
    assert(s[t.len() as int] == '(');
    lemma_name_ends(s, t);
    let phrase = Phrase { end: t.len(), code: seq![OpView::Constant(k)], error: None };
    assert(unary(s, 0) == phrase);
    lemma_sum_stops(s, 0, phrase);
    lemma_no_skip(s, t.len());
}

/// Whether an operand can start with a character: a digit, a dot, a letter, an underscore, an
/// opening bracket or a sign.
pub open spec fn starts_operand(c: char) -> bool {
    ||| '0' <= c <= '9'
    ||| 'a' <= c <= 'z'
    ||| 'A' <= c <= 'Z'
    ||| c == '.'
    ||| c == '_'
    ||| c == '('
    ||| c == '+'
    ||| c == '-'
}

/// Where no operand starts, none is read.
proof fn lemma_no_operand(s: Seq<char>, pos: nat)
    requires
        pos < s.len(),
        !is_space_spec(s[pos as int]),
        !starts_operand(s[pos as int]),
    ensures
        unary(s, pos) == broken(pos, SyntaxErrorView::UnexpectedToken(pos)),
        power(s, pos) == broken(pos, SyntaxErrorView::UnexpectedToken(pos)),
        product(s, pos) == broken(pos, SyntaxErrorView::UnexpectedToken(pos)),
        sum(s, pos) == broken(pos, SyntaxErrorView::UnexpectedToken(pos)),
{
    lemma_no_skip(s, pos);
    assert(atom(s, pos) == broken(pos, SyntaxErrorView::UnexpectedToken(pos)));
}

/// Behind the sign of an operation an operand has to start; what cannot start one is
/// unexpected there. So no two signs make one operation.
pub proof fn operations_need_operands(a: Seq<char>, sign: char, c: char, rest: Seq<char>)
    requires
        program(a).error is None,
        sign == '+' || sign == '-' || sign == '*' || sign == '/' || sign == '^',
        !is_space_spec(c),
        !starts_operand(c),
    ensures
        ({
            let s = set_in(Seq::empty(), a, seq![sign, c] + rest);
            &&& program(s).error == Some(SyntaxErrorView::UnexpectedToken((a.len() + 3) as nat))
            &&& program(s).code == program(a).code
        }),
{
    let none = Seq::<char>::empty();
    let s = set_in(none, a, seq![sign, c] + rest);
    lemma_in_front(a, none, seq![sign, c] + rest);
    let left = unary(s, 0);
    let p = left.end;
    assert(s[p as int] == sign);
    assert(s[(p + 1) as int] == c);
    lemma_no_skip(s, p);
    lemma_no_operand(s, p + 1);
    let missing = broken(p + 1, SyntaxErrorView::UnexpectedToken(p + 1));
    assert(left.code + missing.code =~= left.code);
    if sign == '^' {
        assert(power(s, 0).error == missing.error);
    } else if sign == '*' || sign == '/' {
        assert(power(s, 0) == left);
        assert(product_rest(s, left).error == missing.error);
    } else {
        assert(power(s, 0) == left);
        assert(product_rest(s, left) == left);
        assert(product(s, 0) == left);
        assert(sum_rest(s, left).error == missing.error);
    }
}

/// Between brackets there is something: a bracket that is closed at once holds no operand.
pub proof fn brackets_are_not_empty(t: Seq<char>, rest: Seq<char>)
    requires
        is_name(t),
        constant_named(lower_text(t)) is None,
    ensures
        program(seq!['(', ')'] + rest).error == Some(SyntaxErrorView::UnexpectedToken(1)),
        program(t + seq!['(', ')'] + rest).error == Some(
            SyntaxErrorView::UnexpectedToken((t.len() + 1) as nat),
        ),
{
    let s = seq!['(', ')'] + rest;
    lemma_no_skip(s, 0);
    lemma_no_operand(s, 1);
    assert(unary(s, 0) == atom(s, 0));
    lemma_whole_error(s, unary(s, 0));
    let u = t + seq!['(', ')'] + rest;
    let p = t.len();
    assert(u.take(p as int) =~= t);
    lemma_name_ends(u, t);
    lemma_no_skip(u, p);
    lemma_no_operand(u, p + 1);
    lemma_whole_error(u, unary(u, 0));
}

/// A bracket is closed behind one expression, and a function of one argument takes one: what
/// follows the expression and cannot go on with it has to be the closing bracket.
pub proof fn brackets_hold_one_expression(t: Seq<char>, a: Seq<char>, c: char, rest: Seq<char>)
    requires
        program(a).error is None,
        !goes_on(c),
        c != ')',
        is_name(t),
        constant_named(lower_text(t)) is None,
        pair_named(lower_text(t)) is None,
    ensures
        program(set_in(seq!['('], a, seq![c] + rest)).error == Some(
            SyntaxErrorView::Expected(')', (a.len() + 3) as nat),
        ),
        program(set_in(t + seq!['('], a, seq![c] + rest)).error == Some(
            SyntaxErrorView::Expected(')', (t.len() + a.len() + 3) as nat),
        ),
{
    let s = set_in(seq!['('], a, seq![c] + rest);
    lemma_in_front(a, seq!['('], seq![c] + rest);
    let inner = unary(s, 1);
    assert(s[inner.end as int] == c);
    lemma_sum_stops(s, 1, inner);
    lemma_no_skip(s, inner.end);
    lemma_no_skip(s, 0);
    assert(unary(s, 0) == atom(s, 0));
    lemma_whole_error(s, unary(s, 0));
    let front = t + seq!['('];
    let u = set_in(front, a, seq![c] + rest);
    let p = t.len();
    assert(u.take(p as int) =~= t);
    lemma_name_ends(u, t);
    lemma_no_skip(u, p);
    lemma_in_front(a, front, seq![c] + rest);
    let argument = unary(u, p + 1);
    assert(u[argument.end as int] == c);
    lemma_sum_stops(u, p + 1, argument);
    lemma_no_skip(u, argument.end);
    lemma_whole_error(u, unary(u, 0));
}

/// Two arguments that are followed by no closing bracket.
proof fn lemma_combined_stops(s: Seq<char>, pos: nat, f: Pair, first: Phrase, second: Phrase)
    requires
        unary(s, pos) == first,
        first.error is None,
        pos <= first.end,
        stands(s, first.end, ','),
        unary(s, first.end + 1) == second,
        second.error is None,
        first.end < second.end < s.len(),
        !goes_on(s[second.end as int]),
        s[second.end as int] != ')',
    ensures
        combined(s, pos, f).error == Some(SyntaxErrorView::Expected(')', second.end)),
{
    lemma_atom_is_sum(s, pos, first);
    lemma_no_skip(s, first.end);
    lemma_sum_stops(s, first.end + 1, second);
    lemma_no_skip(s, second.end);
}

/// The smaller and the larger of two take two arguments and no more: what follows the second
/// and cannot go on with it has to be the closing bracket.
#[verifier::rlimit(50)]
pub proof fn pairs_take_two_arguments(
    t: Seq<char>,
    f: Pair,
    a: Seq<char>,
    b: Seq<char>,
    c: char,
    rest: Seq<char>,
)
    requires
        program(a).error is None,
        program(b).error is None,
        match f {
            Pair::Min => same_letters(t, "min"@),
            Pair::Max => same_letters(t, "max"@),
        },
        !goes_on(c),
        c != ')',
    ensures
        program(two_arguments(t, a, b, seq![c] + rest)).error == Some(
            SyntaxErrorView::Expected(')', (t.len() + a.len() + b.len() + 6) as nat),
        ),
{
    lemma_pair_letters(t, f);
    lemma_two_arguments(t, a, b, seq![c] + rest);
    let s = two_arguments(t, a, b, seq![c] + rest);
    let p = t.len();
    let comma = p + a.len() + 3;
    lemma_between_brackets(s, p + 1, a);
    lemma_between_brackets(s, comma + 1, b);
    let first = Phrase { end: comma, code: program(a).code, error: None };
    let second = Phrase { end: comma + b.len() + 3, code: program(b).code, error: None };
    lemma_combined_stops(s, p + 1, f, first, second);
    lemma_pair_call(s, t, f);
    lemma_whole_error(s, combined(s, p + 1, f));
}

/// An operation says what it is.
pub proof fn operations_say_what_they_are(op: Op)
    ensures
        match op {
            Op::Number(text) => op@ == OpView::Number(text@),
            Op::Constant(c) => op@ == OpView::Constant(c),
            Op::Negate => op@ == OpView::Negate,
            Op::Add => op@ == OpView::Add,
            Op::Subtract => op@ == OpView::Subtract,
            Op::Multiply => op@ == OpView::Multiply,
            Op::Divide => op@ == OpView::Divide,
            Op::Power => op@ == OpView::Power,
            Op::Apply(f) => op@ == OpView::Apply(f),
            Op::Combine(f) => op@ == OpView::Combine(f),
        },
{
}

} // verus!
