//! What the grammar makes of an expression that is written out, and what its value is.
use vstd::prelude::*;
use crate::calc::{
    applied, arity_spec, atom, checked, classified, closed_by, code_view, combined, constant_named,
    digits_end, evaluates, exponent_digits, fault, fault_text, function_named, is_digit_spec,
    is_mantissa_spec, is_name_part_spec, is_name_start_spec, is_number_spec, is_space_spec,
    is_value_of, lower_text, mantissa_end, may_yield, name_end, named, number, number_end,
    pair_named, power, product, product_rest, program, refuses, runs, skip, span_end, stands, steps,
    sum, sum_rest, unary, Class, Constant, Function, Op, OpView, Pair, Phrase,
};

verus! {

/// An operation on two numbers.
pub enum Operator {
    Add,
    Subtract,
    Multiply,
    Divide,
    Power,
}

/// An expression as a tree.
pub enum Expr {
    /// A number by its text.
    Number(Seq<char>),
    Constant(Constant),
    Negate(Box<Expr>),
    Binary(Operator, Box<Expr>, Box<Expr>),
    Apply(Function, Box<Expr>),
    Combine(Pair, Box<Expr>, Box<Expr>),
}

impl Operator {
    /// The character that stands for the operation.
    pub open spec fn sign(self) -> char {
        match self {
            Operator::Add => '+',
            Operator::Subtract => '-',
            Operator::Multiply => '*',
            Operator::Divide => '/',
            Operator::Power => '^',
        }
    }

    /// How tightly the left operand has to bind: sums and products are carried out from left
    /// to right, but a power takes no other as its base.
    pub open spec fn left(self) -> nat {
        match self {
            Operator::Add | Operator::Subtract => 0,
            Operator::Multiply | Operator::Divide => 1,
            Operator::Power => 3,
        }
    }

    /// How tightly the operation itself binds.
    pub open spec fn level(self) -> nat {
        match self {
            Operator::Add | Operator::Subtract => 0,
            Operator::Multiply | Operator::Divide => 1,
            Operator::Power => 2,
        }
    }

    /// How tightly the right operand has to bind: powers are carried out from right to left.
    pub open spec fn right(self) -> nat {
        match self {
            Operator::Add | Operator::Subtract => 1,
            Operator::Multiply | Operator::Divide => 2,
            Operator::Power => 2,
        }
    }

    /// The operation in stack code.
    pub open spec fn op(self) -> OpView {
        match self {
            Operator::Add => OpView::Add,
            Operator::Subtract => OpView::Subtract,
            Operator::Multiply => OpView::Multiply,
            Operator::Divide => OpView::Divide,
            Operator::Power => OpView::Power,
        }
    }
}

/// The name of a constant.
pub open spec fn constant_name(c: Constant) -> Seq<char> {
    match c {
        Constant::Pi => "pi"@,
        Constant::E => "e"@,
        Constant::Tau => "tau"@,
    }
}

/// A name of a function.
pub open spec fn function_name(f: Function) -> Seq<char> {
    match f {
        Function::Sqrt => "sqrt"@,
        Function::Abs => "abs"@,
        Function::Sin => "sin"@,
        Function::Cos => "cos"@,
        Function::Tan => "tan"@,
        Function::Asin => "asin"@,
        Function::Acos => "acos"@,
        Function::Atan => "atan"@,
        Function::Exp => "exp"@,
        Function::Ln => "ln"@,
        Function::Log10 => "log10"@,
        Function::Floor => "floor"@,
        Function::Ceil => "ceil"@,
        Function::Round => "round"@,
    }
}

/// The name of a function of two arguments.
pub open spec fn pair_name(f: Pair) -> Seq<char> {
    match f {
        Pair::Min => "min"@,
        Pair::Max => "max"@,
    }
}

/// Whether a text is a number from its first character to its last.
pub open spec fn is_literal(t: Seq<char>) -> bool {
    &&& t.len() > 0
    &&& is_mantissa_spec(t[0])
    &&& number_end(t, 0) == t.len()
    &&& is_number_spec(t.subrange(0, mantissa_end(t, 0) as int))
}

impl Expr {
    /// Whether the numbers in the tree are numbers.
    pub open spec fn wf(self) -> bool
        decreases self,
    {
        match self {
            Expr::Number(t) => is_literal(t),
            Expr::Constant(_) => true,
            Expr::Negate(x) => x.wf(),
            Expr::Binary(_, a, b) => a.wf() && b.wf(),
            Expr::Apply(_, x) => x.wf(),
            Expr::Combine(_, a, b) => a.wf() && b.wf(),
        }
    }

    /// How tightly the expression binds: from a sum on, which does so least, over products,
    /// powers and signs to what stands by itself.
    pub open spec fn level(self) -> nat {
        match self {
            Expr::Binary(op, _, _) => op.level(),
            Expr::Negate(_) => 3,
            _ => 4,
        }
    }

    /// The expression written out, without brackets around it.
    pub open spec fn bare(self) -> Seq<char>
        decreases self, 0int,
    {
        match self {
            Expr::Number(t) => t,
            Expr::Constant(c) => constant_name(c),
            Expr::Negate(x) => seq!['-'] + x.written(3),
            Expr::Binary(op, a, b) => a.written(op.left()) + seq![op.sign()] + b.written(op.right()),
            Expr::Apply(f, x) => function_name(f) + seq!['('] + x.written(0) + seq![')'],
            Expr::Combine(f, a, b) => pair_name(f) + seq!['('] + a.written(0) + seq![',']
                + b.written(0) + seq![')'],
        }
    }

    /// The expression written out where something is asked for that binds at least as
    /// tightly as `level`: with brackets around it if it binds less.
    pub open spec fn written(self, level: nat) -> Seq<char>
        decreases self, 1int,
    {
        if self.level() >= level {
            self.bare()
        } else {
            seq!['('] + self.bare() + seq![')']
        }
    }

    /// The stack code of the expression: operands first, then the operation on them.
    pub open spec fn postfix(self) -> Seq<OpView>
        decreases self,
    {
        match self {
            Expr::Number(t) => seq![OpView::Number(t)],
            Expr::Constant(c) => seq![OpView::Constant(c)],
            Expr::Negate(x) => x.postfix().push(OpView::Negate),
            Expr::Binary(op, a, b) => (a.postfix() + b.postfix()).push(op.op()),
            Expr::Apply(f, x) => x.postfix().push(OpView::Apply(f)),
            Expr::Combine(f, a, b) => (a.postfix() + b.postfix()).push(OpView::Combine(f)),
        }
    }
}

/// Whether `t` stands in `s` at `pos`.
pub open spec fn occurs(s: Seq<char>, pos: nat, t: Seq<char>) -> bool {
    &&& pos + t.len() <= s.len()
    &&& forall|i: int| 0 <= i < t.len() ==> s[pos + i] == #[trigger] t[i]
}

/// Whether the text ends at `pos`, or what follows can neither go on with a number or a
/// name nor be skipped.
spec fn ends(s: Seq<char>, pos: nat) -> bool {
    pos < s.len() ==> {
        let c = s[pos as int];
        c == '+' || c == '-' || c == '*' || c == '/' || c == '^' || c == ')' || c == '(' || c == ','
    }
}

/// A span of characters that stands in a longer text ends there where it ends by itself, if
/// what follows does not go on with it.
pub proof fn lemma_span(s: Seq<char>, pos: nat, t: Seq<char>, k: nat, p: spec_fn(char) -> bool)
    requires
        occurs(s, pos, t),
        k <= t.len(),
        pos + t.len() < s.len() ==> !p(s[(pos + t.len()) as int]),
    ensures
        span_end(s, pos + k, p) == pos + span_end(t, k, p),
        k <= span_end(t, k, p) <= t.len(),
    decreases t.len() - k,
{
    if k < t.len() {
        assert(s[(pos + k) as int] == t[k as int]);
        if p(t[k as int]) {
            lemma_span(s, pos, t, k + 1, p);
        }
    }
}

/// A number that stands in a longer text ends there where it ends by itself.
proof fn lemma_number(s: Seq<char>, pos: nat, t: Seq<char>)
    requires
        occurs(s, pos, t),
        is_literal(t),
        ends(s, pos + t.len()),
    ensures
        number_end(s, pos) == pos + t.len(),
        mantissa_end(s, pos) == pos + mantissa_end(t, 0),
        mantissa_end(t, 0) <= t.len(),
{
    lemma_span(s, pos, t, 0, |c: char| is_mantissa_spec(c));
    let m = mantissa_end(t, 0);
    assert(mantissa_end(s, pos) == pos + m);
    if m < t.len() {
        assert(stands(t, m, 'e') || stands(t, m, 'E'));
        assert(s[(pos + m) as int] == t[m as int]);
        let k = exponent_digits(t, m);
        assert(digits_end(t, k) == t.len());
        if k > t.len() {
            assert(span_end(t, k, |c: char| is_digit_spec(c)) == k);
        }
        assert(k < t.len());
        assert(s[(pos + m + 1) as int] == t[(m + 1) as int]);
        assert(exponent_digits(s, pos + m) == pos + k);
        lemma_span(s, pos, t, k, |c: char| is_digit_spec(c));
    }
}

/// What is true of every name that the grammar knows.
spec fn is_plain_name(name: Seq<char>) -> bool {
    &&& name.len() > 0
    &&& is_name_start_spec(name[0])
    &&& forall|i: int| 0 <= i < name.len() ==> is_name_part_spec(#[trigger] name[i])
    &&& lower_text(name) == name
}

/// Constants are found by their names.
proof fn lemma_constant_name(c: Constant)
    ensures
        is_plain_name(constant_name(c)),
        constant_named(constant_name(c)) == Some(c),
{
    reveal_strlit("pi");
    reveal_strlit("e");
    reveal_strlit("tau");
    let name = constant_name(c);
    assert(lower_text(name) =~= name);
}

/// Functions are found by their names, which are no constants.
proof fn lemma_function_name(f: Function)
    ensures
        is_plain_name(function_name(f)),
        constant_named(function_name(f)) is None,
        pair_named(function_name(f)) is None,
        function_named(function_name(f)) == Some(f),
{
    reveal_strlit("min");
    reveal_strlit("max");
    assert("min"@[0] == 'm' && "max"@[0] == 'm');
    reveal_strlit("pi");
    reveal_strlit("e");
    reveal_strlit("tau");
    reveal_strlit("sqrt");
    reveal_strlit("root");
    reveal_strlit("abs");
    reveal_strlit("sin");
    reveal_strlit("cos");
    reveal_strlit("tan");
    reveal_strlit("asin");
    reveal_strlit("acos");
    reveal_strlit("atan");
    reveal_strlit("exp");
    reveal_strlit("ln");
    reveal_strlit("log");
    reveal_strlit("log10");
    reveal_strlit("floor");
    reveal_strlit("ceil");
    reveal_strlit("round");
    assert("pi"@[0] == 'p' && "pi"@[1] == 'i');
    assert("tau"@[0] == 't' && "tau"@[1] == 'a' && "tau"@[2] == 'u');
    assert("sqrt"@[0] == 's' && "sqrt"@[1] == 'q' && "sqrt"@[2] == 'r');
    assert("root"@[0] == 'r' && "root"@[1] == 'o' && "root"@[2] == 'o');
    assert("abs"@[0] == 'a' && "abs"@[1] == 'b' && "abs"@[2] == 's');
    assert("sin"@[0] == 's' && "sin"@[1] == 'i' && "sin"@[2] == 'n');
    assert("cos"@[0] == 'c' && "cos"@[1] == 'o' && "cos"@[2] == 's');
    assert("tan"@[0] == 't' && "tan"@[1] == 'a' && "tan"@[2] == 'n');
    assert("asin"@[0] == 'a' && "asin"@[1] == 's' && "asin"@[2] == 'i');
    assert("acos"@[0] == 'a' && "acos"@[1] == 'c' && "acos"@[2] == 'o');
    assert("atan"@[0] == 'a' && "atan"@[1] == 't' && "atan"@[2] == 'a');
    assert("exp"@[0] == 'e' && "exp"@[1] == 'x' && "exp"@[2] == 'p');
    assert("ln"@[0] == 'l' && "ln"@[1] == 'n');
    assert("log"@[0] == 'l' && "log"@[1] == 'o' && "log"@[2] == 'g');
    assert("log10"@[0] == 'l' && "log10"@[1] == 'o' && "log10"@[2] == 'g');
    assert("floor"@[0] == 'f' && "floor"@[1] == 'l' && "floor"@[2] == 'o');
    assert("ceil"@[0] == 'c' && "ceil"@[1] == 'e' && "ceil"@[2] == 'i');
    assert("round"@[0] == 'r' && "round"@[1] == 'o' && "round"@[2] == 'u');
    let name = function_name(f);
    assert(lower_text(name) =~= name);
}

/// Functions of two arguments are found by their names, which are no constants.
proof fn lemma_pair_name(f: Pair)
    ensures
        is_plain_name(pair_name(f)),
        constant_named(pair_name(f)) is None,
        pair_named(pair_name(f)) == Some(f),
{
    reveal_strlit("pi");
    reveal_strlit("e");
    reveal_strlit("tau");
    reveal_strlit("min");
    reveal_strlit("max");
    assert("tau"@[0] == 't' && "min"@[0] == 'm' && "max"@[0] == 'm');
    assert("min"@[1] == 'i' && "max"@[1] == 'a');
    let name = pair_name(f);
    assert(lower_text(name) =~= name);
}

/// A name that stands in a longer text ends there where it ends by itself.
proof fn lemma_name(s: Seq<char>, pos: nat, name: Seq<char>)
    requires
        occurs(s, pos, name),
        is_plain_name(name),
        ends(s, pos + name.len()),
    ensures
        name_end(s, pos) == pos + name.len(),
        lower_text(s.subrange(pos as int, name_end(s, pos) as int)) == name,
{
    lemma_span(s, pos, name, 0, |c: char| is_name_part_spec(c));
    lemma_all_span(name, 0, |c: char| is_name_part_spec(c));
    assert(s.subrange(pos as int, (pos + name.len()) as int) =~= name);
}

/// A text whose characters all pass is spanned to its end.
proof fn lemma_all_span(t: Seq<char>, k: nat, p: spec_fn(char) -> bool)
    requires
        k <= t.len(),
        forall|i: int| 0 <= i < t.len() ==> p(#[trigger] t[i]),
    ensures
        span_end(t, k, p) == t.len(),
    decreases t.len() - k,
{
    if k < t.len() {
        lemma_all_span(t, k + 1, p);
    }
}

/// Nothing is skipped where there is no white space.
pub proof fn lemma_no_skip(s: Seq<char>, pos: nat)
    requires
        pos < s.len() ==> !is_space_spec(s[pos as int]),
    ensures
        skip(s, pos) == pos,
{
}

/// Whether what follows at `pos` does not go on with an expression that binds at least as
/// tightly as `level`.
spec fn closes(s: Seq<char>, pos: nat, level: nat) -> bool {
    &&& ends(s, pos)
    &&& !stands(s, pos, '(')
    &&& level <= 2 ==> !stands(s, pos, '^')
    &&& level == 0 ==> !stands(s, pos, '*') && !stands(s, pos, '/')
}

/// Whether `phrase` is what is read at `pos` where something is asked for that binds at
/// least as tightly as `level`; a sum or a product may go on behind it.
spec fn reads(s: Seq<char>, pos: nat, level: nat, phrase: Phrase) -> bool {
    if level == 0 {
        sum(s, pos) == sum_rest(s, phrase)
    } else if level == 1 {
        product(s, pos) == product_rest(s, phrase)
    } else if level == 2 {
        power(s, pos) == phrase
    } else {
        unary(s, pos) == phrase
    }
}

/// A product ends where neither `*` nor `/` follows.
proof fn lemma_product_ends(s: Seq<char>, phrase: Phrase)
    requires
        closes(s, phrase.end, 0),
    ensures
        product_rest(s, phrase) == phrase,
{
    lemma_no_skip(s, phrase.end);
}

/// A sum ends where a bracket is closed, a comma follows or the text is over.
proof fn lemma_sum_ends(s: Seq<char>, phrase: Phrase)
    requires
        phrase.end < s.len() ==> s[phrase.end as int] == ')' || s[phrase.end as int] == ',',
    ensures
        sum_rest(s, phrase) == phrase,
{
    lemma_no_skip(s, phrase.end);
}

/// What binds tightly is read too where less is asked for.
proof fn lemma_lower_level(s: Seq<char>, pos: nat, from: nat, to: nat, phrase: Phrase)
    requires
        reads(s, pos, from, phrase),
        phrase.error is None,
        pos <= phrase.end <= s.len(),
        to <= from,
        closes(s, phrase.end, to),
    ensures
        reads(s, pos, to, phrase),
{
    lemma_no_skip(s, phrase.end);
    if from >= 3 && to <= 2 {
        assert(power(s, pos) == phrase);
    }
    if from >= 2 && to <= 1 {
        assert(product(s, pos) == product_rest(s, phrase));
    }
    if from >= 1 && to == 0 {
        lemma_product_ends(s, phrase);
        assert(sum(s, pos) == sum_rest(s, phrase));
    }
}

/// A sum between brackets is an atom.
proof fn lemma_bracketed(s: Seq<char>, pos: nat, phrase: Phrase)
    requires
        stands(s, pos, '('),
        sum(s, pos + 1) == phrase,
        phrase.error is None,
        stands(s, phrase.end, ')'),
    ensures
        unary(s, pos) == (Phrase { end: phrase.end + 1, ..phrase }),
{
    lemma_no_skip(s, pos);
    lemma_no_skip(s, phrase.end);
    assert(atom(s, pos) == (Phrase { end: phrase.end + 1, ..phrase }));
}

/// A number that stands in a longer text is read as such.
proof fn lemma_number_is_read(s: Seq<char>, pos: nat, t: Seq<char>)
    requires
        is_literal(t),
        occurs(s, pos, t),
        ends(s, pos + t.len()),
    ensures
        unary(s, pos) == (Phrase {
            end: pos + t.len(),
            code: seq![OpView::Number(t)],
            error: None,
        }),
{
    assert(s[(pos + 0) as int] == t[0]);
    lemma_no_skip(s, pos);
    lemma_number(s, pos, t);
    let m = mantissa_end(t, 0) as int;
    assert(s.subrange(pos as int, (pos + t.len()) as int) =~= t);
    assert(s.subrange(pos as int, pos + m) =~= t.subrange(0, m));
    assert(unary(s, pos) == atom(s, pos));
    assert(atom(s, pos) == number(s, pos));
}

/// A constant that stands in a longer text is read as such.
proof fn lemma_constant_is_read(s: Seq<char>, pos: nat, c: Constant)
    requires
        occurs(s, pos, constant_name(c)),
        ends(s, pos + constant_name(c).len()),
    ensures
        unary(s, pos) == (Phrase {
            end: pos + constant_name(c).len(),
            code: seq![OpView::Constant(c)],
            error: None,
        }),
{
    let name = constant_name(c);
    lemma_constant_name(c);
    assert(s[(pos + 0) as int] == name[0]);
    lemma_no_skip(s, pos);
    lemma_name(s, pos, name);
    assert(unary(s, pos) == atom(s, pos));
    assert(atom(s, pos) == named(s, pos));
}

/// A minus sign and its operand are read as a negation.
proof fn lemma_negation_is_read(s: Seq<char>, pos: nat, x: Phrase)
    requires
        stands(s, pos, '-'),
        unary(s, pos + 1) == x,
        x.error is None,
    ensures
        unary(s, pos) == (Phrase { code: x.code.push(OpView::Negate), ..x }),
{
    lemma_no_skip(s, pos);
}

/// A name and its argument between brackets are read as a call of the function.
proof fn lemma_call_is_read(s: Seq<char>, pos: nat, f: Function, x: Phrase)
    requires
        occurs(s, pos, function_name(f)),
        stands(s, pos + function_name(f).len(), '('),
        sum(s, pos + function_name(f).len() + 1) == x,
        x.error is None,
        stands(s, x.end, ')'),
    ensures
        unary(s, pos) == (Phrase {
            end: x.end + 1,
            code: x.code.push(OpView::Apply(f)),
            error: None,
        }),
{
    let name = function_name(f);
    let open = pos + name.len();
    lemma_function_name(f);
    assert(s[(pos + 0) as int] == name[0]);
    lemma_no_skip(s, pos);
    lemma_name(s, pos, name);
    lemma_no_skip(s, open);
    lemma_no_skip(s, x.end);
    assert(unary(s, pos) == atom(s, pos));
    assert(atom(s, pos) == named(s, pos));
    assert(named(s, pos) == applied(name, closed_by(s, sum(s, open + 1), ')')));
}

/// A name and two arguments between brackets are read as a call of the function.
proof fn lemma_pair_is_read(s: Seq<char>, pos: nat, f: Pair, a: Phrase, b: Phrase)
    requires
        occurs(s, pos, pair_name(f)),
        stands(s, pos + pair_name(f).len(), '('),
        sum(s, pos + pair_name(f).len() + 1) == a,
        a.error is None,
        pos + pair_name(f).len() + 1 <= a.end,
        stands(s, a.end, ','),
        sum(s, a.end + 1) == b,
        b.error is None,
        stands(s, b.end, ')'),
    ensures
        unary(s, pos) == (Phrase {
            end: b.end + 1,
            code: (a.code + b.code).push(OpView::Combine(f)),
            error: None,
        }),
{
    let name = pair_name(f);
    let open = pos + name.len();
    lemma_pair_name(f);
    assert(s[(pos + 0) as int] == name[0]);
    lemma_no_skip(s, pos);
    lemma_name(s, pos, name);
    lemma_no_skip(s, open);
    lemma_no_skip(s, a.end);
    lemma_no_skip(s, b.end);
    assert(unary(s, pos) == atom(s, pos));
    assert(atom(s, pos) == named(s, pos));
    assert(named(s, pos) == combined(s, open + 1, f));
}

/// Two operands with the sign of an operation between them are read as the operation.
proof fn lemma_operation_is_read(s: Seq<char>, pos: nat, op: Operator, a: Phrase, b: Phrase)
    requires
        reads(s, pos, op.left(), a),
        a.error is None,
        pos <= a.end,
        stands(s, a.end, op.sign()),
        reads(s, a.end + 1, op.right(), b),
        b.error is None,
        a.end < b.end <= s.len(),
        closes(s, b.end, op.level()),
    ensures
        reads(
            s,
            pos,
            op.level(),
            (Phrase { end: b.end, code: (a.code + b.code).push(op.op()), error: None }),
        ),
{
    let both = Phrase { end: b.end, code: (a.code + b.code).push(op.op()), error: None };
    lemma_no_skip(s, a.end);
    match op {
        Operator::Add | Operator::Subtract => {
            lemma_product_ends(s, b);
            assert(sum_rest(s, a) == sum_rest(s, both));
        },
        Operator::Multiply | Operator::Divide => {
            assert(product_rest(s, a) == product_rest(s, both));
        },
        Operator::Power => {
            assert(power(s, pos) == both);
        },
    }
}

/// What stands in a part of a text stands in the text.
pub proof fn lemma_part(s: Seq<char>, pos: nat, t: Seq<char>, k: nat, u: Seq<char>)
    requires
        occurs(s, pos, t),
        occurs(t, k, u),
    ensures
        occurs(s, pos + k, u),
{
    assert forall|i: int| 0 <= i < u.len() implies s[pos + k + i] == #[trigger] u[i] by {
        assert(t[k + i] == u[i]);
        assert(s[pos + (k + i)] == t[k + i]);
    }
}

/// A character of a part of a text stands in the text.
pub proof fn lemma_character(s: Seq<char>, pos: nat, t: Seq<char>, k: nat)
    requires
        occurs(s, pos, t),
        k < t.len(),
    ensures
        stands(s, pos + k, t[k as int]),
{
    assert(s[pos + k as int] == t[k as int]);
}

/// What is written out is not empty.
proof fn lemma_written_is_not_empty(e: Expr, level: nat)
    requires
        e.wf(),
    ensures
        e.bare().len() > 0,
        e.written(level).len() > 0,
{
    if let Expr::Constant(c) = e {
        lemma_constant_name(c);
    }
}

/// Where the parts of an operation stand that is written out in a longer text.
proof fn lemma_operation_parts(op: Operator, a: Expr, b: Expr, s: Seq<char>, pos: nat)
    requires
        occurs(s, pos, Expr::Binary(op, Box::new(a), Box::new(b)).bare()),
    ensures
        occurs(s, pos, a.written(op.left())),
        stands(s, pos + a.written(op.left()).len(), op.sign()),
        occurs(s, pos + a.written(op.left()).len() + 1, b.written(op.right())),
{
    let t = Expr::Binary(op, Box::new(a), Box::new(b)).bare();
    let n = a.written(op.left()).len();
    assert(t == a.written(op.left()) + seq![op.sign()] + b.written(op.right()));
    lemma_character(s, pos, t, n);
    lemma_part(s, pos, t, 0, a.written(op.left()));
    lemma_part(s, pos, t, n + 1, b.written(op.right()));
}

/// Where the parts of a call stand that is written out in a longer text.
proof fn lemma_call_parts(f: Function, x: Expr, s: Seq<char>, pos: nat)
    requires
        occurs(s, pos, Expr::Apply(f, Box::new(x)).bare()),
    ensures
        occurs(s, pos, function_name(f)),
        stands(s, pos + function_name(f).len(), '('),
        occurs(s, pos + function_name(f).len() + 1, x.written(0)),
        stands(s, pos + function_name(f).len() + 1 + x.written(0).len(), ')'),
{
    let t = Expr::Apply(f, Box::new(x)).bare();
    let k = function_name(f).len();
    assert(t == function_name(f) + seq!['('] + x.written(0) + seq![')']);
    lemma_character(s, pos, t, k);
    lemma_character(s, pos, t, k + x.written(0).len() + 1);
    lemma_part(s, pos, t, 0, function_name(f));
    lemma_part(s, pos, t, k + 1, x.written(0));
}

/// Where the parts of a call of two arguments stand that is written out in a longer text.
proof fn lemma_pair_parts(f: Pair, a: Expr, b: Expr, s: Seq<char>, pos: nat)
    requires
        occurs(s, pos, Expr::Combine(f, Box::new(a), Box::new(b)).bare()),
    ensures
        occurs(s, pos, pair_name(f)),
        stands(s, pos + pair_name(f).len(), '('),
        occurs(s, pos + pair_name(f).len() + 1, a.written(0)),
        stands(s, pos + pair_name(f).len() + 1 + a.written(0).len(), ','),
        occurs(s, pos + pair_name(f).len() + 1 + a.written(0).len() + 1, b.written(0)),
        stands(
            s,
            pos + pair_name(f).len() + 1 + a.written(0).len() + 1 + b.written(0).len(),
            ')',
        ),
{
    let t = Expr::Combine(f, Box::new(a), Box::new(b)).bare();
    let k = pair_name(f).len();
    let n = a.written(0).len();
    assert(t == pair_name(f) + seq!['('] + a.written(0) + seq![','] + b.written(0) + seq![')']);
    lemma_character(s, pos, t, k);
    lemma_character(s, pos, t, k + n + 1);
    lemma_character(s, pos, t, k + n + b.written(0).len() + 2);
    lemma_part(s, pos, t, 0, pair_name(f));
    lemma_part(s, pos, t, k + 1, a.written(0));
    lemma_part(s, pos, t, k + n + 2, b.written(0));
}

/// An expression that is written out in a longer text without brackets is read at its own
/// level.
proof fn lemma_bare_is_read(e: Expr, s: Seq<char>, pos: nat)
    requires
        e.wf(),
        occurs(s, pos, e.bare()),
        closes(s, pos + e.bare().len(), e.level()),
    ensures
        reads(
            s,
            pos,
            e.level(),
            (Phrase { end: pos + e.bare().len(), code: e.postfix(), error: None }),
        ),
    decreases e, 0int,
{
    match e {
        Expr::Number(t) => {
            lemma_number_is_read(s, pos, t);
        },
        Expr::Constant(c) => {
            lemma_constant_is_read(s, pos, c);
        },
        Expr::Negate(x) => {
            let t = e.bare();
            assert(t == seq!['-'] + x.written(3));
            lemma_character(s, pos, t, 0);
            lemma_part(s, pos, t, 1, x.written(3));
            lemma_written_is_read(*x, 3, s, pos + 1);
            lemma_negation_is_read(
                s,
                pos,
                Phrase { end: pos + t.len(), code: x.postfix(), error: None },
            );
        },
        Expr::Binary(op, a, b) => {
            let left = a.written(op.left());
            let right = b.written(op.right());
            let p = pos + left.len();
            lemma_operation_parts(op, *a, *b, s, pos);
            lemma_written_is_not_empty(*b, op.right());
            lemma_written_is_read(*a, op.left(), s, pos);
            lemma_written_is_read(*b, op.right(), s, p + 1);
            lemma_operation_is_read(
                s,
                pos,
                op,
                Phrase { end: p, code: a.postfix(), error: None },
                Phrase { end: p + 1 + right.len(), code: b.postfix(), error: None },
            );
        },
        Expr::Apply(f, x) => {
            let from = pos + function_name(f).len() + 1;
            let inner = Phrase {
                end: from + x.written(0).len(),
                code: x.postfix(),
                error: None,
            };
            lemma_call_parts(f, *x, s, pos);
            lemma_written_is_read(*x, 0, s, from);
            lemma_sum_ends(s, inner);
            lemma_call_is_read(s, pos, f, inner);
        },
        Expr::Combine(f, a, b) => {
            let from = pos + pair_name(f).len() + 1;
            let first = Phrase {
                end: from + a.written(0).len(),
                code: a.postfix(),
                error: None,
            };
            let second = Phrase {
                end: first.end + 1 + b.written(0).len(),
                code: b.postfix(),
                error: None,
            };
            lemma_pair_parts(f, *a, *b, s, pos);
            lemma_written_is_read(*a, 0, s, from);
            lemma_sum_ends(s, first);
            lemma_written_is_read(*b, 0, s, first.end + 1);
            lemma_sum_ends(s, second);
            lemma_pair_is_read(s, pos, f, first, second);
        },
    }
}

/// An expression that is written out in a longer text for a level is read at that level.
proof fn lemma_written_is_read(e: Expr, level: nat, s: Seq<char>, pos: nat)
    requires
        e.wf(),
        level <= 3,
        occurs(s, pos, e.written(level)),
        closes(s, pos + e.written(level).len(), level),
    ensures
        reads(
            s,
            pos,
            level,
            (Phrase { end: pos + e.written(level).len(), code: e.postfix(), error: None }),
        ),
    decreases e, 1int,
{
    let t = e.written(level);
    if e.level() >= level {
        lemma_bare_is_read(e, s, pos);
        lemma_lower_level(
            s,
            pos,
            e.level(),
            level,
            Phrase { end: pos + t.len(), code: e.postfix(), error: None },
        );
    } else {
        let n = e.bare().len();
        let inner = Phrase { end: pos + 1 + n, code: e.postfix(), error: None };
        assert(t == seq!['('] + e.bare() + seq![')']);
        lemma_character(s, pos, t, 0);
        lemma_character(s, pos, t, n + 1);
        lemma_part(s, pos, t, 1, e.bare());
        lemma_bare_is_read(e, s, pos + 1);
        lemma_lower_level(s, pos + 1, e.level(), 0, inner);
        lemma_sum_ends(s, inner);
        lemma_bracketed(s, pos, inner);
        lemma_lower_level(
            s,
            pos,
            4,
            level,
            Phrase { end: pos + t.len(), code: e.postfix(), error: None },
        );
    }
}

/// An expression that is written out with the brackets that it needs is read as it was
/// meant: the whole text is taken, without error, and its code is that of the tree. So
/// signs bind more tightly than powers, powers more than products, products more than
/// sums; sums and products are carried out from left to right, powers from right to left.
pub proof fn written_expressions_are_read_back(e: Expr)
    requires
        e.wf(),
    ensures
        program(e.written(0)) == (Phrase {
            end: e.written(0).len(),
            code: e.postfix(),
            error: None,
        }),
{
    let s = e.written(0);
    let whole = Phrase { end: s.len(), code: e.postfix(), error: None };
    lemma_written_is_read(e, 0, s, 0);
    lemma_sum_ends(s, whole);
    lemma_no_skip(s, whole.end);
}

/// An expression that is written out where a product, a power or an operand with its signs is
/// asked for is read as one, to its end.
pub proof fn written_expressions_are_read_at_each_level(e: Expr)
    requires
        e.wf(),
    ensures
        sum(e.written(0), 0) == (Phrase {
            end: e.written(0).len(),
            code: e.postfix(),
            error: None,
        }),
        product(e.written(1), 0) == (Phrase {
            end: e.written(1).len(),
            code: e.postfix(),
            error: None,
        }),
        power(e.written(2), 0) == (Phrase {
            end: e.written(2).len(),
            code: e.postfix(),
            error: None,
        }),
        unary(e.written(3), 0) == (Phrase {
            end: e.written(3).len(),
            code: e.postfix(),
            error: None,
        }),
{
    let (a, b, c, d) = (e.written(0), e.written(1), e.written(2), e.written(3));
    lemma_written_is_read(e, 0, a, 0);
    lemma_sum_ends(a, Phrase { end: a.len(), code: e.postfix(), error: None });
    lemma_written_is_read(e, 1, b, 0);
    lemma_product_ends(b, Phrase { end: b.len(), code: e.postfix(), error: None });
    lemma_written_is_read(e, 2, c, 0);
    lemma_written_is_read(e, 3, d, 0);
}

// ---------------------------------------------------------------------------
// Values
// ---------------------------------------------------------------------------

/// Whether what an operation may give is what the function `f` gives for it.
pub open spec fn computes<N>(
    does: spec_fn(Op, Seq<N>, Result<N, String>) -> bool,
    f: spec_fn(OpView, Seq<N>) -> Result<N, Seq<char>>,
) -> bool {
    forall|op: Op, operands: Seq<N>, r: Result<N, String>| #[trigger]
        does(op, operands, r) ==> f(op@, operands) == value_view(r)
}

/// The function that first asks the rules on domains, and then `g` for operands that lie in
/// the domain. `class` classifies a number, and `shown` shows it.
pub open spec fn ruled<N>(
    class: spec_fn(N) -> Class,
    shown: spec_fn(N) -> Seq<char>,
    g: spec_fn(OpView, Seq<N>) -> Result<N, Seq<char>>,
) -> spec_fn(OpView, Seq<N>) -> Result<N, Seq<char>> {
    |op: OpView, operands: Seq<N>|
        match fault(op, operands.map_values(class)) {
            Some(f) => Err(fault_text(f, shown(operands.last()))),
            None => g(op, operands),
        }
}

/// Where what is handed in are functions, so is what an operation gives: the rules on
/// domains come first, then the arithmetic.
pub proof fn operations_are_ruled<
    N,
    C: Fn(&N) -> Class,
    W: Fn(&N) -> String,
    A: Fn(&Op, &Vec<N>) -> Result<N, String>,
>(
    classify: C,
    show: W,
    arithmetic: A,
    class: spec_fn(N) -> Class,
    shown: spec_fn(N) -> Seq<char>,
    g: spec_fn(OpView, Seq<N>) -> Result<N, Seq<char>>,
)
    requires
        forall|n: N, c: Class| #[trigger] call_ensures(classify, (&n,), c) ==> c == class(n),
        forall|n: N, t: String| #[trigger] call_ensures(show, (&n,), t) ==> t@ == shown(n),
        forall|op: Op, operands: Vec<N>, r: Result<N, String>| #[trigger]
            call_ensures(arithmetic, (&op, &operands), r) ==> g(op@, operands@) == value_view(r),
    ensures
        computes(checked(classify, show, arithmetic), ruled(class, shown, g)),
{
    let does = checked(classify, show, arithmetic);
    let f = ruled(class, shown, g);
    assert forall|op: Op, operands: Seq<N>, r: Result<N, String>| #[trigger]
        does(op, operands, r) implies f(op@, operands) == value_view(r) by {
        assert(may_yield(classify, show, arithmetic, op, operands, r));
        let classes = choose|classes: Seq<Class>| #[trigger]
            classified(classify, operands, classes) && match fault(op@, classes) {
                Some(f) => exists|shown: String| #[trigger]
                    call_ensures(show, (&operands.last(),), shown) && r is Err && (r->Err_0)@
                        == fault_text(f, shown@),
                None => exists|given: Vec<N>| #[trigger]
                    call_ensures(arithmetic, (&op, &given), r) && given@ == operands,
            };
        assert(classes =~= operands.map_values(class));
    }
}

/// What the outcome of a calculation says.
pub open spec fn value_view<N>(r: Result<N, String>) -> Result<N, Seq<char>> {
    match r {
        Ok(v) => Ok(v),
        Err(message) => Err(message@),
    }
}

impl Expr {
    /// The value of the expression where `f` is the arithmetic, or why it has none: the
    /// operands are worked out from left to right, then the operation on them.
    pub open spec fn value<N>(self, f: spec_fn(OpView, Seq<N>) -> Result<N, Seq<char>>) -> Result<
        N,
        Seq<char>,
    >
        decreases self,
    {
        match self {
            Expr::Number(t) => f(OpView::Number(t), Seq::empty()),
            Expr::Constant(c) => f(OpView::Constant(c), Seq::empty()),
            Expr::Negate(x) => match x.value(f) {
                Ok(v) => f(OpView::Negate, seq![v]),
                Err(m) => Err(m),
            },
            Expr::Binary(op, a, b) => match a.value(f) {
                Ok(v) => match b.value(f) {
                    Ok(w) => f(op.op(), seq![v, w]),
                    Err(m) => Err(m),
                },
                Err(m) => Err(m),
            },
            Expr::Apply(g, x) => match x.value(f) {
                Ok(v) => f(OpView::Apply(g), seq![v]),
                Err(m) => Err(m),
            },
            Expr::Combine(g, a, b) => match a.value(f) {
                Ok(v) => match b.value(f) {
                    Ok(w) => f(OpView::Combine(g), seq![v, w]),
                    Err(m) => Err(m),
                },
                Err(m) => Err(m),
            },
        }
    }
}

/// The stack after one operation, or why there is none.
pub open spec fn stepped<N>(
    f: spec_fn(OpView, Seq<N>) -> Result<N, Seq<char>>,
    op: OpView,
    stack: Seq<N>,
) -> Result<Seq<N>, Seq<char>> {
    let kept = stack.len() - arity_spec(op);
    match f(op, stack.skip(kept)) {
        Ok(v) => Ok(stack.take(kept).push(v)),
        Err(m) => Err(m),
    }
}

/// The stack after code has been run, or why there is none.
pub open spec fn ran<N>(
    f: spec_fn(OpView, Seq<N>) -> Result<N, Seq<char>>,
    code: Seq<OpView>,
    stack: Seq<N>,
) -> Result<Seq<N>, Seq<char>>
    decreases code.len(),
{
    if code.len() == 0 {
        Ok(stack)
    } else {
        match ran(f, code.drop_last(), stack) {
            Ok(before) => stepped(f, code.last(), before),
            Err(m) => Err(m),
        }
    }
}

/// Code is run part by part.
pub proof fn lemma_ran_in_parts<N>(
    f: spec_fn(OpView, Seq<N>) -> Result<N, Seq<char>>,
    a: Seq<OpView>,
    b: Seq<OpView>,
    stack: Seq<N>,
)
    ensures
        ran(f, a + b, stack) == (match ran(f, a, stack) {
            Ok(between) => ran(f, b, between),
            Err(m) => Err(m),
        }),
    decreases b.len(),
{
    if b.len() == 0 {
        assert(a + b =~= a);
    } else {
        lemma_ran_in_parts(f, a, b.drop_last(), stack);
        assert((a + b).drop_last() =~= a + b.drop_last());
    }
}

/// Code that leaves one value, code that leaves another, and an operation on the two leave
/// the outcome of the operation.
pub proof fn lemma_both_leave_a_value<N>(
    f: spec_fn(OpView, Seq<N>) -> Result<N, Seq<char>>,
    a: Seq<OpView>,
    b: Seq<OpView>,
    op: OpView,
    stack: Seq<N>,
    x: Result<N, Seq<char>>,
    y: Result<N, Seq<char>>,
)
    requires
        arity_spec(op) == 2,
        ran(f, a, stack) == (match x {
            Ok(v) => Ok(stack.push(v)),
            Err(m) => Err(m),
        }),
        x is Ok ==> ran(f, b, stack.push(x->Ok_0)) == (match y {
            Ok(w) => Ok(stack.push(x->Ok_0).push(w)),
            Err(m) => Err(m),
        }),
    ensures
        ran(f, (a + b).push(op), stack) == (match x {
            Ok(v) => match y {
                Ok(w) => match f(op, seq![v, w]) {
                    Ok(z) => Ok(stack.push(z)),
                    Err(m) => Err(m),
                },
                Err(m) => Err(m),
            },
            Err(m) => Err(m),
        }),
{
    assert((a + b).push(op).drop_last() =~= a + b);
    lemma_ran_in_parts(f, a, b, stack);
    if x is Ok && y is Ok {
        let both = stack.push(x->Ok_0).push(y->Ok_0);
        assert(both.skip(stack.len() as int) =~= seq![x->Ok_0, y->Ok_0]);
        assert(both.take(stack.len() as int) =~= stack);
    }
}

/// The code of an expression leaves the value of the expression on the stack.
proof fn lemma_postfix_leaves_the_value<N>(
    e: Expr,
    f: spec_fn(OpView, Seq<N>) -> Result<N, Seq<char>>,
    stack: Seq<N>,
)
    ensures
        ran(f, e.postfix(), stack) == (match e.value(f) {
            Ok(v) => Ok(stack.push(v)),
            Err(m) => Err(m),
        }),
    decreases e,
{
    let code = e.postfix();
    match e {
        Expr::Number(_) | Expr::Constant(_) => {
            assert(code.drop_last() =~= Seq::empty());
            assert(ran(f, code.drop_last(), stack) == Ok::<Seq<N>, Seq<char>>(stack));
            assert(stack.skip(stack.len() as int) =~= Seq::empty());
            assert(stack.take(stack.len() as int) =~= stack);
        },
        Expr::Negate(x) => {
            lemma_postfix_leaves_the_value(*x, f, stack);
            assert(code.drop_last() =~= x.postfix());
            if let Ok(v) = x.value(f) {
                assert(stack.push(v).skip(stack.len() as int) =~= seq![v]);
                assert(stack.push(v).take(stack.len() as int) =~= stack);
            }
        },
        Expr::Apply(_, x) => {
            lemma_postfix_leaves_the_value(*x, f, stack);
            assert(code.drop_last() =~= x.postfix());
            if let Ok(v) = x.value(f) {
                assert(stack.push(v).skip(stack.len() as int) =~= seq![v]);
                assert(stack.push(v).take(stack.len() as int) =~= stack);
            }
        },
        Expr::Binary(op, a, b) => {
            assert(arity_spec(op.op()) == 2);
            lemma_postfix_leaves_the_value(*a, f, stack);
            if let Ok(v) = a.value(f) {
                lemma_postfix_leaves_the_value(*b, f, stack.push(v));
            }
            lemma_both_leave_a_value(f, a.postfix(), b.postfix(), op.op(), stack, a.value(f), b.value(f));
        },
        Expr::Combine(g, a, b) => {
            lemma_postfix_leaves_the_value(*a, f, stack);
            if let Ok(v) = a.value(f) {
                lemma_postfix_leaves_the_value(*b, f, stack.push(v));
            }
            lemma_both_leave_a_value(
                f,
                a.postfix(),
                b.postfix(),
                OpView::Combine(g),
                stack,
                a.value(f),
                b.value(f),
            );
        },
    }
}

/// Stacks that code may go through are those that it goes through.
pub proof fn lemma_runs_are_ran<N>(
    does: spec_fn(Op, Seq<N>, Result<N, String>) -> bool,
    f: spec_fn(OpView, Seq<N>) -> Result<N, Seq<char>>,
    ops: Seq<Op>,
    stacks: Seq<Seq<N>>,
)
    requires
        computes(does, f),
        runs(does, ops, stacks),
    ensures
        ran(f, code_view(ops), Seq::empty()) == Ok::<Seq<N>, Seq<char>>(stacks.last()),
    decreases ops.len(),
{
    if ops.len() > 0 {
        let fewer = ops.drop_last();
        let past = stacks.drop_last();
        let n = fewer.len() as int;
        assert forall|i: int| 0 <= i < fewer.len() implies steps(
            does,
            #[trigger] fewer[i],
            past[i],
            past[i + 1],
        ) by {
            assert(fewer[i] == ops[i]);
        }
        lemma_runs_are_ran(does, f, fewer, past);
        assert(code_view(ops).drop_last() =~= code_view(fewer));
        assert(steps(does, ops[n], stacks[n], stacks[n + 1]));
    }
}

/// Where operations are functions, the value of a text that is an expression is what its
/// code leaves on the empty stack.
pub proof fn lemma_value_is_ran<N>(
    does: spec_fn(Op, Seq<N>, Result<N, String>) -> bool,
    f: spec_fn(OpView, Seq<N>) -> Result<N, Seq<char>>,
    input: Seq<char>,
    r: Result<N, String>,
)
    requires
        computes(does, f),
        program(input).error is None,
        is_value_of(does, input, r),
    ensures
        ran(f, program(input).code, Seq::empty()) == (match r {
            Ok(v) => Ok(seq![v]),
            Err(message) => Err(message@),
        }),
{
    let ops = choose|ops: Seq<Op>|
        #![trigger code_view(ops)]
        code_view(ops) == program(input).code && evaluates(does, ops, program(input).error, r);
    let empty = Seq::<N>::empty();
    match r {
        Ok(v) => {
            let stacks = choose|stacks: Seq<Seq<N>>| #[trigger]
                runs(does, ops, stacks) && stacks.last() == seq![v];
            lemma_runs_are_ran(does, f, ops, stacks);
        },
        Err(message) => {
            let (n, stacks) = choose|n: int, stacks: Seq<Seq<N>>|
                0 <= n < ops.len() && #[trigger] runs(does, ops.take(n), stacks) && refuses(
                    does,
                    ops[n],
                    stacks.last(),
                    message,
                );
            lemma_runs_are_ran(does, f, ops.take(n), stacks);
            let code = code_view(ops);
            let head = code.take(n + 1);
            assert(head.drop_last() =~= code_view(ops.take(n)));
            assert(head.last() == ops[n]@);
            assert(ran(f, head, empty) == Err::<Seq<N>, Seq<char>>(message@));
            assert(head + code.skip(n + 1) =~= code);
            lemma_ran_in_parts(f, head, code.skip(n + 1), empty);
        },
    }
}

/// Where operations are functions, evaluating an expression that is written out with
/// the brackets that it needs gives the value of the tree, or why it has none.
pub proof fn written_expressions_are_evaluated<N>(
    e: Expr,
    does: spec_fn(Op, Seq<N>, Result<N, String>) -> bool,
    f: spec_fn(OpView, Seq<N>) -> Result<N, Seq<char>>,
    r: Result<N, String>,
)
    requires
        e.wf(),
        computes(does, f),
        is_value_of(does, e.written(0), r),
    ensures
        value_view(r) == e.value(f),
{
    written_expressions_are_read_back(e);
    lemma_postfix_leaves_the_value(e, f, Seq::<N>::empty());
    lemma_value_is_ran(does, f, e.written(0), r);
    if let Ok(v) = r {
        assert(seq![v][0] == v);
    }
    if let Ok(w) = e.value(f) {
        assert(Seq::<N>::empty().push(w)[0] == w);
    }
}

/// Whether a text is a number, or a minus sign and a number, that arithmetic `f` reads as
/// `x`.
pub open spec fn is_read_as<N>(
    f: spec_fn(OpView, Seq<N>) -> Result<N, Seq<char>>,
    text: Seq<char>,
    x: N,
) -> bool {
    ||| is_literal(text) && f(OpView::Number(text), Seq::empty()) == Ok::<N, Seq<char>>(x)
    ||| text.len() > 0 && text[0] == '-' && is_literal(text.drop_first()) && (match f(
        OpView::Number(text.drop_first()),
        Seq::empty(),
    ) {
        Ok(y) => f(OpView::Negate, seq![y]) == Ok::<N, Seq<char>>(x),
        Err(_) => false,
    })
}

/// Where operations are functions, a number that is printed as a text that reads as the
/// number has itself as the value of the print, negative numbers too.
pub proof fn printed_numbers_are_read_back<N>(
    text: Seq<char>,
    does: spec_fn(Op, Seq<N>, Result<N, String>) -> bool,
    f: spec_fn(OpView, Seq<N>) -> Result<N, Seq<char>>,
    x: N,
    r: Result<N, String>,
)
    requires
        computes(does, f),
        is_read_as(f, text, x),
        is_value_of(does, text, r),
    ensures
        value_view(r) == Ok::<N, Seq<char>>(x),
{
    if is_literal(text) && f(OpView::Number(text), Seq::empty()) == Ok::<N, Seq<char>>(x) {
        let e = Expr::Number(text);
        assert(e.written(0) =~= text);
        written_expressions_are_evaluated(e, does, f, r);
    } else {
        let digits = text.drop_first();
        let number = Expr::Number(digits);
        let e = Expr::Negate(Box::new(number));
        assert(number.written(3) == digits);
        assert(e.written(0) == seq!['-'] + number.written(3));
        assert(e.written(0) =~= text);
        reveal_with_fuel(Expr::value, 3);
        reveal_with_fuel(Expr::wf, 3);
        written_expressions_are_evaluated(e, does, f, r);
    }
}

/// `log` is the natural logarithm and `root` the square root: two names for one function
/// each.
pub proof fn two_names_for_one_function()
    ensures
        function_named("log"@) == Some(Function::Ln),
        function_named("ln"@) == Some(Function::Ln),
        function_named("root"@) == Some(Function::Sqrt),
        function_named("sqrt"@) == Some(Function::Sqrt),
{
    lemma_function_name(Function::Ln);
    lemma_function_name(Function::Sqrt);
    reveal_strlit("log");
    reveal_strlit("sqrt");
    reveal_strlit("root");
    reveal_strlit("abs");
    reveal_strlit("sin");
    reveal_strlit("cos");
    reveal_strlit("tan");
    reveal_strlit("asin");
    reveal_strlit("acos");
    reveal_strlit("atan");
    reveal_strlit("exp");
    assert("log"@[0] == 'l' && "abs"@[0] == 'a' && "sin"@[0] == 's' && "cos"@[0] == 'c' && "tan"@[0]
        == 't' && "exp"@[0] == 'e');
}

} // verus!
