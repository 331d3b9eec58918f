//! Where each operation is defined, and what is said where it is not.
use vstd::prelude::*;
use crate::calc::laws::ruled;
use crate::calc::{
    arity_spec, fault, find_fault, Class, Fault, Function, Op, OpView, Sign, SyntaxError,
};
use crate::text::decimal;

verus! {

// ---------------------------------------------------------------------------
// Faults
// ---------------------------------------------------------------------------

/// Operations that are defined for all numbers never find a fault, whatever their operands:
/// numbers, constants, negation, sums, differences, products, and the functions but for
/// roots, logarithms, arc sine and arc cosine.
pub proof fn most_operations_are_defined_everywhere(op: Op, operands: Vec<Class>, f: Option<Fault>)
    requires
        call_ensures(find_fault, (&op, &operands), f),
        match op {
            Op::Number(_) | Op::Constant(_) => true,
            Op::Negate | Op::Add | Op::Subtract | Op::Multiply => true,
            Op::Apply(Function::Abs) => true,
            Op::Apply(Function::Sin) | Op::Apply(Function::Cos) | Op::Apply(Function::Tan) => true,
            Op::Apply(Function::Atan) | Op::Apply(Function::Exp) => true,
            Op::Apply(Function::Floor) | Op::Apply(Function::Ceil) => true,
            Op::Apply(Function::Round) => true,
            Op::Combine(_) => true,
            _ => false,
        },
    ensures
        f is None,
{
}

/// A quotient is undefined just where the divisor is zero, whatever the dividend.
pub proof fn quotients_are_undefined_by_zero(x: Class, y: Class, operands: Vec<Class>, f: Option<Fault>)
    requires
        operands@ == seq![x, y],
        call_ensures(find_fault, (&Op::Divide, &operands), f),
    ensures
        f == (if y.sign == Sign::Zero {
            Some(Fault::DivisionByZero)
        } else {
            None
        }),
{
    assert(operands@.first() == x && operands@.last() == y);
}

/// A power is undefined just where the base is negative and the exponent is a number with a
/// fraction, and where the base is zero and the exponent is negative.
pub proof fn powers_are_undefined_in_two_ways(x: Class, y: Class, operands: Vec<Class>, f: Option<Fault>)
    requires
        operands@ == seq![x, y],
        call_ensures(find_fault, (&Op::Power, &operands), f),
    ensures
        f == Some(Fault::FractionalPowerOfNegative) <==> x.sign == Sign::Negative && !y.whole
            && y.sign != Sign::Undefined,
        f == Some(Fault::NegativePowerOfZero) <==> x.sign == Sign::Zero && y.sign
            == Sign::Negative,
        f is Some ==> f == Some(Fault::FractionalPowerOfNegative) || f == Some(
            Fault::NegativePowerOfZero,
        ),
{
    assert(operands@.first() == x && operands@.last() == y);
}

/// A function is undefined just there: the root for negative numbers, the logarithms for
/// zero and for negative numbers, arc sine and arc cosine beyond one.
pub proof fn functions_are_undefined_there(
    g: Function,
    x: Class,
    operands: Vec<Class>,
    f: Option<Fault>,
)
    requires
        operands@ == seq![x],
        call_ensures(find_fault, (&Op::Apply(g), &operands), f),
    ensures
        f is Some <==> match g {
            Function::Sqrt => x.sign == Sign::Negative,
            Function::Ln | Function::Log10 => x.sign == Sign::Negative || x.sign == Sign::Zero,
            Function::Asin | Function::Acos => x.beyond_one,
            Function::Abs | Function::Sin | Function::Cos | Function::Tan => false,
            Function::Atan | Function::Exp => false,
            Function::Floor | Function::Ceil | Function::Round => false,
        },
        f is Some ==> f == Some(
            match g {
                Function::Sqrt => Fault::RootOfNegative,
                Function::Ln => Fault::LogOfNonPositive,
                Function::Log10 => Fault::Log10OfNonPositive,
                Function::Asin => Fault::AsinOutOfRange,
                _ => Fault::AcosOutOfRange,
            },
        ),
{
    assert(operands@.first() == x && operands@.last() == x);
}

/// The rules as a relation of classes say the same.
pub proof fn faults_by_operation(op: OpView, operands: Seq<Class>)
    requires
        operands.len() == arity_spec(op),
    ensures
        match op {
            OpView::Divide => fault(op, operands) == (if operands[1].sign == Sign::Zero {
                Some(Fault::DivisionByZero)
            } else {
                None
            }),
            OpView::Power => fault(op, operands) == (if operands[0].sign == Sign::Negative
                && !operands[1].whole && operands[1].sign != Sign::Undefined {
                Some(Fault::FractionalPowerOfNegative)
            } else if operands[0].sign == Sign::Zero && operands[1].sign == Sign::Negative {
                Some(Fault::NegativePowerOfZero)
            } else {
                None
            }),
            OpView::Apply(Function::Sqrt) => fault(op, operands) == (if operands[0].sign
                == Sign::Negative {
                Some(Fault::RootOfNegative)
            } else {
                None
            }),
            OpView::Apply(Function::Ln) => fault(op, operands) == (if operands[0].sign
                == Sign::Negative || operands[0].sign == Sign::Zero {
                Some(Fault::LogOfNonPositive)
            } else {
                None
            }),
            OpView::Apply(Function::Log10) => fault(op, operands) == (if operands[0].sign
                == Sign::Negative || operands[0].sign == Sign::Zero {
                Some(Fault::Log10OfNonPositive)
            } else {
                None
            }),
            OpView::Apply(Function::Asin) => fault(op, operands) == (if operands[0].beyond_one {
                Some(Fault::AsinOutOfRange)
            } else {
                None
            }),
            OpView::Apply(Function::Acos) => fault(op, operands) == (if operands[0].beyond_one {
                Some(Fault::AcosOutOfRange)
            } else {
                None
            }),
            _ => fault(op, operands) is None,
        },
{
}

/// A fault in words names the operation, and shows the operand, but for a zero divisor.
pub proof fn faults_are_told_in_words(f: Fault, shown: &str, text: String)
    requires
        call_ensures(Fault::message, (&f, shown), text),
    ensures
        text@ == (match f {
            Fault::DivisionByZero => "division by zero"@,
            Fault::RootOfNegative => "sqrt of negative "@ + shown@,
            Fault::LogOfNonPositive => "log of non-positive "@ + shown@,
            Fault::Log10OfNonPositive => "log10 of non-positive "@ + shown@,
            Fault::AsinOutOfRange => "asin of out-of-range "@ + shown@,
            Fault::AcosOutOfRange => "acos of out-of-range "@ + shown@,
            Fault::FractionalPowerOfNegative => "fractional power "@ + shown@
                + " of a negative number"@,
            Fault::NegativePowerOfZero => "negative power "@ + shown@ + " of zero"@,
        }),
{
}

/// A syntax error in words tells what was met or missed and where, or quotes what is wrong.
pub proof fn syntax_errors_are_told_in_words(e: SyntaxError, text: String)
    requires
        call_ensures(SyntaxError::message, (&e,), text),
    ensures
        text@ == (match e {
            SyntaxError::UnexpectedCharacter(c, p) => "unexpected character `"@ + seq![c]
                + "` at position "@ + decimal(p as nat),
            SyntaxError::Expected(c, p) => "expected `"@ + seq![c] + "` at position "@ + decimal(
                p as nat,
            ),
            SyntaxError::UnexpectedToken(p) => "unexpected token at position "@ + decimal(
                p as nat,
            ),
            SyntaxError::InvalidNumber(quoted) => "invalid number `"@ + quoted@ + "`"@,
            SyntaxError::UnknownFunction(name) => "unknown function `"@ + name@ + "`"@,
        }),
{
}

// ---------------------------------------------------------------------------
// What the rules leave
// ---------------------------------------------------------------------------

/// The rules leave of an operation that is defined for all numbers just what the arithmetic
/// gives for it.
pub proof fn rules_leave_the_arithmetic<N>(
    class: spec_fn(N) -> Class,
    shown: spec_fn(N) -> Seq<char>,
    g: spec_fn(OpView, Seq<N>) -> Result<N, Seq<char>>,
    op: OpView,
    operands: Seq<N>,
)
    requires
        operands.len() == arity_spec(op),
        match op {
            OpView::Number(_) | OpView::Constant(_) => true,
            OpView::Negate | OpView::Add | OpView::Subtract | OpView::Multiply => true,
            OpView::Apply(Function::Abs) => true,
            OpView::Apply(Function::Sin) | OpView::Apply(Function::Cos) => true,
            OpView::Apply(Function::Tan) | OpView::Apply(Function::Atan) => true,
            OpView::Apply(Function::Exp) | OpView::Apply(Function::Floor) => true,
            OpView::Apply(Function::Ceil) | OpView::Apply(Function::Round) => true,
            OpView::Combine(_) => true,
            _ => false,
        },
    ensures
        ruled(class, shown, g)(op, operands) == g(op, operands),
{
}

/// What the rules leave of a function with a domain: an error that names the function and
/// shows the number outside its domain, and what the arithmetic gives within it.
pub proof fn rules_leave_the_domains<N>(
    class: spec_fn(N) -> Class,
    shown: spec_fn(N) -> Seq<char>,
    g: spec_fn(OpView, Seq<N>) -> Result<N, Seq<char>>,
    x: N,
)
    ensures
        ruled(class, shown, g)(OpView::Apply(Function::Sqrt), seq![x]) == (if class(x).sign
            == Sign::Negative {
            Err("sqrt of negative "@ + shown(x))
        } else {
            g(OpView::Apply(Function::Sqrt), seq![x])
        }),
        ruled(class, shown, g)(OpView::Apply(Function::Ln), seq![x]) == (if class(x).sign
            == Sign::Negative || class(x).sign == Sign::Zero {
            Err("log of non-positive "@ + shown(x))
        } else {
            g(OpView::Apply(Function::Ln), seq![x])
        }),
        ruled(class, shown, g)(OpView::Apply(Function::Log10), seq![x]) == (if class(x).sign
            == Sign::Negative || class(x).sign == Sign::Zero {
            Err("log10 of non-positive "@ + shown(x))
        } else {
            g(OpView::Apply(Function::Log10), seq![x])
        }),
        ruled(class, shown, g)(OpView::Apply(Function::Asin), seq![x]) == (if class(
            x,
        ).beyond_one {
            Err("asin of out-of-range "@ + shown(x))
        } else {
            g(OpView::Apply(Function::Asin), seq![x])
        }),
        ruled(class, shown, g)(OpView::Apply(Function::Acos), seq![x]) == (if class(
            x,
        ).beyond_one {
            Err("acos of out-of-range "@ + shown(x))
        } else {
            g(OpView::Apply(Function::Acos), seq![x])
        }),
{
    let classes = seq![x].map_values(class);
    assert(classes.len() == 1 && classes[0] == class(x));
    assert(classes.first() == class(x) && classes.last() == class(x));
    assert(seq![x].last() == x);
}

/// What the rules leave of quotients and powers.
pub proof fn rules_leave_quotients_and_powers<N>(
    class: spec_fn(N) -> Class,
    shown: spec_fn(N) -> Seq<char>,
    g: spec_fn(OpView, Seq<N>) -> Result<N, Seq<char>>,
    x: N,
    y: N,
)
    ensures
        ruled(class, shown, g)(OpView::Divide, seq![x, y]) == (if class(y).sign == Sign::Zero {
            Err("division by zero"@)
        } else {
            g(OpView::Divide, seq![x, y])
        }),
        ruled(class, shown, g)(OpView::Power, seq![x, y]) == (if class(x).sign == Sign::Negative
            && !class(y).whole && class(y).sign != Sign::Undefined {
            Err("fractional power "@ + shown(y) + " of a negative number"@)
        } else if class(x).sign == Sign::Zero && class(y).sign == Sign::Negative {
            Err("negative power "@ + shown(y) + " of zero"@)
        } else {
            g(OpView::Power, seq![x, y])
        }),
{
    let classes = seq![x, y].map_values(class);
    assert(classes.len() == 2 && classes[0] == class(x) && classes[1] == class(y));
    assert(classes.first() == class(x) && classes.last() == class(y));
    assert(seq![x, y].last() == y);
}

} // verus!
