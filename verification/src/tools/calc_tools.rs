//! The calculator tool.
use vstd::prelude::*;
use crate::calc::{checked, eval, is_value_of, total, Class, Op};
use crate::json::{entry_views, push_entry, Json, JsonView};
use crate::text::{render_signed, signed_decimal};
use crate::tools::{
    gives_only, object_schema, property, property_schema, required_text, required_text_spec,
    run_view, s_required, strs, success, Execution, Tool, ToolResult, ToolResultView, ToolView,
};

verus! {

// ---------------------------------------------------------------------------
// Description
// ---------------------------------------------------------------------------

/// The description of the tool that evaluates an arithmetic expression.
pub open spec fn calc_description() -> ToolView {
    ToolView {
        name: "calc"@,
        description: "Evaluate a numeric expression and return the result. Supports +, -, *, /, ^ (power), parentheses, the constants pi/e/tau, and the functions sqrt, abs, sin, cos, tan, asin, acos, atan, exp, ln, log, floor, ceil, round, min, max. Example expression: (2 + 3) * 4 ^ 2 + sqrt(9)."@,
        parameters: object_schema(
            JsonView::Object(
                seq![
                    (
                        "expression"@,
                        property_schema("string"@, "The arithmetic expression to evaluate, e.g. \"(2 + 3) * 4\"."@),
                    ),
                ],
            ),
            seq!["expression"@],
        ),
    }
}

/// The tool that evaluates an arithmetic expression, with this executor.
pub fn calc_tool_with<F>(executor: F) -> (tool: Tool<F>)
    ensures
        tool@ == calc_description(),
        tool.executor == executor,
{
    let mut properties: Vec<(String, Json)> = Vec::new();
    push_entry(&mut properties, "expression", property("string", "The arithmetic expression to evaluate, e.g. \"(2 + 3) * 4\"."));
    let required: [&str; 1] = ["expression"];
    proof {
        let expected = calc_description().parameters->Object_0;
        assert(entry_views(properties@) =~= expected[1].1->Object_0);
        assert(strs(required@) =~= seq!["expression"@]);
    }
    Tool::new(
        "calc",
        "Evaluate a numeric expression and return the result. Supports +, -, *, /, ^ (power), parentheses, the constants pi/e/tau, and the functions sqrt, abs, sin, cos, tan, asin, acos, atan, exp, ln, log, floor, ceil, round, min, max. Example expression: (2 + 3) * 4 ^ 2 + sqrt(9).",
        s_required(Json::object(properties), &required),
        executor,
    )
}

// ---------------------------------------------------------------------------
// Execution
// ---------------------------------------------------------------------------

/// How numbers are worked with.
pub struct Calculator<C, T, A, I> {
    /// Classifies a number.
    pub classify: C,
    /// Shows a number.
    pub show: T,
    /// Carries out one operation on operands in its domain.
    pub arithmetic: A,
    /// Gives a number as an integer, if it is to be printed as one.
    pub whole: I,
}

/// What a number is printed as: as an integer where it is one, else as it is shown.
#[derive(Debug, PartialEq, Eq)]
pub enum Shown {
    /// A whole number, in digits.
    Whole(i64),
    /// Any other number, as it stands.
    Other(String),
}

/// The print of a number.
pub open spec fn printed(shown: Shown) -> Seq<char> {
    match shown {
        Shown::Whole(n) => signed_decimal(n as int),
        Shown::Other(text) => text@,
    }
}

/// What `format!` prints for a string under `{:?}`.
pub uninterp spec fn debug_text(s: Seq<char>) -> Seq<char>;

/// Calls `format!` with `{:?}` on a string. Claims that the text depends on the string
/// alone.
#[verifier::external_body]
fn quote(s: &str) -> (text: String)
    ensures
        text@ == debug_text(s@),
{
    format!("{:?}", s)
}

/// The error for an expression that has no value.
pub open spec fn calc_error(quoted: Seq<char>, e: Seq<char>) -> Seq<char> {
    "failed to evaluate "@ + quoted + ": "@ + e
}

/// What a calculation is answered: the print of the value, or an error that quotes the
/// expression.
pub open spec fn calc_result(quoted: Seq<char>, value: Result<Shown, String>) -> Result<
    ToolResultView,
    Seq<char>,
> {
    match value {
        Ok(shown) => success(printed(shown)),
        Err(e) => Err(calc_error(quoted, e@)),
    }
}

/// What a calculation is answered, where `quoted` is the expression in quotes.
pub fn answer_calc(quoted: &str, value: Result<Shown, String>) -> (r: Result<ToolResult, String>)
    ensures
        run_view(r) == calc_result(quoted@, value),
{
    match value {
        Ok(Shown::Whole(n)) => Ok(ToolResult { output: render_signed(n), is_error: false }),
        Ok(Shown::Other(text)) => Ok(ToolResult { output: text, is_error: false }),
        Err(e) => {
            let mut text = "failed to evaluate ".to_owned();
            text.append(quoted);
            text.append(": ");
            text.append(e.as_str());
            Err(text)
        },
    }
}

/// Whether `shown` may be what the outcome of a calculation is printed as.
pub open spec fn shows<N, T: Fn(&N) -> String, I: Fn(&N) -> Option<i64>>(
    show: T,
    whole: I,
    value: Result<N, String>,
    shown: Result<Shown, String>,
) -> bool {
    match value {
        Ok(n) => match shown {
            Ok(Shown::Whole(i)) => call_ensures(whole, (&n,), Some(i)),
            Ok(Shown::Other(text)) => call_ensures(whole, (&n,), None) && call_ensures(
                show,
                (&n,),
                text,
            ),
            Err(_) => false,
        },
        Err(e) => shown == Err::<Shown, String>(e),
    }
}

/// Whether `r` may be the answer to a call that evaluates an expression: the expression is
/// among the arguments, and the answer is the print of its value, or why it has none.
pub open spec fn calculates<
    N,
    C: Fn(&N) -> Class,
    T: Fn(&N) -> String,
    A: Fn(&Op, &Vec<N>) -> Result<N, String>,
    I: Fn(&N) -> Option<i64>,
>(calculator: Calculator<C, T, A, I>, args: JsonView, r: Result<ToolResult, String>) -> bool {
    match required_text_spec(args, "expression"@) {
        Ok(expression) => exists|value: Result<N, String>, shown: Result<Shown, String>|
            #![trigger may_be_value(calculator, expression, value),
                shows(calculator.show, calculator.whole, value, shown)]
            may_be_value(calculator, expression, value) && shows(
                calculator.show,
                calculator.whole,
                value,
                shown,
            ) && run_view(r) == calc_result(debug_text(expression), shown),
        Err(e) => run_view(r) == Err::<ToolResultView, Seq<char>>(e),
    }
}

/// Whether `value` may be the value of an expression, or why it has none.
pub open spec fn may_be_value<
    N,
    C: Fn(&N) -> Class,
    T: Fn(&N) -> String,
    A: Fn(&Op, &Vec<N>) -> Result<N, String>,
    I: Fn(&N) -> Option<i64>,
>(calculator: Calculator<C, T, A, I>, expression: Seq<char>, value: Result<N, String>) -> bool {
    is_value_of(
        checked(calculator.classify, calculator.show, calculator.arithmetic),
        expression,
        value,
    )
}

/// Whether a calculator accepts every number, and every operation on operands in its domain.
pub open spec fn works<
    N,
    C: Fn(&N) -> Class,
    T: Fn(&N) -> String,
    A: Fn(&Op, &Vec<N>) -> Result<N, String>,
    I: Fn(&N) -> Option<i64>,
>(calculator: Calculator<C, T, A, I>) -> bool {
    &&& total::<N, C, T, A>(calculator.classify, calculator.show, calculator.arithmetic)
    &&& forall|n: N| #[trigger] call_requires(calculator.whole, (&n,))
}

/// Whether a calculator works, where an expression is among the arguments of a call.
pub open spec fn can_calculate<
    N,
    C: Fn(&N) -> Class,
    T: Fn(&N) -> String,
    A: Fn(&Op, &Vec<N>) -> Result<N, String>,
    I: Fn(&N) -> Option<i64>,
>(calculator: Calculator<C, T, A, I>, args: JsonView) -> bool {
    required_text_spec(args, "expression"@) is Ok ==> works::<N, C, T, A, I>(calculator)
}

/// Runs a call that evaluates an expression.
pub fn calculate<
    N,
    C: Fn(&N) -> Class,
    T: Fn(&N) -> String,
    A: Fn(&Op, &Vec<N>) -> Result<N, String>,
    I: Fn(&N) -> Option<i64>,
>(args: &Json, calculator: &Calculator<C, T, A, I>) -> (r: Result<ToolResult, String>)
    requires
        can_calculate::<N, C, T, A, I>(*calculator, args@),
    ensures
        calculates::<N, C, T, A, I>(*calculator, args@, r),
{
    match required_text(args, "expression") {
        Ok(expression) => {
            let value = eval::<N, C, T, A>(
                expression,
                &calculator.classify,
                &calculator.show,
                &calculator.arithmetic,
            );
            let ghost came = value;
            assert(may_be_value(*calculator, expression@, came));
            let shown = match value {
                Ok(n) => match (calculator.whole)(&n) {
                    Some(i) => Ok(Shown::Whole(i)),
                    None => Ok(Shown::Other((calculator.show)(&n))),
                },
                Err(e) => Err(e),
            };
            let ghost print = shown;
            assert(shows(calculator.show, calculator.whole, came, print));
            answer_calc(quote(expression).as_str(), shown)
        },
        Err(e) => Err(e),
    }
}

/// The executor of the tool that evaluates an arithmetic expression.
pub fn calc_executor<
    N,
    C: Fn(&N) -> Class,
    T: Fn(&N) -> String,
    A: Fn(&Op, &Vec<N>) -> Result<N, String>,
    I: Fn(&N) -> Option<i64>,
>(calculator: Calculator<C, T, A, I>) -> (executor: impl Fn(&Json) -> Execution)
    ensures
        gives_only(
            executor,
            |args: JsonView| can_calculate::<N, C, T, A, I>(calculator, args),
            |args: JsonView, r: Result<ToolResult, String>| calculates::<N, C, T, A, I>(calculator, args, r),
        ),
{
    move |args: &Json| -> (came: Execution)
        requires
            can_calculate::<N, C, T, A, I>(calculator, args@),
        ensures
            came is Some,
            calculates::<N, C, T, A, I>(calculator, args@, came->0),
        { Some(calculate::<N, C, T, A, I>(args, &calculator)) }
}

/// The tool that evaluates an arithmetic expression.
pub fn calc_tool<
    N,
    C: Fn(&N) -> Class,
    T: Fn(&N) -> String,
    A: Fn(&Op, &Vec<N>) -> Result<N, String>,
    I: Fn(&N) -> Option<i64>,
>(calculator: Calculator<C, T, A, I>) -> (tool: Tool<impl Fn(&Json) -> Execution>)
    ensures
        tool@ == calc_description(),
        gives_only(
            tool.executor,
            |args: JsonView| can_calculate::<N, C, T, A, I>(calculator, args),
            |args: JsonView, r: Result<ToolResult, String>| calculates::<N, C, T, A, I>(calculator, args, r),
        ),
{
    calc_tool_with(calc_executor(calculator))
}

} // verus!
