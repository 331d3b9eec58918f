use agent_loop::calc::{
    compile, eval, find_fault, is_space, Class, Constant, Fault, Function, Op, Pair, Parser,
    Program, Sign, SyntaxError,
};

fn classify(x: &f64) -> Class {
    let sign = if *x < 0.0 {
        Sign::Negative
    } else if *x == 0.0 {
        Sign::Zero
    } else if *x > 0.0 {
        Sign::Positive
    } else {
        Sign::Undefined
    };
    Class { sign, beyond_one: x.abs() > 1.0, whole: x.is_infinite() || x.fract() == 0.0 }
}

fn show(x: &f64) -> String {
    format!("{x}")
}

/// Arithmetic on floating-point numbers, which refuses nothing.
fn floats(op: &Op, v: &Vec<f64>) -> Result<f64, String> {
    Ok(match op {
        Op::Number(text) => text.parse().unwrap(),
        Op::Constant(Constant::Pi) => std::f64::consts::PI,
        Op::Constant(Constant::E) => std::f64::consts::E,
        Op::Constant(Constant::Tau) => std::f64::consts::TAU,
        Op::Negate => -v[0],
        Op::Add => v[0] + v[1],
        Op::Subtract => v[0] - v[1],
        Op::Multiply => v[0] * v[1],
        Op::Divide => v[0] / v[1],
        Op::Power => v[0].powf(v[1]),
        Op::Apply(Function::Sqrt) => v[0].sqrt(),
        Op::Apply(Function::Abs) => v[0].abs(),
        Op::Apply(Function::Sin) => v[0].sin(),
        Op::Apply(Function::Cos) => v[0].cos(),
        Op::Apply(Function::Tan) => v[0].tan(),
        Op::Apply(Function::Asin) => v[0].asin(),
        Op::Apply(Function::Acos) => v[0].acos(),
        Op::Apply(Function::Atan) => v[0].atan(),
        Op::Apply(Function::Exp) => v[0].exp(),
        Op::Apply(Function::Ln) => v[0].ln(),
        Op::Apply(Function::Log10) => v[0].log10(),
        Op::Apply(Function::Floor) => v[0].floor(),
        Op::Apply(Function::Ceil) => v[0].ceil(),
        Op::Apply(Function::Round) => v[0].round(),
        Op::Combine(Pair::Min) => v[0].min(v[1]),
        Op::Combine(Pair::Max) => v[0].max(v[1]),
    })
}

fn value(input: &str) -> Result<f64, String> {
    eval(input, &classify, &show, &floats)
}

fn approx(a: f64, b: f64) {
    assert!((a - b).abs() < 1e-9, "expected {b}, got {a}");
}

#[test]
fn basic_arithmetic() {
    approx(value("2 + 3 * 4").unwrap(), 14.0);
    approx(value("(2 + 3) * 4").unwrap(), 20.0);
    approx(value("10 / 4").unwrap(), 2.5);
    approx(value("2 ^ 10").unwrap(), 1024.0);
    approx(value("-3 + 5").unwrap(), 2.0);
    approx(value("1.5 + 2.25").unwrap(), 3.75);
}

#[test]
fn functions_and_constants() {
    approx(value("sqrt(9)").unwrap(), 3.0);
    approx(value("abs(-7)").unwrap(), 7.0);
    approx(value("round(2.6)").unwrap(), 3.0);
    approx(value("floor(2.9)").unwrap(), 2.0);
    approx(value("ceil(2.1)").unwrap(), 3.0);
    approx(value("exp(0)").unwrap(), 1.0);
    approx(value("ln(e)").unwrap(), 1.0);
    approx(value("pi").unwrap(), std::f64::consts::PI);
}

#[test]
fn errors() {
    assert!(value("1 / 0").is_err());
    assert!(value("sqrt(-1)").is_err());
    assert!(value("bogus(1)").is_err());
    assert!(value("(1 + 2").is_err());
    assert!(value("3 # 4").is_err());
}

#[test]
fn the_other_functions_and_constants() {
    approx(value("tau / pi").unwrap(), 2.0);
    approx(value("sin(pi / 2)").unwrap(), 1.0);
    approx(value("cos(0)").unwrap(), 1.0);
    approx(value("tan(0)").unwrap(), 0.0);
    approx(value("asin(1) * 2").unwrap(), std::f64::consts::PI);
    approx(value("acos(1)").unwrap(), 0.0);
    approx(value("atan(1) * 4").unwrap(), std::f64::consts::PI);
    approx(value("log(e)").unwrap(), 1.0);
    approx(value("log10(1000)").unwrap(), 3.0);
    approx(value("root(16)").unwrap(), 4.0);
    approx(value("SQRT(9) + Pi - PI").unwrap(), 3.0);
}

#[test]
fn errors_are_put_in_words() {
    let error = |input: &str| value(input).unwrap_err();
    assert_eq!(error("1 / 0"), "division by zero");
    assert_eq!(error("sqrt(-1)"), "sqrt of negative -1");
    assert_eq!(error("ln(0)"), "log of non-positive 0");
    assert_eq!(error("log10(-2.5)"), "log10 of non-positive -2.5");
    assert_eq!(error("bogus(1)"), "unknown function `bogus`");
    assert_eq!(error("BOGUS(1)"), "unknown function `bogus`");
    assert_eq!(error("(1 + 2"), "expected `)` at position 6");
    assert_eq!(error("3 # 4"), "unexpected character `#` at position 2");
    assert_eq!(error(""), "unexpected token at position 0");
    assert_eq!(error("   "), "unexpected token at position 3");
    assert_eq!(error("1 +"), "unexpected token at position 3");
    assert_eq!(error("1.2.3"), "invalid number `1.2.3`");
    assert_eq!(error("."), "invalid number `.`");
    assert_eq!(error("x"), "expected `(` at position 1");
    assert_eq!(error("é"), "unexpected token at position 0");
    assert_eq!(error("(é"), "unexpected token at position 1");
    assert_eq!(error("max(1)"), "expected `,` at position 5");
    assert_eq!(error("min(1, 2"), "expected `)` at position 8");
    assert_eq!(error("sqrt(1, 2)"), "expected `)` at position 6");
    assert_eq!(error("min"), "expected `(` at position 3");
    assert_eq!(error("1, 2"), "unexpected character `,` at position 1");
}

#[test]
fn operands_outside_of_a_domain_are_refused() {
    let error = |input: &str| value(input).unwrap_err();
    assert_eq!(error("6 / -0"), "division by zero");
    assert_eq!(error("6 / (2 - 2)"), "division by zero");
    assert_eq!(error("asin(2)"), "asin of out-of-range 2");
    assert_eq!(error("acos(-1.5)"), "acos of out-of-range -1.5");
    assert_eq!(error("sqrt(-0.25)"), "sqrt of negative -0.25");
    assert_eq!(error("(-8) ^ 0.5"), "fractional power 0.5 of a negative number");
    assert_eq!(error("0 ^ -1"), "negative power -1 of zero");
    // The edges of the domains belong to them.
    approx(value("asin(-1) * 2").unwrap(), -std::f64::consts::PI);
    approx(value("acos(1)").unwrap(), 0.0);
    approx(value("sqrt(-0)").unwrap(), 0.0);
    approx(value("(-2) ^ 3").unwrap(), -8.0);
    approx(value("0 ^ 0").unwrap(), 1.0);
    // The rule stands before the arithmetic, whatever that would do.
    let never = |op: &Op, v: &Vec<f64>| -> Result<f64, String> {
        if *op == Op::Divide { panic!("divided") } else { floats(op, v) }
    };
    assert_eq!(
        eval("1/0", &classify, &show, &never),
        Err("division by zero".to_string())
    );
}

#[test]
fn two_arguments_are_combined() {
    approx(value("max(2, 3)").unwrap(), 3.0);
    approx(value("min(2, 3)").unwrap(), 2.0);
    approx(value("MIN ( 1 + 1 , 5 ) * 3").unwrap(), 6.0);
    approx(value("max(min(1, 2), max(-3, -4))").unwrap(), 1.0);
    let n = |text: &str| Op::Number(text.to_string());
    assert_eq!(compile("max(1,2)").ops, vec![n("1"), n("2"), Op::Combine(Pair::Max)]);
    assert_eq!(compile("min(1,2)").ops, vec![n("1"), n("2"), Op::Combine(Pair::Min)]);
    assert_eq!(compile("max(1)").error, Some(SyntaxError::Expected(',', 5)));
}

#[test]
fn texts_with_values_can_be_joined() {
    for (a, b) in [("1+2", " 4 "), ("-3", "2^2"), ("max(1,2)", "sqrt(9)-1"), (".5", "(7)")] {
        let (x, y) = (value(a).unwrap(), value(b).unwrap());
        assert_eq!(value(&format!("({a}) + ({b})")), Ok(x + y));
        assert_eq!(value(&format!("({a}) - ({b})")), Ok(x - y));
        assert_eq!(value(&format!("({a}) * ({b})")), Ok(x * y));
        assert_eq!(value(&format!("({a}) / ({b})")), Ok(x / y));
        assert_eq!(value(&format!("({a})/(({b})-({b}))")), Err("division by zero".to_string()));
        assert_eq!(value(&format!(" ({a}) ")), Ok(x));
        assert_eq!(value(&format!("-({a})")), Ok(-x));
    }
}

#[test]
fn accepted_texts_are_read_to_their_end() {
    assert_eq!(value("1 2").unwrap_err(), "unexpected character `2` at position 2");
    assert_eq!(value("(1))").unwrap_err(), "unexpected character `)` at position 3");
    assert_eq!(value("1 + 2 é").unwrap_err(), "unexpected character `é` at position 6");
    for blank in ["", " ", "\t\n", "\u{3000}"] {
        assert!(matches!(compile(blank).error, Some(SyntaxError::UnexpectedToken(_))));
    }
    // Two names for one function.
    assert_eq!(compile("root(4)").ops, compile("sqrt(4)").ops);
    assert_eq!(compile("log(4)").ops, compile("ln(4)").ops);
}

#[test]
fn the_first_error_from_left_to_right_wins() {
    assert_eq!(value("1 / 0 + (").unwrap_err(), "division by zero");
    assert_eq!(value("bogus(1 / 0)").unwrap_err(), "division by zero");
    assert_eq!(value("sqrt(-1) + 1.2.3").unwrap_err(), "sqrt of negative -1");
    assert_eq!(value("1.2.3 + sqrt(-1)").unwrap_err(), "invalid number `1.2.3`");
    assert_eq!(value("(1 / 0").unwrap_err(), "division by zero");
}

#[test]
fn precedence_and_association() {
    approx(value("10 - 4 - 3").unwrap(), 3.0);
    approx(value("100 / 5 / 2").unwrap(), 10.0);
    approx(value("2 * 3 ^ 2").unwrap(), 18.0);
    approx(value("-2 ^ 2").unwrap(), 4.0);
    approx(value("2 ^ -1").unwrap(), 0.5);
    approx(value("2 ^ 3 ^ 2").unwrap(), 512.0);
    approx(value("2^3^2").unwrap(), 512.0);
    approx(value("(2 ^ 3) ^ 2").unwrap(), 64.0);
    approx(value("--3").unwrap(), 3.0);
    approx(value("+-+3").unwrap(), -3.0);
    approx(value("2 - -3").unwrap(), 5.0);
    approx(value("((((7))))").unwrap(), 7.0);
}

#[test]
fn numbers_in_every_form() {
    approx(value("1e3").unwrap(), 1000.0);
    approx(value("1.5E-3 * 2000").unwrap(), 3.0);
    approx(value("2e+2").unwrap(), 200.0);
    approx(value(".5 + 5.").unwrap(), 5.5);
    // An `e` without digits is no exponent.
    assert_eq!(value("2e").unwrap_err(), "unexpected character `e` at position 1");
    assert_eq!(value("2e+").unwrap_err(), "unexpected character `e` at position 1");
}

#[test]
fn texts_compile_to_stack_code() {
    let n = |text: &str| Op::Number(text.to_string());
    let p: Program = compile("2 + 3 * sqrt(4)");
    assert_eq!(p.error, None);
    assert_eq!(
        p.ops,
        vec![n("2"), n("3"), n("4"), Op::Apply(Function::Sqrt), Op::Multiply, Op::Add]
    );

    let p = compile("-pi ^ 2 / (1 - e)");
    assert_eq!(p.error, None);
    assert_eq!(
        p.ops,
        vec![
            Op::Constant(Constant::Pi),
            Op::Negate,
            n("2"),
            Op::Power,
            n("1"),
            Op::Constant(Constant::E),
            Op::Subtract,
            Op::Divide
        ]
    );

    let p = compile("1 + 2 @");
    assert_eq!(p.error, Some(SyntaxError::UnexpectedCharacter('@', 6)));
    assert_eq!(p.ops, vec![n("1"), n("2"), Op::Add]);
    assert_eq!(compile("(1").error, Some(SyntaxError::Expected(')', 2)));
    assert_eq!(compile("*").error, Some(SyntaxError::UnexpectedToken(0)));
    assert_eq!(compile("1..2").error, Some(SyntaxError::InvalidNumber("1..2".to_string())));
    assert_eq!(compile("f(1)").error, Some(SyntaxError::UnknownFunction("f".to_string())));
}

#[test]
fn written_expressions_are_read_back() {
    // With more brackets than are needed, and with no more than that.
    let p = compile("((-(1.5+pi))*round((2^3e1)))");
    assert_eq!(p.error, None);
    assert_eq!(
        p.ops,
        vec![
            Op::Number("1.5".to_string()),
            Op::Constant(Constant::Pi),
            Op::Add,
            Op::Negate,
            Op::Number("2".to_string()),
            Op::Number("3e1".to_string()),
            Op::Power,
            Op::Apply(Function::Round),
            Op::Multiply
        ]
    );
    assert_eq!(compile("-(1.5+pi)*round(2^3e1)").ops, p.ops);
    approx(value("((-(1.5+0.5))*round((2^3)))").unwrap(), -16.0);
    approx(value("-(1.5+0.5)*round(2^3)").unwrap(), -16.0);
    approx(value("(1-(2-3))/(4/(5*6))^2").unwrap(), 112.5);
}

#[test]
fn other_arithmetic_can_be_used() {
    // Counts the operations of an expression.
    let count = |_: &Op, v: &Vec<u32>| -> Result<u32, String> { Ok(v.iter().sum::<u32>() + 1) };
    let plain = |_: &u32| Class { sign: Sign::Positive, beyond_one: false, whole: true };
    let text = |n: &u32| n.to_string();
    assert_eq!(eval("1 + 2 * abs(-3)", &plain, &text, &count), Ok(7));
    let refuse = |op: &Op, _: &Vec<u32>| -> Result<u32, String> { Err(format!("{op:?}")) };
    assert_eq!(eval("pi + 1", &plain, &text, &refuse), Err("Constant(Pi)".to_string()));
}

#[test]
fn faults_depend_on_the_class_of_the_operands() {
    let class = |sign: Sign| Class { sign, beyond_one: false, whole: true };
    let one = |op: &Op, s: Sign| find_fault(op, &vec![class(s)]);
    let two = |op: &Op, s: Sign, t: Sign| find_fault(op, &vec![class(s), class(t)]);
    assert_eq!(two(&Op::Divide, Sign::Positive, Sign::Zero), Some(Fault::DivisionByZero));
    assert_eq!(two(&Op::Divide, Sign::Zero, Sign::Negative), None);
    assert_eq!(two(&Op::Divide, Sign::Zero, Sign::Undefined), None);
    let sqrt = Op::Apply(Function::Sqrt);
    assert_eq!(one(&sqrt, Sign::Negative), Some(Fault::RootOfNegative));
    assert_eq!(one(&sqrt, Sign::Zero), None);
    assert_eq!(one(&sqrt, Sign::Undefined), None);
    let ln = Op::Apply(Function::Ln);
    assert_eq!(one(&ln, Sign::Zero), Some(Fault::LogOfNonPositive));
    assert_eq!(one(&ln, Sign::Negative), Some(Fault::LogOfNonPositive));
    assert_eq!(one(&ln, Sign::Positive), None);
    let log10 = Op::Apply(Function::Log10);
    assert_eq!(one(&log10, Sign::Zero), Some(Fault::Log10OfNonPositive));
    assert_eq!(one(&log10, Sign::Positive), None);
    let beyond = vec![Class { sign: Sign::Positive, beyond_one: true, whole: false }];
    assert_eq!(find_fault(&Op::Apply(Function::Asin), &beyond), Some(Fault::AsinOutOfRange));
    assert_eq!(find_fault(&Op::Apply(Function::Acos), &beyond), Some(Fault::AcosOutOfRange));
    assert_eq!(find_fault(&Op::Apply(Function::Atan), &beyond), None);
    assert_eq!(one(&Op::Apply(Function::Asin), Sign::Negative), None);
    let half = Class { sign: Sign::Positive, beyond_one: false, whole: false };
    assert_eq!(
        find_fault(&Op::Power, &vec![class(Sign::Negative), half]),
        Some(Fault::FractionalPowerOfNegative)
    );
    assert_eq!(find_fault(&Op::Power, &vec![class(Sign::Positive), half]), None);
    assert_eq!(
        two(&Op::Power, Sign::Zero, Sign::Negative),
        Some(Fault::NegativePowerOfZero)
    );
    assert_eq!(two(&Op::Power, Sign::Negative, Sign::Negative), None);
    assert_eq!(two(&Op::Add, Sign::Zero, Sign::Zero), None);
    assert_eq!(find_fault(&Op::Constant(Constant::Pi), &Vec::new()), None);
}

#[test]
fn faults_are_put_in_words() {
    let text = |f: Fault| f.message("x");
    assert_eq!(text(Fault::DivisionByZero), "division by zero");
    assert_eq!(text(Fault::RootOfNegative), "sqrt of negative x");
    assert_eq!(text(Fault::LogOfNonPositive), "log of non-positive x");
    assert_eq!(text(Fault::Log10OfNonPositive), "log10 of non-positive x");
    assert_eq!(text(Fault::AsinOutOfRange), "asin of out-of-range x");
    assert_eq!(text(Fault::AcosOutOfRange), "acos of out-of-range x");
    assert_eq!(text(Fault::FractionalPowerOfNegative), "fractional power x of a negative number");
    assert_eq!(text(Fault::NegativePowerOfZero), "negative power x of zero");
}

#[test]
fn white_space_is_that_of_unicode() {
    for c in (0..=0x10ffffu32).filter_map(char::from_u32) {
        assert_eq!(is_space(c), c.is_whitespace(), "{:x}", c as u32);
    }
    approx(value("\t1\u{2003}+\u{3000}2\n").unwrap(), 3.0);
}

#[test]
fn accepted_numbers_are_those_that_floats_accept() {
    // Every text of up to five characters out of these that is one number to the parser.
    let alphabet = ['1', '0', '.', 'e', '-'];
    let mut texts: Vec<String> = vec![String::new()];
    for _ in 0..5 {
        let mut longer = Vec::new();
        for t in &texts {
            for c in alphabet {
                longer.push(format!("{t}{c}"));
            }
        }
        texts.extend(longer);
        texts.sort();
        texts.dedup();
    }
    for t in &texts {
        if t.starts_with(|c: char| c.is_ascii_digit() || c == '.') {
            let p = compile(t);
            if let [Op::Number(n)] = &p.ops[..] {
                assert!(n.parse::<f64>().is_ok(), "{n}");
            }
            if let Some(SyntaxError::InvalidNumber(n)) = &p.error {
                assert!(n.parse::<f64>().is_err(), "{n}");
            }
        }
    }
}

#[test]
fn the_parser_steps_through_a_text() {
    let mut p = Parser::new("  (x");
    assert_eq!(p.peek_char(), Some(' '));
    p.skip_ws();
    assert_eq!(p.peek_char(), Some('('));
    assert_eq!(p.eat('('), Ok(()));
    assert_eq!(p.eat(')'), Err(SyntaxError::Expected(')', 3)));
    assert_eq!(p.peek_char(), Some('x'));
}

#[test]
fn each_rule_of_the_grammar_reads_its_part() {
    let rest = |p: &Parser| p.peek_char();
    let mut p = Parser::new("2^3^2");
    assert_eq!(p.parse_power(), Ok(()));
    assert_eq!(rest(&p), None);
    let mut p = Parser::new(" 6 / -0 + 1");
    assert_eq!(p.parse_muldiv(), Ok(()));
    assert_eq!(rest(&p), Some('+'));
    let mut p = Parser::new("1 + 2)");
    assert_eq!(p.parse_addsub(), Ok(()));
    assert_eq!(rest(&p), Some(')'));
    let mut p = Parser::new("- + 7^2");
    assert_eq!(p.parse_unary(), Ok(()));
    assert_eq!(rest(&p), Some('^'));
    let mut p = Parser::new("  (1) 2");
    assert_eq!(p.parse_atom(), Ok(()));
    assert_eq!(rest(&p), Some(' '));
    let mut p = Parser::new(" \t ");
    assert_eq!(p.parse_atom(), Err(SyntaxError::UnexpectedToken(3)));
    assert_eq!(rest(&p), None);
}

#[test]
fn printed_numbers_are_read_back() {
    for x in [
        0.0,
        -1.0,
        0.1,
        -2.5,
        1e21,
        1e-7,
        123456.789,
        f64::MAX,
        f64::MIN_POSITIVE,
        -f64::EPSILON,
    ] {
        assert_eq!(value(&format!("{x}")), Ok(x));
    }
}
