//! Arithmetic expressions: a small recursive-descent parser over a closed grammar.
//!
//! ```text
//! sum     := product (('+' | '-') product)*
//! product := power (('*' | '/') power)*
//! power   := unary ('^' power)?
//! unary   := ('-' | '+') unary | atom
//! atom    := number | constant | name '(' sum ')' | name '(' sum ',' sum ')' | '(' sum ')'
//! ```
//!
//! So sums and products are carried out from left to right, and powers from right to left.
//!
//! Parsing emits stack code: each operation takes its operands from the top of a
//! stack and leaves its result there, in the order in which the text is read. A text
//! that breaks the grammar still has the code of what came before the break, so an
//! operation that fails there fails first.
use vstd::prelude::*;
use crate::text::{chars_of, decimal, render_unsigned, same_text, text_between};

pub mod domains;
pub mod joined;
pub mod laws;
pub mod mistakes;
pub mod texts;
pub mod words;

verus! {

// ---------------------------------------------------------------------------
// Code
// ---------------------------------------------------------------------------

/// A named constant.
#[derive(Debug, Clone, Copy, PartialEq, Eq, Structural)]
pub enum Constant {
    Pi,
    E,
    Tau,
}

/// A named function of one argument.
#[derive(Debug, Clone, Copy, PartialEq, Eq, Structural)]
pub enum Function {
    Sqrt,
    Abs,
    Sin,
    Cos,
    Tan,
    Asin,
    Acos,
    Atan,
    Exp,
    Ln,
    Log10,
    Floor,
    Ceil,
    Round,
}

/// A named function of two arguments.
#[derive(Debug, Clone, Copy, PartialEq, Eq, Structural)]
pub enum Pair {
    Min,
    Max,
}

/// One operation of the stack code.
#[derive(Debug, PartialEq, Eq)]
pub enum Op {
    /// Leaves the number written by this text.
    Number(String),
    /// Leaves the constant.
    Constant(Constant),
    Negate,
    Add,
    Subtract,
    Multiply,
    Divide,
    Power,
    /// Applies the function to the topmost value.
    Apply(Function),
    /// Applies the function to the two topmost values.
    Combine(Pair),
}

/// What an [`Op`] says.
pub enum OpView {
    Number(Seq<char>),
    Constant(Constant),
    Negate,
    Add,
    Subtract,
    Multiply,
    Divide,
    Power,
    Apply(Function),
    Combine(Pair),
}

impl View for Op {
    type V = OpView;

    open spec fn view(&self) -> OpView {
        match self {
            Op::Number(text) => OpView::Number(text@),
            Op::Constant(c) => OpView::Constant(*c),
            Op::Negate => OpView::Negate,
            Op::Add => OpView::Add,
            Op::Subtract => OpView::Subtract,
            Op::Multiply => OpView::Multiply,
            Op::Divide => OpView::Divide,
            Op::Power => OpView::Power,
            Op::Apply(f) => OpView::Apply(*f),
            Op::Combine(f) => OpView::Combine(*f),
        }
    }
}

/// What a list of operations says.
pub open spec fn code_view(ops: Seq<Op>) -> Seq<OpView> {
    Seq::new(ops.len(), |i: int| ops[i]@)
}

/// Why a text is no expression. Positions count characters from zero.
#[derive(Debug, PartialEq, Eq)]
pub enum SyntaxError {
    /// An expression was read, and this character follows it.
    UnexpectedCharacter(char, usize),
    /// This character had to stand here.
    Expected(char, usize),
    /// No number, name or parenthesis starts here.
    UnexpectedToken(usize),
    /// Digits and dots that make no number.
    InvalidNumber(String),
    /// A call of a function that does not exist, by its name in lower case.
    UnknownFunction(String),
}

/// What a [`SyntaxError`] says.
pub enum SyntaxErrorView {
    UnexpectedCharacter(char, nat),
    Expected(char, nat),
    UnexpectedToken(nat),
    InvalidNumber(Seq<char>),
    UnknownFunction(Seq<char>),
}

impl View for SyntaxError {
    type V = SyntaxErrorView;

    open spec fn view(&self) -> SyntaxErrorView {
        match self {
            SyntaxError::UnexpectedCharacter(c, p) => SyntaxErrorView::UnexpectedCharacter(*c, *p as nat),
            SyntaxError::Expected(c, p) => SyntaxErrorView::Expected(*c, *p as nat),
            SyntaxError::UnexpectedToken(p) => SyntaxErrorView::UnexpectedToken(*p as nat),
            SyntaxError::InvalidNumber(text) => SyntaxErrorView::InvalidNumber(text@),
            SyntaxError::UnknownFunction(name) => SyntaxErrorView::UnknownFunction(name@),
        }
    }
}

/// The error of a result, if it is one.
pub open spec fn outcome(r: Result<(), SyntaxError>) -> Option<SyntaxErrorView> {
    match r {
        Ok(()) => None,
        Err(e) => Some(e@),
    }
}

// ---------------------------------------------------------------------------
// Characters
// ---------------------------------------------------------------------------

/// The characters with the Unicode property `White_Space`.
pub open spec fn is_space_spec(c: char) -> bool {
    ||| '\u{9}' <= c <= '\u{d}'
    ||| c == ' '
    ||| c == '\u{85}'
    ||| c == '\u{a0}'
    ||| c == '\u{1680}'
    ||| '\u{2000}' <= c <= '\u{200a}'
    ||| c == '\u{2028}'
    ||| c == '\u{2029}'
    ||| c == '\u{202f}'
    ||| c == '\u{205f}'
    ||| c == '\u{3000}'
}

/// Whether a character is white space.
pub fn is_space(c: char) -> (r: bool)
    ensures
        r == is_space_spec(c),
{
    ('\u{9}' <= c && c <= '\u{d}') || c == ' ' || c == '\u{85}' || c == '\u{a0}' || c == '\u{1680}'
        || ('\u{2000}' <= c && c <= '\u{200a}') || c == '\u{2028}' || c == '\u{2029}' || c
        == '\u{202f}' || c == '\u{205f}' || c == '\u{3000}'
}

/// `0` to `9`.
pub open spec fn is_digit_spec(c: char) -> bool {
    '0' <= c <= '9'
}

/// The letters of ASCII.
pub open spec fn is_letter_spec(c: char) -> bool {
    'a' <= c <= 'z' || 'A' <= c <= 'Z'
}

/// What may stand in the first part of a number.
pub open spec fn is_mantissa_spec(c: char) -> bool {
    is_digit_spec(c) || c == '.'
}

/// What a name starts with.
pub open spec fn is_name_start_spec(c: char) -> bool {
    is_letter_spec(c) || c == '_'
}

/// What a name goes on with.
pub open spec fn is_name_part_spec(c: char) -> bool {
    is_letter_spec(c) || is_digit_spec(c) || c == '_'
}

/// The lower case of an ASCII letter; any other character itself.
pub open spec fn lower_spec(c: char) -> char {
    if 'A' <= c <= 'Z' {
        ((c as nat) + 32) as char
    } else {
        c
    }
}

/// A text with its ASCII letters in lower case.
pub open spec fn lower_text(s: Seq<char>) -> Seq<char> {
    Seq::new(s.len(), |i: int| lower_spec(s[i]))
}

fn is_digit(c: char) -> (r: bool)
    ensures
        r == is_digit_spec(c),
{
    '0' <= c && c <= '9'
}

fn is_mantissa(c: char) -> (r: bool)
    ensures
        r == is_mantissa_spec(c),
{
    is_digit(c) || c == '.'
}

fn is_name_start(c: char) -> (r: bool)
    ensures
        r == is_name_start_spec(c),
{
    ('a' <= c && c <= 'z') || ('A' <= c && c <= 'Z') || c == '_'
}

fn is_name_part(c: char) -> (r: bool)
    ensures
        r == is_name_part_spec(c),
{
    is_name_start(c) || is_digit(c)
}

fn lower(c: char) -> (r: char)
    ensures
        r == lower_spec(c),
{
    if 'A' <= c && c <= 'Z' {
        ((c as u8) + 32) as char
    } else {
        c
    }
}

// ---------------------------------------------------------------------------
// The grammar
// ---------------------------------------------------------------------------

/// The first position from `pos` on whose character fails `p`, or the end.
pub open spec fn span_end(s: Seq<char>, pos: nat, p: spec_fn(char) -> bool) -> nat
    decreases s.len() - pos,
{
    if pos < s.len() && p(s[pos as int]) {
        span_end(s, pos + 1, p)
    } else {
        pos
    }
}

/// The first position from `pos` on that holds no white space.
pub open spec fn skip(s: Seq<char>, pos: nat) -> nat {
    span_end(s, pos, |c: char| is_space_spec(c))
}

/// Whether `c` stands at `pos`.
pub open spec fn stands(s: Seq<char>, pos: nat, c: char) -> bool {
    pos < s.len() && s[pos as int] == c
}

/// The end of the digits and dots from `pos` on.
pub open spec fn mantissa_end(s: Seq<char>, pos: nat) -> nat {
    span_end(s, pos, |c: char| is_mantissa_spec(c))
}

/// The end of the digits from `pos` on.
pub open spec fn digits_end(s: Seq<char>, pos: nat) -> nat {
    span_end(s, pos, |c: char| is_digit_spec(c))
}

/// Where the digits of an exponent start whose `e` stands at `pos`.
pub open spec fn exponent_digits(s: Seq<char>, pos: nat) -> nat {
    if stands(s, pos + 1, '-') || stands(s, pos + 1, '+') {
        pos + 2
    } else {
        pos + 1
    }
}

/// The end of the number that starts at `pos`: digits and dots, then an exponent
/// where one with at least one digit follows.
pub open spec fn number_end(s: Seq<char>, pos: nat) -> nat {
    let m = mantissa_end(s, pos);
    if stands(s, m, 'e') || stands(s, m, 'E') {
        let k = exponent_digits(s, m);
        let d = digits_end(s, k);
        if d > k {
            d
        } else {
            m
        }
    } else {
        m
    }
}

/// Whether digits and dots make a number: at least one digit, at most one dot.
pub open spec fn is_number_spec(m: Seq<char>) -> bool {
    &&& exists|i: int| 0 <= i < m.len() && is_digit_spec(#[trigger] m[i])
    &&& forall|i: int, k: int|
        0 <= i < k < m.len() ==> !(#[trigger] m[i] == '.' && #[trigger] m[k] == '.')
}

/// The end of the name that starts at `pos`.
pub open spec fn name_end(s: Seq<char>, pos: nat) -> nat {
    span_end(s, pos, |c: char| is_name_part_spec(c))
}

/// The constant of this name.
pub open spec fn constant_named(name: Seq<char>) -> Option<Constant> {
    if name == "pi"@ {
        Some(Constant::Pi)
    } else if name == "e"@ {
        Some(Constant::E)
    } else if name == "tau"@ {
        Some(Constant::Tau)
    } else {
        None
    }
}

/// The function of this name.
pub open spec fn function_named(name: Seq<char>) -> Option<Function> {
    if name == "sqrt"@ || name == "root"@ {
        Some(Function::Sqrt)
    } else if name == "abs"@ {
        Some(Function::Abs)
    } else if name == "sin"@ {
        Some(Function::Sin)
    } else if name == "cos"@ {
        Some(Function::Cos)
    } else if name == "tan"@ {
        Some(Function::Tan)
    } else if name == "asin"@ {
        Some(Function::Asin)
    } else if name == "acos"@ {
        Some(Function::Acos)
    } else if name == "atan"@ {
        Some(Function::Atan)
    } else if name == "exp"@ {
        Some(Function::Exp)
    } else if name == "ln"@ || name == "log"@ {
        Some(Function::Ln)
    } else if name == "log10"@ {
        Some(Function::Log10)
    } else if name == "floor"@ {
        Some(Function::Floor)
    } else if name == "ceil"@ {
        Some(Function::Ceil)
    } else if name == "round"@ {
        Some(Function::Round)
    } else {
        None
    }
}

/// The function of two arguments of this name.
pub open spec fn pair_named(name: Seq<char>) -> Option<Pair> {
    if name == "min"@ {
        Some(Pair::Min)
    } else if name == "max"@ {
        Some(Pair::Max)
    } else {
        None
    }
}

/// What reading a part of the text gives: where the reading ended, the code emitted
/// so far, and the error that ended it, if one did.
pub struct Phrase {
    pub end: nat,
    pub code: Seq<OpView>,
    pub error: Option<SyntaxErrorView>,
}

/// An error at `end` with nothing emitted.
pub open spec fn broken(end: nat, error: SyntaxErrorView) -> Phrase {
    Phrase { end, code: Seq::empty(), error: Some(error) }
}

/// `left` read, then `right`, then `op` emitted if `right` was read without error.
pub open spec fn followed(left: Phrase, right: Phrase, op: OpView) -> Phrase {
    Phrase {
        end: right.end,
        code: if right.error is None {
            (left.code + right.code).push(op)
        } else {
            left.code + right.code
        },
        error: right.error,
    }
}

/// `inner` read, then `c` required behind it.
pub open spec fn closed_by(s: Seq<char>, inner: Phrase, c: char) -> Phrase {
    if inner.error is Some {
        inner
    } else {
        let p = skip(s, inner.end);
        if stands(s, p, c) {
            Phrase { end: p + 1, ..inner }
        } else {
            Phrase { end: p, error: Some(SyntaxErrorView::Expected(c, p)), ..inner }
        }
    }
}

/// `sum := product (('+' | '-') product)*`
pub open spec fn sum(s: Seq<char>, pos: nat) -> Phrase
    decreases s.len() - pos, 7int,
{
    let first = product(s, pos);
    if first.error is None && pos <= first.end <= s.len() {
        sum_rest(s, first)
    } else {
        first
    }
}

/// The `(('+' | '-') product)*` behind what has been read of a sum.
pub open spec fn sum_rest(s: Seq<char>, left: Phrase) -> Phrase
    decreases s.len() - left.end, 6int,
{
    let p = skip(s, left.end);
    if left.end <= p && (stands(s, p, '+') || stands(s, p, '-')) {
        let both = followed(
            left,
            product(s, p + 1),
            if s[p as int] == '+' {
                OpView::Add
            } else {
                OpView::Subtract
            },
        );
        if both.error is None && p < both.end <= s.len() {
            sum_rest(s, both)
        } else {
            both
        }
    } else {
        Phrase { end: p, ..left }
    }
}

/// `product := power (('*' | '/') power)*`
pub open spec fn product(s: Seq<char>, pos: nat) -> Phrase
    decreases s.len() - pos, 5int,
{
    let first = power(s, pos);
    if first.error is None && pos <= first.end <= s.len() {
        product_rest(s, first)
    } else {
        first
    }
}

/// The `(('*' | '/') power)*` behind what has been read of a product.
pub open spec fn product_rest(s: Seq<char>, left: Phrase) -> Phrase
    decreases s.len() - left.end, 4int,
{
    let p = skip(s, left.end);
    if left.end <= p && (stands(s, p, '*') || stands(s, p, '/')) {
        let both = followed(
            left,
            power(s, p + 1),
            if s[p as int] == '*' {
                OpView::Multiply
            } else {
                OpView::Divide
            },
        );
        if both.error is None && p < both.end <= s.len() {
            product_rest(s, both)
        } else {
            both
        }
    } else {
        Phrase { end: p, ..left }
    }
}

/// `power := unary ('^' power)?`
pub open spec fn power(s: Seq<char>, pos: nat) -> Phrase
    decreases s.len() - pos, 3int,
{
    let base = unary(s, pos);
    let p = skip(s, base.end);
    if base.error is Some {
        base
    } else if pos <= p && stands(s, p, '^') {
        followed(base, power(s, p + 1), OpView::Power)
    } else {
        Phrase { end: p, ..base }
    }
}

/// `unary := ('-' | '+') unary | atom`
pub open spec fn unary(s: Seq<char>, pos: nat) -> Phrase
    decreases s.len() - pos, 2int,
{
    let p = skip(s, pos);
    if pos <= p && stands(s, p, '-') {
        let operand = unary(s, p + 1);
        if operand.error is None {
            Phrase { code: operand.code.push(OpView::Negate), ..operand }
        } else {
            operand
        }
    } else if pos <= p && stands(s, p, '+') {
        unary(s, p + 1)
    } else if pos <= p <= s.len() {
        atom(s, p)
    } else {
        broken(p, SyntaxErrorView::UnexpectedToken(p))
    }
}

/// A number, from its first digit or dot on.
pub open spec fn number(s: Seq<char>, pos: nat) -> Phrase {
    let end = number_end(s, pos);
    let text = s.subrange(pos as int, end as int);
    if is_number_spec(s.subrange(pos as int, mantissa_end(s, pos) as int)) {
        Phrase { end, code: seq![OpView::Number(text)], error: None }
    } else {
        broken(end, SyntaxErrorView::InvalidNumber(text))
    }
}

/// `constant | name '(' sum ')' | name '(' sum ',' sum ')'`, from the first character of the name on.
pub open spec fn named(s: Seq<char>, pos: nat) -> Phrase
    decreases s.len() - pos, 0int,
{
    let end = name_end(s, pos);
    let name = lower_text(s.subrange(pos as int, end as int));
    let p = skip(s, end);
    match constant_named(name) {
        Some(c) => Phrase { end, code: seq![OpView::Constant(c)], error: None },
        None => if pos <= p && stands(s, p, '(') {
            match pair_named(name) {
                Some(f) => combined(s, p + 1, f),
                None => applied(name, closed_by(s, sum(s, p + 1), ')')),
            }
        } else {
            broken(p, SyntaxErrorView::Expected('(', p))
        },
    }
}

/// `sum ',' sum ')'`, then the function applied to the two.
pub open spec fn combined(s: Seq<char>, pos: nat, f: Pair) -> Phrase
    decreases s.len() - pos, 8int,
{
    let first = sum(s, pos);
    let p = skip(s, first.end);
    if first.error is Some {
        first
    } else if pos <= p && stands(s, p, ',') {
        followed(first, closed_by(s, sum(s, p + 1), ')'), OpView::Combine(f))
    } else {
        Phrase { end: p, error: Some(SyntaxErrorView::Expected(',', p)), ..first }
    }
}

/// The argument of a call read, then the function of this name applied to it.
pub open spec fn applied(name: Seq<char>, argument: Phrase) -> Phrase {
    if argument.error is Some {
        argument
    } else {
        match function_named(name) {
            Some(f) => Phrase { code: argument.code.push(OpView::Apply(f)), ..argument },
            None => Phrase { error: Some(SyntaxErrorView::UnknownFunction(name)), ..argument },
        }
    }
}

/// `atom := number | constant | name '(' sum ')' | name '(' sum ',' sum ')' | '(' sum ')'`,
/// from a position that holds no white space.
pub open spec fn atom(s: Seq<char>, pos: nat) -> Phrase
    decreases s.len() - pos, 1int,
{
    if pos < s.len() && is_mantissa_spec(s[pos as int]) {
        number(s, pos)
    } else if pos < s.len() && is_name_start_spec(s[pos as int]) {
        named(s, pos)
    } else if stands(s, pos, '(') {
        closed_by(s, sum(s, pos + 1), ')')
    } else {
        broken(pos, SyntaxErrorView::UnexpectedToken(pos))
    }
}

/// A whole text: a sum with nothing but white space behind it.
pub open spec fn program(s: Seq<char>) -> Phrase {
    let whole = sum(s, 0);
    if whole.error is Some {
        whole
    } else {
        let p = skip(s, whole.end);
        if p < s.len() {
            Phrase {
                end: p,
                error: Some(SyntaxErrorView::UnexpectedCharacter(s[p as int], p)),
                ..whole
            }
        } else {
            Phrase { end: p, ..whole }
        }
    }
}

/// The constant of this name, which is in lower case.
fn find_constant(name: &str) -> (c: Option<Constant>)
    ensures
        c == constant_named(name@),
{
    if same_text(name, "pi") {
        Some(Constant::Pi)
    } else if same_text(name, "e") {
        Some(Constant::E)
    } else if same_text(name, "tau") {
        Some(Constant::Tau)
    } else {
        None
    }
}

/// The function of this name, which is in lower case.
fn find_function(name: &str) -> (f: Option<Function>)
    ensures
        f == function_named(name@),
{
    if same_text(name, "sqrt") || same_text(name, "root") {
        Some(Function::Sqrt)
    } else if same_text(name, "abs") {
        Some(Function::Abs)
    } else if same_text(name, "sin") {
        Some(Function::Sin)
    } else if same_text(name, "cos") {
        Some(Function::Cos)
    } else if same_text(name, "tan") {
        Some(Function::Tan)
    } else if same_text(name, "asin") {
        Some(Function::Asin)
    } else if same_text(name, "acos") {
        Some(Function::Acos)
    } else if same_text(name, "atan") {
        Some(Function::Atan)
    } else if same_text(name, "exp") {
        Some(Function::Exp)
    } else if same_text(name, "ln") || same_text(name, "log") {
        Some(Function::Ln)
    } else if same_text(name, "log10") {
        Some(Function::Log10)
    } else if same_text(name, "floor") {
        Some(Function::Floor)
    } else if same_text(name, "ceil") {
        Some(Function::Ceil)
    } else if same_text(name, "round") {
        Some(Function::Round)
    } else {
        None
    }
}

/// The function of two arguments of this name, which is in lower case.
fn find_pair(name: &str) -> (f: Option<Pair>)
    ensures
        f == pair_named(name@),
{
    if same_text(name, "min") {
        Some(Pair::Min)
    } else if same_text(name, "max") {
        Some(Pair::Max)
    } else {
        None
    }
}

// ---------------------------------------------------------------------------
// The parser
// ---------------------------------------------------------------------------

/// Reads a text from left to right and emits code.
pub struct Parser {
    chars: Vec<char>,
    pos: usize,
    ops: Vec<Op>,
}

/// Behind white space there is no more of it.
proof fn lemma_skipped_once(s: Seq<char>, pos: nat)
    ensures
        skip(s, skip(s, pos)) == skip(s, pos),
    decreases s.len() - pos,
{
    if pos < s.len() && is_space_spec(s[pos as int]) {
        lemma_skipped_once(s, pos + 1);
    }
}

impl Parser {
    /// The text that is read.
    pub closed spec fn source(&self) -> Seq<char> {
        self.chars@
    }

    /// The position of the next character.
    pub closed spec fn position(&self) -> nat {
        self.pos as nat
    }

    /// The code emitted so far.
    pub closed spec fn code(&self) -> Seq<OpView> {
        code_view(self.ops@)
    }

    /// The position lies in the text or at its end.
    pub open spec fn wf(&self) -> bool {
        self.position() <= self.source().len()
    }

    /// Whether the parser got from `before` to `self` by reading `phrase`.
    pub open spec fn has_read(&self, before: &Parser, phrase: Phrase) -> bool {
        &&& self.wf()
        &&& self.source() == before.source()
        &&& self.position() == phrase.end
        &&& before.position() <= self.position()
        &&& phrase.error is None ==> before.position() < self.position()
        &&& self.code() == before.code() + phrase.code
    }

    /// A parser at the start of a text.
    pub fn new(input: &str) -> (p: Parser)
        ensures
            p.wf(),
            p.source() == input@,
            p.position() == 0,
            p.code() == Seq::<OpView>::empty(),
    {
        let p = Parser { chars: chars_of(input), pos: 0, ops: Vec::new() };
        assert(p.code() == Seq::<OpView>::empty());
        p
    }

    /// Moves over white space.
    pub fn skip_ws(&mut self)
        requires
            old(self).wf(),
        ensures
            final(self).wf(),
            final(self).source() == old(self).source(),
            final(self).code() == old(self).code(),
            final(self).position() == skip(old(self).source(), old(self).position()),
            old(self).position() <= final(self).position(),
    {
        let ghost p = |c: char| is_space_spec(c);
        while self.pos < self.chars.len() && is_space(self.chars[self.pos])
            invariant
                self.wf(),
                self.chars == old(self).chars,
                self.ops == old(self).ops,
                old(self).pos <= self.pos,
                p == (|c: char| is_space_spec(c)),
                span_end(self.chars@, old(self).pos as nat, p) == span_end(
                    self.chars@,
                    self.pos as nat,
                    p,
                ),
            decreases self.chars@.len() - self.pos,
        {
            self.pos += 1;
        }
    }

    /// The next character, if there is one.
    pub fn peek_char(&self) -> (c: Option<char>)
        requires
            self.wf(),
        ensures
            match c {
                Some(c) => stands(self.source(), self.position(), c),
                None => self.position() == self.source().len(),
            },
    {
        if self.pos < self.chars.len() {
            Some(self.chars[self.pos])
        } else {
            None
        }
    }

    /// Appends an operation to the code.
    fn emit(&mut self, op: Op)
        requires
            old(self).wf(),
        ensures
            final(self).wf(),
            final(self).source() == old(self).source(),
            final(self).position() == old(self).position(),
            final(self).code() == old(self).code().push(op@),
    {
        self.ops.push(op);
        assert(self.code() =~= old(self).code().push(op@));
    }

    /// Moves over the next character.
    fn advance(&mut self)
        requires
            old(self).wf(),
            old(self).position() < old(self).source().len(),
        ensures
            final(self).wf(),
            final(self).source() == old(self).source(),
            final(self).position() == old(self).position() + 1,
            final(self).code() == old(self).code(),
    {
        assert(self.pos < self.chars.len());
        self.pos += 1;
    }

    /// Moves over white space and then over `expected`, which has to follow.
    pub fn eat(&mut self, expected: char) -> (r: Result<(), SyntaxError>)
        requires
            old(self).wf(),
        ensures
            final(self).wf(),
            final(self).source() == old(self).source(),
            final(self).code() == old(self).code(),
            old(self).position() <= final(self).position(),
            ({
                let p = skip(old(self).source(), old(self).position());
                if stands(old(self).source(), p, expected) {
                    r is Ok && final(self).position() == p + 1
                } else {
                    &&& outcome(r) == Some(SyntaxErrorView::Expected(expected, p))
                    &&& final(self).position() == p
                }
            }),
    {
        self.skip_ws();
        match self.peek_char() {
            Some(c) => if c == expected {
                self.advance();
                return Ok(());
            },
            None => {},
        }
        Err(SyntaxError::Expected(expected, self.pos))
    }

    /// Reads an expression.
    pub fn parse(&mut self) -> (r: Result<(), SyntaxError>)
        requires
            old(self).wf(),
        ensures
            final(self).has_read(old(self), sum(old(self).source(), old(self).position())),
            outcome(r) == sum(old(self).source(), old(self).position()).error,
    {
        self.parse_addsub()
    }

    /// Reads a sum.
    pub fn parse_addsub(&mut self) -> (r: Result<(), SyntaxError>)
        requires
            old(self).wf(),
        ensures
            final(self).has_read(old(self), sum(old(self).source(), old(self).position())),
            outcome(r) == sum(old(self).source(), old(self).position()).error,
        decreases old(self).source().len() - old(self).position(), 7int,
    {
        let ghost s = self.source();
        let ghost mut left = product(s, self.position());
        self.parse_muldiv()?;
        loop
            invariant
                old(self).wf(),
                s == old(self).source(),
                left.error is None,
                self.has_read(old(self), left),
                sum(s, old(self).position()) == sum_rest(s, left),
            decreases s.len() - self.position(),
        {
            self.skip_ws();
            let ghost p = self.position();
            let op = match self.peek_char() {
                Some(c) => if c == '+' {
                    Op::Add
                } else if c == '-' {
                    Op::Subtract
                } else {
                    return Ok(());
                },
                None => {
                    return Ok(());
                },
            };
            self.advance();
            let ghost both = followed(left, product(s, p + 1), op@);
            assert(old(self).code() + left.code + product(s, p + 1).code =~= old(self).code() + (
            left.code + product(s, p + 1).code));
            self.parse_muldiv()?;
            self.emit(op);
            proof {
                assert(self.code() =~= old(self).code() + both.code);
                left = both;
            }
        }
    }

    /// Reads a product.
    pub fn parse_muldiv(&mut self) -> (r: Result<(), SyntaxError>)
        requires
            old(self).wf(),
        ensures
            final(self).has_read(old(self), product(old(self).source(), old(self).position())),
            outcome(r) == product(old(self).source(), old(self).position()).error,
        decreases old(self).source().len() - old(self).position(), 5int,
    {
        let ghost s = self.source();
        let ghost mut left = power(s, self.position());
        self.parse_power()?;
        loop
            invariant
                old(self).wf(),
                s == old(self).source(),
                left.error is None,
                self.has_read(old(self), left),
                product(s, old(self).position()) == product_rest(s, left),
            decreases s.len() - self.position(),
        {
            self.skip_ws();
            let ghost p = self.position();
            let op = match self.peek_char() {
                Some(c) => if c == '*' {
                    Op::Multiply
                } else if c == '/' {
                    Op::Divide
                } else {
                    return Ok(());
                },
                None => {
                    return Ok(());
                },
            };
            self.advance();
            let ghost both = followed(left, power(s, p + 1), op@);
            assert(old(self).code() + left.code + power(s, p + 1).code =~= old(self).code() + (
            left.code + power(s, p + 1).code));
            self.parse_power()?;
            self.emit(op);
            proof {
                assert(self.code() =~= old(self).code() + both.code);
                left = both;
            }
        }
    }

    /// Reads a power.
    pub fn parse_power(&mut self) -> (r: Result<(), SyntaxError>)
        requires
            old(self).wf(),
        ensures
            final(self).has_read(old(self), power(old(self).source(), old(self).position())),
            outcome(r) == power(old(self).source(), old(self).position()).error,
        decreases old(self).source().len() - old(self).position(), 3int,
    {
        let ghost s = self.source();
        let ghost base = unary(s, self.position());
        self.parse_unary()?;
        self.skip_ws();
        let ghost p = self.position();
        match self.peek_char() {
            Some(c) => if c == '^' {
                self.advance();
                let ghost both = followed(base, power(s, p + 1), OpView::Power);
                assert(old(self).code() + base.code + power(s, p + 1).code =~= old(self).code() + (
                base.code + power(s, p + 1).code));
                self.parse_power()?;
                self.emit(Op::Power);
                assert(self.code() =~= old(self).code() + both.code);
                return Ok(());
            },
            None => {},
        }
        Ok(())
    }

    /// Reads an atom with the signs in front of it.
    pub fn parse_unary(&mut self) -> (r: Result<(), SyntaxError>)
        requires
            old(self).wf(),
        ensures
            final(self).has_read(old(self), unary(old(self).source(), old(self).position())),
            outcome(r) == unary(old(self).source(), old(self).position()).error,
        decreases old(self).source().len() - old(self).position(), 2int,
    {
        let ghost s = self.source();
        self.skip_ws();
        let ghost p = self.position();
        match self.peek_char() {
            Some(c) => if c == '-' {
                self.advance();
                self.parse_unary()?;
                self.emit(Op::Negate);
                assert(self.code() =~= old(self).code() + unary(s, old(self).position()).code);
                return Ok(());
            } else if c == '+' {
                self.advance();
                return self.parse_unary();
            },
            None => {},
        }
        proof {
            lemma_skipped_once(s, old(self).position());
        }
        self.parse_atom()
    }

    /// Moves over the digits from here on.
    fn skip_digits(&mut self)
        requires
            old(self).wf(),
        ensures
            final(self).wf(),
            final(self).source() == old(self).source(),
            final(self).code() == old(self).code(),
            final(self).position() == digits_end(old(self).source(), old(self).position()),
            old(self).position() <= final(self).position(),
    {
        let ghost p = |c: char| is_digit_spec(c);
        while self.pos < self.chars.len() && is_digit(self.chars[self.pos])
            invariant
                self.wf(),
                self.chars == old(self).chars,
                self.ops == old(self).ops,
                old(self).pos <= self.pos,
                p == (|c: char| is_digit_spec(c)),
                span_end(self.chars@, old(self).pos as nat, p) == span_end(
                    self.chars@,
                    self.pos as nat,
                    p,
                ),
            decreases self.chars@.len() - self.pos,
        {
            self.pos += 1;
        }
    }

    /// Moves over digits and dots and tells whether they make a number.
    fn skip_mantissa(&mut self) -> (valid: bool)
        requires
            old(self).wf(),
        ensures
            final(self).wf(),
            final(self).source() == old(self).source(),
            final(self).code() == old(self).code(),
            final(self).position() == mantissa_end(old(self).source(), old(self).position()),
            old(self).position() <= final(self).position(),
            old(self).position() < old(self).source().len() && is_mantissa_spec(
                old(self).source()[old(self).position() as int],
            ) ==> old(self).position() < final(self).position(),
            valid == is_number_spec(
                old(self).source().subrange(
                    old(self).position() as int,
                    final(self).position() as int,
                ),
            ),
    {
        let ghost p = |c: char| is_mantissa_spec(c);
        let ghost s = self.chars@;
        let ghost from = self.pos as int;
        let mut digits: bool = false;
        let mut dots: bool = false;
        let mut twice: bool = false;
        while self.pos < self.chars.len() && is_mantissa(self.chars[self.pos])
            invariant
                self.wf(),
                self.chars == old(self).chars,
                self.ops == old(self).ops,
                s == self.chars@,
                from == old(self).pos,
                from <= self.pos,
                p == (|c: char| is_mantissa_spec(c)),
                span_end(s, from as nat, p) == span_end(s, self.pos as nat, p),
                digits <==> exists|i: int| from <= i < self.pos && is_digit_spec(#[trigger] s[i]),
                dots <==> exists|i: int| from <= i < self.pos && #[trigger] s[i] == '.',
                twice <==> exists|i: int, k: int|
                    from <= i < k < self.pos && #[trigger] s[i] == '.' && #[trigger] s[k] == '.',
            decreases self.chars@.len() - self.pos,
        {
            let c = self.chars[self.pos];
            if c == '.' {
                if dots {
                    twice = true;
                }
                dots = true;
            } else {
                digits = true;
            }
            assert(s[self.pos as int] == c);
            self.pos += 1;
        }
        proof {
            let m = s.subrange(from, self.pos as int);
            if digits {
                let i = choose|i: int| from <= i < self.pos && is_digit_spec(#[trigger] s[i]);
                assert(m[i - from] == s[i]);
            }
            assert forall|i: int| 0 <= i < m.len() && is_digit_spec(#[trigger] m[i]) implies digits by {
                assert(s[from + i] == m[i]);
            }
            if twice {
                let (i, k) = choose|i: int, k: int|
                    from <= i < k < self.pos && #[trigger] s[i] == '.' && #[trigger] s[k] == '.';
                assert(m[i - from] == '.' && m[k - from] == '.');
            }
            assert forall|i: int, k: int|
                0 <= i < k < m.len() && #[trigger] m[i] == '.' && #[trigger] m[k] == '.' implies twice by {
                assert(s[from + i] == m[i] && s[from + k] == m[k]);
            }
        }
        digits && !twice
    }

    /// Moves over an exponent, where one with at least one digit follows.
    fn skip_exponent(&mut self)
        requires
            old(self).wf(),
        ensures
            final(self).wf(),
            final(self).source() == old(self).source(),
            final(self).code() == old(self).code(),
            old(self).position() <= final(self).position(),
            ({
                let s = old(self).source();
                let m = old(self).position();
                let k = exponent_digits(s, m);
                final(self).position() == if (stands(s, m, 'e') || stands(s, m, 'E'))
                    && digits_end(s, k) > k {
                    digits_end(s, k)
                } else {
                    m
                }
            }),
    {
        match self.peek_char() {
            Some(c) => if c == 'e' || c == 'E' {
                let save: usize = self.pos;
                self.advance();
                match self.peek_char() {
                    Some(sign) => if sign == '-' || sign == '+' {
                        self.advance();
                    },
                    None => {},
                }
                let exp_start: usize = self.pos;
                self.skip_digits();
                if self.pos == exp_start {
                    self.pos = save;
                }
            },
            None => {},
        }
    }

    /// Moves over a name and gives it in lower case.
    fn skip_name(&mut self) -> (name: String)
        requires
            old(self).wf(),
        ensures
            final(self).wf(),
            final(self).source() == old(self).source(),
            final(self).code() == old(self).code(),
            final(self).position() == name_end(old(self).source(), old(self).position()),
            old(self).position() <= final(self).position(),
            old(self).position() < old(self).source().len() && is_name_part_spec(
                old(self).source()[old(self).position() as int],
            ) ==> old(self).position() < final(self).position(),
            name@ == lower_text(
                old(self).source().subrange(
                    old(self).position() as int,
                    final(self).position() as int,
                ),
            ),
    {
        let ghost p = |c: char| is_name_part_spec(c);
        let ghost s = self.chars@;
        let ghost from = self.pos as int;
        let mut name = String::new();
        assert(lower_text(s.subrange(from, from)) =~= Seq::<char>::empty());
        while self.pos < self.chars.len() && is_name_part(self.chars[self.pos])
            invariant
                self.wf(),
                self.chars == old(self).chars,
                self.ops == old(self).ops,
                s == self.chars@,
                from == old(self).pos,
                from <= self.pos,
                p == (|c: char| is_name_part_spec(c)),
                span_end(s, from as nat, p) == span_end(s, self.pos as nat, p),
                name@ == lower_text(s.subrange(from, self.pos as int)),
            decreases self.chars@.len() - self.pos,
        {
            name.push(lower(self.chars[self.pos]));
            assert(lower_text(s.subrange(from, self.pos + 1)) =~= lower_text(
                s.subrange(from, self.pos as int),
            ).push(lower_spec(s[self.pos as int])));
            self.pos += 1;
        }
        name
    }

    /// Reads a number.
    fn parse_number(&mut self) -> (r: Result<(), SyntaxError>)
        requires
            old(self).wf(),
            old(self).position() < old(self).source().len(),
            is_mantissa_spec(old(self).source()[old(self).position() as int]),
        ensures
            final(self).has_read(old(self), number(old(self).source(), old(self).position())),
            outcome(r) == number(old(self).source(), old(self).position()).error,
    {
        let ghost s = self.source();
        let start: usize = self.pos;
        let valid = self.skip_mantissa();
        self.skip_exponent();
        let text = text_between(&self.chars, start, self.pos);
        if valid {
            self.emit(Op::Number(text));
            assert(self.code() =~= old(self).code() + number(s, start as nat).code);
            Ok(())
        } else {
            assert(self.code() =~= old(self).code() + Seq::<OpView>::empty());
            Err(SyntaxError::InvalidNumber(text))
        }
    }

    /// Reads a constant or a call.
    fn parse_named(&mut self) -> (r: Result<(), SyntaxError>)
        requires
            old(self).wf(),
            old(self).position() < old(self).source().len(),
            is_name_start_spec(old(self).source()[old(self).position() as int]),
        ensures
            final(self).has_read(old(self), named(old(self).source(), old(self).position())),
            outcome(r) == named(old(self).source(), old(self).position()).error,
        decreases old(self).source().len() - old(self).position(), 0int,
    {
        let ghost s = self.source();
        let ghost start = self.position();
        let name = self.skip_name();
        match find_constant(name.as_str()) {
            Some(constant) => {
                self.emit(Op::Constant(constant));
                assert(self.code() =~= old(self).code() + named(s, start).code);
                return Ok(());
            },
            None => {},
        }
        assert(self.code() =~= old(self).code() + Seq::<OpView>::empty());
        self.eat('(')?;
        match find_pair(name.as_str()) {
            Some(function) => {
                return self.parse_combined(function);
            },
            None => {},
        }
        let ghost inner = sum(s, self.position());
        self.parse_closed(')')?;
        match find_function(name.as_str()) {
            Some(function) => {
                self.emit(Op::Apply(function));
                assert(self.code() =~= old(self).code() + inner.code.push(OpView::Apply(function)));
                Ok(())
            },
            None => Err(SyntaxError::UnknownFunction(name)),
        }
    }

    /// Reads a sum and the character behind it.
    fn parse_closed(&mut self, close: char) -> (r: Result<(), SyntaxError>)
        requires
            old(self).wf(),
        ensures
            final(self).has_read(
                old(self),
                closed_by(old(self).source(), sum(old(self).source(), old(self).position()), close),
            ),
            outcome(r) == closed_by(
                old(self).source(),
                sum(old(self).source(), old(self).position()),
                close,
            ).error,
        decreases old(self).source().len() - old(self).position(), 8int,
    {
        self.parse_addsub()?;
        self.eat(close)
    }

    /// Reads two arguments and the parenthesis behind them.
    fn parse_combined(&mut self, function: Pair) -> (r: Result<(), SyntaxError>)
        requires
            old(self).wf(),
        ensures
            final(self).has_read(
                old(self),
                combined(old(self).source(), old(self).position(), function),
            ),
            outcome(r) == combined(old(self).source(), old(self).position(), function).error,
        decreases old(self).source().len() - old(self).position(), 9int,
    {
        let ghost s = self.source();
        let ghost before = self.code();
        let ghost first = sum(s, self.position());
        self.parse_closed(',')?;
        let ghost second = closed_by(s, sum(s, self.position()), ')');
        assert(before + first.code + second.code =~= before + (first.code + second.code));
        self.parse_closed(')')?;
        self.emit(Op::Combine(function));
        assert(before + (first.code + second.code).push(OpView::Combine(function)) =~= (before + (
        first.code + second.code)).push(OpView::Combine(function)));
        Ok(())
    }

    /// Reads a number, a constant, a call or a sum in parentheses, behind white space.
    pub fn parse_atom(&mut self) -> (r: Result<(), SyntaxError>)
        requires
            old(self).wf(),
        ensures
            final(self).has_read(
                old(self),
                atom(old(self).source(), skip(old(self).source(), old(self).position())),
            ),
            outcome(r) == atom(
                old(self).source(),
                skip(old(self).source(), old(self).position()),
            ).error,
        decreases old(self).source().len() - old(self).position(), 1int,
    {
        self.skip_ws();
        match self.peek_char() {
            Some(c) => if is_mantissa(c) {
                return self.parse_number();
            } else if is_name_start(c) {
                return self.parse_named();
            } else if c == '(' {
                self.advance();
                return self.parse_closed(')');
            },
            None => {},
        }
        assert(self.code() =~= old(self).code() + Seq::<OpView>::empty());
        Err(SyntaxError::UnexpectedToken(self.pos))
    }
}

// ---------------------------------------------------------------------------
// Programs
// ---------------------------------------------------------------------------

/// The code of a text, and the error that ended its reading, if one did.
pub struct Program {
    pub ops: Vec<Op>,
    pub error: Option<SyntaxError>,
}

impl Program {
    /// What the operations say.
    pub open spec fn code(&self) -> Seq<OpView> {
        code_view(self.ops@)
    }

    /// What the error says.
    pub open spec fn error_view(&self) -> Option<SyntaxErrorView> {
        match self.error {
            Some(e) => Some(e@),
            None => None,
        }
    }

    /// The code keeps to the stack, and leaves one value if the reading had no error.
    pub open spec fn wf(&self) -> bool {
        &&& height(self.code(), 0) is Some
        &&& self.error is None ==> height(self.code(), 0) == Some(1nat)
    }
}

/// How many operands an operation takes.
pub open spec fn arity_spec(op: OpView) -> nat {
    match op {
        OpView::Number(_) => 0,
        OpView::Constant(_) => 0,
        OpView::Negate => 1,
        OpView::Apply(_) => 1,
        _ => 2,
    }
}

/// The height of the stack after the code has run on a stack of height `start`, if
/// no operation finds too few operands.
pub open spec fn height(code: Seq<OpView>, start: nat) -> Option<nat>
    decreases code.len(),
{
    if code.len() == 0 {
        Some(start)
    } else {
        match height(code.drop_last(), start) {
            Some(h) => if h >= arity_spec(code.last()) {
                Some((h - arity_spec(code.last()) + 1) as nat)
            } else {
                None
            },
            None => None,
        }
    }
}

/// Whether the code of a phrase works on a stack of any height, takes nothing off it
/// for good, and leaves exactly one more value if the phrase has no error.
pub open spec fn balanced(phrase: Phrase) -> bool {
    forall|h: nat|
        #![trigger height(phrase.code, h)]
        {
            &&& height(phrase.code, h) matches Some(end)
            &&& end >= h
            &&& phrase.error is None ==> end == h + 1
        }
}

/// Running two pieces of code in a row adds up their effects.
proof fn lemma_height_of_both(a: Seq<OpView>, b: Seq<OpView>, start: nat)
    ensures
        height(a + b, start) == (match height(a, start) {
            Some(h) => height(b, h),
            None => None,
        }),
    decreases b.len(),
{
    if b.len() == 0 {
        assert(a + b == a);
    } else {
        lemma_height_of_both(a, b.drop_last(), start);
        assert((a + b).drop_last() == a + b.drop_last());
        assert((a + b).last() == b.last());
    }
}

proof fn lemma_height_of_push(a: Seq<OpView>, op: OpView, start: nat)
    ensures
        height(a.push(op), start) == (match height(a, start) {
            Some(h) => if h >= arity_spec(op) {
                Some((h - arity_spec(op) + 1) as nat)
            } else {
                None
            },
            None => None,
        }),
{
    assert(a.push(op).drop_last() == a);
}

proof fn lemma_followed_is_balanced(left: Phrase, right: Phrase, op: OpView)
    requires
        balanced(left),
        balanced(right),
        left.error is None,
        arity_spec(op) == 2,
    ensures
        balanced(followed(left, right, op)),
{
    let both = followed(left, right, op);
    assert forall|h: nat|
        #![trigger height(both.code, h)]
        {
            &&& height(both.code, h) matches Some(end)
            &&& end >= h
            &&& both.error is None ==> end == h + 1
        } by {
        lemma_height_of_both(left.code, right.code, h);
        lemma_height_of_push(left.code + right.code, op, h);
        assert(height(left.code, h) == Some(h + 1));
        assert(height(right.code, h + 1) is Some);
    }
}

proof fn lemma_pushed_is_balanced(inner: Phrase, op: OpView)
    requires
        balanced(inner),
        inner.error is None,
        arity_spec(op) == 1,
    ensures
        balanced(Phrase { code: inner.code.push(op), ..inner }),
{
    assert forall|h: nat|
        #[trigger] height(inner.code.push(op), h) == Some(h + 1) by {
        lemma_height_of_push(inner.code, op, h);
        assert(height(inner.code, h) == Some(h + 1));
    }
}

proof fn lemma_single_is_balanced(end: nat, op: OpView)
    requires
        arity_spec(op) == 0,
    ensures
        balanced(Phrase { end, code: seq![op], error: None }),
{
    assert forall|h: nat| #[trigger] height(seq![op], h) == Some(h + 1) by {
        lemma_height_of_push(Seq::empty(), op, h);
        assert(Seq::<OpView>::empty().push(op) == seq![op]);
    }
}

proof fn lemma_sum_is_balanced(s: Seq<char>, pos: nat)
    ensures
        balanced(sum(s, pos)),
    decreases s.len() - pos, 7int,
{
    lemma_product_is_balanced(s, pos);
    let first = product(s, pos);
    if first.error is None && pos <= first.end <= s.len() {
        lemma_sum_rest_is_balanced(s, first);
    }
}

proof fn lemma_sum_rest_is_balanced(s: Seq<char>, left: Phrase)
    requires
        balanced(left),
        left.error is None,
    ensures
        balanced(sum_rest(s, left)),
    decreases s.len() - left.end, 6int,
{
    let p = skip(s, left.end);
    if left.end <= p && (stands(s, p, '+') || stands(s, p, '-')) {
        let op = if s[p as int] == '+' {
            OpView::Add
        } else {
            OpView::Subtract
        };
        lemma_product_is_balanced(s, p + 1);
        let both = followed(left, product(s, p + 1), op);
        lemma_followed_is_balanced(left, product(s, p + 1), op);
        if both.error is None && p < both.end <= s.len() {
            lemma_sum_rest_is_balanced(s, both);
        }
    } else {
        assert(sum_rest(s, left).code == left.code);
    }
}

proof fn lemma_product_is_balanced(s: Seq<char>, pos: nat)
    ensures
        balanced(product(s, pos)),
    decreases s.len() - pos, 5int,
{
    lemma_power_is_balanced(s, pos);
    let first = power(s, pos);
    if first.error is None && pos <= first.end <= s.len() {
        lemma_product_rest_is_balanced(s, first);
    }
}

proof fn lemma_product_rest_is_balanced(s: Seq<char>, left: Phrase)
    requires
        balanced(left),
        left.error is None,
    ensures
        balanced(product_rest(s, left)),
    decreases s.len() - left.end, 4int,
{
    let p = skip(s, left.end);
    if left.end <= p && (stands(s, p, '*') || stands(s, p, '/')) {
        let op = if s[p as int] == '*' {
            OpView::Multiply
        } else {
            OpView::Divide
        };
        lemma_power_is_balanced(s, p + 1);
        let both = followed(left, power(s, p + 1), op);
        lemma_followed_is_balanced(left, power(s, p + 1), op);
        if both.error is None && p < both.end <= s.len() {
            lemma_product_rest_is_balanced(s, both);
        }
    } else {
        assert(product_rest(s, left).code == left.code);
    }
}

proof fn lemma_power_is_balanced(s: Seq<char>, pos: nat)
    ensures
        balanced(power(s, pos)),
    decreases s.len() - pos, 3int,
{
    lemma_unary_is_balanced(s, pos);
    let base = unary(s, pos);
    let p = skip(s, base.end);
    if base.error is None && pos <= p && stands(s, p, '^') {
        lemma_power_is_balanced(s, p + 1);
        lemma_followed_is_balanced(base, power(s, p + 1), OpView::Power);
    } else {
        assert(power(s, pos).code == base.code);
    }
}

proof fn lemma_unary_is_balanced(s: Seq<char>, pos: nat)
    ensures
        balanced(unary(s, pos)),
    decreases s.len() - pos, 2int,
{
    let p = skip(s, pos);
    if pos <= p && stands(s, p, '-') {
        lemma_unary_is_balanced(s, p + 1);
        if unary(s, p + 1).error is None {
            lemma_pushed_is_balanced(unary(s, p + 1), OpView::Negate);
        }
    } else if pos <= p && stands(s, p, '+') {
        lemma_unary_is_balanced(s, p + 1);
    } else if pos <= p <= s.len() {
        lemma_atom_is_balanced(s, p);
    }
}

proof fn lemma_closed_is_balanced(s: Seq<char>, inner: Phrase, c: char)
    requires
        balanced(inner),
    ensures
        balanced(closed_by(s, inner, c)),
{
    assert(closed_by(s, inner, c).code == inner.code);
}

proof fn lemma_combined_is_balanced(s: Seq<char>, pos: nat, f: Pair)
    ensures
        balanced(combined(s, pos, f)),
    decreases s.len() - pos, 8int,
{
    lemma_sum_is_balanced(s, pos);
    let first = sum(s, pos);
    let p = skip(s, first.end);
    if first.error is None && pos <= p && stands(s, p, ',') {
        lemma_sum_is_balanced(s, p + 1);
        lemma_closed_is_balanced(s, sum(s, p + 1), ')');
        lemma_followed_is_balanced(
            first,
            closed_by(s, sum(s, p + 1), ')'),
            OpView::Combine(f),
        );
    } else {
        assert(combined(s, pos, f).code == first.code);
    }
}

proof fn lemma_atom_is_balanced(s: Seq<char>, pos: nat)
    ensures
        balanced(atom(s, pos)),
    decreases s.len() - pos, 1int,
{
    if pos < s.len() && is_mantissa_spec(s[pos as int]) {
        let text = s.subrange(pos as int, number_end(s, pos) as int);
        lemma_single_is_balanced(number_end(s, pos), OpView::Number(text));
    } else if pos < s.len() && is_name_start_spec(s[pos as int]) {
        let end = name_end(s, pos);
        let name = lower_text(s.subrange(pos as int, end as int));
        let p = skip(s, end);
        match constant_named(name) {
            Some(c) => {
                lemma_single_is_balanced(end, OpView::Constant(c));
            },
            None => if pos <= p && stands(s, p, '(') {
                if let Some(f) = pair_named(name) {
                    lemma_combined_is_balanced(s, p + 1, f);
                }
                lemma_sum_is_balanced(s, p + 1);
                lemma_closed_is_balanced(s, sum(s, p + 1), ')');
                let argument = closed_by(s, sum(s, p + 1), ')');
                match function_named(name) {
                    Some(f) => if argument.error is None {
                        lemma_pushed_is_balanced(argument, OpView::Apply(f));
                    },
                    None => {
                        assert(applied(name, argument).code == argument.code);
                    },
                }
            },
        }
    } else if stands(s, pos, '(') {
        lemma_sum_is_balanced(s, pos + 1);
        lemma_closed_is_balanced(s, sum(s, pos + 1), ')');
    }
}

/// The code of every text keeps to the stack: no operation finds too few operands,
/// and a text that is an expression leaves exactly one value.
pub proof fn program_keeps_to_the_stack(s: Seq<char>)
    ensures
        height(program(s).code, 0) is Some,
        program(s).error is None ==> height(program(s).code, 0) == Some(1nat),
{
    lemma_sum_is_balanced(s, 0);
    assert(program(s).code == sum(s, 0).code);
}

/// Compiles a text to stack code.
pub fn compile(input: &str) -> (p: Program)
    ensures
        p.code() == program(input@).code,
        p.error_view() == program(input@).error,
        p.wf(),
{
    let mut parser = Parser::new(input);
    let read = parser.parse();
    proof {
        program_keeps_to_the_stack(input@);
        assert(Seq::<OpView>::empty() + sum(input@, 0).code =~= sum(input@, 0).code);
    }
    let error = match read {
        Err(e) => Some(e),
        Ok(()) => {
            parser.skip_ws();
            match parser.peek_char() {
                Some(c) => Some(SyntaxError::UnexpectedCharacter(c, parser.pos)),
                None => None,
            }
        },
    };
    Program { ops: parser.ops, error }
}

// ---------------------------------------------------------------------------
// Errors in words
// ---------------------------------------------------------------------------

/// A syntax error in words.
pub open spec fn syntax_message(e: SyntaxErrorView) -> Seq<char> {
    match e {
        SyntaxErrorView::UnexpectedCharacter(c, p) => "unexpected character `"@ + seq![c]
            + "` at position "@ + decimal(p),
        SyntaxErrorView::Expected(c, p) => "expected `"@ + seq![c] + "` at position "@ + decimal(p),
        SyntaxErrorView::UnexpectedToken(p) => "unexpected token at position "@ + decimal(p),
        SyntaxErrorView::InvalidNumber(text) => "invalid number `"@ + text + "`"@,
        SyntaxErrorView::UnknownFunction(name) => "unknown function `"@ + name + "`"@,
    }
}

impl SyntaxError {
    /// The error in words.
    pub fn message(&self) -> (text: String)
        ensures
            text@ == syntax_message(self@),
    {
        let mut text = String::new();
        match self {
            SyntaxError::UnexpectedCharacter(c, p) => {
                text.append("unexpected character `");
                text.push(*c);
                text.append("` at position ");
                text.append(render_unsigned(*p as u128).as_str());
            },
            SyntaxError::Expected(c, p) => {
                text.append("expected `");
                text.push(*c);
                text.append("` at position ");
                text.append(render_unsigned(*p as u128).as_str());
            },
            SyntaxError::UnexpectedToken(p) => {
                text.append("unexpected token at position ");
                text.append(render_unsigned(*p as u128).as_str());
            },
            SyntaxError::InvalidNumber(number) => {
                text.append("invalid number `");
                text.append(number.as_str());
                text.append("`");
            },
            SyntaxError::UnknownFunction(name) => {
                text.append("unknown function `");
                text.append(name.as_str());
                text.append("`");
            },
        }
        assert(text@ =~= syntax_message(self@));
        text
    }
}

// ---------------------------------------------------------------------------
// Domains
// ---------------------------------------------------------------------------

/// How a number compares with zero.
#[derive(Debug, Clone, Copy, PartialEq, Eq, Structural)]
pub enum Sign {
    Negative,
    Zero,
    Positive,
    /// Not comparable: the number is undefined.
    Undefined,
}

/// What decides whether a number lies in the domain of an operation.
#[derive(Debug, Clone, Copy, PartialEq, Eq, Structural)]
pub struct Class {
    pub sign: Sign,
    /// Whether the number is above one or below minus one.
    pub beyond_one: bool,
    /// Whether the number has no fraction.
    pub whole: bool,
}

/// How operands can lie outside the domain of an operation.
#[derive(Debug, Clone, Copy, PartialEq, Eq, Structural)]
pub enum Fault {
    DivisionByZero,
    RootOfNegative,
    LogOfNonPositive,
    Log10OfNonPositive,
    AsinOutOfRange,
    AcosOutOfRange,
    FractionalPowerOfNegative,
    NegativePowerOfZero,
}

/// What is wrong with operands of these classes, if anything is: a divisor is not zero, a
/// root is not taken of a negative number, a logarithm is taken of a positive one, an arc
/// sine or arc cosine of one from minus one to one, a negative number has no fractional
/// power, and zero no negative one.
pub open spec fn fault(op: OpView, operands: Seq<Class>) -> Option<Fault> {
    if operands.len() == 0 {
        None
    } else {
        let first = operands.first();
        let last = operands.last();
        match op {
            OpView::Divide => if last.sign == Sign::Zero {
                Some(Fault::DivisionByZero)
            } else {
                None
            },
            OpView::Power => if first.sign == Sign::Negative && !last.whole && last.sign
                != Sign::Undefined {
                Some(Fault::FractionalPowerOfNegative)
            } else if first.sign == Sign::Zero && last.sign == Sign::Negative {
                Some(Fault::NegativePowerOfZero)
            } else {
                None
            },
            OpView::Apply(Function::Sqrt) => if last.sign == Sign::Negative {
                Some(Fault::RootOfNegative)
            } else {
                None
            },
            OpView::Apply(Function::Ln) => if last.sign == Sign::Negative || last.sign
                == Sign::Zero {
                Some(Fault::LogOfNonPositive)
            } else {
                None
            },
            OpView::Apply(Function::Log10) => if last.sign == Sign::Negative || last.sign
                == Sign::Zero {
                Some(Fault::Log10OfNonPositive)
            } else {
                None
            },
            OpView::Apply(Function::Asin) => if last.beyond_one {
                Some(Fault::AsinOutOfRange)
            } else {
                None
            },
            OpView::Apply(Function::Acos) => if last.beyond_one {
                Some(Fault::AcosOutOfRange)
            } else {
                None
            },
            _ => None,
        }
    }
}

/// A fault in words, where `shown` is the last operand in print.
pub open spec fn fault_text(f: Fault, shown: Seq<char>) -> Seq<char> {
    match f {
        Fault::DivisionByZero => "division by zero"@,
        Fault::RootOfNegative => "sqrt of negative "@ + shown,
        Fault::LogOfNonPositive => "log of non-positive "@ + shown,
        Fault::Log10OfNonPositive => "log10 of non-positive "@ + shown,
        Fault::AsinOutOfRange => "asin of out-of-range "@ + shown,
        Fault::AcosOutOfRange => "acos of out-of-range "@ + shown,
        Fault::FractionalPowerOfNegative => "fractional power "@ + shown + " of a negative number"@,
        Fault::NegativePowerOfZero => "negative power "@ + shown + " of zero"@,
    }
}

/// Tells what is wrong with operands of these classes, if anything is.
pub fn find_fault(op: &Op, operands: &Vec<Class>) -> (f: Option<Fault>)
    ensures
        f == fault(op@, operands@),
{
    if operands.len() == 0 {
        return None;
    }
    let first = operands[0];
    let last = operands[operands.len() - 1];
    match op {
        Op::Divide => if last.sign == Sign::Zero {
            Some(Fault::DivisionByZero)
        } else {
            None
        },
        Op::Power => if first.sign == Sign::Negative && !last.whole && last.sign
            != Sign::Undefined {
            Some(Fault::FractionalPowerOfNegative)
        } else if first.sign == Sign::Zero && last.sign == Sign::Negative {
            Some(Fault::NegativePowerOfZero)
        } else {
            None
        },
        Op::Apply(Function::Sqrt) => if last.sign == Sign::Negative {
            Some(Fault::RootOfNegative)
        } else {
            None
        },
        Op::Apply(Function::Ln) => if last.sign == Sign::Negative || last.sign == Sign::Zero {
            Some(Fault::LogOfNonPositive)
        } else {
            None
        },
        Op::Apply(Function::Log10) => if last.sign == Sign::Negative || last.sign == Sign::Zero {
            Some(Fault::Log10OfNonPositive)
        } else {
            None
        },
        Op::Apply(Function::Asin) => if last.beyond_one {
            Some(Fault::AsinOutOfRange)
        } else {
            None
        },
        Op::Apply(Function::Acos) => if last.beyond_one {
            Some(Fault::AcosOutOfRange)
        } else {
            None
        },
        _ => None,
    }
}

impl Fault {
    /// The fault in words, where `shown` is the last operand in print.
    pub fn message(&self, shown: &str) -> (text: String)
        ensures
            text@ == fault_text(*self, shown@),
    {
        let mut text = String::new();
        match self {
            Fault::DivisionByZero => {
                text.append("division by zero");
            },
            Fault::RootOfNegative => {
                text.append("sqrt of negative ");
                text.append(shown);
            },
            Fault::LogOfNonPositive => {
                text.append("log of non-positive ");
                text.append(shown);
            },
            Fault::Log10OfNonPositive => {
                text.append("log10 of non-positive ");
                text.append(shown);
            },
            Fault::AsinOutOfRange => {
                text.append("asin of out-of-range ");
                text.append(shown);
            },
            Fault::AcosOutOfRange => {
                text.append("acos of out-of-range ");
                text.append(shown);
            },
            Fault::FractionalPowerOfNegative => {
                text.append("fractional power ");
                text.append(shown);
                text.append(" of a negative number");
            },
            Fault::NegativePowerOfZero => {
                text.append("negative power ");
                text.append(shown);
                text.append(" of zero");
            },
        }
        assert(text@ =~= fault_text(*self, shown@));
        text
    }
}

// ---------------------------------------------------------------------------
// One operation
// ---------------------------------------------------------------------------

/// Whether `classes` may be what `classify` says of these numbers.
pub open spec fn classified<N, C: Fn(&N) -> Class>(
    classify: C,
    numbers: Seq<N>,
    classes: Seq<Class>,
) -> bool {
    &&& classes.len() == numbers.len()
    &&& forall|i: int|
        0 <= i < numbers.len() ==> call_ensures(classify, (&numbers[i],), #[trigger] classes[i])
}

/// Whether `r` may be the outcome of one operation: what is wrong with the operands, in
/// words, if anything is; else what `arithmetic` gives for them.
pub open spec fn may_yield<
    N,
    C: Fn(&N) -> Class,
    W: Fn(&N) -> String,
    A: Fn(&Op, &Vec<N>) -> Result<N, String>,
>(classify: C, show: W, arithmetic: A, op: Op, operands: Seq<N>, r: Result<N, String>) -> bool {
    exists|classes: Seq<Class>| #[trigger]
        classified(classify, operands, classes) && match fault(op@, classes) {
            Some(f) => exists|shown: String| #[trigger]
                call_ensures(show, (&operands.last(),), shown) && r is Err && (r->Err_0)@
                    == fault_text(f, shown@),
            None => exists|given: Vec<N>| #[trigger]
                call_ensures(arithmetic, (&op, &given), r) && given@ == operands,
        }
}

/// What an operation may give, as a relation of the operation, its operands and the outcome.
pub open spec fn checked<
    N,
    C: Fn(&N) -> Class,
    W: Fn(&N) -> String,
    A: Fn(&Op, &Vec<N>) -> Result<N, String>,
>(classify: C, show: W, arithmetic: A) -> spec_fn(Op, Seq<N>, Result<N, String>) -> bool {
    |op: Op, operands: Seq<N>, r: Result<N, String>|
        may_yield(classify, show, arithmetic, op, operands, r)
}

/// Whether every number can be classified and shown, and `arithmetic` accepts every
/// operation with as many operands as it takes, as far as they lie in its domain. Of others
/// nothing is asked, so that none reach it.
pub open spec fn total<
    N,
    C: Fn(&N) -> Class,
    W: Fn(&N) -> String,
    A: Fn(&Op, &Vec<N>) -> Result<N, String>,
>(classify: C, show: W, arithmetic: A) -> bool {
    &&& forall|n: N| #[trigger] call_requires(classify, (&n,))
    &&& forall|n: N| #[trigger] call_requires(show, (&n,))
    &&& forall|op: Op, operands: Vec<N>, classes: Seq<Class>|
        #![trigger classified(classify, operands@, classes),
            call_requires(arithmetic, (&op, &operands))]
        operands@.len() == arity_spec(op@) && classified(classify, operands@, classes) && fault(
            op@,
            classes,
        ) is None ==> call_requires(arithmetic, (&op, &operands))
}

/// How many operands an operation takes.
fn arity(op: &Op) -> (n: usize)
    ensures
        n == arity_spec(op@),
{
    match op {
        Op::Number(_) => 0,
        Op::Constant(_) => 0,
        Op::Negate => 1,
        Op::Apply(_) => 1,
        _ => 2,
    }
}

/// Carries out one operation, if its operands lie in its domain.
fn carry_out<
    N,
    C: Fn(&N) -> Class,
    W: Fn(&N) -> String,
    A: Fn(&Op, &Vec<N>) -> Result<N, String>,
>(op: &Op, operands: &Vec<N>, classify: &C, show: &W, arithmetic: &A) -> (r: Result<N, String>)
    requires
        total(*classify, *show, *arithmetic),
        operands@.len() == arity_spec(op@),
    ensures
        may_yield(*classify, *show, *arithmetic, *op, operands@, r),
{
    let mut classes: Vec<Class> = Vec::new();
    let mut i: usize = 0;
    while i < operands.len()
        invariant
            i <= operands@.len(),
            total(*classify, *show, *arithmetic),
            classes@.len() == i,
            forall|k: int|
                0 <= k < i ==> call_ensures(*classify, (&operands@[k],), #[trigger] classes@[k]),
        decreases operands@.len() - i,
    {
        classes.push(classify(&operands[i]));
        i += 1;
    }
    assert(classified(*classify, operands@, classes@));
    match find_fault(op, &classes) {
        Some(f) => {
            let shown = show(&operands[operands.len() - 1]);
            assert(call_ensures(*show, (&operands@.last(),), shown));
            Err(f.message(shown.as_str()))
        },
        None => {
            let r = arithmetic(op, operands);
            assert(call_ensures(*arithmetic, (op, operands), r));
            r
        },
    }
}

// ---------------------------------------------------------------------------
// Evaluation
// ---------------------------------------------------------------------------

/// Whether `op` may be carried out on the topmost values of `before`, so that `after` is
/// what the stack then holds. `does` is what an operation may give.
pub open spec fn steps<N>(
    does: spec_fn(Op, Seq<N>, Result<N, String>) -> bool,
    op: Op,
    before: Seq<N>,
    after: Seq<N>,
) -> bool {
    let kept = before.len() - arity_spec(op@);
    &&& kept >= 0
    &&& exists|value: N| #[trigger]
        does(op, before.skip(kept), Ok(value)) && after == before.take(kept).push(value)
}

/// Whether `op` may be refused on the topmost values of `before` in these words.
pub open spec fn refuses<N>(
    does: spec_fn(Op, Seq<N>, Result<N, String>) -> bool,
    op: Op,
    before: Seq<N>,
    message: String,
) -> bool {
    let kept = before.len() - arity_spec(op@);
    &&& kept >= 0
    &&& does(op, before.skip(kept), Err(message))
}

/// Whether `stacks` may be the stacks before, between and after `ops`, from the empty
/// one on.
pub open spec fn runs<N>(
    does: spec_fn(Op, Seq<N>, Result<N, String>) -> bool,
    ops: Seq<Op>,
    stacks: Seq<Seq<N>>,
) -> bool {
    &&& stacks.len() == ops.len() + 1
    &&& stacks[0] == Seq::<N>::empty()
    &&& forall|i: int|
        0 <= i < ops.len() ==> steps(does, #[trigger] ops[i], stacks[i], stacks[i + 1])
}

/// Whether `r` may be the result of the code `ops` of a text whose reading ended in
/// `error`: the value that the code leaves, or the first refusal, or, where every
/// operation was carried out, the syntax error.
pub open spec fn evaluates<N>(
    does: spec_fn(Op, Seq<N>, Result<N, String>) -> bool,
    ops: Seq<Op>,
    error: Option<SyntaxErrorView>,
    r: Result<N, String>,
) -> bool {
    match r {
        Ok(value) => error is None && exists|stacks: Seq<Seq<N>>| #[trigger]
            runs(does, ops, stacks) && stacks.last() == seq![value],
        Err(message) => {
            ||| exists|n: int, stacks: Seq<Seq<N>>|
                0 <= n < ops.len() && #[trigger] runs(does, ops.take(n), stacks) && refuses(
                    does,
                    ops[n],
                    stacks.last(),
                    message,
                )
            ||| {
                &&& error matches Some(e)
                &&& message@ == syntax_message(e)
                &&& exists|stacks: Seq<Seq<N>>| #[trigger] runs(does, ops, stacks)
            }
        },
    }
}

/// Height of the stack behind the first `n` operations of code that keeps to it.
proof fn lemma_height_of_prefix(code: Seq<OpView>, n: nat)
    requires
        n <= code.len(),
        height(code, 0) is Some,
    ensures
        height(code.take(n as int), 0) is Some,
    decreases code.len(),
{
    if n == code.len() {
        assert(code.take(n as int) == code);
    } else {
        lemma_height_of_prefix(code.drop_last(), n);
        assert(code.drop_last().take(n as int) == code.take(n as int));
    }
}

impl Program {
    /// Runs the code. Operands are classified with `classify` and shown with `show`; an
    /// operation whose operands lie in its domain is carried out by `arithmetic`.
    pub fn evaluate<
        N,
        C: Fn(&N) -> Class,
        W: Fn(&N) -> String,
        A: Fn(&Op, &Vec<N>) -> Result<N, String>,
    >(&self, classify: &C, show: &W, arithmetic: &A) -> (r: Result<N, String>)
        requires
            self.wf(),
            total(*classify, *show, *arithmetic),
        ensures
            evaluates(checked(*classify, *show, *arithmetic), self.ops@, self.error_view(), r),
    {
        let ghost does = checked(*classify, *show, *arithmetic);
        let mut stack: Vec<N> = Vec::new();
        let mut i: usize = 0;
        let ghost mut stacks: Seq<Seq<N>> = seq![Seq::<N>::empty()];
        assert(self.ops@.take(0) =~= Seq::<Op>::empty());
        while i < self.ops.len()
            invariant
                self.wf(),
                total(*classify, *show, *arithmetic),
                does == checked(*classify, *show, *arithmetic),
                i <= self.ops@.len(),
                stacks.last() == stack@,
                runs(does, self.ops@.take(i as int), stacks),
                height(self.code().take(i as int), 0) == Some(stack@.len()),
            decreases self.ops@.len() - i,
        {
            let op = &self.ops[i];
            let n = arity(op);
            let ghost before = stack@;
            proof {
                let code = self.code();
                lemma_height_of_prefix(code, (i + 1) as nat);
                assert(code.take(i + 1).drop_last() == code.take(i as int));
                assert(code.take(i + 1).last() == op@);
            }
            let operands = stack.split_off(stack.len() - n);
            assert(operands@ =~= before.skip(before.len() - n));
            assert(stack@ =~= before.take(before.len() - n));
            let outcome = carry_out(op, &operands, classify, show, arithmetic);
            assert(does(*op, before.skip(before.len() - n), outcome));
            match outcome {
                Ok(value) => {
                    stack.push(value);
                    proof {
                        let past = self.ops@.take(i as int);
                        let now = self.ops@.take(i + 1);
                        let more = stacks.push(stack@);
                        assert(steps(does, *op, before, stack@));
                        assert forall|k: int| 0 <= k < now.len() implies steps(
                            does,
                            #[trigger] now[k],
                            more[k],
                            more[k + 1],
                        ) by {
                            if k < i {
                                assert(past[k] == now[k]);
                            }
                        }
                        stacks = more;
                        assert(runs(does, now, stacks));
                    }
                },
                Err(message) => {
                    assert(refuses(does, self.ops@[i as int], stacks.last(), message));
                    return Err(message);
                },
            }
            i += 1;
        }
        assert(self.ops@.take(i as int) =~= self.ops@);
        assert(self.code().take(i as int) =~= self.code());
        match &self.error {
            Some(e) => Err(e.message()),
            None => {
                let ghost last = stack@;
                match stack.pop() {
                    Some(value) => {
                        assert(last =~= seq![value]);
                        Ok(value)
                    },
                    None => {
                        assert(false);
                        Err(String::new())
                    },
                }
            },
        }
    }
}

/// Whether `r` may be the value of the text `input`, or why it has none, where `does` is
/// what an operation may give.
pub open spec fn is_value_of<N>(
    does: spec_fn(Op, Seq<N>, Result<N, String>) -> bool,
    input: Seq<char>,
    r: Result<N, String>,
) -> bool {
    exists|ops: Seq<Op>|
        #![trigger code_view(ops)]
        code_view(ops) == program(input).code && evaluates(does, ops, program(input).error, r)
}

/// Evaluates an arithmetic expression.
///
/// The error is in words: the first one met from left to right, be it that operands lie
/// outside the domain of an operation or that the text breaks the grammar. Operands are
/// classified with `classify` and shown with `show`; an operation whose operands lie in its
/// domain is carried out by `arithmetic`.
pub fn eval<
    N,
    C: Fn(&N) -> Class,
    W: Fn(&N) -> String,
    A: Fn(&Op, &Vec<N>) -> Result<N, String>,
>(input: &str, classify: &C, show: &W, arithmetic: &A) -> (r: Result<N, String>)
    requires
        total(*classify, *show, *arithmetic),
    ensures
        is_value_of(checked(*classify, *show, *arithmetic), input@, r),
{
    let program = compile(input);
    let r = program.evaluate(classify, show, arithmetic);
    assert(code_view(program.ops@) == program.code());
    r
}

} // verus!
