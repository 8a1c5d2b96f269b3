use vstd::prelude::*;

use crate::diagnostic::Diagnostic;
use crate::expr::{BinaryExpr, Expr, UnaryExpr};
use crate::lox_object::{truthy, values_equal, LoxObject, ObjectView};
use crate::number::{is_nan, negate, negated, num_le, num_lt, number_less, number_less_equal};
use crate::parser::{binary_node, error_location, grouping_node, Parser};
use crate::token::{Token, TokenTag};
use vstd::string::StringExecFns;

verus! {

/// The arithmetic operations on numbers that the host computes.
#[derive(Clone, Copy, Debug, PartialEq, Eq, Structural)]
pub enum ArithOp {
    Add,
    Subtract,
    Multiply,
    Divide,
}

/// Why evaluation failed.
#[derive(Clone, Copy, Debug, PartialEq, Eq, Structural)]
pub enum RuntimeMessage {
    OperandMustBeNumber,
    OperandsMustBeNumbers,
    OperandsMustBeNumbersOrStrings,
    UnknownOperator,
}

/// A runtime type error, at the operator whose operands were wrong.
pub struct RuntimeError {
    pub operator: Token,
    pub message: RuntimeMessage,
}

pub open spec fn runtime_text(m: RuntimeMessage) -> Seq<char> {
    match m {
        RuntimeMessage::OperandMustBeNumber => "Operand must be a number."@,
        RuntimeMessage::OperandsMustBeNumbers => "Operands must be numbers."@,
        RuntimeMessage::OperandsMustBeNumbersOrStrings => "Operands must be two numbers or two strings."@,
        RuntimeMessage::UnknownOperator => "Unknown operator."@,
    }
}

impl RuntimeMessage {
    pub fn text(&self) -> (r: &'static str)
        ensures
            r@ == runtime_text(*self),
    {
        match self {
            RuntimeMessage::OperandMustBeNumber => "Operand must be a number.",
            RuntimeMessage::OperandsMustBeNumbers => "Operands must be numbers.",
            RuntimeMessage::OperandsMustBeNumbersOrStrings => "Operands must be two numbers or two strings.",
            RuntimeMessage::UnknownOperator => "Unknown operator.",
        }
    }
}

impl RuntimeError {
    /// The diagnostic that reports this error, located at its operator.
    pub fn diagnostic(&self) -> (d: Diagnostic)
        ensures
            d.line == self.operator.line,
            d.location@ == error_location(self.operator),
            d.message@ == runtime_text(self.message),
    {
        Parser::parser_error(&self.operator, self.message.text())
    }
}

pub open spec fn type_error(operator: Token, message: RuntimeMessage) -> Result<
    ObjectView,
    RuntimeError,
> {
    Err(RuntimeError { operator, message })
}

/// Applies a prefix operator to the value of its operand.
pub open spec fn unary_result(operator: Token, right: ObjectView) -> Result<ObjectView, RuntimeError> {
    let t = operator.token_type.tag();
    if t == TokenTag::Minus {
        match right {
            ObjectView::Number(n) => Ok(ObjectView::Number(negated(n))),
            _ => type_error(operator, RuntimeMessage::OperandMustBeNumber),
        }
    } else if t == TokenTag::Bang {
        Ok(ObjectView::Boolean(!truthy(right)))
    } else {
        type_error(operator, RuntimeMessage::UnknownOperator)
    }
}

/// The arithmetic operation of an operator tag, if it has one.
pub open spec fn arith_op(t: TokenTag) -> Option<ArithOp> {
    if t == TokenTag::Plus {
        Some(ArithOp::Add)
    } else if t == TokenTag::Minus {
        Some(ArithOp::Subtract)
    } else if t == TokenTag::Star {
        Some(ArithOp::Multiply)
    } else if t == TokenTag::Slash {
        Some(ArithOp::Divide)
    } else {
        None
    }
}

/// The comparison of an operator tag on two numbers, if it is one.
pub open spec fn compare(t: TokenTag, a: u32, b: u32) -> Option<bool> {
    if t == TokenTag::Greater {
        Some(num_lt(b, a))
    } else if t == TokenTag::GreaterEqual {
        Some(num_le(b, a))
    } else if t == TokenTag::Less {
        Some(num_lt(a, b))
    } else if t == TokenTag::LessEqual {
        Some(num_le(a, b))
    } else {
        None
    }
}

/// Applies a binary operator to the values of its operands; `ar` is the
/// arithmetic on numbers.
pub open spec fn binary_result(
    operator: Token,
    left: ObjectView,
    right: ObjectView,
    ar: spec_fn(ArithOp, u32, u32) -> u32,
) -> Result<ObjectView, RuntimeError> {
    let t = operator.token_type.tag();
    if t == TokenTag::Plus {
        match (left, right) {
            (ObjectView::Number(a), ObjectView::Number(b)) => Ok(
                ObjectView::Number(ar(ArithOp::Add, a, b)),
            ),
            (ObjectView::Str(a), ObjectView::Str(b)) => Ok(ObjectView::Str(a + b)),
            _ => type_error(operator, RuntimeMessage::OperandsMustBeNumbersOrStrings),
        }
    } else if arith_op(t) is Some {
        match (left, right) {
            (ObjectView::Number(a), ObjectView::Number(b)) => Ok(
                ObjectView::Number(ar(arith_op(t)->0, a, b)),
            ),
            _ => type_error(operator, RuntimeMessage::OperandsMustBeNumbers),
        }
    } else if compare(t, 0, 0) is Some {
        match (left, right) {
            (ObjectView::Number(a), ObjectView::Number(b)) => Ok(
                ObjectView::Boolean(compare(t, a, b)->0),
            ),
            _ => type_error(operator, RuntimeMessage::OperandsMustBeNumbers),
        }
    } else if t == TokenTag::EqualEqual {
        Ok(ObjectView::Boolean(values_equal(left, right)))
    } else if t == TokenTag::BangEqual {
        Ok(ObjectView::Boolean(!values_equal(left, right)))
    } else {
        type_error(operator, RuntimeMessage::UnknownOperator)
    }
}

/// The value of an expression, strictly and left to right: `num` gives the
/// value of a numeral, `ar` the arithmetic on numbers.
pub open spec fn evaluate(
    e: Expr,
    num: spec_fn(Seq<char>) -> u32,
    ar: spec_fn(ArithOp, u32, u32) -> u32,
) -> Result<ObjectView, RuntimeError>
    decreases e,
{
    match e {
        Expr::NumberLiteral(n) => Ok(ObjectView::Number(num(n.value@))),
        Expr::StringLiteral(s) => Ok(ObjectView::Str(s.value@)),
        Expr::BooleanLiteral(b) => Ok(ObjectView::Boolean(b.value)),
        Expr::NilLiteral(_) => Ok(ObjectView::Nil),
        Expr::Grouping(g) => evaluate(*g.expression, num, ar),
        Expr::Unary(u) => match evaluate(*u.right, num, ar) {
            Ok(v) => unary_result(u.operator, v),
            Err(err) => Err(err),
        },
        Expr::Binary(b) => match evaluate(*b.left, num, ar) {
            Ok(l) => match evaluate(*b.right, num, ar) {
                Ok(r) => binary_result(b.operator, l, r, ar),
                Err(err) => Err(err),
            },
            Err(err) => Err(err),
        },
    }
}

/// A parenthesised expression has the value of the expression inside it.
pub proof fn lemma_grouping_transparent(
    e: Expr,
    num: spec_fn(Seq<char>) -> u32,
    ar: spec_fn(ArithOp, u32, u32) -> u32,
)
    ensures
        evaluate(grouping_node(e), num, ar) == evaluate(e, num, ar),
{
}

/// `e` is a literal: a boolean, a string, `nil`, or a number.
pub open spec fn is_literal(e: Expr) -> bool {
    e is BooleanLiteral || e is StringLiteral || e is NilLiteral || e is NumberLiteral
}

/// Equality is reflexive on literal values: `v == v` is true for every
/// literal `v` but a number whose value is NaN.
pub proof fn lemma_literal_equals_itself(
    v: Expr,
    operator: Token,
    num: spec_fn(Seq<char>) -> u32,
    ar: spec_fn(ArithOp, u32, u32) -> u32,
)
    requires
        is_literal(v),
        operator.token_type.tag() == TokenTag::EqualEqual,
        v matches Expr::NumberLiteral(n) ==> !is_nan(num(n.value@)),
    ensures
        evaluate(binary_node(v, operator, v), num, ar) == Ok::<ObjectView, RuntimeError>(
            ObjectView::Boolean(true),
        ),
{
    let lv = evaluate(v, num, ar);
    assert(lv is Ok);
    assert(values_equal(lv->Ok_0, lv->Ok_0));
}

/// Operators demand operands of the right variants: negation a number,
/// `+` two numbers or two strings, the other arithmetic and the comparisons
/// two numbers. Anything else is a runtime type error.
pub proof fn lemma_type_discipline(
    operator: Token,
    left: ObjectView,
    right: ObjectView,
    ar: spec_fn(ArithOp, u32, u32) -> u32,
)
    ensures
        operator.token_type.tag() == TokenTag::Minus && !(right is Number) ==> unary_result(
            operator,
            right,
        ) is Err,
        operator.token_type.tag() == TokenTag::Plus && !((left is Number && right is Number) || (
        left is Str && right is Str)) ==> binary_result(operator, left, right, ar) is Err,
        (arith_op(operator.token_type.tag()) is Some || compare(
            operator.token_type.tag(),
            0,
            0,
        ) is Some) && operator.token_type.tag() != TokenTag::Plus && !(left is Number
            && right is Number) ==> binary_result(operator, left, right, ar) is Err,
{
}

/// `r` is the outcome that `spec` describes.
pub open spec fn outcome_is(
    r: Result<LoxObject, RuntimeError>,
    spec: Result<ObjectView, RuntimeError>,
) -> bool {
    match r {
        Ok(v) => spec == Ok::<ObjectView, RuntimeError>(v@),
        Err(err) => spec == Err::<ObjectView, RuntimeError>(err),
    }
}

/// Evaluates expression trees. Numbers are IEEE-754 binary32 bit patterns;
/// the host supplies what needs floating point: `parse_number` reads a
/// numeral (digits, optionally `.` and digits) and `arith` computes a sum,
/// difference, product or quotient.
pub struct Interpreter<P, A> {
    pub parse_number: P,
    pub arith: A,
}

impl<P: Fn(String) -> u32, A: Fn(ArithOp, u32, u32) -> u32> Interpreter<P, A> {
    /// The host's operations can be called on every input, and each gives
    /// one result for one input (a numeral's result depends on its text).
    pub open spec fn host_ok(&self) -> bool {
        &&& forall|s: String| #[trigger] self.parse_number.requires((s,))
        &&& forall|s1: String, s2: String, r1: u32, r2: u32|
            s1@ == s2@ && #[trigger] self.parse_number.ensures((s1,), r1)
                && #[trigger] self.parse_number.ensures((s2,), r2) ==> r1 == r2
        &&& forall|op: ArithOp, a: u32, b: u32| #[trigger] self.arith.requires((op, a, b))
        &&& forall|op: ArithOp, a: u32, b: u32, r1: u32, r2: u32|
            #[trigger] self.arith.ensures((op, a, b), r1) && #[trigger] self.arith.ensures(
                (op, a, b),
                r2,
            ) ==> r1 == r2
    }

    /// The host may read the numeral `s` as `r`.
    pub open spec fn reads_as(&self, s: Seq<char>, r: u32) -> bool {
        exists|t: String| t@ == s && #[trigger] self.parse_number.ensures((t,), r)
    }

    /// The value that the host gives each numeral.
    pub open spec fn numerals(&self) -> spec_fn(Seq<char>) -> u32 {
        |s: Seq<char>| choose|r: u32| #[trigger] self.reads_as(s, r)
    }

    /// The host's arithmetic.
    pub open spec fn arithmetic(&self) -> spec_fn(ArithOp, u32, u32) -> u32 {
        |op: ArithOp, a: u32, b: u32| choose|r: u32| #[trigger] self.arith.ensures((op, a, b), r)
    }

    pub fn new(parse_number: P, arith: A) -> (r: Self)
        ensures
            r.parse_number == parse_number,
            r.arith == arith,
    {
        Interpreter { parse_number, arith }
    }

    /// Evaluates `expression` to a value, or to the runtime error that stops it.
    pub fn interpret(&self, expression: &Expr) -> (r: Result<LoxObject, RuntimeError>)
        requires
            self.host_ok(),
        ensures
            outcome_is(r, evaluate(*expression, self.numerals(), self.arithmetic())),
    {
        self.evaluate(expression)
    }

    fn number(&self, numeral: &String) -> (r: u32)
        requires
            self.host_ok(),
        ensures
            r == (self.numerals())(numeral@),
    {
        let r = (self.parse_number)(numeral.clone());
        proof {
            assert(self.reads_as(numeral@, r));
            let c = choose|c: u32| self.reads_as(numeral@, c);
            let t = choose|t: String| t@ == numeral@ && self.parse_number.ensures((t,), c);
        }
        r
    }

    fn arithmetic_op(&self, op: ArithOp, a: u32, b: u32) -> (r: u32)
        requires
            self.host_ok(),
        ensures
            r == (self.arithmetic())(op, a, b),
    {
        let r = (self.arith)(op, a, b);
        r
    }

    fn evaluate(&self, expression: &Expr) -> (r: Result<LoxObject, RuntimeError>)
        requires
            self.host_ok(),
        ensures
            outcome_is(r, evaluate(*expression, self.numerals(), self.arithmetic())),
        decreases expression,
    {
        match expression {
            Expr::NumberLiteral(n) => Ok(LoxObject::Number(self.number(&n.value))),
            Expr::StringLiteral(s) => Ok(LoxObject::String(s.value.clone())),
            Expr::BooleanLiteral(b) => Ok(LoxObject::Boolean(b.value)),
            Expr::NilLiteral(_) => Ok(LoxObject::Nil),
            Expr::Grouping(g) => self.evaluate(&g.expression),
            Expr::Unary(u) => self.process_unary_expr(u),
            Expr::Binary(b) => self.process_binary_expr(b),
        }
    }

    fn process_unary_expr(&self, unary_expr: &UnaryExpr) -> (r: Result<LoxObject, RuntimeError>)
        requires
            self.host_ok(),
        ensures
            outcome_is(
                r,
                evaluate(Expr::Unary(*unary_expr), self.numerals(), self.arithmetic()),
            ),
        decreases unary_expr, 0int,
    {
        let right = match self.evaluate(&unary_expr.right) {
            Ok(v) => v,
            Err(err) => return Err(err),
        };
        let operator = &unary_expr.operator;
        match operator.token_type.kind_tag() {
            TokenTag::Minus => match right {
                LoxObject::Number(n) => Ok(LoxObject::Number(negate(n))),
                _ => Err(
                    RuntimeError {
                        operator: operator.clone(),
                        message: RuntimeMessage::OperandMustBeNumber,
                    },
                ),
            },
            TokenTag::Bang => Ok(LoxObject::Boolean(!right.is_truthy())),
            _ => Err(
                RuntimeError { operator: operator.clone(), message: RuntimeMessage::UnknownOperator },
            ),
        }
    }

    fn process_binary_expr(&self, binary_expr: &BinaryExpr) -> (r: Result<LoxObject, RuntimeError>)
        requires
            self.host_ok(),
        ensures
            outcome_is(
                r,
                evaluate(Expr::Binary(*binary_expr), self.numerals(), self.arithmetic()),
            ),
        decreases binary_expr, 0int,
    {
        let left = match self.evaluate(&binary_expr.left) {
            Ok(v) => v,
            Err(err) => return Err(err),
        };
        let right = match self.evaluate(&binary_expr.right) {
            Ok(v) => v,
            Err(err) => return Err(err),
        };
        let operator = &binary_expr.operator;
        let tag = operator.token_type.kind_tag();
        let op = match tag {
            TokenTag::Plus => {
                match (&left, &right) {
                    (LoxObject::Number(a), LoxObject::Number(b)) => {
                        return Ok(LoxObject::Number(self.arithmetic_op(ArithOp::Add, *a, *b)));
                    },
                    (LoxObject::String(a), LoxObject::String(b)) => {
                        let joined = a.clone().concat(b.as_str());
                        return Ok(LoxObject::String(joined));
                    },
                    _ => {
                        return Err(
                            RuntimeError {
                                operator: operator.clone(),
                                message: RuntimeMessage::OperandsMustBeNumbersOrStrings,
                            },
                        );
                    },
                }
            },
            TokenTag::Minus => ArithOp::Subtract,
            TokenTag::Star => ArithOp::Multiply,
            TokenTag::Slash => ArithOp::Divide,
            TokenTag::EqualEqual => {
                return Ok(LoxObject::Boolean(left.equals(&right)));
            },
            TokenTag::BangEqual => {
                return Ok(LoxObject::Boolean(!left.equals(&right)));
            },
            TokenTag::Greater | TokenTag::GreaterEqual | TokenTag::Less | TokenTag::LessEqual => {
                return match (&left, &right) {
                    (LoxObject::Number(a), LoxObject::Number(b)) => {
                        let result = match tag {
                            TokenTag::Greater => number_less(*b, *a),
                            TokenTag::GreaterEqual => number_less_equal(*b, *a),
                            TokenTag::Less => number_less(*a, *b),
                            _ => number_less_equal(*a, *b),
                        };
                        Ok(LoxObject::Boolean(result))
                    },
                    _ => Err(
                        RuntimeError {
                            operator: operator.clone(),
                            message: RuntimeMessage::OperandsMustBeNumbers,
                        },
                    ),
                };
            },
            _ => {
                return Err(
                    RuntimeError {
                        operator: operator.clone(),
                        message: RuntimeMessage::UnknownOperator,
                    },
                );
            },
        };
        match (&left, &right) {
            (LoxObject::Number(a), LoxObject::Number(b)) => Ok(
                LoxObject::Number(self.arithmetic_op(op, *a, *b)),
            ),
            _ => Err(
                RuntimeError { operator: operator.clone(), message: RuntimeMessage::OperandsMustBeNumbers },
            ),
        }
    }
}

} // verus!
