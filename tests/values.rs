use rlox::expr::{BooleanLiteral, Expr, StringLiteral, UnaryExpr};
use rlox::interpreter::{ArithOp, Interpreter, RuntimeMessage};
use rlox::lox_object::LoxObject;
use rlox::number::{negate, number_equal, number_less, number_less_equal};
use rlox::token::{Token, TokenType};

fn bits(x: f32) -> u32 {
    x.to_bits()
}

fn host() -> Interpreter<fn(String) -> u32, fn(ArithOp, u32, u32) -> u32> {
    fn parse_numeral(numeral: String) -> u32 {
        numeral.parse::<f32>().expect("a numeral").to_bits()
    }
    fn arithmetic(op: ArithOp, a: u32, b: u32) -> u32 {
        let (x, y) = (f32::from_bits(a), f32::from_bits(b));
        match op {
            ArithOp::Add => (x + y).to_bits(),
            ArithOp::Subtract => (x - y).to_bits(),
            ArithOp::Multiply => (x * y).to_bits(),
            ArithOp::Divide => (x / y).to_bits(),
        }
    }
    Interpreter::new(parse_numeral, arithmetic)
}

#[test]
fn truthiness() {
    assert!(!LoxObject::Nil.is_truthy());
    assert!(!LoxObject::Boolean(false).is_truthy());
    assert!(LoxObject::Boolean(true).is_truthy());
    assert!(LoxObject::Number(bits(0.0)).is_truthy());
    assert!(LoxObject::String(String::new()).is_truthy());
}

#[test]
fn accessors_by_variant() {
    assert_eq!(LoxObject::Number(bits(2.5)).to_number(), Some(bits(2.5)));
    assert_eq!(LoxObject::Nil.to_number(), None);
    assert_eq!(LoxObject::Boolean(true).to_boolean(), Some(true));
    assert_eq!(LoxObject::String("s".to_string()).to_boolean(), None);
    assert_eq!(LoxObject::String("s".to_string()).to_string(), Some("s"));
    assert_eq!(LoxObject::Number(bits(1.0)).to_string(), None);
}

#[test]
fn equality_by_variant() {
    assert!(LoxObject::Nil.equals(&LoxObject::Nil));
    assert!(!LoxObject::Nil.equals(&LoxObject::Boolean(false)));
    assert!(LoxObject::String("a".to_string()).equals(&LoxObject::String("a".to_string())));
    assert!(!LoxObject::String("a".to_string()).equals(&LoxObject::String("b".to_string())));
    assert!(!LoxObject::Number(bits(1.0)).equals(&LoxObject::String("1".to_string())));
    assert!(LoxObject::Number(bits(0.0)).equals(&LoxObject::Number(bits(-0.0))));
    assert!(!LoxObject::Number(bits(f32::NAN)).equals(&LoxObject::Number(bits(f32::NAN))));
    assert!(LoxObject::Boolean(true) == LoxObject::Boolean(true));
}

#[test]
fn number_comparisons_follow_ieee() {
    let values = [f32::NEG_INFINITY, -3.5, -1.0, -0.0, 0.0, 1e-40, 1.0, 2.0, 1e30, f32::INFINITY, f32::NAN];
    for &x in values.iter() {
        for &y in values.iter() {
            assert_eq!(number_equal(bits(x), bits(y)), x == y, "{} == {}", x, y);
            assert_eq!(number_less(bits(x), bits(y)), x < y, "{} < {}", x, y);
            assert_eq!(number_less_equal(bits(x), bits(y)), x <= y, "{} <= {}", x, y);
        }
        assert_eq!(negate(bits(x)), (-x).to_bits());
    }
}

#[test]
fn interpreter_on_hand_made_trees() {
    let minus = Token::new(TokenType::Minus, "-".to_string(), 4);
    let e = Expr::Unary(UnaryExpr {
        operator: minus,
        right: Box::new(Expr::StringLiteral(StringLiteral { value: "abc".to_string() })),
    });
    let err = host().interpret(&e).err().expect("a type error");
    assert_eq!(err.message, RuntimeMessage::OperandMustBeNumber);
    assert_eq!(err.diagnostic().render(), "[line: 4] Error: at '-' : Operand must be a number.");
    let t = Expr::BooleanLiteral(BooleanLiteral { value: true });
    assert_eq!(host().interpret(&t).ok(), Some(LoxObject::Boolean(true)));
    let f = Expr::BooleanLiteral(BooleanLiteral { value: false });
    assert_eq!(host().interpret(&f).ok(), Some(LoxObject::Boolean(false)));
}

#[test]
fn unknown_operator_is_an_error() {
    let comma = Token::new(TokenType::Comma, ",".to_string(), 1);
    let e = Expr::Unary(UnaryExpr {
        operator: comma,
        right: Box::new(Expr::BooleanLiteral(BooleanLiteral { value: true })),
    });
    let err = host().interpret(&e).err().expect("an error");
    assert_eq!(err.message, RuntimeMessage::UnknownOperator);
}
