use rlox::expr::{BinaryExpr, Expr, GroupingExpr, NumberLiteral};
use rlox::parser::{ParseError, ParseMessage, Parser};
use rlox::scanner::Scanner;
use rlox::token::{Token, TokenTag, TokenType};

fn parse(source: &str) -> Result<Expr, ParseError> {
    let mut scanner = Scanner::new(source.to_string());
    let tokens = scanner.scan_tokens();
    let mut parser = Parser::new(tokens);
    parser.parse()
}

fn shape(e: &Expr) -> String {
    match e {
        Expr::Binary(b) => format!("({} {} {})", b.operator.lexeme(), shape(&b.left), shape(&b.right)),
        Expr::Grouping(g) => format!("(group {})", shape(&g.expression)),
        Expr::Unary(u) => format!("({} {})", u.operator.lexeme(), shape(&u.right)),
        Expr::BooleanLiteral(b) => format!("{}", b.value),
        Expr::NumberLiteral(n) => n.value.clone(),
        Expr::StringLiteral(s) => format!("\"{}\"", s.value),
        Expr::NilLiteral(_) => "nil".to_string(),
    }
}

fn shape_of(source: &str) -> String {
    match parse(source) {
        Ok(e) => shape(&e),
        Err(err) => panic!("{}: {:?} at {:?}", source, err.message, err.token.lexeme()),
    }
}

#[test]
fn same_level_operators_associate_left() {
    assert_eq!(shape_of("1 - 2 - 3"), "(- (- 1 2) 3)");
    assert_eq!(shape_of("1 + 2 - 3"), "(- (+ 1 2) 3)");
    assert_eq!(shape_of("1 * 2 / 3"), "(/ (* 1 2) 3)");
    assert_eq!(shape_of("1 < 2 >= 3"), "(>= (< 1 2) 3)");
    assert_eq!(shape_of("1 == 2 != 3"), "(!= (== 1 2) 3)");
}

#[test]
fn prefix_binds_tighter_than_equality() {
    assert_eq!(shape_of("!true == false"), "(== (! true) false)");
}

#[test]
fn product_binds_tighter_than_sum() {
    assert_eq!(shape_of("1 + 2 * 3"), "(+ 1 (* 2 3))");
}

#[test]
fn negation_binds_tighter_than_product() {
    assert_eq!(shape_of("-1 * 2"), "(* (- 1) 2)");
}

#[test]
fn comparison_binds_tighter_than_equality() {
    assert_eq!(shape_of("1 < 2 == 3 > 4"), "(== (< 1 2) (> 3 4))");
}

#[test]
fn prefix_operators_nest_to_the_right() {
    assert_eq!(shape_of("!!-1"), "(! (! (- 1)))");
}

#[test]
fn grouping_makes_a_node() {
    assert_eq!(shape_of("(1 + 2) * 3"), "(* (group (+ 1 2)) 3)");
    assert_eq!(shape_of("\"a\" + nil"), "(+ \"a\" nil)");
}

#[test]
fn error_at_end_of_input() {
    let err = parse("1 + ").err().expect("an error");
    assert_eq!(err.message, ParseMessage::ExpectExpression);
    assert_eq!(err.token.token_type().kind_tag(), TokenTag::Eof);
    assert_eq!(err.diagnostic().render(), "[line: 1] Error: at end : Expect Expression");
}

#[test]
fn missing_right_paren() {
    let err = parse("(1 + 2").err().expect("an error");
    assert_eq!(err.message, ParseMessage::ExpectRightParen);
    assert_eq!(err.diagnostic().render(), "[line: 1] Error: at end : Expect ')' after expression");
    let err = parse("(1 2)").err().expect("an error");
    assert_eq!(err.diagnostic().render(), "[line: 1] Error: at '2' : Expect ')' after expression");
}

#[test]
fn keyword_cannot_start_an_expression() {
    let err = parse("\n var").err().expect("an error");
    assert_eq!(err.diagnostic().render(), "[line: 2] Error: at 'var' : Expect Expression");
}

#[test]
fn parser_reports_at_lexeme() {
    let t = Token::new(TokenType::Star, "*".to_string(), 5);
    assert_eq!(Parser::parser_error(&t, "Expect Expression").render(), "[line: 5] Error: at '*' : Expect Expression");
    let eof = Token::new(TokenType::Eof, String::new(), 6);
    assert_eq!(Parser::parser_error(&eof, "x").render(), "[line: 6] Error: at end : x");
}

#[test]
fn parser_over_hand_made_tokens() {
    let tokens = vec![
        Token::new(TokenType::Number("4".to_string()), "4".to_string(), 1),
        Token::new(TokenType::Slash, "/".to_string(), 1),
        Token::new(TokenType::Number("2".to_string()), "2".to_string(), 1),
        Token::new(TokenType::Eof, String::new(), 1),
    ];
    let e = Parser::new(tokens).parse().ok().expect("an expression");
    assert_eq!(shape(&e), "(/ 4 2)");
}

#[test]
fn node_constructors() {
    let four = Expr::NumberLiteral(NumberLiteral { value: "4".to_string() });
    let two = Expr::NumberLiteral(NumberLiteral { value: "2".to_string() });
    let op = Token::new(TokenType::Minus, "-".to_string(), 1);
    let b = BinaryExpr::new(four, op, two);
    assert_eq!(shape(&Expr::Binary(b)), "(- 4 2)");
    let g = GroupingExpr::new(Expr::NilLiteral(rlox::expr::NilLiteral {}));
    assert_eq!(shape(&Expr::Grouping(g)), "(group nil)");
}
