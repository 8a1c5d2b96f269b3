use rlox::interpreter::{ArithOp, Interpreter};
use rlox::lox_object::LoxObject;
use rlox::{run, RunOutcome};

fn parse_numeral(numeral: String) -> u32 {
    numeral.parse::<f32>().expect("a numeral").to_bits()
}

fn arithmetic(op: ArithOp, a: u32, b: u32) -> u32 {
    let (x, y) = (f32::from_bits(a), f32::from_bits(b));
    let r = match op {
        ArithOp::Add => x + y,
        ArithOp::Subtract => x - y,
        ArithOp::Multiply => x * y,
        ArithOp::Divide => x / y,
    };
    r.to_bits()
}

fn host() -> Interpreter<fn(String) -> u32, fn(ArithOp, u32, u32) -> u32> {
    Interpreter::new(parse_numeral, arithmetic)
}

fn run_str(source: &str) -> RunOutcome {
    run(source.to_string(), &host())
}

fn value_of(source: &str) -> LoxObject {
    let out = run_str(source);
    let lines: Vec<String> = out.diagnostics.iter().map(|d| d.render()).collect();
    assert!(lines.is_empty(), "unexpected diagnostics: {:?}", lines);
    out.value.expect("a value")
}

fn number(x: f32) -> LoxObject {
    LoxObject::Number(x.to_bits())
}

fn diagnostics_of(source: &str) -> Vec<String> {
    run_str(source).diagnostics.iter().map(|d| d.render()).collect()
}

#[test]
fn precedence_of_product_over_sum() {
    assert_eq!(value_of("1 + 2 * 3"), number(7.0));
}

#[test]
fn grouping_overrides_precedence() {
    assert_eq!(value_of("(1 + 2) * 3"), number(9.0));
}

#[test]
fn bang_uses_truthiness() {
    assert_eq!(value_of("!true"), LoxObject::Boolean(false));
    assert_eq!(value_of("!nil"), LoxObject::Boolean(true));
    assert_eq!(value_of("!0"), LoxObject::Boolean(false));
}

#[test]
fn plus_concatenates_strings() {
    let v = value_of("\"foo\" + \"bar\"");
    assert_eq!(v.to_string(), Some("foobar"));
}

#[test]
fn equality_scenarios() {
    assert_eq!(value_of("1 == 1"), LoxObject::Boolean(true));
    assert_eq!(value_of("1 != 2"), LoxObject::Boolean(true));
    assert_eq!(value_of("nil == nil"), LoxObject::Boolean(true));
    assert_eq!(value_of("nil == 0"), LoxObject::Boolean(false));
}

#[test]
fn negative_operands_multiply() {
    assert_eq!(value_of("-2 * -3"), number(6.0));
}

#[test]
fn unexpected_character_is_reported() {
    let lines = diagnostics_of("@");
    assert_eq!(lines[0], "[line: 1] Error:  : Unexpected character");
    assert_eq!(lines[1], "[line: 1] Error: at end : Expect Expression");
    assert_eq!(lines.len(), 2);
    assert!(run_str("@").value.is_none());
}

#[test]
fn missing_right_paren_is_reported() {
    let out = run_str("(1 + 2");
    assert!(out.value.is_none());
    let lines: Vec<String> = out.diagnostics.iter().map(|d| d.render()).collect();
    assert_eq!(lines, vec!["[line: 1] Error: at end : Expect ')' after expression".to_string()]);
}

#[test]
fn missing_operand_is_reported() {
    let lines = diagnostics_of("1 + ");
    assert_eq!(lines, vec!["[line: 1] Error: at end : Expect Expression".to_string()]);
}

#[test]
fn unexpected_token_is_reported_at_its_lexeme() {
    let lines = diagnostics_of("1 + )");
    assert_eq!(lines, vec!["[line: 1] Error: at ')' : Expect Expression".to_string()]);
}

#[test]
fn unterminated_string_is_reported_on_its_last_line() {
    let lines = diagnostics_of("\"ab\ncd");
    assert_eq!(lines[0], "[line: 2] Error:  : Unterminated string.");
    assert_eq!(lines[1], "[line: 2] Error: at end : Expect Expression");
}

#[test]
fn lexical_error_does_not_stop_evaluation() {
    let out = run_str("1 @ + 2");
    let lines: Vec<String> = out.diagnostics.iter().map(|d| d.render()).collect();
    assert_eq!(lines, vec!["[line: 1] Error:  : Unexpected character".to_string()]);
    assert_eq!(out.value, Some(number(3.0)));
}

#[test]
fn negating_a_string_is_a_type_error() {
    let lines = diagnostics_of("-\"abc\"");
    assert_eq!(lines, vec!["[line: 1] Error: at '-' : Operand must be a number.".to_string()]);
}

#[test]
fn adding_boolean_and_number_is_a_type_error() {
    let lines = diagnostics_of("true + 1");
    assert_eq!(
        lines,
        vec!["[line: 1] Error: at '+' : Operands must be two numbers or two strings.".to_string()]
    );
}

#[test]
fn comparing_strings_is_a_type_error() {
    let lines = diagnostics_of("\"a\" < \"b\"");
    assert_eq!(lines, vec!["[line: 1] Error: at '<' : Operands must be numbers.".to_string()]);
    assert!(run_str("\"a\" < \"b\"").value.is_none());
}

#[test]
fn arithmetic_on_non_numbers_is_a_type_error() {
    let lines = diagnostics_of("nil * 2");
    assert_eq!(lines, vec!["[line: 1] Error: at '*' : Operands must be numbers.".to_string()]);
}

#[test]
fn runtime_error_line_is_the_operator_line() {
    let lines = diagnostics_of("1 +\n\n true");
    assert_eq!(
        lines,
        vec!["[line: 1] Error: at '+' : Operands must be two numbers or two strings.".to_string()]
    );
}

#[test]
fn subtraction_is_left_associative() {
    assert_eq!(value_of("10 - 4 - 3"), number(3.0));
    assert_eq!(value_of("8 / 4 / 2"), number(1.0));
}

#[test]
fn comparisons_on_numbers() {
    assert_eq!(value_of("2 > 1"), LoxObject::Boolean(true));
    assert_eq!(value_of("2 >= 2"), LoxObject::Boolean(true));
    assert_eq!(value_of("2 < 1"), LoxObject::Boolean(false));
    assert_eq!(value_of("1 <= 0.5"), LoxObject::Boolean(false));
}

#[test]
fn division_by_zero_follows_ieee() {
    assert_eq!(value_of("1 / 0"), number(f32::INFINITY));
    assert_eq!(value_of("-1 / 0"), number(f32::NEG_INFINITY));
    match value_of("0 / 0") {
        LoxObject::Number(bits) => assert!(f32::from_bits(bits).is_nan()),
        other => panic!("not a number: {:?}", other),
    }
}

#[test]
fn nan_is_not_equal_to_itself() {
    assert_eq!(value_of("0/0 == 0/0"), LoxObject::Boolean(false));
    assert_eq!(value_of("0/0 != 0/0"), LoxObject::Boolean(true));
}

#[test]
fn literals_equal_themselves() {
    for source in ["true == true", "false == false", "nil == nil", "\"x\" == \"x\"", "2.5 == 2.5"] {
        assert_eq!(value_of(source), LoxObject::Boolean(true), "{}", source);
    }
}

#[test]
fn grouping_does_not_change_the_value() {
    assert_eq!(value_of("(((4)))"), value_of("4"));
    assert_eq!(value_of("(\"s\")").to_string(), Some("s"));
    assert_eq!(value_of("(nil)"), LoxObject::Nil);
}

#[test]
fn mixed_variants_are_never_equal() {
    assert_eq!(value_of("1 == \"1\""), LoxObject::Boolean(false));
    assert_eq!(value_of("true == 1"), LoxObject::Boolean(false));
    assert_eq!(value_of("\"\" == nil"), LoxObject::Boolean(false));
}

#[test]
fn fractional_numerals_are_read() {
    assert_eq!(value_of("1.5 + 0.25"), number(1.75));
}

#[test]
fn trailing_tokens_after_an_expression_are_left_alone() {
    assert_eq!(value_of("1 2"), number(1.0));
}

#[test]
fn comments_are_skipped() {
    assert_eq!(value_of("1 + // two\n 2"), number(3.0));
}

#[test]
fn zeros_of_both_signs_are_equal() {
    assert_eq!(value_of("-0 == 0"), LoxObject::Boolean(true));
}
