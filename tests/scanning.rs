use rlox::diagnostic::{decimal_string, Diagnostic};
use rlox::scanner::Scanner;
use rlox::token::{Token, TokenTag, TokenType};
use rlox::{error, report};

fn scan(source: &str) -> (Vec<Token>, Vec<String>) {
    let mut scanner = Scanner::new(source.to_string());
    let tokens = scanner.scan_tokens();
    let lines = scanner.diagnostics().iter().map(|d| d.render()).collect();
    (tokens, lines)
}

fn tags(tokens: &[Token]) -> Vec<TokenTag> {
    tokens.iter().map(|t| t.token_type().kind_tag()).collect()
}

#[test]
fn stream_ends_in_one_eof() {
    for source in ["", "1 + 2", "(a) { } , . ; * / ! != = == < <= > >=", "// only a comment", "\"s\" x1 and"] {
        let (tokens, _) = scan(source);
        let eofs = tokens.iter().filter(|t| t.token_type().kind_tag() == TokenTag::Eof).count();
        assert_eq!(eofs, 1, "{}", source);
        assert_eq!(tokens.last().unwrap().token_type().kind_tag(), TokenTag::Eof);
        for t in &tokens[..tokens.len() - 1] {
            assert!(source.contains(t.lexeme()), "{:?} in {}", t.lexeme(), source);
        }
    }
}

#[test]
fn operators_take_the_longest_match() {
    let (tokens, errors) = scan("! != = == < <= > >= / *");
    assert!(errors.is_empty());
    assert_eq!(
        tags(&tokens),
        vec![
            TokenTag::Bang,
            TokenTag::BangEqual,
            TokenTag::Equal,
            TokenTag::EqualEqual,
            TokenTag::Less,
            TokenTag::LessEqual,
            TokenTag::Greater,
            TokenTag::GreaterEqual,
            TokenTag::Slash,
            TokenTag::Star,
            TokenTag::Eof,
        ]
    );
    assert_eq!(tokens[1].lexeme(), "!=");
}

#[test]
fn punctuation_tokens() {
    let (tokens, _) = scan("(){},.-+;");
    assert_eq!(
        tags(&tokens),
        vec![
            TokenTag::LeftParen,
            TokenTag::RightParen,
            TokenTag::LeftBrace,
            TokenTag::RightBrace,
            TokenTag::Comma,
            TokenTag::Dot,
            TokenTag::Minus,
            TokenTag::Plus,
            TokenTag::Semicolon,
            TokenTag::Eof,
        ]
    );
}

#[test]
fn keywords_and_identifiers() {
    let (tokens, _) = scan("and class else false for fun if nil or print return super this true var while andy x9");
    let expected = vec![
        TokenTag::And,
        TokenTag::Class,
        TokenTag::Else,
        TokenTag::False,
        TokenTag::For,
        TokenTag::Fun,
        TokenTag::If,
        TokenTag::Nil,
        TokenTag::Or,
        TokenTag::Print,
        TokenTag::Return,
        TokenTag::Super,
        TokenTag::This,
        TokenTag::True,
        TokenTag::Var,
        TokenTag::While,
        TokenTag::Identifier,
        TokenTag::Identifier,
        TokenTag::Eof,
    ];
    assert_eq!(tags(&tokens), expected);
    assert!(matches!(tokens[16].token_type(), TokenType::Identifier(ref s) if s == "andy"));
    assert!(matches!(tokens[17].token_type(), TokenType::Identifier(ref s) if s == "x9"));
}

#[test]
fn string_literal_payload_excludes_quotes() {
    let (tokens, errors) = scan("\"hi there\"");
    assert!(errors.is_empty());
    assert_eq!(tokens[0].lexeme(), "\"hi there\"");
    assert!(matches!(tokens[0].token_type(), TokenType::StringLiteral(ref s) if s == "hi there"));
}

#[test]
fn string_literal_counts_its_newlines() {
    let (tokens, _) = scan("\"a\nb\" 1");
    assert_eq!(tokens[0].line(), 2);
    assert_eq!(tokens[1].line(), 2);
    assert_eq!(tokens[2].line(), 2);
}

#[test]
fn unterminated_string_emits_no_token() {
    let (tokens, errors) = scan("\"abc");
    assert_eq!(tags(&tokens), vec![TokenTag::Eof]);
    assert_eq!(errors, vec!["[line: 1] Error:  : Unterminated string.".to_string()]);
}

#[test]
fn number_literals() {
    let (tokens, _) = scan("12.5 7. 3");
    assert!(matches!(tokens[0].token_type(), TokenType::Number(ref s) if s == "12.5"));
    assert!(matches!(tokens[1].token_type(), TokenType::Number(ref s) if s == "7"));
    assert_eq!(tokens[2].token_type().kind_tag(), TokenTag::Dot);
    assert!(matches!(tokens[3].token_type(), TokenType::Number(ref s) if s == "3"));
}

#[test]
fn newlines_advance_the_line() {
    let (tokens, _) = scan("1\n2\n\n3");
    let lines: Vec<usize> = tokens.iter().map(|t| t.line()).collect();
    assert_eq!(lines, vec![1, 2, 4, 4]);
}

#[test]
fn comment_runs_to_end_of_line() {
    let (tokens, _) = scan("1 // 2 3\n4");
    assert_eq!(tags(&tokens), vec![TokenTag::Number, TokenTag::Number, TokenTag::Eof]);
    assert_eq!(tokens[1].lexeme(), "4");
}

#[test]
fn unexpected_characters_are_reported_and_skipped() {
    let (tokens, errors) = scan("1 @ # 2\n$");
    assert_eq!(tags(&tokens), vec![TokenTag::Number, TokenTag::Number, TokenTag::Eof]);
    assert_eq!(
        errors,
        vec![
            "[line: 1] Error:  : Unexpected character".to_string(),
            "[line: 1] Error:  : Unexpected character".to_string(),
            "[line: 2] Error:  : Unexpected character".to_string(),
        ]
    );
}

#[test]
fn kind_equality_ignores_payload() {
    let a = TokenType::Number("1".to_string());
    let b = TokenType::Number("2".to_string());
    assert!(a.same_kind(&b));
    assert!(a == b);
    let s = TokenType::StringLiteral("x".to_string());
    let t = TokenType::StringLiteral("y".to_string());
    assert!(s.same_kind(&t));
    let i = TokenType::Identifier("p".to_string());
    assert!(i.same_kind(&TokenType::Identifier("q".to_string())));
    assert!(!a.same_kind(&s));
    assert!(!s.same_kind(&i));
    assert!(!i.same_kind(&TokenType::And));
    assert!(a != TokenType::Eof);
}

#[test]
fn token_accessors() {
    let t = Token::new(TokenType::Plus, "+".to_string(), 3);
    assert_eq!(t.lexeme(), "+");
    assert_eq!(t.line(), 3);
    assert_eq!(t.token_type().kind_tag(), TokenTag::Plus);
}

#[test]
fn diagnostics_render() {
    let d: Diagnostic = report(12, "at 'x'".to_string(), "Oops");
    assert_eq!(d.render(), "[line: 12] Error: at 'x' : Oops");
    let e = error(0, "Bad");
    assert_eq!(e.render(), "[line: 0] Error:  : Bad");
}

#[test]
fn decimal_numerals() {
    assert_eq!(decimal_string(0), "0");
    assert_eq!(decimal_string(7), "7");
    assert_eq!(decimal_string(10), "10");
    assert_eq!(decimal_string(4096), "4096");
    assert_eq!(decimal_string(usize::MAX), usize::MAX.to_string());
}

#[test]
fn scanning_resumes_token_by_token() {
    let mut scanner = Scanner::new("( 1".to_string());
    scanner.scan_token();
    scanner.scan_token();
    scanner.scan_token();
    let tokens = scanner.scan_tokens();
    assert_eq!(tags(&tokens), vec![TokenTag::LeftParen, TokenTag::Number, TokenTag::Eof]);
}
