use vstd::prelude::*;

use crate::expr::{
    BinaryExpr,
    BooleanLiteral,
    Expr,
    GroupingExpr,
    NilLiteral,
    NumberLiteral,
    StringLiteral,
    UnaryExpr,
};
use crate::diagnostic::Diagnostic;
use crate::report;
use crate::token::{Token, TokenTag, TokenType};
use vstd::string::StringExecFns;

verus! {

/// Why parsing stopped.
#[derive(Clone, Copy, Debug, PartialEq, Eq, Structural)]
pub enum ParseMessage {
    /// No expression can start at the token.
    ExpectExpression,
    /// A parenthesised expression lacks its `)`.
    ExpectRightParen,
}

/// A syntax error: the token at which it was found, and what was expected.
pub struct ParseError {
    pub token: Token,
    pub message: ParseMessage,
}

/// The text of a syntax error's message.
pub open spec fn message_text(m: ParseMessage) -> Seq<char> {
    match m {
        ParseMessage::ExpectExpression => "Expect Expression"@,
        ParseMessage::ExpectRightParen => "Expect ')' after expression"@,
    }
}

/// Where an error at `t` is: `at end` for `Eof`, else `at '<lexeme>'`.
pub open spec fn error_location(t: Token) -> Seq<char> {
    if t.token_type.tag() == TokenTag::Eof {
        "at end"@
    } else {
        "at '"@ + t.lexeme@ + "'"@
    }
}

impl ParseMessage {
    pub fn text(&self) -> (r: &'static str)
        ensures
            r@ == message_text(*self),
    {
        match self {
            ParseMessage::ExpectExpression => "Expect Expression",
            ParseMessage::ExpectRightParen => "Expect ')' after expression",
        }
    }
}

impl ParseError {
    /// The diagnostic that reports this error.
    pub fn diagnostic(&self) -> (d: Diagnostic)
        ensures
            d.line == self.token.line,
            d.location@ == error_location(self.token),
            d.message@ == message_text(self.message),
    {
        Parser::parser_error(&self.token, self.message.text())
    }
}

pub open spec fn tag_at(toks: Seq<Token>, pos: int) -> TokenTag {
    toks[pos].token_type.tag()
}

/// The binary operators of each precedence level, loosest first:
/// equality, comparison, term, factor.
pub open spec fn level_has(level: nat, t: TokenTag) -> bool {
    if level == 0 {
        t == TokenTag::BangEqual || t == TokenTag::EqualEqual
    } else if level == 1 {
        t == TokenTag::Greater || t == TokenTag::GreaterEqual || t == TokenTag::Less || t
            == TokenTag::LessEqual
    } else if level == 2 {
        t == TokenTag::Minus || t == TokenTag::Plus
    } else {
        t == TokenTag::Slash || t == TokenTag::Star
    }
}

pub open spec fn binary_rank(level: nat) -> int {
    if level >= 3 {
        3
    } else {
        9 - 2 * level
    }
}

pub open spec fn binary_node(left: Expr, operator: Token, right: Expr) -> Expr {
    Expr::Binary(BinaryExpr { left: Box::new(left), operator, right: Box::new(right) })
}

pub open spec fn unary_node(operator: Token, right: Expr) -> Expr {
    Expr::Unary(UnaryExpr { operator, right: Box::new(right) })
}

pub open spec fn grouping_node(inner: Expr) -> Expr {
    Expr::Grouping(GroupingExpr { expression: Box::new(inner) })
}

/// The operand of a binary operator of `level`: the next tighter level,
/// or a unary expression below factor.
pub open spec fn parse_operand(toks: Seq<Token>, level: nat, pos: int) -> Result<
    (Expr, int),
    ParseError,
>
    decreases toks.len() - pos, binary_rank(level) - 1,
{
    if level >= 3 {
        parse_unary(toks, pos)
    } else {
        parse_binary(toks, level + 1, pos)
    }
}

/// `level → operand (op operand)*` for the operators of `level`, folded to
/// the left. Yields the tree and the position after it.
pub open spec fn parse_binary(toks: Seq<Token>, level: nat, pos: int) -> Result<
    (Expr, int),
    ParseError,
>
    decreases toks.len() - pos, binary_rank(level),
{
    match parse_operand(toks, level, pos) {
        Ok((left, p)) => if pos <= p <= toks.len() {
            parse_binary_tail(toks, level, left, p)
        } else {
            Ok((left, p))
        },
        Err(e) => Err(e),
    }
}

/// The `(op operand)*` part of a binary level, with `left` parsed so far.
pub open spec fn parse_binary_tail(toks: Seq<Token>, level: nat, left: Expr, pos: int) -> Result<
    (Expr, int),
    ParseError,
>
    decreases toks.len() - pos, binary_rank(level) - 2,
{
    if 0 <= pos < toks.len() && level_has(level, tag_at(toks, pos)) {
        match parse_operand(toks, level, pos + 1) {
            Ok((right, p)) => if pos < p <= toks.len() {
                parse_binary_tail(toks, level, binary_node(left, toks[pos], right), p)
            } else {
                Ok((left, p))
            },
            Err(e) => Err(e),
        }
    } else {
        Ok((left, pos))
    }
}

/// `unary → ("!" | "-") unary | primary`.
pub open spec fn parse_unary(toks: Seq<Token>, pos: int) -> Result<(Expr, int), ParseError>
    decreases toks.len() - pos, 1int,
{
    if 0 <= pos < toks.len() && (tag_at(toks, pos) == TokenTag::Bang || tag_at(toks, pos)
        == TokenTag::Minus) {
        match parse_unary(toks, pos + 1) {
            Ok((right, p)) => Ok((unary_node(toks[pos], right), p)),
            Err(e) => Err(e),
        }
    } else {
        parse_primary(toks, pos)
    }
}

/// `primary → NUMBER | STRING | "true" | "false" | "nil" | "(" expression ")"`.
pub open spec fn parse_primary(toks: Seq<Token>, pos: int) -> Result<(Expr, int), ParseError>
    decreases toks.len() - pos, 0int,
{
    if !(0 <= pos < toks.len()) {
        Err(ParseError { token: toks[pos], message: ParseMessage::ExpectExpression })
    } else {
        let t = toks[pos];
        match t.token_type {
            TokenType::False => Ok((Expr::BooleanLiteral(BooleanLiteral { value: false }), pos + 1)),
            TokenType::True => Ok((Expr::BooleanLiteral(BooleanLiteral { value: true }), pos + 1)),
            TokenType::Nil => Ok((Expr::NilLiteral(NilLiteral {  }), pos + 1)),
            TokenType::Number(v) => Ok((Expr::NumberLiteral(NumberLiteral { value: v }), pos + 1)),
            TokenType::StringLiteral(v) => Ok(
                (Expr::StringLiteral(StringLiteral { value: v }), pos + 1),
            ),
            TokenType::LeftParen => match parse_binary(toks, 0, pos + 1) {
                Ok((inner, p)) => if 0 <= p < toks.len() && tag_at(toks, p) == TokenTag::RightParen {
                    Ok((grouping_node(inner), p + 1))
                } else {
                    Err(ParseError { token: toks[p], message: ParseMessage::ExpectRightParen })
                },
                Err(e) => Err(e),
            },
            _ => Err(ParseError { token: t, message: ParseMessage::ExpectExpression }),
        }
    }
}

/// What parsing `toks` from `pos` yields: the expression, or the first
/// syntax error.
pub open spec fn parse_spec(toks: Seq<Token>, pos: int) -> Result<Expr, ParseError> {
    match parse_binary(toks, 0, pos) {
        Ok((e, _)) => Ok(e),
        Err(e) => Err(e),
    }
}

/// The expression of a single-token literal, if the token is one.
pub open spec fn atom(t: Token) -> Option<Expr> {
    match t.token_type {
        TokenType::False => Some(Expr::BooleanLiteral(BooleanLiteral { value: false })),
        TokenType::True => Some(Expr::BooleanLiteral(BooleanLiteral { value: true })),
        TokenType::Nil => Some(Expr::NilLiteral(NilLiteral {  })),
        TokenType::Number(v) => Some(Expr::NumberLiteral(NumberLiteral { value: v })),
        TokenType::StringLiteral(v) => Some(Expr::StringLiteral(StringLiteral { value: v })),
        _ => None,
    }
}

pub open spec fn is_binary_operator(t: TokenTag) -> bool {
    level_has(0, t) || level_has(1, t) || level_has(2, t) || level_has(3, t)
}

/// `t` is an operator of a level that binds tighter than `level`.
pub open spec fn binds_tighter(level: nat, t: TokenTag) -> bool {
    (level < 1 && level_has(1, t)) || (level < 2 && level_has(2, t)) || (level < 3 && level_has(
        3,
        t,
    ))
}

/// The level of a binary operator.
pub open spec fn level_of(t: TokenTag) -> nat {
    if level_has(0, t) {
        0
    } else if level_has(1, t) {
        1
    } else if level_has(2, t) {
        2
    } else {
        3
    }
}

/// A literal at `pos`, or a unary operator applied to a literal: the tree
/// and the position after it.
pub open spec fn unit_at(toks: Seq<Token>, pos: int) -> Option<(Expr, int)> {
    if 0 <= pos < toks.len() && atom(toks[pos]) is Some {
        Some((atom(toks[pos])->0, pos + 1))
    } else if 0 <= pos && pos + 1 < toks.len() && (tag_at(toks, pos) == TokenTag::Bang || tag_at(
        toks,
        pos,
    ) == TokenTag::Minus) && atom(toks[pos + 1]) is Some {
        Some((unary_node(toks[pos], atom(toks[pos + 1])->0), pos + 2))
    } else {
        None
    }
}

/// The tree of the unit at `pos`.
pub open spec fn unit_expr(toks: Seq<Token>, pos: int) -> Expr {
    let (e, _) = unit_at(toks, pos)->0;
    e
}

/// A unit followed by no operator tighter than `level` is a whole operand
/// of `level`.
pub proof fn lemma_operand_unit(toks: Seq<Token>, level: nat, pos: int)
    requires
        level <= 3,
        unit_at(toks, pos) matches Some((e, q)) && q < toks.len() && !binds_tighter(
            level,
            tag_at(toks, q),
        ),
    ensures
        parse_operand(toks, level, pos) == Ok::<(Expr, int), ParseError>(unit_at(toks, pos)->0),
    decreases 3 - level,
{
    let (e, q) = unit_at(toks, pos)->0;
    if level >= 3 {
        if atom(toks[pos]) is Some {
            assert(parse_primary(toks, pos) == Ok::<(Expr, int), ParseError>((e, q)));
        } else {
            assert(parse_primary(toks, pos + 1) == Ok::<(Expr, int), ParseError>(
                (atom(toks[pos + 1])->0, q),
            ));
            assert(parse_unary(toks, pos + 1) == parse_primary(toks, pos + 1));
        }
    } else {
        lemma_operand_unit(toks, level + 1, pos);
        assert(parse_binary_tail(toks, level + 1, e, q) == Ok::<(Expr, int), ParseError>((e, q)));
    }
}

/// A level that parsed up to a token that is no operator of a looser level
/// gives the same result from every looser level.
pub proof fn lemma_loosen(toks: Seq<Token>, from: nat, to: nat, pos: int)
    requires
        from <= to <= 3,
        parse_binary(toks, to, pos) matches Ok((e, p)) && pos <= p < toks.len() && !(exists|
            k: nat,
        | k < to && #[trigger] level_has(k, tag_at(toks, p))),
    ensures
        parse_binary(toks, from, pos) == parse_binary(toks, to, pos),
    decreases to - from,
{
    if from < to {
        lemma_loosen(toks, from + 1, to, pos);
        let (e, p) = parse_binary(toks, to, pos)->Ok_0;
        assert(!level_has(from, tag_at(toks, p)));
        assert(parse_binary_tail(toks, from, e, p) == Ok::<(Expr, int), ParseError>((e, p)));
    }
}

/// Operators of one level associate to the left: `a op1 b op2 c` parses as
/// `(a op1 b) op2 c`, for every two operators `op1`, `op2` of that level and
/// all literal or negated-literal operands.
pub proof fn lemma_left_associative(toks: Seq<Token>, i: int, j: int, k: int)
    requires
        0 < i,
        unit_at(toks, 0) matches Some((_, q)) && q == i,
        is_binary_operator(tag_at(toks, i)),
        unit_at(toks, i + 1) matches Some((_, q)) && q == j,
        level_of(tag_at(toks, j)) == level_of(tag_at(toks, i)),
        is_binary_operator(tag_at(toks, j)),
        unit_at(toks, j + 1) matches Some((_, q)) && q == k,
        k < toks.len(),
        tag_at(toks, k) == TokenTag::Eof,
    ensures
        parse_spec(toks, 0) == Ok::<Expr, ParseError>(
            binary_node(
                binary_node(unit_expr(toks, 0), toks[i], unit_expr(toks, i + 1)),
                toks[j],
                unit_expr(toks, j + 1),
            ),
        ),
{
    let level = level_of(tag_at(toks, i));
    let a = unit_expr(toks, 0);
    let b = unit_expr(toks, i + 1);
    let c = unit_expr(toks, j + 1);
    lemma_operand_unit(toks, level, 0);
    lemma_operand_unit(toks, level, i + 1);
    lemma_operand_unit(toks, level, j + 1);
    let ab = binary_node(a, toks[i], b);
    let abc = binary_node(ab, toks[j], c);
    assert(parse_binary_tail(toks, level, abc, k) == Ok::<(Expr, int), ParseError>((abc, k)));
    assert(parse_binary_tail(toks, level, ab, j) == Ok::<(Expr, int), ParseError>((abc, k)));
    assert(parse_binary_tail(toks, level, a, i) == Ok::<(Expr, int), ParseError>((abc, k)));
    assert(parse_binary(toks, level, 0) == Ok::<(Expr, int), ParseError>((abc, k)));
    lemma_loosen(toks, 0, level, 0);
}

/// A prefix operator binds tighter than every binary operator: with `u` one
/// of `!`, `-`, the tokens `u a op b` parse as `(u a) op b` (so `!a == b` is
/// `(!a) == b` and `-a * b` is `(-a) * b`).
pub proof fn lemma_unary_binds_tightest(toks: Seq<Token>, k: int)
    requires
        tag_at(toks, 0) == TokenTag::Bang || tag_at(toks, 0) == TokenTag::Minus,
        atom(toks[1]) is Some,
        is_binary_operator(tag_at(toks, 2)),
        unit_at(toks, 3) matches Some((_, q)) && q == k,
        k < toks.len(),
        tag_at(toks, k) == TokenTag::Eof,
    ensures
        parse_spec(toks, 0) == Ok::<Expr, ParseError>(
            binary_node(unary_node(toks[0], atom(toks[1])->0), toks[2], unit_expr(toks, 3)),
        ),
{
    let level = level_of(tag_at(toks, 2));
    let a = unary_node(toks[0], atom(toks[1])->0);
    let b = unit_expr(toks, 3);
    assert(unit_at(toks, 0) == Some((a, 2int)));
    lemma_operand_unit(toks, level, 0);
    lemma_operand_unit(toks, level, 3);
    let ab = binary_node(a, toks[2], b);
    assert(parse_binary_tail(toks, level, ab, k) == Ok::<(Expr, int), ParseError>((ab, k)));
    assert(parse_binary_tail(toks, level, a, 2) == Ok::<(Expr, int), ParseError>((ab, k)));
    assert(parse_binary(toks, level, 0) == Ok::<(Expr, int), ParseError>((ab, k)));
    lemma_loosen(toks, 0, level, 0);
}

/// An operator of a tighter level takes its operands first: `a op1 b op2 c`
/// with `op2` tighter than `op1` parses as `a op1 (b op2 c)` (so `a + b * c`
/// is `a + (b * c)`).
pub proof fn lemma_tighter_operator_first(toks: Seq<Token>, i: int, j: int, k: int)
    requires
        0 < i,
        unit_at(toks, 0) matches Some((_, q)) && q == i,
        is_binary_operator(tag_at(toks, i)),
        unit_at(toks, i + 1) matches Some((_, q)) && q == j,
        is_binary_operator(tag_at(toks, j)),
        level_of(tag_at(toks, i)) < level_of(tag_at(toks, j)),
        unit_at(toks, j + 1) matches Some((_, q)) && q == k,
        k < toks.len(),
        tag_at(toks, k) == TokenTag::Eof,
    ensures
        parse_spec(toks, 0) == Ok::<Expr, ParseError>(
            binary_node(
                unit_expr(toks, 0),
                toks[i],
                binary_node(unit_expr(toks, i + 1), toks[j], unit_expr(toks, j + 1)),
            ),
        ),
{
    let outer = level_of(tag_at(toks, i));
    let inner = level_of(tag_at(toks, j));
    let a = unit_expr(toks, 0);
    let b = unit_expr(toks, i + 1);
    let c = unit_expr(toks, j + 1);
    lemma_operand_unit(toks, inner, i + 1);
    lemma_operand_unit(toks, inner, j + 1);
    let bc = binary_node(b, toks[j], c);
    assert(parse_binary_tail(toks, inner, bc, k) == Ok::<(Expr, int), ParseError>((bc, k)));
    assert(parse_binary_tail(toks, inner, b, j) == Ok::<(Expr, int), ParseError>((bc, k)));
    assert(parse_binary(toks, inner, i + 1) == Ok::<(Expr, int), ParseError>((bc, k)));
    lemma_loosen(toks, outer + 1, inner, i + 1);
    assert(parse_operand(toks, outer, i + 1) == Ok::<(Expr, int), ParseError>((bc, k)));
    lemma_operand_unit(toks, outer, 0);
    let abc = binary_node(a, toks[i], bc);
    assert(parse_binary_tail(toks, outer, abc, k) == Ok::<(Expr, int), ParseError>((abc, k)));
    assert(parse_binary_tail(toks, outer, a, i) == Ok::<(Expr, int), ParseError>((abc, k)));
    assert(parse_binary(toks, outer, 0) == Ok::<(Expr, int), ParseError>((abc, k)));
    lemma_loosen(toks, 0, outer, 0);
}

/// A recursive-descent parser over a token list that ends in `Eof`.
pub struct Parser {
    tokens: Vec<Token>,
    current: usize,
}

impl Parser {
    /// The tokens being parsed.
    pub closed spec fn toks(&self) -> Seq<Token> {
        self.tokens@
    }

    /// The index of the next token.
    pub closed spec fn position(&self) -> int {
        self.current as int
    }

    pub closed spec fn wf(&self) -> bool {
        &&& self.tokens@.len() > 0
        &&& self.tokens@.last().token_type.tag() == TokenTag::Eof
        &&& self.current < self.tokens@.len()
    }

    /// The diagnostic for an error found at `token`.
    pub fn parser_error(token: &Token, message: &str) -> (d: Diagnostic)
        ensures
            d.line == token.line,
            d.location@ == error_location(*token),
            d.message@ == message@,
    {
        if token.token_type.kind_tag() == TokenTag::Eof {
            report(token.line, String::from_str("at end"), message)
        } else {
            let mut location = String::from_str("at '");
            location.append(token.lexeme.as_str());
            location.append("'");
            report(token.line, location, message)
        }
    }

    pub fn new(tokens: Vec<Token>) -> (r: Parser)
        requires
            tokens@.len() > 0,
            tokens@.last().token_type.tag() == TokenTag::Eof,
        ensures
            r.wf(),
            r.toks() == tokens@,
            r.position() == 0,
    {
        Parser { tokens, current: 0 }
    }

    /// Parses one expression from the current position.
    pub fn parse(&mut self) -> (r: Result<Expr, ParseError>)
        requires
            old(self).wf(),
        ensures
            final(self).wf(),
            final(self).toks() == old(self).toks(),
            r == parse_spec(old(self).toks(), old(self).position()),
    {
        self.expression()
    }

    fn expression(&mut self) -> (r: Result<Expr, ParseError>)
        requires
            old(self).wf(),
        ensures
            final(self).wf(),
            final(self).tokens == old(self).tokens,
            final(self).current >= old(self).current,
            match parse_binary(old(self).tokens@, 0, old(self).current as int) {
                Ok((e, p)) => r == Ok::<Expr, ParseError>(e) && final(self).current == p,
                Err(err) => r == Err::<Expr, ParseError>(err),
            },
        decreases old(self).tokens@.len() - old(self).current, 10int,
    {
        self.binary(0)
    }

    /// One binary precedence level (0 equality, 1 comparison, 2 term,
    /// 3 factor), folded to the left.
    fn binary(&mut self, level: u8) -> (r: Result<Expr, ParseError>)
        requires
            old(self).wf(),
            level <= 3,
        ensures
            final(self).wf(),
            final(self).tokens == old(self).tokens,
            final(self).current >= old(self).current,
            match parse_binary(old(self).tokens@, level as nat, old(self).current as int) {
                Ok((e, p)) => r == Ok::<Expr, ParseError>(e) && final(self).current == p,
                Err(err) => r == Err::<Expr, ParseError>(err),
            },
        decreases old(self).tokens@.len() - old(self).current, binary_rank(level as nat),
    {
        let ghost toks = self.tokens@;
        let ghost pos0 = self.current as int;
        let left = if level >= 3 {
            self.unary()
        } else {
            self.binary(level + 1)
        };
        let mut expr = match left {
            Ok(e) => e,
            Err(err) => return Err(err),
        };
        loop
            invariant_except_break
                self.wf(),
                self.tokens@ == toks,
                self.tokens == old(self).tokens,
                old(self).tokens@ == toks,
                old(self).current == pos0,
                pos0 <= self.current,
                level <= 3,
                parse_binary(toks, level as nat, pos0) == parse_binary_tail(
                    toks,
                    level as nat,
                    expr,
                    self.current as int,
                ),
            ensures
                self.wf(),
                self.tokens@ == toks,
                self.tokens == old(self).tokens,
                pos0 <= self.current,
                parse_binary(toks, level as nat, pos0) == Ok::<(Expr, int), ParseError>(
                    (expr, self.current as int),
                ),
            decreases toks.len() - self.current,
        {
            let ghost cur = self.current as int;
            if !self.match_level(level) {
                break;
            }
            let operator = self.previous().clone();
            let right = if level >= 3 {
                self.unary()
            } else {
                self.binary(level + 1)
            };
            match right {
                Ok(e) => {
                    let ghost left = expr;
                    expr = Expr::Binary(BinaryExpr::new(expr, operator, e));
                    proof {
                        assert(parse_operand(toks, level as nat, cur + 1) == Ok::<
                            (Expr, int),
                            ParseError,
                        >((e, self.current as int)));
                        assert(expr == binary_node(left, toks[cur], e));
                    }
                },
                Err(err) => {
                    proof {
                        assert(parse_operand(toks, level as nat, cur + 1) is Err);
                    }
                    return Err(err);
                },
            }
        }
        Ok(expr)
    }

    fn unary(&mut self) -> (r: Result<Expr, ParseError>)
        requires
            old(self).wf(),
        ensures
            final(self).wf(),
            final(self).tokens == old(self).tokens,
            final(self).current >= old(self).current,
            match parse_unary(old(self).tokens@, old(self).current as int) {
                Ok((e, p)) => r == Ok::<Expr, ParseError>(e) && final(self).current == p,
                Err(err) => r == Err::<Expr, ParseError>(err),
            },
        decreases old(self).tokens@.len() - old(self).current, 1int,
    {
        if self.match_token(&[TokenType::Bang, TokenType::Minus]) {
            let operator = self.previous().clone();
            let right = self.unary();
            return match right {
                Ok(e) => Ok(Expr::Unary(UnaryExpr { operator, right: Box::new(e) })),
                Err(err) => Err(err),
            };
        }
        self.primary()
    }

    fn primary(&mut self) -> (r: Result<Expr, ParseError>)
        requires
            old(self).wf(),
        ensures
            final(self).wf(),
            final(self).tokens == old(self).tokens,
            final(self).current >= old(self).current,
            match parse_primary(old(self).tokens@, old(self).current as int) {
                Ok((e, p)) => r == Ok::<Expr, ParseError>(e) && final(self).current == p,
                Err(err) => r == Err::<Expr, ParseError>(err),
            },
        decreases old(self).tokens@.len() - old(self).current, 0int,
    {
        if self.match_token(&[TokenType::False]) {
            return Ok(Expr::BooleanLiteral(BooleanLiteral { value: false }));
        }
        if self.match_token(&[TokenType::True]) {
            return Ok(Expr::BooleanLiteral(BooleanLiteral { value: true }));
        }
        if self.match_token(&[TokenType::Nil]) {
            return Ok(Expr::NilLiteral(NilLiteral {  }));
        }
        if self.match_token(&[TokenType::Number(String::new())]) {
            if let TokenType::Number(value) = self.previous().token_type() {
                return Ok(Expr::NumberLiteral(NumberLiteral { value }));
            }
        }
        if self.match_token(&[TokenType::StringLiteral(String::new())]) {
            if let TokenType::StringLiteral(value) = self.previous().token_type() {
                return Ok(Expr::StringLiteral(StringLiteral { value }));
            }
        }
        if self.match_token(&[TokenType::LeftParen]) {
            let inner = match self.expression() {
                Ok(e) => e,
                Err(err) => return Err(err),
            };
            if !self.check(&TokenType::RightParen) {
                return Err(
                    ParseError { token: self.peek().clone(), message: ParseMessage::ExpectRightParen },
                );
            }
            self.advance();
            return Ok(Expr::Grouping(GroupingExpr::new(inner)));
        }
        Err(ParseError { token: self.peek().clone(), message: ParseMessage::ExpectExpression })
    }

    /// Advances past the next token if it is an operator of `level`.
    fn match_level(&mut self, level: u8) -> (r: bool)
        requires
            old(self).wf(),
        ensures
            final(self).wf(),
            final(self).tokens == old(self).tokens,
            r == level_has(level as nat, tag_at(old(self).tokens@, old(self).current as int)),
            final(self).current == old(self).current + if r {
                1int
            } else {
                0int
            },
    {
        if level == 0 {
            self.match_token(&[TokenType::BangEqual, TokenType::EqualEqual])
        } else if level == 1 {
            self.match_token(
                &[
                    TokenType::Greater,
                    TokenType::GreaterEqual,
                    TokenType::Less,
                    TokenType::LessEqual,
                ],
            )
        } else if level == 2 {
            self.match_token(&[TokenType::Minus, TokenType::Plus])
        } else {
            self.match_token(&[TokenType::Slash, TokenType::Star])
        }
    }

    /// Advances past the next token if its kind is one of `kinds`.
    fn match_token(&mut self, kinds: &[TokenType]) -> (r: bool)
        requires
            old(self).wf(),
        ensures
            final(self).wf(),
            final(self).tokens == old(self).tokens,
            r == (tag_at(old(self).tokens@, old(self).current as int) != TokenTag::Eof && exists|
                i: int,
            | 0 <= i < kinds@.len() && kinds@[i].tag() == tag_at(
                old(self).tokens@,
                old(self).current as int,
            )),
            final(self).current == old(self).current + if r {
                1int
            } else {
                0int
            },
    {
        let mut i: usize = 0;
        while i < kinds.len()
            invariant
                self.wf(),
                self.tokens == old(self).tokens,
                self.current == old(self).current,
                i <= kinds@.len(),
                forall|k: int| 0 <= k < i ==> !self.check_spec(&kinds@[k]),
            decreases kinds@.len() - i,
        {
            if self.check(&kinds[i]) {
                self.advance();
                return true;
            }
            i = i + 1;
        }
        false
    }

    spec fn check_spec(&self, kind: &TokenType) -> bool {
        tag_at(self.tokens@, self.current as int) != TokenTag::Eof && kind.tag() == tag_at(
            self.tokens@,
            self.current as int,
        )
    }

    /// Whether the next token has the kind of `kind` (never at `Eof`).
    fn check(&self, kind: &TokenType) -> (r: bool)
        requires
            self.wf(),
        ensures
            r == self.check_spec(kind),
    {
        if self.is_at_end() {
            return false;
        }
        self.peek().token_type.same_kind(kind)
    }

    fn advance(&mut self)
        requires
            old(self).wf(),
        ensures
            final(self).wf(),
            final(self).tokens == old(self).tokens,
            final(self).current == old(self).current + if tag_at(
                old(self).tokens@,
                old(self).current as int,
            ) == TokenTag::Eof {
                0int
            } else {
                1int
            },
    {
        let n = self.tokens.len();
        if !self.is_at_end() {
            assert(self.current + 1 < n);
            self.current = self.current + 1;
        }
    }

    fn is_at_end(&self) -> (r: bool)
        requires
            self.wf(),
        ensures
            r == (tag_at(self.tokens@, self.current as int) == TokenTag::Eof),
    {
        self.peek().token_type.kind_tag() == TokenTag::Eof
    }

    fn peek(&self) -> (r: &Token)
        requires
            self.wf(),
        ensures
            *r == self.tokens@[self.current as int],
    {
        &self.tokens[self.current]
    }

    fn previous(&self) -> (r: &Token)
        requires
            self.wf(),
            self.current > 0,
        ensures
            *r == self.tokens@[self.current - 1],
    {
        &self.tokens[self.current - 1]
    }
}

} // verus!
