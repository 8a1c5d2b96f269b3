use vstd::prelude::*;
use vstd::string::StrSliceExecFns;
use vstd::string::StringExecFns;

use crate::diagnostic::Diagnostic;
use crate::error;
use crate::token::{Token, TokenTag, TokenType};

verus! {

pub open spec fn is_digit(c: char) -> bool {
    '0' <= c && c <= '9'
}

pub open spec fn is_alpha(c: char) -> bool {
    ('a' <= c && c <= 'z') || ('A' <= c && c <= 'Z')
}

pub open spec fn is_alphanumeric(c: char) -> bool {
    is_alpha(c) || is_digit(c)
}

/// The classes of characters that the scanner runs over.
pub enum CharClass {
    Digit,
    Alphanumeric,
    NotNewline,
    NotQuote,
}

pub open spec fn in_class(p: CharClass, c: char) -> bool {
    match p {
        CharClass::Digit => is_digit(c),
        CharClass::Alphanumeric => is_alphanumeric(c),
        CharClass::NotNewline => c != '\n',
        CharClass::NotQuote => c != '"',
    }
}

/// The first index from `i` on whose character is not in `p`, or the end of `src`.
pub open spec fn skip_while(src: Seq<char>, i: int, p: CharClass) -> int
    decreases src.len() - i,
{
    if 0 <= i < src.len() && in_class(p, src[i]) {
        skip_while(src, i + 1, p)
    } else {
        i
    }
}

pub open spec fn digits_end(src: Seq<char>, i: int) -> int {
    skip_while(src, i, CharClass::Digit)
}

pub open spec fn word_end(src: Seq<char>, i: int) -> int {
    skip_while(src, i, CharClass::Alphanumeric)
}

pub open spec fn comment_end(src: Seq<char>, i: int) -> int {
    skip_while(src, i, CharClass::NotNewline)
}

pub open spec fn quote_end(src: Seq<char>, i: int) -> int {
    skip_while(src, i, CharClass::NotQuote)
}

/// The end of the number literal whose first digit is at `start`: its
/// digits, then a `.` and more digits only if a digit follows the `.`.
pub open spec fn number_end(src: Seq<char>, start: int) -> int {
    let j = digits_end(src, start + 1);
    if j + 1 < src.len() && src[j] == '.' && is_digit(src[j + 1]) {
        digits_end(src, j + 2)
    } else {
        j
    }
}

/// The number of newlines among `src[i..j]`.
pub open spec fn newlines(src: Seq<char>, i: int, j: int) -> nat
    decreases j - i,
{
    if i < j {
        newlines(src, i, j - 1) + if src[j - 1] == '\n' {
            1nat
        } else {
            0nat
        }
    } else {
        0
    }
}

/// The keyword spelled by `text`, or `Identifier` when it is none.
pub open spec fn keyword_tag(text: Seq<char>) -> TokenTag {
    if text == "and"@ {
        TokenTag::And
    } else if text == "class"@ {
        TokenTag::Class
    } else if text == "else"@ {
        TokenTag::Else
    } else if text == "false"@ {
        TokenTag::False
    } else if text == "for"@ {
        TokenTag::For
    } else if text == "fun"@ {
        TokenTag::Fun
    } else if text == "if"@ {
        TokenTag::If
    } else if text == "nil"@ {
        TokenTag::Nil
    } else if text == "or"@ {
        TokenTag::Or
    } else if text == "print"@ {
        TokenTag::Print
    } else if text == "return"@ {
        TokenTag::Return
    } else if text == "super"@ {
        TokenTag::Super
    } else if text == "this"@ {
        TokenTag::This
    } else if text == "true"@ {
        TokenTag::True
    } else if text == "var"@ {
        TokenTag::Var
    } else if text == "while"@ {
        TokenTag::While
    } else {
        TokenTag::Identifier
    }
}

/// The kind of a token made of the single character `c`, if there is one.
pub open spec fn single_char_tag(c: char) -> Option<TokenTag> {
    if c == '(' {
        Some(TokenTag::LeftParen)
    } else if c == ')' {
        Some(TokenTag::RightParen)
    } else if c == '{' {
        Some(TokenTag::LeftBrace)
    } else if c == '}' {
        Some(TokenTag::RightBrace)
    } else if c == ',' {
        Some(TokenTag::Comma)
    } else if c == '.' {
        Some(TokenTag::Dot)
    } else if c == '-' {
        Some(TokenTag::Minus)
    } else if c == '+' {
        Some(TokenTag::Plus)
    } else if c == ';' {
        Some(TokenTag::Semicolon)
    } else if c == '*' {
        Some(TokenTag::Star)
    } else {
        None
    }
}

/// For `!`, `=`, `<` and `>`: the one-character kind and the kind it forms
/// when followed by `=`.
pub open spec fn operator_tags(c: char) -> Option<(TokenTag, TokenTag)> {
    if c == '!' {
        Some((TokenTag::Bang, TokenTag::BangEqual))
    } else if c == '=' {
        Some((TokenTag::Equal, TokenTag::EqualEqual))
    } else if c == '<' {
        Some((TokenTag::Less, TokenTag::LessEqual))
    } else if c == '>' {
        Some((TokenTag::Greater, TokenTag::GreaterEqual))
    } else {
        None
    }
}

/// A token as the scanner finds it: its kind, the span `[start, end)` of
/// the source that is its lexeme, and its line.
pub struct TokenSpan {
    pub tag: TokenTag,
    pub start: nat,
    pub end: nat,
    pub line: nat,
}

/// What scanning one lexeme yields: at most one token, at most one error
/// message (reported at the new line), where scanning goes on, and the line
/// there.
pub struct ScanStep {
    pub token: Option<TokenSpan>,
    pub error: Option<Seq<char>>,
    pub next: nat,
    pub line: nat,
}

pub open spec fn emit(tag: TokenTag, start: nat, end: int, line: nat) -> ScanStep {
    ScanStep {
        token: Some(TokenSpan { tag, start, end: end as nat, line }),
        error: None,
        next: end as nat,
        line,
    }
}

pub open spec fn skip(next: int, line: nat) -> ScanStep {
    ScanStep { token: None, error: None, next: next as nat, line }
}

pub open spec fn fail(message: Seq<char>, next: int, line: nat) -> ScanStep {
    ScanStep { token: None, error: Some(message), next: next as nat, line }
}

/// Scans the lexeme that starts at `start`, on line `line`.
pub open spec fn scan_one(src: Seq<char>, start: nat, line: nat) -> ScanStep {
    let c = src[start as int];
    let n: int = start as int + 1;
    let next_is = |d: char| n < src.len() && src[n] == d;
    if single_char_tag(c) is Some {
        emit(single_char_tag(c)->0, start, n, line)
    } else if operator_tags(c) is Some {
        let (alone, with_equal) = operator_tags(c)->0;
        if next_is('=') {
            emit(with_equal, start, n + 1, line)
        } else {
            emit(alone, start, n, line)
        }
    } else if c == '/' {
        if next_is('/') {
            skip(comment_end(src, n + 1), line)
        } else {
            emit(TokenTag::Slash, start, n, line)
        }
    } else if c == '"' {
        let close = quote_end(src, n);
        let l = line + newlines(src, n, close);
        if close < src.len() {
            emit(TokenTag::StringLiteral, start, close + 1, l)
        } else {
            fail("Unterminated string."@, close, l)
        }
    } else if is_digit(c) {
        emit(TokenTag::Number, start, number_end(src, start as int), line)
    } else if is_alpha(c) {
        let e = word_end(src, n);
        emit(keyword_tag(src.subrange(start as int, e)), start, e, line)
    } else if c == ' ' || c == '\r' || c == '\t' {
        skip(n, line)
    } else if c == '\n' {
        skip(n, line + 1)
    } else {
        fail("Unexpected character"@, n, line)
    }
}

pub proof fn lemma_skip_while(src: Seq<char>, i: int, p: CharClass)
    requires
        0 <= i <= src.len(),
    ensures
        i <= skip_while(src, i, p) <= src.len(),
        skip_while(src, i, p) < src.len() ==> !in_class(p, src[skip_while(src, i, p)]),
        forall|k: int| i <= k < skip_while(src, i, p) ==> in_class(p, src[k]),
    decreases src.len() - i,
{
    if 0 <= i < src.len() && in_class(p, src[i]) {
        lemma_skip_while(src, i + 1, p);
    }
}

/// One step of `skip_while` over a character that satisfies `p`.
pub proof fn lemma_skip_step(src: Seq<char>, i: int, p: CharClass)
    requires
        0 <= i < src.len(),
        in_class(p, src[i]),
    ensures
        skip_while(src, i, p) == skip_while(src, i + 1, p),
{
}

/// `skip_while` stops at once on a character that fails `p`, and at the end.
pub proof fn lemma_skip_stop(src: Seq<char>, i: int, p: CharClass)
    requires
        0 <= i <= src.len(),
        i < src.len() ==> !in_class(p, src[i]),
    ensures
        skip_while(src, i, p) == i,
{
}

pub proof fn lemma_newlines_bound(src: Seq<char>, i: int, j: int)
    requires
        i <= j,
    ensures
        newlines(src, i, j) <= j - i,
    decreases j - i,
{
    if i < j {
        lemma_newlines_bound(src, i, j - 1);
    }
}

/// Each step of the scanner moves forward, stays within the source, and
/// raises the line by no more than the characters it consumed.
pub proof fn lemma_scan_one(src: Seq<char>, start: nat, line: nat)
    requires
        start < src.len(),
    ensures
        start < scan_one(src, start, line).next <= src.len(),
        line <= scan_one(src, start, line).line <= line + (scan_one(src, start, line).next
            - start),
        scan_one(src, start, line).token matches Some(t) ==> {
            &&& t.start == start
            &&& t.end == scan_one(src, start, line).next
            &&& t.line == scan_one(src, start, line).line
            &&& t.tag != TokenTag::Eof
            &&& (t.tag == TokenTag::StringLiteral ==> t.start + 2 <= t.end)
        },
{
    let n = (start + 1) as int;
    lemma_skip_while(src, n, CharClass::Digit);
    let j = digits_end(src, n);
    if j + 1 < src.len() && src[j] == '.' && is_digit(src[j + 1]) {
        lemma_skip_while(src, j + 2, CharClass::Digit);
    }
    lemma_skip_while(src, n, CharClass::Alphanumeric);
    lemma_skip_while(src, n, CharClass::NotQuote);
    lemma_newlines_bound(src, n, quote_end(src, n));
    if n + 1 <= src.len() {
        lemma_skip_while(src, n + 1, CharClass::NotNewline);
    }
}

/// The token of one step, as a sequence of zero or one.
pub open spec fn step_tokens(s: ScanStep) -> Seq<TokenSpan> {
    match s.token {
        Some(t) => seq![t],
        None => Seq::empty(),
    }
}

/// The error of one step with its line, as a sequence of zero or one.
pub open spec fn step_errors(s: ScanStep) -> Seq<(nat, Seq<char>)> {
    match s.error {
        Some(m) => seq![(s.line, m)],
        None => Seq::empty(),
    }
}

/// The tokens scanned from `pos` on, starting on line `line`.
pub open spec fn tokens_from(src: Seq<char>, pos: nat, line: nat) -> Seq<TokenSpan>
    decreases src.len() - pos,
{
    if pos < src.len() {
        let s = scan_one(src, pos, line);
        proof {
            lemma_scan_one(src, pos, line);
        }
        step_tokens(s) + tokens_from(src, s.next, s.line)
    } else {
        Seq::empty()
    }
}

/// The errors found from `pos` on, each with its line.
pub open spec fn errors_from(src: Seq<char>, pos: nat, line: nat) -> Seq<(nat, Seq<char>)>
    decreases src.len() - pos,
{
    if pos < src.len() {
        let s = scan_one(src, pos, line);
        proof {
            lemma_scan_one(src, pos, line);
        }
        step_errors(s) + errors_from(src, s.next, s.line)
    } else {
        Seq::empty()
    }
}

/// The line on which scanning from `pos` ends.
pub open spec fn end_line(src: Seq<char>, pos: nat, line: nat) -> nat
    decreases src.len() - pos,
{
    if pos < src.len() {
        let s = scan_one(src, pos, line);
        proof {
            lemma_scan_one(src, pos, line);
        }
        end_line(src, s.next, s.line)
    } else {
        line
    }
}

/// The whole token stream of `src`: what scanning finds from its start on
/// line 1, then `Eof` on the last line.
pub open spec fn scanned(src: Seq<char>) -> Seq<TokenSpan> {
    rest_scanned(src, 0, 1)
}

/// The errors found in the whole of `src`.
pub open spec fn scan_errors(src: Seq<char>) -> Seq<(nat, Seq<char>)> {
    errors_from(src, 0, 1)
}

/// The `Eof` token at the end of `src`, on line `line`.
pub open spec fn eof_span(src: Seq<char>, line: nat) -> TokenSpan {
    TokenSpan { tag: TokenTag::Eof, start: src.len(), end: src.len(), line }
}

/// What scanning from `pos` on line `line` yields: the tokens found, then `Eof`.
pub open spec fn rest_scanned(src: Seq<char>, pos: nat, line: nat) -> Seq<TokenSpan> {
    tokens_from(src, pos, line).push(eof_span(src, end_line(src, pos, line)))
}

/// The payload that a token of this span carries.
pub open spec fn span_payload(src: Seq<char>, s: TokenSpan) -> Seq<char> {
    if s.tag == TokenTag::Identifier || s.tag == TokenTag::Number {
        src.subrange(s.start as int, s.end as int)
    } else if s.tag == TokenTag::StringLiteral {
        src.subrange(s.start as int + 1, s.end as int - 1)
    } else {
        Seq::empty()
    }
}

/// `t` is the token of span `s` of `src`.
pub open spec fn token_at(src: Seq<char>, t: Token, s: TokenSpan) -> bool {
    &&& t.token_type.tag() == s.tag
    &&& t.token_type.payload() == span_payload(src, s)
    &&& t.lexeme@ == src.subrange(s.start as int, s.end as int)
    &&& t.line == s.line
}

pub open spec fn tokens_at(src: Seq<char>, ts: Seq<Token>, ss: Seq<TokenSpan>) -> bool {
    &&& ts.len() == ss.len()
    &&& forall|i: int| 0 <= i < ts.len() ==> token_at(src, #[trigger] ts[i], ss[i])
}

pub open spec fn errors_at(ds: Seq<Diagnostic>, es: Seq<(nat, Seq<char>)>) -> bool {
    &&& ds.len() == es.len()
    &&& forall|i: int|
        0 <= i < ds.len() ==> {
            &&& (#[trigger] ds[i]).line == es[i].0
            &&& ds[i].location@ == Seq::<char>::empty()
            &&& ds[i].message@ == es[i].1
        }
}

fn is_digit_char(c: char) -> (r: bool)
    ensures
        r == is_digit(c),
{
    '0' <= c && c <= '9'
}

fn is_alpha_char(c: char) -> (r: bool)
    ensures
        r == is_alpha(c),
{
    ('a' <= c && c <= 'z') || ('A' <= c && c <= 'Z')
}

fn is_alphanumeric_char(c: char) -> (r: bool)
    ensures
        r == is_alphanumeric(c),
{
    is_alpha_char(c) || is_digit_char(c)
}

/// Whether two texts are the same.
fn text_is(text: &str, word: &str) -> (r: bool)
    ensures
        r == (text@ == word@),
{
    let n = text.unicode_len();
    let m = word.unicode_len();
    if n != m {
        return false;
    }
    let mut i: usize = 0;
    while i < n
        invariant
            n == text@.len(),
            m == word@.len(),
            n == m,
            i <= n,
            forall|k: int| 0 <= k < i ==> text@[k] == word@[k],
        decreases n - i,
    {
        if text.get_char(i) != word.get_char(i) {
            return false;
        }
        i = i + 1;
    }
    assert(text@ =~= word@);
    true
}

/// The keyword spelled by `text`, or an identifier with `text` as its name.
fn keyword_type(text: String) -> (t: TokenType)
    ensures
        t.tag() == keyword_tag(text@),
        t.payload() == if t.tag() == TokenTag::Identifier {
            text@
        } else {
            Seq::<char>::empty()
        },
{
    let w = text.as_str();
    if text_is(w, "and") {
        TokenType::And
    } else if text_is(w, "class") {
        TokenType::Class
    } else if text_is(w, "else") {
        TokenType::Else
    } else if text_is(w, "false") {
        TokenType::False
    } else if text_is(w, "for") {
        TokenType::For
    } else if text_is(w, "fun") {
        TokenType::Fun
    } else if text_is(w, "if") {
        TokenType::If
    } else if text_is(w, "nil") {
        TokenType::Nil
    } else if text_is(w, "or") {
        TokenType::Or
    } else if text_is(w, "print") {
        TokenType::Print
    } else if text_is(w, "return") {
        TokenType::Return
    } else if text_is(w, "super") {
        TokenType::Super
    } else if text_is(w, "this") {
        TokenType::This
    } else if text_is(w, "true") {
        TokenType::True
    } else if text_is(w, "var") {
        TokenType::Var
    } else if text_is(w, "while") {
        TokenType::While
    } else {
        TokenType::Identifier(text)
    }
}

pub proof fn lemma_tokens_at_concat(
    src: Seq<char>,
    a: Seq<Token>,
    sa: Seq<TokenSpan>,
    b: Seq<Token>,
    sb: Seq<TokenSpan>,
)
    requires
        tokens_at(src, a, sa),
        tokens_at(src, b, sb),
    ensures
        tokens_at(src, a + b, sa + sb),
{
    assert forall|i: int| 0 <= i < (a + b).len() implies token_at(
        src,
        #[trigger] (a + b)[i],
        (sa + sb)[i],
    ) by {
        if i < a.len() {
            assert(token_at(src, a[i], sa[i]));
        } else {
            assert(token_at(src, b[i - a.len()], sb[i - a.len()]));
        }
    }
}

pub proof fn lemma_errors_at_concat(
    a: Seq<Diagnostic>,
    ea: Seq<(nat, Seq<char>)>,
    b: Seq<Diagnostic>,
    eb: Seq<(nat, Seq<char>)>,
)
    requires
        errors_at(a, ea),
        errors_at(b, eb),
    ensures
        errors_at(a + b, ea + eb),
{
    assert forall|i: int| 0 <= i < (a + b).len() implies {
        &&& (#[trigger] (a + b)[i]).line == (ea + eb)[i].0
        &&& (a + b)[i].location@ == Seq::<char>::empty()
        &&& (a + b)[i].message@ == (ea + eb)[i].1
    } by {
        if i < a.len() {
            assert(a[i] == (a + b)[i]);
        } else {
            assert(b[i - a.len()] == (a + b)[i]);
        }
    }
}

/// Every token found from `pos` on lies within `[pos, src.len()]` and is no `Eof`.
pub proof fn lemma_tokens_from_spans(src: Seq<char>, pos: nat, line: nat)
    requires
        pos <= src.len(),
    ensures
        forall|i: int|
            0 <= i < tokens_from(src, pos, line).len() ==> {
                &&& pos <= (#[trigger] tokens_from(src, pos, line)[i]).start
                &&& tokens_from(src, pos, line)[i].start <= tokens_from(src, pos, line)[i].end
                &&& tokens_from(src, pos, line)[i].end <= src.len()
                &&& tokens_from(src, pos, line)[i].tag != TokenTag::Eof
            },
    decreases src.len() - pos,
{
    if pos < src.len() {
        let s = scan_one(src, pos, line);
        lemma_scan_one(src, pos, line);
        lemma_tokens_from_spans(src, s.next, s.line);
        let rest = tokens_from(src, s.next, s.line);
        assert forall|i: int| 0 <= i < tokens_from(src, pos, line).len() implies {
            &&& pos <= (#[trigger] tokens_from(src, pos, line)[i]).start
            &&& tokens_from(src, pos, line)[i].start <= tokens_from(src, pos, line)[i].end
            &&& tokens_from(src, pos, line)[i].end <= src.len()
            &&& tokens_from(src, pos, line)[i].tag != TokenTag::Eof
        } by {
            if i >= step_tokens(s).len() {
                assert(tokens_from(src, pos, line)[i] == rest[i - step_tokens(s).len()]);
            }
        }
    }
}

/// Scanning is total: for every source the token stream ends in exactly one
/// `Eof`, and the lexeme of every token is a contiguous slice of the source.
pub proof fn lemma_scan_total(src: Seq<char>)
    ensures
        scanned(src).len() >= 1,
        scanned(src).last().tag == TokenTag::Eof,
        forall|i: int| 0 <= i < scanned(src).len() - 1 ==> (#[trigger] scanned(src)[i]).tag
            != TokenTag::Eof,
        forall|i: int|
            0 <= i < scanned(src).len() ==> (#[trigger] scanned(src)[i]).start <= scanned(
                src,
            )[i].end <= src.len(),
{
    lemma_tokens_from_spans(src, 0, 1);
    let ts = tokens_from(src, 0, 1);
    assert forall|i: int| 0 <= i < scanned(src).len() - 1 implies (#[trigger] scanned(
        src,
    )[i]).tag != TokenTag::Eof by {
        assert(scanned(src)[i] == ts[i]);
    }
    assert forall|i: int| 0 <= i < scanned(src).len() implies (#[trigger] scanned(
        src,
    )[i]).start <= scanned(src)[i].end <= src.len() by {
        if i < ts.len() {
            assert(scanned(src)[i] == ts[i]);
        }
    }
}

/// Turns source text into tokens, reporting lexical errors as it goes.
pub struct Scanner {
    source: String,
    chars: Vec<char>,
    tokens: Vec<Token>,
    diagnostics: Vec<Diagnostic>,
    start: usize,
    current: usize,
    line: usize,
}

impl Scanner {
    /// The source, as characters.
    pub closed spec fn src(&self) -> Seq<char> {
        self.chars@
    }

    /// Where scanning resumes.
    pub closed spec fn position(&self) -> nat {
        self.current as nat
    }

    /// The current line.
    pub closed spec fn line_no(&self) -> nat {
        self.line as nat
    }

    /// The tokens emitted so far.
    pub closed spec fn emitted(&self) -> Seq<Token> {
        self.tokens@
    }

    /// The errors reported so far.
    pub closed spec fn reported(&self) -> Seq<Diagnostic> {
        self.diagnostics@
    }

    pub closed spec fn wf(&self) -> bool {
        &&& self.source@ == self.chars@
        &&& self.start <= self.current <= self.chars.len()
        &&& self.line <= self.current + 1
        &&& self.chars.len() < usize::MAX
    }

    pub fn new(source: String) -> (r: Scanner)
        requires
            source@.len() < usize::MAX,
        ensures
            r.wf(),
            r.src() == source@,
            r.position() == 0,
            r.line_no() == 1,
            r.emitted() == Seq::<Token>::empty(),
            r.reported() == Seq::<Diagnostic>::empty(),
    {
        let mut chars: Vec<char> = Vec::new();
        for c in it: source.chars()
            invariant
                chars@ == it.seq().take(it.index() as int),
        {
            chars.push(c);
        }
        assert(chars@ =~= source@);
        Scanner {
            source,
            chars,
            tokens: Vec::new(),
            diagnostics: Vec::new(),
            start: 0,
            current: 0,
            line: 1,
        }
    }

    /// This scanner is `src` scanned up to its position and line, having
    /// emitted `tokens0` then the token of `s`, and reported `errors0` then
    /// the error of `s`.
    pub open spec fn after_step(
        &self,
        src: Seq<char>,
        tokens0: Seq<Token>,
        errors0: Seq<Diagnostic>,
        s: ScanStep,
    ) -> bool {
        &&& self.wf()
        &&& self.src() == src
        &&& self.position() == s.next
        &&& self.line_no() == s.line
        &&& self.emitted().len() == tokens0.len() + step_tokens(s).len()
        &&& self.emitted().subrange(0, tokens0.len() as int) == tokens0
        &&& tokens_at(
            src,
            self.emitted().subrange(tokens0.len() as int, self.emitted().len() as int),
            step_tokens(s),
        )
        &&& self.reported().len() == errors0.len() + step_errors(s).len()
        &&& self.reported().subrange(0, errors0.len() as int) == errors0
        &&& errors_at(
            self.reported().subrange(errors0.len() as int, self.reported().len() as int),
            step_errors(s),
        )
    }

    /// Gives up the scanner for the errors it reported.
    pub fn into_diagnostics(self) -> (r: Vec<Diagnostic>)
        ensures
            r@ == self.reported(),
    {
        self.diagnostics
    }

    /// The errors reported so far.
    pub fn diagnostics(&self) -> (r: &Vec<Diagnostic>)
        ensures
            r@ == self.reported(),
    {
        &self.diagnostics
    }

    fn is_at_end(&self) -> (r: bool)
        ensures
            r == (self.current >= self.chars.len()),
    {
        self.current >= self.chars.len()
    }

    fn peek(&self) -> (c: char)
        ensures
            c == if self.current < self.chars.len() {
                self.chars@[self.current as int]
            } else {
                '\0'
            },
    {
        if self.is_at_end() {
            return '\0';
        }
        self.chars[self.current]
    }

    fn peek_next(&self) -> (c: char)
        requires
            self.chars.len() < usize::MAX,
        ensures
            c == if self.current + 1 < self.chars.len() {
                self.chars@[self.current + 1]
            } else {
                '\0'
            },
    {
        if self.current >= self.chars.len() || self.current + 1 >= self.chars.len() {
            return '\0';
        }
        self.chars[self.current + 1]
    }

    fn advance(&mut self) -> (c: char)
        requires
            old(self).current < old(self).chars.len(),
        ensures
            c == old(self).chars@[old(self).current as int],
            final(self).current == old(self).current + 1,
            final(self).source == old(self).source,
            final(self).chars == old(self).chars,
            final(self).tokens == old(self).tokens,
            final(self).diagnostics == old(self).diagnostics,
            final(self).start == old(self).start,
            final(self).line == old(self).line,
    {
        let c = self.chars[self.current];
        self.current = self.current + 1;
        c
    }

    fn match_next(&mut self, expected: char) -> (r: bool)
        requires
            old(self).current <= old(self).chars.len(),
        ensures
            r == (old(self).current < old(self).chars.len() && old(self).chars@[old(
                self,
            ).current as int] == expected),
            final(self).current == old(self).current + if r {
                1int
            } else {
                0int
            },
            final(self).source == old(self).source,
            final(self).chars == old(self).chars,
            final(self).tokens == old(self).tokens,
            final(self).diagnostics == old(self).diagnostics,
            final(self).start == old(self).start,
            final(self).line == old(self).line,
    {
        if !self.is_at_end() && self.peek() == expected {
            self.advance();
            true
        } else {
            false
        }
    }

    /// The source text of `[from, to)`.
    fn text(&self, from: usize, to: usize) -> (r: String)
        requires
            self.source@ == self.chars@,
            from <= to <= self.chars.len(),
        ensures
            r@ == self.chars@.subrange(from as int, to as int),
    {
        String::from_str(self.source.as_str().substring_char(from, to))
    }

    fn add_token(&mut self, token_type: TokenType)
        requires
            old(self).wf(),
        ensures
            final(self).tokens@ == old(self).tokens@.push(
                Token {
                    token_type,
                    lexeme: final(self).tokens@.last().lexeme,
                    line: old(self).line,
                },
            ),
            final(self).tokens@.last().lexeme@ == old(self).chars@.subrange(
                old(self).start as int,
                old(self).current as int,
            ),
            final(self).source == old(self).source,
            final(self).chars == old(self).chars,
            final(self).diagnostics == old(self).diagnostics,
            final(self).start == old(self).start,
            final(self).current == old(self).current,
            final(self).line == old(self).line,
    {
        let lexeme = self.text(self.start, self.current);
        self.tokens.push(Token { token_type, lexeme, line: self.line });
    }

    /// Everything but the position is as in `other`.
    spec fn moved_from(&self, other: &Scanner) -> bool {
        &&& self.source == other.source
        &&& self.chars == other.chars
        &&& self.tokens == other.tokens
        &&& self.diagnostics == other.diagnostics
        &&& self.start == other.start
        &&& self.line == other.line
    }

    /// Scans a number literal whose first digit has been consumed.
    fn number_literal(&mut self)
        requires
            old(self).wf(),
            old(self).current == old(self).start + 1,
            is_digit(old(self).chars@[old(self).start as int]),
        ensures
            final(self).after_step(
                old(self).chars@,
                old(self).tokens@,
                old(self).diagnostics@,
                scan_one(old(self).chars@, old(self).start as nat, old(self).line as nat),
            ),
    {
        let ghost src = self.chars@;
        let ghost first = self.current as int;
        let ghost before = *self;
        proof {
            lemma_skip_while(src, first, CharClass::Digit);
        }
        while is_digit_char(self.peek())
            invariant
                self.wf(),
                self.moved_from(&before),
                self.chars@ == src,
                first <= self.current <= digits_end(src, first),
                digits_end(src, self.current as int) == digits_end(src, first),
            decreases src.len() - self.current,
        {
            proof {
                lemma_skip_step(src, self.current as int, CharClass::Digit);
                lemma_skip_while(src, self.current + 1, CharClass::Digit);
            }
            self.advance();
        }
        proof {
            lemma_skip_stop(src, self.current as int, CharClass::Digit);
        }
        if self.peek() == '.' && is_digit_char(self.peek_next()) {
            self.advance();
            let ghost second = self.current as int;
            proof {
                lemma_skip_while(src, second, CharClass::Digit);
            }
            while is_digit_char(self.peek())
                invariant
                    self.wf(),
                    self.moved_from(&before),
                    self.chars@ == src,
                    second <= self.current <= digits_end(src, second),
                    digits_end(src, self.current as int) == digits_end(src, second),
                decreases src.len() - self.current,
            {
                proof {
                    lemma_skip_step(src, self.current as int, CharClass::Digit);
                lemma_skip_while(src, self.current + 1, CharClass::Digit);
                }
                self.advance();
            }
            proof {
                lemma_skip_stop(src, self.current as int, CharClass::Digit);
            }
        }
        assert(self.current == number_end(src, before.start as int));
        let numeral = self.text(self.start, self.current);
        self.add_token(TokenType::Number(numeral));
        proof {
            let st = scan_one(src, before.start as nat, before.line as nat);
            assert(self.tokens@.subrange(0, before.tokens@.len() as int) =~= before.tokens@);
            assert(self.tokens@.subrange(before.tokens@.len() as int, self.tokens@.len() as int)
                =~= seq![self.tokens@.last()]);
            assert(self.diagnostics@.subrange(0, before.diagnostics@.len() as int)
                =~= before.diagnostics@);
            assert(self.diagnostics@.subrange(
                before.diagnostics@.len() as int,
                self.diagnostics@.len() as int,
            ) =~= Seq::<Diagnostic>::empty());
        }
    }

    /// Scans an identifier or keyword whose first letter has been consumed.
    fn identifier(&mut self)
        requires
            old(self).wf(),
            old(self).current == old(self).start + 1,
            is_alpha(old(self).chars@[old(self).start as int]),
        ensures
            final(self).after_step(
                old(self).chars@,
                old(self).tokens@,
                old(self).diagnostics@,
                scan_one(old(self).chars@, old(self).start as nat, old(self).line as nat),
            ),
    {
        let ghost src = self.chars@;
        let ghost first = self.current as int;
        let ghost before = *self;
        proof {
            lemma_skip_while(src, first, CharClass::Alphanumeric);
        }
        while is_alphanumeric_char(self.peek())
            invariant
                self.wf(),
                self.moved_from(&before),
                self.chars@ == src,
                first <= self.current <= word_end(src, first),
                word_end(src, self.current as int) == word_end(src, first),
            decreases src.len() - self.current,
        {
            proof {
                lemma_skip_step(src, self.current as int, CharClass::Alphanumeric);
                lemma_skip_while(src, self.current + 1, CharClass::Alphanumeric);
            }
            self.advance();
        }
        proof {
            lemma_skip_stop(src, self.current as int, CharClass::Alphanumeric);
        }
        let text = self.text(self.start, self.current);
        let token_type = keyword_type(text);
        self.add_token(token_type);
        proof {
            assert(self.tokens@.subrange(0, before.tokens@.len() as int) =~= before.tokens@);
            assert(self.tokens@.subrange(before.tokens@.len() as int, self.tokens@.len() as int)
                =~= seq![self.tokens@.last()]);
            assert(self.diagnostics@.subrange(0, before.diagnostics@.len() as int)
                =~= before.diagnostics@);
            assert(self.diagnostics@.subrange(
                before.diagnostics@.len() as int,
                self.diagnostics@.len() as int,
            ) =~= Seq::<Diagnostic>::empty());
        }
    }

    /// Scans a string literal whose opening quote has been consumed.
    fn string_literal(&mut self)
        requires
            old(self).wf(),
            old(self).current == old(self).start + 1,
            old(self).chars@[old(self).start as int] == '"',
        ensures
            final(self).after_step(
                old(self).chars@,
                old(self).tokens@,
                old(self).diagnostics@,
                scan_one(old(self).chars@, old(self).start as nat, old(self).line as nat),
            ),
    {
        let ghost src = self.chars@;
        let ghost first = self.current as int;
        let ghost before = *self;
        proof {
            lemma_skip_while(src, first, CharClass::NotQuote);
        }
        while self.peek() != '"' && !self.is_at_end()
            invariant
                self.wf(),
                self.source == before.source,
                self.chars == before.chars,
                self.tokens == before.tokens,
                self.diagnostics == before.diagnostics,
                self.start == before.start,
                self.chars@ == src,
                first <= self.current <= quote_end(src, first),
                quote_end(src, self.current as int) == quote_end(src, first),
                self.line == before.line + newlines(src, first, self.current as int),
            decreases src.len() - self.current,
        {
            proof {
                lemma_skip_step(src, self.current as int, CharClass::NotQuote);
                lemma_skip_while(src, self.current + 1, CharClass::NotQuote);
            }
            if self.peek() == '\n' {
                self.line = self.line + 1;
            }
            self.advance();
        }
        proof {
            lemma_skip_stop(src, self.current as int, CharClass::NotQuote);
        }
        if self.is_at_end() {
            self.report_error("Unterminated string.");
            proof {
                assert(self.tokens@.subrange(0, before.tokens@.len() as int) =~= before.tokens@);
                assert(self.tokens@.subrange(
                    before.tokens@.len() as int,
                    self.tokens@.len() as int,
                ) =~= Seq::<Token>::empty());
                assert(self.diagnostics@.subrange(0, before.diagnostics@.len() as int)
                    =~= before.diagnostics@);
                assert(self.diagnostics@.subrange(
                    before.diagnostics@.len() as int,
                    self.diagnostics@.len() as int,
                ) =~= seq![self.diagnostics@.last()]);
            }
            return ;
        }
        self.advance();
        let value = self.text(self.start + 1, self.current - 1);
        self.add_token(TokenType::StringLiteral(value));
        proof {
            assert(self.tokens@.subrange(0, before.tokens@.len() as int) =~= before.tokens@);
            assert(self.tokens@.subrange(before.tokens@.len() as int, self.tokens@.len() as int)
                =~= seq![self.tokens@.last()]);
            assert(self.diagnostics@.subrange(0, before.diagnostics@.len() as int)
                =~= before.diagnostics@);
            assert(self.diagnostics@.subrange(
                before.diagnostics@.len() as int,
                self.diagnostics@.len() as int,
            ) =~= Seq::<Diagnostic>::empty());
        }
    }

    /// Skips the rest of a line comment, up to the newline that ends it.
    fn line_comment(&mut self)
        requires
            old(self).wf(),
        ensures
            final(self).wf(),
            final(self).moved_from(old(self)),
            final(self).current == comment_end(old(self).chars@, old(self).current as int),
    {
        let ghost src = self.chars@;
        let ghost first = self.current as int;
        let ghost before = *self;
        proof {
            lemma_skip_while(src, first, CharClass::NotNewline);
        }
        while self.peek() != '\n' && !self.is_at_end()
            invariant
                self.wf(),
                self.moved_from(&before),
                self.chars@ == src,
                first <= self.current <= comment_end(src, first),
                comment_end(src, self.current as int) == comment_end(src, first),
            decreases src.len() - self.current,
        {
            proof {
                lemma_skip_step(src, self.current as int, CharClass::NotNewline);
                lemma_skip_while(src, self.current + 1, CharClass::NotNewline);
            }
            self.advance();
        }
        proof {
            lemma_skip_stop(src, self.current as int, CharClass::NotNewline);
        }
    }

    /// Scans one lexeme from the current position: emits its token, reports
    /// its error, or skips it (whitespace, newline, comment).
    pub fn scan_token(&mut self)
        requires
            old(self).wf(),
            old(self).position() < old(self).src().len(),
        ensures
            final(self).after_step(
                old(self).src(),
                old(self).emitted(),
                old(self).reported(),
                scan_one(old(self).src(), old(self).position(), old(self).line_no()),
            ),
    {
        let ghost before = *self;
        self.start = self.current;
        let c = self.advance();
        match c {
            '(' => self.add_token(TokenType::LeftParen),
            ')' => self.add_token(TokenType::RightParen),
            '{' => self.add_token(TokenType::LeftBrace),
            '}' => self.add_token(TokenType::RightBrace),
            ',' => self.add_token(TokenType::Comma),
            '.' => self.add_token(TokenType::Dot),
            '-' => self.add_token(TokenType::Minus),
            '+' => self.add_token(TokenType::Plus),
            ';' => self.add_token(TokenType::Semicolon),
            '*' => self.add_token(TokenType::Star),
            '!' => {
                let t = if self.match_next('=') {
                    TokenType::BangEqual
                } else {
                    TokenType::Bang
                };
                self.add_token(t);
            },
            '=' => {
                let t = if self.match_next('=') {
                    TokenType::EqualEqual
                } else {
                    TokenType::Equal
                };
                self.add_token(t);
            },
            '<' => {
                let t = if self.match_next('=') {
                    TokenType::LessEqual
                } else {
                    TokenType::Less
                };
                self.add_token(t);
            },
            '>' => {
                let t = if self.match_next('=') {
                    TokenType::GreaterEqual
                } else {
                    TokenType::Greater
                };
                self.add_token(t);
            },
            '/' => {
                if self.match_next('/') {
                    self.line_comment();
                } else {
                    self.add_token(TokenType::Slash);
                }
            },
            '"' => self.string_literal(),
            '0'..='9' => self.number_literal(),
            'a'..='z' | 'A'..='Z' => self.identifier(),
            ' ' | '\r' | '\t' => {},
            '\n' => {
                self.line = self.line + 1;
            },
            _ => self.report_error("Unexpected character"),
        }
        proof {
            assert(self.tokens@.subrange(0, before.tokens@.len() as int) =~= before.tokens@);
            assert(self.diagnostics@.subrange(0, before.diagnostics@.len() as int)
                =~= before.diagnostics@);
            if self.tokens@.len() == before.tokens@.len() {
                assert(self.tokens@.subrange(
                    before.tokens@.len() as int,
                    self.tokens@.len() as int,
                ) =~= Seq::<Token>::empty());
            } else {
                assert(self.tokens@.subrange(
                    before.tokens@.len() as int,
                    self.tokens@.len() as int,
                ) =~= seq![self.tokens@.last()]);
            }
            if self.diagnostics@.len() == before.diagnostics@.len() {
                assert(self.diagnostics@.subrange(
                    before.diagnostics@.len() as int,
                    self.diagnostics@.len() as int,
                ) =~= Seq::<Diagnostic>::empty());
            } else {
                assert(self.diagnostics@.subrange(
                    before.diagnostics@.len() as int,
                    self.diagnostics@.len() as int,
                ) =~= seq![self.diagnostics@.last()]);
            }
        }
    }

    /// Scans the rest of the source, then appends `Eof` on the last line.
    /// Returns every token emitted so far.
    pub fn scan_tokens(&mut self) -> (r: Vec<Token>)
        requires
            old(self).wf(),
        ensures
            final(self).wf(),
            final(self).src() == old(self).src(),
            final(self).position() == old(self).src().len(),
            final(self).emitted() == r@,
            r@.len() >= old(self).emitted().len(),
            r@.subrange(0, old(self).emitted().len() as int) == old(self).emitted(),
            tokens_at(
                old(self).src(),
                r@.subrange(old(self).emitted().len() as int, r@.len() as int),
                rest_scanned(old(self).src(), old(self).position(), old(self).line_no()),
            ),
            final(self).reported().len() >= old(self).reported().len(),
            final(self).reported().subrange(0, old(self).reported().len() as int) == old(
                self,
            ).reported(),
            errors_at(
                final(self).reported().subrange(
                    old(self).reported().len() as int,
                    final(self).reported().len() as int,
                ),
                errors_from(old(self).src(), old(self).position(), old(self).line_no()),
            ),
    {
        let ghost src = self.chars@;
        let ghost start = *self;
        let ghost t0 = self.tokens@;
        let ghost d0 = self.diagnostics@;
        let ghost pos0 = self.current as nat;
        let ghost line0 = self.line as nat;
        let ghost mut done: Seq<TokenSpan> = Seq::empty();
        let ghost mut errs: Seq<(nat, Seq<char>)> = Seq::empty();
        proof {
            assert(self.tokens@.subrange(0, t0.len() as int) =~= t0);
            assert(self.tokens@.subrange(t0.len() as int, self.tokens@.len() as int)
                =~= Seq::<Token>::empty());
            assert(self.diagnostics@.subrange(0, d0.len() as int) =~= d0);
            assert(self.diagnostics@.subrange(d0.len() as int, self.diagnostics@.len() as int)
                =~= Seq::<Diagnostic>::empty());
            assert(tokens_from(src, pos0, line0) =~= done + tokens_from(src, pos0, line0));
            assert(errors_from(src, pos0, line0) =~= errs + errors_from(src, pos0, line0));
        }
        while !self.is_at_end()
            invariant
                self.wf(),
                self.chars@ == src,
                tokens_from(src, pos0, line0) == done + tokens_from(
                    src,
                    self.current as nat,
                    self.line as nat,
                ),
                errors_from(src, pos0, line0) == errs + errors_from(
                    src,
                    self.current as nat,
                    self.line as nat,
                ),
                end_line(src, self.current as nat, self.line as nat) == end_line(
                    src,
                    pos0,
                    line0,
                ),
                self.tokens@.len() == t0.len() + done.len(),
                self.tokens@.subrange(0, t0.len() as int) == t0,
                tokens_at(src, self.tokens@.subrange(t0.len() as int, self.tokens@.len() as int), done),
                self.diagnostics@.len() == d0.len() + errs.len(),
                self.diagnostics@.subrange(0, d0.len() as int) == d0,
                errors_at(
                    self.diagnostics@.subrange(d0.len() as int, self.diagnostics@.len() as int),
                    errs,
                ),
            decreases src.len() - self.current,
        {
            let ghost prev = *self;
            self.scan_token();
            proof {
                let st = scan_one(src, prev.current as nat, prev.line as nat);
                lemma_scan_one(src, prev.current as nat, prev.line as nat);
                let pl = prev.tokens@.len() as int;
                let nl = self.tokens@.len() as int;
                assert(self.tokens@.subrange(0, pl) == prev.tokens@);
                assert(self.tokens@.subrange(0, t0.len() as int) =~= t0) by {
                    assert(self.tokens@.subrange(0, t0.len() as int) =~= prev.tokens@.subrange(
                        0,
                        t0.len() as int,
                    ));
                }
                let old_part = prev.tokens@.subrange(t0.len() as int, pl);
                let new_part = self.tokens@.subrange(pl, nl);
                assert(self.tokens@.subrange(t0.len() as int, nl) =~= old_part + new_part);
                lemma_tokens_at_concat(src, old_part, done, new_part, step_tokens(st));
                let pdl = prev.diagnostics@.len() as int;
                let ndl = self.diagnostics@.len() as int;
                assert(self.diagnostics@.subrange(0, pdl) == prev.diagnostics@);
                assert(self.diagnostics@.subrange(0, d0.len() as int) =~= d0) by {
                    assert(self.diagnostics@.subrange(0, d0.len() as int)
                        =~= prev.diagnostics@.subrange(0, d0.len() as int));
                }
                let old_errs = prev.diagnostics@.subrange(d0.len() as int, pdl);
                let new_errs = self.diagnostics@.subrange(pdl, ndl);
                assert(self.diagnostics@.subrange(d0.len() as int, ndl) =~= old_errs + new_errs);
                lemma_errors_at_concat(old_errs, errs, new_errs, step_errors(st));
                assert(done + step_tokens(st) + tokens_from(src, st.next, st.line) =~= done + (
                step_tokens(st) + tokens_from(src, st.next, st.line)));
                assert(errs + step_errors(st) + errors_from(src, st.next, st.line) =~= errs + (
                step_errors(st) + errors_from(src, st.next, st.line)));
                done = done + step_tokens(st);
                errs = errs + step_errors(st);
            }
        }
        let ghost before_eof = self.tokens@;
        self.tokens.push(Token { token_type: TokenType::Eof, lexeme: String::new(), line: self.line });
        proof {
            let eof = eof_span(src, self.line as nat);
            let nl = self.tokens@.len() as int;
            assert(self.tokens@.subrange(0, before_eof.len() as int) =~= before_eof);
            assert(self.tokens@.subrange(0, t0.len() as int) =~= t0) by {
                assert(self.tokens@.subrange(0, t0.len() as int) =~= before_eof.subrange(
                    0,
                    t0.len() as int,
                ));
            }
            let old_part = before_eof.subrange(t0.len() as int, before_eof.len() as int);
            let new_part = self.tokens@.subrange(before_eof.len() as int, nl);
            assert(new_part =~= seq![self.tokens@.last()]);
            assert(src.subrange(src.len() as int, src.len() as int) =~= Seq::<char>::empty());
            assert(tokens_at(src, new_part, seq![eof]));
            assert(self.tokens@.subrange(t0.len() as int, nl) =~= old_part + new_part);
            lemma_tokens_at_concat(src, old_part, done, new_part, seq![eof]);
            assert(tokens_from(src, self.current as nat, self.line as nat) =~= Seq::<
                TokenSpan,
            >::empty());
            assert(done =~= tokens_from(src, pos0, line0));
            assert(errors_from(src, self.current as nat, self.line as nat) =~= Seq::<
                (nat, Seq<char>),
            >::empty());
            assert(errs =~= errors_from(src, pos0, line0));
        }
        let r = self.tokens.clone();
        proof {
            assert forall|i: int| 0 <= i < r@.len() implies r@[i] == self.tokens@[i] by {
                assert(cloned::<Token>(self.tokens@[i], r@[i]));
            }
            assert(r@ =~= self.tokens@);
        }
        r
    }

    fn report_error(&mut self, message: &str)
        requires
            old(self).wf(),
        ensures
            final(self).diagnostics@ == old(self).diagnostics@.push(
                final(self).diagnostics@.last(),
            ),
            final(self).diagnostics@.last().line == old(self).line,
            final(self).diagnostics@.last().location@ == Seq::<char>::empty(),
            final(self).diagnostics@.last().message@ == message@,
            final(self).source == old(self).source,
            final(self).chars == old(self).chars,
            final(self).tokens == old(self).tokens,
            final(self).start == old(self).start,
            final(self).current == old(self).current,
            final(self).line == old(self).line,
    {
        let d = error(self.line, message);
        self.diagnostics.push(d);
    }
}

} // verus!
