use vstd::prelude::*;

pub mod diagnostic;
pub mod expr;
pub mod interpreter;
pub mod lox_object;
pub mod number;
pub mod parser;
pub mod scanner;
pub mod token;

use crate::diagnostic::Diagnostic;
use crate::interpreter::{evaluate, runtime_text, ArithOp, Interpreter};
use crate::lox_object::LoxObject;
use crate::parser::{error_location, message_text, parse_spec, Parser};
use crate::scanner::{errors_at, scan_errors, scanned, tokens_at, Scanner};
use crate::token::Token;
use vstd::string::StringExecFns;

verus! {

/// A diagnostic for an error that has no location within a line (the
/// scanner's errors).
pub fn error(line: usize, message: &str) -> (d: Diagnostic)
    ensures
        d.line == line,
        d.location@ == Seq::<char>::empty(),
        d.message@ == message@,
{
    report(line, String::new(), message)
}

/// A diagnostic at `line`, located by `which` (for instance `at end`).
pub fn report(line: usize, which: String, message: &str) -> (d: Diagnostic)
    ensures
        d.line == line,
        d.location == which,
        d.message@ == message@,
{
    Diagnostic { line, location: which, message: String::from_str(message) }
}

/// What running a source text gives: the diagnostics in the order they
/// were found, and the value of the expression when there is one.
pub struct RunOutcome {
    pub diagnostics: Vec<Diagnostic>,
    pub value: Option<LoxObject>,
}

/// `d` reports `message` at `token`.
pub open spec fn reports(d: Diagnostic, token: Token, message: Seq<char>) -> bool {
    &&& d.line == token.line
    &&& d.location@ == error_location(token)
    &&& d.message@ == message
}

/// After `n` lexical diagnostics, `r` holds what parsing `toks` and then
/// evaluating the expression give: the value, or one more diagnostic for
/// the syntax or runtime error.
pub open spec fn outcome_of<P: Fn(String) -> u32, A: Fn(ArithOp, u32, u32) -> u32>(
    toks: Seq<Token>,
    interpreter: &Interpreter<P, A>,
    n: nat,
    r: RunOutcome,
) -> bool {
    match parse_spec(toks, 0) {
        Err(pe) => {
            &&& r.value is None
            &&& r.diagnostics@.len() == n + 1
            &&& reports(r.diagnostics@[n as int], pe.token, message_text(pe.message))
        },
        Ok(e) => match evaluate(e, interpreter.numerals(), interpreter.arithmetic()) {
            Ok(v) => {
                &&& r.value matches Some(x) && x@ == v
                &&& r.diagnostics@.len() == n
            },
            Err(re) => {
                &&& r.value is None
                &&& r.diagnostics@.len() == n + 1
                &&& reports(r.diagnostics@[n as int], re.operator, runtime_text(re.message))
            },
        },
    }
}

/// Runs `source` through the whole pipeline: scans it (reporting lexical
/// errors and going on), parses the tokens, and evaluates the expression.
pub fn run<P: Fn(String) -> u32, A: Fn(ArithOp, u32, u32) -> u32>(
    source: String,
    interpreter: &Interpreter<P, A>,
) -> (r: RunOutcome)
    requires
        source@.len() < usize::MAX,
        interpreter.host_ok(),
    ensures
        r.diagnostics@.len() >= scan_errors(source@).len(),
        errors_at(
            r.diagnostics@.subrange(0, scan_errors(source@).len() as int),
            scan_errors(source@),
        ),
        exists|toks: Seq<Token>|
            tokens_at(source@, toks, scanned(source@)) && outcome_of(
                toks,
                interpreter,
                scan_errors(source@).len(),
                r,
            ),
{
    let ghost src = source@;
    let mut scanner = Scanner::new(source);
    let tokens = scanner.scan_tokens();
    let mut diagnostics = scanner.into_diagnostics();
    let ghost toks = tokens@;
    let ghost lexical = diagnostics@;
    let ghost n = diagnostics@.len();
    proof {
        assert(tokens@.subrange(0, tokens@.len() as int) =~= tokens@);
        assert(diagnostics@.subrange(0, diagnostics@.len() as int) =~= diagnostics@);
        crate::scanner::lemma_scan_total(src);
        let last = tokens@.len() - 1;
        assert(crate::scanner::token_at(src, tokens@[last], scanned(src)[last]));
    }
    let mut parser = Parser::new(tokens);
    let value = match parser.parse() {
        Err(pe) => {
            diagnostics.push(pe.diagnostic());
            None
        },
        Ok(expression) => match interpreter.interpret(&expression) {
            Ok(v) => Some(v),
            Err(re) => {
                diagnostics.push(re.diagnostic());
                None
            },
        },
    };
    let r = RunOutcome { diagnostics, value };
    proof {
        assert(r.diagnostics@.subrange(0, n as int) =~= lexical);
        assert(outcome_of(toks, interpreter, n, r));
    }
    r
}

} // verus!
