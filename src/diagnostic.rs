use vstd::prelude::*;
use vstd::string::StringExecFns;

verus! {

/// The character of a decimal digit.
pub open spec fn digit_char(d: nat) -> char {
    (('0' as nat) + d) as char
}

/// The decimal numeral of `n`, without leading zeros.
pub open spec fn decimal(n: nat) -> Seq<char>
    decreases n,
{
    if n < 10 {
        seq![digit_char(n)]
    } else {
        decimal(n / 10).push(digit_char(n % 10))
    }
}

/// The text of one diagnostic line: `[line: N] Error: <where> : <message>`.
pub open spec fn rendered(line: nat, location: Seq<char>, message: Seq<char>) -> Seq<char> {
    "[line: "@ + decimal(line) + "] Error: "@ + location + " : "@ + message
}

/// A diagnostic handed to the reporting sink: where in the source, and what.
pub struct Diagnostic {
    pub line: usize,
    pub location: String,
    pub message: String,
}

fn digit_str(d: usize) -> (r: &'static str)
    requires
        d < 10,
    ensures
        r@ == seq![digit_char(d as nat)],
{
    proof {
        reveal_strlit("0");
        reveal_strlit("1");
        reveal_strlit("2");
        reveal_strlit("3");
        reveal_strlit("4");
        reveal_strlit("5");
        reveal_strlit("6");
        reveal_strlit("7");
        reveal_strlit("8");
        reveal_strlit("9");
    }
    let r = match d {
        0 => "0",
        1 => "1",
        2 => "2",
        3 => "3",
        4 => "4",
        5 => "5",
        6 => "6",
        7 => "7",
        8 => "8",
        _ => "9",
    };
    assert(r@ =~= seq![digit_char(d as nat)]);
    r
}

/// Writes `n` in decimal.
pub fn decimal_string(n: usize) -> (r: String)
    ensures
        r@ == decimal(n as nat),
    decreases n,
{
    let mut s = if n >= 10 {
        decimal_string(n / 10)
    } else {
        String::new()
    };
    s.append(digit_str(n % 10));
    proof {
        if n < 10 {
            assert(s@ =~= decimal(n as nat));
        }
    }
    s
}

impl Diagnostic {
    /// The diagnostic as one line of text.
    pub fn render(&self) -> (r: String)
        ensures
            r@ == rendered(self.line as nat, self.location@, self.message@),
    {
        let mut s = String::from_str("[line: ");
        let n = decimal_string(self.line);
        s.append(n.as_str());
        s.append("] Error: ");
        s.append(self.location.as_str());
        s.append(" : ");
        s.append(self.message.as_str());
        s
    }
}

} // verus!
