//! The shared diagnostic formatter, and the decimal rendering of line
//! numbers that it depends on.
use vstd::prelude::*;
use vstd::string::StringExecFns;
use crate::ast::{Ctx, CtxModel};

verus! {

/// The decimal digit character for `d` (`d < 10`).
pub open spec fn spec_digit_char(d: nat) -> char {
    if d == 0 {
        '0'
    } else if d == 1 {
        '1'
    } else if d == 2 {
        '2'
    } else if d == 3 {
        '3'
    } else if d == 4 {
        '4'
    } else if d == 5 {
        '5'
    } else if d == 6 {
        '6'
    } else if d == 7 {
        '7'
    } else if d == 8 {
        '8'
    } else {
        '9'
    }
}

/// The decimal rendering of `n`, most significant digit first, with no
/// leading zeros (a single zero for `n == 0`).
pub open spec fn spec_decimal(n: nat) -> Seq<char>
    decreases n,
{
    if n < 10 {
        seq![spec_digit_char(n)]
    } else {
        spec_decimal(n / 10).push(spec_digit_char(n % 10))
    }
}

/// The one-character string for the decimal digit `d`.
fn digit_str(d: u64) -> (r: &'static str)
    requires
        d < 10,
    ensures
        r@ == seq![spec_digit_char(d as nat)],
{
    if d == 0 {
        proof {
            reveal_strlit("0");
        }
        let r = "0";
        assert(r@ =~= seq![spec_digit_char(d as nat)]);
        r
    } else if d == 1 {
        proof {
            reveal_strlit("1");
        }
        let r = "1";
        assert(r@ =~= seq![spec_digit_char(d as nat)]);
        r
    } else if d == 2 {
        proof {
            reveal_strlit("2");
        }
        let r = "2";
        assert(r@ =~= seq![spec_digit_char(d as nat)]);
        r
    } else if d == 3 {
        proof {
            reveal_strlit("3");
        }
        let r = "3";
        assert(r@ =~= seq![spec_digit_char(d as nat)]);
        r
    } else if d == 4 {
        proof {
            reveal_strlit("4");
        }
        let r = "4";
        assert(r@ =~= seq![spec_digit_char(d as nat)]);
        r
    } else if d == 5 {
        proof {
            reveal_strlit("5");
        }
        let r = "5";
        assert(r@ =~= seq![spec_digit_char(d as nat)]);
        r
    } else if d == 6 {
        proof {
            reveal_strlit("6");
        }
        let r = "6";
        assert(r@ =~= seq![spec_digit_char(d as nat)]);
        r
    } else if d == 7 {
        proof {
            reveal_strlit("7");
        }
        let r = "7";
        assert(r@ =~= seq![spec_digit_char(d as nat)]);
        r
    } else if d == 8 {
        proof {
            reveal_strlit("8");
        }
        let r = "8";
        assert(r@ =~= seq![spec_digit_char(d as nat)]);
        r
    } else {
        proof {
            reveal_strlit("9");
        }
        let r = "9";
        assert(r@ =~= seq![spec_digit_char(d as nat)]);
        r
    }
}

/// Renders `n` in decimal.
pub fn format_u64(n: u64) -> (s: String)
    ensures
        s@ == spec_decimal(n as nat),
    decreases n,
{
    if n < 10 {
        let s = String::from_str(digit_str(n));
        assert(s@ =~= spec_decimal(n as nat));
        s
    } else {
        let mut s = format_u64(n / 10);
        s.append(digit_str(n % 10));
        assert(s@ =~= spec_decimal(n as nat));
        s
    }
}

/// Renders `n` in decimal.
pub fn format_usize(n: usize) -> (s: String)
    ensures
        s@ == spec_decimal(n as nat),
{
    format_u64(n as u64)
}

/// Relies on `String::push`: appends one character to the string.
#[verifier::external_body]
pub(crate) fn push_char(s: &mut String, c: char)
    ensures
        final(s)@ == old(s)@.push(c),
{
    s.push(c);
}

/// The full diagnostic message for a failure with reason `reason` at context
/// `ctx`: the source name, line and logical unit on a first line, then the
/// indented reason.
pub open spec fn spec_error_msg(ctx: CtxModel, reason: Seq<char>) -> Seq<char> {
    "File \"<"@ + ctx.file + ">\", line "@ + spec_decimal(ctx.line) + ", in <"@ + ctx.module
        + ">\n    "@ + reason
}

/// Formats the shared diagnostic message from a context and a reason.
pub fn make_error_msg(ctx: &Ctx, error_reason: String) -> (r: String)
    ensures
        r@ == spec_error_msg(ctx@, error_reason@),
{
    let mut m = String::from_str("File \"<");
    m.append(ctx.file.as_str());
    m.append(">\", line ");
    let line = format_usize(ctx.line);
    m.append(line.as_str());
    m.append(", in <");
    m.append(ctx.module.as_str());
    m.append(">\n    ");
    m.append(error_reason.as_str());
    assert(m@ =~= spec_error_msg(ctx@, error_reason@));
    m
}

} // verus!
