use vstd::prelude::*;
use vstd::string::StringExecFns;

use crate::error::BgError;

verus! {

/// The answer of an HTTP route: its status code and its plain-text body.
#[derive(Debug)]
pub struct Reply {
    pub status: u16,
    pub body: String,
}

pub const STATUS_OK: u16 = 200;

pub const STATUS_SERVER_ERROR: u16 = 500;

/// The character of a decimal digit.
pub open spec fn digit_char(d: nat) -> char {
    if d == 0 {
        '0'
    } else if d == 1 {
        '1'
    } else if d == 2 {
        '2'
    } else if d == 3 {
        '3'
    } else if d == 4 {
        '4'
    } else if d == 5 {
        '5'
    } else if d == 6 {
        '6'
    } else if d == 7 {
        '7'
    } else if d == 8 {
        '8'
    } else {
        '9'
    }
}

/// The decimal digits of `n`, most significant first, without leading zeros.
pub open spec fn decimal(n: nat) -> Seq<char>
    decreases n,
{
    if n < 10 {
        seq![digit_char(n)]
    } else {
        decimal(n / 10).push(digit_char(n % 10))
    }
}

/// The body that reports a successful import.
pub open spec fn added_text(n: nat) -> Seq<char> {
    "Added "@ + decimal(n) + " bgs"@
}

/// The version shown, or "unknown" where none was set at build time.
pub open spec fn version_of(v: Option<Seq<char>>) -> Seq<char> {
    match v {
        Some(s) => s,
        None => "unknown"@,
    }
}

fn digit_str(d: usize) -> (r: &'static str)
    requires
        d < 10,
    ensures
        r@ == seq![digit_char(d as nat)],
{
    let r = match d {
        0 => "0",
        1 => "1",
        2 => "2",
        3 => "3",
        4 => "4",
        5 => "5",
        6 => "6",
        7 => "7",
        8 => "8",
        _ => "9",
    };
    proof {
        reveal_strlit("0");
        reveal_strlit("1");
        reveal_strlit("2");
        reveal_strlit("3");
        reveal_strlit("4");
        reveal_strlit("5");
        reveal_strlit("6");
        reveal_strlit("7");
        reveal_strlit("8");
        reveal_strlit("9");
        assert(r@ =~= seq![digit_char(d as nat)]);
    }
    r
}

/// Appends the decimal digits of `n` to `s`.
pub fn push_decimal(s: &mut String, n: usize)
    ensures
        final(s)@ == old(s)@ + decimal(n as nat),
    decreases n,
{
    if n >= 10 {
        push_decimal(s, n / 10);
    }
    s.append(digit_str(n % 10));
    proof {
        if n >= 10 {
            assert(old(s)@ + decimal(n as nat) =~= old(s)@ + decimal((n / 10) as nat) + seq![
                digit_char((n % 10) as nat),
            ]);
        } else {
            assert(old(s)@ + decimal(n as nat) =~= old(s)@ + seq![digit_char((n % 10) as nat)]);
        }
    }
}

/// The text of the version route.
pub fn version_text(v: Option<&str>) -> (r: String)
    ensures
        r@ == version_of(
            match v {
                Some(s) => Some(s@),
                None => None,
            },
        ),
{
    match v {
        Some(s) => String::from_str(s),
        None => String::from_str("unknown"),
    }
}

/// A failed request: a server error carrying the error's description.
pub fn error_into_response(err: &BgError) -> (r: Reply)
    ensures
        r.status == STATUS_SERVER_ERROR,
        r.body@ == err@.text(),
{
    Reply { status: STATUS_SERVER_ERROR, body: err.message() }
}

/// The reply of the import route: the number of records added, or a
/// server error with the description of what stopped the import.
pub fn import_reply(result: &Result<usize, BgError>) -> (r: Reply)
    ensures
        match result {
            Ok(n) => r.status == STATUS_OK && r.body@ == added_text(*n as nat),
            Err(e) => r.status == STATUS_SERVER_ERROR && r.body@ == e@.text(),
        },
{
    match result {
        Ok(n) => {
            let mut body = String::from_str("Added ");
            push_decimal(&mut body, *n);
            body.append(" bgs");
            Reply { status: STATUS_OK, body }
        },
        Err(e) => error_into_response(e),
    }
}

} // verus!
