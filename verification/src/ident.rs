use vstd::prelude::*;

verus! {

use vstd::string::StringExecFns;

/// Whether the store accepts a string as an identifier: at most 255 bytes,
/// every character alphanumeric, dash or underscore, where alphanumeric is
/// the Unicode character class the store's own check uses. That class is
/// not written out here; the rule is named, and `is_valid_identifier`
/// decides it by asking the store's check itself.
pub uninterp spec fn valid_identifier(s: Seq<char>) -> bool;

/// Relies on indradb::Identifier::new: accepts exactly the strings within
/// the store's identifier rules, and the result depends on the string
/// alone.
#[verifier::external_body]
pub(crate) fn is_valid_identifier(s: &str) -> (r: bool)
    ensures
        r == valid_identifier(s@),
{
    indradb::Identifier::new(s).is_ok()
}

/// The concatenation of two strings.
pub fn concat_str(a: &str, b: &str) -> (r: String)
    ensures
        r@ == a@ + b@,
{
    let s = a.to_owned();
    s.concat(b)
}

/// The character for one decimal digit.
pub open spec fn dec_digit(d: int) -> char {
    if d == 0 {
        '0'
    } else if d == 1 {
        '1'
    } else if d == 2 {
        '2'
    } else if d == 3 {
        '3'
    } else if d == 4 {
        '4'
    } else if d == 5 {
        '5'
    } else if d == 6 {
        '6'
    } else if d == 7 {
        '7'
    } else if d == 8 {
        '8'
    } else {
        '9'
    }
}

/// The decimal digits of n, most significant first.
pub open spec fn dec_nat(n: nat) -> Seq<char>
    decreases n,
{
    if n < 10 {
        seq![dec_digit(n as int)]
    } else {
        dec_nat(n / 10) + seq![dec_digit((n % 10) as int)]
    }
}

/// The decimal rendering of n, with a leading minus sign when negative.
pub open spec fn dec_int(n: int) -> Seq<char> {
    if n < 0 {
        seq!['-'] + dec_nat((-n) as nat)
    } else {
        dec_nat(n as nat)
    }
}

fn digit_str(d: u32) -> (r: &'static str)
    requires
        d < 10,
    ensures
        r@ == seq![dec_digit(d as int)],
{
    let r = match d {
        0 => "0",
        1 => "1",
        2 => "2",
        3 => "3",
        4 => "4",
        5 => "5",
        6 => "6",
        7 => "7",
        8 => "8",
        _ => "9",
    };
    proof {
        reveal_strlit("0");
        reveal_strlit("1");
        reveal_strlit("2");
        reveal_strlit("3");
        reveal_strlit("4");
        reveal_strlit("5");
        reveal_strlit("6");
        reveal_strlit("7");
        reveal_strlit("8");
        reveal_strlit("9");
        assert(r@ =~= seq![dec_digit(d as int)]);
    }
    r
}

fn u32_dec(n: u32) -> (r: String)
    ensures
        r@ == dec_nat(n as nat),
    decreases n,
{
    if n < 10 {
        let d = digit_str(n);
        let r = d.to_owned();
        proof {
            assert(r@ =~= dec_nat(n as nat));
        }
        r
    } else {
        let q = u32_dec(n / 10);
        let r = concat_str(q.as_str(), digit_str(n % 10));
        proof {
            assert(r@ =~= dec_nat(n as nat));
        }
        r
    }
}

/// Renders an i32 in decimal, as std's formatting would.
pub fn i32_to_string(n: i32) -> (r: String)
    ensures
        r@ == dec_int(n as int),
{
    if n >= 0 {
        u32_dec(n as u32)
    } else {
        let m: u32 = (-(n as i64)) as u32;
        proof {
            assert(m as nat == (-(n as int)) as nat);
        }
        let d = u32_dec(m);
        let r = concat_str("-", d.as_str());
        proof {
            reveal_strlit("-");
            assert(r@ =~= dec_int(n as int));
        }
        r
    }
}

} // verus!
