//! Verified text rendering: decimal digits of a number and the two-decimal
//! currency form of a balance held in minor units (cents).

use vstd::prelude::*;
use vstd::string::StringExecFns;

verus! {

/// The character for a single decimal digit.
pub open spec fn digit_char(d: nat) -> char {
    if d == 0 {
        '0'
    } else if d == 1 {
        '1'
    } else if d == 2 {
        '2'
    } else if d == 3 {
        '3'
    } else if d == 4 {
        '4'
    } else if d == 5 {
        '5'
    } else if d == 6 {
        '6'
    } else if d == 7 {
        '7'
    } else if d == 8 {
        '8'
    } else {
        '9'
    }
}

/// The decimal digits of `n`, most significant first, with no leading zeros
/// (zero itself is the single digit `0`).
pub open spec fn dec_rep(n: nat) -> Seq<char>
    decreases n,
{
    if n < 10 {
        seq![digit_char(n)]
    } else {
        dec_rep(n / 10) + seq![digit_char(n % 10)]
    }
}

/// The currency rendering of a non-negative balance of `b` minor units:
/// a dollar sign, the whole dollars, a point, then exactly two cent digits.
pub open spec fn money_rep(b: int) -> Seq<char>
    recommends
        b >= 0,
{
    seq!['$'] + dec_rep((b / 100) as nat) + seq!['.'] + seq![
        digit_char(((b % 100) / 10) as nat),
        digit_char(((b % 100) % 10) as nat),
    ]
}

/// The one-character string for a single decimal digit.
fn digit_str(d: u64) -> (s: &'static str)
    requires
        d < 10,
    ensures
        s@ == seq![digit_char(d as nat)],
{
    proof {
        reveal_strlit("0");
        reveal_strlit("1");
        reveal_strlit("2");
        reveal_strlit("3");
        reveal_strlit("4");
        reveal_strlit("5");
        reveal_strlit("6");
        reveal_strlit("7");
        reveal_strlit("8");
        reveal_strlit("9");
        assert("0"@ =~= seq!['0']);
        assert("1"@ =~= seq!['1']);
        assert("2"@ =~= seq!['2']);
        assert("3"@ =~= seq!['3']);
        assert("4"@ =~= seq!['4']);
        assert("5"@ =~= seq!['5']);
        assert("6"@ =~= seq!['6']);
        assert("7"@ =~= seq!['7']);
        assert("8"@ =~= seq!['8']);
        assert("9"@ =~= seq!['9']);
    }
    match d {
        0 => "0",
        1 => "1",
        2 => "2",
        3 => "3",
        4 => "4",
        5 => "5",
        6 => "6",
        7 => "7",
        8 => "8",
        _ => "9",
    }
}

/// Renders `n` in decimal, most significant digit first.
pub fn to_decimal(n: u64) -> (s: String)
    ensures
        s@ == dec_rep(n as nat),
    decreases n,
{
    if n < 10 {
        String::from_str(digit_str(n))
    } else {
        let mut s = to_decimal(n / 10);
        s.append(digit_str(n % 10));
        s
    }
}

/// Renders a non-negative balance of `b` minor units as dollars with
/// exactly two decimal places, e.g. 25000 as `$250.00`.
pub fn format_money(b: i64) -> (s: String)
    requires
        0 <= b,
    ensures
        s@ == money_rep(b as int),
{
    let dollars: i64 = b / 100;
    let cents: i64 = b % 100;
    let mut s = String::from_str("$");
    let d = to_decimal(dollars as u64);
    s.append(d.as_str());
    s.append(".");
    s.append(digit_str((cents / 10) as u64));
    s.append(digit_str((cents % 10) as u64));
    proof {
        reveal_strlit("$");
        reveal_strlit(".");
        assert("$"@ =~= seq!['$']);
        assert("."@ =~= seq!['.']);
        assert(s@ =~= money_rep(b as int));
    }
    s
}

} // verus!
