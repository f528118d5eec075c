//! Decimal text of small numbers, as used in generated region names.
use vstd::prelude::*;

verus! {

/// The character of decimal digit `d`.
pub open spec fn digit_char(d: nat) -> char {
    (48 + d) as char
}

/// The decimal representation of `n`, without leading zeros.
pub open spec fn decimal(n: nat) -> Seq<char>
    decreases n,
{
    if n < 10 {
        seq![digit_char(n)]
    } else {
        decimal(n / 10).push(digit_char(n % 10))
    }
}

/// The one-character text of digit `d`.
fn digit_str(d: u8) -> (s: &'static str)
    requires
        d < 10,
    ensures
        s@ == seq![digit_char(d as nat)],
{
    proof {
        reveal_strlit("0");
        reveal_strlit("1");
        reveal_strlit("2");
        reveal_strlit("3");
        reveal_strlit("4");
        reveal_strlit("5");
        reveal_strlit("6");
        reveal_strlit("7");
        reveal_strlit("8");
        reveal_strlit("9");
    }
    match d {
        0 => "0",
        1 => "1",
        2 => "2",
        3 => "3",
        4 => "4",
        5 => "5",
        6 => "6",
        7 => "7",
        8 => "8",
        _ => "9",
    }
}

/// The decimal text of `n`.
pub fn decimal_string(n: u8) -> (s: String)
    ensures
        s@ == decimal(n as nat),
{
    if n < 10 {
        digit_str(n).to_owned()
    } else if n < 100 {
        let tens = digit_str(n / 10).to_owned();
        let s = tens.concat(digit_str(n % 10));
        proof {
            assert(decimal(n as nat) == decimal((n / 10) as nat).push(digit_char((n % 10) as nat)));
            assert(s@ =~= decimal(n as nat));
        }
        s
    } else {
        let hundreds = digit_str(n / 100).to_owned();
        let tens = hundreds.concat(digit_str((n / 10) % 10));
        let s = tens.concat(digit_str(n % 10));
        proof {
            let q = (n / 10) as nat;
            assert(q / 10 == (n / 100) as nat);
            assert(decimal(q) == decimal(q / 10).push(digit_char(q % 10)));
            assert(decimal((n / 100) as nat) == seq![digit_char((n / 100) as nat)]);
            assert(decimal(n as nat) == decimal(q).push(digit_char((n % 10) as nat)));
            assert(s@ =~= decimal(n as nat));
        }
        s
    }
}

} // verus!
