//! Decimal numerals over character sequences.
//!
//! The incremental file namer derives sibling names by attaching a decimal
//! index to a base name, and its correctness rests on two facts proved
//! here: every number has exactly one canonical numeral, and distinct
//! numbers have distinct numerals.

use vstd::prelude::*;
use vstd::string::StringExecFns;

verus! {

/// The decimal digit character for `d`, which must be below ten.
pub open spec fn digit_char(d: nat) -> char {
    if d == 0 {
        '0'
    } else if d == 1 {
        '1'
    } else if d == 2 {
        '2'
    } else if d == 3 {
        '3'
    } else if d == 4 {
        '4'
    } else if d == 5 {
        '5'
    } else if d == 6 {
        '6'
    } else if d == 7 {
        '7'
    } else if d == 8 {
        '8'
    } else {
        '9'
    }
}

/// The canonical decimal numeral of `n`, most significant digit first,
/// with no leading zeros (`0` is written `"0"`).
pub open spec fn dec_rep(n: nat) -> Seq<char>
    decreases n,
{
    if n < 10 {
        seq![digit_char(n)]
    } else {
        dec_rep(n / 10).push(digit_char(n % 10))
    }
}

/// Whether `c` is one of the ten decimal digit characters.
pub open spec fn is_digit_char(c: char) -> bool {
    c == '0' || c == '1' || c == '2' || c == '3' || c == '4' || c == '5' || c == '6' || c == '7'
        || c == '8' || c == '9'
}

/// A numeral is never empty, and it is a single character exactly for
/// numbers below ten.
pub proof fn lemma_dec_rep_len(n: nat)
    ensures
        dec_rep(n).len() >= 1,
        n < 10 <==> dec_rep(n).len() == 1,
    decreases n,
{
    if n >= 10 {
        lemma_dec_rep_len(n / 10);
    }
}

/// Every character of a numeral is a decimal digit.
pub proof fn lemma_dec_rep_digits(n: nat)
    ensures
        forall|k: int| 0 <= k < dec_rep(n).len() ==> is_digit_char(#[trigger] dec_rep(n)[k]),
    decreases n,
{
    if n >= 10 {
        lemma_dec_rep_digits(n / 10);
    }
    assert forall|k: int| 0 <= k < dec_rep(n).len() implies is_digit_char(
        #[trigger] dec_rep(n)[k],
    ) by {
        if n < 10 {
            assert(dec_rep(n)[k] == digit_char(n));
        } else if k < dec_rep(n / 10).len() {
            assert(dec_rep(n)[k] == dec_rep(n / 10)[k]);
        } else {
            assert(dec_rep(n)[k] == digit_char(n % 10));
        }
    }
}

/// Distinct numbers have distinct numerals.
pub proof fn lemma_dec_rep_injective(a: nat, b: nat)
    ensures
        dec_rep(a) == dec_rep(b) ==> a == b,
    decreases a,
{
    if dec_rep(a) == dec_rep(b) {
        lemma_dec_rep_len(a);
        lemma_dec_rep_len(b);
        if a < 10 && b < 10 {
            assert(dec_rep(a)[0] == dec_rep(b)[0]);
        } else if a >= 10 && b >= 10 {
            assert(dec_rep(a).last() == dec_rep(b).last());
            assert(digit_char(a % 10) == digit_char(b % 10));
            assert(a % 10 == b % 10);
            assert(dec_rep(a).drop_last() =~= dec_rep(a / 10));
            assert(dec_rep(b).drop_last() =~= dec_rep(b / 10));
            lemma_dec_rep_injective(a / 10, b / 10);
            assert(a == 10 * (a / 10) + a % 10);
            assert(b == 10 * (b / 10) + b % 10);
        }
    }
}

/// Digit `d` as a one-character string slice.
fn digit_str(d: u64) -> (r: &'static str)
    requires
        d < 10,
    ensures
        r@ == seq![digit_char(d as nat)],
{
    proof {
        reveal_strlit("0");
        reveal_strlit("1");
        reveal_strlit("2");
        reveal_strlit("3");
        reveal_strlit("4");
        reveal_strlit("5");
        reveal_strlit("6");
        reveal_strlit("7");
        reveal_strlit("8");
        reveal_strlit("9");
    }
    if d == 0 {
        "0"
    } else if d == 1 {
        "1"
    } else if d == 2 {
        "2"
    } else if d == 3 {
        "3"
    } else if d == 4 {
        "4"
    } else if d == 5 {
        "5"
    } else if d == 6 {
        "6"
    } else if d == 7 {
        "7"
    } else if d == 8 {
        "8"
    } else {
        "9"
    }
}

/// The decimal numeral of `n` as a string: `u64_to_dec(170)` is `"170"`.
pub fn u64_to_dec(n: u64) -> (s: String)
    ensures
        s@ == dec_rep(n as nat),
{
    let mut s = String::new();
    let mut m = n;
    loop
        invariant_except_break
            dec_rep(n as nat) == dec_rep(m as nat) + s@,
        ensures
            s@ == dec_rep(n as nat),
        decreases m,
    {
        let ghost m0 = m as nat;
        let ghost s0 = s@;
        let d = m % 10;
        let ds = digit_str(d);
        let prefix = String::from_str(ds);
        s = prefix.concat(s.as_str());
        m = m / 10;
        proof {
            assert(s@ == seq![digit_char(m0 % 10)] + s0);
            if m0 >= 10 {
                assert(dec_rep(m0) == dec_rep(m0 / 10).push(digit_char(m0 % 10)));
                assert(dec_rep(m0 / 10).push(digit_char(m0 % 10)) =~= dec_rep(m0 / 10) + seq![
                    digit_char(m0 % 10),
                ]);
                assert(dec_rep(n as nat) =~= dec_rep(m as nat) + s@);
            } else {
                assert(m0 % 10 == m0);
                assert(dec_rep(m0) =~= seq![digit_char(m0)]);
                assert(s@ =~= dec_rep(n as nat));
            }
        }
        if m == 0 {
            break;
        }
    }
    s
}

} // verus!
