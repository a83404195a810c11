//! Helpers for command-line argument handling.

use vstd::prelude::*;
use vstd::string::StrSliceExecFns;

verus! {

/// Index of the first `=` in `s`, or `s.len()` when there is none.
pub open spec fn first_eq(s: Seq<char>) -> int
    decreases s.len(),
{
    if s.len() == 0 {
        0
    } else if s[0] == '=' {
        0
    } else {
        1 + first_eq(s.drop_first())
    }
}

/// `first_eq` points at the first `=`: nothing before it is a `=`, and it
/// equals the length exactly when the text has no `=` at all.
pub proof fn lemma_first_eq(s: Seq<char>)
    ensures
        0 <= first_eq(s) <= s.len(),
        first_eq(s) < s.len() ==> s[first_eq(s)] == '=',
        forall|k: int| 0 <= k < first_eq(s) ==> s[k] != '=',
    decreases s.len(),
{
    if s.len() == 0 {
    } else if s[0] == '=' {
    } else {
        lemma_first_eq(s.drop_first());
        assert forall|k: int| 0 <= k < first_eq(s) implies s[k] != '=' by {
            if k > 0 {
                assert(s[k] == s.drop_first()[k - 1]);
            }
        }
    }
}

/// Any index with the properties of `first_eq` is `first_eq`.
pub proof fn lemma_first_eq_unique(s: Seq<char>, i: int)
    requires
        0 <= i <= s.len(),
        i < s.len() ==> s[i] == '=',
        forall|k: int| 0 <= k < i ==> s[k] != '=',
    ensures
        i == first_eq(s),
{
    lemma_first_eq(s);
    let f = first_eq(s);
    if i < f {
        assert(s[i] != '=');
    } else if f < i {
        assert(s[f] != '=');
    }
}

/// Splits `s` at its first `=` into the key before it and the value after
/// it, or yields nothing when `s` holds no `=` at all.
pub fn parse_key_val(s: &str) -> (r: Option<(String, String)>)
    ensures
        match r {
            Some(kv) => first_eq(s@) < s@.len() && kv.0@ == s@.subrange(0, first_eq(s@))
                && kv.1@ == s@.subrange(first_eq(s@) + 1, s@.len() as int),
            None => first_eq(s@) == s@.len(),
        },
{
    let n = s.unicode_len();
    let mut i: usize = 0;
    while i < n
        invariant
            i <= n,
            n == s@.len(),
            forall|k: int| 0 <= k < i ==> s@[k] != '=',
        decreases n - i,
    {
        if s.get_char(i) == '=' {
            proof {
                lemma_first_eq_unique(s@, i as int);
            }
            let key = s.substring_char(0, i).to_owned();
            let val = s.substring_char(i + 1, n).to_owned();
            return Some((key, val));
        }
        i = i + 1;
    }
    proof {
        lemma_first_eq_unique(s@, n as int);
    }
    None
}

} // verus!
