//! Small text operations: comparison, decimal numbers.
use vstd::prelude::*;

verus! {

/// Whether two texts hold the same characters.
pub fn same_text(a: &str, b: &str) -> (r: bool)
    ensures
        r == (a@ == b@),
{
    let n = a.unicode_len();
    if n != b.unicode_len() {
        return false;
    }
    let mut i: usize = 0;
    while i < n
        invariant
            n == a@.len(),
            n == b@.len(),
            i <= n,
            forall|k: int| 0 <= k < i ==> a@[k] == b@[k],
        decreases n - i,
    {
        if a.get_char(i) != b.get_char(i) {
            return false;
        }
        i = i + 1;
    }
    proof {
        assert(a@ =~= b@);
    }
    true
}

/// Whether `c` is one of the ASCII digits `0` to `9`.
pub open spec fn is_digit(c: char) -> bool {
    '0' <= c <= '9'
}

/// The value of an ASCII digit.
pub open spec fn digit_value(c: char) -> nat {
    ((c as u32) - ('0' as u32)) as nat
}

/// Whether a text is a non-empty run of ASCII digits.
pub open spec fn all_digits(s: Seq<char>) -> bool {
    s.len() > 0 && forall|k: int| 0 <= k < s.len() ==> is_digit(#[trigger] s[k])
}

/// The value of a run of decimal digits, most significant first.
pub open spec fn decimal_value(s: Seq<char>) -> nat
    decreases s.len(),
{
    if s.len() == 0 {
        0
    } else {
        decimal_value(s.drop_last()) * 10 + digit_value(s.last())
    }
}

/// The digits of `n` in base 10, most significant first, without leading zeros.
pub open spec fn decimal_digits(n: nat) -> Seq<char>
    decreases n,
{
    if n < 10 {
        seq!["0123456789"@[n as int]]
    } else {
        decimal_digits(n / 10).push("0123456789"@[(n % 10) as int])
    }
}

/// The value of `digits` when it is a run of decimal digits that fits in a
/// `usize`; `None` otherwise.
pub fn parse_decimal(digits: &str) -> (r: Option<usize>)
    ensures
        r is Some <==> (all_digits(digits@) && decimal_value(digits@) <= usize::MAX),
        r is Some ==> r->0 as nat == decimal_value(digits@),
{
    let n = digits.unicode_len();
    if n == 0 {
        return None;
    }
    let mut v: usize = 0;
    let mut i: usize = 0;
    proof {
        assert(digits@.subrange(0, 0) =~= Seq::<char>::empty());
    }
    while i < n
        invariant
            n == digits@.len(),
            n > 0,
            i <= n,
            forall|k: int| 0 <= k < i ==> is_digit(#[trigger] digits@[k]),
            v as nat == decimal_value(digits@.subrange(0, i as int)),
        decreases n - i,
    {
        let c = digits.get_char(i);
        let ghost prefix = digits@.subrange(0, i as int + 1);
        proof {
            assert(prefix.drop_last() =~= digits@.subrange(0, i as int));
        }
        if c < '0' || c > '9' {
            return None;
        }
        let d = (c as u32 - '0' as u32) as usize;
        match v.checked_mul(10) {
            Some(w) => match w.checked_add(d) {
                Some(x) => {
                    v = x;
                },
                None => {
                    proof {
                        lemma_prefix_value_bounded(digits@, i as int + 1);
                    }
                    return None;
                },
            },
            None => {
                proof {
                    lemma_prefix_value_bounded(digits@, i as int + 1);
                }
                return None;
            },
        }
        i = i + 1;
    }
    proof {
        assert(digits@.subrange(0, n as int) =~= digits@);
    }
    Some(v)
}

/// The value of a run of digits is at least the value of each of its prefixes.
proof fn lemma_prefix_value_bounded(s: Seq<char>, i: int)
    requires
        0 <= i <= s.len(),
    ensures
        decimal_value(s) >= decimal_value(s.subrange(0, i)),
    decreases s.len() - i,
{
    if i < s.len() {
        lemma_prefix_value_bounded(s, i + 1);
        assert(s.subrange(0, i + 1).drop_last() =~= s.subrange(0, i));
    } else {
        assert(s.subrange(0, i) =~= s);
    }
}

/// The one-character text of digit `d`.
fn digit_text(d: usize) -> (r: &'static str)
    requires
        d < 10,
    ensures
        r@ == seq!["0123456789"@[d as int]],
{
    proof {
        reveal_strlit("0123456789");
    }
    let r = "0123456789".substring_char(d, d + 1);
    proof {
        assert(r@ =~= seq!["0123456789"@[d as int]]);
    }
    r
}

/// `n` written in base 10.
pub fn decimal_text(n: usize) -> (r: String)
    ensures
        r@ == decimal_digits(n as nat),
    decreases n,
{
    if n < 10 {
        String::from_str(digit_text(n))
    } else {
        let mut s = decimal_text(n / 10);
        s.append(digit_text(n % 10));
        s
    }
}


/// Writing a number in base 10 and reading it back gives the number.
pub proof fn lemma_decimal_round_trip(n: nat)
    ensures
        all_digits(decimal_digits(n)),
        decimal_value(decimal_digits(n)) == n,
    decreases n,
{
    reveal_strlit("0123456789");
    if n < 10 {
        let s = decimal_digits(n);
        assert(s.drop_last() =~= Seq::<char>::empty());
        assert(digit_value(s.last()) == n);
        assert(decimal_value(s) == decimal_value(s.drop_last()) * 10 + digit_value(s.last()));
    } else {
        lemma_decimal_round_trip(n / 10);
        let s = decimal_digits(n);
        assert(s.drop_last() =~= decimal_digits(n / 10));
        assert(digit_value(s.last()) == n % 10);
        assert((n / 10) * 10 + n % 10 == n) by (nonlinear_arith);
        assert(decimal_value(s) == decimal_value(decimal_digits(n / 10)) * 10 + digit_value(s.last()));
        assert forall|k: int| 0 <= k < s.len() implies is_digit(#[trigger] s[k]) by {
            if k < s.len() - 1 {
                assert(s[k] == decimal_digits(n / 10)[k]);
            }
        }
    }
}

} // verus!
