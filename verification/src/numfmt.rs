//! Verified decimal formatting of unsigned integers.

use vstd::prelude::*;
use crate::text::chars_to_string;

verus! {

/// The character for one decimal digit.
pub open spec fn digit_char(d: nat) -> char
    recommends
        d < 10,
{
    ((d + 48) as u8) as char
}

/// The decimal representation of `n`, most significant digit first,
/// without leading zeros (`0` is represented as `"0"`).
pub open spec fn dec_rep(n: nat) -> Seq<char>
    decreases n,
{
    if n < 10 {
        seq![digit_char(n)]
    } else {
        dec_rep(n / 10).push(digit_char(n % 10))
    }
}

/// The decimal digits of `n`, as characters.
pub fn u64_to_dec_chars(n: u64) -> (r: Vec<char>)
    ensures
        r@ == dec_rep(n as nat),
{
    let mut low_digits: Vec<char> = Vec::new();
    let mut cur: u64 = n;
    while cur >= 10
        invariant
            dec_rep(n as nat) == dec_rep(cur as nat) + low_digits@.reverse(),
        decreases cur,
    {
        let d = (cur % 10) as u8;
        let next = cur / 10;
        proof {
            assert(dec_rep(cur as nat) == dec_rep((cur as nat) / 10).push(
                digit_char((cur as nat) % 10),
            ));
            assert(low_digits@.push(digit_char((cur as nat) % 10)).reverse() =~= seq![
                digit_char((cur as nat) % 10),
            ] + low_digits@.reverse());
            assert(dec_rep((cur as nat) / 10) + (seq![digit_char((cur as nat) % 10)]
                + low_digits@.reverse()) =~= dec_rep(cur as nat) + low_digits@.reverse());
        }
        low_digits.push(((d + 48) as char));
        cur = next;
    }
    let mut r: Vec<char> = Vec::new();
    r.push((((cur % 10) as u8 + 48) as char));
    proof {
        assert(r@ =~= dec_rep(cur as nat));
    }
    let mut i: usize = low_digits.len();
    while i > 0
        invariant
            i <= low_digits@.len(),
            r@ == dec_rep(cur as nat) + low_digits@.subrange(i as int, low_digits@.len() as int)
                .reverse(),
        decreases i,
    {
        i -= 1;
        r.push(low_digits[i]);
        proof {
            assert(low_digits@.subrange(i as int, low_digits@.len() as int).reverse() =~= low_digits@
                .subrange(i + 1, low_digits@.len() as int).reverse().push(low_digits@[i as int]));
        }
    }
    proof {
        assert(low_digits@.subrange(0, low_digits@.len() as int) =~= low_digits@);
        assert(r@ =~= dec_rep(n as nat));
    }
    r
}

/// The decimal representation of `n` as a string.
pub fn u64_to_dec(n: u64) -> (s: String)
    ensures
        s@ == dec_rep(n as nat),
{
    let v = u64_to_dec_chars(n);
    chars_to_string(&v)
}

} // verus!
