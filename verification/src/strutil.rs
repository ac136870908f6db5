//! Small verified helpers for building and comparing strings.

use vstd::prelude::*;
use vstd::string::StrSliceExecFns;

verus! {

/// Relies on std's `String::push`: appends one character at the end.
#[verifier::external_body]
pub(crate) fn push_char(s: &mut String, c: char)
    ensures
        final(s)@ == old(s)@.push(c),
{
    s.push(c);
}

/// The decimal digit character for a value below ten.
pub open spec fn digit_char(d: int) -> char {
    if d == 0 {
        '0'
    } else if d == 1 {
        '1'
    } else if d == 2 {
        '2'
    } else if d == 3 {
        '3'
    } else if d == 4 {
        '4'
    } else if d == 5 {
        '5'
    } else if d == 6 {
        '6'
    } else if d == 7 {
        '7'
    } else if d == 8 {
        '8'
    } else {
        '9'
    }
}

/// The usual decimal rendering of a natural number, most significant digit first.
pub open spec fn dec_of(n: nat) -> Seq<char>
    decreases n,
{
    if n < 10 {
        seq![digit_char(n as int)]
    } else {
        dec_of(n / 10).push(digit_char((n % 10) as int))
    }
}

fn digit_to_char(d: u64) -> (c: char)
    requires
        d < 10,
    ensures
        c == digit_char(d as int),
{
    if d == 0 {
        '0'
    } else if d == 1 {
        '1'
    } else if d == 2 {
        '2'
    } else if d == 3 {
        '3'
    } else if d == 4 {
        '4'
    } else if d == 5 {
        '5'
    } else if d == 6 {
        '6'
    } else if d == 7 {
        '7'
    } else if d == 8 {
        '8'
    } else {
        '9'
    }
}

/// Renders a number in decimal.
pub fn u64_to_string(n: u64) -> (r: String)
    ensures
        r@ == dec_of(n as nat),
{
    let mut digits: Vec<char> = Vec::new();
    let mut m: u64 = n;
    while m >= 10
        invariant
            dec_of(n as nat) == dec_of(m as nat) + digits@.reverse(),
        decreases m,
    {
        let c = digit_to_char(m % 10);
        proof {
            let ghost old_digits = digits@;
            assert(dec_of(m as nat) == dec_of((m / 10) as nat).push(digit_char((m % 10) as int)));
            assert(dec_of((m / 10) as nat) + old_digits.push(c).reverse() =~= dec_of(
                (m / 10) as nat,
            ).push(c) + old_digits.reverse());
        }
        digits.push(c);
        m = m / 10;
    }
    let c = digit_to_char(m);
    proof {
        let ghost old_digits = digits@;
        assert(dec_of(m as nat) == seq![c]);
        assert(dec_of(m as nat) + old_digits.reverse() =~= old_digits.push(c).reverse());
    }
    digits.push(c);
    let ghost all = digits@;
    let mut r = String::new();
    let mut i: usize = 0;
    while i < digits.len()
        invariant
            digits@ == all,
            0 <= i <= all.len(),
            r@ == all.reverse().subrange(0, i as int),
        decreases digits@.len() - i,
    {
        let c = digits[digits.len() - 1 - i];
        proof {
            assert(all.reverse()[i as int] == all[all.len() - 1 - i]);
            assert(r@.push(c) =~= all.reverse().subrange(0, i + 1));
        }
        push_char(&mut r, c);
        i += 1;
    }
    proof {
        assert(r@ =~= all.reverse());
        assert(dec_of(n as nat) =~= dec_of(n as nat) + Seq::<char>::empty().reverse());
    }
    r
}

/// Collects the characters of a string into a vector with the same view.
pub fn str_chars(s: &str) -> (r: Vec<char>)
    ensures
        r@ == s@,
{
    let n = s.unicode_len();
    let mut chars: Vec<char> = Vec::new();
    let mut i: usize = 0;
    while i < n
        invariant
            n == s@.len(),
            0 <= i <= n,
            chars@ =~= s@.subrange(0, i as int),
        decreases n - i,
    {
        let c = s.get_char(i);
        proof {
            assert(chars@.push(c) =~= s@.subrange(0, i + 1));
        }
        chars.push(c);
        i += 1;
    }
    proof {
        assert(chars@ =~= s@);
    }
    chars
}

/// Character-wise string equality, phrased over the views.
pub fn str_eq(a: &str, b: &str) -> (r: bool)
    ensures
        r == (a@ == b@),
{
    let alen = a.unicode_len();
    let blen = b.unicode_len();
    if alen != blen {
        return false;
    }
    let mut i: usize = 0;
    while i < alen
        invariant
            0 <= i <= alen,
            alen == a@.len(),
            alen == b@.len(),
            forall|j: int| 0 <= j < i ==> a@[j] == b@[j],
        decreases alen - i,
    {
        if a.get_char(i) != b.get_char(i) {
            return false;
        }
        i += 1;
    }
    proof {
        assert(a@ =~= b@);
    }
    true
}

} // verus!
