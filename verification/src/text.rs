//! Small text-building helpers: appending single characters, and rendering
//! block numbers as decimal and hexadecimal numerals.

use vstd::prelude::*;

verus! {

/// Relies on `String::push` of std: appends exactly the one given character
/// to the end of the string.
#[verifier::external_body]
pub fn push_char(s: &mut String, c: char)
    ensures
        final(s)@ == old(s)@.push(c),
{
    s.push(c);
}

/// The decimal digits of `n`, most significant first, empty for 0.
pub open spec fn spec_dec_digits(n: u64) -> Seq<char>
    decreases n,
{
    if n == 0 {
        Seq::empty()
    } else {
        spec_dec_digits(n / 10).push(crate::spec_hex_digit(n % 10))
    }
}

/// The decimal numeral for `n`, as unit titles show block numbers.
pub open spec fn spec_dec(n: u64) -> Seq<char> {
    if n == 0 {
        seq!['0']
    } else {
        spec_dec_digits(n)
    }
}

/// Renders `n` as its decimal numeral.
pub fn dec_of(n: u64) -> (s: String)
    ensures
        s@ == spec_dec(n),
{
    let mut digits: Vec<char> = Vec::new();
    let mut m: u64 = n;
    proof {
        assert(spec_dec_digits(n) =~= spec_dec_digits(m) + digits@);
    }
    while m > 0
        invariant
            spec_dec_digits(n) == spec_dec_digits(m) + digits@,
        decreases m,
    {
        let d = crate::hex_digit(m % 10);
        let ghost prev = digits@;
        digits.insert(0, d);
        proof {
            assert(spec_dec_digits(m) + prev =~= spec_dec_digits(m / 10) + digits@);
        }
        m = m / 10;
    }
    let mut s = String::new();
    if n == 0 {
        push_char(&mut s, '0');
        proof {
            assert(s@ =~= spec_dec(n));
        }
        return s;
    }
    let mut i: usize = 0;
    proof {
        assert(s@ =~= digits@.subrange(0, 0));
    }
    while i < digits.len()
        invariant
            i <= digits.len(),
            digits@ == spec_dec_digits(n),
            s@ == digits@.subrange(0, i as int),
        decreases digits.len() - i,
    {
        push_char(&mut s, digits[i]);
        proof {
            assert(digits@.subrange(0, i as int + 1) =~= digits@.subrange(0, i as int).push(
                digits@[i as int],
            ));
        }
        i += 1;
    }
    proof {
        assert(digits@.subrange(0, digits@.len() as int) =~= digits@);
    }
    s
}

} // verus!

verus! {

/// Decides equality of two strings.
pub fn str_eq(a: &str, b: &str) -> (r: bool)
    ensures
        r == (a@ == b@),
{
    let alen = a.unicode_len();
    let blen = b.unicode_len();
    if alen != blen {
        return false;
    }
    let mut i: usize = 0;
    while i < alen
        invariant
            i <= alen,
            alen == a@.len() && alen == b@.len(),
            forall|k: int| 0 <= k < i ==> a@[k] == b@[k],
        decreases alen - i,
    {
        if a.get_char(i) != b.get_char(i) {
            return false;
        }
        i += 1;
    }
    proof {
        assert(a@ =~= b@);
    }
    true
}

} // verus!
