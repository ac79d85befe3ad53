//! A differential JSON-RPC testing harness: a catalog of named query probes
//! is run against two endpoints over a block range, the decoded responses are
//! compared structurally, and discrepancies are reported as line diffs.

pub mod args;
pub mod context;
pub mod equality;
pub mod json;
pub mod outcome;
pub mod probe;
pub mod report;
pub mod run;
pub mod status;
pub mod text;

use vstd::prelude::*;

verus! {

/// The digit character for `d`, lowercase, for any base up to 16.
pub open spec fn spec_hex_digit(d: u64) -> char
    recommends
        d < 16,
{
    if d == 0 { '0' }
    else if d == 1 { '1' }
    else if d == 2 { '2' }
    else if d == 3 { '3' }
    else if d == 4 { '4' }
    else if d == 5 { '5' }
    else if d == 6 { '6' }
    else if d == 7 { '7' }
    else if d == 8 { '8' }
    else if d == 9 { '9' }
    else if d == 10 { 'a' }
    else if d == 11 { 'b' }
    else if d == 12 { 'c' }
    else if d == 13 { 'd' }
    else if d == 14 { 'e' }
    else { 'f' }
}

/// The hexadecimal digits of `n`, most significant first, empty for 0.
pub open spec fn spec_hex_digits(n: u64) -> Seq<char>
    decreases n,
{
    if n == 0 {
        Seq::empty()
    } else {
        spec_hex_digits(n / 16).push(spec_hex_digit(n % 16))
    }
}

/// The `0x`-prefixed hexadecimal numeral for `n`, as JSON-RPC block tags
/// are written.
pub open spec fn spec_hex(n: u64) -> Seq<char> {
    if n == 0 {
        seq!['0', 'x', '0']
    } else {
        seq!['0', 'x'] + spec_hex_digits(n)
    }
}

pub(crate) fn hex_digit(d: u64) -> (c: char)
    requires
        d < 16,
    ensures
        c == spec_hex_digit(d),
{
    if d < 10 {
        (48 + d as u8) as char
    } else {
        (87 + d as u8) as char
    }
}

/// Renders `n` as its `0x`-prefixed hexadecimal numeral.
pub fn hex_of(n: u64) -> (s: String)
    ensures
        s@ == spec_hex(n),
{
    let mut digits: Vec<char> = Vec::new();
    let mut m: u64 = n;
    proof {
        assert(spec_hex_digits(n) =~= spec_hex_digits(m) + digits@);
    }
    while m > 0
        invariant
            spec_hex_digits(n) == spec_hex_digits(m) + digits@,
        decreases m,
    {
        let d = hex_digit(m % 16);
        let ghost prev = digits@;
        digits.insert(0, d);
        proof {
            assert(spec_hex_digits(m) + prev =~= spec_hex_digits(m / 16) + digits@);
        }
        m = m / 16;
    }
    let mut s = String::new();
    text::push_char(&mut s, '0');
    text::push_char(&mut s, 'x');
    if n == 0 {
        text::push_char(&mut s, '0');
        proof {
            assert(s@ =~= spec_hex(n));
        }
        return s;
    }
    let mut i: usize = 0;
    proof {
        assert(s@ =~= seq!['0', 'x'] + digits@.subrange(0, 0));
    }
    while i < digits.len()
        invariant
            i <= digits.len(),
            digits@ == spec_hex_digits(n),
            s@ == seq!['0', 'x'] + digits@.subrange(0, i as int),
        decreases digits.len() - i,
    {
        text::push_char(&mut s, digits[i]);
        proof {
            assert(seq!['0', 'x'] + digits@.subrange(0, i as int + 1) =~= (seq!['0', 'x']
                + digits@.subrange(0, i as int)).push(digits@[i as int]));
        }
        i += 1;
    }
    proof {
        assert(digits@.subrange(0, digits@.len() as int) =~= digits@);
        assert(s@ =~= spec_hex(n));
    }
    s
}

} // verus!

verus! {

/// The numeric value of one hexadecimal digit character, either case.
pub open spec fn spec_hex_val(c: char) -> Option<u64> {
    let u = c as u32;
    if 48 <= u <= 57 {
        Some((u - 48) as u64)
    } else if 97 <= u <= 102 {
        Some((u - 87) as u64)
    } else if 65 <= u <= 70 {
        Some((u - 55) as u64)
    } else {
        None
    }
}

/// The value of a string of hexadecimal digits, most significant first;
/// nothing when any character is no digit. The empty string counts as 0 and
/// is ruled out by the caller.
pub open spec fn hex_digits_val(s: Seq<char>) -> Option<nat>
    decreases s.len(),
{
    if s.len() == 0 {
        Some(0)
    } else {
        match (hex_digits_val(s.drop_last()), spec_hex_val(s.last())) {
            (Some(v), Some(d)) => Some((16 * v + d) as nat),
            _ => None,
        }
    }
}

/// The block number a `0x`-prefixed hexadecimal numeral denotes; nothing
/// when the prefix or a digit is missing or the value needs more than 64
/// bits.
pub open spec fn spec_parse_hex(s: Seq<char>) -> Option<u64> {
    if s.len() >= 3 && s[0] == '0' && s[1] == 'x' {
        match hex_digits_val(s.skip(2)) {
            Some(v) => if v < 0x1_0000_0000_0000_0000 {
                Some(v as u64)
            } else {
                None
            },
            None => None,
        }
    } else {
        None
    }
}

/// A digit string's value dominates each of its prefixes' values.
proof fn lemma_hex_prefix(s: Seq<char>, k: int)
    requires
        0 <= k <= s.len(),
        hex_digits_val(s) is Some,
    ensures
        hex_digits_val(s.take(k)) is Some,
        hex_digits_val(s.take(k))->0 <= hex_digits_val(s)->0,
    decreases s.len(),
{
    if k == s.len() {
        assert(s.take(k) =~= s);
    } else {
        assert(s.take(k) =~= s.drop_last().take(k));
        lemma_hex_prefix(s.drop_last(), k);
    }
}

/// Reads a `0x`-prefixed hexadecimal numeral.
pub fn parse_hex(s: &str) -> (r: Option<u64>)
    ensures
        r == spec_parse_hex(s@),
{
    let n = s.unicode_len();
    if n < 3 || s.get_char(0) != '0' || s.get_char(1) != 'x' {
        return None;
    }
    let ghost digits = s@.skip(2);
    let mut acc: u64 = 0;
    let mut i: usize = 2;
    proof {
        assert(digits.take(0) =~= Seq::<char>::empty());
    }
    while i < n
        invariant
            2 <= i <= n,
            n == s@.len(),
            digits == s@.skip(2),
            hex_digits_val(digits.take(i - 2)) == Some(acc as nat),
        decreases n - i,
    {
        let c = s.get_char(i);
        let u = c as u32;
        let d: u64 = if 48 <= u && u <= 57 {
            (u - 48) as u64
        } else if 97 <= u && u <= 102 {
            (u - 87) as u64
        } else if 65 <= u && u <= 70 {
            (u - 55) as u64
        } else {
            proof {
                assert(digits[i - 2] == c);
                assert(hex_digits_val(digits) is None) by {
                    if hex_digits_val(digits) is Some {
                        lemma_hex_prefix(digits, i - 1);
                        assert(digits.take(i - 1).last() == c);
                        assert(hex_digits_val(digits.take(i - 1)) is None);
                    }
                }
            }
            return None;
        };
        proof {
            assert(spec_hex_val(c) == Some(d));
        }
        if acc > (u64::MAX - d) / 16 {
            proof {
                let stepped = digits.take(i - 1);
                assert(stepped.drop_last() =~= digits.take(i - 2));
                assert(stepped.last() == digits[i - 2] && digits[i - 2] == c);
                assert(hex_digits_val(stepped) == Some((16 * acc + d) as nat));
                assert(16 * (acc as nat) + d > u64::MAX) by {
                    assert(acc > (u64::MAX - d) / 16);
                    assert(acc >= (u64::MAX - d) / 16 + 1);
                    assert(16 * (acc as nat) >= 16 * ((u64::MAX - d) as nat / 16 + 1));
                } 
                if hex_digits_val(digits) is Some {
                    lemma_hex_prefix(digits, i - 1);
                    assert(hex_digits_val(digits)->0 > u64::MAX);
                }
            }
            return None;
        }
        let ghost prev = acc;
        acc = acc * 16 + d;
        proof {
            let stepped = digits.take(i - 1);
            assert(stepped.drop_last() =~= digits.take(i - 2));
            assert(stepped.last() == digits[i - 2] && digits[i - 2] == c);
            assert(hex_digits_val(stepped) == Some((16 * prev + d) as nat));
        }
        i += 1;
    }
    proof {
        assert(digits.take(n - 2) =~= digits);
    }
    Some(acc)
}

} // verus!
