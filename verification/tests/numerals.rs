//! Numeral rendering and parsing.

use rpc_tester::text::dec_of;
use rpc_tester::{hex_of, parse_hex};

#[test]
fn hex_of_zero() {
    assert_eq!(hex_of(0), "0x0");
}

#[test]
fn hex_of_small_values() {
    assert_eq!(hex_of(1), "0x1");
    assert_eq!(hex_of(10), "0xa");
    assert_eq!(hex_of(15), "0xf");
    assert_eq!(hex_of(16), "0x10");
}

#[test]
fn hex_of_block_number() {
    assert_eq!(hex_of(100), "0x64");
    assert_eq!(hex_of(255), "0xff");
    assert_eq!(hex_of(4096), "0x1000");
}

#[test]
fn hex_of_max() {
    assert_eq!(hex_of(u64::MAX), "0xffffffffffffffff");
}

#[test]
fn dec_of_values() {
    assert_eq!(dec_of(0), "0");
    assert_eq!(dec_of(7), "7");
    assert_eq!(dec_of(100), "100");
    assert_eq!(dec_of(98765), "98765");
}

#[test]
fn parse_hex_roundtrip() {
    for n in [0u64, 1, 15, 16, 100, 255, 4096, u64::MAX] {
        assert_eq!(parse_hex(&hex_of(n)), Some(n));
    }
}

#[test]
fn parse_hex_uppercase_digits() {
    assert_eq!(parse_hex("0xFF"), Some(255));
    assert_eq!(parse_hex("0xDeadBeef"), Some(0xdead_beef));
}

#[test]
fn parse_hex_leading_zeros() {
    assert_eq!(parse_hex("0x0064"), Some(100));
}

#[test]
fn parse_hex_rejects_bad_input() {
    assert_eq!(parse_hex(""), None);
    assert_eq!(parse_hex("0x"), None);
    assert_eq!(parse_hex("64"), None);
    assert_eq!(parse_hex("0xzz"), None);
    assert_eq!(parse_hex("1x64"), None);
}

#[test]
fn parse_hex_rejects_overflow() {
    assert_eq!(parse_hex("0x10000000000000000"), None);
    assert_eq!(parse_hex("0xffffffffffffffff"), Some(u64::MAX));
    assert_eq!(parse_hex("0x00ffffffffffffffff"), Some(u64::MAX));
}
