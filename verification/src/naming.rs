//! What a realm's name and address must look like before they are listed.
//!
//! Both travel to clients as NUL-terminated byte strings, so neither may hold
//! a NUL byte and both are bounded. An address is `host:port`: a host that is
//! not empty, a colon, and a port of one to five decimal digits that is at
//! most 65535. The host may itself hold colons; the port is what follows the
//! last one.

use vstd::prelude::*;
use vstd::utf8::encode_utf8;

verus! {

/// Most bytes that a name or an address may have.
pub const MAX_TEXT_LEN: usize = 255;

/// Highest port number.
pub const MAX_PORT: u32 = 65535;

/// No byte of `bytes` is NUL.
pub open spec fn no_nul(bytes: Seq<u8>) -> bool {
    forall|i: int| 0 <= i < bytes.len() ==> bytes[i] != 0
}

/// `byte` is an ASCII decimal digit.
pub open spec fn is_digit(byte: u8) -> bool {
    0x30 <= byte <= 0x39
}

/// Every byte of `bytes` is an ASCII decimal digit.
pub open spec fn all_digits(bytes: Seq<u8>) -> bool {
    forall|i: int| 0 <= i < bytes.len() ==> is_digit(#[trigger] bytes[i])
}

/// The number that the decimal digits `digits` write.
pub open spec fn digits_value(digits: Seq<u8>) -> nat
    decreases digits.len(),
{
    if digits.len() == 0 {
        0
    } else {
        digits_value(digits.drop_last()) * 10 + (digits.last() - 0x30) as nat
    }
}

/// `bytes` write a port number.
pub open spec fn valid_port(bytes: Seq<u8>) -> bool {
    &&& 1 <= bytes.len() <= 5
    &&& all_digits(bytes)
    &&& digits_value(bytes) <= MAX_PORT
}

/// `bytes` are a host, a colon at index `colon`, and a port.
pub open spec fn splits_at(bytes: Seq<u8>, colon: int) -> bool {
    &&& 0 < colon < bytes.len()
    &&& bytes[colon] == 0x3a
    &&& valid_port(bytes.subrange(colon + 1, bytes.len() as int))
}

/// `bytes` may stand as a realm's name.
pub open spec fn valid_name(bytes: Seq<u8>) -> bool {
    &&& 0 < bytes.len() <= MAX_TEXT_LEN
    &&& no_nul(bytes)
}

/// `bytes` may stand as a realm's address.
pub open spec fn valid_address(bytes: Seq<u8>) -> bool {
    &&& bytes.len() <= MAX_TEXT_LEN
    &&& no_nul(bytes)
    &&& exists|colon: int| splits_at(bytes, colon)
}

/// Whether no byte of `bytes` is NUL.
fn has_no_nul(bytes: &[u8]) -> (ok: bool)
    ensures
        ok == no_nul(bytes@),
{
    let mut i: usize = 0;
    while i < bytes.len()
        invariant
            i <= bytes@.len(),
            forall|j: int| 0 <= j < i ==> bytes@[j] != 0,
        decreases bytes@.len() - i,
    {
        if bytes[i] == 0 {
            return false;
        }
        i += 1;
    }
    true
}

/// Whether `name` may stand as a realm's name.
pub fn name_is_valid(name: &str) -> (ok: bool)
    ensures
        ok == valid_name(encode_utf8(name@)),
{
    let bytes = name.as_bytes();
    0 < bytes.len() && bytes.len() <= MAX_TEXT_LEN && has_no_nul(bytes)
}

/// Whether `byte` is an ASCII decimal digit.
fn byte_is_digit(byte: u8) -> (ok: bool)
    ensures
        ok == is_digit(byte),
{
    0x30 <= byte && byte <= 0x39
}

/// The value of at most five decimal digits.
fn read_digits(bytes: &[u8], start: usize) -> (value: u32)
    requires
        start <= bytes@.len(),
        bytes@.len() - start <= 5,
        all_digits(bytes@.subrange(start as int, bytes@.len() as int)),
    ensures
        value == digits_value(bytes@.subrange(start as int, bytes@.len() as int)),
{
    let mut value: u32 = 0;
    let mut i: usize = start;
    let ghost digits = bytes@.subrange(start as int, bytes@.len() as int);
    while i < bytes.len()
        invariant
            start <= i <= bytes@.len(),
            bytes@.len() - start <= 5,
            digits == bytes@.subrange(start as int, bytes@.len() as int),
            all_digits(digits),
            value == digits_value(bytes@.subrange(start as int, i as int)),
            value < pow10(i - start),
        decreases bytes@.len() - i,
    {
        let ghost before = bytes@.subrange(start as int, i as int);
        let ghost after = bytes@.subrange(start as int, i + 1);
        assert(after.drop_last() =~= before);
        assert(after.last() == digits[i - start]);
        assert(is_digit(digits[i - start]));
        value = value * 10 + (bytes[i] - 0x30) as u32;
        i += 1;
    }
    assert(bytes@.subrange(start as int, i as int) =~= digits);
    value
}

/// Ten to the power `n`, for the few `n` that a port's length can take.
spec fn pow10(n: int) -> int {
    if n <= 0 {
        1
    } else if n == 1 {
        10
    } else if n == 2 {
        100
    } else if n == 3 {
        1000
    } else if n == 4 {
        10000
    } else {
        100000
    }
}

/// Whether `address` may stand as a realm's address.
pub fn address_is_valid(address: &str) -> (ok: bool)
    ensures
        ok == valid_address(encode_utf8(address@)),
{
    let bytes = address.as_bytes();
    let n = bytes.len();
    if n > MAX_TEXT_LEN || !has_no_nul(bytes) {
        return false;
    }
    let mut start: usize = n;
    while start > 0 && byte_is_digit(bytes[start - 1])
        invariant
            start <= n,
            n == bytes@.len(),
            all_digits(bytes@.subrange(start as int, n as int)),
        decreases start,
    {
        start -= 1;
        assert forall|i: int| 0 <= i < n - start implies is_digit(
            #[trigger] bytes@.subrange(start as int, n as int)[i],
        ) by {
            if i > 0 {
                assert(bytes@.subrange(start as int, n as int)[i] == bytes@.subrange(
                    start + 1,
                    n as int,
                )[i - 1]);
            }
        }
    }
    // The port can only be the digits at the end, and the colon the byte
    // before them.
    assert forall|colon: int| splits_at(bytes@, colon) implies colon == start - 1 by {
        let port = bytes@.subrange(colon + 1, n as int);
        if colon >= start {
            assert(is_digit(bytes@.subrange(start as int, n as int)[colon - start]));
        } else if colon < start - 1 {
            assert(is_digit(port[start - 1 - (colon + 1)]));
        }
    }
    if start == n || n - start > 5 || start < 2 || bytes[start - 1] != 0x3a {
        return false;
    }
    let value = read_digits(bytes, start);
    proof {
        if value <= MAX_PORT {
            assert(splits_at(bytes@, start - 1));
        }
    }
    value <= MAX_PORT
}

} // verus!
