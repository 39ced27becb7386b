//! Hexadecimal strings: the form in which numbers and points cross the boundary.
//!
//! A number is written with an optional `0x` in front of one or more digits,
//! in either case. What the library writes has the `0x`, lower-case digits
//! and two digits for each byte.

use crate::error::Groth16Error;
use crate::field::{be_value, modulus, Scalar};
use vstd::arithmetic::div_mod::{lemma_add_mod_noop, lemma_mul_mod_noop_left, lemma_small_mod};
use vstd::prelude::*;
use vstd::string::*;
use vstd::utf8::is_ascii_chars;

verus! {

/// The value of a hexadecimal digit, or -1 for any other character.
pub open spec fn digit_value(c: char) -> int {
    if '0' <= c <= '9' {
        c as int - 48
    } else if 'a' <= c <= 'f' {
        c as int - 87
    } else if 'A' <= c <= 'F' {
        c as int - 55
    } else {
        -1
    }
}

/// The lower-case digit of a value below sixteen.
pub open spec fn digit_char(v: int) -> char {
    if v < 10 {
        (v + 48) as char
    } else {
        (v + 87) as char
    }
}

/// The characters after the optional `0x`.
pub open spec fn hex_digits(s: Seq<char>) -> Seq<char> {
    if s.len() >= 2 && s[0] == '0' && s[1] == 'x' {
        s.subrange(2, s.len() as int)
    } else {
        s
    }
}

/// Whether a string is a hexadecimal number: at least one digit, and nothing
/// but digits, after the optional `0x`.
pub open spec fn is_hex(s: Seq<char>) -> bool {
    let d = hex_digits(s);
    d.len() > 0 && forall|i: int| 0 <= i < d.len() ==> digit_value(#[trigger] d[i]) >= 0
}

/// The number that a run of digits denotes.
pub open spec fn digits_value(d: Seq<char>) -> nat
    decreases d.len(),
{
    if d.len() == 0 {
        0
    } else {
        digits_value(d.drop_last()) * 16 + digit_value(d.last()) as nat
    }
}

/// The bytes that an even run of digits denotes, two digits to a byte.
pub open spec fn digits_bytes(d: Seq<char>) -> Seq<u8> {
    Seq::new(d.len() / 2, |i: int| (digit_value(d[2 * i]) * 16 + digit_value(d[2 * i + 1])) as u8)
}

/// Whether a string is a hexadecimal string with two digits for each byte.
pub open spec fn is_hex_bytes(s: Seq<char>) -> bool {
    is_hex(s) && hex_digits(s).len() % 2 == 0
}

/// The digits that stand for a run of bytes.
pub open spec fn bytes_digits(bytes: Seq<u8>) -> Seq<char> {
    Seq::new(
        2 * bytes.len(),
        |i: int| if i % 2 == 0 {
            digit_char(bytes[i / 2] as int / 16)
        } else {
            digit_char(bytes[i / 2] as int % 16)
        },
    )
}

/// The string that the library writes for a run of bytes.
pub open spec fn hex_encoding(bytes: Seq<u8>) -> Seq<char> {
    seq!['0', 'x'] + bytes_digits(bytes)
}

/// The failure that carries the string that could not be read.
pub open spec fn is_parse_error<T>(r: Result<T, Groth16Error>, s: Seq<char>) -> bool {
    r is Err && r->Err_0 is ParseError && r->Err_0->ParseError_0@ == s
}

/// Reading back what was written gives the bytes that were written.
pub proof fn lemma_hex_round_trip(bytes: Seq<u8>)
    ensures
        hex_digits(hex_encoding(bytes)) == bytes_digits(bytes),
        bytes.len() > 0 ==> is_hex_bytes(hex_encoding(bytes)),
        digits_bytes(bytes_digits(bytes)) == bytes,
{
    let d = bytes_digits(bytes);
    let s = hex_encoding(bytes);
    assert(s.subrange(2, s.len() as int) =~= d);
    assert forall|i: int| 0 <= i < d.len() implies digit_value(#[trigger] d[i]) >= 0 by {
        lemma_digit_char(bytes[i / 2] as int / 16);
        lemma_digit_char(bytes[i / 2] as int % 16);
    }
    assert forall|i: int| 0 <= i < bytes.len() implies #[trigger] digits_bytes(d)[i]
        == bytes[i] by {
        lemma_digit_char(bytes[i] as int / 16);
        lemma_digit_char(bytes[i] as int % 16);
        assert(d[2 * i] == digit_char(bytes[i] as int / 16));
        assert(d[2 * i + 1] == digit_char(bytes[i] as int % 16));
    }
    assert(digits_bytes(d) =~= bytes);
}

/// The digit written for a value is read as that value.
pub proof fn lemma_digit_char(v: int)
    requires
        0 <= v < 16,
    ensures
        digit_value(digit_char(v)) == v,
{
}

/// The digits of a run of bytes denote the number that the bytes denote.
pub proof fn lemma_digits_value_of_bytes(bytes: Seq<u8>)
    ensures
        digits_value(bytes_digits(bytes)) == be_value(bytes),
    decreases bytes.len(),
{
    let d = bytes_digits(bytes);
    if bytes.len() == 0 {
        assert(d.len() == 0);
    } else {
        let n = bytes.len() as int;
        let rest = bytes.drop_last();
        lemma_digits_value_of_bytes(rest);
        assert(d.drop_last().drop_last() =~= bytes_digits(rest));
        lemma_digit_char(bytes[n - 1] as int / 16);
        lemma_digit_char(bytes[n - 1] as int % 16);
        assert(d.last() == digit_char(bytes[n - 1] as int % 16));
        assert(d.drop_last().last() == d[2 * n - 2]);
        assert(d[2 * n - 2] == digit_char(bytes[n - 1] as int / 16));
        let b = bytes[n - 1] as int;
        assert(digits_value(d) == digits_value(d.drop_last()) * 16 + b % 16);
        assert(digits_value(d.drop_last()) == digits_value(bytes_digits(rest)) * 16 + b / 16);
        assert(be_value(bytes) == be_value(rest) * 256 + b);
    }
}

/// The value of an ASCII hexadecimal digit, if it is one.
fn digit_of(b: u8) -> (r: Option<u8>)
    requires
        b < 128,
    ensures
        digit_value(b as char) >= 0 ==> r == Some(digit_value(b as char) as u8),
        digit_value(b as char) < 0 ==> r is None,
        r is Some ==> r->Some_0 < 16,
{
    if 48 <= b && b <= 57 {
        Some(b - 48)
    } else if 97 <= b && b <= 102 {
        Some(b - 87)
    } else if 65 <= b && b <= 70 {
        Some(b - 55)
    } else {
        None
    }
}

/// The one-character string of a lower-case digit.
fn digit_str(v: u8) -> (r: &'static str)
    requires
        v < 16,
    ensures
        r@ == seq![digit_char(v as int)],
{
    proof {
        reveal_strlit("0");
        reveal_strlit("1");
        reveal_strlit("2");
        reveal_strlit("3");
        reveal_strlit("4");
        reveal_strlit("5");
        reveal_strlit("6");
        reveal_strlit("7");
        reveal_strlit("8");
        reveal_strlit("9");
        reveal_strlit("a");
        reveal_strlit("b");
        reveal_strlit("c");
        reveal_strlit("d");
        reveal_strlit("e");
        reveal_strlit("f");
    }
    let r = if v == 0 {
        "0"
    } else if v == 1 {
        "1"
    } else if v == 2 {
        "2"
    } else if v == 3 {
        "3"
    } else if v == 4 {
        "4"
    } else if v == 5 {
        "5"
    } else if v == 6 {
        "6"
    } else if v == 7 {
        "7"
    } else if v == 8 {
        "8"
    } else if v == 9 {
        "9"
    } else if v == 10 {
        "a"
    } else if v == 11 {
        "b"
    } else if v == 12 {
        "c"
    } else if v == 13 {
        "d"
    } else if v == 14 {
        "e"
    } else {
        "f"
    };
    assert(r@ =~= seq![digit_char(v as int)]);
    r
}

/// Writes bytes as `0x` and two lower-case digits for each byte.
pub fn encode_hex(bytes: &[u8]) -> (r: String)
    ensures
        r@ == hex_encoding(bytes@),
{
    let mut out = String::from_str("0x");
    proof {
        reveal_strlit("0x");
        assert(out@ =~= seq!['0', 'x'] + bytes_digits(bytes@.take(0)));
    }
    let mut i: usize = 0;
    while i < bytes.len()
        invariant
            i <= bytes.len(),
            out@ == seq!['0', 'x'] + bytes_digits(bytes@.take(i as int)),
        decreases bytes.len() - i,
    {
        let b: u8 = bytes[i];
        out.append(digit_str(b / 16));
        out.append(digit_str(b % 16));
        proof {
            let before = bytes_digits(bytes@.take(i as int));
            let after = bytes_digits(bytes@.take(i + 1));
            assert(after =~= before + seq![digit_char(b as int / 16)] + seq![
                digit_char(b as int % 16),
            ]);
        }
        i = i + 1;
    }
    proof {
        assert(bytes@.take(bytes.len() as int) =~= bytes@);
    }
    out
}

/// Where the digits start, for a string of ASCII characters given by its bytes.
fn digits_start(bytes: &[u8]) -> (r: usize)
    ensures
        r == 2 || r == 0,
        r == 2 <==> bytes@.len() >= 2 && bytes@[0] == 48 && bytes@[1] == 120,
{
    if bytes.len() >= 2 && bytes[0] == 48 && bytes[1] == 120 {
        2
    } else {
        0
    }
}

/// Reads a hexadecimal string of two digits for each byte.
pub fn decode_hex(s: &str) -> (r: Result<Vec<u8>, Groth16Error>)
    ensures
        is_hex_bytes(s@) ==> r is Ok && r->Ok_0@ == digits_bytes(hex_digits(s@)),
        !is_hex_bytes(s@) ==> is_parse_error(r, s@),
{
    if !s.is_ascii() {
        proof {
            lemma_not_ascii_not_hex(s@);
        }
        return Err(Groth16Error::ParseError(s.to_owned()));
    }
    let bytes = s.as_bytes();
    proof {
        lemma_ascii_bytes(s);
    }
    let start = digits_start(bytes);
    let ghost d = hex_digits(s@);
    assert(d =~= s@.subrange(start as int, s@.len() as int));
    if bytes.len() == start || (bytes.len() - start) % 2 != 0 {
        return Err(Groth16Error::ParseError(s.to_owned()));
    }
    let mut out: Vec<u8> = Vec::new();
    let mut i: usize = start;
    while i < bytes.len()
        invariant
            start <= i <= bytes.len(),
            (i - start) % 2 == 0,
            (bytes.len() - start) % 2 == 0,
            bytes@.len() == s@.len(),
            d == s@.subrange(start as int, s@.len() as int),
            d == hex_digits(s@),
            forall|j: int|
                0 <= j < s@.len() ==> (#[trigger] bytes@[j]) < 128 && bytes@[j] as char == s@[j],
            forall|j: int| 0 <= j < i - start ==> digit_value(#[trigger] d[j]) >= 0,
            out@.len() == (i - start) / 2,
            forall|j: int| 0 <= j < out@.len() ==> #[trigger] out@[j] == digits_bytes(d)[j],
        decreases bytes.len() - i,
    {
        let hi = digit_of(bytes[i]);
        let lo = digit_of(bytes[i + 1]);
        assert(d[i - start] == s@[i as int]);
        assert(d[i + 1 - start] == s@[i + 1]);
        match (hi, lo) {
            (Some(h), Some(l)) => {
                out.push(h * 16 + l);
                assert(digits_bytes(d)[(i - start) / 2] == (h * 16 + l) as u8);
            },
            _ => {
                assert(digit_value(d[i - start]) < 0 || digit_value(d[i + 1 - start]) < 0);
                return Err(Groth16Error::ParseError(s.to_owned()));
            },
        }
        i = i + 2;
    }
    proof {
        assert(out@ =~= digits_bytes(d));
    }
    Ok(out)
}

/// Reads a hexadecimal number of any length as a field element, reduced
/// modulo the order of the field.
pub fn parse_scalar(s: &str) -> (r: Result<Scalar, Groth16Error>)
    ensures
        is_hex(s@) ==> r is Ok && r->Ok_0@ == digits_value(hex_digits(s@)) % modulus(),
        !is_hex(s@) ==> is_parse_error(r, s@),
{
    if !s.is_ascii() {
        proof {
            lemma_not_ascii_not_hex(s@);
        }
        return Err(Groth16Error::ParseError(s.to_owned()));
    }
    let bytes = s.as_bytes();
    proof {
        lemma_ascii_bytes(s);
    }
    let start = digits_start(bytes);
    let ghost d = hex_digits(s@);
    assert(d =~= s@.subrange(start as int, s@.len() as int));
    if bytes.len() == start {
        return Err(Groth16Error::ParseError(s.to_owned()));
    }
    let sixteen = Scalar::from_u8(16);
    let mut acc = Scalar::zero();
    let mut i: usize = start;
    proof {
        assert(d.take(0) =~= Seq::<char>::empty());
    }
    while i < bytes.len()
        invariant
            start <= i <= bytes.len(),
            bytes@.len() == s@.len(),
            sixteen@ == 16,
            d == s@.subrange(start as int, s@.len() as int),
            d == hex_digits(s@),
            forall|j: int|
                0 <= j < s@.len() ==> (#[trigger] bytes@[j]) < 128 && bytes@[j] as char == s@[j],
            forall|j: int| 0 <= j < i - start ==> digit_value(#[trigger] d[j]) >= 0,
            acc@ == digits_value(d.take(i - start)) % modulus(),
        decreases bytes.len() - i,
    {
        assert(d[i - start] == s@[i as int]);
        match digit_of(bytes[i]) {
            Some(v) => {
                let shifted = acc.mul(&sixteen);
                proof {
                    let x = digits_value(d.take(i - start)) as int;
                    let m = modulus() as int;
                    assert(d.take(i + 1 - start).drop_last() =~= d.take(i - start));
                    lemma_mul_mod_noop_left(x, 16, m);
                    lemma_add_mod_noop(x * 16, v as int, m);
                    lemma_small_mod(v as nat, modulus());
                }
                acc = shifted.add(&Scalar::from_u8(v));
            },
            None => {
                assert(digit_value(d[i - start]) < 0);
                return Err(Groth16Error::ParseError(s.to_owned()));
            },
        }
        i = i + 1;
    }
    proof {
        assert(d.take(d.len() as int) =~= d);
    }
    Ok(acc)
}

/// A string with a character outside ASCII is no hexadecimal number.
proof fn lemma_not_ascii_not_hex(s: Seq<char>)
    requires
        !is_ascii_chars(s),
    ensures
        !is_hex(s),
{
    let i = choose|i: int| 0 <= i < s.len() && !('\0' <= #[trigger] s[i] <= '\u{7f}');
    let d = hex_digits(s);
    if d.len() < s.len() {
        assert(i >= 2);
        assert(d[i - 2] == s[i]);
    } else {
        assert(d[i] == s[i]);
    }
}

/// The bytes of an ASCII string are its characters.
proof fn lemma_ascii_bytes(s: &str)
    requires
        is_ascii(s),
    ensures
        s.spec_bytes().len() == s@.len(),
        forall|j: int|
            0 <= j < s@.len() ==> (#[trigger] s.spec_bytes()[j]) < 128 && s.spec_bytes()[j] as char
                == s@[j],
{
    is_ascii_spec_bytes(s);
    assert forall|j: int| 0 <= j < s@.len() implies (#[trigger] s.spec_bytes()[j]) < 128
        && s.spec_bytes()[j] as char == s@[j] by {
        assert('\0' <= s@[j] <= '\u{7f}');
    }
}

} // verus!
