//! Keys and proofs as records of hexadecimal strings, the form in which they
//! cross the boundary to a host, and back.
//!
//! A field element is written as 64 digits, a point as the digits of its
//! encoding. Reading checks every string and every point: a string that is no
//! hexadecimal number is a parse error, and bytes that are no point of the
//! right subgroup are an invalid curve point. Of several faults the first one
//! in the order of the record's fields is reported.

use crate::curve::{
    all_g1, all_g2, g1_point_views, g1_valid, g2_point_views, g2_valid, is_g1, is_g2, G1Point,
    G2Point, G1_BYTES, G2_BYTES,
};
use crate::error::{outcome, Failure, Groth16Error};
use crate::field::{
    be_bytes, be_value, lemma_be_bytes_len, lemma_pow_256_8, modulus, values, Scalar,
};
use crate::hex::{
    decode_hex, digits_bytes, digits_value, encode_hex, hex_digits, hex_encoding, is_hex,
    is_hex_bytes, lemma_digits_value_of_bytes, lemma_hex_round_trip, parse_scalar,
};
use vstd::arithmetic::div_mod::lemma_small_mod;
use vstd::arithmetic::power::{lemma_pow0, lemma_pow1, lemma_pow_adds, pow};
use vstd::prelude::*;

verus! {

/// The character sequences of a list of strings.
pub open spec fn strings(v: Seq<String>) -> Seq<Seq<char>> {
    Seq::new(v.len(), |i: int| v[i]@)
}

/// What reading a field element from a string gives.
pub open spec fn scalar_decoding(s: Seq<char>) -> Result<nat, Failure> {
    if is_hex(s) {
        Ok(digits_value(hex_digits(s)) % modulus())
    } else {
        Err(Failure::ParseError(s))
    }
}

/// The string written for a field element.
pub open spec fn scalar_encoding(v: nat) -> Seq<char> {
    hex_encoding(be_bytes(v, 32))
}

/// What reading a point of G1 from a string gives.
pub open spec fn g1_decoding(s: Seq<char>) -> Result<Seq<u8>, Failure> {
    if !is_hex_bytes(s) {
        Err(Failure::ParseError(s))
    } else {
        let bytes = digits_bytes(hex_digits(s));
        if bytes.len() == G1_BYTES && g1_valid(bytes) {
            Ok(bytes)
        } else {
            Err(Failure::InvalidCurvePoint)
        }
    }
}

/// What reading a point of G2 from a string gives.
pub open spec fn g2_decoding(s: Seq<char>) -> Result<Seq<u8>, Failure> {
    if !is_hex_bytes(s) {
        Err(Failure::ParseError(s))
    } else {
        let bytes = digits_bytes(hex_digits(s));
        if bytes.len() == G2_BYTES && g2_valid(bytes) {
            Ok(bytes)
        } else {
            Err(Failure::InvalidCurvePoint)
        }
    }
}

/// What reading a list gives, item by item with `item`: every item's value
/// in order, or the failure of the first item that cannot be read.
pub open spec fn list_decoding<S, V>(
    items: Seq<S>,
    item: spec_fn(S) -> Result<V, Failure>,
) -> Result<Seq<V>, Failure>
    decreases items.len(),
{
    if items.len() == 0 {
        Ok(Seq::empty())
    } else {
        match list_decoding(items.drop_last(), item) {
            Err(f) => Err(f),
            Ok(values) => match item(items.last()) {
                Err(f) => Err(f),
                Ok(v) => Ok(values.push(v)),
            },
        }
    }
}

/// The strings written for a list, item by item with `item`.
pub open spec fn list_encoding<V, S>(items: Seq<V>, item: spec_fn(V) -> S) -> Seq<S> {
    Seq::new(items.len(), |i: int| item(items[i]))
}

/// What reading a list of field elements gives.
pub open spec fn scalars_decoding(items: Seq<Seq<char>>) -> Result<Seq<nat>, Failure> {
    list_decoding(items, |s: Seq<char>| scalar_decoding(s))
}

/// What reading a list of points of G1 gives.
pub open spec fn g1_list_decoding(items: Seq<Seq<char>>) -> Result<Seq<Seq<u8>>, Failure> {
    list_decoding(items, |s: Seq<char>| g1_decoding(s))
}

/// What reading a list of points of G2 gives.
pub open spec fn g2_list_decoding(items: Seq<Seq<char>>) -> Result<Seq<Seq<u8>>, Failure> {
    list_decoding(items, |s: Seq<char>| g2_decoding(s))
}

/// The strings written for a list of points.
pub open spec fn points_encoding(points: Seq<Seq<u8>>) -> Seq<Seq<char>> {
    list_encoding(points, |p: Seq<u8>| hex_encoding(p))
}

/// A failure among the first items of a list is the failure of the whole list.
pub proof fn lemma_list_decoding_fails_early<S, V>(
    items: Seq<S>,
    k: int,
    item: spec_fn(S) -> Result<V, Failure>,
)
    requires
        0 <= k <= items.len(),
        list_decoding(items.take(k), item) is Err,
    ensures
        list_decoding(items, item) == list_decoding(items.take(k), item),
    decreases items.len() - k,
{
    if k < items.len() {
        assert(items.drop_last().take(k) =~= items.take(k));
        lemma_list_decoding_fails_early(items.drop_last(), k, item);
    } else {
        assert(items.take(k) =~= items);
    }
}

/// Reading a list that was written item by item gives the items back,
/// where reading each written item gives that item back.
pub proof fn lemma_list_round_trip<V, S>(
    items: Seq<V>,
    write: spec_fn(V) -> S,
    read: spec_fn(S) -> Result<V, Failure>,
)
    requires
        forall|i: int|
            0 <= i < items.len() ==> read(write(#[trigger] items[i])) == Ok::<V, Failure>(items[i]),
    ensures
        list_decoding(list_encoding(items, write), read) == Ok::<Seq<V>, Failure>(items),
    decreases items.len(),
{
    let written = list_encoding(items, write);
    if items.len() == 0 {
        assert(items =~= Seq::<V>::empty());
    } else {
        assert(written.drop_last() =~= list_encoding(items.drop_last(), write));
        lemma_list_round_trip(items.drop_last(), write, read);
        assert(written.last() == write(items.last()));
        assert(items.drop_last().push(items.last()) =~= items);
    }
}

/// Reading a written field element gives the element back.
pub proof fn lemma_scalar_round_trip(v: nat)
    requires
        v < modulus(),
    ensures
        scalar_decoding(scalar_encoding(v)) == Ok::<nat, Failure>(v),
{
    let bytes = be_bytes(v, 32);
    lemma_be_bytes_len(v, 32);
    lemma_hex_round_trip(bytes);
    lemma_digits_value_of_bytes(bytes);
    lemma_pow_256_32();
    lemma_be_value_of_bytes(v, 32);
    lemma_small_mod(v, modulus());
}

/// 256 to the 32 is 2 to the 256, which is above the order of the field.
proof fn lemma_pow_256_32()
    ensures
        pow(256, 32) > modulus(),
{
    let eighth = pow(256, 8);
    let sixteenth = pow(256, 16);
    let whole = pow(256, 32);
    lemma_pow_256_8();
    lemma_pow_adds(256, 8, 8);
    lemma_pow_adds(256, 16, 16);
    assert(sixteenth == 0x1_0000_0000_0000_0000_0000_0000_0000_0000int) by (nonlinear_arith)
        requires
            sixteenth == eighth * eighth,
            eighth == 0x1_0000_0000_0000_0000int,
    ;
    assert(whole
        == 0x1_0000_0000_0000_0000_0000_0000_0000_0000_0000_0000_0000_0000_0000_0000_0000_0000int)
        by (nonlinear_arith)
        requires
            whole == sixteenth * sixteenth,
            sixteenth == 0x1_0000_0000_0000_0000_0000_0000_0000_0000int,
    ;
}

/// The digits of a number denote the number, where there are enough of them.
pub proof fn lemma_be_value_of_bytes(n: nat, len: nat)
    requires
        n < pow(256, len),
    ensures
        be_value(be_bytes(n, len)) == n,
    decreases len,
{
    if len == 0 {
        lemma_pow0(256);
    } else {
        let rest = (len - 1) as nat;
        lemma_pow1(256);
        lemma_pow_adds(256, rest, 1);
        let p = pow(256, rest);
        assert(n / 256 < p) by (nonlinear_arith)
            requires
                n < p * 256,
        ;
        lemma_be_value_of_bytes(n / 256, rest);
        assert(be_bytes(n, len).drop_last() =~= be_bytes(n / 256, rest));
    }
}

/// Reading a written point of G1 gives the point back.
pub proof fn lemma_g1_round_trip(p: Seq<u8>)
    requires
        is_g1(p),
    ensures
        g1_decoding(hex_encoding(p)) == Ok::<Seq<u8>, Failure>(p),
{
    lemma_hex_round_trip(p);
}

/// Reading a written point of G2 gives the point back.
pub proof fn lemma_g2_round_trip(p: Seq<u8>)
    requires
        is_g2(p),
    ensures
        g2_decoding(hex_encoding(p)) == Ok::<Seq<u8>, Failure>(p),
{
    lemma_hex_round_trip(p);
}

/// Reads a field element from a hexadecimal string.
pub fn decode_scalar(s: &str) -> (r: Result<Scalar, Groth16Error>)
    ensures
        outcome(r, |x: Scalar| x@) == scalar_decoding(s@),
{
    parse_scalar(s)
}

/// Writes a field element as `0x` and 64 digits.
pub fn encode_scalar(x: &Scalar) -> (r: String)
    ensures
        r@ == scalar_encoding(x@),
        x@ < modulus(),
        scalar_decoding(r@) == Ok::<nat, Failure>(x@),
{
    let bytes = x.to_be_bytes();
    proof {
        use_type_invariant(x);
        lemma_scalar_round_trip(x@);
    }
    encode_hex(bytes.as_slice())
}

/// Reads a point of G1 from a hexadecimal string.
pub fn decode_g1(s: &str) -> (r: Result<G1Point, Groth16Error>)
    ensures
        outcome(r, |p: G1Point| p@) == g1_decoding(s@),
{
    match decode_hex(s) {
        Err(e) => Err(e),
        Ok(bytes) => G1Point::from_bytes(bytes.as_slice()),
    }
}

/// Reads a point of G2 from a hexadecimal string.
pub fn decode_g2(s: &str) -> (r: Result<G2Point, Groth16Error>)
    ensures
        outcome(r, |p: G2Point| p@) == g2_decoding(s@),
{
    match decode_hex(s) {
        Err(e) => Err(e),
        Ok(bytes) => G2Point::from_bytes(bytes.as_slice()),
    }
}

/// Writes a point of G1 as `0x` and the digits of its encoding.
pub fn encode_g1(p: &G1Point) -> (r: String)
    ensures
        r@ == hex_encoding(p@),
        is_g1(p@),
        g1_decoding(r@) == Ok::<Seq<u8>, Failure>(p@),
{
    let bytes = p.to_bytes();
    proof {
        use_type_invariant(p);
        lemma_g1_round_trip(p@);
    }
    encode_hex(bytes.as_slice())
}

/// Writes a point of G2 as `0x` and the digits of its encoding.
pub fn encode_g2(p: &G2Point) -> (r: String)
    ensures
        r@ == hex_encoding(p@),
        is_g2(p@),
        g2_decoding(r@) == Ok::<Seq<u8>, Failure>(p@),
{
    let bytes = p.to_bytes();
    proof {
        use_type_invariant(p);
        lemma_g2_round_trip(p@);
    }
    encode_hex(bytes.as_slice())
}

/// Reads a list of field elements, each from a hexadecimal string. The
/// first string that is no hexadecimal number is reported.
pub fn convert_hex_to_field_elements(hex_strings: &[String]) -> (r: Result<
    Vec<Scalar>,
    Groth16Error,
>)
    ensures
        outcome(r, |v: Vec<Scalar>| values(v@)) == scalars_decoding(strings(hex_strings@)),
{
    let ghost items = strings(hex_strings@);
    let ghost read = |s: Seq<char>| scalar_decoding(s);
    let mut out: Vec<Scalar> = Vec::new();
    let mut i: usize = 0;
    proof {
        assert(items.take(0) =~= Seq::<Seq<char>>::empty());
        assert(values(out@) =~= Seq::<nat>::empty());
    }
    while i < hex_strings.len()
        invariant
            i <= hex_strings.len(),
            items == strings(hex_strings@),
            read == (|s: Seq<char>| scalar_decoding(s)),
            list_decoding(items.take(i as int), read) == Ok::<Seq<nat>, Failure>(values(out@)),
        decreases hex_strings.len() - i,
    {
        proof {
            assert(items.take(i + 1).drop_last() =~= items.take(i as int));
            assert(items.take(i + 1).last() == hex_strings@[i as int]@);
        }
        match decode_scalar(hex_strings[i].as_str()) {
            Err(e) => {
                proof {
                    lemma_list_decoding_fails_early(items, i + 1, read);
                }
                return Err(e);
            },
            Ok(x) => {
                let ghost before = values(out@);
                out.push(x);
                assert(values(out@) =~= before.push(x@));
            },
        }
        i = i + 1;
    }
    proof {
        assert(items.take(items.len() as int) =~= items);
    }
    Ok(out)
}

/// Reads a list of points of G1.
pub fn decode_g1_list(list: &Vec<String>) -> (r: Result<Vec<G1Point>, Groth16Error>)
    ensures
        outcome(r, |v: Vec<G1Point>| g1_point_views(v@)) == g1_list_decoding(strings(list@)),
{
    let ghost items = strings(list@);
    let ghost read = |s: Seq<char>| g1_decoding(s);
    let mut out: Vec<G1Point> = Vec::new();
    let mut i: usize = 0;
    proof {
        assert(items.take(0) =~= Seq::<Seq<char>>::empty());
        assert(g1_point_views(out@) =~= Seq::<Seq<u8>>::empty());
    }
    while i < list.len()
        invariant
            i <= list.len(),
            items == strings(list@),
            read == (|s: Seq<char>| g1_decoding(s)),
            list_decoding(items.take(i as int), read) == Ok::<Seq<Seq<u8>>, Failure>(
                g1_point_views(out@),
            ),
        decreases list.len() - i,
    {
        proof {
            assert(items.take(i + 1).drop_last() =~= items.take(i as int));
            assert(items.take(i + 1).last() == list@[i as int]@);
        }
        match decode_g1(list[i].as_str()) {
            Err(e) => {
                proof {
                    lemma_list_decoding_fails_early(items, i + 1, read);
                }
                return Err(e);
            },
            Ok(p) => {
                let ghost before = g1_point_views(out@);
                out.push(p);
                assert(g1_point_views(out@) =~= before.push(p@));
            },
        }
        i = i + 1;
    }
    proof {
        assert(items.take(items.len() as int) =~= items);
    }
    Ok(out)
}

/// Reads a list of points of G2.
pub fn decode_g2_list(list: &Vec<String>) -> (r: Result<Vec<G2Point>, Groth16Error>)
    ensures
        outcome(r, |v: Vec<G2Point>| g2_point_views(v@)) == g2_list_decoding(strings(list@)),
{
    let ghost items = strings(list@);
    let ghost read = |s: Seq<char>| g2_decoding(s);
    let mut out: Vec<G2Point> = Vec::new();
    let mut i: usize = 0;
    proof {
        assert(items.take(0) =~= Seq::<Seq<char>>::empty());
        assert(g2_point_views(out@) =~= Seq::<Seq<u8>>::empty());
    }
    while i < list.len()
        invariant
            i <= list.len(),
            items == strings(list@),
            read == (|s: Seq<char>| g2_decoding(s)),
            list_decoding(items.take(i as int), read) == Ok::<Seq<Seq<u8>>, Failure>(
                g2_point_views(out@),
            ),
        decreases list.len() - i,
    {
        proof {
            assert(items.take(i + 1).drop_last() =~= items.take(i as int));
            assert(items.take(i + 1).last() == list@[i as int]@);
        }
        match decode_g2(list[i].as_str()) {
            Err(e) => {
                proof {
                    lemma_list_decoding_fails_early(items, i + 1, read);
                }
                return Err(e);
            },
            Ok(p) => {
                let ghost before = g2_point_views(out@);
                out.push(p);
                assert(g2_point_views(out@) =~= before.push(p@));
            },
        }
        i = i + 1;
    }
    proof {
        assert(items.take(items.len() as int) =~= items);
    }
    Ok(out)
}

/// Writes a list of points of G1.
pub fn encode_g1_list(points: &Vec<G1Point>) -> (r: Vec<String>)
    ensures
        strings(r@) == points_encoding(g1_point_views(points@)),
        all_g1(g1_point_views(points@)),
{
    let mut out: Vec<String> = Vec::new();
    let mut i: usize = 0;
    while i < points.len()
        invariant
            i <= points.len(),
            out@.len() == i,
            forall|j: int| 0 <= j < i ==> (#[trigger] out@[j])@ == hex_encoding(points@[j]@),
            forall|j: int| 0 <= j < i ==> is_g1(#[trigger] g1_point_views(points@)[j]),
        decreases points.len() - i,
    {
        out.push(encode_g1(&points[i]));
        i = i + 1;
    }
    assert(strings(out@) =~= points_encoding(g1_point_views(points@)));
    out
}

/// Writes a list of points of G2.
pub fn encode_g2_list(points: &Vec<G2Point>) -> (r: Vec<String>)
    ensures
        strings(r@) == points_encoding(g2_point_views(points@)),
        all_g2(g2_point_views(points@)),
{
    let mut out: Vec<String> = Vec::new();
    let mut i: usize = 0;
    while i < points.len()
        invariant
            i <= points.len(),
            out@.len() == i,
            forall|j: int| 0 <= j < i ==> (#[trigger] out@[j])@ == hex_encoding(points@[j]@),
            forall|j: int| 0 <= j < i ==> is_g2(#[trigger] g2_point_views(points@)[j]),
        decreases points.len() - i,
    {
        out.push(encode_g2(&points[i]));
        i = i + 1;
    }
    assert(strings(out@) =~= points_encoding(g2_point_views(points@)));
    out
}

} // verus!
