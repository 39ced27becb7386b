//! The pairing groups of BLS12-381: G1, G2 and the target group of the pairing.
//!
//! A point is held as the big-endian bytes of its projective coordinates
//! `x`, `y`, `z`, each coordinate over the base field as 48 bytes. What the
//! library computes is normalised, so that `z` is one, or `x`, `y`, `z` are
//! zero, one, zero for the point at infinity; what it reads may be any
//! coordinates of a point.
//!
//! The curve arithmetic itself is done by `lambdaworks_math`, which reads a
//! point from its bytes with `deserialize` and writes it with `serialize`.
//! What this module states of that arithmetic, in the contracts of the
//! private functions at its end, is believed, not proved. Each of them names
//! its result after the bytes that go in: the same bytes give the same result.
//! An element of the target group is held as the bytes of its twelve
//! coordinates over the base field.

use crate::error::Groth16Error;
use crate::field::{be_bytes, values, Scalar};
use lambdaworks_math::cyclic_group::IsGroup;
use lambdaworks_math::elliptic_curve::short_weierstrass::curves::bls12_381::curve::BLS12381Curve;
use lambdaworks_math::elliptic_curve::short_weierstrass::curves::bls12_381::field_extension::Degree12ExtensionField;
use lambdaworks_math::elliptic_curve::short_weierstrass::curves::bls12_381::pairing::BLS12381AtePairing;
use lambdaworks_math::elliptic_curve::short_weierstrass::curves::bls12_381::twist::BLS12381TwistCurve;
use lambdaworks_math::elliptic_curve::short_weierstrass::point::Endianness::BigEndian;
use lambdaworks_math::elliptic_curve::short_weierstrass::point::PointFormat::Projective;
use lambdaworks_math::elliptic_curve::short_weierstrass::point::ShortWeierstrassProjectivePoint;
use lambdaworks_math::elliptic_curve::traits::{IsEllipticCurve, IsPairing};
use lambdaworks_math::field::element::FieldElement;
use lambdaworks_math::traits::ByteConversion;
use lambdaworks_math::unsigned_integer::element::U256;
use vstd::prelude::*;

verus! {

type CurveG1 = ShortWeierstrassProjectivePoint<BLS12381Curve>;

type CurveG2 = ShortWeierstrassProjectivePoint<BLS12381TwistCurve>;

type TargetField = FieldElement<Degree12ExtensionField>;

/// Bytes in the encoding of a point of G1.
pub const G1_BYTES: usize = 144;

/// Bytes in the encoding of a point of G2.
pub const G2_BYTES: usize = 288;

/// The encoding of the generator of G1.
pub open spec fn g1_generator_bytes() -> Seq<u8> {
    be_bytes(
        0x17f1d3a73197d7942695638c4fa9ac0fc3688c4f9774b905a14e3a3f171bac586c55e83ff97a1aeffb3af00adb22c6bbnat,
        48,
    ) + be_bytes(
        0x08b3f481e3aaa0f1a09e30ed741d8ae4fcf5e095d5d00af600db18cb2c04b3edd03cc744a2888ae40caa232946c5e7e1nat,
        48,
    ) + be_bytes(1, 48)
}

/// The encoding of the generator of G2.
pub open spec fn g2_generator_bytes() -> Seq<u8> {
    be_bytes(
        0x024aa2b2f08f0a91260805272dc51051c6e47ad4fa403b02b4510b647ae3d1770bac0326a805bbefd48056c8c121bdb8nat,
        48,
    ) + be_bytes(
        0x13e02b6052719f607dacd3a088274f65596bd0d09920b61ab5da61bbdc7f5049334cf11213945d57e5ac7d055d042b7enat,
        48,
    ) + be_bytes(
        0x0ce5d527727d6e118cc9cdc6da2e351aadfd9baa8cbdd3a76d429a695160d12c923ac9cc3baca289e193548608b82801nat,
        48,
    ) + be_bytes(
        0x0606c4a02ea734cc32acd2b02bc28b99cb3e287e85a763af267492ab572e99ab3f370d275cec1da1aaa9075ff05f79benat,
        48,
    ) + be_bytes(1, 48) + be_bytes(0, 48)
}

/// Whether 144 bytes encode a point of the curve that lies in G1.
pub uninterp spec fn g1_valid(bytes: Seq<u8>) -> bool;

/// The encoding of the sum of two points of G1.
pub uninterp spec fn g1_sum(a: Seq<u8>, b: Seq<u8>) -> Seq<u8>;

/// The encoding of a point of G1 taken `k` times.
pub uninterp spec fn g1_multiple(k: nat, p: Seq<u8>) -> Seq<u8>;

/// Whether 288 bytes encode a point of the twisted curve that lies in G2.
pub uninterp spec fn g2_valid(bytes: Seq<u8>) -> bool;

/// The encoding of the sum of two points of G2.
pub uninterp spec fn g2_sum(a: Seq<u8>, b: Seq<u8>) -> Seq<u8>;

/// The encoding of a point of G2 taken `k` times.
pub uninterp spec fn g2_multiple(k: nat, p: Seq<u8>) -> Seq<u8>;

/// The encoding of the product, in the target group, of the pairings of the
/// points of G1 with the points of G2 at the same places.
pub uninterp spec fn pairing_product_value(ps: Seq<Seq<u8>>, qs: Seq<Seq<u8>>) -> Seq<u8>;

/// The encoding of the product of two elements of the target group.
pub uninterp spec fn gt_product(a: Seq<u8>, b: Seq<u8>) -> Seq<u8>;

/// Whether bytes are the encoding of a point of G1.
pub open spec fn is_g1(bytes: Seq<u8>) -> bool {
    bytes.len() == G1_BYTES && g1_valid(bytes)
}

/// Whether bytes are the encoding of a point of G2.
pub open spec fn is_g2(bytes: Seq<u8>) -> bool {
    bytes.len() == G2_BYTES && g2_valid(bytes)
}

/// Whether each of a list of byte strings is the encoding of a point of G1.
pub open spec fn all_g1(points: Seq<Seq<u8>>) -> bool {
    forall|i: int| 0 <= i < points.len() ==> is_g1(#[trigger] points[i])
}

/// Whether each of a list of byte strings is the encoding of a point of G2.
pub open spec fn all_g2(points: Seq<Seq<u8>>) -> bool {
    forall|i: int| 0 <= i < points.len() ==> is_g2(#[trigger] points[i])
}

/// The encoding of the generator of G1 taken `v` times.
pub open spec fn g1_of(v: nat) -> Seq<u8> {
    g1_multiple(v, g1_generator_bytes())
}

/// The encoding of the generator of G2 taken `v` times.
pub open spec fn g2_of(v: nat) -> Seq<u8> {
    g2_multiple(v, g2_generator_bytes())
}

/// The point at infinity of G1: the generator taken zero times.
pub open spec fn g1_identity() -> Seq<u8> {
    g1_multiple(0, g1_generator_bytes())
}

/// The point at infinity of G2: the generator taken zero times.
pub open spec fn g2_identity() -> Seq<u8> {
    g2_multiple(0, g2_generator_bytes())
}

/// The sum of the first `k` of the given points, each taken as many times
/// as the scalar at its place says.
pub open spec fn g1_msm_upto(scalars: Seq<nat>, points: Seq<Seq<u8>>, k: nat) -> Seq<u8>
    decreases k,
{
    if k == 0 {
        g1_identity()
    } else {
        g1_sum(
            g1_msm_upto(scalars, points, (k - 1) as nat),
            g1_multiple(scalars[k - 1], points[k - 1]),
        )
    }
}

/// The sum of the given points of G1, each taken as many times as the scalar
/// at its place says.
pub open spec fn g1_msm(scalars: Seq<nat>, points: Seq<Seq<u8>>) -> Seq<u8> {
    g1_msm_upto(scalars, points, points.len())
}

/// The sum of the first `k` of the given points, each taken as many times
/// as the scalar at its place says.
pub open spec fn g2_msm_upto(scalars: Seq<nat>, points: Seq<Seq<u8>>, k: nat) -> Seq<u8>
    decreases k,
{
    if k == 0 {
        g2_identity()
    } else {
        g2_sum(
            g2_msm_upto(scalars, points, (k - 1) as nat),
            g2_multiple(scalars[k - 1], points[k - 1]),
        )
    }
}

/// The sum of the given points of G2, each taken as many times as the scalar
/// at its place says.
pub open spec fn g2_msm(scalars: Seq<nat>, points: Seq<Seq<u8>>) -> Seq<u8> {
    g2_msm_upto(scalars, points, points.len())
}

/// The views of a list of points of G1.
pub open spec fn g1_point_views(points: Seq<G1Point>) -> Seq<Seq<u8>> {
    Seq::new(points.len(), |i: int| points[i]@)
}

/// The views of a list of points of G2.
pub open spec fn g2_point_views(points: Seq<G2Point>) -> Seq<Seq<u8>> {
    Seq::new(points.len(), |i: int| points[i]@)
}

/// A point of G1.
#[derive(Clone, Copy, Debug)]
pub struct G1Point {
    bytes: [u8; 144],
}

/// A point of G2.
#[derive(Clone, Copy, Debug)]
pub struct G2Point {
    bytes: [u8; 288],
}

/// An element of the target group, as a pairing gives it.
#[derive(Clone, Copy, Debug)]
pub struct PairingResult {
    bytes: [u8; 576],
}

impl View for G1Point {
    type V = Seq<u8>;

    closed spec fn view(&self) -> Seq<u8> {
        self.bytes@
    }
}

impl View for G2Point {
    type V = Seq<u8>;

    closed spec fn view(&self) -> Seq<u8> {
        self.bytes@
    }
}

impl View for PairingResult {
    type V = Seq<u8>;

    closed spec fn view(&self) -> Seq<u8> {
        self.bytes@
    }
}

/// The views of the first halves of a list of pairs.
pub open spec fn g1_views(pairs: Seq<(G1Point, G2Point)>) -> Seq<Seq<u8>> {
    Seq::new(pairs.len(), |i: int| pairs[i].0@)
}

/// The views of the second halves of a list of pairs.
pub open spec fn g2_views(pairs: Seq<(G1Point, G2Point)>) -> Seq<Seq<u8>> {
    Seq::new(pairs.len(), |i: int| pairs[i].1@)
}

/// Copies a slice of known length into an array of 144 bytes.
fn to_array_144(bytes: &[u8]) -> (r: [u8; 144])
    requires
        bytes.len() == 144,
    ensures
        r@ == bytes@,
{
    let mut out: [u8; 144] = [0u8; 144];
    let mut i: usize = 0;
    while i < 144
        invariant
            i <= 144,
            bytes.len() == 144,
            forall|j: int| 0 <= j < i ==> out@[j] == bytes@[j],
        decreases 144 - i,
    {
        out[i] = bytes[i];
        i = i + 1;
    }
    assert(out@ =~= bytes@);
    out
}

/// Copies a slice of known length into an array of 288 bytes.
fn to_array_288(bytes: &[u8]) -> (r: [u8; 288])
    requires
        bytes.len() == 288,
    ensures
        r@ == bytes@,
{
    let mut out: [u8; 288] = [0u8; 288];
    let mut i: usize = 0;
    while i < 288
        invariant
            i <= 288,
            bytes.len() == 288,
            forall|j: int| 0 <= j < i ==> out@[j] == bytes@[j],
        decreases 288 - i,
    {
        out[i] = bytes[i];
        i = i + 1;
    }
    assert(out@ =~= bytes@);
    out
}

impl G1Point {
    /// Every point held lies on the curve and in the subgroup of prime order.
    #[verifier::type_invariant]
    pub open spec fn is_valid(self) -> bool {
        g1_valid(self@)
    }

    /// The fixed generator of G1.
    pub fn base_point() -> (r: G1Point)
        ensures
            r@ == g1_generator_bytes(),
    {
        g1_generator()
    }

    /// The point at infinity.
    pub fn identity() -> (r: G1Point)
        ensures
            r@ == g1_identity(),
    {
        g1_mul(&g1_generator(), &Scalar::zero())
    }

    /// Reads a point, and rejects bytes that are no point of the curve or
    /// a point outside the subgroup of prime order.
    pub fn from_bytes(bytes: &[u8]) -> (r: Result<G1Point, Groth16Error>)
        ensures
            bytes@.len() == G1_BYTES && g1_valid(bytes@) ==> r is Ok && r->Ok_0@ == bytes@,
            !(bytes@.len() == G1_BYTES && g1_valid(bytes@)) ==> r == Err::<G1Point, Groth16Error>(
                Groth16Error::InvalidCurvePoint,
            ),
    {
        if bytes.len() != G1_BYTES {
            return Err(Groth16Error::InvalidCurvePoint);
        }
        let array = to_array_144(bytes);
        if g1_check(&array) {
            Ok(G1Point { bytes: array })
        } else {
            Err(Groth16Error::InvalidCurvePoint)
        }
    }

    /// The bytes that encode the point.
    pub fn to_bytes(&self) -> (r: [u8; 144])
        ensures
            r@ == self@,
    {
        self.bytes
    }

    /// The sum of two points.
    pub fn add(&self, other: &G1Point) -> (r: G1Point)
        ensures
            r@ == g1_sum(self@, other@),
    {
        proof {
            use_type_invariant(self);
            use_type_invariant(other);
        }
        g1_add(self, other)
    }

    /// The point taken `k` times.
    pub fn mul(&self, k: &Scalar) -> (r: G1Point)
        ensures
            r@ == g1_multiple(k@, self@),
    {
        proof {
            use_type_invariant(self);
        }
        g1_mul(self, k)
    }
}

impl G2Point {
    /// Every point held lies on the curve and in the subgroup of prime order.
    #[verifier::type_invariant]
    pub open spec fn is_valid(self) -> bool {
        g2_valid(self@)
    }

    /// The fixed generator of G2.
    pub fn base_point() -> (r: G2Point)
        ensures
            r@ == g2_generator_bytes(),
    {
        g2_generator()
    }

    /// The point at infinity.
    pub fn identity() -> (r: G2Point)
        ensures
            r@ == g2_identity(),
    {
        g2_mul(&g2_generator(), &Scalar::zero())
    }

    /// Reads a point, and rejects bytes that are no point of the curve or
    /// a point outside the subgroup of prime order.
    pub fn from_bytes(bytes: &[u8]) -> (r: Result<G2Point, Groth16Error>)
        ensures
            bytes@.len() == G2_BYTES && g2_valid(bytes@) ==> r is Ok && r->Ok_0@ == bytes@,
            !(bytes@.len() == G2_BYTES && g2_valid(bytes@)) ==> r == Err::<G2Point, Groth16Error>(
                Groth16Error::InvalidCurvePoint,
            ),
    {
        if bytes.len() != G2_BYTES {
            return Err(Groth16Error::InvalidCurvePoint);
        }
        let array = to_array_288(bytes);
        if g2_check(&array) {
            Ok(G2Point { bytes: array })
        } else {
            Err(Groth16Error::InvalidCurvePoint)
        }
    }

    /// The bytes that encode the point.
    pub fn to_bytes(&self) -> (r: [u8; 288])
        ensures
            r@ == self@,
    {
        self.bytes
    }

    /// The sum of two points.
    pub fn add(&self, other: &G2Point) -> (r: G2Point)
        ensures
            r@ == g2_sum(self@, other@),
    {
        proof {
            use_type_invariant(self);
            use_type_invariant(other);
        }
        g2_add(self, other)
    }

    /// The point taken `k` times.
    pub fn mul(&self, k: &Scalar) -> (r: G2Point)
        ensures
            r@ == g2_multiple(k@, self@),
    {
        proof {
            use_type_invariant(self);
        }
        g2_mul(self, k)
    }
}

impl PairingResult {
    /// The bytes that encode the element: its twelve coordinates over
    /// the base field, each as 48 big-endian bytes.
    pub fn to_bytes(&self) -> (r: [u8; 576])
        ensures
            r@ == self@,
    {
        self.bytes
    }

    /// The product of two elements, which is the operation of the target group.
    pub fn mul(&self, other: &PairingResult) -> (r: PairingResult)
        ensures
            r@ == gt_product(self@, other@),
    {
        gt_mul(self, other)
    }

    /// Whether two elements of the target group are the same.
    pub fn equals(&self, other: &PairingResult) -> (r: bool)
        ensures
            r == (self@ == other@),
    {
        let mut i: usize = 0;
        while i < 576
            invariant
                i <= 576,
                forall|j: int| 0 <= j < i ==> self.bytes@[j] == other.bytes@[j],
            decreases 576 - i,
        {
            if self.bytes[i] != other.bytes[i] {
                return false;
            }
            i = i + 1;
        }
        assert(self.bytes@ =~= other.bytes@);
        true
    }
}

/// The sum of the points, each taken as many times as the scalar says that
/// stands `start` places further on than the point.
pub fn g1_multi_scalar_mul(scalars: &Vec<Scalar>, start: usize, points: &Vec<G1Point>) -> (r:
    G1Point)
    requires
        start + points@.len() <= scalars@.len(),
    ensures
        r@ == g1_msm(
            values(scalars@).subrange(start as int, start + points@.len()),
            g1_point_views(points@),
        ),
{
    let ghost ss = values(scalars@).subrange(start as int, start + points@.len());
    let ghost ps = g1_point_views(points@);
    let count = scalars.len();
    let mut acc = G1Point::identity();
    let mut i: usize = 0;
    while i < points.len()
        invariant
            i <= points.len(),
            start + points@.len() <= scalars@.len() == count,
            ss == values(scalars@).subrange(start as int, start + points@.len()),
            ps == g1_point_views(points@),
            acc@ == g1_msm_upto(ss, ps, i as nat),
        decreases points.len() - i,
    {
        acc = acc.add(&points[i].mul(&scalars[start + i]));
        i = i + 1;
    }
    acc
}

/// The sum of the points, each taken as many times as the scalar says that
/// stands `start` places further on than the point.
pub fn g2_multi_scalar_mul(scalars: &Vec<Scalar>, start: usize, points: &Vec<G2Point>) -> (r:
    G2Point)
    requires
        start + points@.len() <= scalars@.len(),
    ensures
        r@ == g2_msm(
            values(scalars@).subrange(start as int, start + points@.len()),
            g2_point_views(points@),
        ),
{
    let ghost ss = values(scalars@).subrange(start as int, start + points@.len());
    let ghost ps = g2_point_views(points@);
    let count = scalars.len();
    let mut acc = G2Point::identity();
    let mut i: usize = 0;
    while i < points.len()
        invariant
            i <= points.len(),
            start + points@.len() <= scalars@.len() == count,
            ss == values(scalars@).subrange(start as int, start + points@.len()),
            ps == g2_point_views(points@),
            acc@ == g2_msm_upto(ss, ps, i as nat),
        decreases points.len() - i,
    {
        acc = acc.add(&points[i].mul(&scalars[start + i]));
        i = i + 1;
    }
    acc
}

/// The product of the pairings of each point of G1 with the point of G2
/// beside it; the neutral element for no pairs.
pub fn pairing_product(pairs: &Vec<(G1Point, G2Point)>) -> (r: PairingResult)
    ensures
        r@ == pairing_product_value(g1_views(pairs@), g2_views(pairs@)),
{
    let mut i: usize = 0;
    while i < pairs.len()
        invariant
            i <= pairs.len(),
            forall|j: int| 0 <= j < i ==> g1_valid(#[trigger] pairs@[j].0@),
            forall|j: int| 0 <= j < i ==> g2_valid(#[trigger] pairs@[j].1@),
        decreases pairs.len() - i,
    {
        let pair = &pairs[i];
        proof {
            use_type_invariant(&pair.0);
            use_type_invariant(&pair.1);
        }
        i = i + 1;
    }
    pairing_batch(pairs)
}

/// The pairing of a point of G1 with a point of G2.
pub fn pairing(p: &G1Point, q: &G2Point) -> (r: PairingResult)
    ensures
        r@ == pairing_product_value(seq![p@], seq![q@]),
{
    let mut pairs: Vec<(G1Point, G2Point)> = Vec::new();
    pairs.push((*p, *q));
    proof {
        assert(g1_views(pairs@) =~= seq![p@]);
        assert(g2_views(pairs@) =~= seq![q@]);
    }
    pairing_product(&pairs)
}

/// `BLS12381Curve::generator`: the point whose affine coordinates the
/// curve's definition fixes, with `z` equal to one. It lies in G1.
#[verifier::external_body]
fn g1_generator() -> (r: G1Point)
    ensures
        r@ == g1_generator_bytes(),
        g1_valid(r@),
{
    let g = BLS12381Curve::generator();
    G1Point { bytes: g.serialize(Projective, BigEndian).try_into().unwrap() }
}

/// `is_in_subgroup` on the point of the curve that `deserialize` reads from
/// the bytes: false where it reads none.
#[verifier::external_body]
fn g1_check(bytes: &[u8; 144]) -> (r: bool)
    ensures
        r == g1_valid(bytes@),
{
    match CurveG1::deserialize(bytes, Projective, BigEndian) {
        Ok(p) => p.is_in_subgroup(),
        Err(_) => false,
    }
}

/// `operate_with` on two points of G1: their sum, which lies in G1 again,
/// in normalised coordinates.
#[verifier::external_body]
fn g1_add(a: &G1Point, b: &G1Point) -> (r: G1Point)
    requires
        g1_valid(a@),
        g1_valid(b@),
    ensures
        r@ == g1_sum(a@, b@),
        g1_valid(r@),
{
    let p = CurveG1::deserialize(&a.bytes, Projective, BigEndian).unwrap();
    let q = CurveG1::deserialize(&b.bytes, Projective, BigEndian).unwrap();
    let s = p.operate_with(&q).to_affine();
    G1Point { bytes: s.serialize(Projective, BigEndian).try_into().unwrap() }
}

/// `operate_with_self` on a point of G1 and a scalar: the point added to
/// itself that many times, which lies in G1 again, in normalised coordinates.
#[verifier::external_body]
fn g1_mul(p: &G1Point, k: &Scalar) -> (r: G1Point)
    requires
        g1_valid(p@),
    ensures
        r@ == g1_multiple(k@, p@),
        g1_valid(r@),
{
    let q = CurveG1::deserialize(&p.bytes, Projective, BigEndian).unwrap();
    let e = U256::from_bytes_be(&k.bytes).unwrap();
    let s = q.operate_with_self(e).to_affine();
    G1Point { bytes: s.serialize(Projective, BigEndian).try_into().unwrap() }
}

/// `BLS12381TwistCurve::generator`: the point whose affine coordinates the
/// curve's definition fixes, with `z` equal to one. It lies in G2.
#[verifier::external_body]
fn g2_generator() -> (r: G2Point)
    ensures
        r@ == g2_generator_bytes(),
        g2_valid(r@),
{
    let g = BLS12381TwistCurve::generator();
    G2Point { bytes: g.serialize(Projective, BigEndian).try_into().unwrap() }
}

/// `is_in_subgroup` on the point of the twisted curve that `deserialize`
/// reads from the bytes: false where it reads none.
#[verifier::external_body]
fn g2_check(bytes: &[u8; 288]) -> (r: bool)
    ensures
        r == g2_valid(bytes@),
{
    match CurveG2::deserialize(bytes, Projective, BigEndian) {
        Ok(p) => p.is_in_subgroup(),
        Err(_) => false,
    }
}

/// `operate_with` on two points of G2: their sum, which lies in G2 again,
/// in normalised coordinates.
#[verifier::external_body]
fn g2_add(a: &G2Point, b: &G2Point) -> (r: G2Point)
    requires
        g2_valid(a@),
        g2_valid(b@),
    ensures
        r@ == g2_sum(a@, b@),
        g2_valid(r@),
{
    let p = CurveG2::deserialize(&a.bytes, Projective, BigEndian).unwrap();
    let q = CurveG2::deserialize(&b.bytes, Projective, BigEndian).unwrap();
    let s = p.operate_with(&q).to_affine();
    G2Point { bytes: s.serialize(Projective, BigEndian).try_into().unwrap() }
}

/// `operate_with_self` on a point of G2 and a scalar: the point added to
/// itself that many times, which lies in G2 again, in normalised coordinates.
#[verifier::external_body]
fn g2_mul(p: &G2Point, k: &Scalar) -> (r: G2Point)
    requires
        g2_valid(p@),
    ensures
        r@ == g2_multiple(k@, p@),
        g2_valid(r@),
{
    let q = CurveG2::deserialize(&p.bytes, Projective, BigEndian).unwrap();
    let e = U256::from_bytes_be(&k.bytes).unwrap();
    let s = q.operate_with_self(e).to_affine();
    G2Point { bytes: s.serialize(Projective, BigEndian).try_into().unwrap() }
}

/// `BLS12381AtePairing::compute_batch`: the product of the pairings of the
/// given pairs, which fails only for a point outside its subgroup. The result
/// is written as its twelve coordinates over the base field, each as the 48
/// big-endian bytes of its least non-negative representative.
#[verifier::external_body]
fn pairing_batch(pairs: &Vec<(G1Point, G2Point)>) -> (r: PairingResult)
    requires
        forall|i: int| 0 <= i < pairs@.len() ==> g1_valid(#[trigger] g1_views(pairs@)[i]),
        forall|i: int| 0 <= i < pairs@.len() ==> g2_valid(#[trigger] g2_views(pairs@)[i]),
    ensures
        r@ == pairing_product_value(g1_views(pairs@), g2_views(pairs@)),
{
    let ps: Vec<_> =
        pairs.iter().map(|x| CurveG1::deserialize(&x.0.bytes, Projective, BigEndian).unwrap()).collect();
    let qs: Vec<_> =
        pairs.iter().map(|x| CurveG2::deserialize(&x.1.bytes, Projective, BigEndian).unwrap()).collect();
    let refs: Vec<_> = ps.iter().zip(qs.iter()).collect();
    let e = BLS12381AtePairing::compute_batch(&refs).unwrap();
    let limbs = e.value().iter().flat_map(|s| s.value()).flat_map(|c| c.to_bytes_be());
    PairingResult { bytes: limbs.collect::<Vec<u8>>().try_into().unwrap() }
}

/// `*` on two elements of the degree-twelve extension of the base field,
/// which the target group lies in: their product. Each element is read from
/// its twelve coordinates with `from_bytes_be` and `from_raw`, and the
/// product is written as the pairing is.
#[verifier::external_body]
fn gt_mul(a: &PairingResult, b: &PairingResult) -> (r: PairingResult)
    ensures
        r@ == gt_product(a@, b@),
{
    let load = |x: &[u8]| TargetField::from_raw(x.chunks(288).map(|h| FieldElement::from_raw(
        h.chunks(96).map(|c| FieldElement::from_bytes_be(c).unwrap()).collect::<Vec<_>>().try_into().unwrap(),
    )).collect::<Vec<_>>().try_into().unwrap());
    let e: TargetField = load(&a.bytes) * load(&b.bytes);
    let limbs = e.value().iter().flat_map(|s| s.value()).flat_map(|c| c.to_bytes_be());
    PairingResult { bytes: limbs.collect::<Vec<u8>>().try_into().unwrap() }
}

} // verus!
