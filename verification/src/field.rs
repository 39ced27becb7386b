//! The scalar field of BLS12-381: integers modulo the order of the pairing groups.
//!
//! An element is held as the 32 big-endian bytes of a number below the
//! order. Its arithmetic is done by `lambdaworks_math`: the four private
//! functions at the end of this module call it, and what their contracts
//! state of it is believed, not proved: that it gives the sum, the
//! difference and the product modulo the order, and for every element but
//! zero an element whose product with it is one.

use crate::error::Groth16Error;
use lambdaworks_math::elliptic_curve::short_weierstrass::curves::bls12_381::default_types::FrElement;
use lambdaworks_math::traits::ByteConversion;
use vstd::arithmetic::div_mod::*;
use vstd::arithmetic::mul::*;
use vstd::arithmetic::power::{lemma_pow0, lemma_pow1, lemma_pow_adds, pow};
use vstd::prelude::*;

verus! {

/// The prime order of the groups G1, G2 and GT, and so the modulus of the scalar field.
pub open spec fn modulus() -> nat {
    0x73eda753299d7d483339d80809a1d80553bda402fffe5bfeffffffff00000001nat
}

/// The number that a big-endian byte string denotes.
pub open spec fn be_value(bytes: Seq<u8>) -> nat
    decreases bytes.len(),
{
    if bytes.len() == 0 {
        0
    } else {
        be_value(bytes.drop_last()) * 256 + bytes.last() as nat
    }
}

/// The big-endian digits of `n`, `len` of them.
pub open spec fn be_bytes(n: nat, len: nat) -> Seq<u8>
    decreases len,
{
    if len == 0 {
        Seq::empty()
    } else {
        be_bytes(n / 256, (len - 1) as nat).push((n % 256) as u8)
    }
}

/// Sum in the field.
pub open spec fn field_add(a: nat, b: nat) -> nat {
    (a + b) % modulus()
}

/// Difference in the field.
pub open spec fn field_sub(a: nat, b: nat) -> nat {
    ((a as int - b as int) % (modulus() as int)) as nat
}

/// Additive inverse in the field.
pub open spec fn field_neg(a: nat) -> nat {
    field_sub(0, a)
}

/// Product in the field.
pub open spec fn field_mul(a: nat, b: nat) -> nat {
    (a * b) % modulus()
}

/// Power in the field, by a natural exponent.
pub open spec fn field_pow(a: nat, e: nat) -> nat
    decreases e,
{
    if e == 0 {
        1
    } else {
        field_mul(a, field_pow(a, (e - 1) as nat))
    }
}

/// `x` is the multiplicative inverse of `a`.
pub open spec fn is_inverse(a: nat, x: nat) -> bool {
    x < modulus() && field_mul(a, x) == 1
}

/// The multiplicative inverse of `a`, where it has one.
pub open spec fn field_inv(a: nat) -> nat {
    choose|x: nat| is_inverse(a, x)
}

/// A byte string of zeros denotes zero.
pub proof fn lemma_be_value_zeros(bytes: Seq<u8>)
    requires
        forall|i: int| 0 <= i < bytes.len() ==> bytes[i] == 0,
    ensures
        be_value(bytes) == 0,
    decreases bytes.len(),
{
    if bytes.len() > 0 {
        lemma_be_value_zeros(bytes.drop_last());
    }
}

/// Two byte strings of one length that denote the same number are equal.
pub proof fn lemma_be_value_injective(s: Seq<u8>, t: Seq<u8>)
    requires
        s.len() == t.len(),
        be_value(s) == be_value(t),
    ensures
        s == t,
    decreases s.len(),
{
    if s.len() > 0 {
        lemma_be_value_injective(s.drop_last(), t.drop_last());
        assert(s =~= s.drop_last().push(s.last()));
        assert(t =~= t.drop_last().push(t.last()));
    } else {
        assert(s =~= t);
    }
}

/// The digits of the number that a byte string denotes are the byte string.
pub proof fn lemma_be_bytes_of_value(bytes: Seq<u8>)
    ensures
        be_bytes(be_value(bytes), bytes.len()) == bytes,
    decreases bytes.len(),
{
    if bytes.len() > 0 {
        lemma_be_bytes_of_value(bytes.drop_last());
        assert(bytes =~= bytes.drop_last().push(bytes.last()));
    } else {
        assert(bytes =~= Seq::<u8>::empty());
    }
}

/// The number of digits asked for is the number of digits given.
pub proof fn lemma_be_bytes_len(n: nat, len: nat)
    ensures
        be_bytes(n, len).len() == len,
    decreases len,
{
    if len > 0 {
        lemma_be_bytes_len(n / 256, (len - 1) as nat);
    }
}

/// Multiplication in the field is commutative.
pub proof fn lemma_field_mul_commutes(a: nat, b: nat)
    ensures
        field_mul(a, b) == field_mul(b, a),
{
    lemma_mul_is_commutative(a as int, b as int);
}

/// Multiplication in the field is associative.
pub proof fn lemma_field_mul_associates(a: nat, b: nat, c: nat)
    ensures
        field_mul(field_mul(a, b), c) == field_mul(a, field_mul(b, c)),
{
    let m = modulus() as int;
    lemma_mul_mod_noop_left(a as int * b as int, c as int, m);
    lemma_mul_mod_noop_right(a as int, b as int * c as int, m);
    lemma_mul_is_associative(a as int, b as int, c as int);
}

/// A field element has at most one multiplicative inverse.
pub proof fn lemma_inverse_unique(a: nat, x: nat, y: nat)
    requires
        is_inverse(a, x),
        is_inverse(a, y),
    ensures
        x == y,
{
    let m = modulus() as int;
    // x = x * (a * y) = (x * a) * y = y, modulo the order
    lemma_field_mul_associates(x, a, y);
    lemma_field_mul_commutes(x, a);
    assert(field_mul(x, 1) == field_mul(1, y));
    lemma_small_mod(x, modulus());
    lemma_small_mod(y, modulus());
    assert(x * 1 == x) by (nonlinear_arith);
    assert(1 * y == y) by (nonlinear_arith);
}

/// An element of the scalar field, held as the 32 big-endian bytes of its
/// least non-negative representative.
#[derive(Clone, Copy, Debug)]
pub struct Scalar {
    pub(crate) bytes: [u8; 32],
}

impl View for Scalar {
    type V = nat;

    closed spec fn view(&self) -> nat {
        be_value(self.bytes@)
    }
}

/// The values of a run of field elements.
pub open spec fn values(v: Seq<Scalar>) -> Seq<nat> {
    Seq::new(v.len(), |i: int| v[i]@)
}

impl Scalar {
    /// Every stored value is fully reduced.
    #[verifier::type_invariant]
    pub open spec fn is_reduced(self) -> bool {
        self@ < modulus()
    }

    /// The additive neutral element.
    pub fn zero() -> (r: Scalar)
        ensures
            r@ == 0,
    {
        Scalar::from_u8(0)
    }

    /// The multiplicative neutral element.
    pub fn one() -> (r: Scalar)
        ensures
            r@ == 1,
    {
        Scalar::from_u8(1)
    }

    /// The field element of a single byte.
    pub fn from_u8(v: u8) -> (r: Scalar)
        ensures
            r@ == v,
    {
        let mut bytes: [u8; 32] = [0u8; 32];
        bytes[31] = v;
        proof {
            lemma_be_value_zeros(bytes@.drop_last());
        }
        Scalar { bytes }
    }

    /// The field element of an integer.
    pub fn from_u64(v: u64) -> (r: Scalar)
        ensures
            r@ == v,
    {
        // the eight digits of `v` to the base 256, found from the last one up
        let mut digits: [u8; 8] = [0u8; 8];
        let mut rest: u64 = v;
        let mut k: usize = 8;
        proof {
            lemma_be_value_zeros(digits@);
            lemma_pow0(256);
        }
        while k > 0
            invariant
                k <= 8,
                forall|i: int| 0 <= i < k ==> digits@[i] == 0,
                be_value(digits@) + rest * pow(256, (8 - k) as nat) == v,
            decreases k,
        {
            k = k - 1;
            let ghost before = digits@;
            let ghost weight = pow(256, (7 - k) as nat);
            let digit: u8 = (rest % 256) as u8;
            digits[k] = digit;
            rest = rest / 256;
            proof {
                lemma_be_value_place(before, k as int, digit);
                lemma_pow1(256);
                lemma_pow_adds(256, (7 - k) as nat, 1);
                assert((rest * 256 + digit) * weight == rest * (weight * 256) + digit * weight)
                    by (nonlinear_arith);
            }
        }
        proof {
            lemma_pow_256_8();
            assert(rest == 0) by (nonlinear_arith)
                requires
                    rest * 0x1_0000_0000_0000_0000int <= v,
                    v <= u64::MAX,
                    rest >= 0,
            ;
            lemma_small_mod(v as nat, modulus());
        }
        Scalar::from_be_bytes(digits.as_slice())
    }

    /// The field element of a big-endian number of any length, reduced modulo the order.
    pub fn from_be_bytes(bytes: &[u8]) -> (r: Scalar)
        ensures
            r@ == be_value(bytes@) % modulus(),
    {
        let base = fr_add(&Scalar::from_u8(255), &Scalar::from_u8(1));
        let mut acc = Scalar::zero();
        let mut i: usize = 0;
        proof {
            assert(bytes@.take(0) =~= Seq::<u8>::empty());
        }
        while i < bytes.len()
            invariant
                i <= bytes.len(),
                base@ == 256,
                acc@ == be_value(bytes@.take(i as int)) % modulus(),
            decreases bytes.len() - i,
        {
            let digit = Scalar::from_u8(bytes[i]);
            let shifted = fr_mul(&acc, &base);
            proof {
                let x = be_value(bytes@.take(i as int)) as int;
                let m = modulus() as int;
                assert(bytes@.take(i + 1).drop_last() =~= bytes@.take(i as int));
                lemma_mul_mod_noop_left(x, 256, m);
                lemma_add_mod_noop(x * 256, bytes@[i as int] as int, m);
                lemma_small_mod(bytes@[i as int] as nat, modulus());
            }
            acc = fr_add(&shifted, &digit);
            i = i + 1;
        }
        proof {
            assert(bytes@.take(bytes.len() as int) =~= bytes@);
        }
        acc
    }

    /// The 32 big-endian bytes of the least non-negative representative.
    pub fn to_be_bytes(&self) -> (r: [u8; 32])
        ensures
            be_value(r@) == self@,
            r@ == be_bytes(self@, 32),
    {
        proof {
            lemma_be_bytes_of_value(self.bytes@);
        }
        self.bytes
    }

    /// The sum of two field elements.
    pub fn add(&self, other: &Scalar) -> (r: Scalar)
        ensures
            r@ == field_add(self@, other@),
    {
        fr_add(self, other)
    }

    /// The difference of two field elements.
    pub fn sub(&self, other: &Scalar) -> (r: Scalar)
        ensures
            r@ == field_sub(self@, other@),
    {
        fr_sub(self, other)
    }

    /// The additive inverse.
    pub fn neg(&self) -> (r: Scalar)
        ensures
            r@ == field_neg(self@),
            field_add(self@, r@) == 0,
    {
        let r = fr_sub(&Scalar::zero(), self);
        proof {
            use_type_invariant(self);
            lemma_field_neg_cancels(self@);
        }
        r
    }

    /// The product of two field elements.
    pub fn mul(&self, other: &Scalar) -> (r: Scalar)
        ensures
            r@ == field_mul(self@, other@),
    {
        fr_mul(self, other)
    }

    /// The multiplicative inverse; zero has none.
    pub fn inverse(&self) -> (r: Result<Scalar, Groth16Error>)
        ensures
            self@ == 0 ==> r == Err::<Scalar, Groth16Error>(Groth16Error::FieldRangeError),
            self@ != 0 ==> r is Ok && is_inverse(self@, r->Ok_0@) && r->Ok_0@ == field_inv(self@),
    {
        if self.is_zero() {
            Err(Groth16Error::FieldRangeError)
        } else {
            Ok(self.inverse_of_nonzero())
        }
    }

    /// The multiplicative inverse of an element that is known not to be zero.
    pub(crate) fn inverse_of_nonzero(&self) -> (r: Scalar)
        requires
            self@ != 0,
        ensures
            is_inverse(self@, r@),
            r@ == field_inv(self@),
    {
        proof {
            use_type_invariant(self);
        }
        let x = fr_inv(self);
        proof {
            use_type_invariant(&x);
            assert(is_inverse(self@, x@));
            lemma_inverse_unique(self@, x@, field_inv(self@));
        }
        x
    }

    /// The power with a given exponent, by squaring and multiplying.
    pub fn pow(&self, exponent: u64) -> (r: Scalar)
        ensures
            r@ == field_pow(self@, exponent as nat),
    {
        let mut result = Scalar::one();
        let mut base = *self;
        let mut e: u64 = exponent;
        proof {
            use_type_invariant(self);
            lemma_field_pow_reduced(self@, exponent as nat);
            lemma_field_mul_one(field_pow(self@, exponent as nat));
        }
        while e > 0
            invariant
                field_mul(result@, field_pow(base@, e as nat)) == field_pow(self@, exponent as nat),
            decreases e,
        {
            let ghost b = base@;
            let ghost before = result@;
            let ghost half = (e / 2) as nat;
            proof {
                lemma_field_pow_square(b, half);
            }
            if e % 2 == 1 {
                proof {
                    // before * b^(2 half + 1) = (before * b) * (b * b)^half
                    lemma_field_mul_associates(before, b, field_pow(b, 2 * half));
                }
                result = result.mul(&base);
            }
            base = base.mul(&base);
            e = e / 2;
        }
        proof {
            use_type_invariant(&result);
            lemma_field_mul_commutes(result@, 1);
            lemma_field_mul_one(result@);
        }
        result
    }

    /// Whether two field elements are the same.
    pub fn equals(&self, other: &Scalar) -> (r: bool)
        ensures
            r == (self@ == other@),
    {
        let mut i: usize = 0;
        while i < 32
            invariant
                i <= 32,
                forall|j: int| 0 <= j < i ==> self.bytes@[j] == other.bytes@[j],
            decreases 32 - i,
        {
            if self.bytes[i] != other.bytes[i] {
                proof {
                    if self@ == other@ {
                        lemma_be_value_injective(self.bytes@, other.bytes@);
                    }
                }
                return false;
            }
            i = i + 1;
        }
        proof {
            assert(self.bytes@ =~= other.bytes@);
        }
        true
    }

    /// Whether this is the additive neutral element.
    pub fn is_zero(&self) -> (r: bool)
        ensures
            r == (self@ == 0),
    {
        self.equals(&Scalar::zero())
    }

    /// Overwrites the element with zero, so that a secret does not outlive its use.
    pub fn clear(&mut self)
        ensures
            final(self)@ == 0,
    {
        *self = Scalar::zero();
    }
}

/// Replacing a zero digit by `d` adds `d` times the weight of its place.
proof fn lemma_be_value_place(digits: Seq<u8>, k: int, d: u8)
    requires
        0 <= k < digits.len(),
        digits[k] == 0,
    ensures
        be_value(digits.update(k, d)) == be_value(digits) + d * pow(
            256,
            (digits.len() - 1 - k) as nat,
        ),
    decreases digits.len(),
{
    let n = digits.len() as int;
    if k == n - 1 {
        assert(digits.update(k, d).drop_last() =~= digits.drop_last());
        lemma_pow0(256);
    } else {
        let front = be_value(digits.drop_last());
        let weight = pow(256, (n - 2 - k) as nat);
        assert(digits.update(k, d).drop_last() =~= digits.drop_last().update(k, d));
        lemma_be_value_place(digits.drop_last(), k, d);
        lemma_pow1(256);
        lemma_pow_adds(256, (n - 2 - k) as nat, 1);
        assert((front + d * weight) * 256 == front * 256 + d * (weight * 256))
            by (nonlinear_arith);
    }
}

/// 256 to the 8 is 2 to the 64.
pub proof fn lemma_pow_256_8()
    ensures
        pow(256, 8) == 0x1_0000_0000_0000_0000int,
{
    let first = pow(256, 1);
    let second = pow(256, 2);
    let fourth = pow(256, 4);
    lemma_pow1(256);
    lemma_pow_adds(256, 1, 1);
    lemma_pow_adds(256, 2, 2);
    lemma_pow_adds(256, 4, 4);
    assert(second == 0x1_0000int) by (nonlinear_arith)
        requires
            second == first * first,
            first == 256,
    ;
    assert(fourth == 0x1_0000_0000int) by (nonlinear_arith)
        requires
            fourth == second * second,
            second == 0x1_0000int,
    ;
    assert(fourth * fourth == 0x1_0000_0000_0000_0000int) by (nonlinear_arith)
        requires
            fourth == 0x1_0000_0000int,
    ;
}

/// One times a reduced element is the element.
pub proof fn lemma_field_mul_one(a: nat)
    requires
        a < modulus(),
    ensures
        field_mul(1, a) == a,
{
    assert(1 * a == a) by (nonlinear_arith);
    lemma_small_mod(a, modulus());
}

/// A power in the field is reduced.
pub proof fn lemma_field_pow_reduced(a: nat, e: nat)
    ensures
        field_pow(a, e) < modulus(),
{
    if e > 0 {
        lemma_mod_bound((a * field_pow(a, (e - 1) as nat)) as int, modulus() as int);
    }
}

/// The power of a square is the power with twice the exponent.
pub proof fn lemma_field_pow_square(a: nat, e: nat)
    ensures
        field_pow(field_mul(a, a), e) == field_pow(a, 2 * e),
    decreases e,
{
    if e > 0 {
        lemma_field_pow_square(a, (e - 1) as nat);
        let rest = field_pow(a, (2 * e - 2) as nat);
        assert(field_pow(a, (2 * e - 1) as nat) == field_mul(a, rest));
        lemma_field_mul_associates(a, a, rest);
    }
}

/// The element `p - a` is the additive inverse of `a`, where `p` is the order of the field.
pub proof fn law_additive_inverse(a: nat)
    requires
        a < modulus(),
    ensures
        field_add(a, (modulus() - a) as nat) == 0,
{
}

/// An element and its additive inverse sum to zero.
pub proof fn lemma_field_neg_cancels(a: nat)
    ensures
        field_add(a, field_neg(a)) == 0,
{
    let m = modulus() as int;
    lemma_add_mod_noop_right(a as int, 0 - a as int, m);
}

/// `FrElement`'s `+`: the sum of the two elements modulo the field's order, as
/// the bytes of its least non-negative representative.
#[verifier::external_body]
fn fr_add(a: &Scalar, b: &Scalar) -> (r: Scalar)
    ensures
        r@ == field_add(a@, b@),
{
    let x = FrElement::from_bytes_be(&a.bytes).unwrap();
    let y = FrElement::from_bytes_be(&b.bytes).unwrap();
    Scalar { bytes: (x + y).to_bytes_be().try_into().unwrap() }
}

/// `FrElement`'s `-`: the difference of the two elements modulo the field's
/// order, as the bytes of its least non-negative representative.
#[verifier::external_body]
fn fr_sub(a: &Scalar, b: &Scalar) -> (r: Scalar)
    ensures
        r@ == field_sub(a@, b@),
{
    let x = FrElement::from_bytes_be(&a.bytes).unwrap();
    let y = FrElement::from_bytes_be(&b.bytes).unwrap();
    Scalar { bytes: (x - y).to_bytes_be().try_into().unwrap() }
}

/// `FrElement`'s `*`: the product of the two elements modulo the field's
/// order, as the bytes of its least non-negative representative.
#[verifier::external_body]
fn fr_mul(a: &Scalar, b: &Scalar) -> (r: Scalar)
    ensures
        r@ == field_mul(a@, b@),
{
    let x = FrElement::from_bytes_be(&a.bytes).unwrap();
    let y = FrElement::from_bytes_be(&b.bytes).unwrap();
    Scalar { bytes: (x * y).to_bytes_be().try_into().unwrap() }
}

/// `FrElement::inv`, which fails on zero only: for any other element it gives
/// the element whose product with the argument is one.
#[verifier::external_body]
fn fr_inv(a: &Scalar) -> (r: Scalar)
    requires
        0 < a@ < modulus(),
    ensures
        field_mul(a@, r@) == 1,
{
    let x = FrElement::from_bytes_be(&a.bytes).unwrap();
    Scalar { bytes: x.inv().unwrap().to_bytes_be().try_into().unwrap() }
}

} // verus!
