use groth16::curve::{g1_multi_scalar_mul, pairing, pairing_product, G1Point, G2Point};
use groth16::error::Groth16Error;
use groth16::field::Scalar;
use groth16::codec::encode_scalar;
use groth16::hex::{decode_hex, encode_hex, parse_scalar};

#[test]
fn scalar_sum_and_product_are_exact() {
    let a = Scalar::from_u64(3);
    let b = Scalar::from_u64(4);
    assert!(a.add(&b).equals(&Scalar::from_u64(7)));
    assert!(a.mul(&b).equals(&Scalar::from_u64(12)));
    assert!(b.sub(&a).equals(&Scalar::from_u64(1)));
}

#[test]
fn scalar_minus_one_is_order_minus_one() {
    let x = Scalar::zero().sub(&Scalar::one());
    assert_eq!(
        encode_scalar(&x),
        "0x73eda753299d7d483339d80809a1d80553bda402fffe5bfeffffffff00000000"
    );
}

#[test]
fn scalar_inverse_multiplies_to_one() {
    let a = Scalar::from_u64(123456789);
    let inv = a.inverse().unwrap();
    assert!(a.mul(&inv).equals(&Scalar::one()));
    assert!(!inv.equals(&a));
}

#[test]
fn scalar_power_by_squaring() {
    let three = Scalar::from_u64(3);
    assert!(three.pow(0).equals(&Scalar::one()));
    assert!(three.pow(1).equals(&three));
    assert!(three.pow(13).equals(&Scalar::from_u64(1594323)));
    // the order less one is even, so minus one squared is one
    let minus_one = Scalar::one().neg();
    assert!(minus_one.pow(2).equals(&Scalar::one()));
    assert!(minus_one.pow(3).equals(&minus_one));
    assert!(Scalar::zero().pow(0).equals(&Scalar::one()));
}

#[test]
fn scalar_plus_its_negative_is_zero() {
    for v in [0u64, 1, 77, u64::MAX] {
        let a = Scalar::from_u64(v);
        assert!(a.add(&a.neg()).is_zero());
    }
    assert!(Scalar::from_u64(u64::MAX).add(&Scalar::one()).equals(
        &Scalar::from_be_bytes(&[1, 0, 0, 0, 0, 0, 0, 0, 0])
    ));
}

#[test]
fn scalar_clear_leaves_zero() {
    let mut a = Scalar::from_u64(99);
    a.clear();
    assert!(a.is_zero());
    assert_eq!(a.to_be_bytes(), [0u8; 32]);
}

#[test]
fn scalar_inverse_of_zero_fails() {
    assert_eq!(Scalar::zero().inverse().unwrap_err(), Groth16Error::FieldRangeError);
}

#[test]
fn parse_scalar_reduces_modulo_the_order() {
    let order = "0x73eda753299d7d483339d80809a1d80553bda402fffe5bfeffffffff00000001";
    assert!(parse_scalar(order).unwrap().is_zero());
    let order_plus_five = "73eda753299d7d483339d80809a1d80553bda402fffe5bfeffffffff00000006";
    assert!(parse_scalar(order_plus_five).unwrap().equals(&Scalar::from_u64(5)));
}

#[test]
fn parse_scalar_rejects_malformed_strings() {
    for bad in ["", "0x", "xyz", "0x12g4", "12 ", "0X12", "-1", "é"] {
        assert_eq!(
            parse_scalar(bad).unwrap_err(),
            Groth16Error::ParseError(bad.to_string())
        );
    }
}

#[test]
fn hex_round_trip() {
    let bytes = vec![0u8, 1, 2, 0xab, 0xff];
    let s = encode_hex(&bytes);
    assert_eq!(s, "0x000102abff");
    assert_eq!(decode_hex(&s).unwrap(), bytes);
    assert_eq!(decode_hex("ABCD").unwrap(), vec![0xab, 0xcd]);
    assert_eq!(decode_hex("0xabc").unwrap_err(), Groth16Error::ParseError("0xabc".to_string()));
}

#[test]
fn g1_generator_has_documented_coordinates() {
    let g = G1Point::base_point().to_bytes();
    assert_eq!(
        encode_hex(&g[0..48]),
        "0x17f1d3a73197d7942695638c4fa9ac0fc3688c4f9774b905a14e3a3f171bac586c55e83ff97a1aeffb3af00adb22c6bb"
    );
    assert_eq!(g[143], 1);
    assert!(G1Point::from_bytes(&g).is_ok());
}

#[test]
fn generators_have_the_documented_encoding() {
    let g1 = G1Point::base_point().to_bytes();
    let mut expected = String::from("0x");
    expected.push_str("17f1d3a73197d7942695638c4fa9ac0fc3688c4f9774b905a14e3a3f171bac586c55e83ff97a1aeffb3af00adb22c6bb");
    expected.push_str("08b3f481e3aaa0f1a09e30ed741d8ae4fcf5e095d5d00af600db18cb2c04b3edd03cc744a2888ae40caa232946c5e7e1");
    expected.push_str(&"0".repeat(95));
    expected.push('1');
    assert_eq!(encode_hex(&g1), expected);
    let g2 = G2Point::base_point().to_bytes();
    let mut expected = String::from("0x");
    expected.push_str("024aa2b2f08f0a91260805272dc51051c6e47ad4fa403b02b4510b647ae3d1770bac0326a805bbefd48056c8c121bdb8");
    expected.push_str("13e02b6052719f607dacd3a088274f65596bd0d09920b61ab5da61bbdc7f5049334cf11213945d57e5ac7d055d042b7e");
    expected.push_str("0ce5d527727d6e118cc9cdc6da2e351aadfd9baa8cbdd3a76d429a695160d12c923ac9cc3baca289e193548608b82801");
    expected.push_str("0606c4a02ea734cc32acd2b02bc28b99cb3e287e85a763af267492ab572e99ab3f370d275cec1da1aaa9075ff05f79be");
    expected.push_str(&"0".repeat(95));
    expected.push('1');
    expected.push_str(&"0".repeat(96));
    assert_eq!(encode_hex(&g2), expected);
    assert!(G2Point::from_bytes(&g2).is_ok());
}

#[test]
fn g2_addition_agrees_with_multiplication() {
    let g = G2Point::base_point();
    let three_g = g.add(&g).add(&g);
    assert_eq!(three_g.to_bytes(), g.mul(&Scalar::from_u64(3)).to_bytes());
    assert_ne!(three_g.to_bytes(), g.to_bytes());
    assert_eq!(g.add(&G2Point::identity()).to_bytes(), g.to_bytes());
    let mut off = g.to_bytes();
    off[95] ^= 1;
    assert_eq!(G2Point::from_bytes(&off).unwrap_err(), Groth16Error::InvalidCurvePoint);
}

#[test]
fn multiples_wrap_at_the_order_of_the_group() {
    let g = G1Point::base_point();
    let minus_one = Scalar::one().neg();
    // (r - 1) G + G is the point at infinity
    assert_eq!(g.mul(&minus_one).add(&g).to_bytes(), G1Point::identity().to_bytes());
    // 5 G taken 7 times is 35 G
    let lhs = g.mul(&Scalar::from_u64(5)).mul(&Scalar::from_u64(7));
    assert_eq!(lhs.to_bytes(), g.mul(&Scalar::from_u64(35)).to_bytes());
}

#[test]
fn multi_scalar_multiplication_sums_the_multiples() {
    let g = G1Point::base_point();
    let points = vec![g, g.mul(&Scalar::from_u64(10))];
    let scalars: Vec<Scalar> = [100u64, 2, 3].iter().map(|v| Scalar::from_u64(*v)).collect();
    // 2 G + 3 (10 G), the scalars taken from the second on
    let got = g1_multi_scalar_mul(&scalars, 1, &points);
    assert_eq!(got.to_bytes(), g.mul(&Scalar::from_u64(32)).to_bytes());
    let none = g1_multi_scalar_mul(&scalars, 0, &vec![]);
    assert_eq!(none.to_bytes(), G1Point::identity().to_bytes());
}

#[test]
fn product_of_pairings_depends_on_the_sum_of_products() {
    let p = G1Point::base_point();
    let q = G2Point::base_point();
    let m = |v: u64| Scalar::from_u64(v);
    // 2 * 3 + 4 * 5 = 26 = 13 * 2
    let left = pairing_product(&vec![(p.mul(&m(2)), q.mul(&m(3))), (p.mul(&m(4)), q.mul(&m(5)))]);
    let right = pairing(&p.mul(&m(13)), &q.mul(&m(2)));
    assert!(left.equals(&right));
    assert_eq!(left.to_bytes(), right.to_bytes());
    let empty = pairing_product(&vec![]);
    assert!(empty.equals(&pairing(&G1Point::identity(), &q)));
    assert!(!empty.equals(&left));
}

#[test]
fn product_in_the_target_group_is_the_product_of_pairings() {
    let p = G1Point::base_point();
    let q = G2Point::base_point();
    let m = |v: u64| Scalar::from_u64(v);
    let first = pairing(&p.mul(&m(2)), &q.mul(&m(3)));
    let second = pairing(&p.mul(&m(4)), &q.mul(&m(5)));
    let product = first.mul(&second);
    let both = pairing_product(&vec![(p.mul(&m(2)), q.mul(&m(3))), (p.mul(&m(4)), q.mul(&m(5)))]);
    assert!(product.equals(&both));
    assert!(second.mul(&first).equals(&both));
    assert!(!product.equals(&first));
    // the pairing of nothing is the neutral element
    let one = pairing_product(&vec![]);
    assert!(first.mul(&one).equals(&first));
    assert_eq!(one.to_bytes()[47], 1);
    assert!(one.to_bytes()[48..].iter().all(|b| *b == 0));
}

#[test]
fn g1_addition_agrees_with_multiplication() {
    let g = G1Point::base_point();
    let two_g = g.add(&g);
    assert_eq!(two_g.to_bytes(), g.mul(&Scalar::from_u64(2)).to_bytes());
    assert_ne!(two_g.to_bytes(), g.to_bytes());
    let id = G1Point::identity();
    assert_eq!(g.add(&id).to_bytes(), g.to_bytes());
}

#[test]
fn g1_rejects_bytes_off_the_curve() {
    let mut g = G1Point::base_point().to_bytes();
    g[47] ^= 1;
    assert_eq!(G1Point::from_bytes(&g).unwrap_err(), Groth16Error::InvalidCurvePoint);
    assert_eq!(G1Point::from_bytes(&g[0..100]).unwrap_err(), Groth16Error::InvalidCurvePoint);
}

#[test]
fn pairing_is_bilinear() {
    let a = Scalar::from_u64(5);
    let b = Scalar::from_u64(7);
    let p = G1Point::base_point();
    let q = G2Point::base_point();
    let lhs = pairing(&p.mul(&a), &q.mul(&b));
    let rhs = pairing(&p.mul(&a.mul(&b)), &q);
    assert!(lhs.equals(&rhs));
    assert!(!lhs.equals(&pairing(&p, &q)));
    let product = pairing_product(&vec![(p.mul(&a), q), (p.mul(&b), q)]);
    assert!(product.equals(&pairing(&p.mul(&a.add(&b)), &q)));
}
