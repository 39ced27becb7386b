use groth16::codec::{
    decode_g1, decode_g1_list, decode_g2, decode_scalar, encode_g1, encode_g1_list, encode_g2,
    encode_scalar,
};
use groth16::curve::{G1Point, G2Point};
use groth16::error::Groth16Error;
use groth16::field::Scalar;
use groth16::keys::{Proof, VerifyingKey};
use groth16::r1cs::{Circuit, Constraint, Term};
use groth16::records::{
    decode_circuit, decode_proof, decode_proving_key, decode_verifying_key, encode_circuit,
    encode_proof, encode_proving_key, encode_verifying_key,
};
use groth16::setup::{setup, ToxicWaste};

fn keys() -> (groth16::keys::ProvingKey, VerifyingKey) {
    let t = |variable: usize, c: u64| Term { variable, coefficient: Scalar::from_u64(c) };
    let constraints = vec![
        Constraint { a: vec![t(1, 1)], b: vec![t(1, 1)], c: vec![t(2, 1)] },
        Constraint { a: vec![t(2, 3), t(1, 2)], b: vec![t(1, 1)], c: vec![t(0, 1)] },
    ];
    let circuit = Circuit::new(constraints, 3, 1).unwrap();
    let mut waste = ToxicWaste {
        tau: Scalar::from_u64(5),
        alpha: Scalar::from_u64(6),
        beta: Scalar::from_u64(7),
        gamma: Scalar::from_u64(8),
        delta: Scalar::from_u64(9),
    };
    setup(&circuit, &mut waste).unwrap()
}

#[test]
fn proof_round_trip_is_bit_identical() {
    let g1 = G1Point::base_point();
    let g2 = G2Point::base_point();
    let proof = Proof { a: g1.mul(&Scalar::from_u64(3)), b: g2.mul(&Scalar::from_u64(4)), c: g1 };
    let back = decode_proof(&encode_proof(&proof)).unwrap();
    assert_eq!(back.a.to_bytes(), proof.a.to_bytes());
    assert_eq!(back.b.to_bytes(), proof.b.to_bytes());
    assert_eq!(back.c.to_bytes(), proof.c.to_bytes());
}

#[test]
fn verifying_key_round_trip_is_bit_identical() {
    let (_pk, vk) = keys();
    let written = encode_verifying_key(&vk);
    let back = decode_verifying_key(&written).unwrap();
    assert_eq!(back.alpha_g1.to_bytes(), vk.alpha_g1.to_bytes());
    assert_eq!(back.gamma_g2.to_bytes(), vk.gamma_g2.to_bytes());
    assert_eq!(back.ic.len(), vk.ic.len());
    assert_eq!(encode_verifying_key(&back), written);
}

#[test]
fn proving_key_round_trip_is_bit_identical() {
    let (pk, _vk) = keys();
    let written = encode_proving_key(&pk);
    assert_eq!(written.a_query.len(), 3);
    assert_eq!(written.l_query.len(), 2);
    assert_eq!(written.h_query.len(), 1);
    let back = decode_proving_key(&written).unwrap();
    assert_eq!(back.h_query[0].to_bytes(), pk.h_query[0].to_bytes());
    assert_eq!(back.b_g2_query[2].to_bytes(), pk.b_g2_query[2].to_bytes());
    assert_eq!(encode_proving_key(&back), written);
}

#[test]
fn circuit_round_trip_keeps_counts_and_coefficients() {
    let (pk, _vk) = keys();
    let written = encode_circuit(&pk.circuit);
    assert_eq!(written.constraint_count, 2);
    assert_eq!(written.variable_count, 3);
    assert_eq!(written.public_input_count, 1);
    assert_eq!(
        written.constraints[1].a[0].coefficient,
        "0x0000000000000000000000000000000000000000000000000000000000000003"
    );
    assert_eq!(encode_circuit(&decode_circuit(&written).unwrap()), written);
}

#[test]
fn scalar_codec_writes_sixty_four_digits() {
    let x = Scalar::from_u64(0xdead_beef);
    let written = encode_scalar(&x);
    assert_eq!(
        written,
        "0x00000000000000000000000000000000000000000000000000000000deadbeef"
    );
    assert!(decode_scalar(&written).unwrap().equals(&x));
    assert!(decode_scalar("DEADBEEF").unwrap().equals(&x));
    assert!(decode_scalar("0xDeadBeef").unwrap().equals(&x));
    assert_eq!(decode_scalar("0x").unwrap_err(), Groth16Error::ParseError("0x".to_string()));
}

#[test]
fn point_codec_checks_digits_then_the_point() {
    let p = G1Point::base_point().mul(&Scalar::from_u64(11));
    let written = encode_g1(&p);
    assert_eq!(written.len(), 2 + 288);
    assert_eq!(decode_g1(&written).unwrap().to_bytes(), p.to_bytes());
    // without the prefix and in upper case it is the same point
    assert_eq!(decode_g1(&written[2..].to_uppercase()).unwrap().to_bytes(), p.to_bytes());
    // an odd number of digits is no run of bytes
    let odd = &written[..written.len() - 1];
    assert_eq!(decode_g1(odd).unwrap_err(), Groth16Error::ParseError(odd.to_string()));
    // a point of G2 is no point of G1
    let q = encode_g2(&G2Point::base_point());
    assert_eq!(decode_g1(&q).unwrap_err(), Groth16Error::InvalidCurvePoint);
    assert_eq!(decode_g2(&written).unwrap_err(), Groth16Error::InvalidCurvePoint);
    assert_eq!(decode_g2(&q).unwrap().to_bytes(), G2Point::base_point().to_bytes());
}

#[test]
fn point_on_the_curve_outside_the_subgroup_is_rejected() {
    let x = "178212cbe4a3026c051d4f867364b3ea84af623f93233b347ffcd3d6b16f16e0a7aedbe1c78d33c6beca76b2b75c8486";
    let y = "013a8b1347e5b43bc4051754b2a29928b5df78cf03ca3b1f73d0424b09fccdef116c9f0ecbec7420a99b2dd785209e9d";
    let one = format!("{}1", "0".repeat(95));
    let on_curve = format!("0x{}{}{}", x, y, one);
    assert_eq!(decode_g1(&on_curve).unwrap_err(), Groth16Error::InvalidCurvePoint);
    // with another y it is not even on the curve
    let off_curve = format!("0x{}{}{}", x, x, one);
    assert_eq!(decode_g1(&off_curve).unwrap_err(), Groth16Error::InvalidCurvePoint);
}

#[test]
fn point_at_infinity_is_read_from_any_of_its_coordinates() {
    let mut infinity = [0u8; 144];
    infinity[95] = 7;
    let p = G1Point::from_bytes(&infinity).unwrap();
    let g = G1Point::base_point();
    assert_eq!(p.add(&g).to_bytes(), g.to_bytes());
    assert_eq!(p.mul(&Scalar::from_u64(5)).to_bytes(), G1Point::identity().to_bytes());
    let mut expected = [0u8; 144];
    expected[95] = 1;
    assert_eq!(G1Point::identity().to_bytes(), expected);
}

#[test]
fn list_codec_reports_the_first_fault() {
    let g = G1Point::base_point();
    let mut written = encode_g1_list(&vec![g, g.add(&g)]);
    assert_eq!(decode_g1_list(&written).unwrap().len(), 2);
    written.push("zz".to_string());
    written.push("0x00".to_string());
    assert_eq!(decode_g1_list(&written).unwrap_err(), Groth16Error::ParseError("zz".to_string()));
    written[2] = "0x00".to_string();
    assert_eq!(decode_g1_list(&written).unwrap_err(), Groth16Error::InvalidCurvePoint);
    assert!(decode_g1_list(&vec![]).unwrap().is_empty());
}

#[test]
fn each_failure_has_its_message() {
    assert_eq!(
        Groth16Error::ParseError("0xq".to_string()).message(),
        "Failed to parse hex string: 0xq"
    );
    assert_eq!(Groth16Error::FieldRangeError.message(), "division by zero in the field");
    assert_eq!(
        Groth16Error::InvalidCurvePoint.message(),
        "point is not in the prime-order subgroup of its curve"
    );
    assert_eq!(
        Groth16Error::ConstraintUnsatisfied.message(),
        "witness does not satisfy the constraints"
    );
    assert_eq!(
        Groth16Error::SetupSizeError.message(),
        "circuit exceeds the largest evaluation domain"
    );
    assert_eq!(Groth16Error::SerializationError.message(), "malformed record");
}
