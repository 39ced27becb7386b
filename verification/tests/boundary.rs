use groth16::boundary::{PROOF_SEED_BYTES, SETUP_SEED_BYTES};
use groth16::{
    convert_hex_to_field_elements, get_exports_info, verify_proof, CircuitParams,
    ConstraintParams, Groth16Error, Groth16ProverWrapper, Groth16SetupWrapper, KeyPair, TermParams,
};

fn entry(variable: usize, coefficient: &str) -> TermParams {
    TermParams { variable, coefficient: coefficient.to_string() }
}

/// One constraint `x * x = y`: variable 0 is `y` (public), variable 1 is `x` (private).
fn square_params() -> CircuitParams {
    CircuitParams {
        constraint_count: 1,
        variable_count: 2,
        public_input_count: 1,
        constraints: vec![ConstraintParams {
            a: vec![entry(1, "0x1")],
            b: vec![entry(1, "1")],
            c: vec![entry(0, "0x01")],
        }],
    }
}

fn setup_seed(fill: u8) -> Vec<u8> {
    (0..SETUP_SEED_BYTES).map(|i| fill.wrapping_add(i as u8).wrapping_mul(31)).collect()
}

fn proof_seed(fill: u8) -> Vec<u8> {
    (0..PROOF_SEED_BYTES).map(|i| fill.wrapping_add(i as u8).wrapping_mul(17)).collect()
}

fn strings(v: &[&str]) -> Vec<String> {
    v.iter().map(|s| s.to_string()).collect()
}

fn square_keys(fill: u8) -> KeyPair {
    let setup = Groth16SetupWrapper::new(&square_params()).unwrap();
    setup.generate_keys(&mut setup_seed(fill)).unwrap()
}

#[test]
fn exports_info_names_the_entry_points() {
    assert_eq!(
        get_exports_info(),
        "Rust module exports: Groth16SetupWrapper, Groth16ProverWrapper, verify_proof"
    );
}

#[test]
fn square_scenario_through_the_boundary() {
    let keys = square_keys(1);
    let prover = Groth16ProverWrapper::new(&keys.proving_key).unwrap();
    let mut seed = proof_seed(2);
    let proof = prover.create_proof(&strings(&["0x9"]), &strings(&["0x3"]), &mut seed).unwrap();
    assert!(seed.iter().all(|b| *b == 0));
    assert_eq!(verify_proof(&keys.verifying_key, &proof, &strings(&["9"])), Ok(true));
    assert_eq!(verify_proof(&keys.verifying_key, &proof, &strings(&["0xa"])), Ok(false));
    assert_eq!(verify_proof(&keys.verifying_key, &proof, &strings(&[])), Ok(false));
}

#[test]
fn inputs_are_told_apart_by_their_value_in_the_field() {
    let keys = square_keys(1);
    let prover = Groth16ProverWrapper::new(&keys.proving_key).unwrap();
    let proof =
        prover.create_proof(&strings(&["0x9"]), &strings(&["0x3"]), &mut proof_seed(2)).unwrap();
    // the order of the field plus nine is nine in the field
    let nine = "0x73eda753299d7d483339d80809a1d80553bda402fffe5bfeffffffff0000000a";
    assert_eq!(verify_proof(&keys.verifying_key, &proof, &strings(&[nine])), Ok(true));
    assert_eq!(verify_proof(&keys.verifying_key, &proof, &strings(&["0x0009"])), Ok(true));
    let eight = "0x73eda753299d7d483339d80809a1d80553bda402fffe5bfeffffffff00000009";
    assert_eq!(verify_proof(&keys.verifying_key, &proof, &strings(&[eight])), Ok(false));
}

#[test]
fn written_keys_and_proofs_are_read_back() {
    let keys = square_keys(3);
    assert!(groth16::records::decode_proving_key(&keys.proving_key).is_ok());
    assert!(groth16::records::decode_verifying_key(&keys.verifying_key).is_ok());
    let prover = Groth16ProverWrapper::new(&keys.proving_key).unwrap();
    let proof =
        prover.create_proof(&strings(&["0x9"]), &strings(&["0x3"]), &mut proof_seed(4)).unwrap();
    let read = groth16::records::decode_proof(&proof).unwrap();
    assert_eq!(groth16::records::encode_proof(&read), proof);
}

#[test]
fn flipped_private_input_is_refused() {
    let keys = square_keys(1);
    let prover = Groth16ProverWrapper::new(&keys.proving_key).unwrap();
    let r = prover.create_proof(&strings(&["0x9"]), &strings(&["0x4"]), &mut proof_seed(2));
    assert_eq!(r.unwrap_err(), Groth16Error::ConstraintUnsatisfied);
}

#[test]
fn keys_are_determined_by_the_seed() {
    let first = square_keys(7);
    let again = square_keys(7);
    let other = square_keys(8);
    assert_eq!(first, again);
    assert_ne!(first.verifying_key, other.verifying_key);
    let mut seed = setup_seed(7);
    let setup = Groth16SetupWrapper::new(&square_params()).unwrap();
    setup.generate_keys(&mut seed).unwrap();
    assert!(seed.iter().all(|b| *b == 0));
}

#[test]
fn each_key_verifies_only_its_own_proofs() {
    let k1 = square_keys(1);
    let k2 = square_keys(2);
    let first_proof = Groth16ProverWrapper::new(&k1.proving_key)
        .unwrap()
        .create_proof(&strings(&["9"]), &strings(&["3"]), &mut proof_seed(5))
        .unwrap();
    let second_proof = Groth16ProverWrapper::new(&k2.proving_key)
        .unwrap()
        .create_proof(&strings(&["9"]), &strings(&["3"]), &mut proof_seed(5))
        .unwrap();
    assert_eq!(verify_proof(&k1.verifying_key, &first_proof, &strings(&["9"])), Ok(true));
    assert_eq!(verify_proof(&k2.verifying_key, &second_proof, &strings(&["9"])), Ok(true));
    assert_eq!(verify_proof(&k1.verifying_key, &second_proof, &strings(&["9"])), Ok(false));
    assert_eq!(verify_proof(&k2.verifying_key, &first_proof, &strings(&["9"])), Ok(false));
}

#[test]
fn seeds_of_the_wrong_length_are_malformed() {
    let setup = Groth16SetupWrapper::new(&square_params()).unwrap();
    let mut short = vec![1u8; 319];
    assert_eq!(setup.generate_keys(&mut short).unwrap_err(), Groth16Error::SerializationError);
    assert!(short.iter().all(|b| *b == 0));
    let keys = square_keys(1);
    let prover = Groth16ProverWrapper::new(&keys.proving_key).unwrap();
    let r = prover.create_proof(&strings(&["9"]), &strings(&["3"]), &mut vec![1u8; 127]);
    assert_eq!(r.unwrap_err(), Groth16Error::SerializationError);
}

#[test]
fn zero_seed_gives_no_keys() {
    let setup = Groth16SetupWrapper::new(&square_params()).unwrap();
    let r = setup.generate_keys(&mut vec![0u8; SETUP_SEED_BYTES]);
    assert_eq!(r.unwrap_err(), Groth16Error::FieldRangeError);
}

#[test]
fn wrong_number_of_inputs_is_malformed() {
    let keys = square_keys(1);
    let prover = Groth16ProverWrapper::new(&keys.proving_key).unwrap();
    let r = prover.create_proof(&strings(&["9", "3"]), &strings(&[]), &mut proof_seed(1));
    assert_eq!(r.unwrap_err(), Groth16Error::SerializationError);
    let r = prover.create_proof(&strings(&["9"]), &strings(&["3", "3"]), &mut proof_seed(1));
    assert_eq!(r.unwrap_err(), Groth16Error::SerializationError);
}

#[test]
fn malformed_hex_carries_the_offending_string() {
    let keys = square_keys(1);
    let prover = Groth16ProverWrapper::new(&keys.proving_key).unwrap();
    let r = prover.create_proof(&strings(&["0x9"]), &strings(&["three"]), &mut proof_seed(1));
    assert_eq!(r.unwrap_err(), Groth16Error::ParseError("three".to_string()));
    let proof =
        prover.create_proof(&strings(&["0x9"]), &strings(&["3"]), &mut proof_seed(1)).unwrap();
    assert_eq!(
        verify_proof(&keys.verifying_key, &proof, &strings(&["0x"])),
        Err(Groth16Error::ParseError("0x".to_string()))
    );
    assert_eq!(
        convert_hex_to_field_elements(&strings(&["1", "0xzz", "q"])).unwrap_err(),
        Groth16Error::ParseError("0xzz".to_string())
    );
    let error = convert_hex_to_field_elements(&strings(&["0x1", "zz", "0x2"])).unwrap_err();
    assert_eq!(error.message(), "Failed to parse hex string: zz");
    let mut params = square_params();
    params.constraints[0].b[0].coefficient = "1.5".to_string();
    assert_eq!(
        Groth16SetupWrapper::new(&params).unwrap_err(),
        Groth16Error::ParseError("1.5".to_string())
    );
}

#[test]
fn convert_hex_reads_each_string() {
    let got = convert_hex_to_field_elements(&strings(&["0x10", "ff", "0"])).unwrap();
    let expected = [16u64, 255, 0];
    assert_eq!(got.len(), 3);
    for (x, e) in got.iter().zip(expected) {
        assert!(x.equals(&groth16::field::Scalar::from_u64(e)));
    }
    assert!(convert_hex_to_field_elements(&[]).unwrap().is_empty());
}

#[test]
fn tampered_proof_points_are_rejected_or_invalid() {
    let keys = square_keys(1);
    let prover = Groth16ProverWrapper::new(&keys.proving_key).unwrap();
    let proof =
        prover.create_proof(&strings(&["0x9"]), &strings(&["3"]), &mut proof_seed(1)).unwrap();
    // a point off the curve
    let mut off = proof.clone();
    let last = off.a.pop().unwrap();
    off.a.push(if last == '0' { '1' } else { '0' });
    assert_eq!(
        verify_proof(&keys.verifying_key, &off, &strings(&["9"])),
        Err(Groth16Error::InvalidCurvePoint)
    );
    // a valid point that is not the proof's
    let mut swapped = proof.clone();
    swapped.c = proof.a.clone();
    assert_eq!(verify_proof(&keys.verifying_key, &swapped, &strings(&["9"])), Ok(false));
    // a string of the wrong length
    let mut short = proof.clone();
    short.a.truncate(20);
    assert_eq!(
        verify_proof(&keys.verifying_key, &short, &strings(&["9"])),
        Err(Groth16Error::InvalidCurvePoint)
    );
}

#[test]
fn circuit_params_are_checked() {
    let mut p = square_params();
    p.constraint_count = 2;
    assert_eq!(Groth16SetupWrapper::new(&p).unwrap_err(), Groth16Error::SerializationError);
    let mut p = square_params();
    p.public_input_count = 3;
    assert_eq!(Groth16SetupWrapper::new(&p).unwrap_err(), Groth16Error::SerializationError);
    let mut p = square_params();
    p.constraints[0].c[0].variable = 2;
    assert_eq!(Groth16SetupWrapper::new(&p).unwrap_err(), Groth16Error::SerializationError);
    let mut p = square_params();
    let c = p.constraints[0].clone();
    p.constraints = vec![c; 257];
    p.constraint_count = 257;
    assert_eq!(Groth16SetupWrapper::new(&p).unwrap_err(), Groth16Error::SetupSizeError);
}

#[test]
fn proving_key_with_missing_entries_is_malformed() {
    let keys = square_keys(1);
    let mut pk = keys.proving_key.clone();
    pk.a_query.pop();
    assert_eq!(Groth16ProverWrapper::new(&pk).unwrap_err(), Groth16Error::SerializationError);
}
