use ark_bn254::Fr;
use ark_ff::{BigInteger, PrimeField};
use light_poseidon::{Poseidon as CircomPoseidon, PoseidonBytesHasher};
use poseidon_ark::{rounds_for, FieldElement, InstructionError, Poseidon, PoseidonError};

fn small(v: u64) -> FieldElement {
    FieldElement::from_u64(v)
}

fn decimal(f: &FieldElement) -> String {
    Fr::from_le_bytes_mod_order(&Poseidon::field_to_bytes(f)).to_string()
}

#[test]
fn arity_boundaries() {
    let poseidon = Poseidon::new();
    assert_eq!(poseidon.hash(vec![]), Err(PoseidonError::InvalidArity));
    assert_eq!(poseidon.hash(vec![small(1); 17]), Err(PoseidonError::InvalidArity));
    assert!(poseidon.hash(vec![small(1); 16]).is_ok());
    assert_eq!(poseidon.hash_stack(&[]), Err(PoseidonError::InvalidArity));
}

#[test]
fn hash_bytes_errors() {
    let poseidon = Poseidon::new();
    assert_eq!(poseidon.hash_bytes(&[]), Err(PoseidonError::EmptyInput));
    let one = [1u8; 32];
    let many: Vec<&[u8; 32]> = vec![&one; 17];
    assert_eq!(poseidon.hash_bytes(&many), Err(PoseidonError::InvalidArity));
    let sixteen: Vec<&[u8; 32]> = vec![&one; 16];
    assert!(poseidon.hash_bytes(&sixteen).is_ok());
}

#[test]
fn known_vector_arity_one() {
    let poseidon = Poseidon::new();
    let h = poseidon.hash(vec![small(1)]).unwrap();
    assert_eq!(decimal(&h), "18586133768512220936620570745912940619677854269274689475585506675881198879027");
}

#[test]
fn known_vector_arity_two() {
    let poseidon = Poseidon::new();
    let h = poseidon.hash(vec![small(1), small(2)]).unwrap();
    assert_eq!(decimal(&h), "7853200120776062878684798364095072458815029376092732009249414926327459813530");
}

#[test]
fn known_vector_arity_six() {
    let poseidon = Poseidon::new();
    let input: Vec<FieldElement> = (1..=6).map(small).collect();
    let h = poseidon.hash(input).unwrap();
    assert_eq!(decimal(&h), "20400040500897583745843009878988256314335038853985262692600694741116813247201");
}

#[test]
fn order_matters() {
    let poseidon = Poseidon::new();
    let ab = poseidon.hash(vec![small(7), small(9)]).unwrap();
    let ba = poseidon.hash(vec![small(9), small(7)]).unwrap();
    assert_ne!(ab, ba);
}

#[test]
fn single_change_changes_digest() {
    let poseidon = Poseidon::new();
    let base: Vec<FieldElement> = (1..=4).map(small).collect();
    let h = poseidon.hash(base.clone()).unwrap();
    for i in 0..4 {
        let mut other = base.clone();
        other[i] = small(100 + i as u64);
        assert_ne!(poseidon.hash(other).unwrap(), h);
    }
}

#[test]
fn deterministic_across_hashers() {
    let a = Poseidon::new().hash(vec![small(5), small(6), small(7)]).unwrap();
    let b = Poseidon::new().hash(vec![small(5), small(6), small(7)]).unwrap();
    assert_eq!(a, b);
}

#[test]
fn matches_other_circom_implementation() {
    let poseidon = Poseidon::new();
    let x = [1u8; 32];
    let y = [2u8; 32];
    let mut one = CircomPoseidon::<Fr>::new_circom(1).unwrap();
    assert_eq!(poseidon.hash_bytes(&[&x]).unwrap(), one.hash_bytes_le(&[&x]).unwrap());
    let mut two = CircomPoseidon::<Fr>::new_circom(2).unwrap();
    assert_eq!(poseidon.hash_bytes(&[&x, &y]).unwrap(), two.hash_bytes_le(&[&x, &y]).unwrap());
    let z = [0u8; 32];
    assert_eq!(poseidon.hash_bytes(&[&z, &x]).unwrap(), two.hash_bytes_le(&[&z, &x]).unwrap());
}

#[test]
fn hash_bytes_agrees_with_hash() {
    let poseidon = Poseidon::new();
    let mut a = [0u8; 32];
    a[0] = 1;
    let mut b = [0u8; 32];
    b[0] = 2;
    let digest = poseidon.hash_bytes(&[&a, &b]).unwrap();
    let h = poseidon.hash(vec![small(1), small(2)]).unwrap();
    assert_eq!(digest, Poseidon::field_to_bytes(&h));
}

#[test]
fn bytes_at_or_above_modulus_are_reduced() {
    let top = [0xffu8; 32];
    let f = Poseidon::bytes_to_field(&top);
    let expected = Fr::from_le_bytes_mod_order(&top).into_bigint().to_bytes_le();
    assert_eq!(Poseidon::field_to_bytes(&f).to_vec(), expected);
    assert_ne!(Poseidon::field_to_bytes(&f), top);
    let modulus = Fr::MODULUS.to_bytes_le();
    let mut m = [0u8; 32];
    m.copy_from_slice(&modulus);
    assert_eq!(Poseidon::bytes_to_field(&m), FieldElement::zero());
    let mut m_plus_one = m;
    m_plus_one[0] += 1;
    assert_eq!(Poseidon::bytes_to_field(&m_plus_one), small(1));
}

#[test]
fn byte_round_trip_is_stable() {
    for seed in [0u8, 7, 0x30, 0x31, 0xff] {
        let b = [seed; 32];
        let once = Poseidon::field_to_bytes(&Poseidon::bytes_to_field(&b));
        let twice = Poseidon::field_to_bytes(&Poseidon::bytes_to_field(&once));
        assert_eq!(once, twice);
    }
}

#[test]
fn field_bytes_are_little_endian() {
    let mut expected = [0u8; 32];
    expected[0] = 2;
    expected[1] = 1;
    assert_eq!(Poseidon::field_to_bytes(&small(258)), expected);
    assert_eq!(Poseidon::bytes_to_field(&expected), small(258));
    assert_eq!(Poseidon::field_to_bytes(&FieldElement::zero()), [0u8; 32]);
}

#[test]
fn schedule_per_arity() {
    assert_eq!(rounds_for(0), Err(PoseidonError::InvalidArity));
    assert_eq!(rounds_for(1), Ok((8, 56)));
    assert_eq!(rounds_for(2), Ok((8, 57)));
    assert_eq!(rounds_for(13), Ok((8, 70)));
    assert_eq!(rounds_for(16), Ok((8, 68)));
    assert_eq!(rounds_for(17), Err(PoseidonError::InvalidArity));
}

#[test]
fn table_shapes() {
    let poseidon = Poseidon::new();
    for arity in 1..=16usize {
        let (f, p) = rounds_for(arity).unwrap();
        assert_eq!(poseidon.round_constants_for(arity).unwrap().len(), (arity + 1) * (f + p));
        let m = poseidon.mix_matrix_for(arity).unwrap();
        assert_eq!(m.len(), arity + 1);
        assert!(m.iter().all(|row| row.len() == arity + 1));
    }
    assert!(poseidon.round_constants_for(0).is_err());
    assert!(poseidon.mix_matrix_for(17).is_err());
}

#[test]
fn add_round_key_step() {
    let poseidon = Poseidon::new();
    let mut state = vec![small(1), small(2)];
    poseidon.ark(&mut state, &vec![small(10), small(20), small(30)], 1);
    assert_eq!(state, vec![small(21), small(32)]);
}

#[test]
fn add_round_key_wraps_modulo() {
    let poseidon = Poseidon::new();
    let minus_one_bytes = (-Fr::from(1u64)).into_bigint().to_bytes_le();
    let mut arr = [0u8; 32];
    arr.copy_from_slice(&minus_one_bytes);
    let minus_one = Poseidon::bytes_to_field(&arr);
    let mut state = vec![minus_one];
    poseidon.ark(&mut state, &vec![small(3)], 0);
    assert_eq!(state, vec![small(2)]);
}

#[test]
fn sbox_full_and_partial_rounds() {
    let poseidon = Poseidon::new();
    let mut state = vec![small(2), small(3)];
    poseidon.sbox(8, 56, &mut state, 0);
    assert_eq!(state, vec![small(32), small(243)]);
    let mut state = vec![small(2), small(3)];
    poseidon.sbox(8, 56, &mut state, 4);
    assert_eq!(state, vec![small(32), small(3)]);
    let mut state = vec![small(2), small(3)];
    poseidon.sbox(8, 56, &mut state, 60);
    assert_eq!(state, vec![small(32), small(243)]);
    let mut state = vec![small(2), small(3)];
    poseidon.sbox(8, 56, &mut state, 59);
    assert_eq!(state, vec![small(32), small(3)]);
}

#[test]
fn mix_is_matrix_product() {
    let poseidon = Poseidon::new();
    let m = vec![vec![small(1), small(2)], vec![small(3), small(4)]];
    let mut state = vec![small(5), small(6)];
    let mut temp = vec![FieldElement::zero(); 2];
    poseidon.mix_inplace(&mut state, &mut temp, &m);
    assert_eq!(state, vec![small(17), small(39)]);
}

#[test]
fn permute_with_given_tables() {
    let poseidon = Poseidon::new();
    let c = poseidon.round_constants_for(2).unwrap();
    let m = poseidon.mix_matrix_for(2).unwrap();
    let mut state = vec![FieldElement::zero(), small(1), small(2)];
    poseidon.permute(&mut state, c, m, 8, 57);
    assert_eq!(
        decimal(&state[0]),
        "7853200120776062878684798364095072458815029376092732009249414926327459813530"
    );
    let mut once = vec![small(1), small(1)];
    poseidon.permute(&mut once, &vec![small(1); 2], &vec![vec![small(1), small(1)], vec![small(0), small(1)]], 1, 0);
    assert_eq!(once, vec![small(64), small(32)]);
}

#[test]
fn instruction_with_one_input() {
    let poseidon = Poseidon::new();
    let x = [1u8; 32];
    let mut data = vec![0u8];
    data.extend_from_slice(&x);
    assert_eq!(poseidon.hash_instruction(&data), Ok(poseidon.hash_bytes(&[&x]).unwrap()));
}

#[test]
fn instruction_with_two_inputs() {
    let poseidon = Poseidon::new();
    let x = [1u8; 32];
    let y = [2u8; 32];
    let mut data = vec![1u8];
    data.extend_from_slice(&x);
    data.extend_from_slice(&y);
    assert_eq!(poseidon.hash_instruction(&data), Ok(poseidon.hash_bytes(&[&x, &y]).unwrap()));
}

#[test]
fn malformed_instructions_are_refused() {
    let poseidon = Poseidon::new();
    let bad = InstructionError::InvalidInstructionData;
    assert_eq!(poseidon.hash_instruction(&[]), Err(bad));
    assert_eq!(poseidon.hash_instruction(&[0u8; 32]), Err(bad));
    assert_eq!(poseidon.hash_instruction(&[0u8; 65]), Err(bad));
    let mut one_short = vec![1u8];
    one_short.extend_from_slice(&[0u8; 63]);
    assert_eq!(poseidon.hash_instruction(&one_short), Err(bad));
    let mut unknown = vec![2u8];
    unknown.extend_from_slice(&[0u8; 32]);
    assert_eq!(poseidon.hash_instruction(&unknown), Err(bad));
}
