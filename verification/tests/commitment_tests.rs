use random_pedersen::commitment::{commitment_roundtrip_law, opening_roundtrip_law, Commitment,
    Opening};

#[test]
fn commitment_arithmetic() {
    let (comm1, opening1) = Commitment::new(100).unwrap();
    let (comm2, opening2) = Commitment::new(200).unwrap();
    assert!(comm1.add(comm2).verify(&opening1.add(opening2)));

    let (comm1, opening1) = Commitment::new(1234).unwrap();
    let (comm2, opening2) = Commitment::new(234).unwrap();
    assert!(comm1.sub(comm2).verify(&opening1.sub(opening2)));
}

#[test]
fn opening_recovery_is_as_expected() {
    let value = 1234;
    let (commitment, opening) = Commitment::new(value).unwrap();

    let opening_vec = opening.to_bytes();

    let opening_bytes: &[u8] = &opening_vec;
    let open = Opening::from_slice(opening_bytes).unwrap();
    let commit_from_open = Commitment::from_opening(&open);

    assert_eq!(open.value(), value);
    assert_eq!(commitment, commit_from_open);
}

#[test]
fn commitment_recovery_is_as_expected() {
    let value: u64 = 1234;
    let (commitment, _) = Commitment::new(value).unwrap();

    let commitment_vec = commitment.to_bytes();
    let commitment_bytes: &[u8] = &commitment_vec;
    let commit = Commitment::from_slice(commitment_bytes).unwrap();

    assert_eq!(commitment, commit);
}

#[test]
fn mpc_is_as_expected() {
    let value1: u64 = 1000;
    let value2: u64 = 500;
    let value3: u64 = 250;
    let (commitment1, opening1) = Commitment::new(value1).unwrap();
    let (commitment2, opening2) = Commitment::new(value2).unwrap();
    let (commitment3, opening3) = Commitment::new(value3).unwrap();

    let commitment12 = commitment1.add(commitment2);
    let commitment123 = commitment12.add(commitment3);

    let opening = opening1.add(opening2).add(opening3);
    let value_final = value1 + value2 + value3;
    let commit = Commitment::from_opening(&opening);

    assert_eq!(value_final, opening.value());
    assert_eq!(commitment123, commit);
    assert!(commitment123.verify(&opening));
}

#[test]
fn non_unique_mpc_is_as_expected() {
    let value1: u64 = 1000;
    let value2: u64 = 500;
    let value3: u64 = 250;
    let (commitment1, opening1) = Commitment::new(value1).unwrap();
    let (commitment2, opening2) = Commitment::new(value2).unwrap();
    let (commitment3, opening3) = Commitment::new(value3).unwrap();

    let commitment12 = commitment1.clone().add(commitment2);
    let commitment13 = commitment1.clone().add(commitment3);
    let commitment1123 = commitment12.add(commitment13);

    let opening = opening1.clone().add(opening1).add(opening2).add(opening3);
    let value = value1 + value1 + value2 + value3;
    let commit = Commitment::from_opening(&opening);

    assert_eq!(value, opening.value());
    assert_eq!(commitment1123, commit);
}

#[test]
fn single_shot_commit_open() {
    let (commitment, opening) = Commitment::new(100).unwrap();
    assert_eq!(opening.to_bytes().len(), 40);
    assert_eq!(commitment.to_bytes().len(), 32);
    assert_eq!(Commitment::from_opening(&opening), commitment);
}

#[test]
fn pairwise_aggregate_value() {
    let (c1, o1) = Commitment::new(100).unwrap();
    let (c2, o2) = Commitment::new(200).unwrap();
    let aggregated_opening = o1.add(o2);
    assert_eq!(aggregated_opening.value(), 300);
    assert!(c1.add(c2).verify(&aggregated_opening));
}

#[test]
fn opening_bytes_are_little_endian() {
    let (_, opening) = Commitment::new(0x0102030405060708).unwrap();
    let bytes = opening.to_bytes();
    assert_eq!(&bytes[0..8], &[8, 7, 6, 5, 4, 3, 2, 1]);
}

#[test]
fn opening_from_slice_rejects_wrong_length() {
    assert!(Opening::from_slice(&[0u8; 39]).is_none());
    assert!(Opening::from_slice(&[0u8; 41]).is_none());
}

#[test]
fn opening_from_slice_rejects_non_canonical_scalar() {
    let mut bytes = [0u8; 40];
    for b in bytes[8..].iter_mut() {
        *b = 0xff;
    }
    assert!(Opening::from_slice(&bytes).is_none());
}

#[test]
fn commitment_from_slice_rejects_bad_encodings() {
    assert!(Commitment::from_slice(&[0u8; 31]).is_none());
    assert!(Commitment::from_slice(&[0xffu8; 32]).is_none());
}

#[test]
fn addition_changes_the_commitment() {
    let (c1, _) = Commitment::new(7).unwrap();
    let (c2, _) = Commitment::new(9).unwrap();
    let sum = c1.clone().add(c2);
    assert_ne!(sum.to_bytes(), c1.to_bytes());
}

#[test]
fn commitment_differs_from_blinding() {
    let (c, o) = Commitment::new(42).unwrap();
    assert_ne!(c.to_bytes().as_slice(), &o.to_bytes()[8..40]);
}

#[test]
fn blinding_addition_is_modular_not_concatenation() {
    let (_, o1) = Commitment::new(1).unwrap();
    let (_, o2) = Commitment::new(2).unwrap();
    let sum = o1.clone().add(o2);
    assert_ne!(&sum.to_bytes()[8..40], &o1.to_bytes()[8..40]);
}

#[test]
fn roundtrip_laws_hold_on_fresh_pairs() {
    let (c, o) = Commitment::new(77).unwrap();
    assert!(commitment_roundtrip_law(&c));
    assert!(opening_roundtrip_law(&o));
}
