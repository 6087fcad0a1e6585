use crypsinous::field::Base;
use crypsinous::nullifier::{Nullifier, NullifierError};

const P_BYTES: [u8; 32] = [
    0x01, 0x00, 0x00, 0x00, 0xed, 0x30, 0x2d, 0x99, 0x1b, 0xf9, 0x4c, 0x09, 0xfc, 0x98, 0x46, 0x22,
    0x00, 0x00, 0x00, 0x00, 0x00, 0x00, 0x00, 0x00, 0x00, 0x00, 0x00, 0x00, 0x00, 0x00, 0x00, 0x40,
];

#[test]
fn nullifier_is_its_field_element() {
    let n = Nullifier::from(Base::from_u64(77));
    assert_eq!(n.inner(), Base::from_u64(77));
    let mut bytes = [0u8; 32];
    bytes[0] = 77;
    assert_eq!(n.to_bytes(), bytes);
    assert_eq!(Nullifier::from_bytes(bytes), Some(n));
}

#[test]
fn nullifier_bytes_must_spell_a_field_element() {
    assert_eq!(Nullifier::from_bytes(P_BYTES), None);
    assert_eq!(Nullifier::from_bytes([0xff; 32]), None);
    let mut below = P_BYTES;
    below[0] = 0;
    let n = Nullifier::from_bytes(below).unwrap();
    assert_eq!(n.to_bytes(), below);
    assert_eq!(n.inner(), Base::from_u64(1).negated());
}

#[test]
fn nullifier_text_is_base58() {
    let n = Nullifier::from(Base::from_u64(77));
    let text = n.to_base58();
    assert_eq!(text, bs58::encode(n.to_bytes()).into_string());
    assert_ne!(text.as_bytes(), &n.to_bytes()[..]);
    assert_eq!(Nullifier::parse(&text), Ok(n));
    assert_eq!(text.parse::<Nullifier>(), Ok(n));
    let zero = Nullifier::from(Base::from_u64(0));
    assert_eq!(zero.to_base58(), "11111111111111111111111111111111");
    assert_eq!(Nullifier::parse("11111111111111111111111111111111"), Ok(zero));
}

#[test]
fn nullifier_text_is_refused_for_a_reason() {
    assert_eq!(Nullifier::parse("0OIl"), Err(NullifierError::InvalidBase58));
    assert_eq!(Nullifier::parse("not base58!"), Err(NullifierError::InvalidBase58));
    assert_eq!(Nullifier::parse(""), Err(NullifierError::InvalidLength));
    let short = bs58::encode([1u8; 31]).into_string();
    assert_eq!(Nullifier::parse(&short), Err(NullifierError::InvalidLength));
    let long = bs58::encode([1u8; 33]).into_string();
    assert_eq!(Nullifier::parse(&long), Err(NullifierError::InvalidLength));
    let outside = bs58::encode(P_BYTES).into_string();
    assert_eq!(Nullifier::parse(&outside), Err(NullifierError::NotInField));
    assert_eq!(outside.parse::<Nullifier>(), Err(NullifierError::NotInField));
}

#[test]
fn nullifier_of_decoded_bytes() {
    let mut bytes = vec![0u8; 32];
    bytes[1] = 1;
    assert_eq!(Nullifier::from_decoded(&bytes), Ok(Nullifier::from(Base::from_u64(256))));
    assert_eq!(Nullifier::from_decoded(&vec![0u8; 31]), Err(NullifierError::InvalidLength));
    assert_eq!(Nullifier::from_decoded(&P_BYTES.to_vec()), Err(NullifierError::NotInField));
}
