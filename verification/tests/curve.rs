use crypsinous::curve::{
    mod_r_p, pedersen_commitment_base, pedersen_commitment_u64, public_key, Point,
};
use crypsinous::field::{Base, Scalar};

fn scalar(v: u64) -> Scalar {
    Scalar::from_base(&Base::from_u64(v))
}

fn on_curve(p: &Point) -> bool {
    let (x, y) = p.coordinates().unwrap();
    let lhs = y.times(&y);
    let rhs = x.times(&x).times(&x).plus(&Base::from_u64(5));
    lhs == rhs
}

#[test]
fn commitments_are_points_of_the_curve() {
    assert!(on_curve(&pedersen_commitment_u64(1, &scalar(5))));
    assert!(on_curve(&pedersen_commitment_base(&Base::from_u64(77), &scalar(5))));
    assert!(on_curve(&public_key(&Base::from_u64(3))));
}

#[test]
fn commitments_depend_on_value_and_blind() {
    let c = pedersen_commitment_u64(1, &scalar(5));
    assert_eq!(c, pedersen_commitment_u64(1, &scalar(5)));
    assert_ne!(c, pedersen_commitment_u64(2, &scalar(5)));
    assert_ne!(c, pedersen_commitment_u64(1, &scalar(6)));
    let b = pedersen_commitment_base(&Base::from_u64(1), &scalar(5));
    assert_eq!(b, pedersen_commitment_base(&Base::from_u64(1), &scalar(5)));
    assert_ne!(b, pedersen_commitment_base(&Base::from_u64(2), &scalar(5)));
    assert_ne!(b, pedersen_commitment_base(&Base::from_u64(1), &scalar(6)));
    // the two kinds of commitment carry the value on different generators
    assert_ne!(b, c);
}

#[test]
fn commitment_to_nothing_is_the_identity() {
    let zero = pedersen_commitment_u64(0, &scalar(0));
    assert!(zero.coordinates().is_none());
    assert_eq!(zero.to_bytes(), [0u8; 32]);
    let key = public_key(&Base::from_u64(0));
    assert!(key.coordinates().is_none());
}

#[test]
fn a_commitment_with_no_blind_is_a_multiple_of_the_key_generator() {
    // value * G + 0 * R = value * G, and the key of `value` is value * G
    let value = Base::from_u64(9);
    assert_eq!(pedersen_commitment_base(&value, &scalar(0)), public_key(&value));
}

#[test]
fn points_decode_from_their_bytes() {
    let c = pedersen_commitment_u64(3, &scalar(4));
    assert_eq!(Point::from_bytes(c.to_bytes()), Some(c));
    let mut off = [0u8; 32];
    off[0] = 2;
    let decoded = Point::from_bytes(off);
    if let Some(p) = decoded {
        assert!(on_curve(&p));
    }
    assert!(Point::from_bytes([0xff; 32]).is_none());
}

#[test]
fn mod_r_p_keeps_the_integer() {
    let x = Base::from_u64(123456789);
    assert_eq!(mod_r_p(&x).to_repr(), x.to_repr());
}
