use crypsinous::calibration::{
    checked_total_stake, decimal_to_base, epoch_sigmas, get_frequency, narrow, total_stake,
    CalibrationError, FIELD_MODULUS, RADIX_BITS,
};
use crypsinous::decimal::Decimal;
use crypsinous::field::Base;
use dashu::float::round::mode::Zero;
use dashu::float::FBig;
use dashu::integer::{IBig, UBig};

fn decimal(negative: bool, magnitude: u64, exponent: i64) -> Decimal {
    let mut d = Decimal::from_u64(magnitude);
    d.negative = negative;
    d.exponent = exponent;
    d
}

#[test]
fn total_stake_counts_every_slot_so_far() {
    assert_eq!(total_stake(0, 0), 420);
    assert_eq!(total_stake(0, 9), 4200);
    assert_eq!(total_stake(3, 4), (3 * 10 + 4 + 1) * 420);
    assert_eq!(checked_total_stake(3, 4), Some(14700));
    assert_eq!(checked_total_stake(u64::MAX, 0), None);
    assert_eq!(checked_total_stake(0, u64::MAX), None);
    assert_eq!(checked_total_stake(0, u64::MAX / 420), None);
    assert_eq!(checked_total_stake(0, u64::MAX / 420 - 1), Some((u64::MAX / 420) * 420));
}

#[test]
fn frequency_is_one_half() {
    let f = get_frequency();
    assert!(!f.negative);
    assert_eq!(f.magnitude, vec![5]);
    assert_eq!(f.exponent, -1);
}

#[test]
fn decimal_of_an_integer() {
    let d = Decimal::from_u64(0x0102);
    assert!(!d.negative);
    assert_eq!(d.exponent, 0);
    assert_eq!(d.magnitude, vec![2, 1, 0, 0, 0, 0, 0, 0]);
    assert!(d.is_positive());
    assert!(!d.is_zero());
    assert!(Decimal::from_u64(0).is_zero());
    assert!(!Decimal::from_u64(0).is_positive());
    assert!(!decimal(true, 3, 0).is_positive());
    assert!(!decimal(true, 3, 0).is_zero());
    assert!(d.is_moderate());
    assert!(decimal(true, 3, 4096).is_moderate());
    assert!(decimal(true, 3, -4096).is_moderate());
    assert!(!decimal(true, 3, 4097).is_moderate());
    assert!(!decimal(true, 3, -4097).is_moderate());
    let mut padded = Decimal::from_u64(3);
    padded.magnitude.resize(600, 0);
    assert!(padded.is_moderate());
}

#[test]
fn narrow_pads_and_refuses_more_than_256_bits() {
    let mut expected = [0u8; 32];
    expected[0] = 7;
    expected[1] = 9;
    assert_eq!(narrow(&vec![7, 9]), Some(expected));
    assert_eq!(narrow(&vec![]), Some([0u8; 32]));
    let mut long = vec![7u8, 9];
    long.resize(40, 0);
    assert_eq!(narrow(&long), Some(expected));
    long[32] = 1;
    assert_eq!(narrow(&long), None);
    assert_eq!(narrow(&vec![0xff; 32]), Some([0xff; 32]));
}

#[test]
fn decimals_are_cut_to_their_integer_part() {
    assert_eq!(decimal_to_base(&decimal(false, 12345, -2)), Some(Base::from_u64(123)));
    assert_eq!(decimal_to_base(&decimal(false, 12345, 0)), Some(Base::from_u64(12345)));
    assert_eq!(decimal_to_base(&decimal(false, 12345, 3)), Some(Base::from_u64(12345000)));
    assert_eq!(decimal_to_base(&decimal(false, 12345, -5)), Some(Base::from_u64(0)));
    assert_eq!(decimal_to_base(&decimal(false, 12345, -50)), Some(Base::from_u64(0)));
    assert_eq!(decimal_to_base(&decimal(false, 0, 500)), Some(Base::from_u64(0)));
    assert_eq!(decimal_to_base(&decimal(false, 1, -4096)), Some(Base::from_u64(0)));
}

#[test]
fn negative_decimals_are_negated_in_the_field() {
    assert_eq!(decimal_to_base(&decimal(true, 12345, -2)), Some(Base::from_u64(123).negated()));
    assert_eq!(decimal_to_base(&decimal(true, 5, -1)), Some(Base::from_u64(0)));
    assert_eq!(decimal_to_base(&decimal(true, 1, 0)), Some(Base::from_u64(1).negated()));
}

#[test]
fn decimals_are_reduced_modulo_the_field() {
    let p = Decimal { negative: false, magnitude: FIELD_MODULUS.to_vec(), exponent: 0 };
    assert_eq!(decimal_to_base(&p), Some(Base::from_u64(0)));
    // 10^77 has 256 bits, 10^78 has more
    let wide = decimal_to_base(&decimal(false, 1, 77)).unwrap();
    let mut ten_to_77 = Base::from_u64(1);
    for _ in 0..77 {
        ten_to_77 = ten_to_77.times(&Base::from_u64(10));
    }
    assert_eq!(wide, ten_to_77);
    assert_eq!(decimal_to_base(&decimal(false, 1, 78)), None);
    assert_eq!(decimal_to_base(&decimal(false, 2, 77)), None);
    assert_eq!(decimal_to_base(&decimal(true, 1, 78)), None);
    assert_eq!(decimal_to_base(&decimal(false, 1, 4096)), None);
}

#[test]
fn calibration_refuses_what_it_cannot_compute() {
    let half = get_frequency();
    assert_eq!(epoch_sigmas(&half, 4200, 0), Err(CalibrationError::Precision));
    assert_eq!(epoch_sigmas(&half, 0, 76), Err(CalibrationError::ZeroStake));
    assert_eq!(epoch_sigmas(&Decimal::from_u64(1), 4200, 76), Err(CalibrationError::Frequency));
    assert_eq!(epoch_sigmas(&Decimal::from_u64(2), 4200, 76), Err(CalibrationError::Frequency));
    assert_eq!(epoch_sigmas(&half, 4200, 1025), Err(CalibrationError::Precision));
    assert_eq!(epoch_sigmas(&half, 4200, usize::MAX), Err(CalibrationError::Precision));
    // numbers that are not of moderate size
    assert_eq!(epoch_sigmas(&decimal(false, 1, 4097), 4200, 76), Err(CalibrationError::OutOfRange));
    assert_eq!(
        epoch_sigmas(&decimal(false, 1, -2_000_000), 4200, 76),
        Err(CalibrationError::OutOfRange)
    );
    let mut long = Decimal::from_u64(1);
    long.magnitude.resize(513, 0);
    long.magnitude[512] = 1;
    long.exponent = -2000;
    assert!(!long.is_moderate());
    assert_eq!(epoch_sigmas(&long, 4200, 76), Err(CalibrationError::OutOfRange));
    // a frequency so far below zero that the second coefficient leaves the field
    assert_eq!(epoch_sigmas(&decimal(true, 100, 0), 1, 76), Err(CalibrationError::OutOfField));
}

#[test]
fn calibration_of_one_half_over_4200() {
    let (sigma1, sigma2) = epoch_sigmas(&get_frequency(), 4200, RADIX_BITS).unwrap();
    // ln(1/2) / 4200 is a small fraction below zero: its integer part is zero
    assert_eq!(sigma1, Base::from_u64(0));

    let precision = 76;
    let one = FBig::<Zero, 10>::from_parts(IBig::from(1), 0).with_precision(precision).value();
    let two = FBig::<Zero, 10>::from_parts(IBig::from(2), 0).with_precision(precision).value();
    let p = FBig::<Zero, 10>::from_parts(IBig::from(UBig::from_le_bytes(&FIELD_MODULUS)), 0)
        .with_precision(precision)
        .value();
    let total = FBig::<Zero, 10>::from_parts(IBig::from(4200), 0).with_precision(precision).value();
    let frequency = one.clone() / two.clone();
    let c = (one - frequency).ln();
    let share = c / total;
    let expected = share.powi(IBig::from(2)) * (p / two);
    let (_, magnitude) = expected.to_int().value().into_parts();
    let mut bytes = magnitude.to_le_bytes();
    bytes.resize(32, 0);
    assert_eq!(sigma2.to_repr().to_vec(), bytes);
    assert_ne!(sigma2, Base::from_u64(0));
    assert_eq!(epoch_sigmas(&get_frequency(), 4200, RADIX_BITS).unwrap(), (sigma1, sigma2));
}

#[test]
fn calibration_depends_on_precision_and_stake() {
    let (_, at_76) = epoch_sigmas(&get_frequency(), 4200, 76).unwrap();
    let (_, at_20) = epoch_sigmas(&get_frequency(), 4200, 20).unwrap();
    let (_, other_stake) = epoch_sigmas(&get_frequency(), 8400, 76).unwrap();
    assert_ne!(at_76, at_20);
    assert_ne!(at_76, other_stake);
    // twice the stake, a quarter of the coefficient, up to rounding
    assert!(other_stake.is_below(&at_76));
}
