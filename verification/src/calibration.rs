//! The calibration of an epoch: the two coefficients that turn a stake into
//! a winning threshold.
//!
//! With `f` the share of slots won in the epoch before and `T` the stake of
//! the whole network, both coefficients come from `q = ln(1 - f) / T`:
//! the first is `q`, the second `q^2 * (p / 2)` with `p` the modulus of the
//! base field, each computed in decimals of one precision, cut to its
//! integer part and taken into the field.

use crate::bytes::{
    fits_in, le_value, lemma_le_value_8, lemma_le_value_bound, lemma_le_value_split,
    lemma_pow256_32, lemma_pow256_monotonic, lemma_pow256_values, lemma_zero_bytes, pow256,
    wide_limit,
};
use crate::coins::{
    create_coins_with, epoch_defined, epoch_paths_hold, epoch_shape, is_coins_outcome,
    is_epoch_coins, CoinError, EpochRandomness, LeadCoin, OwnCoin, EPOCH_LENGTH, REWARD,
};
use crate::decimal::{
    dec_div, dec_ln, dec_mul, dec_powi, dec_round, dec_sub, dec_to_int, decimal_difference,
    decimal_ln, decimal_power, decimal_product, decimal_quotient, decimal_rounded, integer_part,
    moderate, pow10, usable_precision, Decimal, DecimalValue, MAX_INTEGER_EXPONENT,
    MAX_MAGNITUDE_BYTES, MAX_PRECISION,
};
use crate::field::{base_modulus, Base};
use crate::keychain::SecretKey;
use crate::merkle::MerkleNode;
use vstd::prelude::*;

verus! {

/// Decimal digits that the calibration is computed to.
pub const RADIX_BITS: usize = 76;

/// The modulus of the base field, least significant byte first.
pub const FIELD_MODULUS: [u8; 32] = [
    0x01, 0x00, 0x00, 0x00, 0xed, 0x30, 0x2d, 0x99,
    0x1b, 0xf9, 0x4c, 0x09, 0xfc, 0x98, 0x46, 0x22,
    0x00, 0x00, 0x00, 0x00, 0x00, 0x00, 0x00, 0x00,
    0x00, 0x00, 0x00, 0x00, 0x00, 0x00, 0x00, 0x40,
];

/// Why an epoch could not be calibrated.
#[derive(Clone, Copy, Debug, PartialEq, Eq, Structural)]
pub enum CalibrationError {
    /// The precision is zero, which would stand for no limit, or beyond
    /// the most digits that results are computed to.
    Precision,
    /// The frequency is not below one: it leaves nothing to take the
    /// logarithm of.
    Frequency,
    /// The network's stake is zero.
    ZeroStake,
    /// The frequency or a number on the way is not of moderate size.
    OutOfRange,
    /// A coefficient's integer part has more than 256 bits.
    OutOfField,
}

/// The decimal of an integer.
pub open spec fn decimal_of(n: nat) -> DecimalValue {
    DecimalValue { negative: false, magnitude: n, exponent: 0 }
}

/// The field element that a decimal is taken to: its integer part modulo
/// the field's modulus, negated where the decimal is below zero. There is
/// none where the integer part has more than 256 bits.
pub open spec fn field_image(x: DecimalValue) -> Option<nat> {
    let n = integer_part(x);
    if n >= wide_limit() {
        None
    } else if x.negative && n > 0 {
        Some(((base_modulus() - n % base_modulus()) % (base_modulus() as int)) as nat)
    } else {
        Some(n % base_modulus())
    }
}

/// From `10^78` on, the powers of ten have more than 256 bits.
pub proof fn lemma_pow10_wide(n: nat)
    requires
        n > MAX_INTEGER_EXPONENT,
    ensures
        pow10(n) >= wide_limit(),
    decreases n,
{
    if n == 78 {
        reveal_with_fuel(pow10, 79);
    } else {
        lemma_pow10_wide((n - 1) as nat);
    }
}

/// The bytes of the field's modulus spell it.
pub proof fn lemma_field_modulus()
    ensures
        le_value(FIELD_MODULUS@) == base_modulus(),
{
    let s = FIELD_MODULUS@;
    let lo = s.take(16);
    let hi = s.skip(16);
    lemma_le_value_split(s, 16);
    lemma_le_value_split(lo, 8);
    lemma_le_value_split(hi, 8);
    lemma_pow256_values();
    lemma_le_value_8(lo.take(8));
    lemma_le_value_8(lo.skip(8));
    lemma_le_value_8(hi.take(8));
    lemma_le_value_8(hi.skip(8));
    let a = le_value(lo.take(8));
    let b = le_value(lo.skip(8));
    let c = le_value(hi.take(8));
    let d = le_value(hi.skip(8));
    assert(a == 0x992d30ed00000001);
    assert(b == 0x224698fc094cf91b);
    assert(c == 0);
    assert(d == 0x4000000000000000);
    assert(le_value(lo) == a + pow256(8) * b);
    assert(le_value(hi) == c + pow256(8) * d);
    assert(pow256(8) * b == 0x224698fc094cf91b_0000000000000000) by (nonlinear_arith)
        requires
            pow256(8) == 0x1_0000000000000000,
            b == 0x224698fc094cf91b,
    ;
    assert(pow256(8) * d == 0x4000000000000000_0000000000000000) by (nonlinear_arith)
        requires
            pow256(8) == 0x1_0000000000000000,
            d == 0x4000000000000000,
    ;
    let h = le_value(hi);
    assert(h == 0x4000000000000000_0000000000000000);
    assert(pow256(16) * h == 0x40000000000000000000000000000000_00000000000000000000000000000000nat)
        by (nonlinear_arith)
        requires
            pow256(16) == 0x1_0000000000000000_0000000000000000,
            h == 0x4000000000000000_0000000000000000,
    ;
    assert(le_value(s) == le_value(lo) + pow256(16) * h);
}

/// The 32 bytes that spell the same integer as `bytes`, where it has no
/// more than 256 bits.
pub fn narrow(bytes: &Vec<u8>) -> (r: Option<[u8; 32]>)
    ensures
        r is None <==> le_value(bytes@) >= wide_limit(),
        r matches Some(a) ==> le_value(a@) == le_value(bytes@),
{
    proof {
        lemma_pow256_32();
    }
    if !fits_in(bytes.as_slice(), 32) {
        return None;
    }
    let mut array: [u8; 32] = [0u8; 32];
    let n = if bytes.len() < 32 {
        bytes.len()
    } else {
        32
    };
    let mut i: usize = 0;
    while i < n
        invariant
            i <= n <= 32,
            n <= bytes@.len(),
            forall|j: int| 0 <= j < i ==> array@[j] == bytes@[j],
            forall|j: int| i <= j < 32 ==> array@[j] == 0,
        decreases n - i,
    {
        array[i] = bytes[i];
        i += 1;
    }
    proof {
        lemma_le_value_split(bytes@, n as nat);
        lemma_le_value_split(array@, n as nat);
        lemma_zero_bytes(array@.skip(n as int));
        assert(array@.take(n as int) =~= bytes@.take(n as int));
        let hi = le_value(bytes@.skip(n as int));
        if n == 32 && hi > 0 {
            assert(pow256(32) * hi >= pow256(32)) by (nonlinear_arith)
                requires
                    hi >= 1,
            ;
        }
        if n < 32 {
            assert(bytes@.skip(n as int).len() == 0);
        }
    }
    Some(array)
}

/// The field element that a decimal is taken to, if its integer part has no
/// more than 256 bits.
pub fn decimal_to_base(x: &Decimal) -> (r: Option<Base>)
    requires
        moderate(x@),
    ensures
        match r {
            Some(b) => field_image(x@) == Some(b.value()),
            None => field_image(x@) is None,
        },
{
    if x.exponent > MAX_INTEGER_EXPONENT {
        if x.is_zero() {
            proof {
                assert(0 * pow10(x.exponent as nat) == 0) by (nonlinear_arith);
                assert(0nat % base_modulus() == 0);
            }
            return Some(Base::from_u64(0));
        }
        proof {
            lemma_pow10_wide(x.exponent as nat);
            let m = x@.magnitude;
            let pw = pow10(x.exponent as nat);
            assert(m * pw >= pw) by (nonlinear_arith)
                requires
                    m >= 1,
            ;
        }
        return None;
    }
    let (negative, bytes) = dec_to_int(x);
    match narrow(&bytes) {
        None => None,
        Some(array) => {
            let b = Base::from_wide(&array);
            if negative {
                Some(b.negated())
            } else {
                proof {
                    let n = integer_part(x@);
                    if x@.negative && n > 0 {
                        assert(false);
                    }
                }
                Some(b)
            }
        },
    }
}

/// `ln(1 - frequency) / total_stake`, each step to `precision` digits, or
/// the reason why it cannot be computed.
pub open spec fn log_share(frequency: DecimalValue, total_stake: u64, precision: nat) -> Result<
    DecimalValue,
    CalibrationError,
> {
    let rounded = decimal_rounded(frequency, precision);
    let total = decimal_rounded(decimal_of(total_stake as nat), precision);
    let x = decimal_difference(decimal_of(1), rounded, precision);
    let c = decimal_ln(x, precision);
    let share = decimal_quotient(c, total, precision);
    if !usable_precision(precision) {
        Err(CalibrationError::Precision)
    } else if !moderate(frequency) || !moderate(rounded) || !moderate(total) {
        Err(CalibrationError::OutOfRange)
    } else if total_stake == 0 || total.magnitude == 0 {
        Err(CalibrationError::ZeroStake)
    } else if !moderate(x) {
        Err(CalibrationError::OutOfRange)
    } else if x.negative || x.magnitude == 0 {
        Err(CalibrationError::Frequency)
    } else if !moderate(c) || !moderate(share) {
        Err(CalibrationError::OutOfRange)
    } else {
        Ok(share)
    }
}

/// The square of `share` times half the modulus of the base field, each
/// step to `precision` digits, or the reason why it cannot be computed.
pub open spec fn squared_share(share: DecimalValue, precision: nat) -> Result<
    DecimalValue,
    CalibrationError,
> {
    let modulus = decimal_rounded(decimal_of(base_modulus()), precision);
    let half = decimal_quotient(modulus, decimal_of(2), precision);
    let square = decimal_power(share, 2, precision);
    let scaled = decimal_product(square, half, precision);
    if !moderate(modulus) || !moderate(half) || !moderate(square) || !moderate(scaled) {
        Err(CalibrationError::OutOfRange)
    } else {
        Ok(scaled)
    }
}

/// The two coefficients of an epoch as integers of the base field, or the
/// reason why there are none: the first is the field element of
/// `log_share`, the second that of `squared_share`.
pub open spec fn calibration(frequency: DecimalValue, total_stake: u64, precision: nat) -> Result<
    (nat, nat),
    CalibrationError,
> {
    match log_share(frequency, total_stake, precision) {
        Err(e) => Err(e),
        Ok(share) => match squared_share(share, precision) {
            Err(e) => Err(e),
            Ok(scaled) => match (field_image(share), field_image(scaled)) {
                (Some(sigma1), Some(sigma2)) => Ok((sigma1, sigma2)),
                _ => Err(CalibrationError::OutOfField),
            },
        },
    }
}

/// The modulus of the base field as a decimal.
fn modulus_decimal() -> (p: Decimal)
    ensures
        p@ == decimal_of(base_modulus()),
        moderate(p@),
{
    let mut magnitude: Vec<u8> = Vec::new();
    let mut i: usize = 0;
    while i < 32
        invariant
            i <= 32,
            magnitude@ == FIELD_MODULUS@.take(i as int),
        decreases 32 - i,
    {
        magnitude.push(FIELD_MODULUS[i]);
        i += 1;
        assert(magnitude@ =~= FIELD_MODULUS@.take(i as int));
    }
    proof {
        assert(magnitude@ =~= FIELD_MODULUS@);
        lemma_field_modulus();
        lemma_le_value_bound(magnitude@);
        lemma_pow256_monotonic(32, MAX_MAGNITUDE_BYTES as nat);
    }
    Decimal { negative: false, magnitude, exponent: 0 }
}

/// Computes `log_share`.
pub fn compute_log_share(frequency: &Decimal, total_stake: u64, precision: usize) -> (r: Result<
    Decimal,
    CalibrationError,
>)
    ensures
        match r {
            Ok(share) => log_share(frequency@, total_stake, precision as nat) == Ok::<
                DecimalValue,
                CalibrationError,
            >(share@) && moderate(share@),
            Err(e) => log_share(frequency@, total_stake, precision as nat) == Err::<
                DecimalValue,
                CalibrationError,
            >(e),
        },
{
    if precision == 0 || precision > MAX_PRECISION {
        return Err(CalibrationError::Precision);
    }
    if !frequency.is_moderate() {
        return Err(CalibrationError::OutOfRange);
    }
    let one = Decimal::from_u64(1);
    let rounded = dec_round(frequency, precision);
    let total_sigma = dec_round(&Decimal::from_u64(total_stake), precision);
    if !rounded.is_moderate() || !total_sigma.is_moderate() {
        return Err(CalibrationError::OutOfRange);
    }
    if total_stake == 0 || total_sigma.is_zero() {
        return Err(CalibrationError::ZeroStake);
    }
    let x = dec_sub(&one, &rounded, precision);
    if !x.is_moderate() {
        return Err(CalibrationError::OutOfRange);
    }
    if !x.is_positive() {
        return Err(CalibrationError::Frequency);
    }
    let c = dec_ln(&x, precision);
    if !c.is_moderate() {
        return Err(CalibrationError::OutOfRange);
    }
    let share = dec_div(&c, &total_sigma, precision);
    if !share.is_moderate() {
        return Err(CalibrationError::OutOfRange);
    }
    Ok(share)
}

/// Computes `squared_share`.
pub fn compute_squared_share(share: &Decimal, precision: usize) -> (r: Result<
    Decimal,
    CalibrationError,
>)
    requires
        moderate(share@),
        usable_precision(precision as nat),
    ensures
        match r {
            Ok(scaled) => squared_share(share@, precision as nat) == Ok::<
                DecimalValue,
                CalibrationError,
            >(scaled@) && moderate(scaled@),
            Err(e) => squared_share(share@, precision as nat) == Err::<
                DecimalValue,
                CalibrationError,
            >(e),
        },
{
    let two = Decimal::from_u64(2);
    let field_p = dec_round(&modulus_decimal(), precision);
    if !field_p.is_moderate() {
        return Err(CalibrationError::OutOfRange);
    }
    let half = dec_div(&field_p, &two, precision);
    if !half.is_moderate() {
        return Err(CalibrationError::OutOfRange);
    }
    let square = dec_powi(share, 2, precision);
    if !square.is_moderate() {
        return Err(CalibrationError::OutOfRange);
    }
    let scaled = dec_mul(&square, &half, precision);
    if !scaled.is_moderate() {
        return Err(CalibrationError::OutOfRange);
    }
    Ok(scaled)
}

/// The two coefficients of an epoch from the share of slots won in the
/// epoch before and the stake of the whole network, computed to `precision`
/// decimal digits.
///
/// Every participant must compute with the same precision: the function
/// refuses a precision of zero, which would stand for no limit, and never
/// picks one itself.
pub fn epoch_sigmas(frequency: &Decimal, total_stake: u64, precision: usize) -> (r: Result<
    (Base, Base),
    CalibrationError,
>)
    ensures
        match r {
            Ok((sigma1, sigma2)) => calibration(frequency@, total_stake, precision as nat) == Ok::<
                (nat, nat),
                CalibrationError,
            >((sigma1.value(), sigma2.value())),
            Err(e) => calibration(frequency@, total_stake, precision as nat) == Err::<
                (nat, nat),
                CalibrationError,
            >(e),
        },
{
    let share = match compute_log_share(frequency, total_stake, precision) {
        Ok(s) => s,
        Err(e) => { return Err(e); },
    };
    let scaled = match compute_squared_share(&share, precision) {
        Ok(s) => s,
        Err(e) => { return Err(e); },
    };
    let sigma1 = match decimal_to_base(&share) {
        Some(s) => s,
        None => { return Err(CalibrationError::OutOfField); },
    };
    let sigma2 = match decimal_to_base(&scaled) {
        Some(s) => s,
        None => { return Err(CalibrationError::OutOfField); },
    };
    Ok((sigma1, sigma2))
}

/// The share of slots that the competing coins won in the epoch before:
/// one half.
pub fn get_frequency() -> (f: Decimal)
    ensures
        f@ == decimal_quotient(decimal_of(1), decimal_of(2), RADIX_BITS as nat),
{
    let one = Decimal::from_u64(1);
    let two = Decimal::from_u64(2);
    dec_div(&one, &two, RADIX_BITS)
}

/// The stake of the whole network at a slot of an epoch: the reward of
/// every slot up to and including it.
pub open spec fn stake_at(epoch: u64, slot: u64) -> int {
    (epoch * EPOCH_LENGTH + slot + 1) * REWARD
}

/// The stake of the whole network at a slot of an epoch.
pub fn total_stake(epoch: u64, slot: u64) -> (stake: u64)
    requires
        stake_at(epoch, slot) <= u64::MAX,
    ensures
        stake == stake_at(epoch, slot),
{
    assert(epoch * EPOCH_LENGTH + slot + 1 <= stake_at(epoch, slot)) by (nonlinear_arith)
        requires
            REWARD >= 1,
            stake_at(epoch, slot) == (epoch * EPOCH_LENGTH + slot + 1) * REWARD,
    ;
    (epoch * EPOCH_LENGTH + slot + 1) * REWARD
}

/// The stake of the whole network at a slot of an epoch, or nothing where
/// it has more than 64 bits.
pub fn checked_total_stake(epoch: u64, slot: u64) -> (stake: Option<u64>)
    ensures
        stake is Some <==> stake_at(epoch, slot) <= u64::MAX,
        stake matches Some(s) ==> s == stake_at(epoch, slot),
{
    let slots = match epoch.checked_mul(EPOCH_LENGTH) {
        Some(v) => v,
        None => {
            assert(stake_at(epoch, slot) > u64::MAX) by (nonlinear_arith)
                requires
                    epoch * EPOCH_LENGTH > u64::MAX,
                    REWARD >= 1,
                    slot >= 0,
                    stake_at(epoch, slot) == (epoch * EPOCH_LENGTH + slot + 1) * REWARD,
            ;
            return None;
        },
    };
    let upto = match slots.checked_add(slot) {
        Some(v) => v,
        None => {
            assert(stake_at(epoch, slot) > u64::MAX) by (nonlinear_arith)
                requires
                    epoch * EPOCH_LENGTH + slot > u64::MAX,
                    REWARD >= 1,
                    stake_at(epoch, slot) == (epoch * EPOCH_LENGTH + slot + 1) * REWARD,
            ;
            return None;
        },
    };
    let count = match upto.checked_add(1) {
        Some(v) => v,
        None => {
            assert(stake_at(epoch, slot) > u64::MAX) by (nonlinear_arith)
                requires
                    epoch * EPOCH_LENGTH + slot + 1 > u64::MAX,
                    REWARD >= 1,
                    stake_at(epoch, slot) == (epoch * EPOCH_LENGTH + slot + 1) * REWARD,
            ;
            return None;
        },
    };
    count.checked_mul(REWARD)
}

/// Why an epoch's coins could not be made.
#[derive(Clone, Copy, Debug, PartialEq, Eq, Structural)]
pub enum EpochError {
    /// The epoch could not be calibrated.
    Calibration(CalibrationError),
    /// A coin could not be made.
    Coin(CoinError),
}

/// Whether `coins` are an epoch's coins under the coefficients that the
/// calibration gives for a slot of an epoch, for some random values.
pub open spec fn is_calibrated_epoch(
    coins: Seq<Vec<LeadCoin>>,
    eta: Seq<u8>,
    owned: Seq<OwnCoin>,
    epoch: u64,
    slot: u64,
    randomness: EpochRandomness,
) -> bool {
    exists|
        sigma1: Base,
        sigma2: Base,
        sks: Seq<SecretKey>,
        roots: Seq<MerkleNode>,
        paths: Seq<[MerkleNode; 32]>,
    |
        {
            &&& calibration(
                decimal_quotient(decimal_of(1), decimal_of(2), RADIX_BITS as nat),
                stake_at(epoch, slot) as u64,
                RADIX_BITS as nat,
            ) == Ok::<(nat, nat), CalibrationError>((sigma1.value(), sigma2.value()))
            &&& #[trigger] is_epoch_coins(
                coins,
                eta,
                owned,
                sigma1,
                sigma2,
                randomness,
                sks,
                roots,
                paths,
            )
        }
}

/// Whether `r` is what making the coins of an epoch for a slot gives: the
/// calibration's error where the calibration has one, and else what making
/// the coins under its coefficients gives: the error of a point without
/// coordinates where not every coin can be made, else the error of the tree
/// where a tree hands out no path, and else the coins.
pub open spec fn is_epoch_outcome(
    r: Result<Vec<Vec<LeadCoin>>, EpochError>,
    eta: Seq<u8>,
    owned: Seq<OwnCoin>,
    epoch: u64,
    slot: u64,
    randomness: EpochRandomness,
) -> bool {
    let defined = epoch_defined(owned, randomness);
    let held = epoch_paths_hold(owned, randomness);
    match calibration(
        decimal_quotient(decimal_of(1), decimal_of(2), RADIX_BITS as nat),
        stake_at(epoch, slot) as u64,
        RADIX_BITS as nat,
    ) {
        Err(e) => r == Err::<Vec<Vec<LeadCoin>>, EpochError>(EpochError::Calibration(e)),
        Ok(_) => {
            &&& r == Err::<Vec<Vec<LeadCoin>>, EpochError>(
                EpochError::Coin(CoinError::IdentityPoint),
            ) <==> !defined
            &&& r == Err::<Vec<Vec<LeadCoin>>, EpochError>(
                EpochError::Coin(CoinError::TreeInsertion),
            ) <==> defined && !held
            &&& r is Ok <==> defined && held
            &&& r matches Ok(coins) ==> epoch_shape(coins@, owned) && is_calibrated_epoch(
                coins@,
                eta,
                owned,
                epoch,
                slot,
                randomness,
            )
        },
    }
}

/// The coins of an epoch under the coefficients that the calibration gives
/// for a slot of the epoch, from given random values.
pub fn create_epoch_coins_with(
    eta: Base,
    owned: &Vec<OwnCoin>,
    epoch: u64,
    slot: u64,
    randomness: &EpochRandomness,
) -> (r: Result<Vec<Vec<LeadCoin>>, EpochError>)
    requires
        stake_at(epoch, slot) <= u64::MAX,
        randomness.fits(owned@.len()),
    ensures
        is_epoch_outcome(r, eta@, owned@, epoch, slot, *randomness),
{
    let frequency = get_frequency();
    let total_stake = total_stake(epoch, slot);
    let (sigma1, sigma2) = match epoch_sigmas(&frequency, total_stake, RADIX_BITS) {
        Ok(sigmas) => sigmas,
        Err(e) => { return Err(EpochError::Calibration(e)); },
    };
    let made = create_coins_with(eta, owned, sigma1, sigma2, randomness);
    assert(is_coins_outcome(made, eta@, owned@, sigma1, sigma2, *randomness));
    let r = match made {
        Ok(coins) => Ok(coins),
        Err(e) => Err(EpochError::Coin(e)),
    };
    assert(is_epoch_outcome(r, eta@, owned@, epoch, slot, *randomness));
    r
}

/// The coins of an epoch as `create_epoch_coins_with` makes them, from
/// random values drawn here: the result is the one that
/// `create_epoch_coins_with` gives under some random values that fit the
/// stake records.
pub fn create_epoch_coins(eta: Base, owned: &Vec<OwnCoin>, epoch: u64, slot: u64) -> (r: Result<
    Vec<Vec<LeadCoin>>,
    EpochError,
>)
    requires
        stake_at(epoch, slot) <= u64::MAX,
    ensures
        exists|randomness: EpochRandomness|
            randomness.fits(owned@.len()) && #[trigger] is_epoch_outcome(
                r,
                eta@,
                owned@,
                epoch,
                slot,
                randomness,
            ),
        r matches Ok(coins) ==> epoch_shape(coins@, owned@),
        calibration(
            decimal_quotient(decimal_of(1), decimal_of(2), RADIX_BITS as nat),
            stake_at(epoch, slot) as u64,
            RADIX_BITS as nat,
        ) matches Err(e) ==> r == Err::<Vec<Vec<LeadCoin>>, EpochError>(
            EpochError::Calibration(e),
        ),
{
    let randomness = EpochRandomness::sample(owned.len());
    let r = create_epoch_coins_with(eta, owned, epoch, slot, &randomness);
    assert(is_epoch_outcome(r, eta@, owned@, epoch, slot, randomness));
    r
}

} // verus!
