//! Random values.

use crate::field::{Base, Scalar};
use pasta_curves::group::ff::{Field, PrimeField};
use pasta_curves::pallas;
use rand::Rng;
use vstd::prelude::*;

verus! {

/// `rand::thread_rng().gen::<u64>()`: any 64-bit integer.
#[verifier::external_body]
pub(crate) fn random_u64() -> u64 {
    rand::thread_rng().gen()
}

/// `pallas::Base::random` on `rand::rngs::OsRng`: any element of the base
/// field.
#[verifier::external_body]
pub(crate) fn random_base() -> Base {
    Base { repr: pallas::Base::random(rand::rngs::OsRng).to_repr() }
}

/// `pallas::Scalar::random` on `rand::thread_rng()`: any scalar.
#[verifier::external_body]
pub(crate) fn random_scalar() -> Scalar {
    Scalar { repr: pallas::Scalar::random(rand::thread_rng()).to_repr() }
}

} // verus!
