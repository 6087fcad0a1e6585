//! The two hash functions of the consensus core: Poseidon over the Pallas
//! base field, and BLAKE3 over bytes.

use crate::bytes::bytes_equal;
use crate::field::Base;
use halo2_gadgets::poseidon::primitives;
use halo2_gadgets::poseidon::primitives::{ConstantLength, P128Pow5T3};
use pasta_curves::group::ff::PrimeField;
use pasta_curves::pallas;
use vstd::prelude::*;

verus! {

/// The Poseidon hash (P128Pow5T3, constant input length) of a message of
/// field elements, each given and returned by its canonical encoding.
pub uninterp spec fn poseidon_hash(message: Seq<Seq<u8>>) -> Seq<u8>;

/// The BLAKE3 digest of `data`: 32 bytes.
pub uninterp spec fn blake3_digest(data: Seq<u8>) -> Seq<u8>;

/// `Hash::<_, P128Pow5T3, ConstantLength<2>, 3, 2>::init().hash` of
/// `halo2_gadgets::poseidon::primitives`, on the two elements in this order.
#[verifier::external_body]
pub(crate) fn poseidon_pair(a: &Base, b: &Base) -> (r: Base)
    ensures
        r@ == poseidon_hash(seq![a@, b@]),
{
    let x = pallas::Base::from_repr(a.repr).unwrap();
    let y = pallas::Base::from_repr(b.repr).unwrap();
    let h = primitives::Hash::<_, P128Pow5T3, ConstantLength<2>, 3, 2>::init().hash([x, y]);
    Base { repr: h.to_repr() }
}

/// `Hash::<_, P128Pow5T3, ConstantLength<3>, 3, 2>::init().hash` of
/// `halo2_gadgets::poseidon::primitives`, on the three elements in this
/// order.
#[verifier::external_body]
pub(crate) fn poseidon_triple(a: &Base, b: &Base, c: &Base) -> (r: Base)
    ensures
        r@ == poseidon_hash(seq![a@, b@, c@]),
{
    let x = pallas::Base::from_repr(a.repr).unwrap();
    let y = pallas::Base::from_repr(b.repr).unwrap();
    let z = pallas::Base::from_repr(c.repr).unwrap();
    let h = primitives::Hash::<_, P128Pow5T3, ConstantLength<3>, 3, 2>::init().hash([x, y, z]);
    Base { repr: h.to_repr() }
}

/// `Hash::<_, P128Pow5T3, ConstantLength<6>, 3, 2>::init().hash` of
/// `halo2_gadgets::poseidon::primitives`, on the six elements in this order.
#[verifier::external_body]
pub(crate) fn poseidon_six(m: &[Base; 6]) -> (r: Base)
    ensures
        r@ == poseidon_hash(seq![m[0]@, m[1]@, m[2]@, m[3]@, m[4]@, m[5]@]),
{
    let msg = m.map(|e| pallas::Base::from_repr(e.repr).unwrap());
    let h = primitives::Hash::<_, P128Pow5T3, ConstantLength<6>, 3, 2>::init().hash(msg);
    Base { repr: h.to_repr() }
}

/// `blake3::hash`: the 32-byte digest of the data.
#[verifier::external_body]
fn blake3_of(data: &[u8]) -> (digest: [u8; 32])
    ensures
        digest@ == blake3_digest(data@),
{
    *blake3::hash(data).as_bytes()
}

/// A BLAKE3 digest.
#[derive(Clone, Copy, Debug, PartialEq, Eq)]
pub struct Digest {
    bytes: [u8; 32],
}

impl View for Digest {
    type V = Seq<u8>;

    /// The 32 bytes.
    closed spec fn view(&self) -> Seq<u8> {
        self.bytes@
    }
}

impl Digest {
    /// A digest has 32 bytes.
    pub proof fn lemma_len(self)
        ensures
            self@.len() == 32,
    {
    }

    /// The digest of these 32 bytes.
    pub fn new(bytes: [u8; 32]) -> (d: Digest)
        ensures
            d@ == bytes@,
    {
        Digest { bytes }
    }

    /// The 32 bytes.
    pub fn to_bytes(&self) -> (bytes: [u8; 32])
        ensures
            bytes@ == self@,
    {
        self.bytes
    }

    /// Whether the two digests are the same.
    pub fn same(&self, other: &Digest) -> (r: bool)
        ensures
            r == (self@ == other@),
    {
        bytes_equal(self.bytes.as_slice(), other.bytes.as_slice())
    }
}

/// The BLAKE3 digest of `data`.
pub fn blake3(data: &[u8]) -> (d: Digest)
    ensures
        d@ == blake3_digest(data@),
{
    Digest { bytes: blake3_of(data) }
}

} // verus!
