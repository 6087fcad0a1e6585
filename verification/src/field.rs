//! Elements of the two Pallas fields, held by their canonical 32-byte
//! little-endian encodings.
//!
//! The arithmetic itself is done by `pasta_curves`; what is stated of it here
//! is stated over the integers that the encodings spell.

use crate::bytes::{le_bytes, le_value, lemma_le_bytes_of_value};
use pasta_curves::group::ff::PrimeField;
use pasta_curves::pallas;
use vstd::prelude::*;

verus! {

/// The modulus of the Pallas base field.
pub open spec fn base_modulus() -> nat {
    0x40000000000000000000000000000000224698fc094cf91b992d30ed00000001nat
}

/// The modulus of the Pallas scalar field.
pub open spec fn scalar_modulus() -> nat {
    0x40000000000000000000000000000000224698fc0994a8dd8c46eb2100000001nat
}

/// An element of the Pallas base field.
///
/// The derived order is that of the encodings, byte by byte, and serves
/// where any total order will do. The order of the integers is `is_below`.
#[derive(Clone, Copy, Debug, PartialEq, Eq, PartialOrd, Ord)]
pub struct Base {
    pub(crate) repr: [u8; 32],
}

impl View for Base {
    type V = Seq<u8>;

    /// The canonical encoding.
    closed spec fn view(&self) -> Seq<u8> {
        self.repr@
    }
}

/// An element of the Pallas scalar field.
#[derive(Clone, Copy, Debug, PartialEq, Eq)]
pub struct Scalar {
    pub(crate) repr: [u8; 32],
}

impl View for Scalar {
    type V = Seq<u8>;

    /// The canonical encoding.
    closed spec fn view(&self) -> Seq<u8> {
        self.repr@
    }
}

/// `pallas::Base::from_repr`: tells whether the 32 bytes spell an integer
/// below the base field's modulus, which is when that function yields an
/// element.
#[verifier::external_body]
fn base_repr_is_canonical(bytes: &[u8; 32]) -> (ok: bool)
    ensures
        ok == (le_value(bytes@) < base_modulus()),
{
    bool::from(pallas::Base::from_repr(*bytes).is_some())
}

/// `pallas::Scalar::from_repr`: tells whether the 32 bytes spell an integer
/// below the scalar field's modulus.
#[verifier::external_body]
fn scalar_repr_is_canonical(bytes: &[u8; 32]) -> (ok: bool)
    ensures
        ok == (le_value(bytes@) < scalar_modulus()),
{
    bool::from(pallas::Scalar::from_repr(*bytes).is_some())
}

/// `pallas::Base::from(u64)`: the field element of that integer.
#[verifier::external_body]
fn base_of_u64(v: u64) -> (r: Base)
    ensures
        r.value() == v,
{
    Base { repr: pallas::Base::from(v).to_repr() }
}

/// `pallas::Base::from_raw` on the four 64-bit limbs that the 32 bytes
/// spell: the field element congruent to the bytes' integer.
#[verifier::external_body]
fn base_of_wide(bytes: &[u8; 32]) -> (r: Base)
    ensures
        r.value() == le_value(bytes@) % base_modulus(),
{
    let l0 = u64::from_le_bytes(bytes[0..8].try_into().unwrap());
    let l1 = u64::from_le_bytes(bytes[8..16].try_into().unwrap());
    let l2 = u64::from_le_bytes(bytes[16..24].try_into().unwrap());
    let l3 = u64::from_le_bytes(bytes[24..32].try_into().unwrap());
    Base { repr: pallas::Base::from_raw([l0, l1, l2, l3]).to_repr() }
}

/// Addition of `pallas::Base`: the sum modulo the field's modulus.
#[verifier::external_body]
fn base_sum(a: &Base, b: &Base) -> (r: Base)
    ensures
        r.value() == (a.value() + b.value()) % base_modulus(),
{
    let x = pallas::Base::from_repr(a.repr).unwrap();
    let y = pallas::Base::from_repr(b.repr).unwrap();
    Base { repr: (x + y).to_repr() }
}

/// Multiplication of `pallas::Base`: the product modulo the field's modulus.
#[verifier::external_body]
fn base_product(a: &Base, b: &Base) -> (r: Base)
    ensures
        r.value() == (a.value() * b.value()) % base_modulus(),
{
    let x = pallas::Base::from_repr(a.repr).unwrap();
    let y = pallas::Base::from_repr(b.repr).unwrap();
    Base { repr: (x * y).to_repr() }
}

/// Negation of `pallas::Base`: the additive inverse modulo the field's
/// modulus.
#[verifier::external_body]
fn base_negation(a: &Base) -> (r: Base)
    ensures
        r.value() == (base_modulus() - a.value()) % (base_modulus() as int),
{
    let x = pallas::Base::from_repr(a.repr).unwrap();
    Base { repr: (-x).to_repr() }
}

/// The order of `pallas::Base`, which is that of the integers that the
/// canonical encodings spell.
#[verifier::external_body]
fn base_is_below(a: &Base, b: &Base) -> (r: bool)
    ensures
        r == (a.value() < b.value()),
{
    let x = pallas::Base::from_repr(a.repr).unwrap();
    let y = pallas::Base::from_repr(b.repr).unwrap();
    x < y
}

impl Base {
    /// The encoding spells an integer below the modulus.
    #[verifier::type_invariant]
    pub closed spec fn wf(self) -> bool {
        le_value(self.repr@) < base_modulus()
    }

    /// The integer that the element stands for.
    pub open spec fn value(self) -> nat {
        le_value(self@)
    }

    /// An encoding has 32 bytes, and they are the little-endian bytes of
    /// the element's integer.
    pub proof fn lemma_repr(self)
        ensures
            self@.len() == 32,
            self@ == le_bytes(self.value(), 32),
    {
        lemma_le_bytes_of_value(self@);
    }

    /// The element of the integer `v`.
    pub fn from_u64(v: u64) -> (r: Base)
        ensures
            r.wf(),
            r.value() == v,
            r@ == le_bytes(v as nat, 32),
    {
        let r = base_of_u64(v);
        proof {
            use_type_invariant(&r);
            lemma_le_bytes_of_value(r@);
        }
        r
    }

    /// The element that 32 bytes encode, if they spell an integer below the
    /// modulus.
    pub fn from_repr(bytes: [u8; 32]) -> (r: Option<Base>)
        ensures
            r is Some <==> le_value(bytes@) < base_modulus(),
            r is Some ==> r->0@ == bytes@ && r->0.wf(),
    {
        if base_repr_is_canonical(&bytes) {
            Some(Base { repr: bytes })
        } else {
            None
        }
    }

    /// The element congruent to the integer that 32 bytes spell.
    pub fn from_wide(bytes: &[u8; 32]) -> (r: Base)
        ensures
            r.wf(),
            r.value() == le_value(bytes@) % base_modulus(),
    {
        let r = base_of_wide(bytes);
        proof {
            use_type_invariant(&r);
        }
        r
    }

    /// The canonical encoding.
    pub fn to_repr(&self) -> (bytes: [u8; 32])
        ensures
            bytes@ == self@,
            le_value(bytes@) < base_modulus(),
    {
        proof {
            use_type_invariant(self);
        }
        self.repr
    }

    /// The sum in the field.
    pub fn plus(&self, other: &Base) -> (r: Base)
        ensures
            r.wf(),
            r.value() == (self.value() + other.value()) % base_modulus(),
    {
        let r = base_sum(self, other);
        proof {
            use_type_invariant(&r);
        }
        r
    }

    /// The product in the field.
    pub fn times(&self, other: &Base) -> (r: Base)
        ensures
            r.wf(),
            r.value() == (self.value() * other.value()) % base_modulus(),
    {
        let r = base_product(self, other);
        proof {
            use_type_invariant(&r);
        }
        r
    }

    /// The additive inverse in the field.
    pub fn negated(&self) -> (r: Base)
        ensures
            r.wf(),
            r.value() == (base_modulus() - self.value()) % (base_modulus() as int),
    {
        let r = base_negation(self);
        proof {
            use_type_invariant(&r);
        }
        r
    }

    /// Whether this element's integer is below the other's.
    pub fn is_below(&self, other: &Base) -> (r: bool)
        ensures
            r == (self.value() < other.value()),
    {
        base_is_below(self, other)
    }

    /// Whether the two elements are the same.
    pub fn same(&self, other: &Base) -> (r: bool)
        ensures
            r == (self@ == other@),
    {
        let mut i: usize = 0;
        while i < 32
            invariant
                i <= 32,
                forall|j: int| 0 <= j < i ==> self.repr@[j] == other.repr@[j],
            decreases 32 - i,
        {
            if self.repr[i] != other.repr[i] {
                return false;
            }
            i += 1;
        }
        assert(self.repr@ =~= other.repr@);
        true
    }
}

impl Scalar {
    /// The encoding spells an integer below the modulus.
    #[verifier::type_invariant]
    pub closed spec fn wf(self) -> bool {
        le_value(self.repr@) < scalar_modulus()
    }

    /// The integer that the element stands for.
    pub open spec fn value(self) -> nat {
        le_value(self@)
    }

    /// An encoding has 32 bytes, and they are the little-endian bytes of
    /// the scalar's integer.
    pub proof fn lemma_repr(self)
        ensures
            self@.len() == 32,
            self@ == le_bytes(self.value(), 32),
    {
        lemma_le_bytes_of_value(self@);
    }

    /// The scalar that 32 bytes encode, if they spell an integer below the
    /// modulus.
    pub fn from_repr(bytes: [u8; 32]) -> (r: Option<Scalar>)
        ensures
            r is Some <==> le_value(bytes@) < scalar_modulus(),
            r is Some ==> r->0@ == bytes@ && r->0.wf(),
    {
        if scalar_repr_is_canonical(&bytes) {
            Some(Scalar { repr: bytes })
        } else {
            None
        }
    }

    /// The scalar with the same integer as a base field element: the base
    /// field is the smaller of the two, so every element of it has one.
    pub fn from_base(x: &Base) -> (r: Scalar)
        ensures
            r.wf(),
            r@ == x@,
    {
        let bytes = x.to_repr();
        assert(base_modulus() < scalar_modulus());
        Scalar { repr: bytes }
    }

    /// The canonical encoding.
    pub fn to_repr(&self) -> (bytes: [u8; 32])
        ensures
            bytes@ == self@,
            le_value(bytes@) < scalar_modulus(),
    {
        proof {
            use_type_invariant(self);
        }
        self.repr
    }
}

} // verus!
