//! Points of the Pallas curve, held by their 32-byte compressed encodings,
//! and the Pedersen commitments built from them.
//!
//! The group law is `pasta_curves`'s. A commitment is this module's own
//! composition of it, `V * value + R * blind`, with generators derived by
//! hashing to the curve.

use crate::bytes::le_bytes;
use crate::field::{Base, Scalar};
use pasta_curves::arithmetic::{CurveAffine, CurveExt};
use pasta_curves::group::ff::PrimeField;
use pasta_curves::group::{Curve, GroupEncoding};
use pasta_curves::pallas;
use vstd::prelude::*;

verus! {

/// Most characters of a domain prefix.
pub const MAX_DOMAIN_CHARS: usize = 56;

/// Whether 32 bytes are the compressed encoding of a curve point.
pub uninterp spec fn point_decodes(bytes: Seq<u8>) -> bool;

/// The point that a message hashes to under a domain prefix.
pub uninterp spec fn curve_hash(domain: Seq<char>, message: Seq<u8>) -> Seq<u8>;

/// The multiple of a point by a scalar.
pub uninterp spec fn curve_product(point: Seq<u8>, scalar: Seq<u8>) -> Seq<u8>;

/// The sum of two points.
pub uninterp spec fn curve_sum(a: Seq<u8>, b: Seq<u8>) -> Seq<u8>;

/// The affine coordinates of a point, each by its canonical encoding; the
/// identity has none.
pub uninterp spec fn curve_coordinates(point: Seq<u8>) -> Option<(Seq<u8>, Seq<u8>)>;

/// A point of the Pallas curve.
#[derive(Clone, Copy, Debug, PartialEq, Eq)]
pub struct Point {
    pub(crate) bytes: [u8; 32],
}

impl View for Point {
    type V = Seq<u8>;

    /// The compressed encoding.
    closed spec fn view(&self) -> Seq<u8> {
        self.bytes@
    }
}

/// `pallas::Point::from_bytes`: tells whether the bytes decode to a point.
#[verifier::external_body]
fn bytes_decode(bytes: &[u8; 32]) -> (ok: bool)
    ensures
        ok == point_decodes(bytes@),
{
    bool::from(pallas::Point::from_bytes(bytes).is_some())
}

/// `pallas::Point::hash_to_curve`: the point for a message under a domain
/// prefix. The call panics on a prefix of 228 bytes or more, which takes
/// more than 56 characters.
#[verifier::external_body]
fn hash_to_curve(domain: &str, message: &[u8]) -> (r: Point)
    requires
        domain@.len() <= MAX_DOMAIN_CHARS,
    ensures
        r@ == curve_hash(domain@, message@),
{
    Point { bytes: pallas::Point::hash_to_curve(domain)(message).to_bytes() }
}

/// Multiplication of a `pallas::Point` by a `pallas::Scalar`.
#[verifier::external_body]
fn point_product(p: &Point, s: &Scalar) -> (r: Point)
    ensures
        r@ == curve_product(p@, s@),
{
    let point = pallas::Point::from_bytes(&p.bytes).unwrap();
    let scalar = pallas::Scalar::from_repr(s.repr).unwrap();
    Point { bytes: (point * scalar).to_bytes() }
}

/// Addition of two `pallas::Point`s.
#[verifier::external_body]
fn point_sum(a: &Point, b: &Point) -> (r: Point)
    ensures
        r@ == curve_sum(a@, b@),
{
    let x = pallas::Point::from_bytes(&a.bytes).unwrap();
    let y = pallas::Point::from_bytes(&b.bytes).unwrap();
    Point { bytes: (x + y).to_bytes() }
}

/// `to_affine().coordinates()` of a `pallas::Point`: both coordinates, or
/// nothing for the identity.
#[verifier::external_body]
fn point_coordinates(p: &Point) -> (r: Option<(Base, Base)>)
    ensures
        match r {
            Some((x, y)) => curve_coordinates(p@) == Some((x@, y@)),
            None => curve_coordinates(p@) is None,
        },
{
    let affine = pallas::Point::from_bytes(&p.bytes).unwrap().to_affine();
    match Option::from(affine.coordinates()) {
        Some(c) => {
            let c: pasta_curves::arithmetic::Coordinates<pallas::Affine> = c;
            Some((Base { repr: c.x().to_repr() }, Base { repr: c.y().to_repr() }))
        },
        None => None,
    }
}

/// The domain prefix of the commitment generators.
pub open spec fn commitment_domain() -> Seq<char> {
    "z.cash:Orchard-cv"@
}

/// The domain prefix of the key generator.
pub open spec fn key_domain() -> Seq<char> {
    "z.cash:Orchard"@
}

/// The generator that carries the value in a commitment to an integer.
pub open spec fn value_generator() -> Seq<u8> {
    curve_hash(commitment_domain(), seq![0x76u8])
}

/// The generator that carries the blinding factor.
pub open spec fn blind_generator() -> Seq<u8> {
    curve_hash(commitment_domain(), seq![0x72u8])
}

/// The generator of public keys, which also carries the value in a
/// commitment to a field element.
pub open spec fn key_generator() -> Seq<u8> {
    curve_hash(key_domain(), seq![0x4bu8])
}

/// `generator * value + blind_generator() * blind`.
pub open spec fn commitment(generator: Seq<u8>, value: Seq<u8>, blind: Seq<u8>) -> Seq<u8> {
    curve_sum(curve_product(generator, value), curve_product(blind_generator(), blind))
}

/// The commitment to an integer under a blinding factor.
pub open spec fn commitment_to_u64(value: u64, blind: Seq<u8>) -> Seq<u8> {
    commitment(value_generator(), le_bytes(value as nat, 32), blind)
}

/// The commitment to a field element under a blinding factor.
pub open spec fn commitment_to_base(value: Seq<u8>, blind: Seq<u8>) -> Seq<u8> {
    commitment(key_generator(), value, blind)
}

/// The public key of a secret key.
pub open spec fn public_key_of(secret: Seq<u8>) -> Seq<u8> {
    curve_product(key_generator(), secret)
}

impl Point {
    /// The bytes decode to a point.
    #[verifier::type_invariant]
    pub closed spec fn wf(self) -> bool {
        point_decodes(self.bytes@)
    }

    /// The point that 32 bytes encode, if they encode one.
    pub fn from_bytes(bytes: [u8; 32]) -> (r: Option<Point>)
        ensures
            r is Some <==> point_decodes(bytes@),
            r is Some ==> r->0@ == bytes@,
    {
        if bytes_decode(&bytes) {
            Some(Point { bytes })
        } else {
            None
        }
    }

    /// The compressed encoding.
    pub fn to_bytes(&self) -> (bytes: [u8; 32])
        ensures
            bytes@ == self@,
    {
        self.bytes
    }

    /// Both affine coordinates, or nothing for the identity.
    pub fn coordinates(&self) -> (r: Option<(Base, Base)>)
        ensures
            match r {
                Some((x, y)) => curve_coordinates(self@) == Some((x@, y@)),
                None => curve_coordinates(self@) is None,
            },
    {
        point_coordinates(self)
    }
}

/// The scalar that stands for the same integer as a base field element.
pub fn mod_r_p(x: &Base) -> (r: Scalar)
    ensures
        r@ == x@,
{
    Scalar::from_base(x)
}

fn generator_for_values() -> (g: Point)
    ensures
        g@ == value_generator(),
{
    let tag: [u8; 1] = [0x76];
    assert(tag@ =~= seq![0x76u8]);
    proof {
        reveal_strlit("z.cash:Orchard-cv");
    }
    hash_to_curve("z.cash:Orchard-cv", tag.as_slice())
}

fn generator_for_blinds() -> (g: Point)
    ensures
        g@ == blind_generator(),
{
    let tag: [u8; 1] = [0x72];
    assert(tag@ =~= seq![0x72u8]);
    proof {
        reveal_strlit("z.cash:Orchard-cv");
    }
    hash_to_curve("z.cash:Orchard-cv", tag.as_slice())
}

fn generator_for_keys() -> (g: Point)
    ensures
        g@ == key_generator(),
{
    let tag: [u8; 1] = [0x4b];
    assert(tag@ =~= seq![0x4bu8]);
    proof {
        reveal_strlit("z.cash:Orchard");
    }
    hash_to_curve("z.cash:Orchard", tag.as_slice())
}

/// Pedersen commitment to an integer.
pub fn pedersen_commitment_u64(value: u64, blind: &Scalar) -> (c: Point)
    ensures
        c@ == commitment_to_u64(value, blind@),
{
    let v = generator_for_values();
    let r = generator_for_blinds();
    let amount = mod_r_p(&Base::from_u64(value));
    point_sum(&point_product(&v, &amount), &point_product(&r, blind))
}

/// Pedersen commitment to a field element.
pub fn pedersen_commitment_base(value: &Base, blind: &Scalar) -> (c: Point)
    ensures
        c@ == commitment_to_base(value@, blind@),
{
    let v = generator_for_keys();
    let r = generator_for_blinds();
    let amount = mod_r_p(value);
    point_sum(&point_product(&v, &amount), &point_product(&r, blind))
}

/// The public key that belongs to a secret key.
pub fn public_key(secret: &Base) -> (pk: Point)
    ensures
        pk@ == public_key_of(secret@),
{
    let g = generator_for_keys();
    point_product(&g, &mod_r_p(secret))
}

} // verus!
