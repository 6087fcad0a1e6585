use crypsinous::coins::{create_coins_election_seeds, create_leadcoin_with};
use crypsinous::curve::{pedersen_commitment_base, pedersen_commitment_u64, public_key};
use crypsinous::field::{Base, Scalar};
use crypsinous::keychain::{create_coins_sks_from, SecretKey};
use crypsinous::merkle::{join, MerkleNode};
use halo2_gadgets::poseidon::primitives as poseidon;
use halo2_gadgets::sinsemilla::primitives::HashDomain;
use pasta_curves::arithmetic::{CurveAffine, CurveExt};
use pasta_curves::group::ff::PrimeField;
use pasta_curves::group::{Curve, GroupEncoding};
use pasta_curves::pallas;

fn fp(x: &Base) -> pallas::Base {
    pallas::Base::from_repr(x.to_repr()).unwrap()
}

fn fq(x: &Scalar) -> pallas::Scalar {
    pallas::Scalar::from_repr(x.to_repr()).unwrap()
}

fn scalar(v: u64) -> Scalar {
    Scalar::from_base(&Base::from_u64(v))
}

fn hash2(a: pallas::Base, b: pallas::Base) -> pallas::Base {
    poseidon::Hash::<_, poseidon::P128Pow5T3, poseidon::ConstantLength<2>, 3, 2>::init()
        .hash([a, b])
}

fn commit_base(value: pallas::Base, blind: pallas::Scalar) -> pallas::Point {
    let v = pallas::Point::hash_to_curve("z.cash:Orchard")(b"K");
    let r = pallas::Point::hash_to_curve("z.cash:Orchard-cv")(b"r");
    v * pallas::Scalar::from_repr(value.to_repr()).unwrap() + r * blind
}

#[test]
fn election_seeds_are_poseidon_hashes_of_tag_randomness_and_slot() {
    let eta = Base::from_u64(9);
    let slot = Base::from_u64(4);
    let (lead, nonce) = create_coins_election_seeds(eta, slot);
    let expected_lead =
        poseidon::Hash::<_, poseidon::P128Pow5T3, poseidon::ConstantLength<3>, 3, 2>::init()
            .hash([pallas::Base::from(22), fp(&eta), fp(&slot)]);
    let expected_nonce =
        poseidon::Hash::<_, poseidon::P128Pow5T3, poseidon::ConstantLength<3>, 3, 2>::init()
            .hash([pallas::Base::from(3), fp(&eta), fp(&slot)]);
    assert_eq!(fp(&lead), expected_lead);
    assert_eq!(fp(&nonce), expected_nonce);
}

#[test]
fn commitments_are_sums_of_multiples_of_the_generators() {
    let blind = scalar(77);
    let v = pallas::Point::hash_to_curve("z.cash:Orchard-cv")(b"v");
    let r = pallas::Point::hash_to_curve("z.cash:Orchard-cv")(b"r");
    let expected = v * pallas::Scalar::from(5u64) + r * fq(&blind);
    assert_eq!(pedersen_commitment_u64(5, &blind).to_bytes(), expected.to_bytes());

    let value = Base::from_u64(123456);
    let expected = commit_base(fp(&value), fq(&blind));
    assert_eq!(pedersen_commitment_base(&value, &blind).to_bytes(), expected.to_bytes());

    let k = pallas::Point::hash_to_curve("z.cash:Orchard")(b"K");
    let secret = Base::from_u64(31);
    assert_eq!(public_key(&secret).to_bytes(), (k * pallas::Scalar::from(31u64)).to_bytes());
}

#[test]
fn keys_are_hashes_of_commitment_coordinates() {
    let seed = scalar(42);
    let (sks, _, _) = create_coins_sks_from(seed).unwrap();
    let v = pallas::Point::hash_to_curve("z.cash:Orchard-cv")(b"v");
    let r = pallas::Point::hash_to_curve("z.cash:Orchard-cv")(b"r");
    let mut blind = fq(&seed);
    for sk in &sks {
        let base = v * pallas::Scalar::from(1u64) + r * blind;
        let coords = base.to_affine().coordinates().unwrap();
        let expected = hash2(*coords.x(), *coords.y());
        assert_eq!(fp(&sk.inner()), expected);
        blind = pallas::Scalar::from_repr(expected.to_repr()).unwrap();
    }
}

#[test]
fn nodes_are_joined_by_sinsemilla() {
    let left = Base::from_u64(11);
    let right = Base::from_u64(12).negated();
    for level in [0u8, 1, 7, 31] {
        let mut bits: Vec<bool> = vec![];
        for i in 0..10 {
            bits.push((level as u16 >> i) & 1 == 1);
        }
        for x in [&left, &right] {
            let repr = x.to_repr();
            for i in 0..255 {
                bits.push((repr[i / 8] >> (i % 8)) & 1 == 1);
            }
        }
        let expected: Option<pallas::Base> =
            HashDomain::new("z.cash:Orchard-MerkleCRH").hash(bits.into_iter()).into();
        let joined = join(level, &MerkleNode::new(left), &MerkleNode::new(right));
        assert_eq!(fp(&joined.inner()), expected.unwrap());
    }
}

#[test]
fn coin_commits_to_key_value_and_nonce() {
    let sk = SecretKey::new(Base::from_u64(5));
    let root = MerkleNode::new(Base::from_u64(3));
    let path = [MerkleNode::new(Base::from_u64(8)); 32];
    let coin = create_leadcoin_with(
        Base::from_u64(9),
        Base::from_u64(1),
        Base::from_u64(2),
        420,
        6,
        root,
        path,
        17,
        sk,
        scalar(1),
        scalar(2),
    )
    .unwrap();
    let k = pallas::Point::hash_to_curve("z.cash:Orchard")(b"K");
    let pk = (k * pallas::Scalar::from(5u64)).to_affine().coordinates().unwrap();
    let nonce = hash2(pallas::Base::from(17), pallas::Base::from(3));
    assert_eq!(fp(&coin.nonce), nonce);
    let message = |nonce: pallas::Base| {
        poseidon::Hash::<_, poseidon::P128Pow5T3, poseidon::ConstantLength<6>, 3, 2>::init().hash([
            pallas::Base::from(0),
            *pk.x(),
            *pk.y(),
            pallas::Base::from(420),
            nonce,
            pallas::Base::from(1),
        ])
    };
    let cm = commit_base(message(nonce), pallas::Scalar::from(1u64));
    assert_eq!(coin.cm.to_bytes(), cm.to_bytes());
    let nonce2 = hash2(nonce, pallas::Base::from(3));
    assert_eq!(fp(&coin.nonce_cm), nonce2);
    assert_eq!(fp(&coin.sn), nonce2);
    let cm2 = commit_base(message(nonce2), pallas::Scalar::from(2u64));
    assert_eq!(coin.cm2.to_bytes(), cm2.to_bytes());

    // the ticket: the hash of the coordinates of the commitment to the seed
    let y_exp = hash2(fp(&coin.root_sk), fp(&coin.nonce));
    let commitment = commit_base(
        fp(&coin.y_mu),
        pallas::Scalar::from_repr(y_exp.to_repr()).unwrap(),
    );
    let coords = commitment.to_affine().coordinates().unwrap();
    let y = hash2(*coords.x(), *coords.y());
    assert_eq!(fp(&coin.draw_ticket().unwrap()), y);

    // the threshold in the field
    let v = pallas::Base::from(420);
    let target = fp(&coin.sigma1) * v + fp(&coin.sigma2) * v * v;
    assert_eq!(fp(&coin.threshold()), target);
}
