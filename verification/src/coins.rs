//! Lottery coins: the per-slot tickets of an epoch.
//!
//! For each slot of an epoch and each stake record at hand a coin is made,
//! bound to the slot's secret key and to the epoch's two coefficients. A
//! stakeholder without stake competes with a single coin of a nominal value.
//!
//! A coin's nonce is the hash of the slot's seed and the root of the key
//! tree, which binds the coin to both. Making coins fails with the error of
//! a point without coordinates exactly where a key or a commitment has none,
//! and else with the error of the tree exactly where a tree hands out no
//! path that leads to its root.

use crate::bytes::{le_bytes, le_value};
use crate::curve::{
    commitment_to_base, curve_coordinates, pedersen_commitment_base, public_key_of, Point,
};
use crate::field::{base_modulus, Base, Scalar};
use crate::hash::{poseidon_hash, poseidon_pair, poseidon_six, poseidon_triple};
use crate::keychain::{
    chain_defined, chain_key, chain_keys, chain_paths_hold, chain_tree, derive_keys, is_key_chain,
    key_views, Keypair, SecretKey,
};
use crate::merkle::{
    merkle_path, merkle_root, node_views, path_holds, path_root, MerkleAccumulator, MerkleNode,
};
use crate::nullifier::Nullifier;
use crate::random::{random_base, random_scalar, random_u64};
use vstd::prelude::*;

verus! {

/// Slots in an epoch.
pub const EPOCH_LENGTH: u64 = 10;

/// Stake that one block adds to the network.
pub const REWARD: u64 = 420;

/// Value of the coin that a stakeholder without stake competes with.
pub const LOTTERY_HEAD_START: u64 = 1;

/// First element of every coin commitment's message.
pub const PRF_NULLIFIER_PREFIX: u64 = 0;

/// Tag of the seed that the lottery ticket is drawn from.
pub const ELECTION_SEED_LEAD: u64 = 22;

/// Tag of the seed that the next nonce is drawn from.
pub const ELECTION_SEED_NONCE: u64 = 3;

/// Why a coin could not be made.
#[derive(Clone, Copy, Debug, PartialEq, Eq, Structural)]
pub enum CoinError {
    /// A key or a commitment is the curve's identity, which has no
    /// coordinates.
    IdentityPoint,
    /// The Merkle tree took no further leaf, or handed out no path of 32
    /// nodes that leads from the leaf to the root.
    TreeInsertion,
}

/// One lottery ticket for one slot.
#[derive(Clone, Debug)]
pub struct LeadCoin {
    /// Stake that the coin competes with.
    pub value: u64,
    /// Commitment to the coin.
    pub cm: Point,
    /// Commitment to the coin under its next nonce.
    pub cm2: Point,
    /// Index of the slot in its epoch.
    pub idx: u32,
    /// The slot.
    pub sl: Base,
    /// Time from which the coin may compete.
    pub tau: Base,
    /// The coin's nonce.
    pub nonce: Base,
    /// The coin's next nonce.
    pub nonce_cm: Base,
    /// The coin's serial number.
    pub sn: Base,
    /// The slot's key pair.
    pub keypair: Keypair,
    /// Root of the tree that holds the coin's commitment.
    pub root_cm: Scalar,
    /// Root of the secret keys' tree as of the slot's key.
    pub root_sk: Base,
    /// Authentication path of the coin's commitment.
    pub path: [MerkleNode; 32],
    /// Authentication path of the slot's key, as of the same root.
    pub path_sk: [MerkleNode; 32],
    /// Blinding factor of `cm`.
    pub c1_blind: Scalar,
    /// Blinding factor of `cm2`.
    pub c2_blind: Scalar,
    /// The slot's seed for the lottery ticket.
    pub y_mu: Base,
    /// The slot's seed for the next nonce.
    pub rho_mu: Base,
    /// First coefficient of the winning threshold.
    pub sigma1: Base,
    /// Second coefficient of the winning threshold.
    pub sigma2: Base,
}

/// The slot's seed for the lottery ticket.
pub open spec fn lead_seed(eta: Seq<u8>, slot: Seq<u8>) -> Seq<u8> {
    poseidon_hash(seq![le_bytes(ELECTION_SEED_LEAD as nat, 32), eta, slot])
}

/// The slot's seed for the next nonce.
pub open spec fn nonce_seed(eta: Seq<u8>, slot: Seq<u8>) -> Seq<u8> {
    poseidon_hash(seq![le_bytes(ELECTION_SEED_NONCE as nat, 32), eta, slot])
}

/// The two seeds of a slot under the epoch's randomness `eta`: first the one
/// for the lottery ticket, then the one for the next nonce.
pub fn create_coins_election_seeds(eta: Base, slot: Base) -> (seeds: (Base, Base))
    ensures
        seeds.0@ == lead_seed(eta@, slot@),
        seeds.1@ == nonce_seed(eta@, slot@),
{
    let election_seed_nonce = Base::from_u64(ELECTION_SEED_NONCE);
    let election_seed_lead = Base::from_u64(ELECTION_SEED_LEAD);
    let nonce_mu = poseidon_triple(&election_seed_nonce, &eta, &slot);
    let lead_mu = poseidon_triple(&election_seed_lead, &eta, &slot);
    (lead_mu, nonce_mu)
}

/// The nonce of a coin: the hash of the slot's seed and the key tree's root,
/// which binds the coin to both.
pub open spec fn coin_nonce(seed: u64, root_sk: Seq<u8>) -> Seq<u8> {
    poseidon_hash(seq![le_bytes(seed as nat, 32), root_sk])
}

/// The nonce that follows `nonce` for a coin bound to the key tree's root.
pub open spec fn next_nonce(nonce: Seq<u8>, root_sk: Seq<u8>) -> Seq<u8> {
    poseidon_hash(seq![nonce, root_sk])
}

/// The message that a coin's commitment commits to.
pub open spec fn coin_message(pk_x: Seq<u8>, pk_y: Seq<u8>, value: u64, nonce: Seq<u8>) -> Seq<
    u8,
> {
    poseidon_hash(
        seq![
            le_bytes(PRF_NULLIFIER_PREFIX as nat, 32),
            pk_x,
            pk_y,
            le_bytes(value as nat, 32),
            nonce,
            le_bytes(1, 32),
        ],
    )
}

/// The commitment to a coin of the key `secret`, if the public key has
/// coordinates.
pub open spec fn coin_commitment(
    secret: Seq<u8>,
    value: u64,
    nonce: Seq<u8>,
    blind: Seq<u8>,
) -> Option<Seq<u8>> {
    match curve_coordinates(public_key_of(secret)) {
        Some((x, y)) => Some(commitment_to_base(coin_message(x, y, value, nonce), blind)),
        None => None,
    }
}

/// The leaf that stands for a commitment in its tree: the product of its
/// coordinates, if it has any.
pub open spec fn commitment_leaf(cm: Seq<u8>) -> Option<Seq<u8>> {
    match curve_coordinates(cm) {
        Some((x, y)) => Some(le_bytes((le_value(x) * le_value(y)) % base_modulus(), 32)),
        None => None,
    }
}

/// Whether a coin of the key `secret` can be made under a nonce: its public
/// key and its first commitment both have coordinates.
pub open spec fn coin_defined(secret: Seq<u8>, value: u64, nonce: Seq<u8>, blind: Seq<u8>) -> bool {
    match coin_commitment(secret, value, nonce, blind) {
        Some(cm) => commitment_leaf(cm) is Some,
        None => false,
    }
}

/// The leaf that stands for a coin's first commitment in its tree.
pub open spec fn coin_leaf(secret: Seq<u8>, value: u64, nonce: Seq<u8>, blind: Seq<u8>) -> Seq<
    u8,
> {
    commitment_leaf(coin_commitment(secret, value, nonce, blind)->0)->0
}

/// Whether `c` is the coin that these inputs make.
pub open spec fn is_leadcoin(
    c: LeadCoin,
    eta: Seq<u8>,
    sigma1: Base,
    sigma2: Base,
    value: u64,
    i: nat,
    root_sk: Seq<u8>,
    path_sk: Seq<MerkleNode>,
    seed: u64,
    sk: SecretKey,
    blind1: Scalar,
    blind2: Scalar,
) -> bool {
    let nonce = coin_nonce(seed, root_sk);
    let slot = le_bytes(i, 32);
    let cm = coin_commitment(sk@, value, nonce, blind1@)->0;
    let leaf = coin_leaf(sk@, value, nonce, blind1@);
    &&& coin_defined(sk@, value, nonce, blind1@)
    &&& c.value == value
    &&& c.idx == i
    &&& c.sl@ == slot
    &&& c.tau@ == slot
    &&& c.nonce@ == nonce
    &&& c.nonce_cm@ == next_nonce(nonce, root_sk)
    &&& c.sn@ == next_nonce(nonce, root_sk)
    &&& c.keypair.secret == sk
    &&& c.keypair.public@ == public_key_of(sk@)
    &&& c.cm@ == cm
    &&& Some(c.cm2@) == coin_commitment(sk@, value, c.nonce_cm@, blind2@)
    &&& c.root_cm@ == merkle_root(seq![leaf])
    &&& node_views(c.path@) == merkle_path(seq![leaf], 0)
    &&& path_root(leaf, 0, node_views(c.path@)) == c.root_cm@
    &&& c.root_sk@ == root_sk
    &&& c.path_sk@ == path_sk
    &&& c.c1_blind == blind1
    &&& c.c2_blind == blind2
    &&& c.y_mu@ == lead_seed(eta, slot)
    &&& c.rho_mu@ == nonce_seed(eta, slot)
    &&& c.sigma1 == sigma1
    &&& c.sigma2 == sigma2
}

/// Whether `r` is what making a coin from these inputs gives: the error of
/// a point without coordinates where the key or the first commitment has
/// none, else the error of the tree where it hands out no path for the
/// commitment, and else the coin.
pub open spec fn is_leadcoin_outcome(
    r: Result<LeadCoin, CoinError>,
    eta: Seq<u8>,
    sigma1: Base,
    sigma2: Base,
    value: u64,
    i: nat,
    root_sk: Seq<u8>,
    path_sk: Seq<MerkleNode>,
    seed: u64,
    sk: SecretKey,
    blind1: Scalar,
    blind2: Scalar,
) -> bool {
    let nonce = coin_nonce(seed, root_sk);
    let defined = coin_defined(sk@, value, nonce, blind1@);
    let held = path_holds(seq![coin_leaf(sk@, value, nonce, blind1@)]);
    &&& r == Err::<LeadCoin, CoinError>(CoinError::IdentityPoint) <==> !defined
    &&& r == Err::<LeadCoin, CoinError>(CoinError::TreeInsertion) <==> defined && !held
    &&& r is Ok <==> defined && held
    &&& r matches Ok(c) ==> is_leadcoin(
        c,
        eta,
        sigma1,
        sigma2,
        value,
        i,
        root_sk,
        path_sk,
        seed,
        sk,
        blind1,
        blind2,
    )
}

/// Tells whether a coin of a key can be made under the nonce of a seed and
/// the key tree's root: whether its public key and its first commitment
/// both have coordinates.
pub fn coin_is_defined(
    value: u64,
    c_root_sk: MerkleNode,
    seed: u64,
    sk: SecretKey,
    c_cm1_blind: Scalar,
) -> (defined: bool)
    ensures
        defined == coin_defined(sk@, value, coin_nonce(seed, c_root_sk@), c_cm1_blind@),
{
    let keypair = Keypair::new(sk);
    let (c_pk_x, c_pk_y) = match keypair.public.coordinates() {
        Some(xy) => xy,
        None => { return false; },
    };
    let c_nonce = poseidon_pair(&Base::from_u64(seed), &c_root_sk.inner());
    let prefix = Base::from_u64(PRF_NULLIFIER_PREFIX);
    let c_v = Base::from_u64(value);
    let one = Base::from_u64(1);
    let coin_commit_msg = poseidon_six(&[prefix, c_pk_x, c_pk_y, c_v, c_nonce, one]);
    let c_cm = pedersen_commitment_base(&coin_commit_msg, &c_cm1_blind);
    c_cm.coordinates().is_some()
}

/// Makes the coin of one slot from the epoch's coefficients, the stake, the
/// slot's key with its root and path, the slot's seed and the two blinding
/// factors.
///
/// The coin's nonce is the hash of the seed and the key tree's root. Its
/// next nonce and its serial number are the hash of the nonce and the root,
/// and its two commitments are to the same key and value under the nonce
/// and the next nonce. The first commitment is the only leaf of a tree of
/// its own, whose root and path the coin carries.
pub fn create_leadcoin_with(
    eta: Base,
    sigma1: Base,
    sigma2: Base,
    value: u64,
    i: usize,
    c_root_sk: MerkleNode,
    c_path_sk: [MerkleNode; 32],
    seed: u64,
    sk: SecretKey,
    c_cm1_blind: Scalar,
    c_cm2_blind: Scalar,
) -> (r: Result<LeadCoin, CoinError>)
    requires
        i <= u32::MAX,
    ensures
        is_leadcoin_outcome(
            r,
            eta@,
            sigma1,
            sigma2,
            value,
            i as nat,
            c_root_sk@,
            c_path_sk@,
            seed,
            sk,
            c_cm1_blind,
            c_cm2_blind,
        ),
{
    let keypair = Keypair::new(sk);
    let one = Base::from_u64(1);
    let mut tree_cm = MerkleAccumulator::new(EPOCH_LENGTH as usize);
    let c_v = Base::from_u64(value);
    let c_sl = Base::from_u64(i as u64);
    let c_tau = Base::from_u64(i as u64);
    let (c_pk_x, c_pk_y) = match keypair.public.coordinates() {
        Some(xy) => xy,
        None => { return Err(CoinError::IdentityPoint); },
    };
    let root_sk = c_root_sk.inner();
    let c_nonce = poseidon_pair(&Base::from_u64(seed), &root_sk);
    let c_sn = poseidon_pair(&c_nonce, &root_sk);

    let prefix = Base::from_u64(PRF_NULLIFIER_PREFIX);
    let coin_commit_msg = poseidon_six(&[prefix, c_pk_x, c_pk_y, c_v, c_nonce, one]);
    let c_cm = pedersen_commitment_base(&coin_commit_msg, &c_cm1_blind);
    let (c_cm_x, c_cm_y) = match c_cm.coordinates() {
        Some(xy) => xy,
        None => { return Err(CoinError::IdentityPoint); },
    };
    let c_cm_base = c_cm_x.times(&c_cm_y);
    proof {
        c_cm_base.lemma_repr();
    }
    let c_cm_node = MerkleNode::new(c_cm_base);
    proof {
        tree_cm.lemma_within_capacity();
        assert(tree_cm.leaves().push(c_cm_node@) =~= seq![c_cm_node@]);
    }
    let (c_root_cm, c_cm_path) = match tree_cm.insert(&c_cm_node) {
        Some(rp) => rp,
        None => { return Err(CoinError::TreeInsertion); },
    };

    let c_nonce2 = poseidon_pair(&c_nonce, &root_sk);
    let coin2_commit_msg = poseidon_six(&[prefix, c_pk_x, c_pk_y, c_v, c_nonce2, one]);
    let c_cm2 = pedersen_commitment_base(&coin2_commit_msg, &c_cm2_blind);

    let (y_mu, rho_mu) = create_coins_election_seeds(eta, c_sl);
    Ok(
        LeadCoin {
            value,
            cm: c_cm,
            cm2: c_cm2,
            idx: i as u32,
            sl: c_sl,
            tau: c_tau,
            nonce: c_nonce,
            nonce_cm: c_nonce2,
            sn: c_sn,
            keypair,
            root_cm: Scalar::from_base(&c_root_cm.inner()),
            root_sk,
            path: c_cm_path,
            path_sk: c_path_sk,
            c1_blind: c_cm1_blind,
            c2_blind: c_cm2_blind,
            y_mu,
            rho_mu,
            sigma1: sigma1,
            sigma2: sigma2,
        },
    )
}

/// Makes the coin of one slot as `create_leadcoin_with` does, under two
/// blinding factors drawn at random: the result is the one that
/// `create_leadcoin_with` gives under some pair of them. On a key whose
/// public key has no coordinates there is no coin, whatever is drawn.
pub fn create_leadcoin(
    eta: Base,
    sigma1: Base,
    sigma2: Base,
    value: u64,
    i: usize,
    c_root_sk: MerkleNode,
    c_path_sk: [MerkleNode; 32],
    seed: u64,
    sk: SecretKey,
) -> (r: Result<LeadCoin, CoinError>)
    requires
        i <= u32::MAX,
    ensures
        exists|blind1: Scalar, blind2: Scalar| #[trigger]
            is_leadcoin_outcome(
                r,
                eta@,
                sigma1,
                sigma2,
                value,
                i as nat,
                c_root_sk@,
                c_path_sk@,
                seed,
                sk,
                blind1,
                blind2,
            ),
        r matches Ok(c) ==> is_leadcoin(
            c,
            eta@,
            sigma1,
            sigma2,
            value,
            i as nat,
            c_root_sk@,
            c_path_sk@,
            seed,
            sk,
            c.c1_blind,
            c.c2_blind,
        ),
        curve_coordinates(public_key_of(sk@)) is None ==> r == Err::<LeadCoin, CoinError>(
            CoinError::IdentityPoint,
        ),
{
    let c_cm1_blind = random_scalar();
    let c_cm2_blind = random_scalar();
    let r = create_leadcoin_with(
        eta,
        sigma1,
        sigma2,
        value,
        i,
        c_root_sk,
        c_path_sk,
        seed,
        sk,
        c_cm1_blind,
        c_cm2_blind,
    );
    assert(is_leadcoin_outcome(
        r,
        eta@,
        sigma1,
        sigma2,
        value,
        i as nat,
        c_root_sk@,
        c_path_sk@,
        seed,
        sk,
        c_cm1_blind,
        c_cm2_blind,
    ));
    r
}

/// A note: what a coin of the ledger is worth, and what hides it.
#[derive(Clone, Debug)]
pub struct Note {
    pub serial: Base,
    pub value: u64,
    pub token_id: Base,
    pub coin_blind: Base,
    pub value_blind: Scalar,
    pub token_blind: Scalar,
    pub memo: Vec<u8>,
}

/// A stake record of the wallet.
#[derive(Clone, Debug)]
pub struct OwnCoin {
    pub coin: Base,
    pub note: Note,
    pub secret: SecretKey,
    pub nullifier: Nullifier,
    pub leaf_position: usize,
}

/// The random values that an epoch's coins are made from.
#[derive(Clone, Debug)]
pub struct EpochRandomness {
    /// Scalar that the first secret key follows from.
    pub sk_seed: Scalar,
    /// Seed of each slot.
    pub seeds: Vec<u64>,
    /// The two blinding factors of each coin of each slot.
    pub blinds: Vec<Vec<(Scalar, Scalar)>>,
}

/// Coins that compete in each slot where `owned` stake records are at hand:
/// one for each, or a single one where there is none.
pub open spec fn coins_per_slot(owned: nat) -> nat {
    if owned == 0 {
        1
    } else {
        owned
    }
}

/// Stake of the `j`-th coin of a slot: that of the `j`-th record, or the
/// head start where there is no record.
pub open spec fn stake_of(owned: Seq<OwnCoin>, j: int) -> u64 {
    if owned.len() == 0 {
        LOTTERY_HEAD_START
    } else {
        owned[j].note.value
    }
}

impl EpochRandomness {
    /// There is a seed for each slot, and a pair of blinding factors for
    /// each coin of each slot.
    pub open spec fn fits(self, owned: nat) -> bool {
        &&& self.seeds@.len() == EPOCH_LENGTH
        &&& self.blinds@.len() == EPOCH_LENGTH
        &&& forall|i: int|
            0 <= i < EPOCH_LENGTH ==> (#[trigger] self.blinds@[i])@.len() == coins_per_slot(owned)
    }

    /// Draws the random values for an epoch with `owned` stake records.
    pub fn sample(owned: usize) -> (r: EpochRandomness)
        ensures
            r.fits(owned as nat),
    {
        let per_slot: usize = if owned == 0 {
            1
        } else {
            owned
        };
        let mut seeds: Vec<u64> = Vec::new();
        let mut blinds: Vec<Vec<(Scalar, Scalar)>> = Vec::new();
        let mut i: u64 = 0;
        while i < EPOCH_LENGTH
            invariant
                i <= EPOCH_LENGTH,
                per_slot == coins_per_slot(owned as nat),
                seeds@.len() == i,
                blinds@.len() == i,
                forall|k: int| 0 <= k < i ==> (#[trigger] blinds@[k])@.len() == per_slot,
            decreases EPOCH_LENGTH - i,
        {
            seeds.push(random_u64());
            let mut row: Vec<(Scalar, Scalar)> = Vec::new();
            let mut j: usize = 0;
            while j < per_slot
                invariant
                    j <= per_slot,
                    row@.len() == j,
                decreases per_slot - j,
            {
                let first = random_scalar();
                let second = random_scalar();
                row.push((first, second));
                j += 1;
            }
            blinds.push(row);
            i += 1;
        }
        let sk_seed = random_scalar();
        EpochRandomness { sk_seed, seeds, blinds }
    }
}

/// Whether `v` holds the coins of slot `i`: one for each stake, made from
/// the slot's key, root, path and seed and from its own pair of blinding
/// factors.
pub open spec fn is_slot_coins(
    v: Seq<LeadCoin>,
    eta: Seq<u8>,
    owned: Seq<OwnCoin>,
    sigma1: Base,
    sigma2: Base,
    i: nat,
    root_sk: Seq<u8>,
    path_sk: Seq<MerkleNode>,
    seed: u64,
    sk: SecretKey,
    blinds: Seq<(Scalar, Scalar)>,
) -> bool {
    &&& v.len() == coins_per_slot(owned.len())
    &&& forall|j: int|
        0 <= j < v.len() ==> is_leadcoin(
            #[trigger] v[j],
            eta,
            sigma1,
            sigma2,
            stake_of(owned, j),
            i,
            root_sk,
            path_sk,
            seed,
            sk,
            blinds[j].0,
            blinds[j].1,
        )
}

/// Whether `coins` holds the coins of an epoch over the key chain `sks`,
/// `roots`, `paths`: the chain is the one from the random seed, and each
/// slot's coins are made from that slot of the chain.
pub open spec fn is_epoch_coins(
    coins: Seq<Vec<LeadCoin>>,
    eta: Seq<u8>,
    owned: Seq<OwnCoin>,
    sigma1: Base,
    sigma2: Base,
    randomness: EpochRandomness,
    sks: Seq<SecretKey>,
    roots: Seq<MerkleNode>,
    paths: Seq<[MerkleNode; 32]>,
) -> bool {
    &&& is_key_chain(randomness.sk_seed@, sks, roots, paths, EPOCH_LENGTH as nat)
    &&& coins.len() == EPOCH_LENGTH
    &&& forall|i: int|
        0 <= i < EPOCH_LENGTH ==> is_slot_coins(
            (#[trigger] coins[i])@,
            eta,
            owned,
            sigma1,
            sigma2,
            i as nat,
            roots[i]@,
            paths[i]@,
            randomness.seeds@[i],
            sks[i],
            randomness.blinds@[i]@,
        )
}

/// The shape of an epoch's coins: a list for each slot, and in each list a
/// coin for each stake, with that stake as its value.
pub open spec fn epoch_shape(coins: Seq<Vec<LeadCoin>>, owned: Seq<OwnCoin>) -> bool {
    &&& coins.len() == EPOCH_LENGTH
    &&& forall|i: int|
        0 <= i < coins.len() ==> (#[trigger] coins[i])@.len() == coins_per_slot(owned.len())
    &&& forall|i: int, j: int|
        0 <= i < coins.len() && 0 <= j < coins[i]@.len() ==> (#[trigger] coins[i]@[j]).value
            == stake_of(owned, j)
}

/// An epoch's coins have the shape of an epoch's coins.
pub proof fn lemma_epoch_shape(
    coins: Seq<Vec<LeadCoin>>,
    eta: Seq<u8>,
    owned: Seq<OwnCoin>,
    sigma1: Base,
    sigma2: Base,
    randomness: EpochRandomness,
    sks: Seq<SecretKey>,
    roots: Seq<MerkleNode>,
    paths: Seq<[MerkleNode; 32]>,
)
    requires
        is_epoch_coins(coins, eta, owned, sigma1, sigma2, randomness, sks, roots, paths),
    ensures
        epoch_shape(coins, owned),
{
    assert forall|i: int, j: int| 0 <= i < coins.len() && 0 <= j < coins[i]@.len() implies (
    #[trigger] coins[i]@[j]).value == stake_of(owned, j) by {
        assert(is_slot_coins(
            coins[i]@,
            eta,
            owned,
            sigma1,
            sigma2,
            i as nat,
            roots[i]@,
            paths[i]@,
            randomness.seeds@[i],
            sks[i],
            randomness.blinds@[i]@,
        ));
    }
}

/// The root of the key tree as of slot `i` of the chain from `seed`.
pub open spec fn chain_root(seed: Seq<u8>, i: int) -> Seq<u8> {
    merkle_root(chain_keys(seed, EPOCH_LENGTH as nat).take(i + 1))
}

/// The nonce of the coins of slot `i`.
pub open spec fn slot_nonce(randomness: EpochRandomness, i: int) -> Seq<u8> {
    coin_nonce(randomness.seeds@[i], chain_root(randomness.sk_seed@, i))
}

/// Whether the `j`-th coin of slot `i` can be made: its key and its first
/// commitment have coordinates.
pub open spec fn epoch_coin_defined(
    owned: Seq<OwnCoin>,
    randomness: EpochRandomness,
    i: int,
    j: int,
) -> bool {
    coin_defined(
        chain_key(randomness.sk_seed@, i as nat)->0,
        stake_of(owned, j),
        slot_nonce(randomness, i),
        randomness.blinds@[i]@[j].0@,
    )
}

/// Whether the tree hands out a path for the first commitment of the `j`-th
/// coin of slot `i`.
pub open spec fn epoch_coin_held(
    owned: Seq<OwnCoin>,
    randomness: EpochRandomness,
    i: int,
    j: int,
) -> bool {
    path_holds(
        seq![
            coin_leaf(
                chain_key(randomness.sk_seed@, i as nat)->0,
                stake_of(owned, j),
                slot_nonce(randomness, i),
                randomness.blinds@[i]@[j].0@,
            ),
        ],
    )
}

/// Whether every coin of the epoch can be made from the random values: the
/// key chain from their seed has a key for every slot, and each coin's key
/// and first commitment have coordinates.
pub open spec fn epoch_defined(owned: Seq<OwnCoin>, randomness: EpochRandomness) -> bool {
    &&& chain_defined(randomness.sk_seed@, EPOCH_LENGTH as nat)
    &&& forall|i: int, j: int|
        0 <= i < EPOCH_LENGTH && 0 <= j < coins_per_slot(owned.len())
            ==> #[trigger] epoch_coin_defined(owned, randomness, i, j)
}

/// Whether the trees hand out every path of the epoch: one for each key of
/// the chain as it is inserted, and one for each coin's first commitment.
pub open spec fn epoch_paths_hold(owned: Seq<OwnCoin>, randomness: EpochRandomness) -> bool {
    &&& chain_paths_hold(chain_keys(randomness.sk_seed@, EPOCH_LENGTH as nat))
    &&& forall|i: int, j: int|
        0 <= i < EPOCH_LENGTH && 0 <= j < coins_per_slot(owned.len())
            ==> #[trigger] epoch_coin_held(owned, randomness, i, j)
}

/// Whether `r` is what making an epoch's coins from these inputs gives: the
/// error of a point without coordinates where not every coin can be made,
/// else the error of the tree where a tree hands out no path, and else the
/// coins.
pub open spec fn is_coins_outcome(
    r: Result<Vec<Vec<LeadCoin>>, CoinError>,
    eta: Seq<u8>,
    owned: Seq<OwnCoin>,
    sigma1: Base,
    sigma2: Base,
    randomness: EpochRandomness,
) -> bool {
    let defined = epoch_defined(owned, randomness);
    let held = epoch_paths_hold(owned, randomness);
    &&& r == Err::<Vec<Vec<LeadCoin>>, CoinError>(CoinError::IdentityPoint) <==> !defined
    &&& r == Err::<Vec<Vec<LeadCoin>>, CoinError>(CoinError::TreeInsertion) <==> defined && !held
    &&& r is Ok <==> defined && held
    &&& r matches Ok(coins) ==> {
        &&& epoch_shape(coins@, owned)
        &&& exists|
            sks: Seq<SecretKey>,
            roots: Seq<MerkleNode>,
            paths: Seq<[MerkleNode; 32]>,
        | #[trigger]
            is_epoch_coins(coins@, eta, owned, sigma1, sigma2, randomness, sks, roots, paths)
    }
}

/// The stake of the `j`-th coin of a slot.
fn stake(owned: &Vec<OwnCoin>, j: usize) -> (value: u64)
    requires
        j < coins_per_slot(owned@.len()),
    ensures
        value == stake_of(owned@, j as int),
{
    if owned.len() == 0 {
        LOTTERY_HEAD_START
    } else {
        owned[j].note.value
    }
}

/// Tells whether every coin of the epoch can be made over the keys and the
/// roots of the chain.
fn coins_are_defined(
    owned: &Vec<OwnCoin>,
    randomness: &EpochRandomness,
    sks: &Vec<SecretKey>,
    root_sks: &Vec<MerkleNode>,
) -> (defined: bool)
    requires
        randomness.fits(owned@.len()),
        chain_defined(randomness.sk_seed@, EPOCH_LENGTH as nat),
        sks@.len() == EPOCH_LENGTH,
        root_sks@.len() == EPOCH_LENGTH,
        key_views(sks@) == chain_keys(randomness.sk_seed@, EPOCH_LENGTH as nat),
        forall|i: int|
            0 <= i < EPOCH_LENGTH ==> (#[trigger] root_sks@[i])@ == chain_root(
                randomness.sk_seed@,
                i,
            ),
    ensures
        defined == epoch_defined(owned@, *randomness),
{
    let per_slot: usize = if owned.len() == 0 {
        1
    } else {
        owned.len()
    };
    let mut i: usize = 0;
    while i < EPOCH_LENGTH as usize
        invariant
            i <= EPOCH_LENGTH,
            per_slot == coins_per_slot(owned@.len()),
            randomness.fits(owned@.len()),
            chain_defined(randomness.sk_seed@, EPOCH_LENGTH as nat),
            sks@.len() == EPOCH_LENGTH,
            root_sks@.len() == EPOCH_LENGTH,
            key_views(sks@) == chain_keys(randomness.sk_seed@, EPOCH_LENGTH as nat),
            forall|a: int|
                0 <= a < EPOCH_LENGTH ==> (#[trigger] root_sks@[a])@ == chain_root(
                    randomness.sk_seed@,
                    a,
                ),
            forall|a: int, b: int|
                0 <= a < i && 0 <= b < per_slot ==> #[trigger] epoch_coin_defined(
                    owned@,
                    *randomness,
                    a,
                    b,
                ),
        decreases EPOCH_LENGTH - i,
    {
        let mut j: usize = 0;
        while j < per_slot
            invariant
                i < EPOCH_LENGTH,
                j <= per_slot,
                per_slot == coins_per_slot(owned@.len()),
                randomness.fits(owned@.len()),
                sks@.len() == EPOCH_LENGTH,
                root_sks@.len() == EPOCH_LENGTH,
                key_views(sks@) == chain_keys(randomness.sk_seed@, EPOCH_LENGTH as nat),
                root_sks@[i as int]@ == chain_root(randomness.sk_seed@, i as int),
                forall|a: int, b: int|
                    0 <= a < i && 0 <= b < per_slot ==> #[trigger] epoch_coin_defined(
                        owned@,
                        *randomness,
                        a,
                        b,
                    ),
                forall|b: int|
                    0 <= b < j ==> #[trigger] epoch_coin_defined(owned@, *randomness, i as int, b),
            decreases per_slot - j,
        {
            let value = stake(owned, j);
            assert(randomness.blinds@[i as int]@.len() == per_slot);
            assert(key_views(sks@)[i as int] == sks@[i as int]@);
            let defined = coin_is_defined(
                value,
                root_sks[i],
                randomness.seeds[i],
                sks[i],
                randomness.blinds[i][j].0,
            );
            assert(defined == epoch_coin_defined(owned@, *randomness, i as int, j as int));
            if !defined {
                return false;
            }
            j += 1;
        }
        i += 1;
    }
    true
}

/// The coins of an epoch, one list for each slot, from the epoch's
/// randomness `eta`, the stake records, the two coefficients and the random
/// values.
///
/// Each slot's coins are bound to that slot's secret key, with the root and
/// the path recorded when the key was inserted. Where there is no stake
/// record, each slot has a single coin of the head-start value. No tree is
/// asked for a path of a coin before every coin is known to have its key
/// and its commitment.
pub fn create_coins_with(
    eta: Base,
    owned: &Vec<OwnCoin>,
    sigma1: Base,
    sigma2: Base,
    randomness: &EpochRandomness,
) -> (r: Result<Vec<Vec<LeadCoin>>, CoinError>)
    requires
        randomness.fits(owned@.len()),
    ensures
        is_coins_outcome(r, eta@, owned@, sigma1, sigma2, *randomness),
{
    let ghost seed = randomness.sk_seed@;
    let sks = match derive_keys(randomness.sk_seed) {
        Some(sks) => sks,
        None => { return Err(CoinError::IdentityPoint); },
    };
    let (root_sks, chain_paths) = chain_tree(&sks);
    proof {
        assert forall|i: int| 0 <= i < EPOCH_LENGTH implies chain_key(seed, i as nat) == Some(
            (#[trigger] sks@[i])@,
        ) by {
            assert(key_views(sks@)[i] == chain_keys(seed, EPOCH_LENGTH as nat)[i]);
        }
    }
    if !coins_are_defined(owned, randomness, &sks, &root_sks) {
        return Err(CoinError::IdentityPoint);
    }
    let path_sks = match chain_paths {
        Some(paths) => paths,
        None => { return Err(CoinError::TreeInsertion); },
    };
    assert(is_key_chain(seed, sks@, root_sks@, path_sks@, EPOCH_LENGTH as nat));
    assert(chain_paths_hold(chain_keys(seed, EPOCH_LENGTH as nat)));
    let per_slot: usize = if owned.len() == 0 {
        1
    } else {
        owned.len()
    };
    let mut coins: Vec<Vec<LeadCoin>> = Vec::new();
    let mut i: usize = 0;
    while i < EPOCH_LENGTH as usize
        invariant
            i <= EPOCH_LENGTH,
            seed == randomness.sk_seed@,
            per_slot == coins_per_slot(owned@.len()),
            randomness.fits(owned@.len()),
            epoch_defined(owned@, *randomness),
            chain_paths_hold(chain_keys(seed, EPOCH_LENGTH as nat)),
            is_key_chain(seed, sks@, root_sks@, path_sks@, EPOCH_LENGTH as nat),
            key_views(sks@) == chain_keys(seed, EPOCH_LENGTH as nat),
            coins@.len() == i,
            forall|k: int|
                0 <= k < i ==> is_slot_coins(
                    (#[trigger] coins@[k])@,
                    eta@,
                    owned@,
                    sigma1,
                    sigma2,
                    k as nat,
                    root_sks@[k]@,
                    path_sks@[k]@,
                    randomness.seeds@[k],
                    sks@[k],
                    randomness.blinds@[k]@,
                ),
            forall|a: int, b: int|
                0 <= a < i && 0 <= b < per_slot ==> #[trigger] epoch_coin_held(
                    owned@,
                    *randomness,
                    a,
                    b,
                ),
        decreases EPOCH_LENGTH - i,
    {
        let mut slot_coins: Vec<LeadCoin> = Vec::new();
        let mut j: usize = 0;
        while j < per_slot
            invariant
                i < EPOCH_LENGTH,
                j <= per_slot,
                seed == randomness.sk_seed@,
                per_slot == coins_per_slot(owned@.len()),
                randomness.fits(owned@.len()),
                epoch_defined(owned@, *randomness),
                is_key_chain(seed, sks@, root_sks@, path_sks@, EPOCH_LENGTH as nat),
                key_views(sks@) == chain_keys(seed, EPOCH_LENGTH as nat),
                slot_coins@.len() == j,
                forall|k: int|
                    0 <= k < j ==> is_leadcoin(
                        #[trigger] slot_coins@[k],
                        eta@,
                        sigma1,
                        sigma2,
                        stake_of(owned@, k),
                        i as nat,
                        root_sks@[i as int]@,
                        path_sks@[i as int]@,
                        randomness.seeds@[i as int],
                        sks@[i as int],
                        randomness.blinds@[i as int]@[k].0,
                        randomness.blinds@[i as int]@[k].1,
                    ),
                forall|a: int, b: int|
                    0 <= a < i && 0 <= b < per_slot ==> #[trigger] epoch_coin_held(
                        owned@,
                        *randomness,
                        a,
                        b,
                    ),
                forall|b: int|
                    0 <= b < j ==> #[trigger] epoch_coin_held(owned@, *randomness, i as int, b),
            decreases per_slot - j,
        {
            let value = stake(owned, j);
            proof {
                assert(randomness.blinds@[i as int]@.len() == per_slot);
                assert(chain_key(seed, i as nat) == Some(sks@[i as int]@));
                assert(root_sks@[i as int]@ == chain_root(seed, i as int));
                assert(epoch_coin_defined(owned@, *randomness, i as int, j as int));
            }
            let made = create_leadcoin_with(
                eta,
                sigma1,
                sigma2,
                value,
                i,
                root_sks[i],
                path_sks[i],
                randomness.seeds[i],
                sks[i],
                randomness.blinds[i][j].0,
                randomness.blinds[i][j].1,
            );
            assert(made is Ok == epoch_coin_held(owned@, *randomness, i as int, j as int));
            let coin = match made {
                Ok(c) => c,
                Err(_) => { return Err(CoinError::TreeInsertion); },
            };
            slot_coins.push(coin);
            j += 1;
        }
        coins.push(slot_coins);
        i += 1;
    }
    proof {
        assert(is_epoch_coins(
            coins@,
            eta@,
            owned@,
            sigma1,
            sigma2,
            *randomness,
            sks@,
            root_sks@,
            path_sks@,
        ));
        lemma_epoch_shape(
            coins@,
            eta@,
            owned@,
            sigma1,
            sigma2,
            *randomness,
            sks@,
            root_sks@,
            path_sks@,
        );
        assert(epoch_defined(owned@, *randomness));
        assert(epoch_paths_hold(owned@, *randomness));
    }
    let r = Ok(coins);
    assert(is_coins_outcome(r, eta@, owned@, sigma1, sigma2, *randomness));
    r
}

/// The coins of an epoch as `create_coins_with` makes them, from random
/// values drawn here: the result is the one that `create_coins_with` gives
/// under some random values that fit the stake records.
pub fn create_coins(eta: Base, owned: &Vec<OwnCoin>, sigma1: Base, sigma2: Base) -> (r: Result<
    Vec<Vec<LeadCoin>>,
    CoinError,
>)
    ensures
        exists|randomness: EpochRandomness|
            randomness.fits(owned@.len()) && #[trigger] is_coins_outcome(
                r,
                eta@,
                owned@,
                sigma1,
                sigma2,
                randomness,
            ),
        r matches Ok(coins) ==> epoch_shape(coins@, owned@),
{
    let randomness = EpochRandomness::sample(owned.len());
    let r = create_coins_with(eta, owned, sigma1, sigma2, &randomness);
    assert(is_coins_outcome(r, eta@, owned@, sigma1, sigma2, randomness));
    r
}

/// Value of the coin that a wallet stakes.
pub const STAKING_VALUE: u64 = 420;

/// The random values that a staking coin is made from.
#[derive(Clone, Copy, Debug)]
pub struct StakeRandomness {
    pub token_id: Base,
    pub serial: Base,
    pub coin_blind: Base,
    pub value_blind: Scalar,
    pub token_blind: Scalar,
    pub coin: Base,
}

impl StakeRandomness {
    /// Draws the random values for a staking coin.
    pub fn sample() -> StakeRandomness {
        let token_id = random_base();
        let serial = random_base();
        let coin_blind = random_base();
        let value_blind = random_scalar();
        let token_blind = random_scalar();
        let coin = random_base();
        StakeRandomness { token_id, serial, coin_blind, value_blind, token_blind, coin }
    }
}

/// The staking coin of a key pair under given random values: a note of the
/// staking value without a memo, at the first leaf, with the hash of the
/// secret key and the serial as its nullifier.
pub fn staking_coin_with(keypair: &Keypair, randomness: &StakeRandomness) -> (coin: OwnCoin)
    ensures
        coin.coin == randomness.coin,
        coin.note.serial == randomness.serial,
        coin.note.value == STAKING_VALUE,
        coin.note.token_id == randomness.token_id,
        coin.note.coin_blind == randomness.coin_blind,
        coin.note.value_blind == randomness.value_blind,
        coin.note.token_blind == randomness.token_blind,
        coin.note.memo@.len() == 0,
        coin.secret == keypair.secret,
        coin.nullifier@ == poseidon_hash(seq![keypair.secret@, randomness.serial@]),
        coin.leaf_position == 0,
{
    let note = Note {
        serial: randomness.serial,
        value: STAKING_VALUE,
        token_id: randomness.token_id,
        coin_blind: randomness.coin_blind,
        value_blind: randomness.value_blind,
        token_blind: randomness.token_blind,
        memo: Vec::new(),
    };
    let hash = poseidon_pair(&keypair.secret.inner(), &randomness.serial);
    let nullifier = Nullifier::from(hash);
    proof {
        Nullifier::lemma_of(hash);
    }
    OwnCoin { coin: randomness.coin, note, secret: keypair.secret, nullifier, leaf_position: 0 }
}

/// The staking coins of a wallet's key pair: one coin, as
/// `staking_coin_with` makes it from random values drawn here.
pub fn generate_staking_coins(keypair: &Keypair) -> (coins: Vec<OwnCoin>)
    ensures
        coins@.len() == 1,
        coins@[0].note.value == STAKING_VALUE,
        coins@[0].note.memo@.len() == 0,
        coins@[0].secret == keypair.secret,
        coins@[0].nullifier@ == poseidon_hash(seq![keypair.secret@, coins@[0].note.serial@]),
        coins@[0].leaf_position == 0,
{
    let randomness = StakeRandomness::sample();
    let coin = staking_coin_with(keypair, &randomness);
    let mut coins: Vec<OwnCoin> = Vec::new();
    coins.push(coin);
    coins
}

} // verus!
