//! The secret keys of an epoch: a chain in which each key follows from the
//! one before it, so that a later key gives no earlier one away.
//!
//! Each key is a leaf of a Merkle tree. The root and the authentication path
//! recorded for a key are those of the moment at which the key was inserted:
//! the tree keeps growing, and a path is never taken against a later root.
//!
//! The keys are derived before the tree is asked, so that a chain that
//! breaks off is told from a tree that hands out no path.

use crate::coins::{CoinError, EPOCH_LENGTH};
use crate::curve::{
    commitment_to_u64, curve_coordinates, pedersen_commitment_u64, public_key, public_key_of,
    Point,
};
use crate::field::{Base, Scalar};
use crate::hash::{poseidon_hash, poseidon_pair};
use crate::merkle::{
    merkle_path, merkle_root, node_views, path_holds, path_root, MerkleAccumulator, MerkleNode,
};
use crate::random::random_scalar;
use vstd::prelude::*;

verus! {

/// A secret key.
#[derive(Clone, Copy, Debug, PartialEq, Eq)]
pub struct SecretKey {
    inner: Base,
}

impl View for SecretKey {
    type V = Seq<u8>;

    /// The canonical encoding of the key's field element.
    closed spec fn view(&self) -> Seq<u8> {
        self.inner@
    }
}

impl SecretKey {
    /// The key of a field element.
    pub fn new(inner: Base) -> (key: SecretKey)
        ensures
            key@ == inner@,
    {
        SecretKey { inner }
    }

    /// The key's field element.
    pub fn inner(&self) -> (x: Base)
        ensures
            x@ == self@,
    {
        self.inner
    }
}

/// A secret key with its public key.
#[derive(Clone, Copy, Debug, PartialEq, Eq)]
pub struct Keypair {
    pub secret: SecretKey,
    pub public: Point,
}

impl Keypair {
    /// The pair of a secret key.
    pub fn new(secret: SecretKey) -> (pair: Keypair)
        ensures
            pair.secret == secret,
            pair.public@ == public_key_of(secret@),
    {
        let public = public_key(&secret.inner());
        Keypair { secret, public }
    }
}

/// The secret key that follows from a blinding scalar: the hash of the
/// coordinates of the commitment to 1 under it, if that has coordinates.
pub open spec fn derive_key(blind: Seq<u8>) -> Option<Seq<u8>> {
    match curve_coordinates(commitment_to_u64(1, blind)) {
        Some((x, y)) => Some(poseidon_hash(seq![x, y])),
        None => None,
    }
}

/// The secret key of slot `i` in the chain that starts from `seed`: the
/// first follows from the seed, each later one from the key before it.
pub open spec fn chain_key(seed: Seq<u8>, i: nat) -> Option<Seq<u8>>
    decreases i,
{
    if i == 0 {
        derive_key(seed)
    } else {
        match chain_key(seed, (i - 1) as nat) {
            Some(prev) => derive_key(prev),
            None => None,
        }
    }
}

/// Whether the chain from `seed` has a key for each of its first `n` slots.
pub open spec fn chain_defined(seed: Seq<u8>, n: nat) -> bool {
    forall|i: nat| i < n ==> chain_key(seed, i) is Some
}

/// The encodings of a sequence of keys.
pub open spec fn key_views(sks: Seq<SecretKey>) -> Seq<Seq<u8>> {
    sks.map_values(|k: SecretKey| k@)
}

/// Whether `sks`, `roots` and `paths` are the first `n` slots of the key
/// chain from `seed`: each key follows from the one before it, each root
/// and path are those of the tree that holds the keys up to their own slot
/// and none after it, and each path leads from its key to its root.
pub open spec fn is_key_chain(
    seed: Seq<u8>,
    sks: Seq<SecretKey>,
    roots: Seq<MerkleNode>,
    paths: Seq<[MerkleNode; 32]>,
    n: nat,
) -> bool {
    &&& sks.len() == n
    &&& roots.len() == n
    &&& paths.len() == n
    &&& forall|i: int| 0 <= i < n ==> chain_key(seed, i as nat) == Some((#[trigger] sks[i])@)
    &&& forall|i: int|
        0 <= i < n ==> (#[trigger] roots[i])@ == merkle_root(key_views(sks).take(i + 1))
    &&& forall|i: int|
        0 <= i < n ==> {
            &&& node_views((#[trigger] paths[i])@) == merkle_path(
                key_views(sks).take(i + 1),
                i as nat,
            )
            &&& path_root(sks[i]@, i as nat, node_views(paths[i]@)) == roots[i]@
        }
}

/// The keys after slot `i` follow from the key of slot `i` alone: they are
/// the chain that starts from it.
pub proof fn lemma_chain_from_key(seed: Seq<u8>, i: nat, j: nat)
    requires
        chain_key(seed, i) is Some,
    ensures
        chain_key(seed, i + 1 + j) == chain_key(chain_key(seed, i)->0, j),
    decreases j,
{
    if j > 0 {
        lemma_chain_from_key(seed, i, (j - 1) as nat);
    }
}

/// The same seed gives the same chain: the same keys, roots and paths.
pub proof fn lemma_key_chain_unique(
    seed: Seq<u8>,
    n: nat,
    sks_a: Seq<SecretKey>,
    roots_a: Seq<MerkleNode>,
    paths_a: Seq<[MerkleNode; 32]>,
    sks_b: Seq<SecretKey>,
    roots_b: Seq<MerkleNode>,
    paths_b: Seq<[MerkleNode; 32]>,
)
    requires
        is_key_chain(seed, sks_a, roots_a, paths_a, n),
        is_key_chain(seed, sks_b, roots_b, paths_b, n),
    ensures
        key_views(sks_a) == key_views(sks_b),
        node_views(roots_a) == node_views(roots_b),
        forall|i: int| 0 <= i < n ==> node_views(paths_a[i]@) == node_views(#[trigger] paths_b[i]@),
{
    assert forall|i: int| 0 <= i < n implies key_views(sks_a)[i] == key_views(sks_b)[i] by {
        assert(chain_key(seed, i as nat) == Some(sks_a[i]@));
        assert(chain_key(seed, i as nat) == Some(sks_b[i]@));
    }
    assert(key_views(sks_a) =~= key_views(sks_b));
    assert forall|i: int| 0 <= i < n implies node_views(roots_a)[i] == node_views(roots_b)[i] by {
        assert(roots_a[i]@ == merkle_root(key_views(sks_a).take(i + 1)));
        assert(roots_b[i]@ == merkle_root(key_views(sks_b).take(i + 1)));
    }
    assert(node_views(roots_a) =~= node_views(roots_b));
    assert forall|i: int| 0 <= i < n implies node_views(paths_a[i]@) == node_views(
        #[trigger] paths_b[i]@,
    ) by {
        assert(node_views(paths_a[i]@) == merkle_path(key_views(sks_a).take(i + 1), i as nat));
        assert(node_views(paths_b[i]@) == merkle_path(key_views(sks_b).take(i + 1), i as nat));
    }
}

/// The keys of the first `n` slots of the chain from `seed`.
pub open spec fn chain_keys(seed: Seq<u8>, n: nat) -> Seq<Seq<u8>> {
    Seq::new(n, |i: int| chain_key(seed, i as nat)->0)
}

/// Whether the tree hands out a path for each of the keys as they are
/// inserted one after the other.
pub open spec fn chain_paths_hold(keys: Seq<Seq<u8>>) -> bool {
    forall|n: int| 1 <= n <= keys.len() ==> path_holds(#[trigger] keys.take(n))
}

/// Whether `r` is what making the key chain from `seed` gives: the error of
/// a point without coordinates where the chain breaks off before the
/// epoch's last slot, else the error of the tree where it hands out no path
/// for one of the keys, and else the chain.
pub open spec fn is_key_chain_outcome(
    r: Result<(Vec<SecretKey>, Vec<MerkleNode>, Vec<[MerkleNode; 32]>), CoinError>,
    seed: Seq<u8>,
) -> bool {
    let defined = chain_defined(seed, EPOCH_LENGTH as nat);
    let held = chain_paths_hold(chain_keys(seed, EPOCH_LENGTH as nat));
    &&& r == Err::<(Vec<SecretKey>, Vec<MerkleNode>, Vec<[MerkleNode; 32]>), CoinError>(
        CoinError::IdentityPoint,
    ) <==> !defined
    &&& r == Err::<(Vec<SecretKey>, Vec<MerkleNode>, Vec<[MerkleNode; 32]>), CoinError>(
        CoinError::TreeInsertion,
    ) <==> defined && !held
    &&& r is Ok <==> defined && held
    &&& r matches Ok((sks, roots, paths)) ==> is_key_chain(
        seed,
        sks@,
        roots@,
        paths@,
        EPOCH_LENGTH as nat,
    )
}

/// The secret keys of an epoch's slots from the scalar that blinds the first
/// commitment, where the chain has a key for every slot.
pub fn derive_keys(seed: Scalar) -> (r: Option<Vec<SecretKey>>)
    ensures
        r is Some <==> chain_defined(seed@, EPOCH_LENGTH as nat),
        r matches Some(sks) ==> sks@.len() == EPOCH_LENGTH && key_views(sks@) == chain_keys(
            seed@,
            EPOCH_LENGTH as nat,
        ),
{
    let mut sks: Vec<SecretKey> = Vec::new();
    let mut blind: Scalar = seed;
    let mut i: u64 = 0;
    while i < EPOCH_LENGTH
        invariant
            i <= EPOCH_LENGTH,
            sks@.len() == i,
            blind@ == if i == 0 {
                seed@
            } else {
                sks@[i - 1]@
            },
            forall|j: int| 0 <= j < i ==> chain_key(seed@, j as nat) == Some((#[trigger] sks@[j])@),
        decreases EPOCH_LENGTH - i,
    {
        let ghost before = sks@;
        let base = pedersen_commitment_u64(1, &blind);
        assert(chain_key(seed@, i as nat) == derive_key(blind@));
        let (sk_x, sk_y) = match base.coordinates() {
            Some(xy) => xy,
            None => {
                assert(chain_key(seed@, i as nat) is None);
                return None;
            },
        };
        let sk_base = poseidon_pair(&sk_x, &sk_y);
        sks.push(SecretKey::new(sk_base));
        blind = Scalar::from_base(&sk_base);
        proof {
            assert forall|j: int| 0 <= j < i + 1 implies chain_key(seed@, j as nat) == Some(
                (#[trigger] sks@[j])@,
            ) by {
                if j < i {
                    assert(sks@[j] == before[j]);
                }
            }
        }
        i += 1;
    }
    proof {
        assert forall|j: nat| j < EPOCH_LENGTH implies chain_key(seed@, j) is Some by {
            assert(chain_key(seed@, j) == Some(sks@[j as int]@));
        }
        assert(key_views(sks@) =~= chain_keys(seed@, EPOCH_LENGTH as nat));
    }
    Some(sks)
}

/// Inserts the keys into a tree of their own, one after the other: the root
/// after each insertion, and the path of each key as of its insertion, where
/// the tree hands one out for every key.
pub fn chain_tree(sks: &Vec<SecretKey>) -> (r: (Vec<MerkleNode>, Option<Vec<[MerkleNode; 32]>>))
    requires
        sks@.len() <= EPOCH_LENGTH,
    ensures
        r.0@.len() == sks@.len(),
        forall|i: int|
            0 <= i < sks@.len() ==> (#[trigger] r.0@[i])@ == merkle_root(
                key_views(sks@).take(i + 1),
            ),
        r.1 is Some <==> chain_paths_hold(key_views(sks@)),
        r.1 matches Some(paths) ==> {
            &&& paths@.len() == sks@.len()
            &&& forall|i: int|
                0 <= i < sks@.len() ==> {
                    &&& node_views((#[trigger] paths@[i])@) == merkle_path(
                        key_views(sks@).take(i + 1),
                        i as nat,
                    )
                    &&& path_root(sks@[i]@, i as nat, node_views(paths@[i]@)) == r.0@[i]@
                }
        },
{
    let ghost keys = key_views(sks@);
    let mut tree = MerkleAccumulator::new(EPOCH_LENGTH as usize);
    let mut roots: Vec<MerkleNode> = Vec::new();
    let mut paths: Vec<[MerkleNode; 32]> = Vec::new();
    let mut held = true;
    let mut i: usize = 0;
    assert(keys.take(0) =~= Seq::<Seq<u8>>::empty());
    while i < sks.len()
        invariant
            i <= sks@.len() <= EPOCH_LENGTH,
            keys == key_views(sks@),
            tree.wf(),
            tree.leaves() == keys.take(i as int),
            roots@.len() == i,
            forall|j: int| 0 <= j < i ==> (#[trigger] roots@[j])@ == merkle_root(keys.take(j + 1)),
            held <==> forall|n: int| 1 <= n <= i ==> path_holds(#[trigger] keys.take(n)),
            held ==> paths@.len() == i,
            held ==> forall|j: int|
                0 <= j < i ==> {
                    &&& node_views((#[trigger] paths@[j])@) == merkle_path(
                        keys.take(j + 1),
                        j as nat,
                    )
                    &&& path_root(sks@[j]@, j as nat, node_views(paths@[j]@)) == roots@[j]@
                },
        decreases sks.len() - i,
    {
        let ghost roots_before = roots@;
        let ghost paths_before = paths@;
        let node = MerkleNode::new(sks[i].inner());
        assert(keys.take(i as int).push(node@) =~= keys.take(i + 1));
        let root = match tree.insert(&node) {
            Some((root, path)) => {
                if held {
                    paths.push(path);
                }
                root
            },
            None => {
                held = false;
                tree.root()
            },
        };
        roots.push(root);
        proof {
            assert forall|j: int| 0 <= j < i + 1 implies (#[trigger] roots@[j])@ == merkle_root(
                keys.take(j + 1),
            ) by {
                if j < i {
                    assert(roots@[j] == roots_before[j]);
                }
            }
            if held {
                assert forall|j: int| 0 <= j < i + 1 implies {
                    &&& node_views((#[trigger] paths@[j])@) == merkle_path(
                        keys.take(j + 1),
                        j as nat,
                    )
                    &&& path_root(sks@[j]@, j as nat, node_views(paths@[j]@)) == roots@[j]@
                } by {
                    if j < i {
                        assert(paths@[j] == paths_before[j]);
                        assert(roots@[j] == roots_before[j]);
                    }
                }
            }
        }
        i += 1;
    }
    if held {
        (roots, Some(paths))
    } else {
        (roots, None)
    }
}

/// The secret keys of an epoch's slots with the root and the authentication
/// path of each, from the scalar that blinds the first commitment.
///
/// The keys are derived first, each from the one before it. Then each is
/// inserted into the tree, and the root and the path recorded for it are
/// those of that moment.
pub fn create_coins_sks_from(seed: Scalar) -> (r: Result<
    (Vec<SecretKey>, Vec<MerkleNode>, Vec<[MerkleNode; 32]>),
    CoinError,
>)
    ensures
        is_key_chain_outcome(r, seed@),
{
    let sks = match derive_keys(seed) {
        Some(sks) => sks,
        None => { return Err(CoinError::IdentityPoint); },
    };
    let (root_sks, path_sks) = chain_tree(&sks);
    proof {
        assert forall|i: int| 0 <= i < EPOCH_LENGTH implies chain_key(seed@, i as nat) == Some(
            (#[trigger] sks@[i])@,
        ) by {
            assert(key_views(sks@)[i] == chain_keys(seed@, EPOCH_LENGTH as nat)[i]);
        }
    }
    match path_sks {
        Some(paths) => Ok((sks, root_sks, paths)),
        None => Err(CoinError::TreeInsertion),
    }
}

/// The secret keys of an epoch's slots as `create_coins_sks_from` makes
/// them, from a scalar drawn at random: the result is one that
/// `create_coins_sks_from` may give for some scalar.
pub fn create_coins_sks() -> (r: Result<
    (Vec<SecretKey>, Vec<MerkleNode>, Vec<[MerkleNode; 32]>),
    CoinError,
>)
    ensures
        exists|seed: Scalar| #[trigger] is_key_chain_outcome(r, seed@),
        r matches Ok((sks, roots, paths)) ==> exists|seed: Seq<u8>| #[trigger]
            is_key_chain(seed, sks@, roots@, paths@, EPOCH_LENGTH as nat),
{
    let seed = random_scalar();
    let r = create_coins_sks_from(seed);
    assert(is_key_chain_outcome(r, seed@));
    r
}

} // verus!
