//! The incremental Merkle accumulator of the consensus core.
//!
//! Nodes are Pallas base field elements, joined by a Sinsemilla hash over
//! the level and both children. The tree itself is `incrementalmerkletree`'s
//! `BridgeTree`; this module states what its calls do to the leaves and
//! records, for each inserted leaf, the root and the authentication path as
//! they stand right after the insertion.

use crate::bytes::{le_bytes, le_value};
use crate::field::{base_modulus, Base};
use halo2_gadgets::sinsemilla::primitives::HashDomain;
use incrementalmerkletree::bridgetree::BridgeTree;
use incrementalmerkletree::{Altitude, Hashable, Position, Tree};
use pasta_curves::group::ff::PrimeField;
use pasta_curves::pallas;
use vstd::prelude::*;

verus! {

/// Depth of the tree.
pub const MERKLE_DEPTH: u8 = 32;

/// The root of the empty subtree at each level, from the empty leaf up
/// to the empty tree.
pub const EMPTY_ROOTS: [[u8; 32]; 33] = [
    [
        0x02, 0x00, 0x00, 0x00, 0x00, 0x00, 0x00, 0x00,
        0x00, 0x00, 0x00, 0x00, 0x00, 0x00, 0x00, 0x00,
        0x00, 0x00, 0x00, 0x00, 0x00, 0x00, 0x00, 0x00,
        0x00, 0x00, 0x00, 0x00, 0x00, 0x00, 0x00, 0x00,
    ],
    [
        0xd1, 0xab, 0x25, 0x07, 0xc8, 0x09, 0xc2, 0x71,
        0x3c, 0x00, 0x0f, 0x52, 0x5e, 0x9f, 0xbd, 0xcb,
        0x06, 0xc9, 0x58, 0x38, 0x4e, 0x51, 0xb9, 0xcc,
        0x7f, 0x79, 0x2d, 0xde, 0x6c, 0x97, 0xf4, 0x11,
    ],
    [
        0xc7, 0x41, 0x3f, 0x46, 0x14, 0xcd, 0x64, 0x04,
        0x3a, 0xbb, 0xab, 0x7c, 0xc1, 0x09, 0x5c, 0x9b,
        0xb1, 0x04, 0x23, 0x1c, 0xea, 0x89, 0xe2, 0xc3,
        0xe0, 0xdf, 0x83, 0x76, 0x95, 0x56, 0xd0, 0x30,
    ],
    [
        0x21, 0x11, 0xfc, 0x39, 0x77, 0x53, 0xe5, 0xfd,
        0x50, 0xec, 0x74, 0x81, 0x6d, 0xf2, 0x7d, 0x6a,
        0xda, 0x7e, 0xd2, 0xa9, 0xac, 0x38, 0x16, 0xaa,
        0xb2, 0x57, 0x3c, 0x8f, 0xac, 0x79, 0x42, 0x04,
    ],
    [
        0x80, 0x6a, 0xfb, 0xfe, 0xb4, 0x5c, 0x64, 0xd4,
        0xf2, 0x38, 0x4c, 0x51, 0xef, 0xf3, 0x07, 0x64,
        0xb8, 0x45, 0x99, 0xae, 0x56, 0xa7, 0xab, 0x3d,
        0x4a, 0x46, 0xd9, 0xce, 0x3a, 0xea, 0xb4, 0x31,
    ],
    [
        0x87, 0x3e, 0x41, 0x57, 0xf2, 0xc0, 0xf0, 0xc6,
        0x45, 0xe8, 0x99, 0x36, 0x00, 0x69, 0xfc, 0xc9,
        0xd2, 0xed, 0x9b, 0xc1, 0x1b, 0xf5, 0x98, 0x27,
        0xaf, 0x02, 0x30, 0xed, 0x52, 0xed, 0xab, 0x18,
    ],
    [
        0x27, 0xab, 0x13, 0x20, 0x95, 0x3a, 0xe1, 0xad,
        0x70, 0xc8, 0xc1, 0x5a, 0x12, 0x53, 0xa0, 0xa8,
        0x6f, 0xbc, 0x8a, 0x0a, 0xa3, 0x6a, 0x84, 0x20,
        0x72, 0x93, 0xf8, 0xa4, 0x95, 0xff, 0xc4, 0x02,
    ],
    [
        0x4e, 0x14, 0x56, 0x3d, 0xf1, 0x91, 0xa2, 0xa6,
        0x5b, 0x4b, 0x37, 0x11, 0x3b, 0x52, 0x30, 0x68,
        0x05, 0x55, 0x05, 0x1b, 0x22, 0xd7, 0x4a, 0x8e,
        0x1f, 0x1d, 0x70, 0x6f, 0x90, 0xf3, 0x13, 0x3b,
    ],
    [
        0xb3, 0xbb, 0xe4, 0xf9, 0x93, 0xd1, 0x8a, 0x0f,
        0x4e, 0xb7, 0xf4, 0x17, 0x4b, 0x1d, 0x85, 0x55,
        0xce, 0x33, 0x96, 0x85, 0x5d, 0x04, 0x67, 0x6f,
        0x1c, 0xe4, 0xf0, 0x6d, 0xda, 0x07, 0x37, 0x1f,
    ],
    [
        0x4e, 0xf5, 0xbd, 0xe9, 0xc6, 0xf0, 0xd7, 0x6a,
        0xeb, 0x9e, 0x27, 0xe9, 0x3f, 0xba, 0x28, 0xc6,
        0x79, 0xdf, 0xcb, 0x99, 0x1c, 0xbc, 0xb8, 0x39,
        0x5a, 0x2b, 0x57, 0x92, 0x4c, 0xbd, 0x17, 0x0e,
    ],
    [
        0xa3, 0xc0, 0x25, 0x68, 0xac, 0xeb, 0xf5, 0xca,
        0x1e, 0xc3, 0x0d, 0x6a, 0x7d, 0x7c, 0xd2, 0x17,
        0xa4, 0x7d, 0x6a, 0x1b, 0x83, 0x11, 0xbf, 0x94,
        0x62, 0xa5, 0xf9, 0x39, 0xc6, 0xb7, 0x43, 0x07,
    ],
    [
        0x3e, 0xf9, 0xb3, 0x0b, 0xae, 0x61, 0x22, 0xda,
        0x16, 0x05, 0xba, 0xd6, 0xec, 0x5d, 0x49, 0xb4,
        0x1d, 0x4d, 0x40, 0xca, 0xa9, 0x6c, 0x1c, 0xf6,
        0x30, 0x2b, 0x66, 0xc5, 0xd2, 0xd1, 0x0d, 0x39,
    ],
    [
        0x22, 0xae, 0x28, 0x00, 0xcb, 0x93, 0xab, 0xe6,
        0x3b, 0x70, 0xc1, 0x72, 0xde, 0x70, 0x36, 0x2d,
        0x98, 0x30, 0xe5, 0x38, 0x00, 0x39, 0x88, 0x84,
        0xa7, 0xa6, 0x4f, 0xf6, 0x8e, 0xd9, 0x9e, 0x0b,
    ],
    [
        0x18, 0x71, 0x10, 0xd9, 0x26, 0x72, 0xc2, 0x4c,
        0xed, 0xb0, 0x97, 0x9c, 0xdf, 0xc9, 0x17, 0xa6,
        0x05, 0x3b, 0x31, 0x0d, 0x14, 0x5c, 0x03, 0x1c,
        0x72, 0x92, 0xbb, 0x1d, 0x65, 0xb7, 0x66, 0x1b,
    ],
    [
        0x3f, 0x98, 0xad, 0xbe, 0x36, 0x4f, 0x14, 0x8b,
        0x0c, 0xc2, 0x04, 0x2c, 0xaf, 0xc6, 0xbe, 0x11,
        0x66, 0xfa, 0xe3, 0x90, 0x90, 0xab, 0x4b, 0x35,
        0x4b, 0xfb, 0x62, 0x17, 0xb9, 0x64, 0x45, 0x3b,
    ],
    [
        0x63, 0xf8, 0xdb, 0xd1, 0x0d, 0xf9, 0x36, 0xf1,
        0x73, 0x49, 0x73, 0xe0, 0xb3, 0xbd, 0x25, 0xf4,
        0xed, 0x44, 0x05, 0x66, 0xc9, 0x23, 0x08, 0x59,
        0x03, 0xf6, 0x96, 0xbc, 0x63, 0x47, 0xec, 0x0f,
    ],
    [
        0x21, 0x82, 0x16, 0x3e, 0xac, 0x40, 0x61, 0x88,
        0x5a, 0x31, 0x35, 0x68, 0x14, 0x8d, 0xfa, 0xe5,
        0x64, 0xe4, 0x78, 0x06, 0x6d, 0xcb, 0xe3, 0x89,
        0xa0, 0xdd, 0xb1, 0xec, 0xb7, 0xf5, 0xdc, 0x34,
    ],
    [
        0xbd, 0x9d, 0xc0, 0x68, 0x19, 0x18, 0xa3, 0xf3,
        0xf9, 0xcd, 0x1f, 0x9e, 0x06, 0xaa, 0x1a, 0xd6,
        0x89, 0x27, 0xda, 0x63, 0xac, 0xc1, 0x3b, 0x92,
        0xa2, 0x57, 0x8b, 0x27, 0x38, 0xa6, 0xd3, 0x31,
    ],
    [
        0xca, 0x2c, 0xed, 0x95, 0x3b, 0x7f, 0xb9, 0x5e,
        0x3b, 0xa9, 0x86, 0x33, 0x3d, 0xa9, 0xe6, 0x9c,
        0xd3, 0x55, 0x22, 0x3c, 0x92, 0x97, 0x31, 0x09,
        0x4b, 0x6c, 0x21, 0x74, 0xc7, 0x63, 0x8d, 0x2e,
    ],
    [
        0x55, 0x35, 0x4b, 0x96, 0xb5, 0x6f, 0x9e, 0x45,
        0xaa, 0xe1, 0xe0, 0x09, 0x4d, 0x71, 0xee, 0x24,
        0x8d, 0xab, 0xf6, 0x68, 0x11, 0x77, 0x78, 0xbd,
        0xc3, 0xc1, 0x9c, 0xa5, 0x33, 0x1a, 0x4e, 0x1a,
    ],
    [
        0x70, 0x97, 0xb0, 0x4c, 0x2a, 0xa0, 0x45, 0xa0,
        0xde, 0xff, 0xca, 0xca, 0x41, 0xc5, 0xac, 0x92,
        0xe6, 0x94, 0x46, 0x65, 0x78, 0xf5, 0x90, 0x9e,
        0x72, 0xbb, 0x78, 0xd3, 0x33, 0x10, 0xf7, 0x05,
    ],
    [
        0xe8, 0x1d, 0x68, 0x21, 0xff, 0x81, 0x3b, 0xd4,
        0x10, 0x86, 0x7a, 0x3f, 0x22, 0xe8, 0xe5, 0xcb,
        0x7a, 0xc5, 0x59, 0x9a, 0x61, 0x0a, 0xf5, 0xc3,
        0x54, 0xeb, 0x39, 0x28, 0x77, 0x36, 0x2e, 0x01,
    ],
    [
        0x15, 0x7d, 0xe8, 0x56, 0x7f, 0x7c, 0x49, 0x96,
        0xb8, 0xc4, 0xfd, 0xc9, 0x49, 0x38, 0xfd, 0x80,
        0x8c, 0x3b, 0x2a, 0x5c, 0xcb, 0x79, 0xd1, 0xa6,
        0x38, 0x58, 0xad, 0xaa, 0x9a, 0x6d, 0xd8, 0x24,
    ],
    [
        0xfe, 0x1f, 0xce, 0x51, 0xcd, 0x61, 0x20, 0xc1,
        0x2c, 0x12, 0x46, 0x95, 0xc4, 0xf9, 0x8b, 0x27,
        0x59, 0x18, 0xfc, 0xea, 0xe6, 0xeb, 0x20, 0x98,
        0x73, 0xed, 0x73, 0xfe, 0x73, 0x77, 0x5d, 0x0b,
    ],
    [
        0x1f, 0x91, 0x98, 0x29, 0x12, 0x01, 0x26, 0x69,
        0xf7, 0x4d, 0x0c, 0xfa, 0x10, 0x30, 0xff, 0x37,
        0xb1, 0x52, 0x32, 0x4e, 0x5b, 0x83, 0x46, 0xb3,
        0x33, 0x5a, 0x0a, 0xae, 0xb6, 0x3a, 0x0a, 0x2d,
    ],
    [
        0x5d, 0xec, 0x15, 0xf5, 0x2a, 0xf1, 0x7d, 0xa3,
        0x93, 0x13, 0x96, 0x18, 0x3c, 0xbb, 0xbf, 0xbe,
        0xa7, 0xed, 0x95, 0x07, 0x14, 0x54, 0x0a, 0xec,
        0x06, 0xc6, 0x45, 0xc7, 0x54, 0x97, 0x55, 0x22,
    ],
    [
        0xe8, 0xae, 0x2a, 0xd9, 0x1d, 0x46, 0x3b, 0xab,
        0x75, 0xee, 0x94, 0x1d, 0x33, 0xcc, 0x58, 0x17,
        0xb6, 0x13, 0xc6, 0x3c, 0xda, 0x94, 0x3a, 0x4c,
        0x07, 0xf6, 0x00, 0x59, 0x1b, 0x08, 0x8a, 0x25,
    ],
    [
        0xd5, 0x3f, 0xde, 0xe3, 0x71, 0xce, 0xf5, 0x96,
        0x76, 0x68, 0x23, 0xf4, 0xa5, 0x18, 0xa5, 0x83,
        0xb1, 0x15, 0x82, 0x43, 0xaf, 0xe8, 0x97, 0x00,
        0xf0, 0xda, 0x76, 0xda, 0x46, 0xd0, 0x06, 0x0f,
    ],
    [
        0x15, 0xd2, 0x44, 0x4c, 0xef, 0xe7, 0x91, 0x4c,
        0x9a, 0x61, 0xe8, 0x29, 0xc7, 0x30, 0xec, 0xeb,
        0x21, 0x62, 0x88, 0xfe, 0xe8, 0x25, 0xf6, 0xb3,
        0xb6, 0x29, 0x8f, 0x6f, 0x6b, 0x6b, 0xd6, 0x2e,
    ],
    [
        0x4c, 0x57, 0xa6, 0x17, 0xa0, 0xaa, 0x10, 0xea,
        0x7a, 0x83, 0xaa, 0x6b, 0x6b, 0x0e, 0xd6, 0x85,
        0xb6, 0xa3, 0xd9, 0xe5, 0xb8, 0xfd, 0x14, 0xf5,
        0x6c, 0xdc, 0x18, 0x02, 0x1b, 0x12, 0x25, 0x3f,
    ],
    [
        0x3f, 0xd4, 0x91, 0x5c, 0x19, 0xbd, 0x83, 0x1a,
        0x79, 0x20, 0xbe, 0x55, 0xd9, 0x69, 0xb2, 0xac,
        0x23, 0x35, 0x9e, 0x25, 0x59, 0xda, 0x77, 0xde,
        0x23, 0x73, 0xf0, 0x6c, 0xa0, 0x14, 0xba, 0x27,
    ],
    [
        0x87, 0xd0, 0x63, 0xcd, 0x07, 0xee, 0x49, 0x44,
        0x22, 0x2b, 0x77, 0x62, 0x84, 0x0e, 0xb9, 0x4c,
        0x68, 0x8b, 0xec, 0x74, 0x3f, 0xa8, 0xbd, 0xf7,
        0x71, 0x5c, 0x8f, 0xe2, 0x9f, 0x10, 0x4c, 0x2a,
    ],
    [
        0xae, 0x29, 0x35, 0xf1, 0xdf, 0xd8, 0xa2, 0x4a,
        0xed, 0x7c, 0x70, 0xdf, 0x7d, 0xe3, 0xa6, 0x68,
        0xeb, 0x7a, 0x49, 0xb1, 0x31, 0x98, 0x80, 0xdd,
        0xe2, 0xbb, 0xd9, 0x03, 0x1a, 0xe5, 0xd8, 0x2f,
    ],
];

/// The leaves that a tree of this depth takes.
pub const TREE_CAPACITY: u64 = 0x1_0000_0000;

/// Most bits that a Sinsemilla message may hold.
pub const SINSEMILLA_MAX_BITS: usize = 2530;

#[verifier::external_type_specification]
#[verifier::external_body]
pub struct ExAltitude(Altitude);

#[verifier::external_type_specification]
#[verifier::external_body]
#[verifier::reject_recursive_types(H)]
pub struct ExBridgeTree<H: Ord, const DEPTH: u8>(BridgeTree<H, DEPTH>);

/// The Sinsemilla hash of a bit string under a domain, by its canonical
/// encoding; some bit strings have none.
pub uninterp spec fn sinsemilla_hash(domain: Seq<char>, bits: Seq<bool>) -> Option<Seq<u8>>;

/// The leaves of a tree, first to last.
pub uninterp spec fn tree_leaves(tree: BridgeTree<MerkleNode, 32>) -> Seq<Seq<u8>>;

/// The number of checkpoints that a tree holds.
pub uninterp spec fn tree_checkpoints(tree: BridgeTree<MerkleNode, 32>) -> nat;

/// The positions of the leaves that are marked in a tree: those for which
/// it keeps what an authentication path takes.
pub uninterp spec fn tree_marked(tree: BridgeTree<MerkleNode, 32>) -> Set<nat>;

/// The root of the tree of depth 32 over the given leaves.
pub uninterp spec fn merkle_root(leaves: Seq<Seq<u8>>) -> Seq<u8>;

/// The authentication path of the leaf at `position` in the tree of depth 32
/// over the given leaves, from the leaf's sibling upwards.
pub uninterp spec fn merkle_path(leaves: Seq<Seq<u8>>, position: nat) -> Seq<Seq<u8>>;

/// A node of the tree.
#[derive(Clone, Copy, Debug, PartialEq, Eq, PartialOrd, Ord)]
pub struct MerkleNode {
    inner: Base,
}

impl View for MerkleNode {
    type V = Seq<u8>;

    /// The canonical encoding of the node's field element.
    closed spec fn view(&self) -> Seq<u8> {
        self.inner@
    }
}

/// The encodings of a sequence of nodes.
pub open spec fn node_views(nodes: Seq<MerkleNode>) -> Seq<Seq<u8>> {
    nodes.map_values(|n: MerkleNode| n@)
}

/// The first `count` bits of `bytes`, each byte's least significant first.
pub open spec fn le_bits(bytes: Seq<u8>, count: nat) -> Seq<bool> {
    Seq::new(count, |i: int| (bytes[i / 8] >> ((i % 8) as u8)) & 1u8 == 1u8)
}

/// The ten bits of a level, least significant first.
pub open spec fn level_bits(level: u8) -> Seq<bool> {
    Seq::new(10, |i: int| i < 8 && (level >> (i as u8)) & 1u8 == 1u8)
}

/// The domain of the node hash.
pub open spec fn merkle_domain() -> Seq<char> {
    "z.cash:Orchard-MerkleCRH"@
}

/// The message that is hashed to join two nodes at a level.
pub open spec fn join_message(level: u8, left: Seq<u8>, right: Seq<u8>) -> Seq<bool> {
    level_bits(level) + le_bits(left, 255) + le_bits(right, 255)
}

/// The parent of two nodes at a level: the Sinsemilla hash of the level and
/// both children, or zero where there is none.
pub open spec fn join_nodes(level: u8, left: Seq<u8>, right: Seq<u8>) -> Seq<u8> {
    match sinsemilla_hash(merkle_domain(), join_message(level, left, right)) {
        Some(h) => h,
        None => le_bytes(0, 32),
    }
}

/// `HashDomain::new(domain).hash(bits)` of
/// `halo2_gadgets::sinsemilla::primitives`: the hash of the bit string, or
/// nothing. The call panics on more than 2530 bits.
#[verifier::external_body]
fn sinsemilla(domain: &str, bits: &Vec<bool>) -> (r: Option<Base>)
    requires
        bits@.len() <= SINSEMILLA_MAX_BITS,
    ensures
        match r {
            Some(h) => sinsemilla_hash(domain@, bits@) == Some(h@),
            None => sinsemilla_hash(domain@, bits@) is None,
        },
{
    let h: Option<pallas::Base> = HashDomain::new(domain).hash(bits.iter().copied()).into();
    h.map(|x| Base { repr: x.to_repr() })
}

/// `u8::from(Altitude)`: the level's number.
#[verifier::external_body]
fn level_number(level: Altitude) -> u8 {
    u8::from(level)
}

/// `BridgeTree::new`: an empty tree without checkpoints.
#[verifier::external_body]
fn tree_new(max_checkpoints: usize) -> (tree: BridgeTree<MerkleNode, 32>)
    ensures
        tree_leaves(tree) == Seq::<Seq<u8>>::empty(),
        tree_checkpoints(tree) == 0,
{
    BridgeTree::new(max_checkpoints)
}

/// `Tree::append` of a `BridgeTree`: adds the node as the next leaf and
/// returns true, or returns false and leaves the tree as it is. A tree
/// refuses a leaf where it is full, and only there.
#[verifier::external_body]
fn tree_append(tree: &mut BridgeTree<MerkleNode, 32>, node: &MerkleNode) -> (ok: bool)
    requires
        tree_leaves(*old(tree)).len() <= TREE_CAPACITY,
    ensures
        ok <==> tree_leaves(*old(tree)).len() < TREE_CAPACITY,
        ok ==> tree_leaves(*final(tree)) == tree_leaves(*old(tree)).push(node@),
        !ok ==> tree_leaves(*final(tree)) == tree_leaves(*old(tree)),
        tree_checkpoints(*final(tree)) == tree_checkpoints(*old(tree)),
{
    tree.append(node)
}

/// `Tree::witness` of a `BridgeTree`: marks the last leaf and returns its
/// position, or returns nothing where the tree is empty; the leaves stay.
#[verifier::external_body]
fn tree_witness(tree: &mut BridgeTree<MerkleNode, 32>) -> (r: Option<usize>)
    ensures
        tree_leaves(*final(tree)) == tree_leaves(*old(tree)),
        tree_checkpoints(*final(tree)) == tree_checkpoints(*old(tree)),
        r is Some <==> tree_leaves(*old(tree)).len() > 0,
        r is Some ==> r->0 + 1 == tree_leaves(*old(tree)).len(),
        r is Some ==> tree_marked(*final(tree)).contains(r->0 as nat),
{
    tree.witness().map(usize::from)
}

/// `Tree::root(0)` of a `BridgeTree`: the root over the current leaves,
/// which is always given.
#[verifier::external_body]
fn tree_root(tree: &BridgeTree<MerkleNode, 32>) -> (r: Option<MerkleNode>)
    ensures
        r is Some,
        r->0@ == merkle_root(tree_leaves(*tree)),
{
    tree.root(0)
}

/// `Tree::authentication_path` of a `BridgeTree` without checkpoints: the
/// path of the leaf at `position` as of the current leaves, which is given
/// where the leaf is marked and `root` is the leaves' root, and only there.
#[verifier::external_body]
fn tree_path(tree: &BridgeTree<MerkleNode, 32>, position: usize, root: &MerkleNode) -> (r: Option<
    Vec<MerkleNode>,
>)
    requires
        tree_checkpoints(*tree) == 0,
    ensures
        r is Some <==> {
            &&& tree_marked(*tree).contains(position as nat)
            &&& root@ == merkle_root(tree_leaves(*tree))
        },
        r is Some ==> node_views(r->0@) == merkle_path(tree_leaves(*tree), position as nat),
{
    tree.authentication_path(Position::from(position), root)
}

/// Appends the first `count` bits of `bytes` to `bits`.
fn push_le_bits(bits: &mut Vec<bool>, bytes: &[u8; 32], count: usize)
    requires
        count <= 256,
    ensures
        final(bits)@ == old(bits)@ + le_bits(bytes@, count as nat),
{
    let mut i: usize = 0;
    while i < count
        invariant
            i <= count <= 256,
            bits@ == old(bits)@ + le_bits(bytes@, i as nat),
        decreases count - i,
    {
        let bit = (bytes[i / 8] >> ((i % 8) as u8)) & 1u8 == 1u8;
        bits.push(bit);
        i += 1;
        assert(bits@ =~= old(bits)@ + le_bits(bytes@, i as nat));
    }
}

/// Joins two nodes at a level.
pub fn join(level: u8, left: &MerkleNode, right: &MerkleNode) -> (parent: MerkleNode)
    ensures
        parent@ == join_nodes(level, left@, right@),
{
    let mut bits: Vec<bool> = Vec::new();
    let mut i: usize = 0;
    while i < 10
        invariant
            i <= 10,
            bits@ == level_bits(level).take(i as int),
        decreases 10 - i,
    {
        let bit = i < 8 && (level >> (i as u8)) & 1u8 == 1u8;
        bits.push(bit);
        i += 1;
        assert(bits@ =~= level_bits(level).take(i as int));
    }
    assert(bits@ =~= level_bits(level));
    let l = left.inner.to_repr();
    let r = right.inner.to_repr();
    push_le_bits(&mut bits, &l, 255);
    push_le_bits(&mut bits, &r, 255);
    match sinsemilla("z.cash:Orchard-MerkleCRH", &bits) {
        Some(h) => MerkleNode { inner: h },
        None => MerkleNode { inner: Base::from_u64(0) },
    }
}

/// The root of the empty subtree of a height, computed from the empty leaf:
/// the leaf itself at height zero, and above it the parent of two empty
/// subtrees of the height below.
pub open spec fn empty_subtree(height: nat) -> Seq<u8>
    decreases height,
{
    if height == 0 {
        le_bytes(2, 32)
    } else {
        let below = empty_subtree((height - 1) as nat);
        join_nodes((height - 1) as u8, below, below)
    }
}

/// The table's entry for a height, where it has one that encodes a field
/// element.
pub open spec fn table_root(height: u8) -> Option<Seq<u8>> {
    if height <= MERKLE_DEPTH && le_value(EMPTY_ROOTS@[height as int]@) < base_modulus() {
        Some(EMPTY_ROOTS@[height as int]@)
    } else {
        None
    }
}

/// The root that stands for the empty subtree of a height: the table's
/// entry, and the computed root where the table has none.
pub open spec fn empty_root_at(height: u8) -> Seq<u8> {
    match table_root(height) {
        Some(root) => root,
        None => empty_subtree(height as nat),
    }
}

/// The node that a path leads to from `node` at `level`, where `position`
/// tells at each level on which side the node stands: the path holds the
/// node on the other side.
pub open spec fn climb(node: Seq<u8>, position: nat, level: nat, path: Seq<Seq<u8>>) -> Seq<u8>
    decreases path.len(),
{
    if path.len() == 0 {
        node
    } else {
        let parent = if position % 2 == 0 {
            join_nodes(level as u8, node, path[0])
        } else {
            join_nodes(level as u8, path[0], node)
        };
        climb(parent, position / 2, level + 1, path.drop_first())
    }
}

/// The root that an authentication path leads to from the leaf at
/// `position`.
pub open spec fn path_root(leaf: Seq<u8>, position: nat, path: Seq<Seq<u8>>) -> Seq<u8> {
    climb(leaf, position, 0, path)
}

/// Computes the root that an authentication path leads to from the leaf at
/// `position`.
pub fn root_from_path(leaf: &MerkleNode, position: usize, path: &[MerkleNode]) -> (root:
    MerkleNode)
    requires
        path@.len() <= MERKLE_DEPTH,
    ensures
        root@ == path_root(leaf@, position as nat, node_views(path@)),
{
    let ghost views = node_views(path@);
    let mut current = *leaf;
    let mut side = position;
    let mut level: usize = 0;
    assert(views.skip(0) =~= views);
    while level < path.len()
        invariant
            level <= path@.len() <= MERKLE_DEPTH,
            views == node_views(path@),
            climb(current@, side as nat, level as nat, views.skip(level as int)) == path_root(
                leaf@,
                position as nat,
                views,
            ),
        decreases path.len() - level,
    {
        proof {
            let rest = views.skip(level as int);
            assert(rest[0] == path@[level as int]@);
            assert(rest.drop_first() =~= views.skip(level + 1));
        }
        current = if side % 2 == 0 {
            join(level as u8, &current, &path[level])
        } else {
            join(level as u8, &path[level], &current)
        };
        side = side / 2;
        level += 1;
    }
    assert(views.skip(level as int).len() == 0);
    current
}

impl MerkleNode {
    /// A node has 32 bytes.
    pub proof fn lemma_repr(self)
        ensures
            self@.len() == 32,
    {
        self.inner.lemma_repr();
    }

    /// The node of a field element.
    pub fn new(inner: Base) -> (node: MerkleNode)
        ensures
            node@ == inner@,
    {
        MerkleNode { inner }
    }

    /// Whether the two nodes are the same.
    pub fn same(&self, other: &MerkleNode) -> (r: bool)
        ensures
            r == (self@ == other@),
    {
        self.inner.same(&other.inner)
    }

    /// The node's field element.
    pub fn inner(&self) -> (x: Base)
        ensures
            x@ == self@,
    {
        self.inner
    }
}

/// The 32 nodes of a path as an array.
fn path_array(path: &Vec<MerkleNode>) -> (array: [MerkleNode; 32])
    requires
        path@.len() == MERKLE_DEPTH,
    ensures
        array@ == path@,
{
    let mut array: [MerkleNode; 32] = [path[0]; 32];
    let mut i: usize = 0;
    while i < 32
        invariant
            i <= 32,
            path@.len() == 32,
            forall|j: int| 0 <= j < i ==> array@[j] == path@[j],
        decreases 32 - i,
    {
        array[i] = path[i];
        i += 1;
    }
    assert(array@ =~= path@);
    array
}

/// What an insertion hands out for a leaf, given the root and what the tree
/// gave as the leaf's path: the root and the path, where there is a path of
/// 32 nodes that leads from the leaf at `position` to the root, and nothing
/// else.
pub fn accept_path(
    node: &MerkleNode,
    position: usize,
    root: MerkleNode,
    path: Option<Vec<MerkleNode>>,
) -> (r: Option<(MerkleNode, [MerkleNode; 32])>)
    ensures
        r is Some <==> {
            &&& path is Some
            &&& path->0@.len() == MERKLE_DEPTH
            &&& path_root(node@, position as nat, node_views(path->0@)) == root@
        },
        r matches Some((given_root, given_path)) ==> given_root == root && given_path@
            == path->0@,
{
    match path {
        Some(nodes) => {
            if nodes.len() == MERKLE_DEPTH as usize && root_from_path(
                node,
                position,
                nodes.as_slice(),
            ).same(&root) {
                Some((root, path_array(&nodes)))
            } else {
                None
            }
        },
        None => None,
    }
}

/// The leaves of a tree after a leaf was offered to it: with the leaf at
/// their end, unless the tree was full.
pub open spec fn leaves_after(leaves: Seq<Seq<u8>>, leaf: Seq<u8>) -> Seq<Seq<u8>> {
    if leaves.len() < TREE_CAPACITY {
        leaves.push(leaf)
    } else {
        leaves
    }
}

/// Whether the tree's path for the last of the leaves is one that an
/// insertion hands out: it has 32 nodes and leads from that leaf to the
/// root over the leaves.
pub open spec fn path_holds(leaves: Seq<Seq<u8>>) -> bool {
    let position = (leaves.len() - 1) as nat;
    &&& leaves.len() > 0
    &&& merkle_path(leaves, position).len() == MERKLE_DEPTH
    &&& path_root(leaves.last(), position, merkle_path(leaves, position)) == merkle_root(leaves)
}

/// An append-only Merkle tree that hands out, for each inserted leaf, the
/// root and the leaf's authentication path as of that insertion.
pub struct MerkleAccumulator {
    tree: BridgeTree<MerkleNode, 32>,
}

impl MerkleAccumulator {
    /// The tree holds no checkpoints, and no more leaves than it takes.
    pub closed spec fn wf(self) -> bool {
        &&& tree_checkpoints(self.tree) == 0
        &&& tree_leaves(self.tree).len() <= TREE_CAPACITY
    }

    /// The leaves inserted so far, first to last.
    pub closed spec fn leaves(self) -> Seq<Seq<u8>> {
        tree_leaves(self.tree)
    }

    /// An accumulator holds no more leaves than the tree takes.
    pub proof fn lemma_within_capacity(self)
        requires
            self.wf(),
        ensures
            self.leaves().len() <= TREE_CAPACITY,
    {
    }

    /// An empty accumulator.
    pub fn new(max_checkpoints: usize) -> (acc: MerkleAccumulator)
        ensures
            acc.wf(),
            acc.leaves() == Seq::<Seq<u8>>::empty(),
    {
        MerkleAccumulator { tree: tree_new(max_checkpoints) }
    }

    /// The root over the leaves inserted so far.
    pub fn root(&self) -> (root: MerkleNode)
        ensures
            root@ == merkle_root(self.leaves()),
    {
        match tree_root(&self.tree) {
            Some(r) => r,
            None => MerkleNode { inner: Base::from_u64(0) },
        }
    }

    /// Adds a leaf, and tells whether it did: a full tree takes no leaf.
    pub fn append(&mut self, node: &MerkleNode) -> (ok: bool)
        requires
            old(self).wf(),
        ensures
            final(self).wf(),
            ok <==> old(self).leaves().len() < TREE_CAPACITY,
            final(self).leaves() == leaves_after(old(self).leaves(), node@),
    {
        tree_append(&mut self.tree, node)
    }

    /// Inserts a leaf and returns the root and the leaf's authentication
    /// path, both as of this insertion. The leaf is added unless the tree is
    /// full. Root and path are returned where the leaf was added and the
    /// tree's path for it has 32 nodes and leads from the leaf to the root,
    /// and only there.
    pub fn insert(&mut self, node: &MerkleNode) -> (r: Option<(MerkleNode, [MerkleNode; 32])>)
        requires
            old(self).wf(),
        ensures
            final(self).wf(),
            final(self).leaves() == leaves_after(old(self).leaves(), node@),
            r is Some <==> old(self).leaves().len() < TREE_CAPACITY && path_holds(
                old(self).leaves().push(node@),
            ),
            r matches Some((root, path)) ==> {
                &&& root@ == merkle_root(final(self).leaves())
                &&& node_views(path@) == merkle_path(
                    final(self).leaves(),
                    old(self).leaves().len(),
                )
                &&& path_root(node@, old(self).leaves().len(), node_views(path@)) == root@
            },
    {
        if !tree_append(&mut self.tree, node) {
            return None;
        }
        let position = match tree_witness(&mut self.tree) {
            Some(p) => p,
            None => { return None; },
        };
        let root = self.root();
        let path = tree_path(&self.tree, position, &root);
        proof {
            let after = old(self).leaves().push(node@);
            assert(after.last() == node@);
            assert(after.len() - 1 == position);
        }
        accept_path(node, position, root, path)
    }
}

/// The root of the empty subtree of a height: read from the table up to the
/// depth of the tree, and computed from the empty leaf beyond it.
pub fn empty_root_of(height: u8) -> (root: MerkleNode)
    ensures
        root@ == empty_root_at(height),
{
    if height <= MERKLE_DEPTH {
        match Base::from_repr(EMPTY_ROOTS[height as usize]) {
            Some(inner) => { return MerkleNode { inner }; },
            None => {},
        }
    }
    let mut node = MerkleNode { inner: Base::from_u64(2) };
    let mut below: u8 = 0;
    while below < height
        invariant
            below <= height,
            node@ == empty_subtree(below as nat),
        decreases height - below,
    {
        node = join(below, &node, &node);
        below += 1;
    }
    node
}

impl Hashable for MerkleNode {
    /// The leaf that stands where none was inserted: the number 2.
    fn empty_leaf() -> (leaf: Self)
        ensures
            leaf@ == le_bytes(2, 32),
    {
        MerkleNode { inner: Base::from_u64(2) }
    }

    /// The parent of two nodes at a level.
    fn combine(level: Altitude, a: &Self, b: &Self) -> (parent: Self)
        ensures
            exists|number: u8| parent@ == #[trigger] join_nodes(number, a@, b@),
    {
        join(level_number(level), a, b)
    }

    /// The root of the empty subtree at a level: `empty_root_of` the
    /// level's height.
    fn empty_root(level: Altitude) -> (root: Self)
        ensures
            exists|height: u8| root@ == #[trigger] empty_root_at(height),
    {
        let height = level_number(level);
        let root = empty_root_of(height);
        assert(root@ == empty_root_at(height));
        root
    }
}

} // verus!
