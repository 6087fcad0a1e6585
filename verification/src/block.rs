//! Headers and blocks, with their canonical encoding and their hashes.
//!
//! The encoding is fixed: integers take their width in little-endian bytes,
//! digests and nodes their 32 bytes, and a list its length as a variable
//! length integer before its items. A hash is the BLAKE3 digest of the
//! encoding.

use crate::bytes::{
    append, copy_bytes, le_bytes, le_value, lemma_le_value_bound,
    lemma_le_value_of_bytes, lemma_pow256_values, pow256, push_le, read_32, read_le,
};
use crate::field::{base_modulus, Base};
use crate::hash::{blake3, blake3_digest, Digest};
use crate::merkle::{merkle_root, MerkleAccumulator, MerkleNode, TREE_CAPACITY};
use vstd::prelude::*;

verus! {

/// Version of the block format.
pub const BLOCK_VERSION: u8 = 1;

/// First bytes of every encoded block.
pub const BLOCK_MAGIC_BYTES: [u8; 4] = [0x11, 0x6d, 0x75, 0x1f];

/// Bytes of an encoded header.
pub const HEADER_SIZE: usize = 89;

/// Seconds since the start of 1970.
#[derive(Clone, Copy, Debug, PartialEq, Eq, Structural)]
pub struct Timestamp(pub i64);

/// `std::time::SystemTime::now`, as seconds since the start of 1970, or
/// zero for a clock before it: any moment.
#[verifier::external_body]
fn system_time() -> Timestamp {
    Timestamp(
        std::time::SystemTime::now().duration_since(std::time::UNIX_EPOCH).map_or(
            0,
            |d| d.as_secs() as i64,
        ),
    )
}

impl Timestamp {
    /// The time on the clock.
    pub fn current_time() -> Timestamp {
        system_time()
    }
}

/// What a header says.
pub struct HeaderView {
    pub version: u8,
    pub previous: Seq<u8>,
    pub epoch: u64,
    pub slot: u64,
    pub timestamp: i64,
    pub root: Seq<u8>,
}

/// The header of a block.
#[derive(Clone, Debug, PartialEq, Eq)]
pub struct Header {
    /// Block version
    pub version: u8,
    /// Previous block hash
    pub previous: Digest,
    /// Epoch
    pub epoch: u64,
    /// Slot
    pub slot: u64,
    /// Block creation timestamp
    pub timestamp: Timestamp,
    /// Root of the transaction hashes' Merkle tree
    pub root: MerkleNode,
}

impl View for Header {
    type V = HeaderView;

    open spec fn view(&self) -> HeaderView {
        HeaderView {
            version: self.version,
            previous: self.previous@,
            epoch: self.epoch,
            slot: self.slot,
            timestamp: self.timestamp.0,
            root: self.root@,
        }
    }
}

impl HeaderView {
    /// The hash and the root have 32 bytes each, and the root's spell an
    /// element of the base field.
    pub open spec fn wf(self) -> bool {
        &&& self.previous.len() == 32
        &&& self.root.len() == 32
        &&& le_value(self.root) < base_modulus()
    }

    /// The canonical encoding: version, previous hash, epoch, slot,
    /// timestamp and root, one after the other.
    pub open spec fn encoding(self) -> Seq<u8> {
        seq![self.version] + self.previous + le_bytes(self.epoch as nat, 8) + le_bytes(
            self.slot as nat,
            8,
        ) + le_bytes(self.timestamp as u64 as nat, 8) + self.root
    }

    /// The hash: the digest of the encoding.
    pub open spec fn hash(self) -> Seq<u8> {
        blake3_digest(self.encoding())
    }
}

/// The header that bytes encode, if they encode one: there are 89 of them,
/// and the last 32 spell an element of the base field.
pub open spec fn parse_header(bytes: Seq<u8>) -> Option<HeaderView> {
    if bytes.len() != HEADER_SIZE || le_value(bytes.subrange(57, 89)) >= base_modulus() {
        None
    } else {
        Some(
            HeaderView {
                version: bytes[0],
                previous: bytes.subrange(1, 33),
                epoch: le_value(bytes.subrange(33, 41)) as u64,
                slot: le_value(bytes.subrange(41, 49)) as u64,
                timestamp: le_value(bytes.subrange(49, 57)) as u64 as i64,
                root: bytes.subrange(57, 89),
            },
        )
    }
}

/// Eight bytes spell an integer of 64 bits, and are its encoding.
pub proof fn lemma_u64_bytes(s: Seq<u8>)
    requires
        s.len() == 8,
    ensures
        le_value(s) <= u64::MAX,
        le_bytes(le_value(s), 8) == s,
{
    lemma_le_value_bound(s);
    lemma_pow256_values();
    crate::bytes::lemma_le_bytes_of_value(s);
}

/// The eight bytes of an integer of 64 bits spell it.
pub proof fn lemma_bytes_u64(x: u64)
    ensures
        le_bytes(x as nat, 8).len() == 8,
        le_value(le_bytes(x as nat, 8)) == x,
{
    lemma_pow256_values();
    lemma_le_value_of_bytes(x as nat, 8);
}

/// A timestamp survives the way through its 64 bits.
pub proof fn lemma_timestamp_bits(t: i64)
    ensures
        (t as u64) as i64 == t,
{
    assert((t as u64) as i64 == t) by (bit_vector);
}

/// 64 bits survive the way through a timestamp.
pub proof fn lemma_bits_timestamp(x: u64)
    ensures
        (x as i64) as u64 == x,
{
    assert((x as i64) as u64 == x) by (bit_vector);
}

/// Decoding the encoding of a header gives the header back, field for
/// field.
pub proof fn lemma_header_round_trip(h: HeaderView)
    requires
        h.wf(),
    ensures
        parse_header(h.encoding()) == Some(h),
{
    let e = le_bytes(h.epoch as nat, 8);
    let s = le_bytes(h.slot as nat, 8);
    let t = le_bytes(h.timestamp as u64 as nat, 8);
    let b = h.encoding();
    lemma_bytes_u64(h.epoch);
    lemma_bytes_u64(h.slot);
    lemma_bytes_u64(h.timestamp as u64);
    lemma_timestamp_bits(h.timestamp);
    assert(b.len() == 89);
    assert(b.subrange(1, 33) =~= h.previous);
    assert(b.subrange(33, 41) =~= e);
    assert(b.subrange(41, 49) =~= s);
    assert(b.subrange(49, 57) =~= t);
    assert(b.subrange(57, 89) =~= h.root);
    let p = parse_header(b)->0;
    assert(p.previous == h.previous);
    assert(p.root == h.root);
}

/// Bytes that decode to a header are that header's encoding.
pub proof fn lemma_header_parse_encodes(bytes: Seq<u8>)
    requires
        parse_header(bytes) is Some,
    ensures
        parse_header(bytes)->0.wf(),
        parse_header(bytes)->0.encoding() == bytes,
{
    let h = parse_header(bytes)->0;
    let e = bytes.subrange(33, 41);
    let s = bytes.subrange(41, 49);
    let t = bytes.subrange(49, 57);
    lemma_u64_bytes(e);
    lemma_u64_bytes(s);
    lemma_u64_bytes(t);
    lemma_bits_timestamp(le_value(t) as u64);
    assert(h.encoding() =~= bytes);
}

/// Headers with the same encoding are the same, so that headers that
/// differ in any field, the timestamp among them, are hashed from
/// different bytes.
pub proof fn lemma_header_encoding_injective(a: HeaderView, b: HeaderView)
    requires
        a.wf(),
        b.wf(),
        a.encoding() == b.encoding(),
    ensures
        a == b,
{
    lemma_header_round_trip(a);
    lemma_header_round_trip(b);
}

impl Header {
    /// A header of the current version.
    pub fn new(
        previous: Digest,
        epoch: u64,
        slot: u64,
        timestamp: Timestamp,
        root: MerkleNode,
    ) -> (h: Header)
        ensures
            h == (Header { version: BLOCK_VERSION, previous, epoch, slot, timestamp, root }),
    {
        let version = BLOCK_VERSION;
        Header { version, previous, epoch, slot, timestamp, root }
    }

    /// The header of the genesis block: epoch and slot zero, and the root of
    /// the empty tree.
    pub fn genesis_header(genesis_ts: Timestamp, genesis_data: Digest) -> (h: Header)
        ensures
            h@ == (HeaderView {
                version: BLOCK_VERSION,
                previous: genesis_data@,
                epoch: 0,
                slot: 0,
                timestamp: genesis_ts.0,
                root: merkle_root(Seq::empty()),
            }),
    {
        let tree = MerkleAccumulator::new(100);
        let root = tree.root();
        Header::new(genesis_data, 0, 0, genesis_ts, root)
    }

    /// The canonical encoding, which decodes to the header.
    pub fn encode(&self) -> (bytes: Vec<u8>)
        ensures
            bytes@ == self@.encoding(),
            self@.wf(),
            parse_header(bytes@) == Some(self@),
    {
        let mut bytes: Vec<u8> = Vec::new();
        bytes.push(self.version);
        assert(bytes@ =~= seq![self.version]);
        let previous = self.previous.to_bytes();
        append(&mut bytes, previous.as_slice());
        push_le(&mut bytes, self.epoch, 8);
        push_le(&mut bytes, self.slot, 8);
        push_le(&mut bytes, self.timestamp.0 as u64, 8);
        let root = self.root.inner().to_repr();
        append(&mut bytes, root.as_slice());
        proof {
            self.previous.lemma_len();
            lemma_header_round_trip(self@);
        }
        bytes
    }

    /// The header that bytes encode, if they encode one.
    pub fn decode(bytes: &[u8]) -> (r: Option<Header>)
        ensures
            match r {
                Some(h) => parse_header(bytes@) == Some(h@),
                None => parse_header(bytes@) is None,
            },
    {
        if bytes.len() != HEADER_SIZE {
            return None;
        }
        let root = match Base::from_repr(read_32(bytes, 57)) {
            Some(x) => MerkleNode::new(x),
            None => { return None; },
        };
        let version = bytes[0];
        let previous = Digest::new(read_32(bytes, 1));
        let epoch = read_le(bytes, 33, 8);
        let slot = read_le(bytes, 41, 8);
        let seconds = read_le(bytes, 49, 8);
        Some(
            Header { version, previous, epoch, slot, timestamp: Timestamp(seconds as i64), root },
        )
    }

    /// The header's hash: the digest of its encoding.
    pub fn headerhash(&self) -> (d: Digest)
        ensures
            d@ == self@.hash(),
    {
        let bytes = self.encode();
        blake3(bytes.as_slice())
    }

    /// Whether the two headers say the same.
    pub fn same(&self, other: &Header) -> (r: bool)
        ensures
            r == (self@ == other@),
    {
        self.version == other.version && self.previous.same(&other.previous) && self.epoch
            == other.epoch && self.slot == other.slot && self.timestamp.0 == other.timestamp.0
            && self.root.inner().same(&other.root.inner())
    }
}

impl Default for Header {
    /// A header of the current time over nothing: the previous hash is the
    /// digest of no bytes, the root is zero.
    fn default() -> (h: Header)
        ensures
            h.version == BLOCK_VERSION,
            h.previous@ == blake3_digest(Seq::empty()),
            h.epoch == 0,
            h.slot == 0,
            h.root@ == le_bytes(0, 32),
    {
        let none: [u8; 0] = [];
        assert(none@ =~= Seq::<u8>::empty());
        Header::new(
            blake3(none.as_slice()),
            0,
            0,
            Timestamp::current_time(),
            MerkleNode::new(Base::from_u64(0)),
        )
    }
}

/// The variable-length encoding of a length: one byte below 253, else a
/// marker and two, four or eight bytes, whichever are the fewest that hold
/// it.
pub open spec fn varint(n: u64) -> Seq<u8> {
    if n < 0xfd {
        le_bytes(n as nat, 1)
    } else if n <= 0xffff {
        seq![0xfdu8] + le_bytes(n as nat, 2)
    } else if n <= 0xffff_ffff {
        seq![0xfeu8] + le_bytes(n as nat, 4)
    } else {
        seq![0xffu8] + le_bytes(n as nat, 8)
    }
}

/// Appends the variable-length encoding of a length.
pub fn push_varint(out: &mut Vec<u8>, n: u64)
    ensures
        final(out)@ == old(out)@ + varint(n),
{
    if n < 0xfd {
        push_le(out, n, 1);
    } else if n <= 0xffff {
        out.push(0xfd);
        push_le(out, n, 2);
        assert(out@ =~= old(out)@ + varint(n));
    } else if n <= 0xffff_ffff {
        out.push(0xfe);
        push_le(out, n, 4);
        assert(out@ =~= old(out)@ + varint(n));
    } else {
        out.push(0xff);
        push_le(out, n, 8);
        assert(out@ =~= old(out)@ + varint(n));
    }
}

/// The parts one after the other.
pub open spec fn concat(parts: Seq<Seq<u8>>) -> Seq<u8>
    decreases parts.len(),
{
    if parts.len() == 0 {
        Seq::empty()
    } else {
        concat(parts.drop_last()) + parts.last()
    }
}

/// A byte string behind its length.
pub open spec fn prefixed(bytes: Seq<u8>) -> Seq<u8> {
    varint(bytes.len() as u64) + bytes
}

/// A transaction, by its canonical encoding.
#[derive(Clone, Debug, PartialEq, Eq)]
pub struct Transaction {
    pub payload: Vec<u8>,
}

impl View for Transaction {
    type V = Seq<u8>;

    open spec fn view(&self) -> Seq<u8> {
        self.payload@
    }
}

impl Transaction {
    /// A copy of the transaction.
    pub fn duplicate(&self) -> (copy: Transaction)
        ensures
            copy@ == self@,
    {
        Transaction { payload: copy_bytes(self.payload.as_slice()) }
    }

    /// The transaction's hash: the digest of its encoding.
    pub fn hash(&self) -> (d: Digest)
        ensures
            d@ == blake3_digest(self@),
    {
        blake3(self.payload.as_slice())
    }
}

/// The encodings of a list of transactions.
pub open spec fn tx_views(txs: Seq<Transaction>) -> Seq<Seq<u8>> {
    txs.map_values(|t: Transaction| t@)
}

/// The bytes of a list of digests.
pub open spec fn digest_views(digests: Seq<Digest>) -> Seq<Seq<u8>> {
    digests.map_values(|d: Digest| d@)
}

/// A copy of a list of transactions.
pub fn clone_txs(txs: &Vec<Transaction>) -> (copy: Vec<Transaction>)
    ensures
        tx_views(copy@) == tx_views(txs@),
{
    let mut copy: Vec<Transaction> = Vec::new();
    let mut i: usize = 0;
    while i < txs.len()
        invariant
            i <= txs.len(),
            copy@.len() == i,
            tx_views(copy@) == tx_views(txs@).take(i as int),
        decreases txs.len() - i,
    {
        let ghost before = copy@;
        copy.push(txs[i].duplicate());
        i += 1;
        proof {
            assert forall|j: int| 0 <= j < i implies tx_views(copy@)[j] == tx_views(txs@)[j] by {
                if j < i - 1 {
                    assert(copy@[j] == before[j]);
                    assert(tx_views(before)[j] == tx_views(txs@).take(i - 1)[j]);
                }
            }
            assert(tx_views(copy@) =~= tx_views(txs@).take(i as int));
        }
    }
    assert(tx_views(txs@).take(txs.len() as int) =~= tx_views(txs@));
    copy
}

/// The leaf that stands for a transaction in the tree of a block: its hash,
/// taken into the base field.
pub open spec fn transaction_leaf(tx: Seq<u8>) -> Seq<u8> {
    le_bytes(le_value(blake3_digest(tx)) % base_modulus(), 32)
}

/// The leaves that stand for a list of transactions.
pub open spec fn transaction_leaves(txs: Seq<Seq<u8>>) -> Seq<Seq<u8>> {
    txs.map_values(|tx: Seq<u8>| transaction_leaf(tx))
}

/// The root of the tree over the hashes of a block's transactions, where
/// the tree takes them all.
pub fn transactions_root(txs: &Vec<Transaction>) -> (r: Option<MerkleNode>)
    ensures
        r is Some <==> txs@.len() <= TREE_CAPACITY,
        r matches Some(root) ==> root@ == merkle_root(transaction_leaves(tx_views(txs@))),
{
    let ghost leaves = transaction_leaves(tx_views(txs@));
    let mut tree = MerkleAccumulator::new(100);
    let mut i: usize = 0;
    assert(leaves.take(0) =~= Seq::<Seq<u8>>::empty());
    while i < txs.len()
        invariant
            i <= txs@.len(),
            leaves == transaction_leaves(tx_views(txs@)),
            tree.wf(),
            tree.leaves() == leaves.take(i as int),
        decreases txs.len() - i,
    {
        let digest = txs[i].hash().to_bytes();
        let leaf = Base::from_wide(&digest);
        proof {
            leaf.lemma_repr();
            tree.lemma_within_capacity();
        }
        let node = MerkleNode::new(leaf);
        assert(leaves.take(i as int).push(node@) =~= leaves.take(i + 1));
        if !tree.append(&node) {
            return None;
        }
        i += 1;
    }
    proof {
        tree.lemma_within_capacity();
        assert(leaves.take(i as int) =~= leaves);
    }
    Some(tree.root())
}

/// What a block's metadata says.
pub struct MetadataView {
    pub address: Seq<u8>,
    pub payload: Seq<u8>,
}

impl MetadataView {
    /// The canonical encoding: the address and the payload, each behind its
    /// length.
    pub open spec fn encoding(self) -> Seq<u8> {
        prefixed(self.address) + prefixed(self.payload)
    }
}

/// What travels with a block without being part of what it commits to: the
/// proposer's address, and what proves the proposer's right.
#[derive(Clone, Debug, PartialEq, Eq)]
pub struct Metadata {
    /// Address of the proposer
    pub address: Vec<u8>,
    /// Signature and proofs, encoded
    pub payload: Vec<u8>,
}

impl View for Metadata {
    type V = MetadataView;

    open spec fn view(&self) -> MetadataView {
        MetadataView { address: self.address@, payload: self.payload@ }
    }
}

impl Metadata {
    /// A copy of the metadata.
    pub fn duplicate(&self) -> (copy: Metadata)
        ensures
            copy@ == self@,
    {
        Metadata {
            address: copy_bytes(self.address.as_slice()),
            payload: copy_bytes(self.payload.as_slice()),
        }
    }

    /// Appends the canonical encoding.
    pub fn encode_into(&self, out: &mut Vec<u8>)
        ensures
            final(out)@ == old(out)@ + self@.encoding(),
    {
        push_varint(out, self.address.len() as u64);
        append(out, self.address.as_slice());
        push_varint(out, self.payload.len() as u64);
        append(out, self.payload.as_slice());
        assert(out@ =~= old(out)@ + self@.encoding());
    }
}

impl Default for Metadata {
    /// Metadata that says nothing.
    fn default() -> (m: Metadata)
        ensures
            m@ == (MetadataView { address: Seq::empty(), payload: Seq::empty() }),
    {
        Metadata { address: Vec::new(), payload: Vec::new() }
    }
}

/// What a block says.
pub struct BlockView {
    pub magic: Seq<u8>,
    pub header: Seq<u8>,
    pub txs: Seq<Seq<u8>>,
    pub metadata: MetadataView,
}

impl BlockView {
    /// The canonical encoding: magic bytes, header hash, the transaction
    /// hashes behind their number, and the metadata.
    pub open spec fn encoding(self) -> Seq<u8> {
        self.magic + self.header + varint(self.txs.len() as u64) + concat(self.txs)
            + self.metadata.encoding()
    }

    /// The hash: the digest of the encoding.
    pub open spec fn hash(self) -> Seq<u8> {
        blake3_digest(self.encoding())
    }
}

/// A block in pointer form: the header and the transactions are held by
/// their hashes.
#[derive(Clone, Debug, PartialEq, Eq)]
pub struct Block {
    /// Block magic bytes
    pub magic: [u8; 4],
    /// Block header
    pub header: Digest,
    /// Transaction hashes
    pub txs: Vec<Digest>,
    /// Metadata
    pub metadata: Metadata,
}

impl View for Block {
    type V = BlockView;

    open spec fn view(&self) -> BlockView {
        BlockView {
            magic: self.magic@,
            header: self.header@,
            txs: digest_views(self.txs@),
            metadata: self.metadata@,
        }
    }
}

/// What a block in full form says.
pub struct BlockInfoView {
    pub magic: Seq<u8>,
    pub header: HeaderView,
    pub txs: Seq<Seq<u8>>,
    pub metadata: MetadataView,
}

impl BlockInfoView {
    /// The pointer form: the header and each transaction by its hash.
    pub open spec fn pointers(self) -> BlockView {
        BlockView {
            magic: self.magic,
            header: self.header.hash(),
            txs: self.txs.map_values(|t: Seq<u8>| blake3_digest(t)),
            metadata: self.metadata,
        }
    }

    /// The hash: that of the pointer form.
    pub open spec fn hash(self) -> Seq<u8> {
        self.pointers().hash()
    }
}

/// A block in full form.
#[derive(Clone, Debug, PartialEq, Eq)]
pub struct BlockInfo {
    /// BlockInfo magic bytes
    pub magic: [u8; 4],
    /// Block header data
    pub header: Header,
    /// Transactions payload
    pub txs: Vec<Transaction>,
    /// Metadata
    pub metadata: Metadata,
}

impl View for BlockInfo {
    type V = BlockInfoView;

    open spec fn view(&self) -> BlockInfoView {
        BlockInfoView {
            magic: self.magic@,
            header: self.header@,
            txs: tx_views(self.txs@),
            metadata: self.metadata@,
        }
    }
}

/// The hash of the header that these fields make.
pub open spec fn header_hash_of(
    previous: Seq<u8>,
    epoch: u64,
    slot: u64,
    timestamp: i64,
    root: Seq<u8>,
) -> Seq<u8> {
    (HeaderView { version: BLOCK_VERSION, previous, epoch, slot, timestamp, root }).hash()
}

impl Block {
    /// The name that messages of this kind travel under.
    pub fn name() -> (n: &'static str)
        ensures
            n@ == "block"@,
    {
        "block"
    }

    /// The block over a header of the given time.
    pub fn new_at(
        previous: Digest,
        epoch: u64,
        slot: u64,
        txs: Vec<Digest>,
        root: MerkleNode,
        metadata: Metadata,
        timestamp: Timestamp,
    ) -> (b: Block)
        ensures
            b.magic == BLOCK_MAGIC_BYTES,
            b.header@ == header_hash_of(previous@, epoch, slot, timestamp.0, root@),
            b.txs == txs,
            b.metadata == metadata,
    {
        let magic = BLOCK_MAGIC_BYTES;
        let header = Header::new(previous, epoch, slot, timestamp, root);
        let header = header.headerhash();
        Block { magic, header, txs, metadata }
    }

    /// The block over a header of the current time.
    pub fn new(
        previous: Digest,
        epoch: u64,
        slot: u64,
        txs: Vec<Digest>,
        root: MerkleNode,
        metadata: Metadata,
    ) -> (b: Block)
        ensures
            b.magic == BLOCK_MAGIC_BYTES,
            exists|timestamp: i64|
                b.header@ == #[trigger] header_hash_of(previous@, epoch, slot, timestamp, root@),
            b.txs == txs,
            b.metadata == metadata,
    {
        let timestamp = Timestamp::current_time();
        Block::new_at(previous, epoch, slot, txs, root, metadata, timestamp)
    }

    /// The genesis block: no transactions and empty metadata over the
    /// genesis header.
    pub fn genesis_block(genesis_ts: Timestamp, genesis_data: Digest) -> (b: Block)
        ensures
            b.magic == BLOCK_MAGIC_BYTES,
            b.header@ == header_hash_of(
                genesis_data@,
                0,
                0,
                genesis_ts.0,
                merkle_root(Seq::empty()),
            ),
            b.txs@.len() == 0,
            b.metadata@ == (MetadataView { address: Seq::empty(), payload: Seq::empty() }),
    {
        let magic = BLOCK_MAGIC_BYTES;
        let header = Header::genesis_header(genesis_ts, genesis_data);
        let header = header.headerhash();
        let metadata = Metadata::default();
        Block { magic, header, txs: Vec::new(), metadata }
    }

    /// What a block says is well formed.
    pub proof fn lemma_wf(self)
        requires
            self.txs@.len() <= u64::MAX,
            self.metadata@.wf(),
        ensures
            self@.wf(),
    {
        self.header.lemma_len();
        assert forall|i: int| 0 <= i < self@.txs.len() implies (#[trigger] self@.txs[i]).len()
            == 32 by {
            self.txs@[i].lemma_len();
        }
    }

    /// The canonical encoding.
    pub fn encode(&self) -> (bytes: Vec<u8>)
        ensures
            bytes@ == self@.encoding(),
            self@.wf(),
    {
        proof {
            let n = self.txs.len();
            let a = self.metadata.address.len();
            let p = self.metadata.payload.len();
            self.lemma_wf();
        }
        let mut bytes: Vec<u8> = Vec::new();
        append(&mut bytes, self.magic.as_slice());
        let header = self.header.to_bytes();
        append(&mut bytes, header.as_slice());
        push_varint(&mut bytes, self.txs.len() as u64);
        let ghost head = bytes@;
        assert(head =~= self.magic@ + self.header@ + varint(self.txs@.len() as u64));
        assert(digest_views(self.txs@).len() == self.txs@.len());
        let mut i: usize = 0;
        while i < self.txs.len()
            invariant
                i <= self.txs.len(),
                bytes@ == head + concat(digest_views(self.txs@).take(i as int)),
            decreases self.txs.len() - i,
        {
            let tx = self.txs[i].to_bytes();
            append(&mut bytes, tx.as_slice());
            proof {
                let now = digest_views(self.txs@).take(i + 1);
                assert(now.drop_last() =~= digest_views(self.txs@).take(i as int));
                assert(now.last() == self.txs@[i as int]@);
                assert(bytes@ =~= head + concat(now));
            }
            i += 1;
        }
        assert(digest_views(self.txs@).take(self.txs.len() as int) =~= digest_views(self.txs@));
        self.metadata.encode_into(&mut bytes);
        bytes
    }

    /// The block's hash: the digest of its encoding.
    pub fn blockhash(&self) -> (d: Digest)
        ensures
            d@ == self@.hash(),
    {
        let bytes = self.encode();
        blake3(bytes.as_slice())
    }

    /// The pointer form of a block in full form.
    pub fn from_info(info: &BlockInfo) -> (b: Block)
        ensures
            b@ == info@.pointers(),
    {
        let mut txs: Vec<Digest> = Vec::new();
        let mut i: usize = 0;
        while i < info.txs.len()
            invariant
                i <= info.txs.len(),
                txs@.len() == i,
                digest_views(txs@) == tx_views(info.txs@).take(i as int).map_values(
                    |t: Seq<u8>| blake3_digest(t),
                ),
            decreases info.txs.len() - i,
        {
            let ghost before = txs@;
            txs.push(info.txs[i].hash());
            i += 1;
            proof {
                let want = tx_views(info.txs@).take(i as int).map_values(
                    |t: Seq<u8>| blake3_digest(t),
                );
                let had = tx_views(info.txs@).take(i - 1).map_values(
                    |t: Seq<u8>| blake3_digest(t),
                );
                assert forall|j: int| 0 <= j < i implies digest_views(txs@)[j] == want[j] by {
                    if j < i - 1 {
                        assert(txs@[j] == before[j]);
                        assert(digest_views(before)[j] == had[j]);
                    }
                }
                assert(digest_views(txs@) =~= want);
            }
        }
        assert(tx_views(info.txs@).take(info.txs.len() as int) =~= tx_views(info.txs@));
        Block {
            magic: info.magic,
            header: info.header.headerhash(),
            txs,
            metadata: info.metadata.duplicate(),
        }
    }
}

impl From<BlockInfo> for Block {
    /// The pointer form of a block in full form.
    fn from(block_info: BlockInfo) -> (b: Block)
        ensures
            b@ == block_info@.pointers(),
    {
        Block::from_info(&block_info)
    }
}

impl vstd::std_specs::convert::FromSpecImpl<BlockInfo> for Block {
    /// The conversion is told by what the block says, not by a value: see
    /// `from`.
    open spec fn obeys_from_spec() -> bool {
        false
    }

    open spec fn from_spec(block_info: BlockInfo) -> Block {
        arbitrary()
    }
}

impl BlockInfo {
    /// The name that messages of this kind travel under.
    pub fn name() -> (n: &'static str)
        ensures
            n@ == "blockinfo"@,
    {
        "blockinfo"
    }

    /// The block of a header, transactions and metadata.
    pub open spec fn new_spec(
        header: Header,
        txs: Vec<Transaction>,
        metadata: Metadata,
    ) -> BlockInfo {
        BlockInfo { magic: BLOCK_MAGIC_BYTES, header, txs, metadata }
    }

    /// The block of a header, transactions and metadata.
    #[verifier::when_used_as_spec(new_spec)]
    pub fn new(header: Header, txs: Vec<Transaction>, metadata: Metadata) -> (b: BlockInfo)
        ensures
            b == (BlockInfo { magic: BLOCK_MAGIC_BYTES, header, txs, metadata }),
    {
        let magic = BLOCK_MAGIC_BYTES;
        BlockInfo { magic, header, txs, metadata }
    }

    /// The block's hash: that of its pointer form.
    pub fn blockhash(&self) -> (d: Digest)
        ensures
            d@ == self@.hash(),
    {
        let block = Block::from_info(self);
        block.blockhash()
    }

    /// A copy of the block.
    pub fn duplicate(&self) -> (copy: BlockInfo)
        ensures
            copy@ == self@,
    {
        BlockInfo {
            magic: self.magic,
            header: Header {
                version: self.header.version,
                previous: self.header.previous,
                epoch: self.header.epoch,
                slot: self.header.slot,
                timestamp: self.header.timestamp,
                root: self.header.root,
            },
            txs: clone_txs(&self.txs),
            metadata: self.metadata.duplicate(),
        }
    }
}

impl Default for BlockInfo {
    /// A block without transactions over the default header.
    fn default() -> (b: BlockInfo)
        ensures
            b.magic == BLOCK_MAGIC_BYTES,
            b.header.version == BLOCK_VERSION,
            b.header.previous@ == blake3_digest(Seq::empty()),
            b.header.epoch == 0,
            b.header.slot == 0,
            b.header.root@ == le_bytes(0, 32),
            b.txs@.len() == 0,
            b.metadata@ == (MetadataView { address: Seq::empty(), payload: Seq::empty() }),
    {
        let magic = BLOCK_MAGIC_BYTES;
        BlockInfo {
            magic,
            header: Header::default(),
            txs: Vec::new(),
            metadata: Metadata::default(),
        }
    }
}

/// Where a block stands, for nodes that sync.
#[derive(Clone, Copy, Debug, PartialEq, Eq)]
pub struct BlockOrder {
    /// Slot
    pub slot: u64,
    /// Header hash of the block of that slot
    pub block: Digest,
}

impl BlockOrder {
    /// The name that messages of this kind travel under.
    pub fn name() -> (n: &'static str)
        ensures
            n@ == "blockorder"@,
    {
        "blockorder"
    }
}

/// Blocks in answer to a node that syncs.
#[derive(Clone, Debug, PartialEq, Eq)]
pub struct BlockResponse {
    /// Response blocks.
    pub blocks: Vec<BlockInfo>,
}

impl BlockResponse {
    /// The name that messages of this kind travel under.
    pub fn name() -> (n: &'static str)
        ensures
            n@ == "blockresponse"@,
    {
        "blockresponse"
    }
}

/// The bytes that a variable-length integer takes, told from its first.
pub open spec fn varint_size(first: u8) -> nat {
    if first < 0xfd {
        1
    } else if first == 0xfd {
        3
    } else if first == 0xfe {
        5
    } else {
        9
    }
}

/// The length that stands at the start of `bytes`.
pub open spec fn varint_value(bytes: Seq<u8>) -> nat {
    if bytes[0] < 0xfd {
        bytes[0] as nat
    } else {
        le_value(bytes.subrange(1, varint_size(bytes[0]) as int))
    }
}

/// A length can be read back from the start of what begins with its
/// encoding.
pub proof fn lemma_varint_reads_back(n: u64, rest: Seq<u8>)
    ensures
        varint(n).len() == varint_size((varint(n) + rest)[0]),
        varint_value(varint(n) + rest) == n,
{
    let bytes = varint(n) + rest;
    reveal_with_fuel(pow256, 5);
    lemma_pow256_values();
    if n < 0xfd {
        lemma_le_value_of_bytes(n as nat, 1);
        let one = le_bytes(n as nat, 1);
        assert(one.drop_first().len() == 0);
        assert(le_value(one) == one[0] as nat + 256 * le_value(one.drop_first()));
        assert(bytes[0] == one[0]);
    } else if n <= 0xffff {
        lemma_le_value_of_bytes(n as nat, 2);
        assert(bytes[0] == 0xfd);
        assert(bytes.subrange(1, 3) =~= le_bytes(n as nat, 2));
    } else if n <= 0xffff_ffff {
        lemma_le_value_of_bytes(n as nat, 4);
        assert(bytes[0] == 0xfe);
        assert(bytes.subrange(1, 5) =~= le_bytes(n as nat, 4));
    } else {
        lemma_le_value_of_bytes(n as nat, 8);
        assert(bytes[0] == 0xff);
        assert(bytes.subrange(1, 9) =~= le_bytes(n as nat, 8));
    }
}

/// Two lengths whose encodings begin the same bytes are the same, and so is
/// what follows them.
pub proof fn lemma_varint_prefix(a: u64, rest_a: Seq<u8>, b: u64, rest_b: Seq<u8>)
    requires
        varint(a) + rest_a == varint(b) + rest_b,
    ensures
        a == b,
        rest_a == rest_b,
{
    lemma_varint_reads_back(a, rest_a);
    lemma_varint_reads_back(b, rest_b);
    let bytes = varint(a) + rest_a;
    assert(rest_a =~= bytes.skip(varint(a).len() as int));
    assert(rest_b =~= bytes.skip(varint(b).len() as int));
}

/// Parts of 32 bytes each stand one after the other at multiples of 32.
pub proof fn lemma_concat_items(parts: Seq<Seq<u8>>)
    requires
        forall|i: int| 0 <= i < parts.len() ==> (#[trigger] parts[i]).len() == 32,
    ensures
        concat(parts).len() == 32 * parts.len(),
        forall|i: int|
            0 <= i < parts.len() ==> concat(parts).subrange(32 * i, 32 * i + 32)
                == #[trigger] parts[i],
    decreases parts.len(),
{
    if parts.len() > 0 {
        let front = parts.drop_last();
        lemma_concat_items(front);
        let all = concat(parts);
        assert(all == concat(front) + parts.last());
        assert forall|i: int| 0 <= i < parts.len() implies all.subrange(32 * i, 32 * i + 32)
            == #[trigger] parts[i] by {
            if i < front.len() {
                assert(front[i] == parts[i]);
                assert(all.subrange(32 * i, 32 * i + 32) =~= concat(front).subrange(
                    32 * i,
                    32 * i + 32,
                ));
            } else {
                assert(all.subrange(32 * i, 32 * i + 32) =~= parts.last());
            }
        }
    }
}

/// Lists of as many parts of 32 bytes each that begin the same bytes are
/// the same, and so is what follows them.
pub proof fn lemma_concat_prefix(
    a: Seq<Seq<u8>>,
    rest_a: Seq<u8>,
    b: Seq<Seq<u8>>,
    rest_b: Seq<u8>,
)
    requires
        a.len() == b.len(),
        forall|i: int| 0 <= i < a.len() ==> (#[trigger] a[i]).len() == 32,
        forall|i: int| 0 <= i < b.len() ==> (#[trigger] b[i]).len() == 32,
        concat(a) + rest_a == concat(b) + rest_b,
    ensures
        a == b,
        rest_a == rest_b,
{
    lemma_concat_items(a);
    lemma_concat_items(b);
    let bytes = concat(a) + rest_a;
    assert forall|i: int| 0 <= i < a.len() implies a[i] == b[i] by {
        assert(bytes.subrange(32 * i, 32 * i + 32) =~= concat(a).subrange(32 * i, 32 * i + 32));
        assert(bytes.subrange(32 * i, 32 * i + 32) =~= concat(b).subrange(32 * i, 32 * i + 32));
    }
    assert(a =~= b);
    assert(rest_a =~= bytes.skip(concat(a).len() as int));
    assert(rest_b =~= bytes.skip(concat(b).len() as int));
}

/// Byte strings behind their lengths that begin the same bytes are the
/// same, and so is what follows them.
pub proof fn lemma_prefixed_prefix(a: Seq<u8>, rest_a: Seq<u8>, b: Seq<u8>, rest_b: Seq<u8>)
    requires
        a.len() <= u64::MAX,
        b.len() <= u64::MAX,
        prefixed(a) + rest_a == prefixed(b) + rest_b,
    ensures
        a == b,
        rest_a == rest_b,
{
    let tail_a = a + rest_a;
    let tail_b = b + rest_b;
    assert(prefixed(a) + rest_a =~= varint(a.len() as u64) + tail_a);
    assert(prefixed(b) + rest_b =~= varint(b.len() as u64) + tail_b);
    lemma_varint_prefix(a.len() as u64, tail_a, b.len() as u64, tail_b);
    assert(a =~= tail_a.take(a.len() as int));
    assert(b =~= tail_b.take(b.len() as int));
    assert(rest_a =~= tail_a.skip(a.len() as int));
    assert(rest_b =~= tail_b.skip(b.len() as int));
}

impl MetadataView {
    /// The lengths fit into 64 bits.
    pub open spec fn wf(self) -> bool {
        &&& self.address.len() <= u64::MAX
        &&& self.payload.len() <= u64::MAX
    }
}

impl BlockView {
    /// The magic has 4 bytes and each hash 32, and the lengths fit into 64
    /// bits.
    pub open spec fn wf(self) -> bool {
        &&& self.magic.len() == 4
        &&& self.header.len() == 32
        &&& self.txs.len() <= u64::MAX
        &&& forall|i: int| 0 <= i < self.txs.len() ==> (#[trigger] self.txs[i]).len() == 32
        &&& self.metadata.wf()
    }
}

/// Metadata with the same encoding are the same.
pub proof fn lemma_metadata_encoding_injective(a: MetadataView, b: MetadataView)
    requires
        a.wf(),
        b.wf(),
        a.encoding() == b.encoding(),
    ensures
        a == b,
{
    lemma_prefixed_prefix(a.address, prefixed(a.payload), b.address, prefixed(b.payload));
    assert(prefixed(a.payload) =~= prefixed(a.payload) + Seq::<u8>::empty());
    assert(prefixed(b.payload) =~= prefixed(b.payload) + Seq::<u8>::empty());
    lemma_prefixed_prefix(a.payload, Seq::empty(), b.payload, Seq::empty());
}

/// Blocks with the same encoding are the same, so that blocks that differ
/// in any field are hashed from different bytes.
pub proof fn lemma_block_encoding_injective(a: BlockView, b: BlockView)
    requires
        a.wf(),
        b.wf(),
        a.encoding() == b.encoding(),
    ensures
        a == b,
{
    let bytes = a.encoding();
    let body_a = concat(a.txs) + a.metadata.encoding();
    let body_b = concat(b.txs) + b.metadata.encoding();
    let counted_a = varint(a.txs.len() as u64) + body_a;
    let counted_b = varint(b.txs.len() as u64) + body_b;
    assert(bytes =~= a.magic + a.header + counted_a);
    assert(bytes =~= b.magic + b.header + counted_b);
    assert(a.magic =~= bytes.subrange(0, 4));
    assert(b.magic =~= bytes.subrange(0, 4));
    assert(a.header =~= bytes.subrange(4, 36));
    assert(b.header =~= bytes.subrange(4, 36));
    assert(counted_a =~= bytes.skip(36));
    assert(counted_b =~= bytes.skip(36));
    lemma_varint_prefix(a.txs.len() as u64, body_a, b.txs.len() as u64, body_b);
    lemma_concat_prefix(a.txs, a.metadata.encoding(), b.txs, b.metadata.encoding());
    lemma_metadata_encoding_injective(a.metadata, b.metadata);
}

} // verus!
