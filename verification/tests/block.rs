use crypsinous::block::{
    push_varint, transactions_root, Block, BlockInfo, BlockOrder, BlockResponse, Header, Metadata,
    Timestamp, Transaction, BLOCK_MAGIC_BYTES, BLOCK_VERSION, HEADER_SIZE,
};
use crypsinous::field::Base;
use crypsinous::hash::{blake3, Digest};
use crypsinous::merkle::{join, MerkleAccumulator, MerkleNode, EMPTY_ROOTS};

fn sample_header() -> Header {
    Header::new(
        blake3(b"parent"),
        2,
        0x0102030405060708,
        Timestamp(-2),
        MerkleNode::new(Base::from_u64(0x0a0b)),
    )
}

fn varint(n: u64) -> Vec<u8> {
    let mut out = vec![];
    push_varint(&mut out, n);
    out
}

#[test]
fn header_encoding_is_fixed() {
    let header = sample_header();
    let bytes = header.encode();
    assert_eq!(bytes.len(), HEADER_SIZE);
    assert_eq!(bytes.len(), 89);
    assert_eq!(bytes[0], BLOCK_VERSION);
    assert_eq!(bytes[0], 1);
    assert_eq!(&bytes[1..33], &blake3(b"parent").to_bytes());
    assert_eq!(&bytes[33..41], &[2, 0, 0, 0, 0, 0, 0, 0]);
    assert_eq!(&bytes[41..49], &[8, 7, 6, 5, 4, 3, 2, 1]);
    assert_eq!(&bytes[49..57], &[0xfe, 0xff, 0xff, 0xff, 0xff, 0xff, 0xff, 0xff]);
    let mut root = [0u8; 32];
    root[0] = 0x0b;
    root[1] = 0x0a;
    assert_eq!(&bytes[57..89], &root);
}

#[test]
fn header_round_trip() {
    let header = sample_header();
    let decoded = Header::decode(&header.encode()).unwrap();
    assert_eq!(decoded, header);
    assert_eq!(decoded.version, header.version);
    assert_eq!(decoded.previous, header.previous);
    assert_eq!(decoded.epoch, header.epoch);
    assert_eq!(decoded.slot, header.slot);
    assert_eq!(decoded.timestamp, header.timestamp);
    assert_eq!(decoded.root, header.root);
    assert!(decoded.same(&header));
    assert_eq!(decoded.encode(), header.encode());

    let extreme = Header {
        version: 255,
        previous: Digest::new([0xff; 32]),
        epoch: u64::MAX,
        slot: u64::MAX,
        timestamp: Timestamp(i64::MIN),
        root: MerkleNode::new(Base::from_u64(1).negated()),
    };
    assert_eq!(Header::decode(&extreme.encode()), Some(extreme));
}

#[test]
fn header_decoding_refuses_what_is_no_header() {
    let bytes = sample_header().encode();
    assert!(Header::decode(&bytes[..88]).is_none());
    assert!(Header::decode(&[]).is_none());
    let mut longer = bytes.clone();
    longer.push(0);
    assert!(Header::decode(&longer).is_none());
    // a root that spells no field element
    let mut off = bytes.clone();
    for byte in off.iter_mut().skip(57) {
        *byte = 0xff;
    }
    assert!(Header::decode(&off).is_none());
}

#[test]
fn header_hash_changes_with_every_field() {
    let header = sample_header();
    let hash = header.headerhash();
    assert_eq!(hash, sample_header().headerhash());
    assert_eq!(hash, blake3(&header.encode()));

    let mut other = sample_header();
    other.version = 2;
    assert_ne!(other.headerhash(), hash);
    let mut other = sample_header();
    other.previous = blake3(b"stranger");
    assert_ne!(other.headerhash(), hash);
    let mut other = sample_header();
    other.epoch = 3;
    assert_ne!(other.headerhash(), hash);
    let mut other = sample_header();
    other.slot += 1;
    assert_ne!(other.headerhash(), hash);
    let mut other = sample_header();
    other.timestamp = Timestamp(-1);
    assert_ne!(other.headerhash(), hash);
    assert_ne!(other.encode(), header.encode());
    assert!(!other.same(&header));
    let mut other = sample_header();
    other.root = MerkleNode::new(Base::from_u64(0x0a0c));
    assert_ne!(other.headerhash(), hash);
}

#[test]
fn genesis_header_stands_on_the_empty_tree() {
    let data = blake3(b"genesis");
    let header = Header::genesis_header(Timestamp(1650887115), data);
    assert_eq!(header.version, BLOCK_VERSION);
    assert_eq!(header.previous, data);
    assert_eq!(header.epoch, 0);
    assert_eq!(header.slot, 0);
    assert_eq!(header.timestamp, Timestamp(1650887115));
    assert_eq!(header.root.inner().to_repr(), EMPTY_ROOTS[32]);
}

#[test]
fn default_header_is_of_now_over_nothing() {
    let header = Header::default();
    assert_eq!(header.version, BLOCK_VERSION);
    assert_eq!(header.previous, blake3(b""));
    assert_eq!(header.epoch, 0);
    assert_eq!(header.slot, 0);
    assert_eq!(header.root, MerkleNode::new(Base::from_u64(0)));
    assert!(header.timestamp.0 > 1_600_000_000);
    assert!(Timestamp::current_time().0 >= header.timestamp.0);
}

#[test]
fn lengths_are_encoded_in_the_fewest_bytes() {
    assert_eq!(varint(0), vec![0]);
    assert_eq!(varint(0xfc), vec![0xfc]);
    assert_eq!(varint(0xfd), vec![0xfd, 0xfd, 0x00]);
    assert_eq!(varint(0xffff), vec![0xfd, 0xff, 0xff]);
    assert_eq!(varint(0x10000), vec![0xfe, 0x00, 0x00, 0x01, 0x00]);
    assert_eq!(varint(0xffff_ffff), vec![0xfe, 0xff, 0xff, 0xff, 0xff]);
    assert_eq!(varint(0x1_0000_0000), vec![0xff, 0, 0, 0, 0, 1, 0, 0, 0]);
    assert_eq!(varint(u64::MAX), vec![0xff; 9]);
    let mut out = vec![9u8];
    push_varint(&mut out, 5);
    assert_eq!(out, vec![9, 5]);
}

#[test]
fn block_encoding_is_fixed() {
    let metadata = Metadata { address: vec![1, 2, 3], payload: vec![9; 2] };
    let txs = vec![blake3(b"a"), blake3(b"b")];
    let block = Block::new_at(
        blake3(b"parent"),
        2,
        7,
        txs.clone(),
        MerkleNode::new(Base::from_u64(5)),
        metadata,
        Timestamp(100),
    );
    assert_eq!(block.magic, BLOCK_MAGIC_BYTES);
    assert_eq!(block.magic, [0x11, 0x6d, 0x75, 0x1f]);
    let header = Header::new(
        blake3(b"parent"),
        2,
        7,
        Timestamp(100),
        MerkleNode::new(Base::from_u64(5)),
    );
    assert_eq!(block.header, header.headerhash());
    assert_eq!(block.txs, txs);

    let mut expected = vec![0x11, 0x6d, 0x75, 0x1f];
    expected.extend_from_slice(&header.headerhash().to_bytes());
    expected.push(2);
    expected.extend_from_slice(&blake3(b"a").to_bytes());
    expected.extend_from_slice(&blake3(b"b").to_bytes());
    expected.extend_from_slice(&[3, 1, 2, 3]);
    expected.extend_from_slice(&[2, 9, 9]);
    assert_eq!(block.encode(), expected);
    assert_eq!(block.blockhash(), blake3(&expected));
}

#[test]
fn block_with_many_transactions() {
    let txs: Vec<Digest> = (0..253u32).map(|i| blake3(&i.to_le_bytes())).collect();
    let block = Block {
        magic: BLOCK_MAGIC_BYTES,
        header: blake3(b"h"),
        txs,
        metadata: Metadata::default(),
    };
    let bytes = block.encode();
    assert_eq!(bytes.len(), 4 + 32 + 3 + 253 * 32 + 2);
    assert_eq!(&bytes[36..39], &[0xfd, 0xfd, 0x00]);
    assert_eq!(&bytes[bytes.len() - 2..], &[0, 0]);
}

#[test]
fn block_hash_changes_with_every_field() {
    let block = Block {
        magic: BLOCK_MAGIC_BYTES,
        header: blake3(b"h"),
        txs: vec![blake3(b"a"), blake3(b"b")],
        metadata: Metadata { address: vec![1], payload: vec![2] },
    };
    let hash = block.blockhash();
    assert_eq!(hash, block.clone().blockhash());

    let mut other = block.clone();
    other.magic = [0, 0, 0, 0];
    assert_ne!(other.blockhash(), hash);
    let mut other = block.clone();
    other.header = blake3(b"g");
    assert_ne!(other.blockhash(), hash);
    let mut other = block.clone();
    other.txs.pop();
    assert_ne!(other.blockhash(), hash);
    let mut other = block.clone();
    other.txs.swap(0, 1);
    assert_ne!(other.blockhash(), hash);
    let mut other = block.clone();
    other.metadata.address = vec![7];
    assert_ne!(other.blockhash(), hash);
    let mut other = block.clone();
    other.metadata.payload = vec![];
    assert_ne!(other.blockhash(), hash);
    // what moves from one list to the other still changes the bytes
    let mut other = block.clone();
    other.metadata = Metadata { address: vec![], payload: vec![1, 2] };
    assert_ne!(other.encode(), block.encode());
}

#[test]
fn block_of_the_current_time() {
    let before = Timestamp::current_time();
    let block = Block::new(
        blake3(b"parent"),
        2,
        7,
        vec![blake3(b"a")],
        MerkleNode::new(Base::from_u64(5)),
        Metadata::default(),
    );
    let after = Timestamp::current_time();
    assert_eq!(block.magic, BLOCK_MAGIC_BYTES);
    assert_eq!(block.txs, vec![blake3(b"a")]);
    assert_eq!(block.metadata, Metadata::default());
    let mut found = false;
    for seconds in before.0..=after.0 {
        let header = Header::new(
            blake3(b"parent"),
            2,
            7,
            Timestamp(seconds),
            MerkleNode::new(Base::from_u64(5)),
        );
        found = found || header.headerhash() == block.header;
    }
    assert!(found);
}

#[test]
fn genesis_block_is_empty() {
    let data = blake3(b"genesis");
    let block = Block::genesis_block(Timestamp(5), data);
    assert_eq!(block.magic, BLOCK_MAGIC_BYTES);
    assert_eq!(block.header, Header::genesis_header(Timestamp(5), data).headerhash());
    assert!(block.txs.is_empty());
    assert_eq!(block.metadata, Metadata::default());
    assert!(block.metadata.address.is_empty());
    assert!(block.metadata.payload.is_empty());
}

#[test]
fn full_block_is_pointed_to_by_hashes() {
    let txs = vec![
        Transaction { payload: vec![1, 2, 3] },
        Transaction { payload: vec![] },
        Transaction { payload: vec![4] },
    ];
    let metadata = Metadata { address: vec![5], payload: vec![6, 7] };
    let info = BlockInfo::new(sample_header(), txs.clone(), metadata.clone());
    assert_eq!(info.magic, BLOCK_MAGIC_BYTES);
    assert_eq!(info.header, sample_header());
    assert_eq!(info.txs, txs);
    assert_eq!(info.metadata, metadata);

    let block = Block::from(info.clone());
    assert_eq!(block.magic, BLOCK_MAGIC_BYTES);
    assert_eq!(block.header, sample_header().headerhash());
    assert_eq!(block.txs, vec![blake3(&[1, 2, 3]), blake3(&[]), blake3(&[4])]);
    assert_eq!(block.metadata, metadata);
    assert_eq!(Block::from_info(&info), block);
    assert_eq!(info.blockhash(), block.blockhash());
    assert_eq!(txs[0].hash(), blake3(&[1, 2, 3]));
    assert_eq!(info.duplicate(), info);

    let mut other = info.clone();
    other.header.timestamp = Timestamp(0);
    assert_ne!(other.blockhash(), info.blockhash());
    let mut other = info.clone();
    other.txs[2].payload = vec![5];
    assert_ne!(other.blockhash(), info.blockhash());
}

#[test]
fn default_block_is_empty() {
    let info = BlockInfo::default();
    assert_eq!(info.magic, BLOCK_MAGIC_BYTES);
    assert_eq!(info.header.version, BLOCK_VERSION);
    assert_eq!(info.header.previous, blake3(b""));
    assert_eq!(info.header.epoch, 0);
    assert_eq!(info.header.slot, 0);
    assert!(info.txs.is_empty());
    assert_eq!(info.metadata, Metadata::default());
}

#[test]
fn messages_have_their_names() {
    assert_eq!(Block::name(), "block");
    assert_eq!(BlockInfo::name(), "blockinfo");
    assert_eq!(BlockOrder::name(), "blockorder");
    assert_eq!(BlockResponse::name(), "blockresponse");
    let order = BlockOrder { slot: 3, block: blake3(b"x") };
    assert_eq!(order.slot, 3);
    let response = BlockResponse { blocks: vec![BlockInfo::default()] };
    assert_eq!(response.blocks.len(), 1);
}

#[test]
fn transactions_hang_on_one_root() {
    assert_eq!(transactions_root(&vec![]).unwrap().inner().to_repr(), EMPTY_ROOTS[32]);
    let txs = vec![Transaction { payload: vec![1, 2, 3] }, Transaction { payload: vec![4] }];
    let root = transactions_root(&txs).unwrap();
    let mut tree = MerkleAccumulator::new(100);
    let mut leaves = vec![];
    for tx in &txs {
        let leaf = MerkleNode::new(Base::from_wide(&tx.hash().to_bytes()));
        leaves.push(leaf);
        assert!(tree.append(&leaf));
    }
    assert_eq!(root, tree.root());
    // two leaves at the bottom, empty subtrees above them
    let mut expected = join(0, &leaves[0], &leaves[1]);
    for level in 1..32u8 {
        let empty = MerkleNode::new(Base::from_repr(EMPTY_ROOTS[level as usize]).unwrap());
        expected = join(level, &expected, &empty);
    }
    assert_eq!(root, expected);
    let other = vec![Transaction { payload: vec![1, 2, 3] }, Transaction { payload: vec![5] }];
    assert_ne!(transactions_root(&other).unwrap(), root);
    let swapped = vec![Transaction { payload: vec![4] }, Transaction { payload: vec![1, 2, 3] }];
    assert_ne!(transactions_root(&swapped).unwrap(), root);
}
