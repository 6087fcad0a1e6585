use crypsinous::block::{BlockInfo, Header, Metadata, Timestamp, Transaction};
use crypsinous::field::Base;
use crypsinous::hash::{blake3, Digest};
use crypsinous::merkle::MerkleNode;
use crypsinous::proposal::{BlockProposal, LinkError, ProposalChain};

fn genesis() -> Digest {
    blake3(b"genesis")
}

fn proposal(previous: Digest, slot: u64) -> BlockProposal {
    let header = Header::new(
        previous,
        0,
        slot,
        Timestamp(1000 + slot as i64),
        MerkleNode::new(Base::from_u64(slot)),
    );
    BlockProposal::new(header, vec![Transaction { payload: vec![slot as u8] }], Metadata::default())
}

fn follower(previous: &BlockProposal, slot: u64) -> BlockProposal {
    proposal(previous.block.header.headerhash(), slot)
}

fn linked_chain(n: usize) -> ProposalChain {
    let first = proposal(blake3(b"before"), 1);
    let mut chain = ProposalChain::new(genesis(), first);
    for i in 1..n {
        let next = follower(chain.proposals.last().unwrap(), 1 + 2 * i as u64);
        chain.add(&next);
    }
    chain
}

#[test]
fn new_chain_holds_its_first_proposal() {
    let first = proposal(blake3(b"before"), 1);
    let chain = ProposalChain::new(genesis(), first.clone());
    assert_eq!(chain.genesis_block, genesis());
    assert_eq!(chain.proposals.len(), 1);
    assert!(chain.proposals[0] == first);
    assert!(chain.check_chain());
}

#[test]
fn add_appends_a_linked_proposal_of_a_later_slot() {
    let mut chain = linked_chain(1);
    let next = follower(&chain.proposals[0], 2);
    chain.add(&next);
    assert_eq!(chain.proposals.len(), 2);
    assert!(chain.proposals[1] == next);
    assert_eq!(chain.proposals[1].block.metadata, next.block.metadata);
    assert!(chain.check_chain());
}

#[test]
fn add_leaves_the_chain_on_a_wrong_parent() {
    let mut chain = linked_chain(3);
    let before = chain.clone();
    let stranger = proposal(blake3(b"stranger"), 100);
    chain.add(&stranger);
    assert_eq!(chain.proposals.len(), 3);
    assert!(chain == before);
    // the parent must be the last proposal, not just one of the chain
    let fork = follower(&before.proposals[0], 100);
    chain.add(&fork);
    assert_eq!(chain.proposals.len(), 3);
    assert!(chain == before);
}

#[test]
fn add_leaves_the_chain_on_a_slot_that_is_not_later() {
    let mut chain = linked_chain(3);
    let last_slot = chain.proposals[2].block.header.slot;
    let same_slot = follower(&chain.proposals[2], last_slot);
    chain.add(&same_slot);
    assert_eq!(chain.proposals.len(), 3);
    let earlier = follower(&chain.proposals[2], last_slot - 1);
    chain.add(&earlier);
    assert_eq!(chain.proposals.len(), 3);
    let later = follower(&chain.proposals[2], last_slot + 1);
    chain.add(&later);
    assert_eq!(chain.proposals.len(), 4);
}

#[test]
fn genesis_is_never_a_parent() {
    // a chain whose last header hashes to what the chain takes for genesis
    let first = proposal(blake3(b"before"), 1);
    let as_genesis = first.block.header.headerhash();
    let mut chain = ProposalChain::new(as_genesis, first.clone());
    let next = follower(&first, 2);
    assert!(!chain.check_proposal(&next, &first));
    assert_eq!(chain.check_link(&next, &first), Err(LinkError::GenesisParent));
    chain.add(&next);
    assert_eq!(chain.proposals.len(), 1);
    assert_eq!(chain.try_add(&next), Err(LinkError::GenesisParent));
    assert_eq!(chain.proposals.len(), 1);
}

#[test]
fn check_proposal_tells_why() {
    let chain = linked_chain(1);
    let first = chain.proposals[0].clone();
    let good = follower(&first, 2);
    assert!(chain.check_proposal(&good, &first));
    assert_eq!(chain.check_link(&good, &first), Ok(()));

    let stranger = proposal(blake3(b"stranger"), 2);
    assert!(!chain.check_proposal(&stranger, &first));
    assert_eq!(chain.check_link(&stranger, &first), Err(LinkError::ParentMismatch));

    let same_slot = follower(&first, 1);
    assert!(!chain.check_proposal(&same_slot, &first));
    assert_eq!(chain.check_link(&same_slot, &first), Err(LinkError::SlotNotLater));

    let from_genesis = proposal(genesis(), 2);
    assert!(!chain.check_proposal(&from_genesis, &first));
    assert_eq!(chain.check_link(&from_genesis, &first), Err(LinkError::GenesisParent));
}

#[test]
fn try_add_tells_what_add_does() {
    let mut chain = linked_chain(2);
    let last = chain.proposals[1].clone();
    assert_eq!(chain.try_add(&proposal(blake3(b"stranger"), 50)), Err(LinkError::ParentMismatch));
    assert_eq!(chain.proposals.len(), 2);
    assert_eq!(chain.try_add(&follower(&last, 0)), Err(LinkError::SlotNotLater));
    assert_eq!(chain.proposals.len(), 2);
    assert_eq!(chain.try_add(&follower(&last, 50)), Ok(()));
    assert_eq!(chain.proposals.len(), 3);
}

#[test]
fn linked_chain_is_valid() {
    for n in 1..6 {
        let chain = linked_chain(n);
        assert_eq!(chain.proposals.len(), n);
        assert!(chain.check_chain());
    }
}

#[test]
fn chain_with_a_slot_that_does_not_grow_is_not_valid() {
    for broken in 1..5 {
        let mut chain = linked_chain(5);
        let before = chain.proposals[broken - 1].block.header.slot;
        chain.proposals[broken].block.header.slot = before;
        assert!(!chain.check_chain());
        chain.proposals[broken].block.header.slot = before - 1;
        assert!(!chain.check_chain());
    }
}

#[test]
fn chain_with_a_changed_header_is_not_valid() {
    let mut chain = linked_chain(4);
    chain.proposals[1].block.header.timestamp = Timestamp(0);
    assert!(!chain.check_chain());
    let mut chain = linked_chain(4);
    chain.proposals[3].block.header.previous = blake3(b"stranger");
    assert!(!chain.check_chain());
    // the first proposal is bound to nothing before it
    let mut chain = linked_chain(1);
    chain.proposals[0].block.header.previous = genesis();
    assert!(chain.check_chain());
    let empty = ProposalChain { genesis_block: genesis(), proposals: vec![] };
    assert!(empty.check_chain());
}

#[test]
fn proposals_are_equal_by_header_and_transactions() {
    let a = proposal(blake3(b"p"), 3);
    let mut b = a.clone();
    b.block.metadata = Metadata { address: vec![1, 2], payload: vec![3] };
    assert!(a == b);
    b.block.magic = [0, 0, 0, 0];
    assert!(a == b);
    let mut c = a.clone();
    c.block.header.slot = 4;
    assert!(a != c);
    let mut d = a.clone();
    d.block.txs.push(Transaction { payload: vec![] });
    assert!(a != d);
    let mut e = a.clone();
    e.block.txs[0].payload = vec![9];
    assert!(a != e);
    assert!(a.duplicate() == a);
    assert_eq!(a.duplicate().block.metadata, a.block.metadata);
}

#[test]
fn proposal_wraps_a_block() {
    let header =
        Header::new(blake3(b"p"), 1, 2, Timestamp(3), MerkleNode::new(Base::from_u64(4)));
    let txs = vec![Transaction { payload: vec![1] }];
    let metadata = Metadata { address: vec![2], payload: vec![] };
    let p = BlockProposal::new(header.clone(), txs.clone(), metadata.clone());
    assert_eq!(p.block, BlockInfo::new(header, txs, metadata));
    assert_eq!(BlockProposal::name(), "proposal");
    let info: BlockInfo = p.clone().into();
    assert_eq!(info, p.block);
}
