//! Block proposals and the chains that they form.
//!
//! A proposal extends a chain where it names the hash of the chain's last
//! header as its parent and stands in a later slot. A proposal that names
//! the genesis block as its parent extends no chain.

use crate::block::{
    tx_views, BlockInfo, BlockInfoView, Header, HeaderView, Metadata, Transaction,
};
use crate::bytes::bytes_equal;
use crate::hash::Digest;
use vstd::prelude::*;

verus! {

/// A block proposal, used for consensus.
#[derive(Clone, Debug)]
pub struct BlockProposal {
    /// Block data
    pub block: BlockInfo,
}

impl View for BlockProposal {
    type V = BlockInfoView;

    open spec fn view(&self) -> BlockInfoView {
        self.block@
    }
}

/// Tells whether two lists of transactions are the same.
pub fn same_txs(a: &Vec<Transaction>, b: &Vec<Transaction>) -> (same: bool)
    ensures
        same == (tx_views(a@) == tx_views(b@)),
{
    if a.len() != b.len() {
        assert(tx_views(a@).len() != tx_views(b@).len());
        return false;
    }
    let mut i: usize = 0;
    while i < a.len()
        invariant
            i <= a.len(),
            a@.len() == b@.len(),
            forall|j: int| 0 <= j < i ==> a@[j]@ == b@[j]@,
        decreases a.len() - i,
    {
        if !bytes_equal(a[i].payload.as_slice(), b[i].payload.as_slice()) {
            assert(tx_views(a@)[i as int] != tx_views(b@)[i as int]);
            return false;
        }
        i += 1;
    }
    assert(tx_views(a@) =~= tx_views(b@));
    true
}

impl BlockProposal {
    /// The name that messages of this kind travel under.
    pub fn name() -> (n: &'static str)
        ensures
            n@ == "proposal"@,
    {
        "proposal"
    }

    /// The proposal of a block of these parts.
    pub fn new(header: Header, txs: Vec<Transaction>, metadata: Metadata) -> (p: BlockProposal)
        ensures
            p.block == BlockInfo::new_spec(header, txs, metadata),
    {
        let block = BlockInfo::new(header, txs, metadata);
        BlockProposal { block }
    }

    /// A copy of the proposal.
    pub fn duplicate(&self) -> (copy: BlockProposal)
        ensures
            copy@ == self@,
    {
        BlockProposal { block: self.block.duplicate() }
    }
}

impl PartialEq for BlockProposal {
    /// Proposals are equal where their headers and their transactions are:
    /// the metadata does not count.
    fn eq(&self, other: &Self) -> (r: bool) {
        self.block.header.same(&other.block.header) && same_txs(&self.block.txs, &other.block.txs)
    }
}

impl vstd::std_specs::cmp::PartialEqSpecImpl for BlockProposal {
    open spec fn obeys_eq_spec() -> bool {
        true
    }

    open spec fn eq_spec(&self, other: &Self) -> bool {
        self@.header == other@.header && self@.txs == other@.txs
    }
}

impl From<BlockProposal> for BlockInfo {
    /// The block that is proposed.
    fn from(block: BlockProposal) -> (info: BlockInfo)
        ensures
            info == block.block,
    {
        block.block
    }
}

impl vstd::std_specs::convert::FromSpecImpl<BlockProposal> for BlockInfo {
    open spec fn obeys_from_spec() -> bool {
        true
    }

    open spec fn from_spec(block: BlockProposal) -> BlockInfo {
        block.block
    }
}

/// Whether the header `next` may follow the header `prev` in a chain over
/// the genesis block `genesis`: its parent is not the genesis block but the
/// hash of `prev`, and its slot is later than that of `prev`.
pub open spec fn valid_link(genesis: Seq<u8>, next: HeaderView, prev: HeaderView) -> bool {
    &&& next.previous != genesis
    &&& next.previous == prev.hash()
    &&& next.slot > prev.slot
}

/// Why a proposal does not extend a chain.
#[derive(Clone, Copy, Debug, PartialEq, Eq, Structural)]
pub enum LinkError {
    /// The proposal names the genesis block as its parent.
    GenesisParent,
    /// The proposal's parent is not the hash of the header before it.
    ParentMismatch,
    /// The proposal's slot is not later than that of the header before it.
    SlotNotLater,
}

/// What stands against the header `next` following the header `prev`, if
/// anything does.
pub open spec fn link_outcome(genesis: Seq<u8>, next: HeaderView, prev: HeaderView) -> Result<
    (),
    LinkError,
> {
    if next.previous == genesis {
        Err(LinkError::GenesisParent)
    } else if next.previous != prev.hash() {
        Err(LinkError::ParentMismatch)
    } else if next.slot <= prev.slot {
        Err(LinkError::SlotNotLater)
    } else {
        Ok(())
    }
}

/// A sequence of block proposals over a genesis block.
#[derive(Clone, Debug, PartialEq)]
pub struct ProposalChain {
    pub genesis_block: Digest,
    pub proposals: Vec<BlockProposal>,
}

impl ProposalChain {
    /// Whether every proposal but the first may follow the one before it.
    pub open spec fn is_valid(self) -> bool {
        forall|i: int|
            1 <= i < self.proposals@.len() ==> valid_link(
                self.genesis_block@,
                (#[trigger] self.proposals@[i])@.header,
                self.proposals@[i - 1]@.header,
            )
    }

    /// The chain of one proposal.
    pub fn new(genesis_block: Digest, initial_proposal: BlockProposal) -> (chain: ProposalChain)
        ensures
            chain.genesis_block == genesis_block,
            chain.proposals@ == seq![initial_proposal],
            chain.is_valid(),
    {
        let mut proposals: Vec<BlockProposal> = Vec::new();
        proposals.push(initial_proposal);
        assert(proposals@ =~= seq![initial_proposal]);
        ProposalChain { genesis_block, proposals }
    }

    /// Tells whether `proposal` may follow `previous`, and why not.
    pub fn check_link(&self, proposal: &BlockProposal, previous: &BlockProposal) -> (r: Result<
        (),
        LinkError,
    >)
        ensures
            r == link_outcome(self.genesis_block@, proposal@.header, previous@.header),
            r is Ok <==> valid_link(self.genesis_block@, proposal@.header, previous@.header),
    {
        if proposal.block.header.previous.same(&self.genesis_block) {
            return Err(LinkError::GenesisParent);
        }
        let prev_hash = previous.block.header.headerhash();
        if !proposal.block.header.previous.same(&prev_hash) {
            return Err(LinkError::ParentMismatch);
        }
        if proposal.block.header.slot <= previous.block.header.slot {
            return Err(LinkError::SlotNotLater);
        }
        Ok(())
    }

    /// Tells whether `proposal` may follow `previous`: its parent is the
    /// hash of `previous` and not the genesis block, and its slot is later.
    pub fn check_proposal(&self, proposal: &BlockProposal, previous: &BlockProposal) -> (r: bool)
        ensures
            r == valid_link(self.genesis_block@, proposal@.header, previous@.header),
    {
        self.check_link(proposal, previous).is_ok()
    }

    /// Tells whether the chain is valid: every proposal but the first may
    /// follow the one before it.
    pub fn check_chain(&self) -> (r: bool)
        ensures
            r == self.is_valid(),
    {
        let mut index: usize = 1;
        while index < self.proposals.len()
            invariant
                1 <= index,
                forall|i: int|
                    1 <= i < index && i < self.proposals@.len() ==> valid_link(
                        self.genesis_block@,
                        (#[trigger] self.proposals@[i])@.header,
                        self.proposals@[i - 1]@.header,
                    ),
            decreases self.proposals.len() - index,
        {
            if !self.check_proposal(&self.proposals[index], &self.proposals[index - 1]) {
                return false;
            }
            index += 1;
        }
        true
    }

    /// Appends a copy of `proposal` where it may follow the chain's last
    /// proposal, and leaves the chain as it is where it may not.
    pub fn add(&mut self, proposal: &BlockProposal)
        requires
            old(self).proposals@.len() > 0,
        ensures
            final(self).genesis_block == old(self).genesis_block,
            valid_link(
                old(self).genesis_block@,
                proposal@.header,
                old(self).proposals@.last()@.header,
            ) ==> {
                &&& final(self).proposals@.len() == old(self).proposals@.len() + 1
                &&& final(self).proposals@.drop_last() == old(self).proposals@
                &&& final(self).proposals@.last()@ == proposal@
            },
            !valid_link(
                old(self).genesis_block@,
                proposal@.header,
                old(self).proposals@.last()@.header,
            ) ==> final(self).proposals@ == old(self).proposals@,
            old(self).is_valid() ==> final(self).is_valid(),
    {
        let _ = self.try_add(proposal);
    }

    /// Appends a copy of `proposal` as `add` does, and tells whether it did,
    /// and why not.
    pub fn try_add(&mut self, proposal: &BlockProposal) -> (r: Result<(), LinkError>)
        requires
            old(self).proposals@.len() > 0,
        ensures
            r == link_outcome(
                old(self).genesis_block@,
                proposal@.header,
                old(self).proposals@.last()@.header,
            ),
            r is Ok <==> valid_link(
                old(self).genesis_block@,
                proposal@.header,
                old(self).proposals@.last()@.header,
            ),
            final(self).genesis_block == old(self).genesis_block,
            r is Ok ==> {
                &&& final(self).proposals@.len() == old(self).proposals@.len() + 1
                &&& final(self).proposals@.drop_last() == old(self).proposals@
                &&& final(self).proposals@.last()@ == proposal@
            },
            r is Err ==> final(self).proposals@ == old(self).proposals@,
            old(self).is_valid() ==> final(self).is_valid(),
    {
        let last = self.proposals.len() - 1;
        let r = self.check_link(proposal, &self.proposals[last]);
        if r.is_ok() {
            let ghost before = self.proposals@;
            self.proposals.push(proposal.duplicate());
            proof {
                assert(self.proposals@.drop_last() =~= before);
                if old(self).is_valid() {
                    assert forall|i: int| 1 <= i < self.proposals@.len() implies valid_link(
                        self.genesis_block@,
                        (#[trigger] self.proposals@[i])@.header,
                        self.proposals@[i - 1]@.header,
                    ) by {
                        if i < before.len() {
                            assert(self.proposals@[i] == before[i]);
                            assert(self.proposals@[i - 1] == before[i - 1]);
                        } else {
                            assert(self.proposals@[i - 1] == before.last());
                        }
                    }
                }
            }
        }
        r
    }
}

/// A chain in which some proposal's slot is not later than that of the one
/// before it is not valid.
pub proof fn lemma_slot_must_grow(chain: ProposalChain, i: int)
    requires
        1 <= i < chain.proposals@.len(),
        chain.proposals@[i]@.header.slot <= chain.proposals@[i - 1]@.header.slot,
    ensures
        !chain.is_valid(),
{
    let p = chain.proposals@[i];
}

/// A chain in which some proposal's parent is not the hash of the header
/// before it is not valid.
pub proof fn lemma_parent_must_match(chain: ProposalChain, i: int)
    requires
        1 <= i < chain.proposals@.len(),
        chain.proposals@[i]@.header.previous != chain.proposals@[i - 1]@.header.hash(),
    ensures
        !chain.is_valid(),
{
    let p = chain.proposals@[i];
}

/// Along a valid chain the slots grow.
pub proof fn lemma_slots_increase(chain: ProposalChain, i: int, j: int)
    requires
        chain.is_valid(),
        0 <= i < j < chain.proposals@.len(),
    ensures
        chain.proposals@[i]@.header.slot < chain.proposals@[j]@.header.slot,
    decreases j - i,
{
    let p = chain.proposals@[j];
    if i + 1 < j {
        lemma_slots_increase(chain, i, j - 1);
    }
}

} // verus!
