use vstd::prelude::*;

use crate::types::{
    combine_hash, spec_combine_hash, spec_sign, Author, HashValue, Round, Signature,
    ValidatorSigner,
};
use crate::validator_verifier::{ValidatorVerifier, VerificationError};

verus! {

/// Ledger commitment info carried by votes and certificates. The execution
/// state it certifies is outside this model, so the payload is a single
/// commitment hash.
#[derive(Clone, Copy, PartialEq, Eq, Debug)]
pub struct LedgerInfo {
    pub consensus_data_hash: HashValue,
}

/// The all-zero ledger info used where no execution state is being certified.
pub fn placeholder_ledger_info() -> (l: LedgerInfo)
    ensures
        l == (LedgerInfo { consensus_data_hash: 0 }),
{
    LedgerInfo { consensus_data_hash: 0 }
}

/// The chain-linkage data a vote commits to: the proposed block, its parent
/// and its grandparent, enough for 3-chain commit rules.
#[derive(Clone, Copy, PartialEq, Eq, Debug)]
pub struct VoteData {
    pub proposed_block_id: HashValue,
    pub executed_state_id: HashValue,
    pub round: Round,
    pub parent_block_id: HashValue,
    pub parent_block_round: Round,
    pub grandparent_block_id: HashValue,
    pub grandparent_block_round: Round,
}

impl VoteData {
    pub fn new(
        proposed_block_id: HashValue,
        executed_state_id: HashValue,
        round: Round,
        parent_block_id: HashValue,
        parent_block_round: Round,
        grandparent_block_id: HashValue,
        grandparent_block_round: Round,
    ) -> (v: Self)
        ensures
            v == (VoteData {
                proposed_block_id,
                executed_state_id,
                round,
                parent_block_id,
                parent_block_round,
                grandparent_block_id,
                grandparent_block_round,
            }),
    {
        VoteData {
            proposed_block_id,
            executed_state_id,
            round,
            parent_block_id,
            parent_block_round,
            grandparent_block_id,
            grandparent_block_round,
        }
    }

    /// Content hash of the vote data; what a vote's signature covers.
    pub open spec fn spec_hash(self) -> HashValue {
        spec_combine_hash(
            spec_combine_hash(
                spec_combine_hash(self.proposed_block_id, self.executed_state_id),
                spec_combine_hash(self.round, self.parent_block_id),
            ),
            spec_combine_hash(
                spec_combine_hash(self.parent_block_round, self.grandparent_block_id),
                self.grandparent_block_round,
            ),
        )
    }

    pub fn hash(&self) -> (h: HashValue)
        ensures
            h == self.spec_hash(),
    {
        combine_hash(
            combine_hash(
                combine_hash(self.proposed_block_id, self.executed_state_id),
                combine_hash(self.round, self.parent_block_id),
            ),
            combine_hash(
                combine_hash(self.parent_block_round, self.grandparent_block_id),
                self.grandparent_block_round,
            ),
        )
    }
}

/// A vote a validator signed over its vote data, relayed by the network layer
/// to the chosen recipients.
#[derive(Clone, Copy, PartialEq, Eq, Debug)]
pub struct VoteMsg {
    pub vote_data: VoteData,
    pub author: Author,
    pub ledger_info: LedgerInfo,
    pub signature: Signature,
}

impl VoteMsg {
    /// Sign vote data as `author`; always succeeds for a configured signer.
    pub fn new(
        vote_data: VoteData,
        author: Author,
        ledger_info: LedgerInfo,
        signer: &ValidatorSigner,
    ) -> (m: Self)
        ensures
            m == (VoteMsg {
                vote_data,
                author,
                ledger_info,
                signature: spec_sign(signer.key, vote_data.spec_hash()),
            }),
    {
        let signature = signer.sign(vote_data.hash());
        VoteMsg { vote_data, author, ledger_info, signature }
    }
}

/// Certifies that some round timed out; carried optionally by sync info.
#[derive(Clone, Copy, PartialEq, Eq, Debug)]
pub struct TimeoutCertificate {
    pub round: Round,
}

/// A validator's declaration that a round timed out for it.
#[derive(Clone, Copy, PartialEq, Eq, Debug)]
pub struct TimeoutMsg {
    pub author: Author,
    pub round: Round,
}

impl TimeoutMsg {
    pub fn new(author: Author, round: Round) -> (t: Self)
        ensures
            t == (TimeoutMsg { author, round }),
    {
        TimeoutMsg { author, round }
    }
}

/// Mathematical value of a [`QuorumCert`].
pub ghost struct QuorumCertView {
    pub vote_data: VoteData,
    pub signatures: Seq<(Author, Signature)>,
    pub ledger_info: LedgerInfo,
}

/// Proof that a quorum of validators voted for the referenced block: vote
/// data plus at least threshold-many valid distinct-author signatures over
/// its hash. Apart from the distinguished genesis certificate, a value is
/// only ever constructed through [`QuorumCert::new`], which enforces the
/// quorum rule.
#[derive(PartialEq, Eq, Debug)]
pub struct QuorumCert {
    pub vote_data: VoteData,
    pub signatures: Vec<(Author, Signature)>,
    pub ledger_info: LedgerInfo,
}

impl View for QuorumCert {
    type V = QuorumCertView;

    open spec fn view(&self) -> QuorumCertView {
        QuorumCertView {
            vote_data: self.vote_data,
            signatures: self.signatures@,
            ledger_info: self.ledger_info,
        }
    }
}

impl QuorumCert {
    /// The round this certificate certifies.
    pub open spec fn spec_certified_round(self) -> Round {
        self.vote_data.round
    }

    pub fn certified_round(&self) -> (r: Round)
        ensures
            r == self.spec_certified_round(),
    {
        self.vote_data.round
    }

    /// The block this certificate certifies.
    pub open spec fn spec_certified_block_id(self) -> HashValue {
        self.vote_data.proposed_block_id
    }

    pub fn certified_block_id(&self) -> (h: HashValue)
        ensures
            h == self.spec_certified_block_id(),
    {
        self.vote_data.proposed_block_id
    }

    /// Build a certificate from collected signatures, enforcing the quorum
    /// rule: construction succeeds exactly when the valid distinct-author
    /// signatures over the vote-data hash reach the epoch's threshold, so a
    /// certificate failing the check is never produced.
    pub fn new(
        vote_data: VoteData,
        signatures: Vec<(Author, Signature)>,
        ledger_info: LedgerInfo,
        validators: &ValidatorVerifier,
    ) -> (r: Result<Self, VerificationError>)
        requires
            validators.wf(),
        ensures
            r is Ok <==> validators.valid_distinct_count(vote_data.spec_hash(), signatures@)
                >= validators.quorum,
            r is Err ==> r == Err::<Self, VerificationError>(VerificationError::InsufficientQuorum),
            r matches Ok(c) ==> c@ == (QuorumCertView {
                vote_data,
                signatures: signatures@,
                ledger_info,
            }),
    {
        match validators.verify_quorum(vote_data.hash(), &signatures) {
            Ok(()) => Ok(QuorumCert { vote_data, signatures, ledger_info }),
            Err(e) => Err(e),
        }
    }
}

/// The distinguished genesis block id every validator agrees on.
pub open spec fn genesis_block_id() -> HashValue {
    spec_block_hash(0, 0, 0, 0)
}

/// The self-referential vote data of the genesis certificate.
pub open spec fn genesis_vote_data() -> VoteData {
    VoteData {
        proposed_block_id: genesis_block_id(),
        executed_state_id: 0,
        round: 0,
        parent_block_id: genesis_block_id(),
        parent_block_round: 0,
        grandparent_block_id: genesis_block_id(),
        grandparent_block_round: 0,
    }
}

/// Value of the genesis certificate: self-referential vote data and no
/// signatures, agreed on without any communication.
pub open spec fn genesis_qc_view() -> QuorumCertView {
    QuorumCertView {
        vote_data: genesis_vote_data(),
        signatures: Seq::empty(),
        ledger_info: LedgerInfo { consensus_data_hash: 0 },
    }
}

/// Content hash of a block: payload, round, the id certified by its quorum
/// certificate, and its author (zero for the authorless genesis block).
pub open spec fn spec_block_hash(
    payload: u64,
    round: Round,
    certified_id: HashValue,
    author: Author,
) -> HashValue {
    spec_combine_hash(spec_combine_hash(payload, round), spec_combine_hash(certified_id, author))
}

pub fn block_hash(payload: u64, round: Round, certified_id: HashValue, author: Author) -> (h:
    HashValue)
    ensures
        h == spec_block_hash(payload, round, certified_id, author),
{
    combine_hash(combine_hash(payload, round), combine_hash(certified_id, author))
}

/// Mathematical value of a [`Block`].
pub ghost struct BlockView {
    pub id: HashValue,
    pub payload: u64,
    pub round: Round,
    pub quorum_cert: QuorumCertView,
    pub author: Option<Author>,
    pub signature: Option<Signature>,
}

/// Value of the genesis block: round zero, empty payload, the genesis
/// certificate, no author and no signature.
pub open spec fn genesis_block_view() -> BlockView {
    BlockView {
        id: genesis_block_id(),
        payload: 0,
        round: 0,
        quorum_cert: genesis_qc_view(),
        author: None,
        signature: None,
    }
}

/// Why constructing a child block was refused.
#[derive(Clone, Copy, PartialEq, Eq, Debug)]
pub enum BlockConstructionError {
    /// The new round is not greater than the parent's round.
    RoundNotAfterParent,
    /// The quorum certificate certifies a round at or above the new round.
    CertifiedRoundTooHigh,
}

/// A proposal in the chain, immutable once constructed: its id is a content
/// hash of the fields. The genesis block is the distinguished round-zero
/// block with a self-referential certificate.
#[derive(PartialEq, Eq, Debug)]
pub struct Block {
    pub id: HashValue,
    pub payload: u64,
    pub round: Round,
    pub quorum_cert: QuorumCert,
    pub author: Option<Author>,
    pub signature: Option<Signature>,
}

impl View for Block {
    type V = BlockView;

    open spec fn view(&self) -> BlockView {
        BlockView {
            id: self.id,
            payload: self.payload,
            round: self.round,
            quorum_cert: self.quorum_cert@,
            author: self.author,
            signature: self.signature,
        }
    }
}

impl Block {
    /// Construct the genesis block. Deterministic: every independent
    /// construction yields the same value, without any communication.
    pub fn make_genesis_block() -> (b: Self)
        ensures
            b@ == genesis_block_view(),
    {
        let id = block_hash(0, 0, 0, 0);
        let vote_data = VoteData {
            proposed_block_id: id,
            executed_state_id: 0,
            round: 0,
            parent_block_id: id,
            parent_block_round: 0,
            grandparent_block_id: id,
            grandparent_block_round: 0,
        };
        let quorum_cert = QuorumCert {
            vote_data,
            signatures: Vec::new(),
            ledger_info: LedgerInfo { consensus_data_hash: 0 },
        };
        Block { id, payload: 0, round: 0, quorum_cert, author: None, signature: None }
    }

    /// The genesis certificate on its own, as every validator constructs it.
    pub fn certificate_for_genesis() -> (c: QuorumCert)
        ensures
            c@ == genesis_qc_view(),
    {
        let id = block_hash(0, 0, 0, 0);
        let vote_data = VoteData {
            proposed_block_id: id,
            executed_state_id: 0,
            round: 0,
            parent_block_id: id,
            parent_block_round: 0,
            grandparent_block_id: id,
            grandparent_block_round: 0,
        };
        QuorumCert { vote_data, signatures: Vec::new(), ledger_info: LedgerInfo { consensus_data_hash: 0 } }
    }

    /// Construct a child of `parent`, signed by `signer`. Round monotonicity
    /// is enforced at construction: the call fails with
    /// `RoundNotAfterParent` when `round` is not greater than the parent's
    /// round, and with `CertifiedRoundTooHigh` when the supplied certificate
    /// certifies a round at or above `round`; a malformed block is never
    /// produced.
    pub fn make_block(
        parent: &Block,
        payload: u64,
        round: Round,
        quorum_cert: QuorumCert,
        signer: &ValidatorSigner,
    ) -> (r: Result<Self, BlockConstructionError>)
        ensures
            r is Ok <==> round > parent.round && quorum_cert.spec_certified_round() < round,
            round <= parent.round ==> r == Err::<Self, BlockConstructionError>(
                BlockConstructionError::RoundNotAfterParent,
            ),
            round > parent.round && quorum_cert.spec_certified_round() >= round ==> r == Err::<
                Self,
                BlockConstructionError,
            >(BlockConstructionError::CertifiedRoundTooHigh),
            r matches Ok(b) ==> b@ == (BlockView {
                id: spec_block_hash(
                    payload,
                    round,
                    quorum_cert.spec_certified_block_id(),
                    signer.key,
                ),
                payload,
                round,
                quorum_cert: quorum_cert@,
                author: Some(signer.key),
                signature: Some(
                    spec_sign(
                        signer.key,
                        spec_block_hash(
                            payload,
                            round,
                            quorum_cert.spec_certified_block_id(),
                            signer.key,
                        ),
                    ),
                ),
            }),
    {
        if round <= parent.round {
            return Err(BlockConstructionError::RoundNotAfterParent);
        }
        if quorum_cert.certified_round() >= round {
            return Err(BlockConstructionError::CertifiedRoundTooHigh);
        }
        let author = signer.author();
        let id = block_hash(payload, round, quorum_cert.certified_block_id(), author);
        let signature = signer.sign(id);
        Ok(
            Block {
                id,
                payload,
                round,
                quorum_cert,
                author: Some(author),
                signature: Some(signature),
            },
        )
    }
}

/// The mathematical value of a sequence of blocks.
pub open spec fn blocks_view(s: Seq<Block>) -> Seq<BlockView> {
    s.map_values(|b: Block| b@)
}

/// How [`blocks_view`] relates to its argument, element for element.
pub broadcast proof fn lemma_blocks_view(s: Seq<Block>)
    ensures
        (#[trigger] blocks_view(s)).len() == s.len(),
        forall|i: int| 0 <= i < s.len() ==> blocks_view(s)[i] == (#[trigger] s[i])@,
{
}

/// Genesis determinism: two independently constructed genesis blocks, and
/// their certificates, are equal by value without any communication.
pub proof fn lemma_genesis_deterministic(
    b1: BlockView,
    b2: BlockView,
    c1: QuorumCertView,
    c2: QuorumCertView,
)
    requires
        b1 == genesis_block_view(),
        b2 == genesis_block_view(),
        c1 == genesis_qc_view(),
        c2 == genesis_qc_view(),
    ensures
        b1 == b2,
        c1 == c2,
{
}

/// Mathematical value of a [`SyncInfo`].
pub ghost struct SyncInfoView {
    pub highest_quorum_cert: QuorumCertView,
    pub highest_commit_cert: QuorumCertView,
    pub highest_timeout_cert: Option<TimeoutCertificate>,
}

/// Catch-up data attached to proposals and sent to lagging peers.
#[derive(PartialEq, Eq, Debug)]
pub struct SyncInfo {
    pub highest_quorum_cert: QuorumCert,
    pub highest_commit_cert: QuorumCert,
    pub highest_timeout_cert: Option<TimeoutCertificate>,
}

impl View for SyncInfo {
    type V = SyncInfoView;

    open spec fn view(&self) -> SyncInfoView {
        SyncInfoView {
            highest_quorum_cert: self.highest_quorum_cert@,
            highest_commit_cert: self.highest_commit_cert@,
            highest_timeout_cert: self.highest_timeout_cert,
        }
    }
}

impl SyncInfo {
    pub fn new(
        highest_quorum_cert: QuorumCert,
        highest_commit_cert: QuorumCert,
        highest_timeout_cert: Option<TimeoutCertificate>,
    ) -> (s: Self)
        ensures
            s@ == (SyncInfoView {
                highest_quorum_cert: highest_quorum_cert@,
                highest_commit_cert: highest_commit_cert@,
                highest_timeout_cert,
            }),
    {
        SyncInfo { highest_quorum_cert, highest_commit_cert, highest_timeout_cert }
    }
}

/// Mathematical value of a [`ProposalMsg`].
pub ghost struct ProposalMsgView {
    pub block: BlockView,
    pub sync_info: SyncInfoView,
}

/// A leader's proposal, broadcast to every other peer.
#[derive(PartialEq, Eq, Debug)]
pub struct ProposalMsg {
    pub block: Block,
    pub sync_info: SyncInfo,
}

impl View for ProposalMsg {
    type V = ProposalMsgView;

    open spec fn view(&self) -> ProposalMsgView {
        ProposalMsgView { block: self.block@, sync_info: self.sync_info@ }
    }
}

impl ProposalMsg {
    pub fn new(block: Block, sync_info: SyncInfo) -> (p: Self)
        ensures
            p@ == (ProposalMsgView { block: block@, sync_info: sync_info@ }),
    {
        ProposalMsg { block, sync_info }
    }
}

/// Mathematical value of a [`ConsensusMsg`].
pub ghost enum ConsensusMsgView {
    Proposal(ProposalMsgView),
    Vote(VoteMsg),
    TimeoutMsg(TimeoutMsg),
    SyncInfo(SyncInfoView),
}

/// The typed consensus messages the network layer routes.
#[derive(PartialEq, Eq, Debug)]
pub enum ConsensusMsg {
    Proposal(ProposalMsg),
    Vote(VoteMsg),
    TimeoutMsg(TimeoutMsg),
    SyncInfo(SyncInfo),
}

impl View for ConsensusMsg {
    type V = ConsensusMsgView;

    open spec fn view(&self) -> ConsensusMsgView {
        match self {
            ConsensusMsg::Proposal(p) => ConsensusMsgView::Proposal(p@),
            ConsensusMsg::Vote(v) => ConsensusMsgView::Vote(*v),
            ConsensusMsg::TimeoutMsg(t) => ConsensusMsgView::TimeoutMsg(*t),
            ConsensusMsg::SyncInfo(s) => ConsensusMsgView::SyncInfo(s@),
        }
    }
}

impl ConsensusMsg {
    pub fn has_proposal(&self) -> (b: bool)
        ensures
            b == (self@ is Proposal),
    {
        matches!(self, ConsensusMsg::Proposal(_))
    }

    pub fn has_vote(&self) -> (b: bool)
        ensures
            b == (self@ is Vote),
    {
        matches!(self, ConsensusMsg::Vote(_))
    }

    pub fn has_timeout_msg(&self) -> (b: bool)
        ensures
            b == (self@ is TimeoutMsg),
    {
        matches!(self, ConsensusMsg::TimeoutMsg(_))
    }

    pub fn has_sync_info(&self) -> (b: bool)
        ensures
            b == (self@ is SyncInfo),
    {
        matches!(self, ConsensusMsg::SyncInfo(_))
    }
}

impl Clone for QuorumCert {
    /// The copy carries the same value.
    fn clone(&self) -> (r: Self)
        ensures
            r@ == self@,
    {
        let n = self.signatures.len();
        let mut signatures: Vec<(Author, Signature)> = Vec::new();
        let mut i: usize = 0;
        while i < n
            invariant
                n == self.signatures@.len(),
                i <= n,
                signatures@ == self.signatures@.subrange(0, i as int),
            decreases n - i,
        {
            signatures.push(self.signatures[i]);
            proof {
                assert(signatures@ =~= self.signatures@.subrange(0, i + 1));
            }
            i += 1;
        }
        proof {
            assert(signatures@ =~= self.signatures@);
        }
        QuorumCert { vote_data: self.vote_data, signatures, ledger_info: self.ledger_info }
    }
}

impl Clone for Block {
    /// The copy carries the same value.
    fn clone(&self) -> (r: Self)
        ensures
            r@ == self@,
    {
        Block {
            id: self.id,
            payload: self.payload,
            round: self.round,
            quorum_cert: self.quorum_cert.clone(),
            author: self.author,
            signature: self.signature,
        }
    }
}

impl Clone for SyncInfo {
    /// The copy carries the same value.
    fn clone(&self) -> (r: Self)
        ensures
            r@ == self@,
    {
        SyncInfo {
            highest_quorum_cert: self.highest_quorum_cert.clone(),
            highest_commit_cert: self.highest_commit_cert.clone(),
            highest_timeout_cert: self.highest_timeout_cert,
        }
    }
}

impl Clone for ProposalMsg {
    /// The copy carries the same value.
    fn clone(&self) -> (r: Self)
        ensures
            r@ == self@,
    {
        ProposalMsg { block: self.block.clone(), sync_info: self.sync_info.clone() }
    }
}

impl Clone for ConsensusMsg {
    /// The copy carries the same value.
    fn clone(&self) -> (r: Self)
        ensures
            r@ == self@,
    {
        match self {
            ConsensusMsg::Proposal(p) => ConsensusMsg::Proposal(p.clone()),
            ConsensusMsg::Vote(v) => ConsensusMsg::Vote(*v),
            ConsensusMsg::TimeoutMsg(t) => ConsensusMsg::TimeoutMsg(*t),
            ConsensusMsg::SyncInfo(s) => ConsensusMsg::SyncInfo(s.clone()),
        }
    }
}

} // verus!
