use vstd::prelude::*;

use crate::envelope::{
    BlockRetrievalRequest, BlockRetrievalResponse, NetworkRequest, NetworkRequestView, RpcError,
};
use crate::epoch::EpochManager;
use crate::message::{ConsensusMsg, ConsensusMsgView, ProposalMsg, SyncInfo, TimeoutMsg, VoteMsg};
use crate::playground::NetworkPlayground;
use crate::types::{Author, HashValue};

verus! {

/// Lifecycle of a network endpoint. Only a running endpoint may send or
/// issue RPCs; calling a send operation in any other state is a programming
/// error, not a recoverable condition.
#[derive(Clone, Copy, PartialEq, Eq, Debug)]
pub enum EndpointState {
    Created,
    Running,
    Stopped,
}

/// The mathematical value of an outbound request queue.
pub open spec fn requests_view(s: Seq<NetworkRequest>) -> Seq<NetworkRequestView> {
    s.map_values(|r: NetworkRequest| r@)
}

/// How [`requests_view`] relates to its argument, element for element.
pub broadcast proof fn lemma_requests_view(s: Seq<NetworkRequest>)
    ensures
        (#[trigger] requests_view(s)).len() == s.len(),
        forall|i: int| 0 <= i < s.len() ==> requests_view(s)[i] == (#[trigger] s[i])@,
{
}

/// The outbound envelopes a vote send enqueues: one direct send per
/// recipient, in the order given.
pub open spec fn vote_sends(v: VoteMsg, recipients: Seq<Author>) -> Seq<NetworkRequestView> {
    Seq::new(
        recipients.len(),
        |i: int| NetworkRequestView::SendMessage(recipients[i], ConsensusMsgView::Vote(v)),
    )
}

/// The outbound envelopes a broadcast enqueues: one direct send per validator
/// other than the sender, in validator-set order.
pub open spec fn broadcast_sends(
    authors: Seq<Author>,
    me: Author,
    m: ConsensusMsgView,
) -> Seq<NetworkRequestView>
    decreases authors.len(),
{
    if authors.len() == 0 {
        Seq::empty()
    } else {
        broadcast_sends(authors.drop_last(), me, m) + (if authors.last() == me {
            Seq::<NetworkRequestView>::empty()
        } else {
            seq![NetworkRequestView::SendMessage(authors.last(), m)]
        })
    }
}

/// A broadcast enqueues one envelope per validator other than the sender.
pub proof fn lemma_broadcast_sends_count(authors: Seq<Author>, me: Author, m: ConsensusMsgView)
    requires
        forall|i: int, j: int| 0 <= i < j < authors.len() ==> authors[i] != authors[j],
    ensures
        broadcast_sends(authors, me, m).len() == authors.len() - (if authors.contains(me) {
            1int
        } else {
            0int
        }),
    decreases authors.len(),
{
    if authors.len() > 0 {
        let rest = authors.drop_last();
        lemma_broadcast_sends_count(rest, me, m);
        if authors.last() == me {
            assert(authors.contains(me)) by {
                assert(authors[authors.len() - 1] == me);
            }
            assert(!rest.contains(me)) by {
                if rest.contains(me) {
                    let j = choose|j: int| 0 <= j < rest.len() && rest[j] == me;
                    assert(authors[j] == me);
                    assert(authors[j] != authors[authors.len() - 1]);
                }
            }
        } else {
            assert(rest.contains(me) == authors.contains(me)) by {
                if rest.contains(me) {
                    let j = choose|j: int| 0 <= j < rest.len() && rest[j] == me;
                    assert(authors[j] == me);
                }
                if authors.contains(me) {
                    let j = choose|j: int| 0 <= j < authors.len() && authors[j] == me;
                    assert(j < authors.len() - 1);
                    assert(rest[j] == me);
                }
            }
        }
    }
}

/// A broadcast never addresses the sender itself, and every enqueued
/// envelope is a direct send of the broadcast message.
pub proof fn lemma_broadcast_sends_no_self(authors: Seq<Author>, me: Author, m: ConsensusMsgView)
    ensures
        forall|i: int|
            0 <= i < broadcast_sends(authors, me, m).len() ==> (#[trigger] broadcast_sends(
                authors,
                me,
                m,
            )[i] matches NetworkRequestView::SendMessage(dst, mm) && dst != me && mm == m),
    decreases authors.len(),
{
    if authors.len() > 0 {
        lemma_broadcast_sends_no_self(authors.drop_last(), me, m);
    }
}

/// Broadcast law: for a validator set of size `n` that contains the sender,
/// a broadcast enqueues exactly `n - 1` direct-send envelopes, never one to
/// the sender itself, each carrying the broadcast message.
pub proof fn lemma_broadcast_reaches_all_but_self(
    authors: Seq<Author>,
    me: Author,
    m: ConsensusMsgView,
)
    requires
        forall|i: int, j: int| 0 <= i < j < authors.len() ==> authors[i] != authors[j],
        authors.contains(me),
    ensures
        broadcast_sends(authors, me, m).len() == authors.len() - 1,
        forall|i: int|
            0 <= i < broadcast_sends(authors, me, m).len() ==> (#[trigger] broadcast_sends(
                authors,
                me,
                m,
            )[i] matches NetworkRequestView::SendMessage(dst, mm) && dst != me && mm == m),
{
    lemma_broadcast_sends_count(authors, me, m);
    lemma_broadcast_sends_no_self(authors, me, m);
}

/// Per-validator network endpoint: exposes the protocol-level send,
/// broadcast and block-retrieval operations over an abstract transport. Its
/// outbound queue is consumed by the transport — in tests, by
/// [`NetworkPlayground::process_outbound`] — in FIFO order, so sends from
/// one source to one destination keep their order.
pub struct ConsensusNetworkImpl {
    /// The validator this endpoint belongs to.
    pub author: Author,
    /// The epoch snapshot whose validator set broadcasts go to.
    pub epoch_mgr: EpochManager,
    /// Lifecycle state; only `Running` permits outbound calls.
    pub state: EndpointState,
    /// Outbound requests awaiting the transport, oldest first.
    pub outbound: Vec<NetworkRequest>,
}

impl ConsensusNetworkImpl {
    /// The mathematical value of the outbound queue.
    pub open spec fn outbound_view(self) -> Seq<NetworkRequestView> {
        requests_view(self.outbound@)
    }

    pub fn new(author: Author, epoch_mgr: EpochManager) -> (n: Self)
        ensures
            n.author == author,
            n.epoch_mgr == epoch_mgr,
            n.state is Created,
            n.outbound@ == Seq::<NetworkRequest>::empty(),
    {
        ConsensusNetworkImpl { author, epoch_mgr, state: EndpointState::Created, outbound: Vec::new() }
    }

    /// Begin inbound processing. The typed inbound queues live with the
    /// transport — in tests, in the playground inbox registered for this
    /// endpoint's author — and accept deliveries once the endpoint runs.
    pub fn start(&mut self)
        requires
            old(self).state is Created,
        ensures
            final(self).state is Running,
            final(self).author == old(self).author,
            final(self).epoch_mgr == old(self).epoch_mgr,
            final(self).outbound@ == old(self).outbound@,
    {
        self.state = EndpointState::Running;
    }

    /// Tear the endpoint down; no further sends are permitted.
    pub fn stop(&mut self)
        ensures
            final(self).state is Stopped,
            final(self).author == old(self).author,
            final(self).epoch_mgr == old(self).epoch_mgr,
            final(self).outbound@ == old(self).outbound@,
    {
        self.state = EndpointState::Stopped;
    }

    /// Enqueue one direct send of `vote` per recipient, in order. Each send
    /// is independent: partial delivery is expected and is the caller's
    /// concern, not the network layer's.
    pub fn send_vote(&mut self, vote: VoteMsg, recipients: Vec<Author>)
        requires
            old(self).state is Running,
        ensures
            final(self).state == old(self).state,
            final(self).author == old(self).author,
            final(self).epoch_mgr == old(self).epoch_mgr,
            final(self).outbound_view() == old(self).outbound_view() + vote_sends(
                vote,
                recipients@,
            ),
    {
        let ghost base = self.outbound_view();
        let n = recipients.len();
        let mut i: usize = 0;
        while i < n
            invariant
                n == recipients@.len(),
                i <= n,
                self.state == old(self).state,
                self.author == old(self).author,
                self.epoch_mgr == old(self).epoch_mgr,
                base == old(self).outbound_view(),
                self.outbound_view() == base + vote_sends(vote, recipients@.subrange(0, i as int)),
            decreases n - i,
        {
            self.outbound.push(NetworkRequest::SendMessage(recipients[i], ConsensusMsg::Vote(vote)));
            proof {
                broadcast use lemma_requests_view;

                assert(self.outbound_view() =~= base + vote_sends(
                    vote,
                    recipients@.subrange(0, i + 1),
                ));
            }
            i += 1;
        }
        proof {
            assert(recipients@.subrange(0, n as int) =~= recipients@);
        }
    }

    /// Enqueue one direct send of `msg` to every validator of the epoch
    /// other than this endpoint's own author, in validator-set order.
    fn broadcast_msg(&mut self, msg: ConsensusMsg)
        requires
            old(self).state is Running,
        ensures
            final(self).state == old(self).state,
            final(self).author == old(self).author,
            final(self).epoch_mgr == old(self).epoch_mgr,
            final(self).outbound_view() == old(self).outbound_view() + broadcast_sends(
                old(self).epoch_mgr.validators.spec_authors(),
                old(self).author,
                msg@,
            ),
    {
        let ghost base = self.outbound_view();
        let ghost authors = self.epoch_mgr.validators.spec_authors();
        let n = self.epoch_mgr.validators.entries.len();
        proof {
            crate::validator_verifier::lemma_spec_authors(self.epoch_mgr.validators);
        }
        let mut i: usize = 0;
        while i < n
            invariant
                n == self.epoch_mgr.validators.entries@.len(),
                i <= n,
                self.state == old(self).state,
                self.author == old(self).author,
                self.epoch_mgr == old(self).epoch_mgr,
                base == old(self).outbound_view(),
                authors == old(self).epoch_mgr.validators.spec_authors(),
                authors.len() == n,
                forall|j: int|
                    0 <= j < n ==> authors[j] == (
                    #[trigger] self.epoch_mgr.validators.entries@[j]).0,
                self.outbound_view() == base + broadcast_sends(
                    authors.subrange(0, i as int),
                    self.author,
                    msg@,
                ),
            decreases n - i,
        {
            let (a, _key) = self.epoch_mgr.validators.entries[i];
            proof {
                assert(authors.subrange(0, i + 1).drop_last() =~= authors.subrange(0, i as int));
                assert(authors.subrange(0, i + 1).last() == authors[i as int]);
                assert(authors[i as int] == a);
            }
            if a != self.author {
                let m = msg.clone();
                proof {
                    assert(m@ == msg@);
                }
                self.outbound.push(NetworkRequest::SendMessage(a, m));
                proof {
                    broadcast use lemma_requests_view;

                    assert(self.outbound_view() =~= base + broadcast_sends(
                        authors.subrange(0, i + 1),
                        self.author,
                        msg@,
                    ));
                }
            } else {
                proof {
                    assert(self.outbound_view() =~= base + broadcast_sends(
                        authors.subrange(0, i + 1),
                        self.author,
                        msg@,
                    ));
                }
            }
            i += 1;
        }
        proof {
            assert(authors.subrange(0, n as int) =~= authors);
        }
    }

    /// Broadcast a proposal to every peer of the epoch other than this
    /// endpoint itself: exactly one direct send per other validator, never
    /// one to self.
    pub fn broadcast_proposal(&mut self, proposal: ProposalMsg)
        requires
            old(self).state is Running,
        ensures
            final(self).state == old(self).state,
            final(self).author == old(self).author,
            final(self).epoch_mgr == old(self).epoch_mgr,
            final(self).outbound_view() == old(self).outbound_view() + broadcast_sends(
                old(self).epoch_mgr.validators.spec_authors(),
                old(self).author,
                ConsensusMsgView::Proposal(proposal@),
            ),
    {
        self.broadcast_msg(ConsensusMsg::Proposal(proposal));
    }

    /// Broadcast a timeout declaration to every peer of the epoch other than
    /// this endpoint itself.
    pub fn broadcast_timeout_msg(&mut self, timeout_msg: TimeoutMsg)
        requires
            old(self).state is Running,
        ensures
            final(self).state == old(self).state,
            final(self).author == old(self).author,
            final(self).epoch_mgr == old(self).epoch_mgr,
            final(self).outbound_view() == old(self).outbound_view() + broadcast_sends(
                old(self).epoch_mgr.validators.spec_authors(),
                old(self).author,
                ConsensusMsgView::TimeoutMsg(timeout_msg),
            ),
    {
        self.broadcast_msg(ConsensusMsg::TimeoutMsg(timeout_msg));
    }

    /// Enqueue one direct send of catch-up data to a single lagging peer.
    pub fn send_sync_info(&mut self, sync_info: SyncInfo, recipient: Author)
        requires
            old(self).state is Running,
        ensures
            final(self).state == old(self).state,
            final(self).author == old(self).author,
            final(self).epoch_mgr == old(self).epoch_mgr,
            final(self).outbound_view() == old(self).outbound_view() + seq![
                NetworkRequestView::SendMessage(recipient, ConsensusMsgView::SyncInfo(sync_info@)),
            ],
    {
        let ghost m = sync_info@;
        self.outbound.push(NetworkRequest::SendMessage(recipient, ConsensusMsg::SyncInfo(sync_info)));
        proof {
            broadcast use lemma_requests_view;

            assert(self.outbound_view() =~= old(self).outbound_view() + seq![
                NetworkRequestView::SendMessage(recipient, ConsensusMsgView::SyncInfo(m)),
            ]);
        }
    }

    /// Issue the block-retrieval RPC against `peer` through the playground
    /// transport. RPC requests bypass the buffered direct-send queue: a
    /// request whose (source, peer) pair is drop-configured is silently
    /// discarded — modelling a network partition — and the call times out;
    /// otherwise the request is surfaced at the peer, whose block store must
    /// answer it exactly once. `response` is the answer that arrived within
    /// `timeout_ms` milliseconds, `None` when the handler never responded in
    /// time; the clock itself lives with the real transport, so in this
    /// deterministic harness the deadline's length does not alter the
    /// outcome. On `None` the request stays surfaced in the peer's inbox and
    /// the call reports `Timeout` rather than blocking forever.
    pub fn request_block(
        &self,
        playground: &mut NetworkPlayground,
        block_id: HashValue,
        num_blocks: u64,
        peer: Author,
        timeout_ms: u64,
        response: Option<BlockRetrievalResponse>,
    ) -> (r: Result<BlockRetrievalResponse, RpcError>)
        requires
            self.state is Running,
            old(playground).wf(),
            old(playground).registered(peer),
            old(playground).registered(self.author),
        ensures
            final(playground).wf(),
            old(playground).drop_config.spec_dropped(self.author, peer) ==> r == Err::<
                BlockRetrievalResponse,
                RpcError,
            >(RpcError::Timeout) && *final(playground) == *old(playground),
            !old(playground).drop_config.spec_dropped(self.author, peer) ==> {
                &&& (response matches Some(resp) ==> r == Ok::<BlockRetrievalResponse, RpcError>(
                    resp,
                ) && *final(playground) == *old(playground))
                &&& (response is None ==> {
                    &&& r == Err::<BlockRetrievalResponse, RpcError>(RpcError::Timeout)
                    &&& final(playground).inbox(peer).block_retrieval == old(playground).inbox(
                        peer,
                    ).block_retrieval.push(
                        (
                            self.author,
                            BlockRetrievalRequest { block_id, num_blocks },
                        ),
                    )
                    &&& final(playground).inbox(peer).votes == old(playground).inbox(peer).votes
                    &&& final(playground).inbox(peer).proposals == old(playground).inbox(
                        peer,
                    ).proposals
                    &&& final(playground).inbox(peer).timeout_msgs == old(playground).inbox(
                        peer,
                    ).timeout_msgs
                    &&& final(playground).inbox(peer).sync_infos == old(playground).inbox(
                        peer,
                    ).sync_infos
                    &&& forall|a: Author|
                        old(playground).registered(a) && a != peer ==> #[trigger] final(playground).inbox(a) == old(playground).inbox(a)
                    &&& final(playground).peers@ == old(playground).peers@
                    &&& final(playground).queue@ == old(playground).queue@
                    &&& final(playground).drop_config == old(playground).drop_config
                })
            },
    {
        let _ = timeout_ms;
        let req = BlockRetrievalRequest { block_id, num_blocks };
        proof {
            let i = choose|i: int|
                0 <= i < old(playground).peers@.len() && old(playground).peers@[i] == self.author;
            assert(old(playground).drop_config.spec_contains_key(old(playground).peers@[i]));
        }
        let net_req = NetworkRequest::SendRpc(peer, req);
        if playground.drop_config.is_message_dropped(&self.author, &net_req) {
            return Err(RpcError::Timeout);
        }
        match response {
            Some(resp) => Ok(resp),
            None => {
                let delivered = playground.deliver_rpc(self.author, peer, req);
                proof {
                    assert(delivered);
                }
                Err(RpcError::Timeout)
            },
        }
    }
}

} // verus!
