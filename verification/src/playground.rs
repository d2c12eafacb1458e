use vstd::prelude::*;

use crate::endpoint::{lemma_requests_view, requests_view, vote_sends, ConsensusNetworkImpl};
use crate::envelope::{BlockRetrievalRequest, NetworkRequest, NetworkRequestView};
use crate::message::{
    ConsensusMsg, ConsensusMsgView, ProposalMsg, ProposalMsgView, SyncInfo, SyncInfoView,
    TimeoutMsg, VoteMsg,
};
use crate::types::Author;

verus! {

/// Test-controlled simulated packet loss between ordered pairs of peers.
/// Mutated only by explicit commands; read on every outbound send.
pub struct DropConfig {
    /// The sources known to the configuration: every registered peer.
    pub keys: Vec<Author>,
    /// The ordered (source, destination) pairs currently dropped, each at
    /// most once.
    pub pairs: Vec<(Author, Author)>,
}

impl DropConfig {
    /// Distinct keys, distinct pairs, and only known sources in pairs.
    pub open spec fn wf(self) -> bool {
        &&& forall|i: int, j: int|
            0 <= i < j < self.keys@.len() ==> self.keys@[i] != self.keys@[j]
        &&& forall|i: int, j: int|
            0 <= i < j < self.pairs@.len() ==> self.pairs@[i] != self.pairs@[j]
        &&& forall|i: int|
            0 <= i < self.pairs@.len() ==> self.spec_contains_key((#[trigger] self.pairs@[i]).0)
    }

    /// Whether `src` has been registered.
    pub open spec fn spec_contains_key(self, src: Author) -> bool {
        self.keys@.contains(src)
    }

    /// Whether traffic from `src` to `dst` is currently dropped.
    pub open spec fn spec_dropped(self, src: Author, dst: Author) -> bool {
        self.pairs@.contains((src, dst))
    }

    /// What the configuration says of an outbound envelope from `src`: a
    /// direct send or an RPC is dropped when its (source, destination) pair
    /// is; an unexpanded broadcast never reaches the transport, so one that
    /// does is malformed and counts as dropped.
    pub open spec fn spec_msg_dropped(self, src: Author, req: NetworkRequest) -> bool {
        match req {
            NetworkRequest::SendMessage(dst, _) => self.spec_dropped(src, dst),
            NetworkRequest::SendRpc(dst, _) => self.spec_dropped(src, dst),
            NetworkRequest::Broadcast(_) => true,
        }
    }

    pub fn new() -> (c: Self)
        ensures
            c.keys@ == Seq::<Author>::empty(),
            c.pairs@ == Seq::<(Author, Author)>::empty(),
            c.wf(),
    {
        DropConfig { keys: Vec::new(), pairs: Vec::new() }
    }

    /// Register `src` with an empty drop set.
    pub fn add_node(&mut self, src: Author)
        requires
            old(self).wf(),
            !old(self).spec_contains_key(src),
        ensures
            final(self).wf(),
            final(self).keys@ == old(self).keys@.push(src),
            final(self).pairs@ == old(self).pairs@,
            final(self).spec_contains_key(src),
            forall|a: Author|
                #[trigger] final(self).spec_contains_key(a) == (old(self).spec_contains_key(a) || a
                    == src),
    {
        proof {
            assert forall|i: int| 0 <= i < self.keys@.len() implies self.keys@[i] != src by {
                if self.keys@[i] == src {
                    assert(self.keys@.contains(src));
                }
            }
        }
        self.keys.push(src);
        proof {
            assert(self.keys@.last() == src);
            assert(self.spec_contains_key(src));
            assert forall|a: Author| self.keys@.contains(a) implies (old(self).keys@.contains(a)
                || a == src) by {
                let i = choose|i: int| 0 <= i < self.keys@.len() && self.keys@[i] == a;
                if i < self.keys@.len() - 1 {
                    assert(old(self).keys@[i] == a);
                }
            }
            assert forall|a: Author| old(self).keys@.contains(a) implies self.keys@.contains(
                a,
            ) by {
                let i = choose|i: int| 0 <= i < old(self).keys@.len() && old(self).keys@[i] == a;
                assert(self.keys@[i] == a);
            }
        }
    }

    /// Start dropping traffic from `src` to `dst`. Idempotent: returns
    /// whether the configuration actually changed. No other pair is
    /// affected.
    pub fn drop_message_for(&mut self, src: &Author, dst: Author) -> (added: bool)
        requires
            old(self).wf(),
            old(self).spec_contains_key(*src),
        ensures
            final(self).wf(),
            added == !old(self).spec_dropped(*src, dst),
            final(self).spec_dropped(*src, dst),
            forall|s: Author, d: Author|
                !(s == *src && d == dst) ==> #[trigger] final(self).spec_dropped(s, d) == old(
                    self,
                ).spec_dropped(s, d),
            final(self).keys@ == old(self).keys@,
    {
        let n = self.pairs.len();
        let mut i: usize = 0;
        while i < n
            invariant
                self.keys@ == old(self).keys@,
                self.pairs@ == old(self).pairs@,
                old(self).wf(),
                old(self).spec_contains_key(*src),
                n == self.pairs@.len(),
                i <= n,
                forall|j: int| 0 <= j < i ==> self.pairs@[j] != (*src, dst),
            decreases n - i,
        {
            let (s, d) = self.pairs[i];
            if s == *src && d == dst {
                proof {
                    assert(self.pairs@[i as int] == (*src, dst));
                    assert(self.spec_dropped(*src, dst));
                }
                return false;
            }
            i += 1;
        }
        proof {
            if self.spec_dropped(*src, dst) {
                let j = choose|j: int|
                    0 <= j < self.pairs@.len() && self.pairs@[j] == (*src, dst);
                assert(false);
            }
        }
        self.pairs.push((*src, dst));
        proof {
            assert(self.pairs@.last() == (*src, dst));
            assert(self.spec_dropped(*src, dst));
            assert forall|s: Author, d: Author| !(s == *src && d == dst) implies self.spec_dropped(
                s,
                d,
            ) == old(self).spec_dropped(s, d) by {
                if self.spec_dropped(s, d) {
                    let j = choose|j: int|
                        0 <= j < self.pairs@.len() && self.pairs@[j] == (s, d);
                    assert(j < self.pairs@.len() - 1);
                    assert(old(self).pairs@[j] == (s, d));
                }
                if old(self).spec_dropped(s, d) {
                    let j = choose|j: int|
                        0 <= j < old(self).pairs@.len() && old(self).pairs@[j] == (s, d);
                    assert(self.pairs@[j] == (s, d));
                }
            }
        }
        true
    }

    /// Stop dropping traffic from `src` to `dst`. Idempotent: returns
    /// whether the pair was configured. No other pair is affected.
    pub fn stop_drop_message_for(&mut self, src: &Author, dst: &Author) -> (removed: bool)
        requires
            old(self).wf(),
            old(self).spec_contains_key(*src),
        ensures
            final(self).wf(),
            removed == old(self).spec_dropped(*src, *dst),
            !final(self).spec_dropped(*src, *dst),
            forall|s: Author, d: Author|
                !(s == *src && d == *dst) ==> #[trigger] final(self).spec_dropped(s, d) == old(
                    self,
                ).spec_dropped(s, d),
            final(self).keys@ == old(self).keys@,
    {
        let n = self.pairs.len();
        let mut i: usize = 0;
        while i < n
            invariant
                self.keys@ == old(self).keys@,
                self.pairs@ == old(self).pairs@,
                old(self).wf(),
                old(self).spec_contains_key(*src),
                n == self.pairs@.len(),
                i <= n,
                forall|j: int| 0 <= j < i ==> self.pairs@[j] != (*src, *dst),
            decreases n - i,
        {
            let (s, d) = self.pairs[i];
            if s == *src && d == *dst {
                proof {
                    assert(self.pairs@[i as int] == (*src, *dst));
                    assert(old(self).spec_dropped(*src, *dst));
                }
                self.pairs.remove(i);
                proof {
                    let p0 = old(self).pairs@;
                    let p1 = self.pairs@;
                    assert(p1 =~= p0.remove(i as int));
                    p0.remove_ensures(i as int);
                    assert forall|x: (Author, Author)| p1.contains(x) implies (p0.contains(x) && x
                        != (*src, *dst)) by {
                        let j = choose|j: int| 0 <= j < p1.len() && #[trigger] p1[j] == x;
                        if j < i {
                            assert(p0[j] == x);
                            assert(p0[j] != p0[i as int]);
                        } else {
                            assert(p0[j + 1] == x);
                            assert(p0[j + 1] != p0[i as int]);
                        }
                    }
                    assert forall|x: (Author, Author)| p0.contains(x) && x != (
                    *src,
                    *dst,
                    ) implies p1.contains(x) by {
                        let j = choose|j: int| 0 <= j < p0.len() && #[trigger] p0[j] == x;
                        if j < i {
                            assert(p1[j] == x);
                        } else {
                            assert(j != i);
                            assert(p1[j - 1] == p0[j]);
                        }
                    }
                    assert(self.wf()) by {
                        assert forall|a: int, b: int| 0 <= a < b < p1.len() implies p1[a] != p1[
                        b] by {
                            if a < i && b < i {
                                assert(p1[a] == p0[a] && p1[b] == p0[b]);
                            } else if a < i {
                                assert(p1[a] == p0[a] && p1[b] == p0[b + 1]);
                            } else {
                                assert(p1[a] == p0[a + 1] && p1[b] == p0[b + 1]);
                            }
                        }
                        assert forall|k: int| 0 <= k < p1.len() implies self.spec_contains_key(
                            (#[trigger] p1[k]).0,
                        ) by {
                            if k < i {
                                assert(p1[k] == p0[k]);
                            } else {
                                assert(p1[k] == p0[k + 1]);
                            }
                        }
                    }
                }
                return true;
            }
            i += 1;
        }
        proof {
            if self.spec_dropped(*src, *dst) {
                let j = choose|j: int|
                    0 <= j < self.pairs@.len() && self.pairs@[j] == (*src, *dst);
                assert(false);
            }
        }
        false
    }

    /// Whether the configuration drops the given outbound envelope. The
    /// source must be registered; a lookup for an unknown source is a
    /// test-setup defect, not a condition to tolerate.
    pub fn is_message_dropped(&self, src: &Author, net_req: &NetworkRequest) -> (b: bool)
        requires
            self.spec_contains_key(*src),
        ensures
            b == self.spec_msg_dropped(*src, *net_req),
    {
        match net_req {
            NetworkRequest::SendMessage(dst, _) => self.pair_dropped(src, dst),
            NetworkRequest::SendRpc(dst, _) => self.pair_dropped(src, dst),
            NetworkRequest::Broadcast(_) => true,
        }
    }

    /// Linear lookup of one (source, destination) pair.
    fn pair_dropped(&self, src: &Author, dst: &Author) -> (b: bool)
        ensures
            b == self.spec_dropped(*src, *dst),
    {
        let n = self.pairs.len();
        let mut i: usize = 0;
        while i < n
            invariant
                n == self.pairs@.len(),
                i <= n,
                forall|j: int| 0 <= j < i ==> self.pairs@[j] != (*src, *dst),
            decreases n - i,
        {
            let (s, d) = self.pairs[i];
            if s == *src && d == *dst {
                proof {
                    assert(self.pairs@[i as int] == (*src, *dst));
                }
                return true;
            }
            i += 1;
        }
        proof {
            if self.spec_dropped(*src, *dst) {
                let j = choose|j: int|
                    0 <= j < self.pairs@.len() && self.pairs@[j] == (*src, *dst);
                assert(false);
            }
        }
        false
    }
}

/// The mathematical value of a sequence of proposals.
pub open spec fn proposals_view(s: Seq<ProposalMsg>) -> Seq<ProposalMsgView> {
    s.map_values(|p: ProposalMsg| p@)
}

/// How [`proposals_view`] relates to its argument, element for element.
pub broadcast proof fn lemma_proposals_view(s: Seq<ProposalMsg>)
    ensures
        (#[trigger] proposals_view(s)).len() == s.len(),
        forall|i: int| 0 <= i < s.len() ==> proposals_view(s)[i] == (#[trigger] s[i])@,
{
}

/// The mathematical value of a sequence of sync-info messages.
pub open spec fn sync_infos_view(s: Seq<SyncInfo>) -> Seq<SyncInfoView> {
    s.map_values(|m: SyncInfo| m@)
}

/// How [`sync_infos_view`] relates to its argument, element for element.
pub broadcast proof fn lemma_sync_infos_view(s: Seq<SyncInfo>)
    ensures
        (#[trigger] sync_infos_view(s)).len() == s.len(),
        forall|i: int| 0 <= i < s.len() ==> sync_infos_view(s)[i] == (#[trigger] s[i])@,
{
}

/// Mathematical value of a peer's [`NetworkReceivers`].
pub ghost struct NetworkReceiversView {
    pub votes: Seq<VoteMsg>,
    pub proposals: Seq<ProposalMsgView>,
    pub timeout_msgs: Seq<TimeoutMsg>,
    pub sync_infos: Seq<SyncInfoView>,
    pub block_retrieval: Seq<(Author, BlockRetrievalRequest)>,
}

/// A peer's delivered inbound traffic, demultiplexed by message kind. Each
/// queue is consumed front to first, one element per inbound message of that
/// kind, and consuming an element is the only way to observe it.
pub struct NetworkReceivers {
    pub votes: Vec<VoteMsg>,
    pub proposals: Vec<ProposalMsg>,
    pub timeout_msgs: Vec<TimeoutMsg>,
    pub sync_infos: Vec<SyncInfo>,
    pub block_retrieval: Vec<(Author, BlockRetrievalRequest)>,
}

impl View for NetworkReceivers {
    type V = NetworkReceiversView;

    open spec fn view(&self) -> NetworkReceiversView {
        NetworkReceiversView {
            votes: self.votes@,
            proposals: proposals_view(self.proposals@),
            timeout_msgs: self.timeout_msgs@,
            sync_infos: sync_infos_view(self.sync_infos@),
            block_retrieval: self.block_retrieval@,
        }
    }
}

impl NetworkReceivers {
    pub fn new() -> (r: Self)
        ensures
            r@ == empty_receivers(),
    {
        let r = NetworkReceivers {
            votes: Vec::new(),
            proposals: Vec::new(),
            timeout_msgs: Vec::new(),
            sync_infos: Vec::new(),
            block_retrieval: Vec::new(),
        };
        proof {
            assert(proposals_view(r.proposals@) =~= Seq::<ProposalMsgView>::empty());
            assert(sync_infos_view(r.sync_infos@) =~= Seq::<SyncInfoView>::empty());
        }
        r
    }
}

/// The inbox of a freshly registered peer.
pub open spec fn empty_receivers() -> NetworkReceiversView {
    NetworkReceiversView {
        votes: Seq::empty(),
        proposals: Seq::empty(),
        timeout_msgs: Seq::empty(),
        sync_infos: Seq::empty(),
        block_retrieval: Seq::empty(),
    }
}

/// The votes one delivered message contributes to an inbox.
pub open spec fn votes_delta(m: ConsensusMsgView) -> Seq<VoteMsg> {
    match m {
        ConsensusMsgView::Vote(v) => seq![v],
        _ => Seq::empty(),
    }
}

/// The proposals one delivered message contributes to an inbox.
pub open spec fn proposals_delta(m: ConsensusMsgView) -> Seq<ProposalMsgView> {
    match m {
        ConsensusMsgView::Proposal(p) => seq![p],
        _ => Seq::empty(),
    }
}

/// The timeout messages one delivered message contributes to an inbox.
pub open spec fn timeout_msgs_delta(m: ConsensusMsgView) -> Seq<TimeoutMsg> {
    match m {
        ConsensusMsgView::TimeoutMsg(t) => seq![t],
        _ => Seq::empty(),
    }
}

/// The sync-info messages one delivered message contributes to an inbox.
pub open spec fn sync_infos_delta(m: ConsensusMsgView) -> Seq<SyncInfoView> {
    match m {
        ConsensusMsgView::SyncInfo(s) => seq![s],
        _ => Seq::empty(),
    }
}

/// An inbox after one direct-send delivery: the message joins the queue of
/// its own kind and nothing else moves.
pub open spec fn receivers_after(r: NetworkReceiversView, m: ConsensusMsgView) -> NetworkReceiversView {
    NetworkReceiversView {
        votes: r.votes + votes_delta(m),
        proposals: r.proposals + proposals_delta(m),
        timeout_msgs: r.timeout_msgs + timeout_msgs_delta(m),
        sync_infos: r.sync_infos + sync_infos_delta(m),
        block_retrieval: r.block_retrieval,
    }
}

/// Mathematical value of a buffered direct send.
pub ghost struct QueuedMsgView {
    pub src: Author,
    pub dst: Author,
    pub msg: ConsensusMsgView,
}

/// A buffered direct send: source, destination and the message itself,
/// awaiting an explicit drain.
pub struct QueuedMsg {
    pub src: Author,
    pub dst: Author,
    pub msg: ConsensusMsg,
}

impl View for QueuedMsg {
    type V = QueuedMsgView;

    open spec fn view(&self) -> QueuedMsgView {
        QueuedMsgView { src: self.src, dst: self.dst, msg: self.msg@ }
    }
}

/// The mathematical value of the buffered direct-send queue.
pub open spec fn queue_view(s: Seq<QueuedMsg>) -> Seq<QueuedMsgView> {
    s.map_values(|q: QueuedMsg| q@)
}

/// How [`queue_view`] relates to its argument, element for element.
pub broadcast proof fn lemma_queue_view(s: Seq<QueuedMsg>)
    ensures
        (#[trigger] queue_view(s)).len() == s.len(),
        forall|i: int| 0 <= i < s.len() ==> queue_view(s)[i] == (#[trigger] s[i])@,
{
}

/// The mathematical value of recorded message copies.
pub open spec fn accepted_view(s: Seq<(Author, ConsensusMsg)>) -> Seq<(Author, ConsensusMsgView)> {
    s.map_values(|p: (Author, ConsensusMsg)| (p.0, p.1@))
}

/// How [`accepted_view`] relates to its argument, element for element.
pub broadcast proof fn lemma_accepted_view(s: Seq<(Author, ConsensusMsg)>)
    ensures
        (#[trigger] accepted_view(s)).len() == s.len(),
        forall|i: int|
            0 <= i < s.len() ==> accepted_view(s)[i] == ((#[trigger] s[i]).0, s[i].1@),
{
}

/// A filter over delivered message copies, as the drain operation applies it.
#[derive(Clone, Copy, PartialEq, Eq, Debug)]
pub enum MsgInspector {
    /// Accept every message.
    TakeAll,
    /// Accept everything but timeout messages.
    ExcludeTimeoutMsg,
    /// Accept proposals only.
    ProposalsOnly,
    /// Accept votes only.
    VotesOnly,
    /// Accept timeout messages only.
    TimeoutMsgOnly,
    /// Accept sync-info messages only.
    SyncInfoOnly,
}

impl MsgInspector {
    /// Whether the filter accepts a delivered copy.
    pub open spec fn spec_accepts(self, src: Author, m: ConsensusMsgView) -> bool {
        match self {
            MsgInspector::TakeAll => true,
            MsgInspector::ExcludeTimeoutMsg => !(m is TimeoutMsg),
            MsgInspector::ProposalsOnly => m is Proposal,
            MsgInspector::VotesOnly => m is Vote,
            MsgInspector::TimeoutMsgOnly => m is TimeoutMsg,
            MsgInspector::SyncInfoOnly => m is SyncInfo,
        }
    }

    pub fn accepts(&self, msg_copy: &(Author, ConsensusMsg)) -> (b: bool)
        ensures
            b == self.spec_accepts(msg_copy.0, msg_copy.1@),
    {
        match self {
            MsgInspector::TakeAll => NetworkPlayground::take_all(msg_copy),
            MsgInspector::ExcludeTimeoutMsg => NetworkPlayground::exclude_timeout_msg(msg_copy),
            MsgInspector::ProposalsOnly => NetworkPlayground::proposals_only(msg_copy),
            MsgInspector::VotesOnly => NetworkPlayground::votes_only(msg_copy),
            MsgInspector::TimeoutMsgOnly => NetworkPlayground::timeout_msg_only(msg_copy),
            MsgInspector::SyncInfoOnly => NetworkPlayground::sync_info_only(msg_copy),
        }
    }
}

/// Whether a drain delivers and records one buffered direct send: it must
/// not be drop-configured and the inspector must accept it.
pub open spec fn counts(dc: DropConfig, f: MsgInspector, e: QueuedMsgView) -> bool {
    !dc.spec_dropped(e.src, e.dst) && f.spec_accepts(e.src, e.msg)
}

/// The copies a drain of exactly the buffered sends `q` records, in order.
pub open spec fn accepted_after(q: Seq<QueuedMsgView>, dc: DropConfig, f: MsgInspector) -> Seq<
    (Author, ConsensusMsgView),
>
    decreases q.len(),
{
    if q.len() == 0 {
        Seq::empty()
    } else {
        accepted_after(q.drop_last(), dc, f) + (if counts(dc, f, q.last()) {
            seq![(q.last().src, q.last().msg)]
        } else {
            Seq::empty()
        })
    }
}

/// A peer's inbox after the buffered sends `q` are drained in order: each
/// send addressed to the peer whose (source, destination) pair is not
/// drop-configured joins the queue of its kind.
pub open spec fn receivers_after_drain(
    r0: NetworkReceiversView,
    q: Seq<QueuedMsgView>,
    dc: DropConfig,
    dst: Author,
) -> NetworkReceiversView
    decreases q.len(),
{
    if q.len() == 0 {
        r0
    } else {
        let prev = receivers_after_drain(r0, q.drop_last(), dc, dst);
        let e = q.last();
        if e.dst == dst && !dc.spec_dropped(e.src, e.dst) {
            receivers_after(prev, e.msg)
        } else {
            prev
        }
    }
}

/// Draining a prefix records at most as many copies as draining the whole
/// queue.
pub proof fn lemma_accepted_prefix_le(
    q: Seq<QueuedMsgView>,
    dc: DropConfig,
    f: MsgInspector,
    i: int,
)
    requires
        0 <= i <= q.len(),
    ensures
        accepted_after(q.subrange(0, i), dc, f).len() <= accepted_after(q, dc, f).len(),
    decreases q.len(),
{
    if i == q.len() {
        assert(q.subrange(0, i) =~= q);
    } else {
        assert(q.subrange(0, i) =~= q.drop_last().subrange(0, i));
        lemma_accepted_prefix_le(q.drop_last(), dc, f, i);
    }
}

/// One step of a drain, unfolded: what the copies and one peer's inbox look
/// like after the prefix grows by the entry at `i`.
pub proof fn lemma_drain_step(
    r0: NetworkReceiversView,
    q: Seq<QueuedMsgView>,
    dc: DropConfig,
    f: MsgInspector,
    dst: Author,
    i: int,
)
    requires
        0 <= i < q.len(),
    ensures
        accepted_after(q.subrange(0, i + 1), dc, f) == accepted_after(q.subrange(0, i), dc, f) + (
        if counts(dc, f, q[i]) {
            seq![(q[i].src, q[i].msg)]
        } else {
            Seq::<(Author, ConsensusMsgView)>::empty()
        }),
        receivers_after_drain(r0, q.subrange(0, i + 1), dc, dst) == (if q[i].dst == dst
            && !dc.spec_dropped(q[i].src, q[i].dst) {
            receivers_after(receivers_after_drain(r0, q.subrange(0, i), dc, dst), q[i].msg)
        } else {
            receivers_after_drain(r0, q.subrange(0, i), dc, dst)
        }),
{
    let p0 = q.subrange(0, i);
    let p1 = q.subrange(0, i + 1);
    assert(p1.drop_last() =~= p0);
    assert(p1.last() == q[i]);
}

/// Removing the element at a position and inserting another there amounts to
/// an update at that position.
pub proof fn lemma_remove_insert<T>(s: Seq<T>, i: int, x: T)
    requires
        0 <= i < s.len(),
    ensures
        s.remove(i).insert(i, x) =~= s.update(i, x),
{
    s.remove_ensures(i);
    s.remove(i).insert_ensures(i, x);
}

/// The position of `a` in `peers` (meaningful when `a` is present).
pub open spec fn peer_index_in(peers: Seq<Author>, a: Author) -> int {
    choose|i: int| 0 <= i < peers.len() && peers[i] == a
}

/// Stands in for the transport during tests: routes outbound requests to the
/// right peer's inbox, buffers direct sends until a test drains them through
/// [`NetworkPlayground::wait_for_messages`], delivers RPC requests
/// immediately, and drops traffic between drop-configured pairs of peers.
pub struct NetworkPlayground {
    /// Registered peers, in registration order.
    pub peers: Vec<Author>,
    /// Each registered peer's inbox, parallel to `peers`.
    pub inboxes: Vec<NetworkReceivers>,
    /// Buffered direct sends awaiting an explicit drain, oldest first.
    pub queue: Vec<QueuedMsg>,
    /// The simulated packet loss between pairs of peers.
    pub drop_config: DropConfig,
}

impl NetworkPlayground {
    /// Whether `a` has been registered through `add_node`.
    pub open spec fn registered(self, a: Author) -> bool {
        self.peers@.contains(a)
    }

    /// The position of `a` in registration order (meaningful when
    /// registered).
    pub open spec fn peer_index(self, a: Author) -> int {
        peer_index_in(self.peers@, a)
    }

    /// The inbox of `a` (meaningful when registered).
    pub open spec fn inbox(self, a: Author) -> NetworkReceiversView {
        self.inboxes@[peer_index_in(self.peers@, a)]@
    }

    /// The buffered direct-send queue.
    pub open spec fn spec_queue(self) -> Seq<QueuedMsgView> {
        queue_view(self.queue@)
    }

    /// Distinct registered peers, one inbox per peer, a well-formed drop
    /// configuration knowing every peer, and a queue whose destinations are
    /// registered and whose sources are known to the drop configuration.
    pub open spec fn wf(self) -> bool {
        &&& forall|i: int, j: int|
            0 <= i < j < self.peers@.len() ==> self.peers@[i] != self.peers@[j]
        &&& self.inboxes@.len() == self.peers@.len()
        &&& self.drop_config.wf()
        &&& forall|i: int|
            0 <= i < self.peers@.len() ==> self.drop_config.spec_contains_key(
                #[trigger] self.peers@[i],
            )
        &&& forall|i: int|
            0 <= i < self.drop_config.keys@.len() ==> self.registered(
                #[trigger] self.drop_config.keys@[i],
            )
        &&& forall|i: int|
            0 <= i < self.queue@.len() ==> self.registered((#[trigger] self.queue@[i]).dst)
                && self.drop_config.spec_contains_key(self.queue@[i].src)
    }

    pub fn new() -> (p: Self)
        ensures
            p.wf(),
            p.peers@ == Seq::<Author>::empty(),
            p.queue@ == Seq::<QueuedMsg>::empty(),
            p.drop_config.keys@ == Seq::<Author>::empty(),
            p.drop_config.pairs@ == Seq::<(Author, Author)>::empty(),
    {
        NetworkPlayground {
            peers: Vec::new(),
            inboxes: Vec::new(),
            queue: Vec::new(),
            drop_config: DropConfig::new(),
        }
    }

    /// Register a new peer: it gets an empty inbox and an empty drop set,
    /// and every already registered peer keeps its state.
    pub fn add_node(&mut self, author: Author)
        requires
            old(self).wf(),
            !old(self).registered(author),
        ensures
            final(self).wf(),
            final(self).peers@ == old(self).peers@.push(author),
            final(self).registered(author),
            final(self).inbox(author) == empty_receivers(),
            forall|a: Author|
                old(self).registered(a) ==> #[trigger] final(self).inbox(a) == old(self).inbox(a),
            forall|a: Author|
                #[trigger] final(self).registered(a) == (old(self).registered(a) || a == author),
            final(self).queue@ == old(self).queue@,
            final(self).drop_config.pairs@ == old(self).drop_config.pairs@,
            final(self).drop_config.spec_contains_key(author),
    {
        proof {
            assert forall|i: int| 0 <= i < self.peers@.len() implies self.peers@[i] != author by {
                if self.peers@[i] == author {
                    assert(self.peers@.contains(author));
                }
            }
        }
        self.peers.push(author);
        self.inboxes.push(NetworkReceivers::new());
        proof {
            if self.drop_config.spec_contains_key(author) {
                let i = choose|i: int|
                    0 <= i < self.drop_config.keys@.len() && self.drop_config.keys@[i] == author;
                assert(old(self).registered(old(self).drop_config.keys@[i]));
            }
        }
        self.drop_config.add_node(author);
        proof {
            let n0 = old(self).peers@.len() as int;
            assert(self.peers@[n0] == author);
            assert(self.registered(author));
            assert forall|a: Author| self.peers@.contains(a) implies (old(self).peers@.contains(a)
                || a == author) by {
                let i = choose|i: int| 0 <= i < self.peers@.len() && self.peers@[i] == a;
                if i < n0 {
                    assert(old(self).peers@[i] == a);
                }
            }
            assert forall|a: Author| old(self).peers@.contains(a) implies self.peers@.contains(
                a,
            ) by {
                let i = choose|i: int|
                    0 <= i < old(self).peers@.len() && old(self).peers@[i] == a;
                assert(self.peers@[i] == a);
            }
            assert(self.peer_index(author) == n0) by {
                let i = self.peer_index(author);
                assert(0 <= i < self.peers@.len() && self.peers@[i] == author);
                if i < n0 {
                    assert(old(self).peers@[i] == author);
                    assert(old(self).registered(author));
                }
            }
            assert(self.inbox(author) == empty_receivers());
            assert forall|a: Author| old(self).registered(a) implies #[trigger] self.inbox(a)
                == old(self).inbox(a) by {
                let i = old(self).peer_index(a);
                assert(0 <= i < old(self).peers@.len() && old(self).peers@[i] == a);
                assert(self.peers@[i] == a);
                assert(self.peer_index(a) == i) by {
                    let j = self.peer_index(a);
                    assert(0 <= j < self.peers@.len() && self.peers@[j] == a);
                    if j == n0 {
                        assert(a == author);
                        assert(old(self).registered(author));
                    }
                }
                assert(self.inboxes@[i] == old(self).inboxes@[i]);
            }
            assert forall|i: int| 0 <= i < self.queue@.len() implies self.registered(
                (#[trigger] self.queue@[i]).dst,
            ) && self.drop_config.spec_contains_key(self.queue@[i].src) by {
                assert(old(self).registered(self.queue@[i].dst));
            }
        }
    }

    /// Position of a registered peer, by linear search.
    fn index_of_peer(&self, author: Author) -> (i: usize)
        requires
            self.wf(),
            self.registered(author),
        ensures
            i < self.peers@.len(),
            self.peers@[i as int] == author,
            i == self.peer_index(author),
    {
        let n = self.peers.len();
        let mut i: usize = 0;
        while i < n
            invariant
                self.wf(),
                self.registered(author),
                n == self.peers@.len(),
                i <= n,
                forall|j: int| 0 <= j < i ==> self.peers@[j] != author,
            decreases n - i,
        {
            if self.peers[i] == author {
                proof {
                    let j = self.peer_index(author);
                    assert(0 <= j < self.peers@.len() && self.peers@[j] == author);
                    assert(j == i);
                }
                return i;
            }
            i += 1;
        }
        proof {
            let j = choose|j: int| 0 <= j < self.peers@.len() && self.peers@[j] == author;
            assert(false);
        }
        0
    }

    /// Returns true for any message.
    pub fn take_all(_msg_copy: &(Author, ConsensusMsg)) -> (b: bool)
        ensures
            b,
    {
        true
    }

    /// Returns true for any message other than a timeout message.
    pub fn exclude_timeout_msg(msg_copy: &(Author, ConsensusMsg)) -> (b: bool)
        ensures
            b == !(msg_copy.1@ is TimeoutMsg),
    {
        !msg_copy.1.has_timeout_msg()
    }

    /// Returns true for proposal messages only.
    pub fn proposals_only(msg_copy: &(Author, ConsensusMsg)) -> (b: bool)
        ensures
            b == (msg_copy.1@ is Proposal),
    {
        msg_copy.1.has_proposal()
    }

    /// Returns true for vote messages only.
    pub fn votes_only(msg_copy: &(Author, ConsensusMsg)) -> (b: bool)
        ensures
            b == (msg_copy.1@ is Vote),
    {
        msg_copy.1.has_vote()
    }

    /// Returns true for timeout messages only.
    pub fn timeout_msg_only(msg_copy: &(Author, ConsensusMsg)) -> (b: bool)
        ensures
            b == (msg_copy.1@ is TimeoutMsg),
    {
        msg_copy.1.has_timeout_msg()
    }

    /// Returns true for sync-info messages only.
    pub fn sync_info_only(msg_copy: &(Author, ConsensusMsg)) -> (b: bool)
        ensures
            b == (msg_copy.1@ is SyncInfo),
    {
        msg_copy.1.has_sync_info()
    }

    /// Deliver one direct send into the inbox at position `idx`,
    /// demultiplexing by message kind.
    fn deliver_direct(&mut self, idx: usize, msg: ConsensusMsg)
        requires
            idx < old(self).inboxes@.len(),
        ensures
            final(self).inboxes@.len() == old(self).inboxes@.len(),
            final(self).inboxes@[idx as int]@ == receivers_after(
                old(self).inboxes@[idx as int]@,
                msg@,
            ),
            forall|j: int|
                0 <= j < old(self).inboxes@.len() && j != idx ==> #[trigger] final(self).inboxes@[j] == old(self).inboxes@[j],
            final(self).peers@ == old(self).peers@,
            final(self).queue@ == old(self).queue@,
            final(self).drop_config == old(self).drop_config,
    {
        let ghost ib0 = old(self).inboxes@[idx as int]@;
        let ghost m = msg@;
        let mut ib = self.inboxes.remove(idx);
        match msg {
            ConsensusMsg::Vote(v) => {
                proof {
                    assert(m == ConsensusMsgView::Vote(v));
                }
                ib.votes.push(v);
            },
            ConsensusMsg::Proposal(p) => {
                proof {
                    assert(m == ConsensusMsgView::Proposal(p@));
                }
                ib.proposals.push(p);
            },
            ConsensusMsg::TimeoutMsg(t) => {
                proof {
                    assert(m == ConsensusMsgView::TimeoutMsg(t));
                }
                ib.timeout_msgs.push(t);
            },
            ConsensusMsg::SyncInfo(s) => {
                proof {
                    assert(m == ConsensusMsgView::SyncInfo(s@));
                }
                ib.sync_infos.push(s);
            },
        }
        proof {
            broadcast use lemma_proposals_view, lemma_sync_infos_view;

            assert(ib@.votes =~= receivers_after(ib0, m).votes);
            assert(ib@.proposals =~= receivers_after(ib0, m).proposals);
            assert(ib@.timeout_msgs =~= receivers_after(ib0, m).timeout_msgs);
            assert(ib@.sync_infos =~= receivers_after(ib0, m).sync_infos);
            assert(ib@.block_retrieval =~= receivers_after(ib0, m).block_retrieval);
            assert(ib@ == receivers_after(ib0, m));
        }
        let ghost ib_final = ib;
        self.inboxes.insert(idx, ib);
        proof {
            lemma_remove_insert(old(self).inboxes@, idx as int, ib_final);
            assert(self.inboxes@ == old(self).inboxes@.update(idx as int, ib_final));
        }
    }

    /// Surface an inbound RPC request in the inbox at position `idx`.
    fn push_block_retrieval(&mut self, idx: usize, src: Author, req: BlockRetrievalRequest)
        requires
            idx < old(self).inboxes@.len(),
        ensures
            final(self).inboxes@.len() == old(self).inboxes@.len(),
            final(self).inboxes@[idx as int]@.block_retrieval == old(self).inboxes@[idx as int]@.block_retrieval.push((src, req)),
            final(self).inboxes@[idx as int]@.votes == old(self).inboxes@[idx as int]@.votes,
            final(self).inboxes@[idx as int]@.proposals == old(self).inboxes@[idx as int]@.proposals,
            final(self).inboxes@[idx as int]@.timeout_msgs == old(self).inboxes@[idx as int]@.timeout_msgs,
            final(self).inboxes@[idx as int]@.sync_infos == old(self).inboxes@[idx as int]@.sync_infos,
            forall|j: int|
                0 <= j < old(self).inboxes@.len() && j != idx ==> #[trigger] final(self).inboxes@[j] == old(self).inboxes@[j],
            final(self).peers@ == old(self).peers@,
            final(self).queue@ == old(self).queue@,
            final(self).drop_config == old(self).drop_config,
    {
        let mut ib = self.inboxes.remove(idx);
        ib.block_retrieval.push((src, req));
        let ghost ib_final = ib;
        self.inboxes.insert(idx, ib);
        proof {
            lemma_remove_insert(old(self).inboxes@, idx as int, ib_final);
            assert(self.inboxes@ == old(self).inboxes@.update(idx as int, ib_final));
        }
    }

    /// Start dropping direct sends and RPC requests from `src` to `dst`.
    pub fn drop_message_for(&mut self, src: &Author, dst: Author) -> (added: bool)
        requires
            old(self).wf(),
            old(self).registered(*src),
        ensures
            final(self).wf(),
            added == !old(self).drop_config.spec_dropped(*src, dst),
            final(self).drop_config.spec_dropped(*src, dst),
            forall|s: Author, d: Author|
                !(s == *src && d == dst) ==> #[trigger] final(self).drop_config.spec_dropped(s, d)
                    == old(self).drop_config.spec_dropped(s, d),
            final(self).peers@ == old(self).peers@,
            final(self).inboxes@ == old(self).inboxes@,
            final(self).queue@ == old(self).queue@,
            forall|a: Author|
                old(self).registered(a) ==> #[trigger] final(self).inbox(a) == old(self).inbox(a),
    {
        proof {
            let i = choose|i: int| 0 <= i < self.peers@.len() && self.peers@[i] == *src;
            assert(self.drop_config.spec_contains_key(self.peers@[i]));
        }
        self.drop_config.drop_message_for(src, dst)
    }

    /// Stop dropping direct sends and RPC requests from `src` to `dst`;
    /// later sends are delivered normally again.
    pub fn stop_drop_message_for(&mut self, src: &Author, dst: &Author) -> (removed: bool)
        requires
            old(self).wf(),
            old(self).registered(*src),
        ensures
            final(self).wf(),
            removed == old(self).drop_config.spec_dropped(*src, *dst),
            !final(self).drop_config.spec_dropped(*src, *dst),
            forall|s: Author, d: Author|
                !(s == *src && d == *dst) ==> #[trigger] final(self).drop_config.spec_dropped(s, d)
                    == old(self).drop_config.spec_dropped(s, d),
            final(self).peers@ == old(self).peers@,
            final(self).inboxes@ == old(self).inboxes@,
            final(self).queue@ == old(self).queue@,
            forall|a: Author|
                old(self).registered(a) ==> #[trigger] final(self).inbox(a) == old(self).inbox(a),
    {
        proof {
            let i = choose|i: int| 0 <= i < self.peers@.len() && self.peers@[i] == *src;
            assert(self.drop_config.spec_contains_key(self.peers@[i]));
        }
        self.drop_config.stop_drop_message_for(src, dst)
    }

    /// Deliver an RPC request from `src` immediately to `dst`'s inbox —
    /// bypassing the buffered direct-send queue — unless the pair is
    /// drop-configured, in which case it is silently discarded and the
    /// requester eventually observes a timeout. Returns whether the request
    /// was delivered.
    pub fn deliver_rpc(&mut self, src: Author, dst: Author, req: BlockRetrievalRequest) -> (delivered: bool)
        requires
            old(self).wf(),
            old(self).registered(dst),
            old(self).drop_config.spec_contains_key(src),
        ensures
            final(self).wf(),
            delivered == !old(self).drop_config.spec_dropped(src, dst),
            !delivered ==> *final(self) == *old(self),
            delivered ==> final(self).inbox(dst).block_retrieval == old(self).inbox(
                dst,
            ).block_retrieval.push((src, req)),
            delivered ==> final(self).inbox(dst).votes == old(self).inbox(dst).votes && final(self).inbox(dst).proposals == old(self).inbox(dst).proposals && final(self).inbox(
                dst,
            ).timeout_msgs == old(self).inbox(dst).timeout_msgs && final(self).inbox(
                dst,
            ).sync_infos == old(self).inbox(dst).sync_infos,
            forall|a: Author|
                old(self).registered(a) && a != dst ==> #[trigger] final(self).inbox(a) == old(
                    self,
                ).inbox(a),
            final(self).peers@ == old(self).peers@,
            final(self).queue@ == old(self).queue@,
            final(self).drop_config == old(self).drop_config,
    {
        let net_req = NetworkRequest::SendRpc(dst, req);
        if self.drop_config.is_message_dropped(&src, &net_req) {
            return false;
        }
        let idx = self.index_of_peer(dst);
        self.push_block_retrieval(idx, src, req);
        proof {
            lemma_inbox_frame(*old(self), *self, idx as int, dst);
        }
        true
    }

    /// Pop the next delivered vote from `author`'s inbox, oldest first.
    pub fn next_vote(&mut self, author: Author) -> (r: Option<VoteMsg>)
        requires
            old(self).wf(),
            old(self).registered(author),
        ensures
            final(self).wf(),
            old(self).inbox(author).votes.len() == 0 ==> r is None && *final(self) == *old(self),
            old(self).inbox(author).votes.len() > 0 ==> {
                &&& r == Some(old(self).inbox(author).votes[0])
                &&& final(self).inbox(author).votes == old(self).inbox(author).votes.subrange(
                    1,
                    old(self).inbox(author).votes.len() as int,
                )
                &&& final(self).inbox(author).proposals == old(self).inbox(author).proposals
                &&& final(self).inbox(author).timeout_msgs == old(self).inbox(author).timeout_msgs
                &&& final(self).inbox(author).sync_infos == old(self).inbox(author).sync_infos
                &&& final(self).inbox(author).block_retrieval == old(self).inbox(
                    author,
                ).block_retrieval
            },
            forall|a: Author|
                old(self).registered(a) && a != author ==> #[trigger] final(self).inbox(a) == old(
                    self,
                ).inbox(a),
            final(self).peers@ == old(self).peers@,
            final(self).queue@ == old(self).queue@,
            final(self).drop_config == old(self).drop_config,
    {
        let idx = self.index_of_peer(author);
        if self.inboxes[idx].votes.len() == 0 {
            return None;
        }
        let mut ib = self.inboxes.remove(idx);
        let v = ib.votes.remove(0);
        let ghost vlen = old(self).inboxes@[idx as int]@.votes.len() as int;
        proof {
            assert(ib.votes@ =~= old(self).inboxes@[idx as int].votes@.subrange(1, vlen));
        }
        let ghost ib_final = ib;
        self.inboxes.insert(idx, ib);
        proof {
            lemma_remove_insert(old(self).inboxes@, idx as int, ib_final);
            assert(self.inboxes@ == old(self).inboxes@.update(idx as int, ib_final));
            lemma_inbox_frame(*old(self), *self, idx as int, author);
        }
        Some(v)
    }

    /// Pop the next delivered proposal from `author`'s inbox, oldest first.
    pub fn next_proposal(&mut self, author: Author) -> (r: Option<ProposalMsg>)
        requires
            old(self).wf(),
            old(self).registered(author),
        ensures
            final(self).wf(),
            old(self).inbox(author).proposals.len() == 0 ==> r is None && *final(self) == *old(
                self,
            ),
            old(self).inbox(author).proposals.len() > 0 ==> {
                &&& r is Some
                &&& (r matches Some(p) ==> p@ == old(self).inbox(author).proposals[0])
                &&& final(self).inbox(author).proposals == old(self).inbox(
                    author,
                ).proposals.subrange(1, old(self).inbox(author).proposals.len() as int)
                &&& final(self).inbox(author).votes == old(self).inbox(author).votes
                &&& final(self).inbox(author).timeout_msgs == old(self).inbox(author).timeout_msgs
                &&& final(self).inbox(author).sync_infos == old(self).inbox(author).sync_infos
                &&& final(self).inbox(author).block_retrieval == old(self).inbox(
                    author,
                ).block_retrieval
            },
            forall|a: Author|
                old(self).registered(a) && a != author ==> #[trigger] final(self).inbox(a) == old(
                    self,
                ).inbox(a),
            final(self).peers@ == old(self).peers@,
            final(self).queue@ == old(self).queue@,
            final(self).drop_config == old(self).drop_config,
    {
        let idx = self.index_of_peer(author);
        if self.inboxes[idx].proposals.len() == 0 {
            return None;
        }
        let mut ib = self.inboxes.remove(idx);
        let p = ib.proposals.remove(0);
        proof {
            broadcast use lemma_proposals_view;

            let pre = old(self).inboxes@[idx as int].proposals@;
            assert(ib.proposals@ =~= pre.subrange(1, pre.len() as int));
            assert(proposals_view(ib.proposals@) =~= proposals_view(pre).subrange(
                1,
                pre.len() as int,
            ));
        }
        let ghost ib_final = ib;
        self.inboxes.insert(idx, ib);
        proof {
            lemma_remove_insert(old(self).inboxes@, idx as int, ib_final);
            assert(self.inboxes@ == old(self).inboxes@.update(idx as int, ib_final));
            lemma_inbox_frame(*old(self), *self, idx as int, author);
        }
        Some(p)
    }

    /// Pop the next delivered timeout message from `author`'s inbox, oldest
    /// first.
    pub fn next_timeout_msg(&mut self, author: Author) -> (r: Option<TimeoutMsg>)
        requires
            old(self).wf(),
            old(self).registered(author),
        ensures
            final(self).wf(),
            old(self).inbox(author).timeout_msgs.len() == 0 ==> r is None && *final(self) == *old(
                self,
            ),
            old(self).inbox(author).timeout_msgs.len() > 0 ==> {
                &&& r == Some(old(self).inbox(author).timeout_msgs[0])
                &&& final(self).inbox(author).timeout_msgs == old(self).inbox(
                    author,
                ).timeout_msgs.subrange(1, old(self).inbox(author).timeout_msgs.len() as int)
                &&& final(self).inbox(author).votes == old(self).inbox(author).votes
                &&& final(self).inbox(author).proposals == old(self).inbox(author).proposals
                &&& final(self).inbox(author).sync_infos == old(self).inbox(author).sync_infos
                &&& final(self).inbox(author).block_retrieval == old(self).inbox(
                    author,
                ).block_retrieval
            },
            forall|a: Author|
                old(self).registered(a) && a != author ==> #[trigger] final(self).inbox(a) == old(
                    self,
                ).inbox(a),
            final(self).peers@ == old(self).peers@,
            final(self).queue@ == old(self).queue@,
            final(self).drop_config == old(self).drop_config,
    {
        let idx = self.index_of_peer(author);
        if self.inboxes[idx].timeout_msgs.len() == 0 {
            return None;
        }
        let mut ib = self.inboxes.remove(idx);
        let t = ib.timeout_msgs.remove(0);
        proof {
            let pre = old(self).inboxes@[idx as int].timeout_msgs@;
            assert(ib.timeout_msgs@ =~= pre.subrange(1, pre.len() as int));
        }
        let ghost ib_final = ib;
        self.inboxes.insert(idx, ib);
        proof {
            lemma_remove_insert(old(self).inboxes@, idx as int, ib_final);
            assert(self.inboxes@ == old(self).inboxes@.update(idx as int, ib_final));
            lemma_inbox_frame(*old(self), *self, idx as int, author);
        }
        Some(t)
    }

    /// Pop the next delivered sync-info message from `author`'s inbox,
    /// oldest first.
    pub fn next_sync_info(&mut self, author: Author) -> (r: Option<SyncInfo>)
        requires
            old(self).wf(),
            old(self).registered(author),
        ensures
            final(self).wf(),
            old(self).inbox(author).sync_infos.len() == 0 ==> r is None && *final(self) == *old(
                self,
            ),
            old(self).inbox(author).sync_infos.len() > 0 ==> {
                &&& r is Some
                &&& (r matches Some(s) ==> s@ == old(self).inbox(author).sync_infos[0])
                &&& final(self).inbox(author).sync_infos == old(self).inbox(
                    author,
                ).sync_infos.subrange(1, old(self).inbox(author).sync_infos.len() as int)
                &&& final(self).inbox(author).votes == old(self).inbox(author).votes
                &&& final(self).inbox(author).proposals == old(self).inbox(author).proposals
                &&& final(self).inbox(author).timeout_msgs == old(self).inbox(author).timeout_msgs
                &&& final(self).inbox(author).block_retrieval == old(self).inbox(
                    author,
                ).block_retrieval
            },
            forall|a: Author|
                old(self).registered(a) && a != author ==> #[trigger] final(self).inbox(a) == old(
                    self,
                ).inbox(a),
            final(self).peers@ == old(self).peers@,
            final(self).queue@ == old(self).queue@,
            final(self).drop_config == old(self).drop_config,
    {
        let idx = self.index_of_peer(author);
        if self.inboxes[idx].sync_infos.len() == 0 {
            return None;
        }
        let mut ib = self.inboxes.remove(idx);
        let s = ib.sync_infos.remove(0);
        proof {
            broadcast use lemma_sync_infos_view;

            let pre = old(self).inboxes@[idx as int].sync_infos@;
            assert(ib.sync_infos@ =~= pre.subrange(1, pre.len() as int));
            assert(sync_infos_view(ib.sync_infos@) =~= sync_infos_view(pre).subrange(
                1,
                pre.len() as int,
            ));
        }
        let ghost ib_final = ib;
        self.inboxes.insert(idx, ib);
        proof {
            lemma_remove_insert(old(self).inboxes@, idx as int, ib_final);
            assert(self.inboxes@ == old(self).inboxes@.update(idx as int, ib_final));
            lemma_inbox_frame(*old(self), *self, idx as int, author);
        }
        Some(s)
    }

    /// Pop the next surfaced block-retrieval request — with its requester —
    /// from `author`'s inbox, oldest first. The external block store is
    /// expected to answer each surfaced request exactly once.
    pub fn next_block_retrieval(&mut self, author: Author) -> (r: Option<
        (Author, BlockRetrievalRequest),
    >)
        requires
            old(self).wf(),
            old(self).registered(author),
        ensures
            final(self).wf(),
            old(self).inbox(author).block_retrieval.len() == 0 ==> r is None && *final(self)
                == *old(self),
            old(self).inbox(author).block_retrieval.len() > 0 ==> {
                &&& r == Some(old(self).inbox(author).block_retrieval[0])
                &&& final(self).inbox(author).block_retrieval == old(self).inbox(
                    author,
                ).block_retrieval.subrange(1, old(self).inbox(author).block_retrieval.len() as int)
                &&& final(self).inbox(author).votes == old(self).inbox(author).votes
                &&& final(self).inbox(author).proposals == old(self).inbox(author).proposals
                &&& final(self).inbox(author).timeout_msgs == old(self).inbox(author).timeout_msgs
                &&& final(self).inbox(author).sync_infos == old(self).inbox(author).sync_infos
            },
            forall|a: Author|
                old(self).registered(a) && a != author ==> #[trigger] final(self).inbox(a) == old(
                    self,
                ).inbox(a),
            final(self).peers@ == old(self).peers@,
            final(self).queue@ == old(self).queue@,
            final(self).drop_config == old(self).drop_config,
    {
        let idx = self.index_of_peer(author);
        if self.inboxes[idx].block_retrieval.len() == 0 {
            return None;
        }
        let mut ib = self.inboxes.remove(idx);
        let q = ib.block_retrieval.remove(0);
        proof {
            let pre = old(self).inboxes@[idx as int].block_retrieval@;
            assert(ib.block_retrieval@ =~= pre.subrange(1, pre.len() as int));
        }
        let ghost ib_final = ib;
        self.inboxes.insert(idx, ib);
        proof {
            lemma_remove_insert(old(self).inboxes@, idx as int, ib_final);
            assert(self.inboxes@ == old(self).inboxes@.update(idx as int, ib_final));
            lemma_inbox_frame(*old(self), *self, idx as int, author);
        }
        Some(q)
    }
}

/// What one drain call did, witnessed by the number `k` of buffered sends it
/// consumed: the recorded copies are exactly the accepted sends of the
/// consumed prefix, the queue keeps the untouched suffix, the prefix ends
/// with an accepted send (nothing is consumed past the last accepted one),
/// and every registered peer's inbox has received exactly the non-dropped
/// sends of the prefix addressed to it, in order.
pub open spec fn drain_post(
    pre: NetworkPlayground,
    post: NetworkPlayground,
    copies: Seq<(Author, ConsensusMsg)>,
    f: MsgInspector,
    k: int,
) -> bool {
    &&& 0 <= k <= pre.queue@.len()
    &&& accepted_view(copies) == accepted_after(pre.spec_queue().subrange(0, k), pre.drop_config, f)
    &&& post.queue@ == pre.queue@.subrange(k, pre.queue@.len() as int)
    &&& (k > 0 ==> counts(pre.drop_config, f, pre.spec_queue()[k - 1]))
    &&& forall|a: Author|
        pre.registered(a) ==> #[trigger] post.inbox(a) == receivers_after_drain(
            pre.inbox(a),
            pre.spec_queue().subrange(0, k),
            pre.drop_config,
            a,
        )
}

impl NetworkPlayground {
    /// Drain buffered direct sends until exactly `num_messages` of them have
    /// been accepted by the inspector, and return the accepted copies in
    /// order. Every drained send whose (source, destination) pair is not
    /// drop-configured is delivered to its destination's inbox whether or
    /// not the inspector accepts it; a drop-configured send is discarded
    /// without being delivered or counted. The queue must already hold
    /// enough acceptable sends: on fewer, a live transport would suspend
    /// awaiting more traffic, which a deterministic harness cannot do.
    pub fn wait_for_messages(&mut self, num_messages: usize, msg_inspector: MsgInspector) -> (msg_copies: Vec<(Author, ConsensusMsg)>)
        requires
            old(self).wf(),
            num_messages <= accepted_after(
                old(self).spec_queue(),
                old(self).drop_config,
                msg_inspector,
            ).len(),
        ensures
            final(self).wf(),
            msg_copies@.len() == num_messages,
            final(self).peers@ == old(self).peers@,
            final(self).drop_config == old(self).drop_config,
            exists|k: int|
                #[trigger] drain_post(*old(self), *final(self), msg_copies@, msg_inspector, k),
    {
        let ghost snap = *self;
        let ghost q0 = self.spec_queue();
        let ghost dc0 = self.drop_config;
        let qlen = self.queue.len();
        proof {
            broadcast use lemma_queue_view;

            assert(q0.len() == qlen);
        }
        let mut msg_copies: Vec<(Author, ConsensusMsg)> = Vec::new();
        let mut i: usize = 0;
        while msg_copies.len() < num_messages
            invariant
                self.wf(),
                q0.len() == qlen,
                snap == *old(self),
                snap.wf(),
                q0 == snap.spec_queue(),
                dc0 == snap.drop_config,
                self.peers@ == snap.peers@,
                self.queue@ == snap.queue@,
                self.drop_config == snap.drop_config,
                i <= q0.len(),
                num_messages <= accepted_after(q0, dc0, msg_inspector).len(),
                accepted_view(msg_copies@) == accepted_after(
                    q0.subrange(0, i as int),
                    dc0,
                    msg_inspector,
                ),
                msg_copies@.len() <= num_messages,
                (num_messages > 0 && msg_copies@.len() == num_messages) ==> (i > 0 && counts(
                    dc0,
                    msg_inspector,
                    q0[i - 1],
                )),
                num_messages == 0 ==> i == 0,
                forall|a: Author|
                    snap.registered(a) ==> #[trigger] self.inbox(a) == receivers_after_drain(
                        snap.inbox(a),
                        q0.subrange(0, i as int),
                        dc0,
                        a,
                    ),
            decreases q0.len() - i,
        {
            proof {
                broadcast use lemma_queue_view;

                if i == q0.len() {
                    assert(q0.subrange(0, i as int) =~= q0);
                    lemma_accepted_prefix_le(q0, dc0, msg_inspector, i as int);
                    assert(false);
                }
                assert(i < self.queue@.len());
            }
            let src = self.queue[i].src;
            let dst = self.queue[i].dst;
            let ghost e = q0[i as int];
            proof {
                broadcast use lemma_queue_view;

                assert(e == self.queue@[i as int]@);
            }
            let dropped = self.drop_config.pair_dropped(&src, &dst);
            let ghost self_pre = *self;
            let ghost copies_pre = msg_copies@;
            if !dropped {
                let msg = self.queue[i].msg.clone();
                proof {
                    assert(msg@ == e.msg);
                }
                let idx = self.index_of_peer(dst);
                self.deliver_direct(idx, msg);
                proof {
                    lemma_inbox_frame(self_pre, *self, idx as int, dst);
                    assert(self_pre.inbox(dst) == self_pre.inboxes@[idx as int]@);
                    assert(self.inbox(dst) == receivers_after(self_pre.inbox(dst), e.msg));
                }
                let pair = (src, self.queue[i].msg.clone());
                proof {
                    assert(pair.1@ == e.msg);
                }
                if msg_inspector.accepts(&pair) {
                    msg_copies.push(pair);
                    proof {
                        broadcast use lemma_accepted_view;

                        assert(accepted_view(msg_copies@) =~= accepted_view(copies_pre).push(
                            (src, e.msg),
                        ));
                    }
                }
            }
            proof {
                broadcast use lemma_queue_view;

                let p0 = q0.subrange(0, i as int);
                let p1 = q0.subrange(0, i as int + 1);
                assert(p1.drop_last() =~= p0);
                assert(p1.last() == e);
                if counts(dc0, msg_inspector, e) {
                    assert(accepted_after(p1, dc0, msg_inspector) == accepted_after(
                        p0,
                        dc0,
                        msg_inspector,
                    ) + seq![(e.src, e.msg)]);
                    assert(accepted_view(copies_pre).push((e.src, e.msg)) =~= accepted_view(
                        copies_pre,
                    ) + seq![(e.src, e.msg)]);
                    assert(accepted_view(msg_copies@) == accepted_after(p1, dc0, msg_inspector));
                } else {
                    assert(accepted_after(p1, dc0, msg_inspector) =~= accepted_after(
                        p0,
                        dc0,
                        msg_inspector,
                    ));
                    assert(msg_copies@ == copies_pre);
                }
                assert forall|a: Author| snap.registered(a) implies #[trigger] self.inbox(a)
                    == receivers_after_drain(snap.inbox(a), p1, dc0, a) by {
                    lemma_drain_step(snap.inbox(a), q0, dc0, msg_inspector, a, i as int);
                    assert(self_pre.inbox(a) == receivers_after_drain(snap.inbox(a), p0, dc0, a));
                    if !dc0.spec_dropped(e.src, e.dst) {
                        if a == e.dst {
                            assert(self.inbox(a) == receivers_after(self_pre.inbox(a), e.msg));
                        } else {
                            assert(self.inbox(a) == self_pre.inbox(a));
                        }
                    } else {
                        assert(*self == self_pre);
                    }
                }
            }
            i += 1;
        }
        let ghost before_split = *self;
        let tail = self.queue.split_off(i);
        self.queue = tail;
        proof {
            broadcast use lemma_queue_view;

            assert(self.queue@ == snap.queue@.subrange(i as int, snap.queue@.len() as int));
            assert forall|a: Author| snap.registered(a) implies #[trigger] self.inbox(a)
                == receivers_after_drain(
                snap.inbox(a),
                q0.subrange(0, i as int),
                dc0,
                a,
            ) by {
                assert(before_split.inbox(a) == receivers_after_drain(
                    snap.inbox(a),
                    q0.subrange(0, i as int),
                    dc0,
                    a,
                ));
                assert(self.inbox(a) == before_split.inbox(a));
            }
            assert(self.wf()) by {
                assert forall|j: int| 0 <= j < self.queue@.len() implies self.registered(
                    (#[trigger] self.queue@[j]).dst,
                ) && self.drop_config.spec_contains_key(self.queue@[j].src) by {
                    assert(0 <= j + i < snap.queue@.len());
                    assert(self.queue@[j] == snap.queue@[j + i]);
                    assert(snap.registered(snap.queue@[j + i].dst));
                    assert(snap.drop_config.spec_contains_key(snap.queue@[j + i].src));
                }
            }
            assert(0 <= i as int <= snap.queue@.len());
            assert(accepted_view(msg_copies@) == accepted_after(
                snap.spec_queue().subrange(0, i as int),
                snap.drop_config,
                msg_inspector,
            ));
            assert(self.queue@ == snap.queue@.subrange(i as int, snap.queue@.len() as int));
            assert(i > 0 ==> counts(snap.drop_config, msg_inspector, snap.spec_queue()[i - 1]));
            assert(forall|a: Author|
                snap.registered(a) ==> #[trigger] self.inbox(a) == receivers_after_drain(
                    snap.inbox(a),
                    snap.spec_queue().subrange(0, i as int),
                    snap.drop_config,
                    a,
                ));
            assert(drain_post(snap, *self, msg_copies@, msg_inspector, i as int));
        }
        msg_copies
    }
}

/// The direct sends among outbound requests from `src`, as the transport
/// buffers them for a later drain, in order.
pub open spec fn buffered_of(src: Author, reqs: Seq<NetworkRequestView>) -> Seq<QueuedMsgView>
    decreases reqs.len(),
{
    if reqs.len() == 0 {
        Seq::empty()
    } else {
        buffered_of(src, reqs.drop_last()) + (match reqs.last() {
            NetworkRequestView::SendMessage(dst, m) => seq![QueuedMsgView { src, dst, msg: m }],
            _ => Seq::<QueuedMsgView>::empty(),
        })
    }
}

/// The RPC requests among outbound requests from `src` that reach `dst`:
/// those addressed to it whose (source, destination) pair is not
/// drop-configured, in order.
pub open spec fn rpcs_delivered_to(
    src: Author,
    reqs: Seq<NetworkRequestView>,
    dc: DropConfig,
    dst: Author,
) -> Seq<(Author, BlockRetrievalRequest)>
    decreases reqs.len(),
{
    if reqs.len() == 0 {
        Seq::empty()
    } else {
        rpcs_delivered_to(src, reqs.drop_last(), dc, dst) + (match reqs.last() {
            NetworkRequestView::SendRpc(d, r) => if d == dst && !dc.spec_dropped(src, d) {
                seq![(src, r)]
            } else {
                Seq::<(Author, BlockRetrievalRequest)>::empty()
            },
            _ => Seq::<(Author, BlockRetrievalRequest)>::empty(),
        })
    }
}

impl NetworkPlayground {
    /// The per-peer outbound handler: consume every pending outbound request
    /// of `node`, in order. An RPC request is checked against the drop
    /// configuration and otherwise delivered to its destination immediately,
    /// without buffering, so a requester awaiting the response is never
    /// blocked behind a drain; a direct send is buffered unconditionally,
    /// and the drop configuration is applied when a drain reaches it. Every
    /// destination must be registered and no unexpanded broadcast may be
    /// pending: either is a test-setup defect the harness treats as fatal.
    pub fn process_outbound(&mut self, node: &mut ConsensusNetworkImpl)
        requires
            old(self).wf(),
            old(self).registered(old(node).author),
            forall|i: int|
                0 <= i < old(node).outbound_view().len() ==> (match (
                #[trigger] old(node).outbound_view()[i]) {
                    NetworkRequestView::SendMessage(dst, _) => old(self).registered(dst),
                    NetworkRequestView::SendRpc(dst, _) => old(self).registered(dst),
                    NetworkRequestView::Broadcast(_) => false,
                }),
        ensures
            final(node).outbound@ == Seq::<NetworkRequest>::empty(),
            final(node).author == old(node).author,
            final(node).epoch_mgr == old(node).epoch_mgr,
            final(node).state == old(node).state,
            final(self).wf(),
            final(self).peers@ == old(self).peers@,
            final(self).drop_config == old(self).drop_config,
            final(self).spec_queue() == old(self).spec_queue() + buffered_of(
                old(node).author,
                old(node).outbound_view(),
            ),
            forall|a: Author|
                old(self).registered(a) ==> {
                    &&& (#[trigger] final(self).inbox(a)).block_retrieval == old(self).inbox(
                        a,
                    ).block_retrieval + rpcs_delivered_to(
                        old(node).author,
                        old(node).outbound_view(),
                        old(self).drop_config,
                        a,
                    )
                    &&& final(self).inbox(a).votes == old(self).inbox(a).votes
                    &&& final(self).inbox(a).proposals == old(self).inbox(a).proposals
                    &&& final(self).inbox(a).timeout_msgs == old(self).inbox(a).timeout_msgs
                    &&& final(self).inbox(a).sync_infos == old(self).inbox(a).sync_infos
                },
    {
        let ghost snap = *self;
        let ghost reqs = node.outbound_view();
        let ghost dc0 = self.drop_config;
        let src = node.author;
        let n = node.outbound.len();
        proof {
            broadcast use lemma_requests_view;

            assert(reqs.len() == n);
        }
        let mut i: usize = 0;
        while i < n
            invariant
                self.wf(),
                snap == *old(self),
                snap.wf(),
                node.outbound@ == old(node).outbound@,
                node.author == old(node).author,
                node.epoch_mgr == old(node).epoch_mgr,
                node.state == old(node).state,
                src == node.author,
                reqs == requests_view(node.outbound@),
                reqs.len() == n,
                dc0 == snap.drop_config,
                n == node.outbound@.len(),
                i <= n,
                snap.registered(src),
                self.peers@ == snap.peers@,
                self.drop_config == snap.drop_config,
                forall|j: int|
                    0 <= j < reqs.len() ==> (match (#[trigger] reqs[j]) {
                        NetworkRequestView::SendMessage(dst, _) => snap.registered(dst),
                        NetworkRequestView::SendRpc(dst, _) => snap.registered(dst),
                        NetworkRequestView::Broadcast(_) => false,
                    }),
                self.spec_queue() == snap.spec_queue() + buffered_of(
                    src,
                    reqs.subrange(0, i as int),
                ),
                forall|a: Author|
                    snap.registered(a) ==> {
                        &&& (#[trigger] self.inbox(a)).block_retrieval == snap.inbox(
                            a,
                        ).block_retrieval + rpcs_delivered_to(
                            src,
                            reqs.subrange(0, i as int),
                            dc0,
                            a,
                        )
                        &&& self.inbox(a).votes == snap.inbox(a).votes
                        &&& self.inbox(a).proposals == snap.inbox(a).proposals
                        &&& self.inbox(a).timeout_msgs == snap.inbox(a).timeout_msgs
                        &&& self.inbox(a).sync_infos == snap.inbox(a).sync_infos
                    },
            decreases n - i,
        {
            let ghost e = reqs[i as int];
            let ghost self_pre = *self;
            proof {
                broadcast use lemma_requests_view;

                assert(e == node.outbound@[i as int]@);
            }
            match &node.outbound[i] {
                NetworkRequest::SendMessage(dst, m) => {
                    let qm = QueuedMsg { src, dst: *dst, msg: m.clone() };
                    proof {
                        assert(e == NetworkRequestView::SendMessage(*dst, m@));
                        assert(qm@ == (QueuedMsgView { src, dst: *dst, msg: m@ }));
                        assert(snap.registered(*dst));
                    }
                    self.queue.push(qm);
                },
                NetworkRequest::SendRpc(dst, r) => {
                    proof {
                        assert(e == NetworkRequestView::SendRpc(*dst, *r));
                        assert(snap.registered(*dst));
                        let k = choose|k: int|
                            0 <= k < self.peers@.len() && self.peers@[k] == src;
                        assert(self.drop_config.spec_contains_key(self.peers@[k]));
                    }
                    let _ = self.deliver_rpc(src, *dst, *r);
                },
                NetworkRequest::Broadcast(_) => {
                    proof {
                        assert(false);
                    }
                },
            }
            proof {
                broadcast use lemma_queue_view;

                let p0 = reqs.subrange(0, i as int);
                let p1 = reqs.subrange(0, i as int + 1);
                assert(p1.drop_last() =~= p0);
                assert(p1.last() == e);
                match e {
                    NetworkRequestView::SendMessage(dst, m) => {
                        assert(self.spec_queue() =~= snap.spec_queue() + buffered_of(src, p1));
                        assert forall|a: Author| snap.registered(a) implies {
                            &&& (#[trigger] self.inbox(a)).block_retrieval == snap.inbox(
                                a,
                            ).block_retrieval + rpcs_delivered_to(src, p1, dc0, a)
                            &&& self.inbox(a).votes == snap.inbox(a).votes
                            &&& self.inbox(a).proposals == snap.inbox(a).proposals
                            &&& self.inbox(a).timeout_msgs == snap.inbox(a).timeout_msgs
                            &&& self.inbox(a).sync_infos == snap.inbox(a).sync_infos
                        } by {
                            assert(self.inbox(a) == self_pre.inbox(a));
                            assert(self_pre.inbox(a).block_retrieval == snap.inbox(
                                a,
                            ).block_retrieval + rpcs_delivered_to(src, p0, dc0, a));
                            assert(rpcs_delivered_to(src, p1, dc0, a) =~= rpcs_delivered_to(
                                src,
                                p0,
                                dc0,
                                a,
                            ));
                        }
                    },
                    NetworkRequestView::SendRpc(dst, r) => {
                        assert(buffered_of(src, p1) =~= buffered_of(src, p0));
                        assert(self.spec_queue() =~= snap.spec_queue() + buffered_of(src, p1));
                        assert forall|a: Author| snap.registered(a) implies {
                            &&& (#[trigger] self.inbox(a)).block_retrieval == snap.inbox(
                                a,
                            ).block_retrieval + rpcs_delivered_to(src, p1, dc0, a)
                            &&& self.inbox(a).votes == snap.inbox(a).votes
                            &&& self.inbox(a).proposals == snap.inbox(a).proposals
                            &&& self.inbox(a).timeout_msgs == snap.inbox(a).timeout_msgs
                            &&& self.inbox(a).sync_infos == snap.inbox(a).sync_infos
                        } by {
                            assert(self_pre.inbox(a).block_retrieval == snap.inbox(
                                a,
                            ).block_retrieval + rpcs_delivered_to(src, p0, dc0, a));
                            if a == dst && !dc0.spec_dropped(src, dst) {
                                assert(self.inbox(a).block_retrieval == self_pre.inbox(
                                    a,
                                ).block_retrieval.push((src, r)));
                                assert(rpcs_delivered_to(src, p1, dc0, a) =~= rpcs_delivered_to(
                                    src,
                                    p0,
                                    dc0,
                                    a,
                                ) + seq![(src, r)]);
                                assert(self.inbox(a).block_retrieval =~= snap.inbox(
                                    a,
                                ).block_retrieval + rpcs_delivered_to(src, p1, dc0, a));
                            } else {
                                assert(self.inbox(a) == self_pre.inbox(a));
                                assert(rpcs_delivered_to(src, p1, dc0, a) =~= rpcs_delivered_to(
                                    src,
                                    p0,
                                    dc0,
                                    a,
                                ));
                            }
                        }
                    },
                    NetworkRequestView::Broadcast(_) => {
                        assert(false);
                    },
                }
            }
            i += 1;
        }
        node.outbound.clear();
        proof {
            assert(reqs.subrange(0, n as int) =~= reqs);
        }
    }
}

/// The buffered queue that results from handing a vote send over to the
/// transport: one buffered entry per recipient, in order.
pub proof fn lemma_buffered_vote_sends(src: Author, v: VoteMsg, recipients: Seq<Author>)
    ensures
        buffered_of(src, vote_sends(v, recipients)).len() == recipients.len(),
        forall|i: int|
            0 <= i < recipients.len() ==> #[trigger] buffered_of(src, vote_sends(v, recipients))[i]
                == (QueuedMsgView { src, dst: recipients[i], msg: ConsensusMsgView::Vote(v) }),
    decreases recipients.len(),
{
    if recipients.len() > 0 {
        let rest = recipients.drop_last();
        assert(vote_sends(v, recipients).drop_last() =~= vote_sends(v, rest));
        lemma_buffered_vote_sends(src, v, rest);
        assert(vote_sends(v, recipients).last() == NetworkRequestView::SendMessage(
            recipients.last(),
            ConsensusMsgView::Vote(v),
        ));
    }
}

/// Draining a queue every entry of which is counted records one copy per
/// entry.
pub proof fn lemma_accepted_all_counted(q: Seq<QueuedMsgView>, dc: DropConfig, f: MsgInspector)
    requires
        forall|i: int| 0 <= i < q.len() ==> counts(dc, f, #[trigger] q[i]),
    ensures
        accepted_after(q, dc, f).len() == q.len(),
    decreases q.len(),
{
    if q.len() > 0 {
        lemma_accepted_all_counted(q.drop_last(), dc, f);
    }
}

/// Draining a whole queue of vote sends to pairwise distinct recipients,
/// none of them dropped, gives each recipient the vote exactly once and
/// touches nothing else.
proof fn lemma_drain_vote_queue(
    r0: NetworkReceiversView,
    src: Author,
    v: VoteMsg,
    rs: Seq<Author>,
    dc: DropConfig,
    a: Author,
)
    requires
        forall|i: int| 0 <= i < rs.len() ==> !dc.spec_dropped(src, #[trigger] rs[i]),
        forall|i: int, j: int| 0 <= i < j < rs.len() ==> rs[i] != rs[j],
    ensures
        ({
            let post = receivers_after_drain(r0, buffered_of(src, vote_sends(v, rs)), dc, a);
            &&& post.votes == r0.votes + (if rs.contains(a) {
                seq![v]
            } else {
                Seq::<VoteMsg>::empty()
            })
            &&& post.proposals == r0.proposals
            &&& post.timeout_msgs == r0.timeout_msgs
            &&& post.sync_infos == r0.sync_infos
            &&& post.block_retrieval == r0.block_retrieval
        }),
    decreases rs.len(),
{
    let q = buffered_of(src, vote_sends(v, rs));
    lemma_buffered_vote_sends(src, v, rs);
    if rs.len() == 0 {
        assert(r0.votes + Seq::<VoteMsg>::empty() =~= r0.votes);
    } else {
        let rest = rs.drop_last();
        lemma_drain_vote_queue(r0, src, v, rest, dc, a);
        let qrest = buffered_of(src, vote_sends(v, rest));
        lemma_buffered_vote_sends(src, v, rest);
        assert(q.drop_last() =~= qrest);
        assert(q.last() == (QueuedMsgView {
            src,
            dst: rs.last(),
            msg: ConsensusMsgView::Vote(v),
        }));
        if rs.last() == a {
            assert(!dc.spec_dropped(src, a)) by {
                assert(rs[rs.len() - 1] == a);
            }
            assert(!rest.contains(a)) by {
                if rest.contains(a) {
                    let j = choose|j: int| 0 <= j < rest.len() && rest[j] == a;
                    assert(rs[j] == a);
                    assert(rs[j] != rs[rs.len() - 1]);
                }
            }
            assert(rs.contains(a)) by {
                assert(rs[rs.len() - 1] == a);
            }
            assert(r0.votes + Seq::<VoteMsg>::empty() =~= r0.votes);
            assert((r0.votes + Seq::<VoteMsg>::empty()) + seq![v] =~= r0.votes + seq![v]);
        } else {
            assert(rest.contains(a) == rs.contains(a)) by {
                if rest.contains(a) {
                    let j = choose|j: int| 0 <= j < rest.len() && rest[j] == a;
                    assert(rs[j] == a);
                }
                if rs.contains(a) {
                    let j = choose|j: int| 0 <= j < rs.len() && rs[j] == a;
                    assert(j < rs.len() - 1);
                    assert(rest[j] == a);
                }
            }
        }
    }
}

/// Vote-delivery law: with the transport's buffer holding exactly one
/// direct send of vote `v` from `src` to each of the pairwise distinct
/// recipients, none of them drop-configured, a drain that accepts as many
/// messages as there are recipients consumes the whole buffer and leaves
/// every registered recipient exactly one new vote on its votes queue —
/// equal by value to the one sent — while every other registered peer's
/// votes queue is unchanged.
pub proof fn lemma_vote_sends_drained(
    pre: NetworkPlayground,
    post: NetworkPlayground,
    copies: Seq<(Author, ConsensusMsg)>,
    src: Author,
    v: VoteMsg,
    recipients: Seq<Author>,
    k: int,
)
    requires
        pre.wf(),
        pre.spec_queue() == buffered_of(src, vote_sends(v, recipients)),
        forall|i: int|
            0 <= i < recipients.len() ==> !pre.drop_config.spec_dropped(
                src,
                #[trigger] recipients[i],
            ),
        forall|i: int, j: int|
            0 <= i < j < recipients.len() ==> recipients[i] != recipients[j],
        drain_post(pre, post, copies, MsgInspector::TakeAll, k),
        copies.len() == recipients.len(),
    ensures
        k == recipients.len(),
        forall|a: Author|
            pre.registered(a) && recipients.contains(a) ==> #[trigger] post.inbox(a).votes
                == pre.inbox(a).votes + seq![v],
        forall|a: Author|
            pre.registered(a) && !recipients.contains(a) ==> #[trigger] post.inbox(a).votes
                == pre.inbox(a).votes,
    {
    let q = pre.spec_queue();
    lemma_buffered_vote_sends(src, v, recipients);
    assert forall|i: int| 0 <= i < q.len() implies counts(
        pre.drop_config,
        MsgInspector::TakeAll,
        #[trigger] q[i],
    ) by {
        assert(q[i] == (QueuedMsgView {
            src,
            dst: recipients[i],
            msg: ConsensusMsgView::Vote(v),
        }));
    }
    let prefix = q.subrange(0, k);
    assert forall|i: int| 0 <= i < prefix.len() implies counts(
        pre.drop_config,
        MsgInspector::TakeAll,
        #[trigger] prefix[i],
    ) by {
        assert(prefix[i] == q[i]);
    }
    lemma_accepted_all_counted(prefix, pre.drop_config, MsgInspector::TakeAll);
    broadcast use lemma_accepted_view, lemma_queue_view;

    assert(accepted_view(copies).len() == copies.len());
    assert(k == recipients.len());
    assert(prefix =~= q);
    assert forall|a: Author| pre.registered(a) implies #[trigger] post.inbox(a)
        == receivers_after_drain(pre.inbox(a), q, pre.drop_config, a) by {}
    assert forall|a: Author| pre.registered(a) && recipients.contains(a) implies #[trigger] post.inbox(
        a,
    ).votes == pre.inbox(a).votes + seq![v] by {
        lemma_drain_vote_queue(pre.inbox(a), src, v, recipients, pre.drop_config, a);
    }
    assert forall|a: Author| pre.registered(a) && !recipients.contains(a) implies #[trigger] post.inbox(
        a,
    ).votes == pre.inbox(a).votes by {
        lemma_drain_vote_queue(pre.inbox(a), src, v, recipients, pre.drop_config, a);
        assert(pre.inbox(a).votes + Seq::<VoteMsg>::empty() =~= pre.inbox(a).votes);
    }
}

/// The buffered queue with every direct send from `src` to `dst` taken out.
pub open spec fn without_pair(q: Seq<QueuedMsgView>, src: Author, dst: Author) -> Seq<QueuedMsgView> {
    q.filter(|e: QueuedMsgView| !(e.src == src && e.dst == dst))
}

/// Drop law for direct sends: while the pair (src, dst) is drop-configured,
/// a drain behaves exactly as if the buffered sends from `src` to `dst`
/// were not there, however far it drains past them: they are neither
/// recorded as accepted copies nor delivered to any peer's inbox.
pub proof fn lemma_dropped_pair_inert(
    r0: NetworkReceiversView,
    q: Seq<QueuedMsgView>,
    dc: DropConfig,
    f: MsgInspector,
    src: Author,
    dst: Author,
    a: Author,
)
    requires
        dc.spec_dropped(src, dst),
    ensures
        accepted_after(q, dc, f) == accepted_after(without_pair(q, src, dst), dc, f),
        receivers_after_drain(r0, q, dc, a) == receivers_after_drain(
            r0,
            without_pair(q, src, dst),
            dc,
            a,
        ),
    decreases q.len(),
{
    reveal(Seq::filter);
    if q.len() > 0 {
        lemma_dropped_pair_inert(r0, q.drop_last(), dc, f, src, dst, a);
        let e = q.last();
        let sub = without_pair(q.drop_last(), src, dst);
        if e.src == src && e.dst == dst {
            assert(without_pair(q, src, dst) == sub);
            assert(!counts(dc, f, e));
        } else {
            assert(without_pair(q, src, dst) == sub.push(e));
            assert(sub.push(e).drop_last() =~= sub);
            assert(sub.push(e).last() == e);
        }
    }
}

/// Frame rule for a change confined to one registered peer's inbox: every
/// other registered peer's inbox is unchanged, and the changed peer's inbox
/// is the inbox now stored at its position.
proof fn lemma_inbox_frame(
    pre: NetworkPlayground,
    post: NetworkPlayground,
    idx: int,
    author: Author,
)
    requires
        pre.wf(),
        post.peers@ == pre.peers@,
        pre.registered(author),
        idx == pre.peer_index(author),
        post.inboxes@.len() == pre.inboxes@.len(),
        forall|j: int|
            0 <= j < pre.inboxes@.len() && j != idx ==> #[trigger] post.inboxes@[j]
                == pre.inboxes@[j],
    ensures
        forall|a: Author|
            pre.registered(a) && a != author ==> #[trigger] post.inbox(a) == pre.inbox(a),
        post.inbox(author) == post.inboxes@[idx]@,
        0 <= idx < pre.inboxes@.len(),
{
    assert(0 <= idx < pre.peers@.len() && pre.peers@[idx] == author);
    assert forall|a: Author| pre.registered(a) && a != author implies #[trigger] post.inbox(a)
        == pre.inbox(a) by {
        let i = pre.peer_index(a);
        assert(0 <= i < pre.peers@.len() && pre.peers@[i] == a);
        assert(i != idx);
        assert(post.peer_index(a) == pre.peer_index(a));
        assert(post.inboxes@[i] == pre.inboxes@[i]);
    }
    assert(post.peer_index(author) == idx);
}

} // verus!
