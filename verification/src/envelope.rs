use vstd::prelude::*;

use crate::message::{blocks_view, lemma_blocks_view, Block, BlockView, ConsensusMsg, ConsensusMsgView};
use crate::types::{Author, HashValue};

verus! {

/// The request of the protocol's only RPC: ask a peer for `num_blocks`
/// blocks of the chain ending at `block_id`.
#[derive(Clone, Copy, PartialEq, Eq, Debug)]
pub struct BlockRetrievalRequest {
    pub block_id: HashValue,
    pub num_blocks: u64,
}

/// Application-level outcome of a block-retrieval request, carried in the
/// response rather than reported as a transport error.
#[derive(Clone, Copy, PartialEq, Eq, Debug)]
pub enum BlockRetrievalStatus {
    /// All requested blocks are returned.
    Succeeded,
    /// The chain was shorter than requested; a prefix is returned.
    NotEnoughBlocks,
    /// The requested id is unknown to the responder.
    IdNotFound,
}

/// Mathematical value of a [`BlockRetrievalResponse`].
pub ghost struct BlockRetrievalResponseView {
    pub status: BlockRetrievalStatus,
    pub blocks: Seq<BlockView>,
}

/// The response of a block-retrieval RPC, constructed by the remote peer's
/// block store and returned in the order it supplied.
#[derive(PartialEq, Eq, Debug)]
pub struct BlockRetrievalResponse {
    pub status: BlockRetrievalStatus,
    pub blocks: Vec<Block>,
}

impl View for BlockRetrievalResponse {
    type V = BlockRetrievalResponseView;

    open spec fn view(&self) -> BlockRetrievalResponseView {
        BlockRetrievalResponseView { status: self.status, blocks: blocks_view(self.blocks@) }
    }
}

impl Clone for BlockRetrievalResponse {
    /// The copy carries the same value.
    fn clone(&self) -> (r: Self)
        ensures
            r@ == self@,
    {
        let n = self.blocks.len();
        let mut blocks: Vec<Block> = Vec::new();
        let mut i: usize = 0;
        while i < n
            invariant
                n == self.blocks@.len(),
                i <= n,
                blocks_view(blocks@) == blocks_view(self.blocks@.subrange(0, i as int)),
            decreases n - i,
        {
            blocks.push(self.blocks[i].clone());
            proof {
                broadcast use lemma_blocks_view;

                assert(blocks_view(blocks@) =~= blocks_view(self.blocks@.subrange(0, i + 1)));
            }
            i += 1;
        }
        proof {
            assert(self.blocks@.subrange(0, n as int) =~= self.blocks@);
        }
        BlockRetrievalResponse { status: self.status, blocks }
    }
}

/// Transport-level failure of an RPC, reported to the caller, who decides
/// whether to retry against another peer.
#[derive(Clone, Copy, PartialEq, Eq, Debug)]
pub enum RpcError {
    /// No response arrived within the deadline.
    Timeout,
    /// The underlying transport was torn down.
    ChannelClosed,
}

/// Mathematical value of a [`NetworkRequest`].
pub ghost enum NetworkRequestView {
    SendMessage(Author, ConsensusMsgView),
    Broadcast(ConsensusMsgView),
    SendRpc(Author, BlockRetrievalRequest),
}

/// Outbound envelope handed from an endpoint to the transport: a
/// fire-and-forget direct send to one peer, a broadcast (which the endpoint
/// expands into direct sends before anything reaches the transport), or an
/// RPC request.
#[derive(PartialEq, Eq, Debug)]
pub enum NetworkRequest {
    SendMessage(Author, ConsensusMsg),
    Broadcast(ConsensusMsg),
    SendRpc(Author, BlockRetrievalRequest),
}

impl View for NetworkRequest {
    type V = NetworkRequestView;

    open spec fn view(&self) -> NetworkRequestView {
        match self {
            NetworkRequest::SendMessage(dst, m) => NetworkRequestView::SendMessage(*dst, m@),
            NetworkRequest::Broadcast(m) => NetworkRequestView::Broadcast(m@),
            NetworkRequest::SendRpc(dst, r) => NetworkRequestView::SendRpc(*dst, *r),
        }
    }
}

} // verus!
