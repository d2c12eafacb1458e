use consensus_net::endpoint::{ConsensusNetworkImpl, EndpointState};
use consensus_net::envelope::{
    BlockRetrievalRequest, BlockRetrievalResponse, BlockRetrievalStatus, NetworkRequest, RpcError,
};
use consensus_net::epoch::EpochManager;
use consensus_net::message::{
    placeholder_ledger_info, Block, ConsensusMsg, ProposalMsg, SyncInfo, TimeoutMsg, VoteData,
    VoteMsg,
};
use consensus_net::playground::{DropConfig, MsgInspector, NetworkPlayground};
use consensus_net::types::ValidatorSigner;
use consensus_net::validator_verifier::ValidatorVerifier;

fn make_epoch(keys: &[u64]) -> EpochManager {
    let entries: Vec<(u64, u64)> = keys.iter().map(|k| (*k, *k)).collect();
    EpochManager::new(0, ValidatorVerifier::new(entries))
}

fn setup(
    num_nodes: usize,
) -> (NetworkPlayground, Vec<u64>, Vec<ValidatorSigner>, Vec<ConsensusNetworkImpl>) {
    let mut playground = NetworkPlayground::new();
    let mut peers = Vec::new();
    let mut signers = Vec::new();
    for i in 0..num_nodes {
        let signer = ValidatorSigner::new(i as u64);
        peers.push(signer.author());
        signers.push(signer);
    }
    let epoch = make_epoch(&peers);
    let mut nodes = Vec::new();
    for peer in &peers {
        playground.add_node(*peer);
        let mut node = ConsensusNetworkImpl::new(*peer, epoch.clone());
        node.start();
        nodes.push(node);
    }
    (playground, peers, signers, nodes)
}

fn sample_vote(signers: &[ValidatorSigner], author: u64) -> VoteMsg {
    let vote_data = VoteData::new(101, 0, 1, 102, 0, 103, 0);
    VoteMsg::new(
        vote_data,
        author,
        placeholder_ledger_info(),
        &signers[author as usize],
    )
}

fn sample_proposal(signers: &[ValidatorSigner], author: u64) -> ProposalMsg {
    let previous_block = Block::make_genesis_block();
    let previous_qc = Block::certificate_for_genesis();
    let block = Block::make_block(
        &previous_block,
        0,
        1,
        previous_qc.clone(),
        &signers[author as usize],
    )
    .expect("child of genesis at round 1 must construct");
    ProposalMsg::new(block, SyncInfo::new(previous_qc.clone(), previous_qc, None))
}

#[test]
fn test_network_api() {
    let num_nodes = 5;
    let (mut playground, peers, signers, mut nodes) = setup(num_nodes);

    let vote = sample_vote(&signers, peers[0]);
    nodes[0].send_vote(vote.clone(), peers[2..5].to_vec());
    playground.process_outbound(&mut nodes[0]);
    playground.wait_for_messages(3, MsgInspector::TakeAll);
    for peer in peers.iter().take(5).skip(2) {
        let v = playground.next_vote(*peer).unwrap();
        assert_eq!(v, vote);
    }

    let proposal = sample_proposal(&signers, peers[4]);
    nodes[4].broadcast_proposal(proposal.clone());
    playground.process_outbound(&mut nodes[4]);
    playground.wait_for_messages(4, MsgInspector::TakeAll);
    for peer in peers.iter().take(num_nodes - 1) {
        let p = playground.next_proposal(*peer).unwrap();
        assert_eq!(p, proposal);
    }
}

#[test]
fn test_rpc() {
    let (mut playground, peers, _signers, nodes) = setup(2);
    let genesis = Block::make_genesis_block();

    // The remote block store answers with status SUCCEEDED and the genesis
    // block; the response comes back exactly as supplied.
    let reply = BlockRetrievalResponse {
        status: BlockRetrievalStatus::Succeeded,
        blocks: vec![genesis.clone()],
    };
    let response = nodes[0]
        .request_block(&mut playground, genesis.id, 1, peers[1], 5_000, Some(reply))
        .unwrap();
    assert_eq!(response.blocks[0], genesis);
}

#[test]
fn rpc_succeeded_keeps_block_order() {
    let (mut playground, peers, signers, nodes) = setup(2);
    let genesis = Block::make_genesis_block();
    let qc = Block::certificate_for_genesis();
    let child = Block::make_block(&genesis, 7, 1, qc, &signers[1]).unwrap();

    let reply = BlockRetrievalResponse {
        status: BlockRetrievalStatus::Succeeded,
        blocks: vec![child.clone(), genesis.clone()],
    };
    let response = nodes[0]
        .request_block(&mut playground, child.id, 2, peers[1], 5_000, Some(reply))
        .unwrap();
    assert_eq!(response.status, BlockRetrievalStatus::Succeeded);
    assert_eq!(response.blocks.len(), 2);
    assert_eq!(response.blocks[0], child);
    assert_eq!(response.blocks[1], genesis);
}

#[test]
fn rpc_without_response_times_out() {
    let (mut playground, peers, _signers, nodes) = setup(2);
    let genesis = Block::make_genesis_block();

    let result = nodes[0].request_block(&mut playground, genesis.id, 1, peers[1], 5_000, None);
    assert_eq!(result, Err(RpcError::Timeout));
    // The request itself was surfaced at the peer for its block store.
    let (requester, request) = playground.next_block_retrieval(peers[1]).unwrap();
    assert_eq!(requester, peers[0]);
    assert_eq!(request.block_id, genesis.id);
    assert_eq!(request.num_blocks, 1);
}

#[test]
fn rpc_to_dropped_peer_times_out() {
    let (mut playground, peers, _signers, nodes) = setup(2);
    let genesis = Block::make_genesis_block();
    playground.drop_message_for(&peers[0], peers[1]);

    let reply = BlockRetrievalResponse {
        status: BlockRetrievalStatus::Succeeded,
        blocks: vec![genesis.clone()],
    };
    let result = nodes[0].request_block(&mut playground, genesis.id, 1, peers[1], 5_000, Some(reply));
    assert_eq!(result, Err(RpcError::Timeout));
    // Nothing was surfaced at the dropped destination.
    assert!(playground.next_block_retrieval(peers[1]).is_none());
}

#[test]
fn broadcast_skips_self_and_counts_all_others() {
    let (_playground, peers, signers, mut nodes) = setup(5);
    let proposal = sample_proposal(&signers, peers[2]);
    nodes[2].broadcast_proposal(proposal.clone());
    assert_eq!(nodes[2].outbound.len(), 4);
    for req in &nodes[2].outbound {
        match req {
            NetworkRequest::SendMessage(dst, msg) => {
                assert_ne!(*dst, peers[2]);
                assert_eq!(*msg, ConsensusMsg::Proposal(proposal.clone()));
            }
            other => panic!("unexpected outbound request: {:?}", other),
        }
    }
}

#[test]
fn dropped_direct_send_is_never_delivered() {
    let (mut playground, peers, signers, mut nodes) = setup(3);
    let vote = sample_vote(&signers, peers[0]);

    playground.drop_message_for(&peers[0], peers[1]);
    // One send to the dropped peer, then one to a healthy peer.
    nodes[0].send_vote(vote.clone(), vec![peers[1], peers[2]]);
    playground.process_outbound(&mut nodes[0]);

    // Draining one accepted message drains past the dropped send.
    let copies = playground.wait_for_messages(1, MsgInspector::TakeAll);
    assert_eq!(copies.len(), 1);
    assert_eq!(copies[0].0, peers[0]);
    assert!(playground.next_vote(peers[1]).is_none());
    assert_eq!(playground.next_vote(peers[2]).unwrap(), vote);
}

#[test]
fn stop_drop_restores_delivery() {
    let (mut playground, peers, signers, mut nodes) = setup(2);
    let vote = sample_vote(&signers, peers[0]);

    assert!(playground.drop_message_for(&peers[0], peers[1]));
    // A second configuration of the same pair reports no change.
    assert!(!playground.drop_message_for(&peers[0], peers[1]));
    assert!(playground.stop_drop_message_for(&peers[0], &peers[1]));
    assert!(!playground.stop_drop_message_for(&peers[0], &peers[1]));

    nodes[0].send_vote(vote.clone(), vec![peers[1]]);
    playground.process_outbound(&mut nodes[0]);
    let copies = playground.wait_for_messages(1, MsgInspector::TakeAll);
    assert_eq!(copies.len(), 1);
    assert_eq!(playground.next_vote(peers[1]).unwrap(), vote);
}

#[test]
fn inspector_counts_only_matching_messages() {
    let (mut playground, peers, signers, mut nodes) = setup(3);
    let vote = sample_vote(&signers, peers[0]);
    let timeout = TimeoutMsg::new(peers[0], 4);

    nodes[0].broadcast_timeout_msg(timeout);
    nodes[0].send_vote(vote.clone(), vec![peers[1]]);
    playground.process_outbound(&mut nodes[0]);

    // Counting one vote drains the two earlier timeout messages as well.
    let copies = playground.wait_for_messages(1, MsgInspector::VotesOnly);
    assert_eq!(copies.len(), 1);
    assert_eq!(copies[0].1, ConsensusMsg::Vote(vote.clone()));
    assert_eq!(playground.next_timeout_msg(peers[1]).unwrap(), timeout);
    assert_eq!(playground.next_timeout_msg(peers[2]).unwrap(), timeout);
    assert_eq!(playground.next_vote(peers[1]).unwrap(), vote);
}

#[test]
fn sync_info_reaches_single_recipient() {
    let (mut playground, peers, _signers, mut nodes) = setup(3);
    let qc = Block::certificate_for_genesis();
    let sync_info = SyncInfo::new(qc.clone(), qc, None);

    nodes[0].send_sync_info(sync_info.clone(), peers[2]);
    playground.process_outbound(&mut nodes[0]);
    let copies = playground.wait_for_messages(1, MsgInspector::SyncInfoOnly);
    assert_eq!(copies.len(), 1);
    assert!(playground.next_sync_info(peers[1]).is_none());
    assert_eq!(playground.next_sync_info(peers[2]).unwrap(), sync_info);
}

#[test]
fn message_predicates_classify_by_kind() {
    let (_playground, peers, signers, _nodes) = setup(2);
    let vote_copy = (peers[0], ConsensusMsg::Vote(sample_vote(&signers, peers[0])));
    let timeout_copy = (peers[0], ConsensusMsg::TimeoutMsg(TimeoutMsg::new(peers[0], 1)));
    let proposal_copy = (
        peers[1],
        ConsensusMsg::Proposal(sample_proposal(&signers, peers[1])),
    );
    let qc = Block::certificate_for_genesis();
    let sync_copy = (
        peers[1],
        ConsensusMsg::SyncInfo(SyncInfo::new(qc.clone(), qc, None)),
    );

    assert!(NetworkPlayground::take_all(&vote_copy));
    assert!(NetworkPlayground::take_all(&timeout_copy));
    assert!(NetworkPlayground::votes_only(&vote_copy));
    assert!(!NetworkPlayground::votes_only(&proposal_copy));
    assert!(NetworkPlayground::proposals_only(&proposal_copy));
    assert!(!NetworkPlayground::proposals_only(&sync_copy));
    assert!(NetworkPlayground::timeout_msg_only(&timeout_copy));
    assert!(!NetworkPlayground::timeout_msg_only(&vote_copy));
    assert!(NetworkPlayground::sync_info_only(&sync_copy));
    assert!(!NetworkPlayground::sync_info_only(&timeout_copy));
    assert!(NetworkPlayground::exclude_timeout_msg(&vote_copy));
    assert!(!NetworkPlayground::exclude_timeout_msg(&timeout_copy));
}

#[test]
fn endpoint_lifecycle_and_epoch_snapshot() {
    let verifier = ValidatorVerifier::new(vec![(1, 1), (2, 2)]);
    let epoch_mgr = EpochManager::new(7, verifier);
    assert_eq!(epoch_mgr.epoch(), 7);
    assert_eq!(epoch_mgr.validators().quorum, 2);
    let signer = ValidatorSigner::new(1);
    assert_eq!(signer.author(), 1);
    assert_eq!(signer.public_key(), 1);
    let mut node = ConsensusNetworkImpl::new(1, epoch_mgr);
    assert_eq!(node.state, EndpointState::Created);
    node.start();
    assert_eq!(node.state, EndpointState::Running);
    node.stop();
    assert_eq!(node.state, EndpointState::Stopped);
    assert!(node.outbound.is_empty());
}

#[test]
fn drop_config_classifies_envelopes() {
    let mut cfg = DropConfig::new();
    cfg.add_node(1);
    let bcast = NetworkRequest::Broadcast(ConsensusMsg::TimeoutMsg(TimeoutMsg::new(1, 0)));
    // An unexpanded broadcast never reaches the transport; one that does is
    // malformed and counts as dropped.
    assert!(cfg.is_message_dropped(&1, &bcast));
    let direct = NetworkRequest::SendMessage(2, ConsensusMsg::TimeoutMsg(TimeoutMsg::new(1, 0)));
    assert!(!cfg.is_message_dropped(&1, &direct));
    let rpc = NetworkRequest::SendRpc(
        2,
        BlockRetrievalRequest { block_id: 0, num_blocks: 1 },
    );
    assert!(!cfg.is_message_dropped(&1, &rpc));
    cfg.drop_message_for(&1, 2);
    assert!(cfg.is_message_dropped(&1, &direct));
    assert!(cfg.is_message_dropped(&1, &rpc));
    cfg.stop_drop_message_for(&1, &2);
    assert!(!cfg.is_message_dropped(&1, &direct));
    assert!(!cfg.is_message_dropped(&1, &rpc));
}

#[test]
fn empty_inboxes_yield_nothing() {
    let (mut playground, peers, _signers, _nodes) = setup(1);
    assert!(playground.next_vote(peers[0]).is_none());
    assert!(playground.next_proposal(peers[0]).is_none());
    assert!(playground.next_timeout_msg(peers[0]).is_none());
    assert!(playground.next_sync_info(peers[0]).is_none());
    assert!(playground.next_block_retrieval(peers[0]).is_none());
}
