use consensus_net::message::{
    placeholder_ledger_info, Block, BlockConstructionError, QuorumCert, VoteData, VoteMsg,
};
use consensus_net::types::{Signature, ValidatorSigner};
use consensus_net::validator_verifier::{ValidatorVerifier, VerificationError};

fn verifier_of(keys: &[u64]) -> ValidatorVerifier {
    let entries: Vec<(u64, u64)> = keys.iter().map(|k| (*k, *k)).collect();
    ValidatorVerifier::new(entries)
}

fn signed_by(keys: &[u64], hash: u64) -> Vec<(u64, Signature)> {
    keys.iter()
        .map(|k| (*k, ValidatorSigner::new(*k).sign(hash)))
        .collect()
}

#[test]
fn quorum_threshold_follows_validator_count() {
    assert_eq!(verifier_of(&[1]).quorum, 1);
    assert_eq!(verifier_of(&[1, 2, 3]).quorum, 3);
    assert_eq!(verifier_of(&[1, 2, 3, 4]).quorum, 3);
    assert_eq!(verifier_of(&[1, 2, 3, 4, 5]).quorum, 4);
    assert_eq!(verifier_of(&[1, 2, 3, 4, 5, 6, 7]).quorum, 5);
}

#[test]
fn verify_checks_author_and_signature() {
    let v = verifier_of(&[10, 20, 30]);
    let sig = ValidatorSigner::new(10).sign(77);
    assert_eq!(v.verify(10, 77, &sig), Ok(()));
    // Right signature, wrong claimed author.
    assert_eq!(
        v.verify(20, 77, &sig),
        Err(VerificationError::InvalidSignature)
    );
    // Signature over a different hash.
    assert_eq!(
        v.verify(10, 78, &sig),
        Err(VerificationError::InvalidSignature)
    );
    // Unknown author.
    assert_eq!(
        v.verify(99, 77, &sig),
        Err(VerificationError::UnknownAuthor)
    );
}

#[test]
fn quorum_of_threshold_many_valid_signatures_verifies() {
    let v = verifier_of(&[1, 2, 3, 4]);
    // Threshold for 4 validators is 3.
    let sigs = signed_by(&[1, 2, 3], 500);
    assert_eq!(v.verify_quorum(500, &sigs), Ok(()));
}

#[test]
fn quorum_below_threshold_is_insufficient() {
    let v = verifier_of(&[1, 2, 3, 4]);
    let sigs = signed_by(&[1, 2], 500);
    assert_eq!(
        v.verify_quorum(500, &sigs),
        Err(VerificationError::InsufficientQuorum)
    );
}

#[test]
fn forged_signature_is_discounted() {
    let v = verifier_of(&[1, 2, 3, 4]);
    // Three signatures, one of them forged: author 3's carries author 4's key.
    let mut sigs = signed_by(&[1, 2], 500);
    sigs.push((3, ValidatorSigner::new(4).sign(500)));
    assert_eq!(
        v.verify_quorum(500, &sigs),
        Err(VerificationError::InsufficientQuorum)
    );
    // With three valid ones beside the forgery the quorum is met again.
    let mut enough = signed_by(&[1, 2, 3], 500);
    enough.push((4, ValidatorSigner::new(1).sign(500)));
    assert_eq!(v.verify_quorum(500, &enough), Ok(()));
}

#[test]
fn duplicate_authors_count_once() {
    let v = verifier_of(&[1, 2, 3, 4]);
    let mut sigs = signed_by(&[1, 2], 500);
    sigs.push((1, ValidatorSigner::new(1).sign(500)));
    assert_eq!(
        v.verify_quorum(500, &sigs),
        Err(VerificationError::InsufficientQuorum)
    );
}

#[test]
fn quorum_cert_construction_enforces_quorum() {
    let v = verifier_of(&[1, 2, 3, 4]);
    let vote_data = VoteData::new(900, 0, 3, 901, 2, 902, 1);
    let hash = vote_data.hash();
    let enough = signed_by(&[1, 2, 4], hash);
    let cert = QuorumCert::new(vote_data, enough.clone(), placeholder_ledger_info(), &v)
        .expect("threshold-many valid signatures must certify");
    assert_eq!(cert.certified_round(), 3);
    assert_eq!(cert.certified_block_id(), 900);
    assert_eq!(cert.signatures, enough);

    let short = signed_by(&[1, 2], hash);
    assert_eq!(
        QuorumCert::new(vote_data, short, placeholder_ledger_info(), &v).err(),
        Some(VerificationError::InsufficientQuorum)
    );
}

#[test]
fn genesis_is_deterministic() {
    let b1 = Block::make_genesis_block();
    let b2 = Block::make_genesis_block();
    assert_eq!(b1, b2);
    let c1 = Block::certificate_for_genesis();
    let c2 = Block::certificate_for_genesis();
    assert_eq!(c1, c2);
    assert_eq!(b1.round, 0);
    assert_eq!(b1.quorum_cert, c1);
    // The genesis certificate is self-referential.
    assert_eq!(c1.certified_block_id(), b1.id);
    assert_eq!(c1.certified_round(), 0);
}

#[test]
fn make_block_enforces_round_monotonicity() {
    let signer = ValidatorSigner::new(3);
    let genesis = Block::make_genesis_block();
    let qc = Block::certificate_for_genesis();

    // A child round must exceed the parent's round.
    assert_eq!(
        Block::make_block(&genesis, 1, 0, qc.clone(), &signer).err(),
        Some(BlockConstructionError::RoundNotAfterParent)
    );

    let child = Block::make_block(&genesis, 1, 1, qc.clone(), &signer).unwrap();
    assert_eq!(child.round, 1);
    assert_eq!(child.author, Some(3));

    // The supplied certificate must certify a round below the new round.
    assert_eq!(
        Block::make_block(&child, 2, 2, child.quorum_cert.clone(), &signer)
            .unwrap()
            .round,
        2
    );
    let vote_data = VoteData::new(child.id, 0, 5, genesis.id, 0, genesis.id, 0);
    let high_qc = QuorumCert {
        vote_data,
        signatures: Vec::new(),
        ledger_info: placeholder_ledger_info(),
    };
    assert_eq!(
        Block::make_block(&child, 2, 5, high_qc, &signer).err(),
        Some(BlockConstructionError::CertifiedRoundTooHigh)
    );
}

#[test]
fn vote_msg_signs_its_vote_data() {
    let signer = ValidatorSigner::new(8);
    let vote_data = VoteData::new(1, 2, 3, 4, 5, 6, 7);
    let vote = VoteMsg::new(vote_data, signer.author(), placeholder_ledger_info(), &signer);
    assert_eq!(vote.author, 8);
    assert_eq!(vote.vote_data, vote_data);
    assert_eq!(vote.signature, signer.sign(vote_data.hash()));
}
