//! The message variants: canonical bytes, signature handling, timestamps.

use tmsign::{
    attach_ed25519, BlockID, PartsSetHeader, PoisonPillMsg, SignHeartbeatMsg, SignProposalMsg,
    SignVoteMsg, TendermintSignable, Time, VoteType,
};

fn heartbeat(sequence: Option<i64>) -> SignHeartbeatMsg {
    SignHeartbeatMsg {
        chain_id: b"ab".to_vec(),
        validator_address: vec![0x11, 0x22],
        validator_index: 5,
        height: 1,
        round: -1,
        sequence,
        signature: Vec::new(),
    }
}

fn nil_vote() -> SignVoteMsg {
    SignVoteMsg {
        chain_id: b"A".to_vec(),
        vote_type: VoteType::Prevote,
        height: 3,
        round: 0,
        block_id: BlockID { hash: Vec::new(), parts_header: None },
        timestamp: Time { seconds: 5, nanos: 6 },
        validator_address: vec![0x33],
        validator_index: 0,
        signature: Vec::new(),
    }
}

#[test]
fn heartbeat_golden_bytes() {
    let hb = heartbeat(None);
    let mut out: Vec<u8> = Vec::new();
    assert_eq!(hb.sign_bytes(&mut out), Ok(true));
    assert_eq!(out, vec![0x0A, 0x02, 0x61, 0x62, 0x10, 0x02, 0x18, 0x01]);
}

#[test]
fn heartbeat_sequence_zero_differs_from_absent() {
    let absent = heartbeat(None);
    let zero = heartbeat(Some(0));
    let mut a: Vec<u8> = Vec::new();
    let mut z: Vec<u8> = Vec::new();
    assert_eq!(absent.sign_bytes(&mut a), Ok(true));
    assert_eq!(zero.sign_bytes(&mut z), Ok(true));
    assert_ne!(a, z);
    assert_eq!(z, vec![0x0A, 0x02, 0x61, 0x62, 0x10, 0x02, 0x18, 0x01, 0x20, 0x00]);
}

#[test]
fn canonicalization_is_deterministic() {
    let a = heartbeat(Some(9));
    let b = heartbeat(Some(9));
    let mut out_a: Vec<u8> = Vec::new();
    let mut out_b: Vec<u8> = Vec::new();
    assert_eq!(a.sign_bytes(&mut out_a), Ok(true));
    assert_eq!(b.sign_bytes(&mut out_b), Ok(true));
    assert_eq!(out_a, out_b);
    let mut again: Vec<u8> = Vec::new();
    assert_eq!(a.sign_bytes(&mut again), Ok(true));
    assert_eq!(out_a, again);
}

#[test]
fn canonical_bytes_exclude_signature() {
    let mut hb = heartbeat(Some(2));
    let mut before: Vec<u8> = Vec::new();
    assert_eq!(hb.sign_bytes(&mut before), Ok(true));
    hb.set_signature(&vec![0xEE; 64]);
    let mut after: Vec<u8> = Vec::new();
    assert_eq!(hb.sign_bytes(&mut after), Ok(true));
    assert_eq!(before, after);

    let mut vote = nil_vote();
    let mut v_before: Vec<u8> = Vec::new();
    assert_eq!(vote.sign_bytes(&mut v_before), Ok(true));
    vote.set_signature(&vec![0x01; 64]);
    let mut v_after: Vec<u8> = Vec::new();
    assert_eq!(vote.sign_bytes(&mut v_after), Ok(true));
    assert_eq!(v_before, v_after);
}

#[test]
fn signature_round_trip() {
    let mut hb = heartbeat(None);
    let sig: Vec<u8> = (0u8..64).collect();
    hb.set_signature(&sig);
    assert_eq!(hb.signature, sig);
    let overwrite: Vec<u8> = vec![0xAB; 64];
    hb.set_signature(&overwrite);
    assert_eq!(hb.signature, overwrite);
}

#[test]
fn attach_ed25519_writes_signature_bytes() {
    let mut raw = [0u8; 64];
    for (i, b) in raw.iter_mut().enumerate() {
        *b = i as u8;
    }
    let sig = signatory::ed25519::Signature::from_bytes(&raw);
    let mut vote = nil_vote();
    attach_ed25519(&mut vote, &sig);
    assert_eq!(vote.signature, raw.to_vec());
}

#[test]
fn time_epoch_offsets() {
    assert_eq!(Time { seconds: 0, nanos: 0 }.to_epoch_offset_nanos(), 0);
    assert_eq!(Time { seconds: 1, nanos: 500_000_000 }.to_epoch_offset_nanos(), 1_500_000_000);
    assert_eq!(Time { seconds: -1, nanos: 0 }.to_epoch_offset_nanos(), -1_000_000_000);
    // The independent-sign convention: the nanosecond part of a pre-epoch
    // instant is subtracted as well.
    assert_eq!(Time { seconds: -1, nanos: 500_000_000 }.to_epoch_offset_nanos(), -1_500_000_000);
    assert_eq!(
        Time { seconds: i64::MIN, nanos: 999_999_999 }.to_epoch_offset_nanos(),
        i64::MIN as i128 * 1_000_000_000 - 999_999_999,
    );
}

#[test]
fn time_comparison_follows_offsets() {
    let early = Time { seconds: -1, nanos: 500_000_000 };
    let late = Time { seconds: -1, nanos: 0 };
    // With the independent-sign convention, a larger nanosecond part moves
    // a pre-epoch instant further back.
    assert!(early.is_before(&late));
    assert!(!late.is_before(&early));
    assert!(!late.is_before(&late));
    assert!(Time { seconds: 0, nanos: 0 }.is_before(&Time { seconds: 0, nanos: 1 }));
}

#[test]
fn pub_key_msg_carries_raw_key() {
    let msg = tmsign::PubKeyMsg { pub_key_ed25519: vec![0x42; 32] };
    assert_eq!(msg.pub_key_ed25519, vec![0x42; 32]);
    let copy = msg.clone();
    assert_eq!(copy, msg);
}

#[test]
fn vote_golden_bytes() {
    let vote = nil_vote();
    let mut out: Vec<u8> = Vec::new();
    assert_eq!(vote.sign_bytes(&mut out), Ok(true));
    let expected: Vec<u8> = vec![
        0x0A, 0x01, 0x41, // chain id "A"
        0x10, 0x01, // prevote
        0x18, 0x06, // height 3
        0x20, 0x00, // round 0
        0x2A, 0x02, 0x0A, 0x00, // empty block id
        0x32, 0x0E, // timestamp, 14 bytes
        0x09, 0x05, 0x00, 0x00, 0x00, 0x00, 0x00, 0x00, 0x00, // seconds 5
        0x15, 0x06, 0x00, 0x00, 0x00, // nanos 6
    ];
    assert_eq!(out, expected);
}

#[test]
fn nil_vote_differs_from_block_vote() {
    let nil = nil_vote();
    let mut block_vote = nil_vote();
    block_vote.chain_id = b"x".to_vec();
    block_vote.vote_type = VoteType::Precommit;
    block_vote.height = 40;
    block_vote.block_id = BlockID {
        hash: vec![0xAA; 20],
        parts_header: Some(PartsSetHeader { total: 1, hash: vec![0xBB; 20] }),
    };
    let mut a: Vec<u8> = Vec::new();
    let mut b: Vec<u8> = Vec::new();
    assert_eq!(nil.sign_bytes(&mut a), Ok(true));
    assert_eq!(block_vote.sign_bytes(&mut b), Ok(true));
    assert_ne!(a, b);
}

#[test]
fn unrecognized_vote_type_rejected() {
    assert_eq!(VoteType::from_raw(1), Ok(VoteType::Prevote));
    assert_eq!(VoteType::from_raw(2), Ok(VoteType::Precommit));
    assert!(VoteType::from_raw(0).is_err());
    assert!(VoteType::from_raw(3).is_err());
    assert!(VoteType::from_raw(u32::MAX).is_err());
    assert_eq!(VoteType::Prevote.to_raw(), 1);
    assert_eq!(VoteType::Precommit.to_raw(), 2);
}

#[test]
fn poison_pill_fixed_empty_payload() {
    let pill = PoisonPillMsg;
    let mut out: Vec<u8> = vec![0x7F];
    assert_eq!(pill.sign_bytes(&mut out), Ok(true));
    assert_eq!(pill.sign_bytes(&mut out), Ok(true));
    assert_eq!(out, vec![0x7F]);
    let mut other = PoisonPillMsg;
    other.set_signature(&vec![0xCC; 64]);
    let mut out2: Vec<u8> = Vec::new();
    assert_eq!(other.sign_bytes(&mut out2), Ok(true));
    assert_eq!(out2, Vec::<u8>::new());
}

#[test]
fn proposal_golden_bytes() {
    let proposal = SignProposalMsg {
        height: 7,
        round: 1,
        pol_round: -1,
        block_id: BlockID {
            hash: vec![0x01],
            parts_header: Some(PartsSetHeader { total: 3, hash: vec![0x02, 0x03] }),
        },
        timestamp: Time { seconds: 1, nanos: 2 },
        signature: Vec::new(),
    };
    let mut out: Vec<u8> = Vec::new();
    assert_eq!(proposal.sign_bytes(&mut out), Ok(true));
    let expected: Vec<u8> = vec![
        0x08, 0x0E, // height 7
        0x10, 0x02, // round 1
        0x18, 0x01, // polka round -1
        0x22, 0x0B, // block id, 11 bytes
        0x0A, 0x01, 0x01, // hash [01]
        0x12, 0x06, // parts header, 6 bytes
        0x08, 0x06, // total 3
        0x12, 0x02, 0x02, 0x03, // parts hash [02 03]
        0x2A, 0x0E, // timestamp, 14 bytes
        0x09, 0x01, 0x00, 0x00, 0x00, 0x00, 0x00, 0x00, 0x00, // seconds 1
        0x15, 0x02, 0x00, 0x00, 0x00, // nanos 2
    ];
    assert_eq!(out, expected);
}
