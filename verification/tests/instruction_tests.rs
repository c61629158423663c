use ore_pool::bytes::{u64_from_le_bytes, u64_to_le_bytes};
use ore_pool::instruction::{
    initialize, submit, AttributeArgs, ClaimArgs, InstructionError, LaunchArgs, OpenArgs,
    PoolInstruction, SubmitArgs, POOL_PROGRAM_ID,
};
use ore_pool::state::Pool;
use ore_pool::types::Solution;

const ALL: [PoolInstruction; 6] = [
    PoolInstruction::Open,
    PoolInstruction::Claim,
    PoolInstruction::Stake,
    PoolInstruction::Launch,
    PoolInstruction::Attribute,
    PoolInstruction::Submit,
];

#[test]
fn tags_match_the_wire_values() {
    let expected: [u8; 6] = [0, 1, 2, 200, 100, 102];
    for (ix, tag) in ALL.iter().zip(expected.iter()) {
        assert_eq!(ix.to_vec(), vec![*tag]);
        assert_eq!(ix.tag(), *tag);
    }
}

#[test]
fn every_tag_decodes_to_its_instruction() {
    for ix in ALL.iter() {
        assert_eq!(PoolInstruction::try_from_u8(ix.tag()), Some(*ix));
    }
}

#[test]
fn unknown_tags_do_not_decode() {
    let known: [u8; 6] = [0, 1, 2, 100, 102, 200];
    for tag in 0..=255u8 {
        let decoded = PoolInstruction::try_from_u8(tag);
        assert_eq!(decoded.is_some(), known.contains(&tag), "tag {}", tag);
    }
}

#[test]
fn attribute_args_roundtrip() {
    let args = AttributeArgs { balance: 1234567u64.to_le_bytes() };
    let bytes = args.to_bytes();
    assert_eq!(bytes, 1234567u64.to_le_bytes().to_vec());
    let back = AttributeArgs::try_from_bytes(&bytes).unwrap();
    assert_eq!(back.balance, args.balance);
}

#[test]
fn claim_args_roundtrip() {
    let args = ClaimArgs { amount: [9, 8, 7, 6, 5, 4, 3, 2] };
    let back = ClaimArgs::try_from_bytes(&args.to_bytes()).unwrap();
    assert_eq!(back.amount, args.amount);
}

#[test]
fn launch_and_open_args_roundtrip() {
    let launch = LaunchArgs { pool_bump: 254, proof_bump: 7 };
    assert_eq!(launch.to_bytes(), vec![254, 7]);
    let back = LaunchArgs::try_from_bytes(&launch.to_bytes()).unwrap();
    assert_eq!((back.pool_bump, back.proof_bump), (254, 7));
    let open = OpenArgs { member_bump: 3 };
    assert_eq!(open.to_bytes(), vec![3]);
    assert_eq!(OpenArgs::try_from_bytes(&[3]).unwrap().member_bump, 3);
}

#[test]
fn submit_args_layout() {
    let args = SubmitArgs { attestation: [1; 32], digest: [2; 16], nonce: [3; 8] };
    let bytes = args.to_bytes();
    assert_eq!(bytes.len(), 56);
    assert_eq!(&bytes[0..32], &[1u8; 32]);
    assert_eq!(&bytes[32..48], &[2u8; 16]);
    assert_eq!(&bytes[48..56], &[3u8; 8]);
    let back = SubmitArgs::try_from_bytes(&bytes).unwrap();
    assert_eq!((back.attestation, back.digest, back.nonce), ([1; 32], [2; 16], [3; 8]));
}

#[test]
fn args_of_the_wrong_size_are_refused() {
    assert_eq!(AttributeArgs::try_from_bytes(&[0; 7]).unwrap_err(), InstructionError::InvalidInstructionData);
    assert_eq!(ClaimArgs::try_from_bytes(&[0; 9]).unwrap_err(), InstructionError::InvalidInstructionData);
    assert_eq!(LaunchArgs::try_from_bytes(&[0; 1]).unwrap_err(), InstructionError::InvalidInstructionData);
    assert_eq!(OpenArgs::try_from_bytes(&[]).unwrap_err(), InstructionError::InvalidInstructionData);
    assert_eq!(SubmitArgs::try_from_bytes(&[0; 55]).unwrap_err(), InstructionError::InvalidInstructionData);
}

#[test]
fn initialize_instruction() {
    let signer = [5u8; 32];
    let ix = initialize(signer);
    assert_eq!(ix.program_id, POOL_PROGRAM_ID);
    assert_eq!(ix.accounts.len(), 1);
    assert_eq!(ix.accounts[0].pubkey, signer);
    assert!(ix.accounts[0].is_signer && ix.accounts[0].is_writable);
    assert_eq!(ix.data, vec![200]);
}

#[test]
fn submit_instruction_reads_back() {
    let signer = [6u8; 32];
    let solution = Solution::new([7; 16], [8; 8]);
    let ix = submit(signer, solution, [9; 32]);
    assert_eq!(ix.program_id, POOL_PROGRAM_ID);
    assert_eq!(ix.accounts[0].pubkey, signer);
    assert_eq!(ix.data.len(), 57);
    assert_eq!(PoolInstruction::try_from_u8(ix.data[0]), Some(PoolInstruction::Submit));
    let args = SubmitArgs::try_from_bytes(&ix.data[1..]).unwrap();
    assert_eq!(args.attestation, [9; 32]);
    assert_eq!(args.digest, [7; 16]);
    assert_eq!(args.nonce, [8; 8]);
}

#[test]
fn le_bytes_roundtrip() {
    for n in [0u64, 1, 255, 256, 0x0102_0304_0506_0708, u64::MAX] {
        assert_eq!(u64_to_le_bytes(n), n.to_le_bytes());
        assert_eq!(u64_from_le_bytes(u64_to_le_bytes(n)), n);
    }
}

#[test]
fn pool_account_layout() {
    let pool = Pool {
        authority: [1; 32],
        bump: 2,
        url: [3; 128],
        attestation: [4; 32],
        last_hash_at: -1,
        reward: 5,
        total_submissions: 6,
        total_members: 7,
        last_total_members: 8,
    };
    let bytes = pool.to_bytes();
    assert_eq!(bytes.len(), 240);
    assert_eq!(&bytes[0..32], &[1u8; 32]);
    assert_eq!(&bytes[32..40], &2u64.to_le_bytes());
    assert_eq!(&bytes[40..168], &[3u8; 128][..]);
    assert_eq!(&bytes[168..200], &[4u8; 32]);
    assert_eq!(&bytes[200..208], &(-1i64).to_le_bytes());
    assert_eq!(&bytes[232..240], &8u64.to_le_bytes());
}

#[test]
fn pool_account_reads_back() {
    let pool = Pool {
        authority: [9; 32],
        bump: 255,
        url: [b'x'; 128],
        attestation: [1; 32],
        last_hash_at: -77,
        reward: 1,
        total_submissions: 2,
        total_members: 3,
        last_total_members: 4,
    };
    let back = Pool::from_bytes(&pool.to_bytes()).unwrap();
    assert_eq!(back.authority, pool.authority);
    assert_eq!(back.bump, 255);
    assert_eq!(back.url, pool.url);
    assert_eq!(back.attestation, pool.attestation);
    assert_eq!(back.last_hash_at, -77);
    assert_eq!((back.reward, back.total_submissions, back.total_members, back.last_total_members), (1, 2, 3, 4));
    assert!(Pool::from_bytes(&[0u8; 239]).is_none());
}
