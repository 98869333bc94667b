use anchor_lang::solana_program::pubkey::Pubkey;
use bot::accounts::{AccountRef, Address, Ix};
use bot::sender::{decimal_text, Blockhash, SenderState};

fn ix(tag: u8) -> Ix {
    Ix {
        program_id: Address { bytes: [tag; 32] },
        accounts: vec![AccountRef { address: Address { bytes: [tag; 32] }, is_signer: false, is_writable: true }],
        data: vec![tag, tag],
    }
}

#[test]
fn decimal_text_of_numbers() {
    assert_eq!(decimal_text(0), b"0".to_vec());
    assert_eq!(decimal_text(7), b"7".to_vec());
    assert_eq!(decimal_text(1234), b"1234".to_vec());
    assert_eq!(decimal_text(u64::MAX), u64::MAX.to_string().into_bytes());
}

#[test]
fn nothing_is_sent_before_a_blockhash() {
    let mut s = SenderState::new();
    assert!(s.round_transactions(&vec![vec![ix(1)]]).is_empty());
    s.observe_blockhash(None);
    assert!(s.last_blockhash.is_none());
    assert!(s.bundle_transactions(&vec![vec![ix(1)]], Address { bytes: [0; 32] }, Address { bytes: [1; 32] }, 5).is_empty());
}

#[test]
fn latest_blockhash_is_kept() {
    let mut s = SenderState::new();
    s.observe_blockhash(Some(Blockhash { bytes: [3; 32] }));
    assert_eq!(s.last_blockhash.unwrap().bytes, [3; 32]);
    s.observe_blockhash(None);
    assert_eq!(s.last_blockhash.unwrap().bytes, [3; 32]);
    s.observe_blockhash(Some(Blockhash { bytes: [4; 32] }));
    assert_eq!(s.last_blockhash.unwrap().bytes, [4; 32]);
    assert_eq!(s.round, 0);
}

#[test]
fn round_transactions_wrap_swaps() {
    let mut s = SenderState::new();
    s.observe_blockhash(Some(Blockhash { bytes: [3; 32] }));
    for _ in 0..42 {
        s.finish_round();
    }
    let txs = s.round_transactions(&vec![vec![ix(1), ix(2)], vec![ix(5)]]);
    assert_eq!(txs.len(), 2);
    assert_eq!(txs[0].len(), 4);
    assert_eq!(txs[1].len(), 3);
    let price = solana_sdk::compute_budget::ComputeBudgetInstruction::set_compute_unit_price(1);
    assert_eq!(txs[0][0].program_id.bytes, price.program_id.to_bytes());
    assert_eq!(txs[0][0].data, price.data);
    assert_eq!(txs[0][1].data, vec![1, 1]);
    assert_eq!(txs[0][2].data, vec![2, 2]);
    assert_eq!(txs[1][1].program_id.bytes, [5; 32]);
    let memo = spl_memo::build_memo(b"42", &[]);
    assert_eq!(txs[0][3].program_id.bytes, memo.program_id.to_bytes());
    assert_eq!(txs[0][3].data, b"42".to_vec());
    assert!(txs[0][3].accounts.is_empty());
    assert_eq!(txs[1][2].data, b"42".to_vec());
}

#[test]
fn progress_every_hundred_rounds() {
    let mut s = SenderState::new();
    let mut reports = vec![];
    for _ in 0..250 {
        if s.finish_round() {
            reports.push(s.round);
        }
    }
    assert_eq!(reports, vec![100, 200]);
    assert_eq!(s.round, 250);
}

#[test]
fn bundles_end_with_the_tip() {
    let mut s = SenderState::new();
    s.observe_blockhash(Some(Blockhash { bytes: [3; 32] }));
    let payer = Pubkey::new_from_array([8; 32]);
    let tip = Pubkey::new_from_array([9; 32]);
    let txs = s.bundle_transactions(
        &vec![vec![ix(1), ix(2)]],
        Address { bytes: payer.to_bytes() },
        Address { bytes: tip.to_bytes() },
        10_000,
    );
    assert_eq!(txs.len(), 1);
    assert_eq!(txs[0].len(), 3);
    assert_eq!(txs[0][1].data, vec![2, 2]);
    let expected = anchor_lang::solana_program::system_instruction::transfer(&payer, &tip, 10_000);
    let last = &txs[0][2];
    assert_eq!(last.program_id.bytes, expected.program_id.to_bytes());
    assert_eq!(last.data, expected.data);
    assert_eq!(last.accounts.len(), 2);
    assert_eq!(last.accounts[0].address.bytes, payer.to_bytes());
    assert!(last.accounts[0].is_signer && last.accounts[0].is_writable);
    assert_eq!(last.accounts[1].address.bytes, tip.to_bytes());
    assert!(!last.accounts[1].is_signer && last.accounts[1].is_writable);
}
