use anchor_lang::{InstructionData, ToAccountMetas};
use anchor_lang::solana_program::pubkey::Pubkey;
use bot::accounts::Address;
use bot::swap::{swap, LbPairState, SwapParameters};
use solana_sdk::compute_budget::ComputeBudgetInstruction;

fn addr(k: &Pubkey) -> Address {
    Address { bytes: k.to_bytes() }
}

fn key(b: u8) -> Pubkey {
    Pubkey::new_from_array([b; 32])
}

fn state() -> LbPairState {
    LbPairState {
        token_x_mint: addr(&key(1)),
        token_y_mint: addr(&key(2)),
        reserve_x: addr(&key(3)),
        reserve_y: addr(&key(4)),
        oracle: addr(&key(5)),
        active_id: 0,
        bin_step: 25,
    }
}

fn params(swap_for_y: bool) -> SwapParameters {
    SwapParameters {
        lb_pair: addr(&key(9)),
        amount_in: 1000,
        swap_for_y,
        bin_array_idx: -3,
        min_amount_out: 321,
    }
}

#[test]
fn swap_accounts_selling_x() {
    let payer = key(8);
    let r = swap(params(true), &state(), addr(&payer), true);
    let a = r.accounts;
    assert_eq!(a.lb_pair.bytes, key(9).to_bytes());
    let ext = lb_clmm::utils::pda::derive_bin_array_bitmap_extension(key(9)).0;
    assert_eq!(a.bin_array_bitmap_extension.unwrap().bytes, ext.to_bytes());
    let ata_x = anchor_spl::associated_token::get_associated_token_address(&payer, &key(1));
    let ata_y = anchor_spl::associated_token::get_associated_token_address(&payer, &key(2));
    assert_eq!(a.user_token_in.bytes, ata_x.to_bytes());
    assert_eq!(a.user_token_out.bytes, ata_y.to_bytes());
    assert_eq!(a.reserve_x.bytes, key(3).to_bytes());
    assert_eq!(a.reserve_y.bytes, key(4).to_bytes());
    assert_eq!(a.oracle.bytes, key(5).to_bytes());
    assert_eq!(a.user.bytes, payer.to_bytes());
    assert_eq!(a.host_fee_in.unwrap().bytes, lb_clmm::ID.to_bytes());
    assert_eq!(a.program.bytes, lb_clmm::ID.to_bytes());
    assert_eq!(a.token_x_program.bytes, anchor_spl::token::ID.to_bytes());
    assert_eq!(a.token_y_program.bytes, anchor_spl::token::ID.to_bytes());
    let event_authority = lb_clmm::utils::pda::derive_event_authority_pda().0;
    assert_eq!(a.event_authority.bytes, event_authority.to_bytes());
    let expected: Vec<[u8; 32]> = [-3i64, -4, -5]
        .iter()
        .map(|i| lb_clmm::utils::pda::derive_bin_array_pda(key(9), *i).0.to_bytes())
        .collect();
    let got: Vec<[u8; 32]> = r.remaining_accounts.iter().map(|m| m.address.bytes).collect();
    assert_eq!(got, expected);
    assert!(r.remaining_accounts.iter().all(|m| m.is_writable && !m.is_signer));
    assert_eq!(r.instructions.len(), 2);
}

#[test]
fn swap_accounts_buying_x() {
    let payer = key(8);
    let r = swap(params(false), &state(), addr(&payer), false);
    assert!(r.accounts.bin_array_bitmap_extension.is_none());
    let ata_x = anchor_spl::associated_token::get_associated_token_address(&payer, &key(1));
    let ata_y = anchor_spl::associated_token::get_associated_token_address(&payer, &key(2));
    assert_eq!(r.accounts.user_token_in.bytes, ata_y.to_bytes());
    assert_eq!(r.accounts.user_token_out.bytes, ata_x.to_bytes());
    let expected: Vec<[u8; 32]> = [-3i64, -2, -1]
        .iter()
        .map(|i| lb_clmm::utils::pda::derive_bin_array_pda(key(9), *i).0.to_bytes())
        .collect();
    let got: Vec<[u8; 32]> = r.remaining_accounts.iter().map(|m| m.address.bytes).collect();
    assert_eq!(got, expected);
}

#[test]
fn swap_compute_budget_instruction() {
    let r = swap(params(true), &state(), addr(&key(8)), false);
    let cb = &r.instructions[0];
    let expected = ComputeBudgetInstruction::set_compute_unit_limit(1_400_000);
    assert_eq!(cb.program_id.bytes, expected.program_id.to_bytes());
    assert!(cb.accounts.is_empty());
    assert_eq!(cb.data, expected.data);
    assert_eq!(cb.data, vec![2u8, 0xc0, 0x5c, 0x15, 0x00]);
}

#[test]
fn swap_instruction_of_the_pool_program() {
    let payer = key(8);
    let r = swap(params(true), &state(), addr(&payer), false);
    let ix = &r.instructions[1];
    assert_eq!(ix.program_id.bytes, lb_clmm::ID.to_bytes());
    let data = lb_clmm::instruction::Swap { amount_in: 1000, min_amount_out: 321 }.data();
    assert_eq!(ix.data, data);
    assert_eq!(ix.data[..8].to_vec(), vec![248u8, 198, 158, 145, 225, 117, 135, 200]);
    assert_eq!(ix.data[8..16].to_vec(), 1000u64.to_le_bytes().to_vec());
    assert_eq!(ix.data[16..].to_vec(), 321u64.to_le_bytes().to_vec());
    let p = |a: &bot::accounts::Address| Pubkey::new_from_array(a.bytes);
    let a = &r.accounts;
    let expected = lb_clmm::accounts::Swap {
        lb_pair: p(&a.lb_pair),
        bin_array_bitmap_extension: None,
        reserve_x: p(&a.reserve_x),
        reserve_y: p(&a.reserve_y),
        user_token_in: p(&a.user_token_in),
        user_token_out: p(&a.user_token_out),
        token_x_mint: p(&a.token_x_mint),
        token_y_mint: p(&a.token_y_mint),
        oracle: p(&a.oracle),
        host_fee_in: Some(lb_clmm::ID),
        user: payer,
        token_x_program: anchor_spl::token::ID,
        token_y_program: anchor_spl::token::ID,
        event_authority: p(&a.event_authority),
        program: lb_clmm::ID,
    }
    .to_account_metas(None);
    assert_eq!(ix.accounts.len(), expected.len() + 3);
    for (got, want) in ix.accounts.iter().zip(expected.iter()) {
        assert_eq!(got.address.bytes, want.pubkey.to_bytes());
        assert_eq!(got.is_signer, want.is_signer);
        assert_eq!(got.is_writable, want.is_writable);
    }
    let tail: Vec<[u8; 32]> = ix.accounts[expected.len()..].iter().map(|m| m.address.bytes).collect();
    let remaining: Vec<[u8; 32]> = r.remaining_accounts.iter().map(|m| m.address.bytes).collect();
    assert_eq!(tail, remaining);
    // the user signs, and the absent bitmap extension is the read-only program id
    assert_eq!(ix.accounts[10].address.bytes, payer.to_bytes());
    assert!(ix.accounts[10].is_signer && !ix.accounts[10].is_writable);
    assert_eq!(ix.accounts[1].address.bytes, lb_clmm::ID.to_bytes());
    assert!(!ix.accounts[1].is_signer && !ix.accounts[1].is_writable);
    assert_eq!(ix.accounts.iter().filter(|m| m.is_signer).count(), 1);
}
