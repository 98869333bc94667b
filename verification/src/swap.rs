//! The accounts and arguments of a swap through a liquidity-book pool.

use vstd::prelude::*;
use anchor_lang::solana_program::pubkey::Pubkey;
use anchor_lang::{InstructionData, ToAccountMetas};
use lb_clmm::accounts::Swap as SwapIx;
use crate::accounts::{
    AccountRef, Address, Ix, associated_token_address, bin_array_address,
    bitmap_extension_address, compute_budget_program_id_bytes, derive_bin_array_bitmap_extension,
    derive_bin_array_pda, dlmm_program_id, dlmm_program_id_bytes, find_program_address,
    get_associated_token_address, le_bytes, program_address, set_compute_unit_limit,
    token_program_id, token_program_id_bytes,
};

verus! {

/// What a swap is asked to do.
#[derive(Clone, Copy, Debug)]
pub struct SwapParameters {
    pub lb_pair: Address,
    pub amount_in: u64,
    pub swap_for_y: bool,
    pub bin_array_idx: i32,
    pub min_amount_out: u64,
}

/// The fields of a pool's on-chain state that a swap and its planning read.
#[derive(Clone, Copy, Debug)]
pub struct LbPairState {
    pub token_x_mint: Address,
    pub token_y_mint: Address,
    pub reserve_x: Address,
    pub reserve_y: Address,
    pub oracle: Address,
    pub active_id: i32,
    pub bin_step: u16,
}

/// The accounts of the pool program's swap instruction, in its order.
#[derive(Clone, Copy, Debug)]
pub struct SwapAccounts {
    pub lb_pair: Address,
    pub bin_array_bitmap_extension: Option<Address>,
    pub reserve_x: Address,
    pub reserve_y: Address,
    pub user_token_in: Address,
    pub user_token_out: Address,
    pub token_x_mint: Address,
    pub token_y_mint: Address,
    pub oracle: Address,
    pub host_fee_in: Option<Address>,
    pub user: Address,
    pub token_x_program: Address,
    pub token_y_program: Address,
    pub event_authority: Address,
    pub program: Address,
}

/// A swap request: the accounts of the pool program's swap instruction, the
/// bin arrays it may cross, and the instructions to send, a compute budget
/// instruction first and the swap instruction second.
#[derive(Clone, Debug)]
pub struct SwapRequest {
    pub accounts: SwapAccounts,
    pub remaining_accounts: Vec<AccountRef>,
    pub instructions: Vec<Ix>,
}

/// An account of an instruction: this address, signing or not, written or not.
pub open spec fn account_is(m: AccountRef, address: Seq<u8>, is_signer: bool, is_writable: bool) -> bool {
    &&& m.address.bytes@ == address
    &&& m.is_signer == is_signer
    &&& m.is_writable == is_writable
}

/// An optional account of an instruction: the account, not signing, when it
/// is there; the pool program's id, read only, in its place when it is not.
pub open spec fn optional_account_is(m: AccountRef, account: Option<Address>, is_writable: bool) -> bool {
    match account {
        Some(a) => account_is(m, a.bytes@, false, is_writable),
        None => account_is(m, dlmm_program_id_bytes(), false, false),
    }
}

/// The account list of the pool program's swap instruction, in the order of
/// its accounts struct: the pool, the optional bitmap extension, the two
/// reserves and the user's two token accounts (written), the two mints, the
/// oracle (written), the optional host fee account (written), the user (the
/// one signer), the two token programs, the event authority and the program.
pub open spec fn swap_account_list(a: SwapAccounts, metas: Seq<AccountRef>) -> bool {
    &&& metas.len() == 15
    &&& account_is(metas[0], a.lb_pair.bytes@, false, true)
    &&& optional_account_is(metas[1], a.bin_array_bitmap_extension, false)
    &&& account_is(metas[2], a.reserve_x.bytes@, false, true)
    &&& account_is(metas[3], a.reserve_y.bytes@, false, true)
    &&& account_is(metas[4], a.user_token_in.bytes@, false, true)
    &&& account_is(metas[5], a.user_token_out.bytes@, false, true)
    &&& account_is(metas[6], a.token_x_mint.bytes@, false, false)
    &&& account_is(metas[7], a.token_y_mint.bytes@, false, false)
    &&& account_is(metas[8], a.oracle.bytes@, false, true)
    &&& optional_account_is(metas[9], a.host_fee_in, true)
    &&& account_is(metas[10], a.user.bytes@, true, false)
    &&& account_is(metas[11], a.token_x_program.bytes@, false, false)
    &&& account_is(metas[12], a.token_y_program.bytes@, false, false)
    &&& account_is(metas[13], a.event_authority.bytes@, false, false)
    &&& account_is(metas[14], a.program.bytes@, false, false)
}

/// An account list given as address, signer flag and writable flag.
pub open spec fn as_account_refs(metas: Seq<([u8; 32], bool, bool)>) -> Seq<AccountRef> {
    metas.map_values(
        |m: ([u8; 32], bool, bool)|
            AccountRef { address: Address { bytes: m.0 }, is_signer: m.1, is_writable: m.2 },
    )
}

/// The discriminator of the pool program's swap instruction: the first 8
/// bytes of the SHA-256 of `"global:swap"`.
pub open spec fn swap_discriminator() -> Seq<u8> {
    seq![248u8, 198, 158, 145, 225, 117, 135, 200]
}

/// `ToAccountMetas::to_account_metas` on `lb_clmm::accounts::Swap` (written by
/// anchor's `Accounts` derive with `event_cpi`): one entry per field in the
/// order of the pool program's `Swap` accounts struct, written where the field
/// is `mut`, signing where it is a `Signer`, and the read-only pool program id
/// in place of an absent optional account; `event_cpi` appends the event
/// authority and the program, both read only.
#[verifier::external_body]
pub(crate) fn swap_account_metas(a: &SwapAccounts) -> (r: Vec<([u8; 32], bool, bool)>)
    ensures
        swap_account_list(*a, as_account_refs(r@)),
{
    let k = |x: Address| Pubkey::from(x.bytes);
    SwapIx { lb_pair: k(a.lb_pair), bin_array_bitmap_extension: a.bin_array_bitmap_extension.map(k),
        reserve_x: k(a.reserve_x), reserve_y: k(a.reserve_y), user_token_in: k(a.user_token_in),
        user_token_out: k(a.user_token_out), token_x_mint: k(a.token_x_mint), token_y_mint: k(a.token_y_mint),
        oracle: k(a.oracle), host_fee_in: a.host_fee_in.map(k), user: k(a.user), token_x_program: k(a.token_x_program),
        token_y_program: k(a.token_y_program), event_authority: k(a.event_authority), program: k(a.program) }
        .to_account_metas(None).iter().map(|m| (m.pubkey.to_bytes(), m.is_signer, m.is_writable)).collect()
}

/// `InstructionData::data` on `lb_clmm::instruction::Swap` (anchor): the
/// instruction's discriminator, then the borsh encoding of its arguments, two
/// `u64` in 8 little-endian bytes each.
#[verifier::external_body]
pub(crate) fn swap_instruction_data(amount_in: u64, min_amount_out: u64) -> (r: Vec<u8>)
    ensures
        r@ == swap_discriminator() + le_bytes(amount_in as nat, 8) + le_bytes(
            min_amount_out as nat,
            8,
        ),
{
    lb_clmm::instruction::Swap { amount_in, min_amount_out }.data()
}

/// The compute unit limit the swap asks for.
pub open spec fn swap_compute_unit_limit() -> nat {
    1400000
}

/// The seed of the pool program's event authority: `"__event_authority"`.
pub open spec fn event_authority_seed() -> Seq<u8> {
    seq![95u8, 95, 101, 118, 101, 110, 116, 95, 97, 117, 116, 104, 111, 114, 105, 116, 121]
}

/// The bin arrays the swap starts in and may cross: the starting one, then
/// the next two in the direction the price moves (down when selling X for Y,
/// up when buying X).
pub open spec fn crossed_bin_array_indexes(bin_array_idx: i32, swap_for_y: bool) -> Seq<int> {
    if swap_for_y {
        seq![bin_array_idx as int, bin_array_idx - 1, bin_array_idx - 2]
    } else {
        seq![bin_array_idx as int, bin_array_idx + 1, bin_array_idx + 2]
    }
}

/// The `i`-th bin array a swap may cross is `i` arrays from the starting one,
/// downward when selling X for Y and upward when buying X.
pub proof fn lemma_crossed_bin_arrays_step_with_direction(bin_array_idx: i32, swap_for_y: bool)
    ensures
        crossed_bin_array_indexes(bin_array_idx, swap_for_y).len() == 3,
        forall|i: int|
            0 <= i < 3 ==> #[trigger] crossed_bin_array_indexes(bin_array_idx, swap_for_y)[i] == (if swap_for_y {
                bin_array_idx - i
            } else {
                bin_array_idx + i
            }),
{
}

/// The bin array index stays within `i32` when moved two arrays along the swap.
pub open spec fn bin_array_steps_fit(bin_array_idx: i32, swap_for_y: bool) -> bool {
    if swap_for_y {
        bin_array_idx - 2 >= i32::MIN
    } else {
        bin_array_idx + 2 <= i32::MAX
    }
}

/// The token account the user pays from: the one for X when selling X.
pub open spec fn token_in_mint(state: LbPairState, swap_for_y: bool) -> Address {
    if swap_for_y {
        state.token_x_mint
    } else {
        state.token_y_mint
    }
}

/// The token account the user receives in: the one for Y when selling X.
pub open spec fn token_out_mint(state: LbPairState, swap_for_y: bool) -> Address {
    if swap_for_y {
        state.token_y_mint
    } else {
        state.token_x_mint
    }
}

/// The swap request for `params` against a pool in state `lb_pair_state`,
/// paid by `payer`. `bitmap_extension_found` tells whether the pool's bin
/// array bitmap extension account exists; only then is it passed.
pub fn swap(
    params: SwapParameters,
    lb_pair_state: &LbPairState,
    payer: Address,
    bitmap_extension_found: bool,
) -> (r: SwapRequest)
    requires
        bin_array_steps_fit(params.bin_array_idx, params.swap_for_y),
    ensures
        r.instructions.len() == 2,
        r.instructions@[0]@.program_id.bytes@ == compute_budget_program_id_bytes(),
        r.instructions@[0]@.accounts.len() == 0,
        r.instructions@[0]@.data == seq![2u8] + le_bytes(swap_compute_unit_limit(), 4),
        r.instructions@[1]@.program_id.bytes@ == dlmm_program_id_bytes(),
        r.instructions@[1]@.accounts.len() == 18,
        swap_account_list(r.accounts, r.instructions@[1]@.accounts.subrange(0, 15)),
        r.instructions@[1]@.accounts.subrange(15, 18) == r.remaining_accounts@,
        account_is(r.instructions@[1]@.accounts[10], payer.bytes@, true, false),
        r.instructions@[1]@.data == swap_discriminator() + le_bytes(params.amount_in as nat, 8)
            + le_bytes(params.min_amount_out as nat, 8),
        r.accounts.lb_pair == params.lb_pair,
        r.accounts.bin_array_bitmap_extension matches Some(a) ==> a.bytes@ == bitmap_extension_address(
            params.lb_pair.bytes@,
        ).0,
        r.accounts.bin_array_bitmap_extension is Some == bitmap_extension_found,
        r.accounts.reserve_x == lb_pair_state.reserve_x,
        r.accounts.reserve_y == lb_pair_state.reserve_y,
        r.accounts.user_token_in.bytes@ == associated_token_address(
            payer.bytes@,
            token_in_mint(*lb_pair_state, params.swap_for_y).bytes@,
        ),
        r.accounts.user_token_out.bytes@ == associated_token_address(
            payer.bytes@,
            token_out_mint(*lb_pair_state, params.swap_for_y).bytes@,
        ),
        r.accounts.token_x_mint == lb_pair_state.token_x_mint,
        r.accounts.token_y_mint == lb_pair_state.token_y_mint,
        r.accounts.oracle == lb_pair_state.oracle,
        r.accounts.host_fee_in matches Some(a) && a.bytes@ == dlmm_program_id_bytes(),
        r.accounts.user == payer,
        r.accounts.token_x_program.bytes@ == token_program_id_bytes(),
        r.accounts.token_y_program.bytes@ == token_program_id_bytes(),
        r.accounts.event_authority.bytes@ == program_address(
            seq![event_authority_seed()],
            dlmm_program_id_bytes(),
        ).0,
        r.accounts.program.bytes@ == dlmm_program_id_bytes(),
        r.remaining_accounts@.len() == 3,
        forall|i: int|
            0 <= i < 3 ==> {
                let a = #[trigger] r.remaining_accounts@[i];
                &&& !a.is_signer
                &&& a.is_writable
                &&& a.address.bytes@ == bin_array_address(
                    params.lb_pair.bytes@,
                    crossed_bin_array_indexes(params.bin_array_idx, params.swap_for_y)[i] as i64,
                ).0
            },
        forall|i: int|
            0 <= i < 3 ==> (#[trigger] r.remaining_accounts@[i]).address.bytes@ == bin_array_address(
                params.lb_pair.bytes@,
                (if params.swap_for_y {
                    params.bin_array_idx - i
                } else {
                    params.bin_array_idx + i
                }) as i64,
            ).0,
{
    let SwapParameters { amount_in, lb_pair, swap_for_y, bin_array_idx, min_amount_out } = params;

    let (bin_array_0, _bump) = derive_bin_array_pda(lb_pair, bin_array_idx as i64);
    let (user_token_in, user_token_out, bin_array_1, bin_array_2) = if swap_for_y {
        (
            get_associated_token_address(payer, lb_pair_state.token_x_mint),
            get_associated_token_address(payer, lb_pair_state.token_y_mint),
            derive_bin_array_pda(lb_pair, (bin_array_idx - 1) as i64).0,
            derive_bin_array_pda(lb_pair, (bin_array_idx - 2) as i64).0,
        )
    } else {
        (
            get_associated_token_address(payer, lb_pair_state.token_y_mint),
            get_associated_token_address(payer, lb_pair_state.token_x_mint),
            derive_bin_array_pda(lb_pair, (bin_array_idx + 1) as i64).0,
            derive_bin_array_pda(lb_pair, (bin_array_idx + 2) as i64).0,
        )
    };

    let (bin_array_bitmap_extension, _bump) = derive_bin_array_bitmap_extension(lb_pair);
    let bin_array_bitmap_extension = if !bitmap_extension_found {
        None
    } else {
        Some(bin_array_bitmap_extension)
    };

    let seeds = vec![vec![95u8, 95, 101, 118, 101, 110, 116, 95, 97, 117, 116, 104, 111, 114, 105, 116, 121]];
    proof {
        assert(seeds@.map_values(|s: Vec<u8>| s@) =~= seq![event_authority_seed()]);
    }
    let (event_authority, _bump) = find_program_address(&seeds, dlmm_program_id());

    let accounts = SwapAccounts {
        lb_pair,
        bin_array_bitmap_extension,
        reserve_x: lb_pair_state.reserve_x,
        reserve_y: lb_pair_state.reserve_y,
        token_x_mint: lb_pair_state.token_x_mint,
        token_y_mint: lb_pair_state.token_y_mint,
        token_x_program: token_program_id(),
        token_y_program: token_program_id(),
        user: payer,
        user_token_in,
        user_token_out,
        oracle: lb_pair_state.oracle,
        host_fee_in: Some(dlmm_program_id()),
        event_authority,
        program: dlmm_program_id(),
    };

    let remaining_accounts = vec![
        AccountRef { is_signer: false, is_writable: true, address: bin_array_0 },
        AccountRef { is_signer: false, is_writable: true, address: bin_array_1 },
        AccountRef { is_signer: false, is_writable: true, address: bin_array_2 },
    ];

    let compute_budget_ix = set_compute_unit_limit(1_400_000);

    let metas = swap_account_metas(&accounts);
    let mut swap_accounts: Vec<AccountRef> = Vec::new();
    for i in 0..metas.len()
        invariant
            swap_accounts@ == as_account_refs(metas@.subrange(0, i as int)),
    {
        let (bytes, is_signer, is_writable) = metas[i];
        swap_accounts.push(AccountRef { address: Address { bytes }, is_signer, is_writable });
        proof {
            assert(metas@.subrange(0, i + 1) =~= metas@.subrange(0, i as int).push(metas@[i as int]));
        }
    }
    proof {
        assert(metas@.subrange(0, metas@.len() as int) =~= metas@);
    }
    let ghost converted = swap_accounts@;
    assert(converted.len() == 15);
    for i in 0..remaining_accounts.len()
        invariant
            swap_accounts@ == converted + remaining_accounts@.subrange(0, i as int),
    {
        swap_accounts.push(remaining_accounts[i]);
    }
    proof {
        assert(remaining_accounts@.subrange(0, remaining_accounts@.len() as int) =~= remaining_accounts@);
    }
    proof {
        assert(swap_accounts@.subrange(0, 15) =~= converted);
        assert(swap_accounts@.subrange(15, 18) =~= remaining_accounts@);
    }
    let swap_ix = Ix {
        program_id: dlmm_program_id(),
        accounts: swap_accounts,
        data: swap_instruction_data(amount_in, min_amount_out),
    };
    let instructions = vec![compute_budget_ix, swap_ix];

    SwapRequest { accounts, remaining_accounts, instructions }
}

/// Turning a swap around exchanges the token accounts it pays from and
/// receives in, and mirrors the bin arrays it may cross around the starting
/// one.
pub proof fn lemma_reverse_swap_mirrors(state: LbPairState, bin_array_idx: i32)
    ensures
        token_in_mint(state, true) == token_out_mint(state, false),
        token_out_mint(state, true) == token_in_mint(state, false),
        forall|i: int|
            0 <= i < 3 ==> crossed_bin_array_indexes(bin_array_idx, true)[i] - bin_array_idx == bin_array_idx
                - crossed_bin_array_indexes(bin_array_idx, false)[i],
{
}

} // verus!
