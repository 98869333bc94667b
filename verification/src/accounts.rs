//! Addresses and instructions as plain values, and the Solana, SPL and
//! `lb_clmm` functions that derive addresses or build instructions.

use vstd::prelude::*;
use anchor_lang::solana_program::pubkey::Pubkey;
use solana_sdk::compute_budget::ComputeBudgetInstruction;

verus! {

/// A 32-byte account address (a public key or a program id).
#[derive(Clone, Copy, Debug)]
pub struct Address {
    pub bytes: [u8; 32],
}

/// One account that an instruction reads or writes.
#[derive(Clone, Copy, Debug)]
pub struct AccountRef {
    pub address: Address,
    pub is_signer: bool,
    pub is_writable: bool,
}

/// An instruction: the program to run, the accounts it touches, its data.
#[derive(Clone, Debug)]
pub struct Ix {
    pub program_id: Address,
    pub accounts: Vec<AccountRef>,
    pub data: Vec<u8>,
}

/// The mathematical content of an instruction.
pub struct IxModel {
    pub program_id: Address,
    pub accounts: Seq<AccountRef>,
    pub data: Seq<u8>,
}

impl View for Ix {
    type V = IxModel;

    open spec fn view(&self) -> IxModel {
        IxModel { program_id: self.program_id, accounts: self.accounts@, data: self.data@ }
    }
}

/// The contents of a list of instructions.
pub open spec fn ixs_view(ixs: Seq<Ix>) -> Seq<IxModel> {
    ixs.map_values(|ix: Ix| ix@)
}

/// The `n` lowest bytes of `x`, least significant first.
pub open spec fn le_bytes(x: nat, n: nat) -> Seq<u8>
    decreases n,
{
    if n == 0 {
        Seq::empty()
    } else {
        seq![(x % 256) as u8] + le_bytes(x / 256, (n - 1) as nat)
    }
}

/// An account that the instruction writes and that does not sign.
pub open spec fn writable(address: Address) -> AccountRef {
    AccountRef { address, is_signer: false, is_writable: true }
}

/// The id of the `lb_clmm` program, LBUZKhRxPF3XUpBCjp4YzTKgLccjZhTSDM9YuVaPwxo.
pub open spec fn dlmm_program_id_bytes() -> Seq<u8> {
    seq![4u8, 233, 225, 47, 188, 132, 232, 38, 201, 50, 204, 233, 226, 100, 12, 206, 21, 89, 12, 28,
        98, 115, 176, 146, 87, 8, 186, 59, 133, 32, 176, 188]
}

/// The id of the SPL token program, TokenkegQfeZyiNwAJbNbGKPFXCWuBvf9Ss623VQ5DA.
pub open spec fn token_program_id_bytes() -> Seq<u8> {
    seq![6u8, 221, 246, 225, 215, 101, 161, 147, 217, 203, 225, 70, 206, 235, 121, 172, 28, 180,
        133, 237, 95, 91, 55, 145, 58, 140, 245, 133, 126, 255, 0, 169]
}

/// The id of the SPL memo program, MemoSq4gqABAXKb96qnH8TysNcWxMyWCqXgDLGmfcHr.
pub open spec fn memo_program_id_bytes() -> Seq<u8> {
    seq![5u8, 74, 83, 90, 153, 41, 33, 6, 77, 36, 232, 113, 96, 218, 56, 124, 124, 53, 181, 221,
        188, 146, 187, 129, 228, 31, 168, 64, 65, 5, 68, 141]
}

/// The id of the compute budget program, ComputeBudget111111111111111111111111111111.
pub open spec fn compute_budget_program_id_bytes() -> Seq<u8> {
    seq![3u8, 6, 70, 111, 229, 33, 23, 50, 255, 236, 173, 186, 114, 195, 155, 231, 188, 140, 229,
        187, 197, 247, 18, 107, 44, 67, 155, 58, 64, 0, 0, 0]
}

/// The id of the system program: 32 zero bytes.
pub open spec fn system_program_id_bytes() -> Seq<u8> {
    Seq::new(32, |i: int| 0u8)
}

/// What `Pubkey::find_program_address` returns: the program-derived address
/// and its bump seed.
pub uninterp spec fn program_address(seeds: Seq<Seq<u8>>, program_id: Seq<u8>) -> (Seq<u8>, u8);

/// The seed `"bin_array"` of the pool program's bin arrays.
pub open spec fn bin_array_seed() -> Seq<u8> {
    seq![98u8, 105, 110, 95, 97, 114, 114, 97, 121]
}

/// The seed `"bitmap"` of the pool program's bin array bitmap extensions.
pub open spec fn bitmap_seed() -> Seq<u8> {
    seq![98u8, 105, 116, 109, 97, 112]
}

/// The 8 little-endian bytes of an `i64` in two's complement.
pub open spec fn i64_le_bytes(x: i64) -> Seq<u8> {
    le_bytes(((x as int) % 18446744073709551616) as nat, 8)
}

/// The id of the associated token account program,
/// ATokenGPvbdGVxr1b2hvZbsiqW5xWH25efTNsLJA8knL.
pub open spec fn associated_token_program_id_bytes() -> Seq<u8> {
    seq![140u8, 151, 37, 143, 78, 36, 137, 241, 187, 61, 16, 41, 20, 142, 13, 131, 11, 90, 19,
        153, 218, 255, 16, 132, 4, 142, 123, 216, 219, 233, 248, 89]
}

/// The address of bin array `index` of a pool, and its bump seed.
pub open spec fn bin_array_address(lb_pair: Seq<u8>, index: i64) -> (Seq<u8>, u8) {
    program_address(seq![bin_array_seed(), lb_pair, i64_le_bytes(index)], dlmm_program_id_bytes())
}

/// The address of a pool's bin array bitmap extension, and its bump seed.
pub open spec fn bitmap_extension_address(lb_pair: Seq<u8>) -> (Seq<u8>, u8) {
    program_address(seq![bitmap_seed(), lb_pair], dlmm_program_id_bytes())
}

/// The associated token account of a wallet for a mint under the SPL token
/// program.
pub open spec fn associated_token_address(wallet: Seq<u8>, mint: Seq<u8>) -> Seq<u8> {
    program_address(
        seq![wallet, token_program_id_bytes(), mint],
        associated_token_program_id_bytes(),
    ).0
}

/// `lb_clmm::ID`, the program id of the liquidity-book program.
#[verifier::external_body]
pub(crate) fn dlmm_program_id() -> (r: Address)
    ensures
        r.bytes@ == dlmm_program_id_bytes(),
{
    Address { bytes: lb_clmm::ID.to_bytes() }
}

/// `anchor_spl::token::ID`, the program id of the SPL token program.
#[verifier::external_body]
pub(crate) fn token_program_id() -> (r: Address)
    ensures
        r.bytes@ == token_program_id_bytes(),
{
    Address { bytes: anchor_spl::token::ID.to_bytes() }
}

/// `Pubkey::find_program_address` (solana-program): the first bump seed, from
/// 255 down, for which the hash of the seeds, the bump and the program id lies
/// off the curve, with that address. It panics when there are 16 or more
/// seeds or a seed longer than 32 bytes, which `requires` leaves out; it also
/// panics when no bump seed works, which is not stated (it has probability
/// about 2^-255).
#[verifier::external_body]
pub(crate) fn find_program_address(seeds: &Vec<Vec<u8>>, program_id: Address) -> (r: (Address, u8))
    requires
        seeds.len() < 16,
        forall|i: int| 0 <= i < seeds.len() ==> seeds[i].len() <= 32,
    ensures
        (r.0.bytes@, r.1) == program_address(seeds@.map_values(|s: Vec<u8>| s@), program_id.bytes@),
{
    let seeds: Vec<&[u8]> = seeds.iter().map(|s| s.as_slice()).collect();
    let (key, bump) = Pubkey::find_program_address(&seeds, &Pubkey::new_from_array(program_id.bytes));
    (Address { bytes: key.to_bytes() }, bump)
}

/// `lb_clmm::utils::pda::derive_bin_array_pda`: the program address, under
/// the pool program, of the seeds `"bin_array"`, the pool and the index in 8
/// little-endian bytes (it calls `Pubkey::find_program_address`, whose rare
/// panic when no bump seed works is not stated).
#[verifier::external_body]
pub(crate) fn derive_bin_array_pda(lb_pair: Address, index: i64) -> (r: (Address, u8))
    ensures
        (r.0.bytes@, r.1) == bin_array_address(lb_pair.bytes@, index),
{
    let (key, bump) = lb_clmm::utils::pda::derive_bin_array_pda(
        Pubkey::new_from_array(lb_pair.bytes),
        index,
    );
    (Address { bytes: key.to_bytes() }, bump)
}

/// `lb_clmm::utils::pda::derive_bin_array_bitmap_extension`: the program
/// address, under the pool program, of the seeds `"bitmap"` and the pool (it
/// calls `Pubkey::find_program_address`, whose rare panic when no bump seed
/// works is not stated).
#[verifier::external_body]
pub(crate) fn derive_bin_array_bitmap_extension(lb_pair: Address) -> (r: (Address, u8))
    ensures
        (r.0.bytes@, r.1) == bitmap_extension_address(lb_pair.bytes@),
{
    let (key, bump) = lb_clmm::utils::pda::derive_bin_array_bitmap_extension(
        Pubkey::new_from_array(lb_pair.bytes),
    );
    (Address { bytes: key.to_bytes() }, bump)
}

/// `anchor_spl::associated_token::get_associated_token_address` (re-exported
/// from spl-associated-token-account): the program address, under the
/// associated token account program, of the seeds wallet, SPL token program id
/// and mint (through `Pubkey::find_program_address`, whose rare panic when no
/// bump seed works is not stated).
#[verifier::external_body]
pub(crate) fn get_associated_token_address(wallet: Address, mint: Address) -> (r: Address)
    ensures
        r.bytes@ == associated_token_address(wallet.bytes@, mint.bytes@),
{
    let key = anchor_spl::associated_token::get_associated_token_address(
        &Pubkey::new_from_array(wallet.bytes),
        &Pubkey::new_from_array(mint.bytes),
    );
    Address { bytes: key.to_bytes() }
}

/// `ComputeBudgetInstruction::set_compute_unit_limit` (solana-sdk): an
/// instruction to the compute budget program with no accounts whose data is
/// the borsh encoding of variant 2 with the limit: the byte 2, then the limit
/// in 4 little-endian bytes.
#[verifier::external_body]
pub(crate) fn set_compute_unit_limit(units: u32) -> (r: Ix)
    ensures
        r@.program_id.bytes@ == compute_budget_program_id_bytes(),
        r@.accounts == Seq::<AccountRef>::empty(),
        r@.data == seq![2u8] + le_bytes(units as nat, 4),
{
    let ix = ComputeBudgetInstruction::set_compute_unit_limit(units);
    let accounts = ix.accounts.iter().map(|m| AccountRef {
        address: Address { bytes: m.pubkey.to_bytes() },
        is_signer: m.is_signer,
        is_writable: m.is_writable,
    }).collect();
    Ix { program_id: Address { bytes: ix.program_id.to_bytes() }, accounts, data: ix.data }
}

/// `ComputeBudgetInstruction::set_compute_unit_price` (solana-sdk): an
/// instruction to the compute budget program with no accounts whose data is
/// the borsh encoding of variant 3 with the price: the byte 3, then the price
/// in 8 little-endian bytes.
#[verifier::external_body]
pub(crate) fn set_compute_unit_price(micro_lamports: u64) -> (r: Ix)
    ensures
        r@.program_id.bytes@ == compute_budget_program_id_bytes(),
        r@.accounts == Seq::<AccountRef>::empty(),
        r@.data == seq![3u8] + le_bytes(micro_lamports as nat, 8),
{
    let ix = ComputeBudgetInstruction::set_compute_unit_price(micro_lamports);
    let accounts = ix.accounts.iter().map(|m| AccountRef {
        address: Address { bytes: m.pubkey.to_bytes() },
        is_signer: m.is_signer,
        is_writable: m.is_writable,
    }).collect();
    Ix { program_id: Address { bytes: ix.program_id.to_bytes() }, accounts, data: ix.data }
}

/// `spl_memo::build_memo` with no signers (spl-memo): an instruction to the
/// memo program with no accounts whose data is the memo itself.
#[verifier::external_body]
pub(crate) fn build_memo(memo: &Vec<u8>) -> (r: Ix)
    ensures
        r@.program_id.bytes@ == memo_program_id_bytes(),
        r@.accounts == Seq::<AccountRef>::empty(),
        r@.data == memo@,
{
    let ix = spl_memo::build_memo(memo.as_slice(), &[]);
    let accounts = ix.accounts.iter().map(|m| AccountRef {
        address: Address { bytes: m.pubkey.to_bytes() },
        is_signer: m.is_signer,
        is_writable: m.is_writable,
    }).collect();
    Ix { program_id: Address { bytes: ix.program_id.to_bytes() }, accounts, data: ix.data }
}

/// `system_instruction::transfer` (solana-program): an instruction to the
/// system program whose accounts are the payer (signing, written) and the
/// receiver (written), and whose data is the bincode encoding of variant 2
/// with the amount: 2 as 4 little-endian bytes, then the amount in 8
/// little-endian bytes.
#[verifier::external_body]
pub(crate) fn transfer(from: Address, to: Address, lamports: u64) -> (r: Ix)
    ensures
        r@.program_id.bytes@ == system_program_id_bytes(),
        r@.accounts == seq![
            AccountRef { address: from, is_signer: true, is_writable: true },
            writable(to),
        ],
        r@.data == le_bytes(2, 4) + le_bytes(lamports as nat, 8),
{
    let ix = anchor_lang::solana_program::system_instruction::transfer(
        &Pubkey::new_from_array(from.bytes),
        &Pubkey::new_from_array(to.bytes),
        lamports,
    );
    let accounts = ix.accounts.iter().map(|m| AccountRef {
        address: Address { bytes: m.pubkey.to_bytes() },
        is_signer: m.is_signer,
        is_writable: m.is_writable,
    }).collect();
    Ix { program_id: Address { bytes: ix.program_id.to_bytes() }, accounts, data: ix.data }
}

} // verus!
