//! The decisions of the transaction senders: which blockhash to sign with,
//! which transactions a round sends, and when progress is reported.

use vstd::prelude::*;
use crate::accounts::{
    AccountRef, Address, Ix, IxModel, build_memo, compute_budget_program_id_bytes, ixs_view,
    le_bytes, memo_program_id_bytes, set_compute_unit_price, system_program_id_bytes, transfer,
    writable,
};

verus! {

/// A recent blockhash, which a transaction is signed against.
#[derive(Clone, Copy, Debug)]
pub struct Blockhash {
    pub bytes: [u8; 32],
}

/// What a sender remembers between rounds: the latest blockhash it has seen,
/// and how many rounds it has completed.
#[derive(Clone, Copy, Debug)]
pub struct SenderState {
    pub last_blockhash: Option<Blockhash>,
    pub round: i32,
}

/// The decimal digits of `n` in ASCII, most significant first.
pub open spec fn decimal_digits(n: nat) -> Seq<u8>
    decreases n,
{
    if n < 10 {
        seq![(48 + n) as u8]
    } else {
        decimal_digits(n / 10).push((48 + n % 10) as u8)
    }
}

/// The compute unit price the swap transactions offer.
pub open spec fn swap_compute_unit_price() -> nat {
    1
}

/// An instruction with this program, no accounts and this data.
pub open spec fn plain_ix(program_id: Seq<u8>, data: Seq<u8>, ix: IxModel) -> bool {
    &&& ix.program_id.bytes@ == program_id
    &&& ix.accounts.len() == 0
    &&& ix.data == data
}

/// The transaction a round sends for one list of swap instructions: a compute
/// unit price of 1, the swap instructions, and a memo holding the round
/// number in decimal.
pub open spec fn round_transaction(swap_ixs: Seq<IxModel>, round: nat, tx: Seq<IxModel>) -> bool {
    &&& tx.len() == swap_ixs.len() + 2
    &&& plain_ix(
        compute_budget_program_id_bytes(),
        seq![3u8] + le_bytes(swap_compute_unit_price(), 8),
        tx[0],
    )
    &&& tx.subrange(1, tx.len() - 1) == swap_ixs
    &&& plain_ix(memo_program_id_bytes(), decimal_digits(round), tx[tx.len() - 1])
}

/// A bundle of instructions with a tip to `tip_account` added at the end.
pub open spec fn tipped_bundle(
    ixs: Seq<IxModel>,
    payer: Address,
    tip_account: Address,
    tip_amount: u64,
    tx: Seq<IxModel>,
) -> bool {
    &&& tx.len() == ixs.len() + 1
    &&& tx.subrange(0, ixs.len() as int) == ixs
    &&& tx[ixs.len() as int].program_id.bytes@ == system_program_id_bytes()
    &&& tx[ixs.len() as int].accounts == seq![
        AccountRef { address: payer, is_signer: true, is_writable: true },
        writable(tip_account),
    ]
    &&& tx[ixs.len() as int].data == le_bytes(2, 4) + le_bytes(tip_amount as nat, 8)
}

/// The decimal digits of `n` in ASCII, most significant first, as a
/// formatter writes them.
pub fn decimal_text(n: u64) -> (r: Vec<u8>)
    ensures
        r@ == decimal_digits(n as nat),
    decreases n,
{
    if n < 10 {
        vec![48u8 + n as u8]
    } else {
        let mut digits = decimal_text(n / 10);
        digits.push(48u8 + (n % 10) as u8);
        digits
    }
}

/// A copy of a list of bytes.
fn copy_bytes(v: &Vec<u8>) -> (r: Vec<u8>)
    ensures
        r@ == v@,
{
    let mut r: Vec<u8> = Vec::new();
    for i in 0..v.len()
        invariant
            r@ == v@.subrange(0, i as int),
    {
        r.push(v[i]);
    }
    assert(r@ =~= v@);
    r
}

/// A copy of an instruction.
fn copy_ix(ix: &Ix) -> (r: Ix)
    ensures
        r@ == ix@,
{
    let mut accounts: Vec<AccountRef> = Vec::new();
    for i in 0..ix.accounts.len()
        invariant
            accounts@ == ix.accounts@.subrange(0, i as int),
    {
        accounts.push(ix.accounts[i]);
    }
    assert(accounts@ =~= ix.accounts@);
    Ix { program_id: ix.program_id, accounts, data: copy_bytes(&ix.data) }
}

/// Two blockhashes are the same bytes.
fn same_blockhash(a: &Blockhash, b: &Blockhash) -> (r: bool)
    ensures
        r == (a.bytes@ == b.bytes@),
{
    let mut i: usize = 0;
    while i < 32
        invariant
            i <= 32,
            forall|j: int| 0 <= j < i ==> a.bytes@[j] == b.bytes@[j],
        decreases 32 - i,
    {
        if a.bytes[i] != b.bytes[i] {
            return false;
        }
        i = i + 1;
    }
    assert(a.bytes@ =~= b.bytes@);
    true
}

impl SenderState {
    /// Nothing seen yet: no blockhash, no round completed.
    pub fn new() -> (r: SenderState)
        ensures
            r == fresh_sender(),
    {
        SenderState { last_blockhash: None, round: 0 }
    }

    /// Takes in what a read of the shared blockhash gave: `None` when the
    /// read did not succeed. A blockhash that was read becomes the one to sign
    /// with; a failed read keeps the previous one.
    pub fn observe_blockhash(&mut self, seen: Option<Blockhash>)
        ensures
            final(self).round == old(self).round,
            final(self).last_blockhash == observed(old(self).last_blockhash, seen),
    {
        if let Some(data) = seen {
            let changed = match &self.last_blockhash {
                Some(last) => !same_blockhash(last, &data),
                None => true,
            };
            if changed {
                self.last_blockhash = Some(data);
            } else {
                proof {
                    let last = old(self).last_blockhash.unwrap();
                    assert(last.bytes == data.bytes);
                    assert(last == data);
                }
            }
        }
    }

    /// The transactions of this round, one per list of swap instructions, or
    /// none while no blockhash has been seen. Each holds a compute unit price
    /// of 1, the swap instructions, and a memo with the round number, which
    /// makes the transactions of different rounds differ.
    pub fn round_transactions(&self, swap_ixes: &Vec<Vec<Ix>>) -> (r: Vec<Vec<Ix>>)
        requires
            self.round >= 0,
        ensures
            self.last_blockhash is None ==> r.len() == 0,
            self.last_blockhash is Some ==> r.len() == swap_ixes.len(),
            forall|k: int|
                0 <= k < r.len() ==> round_transaction(
                    ixs_view(swap_ixes@[k]@),
                    self.round as nat,
                    ixs_view(#[trigger] r@[k]@),
                ),
            forall|k: int|
                0 <= k < r.len() ==> (#[trigger] r@[k])@.len() == swap_ixes@[k]@.len() + 2
                    && r@[k]@[r@[k]@.len() - 1]@.data == decimal_digits(self.round as nat)
                    && r@[k]@[r@[k]@.len() - 1]@.program_id.bytes@ == memo_program_id_bytes(),
    {
        let mut txs: Vec<Vec<Ix>> = Vec::new();
        if self.last_blockhash.is_none() {
            return txs;
        }
        let memo = decimal_text(self.round as u64);
        for k in 0..swap_ixes.len()
            invariant
                txs.len() == k,
                self.round >= 0,
                memo@ == decimal_digits(self.round as nat),
                forall|j: int|
                    0 <= j < k ==> round_transaction(
                        ixs_view(swap_ixes@[j]@),
                        self.round as nat,
                        ixs_view(#[trigger] txs@[j]@),
                    ),
        {
            let mut ixes = vec![set_compute_unit_price(1)];
            let swap_ixs = &swap_ixes[k];
            for m in 0..swap_ixs.len()
                invariant
                    ixes.len() == m + 1,
                    plain_ix(
                        compute_budget_program_id_bytes(),
                        seq![3u8] + le_bytes(swap_compute_unit_price(), 8),
                        ixes@[0]@,
                    ),
                    forall|i: int| 0 <= i < m ==> #[trigger] ixes@[i + 1]@ == swap_ixs@[i]@,
            {
                ixes.push(copy_ix(&swap_ixs[m]));
            }
            ixes.push(build_memo(&memo));
            proof {
                let tx = ixs_view(ixes@);
                assert(tx.subrange(1, tx.len() - 1) =~= ixs_view(swap_ixs@));
            }
            txs.push(ixes);
        }
        txs
    }

    /// Ends a round: counts it, and tells whether progress is reported now,
    /// which is after every hundredth round.
    pub fn finish_round(&mut self) -> (report: bool)
        requires
            0 <= old(self).round < i32::MAX,
        ensures
            final(self).round == old(self).round + 1,
            final(self).last_blockhash == old(self).last_blockhash,
            report == (final(self).round % 100 == 0),
    {
        self.round = self.round + 1;
        self.round % 100 == 0
    }

    /// The bundles to send now, one per list of instructions, each with the
    /// tip transfer from `payer` to `tip_account` added at its end, or none
    /// while no blockhash has been seen.
    pub fn bundle_transactions(
        &self,
        inxs: &Vec<Vec<Ix>>,
        payer: Address,
        tip_account: Address,
        tip_amount: u64,
    ) -> (r: Vec<Vec<Ix>>)
        ensures
            self.last_blockhash is None ==> r.len() == 0,
            self.last_blockhash is Some ==> r.len() == inxs.len(),
            forall|k: int|
                0 <= k < r.len() ==> tipped_bundle(
                    ixs_view(inxs@[k]@),
                    payer,
                    tip_account,
                    tip_amount,
                    ixs_view(#[trigger] r@[k]@),
                ),
            forall|k: int|
                0 <= k < r.len() ==> (#[trigger] r@[k])@.len() == inxs@[k]@.len() + 1
                    && r@[k]@[r@[k]@.len() - 1]@.data == le_bytes(2, 4) + le_bytes(tip_amount as nat, 8)
                    && r@[k]@[r@[k]@.len() - 1]@.program_id.bytes@ == system_program_id_bytes(),
    {
        let mut txs: Vec<Vec<Ix>> = Vec::new();
        if self.last_blockhash.is_none() {
            return txs;
        }
        for k in 0..inxs.len()
            invariant
                txs.len() == k,
                forall|j: int|
                    0 <= j < k ==> tipped_bundle(
                        ixs_view(inxs@[j]@),
                        payer,
                        tip_account,
                        tip_amount,
                        ixs_view(#[trigger] txs@[j]@),
                    ),
        {
            let actual_ixs = &inxs[k];
            let mut instructions2: Vec<Ix> = Vec::new();
            for m in 0..actual_ixs.len()
                invariant
                    instructions2.len() == m,
                    forall|i: int| 0 <= i < m ==> #[trigger] instructions2@[i]@ == actual_ixs@[i]@,
            {
                instructions2.push(copy_ix(&actual_ixs[m]));
            }
            instructions2.push(transfer(payer, tip_account, tip_amount));
            proof {
                let tx = ixs_view(instructions2@);
                assert(tx.subrange(0, actual_ixs.len() as int) =~= ixs_view(actual_ixs@));
            }
            txs.push(instructions2);
        }
        txs
    }
}

/// The blockhash to sign with after a read: the one read, or the previous one
/// when the read failed.
pub open spec fn observed(last: Option<Blockhash>, seen: Option<Blockhash>) -> Option<Blockhash> {
    match seen {
        Some(h) => Some(h),
        None => last,
    }
}

/// The sender's state after a run of rounds, each of which takes in one read
/// of the shared blockhash (`observe_blockhash`), sends its transactions, and
/// ends (`finish_round`).
pub open spec fn after_rounds(start: SenderState, reads: Seq<Option<Blockhash>>) -> SenderState
    decreases reads.len(),
{
    if reads.len() == 0 {
        start
    } else {
        let before = after_rounds(start, reads.drop_last());
        SenderState {
            last_blockhash: observed(before.last_blockhash, reads.last()),
            round: (before.round + 1) as i32,
        }
    }
}

/// The starting state of a sender.
pub open spec fn fresh_sender() -> SenderState {
    SenderState { last_blockhash: None, round: 0 }
}

/// Rounds are numbered 0, 1, 2, ... in the order they run: after `n` rounds
/// from a fresh sender the round number is `n`, so the memo of the round that
/// takes in read `n` is the decimal of `n`, and memo numbers never decrease.
pub proof fn lemma_rounds_are_numbered_in_order(reads: Seq<Option<Blockhash>>)
    requires
        reads.len() < i32::MAX,
    ensures
        after_rounds(fresh_sender(), reads).round == reads.len(),
    decreases reads.len(),
{
    if reads.len() > 0 {
        lemma_rounds_are_numbered_in_order(reads.drop_last());
    }
}

/// A sender signs only with a blockhash it has read: after any run of rounds
/// from a fresh sender, the stored blockhash, if any, is the latest read that
/// succeeded, and no read ever succeeded when there is none.
pub proof fn lemma_signing_blockhash_was_read(reads: Seq<Option<Blockhash>>)
    ensures
        after_rounds(fresh_sender(), reads).last_blockhash matches Some(h) ==> exists|j: int|
            0 <= j < reads.len() && reads[j] == Some(h) && forall|i: int|
                j < i < reads.len() ==> reads[i] is None,
        after_rounds(fresh_sender(), reads).last_blockhash is None ==> forall|i: int|
            0 <= i < reads.len() ==> reads[i] is None,
    decreases reads.len(),
{
    if reads.len() > 0 {
        let prefix = reads.drop_last();
        lemma_signing_blockhash_was_read(prefix);
        let n = reads.len() - 1;
        match reads.last() {
            Some(h) => {
                assert(reads[n] == Some(h));
            },
            None => {
                if let Some(h) = after_rounds(fresh_sender(), prefix).last_blockhash {
                    let j = choose|j: int|
                        0 <= j < prefix.len() && prefix[j] == Some(h) && forall|i: int|
                            j < i < prefix.len() ==> prefix[i] is None;
                    assert(reads[j] == Some(h));
                    assert forall|i: int| j < i < reads.len() implies reads[i] is None by {
                        if i < n {
                            assert(prefix[i] is None);
                        }
                    }
                } else {
                    assert forall|i: int| 0 <= i < reads.len() implies reads[i] is None by {
                        if i < n {
                            assert(prefix[i] is None);
                        }
                    }
                }
            },
        }
    }
}

/// The number that a string of ASCII decimal digits spells.
pub open spec fn digits_value(s: Seq<u8>) -> int
    decreases s.len(),
{
    if s.len() == 0 {
        0
    } else {
        digits_value(s.drop_last()) * 10 + (s.last() - 48)
    }
}

/// The number that bytes spell little-endian, least significant first.
pub open spec fn le_value(s: Seq<u8>) -> int
    decreases s.len(),
{
    if s.len() == 0 {
        0
    } else {
        s[0] + 256 * le_value(s.drop_first())
    }
}

/// `256^n`.
pub open spec fn pow256(n: nat) -> nat
    decreases n,
{
    if n == 0 {
        1
    } else {
        256 * pow256((n - 1) as nat)
    }
}

/// The decimal text of a number is all ASCII digits and spells that number.
pub proof fn lemma_decimal_digits_spell_the_number(n: nat)
    ensures
        digits_value(decimal_digits(n)) == n,
        forall|i: int|
            0 <= i < decimal_digits(n).len() ==> 48 <= #[trigger] decimal_digits(n)[i] <= 57,
    decreases n,
{
    if n >= 10 {
        lemma_decimal_digits_spell_the_number(n / 10);
        let s = decimal_digits(n);
        assert(s.drop_last() == decimal_digits(n / 10));
        assert(s.last() == (48 + n % 10) as u8);
        assert forall|i: int| 0 <= i < s.len() implies 48 <= #[trigger] s[i] <= 57 by {
            if i < s.len() - 1 {
                assert(s[i] == decimal_digits(n / 10)[i]);
            }
        }
        assert(digits_value(s) == digits_value(s.drop_last()) * 10 + (s.last() - 48));
        assert((n / 10) * 10 + n % 10 == n);
    } else {
        let s = decimal_digits(n);
        assert(s.drop_last() =~= Seq::<u8>::empty());
        assert(digits_value(s) == digits_value(s.drop_last()) * 10 + (s.last() - 48));
    }
}

/// The bytes `le_bytes(x, n)` spell `x` little-endian, for `x < 256^n`.
pub proof fn lemma_le_bytes_spell_the_number(x: nat, n: nat)
    requires
        x < pow256(n),
    ensures
        le_bytes(x, n).len() == n,
        le_value(le_bytes(x, n)) == x,
    decreases n,
{
    if n > 0 {
        assert(x / 256 < pow256((n - 1) as nat));
        lemma_le_bytes_spell_the_number(x / 256, (n - 1) as nat);
        let s = le_bytes(x, n);
        assert(s.drop_first() == le_bytes(x / 256, (n - 1) as nat));
    }
}

/// The memo of a round's transaction is the round number in decimal, so it
/// spells the round number, and two rounds never share a memo.
pub proof fn lemma_round_memo_is_the_round_number(
    swap_ixs: Seq<IxModel>,
    round: nat,
    tx: Seq<IxModel>,
)
    requires
        round_transaction(swap_ixs, round, tx),
    ensures
        tx.len() == swap_ixs.len() + 2,
        tx[tx.len() - 1].program_id.bytes@ == memo_program_id_bytes(),
        digits_value(tx[tx.len() - 1].data) == round,
        forall|other: nat, tx2: Seq<IxModel>|
            other != round && #[trigger] round_transaction(swap_ixs, other, tx2) ==> tx2[tx2.len()
                - 1].data != tx[tx.len() - 1].data,
{
    lemma_decimal_digits_spell_the_number(round);
    assert forall|other: nat, tx2: Seq<IxModel>|
        other != round && #[trigger] round_transaction(swap_ixs, other, tx2) implies tx2[tx2.len()
        - 1].data != tx[tx.len() - 1].data by {
        lemma_round_memos_differ(other, round);
    }
}

/// The last instruction of a tip bundle is a system transfer from the payer
/// to the tip account of exactly the tip amount: its data is the transfer tag
/// 2 and then bytes that spell the amount.
pub proof fn lemma_tip_transfers_the_tip_amount(
    ixs: Seq<IxModel>,
    payer: Address,
    tip_account: Address,
    tip_amount: u64,
    tx: Seq<IxModel>,
)
    requires
        tipped_bundle(ixs, payer, tip_account, tip_amount, tx),
    ensures
        tx.len() == ixs.len() + 1,
        tx[tx.len() - 1].program_id.bytes@ == system_program_id_bytes(),
        tx[tx.len() - 1].accounts[0].address == payer,
        tx[tx.len() - 1].accounts[1].address == tip_account,
        tx[tx.len() - 1].data.len() == 12,
        le_value(tx[tx.len() - 1].data.subrange(0, 4)) == 2,
        le_value(tx[tx.len() - 1].data.subrange(4, 12)) == tip_amount,
{
    reveal_with_fuel(pow256, 9);
    assert(pow256(8) == 18446744073709551616);
    lemma_le_bytes_spell_the_number(2, 4);
    lemma_le_bytes_spell_the_number(tip_amount as nat, 8);
    let data = tx[tx.len() - 1].data;
    assert(data.subrange(0, 4) == le_bytes(2, 4));
    assert(data.subrange(4, 12) == le_bytes(tip_amount as nat, 8));
}

proof fn lemma_decimal_digits_nonempty(n: nat)
    ensures
        decimal_digits(n).len() >= 1,
        n >= 10 ==> decimal_digits(n).len() >= 2,
        decimal_digits(n).last() == (48 + n % 10) as u8,
    decreases n,
{
    if n >= 10 {
        lemma_decimal_digits_nonempty(n / 10);
    }
}

/// Different round numbers give different memos: the decimal digits of two
/// different numbers differ, so no two rounds send the same transaction.
pub proof fn lemma_round_memos_differ(a: nat, b: nat)
    requires
        a != b,
    ensures
        decimal_digits(a) != decimal_digits(b),
    decreases a,
{
    lemma_decimal_digits_nonempty(a);
    lemma_decimal_digits_nonempty(b);
    if decimal_digits(a) == decimal_digits(b) {
        assert(a % 10 == b % 10);
        if a >= 10 && b >= 10 {
            assert(a / 10 != b / 10);
            lemma_round_memos_differ(a / 10, b / 10);
            assert(decimal_digits(a).drop_last() == decimal_digits(a / 10));
            assert(decimal_digits(b).drop_last() == decimal_digits(b / 10));
        }
    }
}

} // verus!
