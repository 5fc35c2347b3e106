//! Bringing the transactions of one watched address into the ledger.
//!
//! For each transaction that the ledger does not hold yet, what the address got is
//! set against what it spent: the difference enters the ledger as a receipt or as a
//! send. The chain source is asked, and the ledger written, by the caller.

use vstd::prelude::*;
use vstd::string::*;
use crate::costbasis::EntryType;
use crate::invoice::{
    lemma_amounts_fit, outputs_to, pays_to, received_upto, text_view, TxOutput,
};
use crate::models::{SyncResult, UtxoInfo};
use crate::text::{decimal, push_decimal};

verus! {

/// One input of a transaction, with the output that it spends where the chain
/// source gave it.
#[derive(Debug)]
pub struct TxInput {
    pub prevout: Option<TxOutput>,
}

/// A transaction that touches the watched address.
#[derive(Debug)]
pub struct AddressTx {
    pub txid: String,
    pub confirmed: bool,
    pub block_height: Option<u64>,
    /// Seconds since 1970 at which the block was mined.
    pub block_time: Option<u64>,
    pub vin: Vec<TxInput>,
    pub vout: Vec<TxOutput>,
    pub fee: Option<u64>,
}

/// A ledger entry to be written for a transaction.
#[derive(Debug)]
pub struct NewEntry {
    pub txid: String,
    pub entry_type: EntryType,
    pub amount_sat: u128,
    pub fee_sat: Option<u64>,
    pub block_height: Option<u32>,
    pub block_time: Option<String>,
    pub transacted_at: String,
}

/// A new entry as mathematics.
pub struct NewEntryView {
    pub txid: Seq<char>,
    pub entry_type: EntryType,
    pub amount_sat: u128,
    pub fee_sat: Option<u64>,
    pub block_height: Option<u32>,
    pub block_time: Option<Seq<char>>,
    pub transacted_at: Seq<char>,
}

impl View for NewEntry {
    type V = NewEntryView;

    open spec fn view(&self) -> NewEntryView {
        NewEntryView {
            txid: self.txid@,
            entry_type: self.entry_type,
            amount_sat: self.amount_sat,
            fee_sat: self.fee_sat,
            block_height: self.block_height,
            block_time: text_view(self.block_time),
            transacted_at: self.transacted_at@,
        }
    }
}

/// Whether an input spends an output of `address`.
pub open spec fn spends_from(input: TxInput, address: Seq<char>) -> bool {
    input.prevout matches Some(spent) && pays_to(spent, address)
}

/// Satoshis that the first `n` inputs spend from `address`.
pub open spec fn spent_upto(inputs: Seq<TxInput>, address: Seq<char>, n: nat) -> nat
    decreases n,
{
    if n == 0 {
        0
    } else {
        spent_upto(inputs, address, (n - 1) as nat) + if spends_from(inputs[n - 1], address) {
            inputs[n - 1].prevout->0.value as nat
        } else {
            0
        }
    }
}

/// What the inputs spend from an address is at most a `u64` for each input.
pub proof fn lemma_spent_bound(inputs: Seq<TxInput>, address: Seq<char>, n: nat)
    ensures
        spent_upto(inputs, address, n) <= n * u64::MAX,
    decreases n,
{
    if n > 0 {
        lemma_spent_bound(inputs, address, (n - 1) as nat);
        assert(n * u64::MAX == (n - 1) * u64::MAX + u64::MAX) by (nonlinear_arith);
    }
}

/// Satoshis that the inputs spend from `address`.
pub fn inputs_from(inputs: &Vec<TxInput>, address: &str) -> (total: u128)
    ensures
        total == spent_upto(inputs@, address@, inputs@.len()),
{
    let mut total: u128 = 0;
    let mut i: usize = 0;
    while i < inputs.len()
        invariant
            i <= inputs.len(),
            total == spent_upto(inputs@, address@, i as nat),
        decreases inputs.len() - i,
    {
        let spent: Option<u64> = match &inputs[i].prevout {
            Some(output) => match &output.scriptpubkey_address {
                Some(to) => if crate::text::same_text(to.as_str(), address) {
                    Some(output.value)
                } else {
                    None
                },
                None => None,
            },
            None => None,
        };
        match spent {
            Some(value) => {
                proof {
                    lemma_spent_bound(inputs@, address@, (i + 1) as nat);
                    lemma_amounts_fit((i + 1) as nat);
                }
                total = total + value as u128;
            },
            None => {},
        }
        i += 1;
    }
    total
}

/// How a transaction enters the ledger of an address that got `received` satoshis
/// from it and spent `sent`: as a receipt of the difference where it got at least as
/// much as it spent, as a send of the difference otherwise.
pub open spec fn movement_spec(received: nat, sent: nat) -> (EntryType, nat) {
    if received >= sent {
        (EntryType::Receive, (received - sent) as nat)
    } else {
        (EntryType::Send, (sent - received) as nat)
    }
}

/// How a transaction enters the ledger, from what the address got and spent.
pub fn movement(received: u128, sent: u128) -> (entry: (EntryType, u128))
    ensures
        entry.0 == movement_spec(received as nat, sent as nat).0,
        entry.1 == movement_spec(received as nat, sent as nat).1,
{
    if received >= sent {
        (EntryType::Receive, received - sent)
    } else {
        (EntryType::Send, sent - received)
    }
}

/// The text that `chrono` writes for the moment `seconds` after the start of 1970,
/// in UTC, under the format `%Y-%m-%dT%H:%M:%S%.3fZ`; `None` for a moment outside
/// the years that `chrono` counts.
pub uninterp spec fn unix_time_text(seconds: i64) -> Option<Seq<char>>;

/// Calls `chrono::DateTime::from_timestamp` and, on a moment, its `format` with
/// `%Y-%m-%dT%H:%M:%S%.3fZ`. Trusted: the outcome depends on `seconds` alone, which
/// is all that naming it `unix_time_text` claims.
#[verifier::external_body]
fn format_unix_time(seconds: i64) -> (text: Option<String>)
    ensures
        text_view(text) == unix_time_text(seconds),
{
    match chrono::DateTime::from_timestamp(seconds, 0) {
        Some(moment) => Some(moment.format("%Y-%m-%dT%H:%M:%S%.3fZ").to_string()),
        None => None,
    }
}

/// A block time as text: the moment as a timestamp, or else the number of seconds
/// in decimal.
pub open spec fn block_time_text(seconds: u64) -> Seq<char> {
    if seconds <= i64::MAX && unix_time_text(seconds as i64) is Some {
        unix_time_text(seconds as i64)->0
    } else {
        decimal(seconds as nat)
    }
}

/// Writes a block time as text.
pub fn format_block_time(seconds: u64) -> (text: String)
    ensures
        text@ == block_time_text(seconds),
{
    let written = if seconds <= 0x7fff_ffff_ffff_ffff {
        format_unix_time(seconds as i64)
    } else {
        None
    };
    match written {
        Some(text) => text,
        None => {
            let mut text = String::new();
            push_decimal(&mut text, seconds as u128);
            proof {
                assert(text@ =~= decimal(seconds as nat));
            }
            text
        },
    }
}

/// The height under which a confirmed transaction is stored: its block height cut
/// to 32 bits, 0 where the chain source gave none.
pub open spec fn stored_height(tx: AddressTx) -> u32 {
    match tx.block_height {
        Some(height) => (height % 0x1_0000_0000) as u32,
        None => 0,
    }
}

/// The entry that a transaction makes in the ledger of `address` when it is
/// recorded at `now`. Height and block time are those of a confirmed transaction
/// only; the entry is dated by the block time, or by `now` where there is none.
pub open spec fn entry_of(tx: AddressTx, address: Seq<char>, now: Seq<char>) -> NewEntryView {
    let moved = movement_spec(
        received_upto(tx.vout@, address, tx.vout@.len()),
        spent_upto(tx.vin@, address, tx.vin@.len()),
    );
    let block_time = if tx.confirmed {
        match tx.block_time {
            Some(seconds) => Some(block_time_text(seconds)),
            None => None,
        }
    } else {
        None
    };
    NewEntryView {
        txid: tx.txid@,
        entry_type: moved.0,
        amount_sat: moved.1 as u128,
        fee_sat: tx.fee,
        block_height: if tx.confirmed {
            Some(stored_height(tx))
        } else {
            None
        },
        block_time,
        transacted_at: match block_time {
            Some(text) => text,
            None => now,
        },
    }
}

/// The ledger entry of one transaction of `address`, recorded at `now`.
pub fn new_entry(tx: &AddressTx, address: &str, now: &str) -> (entry: NewEntry)
    ensures
        entry@ == entry_of(*tx, address@, now@),
{
    let moved = movement(outputs_to(&tx.vout, address), inputs_from(&tx.vin, address));
    let block_height: Option<u32> = if tx.confirmed {
        Some(
            match tx.block_height {
                Some(height) => (height % 0x1_0000_0000) as u32,
                None => 0,
            },
        )
    } else {
        None
    };
    let block_time: Option<String> = if tx.confirmed {
        match tx.block_time {
            Some(seconds) => Some(format_block_time(seconds)),
            None => None,
        }
    } else {
        None
    };
    let transacted_at = match &block_time {
        Some(text) => text.clone(),
        None => String::from_str(now),
    };
    NewEntry {
        txid: tx.txid.clone(),
        entry_type: moved.0,
        amount_sat: moved.1,
        fee_sat: tx.fee,
        block_height,
        block_time,
        transacted_at,
    }
}

/// Whether transaction `i` is already in the ledger: `known` says so for each
/// transaction, and is silent on those beyond its end.
pub open spec fn is_known(known: Seq<bool>, i: int) -> bool {
    0 <= i < known.len() && known[i]
}

/// Whether transaction `i` stands in the list before, under the same identifier.
pub open spec fn listed_before(txs: Seq<AddressTx>, i: int) -> bool {
    exists|j: int| 0 <= j < i && (#[trigger] txs[j]).txid@ == txs[i].txid@
}

/// Whether transaction `i` gets no entry: the ledger holds it, or it was listed
/// before and so has its entry, or had it, already.
pub open spec fn skipped(txs: Seq<AddressTx>, known: Seq<bool>, i: int) -> bool {
    is_known(known, i) || listed_before(txs, i)
}

/// Whether transaction `i` stands in the list before.
fn is_listed_before(txs: &Vec<AddressTx>, i: usize) -> (yes: bool)
    requires
        i < txs.len(),
    ensures
        yes == listed_before(txs@, i as int),
{
    let mut j: usize = 0;
    while j < i
        invariant
            j <= i < txs.len(),
            forall|k: int| 0 <= k < j ==> (#[trigger] txs@[k]).txid@ != txs@[i as int].txid@,
        decreases i - j,
    {
        if crate::text::same_text(txs[j].txid.as_str(), txs[i].txid.as_str()) {
            return true;
        }
        j += 1;
    }
    false
}

/// The entries to write for the first `n` transactions: one for each that is not
/// skipped, in the order of the transactions.
pub open spec fn entries_upto(
    txs: Seq<AddressTx>,
    known: Seq<bool>,
    address: Seq<char>,
    now: Seq<char>,
    n: nat,
) -> Seq<NewEntryView>
    decreases n,
{
    if n == 0 {
        Seq::empty()
    } else if skipped(txs, known, n - 1) {
        entries_upto(txs, known, address, now, (n - 1) as nat)
    } else {
        entries_upto(txs, known, address, now, (n - 1) as nat).push(
            entry_of(txs[n - 1], address, now),
        )
    }
}

/// The greatest stored height among the first `n` transactions that are confirmed
/// and not skipped; `None` where there is none.
pub open spec fn height_upto(txs: Seq<AddressTx>, known: Seq<bool>, n: nat) -> Option<u32>
    decreases n,
{
    if n == 0 {
        None
    } else {
        let before = height_upto(txs, known, (n - 1) as nat);
        if skipped(txs, known, n - 1) || !txs[n - 1].confirmed {
            before
        } else {
            match before {
                Some(top) => if stored_height(txs[n - 1]) > top {
                    Some(stored_height(txs[n - 1]))
                } else {
                    before
                },
                None => Some(stored_height(txs[n - 1])),
            }
        }
    }
}

/// What a sync writes: the new entries, and the height to remember.
#[derive(Debug)]
pub struct SyncPlan {
    pub entries: Vec<NewEntry>,
    pub last_sync_height: Option<u32>,
}

/// The views of a run of new entries.
pub open spec fn entries_view(entries: Seq<NewEntry>) -> Seq<NewEntryView> {
    entries.map_values(|entry: NewEntry| entry@)
}

/// Plans the sync of one address: an entry for each transaction that the ledger
/// does not hold yet, once for a transaction that is listed more than once, and the
/// greatest height among them. `known[i]` says whether transaction `i` is in the
/// ledger already.
pub fn plan_address_sync(txs: &Vec<AddressTx>, known: &Vec<bool>, address: &str, now: &str) -> (plan:
    SyncPlan)
    ensures
        entries_view(plan.entries@) == entries_upto(txs@, known@, address@, now@, txs@.len()),
        plan.last_sync_height == height_upto(txs@, known@, txs@.len()),
{
    let mut entries: Vec<NewEntry> = Vec::new();
    let mut top: Option<u32> = None;
    let mut i: usize = 0;
    proof {
        assert(entries_view(entries@) =~= Seq::<NewEntryView>::empty());
    }
    while i < txs.len()
        invariant
            i <= txs.len(),
            entries_view(entries@) == entries_upto(txs@, known@, address@, now@, i as nat),
            top == height_upto(txs@, known@, i as nat),
        decreases txs.len() - i,
    {
        let already = (i < known.len() && known[i]) || is_listed_before(txs, i);
        if !already {
            let ghost before = entries_view(entries@);
            let entry = new_entry(&txs[i], address, now);
            match entry.block_height {
                Some(height) => {
                    top = match top {
                        Some(seen) => if height > seen {
                            Some(height)
                        } else {
                            top
                        },
                        None => Some(height),
                    };
                },
                None => {},
            }
            entries.push(entry);
            proof {
                assert(entries_view(entries@) =~= before.push(entry_of(txs@[i as int], address@, now@)));
            }
        }
        i += 1;
    }
    SyncPlan { entries, last_sync_height: top }
}

/// What a sync found: how many transactions the chain source listed, how many of
/// them were new, the balance of the address and the height to remember.
pub fn sync_result(found: usize, plan: &SyncPlan, balance_sat: u64) -> (result: SyncResult)
    ensures
        result == (SyncResult {
            transactions_found: found,
            new_transactions: plan.entries@.len() as usize,
            balance_sat,
            last_sync_height: plan.last_sync_height,
        }),
{
    SyncResult {
        transactions_found: found,
        new_transactions: plan.entries.len(),
        balance_sat,
        last_sync_height: plan.last_sync_height,
    }
}

/// An unspent output of a watched address, as the list of outputs shows it.
pub fn address_utxo(txid: String, vout: u32, value_sat: u64) -> (utxo: UtxoInfo)
    ensures
        utxo.txid == txid,
        utxo.vout == vout,
        utxo.value_sat == value_sat,
        utxo.keychain@ == "external"@,
{
    UtxoInfo { txid, vout, value_sat, keychain: String::from_str("external") }
}

} // verus!
