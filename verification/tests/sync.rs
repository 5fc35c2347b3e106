use opacore::costbasis::EntryType;
use opacore::invoice::TxOutput;
use opacore::models::SyncResult;
use opacore::sync::{
    address_utxo, format_block_time, inputs_from, movement, new_entry, plan_address_sync,
    sync_result, AddressTx, TxInput,
};

const ADDRESS: &str = "bc1qwatched";
const OTHER: &str = "bc1qother";
const NOW: &str = "2024-06-01T12:00:00.000Z";

fn output(address: Option<&str>, value: u64) -> TxOutput {
    TxOutput { scriptpubkey_address: address.map(|a| a.to_string()), value }
}

fn input(address: Option<&str>, value: u64) -> TxInput {
    TxInput { prevout: Some(output(address, value)) }
}

fn tx(txid: &str, height: Option<u64>, vin: Vec<TxInput>, vout: Vec<TxOutput>) -> AddressTx {
    AddressTx {
        txid: txid.to_string(),
        confirmed: height.is_some(),
        block_height: height,
        block_time: height.map(|h| 1_600_000_000 + h),
        vin,
        vout,
        fee: Some(250),
    }
}

#[test]
fn inputs_from_the_address_are_summed() {
    let inputs = vec![
        input(Some(ADDRESS), 700),
        input(Some(OTHER), 9_000),
        TxInput { prevout: None },
        input(None, 5),
        input(Some(ADDRESS), 300),
    ];
    assert_eq!(inputs_from(&inputs, ADDRESS), 1_000);
    assert_eq!(inputs_from(&inputs, OTHER), 9_000);
    assert_eq!(inputs_from(&inputs, "nobody"), 0);
    assert_eq!(inputs_from(&Vec::new(), ADDRESS), 0);
    let huge = vec![input(Some(ADDRESS), u64::MAX), input(Some(ADDRESS), u64::MAX)];
    assert_eq!(inputs_from(&huge, ADDRESS), 2 * (u64::MAX as u128));
}

#[test]
fn movement_is_a_receipt_or_a_send_of_the_difference() {
    assert_eq!(movement(1_000, 400), (EntryType::Receive, 600));
    assert_eq!(movement(400, 1_000), (EntryType::Send, 600));
    assert_eq!(movement(5, 5), (EntryType::Receive, 0));
    assert_eq!(movement(0, u128::MAX), (EntryType::Send, u128::MAX));
    assert_eq!(movement(u128::MAX, 0), (EntryType::Receive, u128::MAX));
}

#[test]
fn block_time_is_written_as_a_timestamp() {
    assert_eq!(format_block_time(0), "1970-01-01T00:00:00.000Z");
    assert_eq!(format_block_time(1_700_000_000), "2023-11-14T22:13:20.000Z");
    assert_eq!(format_block_time(253_402_300_799), "9999-12-31T23:59:59.000Z");
}

#[test]
fn block_time_beyond_the_calendar_is_written_as_seconds() {
    assert_eq!(format_block_time(u64::MAX), "18446744073709551615");
    assert_eq!(format_block_time(i64::MAX as u64), "9223372036854775807");
}

#[test]
fn confirmed_receipt_is_dated_by_its_block() {
    let receipt = tx(
        "t1",
        Some(800_000),
        vec![input(Some(OTHER), 5_000)],
        vec![output(Some(ADDRESS), 3_000), output(Some(OTHER), 1_750)],
    );
    let entry = new_entry(&receipt, ADDRESS, NOW);
    assert_eq!(entry.txid, "t1");
    assert_eq!(entry.entry_type, EntryType::Receive);
    assert_eq!(entry.amount_sat, 3_000);
    assert_eq!(entry.fee_sat, Some(250));
    assert_eq!(entry.block_height, Some(800_000));
    assert_eq!(entry.block_time.as_deref(), Some("2020-09-22T18:40:00.000Z"));
    assert_eq!(entry.transacted_at, "2020-09-22T18:40:00.000Z");
}

#[test]
fn send_is_what_was_spent_less_the_change() {
    let send = tx(
        "t2",
        Some(800_001),
        vec![input(Some(ADDRESS), 10_000), input(Some(ADDRESS), 2_000)],
        vec![output(Some(OTHER), 7_000), output(Some(ADDRESS), 4_500)],
    );
    let entry = new_entry(&send, ADDRESS, NOW);
    assert_eq!(entry.entry_type, EntryType::Send);
    assert_eq!(entry.amount_sat, 7_500);
}

#[test]
fn unconfirmed_transaction_is_dated_now() {
    let mut pending = tx("t3", None, Vec::new(), vec![output(Some(ADDRESS), 1)]);
    pending.block_height = Some(9);
    pending.block_time = Some(1_700_000_000);
    let entry = new_entry(&pending, ADDRESS, NOW);
    assert_eq!(entry.block_height, None);
    assert_eq!(entry.block_time, None);
    assert_eq!(entry.transacted_at, NOW);
    assert_eq!(entry.entry_type, EntryType::Receive);
    assert_eq!(entry.amount_sat, 1);
}

#[test]
fn confirmed_transaction_without_height_or_time() {
    let mut odd = tx("t4", Some(1), Vec::new(), Vec::new());
    odd.block_height = None;
    odd.block_time = None;
    odd.fee = None;
    let entry = new_entry(&odd, ADDRESS, NOW);
    assert_eq!(entry.block_height, Some(0));
    assert_eq!(entry.block_time, None);
    assert_eq!(entry.transacted_at, NOW);
    assert_eq!(entry.fee_sat, None);
    assert_eq!(entry.amount_sat, 0);
    let mut tall = tx("t5", Some((1u64 << 32) + 7), Vec::new(), Vec::new());
    tall.block_time = None;
    assert_eq!(new_entry(&tall, ADDRESS, NOW).block_height, Some(7));
}

#[test]
fn plan_skips_what_the_ledger_holds() {
    let txs = vec![
        tx("a", Some(100), Vec::new(), vec![output(Some(ADDRESS), 10)]),
        tx("b", Some(300), Vec::new(), vec![output(Some(ADDRESS), 20)]),
        tx("c", None, Vec::new(), vec![output(Some(ADDRESS), 30)]),
        tx("d", Some(200), vec![input(Some(ADDRESS), 25)], Vec::new()),
    ];
    let plan = plan_address_sync(&txs, &vec![false, true, false, false], ADDRESS, NOW);
    let ids: Vec<&str> = plan.entries.iter().map(|e| e.txid.as_str()).collect();
    assert_eq!(ids, vec!["a", "c", "d"]);
    assert_eq!(plan.entries[2].entry_type, EntryType::Send);
    assert_eq!(plan.entries[2].amount_sat, 25);
    assert_eq!(plan.last_sync_height, Some(200));
    let result = sync_result(txs.len(), &plan, 15);
    assert_eq!(
        result,
        SyncResult {
            transactions_found: 4,
            new_transactions: 3,
            balance_sat: 15,
            last_sync_height: Some(200),
        }
    );

    let all = plan_address_sync(&txs, &Vec::new(), ADDRESS, NOW);
    assert_eq!(all.entries.len(), 4);
    assert_eq!(all.last_sync_height, Some(300));

    let none = plan_address_sync(&txs, &vec![true; 4], ADDRESS, NOW);
    assert!(none.entries.is_empty());
    assert_eq!(none.last_sync_height, None);

    let short = plan_address_sync(&txs, &vec![true, true], ADDRESS, NOW);
    assert_eq!(short.entries.len(), 2);
    assert_eq!(short.last_sync_height, Some(200));

    let pending_only = plan_address_sync(&txs, &vec![true, true, false, true], ADDRESS, NOW);
    assert_eq!(pending_only.entries.len(), 1);
    assert_eq!(pending_only.last_sync_height, None);
}

#[test]
fn transaction_listed_twice_is_entered_once() {
    let txs = vec![
        tx("a", Some(100), Vec::new(), vec![output(Some(ADDRESS), 10)]),
        tx("b", Some(150), Vec::new(), vec![output(Some(ADDRESS), 20)]),
        tx("a", Some(900), Vec::new(), vec![output(Some(ADDRESS), 10)]),
        tx("b", Some(950), Vec::new(), vec![output(Some(ADDRESS), 20)]),
    ];
    let plan = plan_address_sync(&txs, &vec![false, true, false, true], ADDRESS, NOW);
    let ids: Vec<&str> = plan.entries.iter().map(|e| e.txid.as_str()).collect();
    assert_eq!(ids, vec!["a"]);
    assert_eq!(plan.last_sync_height, Some(100));
    let fresh = plan_address_sync(&txs, &Vec::new(), ADDRESS, NOW);
    let ids: Vec<&str> = fresh.entries.iter().map(|e| e.txid.as_str()).collect();
    assert_eq!(ids, vec!["a", "b"]);
    assert_eq!(fresh.last_sync_height, Some(150));
}

#[test]
fn unspent_output_of_an_address_is_external() {
    let utxo = address_utxo("t9".to_string(), 3, 4_200);
    assert_eq!(utxo.txid, "t9");
    assert_eq!(utxo.vout, 3);
    assert_eq!(utxo.value_sat, 4_200);
    assert_eq!(utxo.keychain, "external");
}
