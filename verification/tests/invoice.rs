use opacore::invoice::{
    check_invoice_payment, expire_overdue, find_payment, received_amount, sent_batch, ChainTx,
    Invoice, InvoiceStatus, Payment, TxOutput,
};

const ADDRESS: &str = "bc1qexampleaddress";
const OTHER: &str = "bc1qsomeoneelse";

fn output(address: Option<&str>, value: u64) -> TxOutput {
    TxOutput { scriptpubkey_address: address.map(|a| a.to_string()), value }
}

fn tx(txid: &str, outputs: Vec<TxOutput>) -> ChainTx {
    ChainTx { txid: txid.to_string(), confirmed: true, block_time: Some(1_700_000_000), vout: outputs }
}

fn invoice(status: InvoiceStatus, reusable: bool, amount_sat: u64) -> Invoice {
    Invoice {
        id: "inv-1".to_string(),
        btc_address: ADDRESS.to_string(),
        amount_sat,
        status,
        reusable,
        expires_at: None,
        paid_at: None,
        paid_txid: None,
        paid_amount_sat: None,
    }
}

#[test]
fn outputs_to_the_address_are_summed() {
    let paying = tx(
        "t1",
        vec![
            output(Some(ADDRESS), 600),
            output(Some(OTHER), 10_000),
            output(None, 5),
            output(Some(ADDRESS), 400),
        ],
    );
    assert_eq!(received_amount(&paying, ADDRESS), 1_000);
    assert_eq!(received_amount(&paying, OTHER), 10_000);
    assert_eq!(received_amount(&paying, "nobody"), 0);
    let huge = tx("t2", vec![output(Some(ADDRESS), u64::MAX), output(Some(ADDRESS), u64::MAX)]);
    assert_eq!(received_amount(&huge, ADDRESS), 2 * (u64::MAX as u128));
}

#[test]
fn first_qualifying_transaction_wins() {
    let txs = vec![
        tx("too-small", vec![output(Some(ADDRESS), 999)]),
        tx("elsewhere", vec![output(Some(OTHER), 5_000)]),
        tx("first", vec![output(Some(ADDRESS), 700), output(Some(ADDRESS), 300)]),
        tx("bigger", vec![output(Some(ADDRESS), 9_000)]),
    ];
    let found = find_payment(&txs, ADDRESS, 1_000).unwrap();
    assert_eq!(found.txid, "first");
    assert_eq!(found.amount_sat, 1_000);
    assert!(find_payment(&txs, ADDRESS, 9_001).is_none());
    assert!(find_payment(&Vec::new(), ADDRESS, 0).is_none());
    assert_eq!(find_payment(&txs, ADDRESS, 0).unwrap().txid, "too-small");
}

#[test]
fn payment_settles_a_sent_invoice() {
    let mut inv = invoice(InvoiceStatus::Sent, false, 1_000);
    let txs = vec![tx("pay", vec![output(Some(ADDRESS), 1_500)])];
    assert!(check_invoice_payment(&mut inv, &txs, "2024-03-01T10:00:00.000Z"));
    assert_eq!(inv.status, InvoiceStatus::Paid);
    assert_eq!(inv.paid_at.as_deref(), Some("2024-03-01T10:00:00.000Z"));
    assert_eq!(inv.paid_txid.as_deref(), Some("pay"));
    assert_eq!(inv.paid_amount_sat, Some(1_500));
    assert_eq!(inv.id, "inv-1");
    assert_eq!(inv.btc_address, ADDRESS);
    assert_eq!(inv.amount_sat, 1_000);
}

#[test]
fn no_payment_leaves_the_invoice_alone() {
    let mut inv = invoice(InvoiceStatus::Sent, false, 1_000);
    let txs = vec![tx("small", vec![output(Some(ADDRESS), 999)])];
    assert!(!check_invoice_payment(&mut inv, &txs, "2024-03-01T10:00:00.000Z"));
    assert_eq!(inv.status, InvoiceStatus::Sent);
    assert_eq!(inv.paid_at, None);
    assert_eq!(inv.paid_txid, None);
    assert_eq!(inv.paid_amount_sat, None);
}

#[test]
fn second_check_of_the_same_payment_writes_nothing() {
    let mut inv = invoice(InvoiceStatus::Sent, false, 1_000);
    let txs = vec![tx("pay", vec![output(Some(ADDRESS), 1_000)])];
    assert!(check_invoice_payment(&mut inv, &txs, "2024-03-01T10:00:00.000Z"));
    assert!(!check_invoice_payment(&mut inv, &txs, "2024-03-01T10:05:00.000Z"));
    assert_eq!(inv.status, InvoiceStatus::Paid);
    assert_eq!(inv.paid_at.as_deref(), Some("2024-03-01T10:00:00.000Z"));
    assert_eq!(inv.paid_txid.as_deref(), Some("pay"));
    assert_eq!(inv.paid_amount_sat, Some(1_000));
}

#[test]
fn settled_invoice_is_not_checked_against_new_transactions() {
    let mut inv = invoice(InvoiceStatus::Sent, false, 1_000);
    assert!(check_invoice_payment(
        &mut inv,
        &vec![tx("pay", vec![output(Some(ADDRESS), 1_000)])],
        "2024-03-01T10:00:00.000Z"
    ));
    assert!(!inv.needs_check());
    let later = vec![tx("again", vec![output(Some(ADDRESS), 7_000)])];
    assert!(!check_invoice_payment(&mut inv, &later, "2024-04-01T10:00:00.000Z"));
    assert_eq!(inv.paid_txid.as_deref(), Some("pay"));
    assert_eq!(inv.paid_at.as_deref(), Some("2024-03-01T10:00:00.000Z"));
}

#[test]
fn reusable_invoice_records_each_new_payment() {
    let mut inv = invoice(InvoiceStatus::Sent, true, 1_000);
    let first = vec![tx("one", vec![output(Some(ADDRESS), 1_000)])];
    assert!(check_invoice_payment(&mut inv, &first, "2024-03-01T10:00:00.000Z"));
    assert_eq!(inv.status, InvoiceStatus::Paid);
    assert_eq!(inv.paid_txid.as_deref(), Some("one"));
    assert_eq!(inv.paid_amount_sat, Some(1_000));
    assert!(inv.needs_check());

    let second = vec![
        tx("two", vec![output(Some(ADDRESS), 2_500)]),
        tx("one", vec![output(Some(ADDRESS), 1_000)]),
    ];
    assert!(check_invoice_payment(&mut inv, &second, "2024-03-02T10:00:00.000Z"));
    assert_eq!(inv.status, InvoiceStatus::Paid);
    assert_eq!(inv.paid_txid.as_deref(), Some("two"));
    assert_eq!(inv.paid_amount_sat, Some(2_500));
    assert_eq!(inv.paid_at.as_deref(), Some("2024-03-02T10:00:00.000Z"));
}

#[test]
fn reusable_invoice_signals_a_repeated_match_without_writing() {
    let mut inv = invoice(InvoiceStatus::Sent, true, 1_000);
    let txs = vec![tx("one", vec![output(Some(ADDRESS), 1_000)])];
    assert!(check_invoice_payment(&mut inv, &txs, "2024-03-01T10:00:00.000Z"));
    assert!(check_invoice_payment(&mut inv, &txs, "2024-03-09T10:00:00.000Z"));
    assert_eq!(inv.paid_at.as_deref(), Some("2024-03-01T10:00:00.000Z"));
    assert_eq!(inv.paid_txid.as_deref(), Some("one"));
}

#[test]
fn conditional_update_skips_a_record_that_is_already_paid() {
    let payment = Payment { txid: "late".to_string(), amount_sat: 1_000 };
    let mut stored = invoice(InvoiceStatus::Paid, false, 1_000);
    stored.paid_at = Some("2024-01-01T00:00:00.000Z".to_string());
    stored.paid_txid = Some("early".to_string());
    stored.paid_amount_sat = Some(1_200);
    assert!(!stored.apply_payment(&payment, "2024-02-02T00:00:00.000Z"));
    assert_eq!(stored.paid_txid.as_deref(), Some("early"));
    assert_eq!(stored.paid_at.as_deref(), Some("2024-01-01T00:00:00.000Z"));
    assert_eq!(stored.paid_amount_sat, Some(1_200));
    assert!(!stored.records(&payment));

    for status in [InvoiceStatus::Draft, InvoiceStatus::Expired, InvoiceStatus::Cancelled] {
        let mut unpaid = invoice(status, false, 1_000);
        assert!(unpaid.apply_payment(&payment, "2024-02-02T00:00:00.000Z"));
        assert_eq!(unpaid.status, InvoiceStatus::Paid);
        assert!(unpaid.records(&payment));
    }
}

#[test]
fn overdue_sent_invoices_expire() {
    let mut due = invoice(InvoiceStatus::Sent, false, 1);
    due.expires_at = Some("2024-03-01T00:00:00.000Z".to_string());
    assert!(!due.is_overdue("2024-03-01T00:00:00.000Z"));
    assert!(!due.is_overdue("2024-02-29T23:59:59.999Z"));
    assert!(due.is_overdue("2024-03-01T00:00:00.001Z"));
    assert!(due.expire_if_overdue("2024-03-01T00:00:00.001Z"));
    assert_eq!(due.status, InvoiceStatus::Expired);
    assert!(!due.expire_if_overdue("2024-03-01T00:00:00.001Z"));

    let mut open_ended = invoice(InvoiceStatus::Sent, false, 1);
    assert!(!open_ended.expire_if_overdue("9999-12-31T23:59:59.999Z"));
    assert_eq!(open_ended.status, InvoiceStatus::Sent);

    let mut draft = invoice(InvoiceStatus::Draft, false, 1);
    draft.expires_at = Some("2000-01-01T00:00:00.000Z".to_string());
    assert!(!draft.expire_if_overdue("2024-01-01T00:00:00.000Z"));
    assert_eq!(draft.status, InvoiceStatus::Draft);
}

#[test]
fn bulk_expiry_touches_only_overdue_invoices() {
    let mut overdue = invoice(InvoiceStatus::Sent, false, 1);
    overdue.expires_at = Some("2024-01-01T00:00:00.000Z".to_string());
    let mut not_yet = invoice(InvoiceStatus::Sent, false, 2);
    not_yet.expires_at = Some("2024-12-01T00:00:00.000Z".to_string());
    let mut paid = invoice(InvoiceStatus::Paid, false, 3);
    paid.expires_at = Some("2024-01-01T00:00:00.000Z".to_string());
    let mut also_overdue = invoice(InvoiceStatus::Sent, true, 4);
    also_overdue.expires_at = Some("2023-06-01T00:00:00.000Z".to_string());
    let mut invoices = vec![overdue, not_yet, paid, also_overdue];
    assert_eq!(expire_overdue(&mut invoices, "2024-06-01T00:00:00.000Z"), 2);
    let statuses: Vec<InvoiceStatus> = invoices.iter().map(|i| i.status).collect();
    assert_eq!(
        statuses,
        vec![
            InvoiceStatus::Expired,
            InvoiceStatus::Sent,
            InvoiceStatus::Paid,
            InvoiceStatus::Expired
        ]
    );
    assert_eq!(invoices[3].amount_sat, 4);
    assert_eq!(expire_overdue(&mut invoices, "2024-06-01T00:00:00.000Z"), 0);
}

#[test]
fn batch_is_the_first_sent_invoices_up_to_the_limit() {
    let statuses = [
        InvoiceStatus::Draft,
        InvoiceStatus::Sent,
        InvoiceStatus::Paid,
        InvoiceStatus::Sent,
        InvoiceStatus::Sent,
        InvoiceStatus::Cancelled,
        InvoiceStatus::Sent,
    ];
    let invoices: Vec<Invoice> = statuses.iter().map(|s| invoice(*s, false, 1)).collect();
    assert_eq!(sent_batch(&invoices, 10), vec![1, 3, 4, 6]);
    assert_eq!(sent_batch(&invoices, 4), vec![1, 3, 4, 6]);
    assert_eq!(sent_batch(&invoices, 2), vec![1, 3]);
    assert_eq!(sent_batch(&invoices, 0), Vec::<usize>::new());
    assert_eq!(sent_batch(&Vec::new(), 10), Vec::<usize>::new());
}

#[test]
fn new_invoice_is_an_unpaid_draft() {
    let inv = Invoice::draft(
        "inv-9".to_string(),
        ADDRESS.to_string(),
        2_000,
        true,
        Some("2025-01-01T00:00:00.000Z".to_string()),
    );
    assert_eq!(inv.id, "inv-9");
    assert_eq!(inv.btc_address, ADDRESS);
    assert_eq!(inv.amount_sat, 2_000);
    assert_eq!(inv.status, InvoiceStatus::Draft);
    assert!(inv.reusable);
    assert_eq!(inv.expires_at.as_deref(), Some("2025-01-01T00:00:00.000Z"));
    assert_eq!(inv.paid_at, None);
    assert_eq!(inv.paid_txid, None);
    assert_eq!(inv.paid_amount_sat, None);
    assert!(inv.needs_check());
}

#[test]
fn invoice_is_issued_and_cancelled() {
    let mut inv = invoice(InvoiceStatus::Draft, false, 1);
    assert!(inv.mark_sent());
    assert_eq!(inv.status, InvoiceStatus::Sent);
    assert!(!inv.mark_sent());
    assert_eq!(inv.status, InvoiceStatus::Sent);
    inv.cancel();
    assert_eq!(inv.status, InvoiceStatus::Cancelled);
    assert!(!inv.mark_sent());
    assert_eq!(inv.status, InvoiceStatus::Cancelled);
}

#[test]
fn status_names_are_read_back() {
    for status in [
        InvoiceStatus::Draft,
        InvoiceStatus::Sent,
        InvoiceStatus::Paid,
        InvoiceStatus::Expired,
        InvoiceStatus::Cancelled,
    ] {
        assert_eq!(InvoiceStatus::parse(status.name()), Some(status));
    }
    assert_eq!(InvoiceStatus::Paid.name(), "paid");
    assert_eq!(InvoiceStatus::Cancelled.name(), "cancelled");
    assert_eq!(InvoiceStatus::parse("Paid"), None);
    assert_eq!(InvoiceStatus::parse(""), None);
    assert_eq!(InvoiceStatus::parse("canceled"), None);
}
