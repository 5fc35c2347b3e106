//! Invoices and the detection of their payment on chain.
//!
//! An invoice asks for an amount at an address. A transaction pays it when its
//! outputs to that address add up to at least the amount. The first such
//! transaction in the order in which the chain source lists them settles the
//! invoice. Settling is a conditional update of the stored record, so that two
//! checks of one payment record it once.

use vstd::prelude::*;
use vstd::string::*;
use crate::text::{comes_before, same_text, text_before};

verus! {

/// Where an invoice stands.
#[derive(Clone, Copy, Debug, PartialEq, Eq, Structural)]
pub enum InvoiceStatus {
    Draft,
    Sent,
    Paid,
    Expired,
    Cancelled,
}

/// A payment request, as stored.
#[derive(Debug)]
pub struct Invoice {
    pub id: String,
    /// Address at which payment is expected.
    pub btc_address: String,
    /// Satoshis asked for.
    pub amount_sat: u64,
    pub status: InvoiceStatus,
    /// Whether the address may be paid again and again.
    pub reusable: bool,
    pub expires_at: Option<String>,
    pub paid_at: Option<String>,
    pub paid_txid: Option<String>,
    pub paid_amount_sat: Option<u128>,
}

/// The view of an optional text.
pub open spec fn text_view(text: Option<String>) -> Option<Seq<char>> {
    match text {
        Some(t) => Some(t@),
        None => None,
    }
}

/// An invoice as mathematics.
pub struct InvoiceView {
    pub id: Seq<char>,
    pub btc_address: Seq<char>,
    pub amount_sat: u64,
    pub status: InvoiceStatus,
    pub reusable: bool,
    pub expires_at: Option<Seq<char>>,
    pub paid_at: Option<Seq<char>>,
    pub paid_txid: Option<Seq<char>>,
    pub paid_amount_sat: Option<u128>,
}

impl View for Invoice {
    type V = InvoiceView;

    open spec fn view(&self) -> InvoiceView {
        InvoiceView {
            id: self.id@,
            btc_address: self.btc_address@,
            amount_sat: self.amount_sat,
            status: self.status,
            reusable: self.reusable,
            expires_at: text_view(self.expires_at),
            paid_at: text_view(self.paid_at),
            paid_txid: text_view(self.paid_txid),
            paid_amount_sat: self.paid_amount_sat,
        }
    }
}

/// One output of a transaction.
#[derive(Debug)]
pub struct TxOutput {
    /// Address that the output pays, where it has one.
    pub scriptpubkey_address: Option<String>,
    /// Satoshis.
    pub value: u64,
}

/// A transaction as the chain source reports it.
#[derive(Debug)]
pub struct ChainTx {
    pub txid: String,
    pub confirmed: bool,
    pub block_time: Option<u64>,
    pub vout: Vec<TxOutput>,
}

/// A payment found: the transaction and what it paid to the address.
#[derive(Debug)]
pub struct Payment {
    pub txid: String,
    pub amount_sat: u128,
}

/// A payment as mathematics.
pub struct PaymentView {
    pub txid: Seq<char>,
    pub amount_sat: u128,
}

impl View for Payment {
    type V = PaymentView;

    open spec fn view(&self) -> PaymentView {
        PaymentView { txid: self.txid@, amount_sat: self.amount_sat }
    }
}

/// Whether an output pays `address`.
pub open spec fn pays_to(output: TxOutput, address: Seq<char>) -> bool {
    output.scriptpubkey_address matches Some(to) && to@ == address
}

/// Satoshis that the first `n` outputs pay to `address`.
pub open spec fn received_upto(outputs: Seq<TxOutput>, address: Seq<char>, n: nat) -> nat
    decreases n,
{
    if n == 0 {
        0
    } else {
        received_upto(outputs, address, (n - 1) as nat) + if pays_to(outputs[n - 1], address) {
            outputs[n - 1].value as nat
        } else {
            0
        }
    }
}

/// Satoshis that a transaction pays to `address`.
pub open spec fn received(tx: ChainTx, address: Seq<char>) -> nat {
    received_upto(tx.vout@, address, tx.vout@.len())
}

/// Whether a transaction pays at least `amount_sat` to `address`.
pub open spec fn qualifies(tx: ChainTx, address: Seq<char>, amount_sat: u64) -> bool {
    received(tx, address) >= amount_sat
}

/// Position of the first qualifying transaction at or after `start`.
pub open spec fn first_payment_from(
    txs: Seq<ChainTx>,
    address: Seq<char>,
    amount_sat: u64,
    start: nat,
) -> Option<int>
    decreases txs.len() - start,
{
    if start >= txs.len() {
        None
    } else if qualifies(txs[start as int], address, amount_sat) {
        Some(start as int)
    } else {
        first_payment_from(txs, address, amount_sat, start + 1)
    }
}

/// The payment that the transactions hold for an invoice of `amount_sat` at
/// `address`: that of the first transaction that qualifies, `None` where none does.
pub open spec fn find_payment_spec(txs: Seq<ChainTx>, address: Seq<char>, amount_sat: u64) -> Option<
    PaymentView,
> {
    match first_payment_from(txs, address, amount_sat, 0) {
        Some(k) => Some(
            PaymentView { txid: txs[k].txid@, amount_sat: received(txs[k], address) as u128 },
        ),
        None => None,
    }
}

/// What `first_payment_from` finds qualifies, and nothing before it from `start` on does.
pub proof fn lemma_first_payment(
    txs: Seq<ChainTx>,
    address: Seq<char>,
    amount_sat: u64,
    start: nat,
)
    ensures
        match first_payment_from(txs, address, amount_sat, start) {
            Some(k) => {
                &&& start <= k < txs.len()
                &&& qualifies(txs[k], address, amount_sat)
                &&& forall|j: int| start <= j < k ==> !qualifies(#[trigger] txs[j], address, amount_sat)
            },
            None => forall|j: int|
                start <= j < txs.len() ==> !qualifies(#[trigger] txs[j], address, amount_sat),
        },
    decreases txs.len() - start,
{
    if start < txs.len() && !qualifies(txs[start as int], address, amount_sat) {
        lemma_first_payment(txs, address, amount_sat, start + 1);
    }
}

/// What the outputs pay to an address is at most a `u64` for each output.
pub proof fn lemma_received_bound(outputs: Seq<TxOutput>, address: Seq<char>, n: nat)
    ensures
        received_upto(outputs, address, n) <= n * u64::MAX,
    decreases n,
{
    if n > 0 {
        lemma_received_bound(outputs, address, (n - 1) as nat);
        assert(n * u64::MAX == (n - 1) * u64::MAX + u64::MAX) by (nonlinear_arith);
    }
}

/// As many amounts of a `u64` each as a vector can hold add up to less than
/// a `u128` can hold.
pub proof fn lemma_amounts_fit(n: nat)
    requires
        n <= usize::MAX,
    ensures
        n * u64::MAX <= u128::MAX,
{
    assert(n * u64::MAX <= 0xffff_ffff_ffff_ffff * 0xffff_ffff_ffff_ffff) by (nonlinear_arith)
        requires
            n <= 0xffff_ffff_ffff_ffff,
            u64::MAX == 0xffff_ffff_ffff_ffff,
    ;
}

/// Satoshis that the outputs pay to `address`.
pub fn outputs_to(outputs: &Vec<TxOutput>, address: &str) -> (total: u128)
    ensures
        total == received_upto(outputs@, address@, outputs@.len()),
{
    let mut total: u128 = 0;
    let mut i: usize = 0;
    while i < outputs.len()
        invariant
            i <= outputs.len(),
            total == received_upto(outputs@, address@, i as nat),
        decreases outputs.len() - i,
    {
        let output = &outputs[i];
        let to_address = match &output.scriptpubkey_address {
            Some(to) => same_text(to.as_str(), address),
            None => false,
        };
        if to_address {
            proof {
                lemma_received_bound(outputs@, address@, (i + 1) as nat);
                lemma_amounts_fit((i + 1) as nat);
            }
            total = total + output.value as u128;
        }
        i += 1;
    }
    total
}

/// Satoshis that a transaction pays to `address`.
pub fn received_amount(tx: &ChainTx, address: &str) -> (total: u128)
    ensures
        total == received(*tx, address@),
{
    outputs_to(&tx.vout, address)
}

/// Looks for the payment of an invoice of `amount_sat` at `address` among the
/// transactions that touch the address: the first that qualifies wins.
pub fn find_payment(txs: &Vec<ChainTx>, address: &str, amount_sat: u64) -> (found: Option<Payment>)
    ensures
        match found {
            Some(p) => Some(p@),
            None => None,
        } == find_payment_spec(txs@, address@, amount_sat),
{
    let mut i: usize = 0;
    while i < txs.len()
        invariant
            i <= txs.len(),
            first_payment_from(txs@, address@, amount_sat, 0) == first_payment_from(
                txs@,
                address@,
                amount_sat,
                i as nat,
            ),
        decreases txs.len() - i,
    {
        let paid = received_amount(&txs[i], address);
        if paid >= amount_sat as u128 {
            return Some(Payment { txid: txs[i].txid.clone(), amount_sat: paid });
        }
        i += 1;
    }
    None
}

/// Whether the invoice is settled for good: paid, and not to be paid again. Such an
/// invoice is not checked.
pub open spec fn settled(invoice: InvoiceView) -> bool {
    invoice.status == InvoiceStatus::Paid && !invoice.reusable
}

/// Whether the invoice already records this very payment.
pub open spec fn records(invoice: InvoiceView, payment: PaymentView) -> bool {
    invoice.paid_txid == Some(payment.txid) && invoice.paid_amount_sat == Some(payment.amount_sat)
}

/// Whether the conditional update writes: the stored invoice is not paid, or it is
/// reusable and the payment is not the one it records.
pub open spec fn update_applies(invoice: InvoiceView, payment: PaymentView) -> bool {
    invoice.status != InvoiceStatus::Paid || (invoice.reusable && !records(invoice, payment))
}

/// The invoice paid by `payment` at `now`.
pub open spec fn with_payment(invoice: InvoiceView, payment: PaymentView, now: Seq<char>) -> InvoiceView {
    InvoiceView {
        status: InvoiceStatus::Paid,
        paid_at: Some(now),
        paid_txid: Some(payment.txid),
        paid_amount_sat: Some(payment.amount_sat),
        ..invoice
    }
}

/// The stored invoice after the conditional update.
pub open spec fn apply_payment_spec(
    invoice: InvoiceView,
    payment: PaymentView,
    now: Seq<char>,
) -> InvoiceView {
    if update_applies(invoice, payment) {
        with_payment(invoice, payment, now)
    } else {
        invoice
    }
}

/// A check of the invoice against the transactions at its address: the invoice
/// afterwards, and whether a payment was detected.
pub open spec fn check_spec(invoice: InvoiceView, txs: Seq<ChainTx>, now: Seq<char>) -> (
    InvoiceView,
    bool,
) {
    if settled(invoice) {
        (invoice, false)
    } else {
        match find_payment_spec(txs, invoice.btc_address, invoice.amount_sat) {
            Some(payment) => (apply_payment_spec(invoice, payment, now), true),
            None => (invoice, false),
        }
    }
}

/// A second check against the same transactions changes nothing, whenever it is
/// made: the payment is recorded once, with the time of the first check. For an
/// invoice that is not reusable the second check detects nothing.
pub proof fn lemma_check_idempotent(
    invoice: InvoiceView,
    txs: Seq<ChainTx>,
    first_now: Seq<char>,
    second_now: Seq<char>,
)
    ensures
        check_spec(check_spec(invoice, txs, first_now).0, txs, second_now).0 == check_spec(
            invoice,
            txs,
            first_now,
        ).0,
        !invoice.reusable ==> !check_spec(check_spec(invoice, txs, first_now).0, txs, second_now).1,
{
}

/// A reusable invoice follows its payments: where a second check finds another
/// payment than the first did, both detect a payment and the invoice ends paid, with
/// the transaction, the amount and the time of the second.
pub proof fn lemma_reusable_takes_latest(
    invoice: InvoiceView,
    first_txs: Seq<ChainTx>,
    second_txs: Seq<ChainTx>,
    first_now: Seq<char>,
    second_now: Seq<char>,
)
    requires
        invoice.reusable,
        find_payment_spec(first_txs, invoice.btc_address, invoice.amount_sat) is Some,
        find_payment_spec(second_txs, invoice.btc_address, invoice.amount_sat) is Some,
        find_payment_spec(first_txs, invoice.btc_address, invoice.amount_sat) != find_payment_spec(
            second_txs,
            invoice.btc_address,
            invoice.amount_sat,
        ),
    ensures
        ({
            let first = check_spec(invoice, first_txs, first_now);
            let second = check_spec(first.0, second_txs, second_now);
            let earlier = find_payment_spec(first_txs, invoice.btc_address, invoice.amount_sat)->0;
            let later = find_payment_spec(second_txs, invoice.btc_address, invoice.amount_sat)->0;
            &&& first.1
            &&& first.0.status == InvoiceStatus::Paid
            &&& records(first.0, earlier)
            &&& second.1
            &&& second.0 == with_payment(invoice, later, second_now)
        }),
{
}

impl Invoice {
    /// A new invoice: a draft that nothing has paid.
    pub fn draft(
        id: String,
        btc_address: String,
        amount_sat: u64,
        reusable: bool,
        expires_at: Option<String>,
    ) -> (invoice: Invoice)
        ensures
            invoice@ == (InvoiceView {
                id: id@,
                btc_address: btc_address@,
                amount_sat,
                status: InvoiceStatus::Draft,
                reusable,
                expires_at: text_view(expires_at),
                paid_at: None,
                paid_txid: None,
                paid_amount_sat: None,
            }),
    {
        Invoice {
            id,
            btc_address,
            amount_sat,
            status: InvoiceStatus::Draft,
            reusable,
            expires_at,
            paid_at: None,
            paid_txid: None,
            paid_amount_sat: None,
        }
    }

    /// Whether a check is due: not for an invoice that is paid and not reusable.
    pub fn needs_check(&self) -> (due: bool)
        ensures
            due == !settled(self@),
    {
        !(matches!(self.status, InvoiceStatus::Paid) && !self.reusable)
    }

    /// Whether the invoice records this very payment.
    pub fn records(&self, payment: &Payment) -> (yes: bool)
        ensures
            yes == records(self@, payment@),
    {
        let same_txid = match &self.paid_txid {
            Some(txid) => same_text(txid.as_str(), payment.txid.as_str()),
            None => false,
        };
        let same_amount = match self.paid_amount_sat {
            Some(amount) => amount == payment.amount_sat,
            None => false,
        };
        same_txid && same_amount
    }

    /// The conditional update of the stored invoice on a payment found: it writes
    /// status, time, transaction and amount where the invoice is not paid, or is
    /// reusable and records another payment; otherwise it leaves the invoice as it is.
    /// It returns whether it wrote.
    pub fn apply_payment(&mut self, payment: &Payment, now: &str) -> (applied: bool)
        ensures
            final(self)@ == apply_payment_spec(old(self)@, payment@, now@),
            applied == update_applies(old(self)@, payment@),
    {
        let applies = !matches!(self.status, InvoiceStatus::Paid) || (self.reusable
            && !self.records(payment));
        if applies {
            self.status = InvoiceStatus::Paid;
            self.paid_at = Some(String::from_str(now));
            self.paid_txid = Some(payment.txid.clone());
            self.paid_amount_sat = Some(payment.amount_sat);
        }
        applies
    }
}

/// Checks an invoice against the transactions that touch its address, at time `now`.
///
/// An invoice that is paid and not reusable is left alone. Otherwise the first
/// transaction whose outputs to the address add up to at least the amount is the
/// payment, and the conditional update is made. It returns whether a payment was
/// detected.
pub fn check_invoice_payment(invoice: &mut Invoice, txs: &Vec<ChainTx>, now: &str) -> (detected: bool)
    ensures
        final(invoice)@ == check_spec(old(invoice)@, txs@, now@).0,
        detected == check_spec(old(invoice)@, txs@, now@).1,
{
    if !invoice.needs_check() {
        return false;
    }
    match find_payment(txs, invoice.btc_address.as_str(), invoice.amount_sat) {
        Some(payment) => {
            invoice.apply_payment(&payment, now);
            true
        },
        None => false,
    }
}

/// Whether the invoice has run out: it was sent, has an expiry, and the expiry is
/// before `now`. Times are compared as text, so they must be written in one format
/// in which the order of the texts is the order of the times.
pub open spec fn overdue(invoice: InvoiceView, now: Seq<char>) -> bool {
    &&& invoice.status == InvoiceStatus::Sent
    &&& invoice.expires_at matches Some(at) && text_before(at, now)
}

/// The invoice after expiry was looked at: expired where overdue, else as it was.
pub open spec fn expire_spec(invoice: InvoiceView, now: Seq<char>) -> InvoiceView {
    if overdue(invoice, now) {
        InvoiceView { status: InvoiceStatus::Expired, ..invoice }
    } else {
        invoice
    }
}

/// The invoice when it is issued: a draft becomes sent, anything else stays.
pub open spec fn send_spec(invoice: InvoiceView) -> InvoiceView {
    if invoice.status == InvoiceStatus::Draft {
        InvoiceView { status: InvoiceStatus::Sent, ..invoice }
    } else {
        invoice
    }
}

impl Invoice {
    /// Whether the invoice has run out at `now`.
    pub fn is_overdue(&self, now: &str) -> (yes: bool)
        ensures
            yes == overdue(self@, now@),
    {
        match &self.expires_at {
            Some(at) => matches!(self.status, InvoiceStatus::Sent) && comes_before(
                at.as_str(),
                now,
            ),
            None => false,
        }
    }

    /// Marks the invoice expired where it has run out; returns whether it did.
    pub fn expire_if_overdue(&mut self, now: &str) -> (expired: bool)
        ensures
            final(self)@ == expire_spec(old(self)@, now@),
            expired == overdue(old(self)@, now@),
    {
        let due = self.is_overdue(now);
        if due {
            self.status = InvoiceStatus::Expired;
        }
        due
    }

    /// Issues a draft; returns whether the invoice was a draft.
    pub fn mark_sent(&mut self) -> (sent: bool)
        ensures
            final(self)@ == send_spec(old(self)@),
            sent == (old(self).status == InvoiceStatus::Draft),
    {
        let draft = matches!(self.status, InvoiceStatus::Draft);
        if draft {
            self.status = InvoiceStatus::Sent;
        }
        draft
    }

    /// Cancels the invoice, wherever it stands.
    pub fn cancel(&mut self)
        ensures
            final(self)@ == (InvoiceView { status: InvoiceStatus::Cancelled, ..old(self)@ }),
    {
        self.status = InvoiceStatus::Cancelled;
    }
}

/// The name under which a status is stored.
pub open spec fn status_name_spec(status: InvoiceStatus) -> Seq<char> {
    match status {
        InvoiceStatus::Draft => "draft"@,
        InvoiceStatus::Sent => "sent"@,
        InvoiceStatus::Paid => "paid"@,
        InvoiceStatus::Expired => "expired"@,
        InvoiceStatus::Cancelled => "cancelled"@,
    }
}

/// The status that a name stands for, `None` for any other text.
pub open spec fn parse_status_spec(name: Seq<char>) -> Option<InvoiceStatus> {
    if name == "draft"@ {
        Some(InvoiceStatus::Draft)
    } else if name == "sent"@ {
        Some(InvoiceStatus::Sent)
    } else if name == "paid"@ {
        Some(InvoiceStatus::Paid)
    } else if name == "expired"@ {
        Some(InvoiceStatus::Expired)
    } else if name == "cancelled"@ {
        Some(InvoiceStatus::Cancelled)
    } else {
        None
    }
}

impl InvoiceStatus {
    /// The name under which the status is stored.
    pub fn name(&self) -> (name: &'static str)
        ensures
            name@ == status_name_spec(*self),
    {
        match self {
            InvoiceStatus::Draft => "draft",
            InvoiceStatus::Sent => "sent",
            InvoiceStatus::Paid => "paid",
            InvoiceStatus::Expired => "expired",
            InvoiceStatus::Cancelled => "cancelled",
        }
    }

    /// Reads a status from its name.
    pub fn parse(name: &str) -> (status: Option<InvoiceStatus>)
        ensures
            status == parse_status_spec(name@),
    {
        if same_text(name, "draft") {
            Some(InvoiceStatus::Draft)
        } else if same_text(name, "sent") {
            Some(InvoiceStatus::Sent)
        } else if same_text(name, "paid") {
            Some(InvoiceStatus::Paid)
        } else if same_text(name, "expired") {
            Some(InvoiceStatus::Expired)
        } else if same_text(name, "cancelled") {
            Some(InvoiceStatus::Cancelled)
        } else {
            None
        }
    }
}

/// Every status is read back from its own name.
pub proof fn lemma_status_name_round_trip(status: InvoiceStatus)
    ensures
        parse_status_spec(status_name_spec(status)) == Some(status),
{
    reveal_strlit("draft");
    reveal_strlit("sent");
    reveal_strlit("paid");
    reveal_strlit("expired");
    reveal_strlit("cancelled");
    assert("draft"@.len() == 5 && "sent"@.len() == 4 && "paid"@.len() == 4 && "expired"@.len() == 7
        && "cancelled"@.len() == 9);
    assert("sent"@[0] == 's' && "paid"@[0] == 'p');
    assert("draft"@[0] == 'd');
}

/// How many of the first `n` invoices are overdue at `now`.
pub open spec fn overdue_upto(invoices: Seq<Invoice>, now: Seq<char>, n: nat) -> nat
    decreases n,
{
    if n == 0 {
        0
    } else {
        overdue_upto(invoices, now, (n - 1) as nat) + if overdue(invoices[n - 1]@, now) {
            1nat
        } else {
            0nat
        }
    }
}

/// Expires every invoice that is overdue at `now` and leaves the others as they
/// are; returns how many it expired.
pub fn expire_overdue(invoices: &mut Vec<Invoice>, now: &str) -> (expired: usize)
    ensures
        final(invoices)@.len() == old(invoices)@.len(),
        forall|i: int|
            0 <= i < old(invoices)@.len() ==> (#[trigger] final(invoices)@[i])@ == expire_spec(
                old(invoices)@[i]@,
                now@,
            ),
        expired == overdue_upto(old(invoices)@, now@, old(invoices)@.len()),
{
    let ghost start = invoices@;
    let mut expired: usize = 0;
    let mut i: usize = 0;
    while i < invoices.len()
        invariant
            i <= invoices.len(),
            invoices@.len() == start.len(),
            expired == overdue_upto(start, now@, i as nat),
            expired <= i,
            forall|k: int| 0 <= k < i ==> (#[trigger] invoices@[k])@ == expire_spec(start[k]@, now@),
            forall|k: int| i <= k < start.len() ==> (#[trigger] invoices@[k]) == start[k],
        decreases invoices.len() - i,
    {
        if invoices[i].expire_if_overdue(now) {
            expired += 1;
        }
        i += 1;
    }
    expired
}

/// Positions of the sent invoices among the first `n`, in order.
pub open spec fn sent_upto(invoices: Seq<Invoice>, n: nat) -> Seq<usize>
    decreases n,
{
    if n == 0 {
        Seq::empty()
    } else if invoices[n - 1].status == InvoiceStatus::Sent {
        sent_upto(invoices, (n - 1) as nat).push((n - 1) as usize)
    } else {
        sent_upto(invoices, (n - 1) as nat)
    }
}

/// The batch of a cycle: the positions of the first `limit` sent invoices, or of
/// all of them where there are fewer.
pub open spec fn batch_spec(invoices: Seq<Invoice>, limit: nat) -> Seq<usize> {
    let sent = sent_upto(invoices, invoices.len());
    if sent.len() <= limit {
        sent
    } else {
        sent.take(limit as int)
    }
}

/// The sent invoices among fewer invoices are the first of those among more.
pub proof fn lemma_sent_prefix(invoices: Seq<Invoice>, a: nat, b: nat)
    requires
        a <= b,
    ensures
        sent_upto(invoices, a).len() <= sent_upto(invoices, b).len(),
        sent_upto(invoices, b).take(sent_upto(invoices, a).len() as int) == sent_upto(invoices, a),
    decreases b,
{
    if a < b {
        lemma_sent_prefix(invoices, a, (b - 1) as nat);
        let shorter = sent_upto(invoices, (b - 1) as nat);
        let n = sent_upto(invoices, a).len() as int;
        assert(sent_upto(invoices, b).take(n) =~= shorter.take(n));
    } else {
        assert(sent_upto(invoices, a).take(sent_upto(invoices, a).len() as int) =~= sent_upto(
            invoices,
            a,
        ));
    }
}

/// Picks the batch of a cycle: the positions of at most `limit` sent invoices, the
/// first in the order of the store.
pub fn sent_batch(invoices: &Vec<Invoice>, limit: usize) -> (batch: Vec<usize>)
    ensures
        batch@ == batch_spec(invoices@, limit as nat),
{
    let mut batch: Vec<usize> = Vec::new();
    let mut i: usize = 0;
    while i < invoices.len() && batch.len() < limit
        invariant
            i <= invoices.len(),
            batch@ == sent_upto(invoices@, i as nat),
            batch@.len() <= limit,
        decreases invoices.len() - i,
    {
        if matches!(invoices[i].status, InvoiceStatus::Sent) {
            batch.push(i);
        }
        i += 1;
    }
    proof {
        lemma_sent_prefix(invoices@, i as nat, invoices@.len());
    }
    batch
}

} // verus!
