//! Realized gains and remaining holdings of a ledger under a lot-selection method.
//!
//! A calculation starts from no lots and replays the whole ledger in the order given:
//! an acquisition opens a lot, a disposal depletes lots and yields one gain record for
//! each lot it draws on, a transfer changes nothing.

use vstd::prelude::*;
use vstd::string::*;
use crate::dates::{
    holding_days, holding_days_spec, in_tax_year, in_tax_year_spec, is_long_term,
    is_long_term_spec, timestamp_day, timestamp_day_spec,
};
use crate::error::{AppError, AppResult};
use crate::lots::{
    deplete, deplete_lots, lemma_balance_nonnegative, lemma_deplete_conserves,
    lemma_deplete_keeps_open, lemma_deplete_prices, lemma_takes_concat, lots_all_open,
    lots_balance, lots_cost_basis, lots_priced_in_range, method_name, method_name_spec,
    summarize_lots, takes_priced_in_range, takes_total, CostBasisMethod, Lot, Take,
    MAX_PRICE_CENTS,
};

verus! {

/// The kind of economic event that a ledger entry records.
#[derive(Clone, Copy, Debug, PartialEq, Eq, Structural)]
pub enum EntryType {
    Buy,
    Sell,
    Receive,
    Send,
    Transfer,
}

/// One entry of a portfolio's ledger.
#[derive(Debug)]
pub struct LedgerEntry {
    pub entry_type: EntryType,
    /// Satoshis moved.
    pub amount_sat: u64,
    /// Cents per bitcoin at the time; a missing price counts as 0.
    pub price_cents: Option<u64>,
    /// When it happened; see the `dates` module for what is read from it.
    pub timestamp: String,
}

/// Buys and receipts add to the holdings.
pub open spec fn is_acquisition(entry_type: EntryType) -> bool {
    entry_type is Buy || entry_type is Receive
}

/// Sales and sends take from the holdings.
pub open spec fn is_disposal(entry_type: EntryType) -> bool {
    entry_type is Sell || entry_type is Send
}

/// The price of an entry, 0 where it has none.
pub open spec fn price_of(entry: LedgerEntry) -> u64 {
    match entry.price_cents {
        Some(price) => price,
        None => 0,
    }
}

/// The lot that an acquisition opens.
pub open spec fn lot_of(entry: LedgerEntry, day: Option<i32>) -> Lot {
    Lot { amount_sat: entry.amount_sat, unit_price_cents: price_of(entry), acquired_day: day }
}

/// The lots that are open after the first `n` entries, in acquisition order.
/// `days[i]` is the day of entry `i`.
pub open spec fn lots_upto(
    entries: Seq<LedgerEntry>,
    days: Seq<Option<i32>>,
    method: CostBasisMethod,
    n: nat,
) -> Seq<Lot>
    decreases n,
{
    if n == 0 {
        Seq::empty()
    } else {
        let before = lots_upto(entries, days, method, (n - 1) as nat);
        let entry = entries[n - 1];
        if is_acquisition(entry.entry_type) {
            before.push(lot_of(entry, days[n - 1]))
        } else if is_disposal(entry.entry_type) {
            deplete(before, entry.amount_sat as nat, method).0
        } else {
            before
        }
    }
}

/// What entry `i` takes from the lots; nothing where it is no disposal.
pub open spec fn takes_at(
    entries: Seq<LedgerEntry>,
    days: Seq<Option<i32>>,
    method: CostBasisMethod,
    i: int,
) -> Seq<Take> {
    if is_disposal(entries[i].entry_type) {
        deplete(lots_upto(entries, days, method, i as nat), entries[i].amount_sat as nat, method).1
    } else {
        Seq::empty()
    }
}

/// Satoshis acquired by the first `n` entries.
pub open spec fn acquired_upto(entries: Seq<LedgerEntry>, n: nat) -> int
    decreases n,
{
    if n == 0 {
        0
    } else {
        acquired_upto(entries, (n - 1) as nat) + if is_acquisition(entries[n - 1].entry_type) {
            entries[n - 1].amount_sat as int
        } else {
            0
        }
    }
}

/// Satoshis disposed of by the first `n` entries: what their disposals found to take,
/// which is less than they asked for where the lots ran out.
pub open spec fn disposed_upto(
    entries: Seq<LedgerEntry>,
    days: Seq<Option<i32>>,
    method: CostBasisMethod,
    n: nat,
) -> int
    decreases n,
{
    if n == 0 {
        0
    } else {
        disposed_upto(entries, days, method, (n - 1) as nat) + takes_total(
            takes_at(entries, days, method, n - 1),
        )
    }
}

/// One gain or loss: what a disposal realized on the part of one lot that it consumed.
/// Money is in hundred-millionths of a cent.
#[derive(Debug)]
pub struct GainLoss {
    /// Timestamp of the disposal.
    pub sell_date: String,
    /// Satoshis taken from the lot.
    pub sell_amount_sat: u64,
    /// Cents per bitcoin received.
    pub sell_price_cents: u64,
    /// Satoshis times the lot's unit price.
    pub cost_basis: u128,
    /// Satoshis times the sale price.
    pub proceeds: u128,
    /// Proceeds less cost basis.
    pub gain: i128,
    /// Whether the lot was held for more than 365 days.
    pub is_long_term: bool,
    /// Days from the lot's acquisition to the disposal.
    pub holding_period_days: i64,
}

/// A gain record as mathematics.
pub struct GainLossView {
    pub sell_date: Seq<char>,
    pub sell_amount_sat: int,
    pub sell_price_cents: int,
    pub cost_basis: int,
    pub proceeds: int,
    pub gain: int,
    pub is_long_term: bool,
    pub holding_period_days: int,
}

impl View for GainLoss {
    type V = GainLossView;

    open spec fn view(&self) -> GainLossView {
        GainLossView {
            sell_date: self.sell_date@,
            sell_amount_sat: self.sell_amount_sat as int,
            sell_price_cents: self.sell_price_cents as int,
            cost_basis: self.cost_basis as int,
            proceeds: self.proceeds as int,
            gain: self.gain as int,
            is_long_term: self.is_long_term,
            holding_period_days: self.holding_period_days as int,
        }
    }
}

/// The views of a run of gain records.
pub open spec fn gains_view(gains: Seq<GainLoss>) -> Seq<GainLossView> {
    gains.map_values(|g: GainLoss| g@)
}

/// The gain record of one take by a disposal `entry` that fell on `day`.
pub open spec fn gain_of(entry: LedgerEntry, day: Option<i32>, take: Take) -> GainLossView {
    let days = holding_days_spec(take.acquired_day, day);
    GainLossView {
        sell_date: entry.timestamp@,
        sell_amount_sat: take.disposed_sat as int,
        sell_price_cents: price_of(entry) as int,
        cost_basis: take.disposed_sat * take.unit_price_cents,
        proceeds: take.disposed_sat * price_of(entry),
        gain: take.disposed_sat * price_of(entry) - take.disposed_sat * take.unit_price_cents,
        is_long_term: is_long_term_spec(days),
        holding_period_days: days,
    }
}

/// The gain records of `takes` by one disposal.
pub open spec fn gains_of(entry: LedgerEntry, day: Option<i32>, takes: Seq<Take>) -> Seq<
    GainLossView,
> {
    takes.map_values(|take: Take| gain_of(entry, day, take))
}

/// The gain records that entry `i` adds to the report: those of its takes where its
/// year passes the filter, none otherwise. The filter does not touch the lots.
pub open spec fn gains_at(
    entries: Seq<LedgerEntry>,
    days: Seq<Option<i32>>,
    method: CostBasisMethod,
    tax_year: Option<i32>,
    i: int,
) -> Seq<GainLossView> {
    if in_tax_year_spec(entries[i].timestamp@, tax_year) {
        gains_of(entries[i], days[i], takes_at(entries, days, method, i))
    } else {
        Seq::empty()
    }
}

/// The gain records reported for the first `n` entries, in ledger order and, within
/// one disposal, in the order in which its lots were consumed.
pub open spec fn gains_upto(
    entries: Seq<LedgerEntry>,
    days: Seq<Option<i32>>,
    method: CostBasisMethod,
    tax_year: Option<i32>,
    n: nat,
) -> Seq<GainLossView>
    decreases n,
{
    if n == 0 {
        Seq::empty()
    } else {
        gains_upto(entries, days, method, tax_year, (n - 1) as nat) + gains_at(
            entries,
            days,
            method,
            tax_year,
            n - 1,
        )
    }
}

/// Sum of the gains of the records.
pub open spec fn sum_gain(gains: Seq<GainLossView>) -> int
    decreases gains.len(),
{
    if gains.len() == 0 {
        0
    } else {
        sum_gain(gains.drop_last()) + gains.last().gain
    }
}

/// Sum of the gains of the records whose term is `long_term`.
pub open spec fn sum_gain_term(gains: Seq<GainLossView>, long_term: bool) -> int
    decreases gains.len(),
{
    if gains.len() == 0 {
        0
    } else {
        sum_gain_term(gains.drop_last(), long_term) + if gains.last().is_long_term == long_term {
            gains.last().gain
        } else {
            0
        }
    }
}

/// Sum of the proceeds of the records.
pub open spec fn sum_proceeds(gains: Seq<GainLossView>) -> int
    decreases gains.len(),
{
    if gains.len() == 0 {
        0
    } else {
        sum_proceeds(gains.drop_last()) + gains.last().proceeds
    }
}

/// Sum of the cost bases of the records.
pub open spec fn sum_cost_basis(gains: Seq<GainLossView>) -> int
    decreases gains.len(),
{
    if gains.len() == 0 {
        0
    } else {
        sum_cost_basis(gains.drop_last()) + gains.last().cost_basis
    }
}

/// Sum of the satoshis of the records.
pub open spec fn sum_sat(gains: Seq<GainLossView>) -> int
    decreases gains.len(),
{
    if gains.len() == 0 {
        0
    } else {
        sum_sat(gains.drop_last()) + gains.last().sell_amount_sat
    }
}

/// Whether the ledger is one that the calculation takes: what it acquires fits a
/// `u64` in all, and no price is above `MAX_PRICE_CENTS`.
pub open spec fn ledger_in_range(entries: Seq<LedgerEntry>) -> bool {
    &&& acquired_upto(entries, entries.len()) <= u64::MAX
    &&& forall|i: int| 0 <= i < entries.len() ==> price_of(#[trigger] entries[i]) <= MAX_PRICE_CENTS
}

/// The result of a calculation. Money is in hundred-millionths of a cent.
#[derive(Debug)]
pub struct CostBasisResult {
    /// Name of the method used.
    pub method: String,
    /// The gain records reported.
    pub gains: Vec<GainLoss>,
    /// Sum of the reported gains.
    pub total_realized_gain: i128,
    /// Sum of the reported gains on lots held for at most 365 days.
    pub total_short_term_gain: i128,
    /// Sum of the reported gains on lots held for longer.
    pub total_long_term_gain: i128,
    /// Satoshis disposed of over the whole ledger, whatever the year filter.
    pub total_disposed_sat: u64,
    /// Number of lots still open.
    pub remaining_lots: usize,
    /// Satoshis in the lots still open.
    pub remaining_balance_sat: u64,
    /// Cost basis of the lots still open.
    pub remaining_cost_basis: u128,
}

/// What a calculation over `entries` returns, field by field.
pub open spec fn is_cost_basis_of(
    result: CostBasisResult,
    entries: Seq<LedgerEntry>,
    days: Seq<Option<i32>>,
    method: CostBasisMethod,
    tax_year: Option<i32>,
) -> bool {
    let reported = gains_upto(entries, days, method, tax_year, entries.len());
    let open_lots = lots_upto(entries, days, method, entries.len());
    &&& result.method@ == method_name_spec(method)
    &&& gains_view(result.gains@) == reported
    &&& result.total_realized_gain == sum_gain(reported)
    &&& result.total_short_term_gain == sum_gain_term(reported, false)
    &&& result.total_long_term_gain == sum_gain_term(reported, true)
    &&& result.total_disposed_sat == disposed_upto(entries, days, method, entries.len())
    &&& result.remaining_lots == open_lots.len()
    &&& result.remaining_balance_sat == lots_balance(open_lots)
    &&& result.remaining_cost_basis == lots_cost_basis(open_lots)
}

/// Whether the record's money is within its satoshis times the largest price: cost
/// basis and proceeds from 0 up to it, the gain between minus it and it.
pub open spec fn gain_bounded(gain: GainLossView) -> bool {
    let most = gain.sell_amount_sat * MAX_PRICE_CENTS;
    &&& 0 <= gain.sell_amount_sat
    &&& 0 <= gain.cost_basis <= most
    &&& 0 <= gain.proceeds <= most
    &&& -most <= gain.gain <= most
}

/// Whether each record's money is within its satoshis times the largest price.
pub open spec fn gains_bounded(gains: Seq<GainLossView>) -> bool {
    forall|k: int| 0 <= k < gains.len() ==> gain_bounded(#[trigger] gains[k])
}

/// A take at prices in range gives a record whose gain is within its bound.
pub proof fn lemma_gain_bound(entry: LedgerEntry, day: Option<i32>, take: Take)
    requires
        price_of(entry) <= MAX_PRICE_CENTS,
        take.unit_price_cents <= MAX_PRICE_CENTS,
    ensures
        0 <= gain_of(entry, day, take).cost_basis <= take.disposed_sat * MAX_PRICE_CENTS,
        0 <= gain_of(entry, day, take).proceeds <= take.disposed_sat * MAX_PRICE_CENTS,
        take.disposed_sat * MAX_PRICE_CENTS <= u64::MAX * MAX_PRICE_CENTS,
{
    let d = take.disposed_sat as int;
    let p = price_of(entry) as int;
    let q = take.unit_price_cents as int;
    let m = MAX_PRICE_CENTS as int;
    assert(0 <= d * p <= d * m && 0 <= d * q <= d * m && d * m <= 0xffff_ffff_ffff_ffff * m)
        by (nonlinear_arith)
        requires
            0 <= d <= 0xffff_ffff_ffff_ffff,
            0 <= p <= m,
            0 <= q <= m,
    ;
}

/// Sums over records put end to end are the sums of the sums.
pub proof fn lemma_sums_concat(a: Seq<GainLossView>, b: Seq<GainLossView>)
    ensures
        sum_gain(a + b) == sum_gain(a) + sum_gain(b),
        sum_gain_term(a + b, true) == sum_gain_term(a, true) + sum_gain_term(b, true),
        sum_gain_term(a + b, false) == sum_gain_term(a, false) + sum_gain_term(b, false),
        sum_sat(a + b) == sum_sat(a) + sum_sat(b),
    decreases b.len(),
{
    if b.len() == 0 {
        assert(a + b =~= a);
    } else {
        assert((a + b).drop_last() =~= a + b.drop_last());
        lemma_sums_concat(a, b.drop_last());
    }
}

/// Every gain is short-term or long-term: the two sums make up the whole.
pub proof fn lemma_terms_make_total(gains: Seq<GainLossView>)
    ensures
        sum_gain(gains) == sum_gain_term(gains, false) + sum_gain_term(gains, true),
    decreases gains.len(),
{
    if gains.len() > 0 {
        lemma_terms_make_total(gains.drop_last());
    }
}

/// Bounded records have bounded sums.
pub proof fn lemma_sum_bounds(gains: Seq<GainLossView>)
    requires
        gains_bounded(gains),
    ensures
        0 <= sum_sat(gains),
        -(sum_sat(gains) * MAX_PRICE_CENTS) <= sum_gain(gains) <= sum_sat(gains) * MAX_PRICE_CENTS,
        -(sum_sat(gains) * MAX_PRICE_CENTS) <= sum_gain_term(gains, true) <= sum_sat(gains)
            * MAX_PRICE_CENTS,
        -(sum_sat(gains) * MAX_PRICE_CENTS) <= sum_gain_term(gains, false) <= sum_sat(gains)
            * MAX_PRICE_CENTS,
        0 <= sum_proceeds(gains) <= sum_sat(gains) * MAX_PRICE_CENTS,
        0 <= sum_cost_basis(gains) <= sum_sat(gains) * MAX_PRICE_CENTS,
    decreases gains.len(),
{
    if gains.len() > 0 {
        let front = gains.drop_last();
        assert forall|k: int| 0 <= k < front.len() implies gain_bounded(#[trigger] front[k]) by {
            assert(front[k] == gains[k]);
        }
        lemma_sum_bounds(front);
        let s = sum_sat(front);
        let d = gains.last().sell_amount_sat;
        let m = MAX_PRICE_CENTS as int;
        assert((s + d) * m == s * m + d * m) by (nonlinear_arith);
        assert(0 <= d * m) by (nonlinear_arith)
            requires
                0 <= d,
                0 <= m,
        ;
    }
}

/// The records of takes carry the takes' satoshis, and are bounded where prices are in range.
pub proof fn lemma_gains_of_takes(entry: LedgerEntry, day: Option<i32>, takes: Seq<Take>)
    ensures
        sum_sat(gains_of(entry, day, takes)) == takes_total(takes),
        price_of(entry) <= MAX_PRICE_CENTS && takes_priced_in_range(takes) ==> gains_bounded(
            gains_of(entry, day, takes),
        ),
    decreases takes.len(),
{
    let gains = gains_of(entry, day, takes);
    if takes.len() > 0 {
        lemma_gains_of_takes(entry, day, takes.drop_last());
        assert(gains.drop_last() =~= gains_of(entry, day, takes.drop_last()));
    }
    if price_of(entry) <= MAX_PRICE_CENTS && takes_priced_in_range(takes) {
        assert forall|k: int| 0 <= k < gains.len() implies gain_bounded(#[trigger] gains[k]) by {
            assert(takes[k].unit_price_cents <= MAX_PRICE_CENTS);
            lemma_gain_bound(entry, day, takes[k]);
        }
    }
}

/// What was acquired grows with the ledger.
pub proof fn lemma_acquired_monotone(entries: Seq<LedgerEntry>, a: nat, b: nat)
    requires
        a <= b,
    ensures
        0 <= acquired_upto(entries, a) <= acquired_upto(entries, b),
    decreases b,
{
    if b == 0 {
    } else if a == b {
        lemma_acquired_monotone(entries, (a - 1) as nat, (b - 1) as nat);
    } else {
        lemma_acquired_monotone(entries, a, (b - 1) as nat);
    }
}

/// Conservation of satoshis: after any number of entries, under any method, what was
/// disposed of and what the open lots hold add up to what was acquired.
pub proof fn lemma_conservation(
    entries: Seq<LedgerEntry>,
    days: Seq<Option<i32>>,
    method: CostBasisMethod,
    n: nat,
)
    ensures
        disposed_upto(entries, days, method, n) + lots_balance(lots_upto(entries, days, method, n))
            == acquired_upto(entries, n),
        0 <= disposed_upto(entries, days, method, n),
        0 <= lots_balance(lots_upto(entries, days, method, n)),
    decreases n,
{
    if n > 0 {
        let before = lots_upto(entries, days, method, (n - 1) as nat);
        let entry = entries[n - 1];
        lemma_conservation(entries, days, method, (n - 1) as nat);
        lemma_deplete_conserves(before, entry.amount_sat as nat, method);
        if is_acquisition(entry.entry_type) {
            assert(before.push(lot_of(entry, days[n - 1])).drop_last() =~= before);
        }
    }
    lemma_balance_nonnegative(lots_upto(entries, days, method, n));
}

/// What is reported never holds more satoshis than were disposed of, and without a
/// year filter it holds them all. What is disposed of is defined without the filter,
/// as are the open lots: the filter decides what is reported and nothing else.
pub proof fn lemma_filter_reports_only(
    entries: Seq<LedgerEntry>,
    days: Seq<Option<i32>>,
    method: CostBasisMethod,
    tax_year: Option<i32>,
    n: nat,
)
    ensures
        sum_sat(gains_upto(entries, days, method, tax_year, n)) <= disposed_upto(
            entries,
            days,
            method,
            n,
        ),
        sum_sat(gains_upto(entries, days, method, None, n)) == disposed_upto(
            entries,
            days,
            method,
            n,
        ),
    decreases n,
{
    if n > 0 {
        let i = n - 1;
        lemma_filter_reports_only(entries, days, method, tax_year, (n - 1) as nat);
        let takes = takes_at(entries, days, method, i);
        lemma_gains_of_takes(entries[i], days[i], takes);
        lemma_sums_concat(
            gains_upto(entries, days, method, tax_year, (n - 1) as nat),
            gains_at(entries, days, method, tax_year, i),
        );
        lemma_sums_concat(
            gains_upto(entries, days, method, None, (n - 1) as nat),
            gains_at(entries, days, method, None, i),
        );
        lemma_takes_nonnegative(takes);
    }
}

/// Where every acquisition of the ledger brings something in, every open lot holds
/// something: a lot lives from its acquisition until a disposal uses it up.
pub proof fn lemma_open_lots_hold_something(
    entries: Seq<LedgerEntry>,
    days: Seq<Option<i32>>,
    method: CostBasisMethod,
    n: nat,
)
    requires
        n <= entries.len(),
        forall|i: int|
            0 <= i < entries.len() && is_acquisition((#[trigger] entries[i]).entry_type)
                ==> entries[i].amount_sat > 0,
    ensures
        lots_all_open(lots_upto(entries, days, method, n)),
    decreases n,
{
    if n > 0 {
        let before = lots_upto(entries, days, method, (n - 1) as nat);
        lemma_open_lots_hold_something(entries, days, method, (n - 1) as nat);
        lemma_deplete_keeps_open(before, entries[n - 1].amount_sat as nat, method);
    }
}

/// A total of takes is never negative.
pub proof fn lemma_takes_nonnegative(takes: Seq<Take>)
    ensures
        0 <= takes_total(takes),
    decreases takes.len(),
{
    if takes.len() > 0 {
        lemma_takes_nonnegative(takes.drop_last());
    }
}

/// With the ledger's prices in range, so are those of the open lots, of every take
/// and the reported records are bounded.
pub proof fn lemma_prices_in_range(
    entries: Seq<LedgerEntry>,
    days: Seq<Option<i32>>,
    method: CostBasisMethod,
    tax_year: Option<i32>,
    n: nat,
)
    requires
        n <= entries.len(),
        forall|i: int| 0 <= i < entries.len() ==> price_of(#[trigger] entries[i]) <= MAX_PRICE_CENTS,
    ensures
        lots_priced_in_range(lots_upto(entries, days, method, n)),
        gains_bounded(gains_upto(entries, days, method, tax_year, n)),
        n < entries.len() ==> takes_priced_in_range(takes_at(entries, days, method, n as int)),
    decreases n,
{
    if n > 0 {
        let i = n - 1;
        lemma_prices_in_range(entries, days, method, tax_year, (n - 1) as nat);
        let before = lots_upto(entries, days, method, (n - 1) as nat);
        lemma_deplete_prices(before, entries[i].amount_sat as nat, method);
        assert(price_of(entries[i]) <= MAX_PRICE_CENTS);
        lemma_gains_of_takes(entries[i], days[i], takes_at(entries, days, method, i));
    }
    if n < entries.len() {
        lemma_deplete_prices(
            lots_upto(entries, days, method, n),
            entries[n as int].amount_sat as nat,
            method,
        );
    }
}

impl EntryType {
    /// Whether entries of this type add to the holdings.
    pub fn is_acquisition(&self) -> (yes: bool)
        ensures
            yes == is_acquisition(*self),
    {
        match self {
            EntryType::Buy => true,
            EntryType::Receive => true,
            _ => false,
        }
    }

    /// Whether entries of this type take from the holdings.
    pub fn is_disposal(&self) -> (yes: bool)
        ensures
            yes == is_disposal(*self),
    {
        match self {
            EntryType::Sell => true,
            EntryType::Send => true,
            _ => false,
        }
    }
}

impl LedgerEntry {
    /// The price of the entry, 0 where it has none.
    pub fn price(&self) -> (price: u64)
        ensures
            price == price_of(*self),
    {
        match self.price_cents {
            Some(price) => price,
            None => 0,
        }
    }
}

/// The satoshis that the ledger acquires in all, for a ledger in range; `None` for
/// one that is not.
pub fn check_ledger(entries: &Vec<LedgerEntry>) -> (acquired: Option<u64>)
    ensures
        acquired is Some <==> ledger_in_range(entries@),
        acquired matches Some(total) ==> total == acquired_upto(entries@, entries@.len()),
{
    let mut total: u64 = 0;
    let mut i: usize = 0;
    while i < entries.len()
        invariant
            i <= entries.len(),
            total == acquired_upto(entries@, i as nat),
            forall|k: int| 0 <= k < i ==> price_of(#[trigger] entries@[k]) <= MAX_PRICE_CENTS,
        decreases entries.len() - i,
    {
        let entry = &entries[i];
        if entry.price() > MAX_PRICE_CENTS {
            return None;
        }
        if entry.entry_type.is_acquisition() {
            if entry.amount_sat > u64::MAX - total {
                proof {
                    lemma_acquired_monotone(entries@, (i + 1) as nat, entries@.len());
                }
                return None;
            }
            total = total + entry.amount_sat;
        }
        i += 1;
    }
    Some(total)
}

/// Running sums of the reported gains.
struct Totals {
    realized: i128,
    short_term: i128,
    long_term: i128,
}

impl Totals {
    spec fn sums_of(&self, gains: Seq<GainLossView>) -> bool {
        &&& self.realized == sum_gain(gains)
        &&& self.short_term == sum_gain_term(gains, false)
        &&& self.long_term == sum_gain_term(gains, true)
    }
}

/// Appends to `gains` the records of `takes` by the disposal `entry`, and adds them to the sums.
fn record_takes(
    gains: &mut Vec<GainLoss>,
    totals: &mut Totals,
    entry: &LedgerEntry,
    day: Option<i32>,
    takes: &Vec<Take>,
)
    requires
        price_of(*entry) <= MAX_PRICE_CENTS,
        takes_priced_in_range(takes@),
        gains_bounded(gains_view(old(gains)@)),
        sum_sat(gains_view(old(gains)@)) + takes_total(takes@) <= u64::MAX,
        old(totals).sums_of(gains_view(old(gains)@)),
    ensures
        gains_view(final(gains)@) == gains_view(old(gains)@) + gains_of(*entry, day, takes@),
        final(totals).sums_of(gains_view(final(gains)@)),
{
    let ghost base = gains_view(gains@);
    let price = entry.price();
    let mut j: usize = 0;
    proof {
        assert(takes@.take(0) =~= Seq::<Take>::empty());
        assert(base + gains_of(*entry, day, takes@.take(0)) =~= base);
    }
    while j < takes.len()
        invariant
            j <= takes.len(),
            price == price_of(*entry),
            price <= MAX_PRICE_CENTS,
            takes_priced_in_range(takes@),
            gains_bounded(base),
            sum_sat(base) + takes_total(takes@) <= u64::MAX,
            gains_view(gains@) == base + gains_of(*entry, day, takes@.take(j as int)),
            totals.sums_of(gains_view(gains@)),
        decreases takes.len() - j,
    {
        let take = takes[j];
        let ghost seen = gains_view(gains@);
        let ghost record = gain_of(*entry, day, take);
        proof {
            let done = takes@.take(j as int);
            let next = takes@.take(j + 1);
            let rest = takes@.skip(j + 1);
            assert(next.drop_last() =~= done);
            assert(takes@ =~= next + rest);
            lemma_takes_concat(next, rest);
            lemma_takes_nonnegative(rest);
            lemma_gains_of_takes(*entry, day, done);
            lemma_gains_of_takes(*entry, day, next);
            lemma_sums_concat(base, gains_of(*entry, day, done));
            assert forall|k: int| 0 <= k < done.len() implies (#[trigger] done[k]).unit_price_cents
                <= MAX_PRICE_CENTS by {
                assert(done[k] == takes@[k]);
            }
            assert(gains_bounded(seen)) by {
                let added = gains_of(*entry, day, done);
                assert forall|k: int| 0 <= k < seen.len() implies gain_bounded(
                    #[trigger] seen[k],
                ) by {
                    if k < base.len() {
                        assert(seen[k] == base[k]);
                    } else {
                        assert(seen[k] == added[k - base.len()]);
                    }
                }
            }
            lemma_sum_bounds(seen);
            assert(take.unit_price_cents <= MAX_PRICE_CENTS);
            lemma_gain_bound(*entry, day, take);
            let s = sum_sat(seen);
            let d = take.disposed_sat as int;
            let m = MAX_PRICE_CENTS as int;
            assert(s * m + d * m == (s + d) * m && (s + d) * m <= 0xffff_ffff_ffff_ffff * m)
                by (nonlinear_arith)
                requires
                    0 <= s,
                    0 <= d,
                    s + d <= 0xffff_ffff_ffff_ffff,
                    0 <= m,
            ;
        }
        let cost_basis: u128 = (take.disposed_sat as u128) * (take.unit_price_cents as u128);
        let proceeds: u128 = (take.disposed_sat as u128) * (price as u128);
        let gain: i128 = proceeds as i128 - cost_basis as i128;
        let days = holding_days(take.acquired_day, day);
        let long_term = is_long_term(days);
        gains.push(
            GainLoss {
                sell_date: entry.timestamp.clone(),
                sell_amount_sat: take.disposed_sat,
                sell_price_cents: price,
                cost_basis,
                proceeds,
                gain,
                is_long_term: long_term,
                holding_period_days: days,
            },
        );
        totals.realized = totals.realized + gain;
        if long_term {
            totals.long_term = totals.long_term + gain;
        } else {
            totals.short_term = totals.short_term + gain;
        }
        proof {
            let now = gains_view(gains@);
            assert(now =~= seen.push(record));
            assert(now.drop_last() =~= seen);
            assert(now =~= base + gains_of(*entry, day, takes@.take(j + 1)));
        }
        j += 1;
    }
    proof {
        assert(takes@.take(j as int) =~= takes@);
    }
}

/// Cost basis and realized gains of a ledger whose entries fall on the days given.
///
/// `days[i]` is the day of entry `i`, `None` where its timestamp held no date. The
/// ledger is replayed in the order given; it is not sorted. The year filter picks
/// what is reported and leaves the depletion of lots as it is. A ledger out of
/// range, or days that are not one for each entry, are refused with `BadRequest`.
pub fn cost_basis_with_days(
    entries: &Vec<LedgerEntry>,
    days: &Vec<Option<i32>>,
    method: CostBasisMethod,
    tax_year: Option<i32>,
) -> (result: AppResult<CostBasisResult>)
    ensures
        result is Ok <==> days@.len() == entries@.len() && ledger_in_range(entries@),
        result matches Ok(r) ==> is_cost_basis_of(r, entries@, days@, method, tax_year),
        result matches Ok(r) ==> r.total_disposed_sat + r.remaining_balance_sat == acquired_upto(
            entries@,
            entries@.len(),
        ),
        result matches Ok(r) ==> (tax_year is None ==> sum_sat(gains_view(r.gains@))
            + r.remaining_balance_sat == acquired_upto(entries@, entries@.len())),
        result matches Err(e) ==> e is BadRequest,
{
    if days.len() != entries.len() {
        return Err(AppError::BadRequest(String::from_str("one day is needed for each entry")));
    }
    let acquired = match check_ledger(entries) {
        Some(total) => total,
        None => {
            return Err(
                AppError::BadRequest(
                    String::from_str("ledger amounts or prices exceed the supported range"),
                ),
            );
        },
    };
    let mut lots: Vec<Lot> = Vec::new();
    let mut gains: Vec<GainLoss> = Vec::new();
    let mut totals = Totals { realized: 0, short_term: 0, long_term: 0 };
    let mut i: usize = 0;
    proof {
        assert(gains_view(gains@) =~= Seq::<GainLossView>::empty());
    }
    while i < entries.len()
        invariant
            i <= entries.len(),
            days.len() == entries.len(),
            ledger_in_range(entries@),
            lots@ == lots_upto(entries@, days@, method, i as nat),
            gains_view(gains@) == gains_upto(entries@, days@, method, tax_year, i as nat),
            totals.sums_of(gains_view(gains@)),
        decreases entries.len() - i,
    {
        let entry = &entries[i];
        let day = days[i];
        if entry.entry_type.is_acquisition() {
            lots.push(
                Lot { amount_sat: entry.amount_sat, unit_price_cents: entry.price(), acquired_day: day },
            );
            proof {
                assert(gains_at(entries@, days@, method, tax_year, i as int)
                    =~= Seq::<GainLossView>::empty());
                assert(gains_view(gains@) + Seq::<GainLossView>::empty() =~= gains_view(gains@));
            }
        } else if entry.entry_type.is_disposal() {
            let takes = deplete_lots(&mut lots, entry.amount_sat, method);
            if in_tax_year(entry.timestamp.as_str(), tax_year) {
                proof {
                    lemma_prices_in_range(entries@, days@, method, tax_year, i as nat);
                    lemma_filter_reports_only(entries@, days@, method, tax_year, i as nat);
                    lemma_conservation(entries@, days@, method, (i + 1) as nat);
                    lemma_acquired_monotone(entries@, (i + 1) as nat, entries@.len());
                }
                record_takes(&mut gains, &mut totals, entry, day, &takes);
            } else {
                proof {
                    assert(gains_view(gains@) + Seq::<GainLossView>::empty() =~= gains_view(gains@));
                }
            }
        } else {
            proof {
                assert(gains_at(entries@, days@, method, tax_year, i as int)
                    =~= Seq::<GainLossView>::empty());
                assert(gains_view(gains@) + Seq::<GainLossView>::empty() =~= gains_view(gains@));
            }
        }
        i += 1;
    }
    proof {
        lemma_conservation(entries@, days@, method, entries@.len());
        lemma_prices_in_range(entries@, days@, method, tax_year, entries@.len());
        lemma_filter_reports_only(entries@, days@, method, tax_year, entries@.len());
    }
    let (balance, cost) = summarize_lots(&lots);
    Ok(
        CostBasisResult {
            method: String::from_str(method_name(method)),
            gains,
            total_realized_gain: totals.realized,
            total_short_term_gain: totals.short_term,
            total_long_term_gain: totals.long_term,
            total_disposed_sat: acquired - balance,
            remaining_lots: lots.len(),
            remaining_balance_sat: balance,
            remaining_cost_basis: cost,
        },
    )
}

/// The day of each entry, read from its timestamp.
pub open spec fn entry_days(entries: Seq<LedgerEntry>) -> Seq<Option<i32>> {
    Seq::new(entries.len(), |i: int| timestamp_day_spec(entries[i].timestamp@))
}

/// Reads the day of each entry from its timestamp.
pub fn resolve_days(entries: &Vec<LedgerEntry>) -> (days: Vec<Option<i32>>)
    ensures
        days@ == entry_days(entries@),
{
    let mut days: Vec<Option<i32>> = Vec::new();
    let mut i: usize = 0;
    while i < entries.len()
        invariant
            i <= entries.len(),
            days@ == entry_days(entries@).take(i as int),
        decreases entries.len() - i,
    {
        let day = timestamp_day(entries[i].timestamp.as_str());
        days.push(day);
        proof {
            assert(days@ =~= entry_days(entries@).take(i + 1));
        }
        i += 1;
    }
    proof {
        assert(entry_days(entries@).take(i as int) =~= entry_days(entries@));
    }
    days
}

/// The gain records that a calculation over the whole ledger reports, each entry
/// falling on the day that its timestamp gives.
pub open spec fn reported_gains(
    entries: Seq<LedgerEntry>,
    method: CostBasisMethod,
    tax_year: Option<i32>,
) -> Seq<GainLossView> {
    gains_upto(entries, entry_days(entries), method, tax_year, entries.len())
}

/// The records reported for a ledger in range are bounded, and hold no more
/// satoshis in all than fit a `u64`.
pub proof fn lemma_reported_bounded(
    entries: Seq<LedgerEntry>,
    method: CostBasisMethod,
    tax_year: Option<i32>,
)
    requires
        ledger_in_range(entries),
    ensures
        gains_bounded(reported_gains(entries, method, tax_year)),
        0 <= sum_sat(reported_gains(entries, method, tax_year)) <= u64::MAX,
{
    let days = entry_days(entries);
    lemma_prices_in_range(entries, days, method, tax_year, entries.len());
    lemma_sum_bounds(reported_gains(entries, method, tax_year));
    lemma_filter_reports_only(entries, days, method, tax_year, entries.len());
    lemma_conservation(entries, days, method, entries.len());
}

/// The records reported for a ledger in range have sums of proceeds and of cost
/// bases that fit the widest signed integer.
pub proof fn lemma_reported_sums_fit(
    entries: Seq<LedgerEntry>,
    method: CostBasisMethod,
    tax_year: Option<i32>,
)
    requires
        ledger_in_range(entries),
    ensures
        0 <= sum_proceeds(reported_gains(entries, method, tax_year)) <= i128::MAX,
        0 <= sum_cost_basis(reported_gains(entries, method, tax_year)) <= i128::MAX,
{
    let gains = reported_gains(entries, method, tax_year);
    lemma_reported_bounded(entries, method, tax_year);
    lemma_sum_bounds(gains);
    let s = sum_sat(gains);
    let m = MAX_PRICE_CENTS as int;
    assert(s * m <= 0xffff_ffff_ffff_ffff * m) by (nonlinear_arith)
        requires
            0 <= s <= 0xffff_ffff_ffff_ffff,
            0 <= m,
    ;
}

/// Cost basis and realized gains of a ledger, each entry falling on the day that its
/// timestamp gives.
///
/// The ledger is taken to be in time order and is replayed as given. With a
/// `tax_year`, only disposals whose timestamp begins with that year are reported;
/// all disposals deplete the lots. A disposal that asks for more than the lots hold
/// takes what is there. What was disposed of and what is left add up to what was
/// acquired; without a year filter the gain records hold all that was disposed of.
/// A ledger out of range is refused with `BadRequest`.
pub fn calculate_cost_basis(
    entries: &Vec<LedgerEntry>,
    method: CostBasisMethod,
    tax_year: Option<i32>,
) -> (result: AppResult<CostBasisResult>)
    ensures
        result is Ok <==> ledger_in_range(entries@),
        result matches Ok(r) ==> is_cost_basis_of(
            r,
            entries@,
            entry_days(entries@),
            method,
            tax_year,
        ),
        result matches Ok(r) ==> r.total_disposed_sat + r.remaining_balance_sat == acquired_upto(
            entries@,
            entries@.len(),
        ),
        result matches Ok(r) ==> (tax_year is None ==> sum_sat(gains_view(r.gains@))
            + r.remaining_balance_sat == acquired_upto(entries@, entries@.len())),
        result matches Err(e) ==> e is BadRequest,
{
    let days = resolve_days(entries);
    cost_basis_with_days(entries, &days, method, tax_year)
}

/// A portfolio at a glance, drawn from the calculation without a year filter.
/// Money is in hundred-millionths of a cent.
#[derive(Debug)]
pub struct PortfolioSummary {
    /// Satoshis in the lots still open.
    pub total_balance_sat: u64,
    /// Cost basis of the lots still open.
    pub total_cost_basis: u128,
    /// The balance at the current price.
    pub current_value: u128,
    /// Current value less cost basis.
    pub unrealized_gain: i128,
    /// Sum of all realized gains.
    pub realized_gain: i128,
    /// Satoshis that buys and receipts brought in.
    pub total_received_sat: u64,
    /// Satoshis that sales and sends took out.
    pub total_sent_sat: u64,
    /// Number of ledger entries.
    pub transaction_count: usize,
}

/// Whether a summary can be drawn up: the ledger is in range and the current price
/// is at most `MAX_PRICE_CENTS`.
pub open spec fn summary_in_range(entries: Seq<LedgerEntry>, current_price_cents: u64) -> bool {
    &&& ledger_in_range(entries)
    &&& current_price_cents <= MAX_PRICE_CENTS
}

/// What a summary of `entries` at a price holds. The balance is what the open lots
/// hold, valued at the price; what was sent is what the disposals took.
pub open spec fn is_summary_of(
    summary: PortfolioSummary,
    entries: Seq<LedgerEntry>,
    days: Seq<Option<i32>>,
    method: CostBasisMethod,
    current_price_cents: u64,
) -> bool {
    let open_lots = lots_upto(entries, days, method, entries.len());
    let balance = lots_balance(open_lots);
    let cost = lots_cost_basis(open_lots);
    &&& summary.total_received_sat == acquired_upto(entries, entries.len())
    &&& summary.total_sent_sat == disposed_upto(entries, days, method, entries.len())
    &&& summary.transaction_count == entries.len()
    &&& summary.total_balance_sat == balance
    &&& summary.total_balance_sat == summary.total_received_sat - summary.total_sent_sat
    &&& summary.current_value == balance * current_price_cents
    &&& summary.total_cost_basis == cost
    &&& summary.unrealized_gain == balance * current_price_cents - cost
    &&& summary.realized_gain == sum_gain(gains_upto(entries, days, method, None, entries.len()))
}

/// Puts a summary together from a cost basis calculated without a year filter.
fn summarize(count: usize, current_price_cents: u64, basis: &CostBasisResult) -> (summary:
    PortfolioSummary)
    requires
        current_price_cents <= MAX_PRICE_CENTS,
        basis.remaining_cost_basis <= basis.remaining_balance_sat * MAX_PRICE_CENTS,
        basis.total_disposed_sat + basis.remaining_balance_sat <= u64::MAX,
    ensures
        summary.total_received_sat == basis.total_disposed_sat + basis.remaining_balance_sat,
        summary.total_sent_sat == basis.total_disposed_sat,
        summary.transaction_count == count,
        summary.total_balance_sat == basis.remaining_balance_sat,
        summary.current_value == basis.remaining_balance_sat * current_price_cents,
        summary.total_cost_basis == basis.remaining_cost_basis,
        summary.unrealized_gain == basis.remaining_balance_sat * current_price_cents
            - basis.remaining_cost_basis,
        summary.realized_gain == basis.total_realized_gain,
{
    proof {
        let b = basis.remaining_balance_sat as int;
        let p = current_price_cents as int;
        let m = MAX_PRICE_CENTS as int;
        assert(0 <= b * p <= b * m && b * m <= 0xffff_ffff_ffff_ffff * m) by (nonlinear_arith)
            requires
                0 <= b <= 0xffff_ffff_ffff_ffff,
                0 <= p <= m,
        ;
    }
    let value: u128 = (basis.remaining_balance_sat as u128) * (current_price_cents as u128);
    PortfolioSummary {
        total_balance_sat: basis.remaining_balance_sat,
        total_cost_basis: basis.remaining_cost_basis,
        current_value: value,
        unrealized_gain: value as i128 - basis.remaining_cost_basis as i128,
        realized_gain: basis.total_realized_gain,
        total_received_sat: basis.total_disposed_sat + basis.remaining_balance_sat,
        total_sent_sat: basis.total_disposed_sat,
        transaction_count: count,
    }
}

/// A summary of a portfolio's holdings at the current price: what is still held,
/// its cost basis, its current value, and the unrealized and realized gains. The
/// unrealized gain is the current value less the cost basis of what is held.
/// Inputs out of range are refused with `BadRequest`.
pub fn portfolio_summary(
    entries: &Vec<LedgerEntry>,
    current_price_cents: u64,
    method: CostBasisMethod,
) -> (result: AppResult<PortfolioSummary>)
    ensures
        result is Ok <==> summary_in_range(entries@, current_price_cents),
        result matches Ok(summary) ==> is_summary_of(
            summary,
            entries@,
            entry_days(entries@),
            method,
            current_price_cents,
        ),
        result matches Err(e) ==> e is BadRequest,
{
    let basis = match calculate_cost_basis(entries, method, None) {
        Ok(basis) => basis,
        Err(e) => {
            return Err(e);
        },
    };
    if current_price_cents > MAX_PRICE_CENTS {
        return Err(AppError::BadRequest(String::from_str("price exceeds the supported range")));
    }
    proof {
        let days = entry_days(entries@);
        let open_lots = lots_upto(entries@, days, method, entries@.len());
        lemma_prices_in_range(entries@, days, method, None, entries@.len());
        crate::lots::lemma_cost_basis_bound(open_lots);
        lemma_conservation(entries@, days, method, entries@.len());
    }
    Ok(summarize(entries.len(), current_price_cents, &basis))
}

} // verus!
