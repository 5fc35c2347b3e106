//! The capital-gains report of one tax year and its export as delimited text.
//!
//! The report lists one line per gain record of the year. Money on the report is in
//! whole cents: each exact amount is rounded, halves away from zero. The export
//! closes with a record of totals, each the sum of what the lines above it show.

use vstd::prelude::*;
use vstd::string::*;
use crate::costbasis::{
    calculate_cost_basis, gain_bounded, gains_bounded, gains_view, ledger_in_range,
    lemma_reported_bounded, lemma_reported_sums_fit, lemma_sum_bounds, lemma_sums_concat,
    reported_gains, sum_cost_basis, sum_gain, sum_gain_term, sum_proceeds, sum_sat,
    CostBasisResult, GainLoss, GainLossView, LedgerEntry,
};
use crate::csvout::{csv_document, record_view, rows_uniform, rows_view, write_csv};
use crate::dates::{date_part, leading};
use crate::error::{AppError, AppResult};
use crate::lots::{method_name_spec, CostBasisMethod, MAX_PRICE_CENTS};
use crate::text::{
    btc_text, format_btc, format_cents, lemma_round_to_cents, money_text, round_magnitude,
    round_to_cents, round_to_cents_spec,
};

verus! {

/// One line of the disposal schedule. Money is in cents.
#[derive(Debug)]
pub struct TaxDisposition {
    /// What was disposed of: the amount in bitcoin, to eight places.
    pub description: String,
    /// Always `Various`: one disposal may draw on lots of several dates.
    pub date_acquired: String,
    /// Date of the disposal, without the time of day.
    pub date_sold: String,
    pub proceeds: i128,
    pub cost_basis: i128,
    pub gain_or_loss: i128,
    /// `Short-term` or `Long-term`.
    pub holding_period: String,
    pub holding_days: i64,
}

/// A line of the schedule as mathematics.
pub struct TaxDispositionView {
    pub description: Seq<char>,
    pub date_acquired: Seq<char>,
    pub date_sold: Seq<char>,
    pub proceeds: int,
    pub cost_basis: int,
    pub gain_or_loss: int,
    pub holding_period: Seq<char>,
    pub holding_days: int,
}

impl View for TaxDisposition {
    type V = TaxDispositionView;

    open spec fn view(&self) -> TaxDispositionView {
        TaxDispositionView {
            description: self.description@,
            date_acquired: self.date_acquired@,
            date_sold: self.date_sold@,
            proceeds: self.proceeds as int,
            cost_basis: self.cost_basis as int,
            gain_or_loss: self.gain_or_loss as int,
            holding_period: self.holding_period@,
            holding_days: self.holding_days as int,
        }
    }
}

/// The views of the lines of a schedule.
pub open spec fn dispositions_view(lines: Seq<TaxDisposition>) -> Seq<TaxDispositionView> {
    lines.map_values(|line: TaxDisposition| line@)
}

/// The name of a holding term.
pub open spec fn term_name(long_term: bool) -> Seq<char> {
    if long_term {
        "Long-term"@
    } else {
        "Short-term"@
    }
}

/// The schedule line of a gain record.
pub open spec fn disposition_of(gain: GainLossView) -> TaxDispositionView {
    TaxDispositionView {
        description: btc_text(gain.sell_amount_sat as nat),
        date_acquired: "Various"@,
        date_sold: date_part(gain.sell_date),
        proceeds: round_to_cents_spec(gain.proceeds),
        cost_basis: round_to_cents_spec(gain.cost_basis),
        gain_or_loss: round_to_cents_spec(gain.gain),
        holding_period: term_name(gain.is_long_term),
        holding_days: gain.holding_period_days,
    }
}

/// The schedule of a run of gain records: one line each, in the same order.
pub open spec fn schedule_of(gains: Seq<GainLossView>) -> Seq<TaxDispositionView> {
    gains.map_values(|gain: GainLossView| disposition_of(gain))
}

/// Sum of the proceeds on the lines.
pub open spec fn lines_proceeds(lines: Seq<TaxDispositionView>) -> int
    decreases lines.len(),
{
    if lines.len() == 0 {
        0
    } else {
        lines_proceeds(lines.drop_last()) + lines.last().proceeds
    }
}

/// Sum of the cost bases on the lines.
pub open spec fn lines_cost_basis(lines: Seq<TaxDispositionView>) -> int
    decreases lines.len(),
{
    if lines.len() == 0 {
        0
    } else {
        lines_cost_basis(lines.drop_last()) + lines.last().cost_basis
    }
}

/// Sum of the gains and losses on the lines.
pub open spec fn lines_gain(lines: Seq<TaxDispositionView>) -> int
    decreases lines.len(),
{
    if lines.len() == 0 {
        0
    } else {
        lines_gain(lines.drop_last()) + lines.last().gain_or_loss
    }
}

/// The tax report of one year. Money is in cents.
#[derive(Debug)]
pub struct TaxReport {
    pub year: i32,
    /// Name of the lot-selection method.
    pub method: String,
    /// The year's short-term gains, summed exactly and then rounded.
    pub short_term_gains: i128,
    /// The year's long-term gains, summed exactly and then rounded.
    pub long_term_gains: i128,
    /// The year's gains, summed exactly and then rounded. The export does not show
    /// this figure: its totals are the sums of the lines.
    pub total_gains: i128,
    /// Sum of the proceeds on the lines.
    pub total_proceeds: i128,
    /// Sum of the cost bases on the lines.
    pub total_cost_basis: i128,
    /// Number of lines.
    pub disposition_count: usize,
    /// The disposal schedule.
    pub dispositions: Vec<TaxDisposition>,
}

/// What the report of the gain records `gains` with the exact sums given holds.
pub open spec fn is_tax_report(
    report: TaxReport,
    year: i32,
    method: Seq<char>,
    gains: Seq<GainLossView>,
    realized: int,
    short_term: int,
    long_term: int,
) -> bool {
    let lines = schedule_of(gains);
    &&& report.year == year
    &&& report.method@ == method
    &&& dispositions_view(report.dispositions@) == lines
    &&& report.disposition_count == gains.len()
    &&& report.short_term_gains == round_to_cents_spec(short_term)
    &&& report.long_term_gains == round_to_cents_spec(long_term)
    &&& report.total_gains == round_to_cents_spec(realized)
    &&& report.total_proceeds == lines_proceeds(lines)
    &&& report.total_cost_basis == lines_cost_basis(lines)
}

/// The sums of rounded proceeds and cost bases do not exceed the exact sums.
pub proof fn lemma_lines_bound(gains: Seq<GainLossView>)
    requires
        money_nonnegative(gains),
    ensures
        0 <= lines_proceeds(schedule_of(gains)) <= sum_proceeds(gains),
        0 <= lines_cost_basis(schedule_of(gains)) <= sum_cost_basis(gains),
    decreases gains.len(),
{
    if gains.len() > 0 {
        let front = gains.drop_last();
        assert forall|k: int| 0 <= k < front.len() implies 0 <= (#[trigger] front[k]).proceeds
            && 0 <= front[k].cost_basis by {
            assert(front[k] == gains[k]);
        }
        lemma_lines_bound(front);
        assert(schedule_of(gains).drop_last() =~= schedule_of(front));
        lemma_round_to_cents(gains.last().proceeds);
        lemma_round_to_cents(gains.last().cost_basis);
    }
}

/// The schedule line of a gain record.
pub fn disposition_from(gain: &GainLoss) -> (line: TaxDisposition)
    ensures
        line@ == disposition_of(gain@),
{
    let holding_period = if gain.is_long_term {
        String::from_str("Long-term")
    } else {
        String::from_str("Short-term")
    };
    proof {
        lemma_round_to_cents(gain.proceeds as int);
        lemma_round_to_cents(gain.cost_basis as int);
    }
    let proceeds = round_magnitude(gain.proceeds) as i128;
    let cost_basis = round_magnitude(gain.cost_basis) as i128;
    TaxDisposition {
        description: format_btc(gain.sell_amount_sat),
        date_acquired: String::from_str("Various"),
        date_sold: String::from_str(leading(gain.sell_date.as_str(), 10)),
        proceeds,
        cost_basis,
        gain_or_loss: round_to_cents(gain.gain),
        holding_period,
        holding_days: gain.holding_period_days,
    }
}

/// The sums over the lines of fewer records do not exceed those over more.
pub proof fn lemma_lines_grow(gains: Seq<GainLossView>, k: int)
    requires
        money_nonnegative(gains),
        0 <= k <= gains.len(),
    ensures
        0 <= lines_proceeds(schedule_of(gains.take(k))) <= lines_proceeds(schedule_of(gains)),
        0 <= lines_cost_basis(schedule_of(gains.take(k))) <= lines_cost_basis(schedule_of(gains)),
    decreases gains.len() - k,
{
    let some = gains.take(k);
    assert(money_nonnegative(some)) by {
        assert forall|j: int| 0 <= j < some.len() implies 0 <= (#[trigger] some[j]).proceeds && 0
            <= some[j].cost_basis by {
            assert(some[j] == gains[j]);
        }
    }
    lemma_lines_bound(some);
    if k < gains.len() {
        let more = gains.take(k + 1);
        lemma_lines_grow(gains, k + 1);
        assert(more.drop_last() =~= some);
        assert(schedule_of(more).drop_last() =~= schedule_of(some));
        assert(more.last() == gains[k]);
        lemma_round_to_cents(gains[k].proceeds);
        lemma_round_to_cents(gains[k].cost_basis);
    } else {
        assert(some =~= gains);
    }
}

/// Whether the totals of the report of these records fit the widest signed integer.
pub open spec fn totals_fit(gains: Seq<GainLossView>) -> bool {
    &&& lines_proceeds(schedule_of(gains)) <= i128::MAX
    &&& lines_cost_basis(schedule_of(gains)) <= i128::MAX
}

/// Draws up the report of `year` from a calculated cost basis; `None` where the
/// totals of proceeds or of cost bases do not fit the widest signed integer, which
/// does not happen to a result of `calculate_cost_basis`.
pub fn tax_report_from(result: &CostBasisResult, year: i32) -> (report: Option<TaxReport>)
    ensures
        report is Some <==> totals_fit(gains_view(result.gains@)),
        report matches Some(r) ==> is_tax_report(
            r,
            year,
            result.method@,
            gains_view(result.gains@),
            result.total_realized_gain as int,
            result.total_short_term_gain as int,
            result.total_long_term_gain as int,
        ),
{
    let ghost gains = gains_view(result.gains@);
    let mut dispositions: Vec<TaxDisposition> = Vec::new();
    let mut total_proceeds: i128 = 0;
    let mut total_cost_basis: i128 = 0;
    let mut i: usize = 0;
    proof {
        assert(dispositions_view(dispositions@) =~= schedule_of(gains.take(0)));
        assert(money_nonnegative(gains)) by {
            assert forall|k: int| 0 <= k < gains.len() implies 0 <= (#[trigger] gains[k]).proceeds
                && 0 <= gains[k].cost_basis by {
                assert(gains[k] == result.gains@[k]@);
            }
        }
    }
    while i < result.gains.len()
        invariant
            i <= result.gains.len(),
            gains == gains_view(result.gains@),
            money_nonnegative(gains),
            dispositions_view(dispositions@) == schedule_of(gains.take(i as int)),
            total_proceeds == lines_proceeds(schedule_of(gains.take(i as int))),
            total_cost_basis == lines_cost_basis(schedule_of(gains.take(i as int))),
        decreases result.gains.len() - i,
    {
        let line = disposition_from(&result.gains[i]);
        let ghost lines = dispositions_view(dispositions@);
        let ghost next = gains.take(i + 1);
        proof {
            let done = gains.take(i as int);
            assert(next.drop_last() =~= done);
            assert(next.last() == result.gains@[i as int]@);
            assert(schedule_of(next).drop_last() =~= schedule_of(done));
            assert(schedule_of(next).last() == disposition_of(next.last()));
            lemma_lines_grow(gains, i as int);
            lemma_lines_grow(gains, i + 1);
        }
        if line.proceeds > i128::MAX - total_proceeds || line.cost_basis > i128::MAX
            - total_cost_basis {
            return None;
        }
        total_proceeds = total_proceeds + line.proceeds;
        total_cost_basis = total_cost_basis + line.cost_basis;
        dispositions.push(line);
        proof {
            assert(dispositions_view(dispositions@) =~= lines.push(line@));
            assert(lines.push(line@) =~= schedule_of(next));
        }
        i += 1;
    }
    proof {
        assert(gains.take(i as int) =~= gains);
    }
    Some(
        TaxReport {
            year,
            method: result.method.clone(),
            short_term_gains: round_to_cents(result.total_short_term_gain),
            long_term_gains: round_to_cents(result.total_long_term_gain),
            total_gains: round_to_cents(result.total_realized_gain),
            total_proceeds,
            total_cost_basis,
            disposition_count: dispositions.len(),
            dispositions,
        },
    )
}

/// Whether no record has negative proceeds or a negative cost basis.
pub open spec fn money_nonnegative(gains: Seq<GainLossView>) -> bool {
    forall|k: int|
        0 <= k < gains.len() ==> 0 <= (#[trigger] gains[k]).proceeds && 0 <= gains[k].cost_basis
}

/// The tax report of `year`: the cost basis is calculated under the year filter and
/// drawn up as a schedule with totals. A ledger out of range is refused with
/// `BadRequest`.
pub fn generate_tax_report(entries: &Vec<LedgerEntry>, year: i32, method: CostBasisMethod) -> (result:
    AppResult<TaxReport>)
    ensures
        result is Ok <==> ledger_in_range(entries@),
        result matches Ok(report) ==> is_tax_report(
            report,
            year,
            method_name_spec(method),
            reported_gains(entries@, method, Some(year)),
            sum_gain(reported_gains(entries@, method, Some(year))),
            sum_gain_term(reported_gains(entries@, method, Some(year)), false),
            sum_gain_term(reported_gains(entries@, method, Some(year)), true),
        ),
        result matches Err(e) ==> e is BadRequest,
{
    match calculate_cost_basis(entries, method, Some(year)) {
        Ok(basis) => {
            proof {
                let gains = reported_gains(entries@, method, Some(year));
                lemma_reported_sums_fit(entries@, method, Some(year));
                assert(money_nonnegative(gains)) by {
                    assert forall|k: int| 0 <= k < gains.len() implies 0 <= (
                    #[trigger] gains[k]).proceeds && 0 <= gains[k].cost_basis by {
                        assert(gains[k] == basis.gains@[k]@);
                    }
                }
                lemma_lines_bound(gains);
            }
            match tax_report_from(&basis, year) {
                Some(report) => Ok(report),
                None => Err(AppError::BadRequest(String::from_str("totals out of range"))),
            }
        },
        Err(e) => Err(e),
    }
}

/// The header of the export.
pub open spec fn header_row() -> Seq<Seq<char>> {
    seq![
        "Description"@,
        "Date Acquired"@,
        "Date Sold"@,
        "Proceeds"@,
        "Cost Basis"@,
        "Gain/Loss"@,
        "Term"@,
    ]
}

/// The record of one schedule line: money with two decimal places.
pub open spec fn line_row(line: TaxDispositionView) -> Seq<Seq<char>> {
    seq![
        line.description,
        line.date_acquired,
        line.date_sold,
        money_text(line.proceeds),
        money_text(line.cost_basis),
        money_text(line.gain_or_loss),
        line.holding_period,
    ]
}

/// The closing record: the totals under their columns, the dates and the term blank.
pub open spec fn totals_row(proceeds: int, cost_basis: int, gain: int) -> Seq<Seq<char>> {
    seq![
        "TOTALS"@,
        Seq::empty(),
        Seq::empty(),
        money_text(proceeds),
        money_text(cost_basis),
        money_text(gain),
        Seq::empty(),
    ]
}

/// The records of the export: the header, one record for each line, the totals.
pub open spec fn form_rows(
    lines: Seq<TaxDispositionView>,
    proceeds: int,
    cost_basis: int,
    gain: int,
) -> Seq<Seq<Seq<char>>> {
    seq![header_row()] + lines.map_values(|line: TaxDispositionView| line_row(line)) + seq![
        totals_row(proceeds, cost_basis, gain),
    ]
}

/// The records of the export of a schedule: the totals are the sums of the lines,
/// of their proceeds, of their cost bases and of their gains.
pub open spec fn schedule_rows(lines: Seq<TaxDispositionView>) -> Seq<Seq<Seq<char>>> {
    form_rows(lines, lines_proceeds(lines), lines_cost_basis(lines), lines_gain(lines))
}

/// The export of a schedule has the header first, then the record of each line in
/// order, and last the totals: the sums of the proceeds, of the cost bases and of
/// the gains that the lines show.
pub proof fn lemma_schedule_rows(lines: Seq<TaxDispositionView>)
    ensures
        schedule_rows(lines).len() == lines.len() + 2,
        schedule_rows(lines)[0] == header_row(),
        forall|i: int|
            0 <= i < lines.len() ==> #[trigger] schedule_rows(lines)[i + 1] == line_row(lines[i]),
        schedule_rows(lines)[lines.len() as int + 1] == totals_row(
            lines_proceeds(lines),
            lines_cost_basis(lines),
            lines_gain(lines),
        ),
{
}

/// Whether a number fits the widest signed integer.
pub open spec fn fits(n: int) -> bool {
    i128::MIN <= n <= i128::MAX
}

/// Whether the sums of the lines fit the widest signed integer however far down the
/// schedule they are taken.
pub open spec fn lines_sums_fit(lines: Seq<TaxDispositionView>) -> bool {
    forall|k: int|
        0 <= k <= lines.len() ==> {
            &&& fits(lines_proceeds(#[trigger] lines.take(k)))
            &&& fits(lines_cost_basis(lines.take(k)))
            &&& fits(lines_gain(lines.take(k)))
        }
}

/// The sum of the gains on the lines of bounded records is, in absolute value, at
/// most their satoshis times the largest price: rounding never moves an amount
/// away from zero by more than its own size.
pub proof fn lemma_lines_gain_bound(gains: Seq<GainLossView>)
    requires
        gains_bounded(gains),
    ensures
        -(sum_sat(gains) * MAX_PRICE_CENTS) <= lines_gain(schedule_of(gains)) <= sum_sat(gains)
            * MAX_PRICE_CENTS,
    decreases gains.len(),
{
    if gains.len() > 0 {
        let front = gains.drop_last();
        assert forall|k: int| 0 <= k < front.len() implies gain_bounded(#[trigger] front[k]) by {
            assert(front[k] == gains[k]);
        }
        lemma_lines_gain_bound(front);
        assert(schedule_of(gains).drop_last() =~= schedule_of(front));
        assert(gain_bounded(gains[gains.len() - 1]));
        lemma_round_to_cents(gains.last().gain);
        let s = sum_sat(front);
        let d = gains.last().sell_amount_sat;
        let m = MAX_PRICE_CENTS as int;
        assert((s + d) * m == s * m + d * m) by (nonlinear_arith);
    }
}

/// The sums of the schedule of bounded records that hold no more satoshis than fit
/// a `u64` fit, however far down they are taken.
pub proof fn lemma_schedule_sums_fit(gains: Seq<GainLossView>)
    requires
        gains_bounded(gains),
        sum_sat(gains) <= u64::MAX,
    ensures
        lines_sums_fit(schedule_of(gains)),
{
    let lines = schedule_of(gains);
    assert forall|k: int| 0 <= k <= lines.len() implies {
        &&& fits(lines_proceeds(#[trigger] lines.take(k)))
        &&& fits(lines_cost_basis(lines.take(k)))
        &&& fits(lines_gain(lines.take(k)))
    } by {
        let some = gains.take(k);
        let rest = gains.skip(k);
        assert(lines.take(k) =~= schedule_of(some));
        assert(gains =~= some + rest);
        assert(gains_bounded(some)) by {
            assert forall|j: int| 0 <= j < some.len() implies gain_bounded(#[trigger] some[j]) by {
                assert(some[j] == gains[j]);
            }
        }
        assert(gains_bounded(rest)) by {
            assert forall|j: int| 0 <= j < rest.len() implies gain_bounded(#[trigger] rest[j]) by {
                assert(rest[j] == gains[k + j]);
            }
        }
        assert(money_nonnegative(some)) by {
            assert forall|j: int| 0 <= j < some.len() implies 0 <= (#[trigger] some[j]).proceeds
                && 0 <= some[j].cost_basis by {
                assert(gain_bounded(some[j]));
            }
        }
        lemma_sums_concat(some, rest);
        lemma_sum_bounds(some);
        lemma_sum_bounds(rest);
        lemma_lines_bound(some);
        lemma_lines_gain_bound(some);
        let s = sum_sat(some);
        let m = MAX_PRICE_CENTS as int;
        assert(s * m <= 0xffff_ffff_ffff_ffff * m) by (nonlinear_arith)
            requires
                0 <= s <= 0xffff_ffff_ffff_ffff,
                0 <= m,
        ;
    }
}

/// Every record of the export has seven fields.
pub proof fn lemma_form_rows_uniform(
    lines: Seq<TaxDispositionView>,
    proceeds: int,
    cost_basis: int,
    gain: int,
)
    ensures
        rows_uniform(form_rows(lines, proceeds, cost_basis, gain)),
        form_rows(lines, proceeds, cost_basis, gain).len() == lines.len() + 2,
        forall|i: int|
            0 <= i < lines.len() + 2 ==> (#[trigger] form_rows(
                lines,
                proceeds,
                cost_basis,
                gain,
            )[i]).len() == 7,
{
    let rows = form_rows(lines, proceeds, cost_basis, gain);
    assert forall|i: int| 0 <= i < rows.len() implies (#[trigger] rows[i]).len() == 7 by {
        if i == 0 {
            assert(rows[i] == header_row());
        } else if i <= lines.len() {
            assert(rows[i] == line_row(lines[i - 1]));
        } else {
            assert(rows[i] == totals_row(proceeds, cost_basis, gain));
        }
    }
}

fn header_record() -> (row: Vec<String>)
    ensures
        record_view(row@) == header_row(),
{
    let mut row: Vec<String> = Vec::new();
    row.push(String::from_str("Description"));
    row.push(String::from_str("Date Acquired"));
    row.push(String::from_str("Date Sold"));
    row.push(String::from_str("Proceeds"));
    row.push(String::from_str("Cost Basis"));
    row.push(String::from_str("Gain/Loss"));
    row.push(String::from_str("Term"));
    assert(record_view(row@) =~= header_row());
    row
}

fn line_record(line: &TaxDisposition) -> (row: Vec<String>)
    ensures
        record_view(row@) == line_row(line@),
{
    let mut row: Vec<String> = Vec::new();
    row.push(line.description.clone());
    row.push(line.date_acquired.clone());
    row.push(line.date_sold.clone());
    row.push(format_cents(line.proceeds));
    row.push(format_cents(line.cost_basis));
    row.push(format_cents(line.gain_or_loss));
    row.push(line.holding_period.clone());
    assert(record_view(row@) =~= line_row(line@));
    row
}

fn totals_record(proceeds: i128, cost_basis: i128, gain: i128) -> (row: Vec<String>)
    ensures
        record_view(row@) == totals_row(proceeds as int, cost_basis as int, gain as int),
{
    let mut row: Vec<String> = Vec::new();
    row.push(String::from_str("TOTALS"));
    row.push(String::new());
    row.push(String::new());
    row.push(format_cents(proceeds));
    row.push(format_cents(cost_basis));
    row.push(format_cents(gain));
    row.push(String::new());
    assert(record_view(row@) =~= totals_row(proceeds as int, cost_basis as int, gain as int));
    row
}

/// The sum of two numbers; `None` where it does not fit.
fn sum_checked(a: i128, b: i128) -> (sum: Option<i128>)
    ensures
        sum is Some <==> fits(a + b),
        sum matches Some(n) ==> n == a + b,
{
    if b >= 0 {
        if a > i128::MAX - b {
            None
        } else {
            Some(a + b)
        }
    } else {
        if a < i128::MIN - b {
            None
        } else {
            Some(a + b)
        }
    }
}

/// The records of the export of a report: the header, one record for each line of
/// the schedule, and the record of totals, which sums the lines. `None` where a sum
/// of the lines does not fit the widest signed integer, which does not happen to a
/// report of `generate_tax_report`.
pub fn form_8949_rows(report: &TaxReport) -> (rows: Option<Vec<Vec<String>>>)
    ensures
        rows is Some <==> lines_sums_fit(dispositions_view(report.dispositions@)),
        rows matches Some(r) ==> rows_view(r@) == schedule_rows(
            dispositions_view(report.dispositions@),
        ),
{
    let ghost lines = dispositions_view(report.dispositions@);
    let mut rows: Vec<Vec<String>> = Vec::new();
    rows.push(header_record());
    let mut proceeds: i128 = 0;
    let mut cost_basis: i128 = 0;
    let mut gain: i128 = 0;
    let mut i: usize = 0;
    proof {
        assert(rows_view(rows@) =~= seq![header_row()] + lines.take(0).map_values(
            |line: TaxDispositionView| line_row(line),
        ));
    }
    while i < report.dispositions.len()
        invariant
            i <= report.dispositions.len(),
            lines == dispositions_view(report.dispositions@),
            rows_view(rows@) == seq![header_row()] + lines.take(i as int).map_values(
                |line: TaxDispositionView| line_row(line),
            ),
            proceeds == lines_proceeds(lines.take(i as int)),
            cost_basis == lines_cost_basis(lines.take(i as int)),
            gain == lines_gain(lines.take(i as int)),
            forall|k: int|
                0 <= k <= i ==> {
                    &&& fits(lines_proceeds(#[trigger] lines.take(k)))
                    &&& fits(lines_cost_basis(lines.take(k)))
                    &&& fits(lines_gain(lines.take(k)))
                },
        decreases report.dispositions.len() - i,
    {
        let ghost before = rows_view(rows@);
        let line = &report.dispositions[i];
        proof {
            assert(lines.take(i + 1).drop_last() =~= lines.take(i as int));
            assert(lines.take(i + 1).last() == line@);
        }
        let sums = (
            sum_checked(proceeds, line.proceeds),
            sum_checked(cost_basis, line.cost_basis),
            sum_checked(gain, line.gain_or_loss),
        );
        match sums {
            (Some(p), Some(c), Some(g)) => {
                proceeds = p;
                cost_basis = c;
                gain = g;
            },
            _ => {
                return None;
            },
        }
        rows.push(line_record(line));
        proof {
            assert(rows_view(rows@) =~= before.push(line_row(lines[i as int])));
            assert(before.push(line_row(lines[i as int])) =~= seq![header_row()] + lines.take(
                i + 1,
            ).map_values(|line: TaxDispositionView| line_row(line)));
        }
        i += 1;
    }
    let ghost before = rows_view(rows@);
    rows.push(totals_record(proceeds, cost_basis, gain));
    proof {
        assert(lines.take(i as int) =~= lines);
        assert(rows_view(rows@) =~= before.push(
            totals_row(proceeds as int, cost_basis as int, gain as int),
        ));
        assert(rows_view(rows@) =~= schedule_rows(lines));
    }
    Some(rows)
}

/// The export of a report as delimited text: the text whose bytes are those of the
/// schedule's records in order, the last of them the sums of the lines. A report
/// whose lines have sums that do not fit is refused with `BadRequest`.
pub fn form_8949_csv(report: &TaxReport) -> (result: AppResult<String>)
    ensures
        result is Ok <==> lines_sums_fit(dispositions_view(report.dispositions@)),
        result matches Ok(text) ==> vstd::utf8::encode_utf8(text@) == csv_document(
            schedule_rows(dispositions_view(report.dispositions@)),
        ),
        result matches Err(e) ==> e is BadRequest,
{
    let rows = match form_8949_rows(report) {
        Some(rows) => rows,
        None => {
            return Err(AppError::BadRequest(String::from_str("totals out of range")));
        },
    };
    proof {
        let lines = dispositions_view(report.dispositions@);
        lemma_form_rows_uniform(
            lines,
            lines_proceeds(lines),
            lines_cost_basis(lines),
            lines_gain(lines),
        );
    }
    match write_csv(&rows) {
        Ok(text) => Ok(text),
        Err(_) => Err(AppError::BadRequest(String::from_str("records of unequal length"))),
    }
}

/// The records of the export of `year` for a ledger.
pub open spec fn year_rows(entries: Seq<LedgerEntry>, year: i32, method: CostBasisMethod) -> Seq<
    Seq<Seq<char>>,
> {
    schedule_rows(schedule_of(reported_gains(entries, method, Some(year))))
}

/// The export of `year` for a ledger, as delimited text.
///
/// It succeeds for every ledger in range, and then the text has the bytes of the
/// year's records in order: the header, a record for each line of the schedule, and
/// the totals, which are the sums of the lines as they are printed. A ledger out
/// of range is refused with `BadRequest`.
pub fn generate_form_8949_csv(
    entries: &Vec<LedgerEntry>,
    year: i32,
    method: CostBasisMethod,
) -> (result: AppResult<String>)
    ensures
        result is Ok <==> ledger_in_range(entries@),
        result matches Ok(text) ==> vstd::utf8::encode_utf8(text@) == csv_document(
            year_rows(entries@, year, method),
        ),
        result matches Err(e) ==> e is BadRequest,
{
    match generate_tax_report(entries, year, method) {
        Ok(report) => {
            proof {
                lemma_reported_bounded(entries@, method, Some(year));
                lemma_schedule_sums_fit(reported_gains(entries@, method, Some(year)));
            }
            form_8949_csv(&report)
        },
        Err(e) => Err(e),
    }
}

} // verus!
