//! What callers send, and the rules a request must meet before anything is stored.

use vstd::prelude::*;
use vstd::string::*;
use crate::costbasis::EntryType;
use crate::error::{AppError, AppResult};
use crate::invoice::{parse_status_spec, InvoiceStatus};
use crate::lots::{method_name, method_name_spec, CostBasisMethod};
use crate::text::{decimal, magnitude, magnitude_of, push_decimal, same_text};

verus! {

/// The method asked for, first-in-first-out where none was.
pub open spec fn method_or_default(method: Option<CostBasisMethod>) -> CostBasisMethod {
    match method {
        Some(m) => m,
        None => CostBasisMethod::Fifo,
    }
}

/// Query of a tax report or its export.
#[derive(Debug)]
pub struct TaxQuery {
    pub year: i32,
    pub method: Option<CostBasisMethod>,
}

impl TaxQuery {
    /// The method to use.
    pub fn method(&self) -> (m: CostBasisMethod)
        ensures
            m == method_or_default(self.method),
    {
        match self.method {
            Some(m) => m,
            None => CostBasisMethod::Fifo,
        }
    }
}

/// Query of a cost-basis calculation.
#[derive(Debug)]
pub struct CostBasisQuery {
    pub method: Option<CostBasisMethod>,
    pub year: Option<i32>,
}

impl CostBasisQuery {
    /// The method to use.
    pub fn method(&self) -> (m: CostBasisMethod)
        ensures
            m == method_or_default(self.method),
    {
        match self.method {
            Some(m) => m,
            None => CostBasisMethod::Fifo,
        }
    }
}

/// Query of a portfolio summary.
#[derive(Debug)]
pub struct SummaryQuery {
    pub method: Option<CostBasisMethod>,
}

impl SummaryQuery {
    /// The method to use.
    pub fn method(&self) -> (m: CostBasisMethod)
        ensures
            m == method_or_default(self.method),
    {
        match self.method {
            Some(m) => m,
            None => CostBasisMethod::Fifo,
        }
    }
}

/// A whole number in decimal, with a minus sign where it is negative.
pub open spec fn integer_text(n: int) -> Seq<char> {
    if n < 0 {
        seq!['-'] + decimal(magnitude(n))
    } else {
        decimal(magnitude(n))
    }
}

/// The file name under which the export of a year is offered.
pub open spec fn export_file_name_spec(year: i32, method: CostBasisMethod) -> Seq<char> {
    "form_8949_"@ + integer_text(year as int) + "_"@ + method_name_spec(method) + ".csv"@
}

/// The file name under which the export of a year is offered:
/// `form_8949_2024_fifo.csv`.
pub fn export_file_name(year: i32, method: CostBasisMethod) -> (name: String)
    ensures
        name@ == export_file_name_spec(year, method),
{
    let mut name = String::from_str("form_8949_");
    proof {
        reveal_strlit("-");
    }
    if year < 0 {
        name.append("-");
    }
    push_decimal(&mut name, magnitude_of(year as i128));
    name.append("_");
    name.append(method_name(method));
    name.append(".csv");
    proof {
        assert("-"@ =~= seq!['-']);
        assert(name@ =~= export_file_name_spec(year, method));
    }
    name
}

/// The slice of a list to return.
#[derive(Clone, Copy, Debug, PartialEq, Eq, Structural)]
pub struct Page {
    pub limit: i64,
    pub offset: i64,
}

/// The page asked for: 50 entries where no limit was given, never more than 200,
/// from the start where no offset was given.
pub open spec fn page_spec(limit: Option<i64>, offset: Option<i64>) -> Page {
    let wanted = match limit {
        Some(n) => n,
        None => 50,
    };
    Page {
        limit: if wanted > 200 {
            200
        } else {
            wanted
        },
        offset: match offset {
            Some(n) => n,
            None => 0,
        },
    }
}

/// The page asked for.
pub fn page_of(limit: Option<i64>, offset: Option<i64>) -> (page: Page)
    ensures
        page == page_spec(limit, offset),
{
    let wanted = match limit {
        Some(n) => n,
        None => 50,
    };
    Page {
        limit: if wanted > 200 {
            200
        } else {
            wanted
        },
        offset: match offset {
            Some(n) => n,
            None => 0,
        },
    }
}

/// Query of a list of invoices.
#[derive(Debug)]
pub struct ListInvoicesQuery {
    pub record_type: Option<String>,
    pub status: Option<String>,
    pub limit: Option<i64>,
    pub offset: Option<i64>,
}

impl ListInvoicesQuery {
    /// The page asked for.
    pub fn page(&self) -> (page: Page)
        ensures
            page == page_spec(self.limit, self.offset),
    {
        page_of(self.limit, self.offset)
    }

    /// The filters of the query, in the order in which they bind: the record type,
    /// then the status, each where it was given.
    pub fn filters(&self) -> (filters: Vec<Filter>)
        ensures
            filters_view(filters@) == optional_filter("type"@, self.record_type) + optional_filter(
                "status"@,
                self.status,
            ),
    {
        two_filters("type", &self.record_type, "status", &self.status)
    }
}

/// Query of a list of transactions.
#[derive(Debug)]
pub struct ListTransactionsQuery {
    pub limit: Option<i64>,
    pub offset: Option<i64>,
    pub tx_type: Option<String>,
    pub wallet_id: Option<String>,
}

impl ListTransactionsQuery {
    /// The page asked for.
    pub fn page(&self) -> (page: Page)
        ensures
            page == page_spec(self.limit, self.offset),
    {
        page_of(self.limit, self.offset)
    }

    /// The filters of the query, in the order in which they bind: the transaction
    /// type, then the wallet, each where it was given.
    pub fn filters(&self) -> (filters: Vec<Filter>)
        ensures
            filters_view(filters@) == optional_filter("tx_type"@, self.tx_type) + optional_filter(
                "wallet_id"@,
                self.wallet_id,
            ),
    {
        two_filters("tx_type", &self.tx_type, "wallet_id", &self.wallet_id)
    }
}

/// One equality filter of a list query: a column and the value it must have.
#[derive(Debug)]
pub struct Filter {
    pub column: String,
    pub value: String,
}

/// Filters as mathematics: pairs of column and value.
pub open spec fn filters_view(filters: Seq<Filter>) -> Seq<(Seq<char>, Seq<char>)> {
    filters.map_values(|f: Filter| (f.column@, f.value@))
}

/// The filter on `column` that an optional value gives: one where there is a value,
/// none where there is not.
pub open spec fn optional_filter(column: Seq<char>, value: Option<String>) -> Seq<
    (Seq<char>, Seq<char>),
> {
    match value {
        Some(v) => seq![(column, v@)],
        None => Seq::empty(),
    }
}

fn two_filters(
    first_column: &str,
    first: &Option<String>,
    second_column: &str,
    second: &Option<String>,
) -> (filters: Vec<Filter>)
    ensures
        filters_view(filters@) == optional_filter(first_column@, *first) + optional_filter(
            second_column@,
            *second,
        ),
{
    let mut filters: Vec<Filter> = Vec::new();
    match first {
        Some(value) => {
            filters.push(Filter { column: String::from_str(first_column), value: value.clone() });
        },
        None => {},
    }
    match second {
        Some(value) => {
            filters.push(Filter { column: String::from_str(second_column), value: value.clone() });
        },
        None => {},
    }
    proof {
        assert(filters_view(filters@) =~= optional_filter(first_column@, *first) + optional_filter(
            second_column@,
            *second,
        ));
    }
    filters
}

/// The condition of a list query over the first `n` filters. The portfolio binds as
/// parameter 1 and filter `k`, counted from 0, as parameter `k + 2`.
pub open spec fn where_clause_spec(filters: Seq<(Seq<char>, Seq<char>)>, n: nat) -> Seq<char>
    decreases n,
{
    if n == 0 {
        "WHERE portfolio_id = ?1"@
    } else {
        where_clause_spec(filters, (n - 1) as nat) + " AND "@ + filters[n - 1].0 + " = ?"@
            + decimal(n + 1)
    }
}

/// The condition and the parameter numbers of a list query.
#[derive(Debug)]
pub struct ListCondition {
    /// The condition, with its parameters numbered.
    pub where_clause: String,
    /// Number of the parameter that binds the limit.
    pub limit_index: u128,
    /// Number of the parameter that binds the offset.
    pub offset_index: u128,
}

/// Composes the condition of a list query from its filters. The parameters bind in
/// this order: the portfolio, the filters' values, the limit, the offset.
pub fn list_condition(filters: &Vec<Filter>) -> (condition: ListCondition)
    ensures
        condition.where_clause@ == where_clause_spec(filters_view(filters@), filters@.len()),
        condition.limit_index == filters@.len() + 2,
        condition.offset_index == filters@.len() + 3,
{
    let mut clause = String::from_str("WHERE portfolio_id = ?1");
    let mut i: usize = 0;
    while i < filters.len()
        invariant
            i <= filters.len(),
            clause@ == where_clause_spec(filters_view(filters@), i as nat),
        decreases filters.len() - i,
    {
        let ghost before = clause@;
        clause.append(" AND ");
        clause.append(filters[i].column.as_str());
        clause.append(" = ?");
        push_decimal(&mut clause, i as u128 + 2);
        proof {
            assert(filters_view(filters@)[i as int].0 == filters@[i as int].column@);
            assert(clause@ =~= before + " AND "@ + filters@[i as int].column@ + " = ?"@ + decimal(
                (i + 2) as nat,
            ));
        }
        i += 1;
    }
    ListCondition { where_clause: clause, limit_index: i as u128 + 2, offset_index: i as u128 + 3 }
}

/// A refusal of a request, with the text shown to the caller.
pub fn bad_request(message: &str) -> (error: AppError)
    ensures
        error matches AppError::BadRequest(text) && text@ == message@,
{
    AppError::BadRequest(String::from_str(message))
}

/// Whether a validation ended as its rule says: accepted where the rule has no
/// complaint, refused as a bad request with the rule's complaint otherwise.
pub open spec fn judged(result: AppResult<()>, complaint: Option<Seq<char>>) -> bool {
    match complaint {
        Some(message) => result matches Err(AppError::BadRequest(text)) && text@ == message,
        None => result is Ok,
    }
}

fn judge(complaint: Option<&'static str>) -> (result: AppResult<()>)
    ensures
        judged(
            result,
            match complaint {
                Some(m) => Some(m@),
                None => None,
            },
        ),
{
    match complaint {
        Some(message) => Err(bad_request(message)),
        None => Ok(()),
    }
}

/// Whether the text holds the character.
pub fn has_char(text: &str, wanted: char) -> (found: bool)
    ensures
        found == text@.contains(wanted),
{
    let n = text.unicode_len();
    let mut i: usize = 0;
    while i < n
        invariant
            i <= n,
            n == text@.len(),
            forall|k: int| 0 <= k < i ==> text@[k] != wanted,
        decreases n - i,
    {
        if text.get_char(i) == wanted {
            return true;
        }
        i += 1;
    }
    false
}

/// How often the character occurs among the first `n` characters of the text.
pub open spec fn occurrences(text: Seq<char>, wanted: char, n: nat) -> nat
    decreases n,
{
    if n == 0 {
        0
    } else {
        occurrences(text, wanted, (n - 1) as nat) + if text[n - 1] == wanted {
            1nat
        } else {
            0nat
        }
    }
}

/// How often the character occurs in the text.
pub fn count_char(text: &str, wanted: char) -> (count: usize)
    ensures
        count == occurrences(text@, wanted, text@.len()),
{
    let n = text.unicode_len();
    let mut count: usize = 0;
    let mut i: usize = 0;
    while i < n
        invariant
            i <= n,
            n == text@.len(),
            count == occurrences(text@, wanted, i as nat),
            count <= i,
        decreases n - i,
    {
        if text.get_char(i) == wanted {
            count += 1;
        }
        i += 1;
    }
    count
}

/// A request to open an account.
#[derive(Debug)]
pub struct RegisterRequest {
    pub email: String,
    pub name: String,
    pub password: String,
}

/// What is wrong with a registration, the first of: an email that is empty or has
/// no `@`, an empty name, a password of fewer than 8 bytes.
pub open spec fn registration_complaint(request: RegisterRequest) -> Option<Seq<char>> {
    if request.email@.len() == 0 || !request.email@.contains('@') {
        Some("Invalid email address"@)
    } else if request.name@.len() == 0 {
        Some("Name is required"@)
    } else if vstd::utf8::encode_utf8(request.password@).len() < 8 {
        Some("Password must be at least 8 characters"@)
    } else {
        None
    }
}

impl RegisterRequest {
    /// Accepts the request or says what is wrong with it.
    pub fn validate(&self) -> (result: AppResult<()>)
        ensures
            judged(result, registration_complaint(*self)),
    {
        if self.email.as_str().is_empty() || !has_char(self.email.as_str(), '@') {
            judge(Some("Invalid email address"))
        } else if self.name.as_str().is_empty() {
            judge(Some("Name is required"))
        } else if self.password.as_str().as_bytes().len() < 8 {
            judge(Some("Password must be at least 8 characters"))
        } else {
            judge(None)
        }
    }
}

/// A request to sign in.
#[derive(Debug)]
pub struct LoginRequest {
    pub email: String,
    pub password: String,
}

/// A request to confirm an email address.
#[derive(Debug)]
pub struct VerifyEmailRequest {
    pub token: String,
}

/// A request to send the confirmation link again.
#[derive(Debug)]
pub struct ResendVerificationRequest {
    pub email: String,
}

/// A change to an invoice. Fields left out keep their value.
#[derive(Debug)]
pub struct UpdateInvoiceRequest {
    pub status: Option<String>,
    pub customer_name: Option<String>,
    pub customer_email: Option<String>,
    pub description: Option<String>,
    pub due_at: Option<String>,
    pub expires_at: Option<String>,
}

/// Whether the change names a status that does not exist.
pub open spec fn names_unknown_status(request: UpdateInvoiceRequest) -> bool {
    request.status matches Some(name) && parse_status_spec(name@) is None
}

impl UpdateInvoiceRequest {
    /// The status that the change asks for, `None` where it asks for none. A name
    /// that is no status is refused.
    pub fn status(&self) -> (result: AppResult<Option<InvoiceStatus>>)
        ensures
            result is Ok <==> !names_unknown_status(*self),
            result matches Ok(wanted) ==> wanted == match self.status {
                Some(name) => parse_status_spec(name@),
                None => None,
            },
            result matches Err(e) ==> e matches AppError::BadRequest(text) && text@
                == "Invalid status. Must be one of: draft, sent, paid, expired, cancelled"@,
    {
        match &self.status {
            Some(name) => match InvoiceStatus::parse(name.as_str()) {
                Some(status) => Ok(Some(status)),
                None => Err(
                    bad_request(
                        "Invalid status. Must be one of: draft, sent, paid, expired, cancelled",
                    ),
                ),
            },
            None => Ok(None),
        }
    }
}

/// The type of entry that a name stands for, `None` for any other text.
pub open spec fn parse_entry_type_spec(name: Seq<char>) -> Option<EntryType> {
    if name == "buy"@ {
        Some(EntryType::Buy)
    } else if name == "sell"@ {
        Some(EntryType::Sell)
    } else if name == "receive"@ {
        Some(EntryType::Receive)
    } else if name == "send"@ {
        Some(EntryType::Send)
    } else if name == "transfer"@ {
        Some(EntryType::Transfer)
    } else {
        None
    }
}

/// Reads the type of a ledger entry from its name.
pub fn parse_entry_type(name: &str) -> (entry_type: Option<EntryType>)
    ensures
        entry_type == parse_entry_type_spec(name@),
{
    if same_text(name, "buy") {
        Some(EntryType::Buy)
    } else if same_text(name, "sell") {
        Some(EntryType::Sell)
    } else if same_text(name, "receive") {
        Some(EntryType::Receive)
    } else if same_text(name, "send") {
        Some(EntryType::Send)
    } else if same_text(name, "transfer") {
        Some(EntryType::Transfer)
    } else {
        None
    }
}

/// The type under which a stored entry is replayed: a name that is none of the five
/// moves nothing, like a transfer.
pub fn entry_type_of(name: &str) -> (entry_type: EntryType)
    ensures
        entry_type == match parse_entry_type_spec(name@) {
            Some(t) => t,
            None => EntryType::Transfer,
        },
{
    match parse_entry_type(name) {
        Some(t) => t,
        None => EntryType::Transfer,
    }
}

/// Accepts the type of a new ledger entry or refuses the request.
pub fn validate_entry_type(name: &str) -> (result: AppResult<EntryType>)
    ensures
        match result {
            Ok(t) => parse_entry_type_spec(name@) == Some(t),
            Err(e) => {
                &&& parse_entry_type_spec(name@) is None
                &&& e matches AppError::BadRequest(text) && text@
                    == "Invalid tx_type. Must be one of: buy, sell, receive, send, transfer"@
            },
        },
{
    match parse_entry_type(name) {
        Some(t) => Ok(t),
        None => Err(
            bad_request("Invalid tx_type. Must be one of: buy, sell, receive, send, transfer"),
        ),
    }
}

/// Query of the current price.
#[derive(Debug)]
pub struct CurrentPriceQuery {
    pub currency: Option<String>,
}

/// Query of the price on a day.
#[derive(Debug)]
pub struct HistoricalPriceQuery {
    pub date: String,
    pub currency: Option<String>,
}

/// Query of the prices of a range of days.
#[derive(Debug)]
pub struct PriceRangeQuery {
    pub start: String,
    pub end: String,
    pub currency: Option<String>,
}

/// Request to fetch the prices that the ledger lacks.
#[derive(Debug)]
pub struct BackfillQuery {
    pub currency: Option<String>,
}

/// How many prices a backfill fetched.
#[derive(Debug)]
pub struct BackfillResponse {
    pub fetched: usize,
}

/// The currency asked for, `usd` where none was.
pub open spec fn currency_spec(currency: Option<String>) -> Seq<char> {
    match currency {
        Some(c) => c@,
        None => "usd"@,
    }
}

/// The currency asked for, `usd` where none was.
pub fn currency_or_default(currency: &Option<String>) -> (chosen: String)
    ensures
        chosen@ == currency_spec(*currency),
{
    match currency {
        Some(c) => c.clone(),
        None => String::from_str("usd"),
    }
}

impl CurrentPriceQuery {
    /// The currency asked for, `usd` where none was.
    pub fn currency(&self) -> (chosen: String)
        ensures
            chosen@ == currency_spec(self.currency),
    {
        currency_or_default(&self.currency)
    }
}

impl PriceRangeQuery {
    /// The currency asked for, `usd` where none was.
    pub fn currency(&self) -> (chosen: String)
        ensures
            chosen@ == currency_spec(self.currency),
    {
        currency_or_default(&self.currency)
    }
}

impl BackfillQuery {
    /// The currency asked for, `usd` where none was.
    pub fn currency(&self) -> (chosen: String)
        ensures
            chosen@ == currency_spec(self.currency),
    {
        currency_or_default(&self.currency)
    }
}

/// Whether a date has the shape of `YYYY-MM-DD`: ten bytes and two hyphens.
pub open spec fn date_shaped(date: Seq<char>) -> bool {
    vstd::utf8::encode_utf8(date).len() == 10 && occurrences(date, '-', date.len()) == 2
}

impl HistoricalPriceQuery {
    /// The currency asked for, `usd` where none was.
    pub fn currency(&self) -> (chosen: String)
        ensures
            chosen@ == currency_spec(self.currency),
    {
        currency_or_default(&self.currency)
    }

    /// Accepts the query or refuses its date.
    pub fn validate(&self) -> (result: AppResult<()>)
        ensures
            judged(
                result,
                if date_shaped(self.date@) {
                    None
                } else {
                    Some("Date must be in YYYY-MM-DD format"@)
                },
            ),
    {
        if self.date.as_str().as_bytes().len() != 10 || count_char(self.date.as_str(), '-') != 2 {
            judge(Some("Date must be in YYYY-MM-DD format"))
        } else {
            judge(None)
        }
    }
}

/// A request to draw up an invoice or a payment link. Fiat amounts are in cents.
#[derive(Debug)]
pub struct CreateInvoiceRequest {
    pub portfolio_id: String,
    pub record_type: Option<String>,
    pub reusable: Option<bool>,
    pub invoice_number: Option<String>,
    pub customer_name: Option<String>,
    pub customer_email: Option<String>,
    pub description: Option<String>,
    pub amount_sat: Option<i64>,
    pub amount_fiat_cents: Option<i64>,
    pub fiat_currency: Option<String>,
    pub btc_price_cents: Option<u64>,
    pub btc_address: String,
    pub wallet_id: Option<String>,
    pub due_at: Option<String>,
    pub expires_at: Option<String>,
}

/// Whether an optional text is missing or empty.
pub open spec fn blank(text: Option<String>) -> bool {
    match text {
        Some(t) => t@.len() == 0,
        None => true,
    }
}

fn is_blank(text: &Option<String>) -> (yes: bool)
    ensures
        yes == blank(*text),
{
    match text {
        Some(t) => t.as_str().is_empty(),
        None => true,
    }
}

/// The kind of record that the request asks for, `invoice` where it names none.
pub open spec fn record_type_spec(request: CreateInvoiceRequest) -> Seq<char> {
    match request.record_type {
        Some(t) => t@,
        None => "invoice"@,
    }
}

/// What is wrong with a request for an invoice, the first of: for an invoice, a
/// missing number, a missing customer name, an amount that is not positive; a kind
/// that is neither invoice nor payment link; an empty address.
pub open spec fn invoice_complaint(request: CreateInvoiceRequest) -> Option<Seq<char>> {
    let kind = record_type_spec(request);
    if kind == "invoice"@ && blank(request.invoice_number) {
        Some("Invoice number is required"@)
    } else if kind == "invoice"@ && blank(request.customer_name) {
        Some("Customer name is required"@)
    } else if kind == "invoice"@ && !(request.amount_sat matches Some(amount) && amount > 0) {
        Some("Amount must be positive"@)
    } else if kind != "invoice"@ && kind != "payment_link"@ {
        Some("type must be 'invoice' or 'payment_link'"@)
    } else if request.btc_address@.len() == 0 {
        Some("BTC address is required"@)
    } else {
        None
    }
}

impl CreateInvoiceRequest {
    /// The kind of record asked for.
    pub fn record_type(&self) -> (kind: String)
        ensures
            kind@ == record_type_spec(*self),
    {
        match &self.record_type {
            Some(t) => t.clone(),
            None => String::from_str("invoice"),
        }
    }

    /// Accepts the request or says what is wrong with it.
    pub fn validate(&self) -> (result: AppResult<()>)
        ensures
            judged(result, invoice_complaint(*self)),
    {
        let kind = self.record_type();
        let is_invoice = same_text(kind.as_str(), "invoice");
        let positive = match self.amount_sat {
            Some(amount) => amount > 0,
            None => false,
        };
        if is_invoice && is_blank(&self.invoice_number) {
            judge(Some("Invoice number is required"))
        } else if is_invoice && is_blank(&self.customer_name) {
            judge(Some("Customer name is required"))
        } else if is_invoice && !positive {
            judge(Some("Amount must be positive"))
        } else if !is_invoice && !same_text(kind.as_str(), "payment_link") {
            judge(Some("type must be 'invoice' or 'payment_link'"))
        } else if self.btc_address.as_str().is_empty() {
            judge(Some("BTC address is required"))
        } else {
            judge(None)
        }
    }
}

} // verus!
