use opacore::costbasis::EntryType;
use opacore::error::AppError;
use opacore::invoice::InvoiceStatus;
use opacore::lots::{method_name, CostBasisMethod};
use opacore::requests::{
    bad_request, count_char, currency_or_default, entry_type_of, export_file_name, has_char,
    list_condition, page_of, parse_entry_type, validate_entry_type, CostBasisQuery,
    CreateInvoiceRequest, Filter, HistoricalPriceQuery, ListInvoicesQuery, ListTransactionsQuery,
    Page, RegisterRequest, SummaryQuery, TaxQuery, UpdateInvoiceRequest,
};

fn complaint(result: Result<(), AppError>) -> Option<String> {
    match result {
        Ok(()) => None,
        Err(AppError::BadRequest(text)) => Some(text),
        Err(other) => panic!("not a bad request: {:?}", other),
    }
}

fn invoice_request() -> CreateInvoiceRequest {
    CreateInvoiceRequest {
        portfolio_id: "p1".to_string(),
        record_type: None,
        reusable: None,
        invoice_number: Some("2024-001".to_string()),
        customer_name: Some("Ada".to_string()),
        customer_email: None,
        description: None,
        amount_sat: Some(50_000),
        amount_fiat_cents: None,
        fiat_currency: None,
        btc_price_cents: None,
        btc_address: "bc1qaddress".to_string(),
        wallet_id: None,
        due_at: None,
        expires_at: None,
    }
}

#[test]
fn method_defaults_to_first_in_first_out() {
    assert_eq!(CostBasisMethod::default(), CostBasisMethod::Fifo);
    assert_eq!(TaxQuery { year: 2024, method: None }.method(), CostBasisMethod::Fifo);
    assert_eq!(
        TaxQuery { year: 2024, method: Some(CostBasisMethod::Hifo) }.method(),
        CostBasisMethod::Hifo
    );
    assert_eq!(CostBasisQuery { method: None, year: None }.method(), CostBasisMethod::Fifo);
    assert_eq!(
        CostBasisQuery { method: Some(CostBasisMethod::Lifo), year: Some(2020) }.method(),
        CostBasisMethod::Lifo
    );
    assert_eq!(SummaryQuery { method: None }.method(), CostBasisMethod::Fifo);
    assert_eq!(method_name(CostBasisMethod::Fifo), "fifo");
    assert_eq!(method_name(CostBasisMethod::Lifo), "lifo");
    assert_eq!(method_name(CostBasisMethod::Hifo), "hifo");
}

#[test]
fn export_file_is_named_after_year_and_method() {
    assert_eq!(export_file_name(2024, CostBasisMethod::Fifo), "form_8949_2024_fifo.csv");
    assert_eq!(export_file_name(7, CostBasisMethod::Hifo), "form_8949_7_hifo.csv");
    assert_eq!(export_file_name(-12, CostBasisMethod::Lifo), "form_8949_-12_lifo.csv");
    assert_eq!(
        export_file_name(i32::MIN, CostBasisMethod::Fifo),
        "form_8949_-2147483648_fifo.csv"
    );
}

#[test]
fn page_has_a_default_and_a_cap() {
    assert_eq!(page_of(None, None), Page { limit: 50, offset: 0 });
    assert_eq!(page_of(Some(200), Some(40)), Page { limit: 200, offset: 40 });
    assert_eq!(page_of(Some(201), None), Page { limit: 200, offset: 0 });
    assert_eq!(page_of(Some(i64::MAX), Some(i64::MAX)), Page { limit: 200, offset: i64::MAX });
    assert_eq!(page_of(Some(-3), Some(-1)), Page { limit: -3, offset: -1 });
    let query = ListInvoicesQuery {
        record_type: None,
        status: None,
        limit: Some(500),
        offset: Some(10),
    };
    assert_eq!(query.page(), Page { limit: 200, offset: 10 });
    let query = ListTransactionsQuery { limit: None, offset: None, tx_type: None, wallet_id: None };
    assert_eq!(query.page(), Page { limit: 50, offset: 0 });
}

#[test]
fn list_condition_numbers_its_parameters() {
    let none = list_condition(&Vec::new());
    assert_eq!(none.where_clause, "WHERE portfolio_id = ?1");
    assert_eq!(none.limit_index, 2);
    assert_eq!(none.offset_index, 3);

    let query = ListInvoicesQuery {
        record_type: Some("invoice".to_string()),
        status: Some("sent".to_string()),
        limit: None,
        offset: None,
    };
    let filters = query.filters();
    assert_eq!(filters.len(), 2);
    assert_eq!(filters[0].column, "type");
    assert_eq!(filters[0].value, "invoice");
    assert_eq!(filters[1].column, "status");
    assert_eq!(filters[1].value, "sent");
    let both = list_condition(&filters);
    assert_eq!(both.where_clause, "WHERE portfolio_id = ?1 AND type = ?2 AND status = ?3");
    assert_eq!(both.limit_index, 4);
    assert_eq!(both.offset_index, 5);

    let query = ListInvoicesQuery {
        record_type: None,
        status: Some("paid".to_string()),
        limit: None,
        offset: None,
    };
    let one = list_condition(&query.filters());
    assert_eq!(one.where_clause, "WHERE portfolio_id = ?1 AND status = ?2");
    assert_eq!(one.limit_index, 3);
    assert_eq!(one.offset_index, 4);

    let query = ListTransactionsQuery {
        limit: None,
        offset: None,
        tx_type: Some("buy".to_string()),
        wallet_id: Some("w1".to_string()),
    };
    assert_eq!(
        list_condition(&query.filters()).where_clause,
        "WHERE portfolio_id = ?1 AND tx_type = ?2 AND wallet_id = ?3"
    );
    let query = ListTransactionsQuery {
        limit: None,
        offset: None,
        tx_type: None,
        wallet_id: Some("w1".to_string()),
    };
    assert_eq!(
        list_condition(&query.filters()).where_clause,
        "WHERE portfolio_id = ?1 AND wallet_id = ?2"
    );
}

#[test]
fn list_condition_counts_past_nine() {
    let filters: Vec<Filter> = (0..10)
        .map(|i| Filter { column: format!("c{}", i), value: "v".to_string() })
        .collect();
    let condition = list_condition(&filters);
    assert!(condition.where_clause.ends_with(" AND c8 = ?10 AND c9 = ?11"));
    assert_eq!(condition.limit_index, 12);
    assert_eq!(condition.offset_index, 13);
}

#[test]
fn registration_rules() {
    let request = |email: &str, name: &str, password: &str| RegisterRequest {
        email: email.to_string(),
        name: name.to_string(),
        password: password.to_string(),
    };
    assert_eq!(complaint(request("ada@example.com", "Ada", "12345678").validate()), None);
    assert_eq!(
        complaint(request("", "Ada", "12345678").validate()),
        Some("Invalid email address".to_string())
    );
    assert_eq!(
        complaint(request("ada.example.com", "", "1").validate()),
        Some("Invalid email address".to_string())
    );
    assert_eq!(
        complaint(request("@", "", "12345678").validate()),
        Some("Name is required".to_string())
    );
    assert_eq!(
        complaint(request("a@b", "Ada", "1234567").validate()),
        Some("Password must be at least 8 characters".to_string())
    );
    assert_eq!(complaint(request("a@b", "Ada", "ééééé").validate()), None);
}

#[test]
fn invoice_change_names_a_known_status() {
    let change = |status: Option<&str>| UpdateInvoiceRequest {
        status: status.map(|s| s.to_string()),
        customer_name: None,
        customer_email: None,
        description: None,
        due_at: None,
        expires_at: None,
    };
    assert_eq!(change(None).status().unwrap(), None);
    assert_eq!(change(Some("sent")).status().unwrap(), Some(InvoiceStatus::Sent));
    assert_eq!(change(Some("cancelled")).status().unwrap(), Some(InvoiceStatus::Cancelled));
    match change(Some("settled")).status() {
        Err(AppError::BadRequest(text)) => assert_eq!(
            text,
            "Invalid status. Must be one of: draft, sent, paid, expired, cancelled"
        ),
        other => panic!("not refused: {:?}", other),
    }
}

#[test]
fn entry_types_are_read_from_their_names() {
    assert_eq!(parse_entry_type("buy"), Some(EntryType::Buy));
    assert_eq!(parse_entry_type("sell"), Some(EntryType::Sell));
    assert_eq!(parse_entry_type("receive"), Some(EntryType::Receive));
    assert_eq!(parse_entry_type("send"), Some(EntryType::Send));
    assert_eq!(parse_entry_type("transfer"), Some(EntryType::Transfer));
    assert_eq!(parse_entry_type("Buy"), None);
    assert_eq!(parse_entry_type(""), None);
    assert_eq!(entry_type_of("sell"), EntryType::Sell);
    assert_eq!(entry_type_of("airdrop"), EntryType::Transfer);
    assert_eq!(validate_entry_type("send").unwrap(), EntryType::Send);
    match validate_entry_type("airdrop") {
        Err(AppError::BadRequest(text)) => assert_eq!(
            text,
            "Invalid tx_type. Must be one of: buy, sell, receive, send, transfer"
        ),
        other => panic!("not refused: {:?}", other),
    }
    assert!(EntryType::Buy.is_acquisition() && EntryType::Receive.is_acquisition());
    assert!(EntryType::Sell.is_disposal() && EntryType::Send.is_disposal());
    assert!(!EntryType::Transfer.is_acquisition() && !EntryType::Transfer.is_disposal());
    assert!(!EntryType::Buy.is_disposal() && !EntryType::Send.is_acquisition());
}

#[test]
fn currency_defaults_to_dollars() {
    assert_eq!(currency_or_default(&None), "usd");
    assert_eq!(currency_or_default(&Some("eur".to_string())), "eur");
}

#[test]
fn historical_query_wants_a_date_shape() {
    let query = |date: &str| HistoricalPriceQuery { date: date.to_string(), currency: None };
    assert_eq!(complaint(query("2024-01-15").validate()), None);
    assert_eq!(complaint(query("xx-yy-zzzz").validate()), None);
    let refused = Some("Date must be in YYYY-MM-DD format".to_string());
    assert_eq!(complaint(query("2024-1-15").validate()), refused);
    assert_eq!(complaint(query("2024/01/15").validate()), refused);
    assert_eq!(complaint(query("2024-01-1-").validate()), refused);
    assert_eq!(complaint(query("").validate()), refused);
    assert_eq!(complaint(query("2024-01-éé").validate()), refused);
    assert_eq!(complaint(query("2024-01-é").validate()), None);
}

#[test]
fn characters_are_found_and_counted() {
    assert!(has_char("a@b", '@'));
    assert!(!has_char("ab", '@'));
    assert!(!has_char("", '@'));
    assert_eq!(count_char("2024-01-15", '-'), 2);
    assert_eq!(count_char("---", '-'), 3);
    assert_eq!(count_char("", '-'), 0);
}

#[test]
fn invoice_request_rules() {
    assert_eq!(complaint(invoice_request().validate()), None);
    assert_eq!(invoice_request().record_type(), "invoice");

    let mut request = invoice_request();
    request.invoice_number = None;
    request.customer_name = None;
    assert_eq!(complaint(request.validate()), Some("Invoice number is required".to_string()));

    let mut request = invoice_request();
    request.invoice_number = Some(String::new());
    assert_eq!(complaint(request.validate()), Some("Invoice number is required".to_string()));

    let mut request = invoice_request();
    request.customer_name = Some(String::new());
    request.amount_sat = None;
    assert_eq!(complaint(request.validate()), Some("Customer name is required".to_string()));

    for amount in [None, Some(0), Some(-5)] {
        let mut request = invoice_request();
        request.amount_sat = amount;
        assert_eq!(complaint(request.validate()), Some("Amount must be positive".to_string()));
    }

    let mut request = invoice_request();
    request.btc_address = String::new();
    assert_eq!(complaint(request.validate()), Some("BTC address is required".to_string()));

    let mut request = invoice_request();
    request.record_type = Some("payment_link".to_string());
    request.invoice_number = None;
    request.customer_name = None;
    request.amount_sat = None;
    assert_eq!(complaint(request.validate()), None);
    assert_eq!(request.record_type(), "payment_link");
    request.btc_address = String::new();
    assert_eq!(complaint(request.validate()), Some("BTC address is required".to_string()));

    let mut request = invoice_request();
    request.record_type = Some("donation".to_string());
    assert_eq!(
        complaint(request.validate()),
        Some("type must be 'invoice' or 'payment_link'".to_string())
    );
}

#[test]
fn bad_request_carries_its_text() {
    match bad_request("no") {
        AppError::BadRequest(text) => assert_eq!(text, "no"),
        other => panic!("not a bad request: {:?}", other),
    }
}
