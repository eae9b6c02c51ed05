use unicum_api::entities::{Date, MachineSalesEntry, MachineStateEntry, Product, SetStockForWhichEncashment, StockEntry};
use unicum_api::outbound::official::catalog::{
    machine_state, ComboContent, ComboItemType, CommonFields, OutProduct, SingleItemMetrics,
    UpstreamProduct,
};
use unicum_api::outbound::official::error::{ModuleError, ScraperError};
use unicum_api::outbound::official::forms::{sales_queries, sales_within, set_stock_form};
use unicum_api::outbound::official::stock::parse_stock_page;
use unicum_api::outbound::official::upstream::{
    convert_machine_bookmark_to_hex, parse_date_value, parse_product_value, parse_sales_report,
    parse_sales_value, SALES_ROUTE, STOCK_ROUTE,
};
use unicum_api::contracts::ContractError;
use unicum_api::api::error::ApiError;

fn date(year: i32, month: u8, day: u8) -> Date {
    Date { day, month, year }
}

fn product(row: u8, col: u8, name: &str) -> Product {
    Product::new(row, col, name.to_owned())
}

fn sale_summary(sales: &[MachineSalesEntry]) -> Vec<(Date, u8, u8, String, String, u32)> {
    sales
        .iter()
        .map(|s| {
            (
                s.date,
                s.product.row,
                s.product.col,
                s.product.name.clone(),
                s.total_price.clone(),
                s.sales_count,
            )
        })
        .collect()
}

#[test]
fn routes_carry_the_bookmark() {
    assert_eq!(
        "https://online.unicum.ru/n/vmcloading.html?030102FF",
        STOCK_ROUTE("0102FF".to_owned())
    );
    assert_eq!(
        "https://online.unicum.ru/n/sgraph.html?V030102FF03",
        SALES_ROUTE("0102FF".to_owned())
    );
}

#[test]
fn bookmarks_become_upper_case_hex() {
    assert_eq!("0102FF", convert_machine_bookmark_to_hex("AQL/".to_owned()).unwrap());
    assert_eq!("", convert_machine_bookmark_to_hex(String::new()).unwrap());
}

#[test]
fn invalid_bookmarks_are_parse_errors() {
    match convert_machine_bookmark_to_hex("!!!!".to_owned()) {
        Err(ModuleError::Scraper(ScraperError::ParseError { cause })) => {
            assert_eq!("Invalid bookmark: Invalid symbol 33, offset 0.", cause);
        }
        other => panic!("expected a parse error, got {other:?}"),
    }
}

#[test]
fn date_cells_are_days_of_the_month() {
    assert_eq!(date(2024, 2, 29), parse_date_value("29", 2, 2024).unwrap());
    match parse_date_value("30", 2, 2024) {
        Err(ScraperError::InvalidDate { value, cause }) => {
            assert_eq!("30/February/2024", value);
            assert_eq!("day was not in range", cause);
        }
        other => panic!("expected InvalidDate, got {other:?}"),
    }
    match parse_date_value("x", 2, 2024) {
        Err(ScraperError::ParseError { cause }) => {
            assert_eq!("for string x: invalid digit found in string", cause);
        }
        other => panic!("expected ParseError, got {other:?}"),
    }
}

#[test]
fn row_labels_hold_coordinate_and_name() {
    let p = parse_product_value("(A1) Chips ").unwrap();
    assert_eq!((10, 1, "Chips".to_owned()), (p.row, p.col, p.name));

    match parse_product_value("A1 Chips") {
        Err(ScraperError::InvalidValue { field, value }) => {
            assert_eq!("product coordinate", field);
            assert_eq!("A1 C", value);
        }
        other => panic!("expected InvalidValue, got {other:?}"),
    }
    match parse_product_value("(A1)   ") {
        Err(ScraperError::EmptyValue { what }) => {
            assert_eq!("sales product name for coordinate (A1)   ", what);
        }
        other => panic!("expected EmptyValue, got {other:?}"),
    }
    match parse_product_value("(AZ) Chips") {
        Err(ScraperError::InvalidValue { field, value }) => {
            assert_eq!("character", field);
            assert_eq!("'Z'", value);
        }
        other => panic!("expected InvalidValue, got {other:?}"),
    }
}

#[test]
fn sales_cells_repeat_each_sale() {
    let sales = parse_sales_value(" 3 / 120.5 ", &date(2024, 3, 1), &product(10, 1, "Chips")).unwrap();

    assert_eq!(3, sales.len());
    for sale in &sales {
        assert_eq!(date(2024, 3, 1), sale.date);
        assert_eq!("120.5", sale.total_price);
        assert_eq!(3, sale.sales_count);
    }
    assert!(parse_sales_value("", &date(2024, 3, 1), &product(10, 1, "Chips")).unwrap().is_empty());
}

#[test]
fn malformed_sales_cells_are_errors() {
    let d = date(2024, 3, 1);
    let p = product(10, 1, "Chips");
    assert!(matches!(parse_sales_value("0/10", &d, &p), Err(ScraperError::ZeroSalesCount)));
    match parse_sales_value("3", &d, &p) {
        Err(ScraperError::InvalidSalesCell { value, cause }) => {
            assert_eq!("3", value);
            assert_eq!("expected <count>/<total_price>, got: 3", cause);
        }
        other => panic!("expected InvalidSalesCell, got {other:?}"),
    }
    match parse_sales_value("1/2/3", &d, &p) {
        Err(ScraperError::InvalidSalesCell { cause, .. }) => {
            assert_eq!("expected <count>/<total_price>, got: 1/2/3", cause);
        }
        other => panic!("expected InvalidSalesCell, got {other:?}"),
    }
    match parse_sales_value("x/2", &d, &p) {
        Err(ScraperError::InvalidSalesCell { cause, .. }) => {
            assert_eq!("unparseable count: invalid digit found in string", cause);
        }
        other => panic!("expected InvalidSalesCell, got {other:?}"),
    }
    match parse_sales_value("2/abc", &d, &p) {
        Err(ScraperError::InvalidSalesCell { cause, .. }) => {
            assert_eq!("unparseable total price: invalid float literal", cause);
        }
        other => panic!("expected InvalidSalesCell, got {other:?}"),
    }
    match parse_sales_value("2/ ", &d, &p) {
        Err(ScraperError::InvalidSalesCell { cause, .. }) => {
            assert_eq!("unparseable total price: cannot parse float from empty string", cause);
        }
        other => panic!("expected InvalidSalesCell, got {other:?}"),
    }
}

const REPORT: &str = "<html><body><table>\
<tr><th>Product</th><th>1</th><th>2</th><th>Total</th><th>Sum</th></tr>\
<tr><td>(A1) Chips</td><td>2/100.5</td><td></td><td>t</td><td>s</td></tr>\
<tr><td>(B2) Soda</td><td></td><td>1/40</td><td>t</td><td>s</td></tr>\
<tr><td>Total</td><td></td><td></td><td></td><td></td></tr>\
<tr><td>Sum</td><td></td><td></td><td></td><td></td></tr>\
</table></body></html>";

const SHORT_MONTH_REPORT: &str = "<table>\
<tr><th>Product</th><th>1</th><th>30</th><th>Total</th><th>Sum</th></tr>\
<tr><td>(A1) Chips</td><td>1/5</td><td></td><td>t</td><td>s</td></tr>\
<tr><td>Total</td><td></td><td></td><td></td><td></td></tr>\
<tr><td>Sum</td><td></td><td></td><td></td><td></td></tr>\
</table>";

#[test]
fn days_a_month_lacks_leave_the_table_jagged() {
    match parse_sales_report(SHORT_MONTH_REPORT, 2, 2024) {
        Err(ScraperError::JaggedTable { cause }) => assert_eq!("Missing date for col index 1", cause),
        other => panic!("expected JaggedTable, got {other:?}"),
    }
    let sales = parse_sales_report(SHORT_MONTH_REPORT, 3, 2024).expect("March has a 30th");
    assert_eq!(vec![(date(2024, 3, 1), 10, 1, "Chips".to_owned(), "5".to_owned(), 1)], sale_summary(&sales));
}

#[test]
fn sales_reports_list_every_sale() {
    let sales = parse_sales_report(REPORT, 2, 2024).expect("the report should read");

    assert_eq!(
        vec![
            (date(2024, 2, 1), 10, 1, "Chips".to_owned(), "100.5".to_owned(), 2),
            (date(2024, 2, 1), 10, 1, "Chips".to_owned(), "100.5".to_owned(), 2),
            (date(2024, 2, 2), 11, 2, "Soda".to_owned(), "40".to_owned(), 1),
        ],
        sale_summary(&sales)
    );
}

#[test]
fn sales_reports_need_a_table() {
    match parse_sales_report("<p>maintenance</p>", 2, 2024) {
        Err(ScraperError::MissingElement { element }) => assert_eq!("sales table", element),
        other => panic!("expected MissingElement, got {other:?}"),
    }
}

const STOCK_PAGE: &str = "<form><table>\
<tr><th>Selection</th><th>Count</th></tr>\
<tr><td> A1 </td><td><input name=\"c101\" value=\"5\"></td></tr>\
<tr><td>B2</td><td><input name=\"c202\" value=\"0\"></td></tr>\
</table></form>";

fn state_entry(row: u8, col: u8, name: &str) -> MachineStateEntry {
    MachineStateEntry { id: product(row, col, name), price: 1250, decimal: 2, max: 10, cur: 3 }
}

fn stock_summary(stock: &[StockEntry]) -> Vec<(String, u8, u8, String, u8)> {
    stock
        .iter()
        .map(|s| (s.name.clone(), s.row, s.col, s.mapped_to.clone(), s.cur))
        .collect()
}

#[test]
fn stock_pages_are_named_after_the_state() {
    let state = vec![state_entry(10, 1, "Chips"), state_entry(11, 2, "Soda")];

    let stock = parse_stock_page(STOCK_PAGE, &state).expect("the stock page should read");

    assert_eq!(
        vec![
            ("Chips".to_owned(), 10, 1, "c101".to_owned(), 5),
            ("Soda".to_owned(), 11, 2, "c202".to_owned(), 0),
        ],
        stock_summary(&stock)
    );
}

#[test]
fn stock_slots_missing_from_the_state_are_errors() {
    let state = vec![state_entry(11, 2, "Soda")];

    match parse_stock_page(STOCK_PAGE, &state) {
        Err(ScraperError::MissingElement { element }) => {
            assert_eq!("name in current state for coordinate  A1 ", element);
        }
        other => panic!("expected MissingElement, got {other:?}"),
    }
}

#[test]
fn stock_rows_need_an_input() {
    let page = "<form><table><tr><th>h</th></tr><tr><td>A1</td><td>5</td></tr></table></form>";

    match parse_stock_page(page, &[]) {
        Err(ScraperError::MissingElement { element }) => assert_eq!("input", element),
        other => panic!("expected MissingElement, got {other:?}"),
    }
}

fn common(selection: &str, name: &str, level: Option<i8>) -> CommonFields {
    CommonFields {
        selection: selection.to_owned(),
        name: name.to_owned(),
        price: 1250,
        decimal: 2,
        max: 10,
        level,
    }
}

fn metrics() -> SingleItemMetrics {
    SingleItemMetrics {
        price_error: None,
        av_price: None,
        price_cl1_error: None,
        av_price_cl1: None,
        price_cl2_error: None,
        av_price_cl2: None,
        price_cl3_error: None,
        av_price_cl3: None,
    }
}

fn snack(selection: &str, name: &str, level: Option<i8>) -> UpstreamProduct {
    UpstreamProduct::Snack { common: common(selection, name, level), metrics: metrics() }
}

#[test]
fn state_holds_the_snacks_by_slot() {
    let products = vec![
        snack("C3", "Water", Some(4)),
        UpstreamProduct::Coffee { common: common("01", "Espresso", Some(1)), metrics: metrics() },
        snack("A1", "Chips", None),
        UpstreamProduct::Out(OutProduct { product_id: 7, vends: 3, blocked: false }),
        snack("C1", "Soda", Some(2)),
        UpstreamProduct::Combo {
            common: common("02", "Menu", None),
            contents: vec![ComboContent { item_type: ComboItemType::Snack, selection: "A1".to_owned() }],
        },
        UpstreamProduct::Ingredient { selection: "I1".to_owned(), name: "Milk".to_owned() },
        snack("C1", "Juice", Some(1)),
    ];

    let state = machine_state(&products).expect("the state should read");

    let summary: Vec<(u8, u8, String, i8)> =
        state.iter().map(|e| (e.id.row, e.id.col, e.id.name.clone(), e.cur)).collect();
    assert_eq!(
        vec![
            (10, 1, "Chips".to_owned(), 0),
            (12, 1, "Soda".to_owned(), 2),
            (12, 1, "Juice".to_owned(), 1),
            (12, 3, "Water".to_owned(), 4),
        ],
        summary
    );
    assert_eq!((1250, 2, 10), (state[0].price, state[0].decimal, state[0].max));
}

#[test]
fn snacks_with_unreadable_selections_are_errors() {
    let products = vec![snack("A1", "Chips", None), snack("Z", "Gum", None)];

    match machine_state(&products) {
        Err(ScraperError::InvalidValue { field, value }) => {
            assert_eq!("character", field);
            assert_eq!("'Z'", value);
        }
        other => panic!("expected InvalidValue, got {other:?}"),
    }
}

fn stock_entry(mapped_to: &str, cur: u8) -> StockEntry {
    StockEntry { name: "x".to_owned(), row: 1, col: 1, mapped_to: mapped_to.to_owned(), cur }
}

fn field<'a>(fields: &'a [(String, String)], name: &str) -> Option<&'a str> {
    fields.iter().find(|(n, _)| n == name).map(|(_, v)| v.as_str())
}

#[test]
fn stock_forms_set_each_count_once() {
    let stock = vec![stock_entry("c101", 5), stock_entry("c202", 0), stock_entry("c101", 7)];
    let encashments = vec!["E42".to_owned(), "E41".to_owned()];

    let fields = set_stock_form(&stock, SetStockForWhichEncashment::Latest, &encashments).unwrap();

    assert_eq!(4, fields.len());
    assert_eq!(Some("7"), field(&fields, "c101"));
    assert_eq!(Some("0"), field(&fields, "c202"));
    assert_eq!(Some("E42"), field(&fields, "m"));
    assert_eq!(Some(""), field(&fields, "a"));
}

#[test]
fn stock_forms_for_the_future_need_no_encashment() {
    let fields = set_stock_form(&[stock_entry("c101", 5)], SetStockForWhichEncashment::Future, &[]).unwrap();

    assert_eq!(Some("T"), field(&fields, "m"));
}

#[test]
fn stock_forms_for_the_latest_need_an_encashment() {
    match set_stock_form(&[], SetStockForWhichEncashment::Latest, &[]) {
        Err(ScraperError::MissingElement { element }) => assert_eq!("encashment", element),
        other => panic!("expected MissingElement, got {other:?}"),
    }
}

#[test]
fn sales_are_queried_month_by_month() {
    let queries = sales_queries(date(2023, 12, 15), date(2024, 2, 10));

    let summary: Vec<(u8, i32, Vec<(String, String)>)> =
        queries.into_iter().map(|q| (q.month, q.year, q.fields)).collect();
    let fields = |day1: &str, month1: &str, year1: &str| -> Vec<(String, String)> {
        vec![
            ("day".to_owned(), "1".to_owned()),
            ("month".to_owned(), "12".to_owned()),
            ("year".to_owned(), "2023".to_owned()),
            ("day1".to_owned(), day1.to_owned()),
            ("month1".to_owned(), month1.to_owned()),
            ("year1".to_owned(), year1.to_owned()),
        ]
    };
    assert_eq!(
        vec![
            (12, 2023, fields("31", "12", "2023")),
            (1, 2024, fields("31", "1", "2024")),
            (2, 2024, fields("29", "2", "2024")),
        ],
        summary
    );
    assert!(sales_queries(date(2024, 2, 10), date(2024, 2, 9)).is_empty());
}

#[test]
fn errors_are_reported_to_the_api() {
    let error = ModuleError::HttpStatus { status: 404 };
    assert_eq!("Official API returned HTTP status 404 Not Found", error.message());
    match error.into_contract_error() {
        ContractError::Network { cause } => assert_eq!("Official API returned HTTP status 404 Not Found", cause),
        other => panic!("expected a network error, got {other:?}"),
    }

    let error = ModuleError::Scraper(ScraperError::ZeroSalesCount);
    assert_eq!("Scraper error: Sales count cannot be zero", error.message());
    let contract = error.into_contract_error();
    assert_eq!("response parsing error: Sales count cannot be zero", contract.message());
    assert!(matches!(ApiError::from(contract), ApiError::Upstream));

    match ModuleError::RetryLogin.into_contract_error() {
        ContractError::Network { cause } => assert_eq!("Login busy, try again", cause),
        other => panic!("expected a network error, got {other:?}"),
    }
    let invalid = ScraperError::InvalidValue { field: "character".to_owned(), value: "'G'".to_owned() };
    assert_eq!("Invalid character value \"'G'\"", invalid.message());
}

#[test]
fn sales_are_kept_from_since_to_until() {
    let sales = parse_sales_report(REPORT, 2, 2024).expect("the report should read");

    let kept = sales_within(sales, &date(2024, 2, 2), &date(2024, 3, 1));
    assert_eq!(vec![(date(2024, 2, 2), 11, 2, "Soda".to_owned(), "40".to_owned(), 1)], sale_summary(&kept));

    let sales = parse_sales_report(REPORT, 2, 2024).expect("the report should read");
    assert!(sales_within(sales, &date(2024, 2, 1), &date(2024, 2, 1)).is_empty());
    let sales = parse_sales_report(REPORT, 2, 2024).expect("the report should read");
    assert_eq!(2, sales_within(sales, &date(2024, 2, 1), &date(2024, 2, 2)).len());
}

fn month_report(late_cells: &str) -> String {
    let mut header = String::from("<tr><th>Product</th>");
    let mut row = String::from("<tr><td>(A1) Chips</td>");
    for day in 1..=31 {
        header.push_str(&format!("<th>{day}</th>"));
        let cell = match day {
            3 => "1/20",
            29..=31 => late_cells,
            _ => "",
        };
        row.push_str(&format!("<td>{cell}</td>"));
    }
    header.push_str("<th>Total</th><th>Sum</th></tr>");
    row.push_str("<td>t</td><td>s</td></tr>");
    format!(
        "<table>{header}{row}<tr><td>Total</td></tr><tr><td>Sum</td></tr></table>"
    )
}

#[test]
fn cells_past_the_month_are_ignored() {
    let plain = parse_sales_report(&month_report(""), 2, 2023).expect("February reads");
    let noisy = parse_sales_report(&month_report("x/y/z"), 2, 2023).expect("late cells are skipped");
    assert_eq!(vec![(date(2023, 2, 3), 10, 1, "Chips".to_owned(), "20".to_owned(), 1)], sale_summary(&plain));
    assert_eq!(sale_summary(&plain), sale_summary(&noisy));
    match parse_sales_report(&month_report("x/y/z"), 3, 2023) {
        Err(ScraperError::InvalidSalesCell { value, .. }) => assert_eq!("x/y/z", value),
        other => panic!("expected InvalidSalesCell in March, got {other:?}"),
    }
}
