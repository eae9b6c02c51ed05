use unicum_api::entities::{Date, MachineSalesEntry, SetStockTarget, StockSlot};
use unicum_api::impls::unicum_api::get_sales::{daily_sales_form, daily_sales_route, parse_daily_report};
use unicum_api::impls::unicum_api::get_state::snack_slots;
use unicum_api::impls::unicum_api::get_stock::parse_stock_slots;
use unicum_api::impls::unicum_api::set_stock::set_stock_form;
use unicum_api::impls::unicum_api::utils::{
    parse_next, parse_next_float, sel_to_row_and_col, to_digit_next, AsStrRef,
};
use unicum_api::impls::unicum_api::{parse_err, token_cookie, AddTokenCookie, ModuleError};
use unicum_api::entities::InternalError;
use unicum_api::outbound::official::catalog::{CommonFields, SingleItemMetrics, UpstreamProduct};

fn date(year: i32, month: u8, day: u8) -> Date {
    Date { day, month, year }
}

fn cause_of<T: std::fmt::Debug>(result: Result<T, ModuleError>) -> String {
    match result {
        Err(ModuleError::ParseError { cause }) => cause,
        other => panic!("expected a parse error, got {other:?}"),
    }
}

#[test]
fn digits_are_read_with_causes() {
    let mut characters = "5G".chars();
    assert_eq!(5, to_digit_next(&mut characters, 16).unwrap());
    assert_eq!("Failed to parse Some('G') as number", cause_of(to_digit_next(&mut characters, 16)));
    assert_eq!("", cause_of(to_digit_next(&mut characters, 16)));
    assert_eq!((10, 15), sel_to_row_and_col("AF").unwrap());
    assert_eq!("", cause_of(sel_to_row_and_col("A")));
}

#[test]
fn pieces_are_read_in_turn() {
    let pieces = ["3 ", " 120.5", "rest"];
    let mut position = 0;

    assert_eq!(3, parse_next(&pieces, &mut position).unwrap());
    assert_eq!("120.5", parse_next_float(&pieces, &mut position).unwrap());
    assert_eq!(2, position);
    assert_eq!("invalid digit found in string", cause_of(parse_next(&pieces, &mut position)));
    assert_eq!("", cause_of(parse_next(&pieces, &mut position)));
    let mut start = 0;
    assert_eq!("invalid float literal", cause_of(parse_next_float(&["x"], &mut start)));
}

#[test]
fn characters_are_read_as_pieces() {
    let digits = ['7', 'x', '9'];
    let mut position = 0;

    assert_eq!(7, parse_next(&digits, &mut position).unwrap());
    assert_eq!("invalid digit found in string", cause_of(parse_next(&digits, &mut position)));
    assert_eq!("9", parse_next_float(&digits, &mut position).unwrap());
    assert_eq!(3, position);
    assert_eq!(3, 'é'.with_str(|s| s.len() + 1));
    assert_eq!("ab", (&"ab").with_str(|s| s.to_string()));
}

const DAILY_REPORT: &str = "<table>\
<tr><td>Slot</td><td>01/03/24</td><td>02/03/24</td><td>Total</td><td>Sum</td></tr>\
<tr><td><font>(A1) </font><b>Chips</b> <b>Big</b></td><td>2/100</td><td></td><td>t</td><td>s</td></tr>\
<tr><td><font>(B2) </font><b>Soda</b></td><td> </td><td>1 / 40.5</td><td>t</td><td>s</td></tr>\
<tr><td>x</td><td></td><td></td><td></td><td></td></tr>\
<tr><td>y</td><td></td><td></td><td></td><td></td></tr>\
</table>";

fn sale_summary(sales: &[MachineSalesEntry]) -> Vec<(Date, u8, u8, String, String, u32)> {
    sales
        .iter()
        .map(|s| {
            (
                s.date,
                s.product.row,
                s.product.col,
                s.product.name.clone(),
                s.total_price.clone(),
                s.sales_count,
            )
        })
        .collect()
}

#[test]
fn daily_reports_list_every_sale() {
    let sales = parse_daily_report(DAILY_REPORT)
        .expect("the report should be readable")
        .expect("the report should read");

    assert_eq!(
        vec![
            (date(2024, 3, 1), 10, 1, "Chips".to_owned(), "100".to_owned(), 2),
            (date(2024, 3, 1), 10, 1, "Chips".to_owned(), "100".to_owned(), 2),
            (date(2024, 3, 2), 11, 2, "Soda".to_owned(), "40.5".to_owned(), 1),
        ],
        sale_summary(&sales)
    );
}

fn report(dates: &str, slot: &str, cells: &str) -> String {
    format!(
        "<table><tr><td>Slot</td>{dates}<td>T</td><td>S</td></tr>\
         <tr><td><font>{slot}</font><b>Chips</b></td>{cells}<td>t</td><td>s</td></tr>\
         <tr><td>x</td></tr><tr><td>y</td></tr></table>"
    )
}

#[test]
fn daily_reports_that_cannot_be_read_at_all() {
    let no_date = report("<td></td>", "(A1) ", "<td>1/5</td>");
    assert!(parse_daily_report(&no_date).is_none());
    let short_slot = report("<td>01/03/24</td>", "A1", "<td>1/5</td>");
    assert!(parse_daily_report(&short_slot).is_none());
}

#[test]
fn daily_report_errors_have_causes() {
    let zero = report("<td></td>", "(A1) ", "<td>0/5</td>");
    assert!(parse_daily_report(&zero).unwrap().unwrap().is_empty());

    let no_price = report("<td>01/03/24</td>", "(A1) ", "<td>3</td>");
    assert_eq!("", cause_of(parse_daily_report(&no_price).unwrap()));

    let bad_date = report("<td>xx</td>", "(A1) ", "<td></td>");
    assert!(cause_of(parse_daily_report(&bad_date).unwrap()).starts_with("failed to parse xx: "));

    let no_day = report("<td>31/02/24</td>", "(A1) ", "<td></td>");
    assert!(cause_of(parse_daily_report(&no_day).unwrap())
        .starts_with("failed to create date from a Parsed: "));

    let bad_slot = report("<td>01/03/24</td>", "(Z1) ", "<td></td>");
    assert_eq!("Failed to parse Some('Z') as number", cause_of(parse_daily_report(&bad_slot).unwrap()));

    assert_eq!("Couldn't find <table>", cause_of(parse_daily_report("<p>down</p>").unwrap()));
}

#[test]
fn daily_reports_are_asked_for_a_period() {
    assert_eq!(
        "https://online.unicum.ru/n/sgraph.html?V03AB00",
        daily_sales_route("AB")
    );
    let fields = daily_sales_form(&date(2024, 3, 1), &date(2024, 3, 5)).expect("a period");
    let expected: Vec<(String, String)> = [
        ("day", "1"),
        ("month", "3"),
        ("year", "2024"),
        ("day1", "5"),
        ("month1", "3"),
        ("year1", "2024"),
    ]
    .iter()
    .map(|(n, v)| (n.to_string(), v.to_string()))
    .collect();
    assert_eq!(expected, fields);
    assert!(daily_sales_form(&date(2024, 3, 5), &date(2024, 3, 5)).is_none());
}

const STOCK_PAGE: &str = "<form><table>\
<tr><th>Selection</th><th>Count</th></tr>\
<tr><td>A1</td><td><input name=\"c101\" value=\"5\"></td></tr>\
<tr><td>B2</td><td><input name=\"c202\" value=\"12\"></td></tr>\
</table></form>";

#[test]
fn stock_pages_list_the_slots() {
    let slots = parse_stock_slots(STOCK_PAGE).expect("the stock page should read");

    let summary: Vec<(u8, u8, String, u8)> =
        slots.iter().map(|s| (s.row, s.col, s.mapped_to.clone(), s.cur)).collect();
    assert_eq!(vec![(10, 1, "c101".to_owned(), 5), (11, 2, "c202".to_owned(), 12)], summary);
}

#[test]
fn stock_page_errors_have_causes() {
    let page = |cell: &str, input: &str| format!("<form><table><tr><th>h</th></tr><tr><td>{cell}</td><td>{input}</td></tr></table></form>");
    assert_eq!("Failed to find input element", cause_of(parse_stock_slots(&page("A1", ""))));
    assert_eq!(
        "Failed to find name on input element",
        cause_of(parse_stock_slots(&page("A1", "<input value=\"1\">")))
    );
    assert_eq!(
        "Failed to find value on input element",
        cause_of(parse_stock_slots(&page("A1", "<input name=\"c\">")))
    );
    assert_eq!(
        "Failed to parse value of input as u8: number too large to fit in target type",
        cause_of(parse_stock_slots(&page("A1", "<input name=\"c\" value=\"300\">")))
    );
    assert_eq!(
        "Failed to parse Some('<') as number",
        cause_of(parse_stock_slots(&page("<b>A1</b>", "<input name=\"c\" value=\"3\">")))
    );
}

fn slot(mapped_to: &str, cur: u8) -> StockSlot {
    StockSlot { row: 1, col: 1, mapped_to: mapped_to.to_owned(), cur }
}

#[test]
fn stock_forms_of_the_classic_page() {
    let fields = set_stock_form(&[slot("c101", 4)], SetStockTarget::Latest, &["E1".to_owned()]).unwrap();
    assert_eq!(
        vec![
            ("c101".to_owned(), "4".to_owned()),
            ("m".to_owned(), "E1".to_owned()),
            ("a".to_owned(), String::new()),
        ],
        fields
    );
    assert_eq!(
        "No enchasments found! Use future target.",
        cause_of(set_stock_form(&[], SetStockTarget::Latest, &[]))
    );
    let future = set_stock_form(&[], SetStockTarget::Future, &[]).unwrap();
    assert_eq!(("m".to_owned(), "T".to_owned()), future[0]);
}

#[test]
fn slots_of_the_snacks_in_product_order() {
    let common = |selection: &str, name: &str| CommonFields {
        selection: selection.to_owned(),
        name: name.to_owned(),
        price: 990,
        decimal: 2,
        max: 8,
        level: Some(3),
    };
    let metrics = SingleItemMetrics {
        price_error: None,
        av_price: Some(990),
        price_cl1_error: None,
        av_price_cl1: None,
        price_cl2_error: None,
        av_price_cl2: None,
        price_cl3_error: None,
        av_price_cl3: None,
    };
    let products = vec![
        UpstreamProduct::Snack { common: common("B2", "Soda"), metrics },
        UpstreamProduct::Coffee { common: common("01", "Latte"), metrics },
        UpstreamProduct::Snack { common: common("A1", "Chips"), metrics },
    ];

    let slots = snack_slots(&products);

    let summary: Vec<(u8, u8, String, i64, u8, u8, i8)> = slots
        .iter()
        .map(|s| (s.id.row, s.id.col, s.id.name.clone(), s.price, s.decimal, s.max, s.cur))
        .collect();
    assert_eq!(
        vec![
            (11, 2, "Soda".to_owned(), 990, 2, 8, 3),
            (10, 1, "Chips".to_owned(), 990, 2, 8, 3),
        ],
        summary
    );
}

#[test]
fn errors_of_the_classic_pages_are_reported() {
    assert_eq!("nvmc_login=abc; nvmc_root=/n/", token_cookie("abc"));
    let error = parse_err("bad".to_owned());
    assert_eq!("Failed to parse: bad", error.message());
    assert!(matches!(error.into_internal_error(), InternalError::ParseError { cause } if cause == "bad"));
    assert!(matches!(
        ModuleError::RetryLogin.into_internal_error(),
        InternalError::NetworkError { cause } if cause == "Login busy, try again"
    ));
    let json = ModuleError::JsonError { message: "eof".to_owned() };
    assert_eq!("Reqwest error: eof", json.message());
    assert!(matches!(json.into_internal_error(), InternalError::ParseError { cause } if cause == "eof"));
    assert!(matches!(
        ModuleError::ReqwestError { message: "timeout".to_owned() }.into_internal_error(),
        InternalError::NetworkError { cause } if cause == "timeout"
    ));
}

#[test]
fn requests_carry_the_token_cookie() {
    let request = reqwest::Client::new()
        .get("http://localhost/n/vmcloading.html")
        .add_token_cookie("abc".to_string())
        .build()
        .unwrap();
    assert_eq!("nvmc_login=abc; nvmc_root=/n/", request.headers()["Cookie"].to_str().unwrap());
}
