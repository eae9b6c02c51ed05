//! The routes of the service, and how its sales reports, stock pages and
//! machine bookmarks are read.
use vstd::prelude::*;

use crate::calendar::{
    calendar_date, days_in_month, from_calendar_date, is_valid_date, month_length, month_name,
    month_name_spec,
};
use crate::encoding::{base64_error_text, base64_standard_decode, decode_base64, hex_upper, to_hex_upper};
use crate::entities::{Date, MachineSalesEntry, Product};
use crate::outbound::official::error::{ModuleError, ScraperError, ScraperErrorView};
use crate::outbound::official::html::{
    html_select_rows, nodes_view, rows_view, select_rows, selectors_view, Node, NodeView,
};
use crate::outbound::official::scraper::{coordinate_digits, sel_to_row_and_col};
use crate::text::{
    char_debug_of, contains_char, decimal, first_index_of, float_error_message, float_error_text,
    float_literal, format_signed, format_unsigned, int_error_text, is_float_literal, owned,
    parse_unsigned, parse_unsigned_spec, push_str, signed_decimal, split_once, trim, trim_str,
};

verus! {

/// Logs in and hands out a session token.
pub const LOGIN_ROUTE: &'static str = "https://online.unicum.ru/wjson/iamrobot.json";

/// Describes one machine, with its bookmark.
pub const GET_MACHINE_ROUTE: &'static str = "https://online.unicum.ru/wjson/getmachine.json";

/// Lists the machines.
pub const GET_MACHINES_ROUTE: &'static str = "https://online.unicum.ru/wjson/getmachines.json";

/// The current state of a machine.
pub const CURSTATE_ROUTE: &'static str = "https://online.unicum.ru/wjson/curstate.json";

/// The encashments of a machine.
pub const COLL_LIST_ROUTE: &'static str = "https://online.unicum.ru/wjson/coll_list.json";

/// The address of the stock page of the machine with the given hex bookmark.
pub open spec fn stock_route_spec(hex_bookmark: Seq<char>) -> Seq<char> {
    "https://online.unicum.ru/n/vmcloading.html?03"@ + hex_bookmark
}

/// The address of the sales report of the machine with the given hex
/// bookmark, grouped by month day.
pub open spec fn sales_route_spec(hex_bookmark: Seq<char>) -> Seq<char> {
    "https://online.unicum.ru/n/sgraph.html?V03"@ + hex_bookmark + "03"@
}

/// The address of the stock page of a machine.
#[allow(non_snake_case)]
pub fn STOCK_ROUTE(hex_bookmark: String) -> (res: String)
    ensures
        res@ == stock_route_spec(hex_bookmark@),
{
    let mut out = owned("https://online.unicum.ru/n/vmcloading.html?03");
    push_str(&mut out, hex_bookmark.as_str());
    out
}

/// The address of the sales report of a machine.
#[allow(non_snake_case)]
pub fn SALES_ROUTE(hex_bookmark: String) -> (res: String)
    ensures
        res@ == sales_route_spec(hex_bookmark@),
{
    let mut out = owned("https://online.unicum.ru/n/sgraph.html?V03");
    push_str(&mut out, hex_bookmark.as_str());
    push_str(&mut out, "03");
    out
}

/// A machine bookmark, given in Base64, as the upper-case hex that the
/// service's pages take in their addresses.
pub fn convert_machine_bookmark_to_hex(bookmark: String) -> (res: Result<String, ModuleError>)
    ensures
        match base64_standard_decode(vstd::utf8::encode_utf8(bookmark@)) {
            Ok(bytes) => res matches Ok(hex) && hex@ == hex_upper(bytes),
            Err(e) => res matches Err(ModuleError::Scraper(ScraperError::ParseError { cause }))
                && cause@ == "Invalid bookmark: "@ + base64_error_text(e),
        },
{
    match decode_base64(bookmark.as_str().as_bytes()) {
        Ok(bytes) => Ok(to_hex_upper(bytes.as_slice())),
        Err(e) => {
            let mut cause = owned("Invalid bookmark: ");
            push_str(&mut cause, e.message().as_str());
            Err(ModuleError::Scraper(ScraperError::ParseError { cause }))
        },
    }
}

/// The date of a header cell of a sales report: the day of the month in
/// the given month and year.
pub open spec fn date_value(value: Seq<char>, month: u8, year: i32) -> Result<
    (i32, u8, u8),
    ScraperErrorView,
> {
    match parse_unsigned_spec(value, 255) {
        Err(k) => Err(ScraperErrorView::ParseError {
            cause: "for string "@ + value + ": "@ + int_error_text(k),
        }),
        Ok(day) => match calendar_date(year, month, day as u8) {
            Ok(d) => Ok(d),
            Err(name) => Err(ScraperErrorView::InvalidDate {
                value: decimal(day) + "/"@ + month_name_spec(month) + "/"@ + signed_decimal(
                    year as int,
                ),
                cause: name + " was not in range"@,
            }),
        },
    }
}

/// Reads the date of a header cell of a sales report.
pub fn parse_date_value(value: &str, month: u8, year: i32) -> (res: Result<Date, ScraperError>)
    requires
        1 <= month <= 12,
    ensures
        match date_value(value@, month, year) {
            Ok(d) => res matches Ok(r) && r@ == d,
            Err(e) => res matches Err(x) && x@ == e,
        },
{
    let day = match parse_unsigned(value, 255) {
        Ok(d) => d as u8,
        Err(kind) => {
            let mut cause = owned("for string ");
            push_str(&mut cause, value);
            push_str(&mut cause, ": ");
            push_str(&mut cause, kind.message().as_str());
            return Err(ScraperError::ParseError { cause });
        },
    };
    match from_calendar_date(year, month, day) {
        Ok(date) => Ok(date),
        Err(name) => {
            let mut text = format_unsigned(day as u64);
            push_str(&mut text, "/");
            push_str(&mut text, month_name(month));
            push_str(&mut text, "/");
            push_str(&mut text, format_signed(year as i64).as_str());
            let mut cause = owned(name);
            push_str(&mut cause, " was not in range");
            Err(ScraperError::InvalidDate { value: text, cause })
        },
    }
}

/// The first characters of a text, at most `n`.
pub open spec fn first_chars(s: Seq<char>, n: int) -> Seq<char> {
    if s.len() <= n {
        s
    } else {
        s.take(n)
    }
}

/// The product of a row label of a sales report: a coordinate such as
/// `(A1)` in its first four characters, then the product's name.
pub open spec fn product_value(value: Seq<char>) -> Result<(u8, u8, Seq<char>), ScraperErrorView> {
    let raw = first_chars(value, 4);
    if !(raw.len() >= 2 && raw[0] == '(' && raw.last() == ')') {
        Err(ScraperErrorView::InvalidValue { field: "product coordinate"@, value: raw })
    } else {
        match coordinate_digits(raw.subrange(1, raw.len() - 1)) {
            Err(None) => Err(ScraperErrorView::MissingElement { element: "character"@ }),
            Err(Some(c)) => Err(
                ScraperErrorView::InvalidValue { field: "character"@, value: char_debug_of(c) },
            ),
            Ok((row, col)) => {
                let name = trim(value.skip(raw.len() as int));
                if name.len() == 0 {
                    Err(
                        ScraperErrorView::EmptyValue {
                            what: "sales product name for coordinate "@ + value,
                        },
                    )
                } else {
                    Ok((row, col, name))
                }
            },
        }
    }
}

/// Reads the product of a row label of a sales report.
pub fn parse_product_value(value: &str) -> (res: Result<Product, ScraperError>)
    ensures
        match product_value(value@) {
            Ok(p) => res matches Ok(r) && r@ == p,
            Err(e) => res matches Err(x) && x@ == e,
        },
{
    let n = value.unicode_len();
    let k: usize = if n <= 4 { n } else { 4 };
    let raw = value.substring_char(0, k);
    assert(raw@ =~= first_chars(value@, 4));
    if !(k >= 2 && raw.get_char(0) == '(' && raw.get_char(k - 1) == ')') {
        return Err(ScraperError::InvalidValue { field: owned("product coordinate"), value: owned(raw) });
    }
    let coordinate = raw.substring_char(1, k - 1);
    let (row, col) = match sel_to_row_and_col(coordinate) {
        Ok(rc) => rc,
        Err(e) => return Err(e),
    };
    let rest = value.substring_char(k, n);
    assert(rest@ =~= value@.skip(raw@.len() as int));
    let name = trim_str(rest);
    if name.unicode_len() == 0 {
        let mut what = owned("sales product name for coordinate ");
        push_str(&mut what, value);
        return Err(ScraperError::EmptyValue { what });
    }
    Ok(Product::new(row, col, owned(name)))
}

/// A sale as `(date, product, total_price, sales_count)`.
pub type SaleView = ((i32, u8, u8), (u8, u8, Seq<char>), Seq<char>, u32);

/// The sales of a list of entries.
pub open spec fn sales_view(v: Seq<MachineSalesEntry>) -> Seq<SaleView> {
    v.map_values(|e: MachineSalesEntry| e@)
}

/// The error of a malformed sales cell.
pub open spec fn malformed_cell(value: Seq<char>) -> ScraperErrorView {
    ScraperErrorView::InvalidSalesCell {
        value,
        cause: "expected <count>/<total_price>, got: "@ + value,
    }
}

/// The sales of one cell of a sales report: empty, or `<count>/<total>`
/// with a positive count; each of the `count` sales carries the cell's
/// total price text and count.
pub open spec fn sales_value(
    value: Seq<char>,
    date: (i32, u8, u8),
    product: (u8, u8, Seq<char>),
) -> Result<Seq<SaleView>, ScraperErrorView> {
    if value.len() == 0 {
        Ok(Seq::empty())
    } else {
        match first_index_of(value, '/') {
            None => Err(malformed_cell(value)),
            Some(i) => {
                let total = value.skip(i + 1);
                if total.contains('/') {
                    Err(malformed_cell(value))
                } else {
                    match parse_unsigned_spec(trim(value.take(i)), 0xffff_ffff) {
                        Err(k) => Err(ScraperErrorView::InvalidSalesCell {
                            value,
                            cause: "unparseable count: "@ + int_error_text(k),
                        }),
                        Ok(count) => if count == 0 {
                            Err(ScraperErrorView::ZeroSalesCount)
                        } else if !is_float_literal(trim(total)) {
                            Err(ScraperErrorView::InvalidSalesCell {
                                value,
                                cause: "unparseable total price: "@ + float_error_text(trim(total)),
                            })
                        } else {
                            Ok(Seq::new(count, |j: int| (date, product, trim(total), count as u32)))
                        },
                    }
                }
            },
        }
    }
}

fn malformed_cell_error(value: &str) -> (res: ScraperError)
    ensures
        res@ == malformed_cell(value@),
{
    let mut cause = owned("expected <count>/<total_price>, got: ");
    push_str(&mut cause, value);
    ScraperError::InvalidSalesCell { value: owned(value), cause }
}

/// Reads the sales of one cell of a sales report.
pub fn parse_sales_value(value: &str, date: &Date, product: &Product) -> (res: Result<
    Vec<MachineSalesEntry>,
    ScraperError,
>)
    ensures
        match sales_value(value@, date@, product@) {
            Ok(s) => res matches Ok(r) && sales_view(r@) == s,
            Err(e) => res matches Err(x) && x@ == e,
        },
{
    if value.unicode_len() == 0 {
        let empty: Vec<MachineSalesEntry> = Vec::new();
        assert(sales_view(empty@) =~= Seq::<SaleView>::empty());
        return Ok(empty);
    }
    let (count_text, total_text) = match split_once(value, '/') {
        Some(parts) => parts,
        None => return Err(malformed_cell_error(value)),
    };
    if contains_char(total_text, '/') {
        return Err(malformed_cell_error(value));
    }
    let count = match parse_unsigned(trim_str(count_text), 0xffff_ffff) {
        Ok(c) => c as u32,
        Err(kind) => {
            let mut cause = owned("unparseable count: ");
            push_str(&mut cause, kind.message().as_str());
            return Err(ScraperError::InvalidSalesCell { value: owned(value), cause });
        },
    };
    if count == 0 {
        return Err(ScraperError::ZeroSalesCount);
    }
    let total = trim_str(total_text);
    if !float_literal(total) {
        let mut cause = owned("unparseable total price: ");
        push_str(&mut cause, float_error_message(total).as_str());
        return Err(ScraperError::InvalidSalesCell { value: owned(value), cause });
    }
    let sale = MachineSalesEntry {
        date: *date,
        product: product.clone(),
        total_price: owned(total),
        sales_count: count,
    };
    let ghost expected = Seq::new(
        count as nat,
        |j: int| (date@, product@, total@, count),
    );
    let mut sales: Vec<MachineSalesEntry> = Vec::new();
    let mut i: u32 = 0;
    while i < count
        invariant
            i <= count,
            sale@ == (date@, product@, total@, count),
            expected == Seq::new(count as nat, |j: int| (date@, product@, total@, count)),
            sales_view(sales@) =~= expected.take(i as int),
        decreases count - i,
    {
        let ghost before = sales@;
        let copy = sale.clone();
        sales.push(copy);
        assert(sales@ =~= before.push(copy));
        assert(sales_view(sales@) =~= sales_view(before).push(copy@));
        i = i + 1;
    }
    assert(expected.take(count as int) =~= expected);
    Ok(sales)
}

/// The sales table of a report.
pub const TABLE_SELECTOR: &'static str = "table";

/// The date cells of the header row of a report.
pub const HEADER_ROW_SELECTOR: &'static str = "tr:first-child > :is(td,th):not(:first-child, :last-child, :nth-last-child(2))";

/// The product label of each sales row of a report.
pub const HEADER_CELL_SELECTOR: &'static str = "tr:not(:first-child, :last-child, :nth-last-child(2)) > :is(td, th):first-child";

/// The sales rows of a report.
pub const NON_HEADER_ROW_SELECTOR: &'static str = "tr:not(:first-child, :last-child, :nth-last-child(2))";

/// The sales cells of a row of a report.
pub const NON_HEADER_CELL_SELECTOR: &'static str = ":is(td, th):not(:first-child, :last-child, :nth-last-child(2))";

/// The element that scopes a selection to the whole page.
pub const ROOT_SELECTOR: &'static str = ":root";

/// The texts of a list of nodes.
pub open spec fn texts(nodes: Seq<NodeView>) -> Seq<Seq<char>> {
    nodes.map_values(|n: NodeView| n.0)
}

/// The texts of the `i`-th list of matches, or none when there is no such
/// list.
pub open spec fn texts_at(lists: Seq<Seq<NodeView>>, i: int) -> Seq<
    Seq<char>,
> {
    if 0 <= i < lists.len() {
        texts(lists[i])
    } else {
        Seq::empty()
    }
}

/// The dates of the header cells, in order. Cells with a day the month does
/// not have are left out; any other unreadable cell is an error.
pub open spec fn collect_dates(headers: Seq<Seq<char>>, month: u8, year: i32) -> Result<
    Seq<(i32, u8, u8)>,
    ScraperErrorView,
>
    decreases headers.len(),
{
    if headers.len() == 0 {
        Ok(Seq::empty())
    } else {
        match collect_dates(headers.drop_last(), month, year) {
            Err(e) => Err(e),
            Ok(ds) => match date_value(headers.last(), month, year) {
                Ok(d) => Ok(ds.push(d)),
                Err(e) => if e is InvalidDate {
                    Ok(ds)
                } else {
                    Err(e)
                },
            },
        }
    }
}

/// The products of the row labels, in order; the first unreadable label is
/// an error.
pub open spec fn collect_products(labels: Seq<Seq<char>>) -> Result<
    Seq<(u8, u8, Seq<char>)>,
    ScraperErrorView,
>
    decreases labels.len(),
{
    if labels.len() == 0 {
        Ok(Seq::empty())
    } else {
        match collect_products(labels.drop_last()) {
            Err(e) => Err(e),
            Ok(ps) => match product_value(labels.last()) {
                Ok(p) => Ok(ps.push(p)),
                Err(e) => Err(e),
            },
        }
    }
}

/// The sales of the cells of one row, the cell in column `c` being of the
/// `c`-th date; columns past the length of the month are skipped.
pub open spec fn row_sales(
    cells: Seq<Seq<char>>,
    dates: Seq<(i32, u8, u8)>,
    product: (u8, u8, Seq<char>),
    days: int,
) -> Result<Seq<SaleView>, ScraperErrorView>
    decreases cells.len(),
{
    if cells.len() == 0 {
        Ok(Seq::empty())
    } else {
        match row_sales(cells.drop_last(), dates, product, days) {
            Err(e) => Err(e),
            Ok(acc) => {
                let c = cells.len() - 1;
                if c >= days {
                    Ok(acc)
                } else if c >= dates.len() {
                    Err(ScraperErrorView::JaggedTable {
                        cause: "Missing date for col index "@ + decimal(c as nat),
                    })
                } else {
                    match sales_value(cells.last(), dates[c], product) {
                        Err(e) => Err(e),
                        Ok(s) => Ok(acc + s),
                    }
                }
            },
        }
    }
}

/// The sales of all rows, the row `r` being of the `r`-th product.
pub open spec fn grid_sales(
    grid: Seq<Seq<Seq<char>>>,
    dates: Seq<(i32, u8, u8)>,
    products: Seq<(u8, u8, Seq<char>)>,
    days: int,
) -> Result<Seq<SaleView>, ScraperErrorView>
    decreases grid.len(),
{
    if grid.len() == 0 {
        Ok(Seq::empty())
    } else {
        match grid_sales(grid.drop_last(), dates, products, days) {
            Err(e) => Err(e),
            Ok(acc) => {
                let r = grid.len() - 1;
                if r >= products.len() {
                    Err(ScraperErrorView::JaggedTable {
                        cause: "Missing product for row index "@ + decimal(r as nat),
                    })
                } else {
                    match row_sales(grid.last(), dates, products[r], days) {
                        Err(e) => Err(e),
                        Ok(s) => Ok(acc + s),
                    }
                }
            },
        }
    }
}

/// The sales of a report of the given month, from the texts of its date
/// cells, its row labels and its rows.
pub open spec fn sales_report(
    headers: Seq<Seq<char>>,
    labels: Seq<Seq<char>>,
    grid: Seq<Seq<Seq<char>>>,
    month: u8,
    year: i32,
) -> Result<Seq<SaleView>, ScraperErrorView> {
    match collect_dates(headers, month, year) {
        Err(e) => Err(e),
        Ok(dates) => match collect_products(labels) {
            Err(e) => Err(e),
            Ok(products) => grid_sales(grid, dates, products, days_in_month(month as int, year as int)),
        },
    }
}

/// The selection of the date cells and row labels of every table.
pub open spec fn report_heads(document: Seq<char>) -> Option<Seq<Seq<Seq<NodeView>>>> {
    html_select_rows(document, seq![ROOT_SELECTOR@, TABLE_SELECTOR@, HEADER_ROW_SELECTOR@, HEADER_CELL_SELECTOR@])
}

/// The selection of the sales rows of the first table.
pub open spec fn report_body(document: Seq<char>) -> Option<Seq<Seq<Seq<NodeView>>>> {
    html_select_rows(document, seq![TABLE_SELECTOR@, NON_HEADER_ROW_SELECTOR@, NON_HEADER_CELL_SELECTOR@])
}

/// The sales of the report page of the given month: those of its first
/// table, which it must have.
pub open spec fn sales_page(document: Seq<char>, month: u8, year: i32) -> Result<Seq<SaleView>, ScraperErrorView> {
    match (report_heads(document), report_body(document)) {
        (Some(heads), Some(body)) => if heads.len() > 0 {
            sales_report(
                texts_at(heads[0], 0),
                texts_at(heads[0], 1),
                Seq::new(body.len(), |r: int| texts_at(body[r], 0)),
                month,
                year,
            )
        } else {
            Err(ScraperErrorView::MissingElement { element: "sales table"@ })
        },
        _ => Err(ScraperErrorView::MissingElement { element: "sales table"@ }),
    }
}

fn missing_table() -> (res: ScraperError)
    ensures
        res@ == (ScraperErrorView::MissingElement { element: "sales table"@ }),
{
    ScraperError::MissingElement { element: owned("sales table") }
}

fn jagged(prefix: &str, index: usize) -> (res: ScraperError)
    ensures
        res@ == (ScraperErrorView::JaggedTable { cause: prefix@ + decimal(index as nat) }),
{
    let mut cause = owned(prefix);
    push_str(&mut cause, format_unsigned(index as u64).as_str());
    ScraperError::JaggedTable { cause }
}

/// Reads the dates of the header cells of a report.
fn report_dates(headers: &Vec<Node>, month: u8, year: i32) -> (res: Result<Vec<Date>, ScraperError>)
    requires
        1 <= month <= 12,
    ensures
        match collect_dates(texts(nodes_view(headers@)), month, year) {
            Ok(ds) => res matches Ok(r) && r@.map_values(|d: Date| d@) == ds,
            Err(e) => res matches Err(x) && x@ == e,
        },
{
    let ghost all = texts(nodes_view(headers@));
    let mut dates: Vec<Date> = Vec::new();
    let mut i: usize = 0;
    assert(all.take(0) =~= Seq::<Seq<char>>::empty());
    assert(dates@.map_values(|d: Date| d@) =~= Seq::<(i32, u8, u8)>::empty());
    while i < headers.len()
        invariant
            1 <= month <= 12,
            i <= headers@.len(),
            all == texts(nodes_view(headers@)),
            collect_dates(all.take(i as int), month, year) == Ok::<Seq<(i32, u8, u8)>, ScraperErrorView>(
                dates@.map_values(|d: Date| d@),
            ),
        decreases headers@.len() - i,
    {
        let ghost t = all.take(i + 1);
        assert(t.drop_last() =~= all.take(i as int));
        let text = headers[i].text();
        assert(t.last() == text@);
        match parse_date_value(text.as_str(), month, year) {
            Ok(d) => {
                let ghost before = dates@;
                dates.push(d);
                assert(dates@.map_values(|d: Date| d@) =~= before.map_values(|d: Date| d@).push(d@));
            },
            Err(ScraperError::InvalidDate { .. }) => {},
            Err(e) => {
                proof { lemma_collect_dates_err(all, i + 1, month, year); }
                return Err(e);
            },
        }
        i = i + 1;
    }
    assert(all.take(headers@.len() as int) =~= all);
    Ok(dates)
}

proof fn lemma_collect_dates_err(all: Seq<Seq<char>>, k: int, month: u8, year: i32)
    requires
        0 <= k <= all.len(),
        collect_dates(all.take(k), month, year) is Err,
    ensures
        collect_dates(all, month, year) == collect_dates(all.take(k), month, year),
    decreases all.len() - k,
{
    if k < all.len() {
        assert(all.take(k + 1).drop_last() =~= all.take(k));
        lemma_collect_dates_err(all, k + 1, month, year);
    } else {
        assert(all.take(k) =~= all);
    }
}

proof fn lemma_collect_products_err(all: Seq<Seq<char>>, k: int)
    requires
        0 <= k <= all.len(),
        collect_products(all.take(k)) is Err,
    ensures
        collect_products(all) == collect_products(all.take(k)),
    decreases all.len() - k,
{
    if k < all.len() {
        assert(all.take(k + 1).drop_last() =~= all.take(k));
        lemma_collect_products_err(all, k + 1);
    } else {
        assert(all.take(k) =~= all);
    }
}

/// Reads the products of the row labels of a report.
fn report_products(labels: &Vec<Node>) -> (res: Result<Vec<Product>, ScraperError>)
    ensures
        match collect_products(texts(nodes_view(labels@))) {
            Ok(ps) => res matches Ok(r) && r@.map_values(|p: Product| p@) == ps,
            Err(e) => res matches Err(x) && x@ == e,
        },
{
    let ghost all = texts(nodes_view(labels@));
    let mut products: Vec<Product> = Vec::new();
    let mut i: usize = 0;
    assert(all.take(0) =~= Seq::<Seq<char>>::empty());
    assert(products@.map_values(|p: Product| p@) =~= Seq::<(u8, u8, Seq<char>)>::empty());
    while i < labels.len()
        invariant
            i <= labels@.len(),
            all == texts(nodes_view(labels@)),
            collect_products(all.take(i as int)) == Ok::<Seq<(u8, u8, Seq<char>)>, ScraperErrorView>(
                products@.map_values(|p: Product| p@),
            ),
        decreases labels@.len() - i,
    {
        let ghost t = all.take(i + 1);
        assert(t.drop_last() =~= all.take(i as int));
        let text = labels[i].text();
        assert(t.last() == text@);
        match parse_product_value(text.as_str()) {
            Ok(p) => {
                let ghost before = products@;
                products.push(p);
                assert(products@.map_values(|p: Product| p@) =~= before.map_values(|p: Product| p@).push(p@));
            },
            Err(e) => {
                proof { lemma_collect_products_err(all, i + 1); }
                return Err(e);
            },
        }
        i = i + 1;
    }
    assert(all.take(labels@.len() as int) =~= all);
    Ok(products)
}

proof fn lemma_row_sales_err(cells: Seq<Seq<char>>, k: int, dates: Seq<(i32, u8, u8)>, product: (u8, u8, Seq<char>), days: int)
    requires
        0 <= k <= cells.len(),
        row_sales(cells.take(k), dates, product, days) is Err,
    ensures
        row_sales(cells, dates, product, days) == row_sales(cells.take(k), dates, product, days),
    decreases cells.len() - k,
{
    if k < cells.len() {
        assert(cells.take(k + 1).drop_last() =~= cells.take(k));
        lemma_row_sales_err(cells, k + 1, dates, product, days);
    } else {
        assert(cells.take(k) =~= cells);
    }
}

proof fn lemma_grid_sales_err(grid: Seq<Seq<Seq<char>>>, k: int, dates: Seq<(i32, u8, u8)>, products: Seq<(u8, u8, Seq<char>)>, days: int)
    requires
        0 <= k <= grid.len(),
        grid_sales(grid.take(k), dates, products, days) is Err,
    ensures
        grid_sales(grid, dates, products, days) == grid_sales(grid.take(k), dates, products, days),
    decreases grid.len() - k,
{
    if k < grid.len() {
        assert(grid.take(k + 1).drop_last() =~= grid.take(k));
        lemma_grid_sales_err(grid, k + 1, dates, products, days);
    } else {
        assert(grid.take(k) =~= grid);
    }
}

/// Appends the sales of the cells of one row to `out`.
fn append_row_sales(
    out: &mut Vec<MachineSalesEntry>,
    cells: &Vec<Node>,
    dates: &Vec<Date>,
    product: &Product,
    days: usize,
) -> (res: Result<(), ScraperError>)
    ensures
        match row_sales(texts(nodes_view(cells@)), dates@.map_values(|d: Date| d@), product@, days as int) {
            Ok(s) => res is Ok && sales_view(final(out)@) == sales_view(old(out)@) + s,
            Err(e) => res matches Err(x) && x@ == e,
        },
{
    let ghost all = texts(nodes_view(cells@));
    let ghost ds = dates@.map_values(|d: Date| d@);
    let ghost start = sales_view(out@);
    assert(start + Seq::<SaleView>::empty() =~= start);
    let mut c: usize = 0;
    while c < cells.len()
        invariant
            c <= cells@.len(),
            all == texts(nodes_view(cells@)),
            ds == dates@.map_values(|d: Date| d@),
            row_sales(all.take(c as int), ds, product@, days as int) matches Ok(acc) && sales_view(out@)
                == start + acc,
        decreases cells@.len() - c,
    {
        let ghost t = all.take(c + 1);
        assert(t.drop_last() =~= all.take(c as int));
        let text = cells[c].text();
        assert(t.last() == text@);
        if c >= days {
        } else if c >= dates.len() {
            proof { lemma_row_sales_err(all, c + 1, ds, product@, days as int); }
            return Err(jagged("Missing date for col index ", c));
        } else {
            match parse_sales_value(text.as_str(), &dates[c], product) {
                Err(e) => {
                    proof { lemma_row_sales_err(all, c + 1, ds, product@, days as int); }
                    return Err(e);
                },
                Ok(mut s) => {
                    let ghost before = out@;
                    let ghost added = s@;
                    out.append(&mut s);
                    assert(out@ =~= before + added);
                    assert(sales_view(out@) =~= sales_view(before) + sales_view(added));
                },
            }
        }
        c = c + 1;
    }
    assert(all.take(cells@.len() as int) =~= all);
    Ok(())
}

/// The cell texts of a row of the body selection.
pub open spec fn body_grid(body: Seq<Vec<Vec<Node>>>) -> Seq<Seq<Seq<char>>> {
    Seq::new(body.len(), |r: int| texts_at(body[r]@.map_values(|m: Vec<Node>| nodes_view(m@)), 0))
}

/// Reads the sales of the report page of the given month (the report is
/// queried for a whole month at a time).
pub fn parse_sales_report(document: &str, month: u8, year: i32) -> (res: Result<
    Vec<MachineSalesEntry>,
    ScraperError,
>)
    requires
        1 <= month <= 12,
    ensures
        match sales_page(document@, month, year) {
            Ok(s) => res matches Ok(r) && sales_view(r@) == s,
            Err(e) => res matches Err(x) && x@ == e,
        },
{
    let head_selectors: Vec<&str> = vec![ROOT_SELECTOR, TABLE_SELECTOR, HEADER_ROW_SELECTOR, HEADER_CELL_SELECTOR];
    let body_selectors: Vec<&str> = vec![TABLE_SELECTOR, NON_HEADER_ROW_SELECTOR, NON_HEADER_CELL_SELECTOR];
    assert(selectors_view(head_selectors@) =~= seq![ROOT_SELECTOR@, TABLE_SELECTOR@, HEADER_ROW_SELECTOR@, HEADER_CELL_SELECTOR@]);
    assert(selectors_view(body_selectors@) =~= seq![TABLE_SELECTOR@, NON_HEADER_ROW_SELECTOR@, NON_HEADER_CELL_SELECTOR@]);
    let heads = match select_rows(document, head_selectors.as_slice()) {
        Some(h) => h,
        None => return Err(missing_table()),
    };
    let body = match select_rows(document, body_selectors.as_slice()) {
        Some(b) => b,
        None => return Err(missing_table()),
    };
    if heads.len() == 0 {
        return Err(missing_table());
    }
    let empty: Vec<Node> = Vec::new();
    let ghost first = heads@[0]@.map_values(|m: Vec<Node>| nodes_view(m@));
    let header_cells = if heads[0].len() > 0 { &heads[0][0] } else { &empty };
    let label_cells = if heads[0].len() > 1 { &heads[0][1] } else { &empty };
    assert(texts(nodes_view(header_cells@)) =~= texts_at(first, 0));
    assert(texts(nodes_view(label_cells@)) =~= texts_at(first, 1));
    assert(report_heads(document@) == Some(rows_view(heads@)));
    assert(report_body(document@) == Some(rows_view(body@)));
    assert(rows_view(heads@)[0] == first);
    let dates = match report_dates(header_cells, month, year) {
        Ok(d) => d,
        Err(e) => return Err(e),
    };
    let products = match report_products(label_cells) {
        Ok(p) => p,
        Err(e) => return Err(e),
    };
    let days = month_length(month, year) as usize;
    let ghost grid = body_grid(body@);
    let ghost ds = dates@.map_values(|d: Date| d@);
    let ghost ps = products@.map_values(|p: Product| p@);
    assert(grid =~= Seq::new(rows_view(body@).len(), |r: int| texts_at(rows_view(body@)[r], 0)));
    assert(sales_page(document@, month, year) == grid_sales(grid, ds, ps, days as int));
    let mut sales: Vec<MachineSalesEntry> = Vec::new();
    assert(sales_view(sales@) =~= Seq::<SaleView>::empty());
    assert(grid.take(0) =~= Seq::<Seq<Seq<char>>>::empty());
    let mut r: usize = 0;
    while r < body.len()
        invariant
            r <= body@.len(),
            empty@.len() == 0,
            grid == body_grid(body@),
            ds == dates@.map_values(|d: Date| d@),
            ps == products@.map_values(|p: Product| p@),
            days as int == days_in_month(month as int, year as int),
            sales_page(document@, month, year) == grid_sales(grid, ds, ps, days as int),
            grid_sales(grid.take(r as int), ds, ps, days as int) == Ok::<Seq<SaleView>, ScraperErrorView>(sales_view(sales@)),
        decreases body@.len() - r,
    {
        let ghost t = grid.take(r + 1);
        assert(t.drop_last() =~= grid.take(r as int));
        if r >= products.len() {
            proof { lemma_grid_sales_err(grid, r + 1, ds, ps, days as int); }
            return Err(jagged("Missing product for row index ", r));
        }
        let ghost rv = body@[r as int]@.map_values(|m: Vec<Node>| nodes_view(m@));
        assert(t.last() == grid[r as int]);
        assert(grid[r as int] == texts_at(rv, 0));
        let row_cells = if body[r].len() > 0 { &body[r][0] } else { &empty };
        assert(rv.len() > 0 ==> rv[0] == nodes_view(row_cells@));
        assert(texts(nodes_view(row_cells@)) =~= t.last());
        match append_row_sales(&mut sales, row_cells, &dates, &products[r], days) {
            Ok(()) => {},
            Err(e) => {
                proof { lemma_grid_sales_err(grid, r + 1, ds, ps, days as int); }
                return Err(e);
            },
        }
        r = r + 1;
    }
    assert(grid.take(body@.len() as int) =~= grid);
    Ok(sales)
}

/// Whether a date is a valid day of the given month and year.
pub open spec fn dated_in(d: (i32, u8, u8), month: u8, year: i32) -> bool {
    is_valid_date(d) && d.0 == year && d.1 == month
}

proof fn lemma_collect_dates_in_month(headers: Seq<Seq<char>>, month: u8, year: i32)
    requires
        1 <= month <= 12,
    ensures
        collect_dates(headers, month, year) matches Ok(ds) ==> forall|i: int|
            0 <= i < ds.len() ==> dated_in(#[trigger] ds[i], month, year),
    decreases headers.len(),
{
    if headers.len() > 0 {
        lemma_collect_dates_in_month(headers.drop_last(), month, year);
    }
}

proof fn lemma_row_sales_dates(
    cells: Seq<Seq<char>>,
    dates: Seq<(i32, u8, u8)>,
    product: (u8, u8, Seq<char>),
    days: int,
    month: u8,
    year: i32,
)
    requires
        forall|i: int| 0 <= i < dates.len() ==> dated_in(#[trigger] dates[i], month, year),
    ensures
        row_sales(cells, dates, product, days) matches Ok(s) ==> forall|i: int|
            0 <= i < s.len() ==> dated_in(#[trigger] s[i].0, month, year),
    decreases cells.len(),
{
    if cells.len() > 0 {
        lemma_row_sales_dates(cells.drop_last(), dates, product, days, month, year);
        let c = cells.len() - 1;
        if let Ok(acc) = row_sales(cells.drop_last(), dates, product, days) {
            if c < days && c < dates.len() {
                if let Ok(s) = sales_value(cells.last(), dates[c], product) {
                    assert forall|i: int| 0 <= i < s.len() implies s[i].0 == dates[c] by {}
                    assert forall|i: int| 0 <= i < (acc + s).len() implies dated_in(
                        #[trigger] (acc + s)[i].0,
                        month,
                        year,
                    ) by {
                        if i >= acc.len() {
                            assert((acc + s)[i] == s[i - acc.len()]);
                        }
                    }
                }
            }
        }
    }
}

proof fn lemma_grid_sales_dates(
    grid: Seq<Seq<Seq<char>>>,
    dates: Seq<(i32, u8, u8)>,
    products: Seq<(u8, u8, Seq<char>)>,
    days: int,
    month: u8,
    year: i32,
)
    requires
        forall|i: int| 0 <= i < dates.len() ==> dated_in(#[trigger] dates[i], month, year),
    ensures
        grid_sales(grid, dates, products, days) matches Ok(s) ==> forall|i: int|
            0 <= i < s.len() ==> dated_in(#[trigger] s[i].0, month, year),
    decreases grid.len(),
{
    if grid.len() > 0 {
        lemma_grid_sales_dates(grid.drop_last(), dates, products, days, month, year);
        let r = grid.len() - 1;
        if let Ok(acc) = grid_sales(grid.drop_last(), dates, products, days) {
            if r < products.len() {
                lemma_row_sales_dates(grid.last(), dates, products[r], days, month, year);
                if let Ok(s) = row_sales(grid.last(), dates, products[r], days) {
                    assert forall|i: int| 0 <= i < (acc + s).len() implies dated_in(
                        #[trigger] (acc + s)[i].0,
                        month,
                        year,
                    ) by {
                        if i >= acc.len() {
                            assert((acc + s)[i] == s[i - acc.len()]);
                        }
                    }
                }
            }
        }
    }
}

/// Every sale that the report page of a month gives is dated on a valid day
/// of that month.
pub proof fn lemma_sales_page_in_month(document: Seq<char>, month: u8, year: i32)
    requires
        1 <= month <= 12,
    ensures
        sales_page(document, month, year) matches Ok(s) ==> forall|i: int|
            0 <= i < s.len() ==> dated_in(#[trigger] s[i].0, month, year),
{
    if let (Some(heads), Some(body)) = (report_heads(document), report_body(document)) {
        if heads.len() > 0 {
            let headers = texts_at(heads[0], 0);
            lemma_collect_dates_in_month(headers, month, year);
            if let Ok(dates) = collect_dates(headers, month, year) {
                if let Ok(products) = collect_products(texts_at(heads[0], 1)) {
                    lemma_grid_sales_dates(
                        Seq::new(body.len(), |r: int| texts_at(body[r], 0)),
                        dates,
                        products,
                        days_in_month(month as int, year as int),
                        month,
                        year,
                    );
                }
            }
        }
    }
}


/// The date cells, row labels and rows of the first table of a report page,
/// as texts; `None` when the page has no table.
pub open spec fn page_table(document: Seq<char>) -> Option<
    (Seq<Seq<char>>, Seq<Seq<char>>, Seq<Seq<Seq<char>>>),
> {
    match (report_heads(document), report_body(document)) {
        (Some(heads), Some(body)) => if heads.len() > 0 {
            Some(
                (
                    texts_at(heads[0], 0),
                    texts_at(heads[0], 1),
                    Seq::new(body.len(), |r: int| texts_at(body[r], 0)),
                ),
            )
        } else {
            None
        },
        _ => None,
    }
}

/// The sales of one cell, or none when it does not read.
pub open spec fn cell_sales(
    value: Seq<char>,
    date: (i32, u8, u8),
    product: (u8, u8, Seq<char>),
) -> Seq<SaleView> {
    match sales_value(value, date, product) {
        Ok(s) => s,
        Err(_) => Seq::empty(),
    }
}

/// How many cells of a row are days of the month: those before the month
/// length.
pub open spec fn counted_cells(cells: Seq<Seq<char>>, days: int) -> int {
    if cells.len() < days {
        cells.len() as int
    } else {
        days
    }
}

/// The sales of each counted cell of a row, cell by cell.
pub open spec fn row_cell_sales(
    cells: Seq<Seq<char>>,
    dates: Seq<(i32, u8, u8)>,
    product: (u8, u8, Seq<char>),
    days: int,
) -> Seq<Seq<SaleView>> {
    Seq::new(counted_cells(cells, days) as nat, |c: int| cell_sales(cells[c], dates[c], product))
}

/// The sales of a table: for each row in order, the sales of its counted
/// cells in order, all joined.
pub open spec fn grid_cell_sales(
    grid: Seq<Seq<Seq<char>>>,
    dates: Seq<(i32, u8, u8)>,
    products: Seq<(u8, u8, Seq<char>)>,
    days: int,
) -> Seq<SaleView> {
    Seq::new(
        grid.len(),
        |r: int| row_cell_sales(grid[r], dates, products[r], days).flatten(),
    ).flatten()
}

/// Whether every counted cell of a row has a date and reads.
pub open spec fn row_reads(
    cells: Seq<Seq<char>>,
    dates: Seq<(i32, u8, u8)>,
    product: (u8, u8, Seq<char>),
    days: int,
) -> bool {
    forall|c: int|
        0 <= c < counted_cells(cells, days) ==> c < dates.len() && (#[trigger] sales_value(
            cells[c],
            dates[c],
            product,
        )) is Ok
}

/// Whether every row of a table has a product and every counted cell a date
/// and readable sales.
pub open spec fn grid_reads(
    grid: Seq<Seq<Seq<char>>>,
    dates: Seq<(i32, u8, u8)>,
    products: Seq<(u8, u8, Seq<char>)>,
    days: int,
) -> bool {
    &&& grid.len() <= products.len()
    &&& forall|r: int| 0 <= r < grid.len() ==> row_reads(#[trigger] grid[r], dates, products[r], days)
}

proof fn lemma_row_sales_by_cells(
    cells: Seq<Seq<char>>,
    dates: Seq<(i32, u8, u8)>,
    product: (u8, u8, Seq<char>),
    days: int,
)
    requires
        days >= 0,
        row_sales(cells, dates, product, days) is Ok,
    ensures
        row_reads(cells, dates, product, days),
        row_sales(cells, dates, product, days) == Ok::<Seq<SaleView>, ScraperErrorView>(
            row_cell_sales(cells, dates, product, days).flatten_alt(),
        ),
    decreases cells.len(),
{
    let all = row_cell_sales(cells, dates, product, days);
    if cells.len() == 0 {
        assert(all =~= Seq::<Seq<SaleView>>::empty());
    } else {
        let rest = cells.drop_last();
        lemma_row_sales_by_cells(rest, dates, product, days);
        let before = row_cell_sales(rest, dates, product, days);
        let c = cells.len() - 1;
        if c >= days {
            assert(all =~= before);
            assert forall|k: int| 0 <= k < counted_cells(cells, days) implies k < dates.len()
                && (#[trigger] sales_value(cells[k], dates[k], product)) is Ok by {
                assert(cells[k] == rest[k]);
            }
        } else {
            assert(all.drop_last() =~= before);
            assert(all.last() == cell_sales(cells.last(), dates[c], product));
            assert forall|k: int| 0 <= k < counted_cells(cells, days) implies k < dates.len()
                && (#[trigger] sales_value(cells[k], dates[k], product)) is Ok by {
                if k < c {
                    assert(cells[k] == rest[k]);
                }
            }
        }
    }
}

proof fn lemma_grid_sales_by_cells(
    grid: Seq<Seq<Seq<char>>>,
    dates: Seq<(i32, u8, u8)>,
    products: Seq<(u8, u8, Seq<char>)>,
    days: int,
)
    requires
        days >= 0,
        grid_sales(grid, dates, products, days) is Ok,
    ensures
        grid_reads(grid, dates, products, days),
        grid_sales(grid, dates, products, days) == Ok::<Seq<SaleView>, ScraperErrorView>(
            grid_cell_sales(grid, dates, products, days),
        ),
    decreases grid.len(),
{
    let rows = Seq::new(
        grid.len(),
        |r: int| row_cell_sales(grid[r], dates, products[r], days).flatten(),
    );
    rows.lemma_flatten_and_flatten_alt_are_equivalent();
    if grid.len() == 0 {
        assert(rows =~= Seq::<Seq<SaleView>>::empty());
    } else {
        let rest = grid.drop_last();
        let r = grid.len() - 1;
        lemma_grid_sales_by_cells(rest, dates, products, days);
        let rest_rows = Seq::new(
            rest.len(),
            |q: int| row_cell_sales(rest[q], dates, products[q], days).flatten(),
        );
        rest_rows.lemma_flatten_and_flatten_alt_are_equivalent();
        assert(rows.drop_last() =~= rest_rows);
        lemma_row_sales_by_cells(grid.last(), dates, products[r], days);
        row_cell_sales(grid.last(), dates, products[r], days).lemma_flatten_and_flatten_alt_are_equivalent();
        assert(rows.last() == row_cell_sales(grid.last(), dates, products[r], days).flatten());
        assert forall|q: int| 0 <= q < grid.len() implies row_reads(
            #[trigger] grid[q],
            dates,
            products[q],
            days,
        ) by {
            if q < r {
                assert(grid[q] == rest[q]);
            }
        }
    }
}

/// The sales that a report page gives are those of its table, row after row
/// and, in each row, cell after cell: the sales of each day cell before the
/// month length, of the date of its column and the product of its row. Cells
/// at or past the month length give none. A page that reads has a table,
/// readable dates and labels, a product for each row, and a date and
/// readable sales for each of those cells.
pub proof fn lemma_sales_page_by_cells(document: Seq<char>, month: u8, year: i32)
    requires
        sales_page(document, month, year) is Ok,
    ensures
        page_table(document) matches Some(t)
            && collect_dates(t.0, month, year) matches Ok(dates)
            && collect_products(t.1) matches Ok(products)
            && grid_reads(t.2, dates, products, days_in_month(month as int, year as int))
            && sales_page(document, month, year) == Ok::<Seq<SaleView>, ScraperErrorView>(
                grid_cell_sales(t.2, dates, products, days_in_month(month as int, year as int)),
            ),
{
    let t = page_table(document)->0;
    let dates = collect_dates(t.0, month, year)->Ok_0;
    let products = collect_products(t.1)->Ok_0;
    lemma_grid_sales_by_cells(t.2, dates, products, days_in_month(month as int, year as int));
}

proof fn lemma_row_sales_counted_cells(
    cells1: Seq<Seq<char>>,
    cells2: Seq<Seq<char>>,
    dates: Seq<(i32, u8, u8)>,
    product: (u8, u8, Seq<char>),
    days: int,
)
    requires
        cells1.len() == cells2.len(),
        forall|c: int| 0 <= c < days && c < cells1.len() ==> cells1[c] == cells2[c],
    ensures
        row_sales(cells1, dates, product, days) == row_sales(cells2, dates, product, days),
    decreases cells1.len(),
{
    if cells1.len() > 0 {
        lemma_row_sales_counted_cells(cells1.drop_last(), cells2.drop_last(), dates, product, days);
    }
}

proof fn lemma_grid_sales_counted_cells(
    grid1: Seq<Seq<Seq<char>>>,
    grid2: Seq<Seq<Seq<char>>>,
    dates: Seq<(i32, u8, u8)>,
    products: Seq<(u8, u8, Seq<char>)>,
    days: int,
)
    requires
        grid1.len() == grid2.len(),
        forall|r: int| 0 <= r < grid1.len() ==> (#[trigger] grid1[r]).len() == grid2[r].len(),
        forall|r: int, c: int|
            0 <= r < grid1.len() && 0 <= c < days && c < grid1[r].len() ==> #[trigger] grid1[r][c]
                == grid2[r][c],
    ensures
        grid_sales(grid1, dates, products, days) == grid_sales(grid2, dates, products, days),
    decreases grid1.len(),
{
    if grid1.len() > 0 {
        let r = grid1.len() - 1;
        lemma_grid_sales_counted_cells(grid1.drop_last(), grid2.drop_last(), dates, products, days);
        if r < products.len() {
            assert forall|c: int| 0 <= c < days && c < grid1.last().len() implies grid1.last()[c]
                == grid2.last()[c] by {
                assert(grid1[r][c] == grid2[r][c]);
            }
            lemma_row_sales_counted_cells(grid1.last(), grid2.last(), dates, products[r], days);
        }
    }
}

/// Two report pages whose tables differ only in the day cells at or past
/// the month length (the pages list days 1 to 31 whatever the month) give
/// the same result: the same sales, or the same error.
pub proof fn lemma_cells_past_month_ignored(document1: Seq<char>, document2: Seq<char>, month: u8, year: i32)
    requires
        page_table(document1) matches Some(t1) && page_table(document2) matches Some(t2)
            && t1.0 == t2.0 && t1.1 == t2.1 && t1.2.len() == t2.2.len()
            && (forall|r: int| 0 <= r < t1.2.len() ==> (#[trigger] t1.2[r]).len() == t2.2[r].len())
            && (forall|r: int, c: int|
                0 <= r < t1.2.len() && 0 <= c < days_in_month(month as int, year as int) && c
                    < t1.2[r].len() ==> #[trigger] t1.2[r][c] == t2.2[r][c]),
    ensures
        sales_page(document1, month, year) == sales_page(document2, month, year),
{
    let t1 = page_table(document1)->0;
    let t2 = page_table(document2)->0;
    if let Ok(dates) = collect_dates(t1.0, month, year) {
        if let Ok(products) = collect_products(t1.1) {
            lemma_grid_sales_counted_cells(
                t1.2,
                t2.2,
                dates,
                products,
                days_in_month(month as int, year as int),
            );
        }
    }
}

} // verus!
