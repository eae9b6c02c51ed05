//! The per-day sales report of the classic pages. Its table has a row of
//! dates (`dd/mm/yy`), then a row per slot whose first cell holds the slot's
//! coordinate in a `font` element and its name in a `b` element, and whose
//! other cells hold `<count>/<total price>` for the day of their column.
use vstd::prelude::*;

use crate::calendar::{described_date, parse_described_date};
use crate::entities::{Date, MachineSalesEntry, Product};
use crate::impls::unicum_api::utils::{
    next_count, next_float, parse_next, parse_next_float, sel_to_row_and_col, selection_digits,
};
use crate::impls::unicum_api::ModuleError;
use crate::outbound::official::html::{html_select_rows, nodes_view, rows_view, select_rows, selectors_view, Node, NodeView};
use crate::outbound::official::stock::cell_matches;
use crate::outbound::official::upstream::{sales_view, SaleView};
use crate::text::{
    decimal, format_signed, format_unsigned, join_spaced, join_with_spaces, owned, push_str,
    signed_decimal, split_all, split_pieces, trim, trim_str,
};

verus! {

broadcast use vstd::string::group_string_axioms;

/// The report's table.
pub const DAILY_TABLE_SELECTOR: &'static str = "table";

/// The row of dates.
pub const DATE_ROW_SELECTOR: &'static str = "tr:first-child";

/// The rows of the slots.
pub const SALE_ROW_SELECTOR: &'static str = "tr:not(:first-child, :last-child, :nth-last-child(2))";

/// The element of a slot row that holds the slot's coordinate.
pub const SLOT_CELL_SELECTOR: &'static str = "td:first-child font";

/// The element of a slot row that holds the slot's name.
pub const NAME_CELL_SELECTOR: &'static str = "td:first-child b";

/// The cells of a row that belong to a day.
pub const DAY_CELL_SELECTOR: &'static str = "td:not(:first-child, :last-child, :nth-last-child(2))";

/// How the dates of the report are written.
pub const DAY_DATE_DESCRIPTION: &'static str = "[day padding:zero]/[month padding:zero repr:numerical]/[year padding:zero repr:last_two]";

/// The century of the two-digit years of the report.
pub const DAY_DATE_CENTURY: i16 = 20;

/// The first text node of an element, or the empty text.
pub open spec fn cell_first_text(cell: NodeView) -> Seq<char> {
    if cell.3.len() > 0 {
        cell.3[0]
    } else {
        Seq::empty()
    }
}

/// The first text node of the first match, or the empty text.
pub open spec fn first_text_node(matches: Seq<NodeView>) -> Seq<char> {
    if matches.len() > 0 {
        cell_first_text(matches[0])
    } else {
        Seq::empty()
    }
}

/// The text nodes of the first match joined with spaces and trimmed, or the
/// empty text.
pub open spec fn joined_text(matches: Seq<NodeView>) -> Seq<char> {
    if matches.len() > 0 {
        trim(join_spaced(matches[0].3))
    } else {
        Seq::empty()
    }
}

/// The number of bytes of a character in UTF-8.
pub open spec fn utf8_width(c: char) -> int {
    if (c as u32) < 0x80 {
        1
    } else if (c as u32) < 0x800 {
        2
    } else if (c as u32) < 0x10000 {
        3
    } else {
        4
    }
}

/// The selection inside a slot's coordinate text: the text without its
/// first byte and its last two bytes. `None` when those bytes do not make
/// up whole characters or leave less than nothing, where slicing the text
/// fails.
pub open spec fn slot_selection(slot: Seq<char>) -> Option<Seq<char>> {
    if slot.len() >= 2 && utf8_width(slot[0]) == 1 && utf8_width(slot.last()) == 2 {
        Some(slot.subrange(1, slot.len() - 1))
    } else if slot.len() >= 3 && utf8_width(slot[0]) == 1 && utf8_width(slot.last()) == 1
        && utf8_width(slot[slot.len() - 2]) == 1 {
        Some(slot.subrange(1, slot.len() - 2))
    } else {
        None
    }
}

/// The date of a date cell's text, or the cause of the failure.
pub open spec fn day_date(text: Seq<char>) -> Result<(i32, u8, u8), Seq<char>> {
    match described_date(text, DAY_DATE_DESCRIPTION@, DAY_DATE_CENTURY) {
        Ok(d) => Ok(d),
        Err((true, e)) => Err("failed to parse "@ + text + ": "@ + e),
        Err((false, e)) => Err("failed to create date from a Parsed: "@ + e),
    }
}

/// The date of each date cell, by position: none for a cell whose trimmed
/// first text is empty; the first cell that holds no date is the error.
pub open spec fn day_dates(cells: Seq<NodeView>) -> Result<Seq<Option<(i32, u8, u8)>>, Seq<char>>
    decreases cells.len(),
{
    if cells.len() == 0 {
        Ok(Seq::empty())
    } else {
        match day_dates(cells.drop_last()) {
            Err(e) => Err(e),
            Ok(acc) => {
                let text = trim(cell_first_text(cells.last()));
                if text.len() == 0 {
                    Ok(acc.push(None))
                } else {
                    match day_date(text) {
                        Err(e) => Err(e),
                        Ok(d) => Ok(acc.push(Some(d))),
                    }
                }
            },
        }
    }
}

/// The date of column `i`, if it has one.
pub open spec fn date_at(dates: Seq<Option<(i32, u8, u8)>>, i: int) -> Option<(i32, u8, u8)> {
    if 0 <= i < dates.len() {
        dates[i]
    } else {
        None
    }
}

/// The outcome of reading a part of the report: `None` where reading it
/// fails outright (a slot text that cannot be sliced, a sale in a column
/// without a date), else the sales or the cause of the failure.
pub type DailyOutcome = Option<Result<Seq<SaleView>, Seq<char>>>;

/// The sales of the cell in column `i` of a slot's row: nothing for an
/// empty cell; else the count (the first piece before a `/`) and the total
/// price (the second), each trimmed, and as many sales as the count, each
/// with the date of the column, the slot, the total price and the count.
pub open spec fn cell_sales(
    cell: NodeView,
    i: int,
    dates: Seq<Option<(i32, u8, u8)>>,
    product: (u8, u8, Seq<char>),
) -> DailyOutcome {
    let text = trim(join_spaced(cell.3));
    if text.len() == 0 {
        Some(Ok(Seq::empty()))
    } else {
        let pieces = split_pieces(text, '/');
        match next_count(pieces, 0) {
            Err(c) => Some(Err(c)),
            Ok(count) => match next_float(pieces, 1) {
                Err(c) => Some(Err(c)),
                Ok(price) => if count == 0 {
                    Some(Ok(Seq::empty()))
                } else {
                    match date_at(dates, i) {
                        None => None,
                        Some(d) => Some(
                            Ok(Seq::new(count as nat, |j: int| (d, product, price, count))),
                        ),
                    }
                },
            },
        }
    }
}

/// The sales of the day cells of a slot's row, column by column.
pub open spec fn cells_sales(
    cells: Seq<NodeView>,
    dates: Seq<Option<(i32, u8, u8)>>,
    product: (u8, u8, Seq<char>),
) -> DailyOutcome
    decreases cells.len(),
{
    if cells.len() == 0 {
        Some(Ok(Seq::empty()))
    } else {
        match cells_sales(cells.drop_last(), dates, product) {
            None => None,
            Some(Err(e)) => Some(Err(e)),
            Some(Ok(acc)) => match cell_sales(cells.last(), cells.len() - 1, dates, product) {
                None => None,
                Some(Err(e)) => Some(Err(e)),
                Some(Ok(s)) => Some(Ok(acc + s)),
            },
        }
    }
}

/// The sales of a slot's row: the slot's name, its coordinate read from the
/// selection inside its coordinate text, then its day cells.
pub open spec fn slot_row_sales(row: Seq<Seq<NodeView>>, dates: Seq<Option<(i32, u8, u8)>>) -> DailyOutcome {
    let name = joined_text(cell_matches(row, 1));
    match slot_selection(first_text_node(cell_matches(row, 0))) {
        None => None,
        Some(sel) => match selection_digits(sel) {
            Err(c) => Some(Err(c)),
            Ok((r, c)) => cells_sales(cell_matches(row, 2), dates, (r, c, name)),
        },
    }
}

/// The sales of all slot rows, in order.
pub open spec fn slot_rows_sales(rows: Seq<Seq<Seq<NodeView>>>, dates: Seq<Option<(i32, u8, u8)>>) -> DailyOutcome
    decreases rows.len(),
{
    if rows.len() == 0 {
        Some(Ok(Seq::empty()))
    } else {
        match slot_rows_sales(rows.drop_last(), dates) {
            None => None,
            Some(Err(e)) => Some(Err(e)),
            Some(Ok(acc)) => match slot_row_sales(rows.last(), dates) {
                None => None,
                Some(Err(e)) => Some(Err(e)),
                Some(Ok(s)) => Some(Ok(acc + s)),
            },
        }
    }
}

/// The sales of the report, from its date cells and its slot rows: the
/// dates are read first.
pub open spec fn daily_sales_of(date_cells: Seq<NodeView>, rows: Seq<Seq<Seq<NodeView>>>) -> DailyOutcome {
    match day_dates(date_cells) {
        Err(e) => Some(Err(e)),
        Ok(dates) => slot_rows_sales(rows, dates),
    }
}

/// The selection of the report's date row.
pub open spec fn date_rows(document: Seq<char>) -> Option<Seq<Seq<Seq<NodeView>>>> {
    html_select_rows(document, seq![DAILY_TABLE_SELECTOR@, DATE_ROW_SELECTOR@, DAY_CELL_SELECTOR@])
}

/// The selection of the report's slot rows.
pub open spec fn slot_rows(document: Seq<char>) -> Option<Seq<Seq<Seq<NodeView>>>> {
    html_select_rows(
        document,
        seq![
            DAILY_TABLE_SELECTOR@,
            SALE_ROW_SELECTOR@,
            SLOT_CELL_SELECTOR@,
            NAME_CELL_SELECTOR@,
            DAY_CELL_SELECTOR@,
        ],
    )
}

/// The sales of a report page: its table must be there; the date cells are
/// those of its first row, if it has one.
pub open spec fn daily_report(document: Seq<char>) -> DailyOutcome {
    match (date_rows(document), slot_rows(document)) {
        (Some(dr), Some(sr)) => daily_sales_of(
            if dr.len() > 0 {
                cell_matches(dr[0], 0)
            } else {
                Seq::empty()
            },
            sr,
        ),
        _ => Some(Err("Couldn't find <table>"@)),
    }
}

/// Whether a result reports an outcome that is not a failure outright.
pub open spec fn outcome_matches(res: Result<Vec<MachineSalesEntry>, ModuleError>, outcome: Result<Seq<SaleView>, Seq<char>>) -> bool {
    match outcome {
        Ok(s) => res matches Ok(r) && sales_view(r@) == s,
        Err(c) => res matches Err(ModuleError::ParseError { cause }) && cause@ == c,
    }
}

fn utf8_width_of(c: char) -> (res: usize)
    ensures
        res == utf8_width(c),
{
    let v = c as u32;
    if v < 0x80 {
        1
    } else if v < 0x800 {
        2
    } else if v < 0x10000 {
        3
    } else {
        4
    }
}

/// The selection inside a slot's coordinate text, or `None` where slicing
/// the text fails.
fn slice_slot(slot: &str) -> (res: Option<&str>)
    ensures
        match slot_selection(slot@) {
            None => res is None,
            Some(s) => res matches Some(r) && r@ == s,
        },
{
    let n = slot.unicode_len();
    if n >= 2 && utf8_width_of(slot.get_char(0)) == 1 && utf8_width_of(slot.get_char(n - 1)) == 2 {
        return Some(slot.substring_char(1, n - 1));
    }
    if n >= 3 && utf8_width_of(slot.get_char(0)) == 1 && utf8_width_of(slot.get_char(n - 1)) == 1
        && utf8_width_of(slot.get_char(n - 2)) == 1 {
        return Some(slot.substring_char(1, n - 2));
    }
    None
}

/// The dates of a list.
pub open spec fn dates_view(dates: Seq<Option<Date>>) -> Seq<Option<(i32, u8, u8)>> {
    dates.map_values(
        |o: Option<Date>|
            match o {
                Some(d) => Some(d@),
                None => None,
            },
    )
}

proof fn lemma_day_dates_err(cells: Seq<NodeView>, k: int)
    requires
        0 <= k <= cells.len(),
        day_dates(cells.take(k)) is Err,
    ensures
        day_dates(cells) == day_dates(cells.take(k)),
    decreases cells.len() - k,
{
    if k < cells.len() {
        assert(cells.take(k + 1).drop_last() =~= cells.take(k));
        lemma_day_dates_err(cells, k + 1);
    } else {
        assert(cells.take(k) =~= cells);
    }
}

/// Reads the date of each date cell.
fn read_day_dates(cells: &Vec<Node>) -> (res: Result<Vec<Option<Date>>, ModuleError>)
    ensures
        match day_dates(nodes_view(cells@)) {
            Ok(ds) => res matches Ok(r) && dates_view(r@) == ds,
            Err(c) => res matches Err(ModuleError::ParseError { cause }) && cause@ == c,
        },
{
    let ghost all = nodes_view(cells@);
    let mut dates: Vec<Option<Date>> = Vec::new();
    let mut i: usize = 0;
    proof {
        reveal_strlit("");
    }
    assert(all.take(0) =~= Seq::<NodeView>::empty());
    assert(dates_view(dates@) =~= Seq::<Option<(i32, u8, u8)>>::empty());
    while i < cells.len()
        invariant
            i <= cells@.len(),
            all == nodes_view(cells@),
            day_dates(all.take(i as int)) == Ok::<Seq<Option<(i32, u8, u8)>>, Seq<char>>(
                dates_view(dates@),
            ),
        decreases cells@.len() - i,
    {
        let ghost t = all.take(i + 1);
        assert(t.drop_last() =~= all.take(i as int));
        assert(t.last() == cells@[i as int]@);
        let cell = &cells[i];
        proof {
            reveal_strlit("");
        }
        let first: &str = if cell.text_nodes.len() > 0 {
            assert(cell@.3[0] == cell.text_nodes@[0]@);
            cell.text_nodes[0].as_str()
        } else {
            ""
        };
        assert(first@ =~= cell_first_text(t.last()));
        let text = trim_str(first);
        let ghost before = dates@;
        if text.unicode_len() == 0 {
            dates.push(None);
            assert(dates_view(dates@) =~= dates_view(before).push(None));
        } else {
            match parse_described_date(text, DAY_DATE_DESCRIPTION, DAY_DATE_CENTURY) {
                Ok(d) => {
                    dates.push(Some(d));
                    assert(dates_view(dates@) =~= dates_view(before).push(Some(d@)));
                },
                Err((unparsed, e)) => {
                    let mut cause = if unparsed {
                        let mut c = owned("failed to parse ");
                        push_str(&mut c, text);
                        push_str(&mut c, ": ");
                        c
                    } else {
                        owned("failed to create date from a Parsed: ")
                    };
                    push_str(&mut cause, e.as_str());
                    proof {
                        lemma_day_dates_err(all, i + 1);
                    }
                    return Err(ModuleError::ParseError { cause });
                },
            }
        }
        i = i + 1;
    }
    assert(all.take(cells@.len() as int) =~= all);
    Ok(dates)
}

proof fn lemma_split_nonempty(s: Seq<char>, c: char)
    ensures
        split_pieces(s, c).len() >= 1,
    decreases s.len(),
{
    crate::text::lemma_first_index_of_range(s, c);
    if let Some(i) = crate::text::first_index_of(s, c) {
        lemma_split_nonempty(s.skip(i + 1), c);
    }
}

/// Appends the sales of the cell in column `i` of a slot's row to `out`;
/// `None` where reading it fails outright.
fn append_cell_sales(
    out: &mut Vec<MachineSalesEntry>,
    cell: &Node,
    i: usize,
    dates: &Vec<Option<Date>>,
    product: &Product,
) -> (res: Option<Result<(), ModuleError>>)
    ensures
        match cell_sales(cell@, i as int, dates_view(dates@), product@) {
            None => res is None,
            Some(Err(c)) => res matches Some(Err(ModuleError::ParseError { cause })) && cause@ == c,
            Some(Ok(s)) => res matches Some(Ok(())) && sales_view(final(out)@) == sales_view(
                old(out)@,
            ) + s,
        },
{
    let joined = join_with_spaces(&cell.text_nodes);
    let text = trim_str(joined.as_str());
    if text.unicode_len() == 0 {
        assert(sales_view(out@) =~= sales_view(out@) + Seq::<SaleView>::empty());
        return Some(Ok(()));
    }
    let pieces = split_all(text, '/');
    proof {
        lemma_split_nonempty(text@, '/');
    }
    let mut position: usize = 0;
    let count = match parse_next(pieces.as_slice(), &mut position) {
        Ok(n) => n,
        Err(e) => return Some(Err(e)),
    };
    let price = match parse_next_float(pieces.as_slice(), &mut position) {
        Ok(p) => p,
        Err(e) => return Some(Err(e)),
    };
    if count == 0 {
        assert(sales_view(out@) =~= sales_view(out@) + Seq::<SaleView>::empty());
        return Some(Ok(()));
    }
    if i >= dates.len() {
        return None;
    }
    let date = match dates[i] {
        Some(d) => d,
        None => return None,
    };
    assert(date_at(dates_view(dates@), i as int) == Some(date@));
    let sale = MachineSalesEntry {
        date,
        product: product.clone(),
        total_price: price,
        sales_count: count,
    };
    let ghost start = sales_view(out@);
    let ghost expected = Seq::new(count as nat, |j: int| (date@, product@, sale.total_price@, count));
    let mut k: u32 = 0;
    while k < count
        invariant
            k <= count,
            sale@ == (date@, product@, sale.total_price@, count),
            expected == Seq::new(count as nat, |j: int| (date@, product@, sale.total_price@, count)),
            sales_view(out@) =~= start + expected.take(k as int),
        decreases count - k,
    {
        let ghost before = out@;
        let copy = sale.clone();
        out.push(copy);
        assert(sales_view(out@) =~= sales_view(before).push(copy@));
        assert(expected.take(k + 1) =~= expected.take(k as int).push(copy@));
        k = k + 1;
    }
    assert(expected.take(count as int) =~= expected);
    Some(Ok(()))
}

proof fn lemma_cells_sales_stop(
    cells: Seq<NodeView>,
    k: int,
    dates: Seq<Option<(i32, u8, u8)>>,
    product: (u8, u8, Seq<char>),
)
    requires
        0 <= k <= cells.len(),
        !(cells_sales(cells.take(k), dates, product) matches Some(Ok(_))),
    ensures
        cells_sales(cells, dates, product) == cells_sales(cells.take(k), dates, product),
    decreases cells.len() - k,
{
    if k < cells.len() {
        assert(cells.take(k + 1).drop_last() =~= cells.take(k));
        lemma_cells_sales_stop(cells, k + 1, dates, product);
    } else {
        assert(cells.take(k) =~= cells);
    }
}

/// Appends the sales of the day cells of a slot's row to `out`.
fn append_cells_sales(
    out: &mut Vec<MachineSalesEntry>,
    cells: &Vec<Node>,
    dates: &Vec<Option<Date>>,
    product: &Product,
) -> (res: Option<Result<(), ModuleError>>)
    ensures
        match cells_sales(nodes_view(cells@), dates_view(dates@), product@) {
            None => res is None,
            Some(Err(c)) => res matches Some(Err(ModuleError::ParseError { cause })) && cause@ == c,
            Some(Ok(s)) => res matches Some(Ok(())) && sales_view(final(out)@) == sales_view(
                old(out)@,
            ) + s,
        },
{
    let ghost all = nodes_view(cells@);
    let ghost ds = dates_view(dates@);
    let ghost start = sales_view(out@);
    assert(all.take(0) =~= Seq::<NodeView>::empty());
    assert(start + Seq::<SaleView>::empty() =~= start);
    let mut i: usize = 0;
    while i < cells.len()
        invariant
            i <= cells@.len(),
            all == nodes_view(cells@),
            ds == dates_view(dates@),
            start == sales_view(old(out)@),
            cells_sales(all.take(i as int), ds, product@) matches Some(Ok(acc)) && sales_view(out@)
                == start + acc,
        decreases cells@.len() - i,
    {
        let ghost t = all.take(i + 1);
        assert(t.drop_last() =~= all.take(i as int));
        assert(t.last() == cells@[i as int]@);
        let ghost mid = sales_view(out@);
        match append_cell_sales(out, &cells[i], i, dates, product) {
            Some(Ok(())) => {
                assert(cells_sales(t, ds, product@) matches Some(Ok(acc)) && sales_view(out@) =~= start + acc);
            },
            None => {
                proof { lemma_cells_sales_stop(all, i + 1, ds, product@); }
                return None;
            },
            Some(Err(e)) => {
                proof { lemma_cells_sales_stop(all, i + 1, ds, product@); }
                return Some(Err(e));
            },
        }
        i = i + 1;
    }
    assert(all.take(cells@.len() as int) =~= all);
    Some(Ok(()))
}

/// Appends the sales of a slot's row to `out`.
fn append_slot_row_sales(
    out: &mut Vec<MachineSalesEntry>,
    row: &Vec<Vec<Node>>,
    dates: &Vec<Option<Date>>,
    empty: &Vec<Node>,
) -> (res: Option<Result<(), ModuleError>>)
    requires
        empty@.len() == 0,
    ensures
        match slot_row_sales(row@.map_values(|m: Vec<Node>| nodes_view(m@)), dates_view(dates@)) {
            None => res is None,
            Some(Err(c)) => res matches Some(Err(ModuleError::ParseError { cause })) && cause@ == c,
            Some(Ok(s)) => res matches Some(Ok(())) && sales_view(final(out)@) == sales_view(
                old(out)@,
            ) + s,
        },
{
    let ghost cells = row@.map_values(|m: Vec<Node>| nodes_view(m@));
    proof {
        reveal_strlit("");
    }
    let name = if row.len() > 1 && row[1].len() > 0 {
        assert(cells[1][0] == row@[1]@[0]@);
        let joined = join_with_spaces(&row[1][0].text_nodes);
        owned(trim_str(joined.as_str()))
    } else {
        owned("")
    };
    assert(name@ =~= joined_text(cell_matches(cells, 1)));
    let slot: &str = if row.len() > 0 && row[0].len() > 0 && row[0][0].text_nodes.len() > 0 {
        assert(cells[0][0] == row@[0]@[0]@);
        row[0][0].text_nodes[0].as_str()
    } else {
        ""
    };
    assert(slot@ =~= first_text_node(cell_matches(cells, 0)));
    let sel = match slice_slot(slot) {
        Some(s) => s,
        None => return None,
    };
    let (r, c) = match sel_to_row_and_col(sel) {
        Ok(rc) => rc,
        Err(e) => return Some(Err(e)),
    };
    let product = Product::new(r, c, name);
    let day_cells = if row.len() > 2 {
        &row[2]
    } else {
        empty
    };
    assert(nodes_view(day_cells@) =~= cell_matches(cells, 2));
    append_cells_sales(out, day_cells, dates, &product)
}

proof fn lemma_slot_rows_stop(rows: Seq<Seq<Seq<NodeView>>>, k: int, dates: Seq<Option<(i32, u8, u8)>>)
    requires
        0 <= k <= rows.len(),
        !(slot_rows_sales(rows.take(k), dates) matches Some(Ok(_))),
    ensures
        slot_rows_sales(rows, dates) == slot_rows_sales(rows.take(k), dates),
    decreases rows.len() - k,
{
    if k < rows.len() {
        assert(rows.take(k + 1).drop_last() =~= rows.take(k));
        lemma_slot_rows_stop(rows, k + 1, dates);
    } else {
        assert(rows.take(k) =~= rows);
    }
}

/// Reads the sales of a report from its date cells and its selected slot
/// rows; `None` where the report cannot be read at all (a slot text that
/// cannot be sliced, a sale in a column without a date).
pub fn try_daily_sales(date_cells: &Vec<Node>, rows: &Vec<Vec<Vec<Node>>>) -> (res: Option<
    Result<Vec<MachineSalesEntry>, ModuleError>,
>)
    ensures
        match daily_sales_of(nodes_view(date_cells@), rows_view(rows@)) {
            None => res is None,
            Some(outcome) => res matches Some(r) && outcome_matches(r, outcome),
        },
{
    let dates = match read_day_dates(date_cells) {
        Ok(d) => d,
        Err(e) => return Some(Err(e)),
    };
    let ghost all = rows_view(rows@);
    let ghost ds = dates_view(dates@);
    assert(daily_sales_of(nodes_view(date_cells@), all) == slot_rows_sales(all, ds));
    let empty: Vec<Node> = Vec::new();
    let mut sales: Vec<MachineSalesEntry> = Vec::new();
    assert(all.take(0) =~= Seq::<Seq<Seq<NodeView>>>::empty());
    assert(sales_view(sales@) =~= Seq::<SaleView>::empty());
    let mut i: usize = 0;
    while i < rows.len()
        invariant
            i <= rows@.len(),
            empty@.len() == 0,
            all == rows_view(rows@),
            ds == dates_view(dates@),
            daily_sales_of(nodes_view(date_cells@), all) == slot_rows_sales(all, ds),
            slot_rows_sales(all.take(i as int), ds) == Some(Ok::<Seq<SaleView>, Seq<char>>(sales_view(sales@))),
        decreases rows@.len() - i,
    {
        let ghost t = all.take(i + 1);
        assert(t.drop_last() =~= all.take(i as int));
        assert(t.last() == rows@[i as int]@.map_values(|m: Vec<Node>| nodes_view(m@)));
        match append_slot_row_sales(&mut sales, &rows[i], &dates, &empty) {
            Some(Ok(())) => {},
            None => {
                proof { lemma_slot_rows_stop(all, i + 1, ds); }
                return None;
            },
            Some(Err(e)) => {
                proof { lemma_slot_rows_stop(all, i + 1, ds); }
                return Some(Err(e));
            },
        }
        i = i + 1;
    }
    assert(all.take(rows@.len() as int) =~= all);
    Some(Ok(sales))
}

/// Reads the sales of a report page; `None` where the page cannot be read
/// at all.
pub fn parse_daily_report(document: &str) -> (res: Option<Result<Vec<MachineSalesEntry>, ModuleError>>)
    ensures
        match daily_report(document@) {
            None => res is None,
            Some(outcome) => res matches Some(r) && outcome_matches(r, outcome),
        },
{
    let date_selectors: Vec<&str> = vec![DAILY_TABLE_SELECTOR, DATE_ROW_SELECTOR, DAY_CELL_SELECTOR];
    let row_selectors: Vec<&str> = vec![
        DAILY_TABLE_SELECTOR,
        SALE_ROW_SELECTOR,
        SLOT_CELL_SELECTOR,
        NAME_CELL_SELECTOR,
        DAY_CELL_SELECTOR,
    ];
    assert(selectors_view(date_selectors@) =~= seq![DAILY_TABLE_SELECTOR@, DATE_ROW_SELECTOR@, DAY_CELL_SELECTOR@]);
    assert(selectors_view(row_selectors@) =~= seq![
        DAILY_TABLE_SELECTOR@,
        SALE_ROW_SELECTOR@,
        SLOT_CELL_SELECTOR@,
        NAME_CELL_SELECTOR@,
        DAY_CELL_SELECTOR@,
    ]);
    let date_row = select_rows(document, date_selectors.as_slice());
    let sale_rows = select_rows(document, row_selectors.as_slice());
    match (date_row, sale_rows) {
        (Some(dr), Some(sr)) => {
            let empty: Vec<Node> = Vec::new();
            let date_cells = if dr.len() > 0 && dr[0].len() > 0 {
                &dr[0][0]
            } else {
                &empty
            };
            assert(nodes_view(date_cells@) =~= (if rows_view(dr@).len() > 0 {
                cell_matches(rows_view(dr@)[0], 0)
            } else {
                Seq::empty()
            }));
            try_daily_sales(date_cells, &sr)
        },
        _ => Some(Err(ModuleError::ParseError { cause: owned("Couldn't find <table>") })),
    }
}

/// The address of the per-day sales report of a machine.
pub fn daily_sales_route(hex_bookmark: &str) -> (res: String)
    ensures
        res@ == "https://online.unicum.ru/n/sgraph.html?V03"@ + hex_bookmark@ + "00"@,
{
    let mut out = owned("https://online.unicum.ru/n/sgraph.html?V03");
    push_str(&mut out, hex_bookmark);
    push_str(&mut out, "00");
    out
}

/// The form that asks the per-day report for the days from `since` to
/// `until`; none when `until` is not after `since`, as there is nothing to
/// ask for.
pub open spec fn daily_sales_fields(since: (i32, u8, u8), until: (i32, u8, u8)) -> Option<
    Seq<(Seq<char>, Seq<char>)>,
> {
    if !crate::calendar::date_before(since, until) {
        None
    } else {
        Some(
            seq![
                ("day"@, decimal(since.2 as nat)),
                ("month"@, decimal(since.1 as nat)),
                ("year"@, signed_decimal(since.0 as int)),
                ("day1"@, decimal(until.2 as nat)),
                ("month1"@, decimal(until.1 as nat)),
                ("year1"@, signed_decimal(until.0 as int)),
            ],
        )
    }
}

/// The per-day report is asked exactly when `since` comes before `until`,
/// dates being ordered by year, then month, then day; it is asked from
/// `since`'s day, month and year to `until`'s, each in decimal.
pub proof fn lemma_daily_sales_fields(since: (i32, u8, u8), until: (i32, u8, u8))
    ensures
        daily_sales_fields(since, until) is Some <==> (since.0 < until.0 || (since.0 == until.0
            && (since.1 < until.1 || (since.1 == until.1 && since.2 < until.2)))),
        daily_sales_fields(since, until) matches Some(f) ==> {
            &&& f.len() == 6
            &&& f[0] == ("day"@, decimal(since.2 as nat))
            &&& f[1] == ("month"@, decimal(since.1 as nat))
            &&& f[2] == ("year"@, signed_decimal(since.0 as int))
            &&& f[3] == ("day1"@, decimal(until.2 as nat))
            &&& f[4] == ("month1"@, decimal(until.1 as nat))
            &&& f[5] == ("year1"@, signed_decimal(until.0 as int))
        },
{
}

fn form_field(name: &str, value: String) -> (res: (String, String))
    ensures
        res.0@ == name@,
        res.1@ == value@,
{
    (owned(name), value)
}

/// The form of the per-day report for the days from `since` to `until`.
pub fn daily_sales_form(since: &Date, until: &Date) -> (res: Option<Vec<(String, String)>>)
    ensures
        match daily_sales_fields(since@, until@) {
            None => res is None,
            Some(f) => res matches Some(r) && crate::outbound::official::forms::fields_view(r@) == f,
        },
        res is Some <==> (since.year < until.year || (since.year == until.year && (since.month
            < until.month || (since.month == until.month && since.day < until.day)))),
        res matches Some(r) ==> {
            &&& r@.len() == 6
            &&& r@[0].0@ == "day"@ && r@[0].1@ == decimal(since.day as nat)
            &&& r@[1].0@ == "month"@ && r@[1].1@ == decimal(since.month as nat)
            &&& r@[2].0@ == "year"@ && r@[2].1@ == signed_decimal(since.year as int)
            &&& r@[3].0@ == "day1"@ && r@[3].1@ == decimal(until.day as nat)
            &&& r@[4].0@ == "month1"@ && r@[4].1@ == decimal(until.month as nat)
            &&& r@[5].0@ == "year1"@ && r@[5].1@ == signed_decimal(until.year as int)
        },
{
    if !crate::calendar::is_before(since, until) {
        return None;
    }
    let fields: Vec<(String, String)> = vec![
        form_field("day", format_unsigned(since.day as u64)),
        form_field("month", format_unsigned(since.month as u64)),
        form_field("year", format_signed(since.year as i64)),
        form_field("day1", format_unsigned(until.day as u64)),
        form_field("month1", format_unsigned(until.month as u64)),
        form_field("year1", format_signed(until.year as i64)),
    ];
    assert(crate::outbound::official::forms::fields_view(fields@) =~= daily_sales_fields(since@, until@)->Some_0);
    proof {
        lemma_daily_sales_fields(since@, until@);
        let fv = crate::outbound::official::forms::fields_view(fields@);
        assert(fv[0] == (fields@[0].0@, fields@[0].1@));
        assert(fv[1] == (fields@[1].0@, fields@[1].1@));
        assert(fv[2] == (fields@[2].0@, fields@[2].1@));
        assert(fv[3] == (fields@[3].0@, fields@[3].1@));
        assert(fv[4] == (fields@[4].0@, fields@[4].1@));
        assert(fv[5] == (fields@[5].0@, fields@[5].1@));
    }
    Some(fields)
}

} // verus!
