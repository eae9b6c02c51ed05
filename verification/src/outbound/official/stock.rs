//! How the stock page of a machine is read: one row per slot, with the
//! slot's coordinate in its first cell and an input that holds the count.
use vstd::prelude::*;

use crate::entities::{MachineStateEntry, StockEntry};
use crate::outbound::official::error::{ScraperError, ScraperErrorView};
use crate::outbound::official::html::{
    html_select_rows, nodes_view, rows_view, select_rows, selectors_view, Node, NodeView,
};
use crate::outbound::official::scraper::{
    attr_value, coordinate_digits, parse_required_attr, parse_u8_attr, sel_to_row_and_col,
};
use crate::outbound::official::upstream::ROOT_SELECTOR;
use crate::text::{char_debug_of, int_error_text, owned, parse_unsigned_spec, push_str, trim, trim_str};

verus! {

/// The slot rows of the stock page: every row of the form's table but the
/// first.
pub const STOCK_ROW_SELECTOR: &'static str = "form > table tr:not(:first-child)";

/// The cell of a slot row that holds the slot's coordinate.
pub const COORDINATE_SELECTOR: &'static str = "td:first-child";

/// The input of a slot row that holds the slot's count.
pub const INPUT_SELECTOR: &'static str = "input";

/// A state entry as `(id, price, decimal, max, cur)`.
pub type StateView = ((u8, u8, Seq<char>), i64, u8, u8, i8);

/// A stock entry as `(name, row, col, mapped_to, cur)`.
pub type StockView = (Seq<char>, u8, u8, Seq<char>, u8);

/// The entries of a machine's state.
pub open spec fn state_view(state: Seq<MachineStateEntry>) -> Seq<StateView> {
    state.map_values(|e: MachineStateEntry| e@)
}

/// The entries of a machine's stock.
pub open spec fn stock_view(stock: Seq<StockEntry>) -> Seq<StockView> {
    stock.map_values(|e: StockEntry| e@)
}

/// The matches of the `i`-th cell selector of a row, or none.
pub open spec fn cell_matches(row: Seq<Seq<NodeView>>, i: int) -> Seq<NodeView> {
    if 0 <= i < row.len() {
        row[i]
    } else {
        Seq::empty()
    }
}

/// The text of the first match, or the empty text.
pub open spec fn first_text(matches: Seq<NodeView>) -> Seq<char> {
    if matches.len() > 0 {
        matches[0].0
    } else {
        Seq::empty()
    }
}

/// The value of an attribute that an element must have.
pub open spec fn required_attr(attrs: Seq<(Seq<char>, Seq<char>)>, name: Seq<char>) -> Result<
    Seq<char>,
    ScraperErrorView,
> {
    match attr_value(attrs, name) {
        Some(v) => Ok(v),
        None => Err(ScraperErrorView::MissingAttribute { attribute: name }),
    }
}

/// The value of an attribute that an element must have, read as a `u8`.
pub open spec fn u8_attr(attrs: Seq<(Seq<char>, Seq<char>)>, name: Seq<char>) -> Result<
    u8,
    ScraperErrorView,
> {
    match attr_value(attrs, name) {
        None => Err(ScraperErrorView::MissingAttribute { attribute: name }),
        Some(v) => match parse_unsigned_spec(v, 255) {
            Ok(n) => Ok(n as u8),
            Err(k) => Err(ScraperErrorView::InvalidValue { field: name, value: int_error_text(k) }),
        },
    }
}

/// The row and column of a coordinate text, or why it has none.
pub open spec fn coordinate_value(s: Seq<char>) -> Result<(u8, u8), ScraperErrorView> {
    match coordinate_digits(s) {
        Ok(rc) => Ok(rc),
        Err(None) => Err(ScraperErrorView::MissingElement { element: "character"@ }),
        Err(Some(c)) => Err(
            ScraperErrorView::InvalidValue { field: "character"@, value: char_debug_of(c) },
        ),
    }
}

/// The name of the first state entry at the given row and column.
pub open spec fn state_name(state: Seq<StateView>, row: u8, col: u8) -> Option<Seq<char>>
    decreases state.len(),
{
    if state.len() == 0 {
        None
    } else if state[0].0.0 == row && state[0].0.1 == col {
        Some(state[0].0.2)
    } else {
        state_name(state.drop_first(), row, col)
    }
}

/// The stock entry of one slot row: its input must have a `name` (the form
/// field) and a `u8` `value` (the count), its trimmed coordinate must read
/// as a row and column, and the state must name the product there.
pub open spec fn stock_row(row: Seq<Seq<NodeView>>, state: Seq<StateView>) -> Result<
    StockView,
    ScraperErrorView,
> {
    let coordinate = first_text(cell_matches(row, 0));
    let inputs = cell_matches(row, 1);
    if inputs.len() == 0 {
        Err(ScraperErrorView::MissingElement { element: "input"@ })
    } else {
        match required_attr(inputs[0].1, "name"@) {
            Err(e) => Err(e),
            Ok(mapped_to) => match u8_attr(inputs[0].1, "value"@) {
                Err(e) => Err(e),
                Ok(cur) => match coordinate_value(trim(coordinate)) {
                    Err(e) => Err(e),
                    Ok((r, c)) => match state_name(state, r, c) {
                        None => Err(
                            ScraperErrorView::MissingElement {
                                element: "name in current state for coordinate "@ + coordinate,
                            },
                        ),
                        Some(name) => Ok((name, r, c, mapped_to, cur)),
                    },
                },
            },
        }
    }
}

/// The stock entries of all slot rows, in order; the first row that cannot
/// be read is the error.
pub open spec fn stock_table(rows: Seq<Seq<Seq<NodeView>>>, state: Seq<StateView>) -> Result<
    Seq<StockView>,
    ScraperErrorView,
>
    decreases rows.len(),
{
    if rows.len() == 0 {
        Ok(Seq::empty())
    } else {
        match stock_table(rows.drop_last(), state) {
            Err(e) => Err(e),
            Ok(acc) => match stock_row(rows.last(), state) {
                Err(e) => Err(e),
                Ok(s) => Ok(acc.push(s)),
            },
        }
    }
}

/// The selection of the slot rows of a stock page, with their coordinate
/// cells and inputs.
pub open spec fn stock_rows(document: Seq<char>) -> Option<Seq<Seq<Seq<NodeView>>>> {
    html_select_rows(
        document,
        seq![ROOT_SELECTOR@, STOCK_ROW_SELECTOR@, COORDINATE_SELECTOR@, INPUT_SELECTOR@],
    )
}

/// The stock of a stock page, given the machine's state.
pub open spec fn stock_page(document: Seq<char>, state: Seq<StateView>) -> Result<
    Seq<StockView>,
    ScraperErrorView,
> {
    match stock_rows(document) {
        None => Err(ScraperErrorView::MissingElement { element: "stock table"@ }),
        Some(rows) => stock_table(rows, state),
    }
}

/// The name of the first state entry at the given row and column.
fn find_state_name(state: &[MachineStateEntry], row: u8, col: u8) -> (res: Option<String>)
    ensures
        match state_name(state_view(state@), row, col) {
            Some(n) => res matches Some(r) && r@ == n,
            None => res is None,
        },
{
    let ghost all = state_view(state@);
    let mut i: usize = 0;
    assert(all.skip(0) =~= all);
    while i < state.len()
        invariant
            i <= state@.len(),
            all == state_view(state@),
            state_name(all, row, col) == state_name(all.skip(i as int), row, col),
        decreases state@.len() - i,
    {
        let ghost rest = all.skip(i as int);
        assert(rest[0] == state@[i as int]@);
        if state[i].id.row == row && state[i].id.col == col {
            return Some(state[i].id.name.clone());
        }
        assert(rest.drop_first() =~= all.skip(i + 1));
        i = i + 1;
    }
    None
}

/// Reads the stock entry of one slot row.
fn stock_row_entry(row: &Vec<Vec<Node>>, state: &[MachineStateEntry]) -> (res: Result<
    StockEntry,
    ScraperError,
>)
    ensures
        match stock_row(row@.map_values(|m: Vec<Node>| nodes_view(m@)), state_view(state@)) {
            Ok(s) => res matches Ok(r) && r@ == s,
            Err(e) => res matches Err(x) && x@ == e,
        },
{
    let ghost cells = row@.map_values(|m: Vec<Node>| nodes_view(m@));
    proof {
        reveal_strlit("");
    }
    let coordinate_text = if row.len() > 0 && row[0].len() > 0 {
        assert(cells[0] == nodes_view(row@[0]@));
        assert(cells[0][0] == row@[0]@[0]@);
        row[0][0].text()
    } else {
        assert(cell_matches(cells, 0).len() == 0);
        owned("")
    };
    let coordinate: &str = coordinate_text.as_str();
    assert(coordinate@ =~= first_text(cell_matches(cells, 0)));
    if row.len() < 2 || row[1].len() == 0 {
        return Err(ScraperError::MissingElement { element: owned("input") });
    }
    let input = &row[1][0];
    assert(cell_matches(cells, 1)[0] == input@);
    let mapped_to = match parse_required_attr(input, "name") {
        Ok(v) => owned(v),
        Err(e) => return Err(e),
    };
    let cur = match parse_u8_attr(input, "value") {
        Ok(v) => v,
        Err(e) => return Err(e),
    };
    let (r, c) = match sel_to_row_and_col(trim_str(coordinate)) {
        Ok(rc) => rc,
        Err(e) => return Err(e),
    };
    match find_state_name(state, r, c) {
        Some(name) => Ok(StockEntry { name, row: r, col: c, mapped_to, cur }),
        None => {
            let mut element = owned("name in current state for coordinate ");
            push_str(&mut element, coordinate);
            Err(ScraperError::MissingElement { element })
        },
    }
}

proof fn lemma_stock_table_err(
    rows: Seq<Seq<Seq<NodeView>>>,
    k: int,
    state: Seq<StateView>,
)
    requires
        0 <= k <= rows.len(),
        stock_table(rows.take(k), state) is Err,
    ensures
        stock_table(rows, state) == stock_table(rows.take(k), state),
    decreases rows.len() - k,
{
    if k < rows.len() {
        assert(rows.take(k + 1).drop_last() =~= rows.take(k));
        lemma_stock_table_err(rows, k + 1, state);
    } else {
        assert(rows.take(k) =~= rows);
    }
}

/// Reads the stock of the selected slot rows of a stock page, naming each
/// slot after the state entry at its coordinate.
pub fn stock_entries(rows: &Vec<Vec<Vec<Node>>>, state: &[MachineStateEntry]) -> (res: Result<
    Vec<StockEntry>,
    ScraperError,
>)
    ensures
        match stock_table(rows_view(rows@), state_view(state@)) {
            Ok(s) => res matches Ok(r) && stock_view(r@) == s,
            Err(e) => res matches Err(x) && x@ == e,
        },
{
    let ghost all = rows_view(rows@);
    let ghost st = state_view(state@);
    let mut stock: Vec<StockEntry> = Vec::new();
    let mut i: usize = 0;
    assert(all.take(0) =~= Seq::<Seq<Seq<NodeView>>>::empty());
    assert(stock_view(stock@) =~= Seq::<StockView>::empty());
    while i < rows.len()
        invariant
            i <= rows@.len(),
            all == rows_view(rows@),
            st == state_view(state@),
            stock_table(all.take(i as int), st) == Ok::<Seq<StockView>, ScraperErrorView>(
                stock_view(stock@),
            ),
        decreases rows@.len() - i,
    {
        let ghost t = all.take(i + 1);
        assert(t.drop_last() =~= all.take(i as int));
        assert(t.last() == rows@[i as int]@.map_values(|m: Vec<Node>| nodes_view(m@)));
        match stock_row_entry(&rows[i], state) {
            Ok(entry) => {
                let ghost before = stock@;
                stock.push(entry);
                assert(stock_view(stock@) =~= stock_view(before).push(entry@));
            },
            Err(e) => {
                proof { lemma_stock_table_err(all, i + 1, st); }
                return Err(e);
            },
        }
        i = i + 1;
    }
    assert(all.take(rows@.len() as int) =~= all);
    Ok(stock)
}

/// Reads the stock page of a machine, naming each slot after the entry of
/// the machine's state at its coordinate.
pub fn parse_stock_page(document: &str, state: &[MachineStateEntry]) -> (res: Result<
    Vec<StockEntry>,
    ScraperError,
>)
    ensures
        match stock_page(document@, state_view(state@)) {
            Ok(s) => res matches Ok(r) && stock_view(r@) == s,
            Err(e) => res matches Err(x) && x@ == e,
        },
        res matches Ok(r) ==> forall|i: int|
            0 <= i < r@.len() ==> exists|k: int|
                0 <= k < state@.len() && (#[trigger] state@[k]).id.row == (#[trigger] r@[i]).row
                    && state@[k].id.col == r@[i].col && state@[k].id.name@ == r@[i].name@
                    && forall|m: int|
                    0 <= m < k ==> !((#[trigger] state@[m]).id.row == r@[i].row && state@[m].id.col
                        == r@[i].col),
{
    let selectors: Vec<&str> = vec![ROOT_SELECTOR, STOCK_ROW_SELECTOR, COORDINATE_SELECTOR, INPUT_SELECTOR];
    assert(selectors_view(selectors@) =~= seq![ROOT_SELECTOR@, STOCK_ROW_SELECTOR@, COORDINATE_SELECTOR@, INPUT_SELECTOR@]);
    match select_rows(document, selectors.as_slice()) {
        None => Err(ScraperError::MissingElement { element: owned("stock table") }),
        Some(rows) => {
            let res = stock_entries(&rows, state);
            proof {
                let st = state_view(state@);
                lemma_stock_named_by_state(rows_view(rows@), st);
                if let Ok(r) = &res {
                    let sv = stock_view(r@);
                    assert forall|i: int| 0 <= i < r@.len() implies exists|k: int|
                        0 <= k < state@.len() && (#[trigger] state@[k]).id.row == (
                        #[trigger] r@[i]).row && state@[k].id.col == r@[i].col
                            && state@[k].id.name@ == r@[i].name@ && forall|m: int|
                            0 <= m < k ==> !((#[trigger] state@[m]).id.row == r@[i].row
                                && state@[m].id.col == r@[i].col) by {
                        assert(sv[i] == r@[i]@);
                        let k = choose|k: int|
                            0 <= k < st.len() && (#[trigger] st[k]).0.0 == sv[i].1 && st[k].0.1
                                == sv[i].2 && st[k].0.2 == sv[i].0 && forall|m: int|
                                0 <= m < k ==> !((#[trigger] st[m]).0.0 == sv[i].1 && st[m].0.1
                                    == sv[i].2);
                        assert(st[k] == state@[k]@);
                        assert forall|m: int| 0 <= m < k implies !((#[trigger] state@[m]).id.row
                            == r@[i].row && state@[m].id.col == r@[i].col) by {
                            assert(st[m] == state@[m]@);
                        }
                    }
                }
            }
            res
        },
    }
}

/// A name found for a row and column is that of a state entry at that row
/// and that column, the first one there.
proof fn lemma_state_name_found(state: Seq<StateView>, row: u8, col: u8)
    ensures
        state_name(state, row, col) matches Some(n) ==> exists|k: int|
            0 <= k < state.len() && (#[trigger] state[k]).0.0 == row && state[k].0.1 == col
                && state[k].0.2 == n && forall|m: int|
                0 <= m < k ==> !((#[trigger] state[m]).0.0 == row && state[m].0.1 == col),
    decreases state.len(),
{
    if state.len() > 0 && !(state[0].0.0 == row && state[0].0.1 == col) {
        let rest = state.drop_first();
        lemma_state_name_found(rest, row, col);
        if let Some(n) = state_name(state, row, col) {
            let k = choose|k: int|
                0 <= k < rest.len() && (#[trigger] rest[k]).0.0 == row && rest[k].0.1 == col
                    && rest[k].0.2 == n && forall|m: int|
                    0 <= m < k ==> !((#[trigger] rest[m]).0.0 == row && rest[m].0.1 == col);
            assert(state[k + 1] == rest[k]);
            assert forall|m: int| 0 <= m < k + 1 implies !((#[trigger] state[m]).0.0 == row
                && state[m].0.1 == col) by {
                if m > 0 {
                    assert(state[m] == rest[m - 1]);
                }
            }
        }
    }
}

/// Every entry of a stock is named after a state entry at its row and at
/// its column, the first such entry of the state.
pub proof fn lemma_stock_named_by_state(rows: Seq<Seq<Seq<NodeView>>>, state: Seq<StateView>)
    ensures
        stock_table(rows, state) matches Ok(s) ==> forall|i: int|
            0 <= i < s.len() ==> state_name(state, #[trigger] s[i].1, s[i].2) == Some(s[i].0),
        stock_table(rows, state) matches Ok(s) ==> forall|i: int|
            0 <= i < s.len() ==> exists|k: int|
                0 <= k < state.len() && (#[trigger] state[k]).0.0 == (#[trigger] s[i]).1
                    && state[k].0.1 == s[i].2 && state[k].0.2 == s[i].0 && forall|m: int|
                    0 <= m < k ==> !((#[trigger] state[m]).0.0 == s[i].1 && state[m].0.1 == s[i].2),
    decreases rows.len(),
{
    if rows.len() > 0 {
        lemma_stock_named_by_state(rows.drop_last(), state);
    }
    if let Ok(s) = stock_table(rows, state) {
        assert forall|i: int| 0 <= i < s.len() implies exists|k: int|
            0 <= k < state.len() && (#[trigger] state[k]).0.0 == (#[trigger] s[i]).1
                && state[k].0.1 == s[i].2 && state[k].0.2 == s[i].0 && forall|m: int|
                0 <= m < k ==> !((#[trigger] state[m]).0.0 == s[i].1 && state[m].0.1 == s[i].2) by {
            lemma_state_name_found(state, s[i].1, s[i].2);
        }
    }
}

} // verus!
