//! How the classic stock page is read: the coordinate of each slot row is the
//! markup inside its first cell.
use vstd::prelude::*;

use crate::entities::StockSlot;
use crate::impls::unicum_api::utils::{sel_to_row_and_col, selection_digits};
use crate::impls::unicum_api::ModuleError;
use crate::outbound::official::html::{rows_view, select_rows, selectors_view, Node, NodeView};
use crate::outbound::official::scraper::{attr_value, parse_required_attr};
use crate::outbound::official::stock::{
    cell_matches, stock_rows, COORDINATE_SELECTOR, INPUT_SELECTOR, STOCK_ROW_SELECTOR,
};
use crate::outbound::official::upstream::ROOT_SELECTOR;
use crate::text::{int_error_text, owned, parse_unsigned, parse_unsigned_spec, push_str};

verus! {

/// A stock slot as `(row, col, mapped_to, cur)`.
pub type SlotView = (u8, u8, Seq<char>, u8);

/// The slots of a list.
pub open spec fn stock_slots_view(slots: Seq<StockSlot>) -> Seq<SlotView> {
    slots.map_values(|s: StockSlot| s@)
}

/// The markup of the first match, or the empty text.
pub open spec fn first_markup(matches: Seq<NodeView>) -> Seq<char> {
    if matches.len() > 0 {
        matches[0].2
    } else {
        Seq::empty()
    }
}

/// The slot of one row: its input must have a `name` and a `u8` `value`,
/// and the markup of its first cell must start with the row and column as
/// hex digits; otherwise the cause of the failure.
pub open spec fn stock_slot_row(row: Seq<Seq<NodeView>>) -> Result<SlotView, Seq<char>> {
    let sel = first_markup(cell_matches(row, 0));
    let inputs = cell_matches(row, 1);
    if inputs.len() == 0 {
        Err("Failed to find input element"@)
    } else {
        match attr_value(inputs[0].1, "name"@) {
            None => Err("Failed to find name on input element"@),
            Some(mapped_to) => match attr_value(inputs[0].1, "value"@) {
                None => Err("Failed to find value on input element"@),
                Some(v) => match parse_unsigned_spec(v, 255) {
                    Err(k) => Err("Failed to parse value of input as u8: "@ + int_error_text(k)),
                    Ok(cur) => match selection_digits(sel) {
                        Err(c) => Err(c),
                        Ok((r, c)) => Ok((r, c, mapped_to, cur as u8)),
                    },
                },
            },
        }
    }
}

/// The slots of all rows, in order; the first row that cannot be read is
/// the error.
pub open spec fn stock_slot_table(rows: Seq<Seq<Seq<NodeView>>>) -> Result<Seq<SlotView>, Seq<char>>
    decreases rows.len(),
{
    if rows.len() == 0 {
        Ok(Seq::empty())
    } else {
        match stock_slot_table(rows.drop_last()) {
            Err(e) => Err(e),
            Ok(acc) => match stock_slot_row(rows.last()) {
                Err(e) => Err(e),
                Ok(s) => Ok(acc.push(s)),
            },
        }
    }
}

/// The slots of a stock page, or the cause of the failure.
pub open spec fn stock_slot_page(document: Seq<char>) -> Result<Seq<SlotView>, Seq<char>> {
    match stock_rows(document) {
        None => Err("Failed to find the stock table"@),
        Some(rows) => stock_slot_table(rows),
    }
}

fn stock_slot_of_row(row: &Vec<Vec<Node>>) -> (res: Result<StockSlot, ModuleError>)
    ensures
        match stock_slot_row(row@.map_values(|m: Vec<Node>| crate::outbound::official::html::nodes_view(m@))) {
            Ok(s) => res matches Ok(r) && r@ == s,
            Err(c) => res matches Err(ModuleError::ParseError { cause }) && cause@ == c,
        },
{
    let ghost cells = row@.map_values(|m: Vec<Node>| crate::outbound::official::html::nodes_view(m@));
    proof {
        reveal_strlit("");
    }
    let sel: &str = if row.len() > 0 && row[0].len() > 0 {
        assert(cells[0][0] == row@[0]@[0]@);
        row[0][0].inner_html.as_str()
    } else {
        assert(cell_matches(cells, 0).len() == 0);
        ""
    };
    assert(sel@ =~= first_markup(cell_matches(cells, 0)));
    if row.len() < 2 || row[1].len() == 0 {
        return Err(ModuleError::ParseError { cause: owned("Failed to find input element") });
    }
    let input = &row[1][0];
    assert(cell_matches(cells, 1)[0] == input@);
    let mapped_to = match parse_required_attr(input, "name") {
        Ok(v) => owned(v),
        Err(_) => return Err(
            ModuleError::ParseError { cause: owned("Failed to find name on input element") },
        ),
    };
    let value = match parse_required_attr(input, "value") {
        Ok(v) => v,
        Err(_) => return Err(
            ModuleError::ParseError { cause: owned("Failed to find value on input element") },
        ),
    };
    let cur = match parse_unsigned(value, 255) {
        Ok(n) => n as u8,
        Err(kind) => {
            let mut cause = owned("Failed to parse value of input as u8: ");
            push_str(&mut cause, kind.message().as_str());
            return Err(ModuleError::ParseError { cause });
        },
    };
    let (r, c) = sel_to_row_and_col(sel)?;
    Ok(StockSlot { row: r, col: c, mapped_to, cur })
}

proof fn lemma_stock_slot_table_err(rows: Seq<Seq<Seq<NodeView>>>, k: int)
    requires
        0 <= k <= rows.len(),
        stock_slot_table(rows.take(k)) is Err,
    ensures
        stock_slot_table(rows) == stock_slot_table(rows.take(k)),
    decreases rows.len() - k,
{
    if k < rows.len() {
        assert(rows.take(k + 1).drop_last() =~= rows.take(k));
        lemma_stock_slot_table_err(rows, k + 1);
    } else {
        assert(rows.take(k) =~= rows);
    }
}

/// Reads the slots of the selected rows of a stock page.
pub fn stock_slots(rows: &Vec<Vec<Vec<Node>>>) -> (res: Result<Vec<StockSlot>, ModuleError>)
    ensures
        match stock_slot_table(rows_view(rows@)) {
            Ok(s) => res matches Ok(r) && stock_slots_view(r@) == s,
            Err(c) => res matches Err(ModuleError::ParseError { cause }) && cause@ == c,
        },
{
    let ghost all = rows_view(rows@);
    let mut slots: Vec<StockSlot> = Vec::new();
    let mut i: usize = 0;
    assert(all.take(0) =~= Seq::<Seq<Seq<NodeView>>>::empty());
    assert(stock_slots_view(slots@) =~= Seq::<SlotView>::empty());
    while i < rows.len()
        invariant
            i <= rows@.len(),
            all == rows_view(rows@),
            stock_slot_table(all.take(i as int)) == Ok::<Seq<SlotView>, Seq<char>>(
                stock_slots_view(slots@),
            ),
        decreases rows@.len() - i,
    {
        let ghost t = all.take(i + 1);
        assert(t.drop_last() =~= all.take(i as int));
        assert(t.last() == rows@[i as int]@.map_values(|m: Vec<Node>| crate::outbound::official::html::nodes_view(m@)));
        match stock_slot_of_row(&rows[i]) {
            Ok(slot) => {
                let ghost before = slots@;
                slots.push(slot);
                assert(stock_slots_view(slots@) =~= stock_slots_view(before).push(slot@));
            },
            Err(e) => {
                proof { lemma_stock_slot_table_err(all, i + 1); }
                return Err(e);
            },
        }
        i = i + 1;
    }
    assert(all.take(rows@.len() as int) =~= all);
    Ok(slots)
}

/// Reads the slots of a stock page.
pub fn parse_stock_slots(document: &str) -> (res: Result<Vec<StockSlot>, ModuleError>)
    ensures
        match stock_slot_page(document@) {
            Ok(s) => res matches Ok(r) && stock_slots_view(r@) == s,
            Err(c) => res matches Err(ModuleError::ParseError { cause }) && cause@ == c,
        },
{
    let selectors: Vec<&str> = vec![ROOT_SELECTOR, STOCK_ROW_SELECTOR, COORDINATE_SELECTOR, INPUT_SELECTOR];
    assert(selectors_view(selectors@) =~= seq![ROOT_SELECTOR@, STOCK_ROW_SELECTOR@, COORDINATE_SELECTOR@, INPUT_SELECTOR@]);
    match select_rows(document, selectors.as_slice()) {
        None => Err(ModuleError::ParseError { cause: owned("Failed to find the stock table") }),
        Some(rows) => stock_slots(&rows),
    }
}

} // verus!
