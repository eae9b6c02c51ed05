//! The slots of a machine, from the products that the service reports.
use vstd::prelude::*;

use crate::entities::SlotId;
use crate::outbound::official::catalog::{snack_state, snack_states, UpstreamProduct};
use crate::outbound::official::scraper::coordinate_digits;
use crate::outbound::official::stock::StateView;
use crate::impls::unicum_api::utils::sel_to_row_and_col;

verus! {

/// One slot of a machine: where it is and what it holds, the price as an
/// integer with the number of its decimal places, the capacity and the
/// number of items in it.
#[derive(Debug)]
pub struct SlotState {
    pub id: SlotId,
    pub price: i64,
    pub decimal: u8,
    pub max: u8,
    pub cur: i8,
}

impl View for SlotState {
    /// `(id, price, decimal, max, cur)`.
    type V = StateView;

    open spec fn view(&self) -> StateView {
        (self.id@, self.price, self.decimal, self.max, self.cur)
    }
}

/// The slots of a list.
pub open spec fn slots_view(slots: Seq<SlotState>) -> Seq<StateView> {
    slots.map_values(|s: SlotState| s@)
}

/// Whether the selection of every snack reads as a row and column.
pub open spec fn snack_selections_readable(ps: Seq<UpstreamProduct>) -> bool {
    forall|i: int| 0 <= i < ps.len() ==> !(#[trigger] snack_state(ps[i]) matches Some(Err(_)))
}

proof fn lemma_readable_ok(ps: Seq<UpstreamProduct>)
    requires
        snack_selections_readable(ps),
    ensures
        snack_states(ps) is Ok,
    decreases ps.len(),
{
    if ps.len() > 0 {
        assert(snack_selections_readable(ps.drop_last())) by {
            assert forall|i: int| 0 <= i < ps.drop_last().len() implies !(#[trigger] snack_state(
                ps.drop_last()[i],
            ) matches Some(Err(_))) by {
                assert(ps.drop_last()[i] == ps[i]);
            }
        }
        lemma_readable_ok(ps.drop_last());
        assert(!(snack_state(ps[ps.len() - 1]) matches Some(Err(_))));
    }
}

/// The slots of a machine with the given products: one per snack, in the
/// order the products come, at the row and column read from its selection.
/// Every snack's selection must read as a row and column.
pub fn snack_slots(products: &[UpstreamProduct]) -> (res: Vec<SlotState>)
    requires
        snack_selections_readable(products@),
    ensures
        snack_states(products@) matches Ok(st) && slots_view(res@) == st,
{
    let ghost ps = products@;
    proof {
        lemma_readable_ok(ps);
    }
    let mut slots: Vec<SlotState> = Vec::new();
    let mut i: usize = 0;
    assert(ps.take(0) =~= Seq::<UpstreamProduct>::empty());
    assert(slots_view(slots@) =~= Seq::<StateView>::empty());
    while i < products.len()
        invariant
            i <= ps.len(),
            ps == products@,
            snack_selections_readable(ps),
            snack_states(ps.take(i as int)) == Ok::<Seq<StateView>, crate::outbound::official::error::ScraperErrorView>(
                slots_view(slots@),
            ),
        decreases ps.len() - i,
    {
        let ghost t = ps.take(i + 1);
        assert(t.drop_last() =~= ps.take(i as int));
        assert(t.last() == products@[i as int]);
        assert(!(snack_state(ps[i as int]) matches Some(Err(_))));
        match &products[i] {
            UpstreamProduct::Snack { common, .. } => {
                let (row, col) = match sel_to_row_and_col(common.selection.as_str()) {
                    Ok(rc) => rc,
                    Err(_) => {
                        assert(coordinate_digits(common.selection@) is Err);
                        return Vec::new();
                    },
                };
                let cur: i8 = match common.level {
                    Some(l) => l,
                    None => 0,
                };
                let slot = SlotState {
                    id: SlotId { row, col, name: common.name.clone() },
                    price: common.price,
                    decimal: common.decimal,
                    max: common.max,
                    cur,
                };
                let ghost before = slots@;
                slots.push(slot);
                assert(slots_view(slots@) =~= slots_view(before).push(slots@[before.len() as int]@));
            },
            _ => {},
        }
        i = i + 1;
    }
    assert(ps.take(ps.len() as int) =~= ps);
    slots
}

} // verus!
