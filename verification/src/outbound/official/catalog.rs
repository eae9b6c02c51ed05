//! The products that the service reports for a machine, and the machine's
//! state that the library derives from them: one entry per snack slot,
//! ordered by row and then column.
use vstd::prelude::*;

use crate::entities::{MachineStateEntry, Product};
use crate::outbound::official::error::{ScraperError, ScraperErrorView};
use crate::outbound::official::scraper::sel_to_row_and_col;
use crate::outbound::official::stock::{coordinate_value, state_view, StateView};

verus! {

broadcast use vstd::seq_lib::group_to_multiset_ensures;

/// What kind of item a part of a combo is.
#[derive(Clone, Copy, Debug, PartialEq, Eq, Structural)]
pub enum ComboItemType {
    Coffee,
    Snack,
}

/// One part of a combo: its kind and the selection it is taken from.
#[derive(Debug)]
pub struct ComboContent {
    pub item_type: ComboItemType,
    pub selection: String,
}

/// A selection that only counts vends.
#[derive(Clone, Copy, Debug, PartialEq, Eq, Structural)]
pub struct OutProduct {
    pub product_id: u16,
    pub vends: u32,
    pub blocked: bool,
}

/// Price figures that the service reports for a single coffee or snack.
#[derive(Clone, Copy, Debug, PartialEq, Eq, Structural)]
pub struct SingleItemMetrics {
    pub price_error: Option<bool>,
    pub av_price: Option<i64>,
    pub price_cl1_error: Option<bool>,
    pub av_price_cl1: Option<i64>,
    pub price_cl2_error: Option<bool>,
    pub av_price_cl2: Option<i64>,
    pub price_cl3_error: Option<bool>,
    pub av_price_cl3: Option<i64>,
}

/// The fields of a coffee, snack or combo that the state is made of: its
/// selection (the slot's coordinate), name, price as an integer with the
/// number of its decimal places, capacity and fill level.
#[derive(Debug)]
pub struct CommonFields {
    pub selection: String,
    pub name: String,
    pub price: i64,
    pub decimal: u8,
    pub max: u8,
    pub level: Option<i8>,
}

/// A product of a machine as the service reports it.
#[derive(Debug)]
pub enum UpstreamProduct {
    Ingredient { selection: String, name: String },
    Out(OutProduct),
    Coffee { common: CommonFields, metrics: SingleItemMetrics },
    Snack { common: CommonFields, metrics: SingleItemMetrics },
    Combo { common: CommonFields, contents: Vec<ComboContent> },
}

/// The state entry of a product: `None` for anything but a snack; for a
/// snack, its selection read as row and column, or why it cannot be. A
/// snack without a fill level holds nothing.
pub open spec fn snack_state(p: UpstreamProduct) -> Option<Result<StateView, ScraperErrorView>> {
    match p {
        UpstreamProduct::Snack { common, .. } => Some(
            match coordinate_value(common.selection@) {
                Err(e) => Err(e),
                Ok((r, c)) => Ok(
                    (
                        (r, c, common.name@),
                        common.price,
                        common.decimal,
                        common.max,
                        match common.level {
                            Some(l) => l,
                            None => 0i8,
                        },
                    ),
                ),
            },
        ),
        _ => None,
    }
}

/// The state entries of the snacks among the products, in order; the first
/// snack whose selection cannot be read is the error.
pub open spec fn snack_states(ps: Seq<UpstreamProduct>) -> Result<Seq<StateView>, ScraperErrorView>
    decreases ps.len(),
{
    if ps.len() == 0 {
        Ok(Seq::empty())
    } else {
        match snack_states(ps.drop_last()) {
            Err(e) => Err(e),
            Ok(acc) => match snack_state(ps.last()) {
                None => Ok(acc),
                Some(Err(e)) => Err(e),
                Some(Ok(s)) => Ok(acc.push(s)),
            },
        }
    }
}

/// Whether the slot of `a` comes no later than that of `b`: by row, then by
/// column.
pub open spec fn slot_le(a: StateView, b: StateView) -> bool {
    a.0.0 < b.0.0 || (a.0.0 == b.0.0 && a.0.1 <= b.0.1)
}

/// `e` put into `s` after every trailing entry whose slot comes later, the
/// way one step of an insertion sort does.
pub open spec fn insert_by_slot(s: Seq<StateView>, e: StateView) -> Seq<StateView>
    decreases s.len(),
{
    if s.len() == 0 {
        seq![e]
    } else if slot_le(s.last(), e) {
        s.push(e)
    } else {
        insert_by_slot(s.drop_last(), e).push(s.last())
    }
}

/// The entries ordered by slot, entries of one slot keeping their order.
pub open spec fn sort_by_slot(s: Seq<StateView>) -> Seq<StateView>
    decreases s.len(),
{
    if s.len() == 0 {
        Seq::empty()
    } else {
        insert_by_slot(sort_by_slot(s.drop_last()), s.last())
    }
}

/// Whether the entries are ordered by slot.
pub open spec fn sorted_by_slot(s: Seq<StateView>) -> bool {
    forall|i: int, j: int| 0 <= i < j < s.len() ==> slot_le(#[trigger] s[i], #[trigger] s[j])
}

/// The state of a machine with the given products.
pub open spec fn machine_state_of(ps: Seq<UpstreamProduct>) -> Result<Seq<StateView>, ScraperErrorView> {
    match snack_states(ps) {
        Err(e) => Err(e),
        Ok(es) => Ok(sort_by_slot(es)),
    }
}

/// Putting `e` at index `j` is `insert_by_slot` when every entry from `j`
/// on comes later than `e` and the one before `j` does not.
proof fn lemma_insert_at(s: Seq<StateView>, e: StateView, j: int)
    requires
        0 <= j <= s.len(),
        forall|i: int| j <= i < s.len() ==> !slot_le(#[trigger] s[i], e),
        j == 0 || slot_le(s[j - 1], e),
    ensures
        insert_by_slot(s, e) == s.insert(j, e),
    decreases s.len(),
{
    if s.len() == 0 {
        assert(s.insert(j, e) =~= seq![e]);
    } else if slot_le(s.last(), e) {
        assert(s.insert(j, e) =~= s.push(e));
    } else {
        let t = s.drop_last();
        lemma_insert_at(t, e, j);
        assert(t.insert(j, e).push(s.last()) =~= s.insert(j, e));
    }
}

/// Inserting keeps the order, and the entries.
proof fn lemma_insert_by_slot(s: Seq<StateView>, e: StateView)
    requires
        sorted_by_slot(s),
    ensures
        sorted_by_slot(insert_by_slot(s, e)),
        insert_by_slot(s, e).to_multiset() == s.to_multiset().insert(e),
        insert_by_slot(s, e).len() == s.len() + 1,
    decreases s.len(),
{
    if s.len() == 0 {
        assert(seq![e].to_multiset() =~= Seq::<StateView>::empty().push(e).to_multiset()) by {
            assert(seq![e] =~= Seq::<StateView>::empty().push(e));
        }
        assert(s =~= Seq::<StateView>::empty());
    } else if slot_le(s.last(), e) {
        assert(s =~= s.drop_last().push(s.last()));
    } else {
        let t = s.drop_last();
        assert(sorted_by_slot(t));
        lemma_insert_by_slot(t, e);
        let r = insert_by_slot(t, e);
        assert(s =~= t.push(s.last()));
        assert forall|i: int| 0 <= i < r.len() implies slot_le(#[trigger] r[i], s.last()) by {
            assert(r.to_multiset().count(r[i]) > 0);
            assert(t.to_multiset().insert(e).count(r[i]) > 0);
            if r[i] != e {
                assert(t.to_multiset().count(r[i]) > 0);
                assert(t.contains(r[i]));
                let k = choose|k: int| 0 <= k < t.len() && t[k] == r[i];
                assert(s[k] == t[k]);
                assert(slot_le(s[k], s[s.len() - 1]));
            }
        }
        let u = r.push(s.last());
        assert forall|i: int, j: int| 0 <= i < j < u.len() implies slot_le(#[trigger] u[i], #[trigger] u[j]) by {
            if j == u.len() - 1 {
                assert(u[i] == r[i]);
            } else {
                assert(u[i] == r[i] && u[j] == r[j]);
            }
        }
    }
}

/// Sorting keeps the entries and orders them by slot.
proof fn lemma_sort_by_slot(s: Seq<StateView>)
    ensures
        sorted_by_slot(sort_by_slot(s)),
        sort_by_slot(s).to_multiset() == s.to_multiset(),
        sort_by_slot(s).len() == s.len(),
    decreases s.len(),
{
    if s.len() == 0 {
        assert(sort_by_slot(s).to_multiset() =~= s.to_multiset());
    } else {
        lemma_sort_by_slot(s.drop_last());
        lemma_insert_by_slot(sort_by_slot(s.drop_last()), s.last());
        assert(s =~= s.drop_last().push(s.last()));
    }
}

/// The state of a machine is ordered by row and, within a row, by column,
/// and holds exactly the entries of its snacks.
pub proof fn lemma_machine_state_sorted(ps: Seq<UpstreamProduct>)
    requires
        snack_states(ps) is Ok,
    ensures
        machine_state_of(ps) matches Ok(st) && sorted_by_slot(st) && st.to_multiset()
            == snack_states(ps)->Ok_0.to_multiset() && (forall|i: int, j: int|
            0 <= i < j < st.len() ==> (#[trigger] st[i]).0.0 < (#[trigger] st[j]).0.0 || (
            st[i].0.0 == st[j].0.0 && st[i].0.1 <= st[j].0.1)),
{
    lemma_sort_by_slot(snack_states(ps)->Ok_0);
    let st = machine_state_of(ps)->Ok_0;
    assert forall|i: int, j: int| 0 <= i < j < st.len() implies (#[trigger] st[i]).0.0 < (
    #[trigger] st[j]).0.0 || (st[i].0.0 == st[j].0.0 && st[i].0.1 <= st[j].0.1) by {
        assert(slot_le(st[i], st[j]));
    }
}

proof fn lemma_snack_states_err(ps: Seq<UpstreamProduct>, k: int)
    requires
        0 <= k <= ps.len(),
        snack_states(ps.take(k)) is Err,
    ensures
        snack_states(ps) == snack_states(ps.take(k)),
    decreases ps.len() - k,
{
    if k < ps.len() {
        assert(ps.take(k + 1).drop_last() =~= ps.take(k));
        lemma_snack_states_err(ps, k + 1);
    } else {
        assert(ps.take(k) =~= ps);
    }
}

fn slot_le_exec(a: &MachineStateEntry, b: &MachineStateEntry) -> (res: bool)
    ensures
        res == slot_le(a@, b@),
{
    a.id.row < b.id.row || (a.id.row == b.id.row && a.id.col <= b.id.col)
}

/// Puts an entry into a list ordered by slot, after the entries of its slot.
fn insert_entry(sorted: &mut Vec<MachineStateEntry>, entry: MachineStateEntry)
    ensures
        state_view(final(sorted)@) == insert_by_slot(state_view(old(sorted)@), entry@),
{
    let ghost s = state_view(sorted@);
    let ghost e = entry@;
    let mut j: usize = sorted.len();
    while j > 0 && !slot_le_exec(&sorted[j - 1], &entry)
        invariant
            j <= sorted@.len(),
            s == state_view(sorted@),
            e == entry@,
            forall|i: int| j <= i < s.len() ==> !slot_le(#[trigger] s[i], e),
        decreases j,
    {
        j = j - 1;
    }
    proof {
        lemma_insert_at(s, e, j as int);
    }
    sorted.insert(j, entry);
    assert(state_view(sorted@) =~= s.insert(j as int, e));
}

/// The state of a machine with the given products: one entry per snack, at
/// the row and column read from its selection, ordered by row and then
/// column.
pub fn machine_state(products: &[UpstreamProduct]) -> (res: Result<
    Vec<MachineStateEntry>,
    ScraperError,
>)
    ensures
        match machine_state_of(products@) {
            Ok(st) => res matches Ok(r) && state_view(r@) == st,
            Err(e) => res matches Err(x) && x@ == e,
        },
        res matches Ok(r) ==> forall|i: int, j: int|
            0 <= i < j < r@.len() ==> (#[trigger] r@[i]).id.row < (#[trigger] r@[j]).id.row || (
            r@[i].id.row == r@[j].id.row && r@[i].id.col <= r@[j].id.col),
{
    let ghost ps = products@;
    let ghost mut es: Seq<StateView> = Seq::empty();
    let mut sorted: Vec<MachineStateEntry> = Vec::new();
    let mut i: usize = 0;
    assert(ps.take(0) =~= Seq::<UpstreamProduct>::empty());
    assert(state_view(sorted@) =~= Seq::<StateView>::empty());
    while i < products.len()
        invariant
            i <= ps.len(),
            ps == products@,
            snack_states(ps.take(i as int)) == Ok::<Seq<StateView>, ScraperErrorView>(es),
            state_view(sorted@) == sort_by_slot(es),
        decreases ps.len() - i,
    {
        let ghost t = ps.take(i + 1);
        assert(t.drop_last() =~= ps.take(i as int));
        assert(t.last() == products@[i as int]);
        match &products[i] {
            UpstreamProduct::Snack { common, .. } => {
                let (r, c) = match sel_to_row_and_col(common.selection.as_str()) {
                    Ok(rc) => rc,
                    Err(e) => {
                        proof { lemma_snack_states_err(ps, i + 1); }
                        return Err(e);
                    },
                };
                let cur: i8 = match common.level {
                    Some(l) => l,
                    None => 0,
                };
                let entry = MachineStateEntry {
                    id: Product::new(r, c, common.name.clone()),
                    price: common.price,
                    decimal: common.decimal,
                    max: common.max,
                    cur,
                };
                proof {
                    assert(es.push(entry@).drop_last() =~= es);
                }
                insert_entry(&mut sorted, entry);
                proof {
                    es = es.push(entry@);
                }
            },
            _ => {},
        }
        i = i + 1;
    }
    assert(ps.take(ps.len() as int) =~= ps);
    proof {
        lemma_machine_state_sorted(ps);
        let st = state_view(sorted@);
        assert forall|i: int, j: int| 0 <= i < j < sorted@.len() implies (
        #[trigger] sorted@[i]).id.row < (#[trigger] sorted@[j]).id.row || (sorted@[i].id.row
            == sorted@[j].id.row && sorted@[i].id.col <= sorted@[j].id.col) by {
            assert(st[i] == sorted@[i]@);
            assert(st[j] == sorted@[j]@);
        }
    }
    Ok(sorted)
}

} // verus!
