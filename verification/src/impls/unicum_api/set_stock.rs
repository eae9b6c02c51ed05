//! The form that sets the stock of a machine on the classic stock page.
use vstd::prelude::*;

use crate::entities::{SetStockTarget, StockSlot};
use crate::impls::unicum_api::get_stock::{stock_slots_view, SlotView};
use crate::impls::unicum_api::ModuleError;
use crate::outbound::official::forms::{distinct_names, fields_view, form_map, set_field, strings_view};
use crate::text::{decimal, format_unsigned, owned};

verus! {

/// The fields that set the counts of the slots: each slot's form field gets
/// its count in decimal.
pub open spec fn slot_fields(slots: Seq<SlotView>) -> Map<Seq<char>, Seq<char>>
    decreases slots.len(),
{
    if slots.len() == 0 {
        Map::empty()
    } else {
        slot_fields(slots.drop_last()).insert(slots.last().2, decimal(slots.last().3 as nat))
    }
}

/// The encashment that a stock update is booked to: the first listed one,
/// or the future one, `T`; without any encashment the latest one cannot be
/// chosen.
pub open spec fn target_encashment(target: SetStockTarget, encashments: Seq<Seq<char>>) -> Result<
    Seq<char>,
    Seq<char>,
> {
    match target {
        SetStockTarget::Latest => if encashments.len() > 0 {
            Ok(encashments[0])
        } else {
            Err("No enchasments found! Use future target."@)
        },
        SetStockTarget::Future => Ok("T"@),
    }
}

/// The form of a stock update: the counts of the slots, `m` the encashment
/// and an empty `a`.
pub open spec fn slot_form_of(
    slots: Seq<SlotView>,
    target: SetStockTarget,
    encashments: Seq<Seq<char>>,
) -> Result<Map<Seq<char>, Seq<char>>, Seq<char>> {
    match target_encashment(target, encashments) {
        Err(e) => Err(e),
        Ok(id) => Ok(slot_fields(slots).insert("m"@, id).insert("a"@, Seq::empty())),
    }
}

/// The last slot for a form field sets its count there, in decimal.
proof fn lemma_slot_fields_last(slots: Seq<SlotView>, i: int)
    requires
        0 <= i < slots.len(),
        forall|j: int| i < j < slots.len() ==> (#[trigger] slots[j]).2 != slots[i].2,
    ensures
        slot_fields(slots).contains_key(slots[i].2),
        slot_fields(slots)[slots[i].2] == decimal(slots[i].3 as nat),
    decreases slots.len(),
{
    if i < slots.len() - 1 {
        lemma_slot_fields_last(slots.drop_last(), i);
        assert(slots.last() == slots[slots.len() - 1]);
    }
}

/// Every slot's field is set in the form.
proof fn lemma_slot_fields_dom(slots: Seq<SlotView>, i: int)
    requires
        0 <= i < slots.len(),
    ensures
        slot_fields(slots).contains_key(slots[i].2),
    decreases slots.len(),
{
    if i < slots.len() - 1 {
        lemma_slot_fields_dom(slots.drop_last(), i);
    }
}

/// A stock update booked to the latest encashment names the first of the
/// listed encashments, the latest, in `m`; one booked to the future
/// encashment names `T`; without any encashment the latest one is refused.
/// `a` is empty, and each slot's form field holds the count of the last slot
/// listed for it, in decimal, unless the field is `m` or `a`.
pub proof fn lemma_stock_form_booking(
    slots: Seq<SlotView>,
    target: SetStockTarget,
    encashments: Seq<Seq<char>>,
)
    ensures
        target is Latest && encashments.len() > 0 ==> (slot_form_of(slots, target, encashments) matches Ok(
            m,
        ) && m.contains_key("m"@) && m["m"@] == encashments[0]),
        target is Latest && encashments.len() == 0 ==> slot_form_of(slots, target, encashments)
            == Err::<Map<Seq<char>, Seq<char>>, Seq<char>>(
            "No enchasments found! Use future target."@,
        ),
        target is Future ==> (slot_form_of(slots, target, encashments) matches Ok(m)
            && m.contains_key("m"@) && m["m"@] == "T"@),
        slot_form_of(slots, target, encashments) matches Ok(m) ==> m.contains_key("a"@) && m["a"@]
            == Seq::<char>::empty(),
        slot_form_of(slots, target, encashments) matches Ok(m) ==> forall|i: int|
            0 <= i < slots.len() ==> m.contains_key((#[trigger] slots[i]).2),
        slot_form_of(slots, target, encashments) matches Ok(m) ==> forall|i: int|
            0 <= i < slots.len() && (#[trigger] slots[i]).2 != "m"@ && slots[i].2 != "a"@ && (
            forall|j: int| i < j < slots.len() ==> slots[j].2 != slots[i].2) ==> m[slots[i].2]
                == decimal(slots[i].3 as nat),
{
    reveal_strlit("m");
    reveal_strlit("a");
    assert("m"@[0] != "a"@[0]);
    assert("m"@ != "a"@);
    if let Ok(m) = slot_form_of(slots, target, encashments) {
        assert forall|i: int| 0 <= i < slots.len() implies m.contains_key(
            (#[trigger] slots[i]).2,
        ) by {
            lemma_slot_fields_dom(slots, i);
        }
        assert forall|i: int|
            0 <= i < slots.len() && (#[trigger] slots[i]).2 != "m"@ && slots[i].2 != "a"@ && (
            forall|j: int| i < j < slots.len() ==> slots[j].2 != slots[i].2) implies m[slots[i].2]
            == decimal(slots[i].3 as nat) by {
            lemma_slot_fields_last(slots, i);
        }
    }
}

/// The form that sets the stock of a machine, booked to the given
/// encashment; `encashments` are the ids of the machine's encashments, the
/// latest first.
pub fn set_stock_form(stock: &[StockSlot], target: SetStockTarget, encashments: &[String]) -> (res:
    Result<Vec<(String, String)>, ModuleError>)
    ensures
        match slot_form_of(stock_slots_view(stock@), target, strings_view(encashments@)) {
            Ok(m) => res matches Ok(f) && distinct_names(fields_view(f@)) && form_map(
                fields_view(f@),
            ) == m,
            Err(c) => res matches Err(ModuleError::ParseError { cause }) && cause@ == c,
        },
        target is Latest && encashments@.len() > 0 ==> (res matches Ok(f) && form_map(
            fields_view(f@),
        ).contains_key("m"@) && form_map(fields_view(f@))["m"@] == encashments@[0]@),
        target is Future ==> (res matches Ok(f) && form_map(fields_view(f@)).contains_key("m"@)
            && form_map(fields_view(f@))["m"@] == "T"@),
        target is Latest && encashments@.len() == 0 ==> res is Err,
{
    proof {
        reveal_strlit("");
    }
    let id = match target {
        SetStockTarget::Latest => {
            if encashments.len() == 0 {
                return Err(
                    ModuleError::ParseError {
                        cause: owned("No enchasments found! Use future target."),
                    },
                );
            }
            assert(strings_view(encashments@)[0] == encashments@[0]@);
            encashments[0].clone()
        },
        SetStockTarget::Future => owned("T"),
    };
    let ghost all = stock_slots_view(stock@);
    let mut fields: Vec<(String, String)> = Vec::new();
    let mut i: usize = 0;
    assert(fields_view(fields@) =~= Seq::<(Seq<char>, Seq<char>)>::empty());
    assert(all.take(0) =~= Seq::<SlotView>::empty());
    assert(form_map(fields_view(fields@)) =~= slot_fields(all.take(0)));
    while i < stock.len()
        invariant
            i <= stock@.len(),
            all == stock_slots_view(stock@),
            distinct_names(fields_view(fields@)),
            form_map(fields_view(fields@)) == slot_fields(all.take(i as int)),
        decreases stock@.len() - i,
    {
        assert(all.take(i + 1).drop_last() =~= all.take(i as int));
        assert(all.take(i + 1).last() == stock@[i as int]@);
        set_field(&mut fields, stock[i].mapped_to.clone(), format_unsigned(stock[i].cur as u64));
        i = i + 1;
    }
    assert(all.take(stock@.len() as int) =~= all);
    let ghost id_view = id@;
    assert(target_encashment(target, strings_view(encashments@)) == Ok::<Seq<char>, Seq<char>>(id_view));
    set_field(&mut fields, owned("m"), id);
    set_field(&mut fields, owned("a"), owned(""));
    assert(""@ =~= Seq::<char>::empty());
    proof {
        let fv = fields_view(fields@);
        lemma_stock_form_booking(all, target, strings_view(encashments@));
        assert(form_map(fv) == slot_form_of(all, target, strings_view(encashments@))->Ok_0);
        if target is Latest {
            assert(strings_view(encashments@)[0] == encashments@[0]@);
        }
    }
    Ok(fields)
}

} // verus!
