//! The forms that the library posts to the service's pages: a stock update
//! and the period of a sales report.
use vstd::prelude::*;

use crate::calendar::{
    date_of_unix_timestamp, days_in_month, get_months_between, is_valid_date, month_length,
    months_between, utc_date_of, MAX_TIMESTAMP, MIN_TIMESTAMP,
};
use crate::contracts::ContractError;
use crate::entities::{Date, MachineSalesEntry, SetStockForWhichEncashment, StockEntry};
use crate::outbound::official::error::{ScraperError, ScraperErrorView};
use crate::outbound::official::stock::{stock_view, StockView};
use crate::outbound::official::upstream::{sales_view, SaleView};
use crate::text::{decimal, format_signed, format_unsigned, owned, signed_decimal, str_eq};

verus! {

/// A form as `(field, value)` pairs.
pub type FieldsView = Seq<(Seq<char>, Seq<char>)>;

/// The fields of a form.
pub open spec fn fields_view(fields: Seq<(String, String)>) -> FieldsView {
    fields.map_values(|f: (String, String)| (f.0@, f.1@))
}

/// What a list of fields sets: a later field of the same name wins.
pub open spec fn form_map(fields: FieldsView) -> Map<Seq<char>, Seq<char>>
    decreases fields.len(),
{
    if fields.len() == 0 {
        Map::empty()
    } else {
        form_map(fields.drop_last()).insert(fields.last().0, fields.last().1)
    }
}

/// Whether no field name occurs twice.
pub open spec fn distinct_names(fields: FieldsView) -> bool {
    forall|i: int, j: int| 0 <= i < j < fields.len() ==> #[trigger] fields[i].0 != #[trigger] fields[j].0
}

/// Replacing the value of a field whose name occurs once is setting it.
proof fn lemma_form_map_update(fields: FieldsView, i: int, value: Seq<char>)
    requires
        0 <= i < fields.len(),
        distinct_names(fields),
    ensures
        form_map(fields.update(i, (fields[i].0, value))) == form_map(fields).insert(
            fields[i].0,
            value,
        ),
    decreases fields.len(),
{
    let name = fields[i].0;
    let updated = fields.update(i, (name, value));
    if i == fields.len() - 1 {
        assert(updated.drop_last() =~= fields.drop_last());
        assert(form_map(updated) =~= form_map(fields).insert(name, value));
    } else {
        let t = fields.drop_last();
        assert(distinct_names(t));
        lemma_form_map_update(t, i, value);
        assert(updated.drop_last() =~= t.update(i, (name, value)));
        assert(fields.last().0 != name);
        assert(form_map(updated) =~= form_map(fields).insert(name, value));
    }
}

/// Sets a field of a form: replaces the value of the field of that name, or
/// adds the field.
pub fn set_field(fields: &mut Vec<(String, String)>, name: String, value: String)
    requires
        distinct_names(fields_view(old(fields)@)),
    ensures
        distinct_names(fields_view(final(fields)@)),
        form_map(fields_view(final(fields)@)) == form_map(fields_view(old(fields)@)).insert(
            name@,
            value@,
        ),
{
    let ghost before = fields_view(fields@);
    let mut i: usize = 0;
    while i < fields.len()
        invariant
            i <= fields@.len(),
            before == fields_view(fields@),
            before == fields_view(old(fields)@),
            distinct_names(before),
            forall|k: int| 0 <= k < i ==> before[k].0 != name@,
        decreases fields@.len() - i,
    {
        if str_eq(fields[i].0.as_str(), name.as_str()) {
            let ghost value_view = value@;
            let ghost name_view = name@;
            assert(before[i as int].0 == name_view);
            fields.set(i, (name, value));
            proof {
                lemma_form_map_update(before, i as int, value_view);
                assert(fields_view(fields@) =~= before.update(i as int, (before[i as int].0, value_view)));
                assert(form_map(fields_view(fields@)) == form_map(before).insert(name_view, value_view));
            }
            return;
        }
        i = i + 1;
    }
    let ghost pair = (name@, value@);
    fields.push((name, value));
    assert(fields_view(fields@) =~= before.push(pair));
    assert(fields_view(fields@).drop_last() =~= before);
}

/// The fields that set the counts of a stock: each slot's form field gets
/// its count in decimal.
pub open spec fn stock_fields(stock: Seq<StockView>) -> Map<Seq<char>, Seq<char>>
    decreases stock.len(),
{
    if stock.len() == 0 {
        Map::empty()
    } else {
        stock_fields(stock.drop_last()).insert(stock.last().3, decimal(stock.last().4 as nat))
    }
}

/// The encashment that a stock update is booked to: the first listed one
/// (the service lists the latest first), or the future one, `T`.
pub open spec fn encashment_id(target: SetStockForWhichEncashment, encashments: Seq<Seq<char>>) -> Result<
    Seq<char>,
    ScraperErrorView,
> {
    match target {
        SetStockForWhichEncashment::Latest => if encashments.len() > 0 {
            Ok(encashments[0])
        } else {
            Err(ScraperErrorView::MissingElement { element: "encashment"@ })
        },
        SetStockForWhichEncashment::Future => Ok("T"@),
    }
}

/// The texts of a list of strings.
pub open spec fn strings_view(v: Seq<String>) -> Seq<Seq<char>> {
    v.map_values(|s: String| s@)
}

/// The form of a stock update: the counts of the stock, `m` the encashment
/// and an empty `a`.
pub open spec fn set_stock_form_of(
    stock: Seq<StockView>,
    target: SetStockForWhichEncashment,
    encashments: Seq<Seq<char>>,
) -> Result<Map<Seq<char>, Seq<char>>, ScraperErrorView> {
    match encashment_id(target, encashments) {
        Err(e) => Err(e),
        Ok(id) => Ok(stock_fields(stock).insert("m"@, id).insert("a"@, Seq::empty())),
    }
}

proof fn lemma_stock_fields_last(stock: Seq<StockView>, i: int)
    requires
        0 <= i < stock.len(),
        forall|j: int| i < j < stock.len() ==> (#[trigger] stock[j]).3 != stock[i].3,
    ensures
        stock_fields(stock).contains_key(stock[i].3),
        stock_fields(stock)[stock[i].3] == decimal(stock[i].4 as nat),
    decreases stock.len(),
{
    if i < stock.len() - 1 {
        lemma_stock_fields_last(stock.drop_last(), i);
    }
}

proof fn lemma_stock_fields_dom(stock: Seq<StockView>, i: int)
    requires
        0 <= i < stock.len(),
    ensures
        stock_fields(stock).contains_key(stock[i].3),
    decreases stock.len(),
{
    if i < stock.len() - 1 {
        lemma_stock_fields_dom(stock.drop_last(), i);
    }
}

/// A stock update booked to the latest encashment names the first of the
/// listed encashments, the latest, in `m`; one booked to the future
/// encashment names `T`; without any encashment the latest one is refused.
/// `a` is empty, and each entry's form field holds the count of the last
/// entry listed for it, in decimal, unless the field is `m` or `a`.
pub proof fn lemma_set_stock_form_booking(
    stock: Seq<StockView>,
    target: SetStockForWhichEncashment,
    encashments: Seq<Seq<char>>,
)
    ensures
        target is Latest && encashments.len() > 0 ==> (set_stock_form_of(stock, target, encashments) matches Ok(
            m,
        ) && m.contains_key("m"@) && m["m"@] == encashments[0]),
        target is Latest && encashments.len() == 0 ==> set_stock_form_of(stock, target, encashments)
            is Err,
        target is Future ==> (set_stock_form_of(stock, target, encashments) matches Ok(m)
            && m.contains_key("m"@) && m["m"@] == "T"@),
        set_stock_form_of(stock, target, encashments) matches Ok(m) ==> m.contains_key("a"@)
            && m["a"@] == Seq::<char>::empty(),
        set_stock_form_of(stock, target, encashments) matches Ok(m) ==> forall|i: int|
            0 <= i < stock.len() ==> m.contains_key((#[trigger] stock[i]).3),
        set_stock_form_of(stock, target, encashments) matches Ok(m) ==> forall|i: int|
            0 <= i < stock.len() && (#[trigger] stock[i]).3 != "m"@ && stock[i].3 != "a"@ && (
            forall|j: int| i < j < stock.len() ==> stock[j].3 != stock[i].3) ==> m[stock[i].3]
                == decimal(stock[i].4 as nat),
{
    reveal_strlit("m");
    reveal_strlit("a");
    assert("m"@[0] != "a"@[0]);
    assert("m"@ != "a"@);
    if let Ok(m) = set_stock_form_of(stock, target, encashments) {
        assert forall|i: int| 0 <= i < stock.len() implies m.contains_key(
            (#[trigger] stock[i]).3,
        ) by {
            lemma_stock_fields_dom(stock, i);
        }
        assert forall|i: int|
            0 <= i < stock.len() && (#[trigger] stock[i]).3 != "m"@ && stock[i].3 != "a"@ && (
            forall|j: int| i < j < stock.len() ==> stock[j].3 != stock[i].3) implies m[stock[i].3]
            == decimal(stock[i].4 as nat) by {
            lemma_stock_fields_last(stock, i);
        }
    }
}

/// The form that sets the stock of a machine, booked to the given
/// encashment; `encashments` are the ids of the machine's encashments, the
/// latest first.
pub fn set_stock_form(
    stock: &[StockEntry],
    target: SetStockForWhichEncashment,
    encashments: &[String],
) -> (res: Result<Vec<(String, String)>, ScraperError>)
    ensures
        match set_stock_form_of(stock_view(stock@), target, strings_view(encashments@)) {
            Ok(m) => res matches Ok(f) && distinct_names(fields_view(f@)) && form_map(
                fields_view(f@),
            ) == m,
            Err(e) => res matches Err(x) && x@ == e,
        },
        target is Latest && encashments@.len() > 0 ==> (res matches Ok(f) && form_map(
            fields_view(f@),
        ).contains_key("m"@) && form_map(fields_view(f@))["m"@] == encashments@[0]@),
        target is Future ==> (res matches Ok(f) && form_map(fields_view(f@)).contains_key("m"@)
            && form_map(fields_view(f@))["m"@] == "T"@),
        target is Latest && encashments@.len() == 0 ==> res is Err,
{
    proof {
        reveal_strlit("");
    }
    let id = match target {
        SetStockForWhichEncashment::Latest => {
            if encashments.len() == 0 {
                return Err(ScraperError::MissingElement { element: owned("encashment") });
            }
            assert(strings_view(encashments@)[0] == encashments@[0]@);
            encashments[0].clone()
        },
        SetStockForWhichEncashment::Future => owned("T"),
    };
    let ghost all = stock_view(stock@);
    let mut fields: Vec<(String, String)> = Vec::new();
    let mut i: usize = 0;
    assert(fields_view(fields@) =~= Seq::<(Seq<char>, Seq<char>)>::empty());
    assert(all.take(0) =~= Seq::<StockView>::empty());
    assert(form_map(fields_view(fields@)) =~= stock_fields(all.take(0)));
    while i < stock.len()
        invariant
            i <= stock@.len(),
            all == stock_view(stock@),
            distinct_names(fields_view(fields@)),
            form_map(fields_view(fields@)) == stock_fields(all.take(i as int)),
        decreases stock@.len() - i,
    {
        assert(all.take(i + 1).drop_last() =~= all.take(i as int));
        assert(all.take(i + 1).last() == stock@[i as int]@);
        set_field(&mut fields, stock[i].mapped_to.clone(), format_unsigned(stock[i].cur as u64));
        i = i + 1;
    }
    assert(all.take(stock@.len() as int) =~= all);
    let ghost id_view = id@;
    assert(encashment_id(target, strings_view(encashments@)) == Ok::<Seq<char>, ScraperErrorView>(id_view));
    set_field(&mut fields, owned("m"), id);
    set_field(&mut fields, owned("a"), owned(""));
    assert(""@ =~= Seq::<char>::empty());
    proof {
        lemma_set_stock_form_booking(all, target, strings_view(encashments@));
        if target is Latest {
            assert(strings_view(encashments@)[0] == encashments@[0]@);
        }
    }
    Ok(fields)
}

/// The period of a sales query: the first day of the month of `since`
/// to the last day of the given month.
pub open spec fn sales_query_fields(since: (i32, u8, u8), month: u8, year: i32) -> FieldsView {
    seq![
        ("day"@, "1"@),
        ("month"@, decimal(since.1 as nat)),
        ("year"@, signed_decimal(since.0 as int)),
        ("day1"@, decimal(days_in_month(month as int, year as int) as nat)),
        ("month1"@, decimal(month as nat)),
        ("year1"@, signed_decimal(year as int)),
    ]
}

/// One query of the sales report: the month whose sales it reads, and the
/// form that asks for them.
pub struct SalesQuery {
    pub month: u8,
    pub year: i32,
    pub fields: Vec<(String, String)>,
}

impl View for SalesQuery {
    /// `(month, year, fields)`.
    type V = (u8, i32, FieldsView);

    open spec fn view(&self) -> (u8, i32, FieldsView) {
        (self.month, self.year, fields_view(self.fields@))
    }
}

/// The queries of a list.
pub open spec fn queries_view(queries: Seq<SalesQuery>) -> Seq<(u8, i32, FieldsView)> {
    queries.map_values(|q: SalesQuery| q@)
}

/// The queries that read the sales from `since` to `until`: one per month
/// from that of `since` to that of `until`, none when `until` is earlier.
pub open spec fn sales_queries_of(since: (i32, u8, u8), until: (i32, u8, u8)) -> Seq<
    (u8, i32, FieldsView),
> {
    months_between(since, until).map_values(
        |m: (u8, i32)| (m.0, m.1, sales_query_fields(since, m.0, m.1)),
    )
}

fn field(name: &str, value: String) -> (res: (String, String))
    ensures
        res.0@ == name@,
        res.1@ == value@,
{
    (owned(name), value)
}

/// Each query asks for its month: from the first day of the month of
/// `since` to the last day of the query's month, in decimal.
proof fn lemma_query_fields(qs: Seq<SalesQuery>, since: Date, until: Date)
    requires
        queries_view(qs) == sales_queries_of(since@, until@),
    ensures
        qs.len() == months_between(since@, until@).len(),
        forall|i: int|
            #![trigger qs[i]]
            0 <= i < qs.len() ==> {
                &&& (qs[i].month, qs[i].year) == months_between(since@, until@)[i]
                &&& qs[i].fields@.len() == 6
                &&& qs[i].fields@[0].0@ == "day"@ && qs[i].fields@[0].1@ == "1"@
                &&& qs[i].fields@[1].0@ == "month"@ && qs[i].fields@[1].1@ == decimal(
                    since.month as nat,
                )
                &&& qs[i].fields@[2].0@ == "year"@ && qs[i].fields@[2].1@ == signed_decimal(
                    since.year as int,
                )
                &&& qs[i].fields@[3].0@ == "day1"@ && qs[i].fields@[3].1@ == decimal(
                    days_in_month(qs[i].month as int, qs[i].year as int) as nat,
                )
                &&& qs[i].fields@[4].0@ == "month1"@ && qs[i].fields@[4].1@ == decimal(
                    qs[i].month as nat,
                )
                &&& qs[i].fields@[5].0@ == "year1"@ && qs[i].fields@[5].1@ == signed_decimal(
                    qs[i].year as int,
                )
            },
{
    assert(queries_view(qs).len() == qs.len());
    assert forall|i: int|
        #![trigger qs[i]]
        0 <= i < qs.len() implies {
                &&& (qs[i].month, qs[i].year) == months_between(since@, until@)[i]
                &&& qs[i].fields@.len() == 6
                &&& qs[i].fields@[0].0@ == "day"@ && qs[i].fields@[0].1@ == "1"@
                &&& qs[i].fields@[1].0@ == "month"@ && qs[i].fields@[1].1@ == decimal(
                    since.month as nat,
                )
                &&& qs[i].fields@[2].0@ == "year"@ && qs[i].fields@[2].1@ == signed_decimal(
                    since.year as int,
                )
                &&& qs[i].fields@[3].0@ == "day1"@ && qs[i].fields@[3].1@ == decimal(
                    days_in_month(qs[i].month as int, qs[i].year as int) as nat,
                )
                &&& qs[i].fields@[4].0@ == "month1"@ && qs[i].fields@[4].1@ == decimal(
                    qs[i].month as nat,
                )
                &&& qs[i].fields@[5].0@ == "year1"@ && qs[i].fields@[5].1@ == signed_decimal(
                    qs[i].year as int,
                )
            } by {
        let q = qs[i];
        assert(queries_view(qs)[i] == q@);
        let m = months_between(since@, until@)[i];
        assert(sales_queries_of(since@, until@)[i] == (m.0, m.1, sales_query_fields(since@, m.0, m.1)));
        let fv = fields_view(q.fields@);
        assert(fv == sales_query_fields(since@, q.month, q.year));
        assert(fv.len() == 6);
        assert(fv[0] == (q.fields@[0].0@, q.fields@[0].1@));
        assert(fv[1] == (q.fields@[1].0@, q.fields@[1].1@));
        assert(fv[2] == (q.fields@[2].0@, q.fields@[2].1@));
        assert(fv[3] == (q.fields@[3].0@, q.fields@[3].1@));
        assert(fv[4] == (q.fields@[4].0@, q.fields@[4].1@));
        assert(fv[5] == (q.fields@[5].0@, q.fields@[5].1@));
    }
}

/// The queries that read the sales of a machine from `since` to `until`.
pub fn sales_queries(since: Date, until: Date) -> (res: Vec<SalesQuery>)
    requires
        is_valid_date(since@),
        is_valid_date(until@),
    ensures
        queries_view(res@) == sales_queries_of(since@, until@),
        res@.len() == months_between(since@, until@).len(),
        forall|i: int|
            #![trigger res@[i]]
            0 <= i < res@.len() ==> {
                &&& (res@[i].month, res@[i].year) == months_between(since@, until@)[i]
                &&& res@[i].fields@.len() == 6
                &&& res@[i].fields@[0].0@ == "day"@ && res@[i].fields@[0].1@ == "1"@
                &&& res@[i].fields@[1].0@ == "month"@ && res@[i].fields@[1].1@ == decimal(
                    since.month as nat,
                )
                &&& res@[i].fields@[2].0@ == "year"@ && res@[i].fields@[2].1@ == signed_decimal(
                    since.year as int,
                )
                &&& res@[i].fields@[3].0@ == "day1"@ && res@[i].fields@[3].1@ == decimal(
                    days_in_month(res@[i].month as int, res@[i].year as int) as nat,
                )
                &&& res@[i].fields@[4].0@ == "month1"@ && res@[i].fields@[4].1@ == decimal(
                    res@[i].month as nat,
                )
                &&& res@[i].fields@[5].0@ == "year1"@ && res@[i].fields@[5].1@ == signed_decimal(
                    res@[i].year as int,
                )
            },
{
    let months = get_months_between(since, until);
    let mut queries: Vec<SalesQuery> = Vec::new();
    let mut i: usize = 0;
    while i < months.len()
        invariant
            i <= months@.len(),
            months@ == months_between(since@, until@),
            is_valid_date(since@),
            queries_view(queries@) == sales_queries_of(since@, until@).take(i as int),
        decreases months@.len() - i,
    {
        let (month, year) = months[i];
        assert(1 <= month <= 12) by {
            assert(months@[i as int] == crate::calendar::month_at(
                crate::calendar::month_index(since@),
                i as int,
            ));
        }
        let fields: Vec<(String, String)> = vec![
            field("day", owned("1")),
            field("month", format_unsigned(since.month as u64)),
            field("year", format_signed(since.year as i64)),
            field("day1", format_unsigned(month_length(month, year) as u64)),
            field("month1", format_unsigned(month as u64)),
            field("year1", format_signed(year as i64)),
        ];
        let ghost before = queries@;
        let query = SalesQuery { month, year, fields };
        assert(query@ == sales_queries_of(since@, until@)[i as int]) by {
            assert(fields_view(query.fields@) =~= sales_query_fields(since@, month, year));
        }
        let ghost qv = query@;
        queries.push(query);
        assert(queries_view(queries@) =~= queries_view(before).push(qv));
        assert(queries_view(queries@) =~= sales_queries_of(since@, until@).take(i + 1));
        i = i + 1;
    }
    assert(sales_queries_of(since@, until@).take(months@.len() as int) =~= sales_queries_of(
        since@,
        until@,
    ));
    proof {
        lemma_query_fields(queries@, since, until);
    }
    queries
}

/// Whether a day lies in the period from `since`, included, to `until`,
/// excluded.
pub open spec fn in_period(day: (i32, u8, u8), since: (i32, u8, u8), until: (i32, u8, u8)) -> bool {
    !crate::calendar::date_before(day, since) && crate::calendar::date_before(day, until)
}

/// The sales of a list that were made from `since`, included, to `until`,
/// excluded, in their order.
pub open spec fn sales_within_of(sales: Seq<SaleView>, since: (i32, u8, u8), until: (i32, u8, u8)) -> Seq<
    SaleView,
> {
    sales.filter(|s: SaleView| in_period(s.0, since, until))
}

/// The sales kept from `since` to `until` are exactly those, in their
/// order, whose date is on or after `since` and before `until`, dates being
/// ordered by year, then month, then day.
pub proof fn lemma_sales_within_by_date(
    sales: Seq<SaleView>,
    since: (i32, u8, u8),
    until: (i32, u8, u8),
)
    ensures
        sales_within_of(sales, since, until) == sales.filter(
            (|s: SaleView|
                (since.0 < s.0.0 || (since.0 == s.0.0 && (since.1 < s.0.1 || (since.1 == s.0.1
                    && since.2 <= s.0.2)))) && (s.0.0 < until.0 || (s.0.0 == until.0 && (s.0.1
                    < until.1 || (s.0.1 == until.1 && s.0.2 < until.2))))),
        ),
{
    let kept = |s: SaleView| in_period(s.0, since, until);
    let direct = |s: SaleView|
        (since.0 < s.0.0 || (since.0 == s.0.0 && (since.1 < s.0.1 || (since.1 == s.0.1 && since.2
            <= s.0.2)))) && (s.0.0 < until.0 || (s.0.0 == until.0 && (s.0.1 < until.1 || (s.0.1
            == until.1 && s.0.2 < until.2))));
    assert(kept =~= direct);
}

proof fn lemma_within_step(s: Seq<SaleView>, since: (i32, u8, u8), until: (i32, u8, u8))
    requires
        s.len() > 0,
    ensures
        sales_within_of(s, since, until) == (if in_period(s.last().0, since, until) {
            sales_within_of(s.drop_last(), since, until).push(s.last())
        } else {
            sales_within_of(s.drop_last(), since, until)
        }),
{
    let pred = |x: SaleView| in_period(x.0, since, until);
    reveal(Seq::filter);
    assert(s.filter(pred) == (if pred(s.last()) {
        s.drop_last().filter(pred).push(s.last())
    } else {
        s.drop_last().filter(pred)
    }));
}

/// Keeps the sales made from `since`, included, to `until`, excluded: the
/// months that the report is queried for can hold days outside the period.
pub fn sales_within(sales: Vec<MachineSalesEntry>, since: &Date, until: &Date) -> (res: Vec<
    MachineSalesEntry,
>)
    ensures
        sales_view(res@) == sales_within_of(sales_view(sales@), since@, until@),
        forall|i: int| 0 <= i < res@.len() ==> in_period(#[trigger] res@[i].date@, since@, until@),
        sales_view(res@) == sales_view(sales@).filter(
            (|s: SaleView|
                (since.year < s.0.0 || (since.year == s.0.0 && (since.month < s.0.1 || (
                since.month == s.0.1 && since.day <= s.0.2)))) && (s.0.0 < until.year || (s.0.0
                == until.year && (s.0.1 < until.month || (s.0.1 == until.month && s.0.2
                < until.day))))),
        ),
{
    let ghost all = sales_view(sales@);
    let mut kept: Vec<MachineSalesEntry> = Vec::new();
    let mut i: usize = 0;
    assert(all.take(0) =~= Seq::<SaleView>::empty());
    assert(sales_view(kept@) =~= Seq::<SaleView>::empty());
    while i < sales.len()
        invariant
            i <= sales@.len(),
            all == sales_view(sales@),
            sales_view(kept@) == sales_within_of(all.take(i as int), since@, until@),
        decreases sales@.len() - i,
    {
        let ghost t = all.take(i + 1);
        assert(t.drop_last() =~= all.take(i as int));
        assert(t.last() == sales@[i as int]@);
        let day = sales[i].date;
        assert(day@ == t.last().0);
        proof {
            lemma_within_step(t, since@, until@);
        }
        if !crate::calendar::is_before(&day, since) && crate::calendar::is_before(&day, until) {
            let ghost before = kept@;
            let copy = sales[i].clone();
            kept.push(copy);
            assert(sales_view(kept@) =~= sales_view(before).push(copy@));
            assert(sales_within_of(t, since@, until@) == sales_within_of(all.take(i as int), since@, until@).push(t.last()));
        } else {
            assert(sales_within_of(t, since@, until@) == sales_within_of(all.take(i as int), since@, until@));
        }
        i = i + 1;
    }
    assert(all.take(sales@.len() as int) =~= all);
    proof {
        let pred = |s: SaleView| in_period(s.0, since@, until@);
        assert forall|i: int| 0 <= i < kept@.len() implies in_period(#[trigger] kept@[i].date@, since@, until@) by {
            all.lemma_filter_pred(pred, i);
            assert(sales_view(kept@)[i] == kept@[i]@);
        }
        lemma_sales_within_by_date(all, since@, until@);
        let (a, b) = (since@, until@);
        let by_view = |s: SaleView|
            (a.0 < s.0.0 || (a.0 == s.0.0 && (a.1 < s.0.1 || (a.1 == s.0.1 && a.2 <= s.0.2))))
                && (s.0.0 < b.0 || (s.0.0 == b.0 && (s.0.1 < b.1 || (s.0.1 == b.1 && s.0.2
                < b.2))));
        let by_fields = |s: SaleView|
            (since.year < s.0.0 || (since.year == s.0.0 && (since.month < s.0.1 || (since.month
                == s.0.1 && since.day <= s.0.2)))) && (s.0.0 < until.year || (s.0.0 == until.year
                && (s.0.1 < until.month || (s.0.1 == until.month && s.0.2 < until.day))));
        assert(by_view =~= by_fields);
    }
    kept
}

/// The first and the last day of a sales request given in Unix
/// timestamps, as UTC dates; a timestamp without a date is an error.
pub open spec fn sales_period_of(since: i64, until: i64) -> Option<((i32, u8, u8), (i32, u8, u8))> {
    if MIN_TIMESTAMP <= since <= MAX_TIMESTAMP && MIN_TIMESTAMP <= until <= MAX_TIMESTAMP {
        Some((utc_date_of(since), utc_date_of(until)))
    } else {
        None
    }
}

/// The UTC dates of the two ends of a sales request, or a parse error with
/// the text of the first timestamp that has none.
pub fn sales_period(since: i64, until: i64) -> (res: Result<(Date, Date), ContractError>)
    ensures
        match sales_period_of(since, until) {
            Some(p) => res matches Ok((a, b)) && a@ == p.0 && b@ == p.1 && is_valid_date(a@)
                && is_valid_date(b@),
            None => res matches Err(ContractError::Parse { cause }) && cause@
                == "timestamp was not in range"@,
        },
{
    let first = match date_of_unix_timestamp(since) {
        Ok(d) => d,
        Err(cause) => return Err(ContractError::Parse { cause }),
    };
    let last = match date_of_unix_timestamp(until) {
        Ok(d) => d,
        Err(cause) => return Err(ContractError::Parse { cause }),
    };
    Ok((first, last))
}

} // verus!
