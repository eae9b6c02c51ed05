//! The values that the library hands out: dates, slots, stock, users and
//! their permissions.
use vstd::prelude::*;

use crate::text::push_str;

verus! {

/// A calendar date.
#[derive(Clone, Copy, Debug, PartialEq, Eq, Structural)]
pub struct Date {
    pub day: u8,
    pub month: u8,
    pub year: i32,
}

impl View for Date {
    /// `(year, month, day)`.
    type V = (i32, u8, u8);

    open spec fn view(&self) -> (i32, u8, u8) {
        (self.year, self.month, self.day)
    }
}

/// A slot of a machine, identified by its row and column, with the name of
/// what it holds.
#[derive(Debug)]
pub struct SlotId {
    pub row: u8,
    pub col: u8,
    pub name: String,
}

impl View for SlotId {
    /// `(row, col, name)`.
    type V = (u8, u8, Seq<char>);

    open spec fn view(&self) -> (u8, u8, Seq<char>) {
        (self.row, self.col, self.name@)
    }
}

/// How many items a slot holds, and the form field it is reported under.
#[derive(Debug)]
pub struct StockSlot {
    pub row: u8,
    pub col: u8,
    pub mapped_to: String,
    pub cur: u8,
}

impl View for StockSlot {
    /// `(row, col, mapped_to, cur)`.
    type V = (u8, u8, Seq<char>, u8);

    open spec fn view(&self) -> (u8, u8, Seq<char>, u8) {
        (self.row, self.col, self.mapped_to@, self.cur)
    }
}

/// Which encashment a stock update is booked to.
#[derive(Clone, Copy, Debug, PartialEq, Eq, Structural)]
pub enum SetStockTarget {
    Latest,
    Future,
}

/// Which encashment a stock update is booked to.
#[derive(Clone, Copy, Debug, PartialEq, Eq, Structural)]
pub enum SetStockForWhichEncashment {
    Latest,
    Future,
}

/// A product in a slot: its row, column and name.
#[derive(Debug)]
pub struct Product {
    pub row: u8,
    pub col: u8,
    pub name: String,
}

impl View for Product {
    /// `(row, col, name)`.
    type V = (u8, u8, Seq<char>);

    open spec fn view(&self) -> (u8, u8, Seq<char>) {
        (self.row, self.col, self.name@)
    }
}

impl Clone for Product {
    fn clone(&self) -> (res: Self)
        ensures
            res@ == self@,
    {
        Product { row: self.row, col: self.col, name: self.name.clone() }
    }
}

impl Product {
    pub fn new(row: u8, col: u8, name: String) -> (res: Self)
        ensures
            res.row == row,
            res.col == col,
            res.name == name,
    {
        Product { row, col, name }
    }
}

/// One slot of a machine's stock: what it holds, where, under which form
/// field it is reported, and how many items are in it.
#[derive(Debug)]
pub struct StockEntry {
    pub name: String,
    pub row: u8,
    pub col: u8,
    pub mapped_to: String,
    pub cur: u8,
}

impl View for StockEntry {
    /// `(name, row, col, mapped_to, cur)`.
    type V = (Seq<char>, u8, u8, Seq<char>, u8);

    open spec fn view(&self) -> (Seq<char>, u8, u8, Seq<char>, u8) {
        (self.name@, self.row, self.col, self.mapped_to@, self.cur)
    }
}

/// One slot of a machine's current state. The price is `price` divided by
/// ten to the power `decimal`.
#[derive(Debug)]
pub struct MachineStateEntry {
    pub id: Product,
    pub price: i64,
    pub decimal: u8,
    pub max: u8,
    pub cur: i8,
}

impl View for MachineStateEntry {
    /// `(id, price, decimal, max, cur)`.
    type V = ((u8, u8, Seq<char>), i64, u8, u8, i8);

    open spec fn view(&self) -> ((u8, u8, Seq<char>), i64, u8, u8, i8) {
        (self.id@, self.price, self.decimal, self.max, self.cur)
    }
}

/// One sale. Every sale of one cell of the sales report carries the cell's
/// total price and sales count; the price of one sale is their quotient.
#[derive(Debug)]
pub struct MachineSalesEntry {
    pub date: Date,
    pub product: Product,
    pub total_price: String,
    pub sales_count: u32,
}

impl View for MachineSalesEntry {
    /// `(date, product, total_price, sales_count)`.
    type V = ((i32, u8, u8), (u8, u8, Seq<char>), Seq<char>, u32);

    open spec fn view(&self) -> ((i32, u8, u8), (u8, u8, Seq<char>), Seq<char>, u32) {
        (self.date@, self.product@, self.total_price@, self.sales_count)
    }
}

impl Clone for MachineSalesEntry {
    fn clone(&self) -> (res: Self)
        ensures
            res@ == self@,
    {
        MachineSalesEntry {
            date: self.date,
            product: self.product.clone(),
            total_price: self.total_price.clone(),
            sales_count: self.sales_count,
        }
    }
}

/// A user of the HTTP API.
#[derive(Clone, Debug)]
pub struct User {
    pub username: String,
    pub password_hash: String,
    pub permissions: Permissions,
}

/// Why a call to the upstream service failed.
#[derive(Debug)]
pub enum InternalError {
    NetworkError { cause: String },
    ParseError { cause: String },
}

/// What a client is told when it does not authenticate.
#[derive(Clone, Copy, Debug, PartialEq, Eq, Structural)]
pub enum FrontFacingError {
    NoCredentials,
    InvadlidCredentials,
}

/// The bits of all known permissions.
pub const ALL_PERMISSION_BITS: u32 = 0b1111;

/// A set of permissions. Only the four known bits can be set.
#[derive(Clone, Copy, Debug, PartialEq, Eq, Structural)]
pub struct Permissions {
    bits: u32,
}

impl View for Permissions {
    type V = u32;

    closed spec fn view(&self) -> u32 {
        self.bits
    }
}

/// Whether every bit of `sub` is set in `sup`.
pub open spec fn bits_contain(sup: u32, sub: u32) -> bool {
    sup & sub == sub
}

impl Permissions {
    /// May read the stock of a machine.
    pub const STOCK_READ: u32 = 0b0001;

    /// May change the stock of a machine.
    pub const STOCK_WRITE: u32 = 0b0010;

    /// May read the state of a machine.
    pub const STATE_READ: u32 = 0b0100;

    /// May read the sales of a machine.
    pub const SALES_READ: u32 = 0b1000;

    #[verifier::type_invariant]
    closed spec fn known_bits_only(self) -> bool {
        self.bits & !ALL_PERMISSION_BITS == 0
    }

    /// The bits of the set.
    pub fn bits(&self) -> (res: u32)
        ensures
            res == self@,
            res & !ALL_PERMISSION_BITS == 0,
    {
        proof {
            use_type_invariant(self);
        }
        self.bits
    }

    /// No permission.
    pub fn empty() -> (res: Self)
        ensures
            res@ == 0,
    {
        proof {
            assert(0u32 & !ALL_PERMISSION_BITS == 0) by (bit_vector);
        }
        Permissions { bits: 0 }
    }

    /// Every permission.
    pub fn all() -> (res: Self)
        ensures
            res@ == ALL_PERMISSION_BITS,
    {
        proof {
            assert(ALL_PERMISSION_BITS & !ALL_PERMISSION_BITS == 0) by (bit_vector);
        }
        Permissions { bits: ALL_PERMISSION_BITS }
    }

    /// The known permissions among `bits`; unknown bits are dropped.
    pub fn from_bits_truncate(bits: u32) -> (res: Self)
        ensures
            res@ == bits & ALL_PERMISSION_BITS,
    {
        proof {
            assert((bits & ALL_PERMISSION_BITS) & !ALL_PERMISSION_BITS == 0) by (bit_vector);
        }
        Permissions { bits: bits & ALL_PERMISSION_BITS }
    }

    /// The permissions of `bits`, or `None` when an unknown bit is set.
    pub fn from_bits(bits: u32) -> (res: Option<Self>)
        ensures
            bits & !ALL_PERMISSION_BITS == 0 ==> (res matches Some(p) && p@ == bits),
            bits & !ALL_PERMISSION_BITS != 0 ==> res is None,
    {
        if bits & !ALL_PERMISSION_BITS == 0 {
            Some(Permissions { bits })
        } else {
            None
        }
    }

    /// Whether every permission of `other` is in `self`.
    pub fn contains(&self, other: Self) -> (res: bool)
        ensures
            res == bits_contain(self@, other@),
    {
        self.bits & other.bits == other.bits
    }

    /// The permissions that are in either set.
    pub fn union(self, other: Self) -> (res: Self)
        ensures
            res@ == self@ | other@,
    {
        proof {
            use_type_invariant(&self);
            use_type_invariant(&other);
            let a = self.bits;
            let b = other.bits;
            assert(a & !ALL_PERMISSION_BITS == 0 && b & !ALL_PERMISSION_BITS == 0 ==> (a | b)
                & !ALL_PERMISSION_BITS == 0) by (bit_vector);
        }
        Permissions { bits: self.bits | other.bits }
    }

    /// The permissions stored as a database integer: the bits read as a
    /// two's complement `i32` (`TryFrom<i32>`); a value with an unknown bit
    /// is refused with "Invalid bitmask value".
    pub fn try_from(value: i32) -> (res: Result<Self, String>)
        ensures
            (value as u32) & !ALL_PERMISSION_BITS == 0 ==> (res matches Ok(p) && p@ == value as u32),
            (value as u32) & !ALL_PERMISSION_BITS != 0 ==> (res matches Err(e) && e@
                == "Invalid bitmask value"@),
    {
        let bits = value as u32;
        match Permissions::from_bits(bits) {
            Some(p) => Ok(p),
            None => Err(String::from_str("Invalid bitmask value")),
        }
    }

    /// The permissions as a database integer (`From<Permissions> for i32`).
    pub fn to_i32(self) -> (res: i32)
        ensures
            res == self@ as i32,
    {
        self.bits as i32
    }

    /// The names of the permissions in the set, in the order of their bits.
    pub open spec fn names(bits: u32) -> Seq<Seq<char>> {
        let a = if bits & 1 != 0 { seq!["STOCK_READ"@] } else { Seq::empty() };
        let b = if bits & 2 != 0 { seq!["STOCK_WRITE"@] } else { Seq::empty() };
        let c = if bits & 4 != 0 { seq!["STATE_READ"@] } else { Seq::empty() };
        let d = if bits & 8 != 0 { seq!["SALES_READ"@] } else { Seq::empty() };
        a + b + c + d
    }

    /// The text of a set of permissions, as `{:?}` and `{}` show it:
    /// `Permissions(` and the names joined by ` | `, or `0x0` for the empty set,
    /// then `)`.
    pub open spec fn describe_spec(bits: u32) -> Seq<char> {
        let names = Self::names(bits);
        "Permissions("@ + (if names.len() == 0 { "0x0"@ } else { join_names(names) }) + ")"@
    }

    /// The text of the set (`Display` and `Debug`).
    pub fn describe(&self) -> (res: String)
        ensures
            res@ == Self::describe_spec(self@),
    {
        proof {
            use_type_invariant(self);
        }
        let mut out = String::from_str("Permissions(");
        let ghost start = out@;
        let mut listed: Vec<&str> = Vec::new();
        if self.bits & 1 != 0 {
            listed.push("STOCK_READ");
        }
        if self.bits & 2 != 0 {
            listed.push("STOCK_WRITE");
        }
        if self.bits & 4 != 0 {
            listed.push("STATE_READ");
        }
        if self.bits & 8 != 0 {
            listed.push("SALES_READ");
        }
        let ghost listed_names = listed@.map_values(|s: &str| s@);
        proof {
            reveal_strlit("STOCK_READ");
            reveal_strlit("STOCK_WRITE");
            reveal_strlit("STATE_READ");
            reveal_strlit("SALES_READ");
            assert(listed_names =~= Self::names(self.bits));
        }
        if listed.len() == 0 {
            push_str(&mut out, "0x0");
        } else {
            let mut i: usize = 0;
            while i < listed.len()
                invariant
                    0 < listed@.len(),
                    i <= listed@.len(),
                    listed_names == listed@.map_values(|s: &str| s@),
                    out@ == start + join_names(listed_names.take(i as int)),
                decreases listed@.len() - i,
            {
                let ghost before = out@;
                if i > 0 {
                    push_str(&mut out, " | ");
                }
                push_str(&mut out, listed[i]);
                proof {
                    let t = listed_names.take(i + 1);
                    assert(t.drop_last() =~= listed_names.take(i as int));
                    assert(t.last() == listed[i as int]@);
                    if i == 0 {
                        assert(t =~= seq![listed[0]@]);
                    }
                }
                i = i + 1;
            }
            assert(listed_names.take(listed@.len() as int) =~= listed_names);
        }
        push_str(&mut out, ")");
        proof {
            reveal_strlit("Permissions(");
            reveal_strlit(")");
            reveal_strlit("0x0");
        }
        out
    }
}

/// Names joined by ` | `.
pub open spec fn join_names(names: Seq<Seq<char>>) -> Seq<char>
    decreases names.len(),
{
    if names.len() == 0 {
        Seq::empty()
    } else if names.len() == 1 {
        names[0]
    } else {
        join_names(names.drop_last()) + " | "@ + names.last()
    }
}

impl From<Permissions> for i32 {
    fn from(value: Permissions) -> (res: i32) {
        value.to_i32()
    }
}

impl vstd::std_specs::convert::FromSpecImpl<Permissions> for i32 {
    open spec fn obeys_from_spec() -> bool {
        true
    }

    open spec fn from_spec(value: Permissions) -> i32 {
        value@ as i32
    }
}

/// Whether only known permission bits are set: what every `Permissions`
/// value satisfies.
pub open spec fn valid_permission_bits(bits: u32) -> bool {
    bits & !ALL_PERMISSION_BITS == 0
}

/// Two sets of permissions with the same bits are the same set.
pub proof fn lemma_permissions_view_injective(p: Permissions, q: Permissions)
    ensures
        p@ == q@ ==> p == q,
{
}

/// Storing a set of permissions as a database integer and reading it back
/// gives the same set: the integer's bits are the set's bits, and they hold
/// no unknown bit, so `try_from` accepts them.
pub proof fn lemma_permissions_round_trip(p: Permissions)
    requires
        valid_permission_bits(p@),
    ensures
        (p@ as i32) as u32 == p@,
        valid_permission_bits((p@ as i32) as u32),
{
    let b = p@;
    assert(b & !ALL_PERMISSION_BITS == 0 ==> b <= 15) by (bit_vector);
}

/// Every set of permissions contains itself and the empty set, the full set
/// contains every valid set, and the union of two sets contains both.
pub proof fn lemma_permissions_containment(p: Permissions, q: Permissions)
    requires
        valid_permission_bits(p@),
    ensures
        bits_contain(p@, p@),
        bits_contain(p@, 0),
        bits_contain(ALL_PERMISSION_BITS, p@),
        bits_contain(p@ | q@, p@),
        bits_contain(p@ | q@, q@),
{
    let a = p@;
    let b = q@;
    assert(a & a == a) by (bit_vector);
    assert(a & 0 == 0) by (bit_vector);
    assert(a & !ALL_PERMISSION_BITS == 0 ==> ALL_PERMISSION_BITS & a == a) by (bit_vector);
    assert((a | b) & a == a) by (bit_vector);
    assert((a | b) & b == b) by (bit_vector);
}

} // verus!
