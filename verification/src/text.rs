//! Text helpers shared by the parsers and the error messages: decimal
//! formatting, whitespace trimming, digit conversion and unsigned integer
//! parsing with the exact error kinds and messages of `str::parse`.
use vstd::prelude::*;

verus! {

/// Appends one character to a string (`String::push`).
#[verifier::external_body]
pub(crate) fn push_char(s: &mut String, c: char)
    ensures
        final(s)@ == old(s)@.push(c),
{
    s.push(c);
}

/// The text that `{:?}` gives for a character (`<char as Debug>::fmt`):
/// the character between single quotes, escaped where needed.
pub uninterp spec fn char_debug_text(c: char) -> Seq<char>;

/// The text that `{:?}` gives for a string slice (`<str as Debug>::fmt`):
/// the text between double quotes, escaped where needed.
pub uninterp spec fn str_debug_text(s: Seq<char>) -> Seq<char>;

/// Whether a character is printable ASCII other than a quote or a
/// backslash: one that `{:?}` shows as it is.
pub open spec fn is_plain_ascii(c: char) -> bool {
    ' ' <= c <= '~' && c != '\\' && c != '\'' && c != '"'
}

/// The text that `{:?}` gives for a character: for a plain printable ASCII
/// character, the character between single quotes, as `char::escape_debug`
/// documents; for any other, `char_debug_text`.
pub open spec fn char_debug_of(c: char) -> Seq<char> {
    if is_plain_ascii(c) {
        seq!['\'', c, '\'']
    } else {
        char_debug_text(c)
    }
}

/// Formats a character with `{:?}`. The result is `char_debug_text(c)`,
/// which is `char_debug_of(c)`; which escapes std applies to characters
/// that are not plain printable ASCII is not restated here.
#[verifier::external_body]
pub(crate) fn char_debug(c: char) -> (res: String)
    ensures
        res@ == char_debug_text(c),
        res@ == char_debug_of(c),
{
    format!("{c:?}")
}

/// Whether every character of a text is plain printable ASCII.
pub open spec fn all_plain_ascii(s: Seq<char>) -> bool {
    forall|i: int| 0 <= i < s.len() ==> is_plain_ascii(#[trigger] s[i])
}

/// The text that `{:?}` gives for a string slice: for a text of plain
/// printable ASCII, the text between double quotes, as `str::escape_debug`
/// documents; for any other, `str_debug_text`.
pub open spec fn str_debug_of(s: Seq<char>) -> Seq<char> {
    if all_plain_ascii(s) {
        seq!['"'] + s + seq!['"']
    } else {
        str_debug_text(s)
    }
}

/// Formats a string slice with `{:?}`. The result is `str_debug_text(s@)`,
/// which is `str_debug_of(s@)`; which escapes std applies to texts that are
/// not plain printable ASCII is not restated here.
#[verifier::external_body]
pub(crate) fn str_debug(s: &str) -> (res: String)
    ensures
        res@ == str_debug_text(s@),
        res@ == str_debug_of(s@),
{
    format!("{s:?}")
}

/// The character of a decimal digit.
pub open spec fn digit_char(d: nat) -> char {
    if d == 0 { '0' }
    else if d == 1 { '1' }
    else if d == 2 { '2' }
    else if d == 3 { '3' }
    else if d == 4 { '4' }
    else if d == 5 { '5' }
    else if d == 6 { '6' }
    else if d == 7 { '7' }
    else if d == 8 { '8' }
    else { '9' }
}

/// The decimal representation of a natural number, without leading zeros.
pub open spec fn decimal(n: nat) -> Seq<char>
    decreases n,
{
    if n < 10 {
        seq![digit_char(n)]
    } else {
        decimal(n / 10).push(digit_char(n % 10))
    }
}

/// The decimal representation of an integer, with a leading `-` when negative.
pub open spec fn signed_decimal(i: int) -> Seq<char> {
    if i < 0 {
        seq!['-'] + decimal((-i) as nat)
    } else {
        decimal(i as nat)
    }
}

fn digit_to_char(d: u64) -> (c: char)
    requires
        d < 10,
    ensures
        c == digit_char(d as nat),
{
    if d == 0 { '0' }
    else if d == 1 { '1' }
    else if d == 2 { '2' }
    else if d == 3 { '3' }
    else if d == 4 { '4' }
    else if d == 5 { '5' }
    else if d == 6 { '6' }
    else if d == 7 { '7' }
    else if d == 8 { '8' }
    else { '9' }
}

/// Appends the decimal representation of `n` to `out`.
pub fn push_decimal(out: &mut String, n: u64)
    ensures
        final(out)@ == old(out)@ + decimal(n as nat),
    decreases n,
{
    if n < 10 {
        push_char(out, digit_to_char(n));
        assert(decimal(n as nat) =~= seq![digit_char(n as nat)]);
    } else {
        push_decimal(out, n / 10);
        push_char(out, digit_to_char(n % 10));
    }
}

/// The decimal text of an unsigned number (`{}` on an unsigned integer).
pub fn format_unsigned(n: u64) -> (res: String)
    ensures
        res@ == decimal(n as nat),
{
    let mut out = String::new();
    push_decimal(&mut out, n);
    assert(out@ =~= decimal(n as nat));
    out
}

/// Appends the decimal representation of `n` to `out`, with a leading `-`
/// when it is negative.
pub fn push_signed_decimal(out: &mut String, n: i64)
    ensures
        final(out)@ == old(out)@ + signed_decimal(n as int),
{
    if n < 0 {
        push_char(out, '-');
        let magnitude: u64 = (0i128 - (n as i128)) as u64;
        push_decimal(out, magnitude);
        assert(final(out)@ =~= old(out)@ + signed_decimal(n as int));
    } else {
        push_decimal(out, n as u64);
    }
}

/// The decimal text of a signed number (`{}` on a signed integer).
pub fn format_signed(n: i64) -> (res: String)
    ensures
        res@ == signed_decimal(n as int),
{
    let mut out = String::new();
    push_signed_decimal(&mut out, n);
    assert(out@ =~= signed_decimal(n as int));
    out
}

/// Appends a string slice to a string.
pub fn push_str(out: &mut String, s: &str)
    ensures
        final(out)@ == old(out)@ + s@,
{
    out.append(s);
}

/// A fresh string with the contents of a string slice.
pub fn owned(s: &str) -> (res: String)
    ensures
        res@ == s@,
{
    String::from_str(s)
}

/// Whether two string slices hold the same characters.
pub fn str_eq(a: &str, b: &str) -> (res: bool)
    ensures
        res == (a@ == b@),
{
    let n = a.unicode_len();
    if n != b.unicode_len() {
        return false;
    }
    let mut i: usize = 0;
    while i < n
        invariant
            n == a@.len(),
            n == b@.len(),
            i <= n,
            forall|j: int| 0 <= j < i ==> a@[j] == b@[j],
        decreases n - i,
    {
        if a.get_char(i) != b.get_char(i) {
            return false;
        }
        i = i + 1;
    }
    assert(a@ =~= b@);
    true
}

/// Whether a string slice holds the given character.
pub fn contains_char(s: &str, c: char) -> (res: bool)
    ensures
        res == s@.contains(c),
{
    let n = s.unicode_len();
    let mut i: usize = 0;
    while i < n
        invariant
            n == s@.len(),
            i <= n,
            forall|j: int| 0 <= j < i ==> s@[j] != c,
        decreases n - i,
    {
        if s.get_char(i) == c {
            assert(s@[i as int] == c);
            return true;
        }
        i = i + 1;
    }
    false
}

/// The position of the first occurrence of `c` in `s`, if any.
pub open spec fn first_index_of(s: Seq<char>, c: char) -> Option<int>
    decreases s.len(),
{
    if s.len() == 0 {
        None
    } else if s[0] == c {
        Some(0)
    } else {
        match first_index_of(s.drop_first(), c) {
            Some(i) => Some(i + 1),
            None => None,
        }
    }
}

pub proof fn lemma_first_index_of(s: Seq<char>, c: char, i: int)
    requires
        0 <= i <= s.len(),
        forall|j: int| 0 <= j < i ==> s[j] != c,
    ensures
        i < s.len() && s[i] == c ==> first_index_of(s, c) == Some(i),
        i == s.len() ==> first_index_of(s, c) is None,
    decreases i,
{
    if i > 0 {
        assert(s[0] != c);
        lemma_first_index_of(s.drop_first(), c, i - 1);
    } else if s.len() > 0 {
    }
}

/// Splits a string slice around the first occurrence of a character
/// (`str::split_once` with a `char` pattern).
pub fn split_once(s: &str, c: char) -> (res: Option<(&str, &str)>)
    ensures
        match first_index_of(s@, c) {
            Some(i) => res matches Some((a, b)) && a@ == s@.take(i) && b@ == s@.skip(i + 1),
            None => res is None,
        },
{
    let n = s.unicode_len();
    let mut i: usize = 0;
    while i < n
        invariant
            n == s@.len(),
            i <= n,
            forall|j: int| 0 <= j < i ==> s@[j] != c,
        decreases n - i,
    {
        if s.get_char(i) == c {
            proof { lemma_first_index_of(s@, c, i as int); }
            let a = s.substring_char(0, i);
            let b = s.substring_char(i + 1, n);
            assert(a@ =~= s@.take(i as int));
            assert(b@ =~= s@.skip(i + 1));
            return Some((a, b));
        }
        i = i + 1;
    }
    proof { lemma_first_index_of(s@, c, n as int); }
    None
}

/// The pieces of `s` between occurrences of `c` (`str::split` with a `char`
/// pattern): one more piece than there are occurrences, empty pieces
/// included.
pub open spec fn split_pieces(s: Seq<char>, c: char) -> Seq<Seq<char>>
    decreases s.len(),
{
    match first_index_of(s, c) {
        None => seq![s],
        Some(i) => if 0 <= i < s.len() {
            seq![s.take(i)] + split_pieces(s.skip(i + 1), c)
        } else {
            seq![s]
        },
    }
}

pub proof fn lemma_first_index_of_range(s: Seq<char>, c: char)
    ensures
        first_index_of(s, c) matches Some(i) ==> 0 <= i < s.len() && s[i] == c,
    decreases s.len(),
{
    if s.len() > 0 && s[0] != c {
        lemma_first_index_of_range(s.drop_first(), c);
    }
}

/// No character before the first occurrence of `c` is `c`.
pub proof fn lemma_first_index_of_first(s: Seq<char>, c: char)
    ensures
        first_index_of(s, c) matches Some(i) ==> forall|j: int| 0 <= j < i ==> s[j] != c,
        first_index_of(s, c) is None ==> !s.contains(c),
    decreases s.len(),
{
    lemma_first_index_of_range(s, c);
    if s.len() > 0 && s[0] != c {
        lemma_first_index_of_first(s.drop_first(), c);
        if let Some(i) = first_index_of(s, c) {
            assert forall|j: int| 0 <= j < i implies s[j] != c by {
                if j > 0 {
                    assert(s[j] == s.drop_first()[j - 1]);
                }
            }
        }
        if first_index_of(s, c) is None {
            assert forall|j: int| 0 <= j < s.len() implies s[j] != c by {
                if j > 0 {
                    assert(s[j] == s.drop_first()[j - 1]);
                }
            }
        }
    }
}

/// Splits a string slice around every occurrence of a character.
pub fn split_all<'a>(s: &'a str, c: char) -> (res: Vec<&'a str>)
    ensures
        res@.map_values(|p: &str| p@) == split_pieces(s@, c),
{
    let mut pieces: Vec<&'a str> = Vec::new();
    let mut rest: &'a str = s;
    let ghost mut done: Seq<Seq<char>> = Seq::empty();
    assert(pieces@.map_values(|p: &str| p@) =~= done);
    loop
        invariant
            pieces@.map_values(|p: &str| p@) == done,
            done + split_pieces(rest@, c) == split_pieces(s@, c),
        decreases rest@.len(),
    {
        proof {
            lemma_first_index_of_range(rest@, c);
        }
        match split_once(rest, c) {
            None => {
                let ghost last = rest@;
                pieces.push(rest);
                assert(pieces@.map_values(|p: &str| p@) =~= done.push(last));
                assert(done + split_pieces(last, c) =~= done.push(last));
                return pieces;
            },
            Some((head, tail)) => {
                let ghost h = head@;
                pieces.push(head);
                assert(pieces@.map_values(|p: &str| p@) =~= done.push(h));
                assert(done + split_pieces(rest@, c) =~= done.push(h) + split_pieces(tail@, c));
                proof {
                    done = done.push(h);
                }
                rest = tail;
            },
        }
    }
}

/// Texts joined with a space between each two (`[&str]::join(" ")`).
pub open spec fn join_spaced(texts: Seq<Seq<char>>) -> Seq<char>
    decreases texts.len(),
{
    if texts.len() == 0 {
        Seq::empty()
    } else if texts.len() == 1 {
        texts[0]
    } else {
        join_spaced(texts.drop_last()) + " "@ + texts.last()
    }
}

/// Joins texts with a space between each two.
pub fn join_with_spaces(texts: &Vec<String>) -> (res: String)
    ensures
        res@ == join_spaced(texts@.map_values(|t: String| t@)),
{
    let ghost all = texts@.map_values(|t: String| t@);
    let mut out = String::new();
    let mut i: usize = 0;
    assert(all.take(0) =~= Seq::<Seq<char>>::empty());
    while i < texts.len()
        invariant
            i <= texts@.len(),
            all == texts@.map_values(|t: String| t@),
            out@ == join_spaced(all.take(i as int)),
        decreases texts@.len() - i,
    {
        assert(all.take(i + 1).drop_last() =~= all.take(i as int));
        if i > 0 {
            push_str(&mut out, " ");
        } else {
            assert(out@ =~= Seq::<char>::empty());
        }
        push_str(&mut out, texts[i].as_str());
        assert(all.take(i + 1).last() == texts@[i as int]@);
        i = i + 1;
    }
    assert(all.take(texts@.len() as int) =~= all);
    out
}

/// Whether `p` is a prefix of `s`.
pub open spec fn has_prefix(s: Seq<char>, p: Seq<char>) -> bool {
    p.len() <= s.len() && s.take(p.len() as int) == p
}

/// Removes a prefix from a string slice (`str::strip_prefix`).
pub fn strip_prefix<'a>(s: &'a str, p: &str) -> (res: Option<&'a str>)
    ensures
        has_prefix(s@, p@) ==> (res matches Some(r) && r@ == s@.skip(p@.len() as int)),
        !has_prefix(s@, p@) ==> res is None,
{
    let n = s.unicode_len();
    let m = p.unicode_len();
    if m > n {
        return None;
    }
    let mut i: usize = 0;
    while i < m
        invariant
            n == s@.len(),
            m == p@.len(),
            m <= n,
            i <= m,
            forall|j: int| 0 <= j < i ==> s@[j] == p@[j],
        decreases m - i,
    {
        if s.get_char(i) != p.get_char(i) {
            assert(s@.take(m as int)[i as int] != p@[i as int]);
            return None;
        }
        i = i + 1;
    }
    assert(s@.take(m as int) =~= p@);
    let r = s.substring_char(m, n);
    assert(r@ =~= s@.skip(m as int));
    Some(r)
}

/// Whether `p` is a suffix of `s`.
pub open spec fn has_suffix(s: Seq<char>, p: Seq<char>) -> bool {
    p.len() <= s.len() && s.skip(s.len() - p.len()) == p
}

/// Removes a suffix from a string slice (`str::strip_suffix`).
pub fn strip_suffix<'a>(s: &'a str, p: &str) -> (res: Option<&'a str>)
    ensures
        has_suffix(s@, p@) ==> (res matches Some(r) && r@ == s@.take(s@.len() - p@.len())),
        !has_suffix(s@, p@) ==> res is None,
{
    let n = s.unicode_len();
    let m = p.unicode_len();
    if m > n {
        return None;
    }
    let start = n - m;
    let mut i: usize = 0;
    while i < m
        invariant
            n == s@.len(),
            m == p@.len(),
            m <= n,
            start == n - m,
            i <= m,
            forall|j: int| 0 <= j < i ==> s@[start + j] == p@[j],
        decreases m - i,
    {
        if s.get_char(start + i) != p.get_char(i) {
            assert(s@.skip(start as int)[i as int] != p@[i as int]);
            return None;
        }
        i = i + 1;
    }
    assert(s@.skip(start as int) =~= p@);
    let r = s.substring_char(0, start);
    assert(r@ =~= s@.take(start as int));
    Some(r)
}

/// The characters with the Unicode `White_Space` property
/// (`char::is_whitespace`).
pub open spec fn is_white_space(c: char) -> bool {
    let u = c as u32;
    ||| 0x9 <= u <= 0xD
    ||| u == 0x20
    ||| u == 0x85
    ||| u == 0xA0
    ||| u == 0x1680
    ||| 0x2000 <= u <= 0x200A
    ||| u == 0x2028
    ||| u == 0x2029
    ||| u == 0x202F
    ||| u == 0x205F
    ||| u == 0x3000
}

fn white_space(c: char) -> (res: bool)
    ensures
        res == is_white_space(c),
{
    let u = c as u32;
    (0x9 <= u && u <= 0xD) || u == 0x20 || u == 0x85 || u == 0xA0 || u == 0x1680 || (0x2000 <= u
        && u <= 0x200A) || u == 0x2028 || u == 0x2029 || u == 0x202F || u == 0x205F || u == 0x3000
}

/// `s` without its leading whitespace.
pub open spec fn trim_start(s: Seq<char>) -> Seq<char>
    decreases s.len(),
{
    if s.len() > 0 && is_white_space(s[0]) {
        trim_start(s.drop_first())
    } else {
        s
    }
}

/// `s` without its trailing whitespace.
pub open spec fn trim_end(s: Seq<char>) -> Seq<char>
    decreases s.len(),
{
    if s.len() > 0 && is_white_space(s.last()) {
        trim_end(s.drop_last())
    } else {
        s
    }
}

/// `s` without leading and trailing whitespace (`str::trim`).
pub open spec fn trim(s: Seq<char>) -> Seq<char> {
    trim_end(trim_start(s))
}

proof fn lemma_trim_start_skip(s: Seq<char>, i: int)
    requires
        0 <= i <= s.len(),
        forall|j: int| 0 <= j < i ==> is_white_space(s[j]),
    ensures
        trim_start(s) == trim_start(s.skip(i)),
    decreases i,
{
    if i > 0 {
        assert(s.skip(1).skip(i - 1) =~= s.skip(i));
        lemma_trim_start_skip(s.drop_first(), i - 1);
    } else {
        assert(s.skip(0) =~= s);
    }
}

proof fn lemma_trim_end_take(s: Seq<char>, k: int)
    requires
        0 <= k <= s.len(),
        forall|j: int| k <= j < s.len() ==> is_white_space(s[j]),
    ensures
        trim_end(s) == trim_end(s.take(k)),
    decreases s.len() - k,
{
    if k < s.len() {
        assert(s.drop_last().take(k) =~= s.take(k));
        lemma_trim_end_take(s.drop_last(), k);
    } else {
        assert(s.take(k) =~= s);
    }
}

/// Removes leading and trailing whitespace (`str::trim`).
pub fn trim_str(s: &str) -> (res: &str)
    ensures
        res@ == trim(s@),
{
    let n = s.unicode_len();
    let mut i: usize = 0;
    while i < n && white_space(s.get_char(i))
        invariant
            n == s@.len(),
            i <= n,
            forall|j: int| 0 <= j < i ==> is_white_space(s@[j]),
        decreases n - i,
    {
        i = i + 1;
    }
    let ghost rest = s@.skip(i as int);
    proof {
        lemma_trim_start_skip(s@, i as int);
        if i < n {
            assert(!is_white_space(rest[0]));
        }
        assert(trim_start(rest) == rest);
    }
    let mut k: usize = n;
    while k > i && white_space(s.get_char(k - 1))
        invariant
            n == s@.len(),
            i <= k <= n,
            rest == s@.skip(i as int),
            forall|j: int| k - i <= j < rest.len() ==> is_white_space(rest[j]),
        decreases k,
    {
        k = k - 1;
    }
    proof {
        lemma_trim_end_take(rest, k - i);
        let t = rest.take(k - i);
        if k > i {
            assert(t.last() == s@[k - 1]);
        }
        assert(trim_end(t) == t);
    }
    let r = s.substring_char(i, k);
    assert(r@ =~= s@.skip(i as int).take(k - i));
    r
}

/// The value of a character read as a digit of any radix up to 36,
/// before the radix is taken into account.
pub open spec fn digit_value(c: char) -> Option<nat> {
    if '0' <= c <= '9' {
        Some((c as int - '0' as int) as nat)
    } else if 'a' <= c <= 'z' {
        Some((c as int - 'a' as int + 10) as nat)
    } else if 'A' <= c <= 'Z' {
        Some((c as int - 'A' as int + 10) as nat)
    } else {
        None
    }
}

/// The digit a character stands for in the given radix (`char::to_digit`).
pub open spec fn to_digit_spec(c: char, radix: u32) -> Option<nat> {
    match digit_value(c) {
        Some(d) => if d < radix { Some(d) } else { None },
        None => None,
    }
}

/// Converts a character to a digit in the given radix (`char::to_digit`).
/// std panics on a radix outside `2..=36`; such a radix is not accepted here.
pub fn to_digit(c: char, radix: u32) -> (res: Option<u32>)
    requires
        2 <= radix <= 36,
    ensures
        match to_digit_spec(c, radix) {
            Some(d) => res == Some(d as u32),
            None => res is None,
        },
{
    let u = c as u32;
    let d: u32 = if '0' <= c && c <= '9' {
        u - ('0' as u32)
    } else if 'a' <= c && c <= 'z' {
        u - ('a' as u32) + 10
    } else if 'A' <= c && c <= 'Z' {
        u - ('A' as u32) + 10
    } else {
        return None;
    };
    if d < radix {
        Some(d)
    } else {
        None
    }
}

/// Why a text is not an unsigned integer (`core::num::IntErrorKind`, the
/// kinds that unsigned types can give).
#[derive(Clone, Copy, Debug, PartialEq, Eq, Structural)]
pub enum IntErrorKind {
    Empty,
    InvalidDigit,
    PosOverflow,
}

/// The message of each kind (`<ParseIntError as Display>`).
pub open spec fn int_error_text(kind: IntErrorKind) -> Seq<char> {
    match kind {
        IntErrorKind::Empty => "cannot parse integer from empty string"@,
        IntErrorKind::InvalidDigit => "invalid digit found in string"@,
        IntErrorKind::PosOverflow => "number too large to fit in target type"@,
    }
}

impl IntErrorKind {
    /// The message that `str::parse` errors display for this kind.
    pub fn message(&self) -> (res: String)
        ensures
            res@ == int_error_text(*self),
    {
        match self {
            IntErrorKind::Empty => String::from_str("cannot parse integer from empty string"),
            IntErrorKind::InvalidDigit => String::from_str("invalid digit found in string"),
            IntErrorKind::PosOverflow => String::from_str(
                "number too large to fit in target type",
            ),
        }
    }
}

/// Reads decimal digits from left to right; the first character that is
/// not a digit, or the first digit that takes the value past `max`, stops
/// the reading with an error.
pub open spec fn fold_decimal(digits: Seq<char>, max: nat) -> Result<nat, IntErrorKind>
    decreases digits.len(),
{
    if digits.len() == 0 {
        Ok(0)
    } else {
        match fold_decimal(digits.drop_last(), max) {
            Err(e) => Err(e),
            Ok(acc) => match to_digit_spec(digits.last(), 10) {
                None => Err(IntErrorKind::InvalidDigit),
                Some(d) => if acc * 10 + d > max {
                    Err(IntErrorKind::PosOverflow)
                } else {
                    Ok(acc * 10 + d)
                },
            },
        }
    }
}

/// What `str::parse` gives for an unsigned integer type whose largest value
/// is `max`: an optional `+`, then decimal digits.
pub open spec fn parse_unsigned_spec(s: Seq<char>, max: nat) -> Result<nat, IntErrorKind> {
    if s.len() == 0 {
        Err(IntErrorKind::Empty)
    } else if s.len() == 1 && (s[0] == '+' || s[0] == '-') {
        Err(IntErrorKind::InvalidDigit)
    } else if s[0] == '+' {
        fold_decimal(s.drop_first(), max)
    } else {
        fold_decimal(s, max)
    }
}

proof fn lemma_fold_decimal_bound(digits: Seq<char>, max: nat)
    ensures
        fold_decimal(digits, max) matches Ok(v) ==> v <= max,
    decreases digits.len(),
{
    if digits.len() > 0 {
        lemma_fold_decimal_bound(digits.drop_last(), max);
    }
}

/// Parses an unsigned decimal integer no larger than `max`, as `str::parse`
/// does for the unsigned type whose largest value is `max`.
pub fn parse_unsigned(s: &str, max: u64) -> (res: Result<u64, IntErrorKind>)
    ensures
        match parse_unsigned_spec(s@, max as nat) {
            Ok(v) => res == Ok::<u64, IntErrorKind>(v as u64),
            Err(e) => res == Err::<u64, IntErrorKind>(e),
        },
{
    let n = s.unicode_len();
    if n == 0 {
        return Err(IntErrorKind::Empty);
    }
    let first = s.get_char(0);
    if n == 1 && (first == '+' || first == '-') {
        return Err(IntErrorKind::InvalidDigit);
    }
    let start: usize = if first == '+' { 1 } else { 0 };
    let ghost digits = s@.skip(start as int);
    proof {
        if start == 1 {
            assert(digits =~= s@.drop_first());
        } else {
            assert(digits =~= s@);
        }
        assert(parse_unsigned_spec(s@, max as nat) == fold_decimal(digits, max as nat));
    }
    let mut acc: u64 = 0;
    let mut i: usize = start;
    while i < n
        invariant
            n == s@.len(),
            start <= i <= n,
            digits == s@.skip(start as int),
            parse_unsigned_spec(s@, max as nat) == fold_decimal(digits, max as nat),
            fold_decimal(digits.take(i - start), max as nat) == Ok::<nat, IntErrorKind>(acc as nat),
            acc <= max,
        decreases n - i,
    {
        let c = s.get_char(i);
        let ghost prefix = digits.take(i + 1 - start);
        assert(prefix.drop_last() =~= digits.take(i - start));
        assert(prefix.last() == c);
        match to_digit(c, 10) {
            None => {
                proof { lemma_fold_prefix_err(digits, (i + 1 - start) as int, max as nat); }
                return Err(IntErrorKind::InvalidDigit);
            },
            Some(d) => {
                if d as u64 > max || acc > (max - d as u64) / 10 {
                    assert(acc * 10 + d > max) by (nonlinear_arith)
                        requires
                            d > max || acc > (max - d) / 10,
                    {
                    }
                    proof { lemma_fold_prefix_err(digits, (i + 1 - start) as int, max as nat); }
                    return Err(IntErrorKind::PosOverflow);
                }
                assert(acc * 10 + d <= max) by (nonlinear_arith)
                    requires
                        acc <= (max - d) / 10,
                        d <= 9,
                {
                }
                acc = acc * 10 + d as u64;
            },
        }
        i = i + 1;
    }
    assert(digits.take(n - start) =~= digits);
    Ok(acc)
}

/// Once a prefix of the digits fails, every longer prefix fails the same way.
proof fn lemma_fold_prefix_err(digits: Seq<char>, k: int, max: nat)
    requires
        0 <= k <= digits.len(),
        fold_decimal(digits.take(k), max) is Err,
    ensures
        fold_decimal(digits, max) == fold_decimal(digits.take(k), max),
    decreases digits.len() - k,
{
    if k < digits.len() {
        let t = digits.take(k + 1);
        assert(t.drop_last() =~= digits.take(k));
        lemma_fold_prefix_err(digits, k + 1, max);
    } else {
        assert(digits.take(k) =~= digits);
    }
}

/// Whether a character is a decimal digit.
pub open spec fn is_decimal_digit(c: char) -> bool {
    '0' <= c <= '9'
}

/// Whether every character is a decimal digit.
pub open spec fn all_decimal_digits(s: Seq<char>) -> bool {
    forall|i: int| 0 <= i < s.len() ==> is_decimal_digit(#[trigger] s[i])
}

/// Whether `c` is `w` or, for an upper-case ASCII letter, its lower-case
/// form is `w`.
pub open spec fn matches_ignoring_case(c: char, w: char) -> bool {
    c == w || ('A' <= c <= 'Z' && c as u32 + 32 == w as u32)
}

/// Whether `s` spells `word` (a lower-case ASCII word) in any case.
pub open spec fn spells_ignoring_case(s: Seq<char>, word: Seq<char>) -> bool {
    s.len() == word.len() && forall|i: int| 0 <= i < s.len() ==> matches_ignoring_case(#[trigger] s[i], word[i])
}

/// Whether a text is a decimal mantissa: digits with at most one point, and
/// at least one digit.
pub open spec fn is_mantissa(m: Seq<char>) -> bool {
    &&& exists|i: int| 0 <= i < m.len() && is_decimal_digit(#[trigger] m[i])
    &&& forall|i: int| 0 <= i < m.len() ==> (is_decimal_digit(#[trigger] m[i]) || m[i] == '.')
    &&& forall|i: int, j: int| 0 <= i < j < m.len() && #[trigger] m[i] == '.' ==> #[trigger] m[j] != '.'
}

/// Whether a text is an exponent after its `e`: an optional sign, then at
/// least one digit.
pub open spec fn is_exponent(e: Seq<char>) -> bool {
    let digits = if e.len() > 0 && (e[0] == '+' || e[0] == '-') { e.drop_first() } else { e };
    digits.len() > 0 && all_decimal_digits(digits)
}

/// The position of the first `e` or `E`, if any.
pub open spec fn exponent_marker(s: Seq<char>) -> Option<int>
    decreases s.len(),
{
    if s.len() == 0 {
        None
    } else if s[0] == 'e' || s[0] == 'E' {
        Some(0)
    } else {
        match exponent_marker(s.drop_first()) {
            Some(i) => Some(i + 1),
            None => None,
        }
    }
}

/// Whether a text, without its sign, is a number, an infinity or NaN.
pub open spec fn is_unsigned_float(s: Seq<char>) -> bool {
    ||| spells_ignoring_case(s, "inf"@)
    ||| spells_ignoring_case(s, "infinity"@)
    ||| spells_ignoring_case(s, "nan"@)
    ||| match exponent_marker(s) {
        None => is_mantissa(s),
        Some(i) => is_mantissa(s.take(i)) && is_exponent(s.skip(i + 1)),
    }
}

/// Whether `str::parse` accepts a text as a floating-point number: the
/// grammar that std documents for `f32::from_str`, an optional sign then a
/// number, an infinity or NaN, letters in any case.
pub open spec fn is_float_literal(s: Seq<char>) -> bool {
    if s.len() > 0 && (s[0] == '+' || s[0] == '-') {
        is_unsigned_float(s.drop_first())
    } else {
        is_unsigned_float(s)
    }
}

/// The message of a rejected floating-point text (`<ParseFloatError as
/// Display>`).
pub open spec fn float_error_text(s: Seq<char>) -> Seq<char> {
    if s.len() == 0 {
        "cannot parse float from empty string"@
    } else {
        "invalid float literal"@
    }
}

fn same_ignoring_case(c: char, w: char) -> (res: bool)
    ensures
        res == matches_ignoring_case(c, w),
{
    c == w || ('A' <= c && c <= 'Z' && (c as u32) + 32 == w as u32)
}

fn spells(s: &str, from: usize, to: usize, word: &str) -> (res: bool)
    requires
        from <= to <= s@.len(),
    ensures
        res == spells_ignoring_case(s@.subrange(from as int, to as int), word@),
{
    let ghost t = s@.subrange(from as int, to as int);
    if to - from != word.unicode_len() {
        return false;
    }
    let mut i: usize = 0;
    while i < to - from
        invariant
            from <= to <= s@.len(),
            t == s@.subrange(from as int, to as int),
            to - from == word@.len(),
            i <= to - from,
            forall|j: int| 0 <= j < i ==> matches_ignoring_case(#[trigger] t[j], word@[j]),
        decreases to - from - i,
    {
        if !same_ignoring_case(s.get_char(from + i), word.get_char(i)) {
            assert(!matches_ignoring_case(t[i as int], word@[i as int]));
            return false;
        }
        i = i + 1;
    }
    true
}

fn mantissa(s: &str, from: usize, to: usize) -> (res: bool)
    requires
        from <= to <= s@.len(),
    ensures
        res == is_mantissa(s@.subrange(from as int, to as int)),
{
    let ghost m = s@.subrange(from as int, to as int);
    let mut digit_seen = false;
    let mut point_at: Option<usize> = None;
    let mut i: usize = from;
    while i < to
        invariant
            from <= i <= to <= s@.len(),
            m == s@.subrange(from as int, to as int),
            digit_seen == exists|j: int| 0 <= j < i - from && is_decimal_digit(#[trigger] m[j]),
            forall|j: int| 0 <= j < i - from ==> (is_decimal_digit(#[trigger] m[j]) || m[j] == '.'),
            match point_at {
                None => forall|j: int| 0 <= j < i - from ==> #[trigger] m[j] != '.',
                Some(p) => from <= p < i && m[p - from] == '.' && forall|j: int|
                    0 <= j < i - from && j != p - from ==> #[trigger] m[j] != '.',
            },
            forall|a: int, b: int| 0 <= a < b < i - from && #[trigger] m[a] == '.' ==> #[trigger] m[b] != '.',
        decreases to - i,
    {
        let c = s.get_char(i);
        assert(m[i - from] == c);
        if '0' <= c && c <= '9' {
            digit_seen = true;
        } else if c == '.' {
            if let Some(p) = point_at {
                assert(m[p - from] == '.' && m[i - from] == '.');
                return false;
            }
            point_at = Some(i);
        } else {
            assert(!(is_decimal_digit(m[i - from]) || m[i - from] == '.'));
            return false;
        }
        i = i + 1;
    }
    digit_seen
}

fn exponent(s: &str, from: usize, to: usize) -> (res: bool)
    requires
        from <= to <= s@.len(),
    ensures
        res == is_exponent(s@.subrange(from as int, to as int)),
{
    let ghost e = s@.subrange(from as int, to as int);
    let mut start = from;
    if from < to && (s.get_char(from) == '+' || s.get_char(from) == '-') {
        start = from + 1;
    }
    let ghost digits = s@.subrange(start as int, to as int);
    assert(digits =~= (if e.len() > 0 && (e[0] == '+' || e[0] == '-') { e.drop_first() } else { e }));
    assert(is_exponent(e) == (digits.len() > 0 && all_decimal_digits(digits)));
    if start == to {
        return false;
    }
    let mut i: usize = start;
    while i < to
        invariant
            is_exponent(e) == (digits.len() > 0 && all_decimal_digits(digits)),
            e == s@.subrange(from as int, to as int),
            start < to,
            start <= i <= to <= s@.len(),
            digits == s@.subrange(start as int, to as int),
            forall|j: int| 0 <= j < i - start ==> is_decimal_digit(#[trigger] digits[j]),
        decreases to - i,
    {
        let c = s.get_char(i);
        if !('0' <= c && c <= '9') {
            assert(!is_decimal_digit(digits[i - start]));
            return false;
        }
        i = i + 1;
    }
    true
}

proof fn lemma_exponent_marker(s: Seq<char>, i: int)
    requires
        0 <= i <= s.len(),
        forall|j: int| 0 <= j < i ==> s[j] != 'e' && s[j] != 'E',
    ensures
        i < s.len() && (s[i] == 'e' || s[i] == 'E') ==> exponent_marker(s) == Some(i),
        i == s.len() ==> exponent_marker(s) is None,
    decreases i,
{
    if i > 0 {
        lemma_exponent_marker(s.drop_first(), i - 1);
    }
}

fn unsigned_float(s: &str, from: usize) -> (res: bool)
    requires
        from <= s@.len(),
    ensures
        res == is_unsigned_float(s@.skip(from as int)),
{
    let n = s.unicode_len();
    let ghost t = s@.skip(from as int);
    assert(t =~= s@.subrange(from as int, n as int));
    if spells(s, from, n, "inf") || spells(s, from, n, "infinity") || spells(s, from, n, "nan") {
        return true;
    }
    let mut i: usize = from;
    while i < n
        invariant
            from <= i <= n,
            n == s@.len(),
            t == s@.skip(from as int),
            t == s@.subrange(from as int, n as int),
            !spells_ignoring_case(t, "inf"@),
            !spells_ignoring_case(t, "infinity"@),
            !spells_ignoring_case(t, "nan"@),
            forall|j: int| 0 <= j < i - from ==> #[trigger] t[j] != 'e' && t[j] != 'E',
        decreases n - i,
    {
        let c = s.get_char(i);
        if c == 'e' || c == 'E' {
            proof {
                lemma_exponent_marker(t, i - from);
                assert(t.take(i - from) =~= s@.subrange(from as int, i as int));
                assert(t.skip(i - from + 1) =~= s@.subrange(i + 1, n as int));
            }
            return mantissa(s, from, i) && exponent(s, i + 1, n);
        }
        i = i + 1;
    }
    proof {
        lemma_exponent_marker(t, n - from);
    }
    mantissa(s, from, n)
}

/// Whether `str::parse` accepts the text as a floating-point number.
pub fn float_literal(s: &str) -> (res: bool)
    ensures
        res == is_float_literal(s@),
{
    let n = s.unicode_len();
    if n > 0 && (s.get_char(0) == '+' || s.get_char(0) == '-') {
        assert(s@.skip(1) =~= s@.drop_first());
        unsigned_float(s, 1)
    } else {
        assert(s@.skip(0) =~= s@);
        unsigned_float(s, 0)
    }
}

/// The message of a rejected floating-point text.
pub fn float_error_message(s: &str) -> (res: String)
    ensures
        res@ == float_error_text(s@),
{
    if s.unicode_len() == 0 {
        owned("cannot parse float from empty string")
    } else {
        owned("invalid float literal")
    }
}

} // verus!
