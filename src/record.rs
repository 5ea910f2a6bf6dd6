use vstd::prelude::*;

use crate::text::{chars_of, has_prefix, is_prefix, slice_of};

verus! {

/// The value of `c` as a digit of `radix`, or -1 when it is none.
pub open spec fn digit_value(c: char, radix: int) -> int {
    let v = if '0' <= c && c <= '9' {
        c as int - 48
    } else if 'a' <= c && c <= 'z' {
        c as int - 87
    } else if 'A' <= c && c <= 'Z' {
        c as int - 55
    } else {
        -1
    };
    if v < radix {
        v
    } else {
        -1
    }
}

/// Every character of `s` is a digit of `radix`.
pub open spec fn all_digits(s: Seq<char>, radix: int) -> bool {
    forall|i: int| 0 <= i < s.len() ==> #[trigger] digit_value(s[i], radix) >= 0
}

/// The number that the digits `s` write in `radix`, most significant first.
pub open spec fn digits_value(s: Seq<char>, radix: int) -> int
    decreases s.len(),
{
    if s.len() == 0 {
        0
    } else {
        digits_value(s.drop_last(), radix) * radix + digit_value(s.last(), radix)
    }
}

/// An unsigned number in `radix`: an optional `+`, then one digit or more.
pub open spec fn unsigned_in_radix(s: Seq<char>, radix: int) -> Option<int> {
    let d = if s.len() > 0 && s[0] == '+' {
        s.drop_first()
    } else {
        s
    };
    if d.len() > 0 && all_digits(d, radix) {
        Some(digits_value(d, radix))
    } else {
        None
    }
}

/// A numeric field: hexadecimal after a leading `0x`, decimal otherwise.
pub open spec fn field_number(s: Seq<char>) -> Option<int> {
    if is_prefix(seq!['0', 'x'], s) {
        unsigned_in_radix(s.subrange(2, s.len() as int), 16)
    } else {
        unsigned_in_radix(s, 10)
    }
}

/// A numeric field whose value is at most `max`.
pub open spec fn field_upto(s: Seq<char>, max: int) -> Option<int> {
    match field_number(s) {
        Some(v) => if v <= max {
            Some(v)
        } else {
            None
        },
        None => None,
    }
}

/// A boolean field: `true` or `True`, `false` or `False`.
pub open spec fn field_bool(s: Seq<char>) -> Option<bool> {
    if s == seq!['t', 'r', 'u', 'e'] || s == seq!['T', 'r', 'u', 'e'] {
        Some(true)
    } else if s == seq!['f', 'a', 'l', 's', 'e'] || s == seq!['F', 'a', 'l', 's', 'e'] {
        Some(false)
    } else {
        None
    }
}

proof fn lemma_prefix_digits(s: Seq<char>, radix: int, k: int)
    requires
        0 <= k <= s.len(),
        all_digits(s, radix),
    ensures
        all_digits(s.subrange(0, k), radix),
{
    assert forall|i: int| 0 <= i < k implies #[trigger] digit_value(s.subrange(0, k)[i], radix)
        >= 0 by {
        assert(s.subrange(0, k)[i] == s[i]);
    }
}

proof fn lemma_digits_monotone(s: Seq<char>, radix: int, i: int, j: int)
    requires
        radix >= 1,
        0 <= i <= j <= s.len(),
        all_digits(s, radix),
    ensures
        digits_value(s.subrange(0, i), radix) <= digits_value(s.subrange(0, j), radix),
        0 <= digits_value(s.subrange(0, i), radix),
    decreases j - i,
{
    lemma_prefix_digits(s, radix, i);
    lemma_digits_nonneg(s.subrange(0, i), radix);
    if i < j {
        lemma_digits_monotone(s, radix, i, j - 1);
        lemma_prefix_digits(s, radix, j - 1);
        lemma_digits_nonneg(s.subrange(0, j - 1), radix);
        let t = s.subrange(0, j);
        assert(t.drop_last() =~= s.subrange(0, j - 1));
        assert(t.last() == s[j - 1]);
        assert(digit_value(s[j - 1], radix) >= 0);
        let v = digits_value(s.subrange(0, j - 1), radix);
        assert(v * radix >= v) by (nonlinear_arith)
            requires
                v >= 0,
                radix >= 1,
        ;
    }
}

proof fn lemma_digits_nonneg(s: Seq<char>, radix: int)
    requires
        radix >= 1,
        all_digits(s, radix),
    ensures
        0 <= digits_value(s, radix),
    decreases s.len(),
{
    if s.len() > 0 {
        assert(all_digits(s.drop_last(), radix)) by {
            assert forall|i: int| 0 <= i < s.drop_last().len() implies #[trigger] digit_value(
                s.drop_last()[i],
                radix,
            ) >= 0 by {
                assert(s.drop_last()[i] == s[i]);
            }
        }
        lemma_digits_nonneg(s.drop_last(), radix);
        assert(digit_value(s[s.len() - 1], radix) >= 0);
        let v = digits_value(s.drop_last(), radix);
        assert(v * radix >= 0) by (nonlinear_arith)
            requires
                v >= 0,
                radix >= 1,
        ;
    }
}

fn digit_of(c: char, radix: u64) -> (r: Option<u64>)
    requires
        radix == 10 || radix == 16,
    ensures
        r matches Some(v) ==> v == digit_value(c, radix as int) && v >= 0,
        r is None ==> digit_value(c, radix as int) < 0,
{
    let v: u64 = if '0' <= c && c <= '9' {
        (c as u64) - 48
    } else if 'a' <= c && c <= 'z' {
        (c as u64) - 87
    } else if 'A' <= c && c <= 'Z' {
        (c as u64) - 55
    } else {
        return None;
    };
    if v < radix {
        Some(v)
    } else {
        None
    }
}

/// The digits `s` in `radix` as a number of at most `max`.
fn digits_upto(s: &Vec<char>, start: usize, radix: u64, max: u64) -> (r: Option<u64>)
    requires
        radix == 10 || radix == 16,
        start <= s.len(),
    ensures
        ({
            let d = s@.subrange(start as int, s@.len() as int);
            &&& r matches Some(v) ==> d.len() > 0 && all_digits(d, radix as int) && v
                == digits_value(d, radix as int) && v <= max
            &&& r is None ==> !(d.len() > 0 && all_digits(d, radix as int) && digits_value(
                d,
                radix as int,
            ) <= max)
        }),
{
    let ghost d = s@.subrange(start as int, s@.len() as int);
    if start == s.len() {
        return None;
    }
    let mut acc: u64 = 0;
    let mut i: usize = start;
    let mut over = false;
    assert(d.subrange(0, 0) =~= Seq::<char>::empty());
    while i < s.len()
        invariant
            radix == 10 || radix == 16,
            start <= i <= s.len(),
            d == s@.subrange(start as int, s@.len() as int),
            forall|k: int| 0 <= k < i - start ==> #[trigger] digit_value(d[k], radix as int) >= 0,
            !over ==> acc == digits_value(d.subrange(0, i - start), radix as int),
            over ==> digits_value(d.subrange(0, i - start), radix as int) > max
                || !all_digits(d, radix as int),
            acc <= max,
        decreases s.len() - i,
    {
        let ghost pre = d.subrange(0, i - start);
        let ghost next = d.subrange(0, i - start + 1);
        assert(next.drop_last() =~= pre);
        assert(next.last() == s@[i as int]);
        assert(d[i - start] == s@[i as int]);
        match digit_of(s[i], radix) {
            None => {
                return None;
            },
            Some(v) => {
                if !over {
                    if v > max || acc > (max - v) / radix {
                        over = true;
                        let ghost (a, b, m, x) = (acc as int, radix as int, max as int, v as int);
                        assert(a * b + x > m) by (nonlinear_arith)
                            requires
                                x > m || a > (m - x) / b,
                                b >= 10,
                                a >= 0,
                                x >= 0,
                                m >= 0,
                        ;
                        assert(digits_value(next, radix as int) > max);
                    } else {
                        let ghost (a, b, m, x) = (acc as int, radix as int, max as int, v as int);
                        assert(a * b + x <= m) by (nonlinear_arith)
                            requires
                                a <= (m - x) / b,
                                b >= 10,
                                x <= m,
                                a >= 0,
                        ;
                        acc = acc * radix + v;
                    }
                } else {
                    proof {
                        if all_digits(d, radix as int) {
                            lemma_digits_monotone(d, radix as int, i - start, i - start + 1);
                        }
                    }
                }
            },
        }
        i = i + 1;
    }
    assert(d.subrange(0, d.len() as int) =~= d);
    assert(all_digits(d, radix as int));
    if over {
        None
    } else {
        Some(acc)
    }
}

/// A numeric field as a number of at most `max`.
pub fn number_upto(s: &str, max: u64) -> (r: Option<u64>)
    ensures
        r matches Some(v) ==> field_upto(s@, max as int) == Some(v as int),
        r is None ==> field_upto(s@, max as int) is None,
{
    let c = chars_of(s);
    let hex_mark = chars_of("0x");
    proof {
        reveal_strlit("0x");
    }
    assert(hex_mark@ =~= seq!['0', 'x']);
    if has_prefix(&hex_mark, &c) {
        let body = slice_of(&c, 2, c.len());
        unsigned_upto(&body, 16, max)
    } else {
        unsigned_upto(&c, 10, max)
    }
}

/// The digits of `s` in `radix`, after an optional `+`, as a number of at most `max`.
fn unsigned_upto(s: &Vec<char>, radix: u64, max: u64) -> (r: Option<u64>)
    requires
        radix == 10 || radix == 16,
    ensures
        r matches Some(v) ==> (unsigned_in_radix(s@, radix as int) matches Some(n) && n == v
            && n <= max),
        r is None ==> (unsigned_in_radix(s@, radix as int) matches Some(n) ==> n > max),
{
    let start: usize = if s.len() > 0 && s[0] == '+' {
        1
    } else {
        0
    };
    proof {
        let d = if s@.len() > 0 && s@[0] == '+' {
            s@.drop_first()
        } else {
            s@
        };
        assert(s@.subrange(start as int, s@.len() as int) =~= d);
    }
    digits_upto(s, start, radix, max)
}

/// A boolean field.
pub fn boolean(s: &str) -> (r: Option<bool>)
    ensures
        r == field_bool(s@),
{
    let c = chars_of(s);
    let t = chars_of("true");
    let tc = chars_of("True");
    let f = chars_of("false");
    let fc = chars_of("False");
    proof {
        reveal_strlit("true");
        reveal_strlit("True");
        reveal_strlit("false");
        reveal_strlit("False");
    }
    assert(t@ =~= seq!['t', 'r', 'u', 'e']);
    assert(tc@ =~= seq!['T', 'r', 'u', 'e']);
    assert(f@ =~= seq!['f', 'a', 'l', 's', 'e']);
    assert(fc@ =~= seq!['F', 'a', 'l', 's', 'e']);
    if same(&c, &t) || same(&c, &tc) {
        Some(true)
    } else if same(&c, &f) || same(&c, &fc) {
        Some(false)
    } else {
        None
    }
}

fn same(a: &Vec<char>, b: &Vec<char>) -> (r: bool)
    ensures
        r == (a@ == b@),
{
    if a.len() != b.len() {
        return false;
    }
    let mut i: usize = 0;
    while i < a.len()
        invariant
            a@.len() == b@.len(),
            i <= a@.len(),
            forall|j: int| 0 <= j < i ==> a@[j] == b@[j],
        decreases a@.len() - i,
    {
        if a[i] != b[i] {
            return false;
        }
        i = i + 1;
    }
    assert(a@ =~= b@);
    true
}

/// One trade as an archive's CSV rows hold it. The three prices are kept as the bit patterns
/// of their 32-bit floating-point values.
#[derive(Debug, Clone, Copy, PartialEq, Eq)]
pub struct Row {
    /// Trade id.
    pub id: u32,
    /// Execution price in the quote asset.
    pub price_bits: u32,
    /// Quantity in the base asset.
    pub qty_bits: u32,
    /// Notional value, price times quantity.
    pub quote_qty_bits: u32,
    /// Trade time in milliseconds since the Unix epoch.
    pub time: u64,
    /// The buyer was the maker: a short trade.
    pub is_buyer_maker: bool,
    /// The trade was at the best price available.
    pub is_best_match: bool,
}

/// The number of columns of a trade row.
pub const COLUMNS: usize = 7;

/// Why a CSV row is not a trade.
#[derive(Debug, Clone)]
pub enum ParseError {
    /// The row does not have seven fields.
    FieldCount(usize),
    /// The field of this column does not hold a value of its type.
    Field { column: usize, value: String },
}

/// Column `c` of the fields `fs` holds a value of its type; the prices are given already
/// decoded, `None` where their text was not a number.
pub open spec fn column_ok(
    fs: Seq<Seq<char>>,
    price: Option<u32>,
    qty: Option<u32>,
    quote_qty: Option<u32>,
    c: int,
) -> bool {
    if c == 0 {
        field_upto(fs[0], u32::MAX as int) is Some
    } else if c == 1 {
        price is Some
    } else if c == 2 {
        qty is Some
    } else if c == 3 {
        quote_qty is Some
    } else if c == 4 {
        field_upto(fs[4], u64::MAX as int) is Some
    } else if c == 5 {
        field_bool(fs[5]) is Some
    } else {
        field_bool(fs[6]) is Some
    }
}

/// The trade that the seven fields `fs` hold, all of whose columns are well formed.
pub open spec fn row_of(
    fs: Seq<Seq<char>>,
    price: Option<u32>,
    qty: Option<u32>,
    quote_qty: Option<u32>,
) -> Row {
    Row {
        id: field_upto(fs[0], u32::MAX as int)->Some_0 as u32,
        price_bits: price->Some_0,
        qty_bits: qty->Some_0,
        quote_qty_bits: quote_qty->Some_0,
        time: field_upto(fs[4], u64::MAX as int)->Some_0 as u64,
        is_buyer_maker: field_bool(fs[5])->Some_0,
        is_best_match: field_bool(fs[6])->Some_0,
    }
}

fn column_error(fields: &Vec<String>, column: usize) -> (r: ParseError)
    requires
        column < fields.len(),
    ensures
        r matches ParseError::Field { column: c, value } && c == column && value@
            == fields@[column as int]@,
{
    ParseError::Field { column, value: fields[column].clone() }
}

impl Row {
    /// The trade that a CSV row holds: id, price, quantity, quote quantity, time, whether the
    /// buyer was the maker, whether it was the best match. The three prices come decoded, as
    /// the bit patterns of their floating-point values, `None` where their text is not a
    /// number. Fails on a row without seven fields, else on its first ill-formed column.
    pub fn decode(
        fields: &Vec<String>,
        price: Option<u32>,
        qty: Option<u32>,
        quote_qty: Option<u32>,
    ) -> (r: Result<Row, ParseError>)
        ensures
            ({
                let fs = fields@.map_values(|f: String| f@);
                &&& (r matches Err(ParseError::FieldCount(n)) && n == fields.len()) == (fields.len()
                    != COLUMNS)
                &&& fields.len() == COLUMNS ==> ((forall|c: int|
                    0 <= c < 7 ==> #[trigger] column_ok(fs, price, qty, quote_qty, c))
                    <==> r is Ok)
                &&& r matches Ok(row) ==> row == row_of(fs, price, qty, quote_qty)
                &&& r matches Err(ParseError::Field { column, value }) ==> {
                    &&& column < 7
                    &&& !column_ok(fs, price, qty, quote_qty, column as int)
                    &&& forall|c: int|
                        0 <= c < column ==> #[trigger] column_ok(fs, price, qty, quote_qty, c)
                    &&& value@ == fs[column as int]
                }
            }),
    {
        let ghost fs = fields@.map_values(|f: String| f@);
        if fields.len() != COLUMNS {
            return Err(ParseError::FieldCount(fields.len()));
        }
        assert(forall|c: int| 0 <= c < 7 ==> #[trigger] fs[c] == fields@[c]@);
        let id = match number_upto(fields[0].as_str(), 0xffff_ffff) {
            Some(v) => v as u32,
            None => {
                assert(!column_ok(fs, price, qty, quote_qty, 0));
                return Err(column_error(fields, 0));
            },
        };
        assert(column_ok(fs, price, qty, quote_qty, 0));
        let price_bits = match price {
            Some(b) => b,
            None => {
                assert(!column_ok(fs, price, qty, quote_qty, 1));
                return Err(column_error(fields, 1));
            },
        };
        assert(column_ok(fs, price, qty, quote_qty, 1));
        let qty_bits = match qty {
            Some(b) => b,
            None => {
                assert(!column_ok(fs, price, qty, quote_qty, 2));
                return Err(column_error(fields, 2));
            },
        };
        assert(column_ok(fs, price, qty, quote_qty, 2));
        let quote_qty_bits = match quote_qty {
            Some(b) => b,
            None => {
                assert(!column_ok(fs, price, qty, quote_qty, 3));
                return Err(column_error(fields, 3));
            },
        };
        assert(column_ok(fs, price, qty, quote_qty, 3));
        let time = match number_upto(fields[4].as_str(), 0xffff_ffff_ffff_ffff) {
            Some(v) => v,
            None => {
                assert(!column_ok(fs, price, qty, quote_qty, 4));
                return Err(column_error(fields, 4));
            },
        };
        assert(column_ok(fs, price, qty, quote_qty, 4));
        let is_buyer_maker = match boolean(fields[5].as_str()) {
            Some(b) => b,
            None => {
                assert(!column_ok(fs, price, qty, quote_qty, 5));
                return Err(column_error(fields, 5));
            },
        };
        assert(column_ok(fs, price, qty, quote_qty, 5));
        let is_best_match = match boolean(fields[6].as_str()) {
            Some(b) => b,
            None => {
                assert(!column_ok(fs, price, qty, quote_qty, 6));
                return Err(column_error(fields, 6));
            },
        };
        assert(column_ok(fs, price, qty, quote_qty, 6));
        Ok(Row { id, price_bits, qty_bits, quote_qty_bits, time, is_buyer_maker, is_best_match })
    }
}

} // verus!
