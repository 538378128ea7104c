//! Reading a property value from the text a user typed on the command line.

use vstd::prelude::*;

use super::types::{PropertyType, PropertyValue, ValueModel};
use crate::text::{
    chars_of, decimal, digit_char, join, push_decimal, push_signed_decimal, push_str, signed_decimal,
    string_from_chars,
};
use crate::updater::is_digit;

verus! {

/// Why a typed value was refused.
#[derive(Debug, Clone, Copy, PartialEq, Eq, Structural)]
pub enum ValueError {
    /// No text at all.
    Empty,
    /// A character that is not a decimal digit where one was expected.
    InvalidDigit,
    /// The number is above the type's range.
    TooLarge,
    /// The number is below the type's range.
    TooSmall,
    /// Array properties cannot be typed in.
    ArrayNotSettable,
    /// The property holds a fixed-point number: its text is read with
    /// floating point, which the caller does.
    FloatText,
}

impl ValueError {
    /// The message shown for the error.
    pub fn message(&self) -> (m: &'static str)
        ensures
            m@ == error_message(*self),
    {
        match self {
            ValueError::Empty => "cannot parse integer from empty string",
            ValueError::InvalidDigit => "invalid digit found in string",
            ValueError::TooLarge => "number too large to fit in target type",
            ValueError::TooSmall => "number too small to fit in target type",
            ValueError::ArrayNotSettable => "cannot set array properties from CLI",
            ValueError::FloatText => "fixed-point values are read by the caller",
        }
    }
}

/// The message of each error.
pub open spec fn error_message(e: ValueError) -> Seq<char> {
    match e {
        ValueError::Empty => "cannot parse integer from empty string"@,
        ValueError::InvalidDigit => "invalid digit found in string"@,
        ValueError::TooLarge => "number too large to fit in target type"@,
        ValueError::TooSmall => "number too small to fit in target type"@,
        ValueError::ArrayNotSettable => "cannot set array properties from CLI"@,
        ValueError::FloatText => "fixed-point values are read by the caller"@,
    }
}

/// Reading the digits `ds` from the left into a number within `lo..=hi`,
/// negative when `neg`: the first character that is not a digit, or the
/// first digit that takes the number out of range, ends the reading with
/// an error.
pub open spec fn scan_digits(ds: Seq<char>, neg: bool, lo: int, hi: int) -> Result<int, ValueError>
    decreases ds.len(),
{
    if ds.len() == 0 {
        Ok(0)
    } else {
        match scan_digits(ds.drop_last(), neg, lo, hi) {
            Err(e) => Err(e),
            Ok(acc) => if !is_digit(ds.last()) {
                Err(ValueError::InvalidDigit)
            } else {
                let d = ds.last() as int - '0' as int;
                let next = if neg {
                    acc * 10 - d
                } else {
                    acc * 10 + d
                };
                if next > hi {
                    Err(ValueError::TooLarge)
                } else if next < lo {
                    Err(ValueError::TooSmall)
                } else {
                    Ok(next)
                }
            },
        }
    }
}

/// What `str::parse` reads from `t` for an integer type with range
/// `lo..=hi`: an optional `+` (or `-` when the type is signed), then
/// decimal digits.
pub open spec fn parse_int_spec(t: Seq<char>, lo: int, hi: int) -> Result<int, ValueError> {
    if t.len() == 0 {
        Err(ValueError::Empty)
    } else if t.len() == 1 && (t[0] == '+' || t[0] == '-') {
        Err(ValueError::InvalidDigit)
    } else if t[0] == '+' {
        scan_digits(t.drop_first(), false, lo, hi)
    } else if t[0] == '-' && lo < 0 {
        scan_digits(t.drop_first(), true, lo, hi)
    } else {
        scan_digits(t, false, lo, hi)
    }
}

/// The value that the text `t` gives a property of type `prop_type`.
pub open spec fn value_from_text(prop_type: PropertyType, t: Seq<char>) -> Result<ValueModel, ValueError> {
    match prop_type {
        PropertyType::Byte => match parse_int_spec(t, 0, 255) {
            Ok(x) => Ok(ValueModel::Byte(x as u8)),
            Err(e) => Err(e),
        },
        PropertyType::Int16 => match parse_int_spec(t, i16::MIN as int, i16::MAX as int) {
            Ok(x) => Ok(ValueModel::Int16(x as i16)),
            Err(e) => Err(e),
        },
        PropertyType::Int32 => match parse_int_spec(t, i32::MIN as int, i32::MAX as int) {
            Ok(x) => Ok(ValueModel::Int32(x as i32)),
            Err(e) => Err(e),
        },
        PropertyType::Float => Err(ValueError::FloatText),
        PropertyType::String => Ok(ValueModel::String(t)),
        PropertyType::Array => Err(ValueError::ArrayNotSettable),
    }
}

/// The model of a read value.
pub open spec fn read_model(r: Result<PropertyValue, ValueError>) -> Result<ValueModel, ValueError> {
    match r {
        Ok(v) => Ok(v@),
        Err(e) => Err(e),
    }
}

/// Reads the digits `t[start..]` as `scan_digits` does.
fn scan_digits_exec(t: &[char], start: usize, neg: bool, lo: i64, hi: i64) -> (r: Result<i64, ValueError>)
    requires
        start <= t@.len(),
        -0x100_0000_0000 <= lo <= 0 <= hi <= 0x100_0000_0000,
    ensures
        match r {
            Ok(x) => scan_digits(t@.skip(start as int), neg, lo as int, hi as int) == Ok::<int, ValueError>(x as int),
            Err(e) => scan_digits(t@.skip(start as int), neg, lo as int, hi as int) == Err::<int, ValueError>(e),
        },
{
    let ghost ds = t@.skip(start as int);
    let mut acc: i64 = 0;
    let mut i: usize = start;
    assert(ds.take(0) =~= Seq::<char>::empty());
    while i < t.len()
        invariant
            start <= i <= t@.len(),
            ds == t@.skip(start as int),
            -0x100_0000_0000 <= lo <= 0 <= hi <= 0x100_0000_0000,
            lo <= acc <= hi,
            scan_digits(ds.take(i - start), neg, lo as int, hi as int) == Ok::<int, ValueError>(acc as int),
        decreases t@.len() - i,
    {
        let c = t[i];
        let ghost k = i - start;
        assert(ds.take(k + 1).drop_last() =~= ds.take(k));
        assert(ds.take(k + 1).last() == c);
        if !('0' <= c && c <= '9') {
            proof {
                lemma_scan_error_stays(ds, k + 1, ValueError::InvalidDigit, neg, lo as int, hi as int);
            }
            return Err(ValueError::InvalidDigit);
        }
        let d = (c as u32 - '0' as u32) as i64;
        let next = if neg {
            acc * 10 - d
        } else {
            acc * 10 + d
        };
        if next > hi {
            proof {
                lemma_scan_error_stays(ds, k + 1, ValueError::TooLarge, neg, lo as int, hi as int);
            }
            return Err(ValueError::TooLarge);
        }
        if next < lo {
            proof {
                lemma_scan_error_stays(ds, k + 1, ValueError::TooSmall, neg, lo as int, hi as int);
            }
            return Err(ValueError::TooSmall);
        }
        acc = next;
        i += 1;
    }
    assert(ds.take(ds.len() as int) =~= ds);
    Ok(acc)
}

/// An error met while reading a prefix is the error of the whole reading.
proof fn lemma_scan_error_stays(ds: Seq<char>, k: int, e: ValueError, neg: bool, lo: int, hi: int)
    requires
        0 <= k <= ds.len(),
        scan_digits(ds.take(k), neg, lo, hi) == Err::<int, ValueError>(e),
    ensures
        scan_digits(ds, neg, lo, hi) == Err::<int, ValueError>(e),
    decreases ds.len() - k,
{
    if k < ds.len() {
        assert(ds.take(k + 1).drop_last() =~= ds.take(k));
        lemma_scan_error_stays(ds, k + 1, e, neg, lo, hi);
    } else {
        assert(ds.take(k) =~= ds);
    }
}

/// Reads an integer in `lo..=hi` from `t` as `str::parse` does.
fn parse_int(t: &[char], lo: i64, hi: i64) -> (r: Result<i64, ValueError>)
    requires
        -0x100_0000_0000 <= lo <= 0 <= hi <= 0x100_0000_0000,
    ensures
        match r {
            Ok(x) => parse_int_spec(t@, lo as int, hi as int) == Ok::<int, ValueError>(x as int),
            Err(e) => parse_int_spec(t@, lo as int, hi as int) == Err::<int, ValueError>(e),
        },
{
    if t.len() == 0 {
        return Err(ValueError::Empty);
    }
    if t.len() == 1 && (t[0] == '+' || t[0] == '-') {
        return Err(ValueError::InvalidDigit);
    }
    assert(t@.drop_first() =~= t@.skip(1));
    assert(t@ =~= t@.skip(0));
    if t[0] == '+' {
        scan_digits_exec(t, 1, false, lo, hi)
    } else if t[0] == '-' && lo < 0 {
        scan_digits_exec(t, 1, true, lo, hi)
    } else {
        scan_digits_exec(t, 0, false, lo, hi)
    }
}

/// Reads the value of a property of type `prop_type` from the text `s`, as
/// the command line takes it: integers as `str::parse` reads them, strings
/// as they are. Array properties cannot be typed in; a fixed-point value is
/// handed back as `FloatText` for the caller to read.
pub fn parse_value(prop_type: PropertyType, s: &str) -> (r: Result<PropertyValue, ValueError>)
    ensures
        read_model(r) == value_from_text(prop_type, s@),
{
    let t = chars_of(s);
    match prop_type {
        PropertyType::Byte => match parse_int(t.as_slice(), 0, 255) {
            Ok(x) => Ok(PropertyValue::Byte(x as u8)),
            Err(e) => Err(e),
        },
        PropertyType::Int16 => match parse_int(t.as_slice(), -32768, 32767) {
            Ok(x) => Ok(PropertyValue::Int16(x as i16)),
            Err(e) => Err(e),
        },
        PropertyType::Int32 => match parse_int(t.as_slice(), -2147483648, 2147483647) {
            Ok(x) => Ok(PropertyValue::Int32(x as i32)),
            Err(e) => Err(e),
        },
        PropertyType::Float => Err(ValueError::FloatText),
        PropertyType::String => Ok(PropertyValue::String(s.to_owned())),
        PropertyType::Array => Err(ValueError::ArrayNotSettable),
    }
}

/// The decimal digits of `n` read back as `n`, when it lies in `lo..=hi`:
/// as a positive number, or as its negation when `neg`.
proof fn lemma_scan_decimal(n: nat, neg: bool, lo: int, hi: int)
    requires
        lo <= 0 <= hi,
        neg ==> lo <= -(n as int),
        !neg ==> n <= hi,
    ensures
        scan_digits(decimal(n), neg, lo, hi) == Ok::<int, ValueError>(if neg {
            -(n as int)
        } else {
            n as int
        }),
        decimal(n).len() >= 1,
        is_digit(decimal(n)[0]),
    decreases n,
{
    let d = decimal(n);
    if n < 10 {
        assert(d == seq![digit_char(n as int)]);
        assert(d.drop_last() =~= Seq::<char>::empty());
        let c = digit_char(n as int);
        assert(c as int == n + 48) by {
            assert(((n + 48) as u8) as int == n + 48);
        }
        assert(d.last() == c);
        assert(is_digit(c));
        assert(c as int - '0' as int == n);
        assert(scan_digits(d.drop_last(), neg, lo, hi) == Ok::<int, ValueError>(0));
    } else {
        lemma_scan_decimal(n / 10, neg, lo, hi);
        let p = decimal(n / 10);
        assert(d == p.push(digit_char((n % 10) as int)));
        assert(d.drop_last() =~= p);
        assert(d[0] == p[0]);
        let c = digit_char((n % 10) as int);
        assert(c as int == n % 10 + 48) by {
            assert((((n % 10) + 48) as u8) as int == n % 10 + 48);
        }
        assert(d.last() == c);
        assert(is_digit(c));
        assert(c as int - '0' as int == n % 10);
        assert((n / 10) as int * 10 + n % 10 == n);
    }
}

/// The command line reads back every integer value it prints: the text
/// `format_value` gives a `Byte`, `Int16` or `Int32` value reads as that
/// value.
pub proof fn lemma_read_back_integer(v: ValueModel)
    requires
        v is Byte || v is Int16 || v is Int32,
    ensures
        printed(v) matches Some(t) && value_from_text(crate::protocol::types::model_type(v), t)
            == Ok::<ValueModel, ValueError>(v),
{
    match v {
        ValueModel::Byte(x) => {
            lemma_scan_decimal(x as nat, false, 0, 255);
        },
        ValueModel::Int16(x) => {
            lemma_signed_text(x as int, i16::MIN as int, i16::MAX as int);
        },
        ValueModel::Int32(x) => {
            lemma_signed_text(x as int, i32::MIN as int, i32::MAX as int);
        },
        _ => {},
    }
}

/// The signed decimal text of `x` reads as `x` for a signed type with range
/// `lo..=hi`.
proof fn lemma_signed_text(x: int, lo: int, hi: int)
    requires
        lo < 0 <= hi,
        lo <= x <= hi,
    ensures
        parse_int_spec(signed_decimal(x), lo, hi) == Ok::<int, ValueError>(x),
{
    if x < 0 {
        let m = (-x) as nat;
        lemma_scan_decimal(m, true, lo, hi);
        let t = signed_decimal(x);
        assert(t == seq!['-'] + decimal(m));
        assert(t.drop_first() =~= decimal(m));
        assert(t[0] == '-');
    } else {
        lemma_scan_decimal(x as nat, false, lo, hi);
        let t = signed_decimal(x);
        assert(t[0] != '+' && t[0] != '-');
    }
}

/// The lowercase hexadecimal digit of `d` (below 16).
pub open spec fn hex_digit(d: int) -> char {
    if d < 10 {
        ((d + 48) as u8) as char
    } else {
        ((d - 10 + 97) as u8) as char
    }
}

/// A byte as two lowercase hexadecimal digits.
pub open spec fn hex_byte(b: u8) -> Seq<char> {
    seq![hex_digit(b as int / 16), hex_digit(b as int % 16)]
}

/// Bytes as `{:02x?}` prints them: in brackets, two hexadecimal digits
/// each, separated by `, `.
pub open spec fn hex_list(a: Seq<u8>) -> Seq<char> {
    seq!['['] + join(Seq::new(a.len(), |i: int| hex_byte(a[i])), ", "@) + seq![']']
}

/// How the command line prints a value; fixed-point values, printed with
/// floating point, are left to the caller.
pub open spec fn printed(v: ValueModel) -> Option<Seq<char>> {
    match v {
        ValueModel::Byte(x) => Some(decimal(x as nat)),
        ValueModel::Int16(x) => Some(signed_decimal(x as int)),
        ValueModel::Int32(x) => Some(signed_decimal(x as int)),
        ValueModel::Float(_) => None,
        ValueModel::String(s) => Some(s),
        ValueModel::Array(a) => Some(hex_list(a)),
    }
}

/// Appends the hexadecimal digit of `d`.
fn push_hex_digit(buf: &mut Vec<char>, d: u8)
    requires
        d < 16,
    ensures
        final(buf)@ == old(buf)@.push(hex_digit(d as int)),
{
    if d < 10 {
        buf.push((d + 48) as char);
    } else {
        buf.push((d - 10 + 97) as char);
    }
}

/// Appends `a` as `{:02x?}` prints it.
fn push_hex_list(buf: &mut Vec<char>, a: &[u8])
    ensures
        final(buf)@ == old(buf)@ + hex_list(a@),
{
    let ghost start = buf@;
    let ghost items = Seq::new(a@.len(), |i: int| hex_byte(a@[i]));
    buf.push('[');
    let mut i: usize = 0;
    assert(items.take(0) =~= Seq::<Seq<char>>::empty());
    while i < a.len()
        invariant
            i <= a@.len(),
            items == Seq::new(a@.len(), |i: int| hex_byte(a@[i])),
            buf@ == start + seq!['['] + join(items.take(i as int), ", "@),
        decreases a@.len() - i,
    {
        let ghost before = buf@;
        if i > 0 {
            push_str(buf, ", ");
        }
        push_hex_digit(buf, a[i] / 16);
        push_hex_digit(buf, a[i] % 16);
        assert(items.take(i + 1).drop_last() =~= items.take(i as int));
        assert(items.take(i + 1).last() == hex_byte(a@[i as int]));
        i += 1;
        assert(buf@ =~= start + seq!['['] + join(items.take(i as int), ", "@));
    }
    buf.push(']');
    assert(items.take(a@.len() as int) =~= items);
    assert(buf@ =~= start + hex_list(a@));
}

/// How the command line prints a value: integers in decimal, strings as
/// they are, arrays as `{:02x?}` prints bytes. `None` for a fixed-point
/// value, which the caller prints with floating point.
pub fn format_value(val: &PropertyValue) -> (r: Option<String>)
    ensures
        match r {
            Some(s) => printed(val@) == Some(s@),
            None => printed(val@) is None,
        },
{
    let mut buf: Vec<char> = Vec::new();
    match val {
        PropertyValue::Byte(x) => push_decimal(&mut buf, *x as u64),
        PropertyValue::Int16(x) => push_signed_decimal(&mut buf, *x as i64),
        PropertyValue::Int32(x) => push_signed_decimal(&mut buf, *x as i64),
        PropertyValue::Float(_) => return None,
        PropertyValue::String(s) => return Some(s.clone()),
        PropertyValue::Array(a) => push_hex_list(&mut buf, a.as_slice()),
    }
    assert(Some(buf@) == printed(val@));
    Some(string_from_chars(buf.as_slice()))
}

/// Whether `c` is a lowercase hexadecimal digit.
pub open spec fn is_hex_digit(c: char) -> bool {
    ('0' <= c && c <= '9') || ('a' <= c && c <= 'f')
}

/// The value of a lowercase hexadecimal digit.
pub open spec fn hex_value(c: char) -> int {
    if '0' <= c && c <= '9' {
        c as int - '0' as int
    } else {
        c as int - 'a' as int + 10
    }
}

proof fn lemma_hex_digit(d: int)
    requires
        0 <= d < 16,
    ensures
        is_hex_digit(hex_digit(d)),
        hex_value(hex_digit(d)) == d,
{
    if d < 10 {
        assert(hex_digit(d) as int == d + 48) by {
            assert(((d + 48) as u8) as int == d + 48);
        }
    } else {
        assert(hex_digit(d) as int == d - 10 + 97) by {
            assert(((d - 10 + 97) as u8) as int == d - 10 + 97);
        }
    }
}

/// Every byte prints as two lowercase hexadecimal digits that read back as
/// the byte: sixteen times the first digit's value plus the second's.
pub proof fn lemma_hex_byte_reads_back(b: u8)
    ensures
        hex_byte(b).len() == 2,
        is_hex_digit(hex_byte(b)[0]),
        is_hex_digit(hex_byte(b)[1]),
        16 * hex_value(hex_byte(b)[0]) + hex_value(hex_byte(b)[1]) == b,
{
    lemma_hex_digit(b as int / 16);
    lemma_hex_digit(b as int % 16);
}

/// Whether `sep` stands just before position `4i` of `s`.
spec fn sep_before(s: Seq<char>, i: int, sep: Seq<char>) -> bool {
    s[4 * i - 2] == sep[0] && s[4 * i - 1] == sep[1]
}

/// Joining two-character items with a two-character separator puts item
/// `i` at positions `4i` and `4i + 1`, with the separator just before it
/// when it is not the first.
proof fn lemma_join_pairs(items: Seq<Seq<char>>, sep: Seq<char>)
    requires
        forall|i: int| 0 <= i < items.len() ==> (#[trigger] items[i]).len() == 2,
        sep.len() == 2,
    ensures
        join(items, sep).len() == if items.len() == 0 {
            0
        } else {
            4 * items.len() - 2
        },
        forall|i: int, j: int|
            0 <= i < items.len() && 0 <= j < 2 ==> join(items, sep)[4 * i + j] == #[trigger] items[i][j],
        forall|i: int| 1 <= i < items.len() ==> #[trigger] sep_before(join(items, sep), i, sep),
    decreases items.len(),
{
    let n = items.len();
    if n >= 2 {
        let init = items.drop_last();
        assert forall|i: int| 0 <= i < init.len() implies (#[trigger] init[i]).len() == 2 by {
            assert(init[i] == items[i]);
        }
        lemma_join_pairs(init, sep);
        let pj = join(init, sep);
        assert(join(items, sep) == pj + sep + items.last());
        assert forall|i: int, j: int| 0 <= i < n && 0 <= j < 2 implies join(items, sep)[4 * i + j]
            == #[trigger] items[i][j] by {
            if i < n - 1 {
                assert(init[i] == items[i]);
                assert(pj[4 * i + j] == init[i][j]);
            }
        }
        assert forall|i: int| 1 <= i < n implies #[trigger] sep_before(join(items, sep), i, sep) by {
            if i < n - 1 {
                assert(sep_before(pj, i, sep));
            }
        }
    }
}

/// Whether `b` is printed at place `i` of `s`: two hexadecimal digits at
/// positions `4i + 1` and `4i + 2` that read back as `b`, preceded by `, `
/// unless it is the first.
pub open spec fn byte_printed_at(s: Seq<char>, i: int, b: u8) -> bool {
    &&& is_hex_digit(s[4 * i + 1])
    &&& is_hex_digit(s[4 * i + 2])
    &&& 16 * hex_value(s[4 * i + 1]) + hex_value(s[4 * i + 2]) == b
    &&& i > 0 ==> s[4 * i - 1] == ',' && s[4 * i] == ' '
}

/// An array prints as `[`, then each byte as two hexadecimal digits that
/// read back as the byte, each byte after the first preceded by `, `, then
/// `]`.
pub proof fn lemma_hex_list_reads_back(a: Seq<u8>)
    ensures
        hex_list(a).len() == if a.len() == 0 {
            2
        } else {
            4 * a.len()
        },
        hex_list(a)[0] == '[',
        hex_list(a).last() == ']',
        forall|i: int| 0 <= i < a.len() ==> byte_printed_at(hex_list(a), i, #[trigger] a[i]),
{
    reveal_strlit(", ");
    let items = Seq::new(a.len(), |i: int| hex_byte(a[i]));
    assert forall|i: int| 0 <= i < items.len() implies (#[trigger] items[i]).len() == 2 by {
        lemma_hex_byte_reads_back(a[i]);
    }
    lemma_join_pairs(items, ", "@);
    let j = join(items, ", "@);
    assert(hex_list(a) == seq!['['] + j + seq![']']);
    assert forall|i: int| 0 <= i < a.len() implies byte_printed_at(hex_list(a), i, #[trigger] a[i]) by {
        lemma_hex_byte_reads_back(a[i]);
        assert(items[i] == hex_byte(a[i]));
        assert(j[4 * i + 0] == items[i][0]);
        assert(j[4 * i + 1] == items[i][1]);
        if i > 0 {
            assert(sep_before(j, i, ", "@));
        }
    }
}

/// An array value prints, for `motu-ctl get`, as `[`, each byte as two
/// hexadecimal digits that read back as the byte (after `, ` unless it is
/// the first), and `]`.
pub proof fn lemma_array_printed_reads_back(a: Seq<u8>)
    ensures
        printed(ValueModel::Array(a)) matches Some(t) && t.len() == (if a.len() == 0 {
            2
        } else {
            4 * a.len()
        }) && t[0] == '[' && t.last() == ']' && forall|i: int|
            0 <= i < a.len() ==> byte_printed_at(t, i, #[trigger] a[i]),
{
    lemma_hex_list_reads_back(a);
}

} // verus!
