//! The table of all properties that `motu-ctl list` prints.

use vstd::prelude::*;

use super::properties::{properties, property_table, PropertyDef};
use super::types::PropertyType;
use crate::text::{
    chars_of, decimal, pad_left, pad_right, push_decimal, push_padded_left, push_padded_right,
    push_str, string_from_chars,
};

verus! {

/// The name of a wire type.
pub open spec fn wire_type_name(t: PropertyType) -> Seq<char> {
    match t {
        PropertyType::Byte => "Byte"@,
        PropertyType::Int16 => "Int16"@,
        PropertyType::Int32 => "Int32"@,
        PropertyType::Float => "Float"@,
        PropertyType::String => "String"@,
        PropertyType::Array => "Array"@,
    }
}

/// `rw` for a writable property, `ro` for a read-only one.
pub open spec fn access_name(writable: bool) -> Seq<char> {
    if writable {
        "rw"@
    } else {
        "ro"@
    }
}

/// The first columns of a table line: name, id and type.
pub open spec fn row_start(d: PropertyDef) -> Seq<char> {
    pad_right(d.name@, 28) + " "@ + pad_left(decimal(d.id as nat), 5) + "  "@ + pad_right(
        wire_type_name(d.prop_type),
        6,
    )
}

/// The last columns of a table line: access, array length and description.
pub open spec fn row_end(d: PropertyDef) -> Seq<char> {
    " "@ + pad_left(access_name(d.writable), 2) + " "@ + pad_left(decimal(d.count as nat), 5) + "  "@
        + d.description@ + "\n"@
}

/// One line of the table, in columns: name, id, type, access, array
/// length, description.
pub open spec fn listing_row(d: PropertyDef) -> Seq<char> {
    row_start(d) + row_end(d)
}

/// The lines of the table for `defs`, in order.
pub open spec fn listing_rows(defs: Seq<PropertyDef>) -> Seq<char>
    decreases defs.len(),
{
    if defs.len() == 0 {
        Seq::empty()
    } else {
        listing_rows(defs.drop_last()) + listing_row(defs.last())
    }
}

/// The column titles and the rule under them.
pub open spec fn listing_header() -> Seq<char> {
    pad_right("NAME"@, 28) + " "@ + pad_left("ID"@, 5) + "  "@ + pad_right("TYPE"@, 6) + " "@
        + pad_left("RW"@, 2) + " "@ + pad_left("COUNT"@, 5) + "  "@ + "DESCRIPTION"@ + "\n"@
        + Seq::new(95, |i: int| '-') + "\n"@
}

/// Appends the name of a wire type.
fn push_type_name(buf: &mut Vec<char>, t: PropertyType)
    ensures
        final(buf)@ == old(buf)@ + pad_right(wire_type_name(t), 6),
{
    let name = match t {
        PropertyType::Byte => chars_of("Byte"),
        PropertyType::Int16 => chars_of("Int16"),
        PropertyType::Int32 => chars_of("Int32"),
        PropertyType::Float => chars_of("Float"),
        PropertyType::String => chars_of("String"),
        PropertyType::Array => chars_of("Array"),
    };
    push_padded_right(buf, name.as_slice(), 6);
}

/// Appends the first columns of a table line.
fn push_row_start(buf: &mut Vec<char>, d: &PropertyDef)
    ensures
        final(buf)@ == old(buf)@ + row_start(*d),
{
    push_padded_right(buf, chars_of(d.name).as_slice(), 28);
    push_str(buf, " ");
    let mut id: Vec<char> = Vec::new();
    push_decimal(&mut id, d.id as u64);
    assert(id@ =~= decimal(d.id as nat));
    push_padded_left(buf, id.as_slice(), 5);
    push_str(buf, "  ");
    push_type_name(buf, d.prop_type);
    assert(final(buf)@ =~= old(buf)@ + row_start(*d));
}

/// Appends the last columns of a table line.
fn push_row_end(buf: &mut Vec<char>, d: &PropertyDef)
    ensures
        final(buf)@ == old(buf)@ + row_end(*d),
{
    push_str(buf, " ");
    let access = if d.writable {
        chars_of("rw")
    } else {
        chars_of("ro")
    };
    push_padded_left(buf, access.as_slice(), 2);
    push_str(buf, " ");
    let mut count: Vec<char> = Vec::new();
    push_decimal(&mut count, d.count as u64);
    assert(count@ =~= decimal(d.count as nat));
    push_padded_left(buf, count.as_slice(), 5);
    push_str(buf, "  ");
    push_str(buf, d.description);
    push_str(buf, "\n");
    assert(final(buf)@ =~= old(buf)@ + row_end(*d));
}

/// The table of all properties: a title line, a rule, and one line per
/// property in the order of the property map.
pub fn property_listing() -> (s: String)
    ensures
        s@ == listing_header() + listing_rows(property_table()),
{
    let mut buf: Vec<char> = Vec::new();
    push_padded_right(&mut buf, chars_of("NAME").as_slice(), 28);
    push_str(&mut buf, " ");
    push_padded_left(&mut buf, chars_of("ID").as_slice(), 5);
    push_str(&mut buf, "  ");
    push_padded_right(&mut buf, chars_of("TYPE").as_slice(), 6);
    push_str(&mut buf, " ");
    push_padded_left(&mut buf, chars_of("RW").as_slice(), 2);
    push_str(&mut buf, " ");
    push_padded_left(&mut buf, chars_of("COUNT").as_slice(), 5);
    push_str(&mut buf, "  ");
    push_str(&mut buf, "DESCRIPTION");
    push_str(&mut buf, "\n");
    let mut k: usize = 0;
    let ghost before_rule = buf@;
    while k < 95
        invariant
            k <= 95,
            buf@ == before_rule + Seq::new(k as nat, |i: int| '-'),
        decreases 95 - k,
    {
        buf.push('-');
        k += 1;
        assert(buf@ =~= before_rule + Seq::new(k as nat, |i: int| '-'));
    }
    push_str(&mut buf, "\n");
    assert(buf@ =~= listing_header());
    let ghost head = buf@;
    let defs = properties();
    let mut i: usize = 0;
    assert(defs@.take(0) =~= Seq::<PropertyDef>::empty());
    while i < defs.len()
        invariant
            i <= defs@.len(),
            defs@ == property_table(),
            buf@ == head + listing_rows(defs@.take(i as int)),
        decreases defs@.len() - i,
    {
        let ghost mid0 = buf@;
        push_row_start(&mut buf, &defs[i]);
        push_row_end(&mut buf, &defs[i]);
        assert(buf@ =~= mid0 + listing_row(defs@[i as int]));
        assert(defs@.take(i + 1).drop_last() =~= defs@.take(i as int));
        assert(defs@.take(i + 1).last() == defs@[i as int]);
        i += 1;
        assert(buf@ =~= head + listing_rows(defs@.take(i as int)));
    }
    assert(defs@.take(defs@.len() as int) =~= defs@);
    string_from_chars(buf.as_slice())
}

} // verus!
