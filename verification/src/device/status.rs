//! The human-readable summary of the device state that `motu-ctl status`
//! prints.

use vstd::prelude::*;

use crate::device::state::DeviceState;
use crate::protocol::types::{PropertyValue, ValueModel};
use crate::text::{
    decimal, pad_right, push_decimal, push_padded_right, push_signed_decimal, push_str,
    signed_decimal, string_from_chars,
};

verus! {

/// The value a state holds for `name` at `index`.
pub open spec fn lookup(m: Map<Seq<char>, Seq<ValueModel>>, name: Seq<char>, index: int) -> Option<
    ValueModel,
> {
    if m.contains_key(name) && 0 <= index < m[name].len() {
        Some(m[name][index])
    } else {
        None
    }
}

/// A text field: the string held, or `?`.
pub open spec fn text_field(v: Option<ValueModel>) -> Seq<char> {
    match v {
        Some(ValueModel::String(s)) => s,
        _ => "?"@,
    }
}

/// A numeric field: the integer held, in decimal, or `?`.
pub open spec fn int_field(v: Option<ValueModel>) -> Seq<char> {
    match v {
        Some(ValueModel::Int32(x)) => signed_decimal(x as int),
        Some(ValueModel::Int16(x)) => signed_decimal(x as int),
        Some(ValueModel::Byte(x)) => decimal(x as nat),
        _ => "?"@,
    }
}

/// The name of a clock source setting, or `?`.
pub open spec fn clock_name(v: Option<ValueModel>) -> Seq<char> {
    match v {
        Some(ValueModel::Byte(0)) => "S/PDIF"@,
        Some(ValueModel::Byte(2)) => "Optical"@,
        Some(ValueModel::Byte(3)) => "Internal"@,
        _ => "?"@,
    }
}

/// The label of input `i` (from zero): the two mic inputs, then the line
/// inputs.
pub open spec fn gain_label(i: nat) -> Seq<char> {
    if i < 2 {
        "Mic "@ + decimal(i + 1)
    } else {
        "Line "@ + decimal(i + 1)
    }
}

/// The summary line of input `i`'s gain.
pub open spec fn gain_line(m: Map<Seq<char>, Seq<ValueModel>>, i: nat) -> Seq<char> {
    "    "@ + pad_right(gain_label(i), 8) + " "@ + int_field(lookup(m, "input_gain"@, i as int))
        + " dB\n"@
}

/// The gain lines of the first `n` inputs.
pub open spec fn gain_lines(m: Map<Seq<char>, Seq<ValueModel>>, n: nat) -> Seq<char>
    decreases n,
{
    if n == 0 {
        Seq::empty()
    } else {
        gain_lines(m, (n - 1) as nat) + gain_line(m, (n - 1) as nat)
    }
}

/// Inputs whose gain the summary shows.
pub const GAIN_INPUTS: u16 = 8;

/// The summary of a device state.
pub open spec fn status_report(m: Map<Seq<char>, Seq<ValueModel>>) -> Seq<char> {
    "MOTU UltraLite mk5\n  model:       "@ + text_field(lookup(m, "model_id"@, 0))
        + "\n  name:        "@ + text_field(lookup(m, "device_name"@, 0))
        + "\n  sample rate: "@ + int_field(lookup(m, "sample_rate"@, 0))
        + " Hz\n  clock:       "@ + clock_name(lookup(m, "clock_source"@, 0))
        + "\n\n  Input Gains:\n"@ + gain_lines(m, GAIN_INPUTS as nat)
        + "\n  48V: mic1="@ + int_field(lookup(m, "input_48v"@, 0))
        + " mic2="@ + int_field(lookup(m, "input_48v"@, 1))
        + "\n  Pad: mic1="@ + int_field(lookup(m, "input_pad"@, 0))
        + " mic2="@ + int_field(lookup(m, "input_pad"@, 1)) + "\n"@
}

/// The model of an optional borrowed value.
pub open spec fn found_model(v: Option<&PropertyValue>) -> Option<ValueModel> {
    match v {
        Some(x) => Some(x@),
        None => None,
    }
}

/// The value `state` holds for `name` at `index`.
fn value_at<'a>(state: &'a DeviceState, name: &str, index: usize) -> (v: Option<&'a PropertyValue>)
    ensures
        found_model(v) == lookup(state@, name@, index as int),
{
    state.get(name, index)
}

/// Appends a text field.
fn push_text_field(buf: &mut Vec<char>, v: Option<&PropertyValue>)
    ensures
        final(buf)@ == old(buf)@ + text_field(found_model(v)),
{
    match v {
        Some(PropertyValue::String(s)) => push_str(buf, s.as_str()),
        _ => push_str(buf, "?"),
    }
}

/// Appends a numeric field.
fn push_int_field(buf: &mut Vec<char>, v: Option<&PropertyValue>)
    ensures
        final(buf)@ == old(buf)@ + int_field(found_model(v)),
{
    match v {
        Some(PropertyValue::Int32(x)) => push_signed_decimal(buf, *x as i64),
        Some(PropertyValue::Int16(x)) => push_signed_decimal(buf, *x as i64),
        Some(PropertyValue::Byte(x)) => push_decimal(buf, *x as u64),
        _ => push_str(buf, "?"),
    }
}

/// Appends the clock source's name.
fn push_clock_name(buf: &mut Vec<char>, v: Option<&PropertyValue>)
    ensures
        final(buf)@ == old(buf)@ + clock_name(found_model(v)),
{
    match v {
        Some(PropertyValue::Byte(0)) => push_str(buf, "S/PDIF"),
        Some(PropertyValue::Byte(2)) => push_str(buf, "Optical"),
        Some(PropertyValue::Byte(3)) => push_str(buf, "Internal"),
        _ => push_str(buf, "?"),
    }
}

/// Appends the gain line of input `i`.
fn push_gain_line(buf: &mut Vec<char>, state: &DeviceState, i: u16)
    requires
        i < GAIN_INPUTS,
    ensures
        final(buf)@ == old(buf)@ + gain_line(state@, i as nat),
{
    let mut label: Vec<char> = Vec::new();
    if i < 2 {
        push_str(&mut label, "Mic ");
    } else {
        push_str(&mut label, "Line ");
    }
    push_decimal(&mut label, (i + 1) as u64);
    assert(label@ =~= gain_label(i as nat));
    push_str(buf, "    ");
    push_padded_right(buf, label.as_slice(), 8);
    push_str(buf, " ");
    push_int_field(buf, value_at(state, "input_gain", i as usize));
    push_str(buf, " dB\n");
    assert(final(buf)@ =~= old(buf)@ + gain_line(state@, i as nat));
}

/// The summary of `state`: model, name, sample rate, clock source, the gain
/// of each input and the phantom power and pad switches of the two mic
/// inputs; `?` wherever the state holds no value of the expected kind.
pub fn status_text(state: &DeviceState) -> (s: String)
    ensures
        s@ == status_report(state@),
{
    let mut buf: Vec<char> = Vec::new();
    push_str(&mut buf, "MOTU UltraLite mk5\n  model:       ");
    push_text_field(&mut buf, value_at(state, "model_id", 0));
    push_str(&mut buf, "\n  name:        ");
    push_text_field(&mut buf, value_at(state, "device_name", 0));
    push_str(&mut buf, "\n  sample rate: ");
    push_int_field(&mut buf, value_at(state, "sample_rate", 0));
    push_str(&mut buf, " Hz\n  clock:       ");
    push_clock_name(&mut buf, value_at(state, "clock_source", 0));
    push_str(&mut buf, "\n\n  Input Gains:\n");
    let ghost head = buf@;
    let mut i: u16 = 0;
    while i < GAIN_INPUTS
        invariant
            i <= GAIN_INPUTS,
            buf@ == head + gain_lines(state@, i as nat),
        decreases GAIN_INPUTS - i,
    {
        push_gain_line(&mut buf, state, i);
        i += 1;
        assert(buf@ =~= head + gain_lines(state@, i as nat));
    }
    push_str(&mut buf, "\n  48V: mic1=");
    push_int_field(&mut buf, value_at(state, "input_48v", 0));
    push_str(&mut buf, " mic2=");
    push_int_field(&mut buf, value_at(state, "input_48v", 1));
    push_str(&mut buf, "\n  Pad: mic1=");
    push_int_field(&mut buf, value_at(state, "input_pad", 0));
    push_str(&mut buf, " mic2=");
    push_int_field(&mut buf, value_at(state, "input_pad", 1));
    push_str(&mut buf, "\n");
    assert(buf@ =~= status_report(state@));
    string_from_chars(buf.as_slice())
}

} // verus!
