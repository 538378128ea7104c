use motu_mk5::device::state::DeviceState;
use motu_mk5::device::status::status_text;
use motu_mk5::protocol::types::PropertyValue;

#[test]
fn status_of_an_empty_state() {
    let state = DeviceState::new();
    assert_eq!(
        status_text(&state),
        "MOTU UltraLite mk5\n\
         \x20 model:       ?\n\
         \x20 name:        ?\n\
         \x20 sample rate: ? Hz\n\
         \x20 clock:       ?\n\
         \n\
         \x20 Input Gains:\n\
         \x20   Mic 1    ? dB\n\
         \x20   Mic 2    ? dB\n\
         \x20   Line 3   ? dB\n\
         \x20   Line 4   ? dB\n\
         \x20   Line 5   ? dB\n\
         \x20   Line 6   ? dB\n\
         \x20   Line 7   ? dB\n\
         \x20   Line 8   ? dB\n\
         \n\
         \x20 48V: mic1=? mic2=?\n\
         \x20 Pad: mic1=? mic2=?\n"
    );
}

#[test]
fn status_of_a_synced_state() {
    let mut state = DeviceState::new();
    state.set("model_id", 0, PropertyValue::String("ULM5".to_string()));
    state.set("device_name", 0, PropertyValue::String("Studio".to_string()));
    state.set("sample_rate", 0, PropertyValue::Int32(96000));
    state.set("clock_source", 0, PropertyValue::Byte(3));
    state.set("input_gain", 0, PropertyValue::Int16(40));
    state.set("input_gain", 7, PropertyValue::Int16(-6));
    state.set("input_48v", 0, PropertyValue::Byte(1));
    state.set("input_pad", 1, PropertyValue::Byte(1));
    let text = status_text(&state);
    assert_eq!(
        text,
        "MOTU UltraLite mk5\n\
         \x20 model:       ULM5\n\
         \x20 name:        Studio\n\
         \x20 sample rate: 96000 Hz\n\
         \x20 clock:       Internal\n\
         \n\
         \x20 Input Gains:\n\
         \x20   Mic 1    40 dB\n\
         \x20   Mic 2    0 dB\n\
         \x20   Line 3   0 dB\n\
         \x20   Line 4   0 dB\n\
         \x20   Line 5   0 dB\n\
         \x20   Line 6   0 dB\n\
         \x20   Line 7   0 dB\n\
         \x20   Line 8   -6 dB\n\
         \n\
         \x20 48V: mic1=1 mic2=?\n\
         \x20 Pad: mic1=0 mic2=1\n"
    );
}

#[test]
fn status_clock_names() {
    for (byte, name) in [(0u8, "S/PDIF"), (2, "Optical"), (3, "Internal"), (1, "?")] {
        let mut state = DeviceState::new();
        state.set("clock_source", 0, PropertyValue::Byte(byte));
        assert!(status_text(&state).contains(&format!("  clock:       {name}\n")));
    }
    let mut state = DeviceState::new();
    state.set("clock_source", 0, PropertyValue::Int32(3));
    assert!(status_text(&state).contains("  clock:       ?\n"));
}
