use motu_mk5::device::connection::ConnectionError;
use motu_mk5::device::state::{
    plan_restore, property_write, DeviceState, PropertyError, RestorePlan, SyncControl, SyncEvent,
    MAX_RESTORE_WRITES,
};
use motu_mk5::protocol::types::PropertyValue;

#[test]
fn set_pads_and_get_reads_back() {
    let mut state = DeviceState::new();
    assert!(state.is_empty());
    state.set("input_gain", 3, PropertyValue::Byte(40));
    assert!(!state.is_empty());
    assert_eq!(state.get("input_gain", 3), Some(&PropertyValue::Byte(40)));
    assert_eq!(state.get("input_gain", 0), Some(&PropertyValue::Byte(0)));
    assert_eq!(state.get("input_gain", 4), None);
    assert_eq!(state.get("sample_rate", 0), None);
    state.set("input_gain", 1, PropertyValue::Byte(12));
    assert_eq!(state.values_of("input_gain").map(|v| v.len()), Some(4));
    assert_eq!(state.get("input_gain", 1), Some(&PropertyValue::Byte(12)));
    assert_eq!(state.get("input_gain", 3), Some(&PropertyValue::Byte(40)));
    assert_eq!(state.entries().len(), 1);
}

#[test]
fn update_from_device_is_stored() {
    let mut state = DeviceState::new();
    // sample_rate has id 10 and is a 32-bit integer.
    assert!(state.apply_update(10, 0, &[0x00, 0x00, 0xBB, 0x80]));
    assert_eq!(state.get("sample_rate", 0), Some(&PropertyValue::Int32(48000)));
    // Unknown id: nothing changes.
    assert!(!state.apply_update(4242, 0, &[1]));
    // Too few bytes for the property's type: nothing changes.
    assert!(!state.apply_update(10, 0, &[0x01]));
    assert_eq!(state.get("sample_rate", 0), Some(&PropertyValue::Int32(48000)));
    // A string property.
    let mut name = b"Studio".to_vec();
    name.resize(32, 0);
    assert!(state.apply_update(3, 0, &name));
    assert_eq!(state.get("device_name", 0), Some(&PropertyValue::String("Studio".to_string())));
}

#[test]
fn sync_steps() {
    let mut state = DeviceState::new();
    let (n, ctl) = state.sync_step(0, SyncEvent::Received(10, 0, vec![0, 0, 0xAC, 0x44]), false);
    assert_eq!(n, 1);
    assert!(matches!(ctl, SyncControl::Continue));
    assert_eq!(state.get("sample_rate", 0), Some(&PropertyValue::Int32(44100)));
    let (n, ctl) = state.sync_step(n, SyncEvent::Received(4242, 0, vec![1]), true);
    assert_eq!(n, 1);
    assert!(matches!(ctl, SyncControl::Stop));
    let (n, ctl) = state.sync_step(n, SyncEvent::Idle, false);
    assert_eq!(n, 1);
    assert!(matches!(ctl, SyncControl::Stop));
    let (n, ctl) = state.sync_step(
        n,
        SyncEvent::Failed(ConnectionError::Disconnected("gone".to_string())),
        false,
    );
    assert_eq!(n, 1);
    assert!(matches!(ctl, SyncControl::Abort(ConnectionError::Disconnected(m)) if m == "gone"));
}

#[test]
fn restore_writes_only_differences() {
    let mut saved = DeviceState::new();
    saved.set("sample_rate", 0, PropertyValue::Int32(48000));
    saved.set("input_gain", 0, PropertyValue::Byte(30));
    saved.set("input_gain", 1, PropertyValue::Byte(10));
    saved.set("main_trim", 0, PropertyValue::Byte(50));
    saved.set("model_id", 0, PropertyValue::String("ULM5".to_string()));
    let mut device = DeviceState::new();
    device.set("sample_rate", 0, PropertyValue::Int32(44100));
    device.set("input_gain", 0, PropertyValue::Byte(30));
    device.set("input_gain", 1, PropertyValue::Byte(20));
    device.set("main_trim", 0, PropertyValue::Byte(0));
    device.set("model_id", 0, PropertyValue::String("828M5".to_string()));
    match plan_restore(&saved, &device) {
        RestorePlan::Write(writes) => {
            assert_eq!(writes.len(), 2);
            assert_eq!(writes[0].name, "sample_rate");
            assert_eq!(writes[0].prop_id, 10);
            assert_eq!(writes[0].index, 0);
            assert_eq!(writes[0].data, vec![0x00, 0x00, 0xBB, 0x80]);
            assert_eq!(writes[1].name, "input_gain");
            assert_eq!(writes[1].prop_id, 5001);
            assert_eq!(writes[1].index, 1);
            assert_eq!(writes[1].data, vec![10]);
        }
        other => panic!("unexpected plan {other:?}"),
    }
}

#[test]
fn restore_of_identical_state_is_up_to_date() {
    let mut saved = DeviceState::new();
    saved.set("sample_rate", 0, PropertyValue::Int32(48000));
    saved.set("input_48v", 1, PropertyValue::Byte(1));
    let mut device = DeviceState::new();
    device.set("sample_rate", 0, PropertyValue::Int32(48000));
    device.set("input_48v", 1, PropertyValue::Byte(1));
    assert!(matches!(plan_restore(&saved, &device), RestorePlan::UpToDate));
    // Properties the device did not report are not written.
    let empty = DeviceState::new();
    assert!(matches!(plan_restore(&saved, &empty), RestorePlan::UpToDate));
}

#[test]
fn restore_refuses_too_many_writes() {
    let mut saved = DeviceState::new();
    let mut device = DeviceState::new();
    for i in 0..300usize {
        saved.set("mix_fader", i, PropertyValue::Float(0x0100_0000));
        device.set("mix_fader", i, PropertyValue::Float(0));
    }
    match plan_restore(&saved, &device) {
        RestorePlan::TooMany(n) => assert!(n > MAX_RESTORE_WRITES),
        other => panic!("unexpected plan {other:?}"),
    }
}

#[test]
fn property_write_checks_name_and_access() {
    let w = property_write("sample_rate", 0, &PropertyValue::Int32(96000)).unwrap();
    assert_eq!(w.prop_id, 10);
    assert_eq!(w.index, 0);
    assert_eq!(w.data, vec![0x00, 0x01, 0x77, 0x00]);
    assert_eq!(w.name, "sample_rate");
    assert!(matches!(
        property_write("model_id", 0, &PropertyValue::String("x".to_string())),
        Err(PropertyError::ReadOnly(n)) if n == "model_id"
    ));
    assert!(matches!(
        property_write("no_such_thing", 0, &PropertyValue::Byte(1)),
        Err(PropertyError::UnknownProperty(n)) if n == "no_such_thing"
    ));
}

#[test]
fn applying_the_planned_writes_restores_the_saved_values() {
    let mut saved = DeviceState::new();
    saved.set("sample_rate", 0, PropertyValue::Int32(48000));
    saved.set("input_gain", 2, PropertyValue::Byte(33));
    saved.set("device_name", 0, PropertyValue::String("Studio".to_string()));
    let mut device = DeviceState::new();
    device.set("sample_rate", 0, PropertyValue::Int32(96000));
    device.set("input_gain", 0, PropertyValue::Byte(5));
    device.set("device_name", 0, PropertyValue::String("UltraLite".to_string()));
    let writes = match plan_restore(&saved, &device) {
        RestorePlan::Write(w) => w,
        other => panic!("unexpected plan {other:?}"),
    };
    for w in &writes {
        assert!(device.apply_update(w.prop_id, w.index, &w.data));
    }
    assert_eq!(device.get("sample_rate", 0), Some(&PropertyValue::Int32(48000)));
    assert_eq!(device.get("input_gain", 0), Some(&PropertyValue::Byte(0)));
    assert_eq!(device.get("input_gain", 2), Some(&PropertyValue::Byte(33)));
    assert_eq!(device.get("device_name", 0), Some(&PropertyValue::String("Studio".to_string())));
    assert!(matches!(plan_restore(&saved, &device), RestorePlan::UpToDate));
}
