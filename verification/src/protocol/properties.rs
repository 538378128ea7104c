//! The property map of the MOTU UltraLite mk5: every property's name, id,
//! wire type, array length and whether the host may write it.

use vstd::prelude::*;

use super::types::PropertyType;
use crate::text::str_eq;

verus! {

/// One device property.
#[derive(Debug, Clone, Copy)]
pub struct PropertyDef {
    pub name: &'static str,
    pub id: u16,
    pub prop_type: PropertyType,
    pub count: usize,
    pub writable: bool,
    pub description: &'static str,
}

/// Id under which the device streams meter data.
pub const METERS_ID: u16 = 6000;

/// Id of proxy status messages.
pub const PROXY_STATUS_ID: u16 = 0xFFFF;

/// Id of proxy messages.
pub const PROXY_MESSAGE_ID: u16 = 0xFFFE;

/// Datastore API version this map describes.
pub const DATASTORE_API_VERSION: u16 = 9;

/// Inputs of the mix matrix.
pub const MIX_NUM_INPUTS: usize = 32;

/// Buses of the mix matrix.
pub const MIX_NUM_BUSES: usize = 14;

/// The complete property map.
pub open spec fn property_table() -> Seq<PropertyDef> {
    seq![
        PropertyDef { name: "device_mac", id: 0, prop_type: PropertyType::Array, count: 1, writable: false, description: "Device MAC address (6 bytes)" },
        PropertyDef { name: "device_uid", id: 2, prop_type: PropertyType::Array, count: 1, writable: false, description: "Device unique ID / serial" },
        PropertyDef { name: "device_name", id: 3, prop_type: PropertyType::String, count: 1, writable: true, description: "User-assigned device name" },
        PropertyDef { name: "device_version", id: 4, prop_type: PropertyType::String, count: 2, writable: false, description: "Firmware version strings" },
        PropertyDef { name: "api_version", id: 8, prop_type: PropertyType::Int16, count: 1, writable: false, description: "Datastore API version" },
        PropertyDef { name: "model_id", id: 21, prop_type: PropertyType::String, count: 1, writable: false, description: "Model identifier (ULM5 / 828M5)" },
        PropertyDef { name: "sample_rate", id: 10, prop_type: PropertyType::Int32, count: 1, writable: true, description: "Sample rate in Hz" },
        PropertyDef { name: "clock_source", id: 11, prop_type: PropertyType::Byte, count: 1, writable: true, description: "Clock source: 0=S/PDIF, 2=Optical, 3=Internal" },
        PropertyDef { name: "fpga_locked", id: 15, prop_type: PropertyType::Byte, count: 1, writable: false, description: "FPGA lock status" },
        PropertyDef { name: "pll_locked", id: 16, prop_type: PropertyType::Byte, count: 1, writable: false, description: "PLL lock status" },
        PropertyDef { name: "midi_thru", id: 19, prop_type: PropertyType::Byte, count: 1, writable: true, description: "MIDI thru enable" },
        PropertyDef { name: "loopback_first", id: 20, prop_type: PropertyType::Byte, count: 1, writable: true, description: "Loopback order: 0=USB 9-10, 1=USB 1-2" },
        PropertyDef { name: "input_gain", id: 5001, prop_type: PropertyType::Byte, count: 8, writable: true, description: "Input gain: mic 0-74dB, line 0-20dB" },
        PropertyDef { name: "input_phase", id: 5002, prop_type: PropertyType::Byte, count: 8, writable: true, description: "Input phase invert (bool per channel)" },
        PropertyDef { name: "input_pad", id: 5003, prop_type: PropertyType::Byte, count: 2, writable: true, description: "Mic pad enable (bool, mic inputs only)" },
        PropertyDef { name: "input_48v", id: 5004, prop_type: PropertyType::Byte, count: 2, writable: true, description: "48V phantom power (bool, mic inputs only)" },
        PropertyDef { name: "jack_detect", id: 5005, prop_type: PropertyType::Byte, count: 2, writable: false, description: "Jack detect: 0=mic, 1=line (combo jacks)" },
        PropertyDef { name: "output_trim", id: 5000, prop_type: PropertyType::Byte, count: 12, writable: true, description: "Output trim 0-100 (maps to 0 to -100dB)" },
        PropertyDef { name: "main_trim", id: 5011, prop_type: PropertyType::Byte, count: 1, writable: true, description: "Main output trim 0-100" },
        PropertyDef { name: "main_group", id: 5012, prop_type: PropertyType::Int16, count: 1, writable: true, description: "Main group bitmask (which outputs follow main)" },
        PropertyDef { name: "fpga_patch", id: 5010, prop_type: PropertyType::Byte, count: 80, writable: true, description: "FPGA routing patch table" },
        PropertyDef { name: "loopback_source", id: 5014, prop_type: PropertyType::Byte, count: 2, writable: true, description: "Loopback source routing" },
        PropertyDef { name: "input_names", id: 6, prop_type: PropertyType::String, count: 18, writable: true, description: "Input channel names (32 bytes each)" },
        PropertyDef { name: "output_names", id: 7, prop_type: PropertyType::String, count: 22, writable: true, description: "Output channel names (32 bytes each)" },
        PropertyDef { name: "optical_mode", id: 5006, prop_type: PropertyType::Byte, count: 2, writable: true, description: "Optical mode: 0=ADAT, 1=TOSlink (in/out)" },
        PropertyDef { name: "optical_expander", id: 5025, prop_type: PropertyType::Byte, count: 1, writable: true, description: "Optical expander enable" },
        PropertyDef { name: "word_clock_out", id: 5024, prop_type: PropertyType::Byte, count: 1, writable: true, description: "Word clock out: 0=Thru, 1=Out" },
        PropertyDef { name: "ab_enable", id: 5015, prop_type: PropertyType::Byte, count: 1, writable: true, description: "A/B switching enable" },
        PropertyDef { name: "a_enable", id: 5016, prop_type: PropertyType::Byte, count: 1, writable: true, description: "A output enable" },
        PropertyDef { name: "b_enable", id: 5017, prop_type: PropertyType::Byte, count: 1, writable: true, description: "B output enable" },
        PropertyDef { name: "mono_enable", id: 5018, prop_type: PropertyType::Byte, count: 1, writable: true, description: "Mono enable" },
        PropertyDef { name: "mute_enable", id: 5019, prop_type: PropertyType::Byte, count: 1, writable: true, description: "Mute enable" },
        PropertyDef { name: "optical_expander_patch", id: 5020, prop_type: PropertyType::Byte, count: 80, writable: true, description: "Optical expander routing table" },
        PropertyDef { name: "talkback_latch", id: 5026, prop_type: PropertyType::Byte, count: 1, writable: true, description: "Talkback latch mode" },
        PropertyDef { name: "talkback_enable", id: 5027, prop_type: PropertyType::Byte, count: 1, writable: true, description: "Talkback enable" },
        PropertyDef { name: "talkback_level", id: 5028, prop_type: PropertyType::Float, count: 1, writable: true, description: "Talkback level" },
        PropertyDef { name: "talkback_dim", id: 5029, prop_type: PropertyType::Float, count: 1, writable: true, description: "Talkback dim amount" },
        PropertyDef { name: "talkback_source", id: 5030, prop_type: PropertyType::Byte, count: 1, writable: true, description: "Talkback source channel" },
        PropertyDef { name: "talkback_destination", id: 5031, prop_type: PropertyType::Int32, count: 1, writable: true, description: "Talkback destination bitmask" },
        PropertyDef { name: "footswitch_enabled", id: 5032, prop_type: PropertyType::Byte, count: 1, writable: true, description: "Footswitch enable" },
        PropertyDef { name: "footswitch_down_key", id: 5033, prop_type: PropertyType::String, count: 1, writable: true, description: "Footswitch down action" },
        PropertyDef { name: "footswitch_up_key", id: 5034, prop_type: PropertyType::String, count: 1, writable: true, description: "Footswitch up action" },
        PropertyDef { name: "mix_input_stereo", id: 1000, prop_type: PropertyType::Byte, count: 32, writable: true, description: "Mix input stereo link (bool per input per rate)" },
        PropertyDef { name: "mix_output_stereo", id: 1001, prop_type: PropertyType::Byte, count: 14, writable: true, description: "Mix output/bus stereo link" },
        PropertyDef { name: "input_eq_mode", id: 1002, prop_type: PropertyType::Byte, count: 32, writable: true, description: "EQ band mode: 0=peak, 1=low shelf, 2=high shelf, 3=highpass" },
        PropertyDef { name: "input_eq_bypass", id: 1003, prop_type: PropertyType::Byte, count: 32, writable: true, description: "EQ band bypass (bool)" },
        PropertyDef { name: "input_eq_freq", id: 1004, prop_type: PropertyType::Int32, count: 32, writable: true, description: "EQ frequency in Hz" },
        PropertyDef { name: "input_eq_gain", id: 1005, prop_type: PropertyType::Float, count: 32, writable: true, description: "EQ gain in dB" },
        PropertyDef { name: "input_eq_bw", id: 1006, prop_type: PropertyType::Float, count: 32, writable: true, description: "EQ bandwidth in octaves" },
        PropertyDef { name: "gate_bypass", id: 1007, prop_type: PropertyType::Byte, count: 2, writable: true, description: "Gate bypass (bool)" },
        PropertyDef { name: "gate_threshold", id: 1008, prop_type: PropertyType::Float, count: 2, writable: true, description: "Gate threshold in dB (0=-inf, 1=0dB)" },
        PropertyDef { name: "gate_attack", id: 1009, prop_type: PropertyType::Int16, count: 2, writable: true, description: "Gate attack 1-100ms" },
        PropertyDef { name: "gate_release", id: 1010, prop_type: PropertyType::Int16, count: 2, writable: true, description: "Gate release 50-2000ms" },
        PropertyDef { name: "comp_bypass", id: 1011, prop_type: PropertyType::Byte, count: 8, writable: true, description: "Compressor bypass (bool)" },
        PropertyDef { name: "comp_threshold", id: 1012, prop_type: PropertyType::Float, count: 8, writable: true, description: "Compressor threshold in dB" },
        PropertyDef { name: "comp_attack", id: 1013, prop_type: PropertyType::Int16, count: 8, writable: true, description: "Compressor attack 1-100ms" },
        PropertyDef { name: "comp_release", id: 1014, prop_type: PropertyType::Int16, count: 8, writable: true, description: "Compressor release 50-2000ms" },
        PropertyDef { name: "comp_ratio", id: 1015, prop_type: PropertyType::Float, count: 8, writable: true, description: "Compressor ratio 1-10" },
        PropertyDef { name: "comp_makeup", id: 1021, prop_type: PropertyType::Float, count: 8, writable: true, description: "Compressor makeup gain" },
        PropertyDef { name: "mix_fader", id: 1016, prop_type: PropertyType::Float, count: 448, writable: true, description: "Mix fader levels (32 in x 14 bus)" },
        PropertyDef { name: "mix_pan", id: 1017, prop_type: PropertyType::Float, count: 448, writable: true, description: "Mix pan positions (32 in x 14 bus, 0.0-1.0)" },
        PropertyDef { name: "mix_solo", id: 1018, prop_type: PropertyType::Byte, count: 448, writable: true, description: "Mix solo (bool, 32 in x 14 bus)" },
        PropertyDef { name: "mix_mute", id: 1019, prop_type: PropertyType::Byte, count: 448, writable: true, description: "Mix mute (bool, 32 in x 14 bus)" },
        PropertyDef { name: "output_eq_mode", id: 1022, prop_type: PropertyType::Byte, count: 36, writable: true, description: "Output EQ mode per band" },
        PropertyDef { name: "output_eq_bypass", id: 1023, prop_type: PropertyType::Byte, count: 36, writable: true, description: "Output EQ bypass" },
        PropertyDef { name: "output_eq_freq", id: 1024, prop_type: PropertyType::Int32, count: 36, writable: true, description: "Output EQ frequency" },
        PropertyDef { name: "output_eq_gain", id: 1025, prop_type: PropertyType::Float, count: 36, writable: true, description: "Output EQ gain" },
        PropertyDef { name: "output_eq_bw", id: 1026, prop_type: PropertyType::Float, count: 36, writable: true, description: "Output EQ bandwidth" },
        PropertyDef { name: "reverb_decay", id: 1030, prop_type: PropertyType::Byte, count: 1, writable: true, description: "Reverb decay 0-100 (percent)" },
        PropertyDef { name: "reverb_damping", id: 1031, prop_type: PropertyType::Byte, count: 1, writable: true, description: "Reverb damping 0-100" },
        PropertyDef { name: "reverb_predelay", id: 1032, prop_type: PropertyType::Byte, count: 1, writable: true, description: "Reverb pre-delay 0-100ms" },
        PropertyDef { name: "reverb_width", id: 1033, prop_type: PropertyType::Byte, count: 1, writable: true, description: "Reverb width 0-100" },
        PropertyDef { name: "reverb_preset", id: 1034, prop_type: PropertyType::Byte, count: 1, writable: true, description: "Reverb preset index" },
    ]
}

/// The complete property map, in the order of `property_table`.
pub fn properties() -> (defs: Vec<PropertyDef>)
    ensures
        defs@ == property_table(),
{
    let defs = vec![
        PropertyDef { name: "device_mac", id: 0, prop_type: PropertyType::Array, count: 1, writable: false, description: "Device MAC address (6 bytes)" },
        PropertyDef { name: "device_uid", id: 2, prop_type: PropertyType::Array, count: 1, writable: false, description: "Device unique ID / serial" },
        PropertyDef { name: "device_name", id: 3, prop_type: PropertyType::String, count: 1, writable: true, description: "User-assigned device name" },
        PropertyDef { name: "device_version", id: 4, prop_type: PropertyType::String, count: 2, writable: false, description: "Firmware version strings" },
        PropertyDef { name: "api_version", id: 8, prop_type: PropertyType::Int16, count: 1, writable: false, description: "Datastore API version" },
        PropertyDef { name: "model_id", id: 21, prop_type: PropertyType::String, count: 1, writable: false, description: "Model identifier (ULM5 / 828M5)" },
        PropertyDef { name: "sample_rate", id: 10, prop_type: PropertyType::Int32, count: 1, writable: true, description: "Sample rate in Hz" },
        PropertyDef { name: "clock_source", id: 11, prop_type: PropertyType::Byte, count: 1, writable: true, description: "Clock source: 0=S/PDIF, 2=Optical, 3=Internal" },
        PropertyDef { name: "fpga_locked", id: 15, prop_type: PropertyType::Byte, count: 1, writable: false, description: "FPGA lock status" },
        PropertyDef { name: "pll_locked", id: 16, prop_type: PropertyType::Byte, count: 1, writable: false, description: "PLL lock status" },
        PropertyDef { name: "midi_thru", id: 19, prop_type: PropertyType::Byte, count: 1, writable: true, description: "MIDI thru enable" },
        PropertyDef { name: "loopback_first", id: 20, prop_type: PropertyType::Byte, count: 1, writable: true, description: "Loopback order: 0=USB 9-10, 1=USB 1-2" },
        PropertyDef { name: "input_gain", id: 5001, prop_type: PropertyType::Byte, count: 8, writable: true, description: "Input gain: mic 0-74dB, line 0-20dB" },
        PropertyDef { name: "input_phase", id: 5002, prop_type: PropertyType::Byte, count: 8, writable: true, description: "Input phase invert (bool per channel)" },
        PropertyDef { name: "input_pad", id: 5003, prop_type: PropertyType::Byte, count: 2, writable: true, description: "Mic pad enable (bool, mic inputs only)" },
        PropertyDef { name: "input_48v", id: 5004, prop_type: PropertyType::Byte, count: 2, writable: true, description: "48V phantom power (bool, mic inputs only)" },
        PropertyDef { name: "jack_detect", id: 5005, prop_type: PropertyType::Byte, count: 2, writable: false, description: "Jack detect: 0=mic, 1=line (combo jacks)" },
        PropertyDef { name: "output_trim", id: 5000, prop_type: PropertyType::Byte, count: 12, writable: true, description: "Output trim 0-100 (maps to 0 to -100dB)" },
        PropertyDef { name: "main_trim", id: 5011, prop_type: PropertyType::Byte, count: 1, writable: true, description: "Main output trim 0-100" },
        PropertyDef { name: "main_group", id: 5012, prop_type: PropertyType::Int16, count: 1, writable: true, description: "Main group bitmask (which outputs follow main)" },
        PropertyDef { name: "fpga_patch", id: 5010, prop_type: PropertyType::Byte, count: 80, writable: true, description: "FPGA routing patch table" },
        PropertyDef { name: "loopback_source", id: 5014, prop_type: PropertyType::Byte, count: 2, writable: true, description: "Loopback source routing" },
        PropertyDef { name: "input_names", id: 6, prop_type: PropertyType::String, count: 18, writable: true, description: "Input channel names (32 bytes each)" },
        PropertyDef { name: "output_names", id: 7, prop_type: PropertyType::String, count: 22, writable: true, description: "Output channel names (32 bytes each)" },
        PropertyDef { name: "optical_mode", id: 5006, prop_type: PropertyType::Byte, count: 2, writable: true, description: "Optical mode: 0=ADAT, 1=TOSlink (in/out)" },
        PropertyDef { name: "optical_expander", id: 5025, prop_type: PropertyType::Byte, count: 1, writable: true, description: "Optical expander enable" },
        PropertyDef { name: "word_clock_out", id: 5024, prop_type: PropertyType::Byte, count: 1, writable: true, description: "Word clock out: 0=Thru, 1=Out" },
        PropertyDef { name: "ab_enable", id: 5015, prop_type: PropertyType::Byte, count: 1, writable: true, description: "A/B switching enable" },
        PropertyDef { name: "a_enable", id: 5016, prop_type: PropertyType::Byte, count: 1, writable: true, description: "A output enable" },
        PropertyDef { name: "b_enable", id: 5017, prop_type: PropertyType::Byte, count: 1, writable: true, description: "B output enable" },
        PropertyDef { name: "mono_enable", id: 5018, prop_type: PropertyType::Byte, count: 1, writable: true, description: "Mono enable" },
        PropertyDef { name: "mute_enable", id: 5019, prop_type: PropertyType::Byte, count: 1, writable: true, description: "Mute enable" },
        PropertyDef { name: "optical_expander_patch", id: 5020, prop_type: PropertyType::Byte, count: 80, writable: true, description: "Optical expander routing table" },
        PropertyDef { name: "talkback_latch", id: 5026, prop_type: PropertyType::Byte, count: 1, writable: true, description: "Talkback latch mode" },
        PropertyDef { name: "talkback_enable", id: 5027, prop_type: PropertyType::Byte, count: 1, writable: true, description: "Talkback enable" },
        PropertyDef { name: "talkback_level", id: 5028, prop_type: PropertyType::Float, count: 1, writable: true, description: "Talkback level" },
        PropertyDef { name: "talkback_dim", id: 5029, prop_type: PropertyType::Float, count: 1, writable: true, description: "Talkback dim amount" },
        PropertyDef { name: "talkback_source", id: 5030, prop_type: PropertyType::Byte, count: 1, writable: true, description: "Talkback source channel" },
        PropertyDef { name: "talkback_destination", id: 5031, prop_type: PropertyType::Int32, count: 1, writable: true, description: "Talkback destination bitmask" },
        PropertyDef { name: "footswitch_enabled", id: 5032, prop_type: PropertyType::Byte, count: 1, writable: true, description: "Footswitch enable" },
        PropertyDef { name: "footswitch_down_key", id: 5033, prop_type: PropertyType::String, count: 1, writable: true, description: "Footswitch down action" },
        PropertyDef { name: "footswitch_up_key", id: 5034, prop_type: PropertyType::String, count: 1, writable: true, description: "Footswitch up action" },
        PropertyDef { name: "mix_input_stereo", id: 1000, prop_type: PropertyType::Byte, count: 32, writable: true, description: "Mix input stereo link (bool per input per rate)" },
        PropertyDef { name: "mix_output_stereo", id: 1001, prop_type: PropertyType::Byte, count: 14, writable: true, description: "Mix output/bus stereo link" },
        PropertyDef { name: "input_eq_mode", id: 1002, prop_type: PropertyType::Byte, count: 32, writable: true, description: "EQ band mode: 0=peak, 1=low shelf, 2=high shelf, 3=highpass" },
        PropertyDef { name: "input_eq_bypass", id: 1003, prop_type: PropertyType::Byte, count: 32, writable: true, description: "EQ band bypass (bool)" },
        PropertyDef { name: "input_eq_freq", id: 1004, prop_type: PropertyType::Int32, count: 32, writable: true, description: "EQ frequency in Hz" },
        PropertyDef { name: "input_eq_gain", id: 1005, prop_type: PropertyType::Float, count: 32, writable: true, description: "EQ gain in dB" },
        PropertyDef { name: "input_eq_bw", id: 1006, prop_type: PropertyType::Float, count: 32, writable: true, description: "EQ bandwidth in octaves" },
        PropertyDef { name: "gate_bypass", id: 1007, prop_type: PropertyType::Byte, count: 2, writable: true, description: "Gate bypass (bool)" },
        PropertyDef { name: "gate_threshold", id: 1008, prop_type: PropertyType::Float, count: 2, writable: true, description: "Gate threshold in dB (0=-inf, 1=0dB)" },
        PropertyDef { name: "gate_attack", id: 1009, prop_type: PropertyType::Int16, count: 2, writable: true, description: "Gate attack 1-100ms" },
        PropertyDef { name: "gate_release", id: 1010, prop_type: PropertyType::Int16, count: 2, writable: true, description: "Gate release 50-2000ms" },
        PropertyDef { name: "comp_bypass", id: 1011, prop_type: PropertyType::Byte, count: 8, writable: true, description: "Compressor bypass (bool)" },
        PropertyDef { name: "comp_threshold", id: 1012, prop_type: PropertyType::Float, count: 8, writable: true, description: "Compressor threshold in dB" },
        PropertyDef { name: "comp_attack", id: 1013, prop_type: PropertyType::Int16, count: 8, writable: true, description: "Compressor attack 1-100ms" },
        PropertyDef { name: "comp_release", id: 1014, prop_type: PropertyType::Int16, count: 8, writable: true, description: "Compressor release 50-2000ms" },
        PropertyDef { name: "comp_ratio", id: 1015, prop_type: PropertyType::Float, count: 8, writable: true, description: "Compressor ratio 1-10" },
        PropertyDef { name: "comp_makeup", id: 1021, prop_type: PropertyType::Float, count: 8, writable: true, description: "Compressor makeup gain" },
        PropertyDef { name: "mix_fader", id: 1016, prop_type: PropertyType::Float, count: 448, writable: true, description: "Mix fader levels (32 in x 14 bus)" },
        PropertyDef { name: "mix_pan", id: 1017, prop_type: PropertyType::Float, count: 448, writable: true, description: "Mix pan positions (32 in x 14 bus, 0.0-1.0)" },
        PropertyDef { name: "mix_solo", id: 1018, prop_type: PropertyType::Byte, count: 448, writable: true, description: "Mix solo (bool, 32 in x 14 bus)" },
        PropertyDef { name: "mix_mute", id: 1019, prop_type: PropertyType::Byte, count: 448, writable: true, description: "Mix mute (bool, 32 in x 14 bus)" },
        PropertyDef { name: "output_eq_mode", id: 1022, prop_type: PropertyType::Byte, count: 36, writable: true, description: "Output EQ mode per band" },
        PropertyDef { name: "output_eq_bypass", id: 1023, prop_type: PropertyType::Byte, count: 36, writable: true, description: "Output EQ bypass" },
        PropertyDef { name: "output_eq_freq", id: 1024, prop_type: PropertyType::Int32, count: 36, writable: true, description: "Output EQ frequency" },
        PropertyDef { name: "output_eq_gain", id: 1025, prop_type: PropertyType::Float, count: 36, writable: true, description: "Output EQ gain" },
        PropertyDef { name: "output_eq_bw", id: 1026, prop_type: PropertyType::Float, count: 36, writable: true, description: "Output EQ bandwidth" },
        PropertyDef { name: "reverb_decay", id: 1030, prop_type: PropertyType::Byte, count: 1, writable: true, description: "Reverb decay 0-100 (percent)" },
        PropertyDef { name: "reverb_damping", id: 1031, prop_type: PropertyType::Byte, count: 1, writable: true, description: "Reverb damping 0-100" },
        PropertyDef { name: "reverb_predelay", id: 1032, prop_type: PropertyType::Byte, count: 1, writable: true, description: "Reverb pre-delay 0-100ms" },
        PropertyDef { name: "reverb_width", id: 1033, prop_type: PropertyType::Byte, count: 1, writable: true, description: "Reverb width 0-100" },
        PropertyDef { name: "reverb_preset", id: 1034, prop_type: PropertyType::Byte, count: 1, writable: true, description: "Reverb preset index" },
    ];
    assert(defs@ =~= property_table());
    defs
}

/// The first property of `defs` with the given id.
pub open spec fn find_id_in(defs: Seq<PropertyDef>, id: u16) -> Option<PropertyDef>
    decreases defs.len(),
{
    if defs.len() == 0 {
        None
    } else if defs[0].id == id {
        Some(defs[0])
    } else {
        find_id_in(defs.drop_first(), id)
    }
}

/// The first property of `defs` with the given name.
pub open spec fn find_name_in(defs: Seq<PropertyDef>, name: Seq<char>) -> Option<PropertyDef>
    decreases defs.len(),
{
    if defs.len() == 0 {
        None
    } else if defs[0].name@ == name {
        Some(defs[0])
    } else {
        find_name_in(defs.drop_first(), name)
    }
}

/// The property with the given name.
pub fn find_by_name(name: &str) -> (def: Option<PropertyDef>)
    ensures
        def == find_name_in(property_table(), name@),
{
    let defs = properties();
    let mut i: usize = 0;
    assert(defs@.skip(0) =~= defs@);
    while i < defs.len()
        invariant
            i <= defs@.len(),
            defs@ == property_table(),
            find_name_in(property_table(), name@) == find_name_in(defs@.skip(i as int), name@),
        decreases defs@.len() - i,
    {
        assert(defs@.skip(i as int)[0] == defs@[i as int]);
        assert(defs@.skip(i as int).drop_first() =~= defs@.skip(i + 1));
        if str_eq(defs[i].name, name) {
            return Some(defs[i]);
        }
        i += 1;
    }
    None
}

/// The property with the given id.
pub fn find_by_id(id: u16) -> (def: Option<PropertyDef>)
    ensures
        def == find_id_in(property_table(), id),
{
    let defs = properties();
    let mut i: usize = 0;
    assert(defs@.skip(0) =~= defs@);
    while i < defs.len()
        invariant
            i <= defs@.len(),
            defs@ == property_table(),
            find_id_in(property_table(), id) == find_id_in(defs@.skip(i as int), id),
        decreases defs@.len() - i,
    {
        assert(defs@.skip(i as int)[0] == defs@[i as int]);
        assert(defs@.skip(i as int).drop_first() =~= defs@.skip(i + 1));
        if defs[i].id == id {
            return Some(defs[i]);
        }
        i += 1;
    }
    None
}

/// A search finds only what is in the table, under the id or name searched for.
pub proof fn lemma_find_sound(defs: Seq<PropertyDef>, id: u16, name: Seq<char>)
    ensures
        find_id_in(defs, id) matches Some(d) ==> d.id == id && defs.contains(d),
        find_name_in(defs, name) matches Some(d) ==> d.name@ == name && defs.contains(d),
    decreases defs.len(),
{
    if defs.len() > 0 {
        lemma_find_sound(defs.drop_first(), id, name);
        if let Some(d) = find_id_in(defs, id) {
            if defs[0].id != id {
                let k = choose|k: int| 0 <= k < defs.drop_first().len() && defs.drop_first()[k] == d;
                assert(defs[k + 1] == d);
            }
        }
        if let Some(d) = find_name_in(defs, name) {
            if defs[0].name@ != name {
                let k = choose|k: int| 0 <= k < defs.drop_first().len() && defs.drop_first()[k] == d;
                assert(defs[k + 1] == d);
            }
        }
    }
}

/// No two properties share an id.
#[verifier::rlimit(100)]
pub proof fn lemma_ids_distinct()
    ensures
        forall|i: int, j: int|
            0 <= i < j < property_table().len() ==> property_table()[i].id
                != property_table()[j].id,
{
    let t = property_table();
    assert forall|i: int, j: int| 0 <= i < j < t.len() implies t[i].id != t[j].id by {
    }
}

/// A number that tells the names of the property map apart: the length,
/// the first two characters and the last but one.
pub open spec fn name_code(s: Seq<char>) -> int {
    s.len() * 0x20_0000 + (s[0] as int) * 0x4000 + (s[1] as int) * 0x80 + (s[s.len() - 2] as int)
}

/// The code of each name of the property map, in table order.
spec fn name_codes() -> Seq<int> {
    seq![
        22622945,
        22622953,
        24720109,
        31011567,
        24672367,
        18577385,
        24965364,
        26801763,
        24754277,
        22820453,
        20673778,
        31143923,
        22706025,
        24803187,
        20608865,
        20608824,
        24817891,
        24902377,
        20672745,
        22769909,
        22657123,
        33241059,
        24803173,
        26999525,
        26998884,
        35387493,
        31324149,
        20476268,
        18378732,
        18395116,
        24868844,
        24869612,
        47970403,
        31273187,
        33370348,
        31273189,
        27078889,
        33370339,
        43856111,
        39434213,
        41531365,
        37337061,
        35353829,
        37450981,
        28997476,
        33191795,
        28997477,
        28997481,
        24803170,
        24768755,
        31060204,
        24768739,
        26865907,
        24705011,
        30996460,
        24704995,
        26802163,
        22607849,
        24705013,
        20673765,
        16479457,
        18576620,
        18576628,
        31193828,
        35388147,
        31193829,
        31193833,
        26999522,
        27046625,
        31240942,
        33338081,
        27046644,
        29143781,
    ]
}

proof fn lemma_name_codes()
    ensures
        name_codes().len() == property_table().len(),
        forall|k: int|
            0 <= k < property_table().len() ==> name_code(#[trigger] property_table()[k].name@)
                == name_codes()[k],
{
    reveal_strlit("device_mac");
    reveal_strlit("device_uid");
    reveal_strlit("device_name");
    reveal_strlit("device_version");
    reveal_strlit("api_version");
    reveal_strlit("model_id");
    reveal_strlit("sample_rate");
    reveal_strlit("clock_source");
    reveal_strlit("fpga_locked");
    reveal_strlit("pll_locked");
    reveal_strlit("midi_thru");
    reveal_strlit("loopback_first");
    reveal_strlit("input_gain");
    reveal_strlit("input_phase");
    reveal_strlit("input_pad");
    reveal_strlit("input_48v");
    reveal_strlit("jack_detect");
    reveal_strlit("output_trim");
    reveal_strlit("main_trim");
    reveal_strlit("main_group");
    reveal_strlit("fpga_patch");
    reveal_strlit("loopback_source");
    reveal_strlit("input_names");
    reveal_strlit("output_names");
    reveal_strlit("optical_mode");
    reveal_strlit("optical_expander");
    reveal_strlit("word_clock_out");
    reveal_strlit("ab_enable");
    reveal_strlit("a_enable");
    reveal_strlit("b_enable");
    reveal_strlit("mono_enable");
    reveal_strlit("mute_enable");
    reveal_strlit("optical_expander_patch");
    reveal_strlit("talkback_latch");
    reveal_strlit("talkback_enable");
    reveal_strlit("talkback_level");
    reveal_strlit("talkback_dim");
    reveal_strlit("talkback_source");
    reveal_strlit("talkback_destination");
    reveal_strlit("footswitch_enabled");
    reveal_strlit("footswitch_down_key");
    reveal_strlit("footswitch_up_key");
    reveal_strlit("mix_input_stereo");
    reveal_strlit("mix_output_stereo");
    reveal_strlit("input_eq_mode");
    reveal_strlit("input_eq_bypass");
    reveal_strlit("input_eq_freq");
    reveal_strlit("input_eq_gain");
    reveal_strlit("input_eq_bw");
    reveal_strlit("gate_bypass");
    reveal_strlit("gate_threshold");
    reveal_strlit("gate_attack");
    reveal_strlit("gate_release");
    reveal_strlit("comp_bypass");
    reveal_strlit("comp_threshold");
    reveal_strlit("comp_attack");
    reveal_strlit("comp_release");
    reveal_strlit("comp_ratio");
    reveal_strlit("comp_makeup");
    reveal_strlit("mix_fader");
    reveal_strlit("mix_pan");
    reveal_strlit("mix_solo");
    reveal_strlit("mix_mute");
    reveal_strlit("output_eq_mode");
    reveal_strlit("output_eq_bypass");
    reveal_strlit("output_eq_freq");
    reveal_strlit("output_eq_gain");
    reveal_strlit("output_eq_bw");
    reveal_strlit("reverb_decay");
    reveal_strlit("reverb_damping");
    reveal_strlit("reverb_predelay");
    reveal_strlit("reverb_width");
    reveal_strlit("reverb_preset");
    let t = property_table();
    assert forall|k: int| 0 <= k < t.len() implies name_code(#[trigger] t[k].name@) == name_codes()[k] by {
    }
}

/// No two properties share a name.
#[verifier::rlimit(100)]
pub proof fn lemma_names_distinct()
    ensures
        forall|i: int, j: int|
            0 <= i < j < property_table().len() ==> property_table()[i].name@
                != property_table()[j].name@,
{
    lemma_name_codes();
    let t = property_table();
    let c = name_codes();
    assert forall|i: int, j: int| 0 <= i < j < c.len() implies c[i] != c[j] by {
    }
    assert forall|i: int, j: int| 0 <= i < j < t.len() implies t[i].name@ != t[j].name@ by {
        assert(name_code(t[i].name@) == c[i]);
        assert(name_code(t[j].name@) == c[j]);
    }
}

/// In a list without repeated ids, searching an entry's id finds that entry.
pub proof fn lemma_find_id_exact(defs: Seq<PropertyDef>, k: int)
    requires
        0 <= k < defs.len(),
        forall|i: int, j: int| 0 <= i < j < defs.len() ==> defs[i].id != defs[j].id,
    ensures
        find_id_in(defs, defs[k].id) == Some(defs[k]),
    decreases k,
{
    if k > 0 {
        let rest = defs.drop_first();
        assert(defs[0].id != defs[k].id);
        assert(rest[k - 1] == defs[k]);
        assert forall|i: int, j: int| 0 <= i < j < rest.len() implies rest[i].id != rest[j].id by {
            assert(rest[i] == defs[i + 1] && rest[j] == defs[j + 1]);
        }
        lemma_find_id_exact(rest, k - 1);
    }
}

/// In a list without repeated names, searching an entry's name finds that
/// entry.
pub proof fn lemma_find_name_exact(defs: Seq<PropertyDef>, k: int)
    requires
        0 <= k < defs.len(),
        forall|i: int, j: int| 0 <= i < j < defs.len() ==> defs[i].name@ != defs[j].name@,
    ensures
        find_name_in(defs, defs[k].name@) == Some(defs[k]),
    decreases k,
{
    if k > 0 {
        let rest = defs.drop_first();
        assert(defs[0].name@ != defs[k].name@);
        assert(rest[k - 1] == defs[k]);
        assert forall|i: int, j: int| 0 <= i < j < rest.len() implies rest[i].name@
            != rest[j].name@ by {
            assert(rest[i] == defs[i + 1] && rest[j] == defs[j + 1]);
        }
        lemma_find_name_exact(rest, k - 1);
    }
}

/// Every property of the map is found by its id and by its name.
pub proof fn lemma_every_property_found(k: int)
    requires
        0 <= k < property_table().len(),
    ensures
        find_id_in(property_table(), property_table()[k].id) == Some(property_table()[k]),
        find_name_in(property_table(), property_table()[k].name@) == Some(property_table()[k]),
{
    lemma_ids_distinct();
    lemma_names_distinct();
    lemma_find_id_exact(property_table(), k);
    lemma_find_name_exact(property_table(), k);
}

/// Looking a property up by name and then by the id found gives the same
/// property.
pub proof fn lemma_name_and_id_agree(name: Seq<char>)
    ensures
        find_name_in(property_table(), name) matches Some(d) ==> find_id_in(property_table(), d.id)
            == Some(d),
{
    lemma_find_sound(property_table(), 0, name);
    if let Some(d) = find_name_in(property_table(), name) {
        let k = choose|k: int| 0 <= k < property_table().len() && property_table()[k] == d;
        lemma_every_property_found(k);
    }
}

} // verus!
