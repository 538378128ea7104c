use motu_mk5::audio::discovery::parse_alsa_nodes;
use motu_mk5::audio::router::{input_loopback, inputs, output_loopback, outputs, DEFAULT_SAMPLE_RATE};

const MISSING: &str = "MOTU ALSA nodes not visible in PipeWire. Device may still be initializing, or pro-audio profile not set. Check 'wpctl status'. Run 'motu-ctl diagnose' for details.";

#[test]
fn finds_both_pro_audio_nodes() {
    let listing = "\tid 40, type PipeWire:Interface:Node/3\n\
                   \t\tnode.name = \"alsa_output.usb-MOTU_UltraLite-mk5_0001f2fff075-00.pro-output-0\"\n\
                   \tid 41, type PipeWire:Interface:Node/3\n\
                   \t\tnode.name = \"alsa_input.usb-MOTU_UltraLite-mk5_0001f2fff075-00.pro-input-0\"\r\n\
                   \t\tnode.name = \"alsa_output.pci-0000_00_1f.3.analog-stereo\"\n";
    assert_eq!(
        parse_alsa_nodes(listing),
        Ok((
            "alsa_output.usb-MOTU_UltraLite-mk5_0001f2fff075-00.pro-output-0".to_string(),
            "alsa_input.usb-MOTU_UltraLite-mk5_0001f2fff075-00.pro-input-0".to_string(),
        ))
    );
}

#[test]
fn last_declared_node_wins() {
    let listing = "node.name = \"alsa_output.usb-MOTU_UltraLite-mk5_A-00.pro-output-0\"\n\
                   node.name = \"alsa_input.usb-MOTU_UltraLite-mk5_A-00.pro-input-0\"\n\
                   node.name = \"alsa_output.usb-MOTU_UltraLite-mk5_B-00.pro-output-0\"\n";
    assert_eq!(
        parse_alsa_nodes(listing),
        Ok((
            "alsa_output.usb-MOTU_UltraLite-mk5_B-00.pro-output-0".to_string(),
            "alsa_input.usb-MOTU_UltraLite-mk5_A-00.pro-input-0".to_string(),
        ))
    );
}

#[test]
fn missing_input_node_is_an_error() {
    let listing = "node.name = \"alsa_output.usb-MOTU_UltraLite-mk5_A-00.pro-output-0\"\n\
                   node.name = \"alsa_input.usb-MOTU_UltraLite-mk5_A-00.analog-input\"\n\
                   node.name = alsa_input.usb-MOTU_UltraLite-mk5_A-00.pro-input-0\n";
    assert_eq!(parse_alsa_nodes(listing), Err(MISSING.to_string()));
    assert_eq!(parse_alsa_nodes(""), Err(MISSING.to_string()));
}

#[test]
fn router_tables() {
    let outs = outputs();
    let ins = inputs();
    assert_eq!(outs.len(), 7);
    assert_eq!(ins.len(), 5);
    assert_eq!(outs[0].name, "motu-main-12");
    assert_eq!(outs[6].description, "MOTU S/PDIF Out");
    assert_eq!(outs[5].channel_offset, 10);
    assert_eq!(ins[0].description, "MOTU Mic/Line 1/2");
    assert_eq!(ins[4].priority, 2001);
    assert_eq!(DEFAULT_SAMPLE_RATE, 48000);
}

#[test]
fn output_loopback_properties() {
    let outs = outputs();
    let props = output_loopback(&outs[1], "alsa_output.usb-MOTU_X-00.pro-output-0");
    assert_eq!(
        props.capture,
        "{ media.class=Audio/Sink node.name=motu-line-34 node.description=\"MOTU Line 3/4\" audio.position=[FL,FR] priority.session=2006 priority.driver=2006 }"
    );
    assert_eq!(
        props.playback,
        "{ node.name=motu-line-34.out stream.dont-remix=true audio.position=[AUX2,AUX3] target.object=alsa_output.usb-MOTU_X-00.pro-output-0 node.passive=true }"
    );
}

#[test]
fn input_loopback_properties() {
    let ins = inputs();
    let props = input_loopback(&ins[4], "alsa_input.usb-MOTU_X-00.pro-input-0");
    assert_eq!(
        props.capture,
        "{ node.name=motu-spdif-in.in stream.dont-remix=true audio.position=[AUX8,AUX9] target.object=alsa_input.usb-MOTU_X-00.pro-input-0 node.passive=true }"
    );
    assert_eq!(
        props.playback,
        "{ media.class=Audio/Source node.name=motu-spdif-in node.description=\"MOTU S/PDIF In\" audio.position=[FL,FR] priority.session=2001 priority.driver=2001 }"
    );
}

#[test]
fn every_pair_is_a_separate_device() {
    for table in [outputs(), inputs()] {
        for (i, a) in table.iter().enumerate() {
            for b in table.iter().skip(i + 1) {
                assert_ne!(a.name, b.name);
                assert!(a.channel_offset + 1 < b.channel_offset || b.channel_offset + 1 < a.channel_offset);
            }
        }
    }
}
