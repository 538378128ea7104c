use motu_mk5::diagnostics::{
    generate_report, section_alsa_discovery, section_audio_router, section_daemon,
    section_device_connection, section_logs, section_network, section_pipewire, section_system,
    section_usb, section_version, section_wireplumber, ReportInputs,
};

#[test]
fn version_section_names_the_version() {
    assert_eq!(section_version("0.5.1"), "### Package\n- Version: 0.5.1");
}

#[test]
fn usb_section_keeps_motu_lines() {
    let lsusb = "Bus 001 Device 002: ID 8087:0024 Intel Corp. Hub\n\
                 Bus 003 Device 005: ID 07fd:000c Mark of the Unicorn UltraLite-mk5\r\n\
                 Bus 001 Device 003: ID 1234:5678 Motu Clone\n";
    assert_eq!(
        section_usb(lsusb),
        "### USB Device\n```\n\
         Bus 003 Device 005: ID 07fd:000c Mark of the Unicorn UltraLite-mk5\n\
         Bus 001 Device 003: ID 1234:5678 Motu Clone\n```"
    );
}

#[test]
fn usb_section_without_device() {
    assert_eq!(
        section_usb("Bus 001 Device 002: ID 8087:0024 Intel Corp. Hub\n"),
        "### USB Device\n```\nNo MOTU USB device found (vendor 07fd)\n```"
    );
    assert_eq!(
        section_usb(""),
        "### USB Device\n```\nNo MOTU USB device found (vendor 07fd)\n```"
    );
}

#[test]
fn network_section_keeps_link_local_and_cdc_lines() {
    let ip = "lo UNKNOWN 127.0.0.1/8\n\
              enx0001f2fff075 UP 169.254.20.5/16\n\
              wlan0 UP 192.168.1.4/24\n\
              ENX12 DOWN";
    assert_eq!(
        section_network(ip),
        "### Network Interface\n```\nenx0001f2fff075 UP 169.254.20.5/16\nENX12 DOWN\n```"
    );
    assert_eq!(
        section_network("lo UNKNOWN 127.0.0.1/8"),
        "### Network Interface\n```\nNo CDC Ethernet / link-local interface found\n```"
    );
}

#[test]
fn pipewire_section_reports_version_and_motu_nodes() {
    let info = "  id: 0\n  version: \"1.0.5\"\n  name: \"pipewire-0\"\n";
    let nodes = "\tid 57, type PipeWire:Interface:Node/3\n\
                 \t\tnode.name = \"alsa_output.usb-MOTU_UltraLite-mk5-00.pro-output-0\"\n\
                 \t\tnode.description = \"UltraLite-mk5 Pro\"\n";
    assert_eq!(
        section_pipewire(info, nodes),
        "### PipeWire\n- version: \"1.0.5\"\n\n```\n\
         node.name = \"alsa_output.usb-MOTU_UltraLite-mk5-00.pro-output-0\"\n```"
    );
}

#[test]
fn pipewire_section_without_pipewire() {
    assert_eq!(
        section_pipewire("(not available: No such file or directory)", ""),
        "### PipeWire\n- version: unknown\n\n```\nNo MOTU nodes found in PipeWire\n```"
    );
}

#[test]
fn wireplumber_section_trims_motu_lines() {
    let wpctl = "Audio\n \u{251c}\u{2500} Sinks:\n  *   43. MOTU Main 1/2   [vol: 1.00]\n      44. Speakers\n";
    assert_eq!(
        section_wireplumber(wpctl),
        "### WirePlumber\n```\n*   43. MOTU Main 1/2   [vol: 1.00]\n```"
    );
    assert_eq!(
        section_wireplumber("Audio\n"),
        "### WirePlumber\n```\nNo MOTU entries in WirePlumber\n```"
    );
}

#[test]
fn system_section_reads_pretty_name() {
    let os = "NAME=\"Ubuntu\"\nPRETTY_NAME=\"Ubuntu 24.04.1 LTS\"\nID=ubuntu\n";
    assert_eq!(
        section_system("6.8.0-45-generic", "x86_64", Some(os)),
        "### System\n- Kernel: 6.8.0-45-generic\n- Distro: Ubuntu 24.04.1 LTS\n- Arch: x86_64"
    );
}

#[test]
fn system_section_unknown_distro() {
    assert_eq!(
        section_system("6.1", "aarch64", None),
        "### System\n- Kernel: 6.1\n- Distro: unknown\n- Arch: aarch64"
    );
    assert_eq!(
        section_system("6.1", "aarch64", Some("NAME=Debian\n")),
        "### System\n- Kernel: 6.1\n- Distro: unknown\n- Arch: aarch64"
    );
    assert_eq!(
        section_system("6.1", "aarch64", Some("PRETTY_NAME=PRETTY_NAME=\"\"Arch\"")),
        "### System\n- Kernel: 6.1\n- Distro: Arch\n- Arch: aarch64"
    );
}

#[test]
fn alsa_and_device_sections() {
    let found: Result<(String, String), String> = Ok(("out-node".to_string(), "in-node".to_string()));
    assert_eq!(
        section_alsa_discovery(&found),
        "### ALSA Discovery\n- Output: `out-node`\n- Input: `in-node`"
    );
    let failed: Result<(String, String), String> = Err("failed to run pw-cli".to_string());
    assert_eq!(
        section_alsa_discovery(&failed),
        "### ALSA Discovery\n- Failed: failed to run pw-cli"
    );
    let conn: Result<String, String> = Ok("169.254.1.2".to_string());
    assert_eq!(
        section_device_connection(&conn),
        "### Device Connection\n- Discovery: OK\n- IP: 169.254.1.2\n- WebSocket: connected"
    );
    let lost: Result<String, String> = Err("no device".to_string());
    assert_eq!(section_device_connection(&lost), "### Device Connection\n- Failed: no device");
}

#[test]
fn audio_router_section_counts_processes() {
    assert_eq!(section_audio_router(""), "### Audio Router\n- No pw-loopback processes running");
    assert_eq!(
        section_audio_router("123 pw-loopback --capture-props a\n124 pw-loopback --capture-props b\n"),
        "### Audio Router\n- 2 pw-loopback processes running"
    );
    let many: String = (0..12).map(|i| format!("{i} pw-loopback\n")).collect();
    assert_eq!(section_audio_router(&many), "### Audio Router\n- 12 pw-loopback processes running");
}

#[test]
fn daemon_and_log_sections_are_fenced() {
    assert_eq!(section_daemon("active (running)"), "### Daemon Status\n```\nactive (running)\n```");
    assert_eq!(
        section_logs("line 1\nline 2"),
        "### Recent Logs (last 30 lines)\n```\nline 1\nline 2\n```"
    );
}

#[test]
fn report_joins_sections_with_blank_lines() {
    let inputs = ReportInputs {
        timestamp: "2025-01-01T10:00:00+00:00".to_string(),
        version: "0.5.1".to_string(),
        kernel: "6.8.0".to_string(),
        arch: "x86_64".to_string(),
        os_release: Some("PRETTY_NAME=\"Fedora Linux 40\"\n".to_string()),
        lsusb: "Bus 003 Device 005: ID 07fd:000c MOTU\n".to_string(),
        ip_addr: "enx1 UP 169.254.3.3/16\n".to_string(),
        pw_info: "version: 1.2.0\n".to_string(),
        pw_nodes: String::new(),
        wpctl: String::new(),
        alsa_nodes: Err("not found".to_string()),
        device: Ok("169.254.3.4".to_string()),
        loopback_procs: String::new(),
        daemon_status: "inactive".to_string(),
        daemon_logs: "-- No entries --".to_string(),
    };
    let report = generate_report(&inputs);
    let expected = [
        "## motu-mk5 diagnostic report\nGenerated: 2025-01-01T10:00:00+00:00\n".to_string(),
        section_version("0.5.1"),
        section_system("6.8.0", "x86_64", Some("PRETTY_NAME=\"Fedora Linux 40\"\n")),
        section_usb("Bus 003 Device 005: ID 07fd:000c MOTU\n"),
        section_network("enx1 UP 169.254.3.3/16\n"),
        section_pipewire("version: 1.2.0\n", ""),
        section_wireplumber(""),
        section_alsa_discovery(&Err("not found".to_string())),
        section_device_connection(&Ok("169.254.3.4".to_string())),
        section_audio_router(""),
        section_daemon("inactive"),
        section_logs("-- No entries --"),
        "---\n\nTo report an issue, copy this output and paste it into a new issue at:\nhttps://github.com/MarkWind85/motu-mk5-linux/issues/new/choose".to_string(),
    ]
    .join("\n\n");
    assert_eq!(report, expected);
    assert!(report.starts_with("## motu-mk5 diagnostic report\nGenerated: 2025-01-01T10:00:00+00:00\n\n\n### Package\n- Version: 0.5.1\n\n### System\n- Kernel: 6.8.0\n- Distro: Fedora Linux 40\n- Arch: x86_64"));
}
