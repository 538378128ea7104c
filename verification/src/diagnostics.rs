//! The diagnostic report: Markdown sections built from what the system
//! tools printed.
//!
//! The caller runs the tools (`lsusb`, `ip`, `pw-cli`, `wpctl`, `systemctl`,
//! `journalctl`, `pgrep`) and reads `/etc/os-release`; the functions here
//! only pick the relevant lines and lay the report out.

use vstd::prelude::*;

use crate::json::option_text;
use crate::text::{
    char_lines, chars_contain, chars_of, copy_range, decimal, has_infix, join, lines, lowercase_text,
    lowercased, matches_at, push_chars, push_decimal, push_joined, push_str, starts_with,
    string_from_chars, text_lines, trim_text, trimmed, first_starting, find_starting,
    drop_leading, drop_trailing, trim_char,
};

verus! {

/// Which lines of a tool's output a report section keeps.
#[derive(Clone, Copy, PartialEq, Eq, Structural)]
pub enum LineFilter {
    /// `lsusb` lines naming the MOTU vendor id or MOTU.
    Usb,
    /// `ip -br addr` lines with a link-local address or a CDC interface.
    Network,
    /// `pw-cli ls Node` lines naming MOTU, trimmed.
    PipeWireNodes,
    /// `wpctl status` lines naming MOTU, trimmed.
    WirePlumber,
}

/// Whether `filter` keeps the line `l`.
pub open spec fn line_kept(filter: LineFilter, l: Seq<char>) -> bool {
    match filter {
        LineFilter::Usb => has_infix(l, "07fd"@) || has_infix(lowercased(l), "motu"@),
        LineFilter::Network => has_infix(l, "169.254."@) || has_infix(lowercased(l), "enx"@),
        LineFilter::PipeWireNodes => has_infix(trimmed(l), "MOTU"@) || has_infix(
            trimmed(l),
            "motu"@,
        ),
        LineFilter::WirePlumber => has_infix(lowercased(l), "motu"@),
    }
}

/// How a kept line appears in the report.
pub open spec fn line_shown(filter: LineFilter, l: Seq<char>) -> Seq<char> {
    match filter {
        LineFilter::Usb | LineFilter::Network => l,
        LineFilter::PipeWireNodes | LineFilter::WirePlumber => trimmed(l),
    }
}

/// The lines of `ls` that `filter` keeps, in order, as they appear in the
/// report.
pub open spec fn picked(ls: Seq<Seq<char>>, filter: LineFilter) -> Seq<Seq<char>>
    decreases ls.len(),
{
    if ls.len() == 0 {
        Seq::empty()
    } else {
        let rest = picked(ls.drop_last(), filter);
        if line_kept(filter, ls.last()) {
            rest.push(line_shown(filter, ls.last()))
        } else {
            rest
        }
    }
}

/// The lines joined by newlines, or `none` when there are none.
pub open spec fn block_body(ls: Seq<Seq<char>>, none: Seq<char>) -> Seq<char> {
    if ls.len() == 0 {
        none
    } else {
        join(ls, "\n"@)
    }
}

/// A section whose body is a fenced code block.
pub open spec fn code_section(title: Seq<char>, body: Seq<char>) -> Seq<char> {
    title + "\n```\n"@ + body + "\n```"@
}

/// The section on the USB device, from the output of `lsusb`.
pub open spec fn usb_section(lsusb: Seq<char>) -> Seq<char> {
    code_section(
        "### USB Device"@,
        block_body(picked(lines(lsusb), LineFilter::Usb), "No MOTU USB device found (vendor 07fd)"@),
    )
}

/// The section on the network interface, from the output of `ip -br addr`.
pub open spec fn network_section(ip_addr: Seq<char>) -> Seq<char> {
    code_section(
        "### Network Interface"@,
        block_body(
            picked(lines(ip_addr), LineFilter::Network),
            "No CDC Ethernet / link-local interface found"@,
        ),
    )
}

/// The section on WirePlumber, from the output of `wpctl status`.
pub open spec fn wireplumber_section(wpctl: Seq<char>) -> Seq<char> {
    code_section(
        "### WirePlumber"@,
        block_body(picked(lines(wpctl), LineFilter::WirePlumber), "No MOTU entries in WirePlumber"@),
    )
}

/// The section on the daemon, from the output of `systemctl --user status`.
pub open spec fn daemon_section(status: Seq<char>) -> Seq<char> {
    code_section("### Daemon Status"@, status)
}

/// The section with the daemon's recent log lines.
pub open spec fn logs_section(logs: Seq<char>) -> Seq<char> {
    code_section("### Recent Logs (last 30 lines)"@, logs)
}

/// The section naming the package version.
pub open spec fn version_section(version: Seq<char>) -> Seq<char> {
    "### Package\n- Version: "@ + version
}

/// The line `l` as `filter` shows it, when `filter` keeps it.
fn keep_line(filter: LineFilter, l: &Vec<char>) -> (r: Option<Vec<char>>)
    ensures
        r is Some <==> line_kept(filter, l@),
        r matches Some(v) ==> v@ == line_shown(filter, l@),
{
    let text = string_from_chars(l.as_slice());
    match filter {
        LineFilter::Usb | LineFilter::Network => {
            let lower = chars_of(lowercase_text(text.as_str()).as_str());
            let (plain, folded) = match filter {
                LineFilter::Usb => (chars_of("07fd"), chars_of("motu")),
                _ => (chars_of("169.254."), chars_of("enx")),
            };
            if chars_contain(l.as_slice(), plain.as_slice()) || chars_contain(
                lower.as_slice(),
                folded.as_slice(),
            ) {
                let mut v: Vec<char> = Vec::new();
                push_chars(&mut v, l.as_slice());
                assert(v@ =~= l@);
                Some(v)
            } else {
                None
            }
        },
        LineFilter::PipeWireNodes => {
            let t = chars_of(trim_text(text.as_str()).as_str());
            let upper = chars_of("MOTU");
            let lower = chars_of("motu");
            if chars_contain(t.as_slice(), upper.as_slice()) || chars_contain(
                t.as_slice(),
                lower.as_slice(),
            ) {
                Some(t)
            } else {
                None
            }
        },
        LineFilter::WirePlumber => {
            let lower = chars_of(lowercase_text(text.as_str()).as_str());
            let needle = chars_of("motu");
            if chars_contain(lower.as_slice(), needle.as_slice()) {
                Some(chars_of(trim_text(text.as_str()).as_str()))
            } else {
                None
            }
        },
    }
}

/// The lines of `text` that `filter` keeps, as the report shows them.
fn pick_lines(text: &str, filter: LineFilter) -> (r: Vec<Vec<char>>)
    ensures
        char_lines(r@) == picked(lines(text@), filter),
{
    let ls = text_lines(text);
    let mut out: Vec<Vec<char>> = Vec::new();
    let mut i: usize = 0;
    assert(char_lines(ls@).take(0) =~= Seq::<Seq<char>>::empty());
    assert(char_lines(out@) =~= Seq::<Seq<char>>::empty());
    while i < ls.len()
        invariant
            i <= ls@.len(),
            char_lines(ls@) == lines(text@),
            char_lines(out@) == picked(char_lines(ls@).take(i as int), filter),
        decreases ls@.len() - i,
    {
        let ghost all = char_lines(ls@);
        let ghost before = char_lines(out@);
        assert(all.take(i + 1).drop_last() =~= all.take(i as int));
        assert(all.take(i + 1).last() == ls@[i as int]@);
        match keep_line(filter, &ls[i]) {
            Some(v) => {
                out.push(v);
                assert(char_lines(out@) =~= before.push(v@));
            },
            None => {
                assert(char_lines(out@) =~= before);
            },
        }
        i += 1;
    }
    assert(char_lines(ls@).take(ls@.len() as int) =~= char_lines(ls@));
    out
}

/// A section whose fenced body is the lines `ls`, or `none` when there are
/// none.
fn lines_section(title: &str, ls: &[Vec<char>], none: &str) -> (s: String)
    ensures
        s@ == code_section(title@, block_body(char_lines(ls@), none@)),
{
    let mut buf: Vec<char> = Vec::new();
    push_str(&mut buf, title);
    push_str(&mut buf, "\n```\n");
    if ls.len() == 0 {
        push_str(&mut buf, none);
    } else {
        push_joined(&mut buf, ls, "\n");
    }
    push_str(&mut buf, "\n```");
    assert(buf@ =~= code_section(title@, block_body(char_lines(ls@), none@)));
    string_from_chars(buf.as_slice())
}

/// A section whose fenced body is `body`.
fn text_section(title: &str, body: &str) -> (s: String)
    ensures
        s@ == code_section(title@, body@),
{
    let mut buf: Vec<char> = Vec::new();
    push_str(&mut buf, title);
    push_str(&mut buf, "\n```\n");
    push_str(&mut buf, body);
    push_str(&mut buf, "\n```");
    assert(buf@ =~= code_section(title@, body@));
    string_from_chars(buf.as_slice())
}

/// The section naming the package version.
pub fn section_version(version: &str) -> (s: String)
    ensures
        s@ == version_section(version@),
{
    let mut buf: Vec<char> = Vec::new();
    push_str(&mut buf, "### Package\n- Version: ");
    push_str(&mut buf, version);
    assert(buf@ =~= version_section(version@));
    string_from_chars(buf.as_slice())
}

/// The section on the USB device, from the output of `lsusb`.
pub fn section_usb(lsusb: &str) -> (s: String)
    ensures
        s@ == usb_section(lsusb@),
{
    let ls = pick_lines(lsusb, LineFilter::Usb);
    lines_section("### USB Device", ls.as_slice(), "No MOTU USB device found (vendor 07fd)")
}

/// The section on the network interface, from the output of `ip -br addr`.
pub fn section_network(ip_addr: &str) -> (s: String)
    ensures
        s@ == network_section(ip_addr@),
{
    let ls = pick_lines(ip_addr, LineFilter::Network);
    lines_section(
        "### Network Interface",
        ls.as_slice(),
        "No CDC Ethernet / link-local interface found",
    )
}

/// The section on WirePlumber, from the output of `wpctl status`.
pub fn section_wireplumber(wpctl: &str) -> (s: String)
    ensures
        s@ == wireplumber_section(wpctl@),
{
    let ls = pick_lines(wpctl, LineFilter::WirePlumber);
    lines_section("### WirePlumber", ls.as_slice(), "No MOTU entries in WirePlumber")
}

/// The section on the daemon, from the output of `systemctl --user status`.
pub fn section_daemon(status: &str) -> (s: String)
    ensures
        s@ == daemon_section(status@),
{
    text_section("### Daemon Status", status)
}

/// The section with the daemon's recent log lines.
pub fn section_logs(logs: &str) -> (s: String)
    ensures
        s@ == logs_section(logs@),
{
    text_section("### Recent Logs (last 30 lines)", logs)
}

/// The first of `ls` that contains `needle`.
pub open spec fn first_containing(ls: Seq<Seq<char>>, needle: Seq<char>) -> Option<Seq<char>>
    decreases ls.len(),
{
    if ls.len() == 0 {
        None
    } else if has_infix(ls[0], needle) {
        Some(ls[0])
    } else {
        first_containing(ls.drop_first(), needle)
    }
}

/// `s` with every leading copy of `p` removed, as `str::trim_start_matches`
/// does with a string pattern.
pub open spec fn strip_prefixes(s: Seq<char>, p: Seq<char>) -> Seq<char>
    decreases s.len(),
{
    if p.len() > 0 && starts_with(s, p) {
        strip_prefixes(s.skip(p.len() as int), p)
    } else {
        s
    }
}

/// The distribution's name: the `PRETTY_NAME=` line of `/etc/os-release`
/// without its key and quotes, or `unknown`.
pub open spec fn os_distro(os_release: Option<Seq<char>>) -> Seq<char> {
    match os_release {
        Some(text) => match first_starting(lines(text), "PRETTY_NAME="@) {
            Some(l) => drop_trailing(drop_leading(strip_prefixes(l, "PRETTY_NAME="@), '"'), '"'),
            None => "unknown"@,
        },
        None => "unknown"@,
    }
}

/// The section on the system.
pub open spec fn system_section(kernel: Seq<char>, arch: Seq<char>, os_release: Option<Seq<char>>) -> Seq<char> {
    "### System\n- Kernel: "@ + kernel + "\n- Distro: "@ + os_distro(os_release) + "\n- Arch: "@
        + arch
}

/// The PipeWire version line of `pw-cli info 0`, trimmed.
pub open spec fn pipewire_version(info: Seq<char>) -> Seq<char> {
    trimmed(
        match first_containing(lines(info), "version"@) {
            Some(l) => l,
            None => "version: unknown"@,
        },
    )
}

/// The section on PipeWire, from `pw-cli info 0` and `pw-cli ls Node`.
pub open spec fn pipewire_section(info: Seq<char>, nodes: Seq<char>) -> Seq<char> {
    "### PipeWire\n- "@ + pipewire_version(info) + "\n\n```\n"@ + block_body(
        picked(lines(nodes), LineFilter::PipeWireNodes),
        "No MOTU nodes found in PipeWire"@,
    ) + "\n```"@
}

/// The section on ALSA discovery: the two node names, or why they were not
/// found.
pub open spec fn alsa_section(nodes: Result<(String, String), String>) -> Seq<char> {
    match nodes {
        Ok((out, inp)) => "### ALSA Discovery\n- Output: `"@ + out@ + "`\n- Input: `"@ + inp@
            + "`"@,
        Err(e) => "### ALSA Discovery\n- Failed: "@ + e@,
    }
}

/// The section on the device connection: the device's address, or why no
/// connection was made.
pub open spec fn device_section(conn: Result<String, String>) -> Seq<char> {
    match conn {
        Ok(ip) => "### Device Connection\n- Discovery: OK\n- IP: "@ + ip@
            + "\n- WebSocket: connected"@,
        Err(e) => "### Device Connection\n- Failed: "@ + e@,
    }
}

/// How many loopback processes the `pgrep -a pw-loopback` output lists.
pub open spec fn loopback_count(procs: Seq<char>) -> nat {
    if procs.len() == 0 {
        0
    } else {
        lines(procs).len()
    }
}

/// The section on the audio router.
pub open spec fn router_section(procs: Seq<char>) -> Seq<char> {
    let n = loopback_count(procs);
    "### Audio Router\n- "@ + if n == 0 {
        "No pw-loopback processes running"@
    } else {
        decimal(n) + " pw-loopback processes running"@
    }
}

/// The report's first section.
pub open spec fn report_header(timestamp: Seq<char>) -> Seq<char> {
    "## motu-mk5 diagnostic report\nGenerated: "@ + timestamp + "\n"@
}

/// The report's last section.
pub open spec fn report_footer() -> Seq<char> {
    "---\n\nTo report an issue, copy this output and paste it into a new issue at:\nhttps://github.com/MarkWind85/motu-mk5-linux/issues/new/choose"@
}

/// What the report is made from: the output of each tool, already run.
pub struct ReportInputs {
    /// `date -Iseconds`.
    pub timestamp: String,
    /// The package version.
    pub version: String,
    /// `uname -r`.
    pub kernel: String,
    /// `uname -m`.
    pub arch: String,
    /// `/etc/os-release`, when it could be read.
    pub os_release: Option<String>,
    /// `lsusb`.
    pub lsusb: String,
    /// `ip -br addr`.
    pub ip_addr: String,
    /// `pw-cli info 0`.
    pub pw_info: String,
    /// `pw-cli ls Node`.
    pub pw_nodes: String,
    /// `wpctl status`.
    pub wpctl: String,
    /// The ALSA node names, or why they were not found.
    pub alsa_nodes: Result<(String, String), String>,
    /// The device's address, or why no connection was made.
    pub device: Result<String, String>,
    /// `pgrep -a pw-loopback`.
    pub loopback_procs: String,
    /// `systemctl --user status motu-mk5d.service`.
    pub daemon_status: String,
    /// `journalctl --user-unit motu-mk5d -n 30`.
    pub daemon_logs: String,
}

/// The report's sections, in order.
pub open spec fn report_sections(i: ReportInputs) -> Seq<Seq<char>> {
    seq![
        report_header(i.timestamp@),
        version_section(i.version@),
        system_section(i.kernel@, i.arch@, option_text(i.os_release)),
        usb_section(i.lsusb@),
        network_section(i.ip_addr@),
        pipewire_section(i.pw_info@, i.pw_nodes@),
        wireplumber_section(i.wpctl@),
        alsa_section(i.alsa_nodes),
        device_section(i.device),
        router_section(i.loopback_procs@),
        daemon_section(i.daemon_status@),
        logs_section(i.daemon_logs@),
        report_footer(),
    ]
}

/// The whole report: its sections separated by blank lines.
pub open spec fn report_text(i: ReportInputs) -> Seq<char> {
    join(report_sections(i), "\n\n"@)
}

/// The index of the first of `ls` that contains `needle`.
fn find_containing(ls: &Vec<Vec<char>>, needle: &[char]) -> (r: Option<usize>)
    ensures
        match r {
            Some(k) => k < ls@.len() && first_containing(char_lines(ls@), needle@) == Some(
                ls@[k as int]@,
            ),
            None => first_containing(char_lines(ls@), needle@) is None,
        },
{
    let ghost all = char_lines(ls@);
    let mut i: usize = 0;
    assert(all.skip(0) =~= all);
    while i < ls.len()
        invariant
            i <= ls@.len(),
            all == char_lines(ls@),
            first_containing(all, needle@) == first_containing(all.skip(i as int), needle@),
        decreases ls@.len() - i,
    {
        assert(all.skip(i as int)[0] == ls@[i as int]@);
        assert(all.skip(i as int).drop_first() =~= all.skip(i + 1));
        if chars_contain(ls[i].as_slice(), needle) {
            return Some(i);
        }
        i += 1;
    }
    assert(all.skip(i as int) =~= Seq::<Seq<char>>::empty());
    None
}

/// `s` with every leading copy of `p` removed.
fn strip_prefixes_chars(s: &[char], p: &[char]) -> (r: Vec<char>)
    ensures
        r@ == strip_prefixes(s@, p@),
{
    let mut start: usize = 0;
    assert(s@.skip(0) =~= s@);
    if p.len() > 0 {
        while p.len() <= s.len() - start && matches_at(s, p, start)
            invariant
                start <= s@.len(),
                p@.len() > 0,
                strip_prefixes(s@, p@) == strip_prefixes(s@.skip(start as int), p@),
            decreases s@.len() - start,
        {
            assert(s@.skip(start as int).take(p@.len() as int) =~= s@.subrange(
                start as int,
                start + p@.len(),
            ));
            assert(s@.skip(start as int).skip(p@.len() as int) =~= s@.skip(start + p@.len()));
            start += p.len();
        }
        if p.len() <= s.len() - start {
            assert(s@.skip(start as int).take(p@.len() as int) =~= s@.subrange(
                start as int,
                start + p@.len(),
            ));
        }
    }
    let r = copy_range(s, start, s.len());
    assert(r@ =~= s@.skip(start as int));
    r
}

/// The distribution's name from the text of `/etc/os-release`.
fn distro_name(os_release: Option<&str>) -> (d: Vec<char>)
    ensures
        d@ == os_distro(
            match os_release {
                Some(t) => Some(t@),
                None => None,
            },
        ),
{
    let key = chars_of("PRETTY_NAME=");
    match os_release {
        Some(text) => {
            let ls = text_lines(text);
            match find_starting(&ls, key.as_slice()) {
                Some(k) => {
                    let rest = strip_prefixes_chars(ls[k].as_slice(), key.as_slice());
                    trim_char(rest.as_slice(), '"')
                },
                None => chars_of("unknown"),
            }
        },
        None => chars_of("unknown"),
    }
}

/// The section on the system, from `uname -r`, `uname -m` and the text of
/// `/etc/os-release` when it could be read.
pub fn section_system(kernel: &str, arch: &str, os_release: Option<&str>) -> (s: String)
    ensures
        s@ == system_section(
            kernel@,
            arch@,
            match os_release {
                Some(t) => Some(t@),
                None => None,
            },
        ),
{
    let distro = distro_name(os_release);
    let mut buf: Vec<char> = Vec::new();
    push_str(&mut buf, "### System\n- Kernel: ");
    push_str(&mut buf, kernel);
    push_str(&mut buf, "\n- Distro: ");
    push_chars(&mut buf, distro.as_slice());
    push_str(&mut buf, "\n- Arch: ");
    push_str(&mut buf, arch);
    assert(buf@ =~= system_section(
        kernel@,
        arch@,
        match os_release {
            Some(t) => Some(t@),
            None => None,
        },
    ));
    string_from_chars(buf.as_slice())
}

/// The section on PipeWire, from `pw-cli info 0` and `pw-cli ls Node`.
pub fn section_pipewire(pw_info: &str, nodes: &str) -> (s: String)
    ensures
        s@ == pipewire_section(pw_info@, nodes@),
{
    let info_lines = text_lines(pw_info);
    let needle = chars_of("version");
    let line: String = match find_containing(&info_lines, needle.as_slice()) {
        Some(k) => string_from_chars(info_lines[k].as_slice()),
        None => "version: unknown".to_owned(),
    };
    let version = trim_text(line.as_str());
    let picked_nodes = pick_lines(nodes, LineFilter::PipeWireNodes);
    let mut buf: Vec<char> = Vec::new();
    push_str(&mut buf, "### PipeWire\n- ");
    push_str(&mut buf, version.as_str());
    push_str(&mut buf, "\n\n```\n");
    if picked_nodes.len() == 0 {
        push_str(&mut buf, "No MOTU nodes found in PipeWire");
    } else {
        push_joined(&mut buf, picked_nodes.as_slice(), "\n");
    }
    push_str(&mut buf, "\n```");
    assert(buf@ =~= pipewire_section(pw_info@, nodes@));
    string_from_chars(buf.as_slice())
}

/// The section on ALSA discovery, from the node names found or the reason
/// none were.
pub fn section_alsa_discovery(nodes: &Result<(String, String), String>) -> (s: String)
    ensures
        s@ == alsa_section(*nodes),
{
    let mut buf: Vec<char> = Vec::new();
    match nodes {
        Ok((out, inp)) => {
            push_str(&mut buf, "### ALSA Discovery\n- Output: `");
            push_str(&mut buf, out.as_str());
            push_str(&mut buf, "`\n- Input: `");
            push_str(&mut buf, inp.as_str());
            push_str(&mut buf, "`");
        },
        Err(e) => {
            push_str(&mut buf, "### ALSA Discovery\n- Failed: ");
            push_str(&mut buf, e.as_str());
        },
    }
    assert(buf@ =~= alsa_section(*nodes));
    string_from_chars(buf.as_slice())
}

/// The section on the device connection, from the device's address or the
/// reason no connection was made.
pub fn section_device_connection(conn: &Result<String, String>) -> (s: String)
    ensures
        s@ == device_section(*conn),
{
    let mut buf: Vec<char> = Vec::new();
    match conn {
        Ok(ip) => {
            push_str(&mut buf, "### Device Connection\n- Discovery: OK\n- IP: ");
            push_str(&mut buf, ip.as_str());
            push_str(&mut buf, "\n- WebSocket: connected");
        },
        Err(e) => {
            push_str(&mut buf, "### Device Connection\n- Failed: ");
            push_str(&mut buf, e.as_str());
        },
    }
    assert(buf@ =~= device_section(*conn));
    string_from_chars(buf.as_slice())
}

/// The section on the audio router, from `pgrep -a pw-loopback`.
pub fn section_audio_router(procs: &str) -> (s: String)
    ensures
        s@ == router_section(procs@),
{
    let count: usize = if procs.is_empty() {
        0
    } else {
        text_lines(procs).len()
    };
    let mut buf: Vec<char> = Vec::new();
    push_str(&mut buf, "### Audio Router\n- ");
    if count == 0 {
        push_str(&mut buf, "No pw-loopback processes running");
    } else {
        push_decimal(&mut buf, count as u64);
        push_str(&mut buf, " pw-loopback processes running");
    }
    assert(buf@ =~= router_section(procs@));
    string_from_chars(buf.as_slice())
}

/// The whole diagnostic report, from what the tools printed.
pub fn generate_report(inputs: &ReportInputs) -> (report: String)
    ensures
        report@ == report_text(*inputs),
{
    let os_release: Option<&str> = match &inputs.os_release {
        Some(t) => Some(t.as_str()),
        None => None,
    };
    let mut header: Vec<char> = Vec::new();
    push_str(&mut header, "## motu-mk5 diagnostic report\nGenerated: ");
    push_str(&mut header, inputs.timestamp.as_str());
    push_str(&mut header, "\n");
    let mut sections: Vec<Vec<char>> = Vec::new();
    sections.push(header);
    sections.push(chars_of(section_version(inputs.version.as_str()).as_str()));
    sections.push(
        chars_of(
            section_system(inputs.kernel.as_str(), inputs.arch.as_str(), os_release).as_str(),
        ),
    );
    sections.push(chars_of(section_usb(inputs.lsusb.as_str()).as_str()));
    sections.push(chars_of(section_network(inputs.ip_addr.as_str()).as_str()));
    sections.push(
        chars_of(section_pipewire(inputs.pw_info.as_str(), inputs.pw_nodes.as_str()).as_str()),
    );
    sections.push(chars_of(section_wireplumber(inputs.wpctl.as_str()).as_str()));
    sections.push(chars_of(section_alsa_discovery(&inputs.alsa_nodes).as_str()));
    sections.push(chars_of(section_device_connection(&inputs.device).as_str()));
    sections.push(chars_of(section_audio_router(inputs.loopback_procs.as_str()).as_str()));
    sections.push(chars_of(section_daemon(inputs.daemon_status.as_str()).as_str()));
    sections.push(chars_of(section_logs(inputs.daemon_logs.as_str()).as_str()));
    sections.push(
        chars_of(
            "---\n\nTo report an issue, copy this output and paste it into a new issue at:\nhttps://github.com/MarkWind85/motu-mk5-linux/issues/new/choose",
        ),
    );
    assert(header@ =~= report_header(inputs.timestamp@));
    assert(option_text(inputs.os_release) == match os_release {
        Some(t) => Some(t@),
        None => None,
    });
    assert(char_lines(sections@) =~= report_sections(*inputs));
    let mut buf: Vec<char> = Vec::new();
    push_joined(&mut buf, sections.as_slice(), "\n\n");
    assert(buf@ =~= report_text(*inputs));
    string_from_chars(buf.as_slice())
}

/// A line that a filter keeps appears in what the section lists, as the
/// filter shows it.
proof fn lemma_picked_contains(ls: Seq<Seq<char>>, filter: LineFilter, k: int)
    requires
        0 <= k < ls.len(),
        line_kept(filter, ls[k]),
    ensures
        picked(ls, filter).contains(line_shown(filter, ls[k])),
    decreases ls.len(),
{
    let rest = picked(ls.drop_last(), filter);
    if k == ls.len() - 1 {
        assert(picked(ls, filter) == rest.push(line_shown(filter, ls[k])));
        assert(picked(ls, filter)[rest.len() as int] == line_shown(filter, ls[k]));
    } else {
        assert(ls.drop_last()[k] == ls[k]);
        lemma_picked_contains(ls.drop_last(), filter, k);
        let j = choose|j: int| 0 <= j < rest.len() && rest[j] == line_shown(filter, ls[k]);
        if line_kept(filter, ls.last()) {
            assert(picked(ls, filter)[j] == rest[j]);
        }
    }
}

/// Everything a section lists is a line of the output that the filter
/// keeps, as the filter shows it.
proof fn lemma_picked_from(ls: Seq<Seq<char>>, filter: LineFilter, i: int)
    requires
        0 <= i < picked(ls, filter).len(),
    ensures
        exists|k: int|
            0 <= k < ls.len() && line_kept(filter, ls[k]) && picked(ls, filter)[i] == line_shown(
                filter,
                ls[k],
            ),
    decreases ls.len(),
{
    let rest = picked(ls.drop_last(), filter);
    if i < rest.len() {
        lemma_picked_from(ls.drop_last(), filter, i);
        let k = choose|k: int|
            0 <= k < ls.drop_last().len() && line_kept(filter, ls.drop_last()[k]) && rest[i]
                == line_shown(filter, ls.drop_last()[k]);
        assert(ls.drop_last()[k] == ls[k]);
        if line_kept(filter, ls.last()) {
            assert(picked(ls, filter)[i] == rest[i]);
        }
    } else {
        assert(ls[ls.len() - 1] == ls.last());
    }
}

/// Whether the trimmed line contains `MOTU` or `motu`.
pub open spec fn mentions_motu(l: Seq<char>) -> bool {
    has_infix(trimmed(l), "MOTU"@) || has_infix(trimmed(l), "motu"@)
}

/// The PipeWire section lists every node line that mentions MOTU: each
/// line of `pw-cli ls Node` whose trimmed text contains `MOTU` or `motu`
/// is listed, trimmed.
pub proof fn lemma_pipewire_lists_motu_nodes(nodes: Seq<char>)
    ensures
        forall|k: int|
            0 <= k < lines(nodes).len() && mentions_motu(#[trigger] lines(nodes)[k]) ==> picked(
                lines(nodes),
                LineFilter::PipeWireNodes,
            ).contains(trimmed(lines(nodes)[k])),
{
    let ls = lines(nodes);
    assert forall|k: int| 0 <= k < ls.len() && mentions_motu(#[trigger] ls[k]) implies picked(
        ls,
        LineFilter::PipeWireNodes,
    ).contains(trimmed(ls[k])) by {
        lemma_picked_contains(ls, LineFilter::PipeWireNodes, k);
    }
}

/// The PipeWire section lists only node lines that mention MOTU: its
/// `i`-th listed line is the trimmed text of a line of `pw-cli ls Node`
/// that contains `MOTU` or `motu`.
pub proof fn lemma_pipewire_lists_only_motu_nodes(nodes: Seq<char>, i: int)
    requires
        0 <= i < picked(lines(nodes), LineFilter::PipeWireNodes).len(),
    ensures
        exists|k: int|
            0 <= k < lines(nodes).len() && mentions_motu(#[trigger] lines(nodes)[k]) && picked(
                lines(nodes),
                LineFilter::PipeWireNodes,
            )[i] == trimmed(lines(nodes)[k]),
{
    let ls = lines(nodes);
    lemma_picked_from(ls, LineFilter::PipeWireNodes, i);
    let k = choose|k: int|
        0 <= k < ls.len() && line_kept(LineFilter::PipeWireNodes, ls[k]) && picked(
            ls,
            LineFilter::PipeWireNodes,
        )[i] == line_shown(LineFilter::PipeWireNodes, ls[k]);
    assert(mentions_motu(ls[k]));
}

/// The USB, network and WirePlumber sections list every line that names
/// what they look for: each `lsusb` line with the vendor id `07fd`, each
/// `ip` line with a link-local `169.254.` address, and each `wpctl` line
/// that names MOTU in any case (trimmed).
pub proof fn lemma_sections_list_matching_lines(lsusb: Seq<char>, ip_addr: Seq<char>, wpctl: Seq<char>)
    ensures
        forall|k: int|
            0 <= k < lines(lsusb).len() && has_infix(#[trigger] lines(lsusb)[k], "07fd"@) ==> picked(
                lines(lsusb),
                LineFilter::Usb,
            ).contains(lines(lsusb)[k]),
        forall|k: int|
            0 <= k < lines(ip_addr).len() && has_infix(#[trigger] lines(ip_addr)[k], "169.254."@)
                ==> picked(lines(ip_addr), LineFilter::Network).contains(lines(ip_addr)[k]),
        forall|k: int|
            0 <= k < lines(wpctl).len() && has_infix(lowercased(#[trigger] lines(wpctl)[k]), "motu"@)
                ==> picked(lines(wpctl), LineFilter::WirePlumber).contains(trimmed(lines(wpctl)[k])),
{
    let u = lines(lsusb);
    assert forall|k: int| 0 <= k < u.len() && has_infix(#[trigger] u[k], "07fd"@) implies picked(
        u,
        LineFilter::Usb,
    ).contains(u[k]) by {
        lemma_picked_contains(u, LineFilter::Usb, k);
    }
    let n = lines(ip_addr);
    assert forall|k: int| 0 <= k < n.len() && has_infix(#[trigger] n[k], "169.254."@) implies picked(
        n,
        LineFilter::Network,
    ).contains(n[k]) by {
        lemma_picked_contains(n, LineFilter::Network, k);
    }
    let w = lines(wpctl);
    assert forall|k: int| 0 <= k < w.len() && has_infix(lowercased(#[trigger] w[k]), "motu"@) implies picked(
        w,
        LineFilter::WirePlumber,
    ).contains(trimmed(w[k])) by {
        lemma_picked_contains(w, LineFilter::WirePlumber, k);
    }
}

} // verus!
