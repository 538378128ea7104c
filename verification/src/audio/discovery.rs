//! Finding the MOTU's ALSA nodes in the node listing of `pw-cli ls Node`.

use vstd::prelude::*;

use crate::text::{
    char_lines, chars_end_with, chars_of, chars_start_with, copy_range, ends_with, lines,
    starts_with, string_from_chars, text_lines, trim_text, trimmed,
};

verus! {

/// The node name that a listing line declares: the line, trimmed, must read
/// `node.name = "…"`.
pub open spec fn node_name(line: Seq<char>) -> Option<Seq<char>> {
    let t = trimmed(line);
    let key = "node.name = \""@;
    if starts_with(t, key) {
        let rest = t.skip(key.len() as int);
        if rest.len() > 0 && rest.last() == '"' {
            Some(rest.drop_last())
        } else {
            None
        }
    } else {
        None
    }
}

/// Whether `name` is the MOTU's pro-audio output node.
pub open spec fn is_output_node(name: Seq<char>) -> bool {
    starts_with(name, "alsa_output.usb-MOTU_UltraLite"@) && ends_with(name, "pro-output-0"@)
}

/// Whether `name` is the MOTU's pro-audio input node.
pub open spec fn is_input_node(name: Seq<char>) -> bool {
    starts_with(name, "alsa_input.usb-MOTU_UltraLite"@) && ends_with(name, "pro-input-0"@)
}

/// The last output node that the lines `ls` declare.
pub open spec fn last_output(ls: Seq<Seq<char>>) -> Option<Seq<char>>
    decreases ls.len(),
{
    if ls.len() == 0 {
        None
    } else if node_name(ls.last()) matches Some(n) && is_output_node(n) {
        node_name(ls.last())
    } else {
        last_output(ls.drop_last())
    }
}

/// The last input node that the lines `ls` declare.
pub open spec fn last_input(ls: Seq<Seq<char>>) -> Option<Seq<char>>
    decreases ls.len(),
{
    if ls.len() == 0 {
        None
    } else if node_name(ls.last()) matches Some(n) && !is_output_node(n) && is_input_node(n) {
        node_name(ls.last())
    } else {
        last_input(ls.drop_last())
    }
}

/// The output and input node names that a listing declares, when it
/// declares both.
pub open spec fn alsa_nodes(listing: Seq<char>) -> Option<(Seq<char>, Seq<char>)> {
    match (last_output(lines(listing)), last_input(lines(listing))) {
        (Some(o), Some(i)) => Some((o, i)),
        _ => None,
    }
}

/// Why no nodes were found.
pub open spec fn nodes_missing_message() -> Seq<char> {
    "MOTU ALSA nodes not visible in PipeWire. Device may still be initializing, or pro-audio profile not set. Check 'wpctl status'. Run 'motu-ctl diagnose' for details."@
}

/// The node name that `line` declares.
fn line_node_name(line: &Vec<char>) -> (r: Option<Vec<char>>)
    ensures
        match r {
            Some(v) => node_name(line@) == Some(v@),
            None => node_name(line@) is None,
        },
{
    let t = chars_of(trim_text(string_from_chars(line.as_slice()).as_str()).as_str());
    let key = chars_of("node.name = \"");
    if !chars_start_with(t.as_slice(), key.as_slice()) {
        return None;
    }
    let rest = copy_range(t.as_slice(), key.len(), t.len());
    assert(rest@ =~= t@.skip(key@.len() as int));
    let n = rest.len();
    if n > 0 && rest[n - 1] == '"' {
        let name = copy_range(rest.as_slice(), 0, n - 1);
        assert(name@ =~= rest@.drop_last());
        Some(name)
    } else {
        None
    }
}

/// The output and input node names that the listing of `pw-cli ls Node`
/// declares; the last of each wins. An error names what is missing when
/// either is not there.
pub fn parse_alsa_nodes(listing: &str) -> (r: Result<(String, String), String>)
    ensures
        match r {
            Ok((o, i)) => alsa_nodes(listing@) == Some((o@, i@)),
            Err(e) => alsa_nodes(listing@) is None && e@ == nodes_missing_message(),
        },
{
    let ls = text_lines(listing);
    let ghost all = char_lines(ls@);
    let out_prefix = chars_of("alsa_output.usb-MOTU_UltraLite");
    let out_suffix = chars_of("pro-output-0");
    let in_prefix = chars_of("alsa_input.usb-MOTU_UltraLite");
    let in_suffix = chars_of("pro-input-0");
    let mut output: Option<Vec<char>> = None;
    let mut input: Option<Vec<char>> = None;
    let mut i: usize = 0;
    while i < ls.len()
        invariant
            i <= ls@.len(),
            all == char_lines(ls@),
            out_prefix@ == "alsa_output.usb-MOTU_UltraLite"@,
            out_suffix@ == "pro-output-0"@,
            in_prefix@ == "alsa_input.usb-MOTU_UltraLite"@,
            in_suffix@ == "pro-input-0"@,
            match output {
                Some(v) => last_output(all.take(i as int)) == Some(v@),
                None => last_output(all.take(i as int)) is None,
            },
            match input {
                Some(v) => last_input(all.take(i as int)) == Some(v@),
                None => last_input(all.take(i as int)) is None,
            },
        decreases ls@.len() - i,
    {
        assert(all.take(i + 1).drop_last() =~= all.take(i as int));
        assert(all.take(i + 1).last() == ls@[i as int]@);
        if let Some(name) = line_node_name(&ls[i]) {
            if chars_start_with(name.as_slice(), out_prefix.as_slice()) && chars_end_with(
                name.as_slice(),
                out_suffix.as_slice(),
            ) {
                output = Some(name);
            } else if chars_start_with(name.as_slice(), in_prefix.as_slice()) && chars_end_with(
                name.as_slice(),
                in_suffix.as_slice(),
            ) {
                input = Some(name);
            }
        }
        i += 1;
    }
    assert(all.take(ls@.len() as int) =~= lines(listing@));
    match (output, input) {
        (Some(o), Some(inp)) => Ok((string_from_chars(o.as_slice()), string_from_chars(inp.as_slice()))),
        _ => Err(
            "MOTU ALSA nodes not visible in PipeWire. Device may still be initializing, or pro-audio profile not set. Check 'wpctl status'. Run 'motu-ctl diagnose' for details.".to_owned(),
        ),
    }
}

} // verus!
