//! The virtual stereo devices that the audio router exposes, and the
//! `pw-loopback` properties that tie each to two channels of the MOTU's
//! pro-audio ALSA node.

use vstd::prelude::*;

use crate::text::{decimal, has_infix, infix_at, push_decimal, push_str, string_from_chars};

verus! {

/// Sample rate the router enforces until the device reports another.
pub const DEFAULT_SAMPLE_RATE: u32 = 48000;

/// One virtual stereo device: a PipeWire node that carries two adjacent
/// channels of the hardware.
#[derive(Debug, Clone, Copy)]
pub struct IoPair {
    pub name: &'static str,
    pub description: &'static str,
    pub channel_offset: u32,
    pub priority: u32,
}

/// The virtual output devices, in order.
pub open spec fn output_pairs() -> Seq<IoPair> {
    seq![
        IoPair { name: "motu-main-12", description: "MOTU Main 1/2", channel_offset: 0, priority: 2007 },
        IoPair { name: "motu-line-34", description: "MOTU Line 3/4", channel_offset: 2, priority: 2006 },
        IoPair { name: "motu-line-56", description: "MOTU Line 5/6", channel_offset: 4, priority: 2005 },
        IoPair { name: "motu-line-78", description: "MOTU Line 7/8", channel_offset: 6, priority: 2004 },
        IoPair { name: "motu-line-910", description: "MOTU Line 9/10", channel_offset: 8, priority: 2003 },
        IoPair { name: "motu-phones", description: "MOTU Phones", channel_offset: 10, priority: 2002 },
        IoPair { name: "motu-spdif-out", description: "MOTU S/PDIF Out", channel_offset: 12, priority: 2001 },
    ]
}

/// The virtual input devices, in order.
pub open spec fn input_pairs() -> Seq<IoPair> {
    seq![
        IoPair { name: "motu-mic-12", description: "MOTU Mic/Line 1/2", channel_offset: 0, priority: 2005 },
        IoPair { name: "motu-line-in-34", description: "MOTU Line In 3/4", channel_offset: 2, priority: 2004 },
        IoPair { name: "motu-line-in-56", description: "MOTU Line In 5/6", channel_offset: 4, priority: 2003 },
        IoPair { name: "motu-line-in-78", description: "MOTU Line In 7/8", channel_offset: 6, priority: 2002 },
        IoPair { name: "motu-spdif-in", description: "MOTU S/PDIF In", channel_offset: 8, priority: 2001 },
    ]
}

/// The virtual output devices.
pub fn outputs() -> (pairs: Vec<IoPair>)
    ensures
        pairs@ == output_pairs(),
{
    let pairs = vec![
        IoPair { name: "motu-main-12", description: "MOTU Main 1/2", channel_offset: 0, priority: 2007 },
        IoPair { name: "motu-line-34", description: "MOTU Line 3/4", channel_offset: 2, priority: 2006 },
        IoPair { name: "motu-line-56", description: "MOTU Line 5/6", channel_offset: 4, priority: 2005 },
        IoPair { name: "motu-line-78", description: "MOTU Line 7/8", channel_offset: 6, priority: 2004 },
        IoPair { name: "motu-line-910", description: "MOTU Line 9/10", channel_offset: 8, priority: 2003 },
        IoPair { name: "motu-phones", description: "MOTU Phones", channel_offset: 10, priority: 2002 },
        IoPair { name: "motu-spdif-out", description: "MOTU S/PDIF Out", channel_offset: 12, priority: 2001 },
    ];
    assert(pairs@ =~= output_pairs());
    pairs
}

/// The virtual input devices.
pub fn inputs() -> (pairs: Vec<IoPair>)
    ensures
        pairs@ == input_pairs(),
{
    let pairs = vec![
        IoPair { name: "motu-mic-12", description: "MOTU Mic/Line 1/2", channel_offset: 0, priority: 2005 },
        IoPair { name: "motu-line-in-34", description: "MOTU Line In 3/4", channel_offset: 2, priority: 2004 },
        IoPair { name: "motu-line-in-56", description: "MOTU Line In 5/6", channel_offset: 4, priority: 2003 },
        IoPair { name: "motu-line-in-78", description: "MOTU Line In 7/8", channel_offset: 6, priority: 2002 },
        IoPair { name: "motu-spdif-in", description: "MOTU S/PDIF In", channel_offset: 8, priority: 2001 },
    ];
    assert(pairs@ =~= input_pairs());
    pairs
}

/// The properties of the node that applications see: a stereo sink or
/// source named after the pair.
pub open spec fn device_props(media_class: Seq<char>, pair: IoPair) -> Seq<char> {
    "{ media.class="@ + media_class + " node.name="@ + pair.name@ + " node.description=\""@
        + pair.description@ + "\" audio.position=[FL,FR] priority.session="@ + decimal(
        pair.priority as nat,
    ) + " priority.driver="@ + decimal(pair.priority as nat) + " }"@
}

/// The properties of the passive stream that carries the pair's two
/// channels to or from the ALSA node.
pub open spec fn stream_props(pair: IoPair, suffix: Seq<char>, alsa_node: Seq<char>) -> Seq<char> {
    "{ node.name="@ + pair.name@ + suffix + " stream.dont-remix=true audio.position=[AUX"@
        + decimal(pair.channel_offset as nat) + ",AUX"@ + decimal((pair.channel_offset + 1) as nat)
        + "] target.object="@ + alsa_node + " node.passive=true }"@
}

/// The two property lists one `pw-loopback` process is started with.
pub struct LoopbackProps {
    pub capture: String,
    pub playback: String,
}

/// Appends the properties of the pair's application-facing node.
fn push_device_props(buf: &mut Vec<char>, media_class: &str, pair: &IoPair)
    ensures
        final(buf)@ == old(buf)@ + device_props(media_class@, *pair),
{
    push_str(buf, "{ media.class=");
    push_str(buf, media_class);
    push_str(buf, " node.name=");
    push_str(buf, pair.name);
    push_str(buf, " node.description=\"");
    push_str(buf, pair.description);
    push_str(buf, "\" audio.position=[FL,FR] priority.session=");
    push_decimal(buf, pair.priority as u64);
    push_str(buf, " priority.driver=");
    push_decimal(buf, pair.priority as u64);
    push_str(buf, " }");
    assert(final(buf)@ =~= old(buf)@ + device_props(media_class@, *pair));
}

/// Appends the properties of the pair's stream to or from the ALSA node.
fn push_stream_props(buf: &mut Vec<char>, pair: &IoPair, suffix: &str, alsa_node: &str)
    requires
        pair.channel_offset < u32::MAX,
    ensures
        final(buf)@ == old(buf)@ + stream_props(*pair, suffix@, alsa_node@),
{
    push_str(buf, "{ node.name=");
    push_str(buf, pair.name);
    push_str(buf, suffix);
    push_str(buf, " stream.dont-remix=true audio.position=[AUX");
    push_decimal(buf, pair.channel_offset as u64);
    push_str(buf, ",AUX");
    push_decimal(buf, (pair.channel_offset + 1) as u64);
    push_str(buf, "] target.object=");
    push_str(buf, alsa_node);
    push_str(buf, " node.passive=true }");
    assert(final(buf)@ =~= old(buf)@ + stream_props(*pair, suffix@, alsa_node@));
}

/// The `pw-loopback` properties for an output pair: a stereo sink whose
/// audio goes to the pair's channels of `alsa_output`.
pub fn output_loopback(pair: &IoPair, alsa_output: &str) -> (props: LoopbackProps)
    requires
        pair.channel_offset < u32::MAX,
    ensures
        props.capture@ == device_props("Audio/Sink"@, *pair),
        props.playback@ == stream_props(*pair, ".out"@, alsa_output@),
{
    let mut capture: Vec<char> = Vec::new();
    push_device_props(&mut capture, "Audio/Sink", pair);
    let mut playback: Vec<char> = Vec::new();
    push_stream_props(&mut playback, pair, ".out", alsa_output);
    assert(capture@ =~= device_props("Audio/Sink"@, *pair));
    assert(playback@ =~= stream_props(*pair, ".out"@, alsa_output@));
    LoopbackProps {
        capture: string_from_chars(capture.as_slice()),
        playback: string_from_chars(playback.as_slice()),
    }
}

/// The `pw-loopback` properties for an input pair: a stereo source fed
/// from the pair's channels of `alsa_input`.
pub fn input_loopback(pair: &IoPair, alsa_input: &str) -> (props: LoopbackProps)
    requires
        pair.channel_offset < u32::MAX,
    ensures
        props.capture@ == stream_props(*pair, ".in"@, alsa_input@),
        props.playback@ == device_props("Audio/Source"@, *pair),
{
    let mut capture: Vec<char> = Vec::new();
    push_stream_props(&mut capture, pair, ".in", alsa_input);
    let mut playback: Vec<char> = Vec::new();
    push_device_props(&mut playback, "Audio/Source", pair);
    assert(capture@ =~= stream_props(*pair, ".in"@, alsa_input@));
    assert(playback@ =~= device_props("Audio/Source"@, *pair));
    LoopbackProps {
        capture: string_from_chars(capture.as_slice()),
        playback: string_from_chars(playback.as_slice()),
    }
}

/// Whether two pairs are told apart: different node names and no channel
/// in common.
pub open spec fn pairs_apart(a: IoPair, b: IoPair) -> bool {
    a.name@ != b.name@ && (a.channel_offset + 1 < b.channel_offset || b.channel_offset + 1
        < a.channel_offset)
}

/// Every physical pair is a device of its own: the output pairs have
/// distinct node names and carry disjoint channel pairs, and so do the
/// input pairs.
pub proof fn lemma_pairs_apart()
    ensures
        forall|i: int, j: int|
            0 <= i < j < output_pairs().len() ==> pairs_apart(
                #[trigger] output_pairs()[i],
                #[trigger] output_pairs()[j],
            ),
        forall|i: int, j: int|
            0 <= i < j < input_pairs().len() ==> pairs_apart(
                #[trigger] input_pairs()[i],
                #[trigger] input_pairs()[j],
            ),
{
    let o = output_pairs();
    let n = input_pairs();
    reveal_strlit("motu-main-12");
    reveal_strlit("motu-line-34");
    reveal_strlit("motu-line-56");
    reveal_strlit("motu-line-78");
    reveal_strlit("motu-line-910");
    reveal_strlit("motu-phones");
    reveal_strlit("motu-spdif-out");
    reveal_strlit("motu-mic-12");
    reveal_strlit("motu-line-in-34");
    reveal_strlit("motu-line-in-56");
    reveal_strlit("motu-line-in-78");
    reveal_strlit("motu-spdif-in");
    // Each name is told apart by its length and its eleventh character.
    assert(o[0].name@.len() == 12 && o[0].name@[10] == '1');
    assert(o[1].name@.len() == 12 && o[1].name@[10] == '3');
    assert(o[2].name@.len() == 12 && o[2].name@[10] == '5');
    assert(o[3].name@.len() == 12 && o[3].name@[10] == '7');
    assert(o[4].name@.len() == 13);
    assert(o[5].name@.len() == 11);
    assert(o[6].name@.len() == 14);
    assert(n[0].name@.len() == 11);
    assert(n[1].name@.len() == 15 && n[1].name@[13] == '3');
    assert(n[2].name@.len() == 15 && n[2].name@[13] == '5');
    assert(n[3].name@.len() == 15 && n[3].name@[13] == '7');
    assert(n[4].name@.len() == 13);
    assert forall|i: int, j: int| 0 <= i < j < o.len() implies pairs_apart(
        #[trigger] o[i],
        #[trigger] o[j],
    ) by {
        assert(i == 0 || i == 1 || i == 2 || i == 3 || i == 4 || i == 5);
        assert(j == 1 || j == 2 || j == 3 || j == 4 || j == 5 || j == 6);
    }
    assert forall|i: int, j: int| 0 <= i < j < n.len() implies pairs_apart(
        #[trigger] n[i],
        #[trigger] n[j],
    ) by {
        assert(i == 0 || i == 1 || i == 2 || i == 3);
        assert(j == 1 || j == 2 || j == 3 || j == 4);
    }
}

/// Each virtual device carries the hardware channels of its place in the
/// table: the output pairs sit on channels 0/1, 2/3, ... 12/13 in order, the
/// input pairs on 0/1, 2/3, ... 8/9, and earlier pairs have the higher
/// session priority.
pub proof fn lemma_pairs_in_channel_order()
    ensures
        output_pairs().len() == 7,
        input_pairs().len() == 5,
        forall|i: int|
            0 <= i < output_pairs().len() ==> (#[trigger] output_pairs()[i]).channel_offset == 2 * i
                && output_pairs()[i].priority == 2007 - i,
        forall|i: int|
            0 <= i < input_pairs().len() ==> (#[trigger] input_pairs()[i]).channel_offset == 2 * i
                && input_pairs()[i].priority == 2005 - i,
{
    let o = output_pairs();
    let n = input_pairs();
    assert forall|i: int| 0 <= i < o.len() implies (#[trigger] o[i]).channel_offset == 2 * i
        && o[i].priority == 2007 - i by {
        assert(i == 0 || i == 1 || i == 2 || i == 3 || i == 4 || i == 5 || i == 6);
    }
    assert forall|i: int| 0 <= i < n.len() implies (#[trigger] n[i]).channel_offset == 2 * i
        && n[i].priority == 2005 - i by {
        assert(i == 0 || i == 1 || i == 2 || i == 3 || i == 4);
    }
}

/// The channels a stream carries, as its properties name them: the pair's
/// first channel, `,AUX`, the next channel, then the node it targets.
pub open spec fn channels_and_target(first: nat, alsa_node: Seq<char>) -> Seq<char> {
    decimal(first) + ",AUX"@ + decimal(first + 1) + "] target.object="@ + alsa_node
}

proof fn lemma_stream_names_channels(pair: IoPair, suffix: Seq<char>, alsa_node: Seq<char>)
    ensures
        has_infix(
            stream_props(pair, suffix, alsa_node),
            channels_and_target(pair.channel_offset as nat, alsa_node),
        ),
{
    let head = "{ node.name="@ + pair.name@ + suffix + " stream.dont-remix=true audio.position=[AUX"@;
    let mid = channels_and_target(pair.channel_offset as nat, alsa_node);
    let s = stream_props(pair, suffix, alsa_node);
    assert(s =~= head + mid + " node.passive=true }"@);
    assert(s.subrange(head.len() as int, head.len() + mid.len() as int) =~= mid);
    assert(infix_at(s, mid, head.len() as int));
}

/// Each virtual output plays to the hardware channels of its place in the
/// table, on the ALSA node it is given: the stream of output pair `i`
/// names channels `AUX(2i)` and `AUX(2i+1)` and targets `alsa_output`;
/// likewise each input pair `i` records from `AUX(2i)` and `AUX(2i+1)` of
/// `alsa_input`.
pub proof fn lemma_streams_use_their_channels(alsa_output: Seq<char>, alsa_input: Seq<char>)
    ensures
        forall|i: int|
            0 <= i < output_pairs().len() ==> has_infix(
                stream_props(#[trigger] output_pairs()[i], ".out"@, alsa_output),
                channels_and_target((2 * i) as nat, alsa_output),
            ),
        forall|i: int|
            0 <= i < input_pairs().len() ==> has_infix(
                stream_props(#[trigger] input_pairs()[i], ".in"@, alsa_input),
                channels_and_target((2 * i) as nat, alsa_input),
            ),
{
    lemma_pairs_in_channel_order();
    assert forall|i: int| 0 <= i < output_pairs().len() implies has_infix(
        stream_props(#[trigger] output_pairs()[i], ".out"@, alsa_output),
        channels_and_target((2 * i) as nat, alsa_output),
    ) by {
        lemma_stream_names_channels(output_pairs()[i], ".out"@, alsa_output);
    }
    assert forall|i: int| 0 <= i < input_pairs().len() implies has_infix(
        stream_props(#[trigger] input_pairs()[i], ".in"@, alsa_input),
        channels_and_target((2 * i) as nat, alsa_input),
    ) by {
        lemma_stream_names_channels(input_pairs()[i], ".in"@, alsa_input);
    }
}

} // verus!
