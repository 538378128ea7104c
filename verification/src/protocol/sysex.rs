//! MOTU mk5 MIDI SysEx framing.
//!
//! A message is the header `F0 00 00 3B 00 01`, a request byte
//! (direction in bit 6, request id in bits 0..5), the payload in 7-bit MIDI
//! SysEx encoding, and the end byte `F7`.
//!
//! The 7-bit encoding cuts the payload into groups of up to seven bytes. Each
//! group is sent as one byte holding the groups' top bits (bit `j` is the top
//! bit of byte `j`) followed by the group's bytes with their top bit cleared.

use vstd::prelude::*;

use super::types::{be16, be16_value, u16_be_bytes, u16_from_be};

verus! {

/// Last byte of every SysEx message.
pub const SYSEX_END: u8 = 0xF7;

/// Direction value of a message sent by the host.
pub const DIRECTION_HOST_TO_DEVICE: u8 = 0;

const DIRECTION_BIT: u8 = 6;

const DIRECTION_MASK: u8 = 0x40;

const REQUEST_ID_MASK: u8 = 0x3F;

/// The six header bytes that open every MOTU SysEx message.
pub open spec fn motu_header() -> Seq<u8> {
    seq![0xF0u8, 0x00u8, 0x00u8, 0x3Bu8, 0x00u8, 0x01u8]
}

/// Requests of the SysEx protocol.
#[derive(Debug, Clone, Copy, PartialEq, Eq, Structural)]
pub enum RequestId {
    SetProperty,
    ProtocolProbe,
    EnableSysexApi,
}

/// The number that identifies a request on the wire.
pub open spec fn request_code(id: RequestId) -> u8 {
    match id {
        RequestId::SetProperty => 0,
        RequestId::ProtocolProbe => 1,
        RequestId::EnableSysexApi => 2,
    }
}

/// The request that a number identifies, if any.
pub open spec fn request_of_code(v: u8) -> Option<RequestId> {
    if v == 0 {
        Some(RequestId::SetProperty)
    } else if v == 1 {
        Some(RequestId::ProtocolProbe)
    } else if v == 2 {
        Some(RequestId::EnableSysexApi)
    } else {
        None
    }
}

/// The request byte: the direction in bit 6, the request id in bits 0..5.
pub open spec fn request_byte(direction: u8, id: RequestId) -> u8 {
    (direction << 6u8) | (request_code(id) & 0x3Fu8)
}

impl RequestId {
    fn as_u8(self) -> (v: u8)
        ensures
            v == request_code(self),
    {
        match self {
            RequestId::SetProperty => 0,
            RequestId::ProtocolProbe => 1,
            RequestId::EnableSysexApi => 2,
        }
    }

    fn from_u8(v: u8) -> (id: Option<Self>)
        ensures
            id == request_of_code(v),
    {
        match v {
            0 => Some(RequestId::SetProperty),
            1 => Some(RequestId::ProtocolProbe),
            2 => Some(RequestId::EnableSysexApi),
            _ => None,
        }
    }
}

/// The request byte for a direction and a request.
pub fn make_request_byte(direction: u8, id: RequestId) -> (b: u8)
    ensures
        b == request_byte(direction, id),
{
    (direction << DIRECTION_BIT) | (id.as_u8() & REQUEST_ID_MASK)
}

/// The byte that carries the top bits of a group's first `k` bytes:
/// bit `j` is the top bit of `chunk[j]`.
pub open spec fn msb_bits(chunk: Seq<u8>, k: nat) -> u8
    decreases k,
{
    if k == 0 {
        0u8
    } else {
        msb_bits(chunk, (k - 1) as nat) | ((chunk[k - 1] & 0x80u8) >> ((8 - k) as u8))
    }
}

/// A group's bytes with their top bit cleared.
pub open spec fn low_bits(chunk: Seq<u8>) -> Seq<u8> {
    chunk.map_values(|b: u8| b & 0x7Fu8)
}

/// Size of the next group of `len` remaining bytes.
pub open spec fn group_len(len: int) -> int {
    if len < 7 {
        len
    } else {
        7
    }
}

/// The 7-bit SysEx encoding of `data`.
pub open spec fn encode_7bit_spec(data: Seq<u8>) -> Seq<u8>
    decreases data.len(),
{
    if data.len() == 0 {
        seq![]
    } else {
        let n = group_len(data.len() as int);
        let chunk = data.take(n);
        seq![msb_bits(chunk, n as nat)] + low_bits(chunk) + encode_7bit_spec(data.skip(n))
    }
}

/// Byte `j` of a decoded group: bit `j` of the group's top-bit byte `msb`
/// moved to bit 7, or-ed with the received byte `b`.
pub open spec fn restore_byte(msb: u8, j: int, b: u8) -> u8 {
    ((msb << ((7 - j) as u8)) & 0x80u8) | b
}

/// Decoding of 7-bit SysEx data: each group is a top-bit byte and up to seven
/// following bytes.
pub open spec fn decode_7bit_spec(data: Seq<u8>) -> Seq<u8>
    decreases data.len(),
{
    if data.len() == 0 {
        seq![]
    } else {
        let n = group_len(data.len() - 1);
        Seq::new(n as nat, |j: int| restore_byte(data[0], j, data[1 + j])) + decode_7bit_spec(
            data.skip(1 + n),
        )
    }
}

proof fn lemma_msb_step(p: u8, c: u8, m: u8)
    requires
        m < 7,
        p >> m == 0,
    ensures
        ({
            let q = p | ((c & 0x80u8) >> (7u8 - m) as u8);
            &&& q >> ((m + 1) as u8) == 0
            &&& (q << (7u8 - m) as u8) & 0x80u8 == c & 0x80u8
            &&& forall|j: u8|
                j < m ==> #[trigger] ((q << (7u8 - j) as u8) & 0x80u8) == (p << (7u8 - j) as u8)
                    & 0x80u8
        }),
{
    let q = p | ((c & 0x80u8) >> (7u8 - m) as u8);
    assert(q >> ((m + 1) as u8) == 0) by (bit_vector)
        requires
            m < 7,
            p >> m == 0,
            q == p | ((c & 0x80u8) >> (7u8 - m) as u8),
    ;
    assert((q << (7u8 - m) as u8) & 0x80u8 == c & 0x80u8) by (bit_vector)
        requires
            m < 7,
            p >> m == 0,
            q == p | ((c & 0x80u8) >> (7u8 - m) as u8),
    ;
    assert forall|j: u8| j < m implies #[trigger] ((q << (7u8 - j) as u8) & 0x80u8) == (p << (7u8
        - j) as u8) & 0x80u8 by {
        assert((q << (7u8 - j) as u8) & 0x80u8 == (p << (7u8 - j) as u8) & 0x80u8) by (bit_vector)
            requires
                j < m,
                m < 7,
                q == p | ((c & 0x80u8) >> (7u8 - m) as u8),
        ;
    }
}

/// The top-bit byte of the first `k` bytes of a group keeps bit `j` for byte
/// `j` and nothing above bit `k`.
proof fn lemma_msb_bits(chunk: Seq<u8>, k: nat)
    requires
        k <= 7,
        k <= chunk.len(),
    ensures
        msb_bits(chunk, k) >> (k as u8) == 0,
        forall|j: int|
            0 <= j < k ==> #[trigger] ((msb_bits(chunk, k) << ((7 - j) as u8)) & 0x80u8) == chunk[j]
                & 0x80u8,
    decreases k,
{
    if k == 0 {
        assert(0u8 >> 0u8 == 0) by (bit_vector);
    } else {
        let m = (k - 1) as nat;
        lemma_msb_bits(chunk, m);
        let p = msb_bits(chunk, m);
        let c = chunk[m as int];
        lemma_msb_step(p, c, m as u8);
        assert(msb_bits(chunk, k) == p | ((c & 0x80u8) >> (7u8 - (m as u8)) as u8));
        assert forall|j: int| 0 <= j < k implies #[trigger] ((msb_bits(chunk, k) << ((7 - j) as u8))
            & 0x80u8) == chunk[j] & 0x80u8 by {
            if j < m {
                assert(((7 - j) as u8) == (7u8 - (j as u8)) as u8);
                assert(((msb_bits(chunk, k) << (7u8 - (j as u8)) as u8) & 0x80u8) == (p << (7u8 - (
                j as u8)) as u8) & 0x80u8);
            }
        }
    }
}

proof fn lemma_restore_byte(m: u8, j: int, c: u8)
    requires
        0 <= j < 7,
        (m << ((7 - j) as u8)) & 0x80u8 == c & 0x80u8,
    ensures
        restore_byte(m, j, c & 0x7Fu8) == c,
{
    let s = (7 - j) as u8;
    assert(((m << s) & 0x80u8) | (c & 0x7Fu8) == c) by (bit_vector)
        requires
            (m << s) & 0x80u8 == c & 0x80u8,
    ;
}

/// Decoding undoes encoding: `decode_7bit(encode_7bit(d)) == d` for all `d`.
pub proof fn lemma_decode_encode_7bit(data: Seq<u8>)
    ensures
        decode_7bit_spec(encode_7bit_spec(data)) == data,
    decreases data.len(),
{
    if data.len() > 0 {
        let n = group_len(data.len() as int);
        let chunk = data.take(n);
        let rest = data.skip(n);
        let m = msb_bits(chunk, n as nat);
        let e = encode_7bit_spec(data);
        let tail = encode_7bit_spec(rest);
        assert(e == seq![m] + low_bits(chunk) + tail);
        if n < 7 {
            assert(rest.len() == 0);
            assert(tail == Seq::<u8>::empty());
        }
        assert(group_len(e.len() - 1) == n);
        lemma_msb_bits(chunk, n as nat);
        let first = Seq::new(n as nat, |j: int| restore_byte(e[0], j, e[1 + j]));
        assert forall|j: int| 0 <= j < n implies first[j] == chunk[j] by {
            assert(e[1 + j] == chunk[j] & 0x7Fu8);
            lemma_restore_byte(m, j, chunk[j]);
        }
        assert(first =~= chunk);
        assert(e.skip(1 + n) =~= tail);
        lemma_decode_encode_7bit(rest);
        assert(chunk + rest =~= data);
    }
}

/// Every byte of the 7-bit encoding has its top bit clear, so an encoded
/// payload never holds the SysEx end byte.
pub proof fn lemma_encode_7bit_is_7bit(data: Seq<u8>)
    ensures
        forall|k: int|
            0 <= k < encode_7bit_spec(data).len() ==> #[trigger] encode_7bit_spec(data)[k] < 0x80,
    decreases data.len(),
{
    if data.len() > 0 {
        let n = group_len(data.len() as int);
        let chunk = data.take(n);
        let m = msb_bits(chunk, n as nat);
        lemma_msb_bits(chunk, n as nat);
        let nn = n as u8;
        assert(m < 0x80) by (bit_vector)
            requires
                m >> nn == 0,
                nn <= 7,
        ;
        assert forall|k: int| 0 <= k < chunk.len() implies #[trigger] low_bits(chunk)[k] < 0x80 by {
            let c = chunk[k];
            assert(c & 0x7Fu8 < 0x80) by (bit_vector);
        }
        lemma_encode_7bit_is_7bit(data.skip(n));
        let e = encode_7bit_spec(data);
        assert forall|k: int| 0 <= k < e.len() implies #[trigger] e[k] < 0x80 by {
            if k == 0 {
            } else if k < 1 + n {
                assert(e[k] == low_bits(chunk)[k - 1]);
            } else {
                assert(e[k] == encode_7bit_spec(data.skip(n))[k - 1 - n]);
            }
        }
    }
}

/// The encoding adds one top-bit byte per group of seven.
pub proof fn lemma_encode_7bit_len(data: Seq<u8>)
    ensures
        encode_7bit_spec(data).len() == data.len() + (data.len() + 6) / 7,
    decreases data.len(),
{
    if data.len() > 0 {
        let n = group_len(data.len() as int);
        lemma_encode_7bit_len(data.skip(n));
    }
}

/// Encodes raw bytes into 7-bit MIDI SysEx encoding: every group of up to
/// seven data bytes is led by a byte holding their top bits.
pub fn encode_7bit(data: &[u8]) -> (out: Vec<u8>)
    ensures
        out@ == encode_7bit_spec(data@),
{
    let mut out: Vec<u8> = Vec::new();
    let mut i: usize = 0;
    let _n = data.len();
    assert(data@.skip(0) =~= data@);
    while i < data.len()
        invariant
            i <= data@.len(),
            data@.len() <= usize::MAX,
            encode_7bit_spec(data@) == out@ + encode_7bit_spec(data@.skip(i as int)),
        decreases data@.len() - i,
    {
        let chunk_len: usize = if data.len() - i < 7 {
            data.len() - i
        } else {
            7
        };
        let ghost rest = data@.skip(i as int);
        let ghost chunk = rest.take(chunk_len as int);
        let mut msb_byte: u8 = 0;
        let mut j: usize = 0;
        while j < chunk_len
            invariant
                j <= chunk_len,
                chunk_len <= 7,
                i + chunk_len <= data@.len(),
                data@.len() <= usize::MAX,
                chunk == data@.skip(i as int).take(chunk_len as int),
                msb_byte == msb_bits(chunk, j as nat),
            decreases chunk_len - j,
        {
            assert(chunk[j as int] == data@[i + j]);
            let shift: u8 = 7u8 - (j as u8);
            msb_byte = msb_byte | ((data[i + j] & 0x80u8) >> shift);
            j += 1;
        }
        let ghost before = out@;
        out.push(msb_byte);
        let mut j: usize = 0;
        while j < chunk_len
            invariant
                j <= chunk_len,
                chunk_len <= 7,
                i + chunk_len <= data@.len(),
                data@.len() <= usize::MAX,
                chunk == data@.skip(i as int).take(chunk_len as int),
                out@ == before + seq![msb_byte] + low_bits(chunk).take(j as int),
            decreases chunk_len - j,
        {
            assert(chunk[j as int] == data@[i + j]);
            out.push(data[i + j] & 0x7Fu8);
            j += 1;
            assert(low_bits(chunk).take(j as int) =~= low_bits(chunk).take(j - 1).push(
                chunk[j - 1] & 0x7Fu8,
            ));
        }
        assert(low_bits(chunk).take(chunk_len as int) =~= low_bits(chunk));
        assert(rest.skip(chunk_len as int) =~= data@.skip(i + chunk_len));
        i += chunk_len;
    }
    assert(data@.skip(data@.len() as int) =~= Seq::<u8>::empty());
    assert(out@ =~= out@ + Seq::<u8>::empty());
    out
}

/// Decodes 7-bit MIDI SysEx encoding back to raw bytes.
pub fn decode_7bit(data: &[u8]) -> (out: Vec<u8>)
    ensures
        out@ == decode_7bit_spec(data@),
{
    let mut out: Vec<u8> = Vec::new();
    let mut i: usize = 0;
    let _n = data.len();
    assert(data@.skip(0) =~= data@);
    while i < data.len()
        invariant
            i <= data@.len(),
            data@.len() <= usize::MAX,
            decode_7bit_spec(data@) == out@ + decode_7bit_spec(data@.skip(i as int)),
        decreases data@.len() - i,
    {
        let ghost rest = data@.skip(i as int);
        let ghost n = group_len(rest.len() - 1);
        let ghost group = Seq::new(n as nat, |j: int| restore_byte(rest[0], j, rest[1 + j]));
        let ghost before = out@;
        let ghost start = i + 1;
        let msb_byte = data[i];
        i += 1;
        let mut shift: u8 = 7;
        while i < data.len() && shift > 0
            invariant
                1 <= start <= i <= data@.len(),
                shift <= 7,
                i - start == 7 - shift,
                rest == data@.skip(start - 1),
                rest.len() == data@.len() - (start - 1),
                rest.len() >= 1,
                data@.len() <= usize::MAX,
                msb_byte == rest[0],
                n == group_len(rest.len() - 1),
                group == Seq::new(n as nat, |j: int| restore_byte(rest[0], j, rest[1 + j])),
                out@ == before + group.take(i - start),
            decreases data@.len() - i,
        {
            let msb: u8 = (msb_byte << shift) & 0x80u8;
            assert(rest[1 + (i - start)] == data@[i as int]);
            out.push(msb | data[i]);
            i += 1;
            shift -= 1;
            assert(group.take(i - start) =~= group.take(i - start - 1).push(
                group[i - start - 1],
            ));
        }
        assert(i - start == n);
        assert(group.take(n) =~= group);
        assert(rest.skip(1 + n) =~= data@.skip(i as int));
    }
    assert(data@.skip(data@.len() as int) =~= Seq::<u8>::empty());
    assert(out@ =~= out@ + Seq::<u8>::empty());
    out
}

/// A complete message: header, request byte, encoded payload, end byte.
pub open spec fn message_frame(request: u8, body: Seq<u8>) -> Seq<u8> {
    motu_header() + seq![request] + body + seq![0xF7u8]
}

fn push_header(msg: &mut Vec<u8>)
    ensures
        final(msg)@ == old(msg)@ + motu_header(),
{
    msg.push(0xF0u8);
    msg.push(0x00u8);
    msg.push(0x00u8);
    msg.push(0x3Bu8);
    msg.push(0x00u8);
    msg.push(0x01u8);
}

/// Builds a complete SysEx message for sending to the device.
pub fn build_message(request: RequestId, payload: &[u8]) -> (msg: Vec<u8>)
    ensures
        msg@ == message_frame(
            request_byte(DIRECTION_HOST_TO_DEVICE, request),
            encode_7bit_spec(payload@),
        ),
{
    let encoded = encode_7bit(payload);
    let mut msg: Vec<u8> = Vec::new();
    push_header(&mut msg);
    msg.push(make_request_byte(DIRECTION_HOST_TO_DEVICE, request));
    let mut k: usize = 0;
    let ghost before = msg@;
    while k < encoded.len()
        invariant
            k <= encoded@.len(),
            msg@ == before + encoded@.take(k as int),
        decreases encoded@.len() - k,
    {
        msg.push(encoded[k]);
        k += 1;
        assert(encoded@.take(k as int) =~= encoded@.take(k - 1).push(encoded@[k - 1]));
    }
    assert(encoded@.take(encoded@.len() as int) =~= encoded@);
    msg.push(SYSEX_END);
    assert(msg@ =~= message_frame(
        request_byte(DIRECTION_HOST_TO_DEVICE, request),
        encode_7bit_spec(payload@),
    ));
    msg
}

/// Builds a protocol probe message (no payload).
pub fn build_probe() -> (msg: Vec<u8>)
    ensures
        msg@ == message_frame(
            request_byte(DIRECTION_HOST_TO_DEVICE, RequestId::ProtocolProbe),
            seq![],
        ),
{
    let mut msg: Vec<u8> = Vec::new();
    push_header(&mut msg);
    msg.push(make_request_byte(DIRECTION_HOST_TO_DEVICE, RequestId::ProtocolProbe));
    msg.push(SYSEX_END);
    assert(msg@ =~= message_frame(
        request_byte(DIRECTION_HOST_TO_DEVICE, RequestId::ProtocolProbe),
        seq![],
    ));
    msg
}

/// Builds an enable-SysEx-API message (no payload).
pub fn build_enable_api() -> (msg: Vec<u8>)
    ensures
        msg@ == message_frame(
            request_byte(DIRECTION_HOST_TO_DEVICE, RequestId::EnableSysexApi),
            seq![],
        ),
{
    let mut msg: Vec<u8> = Vec::new();
    push_header(&mut msg);
    msg.push(make_request_byte(DIRECTION_HOST_TO_DEVICE, RequestId::EnableSysexApi));
    msg.push(SYSEX_END);
    assert(msg@ =~= message_frame(
        request_byte(DIRECTION_HOST_TO_DEVICE, RequestId::EnableSysexApi),
        seq![],
    ));
    msg
}

/// The host-to-device property payload: id, index and data length, each
/// big-endian, then the data. The length field holds the length modulo 2^16.
pub open spec fn set_property_payload(prop_id: u16, index: u16, data: Seq<u8>) -> Seq<u8> {
    be16(prop_id) + be16(index) + be16(data.len() as u16) + data
}

/// Builds a property set message.
pub fn build_set_property(prop_id: u16, index: u16, data: &[u8]) -> (msg: Vec<u8>)
    ensures
        msg@ == message_frame(
            request_byte(DIRECTION_HOST_TO_DEVICE, RequestId::SetProperty),
            encode_7bit_spec(set_property_payload(prop_id, index, data@)),
        ),
{
    let mut payload = u16_be_bytes(prop_id);
    let mut idx = u16_be_bytes(index);
    payload.append(&mut idx);
    let mut len = u16_be_bytes(#[verifier::truncate] (data.len() as u16));
    payload.append(&mut len);
    let mut k: usize = 0;
    let ghost before = payload@;
    while k < data.len()
        invariant
            k <= data@.len(),
            payload@ == before + data@.take(k as int),
        decreases data@.len() - k,
    {
        payload.push(data[k]);
        k += 1;
        assert(data@.take(k as int) =~= data@.take(k - 1).push(data@[k - 1]));
    }
    assert(data@.take(data@.len() as int) =~= data@);
    assert(payload@ =~= set_property_payload(prop_id, index, data@));
    build_message(RequestId::SetProperty, payload.as_slice())
}

/// A SysEx message as received.
#[derive(Debug, Clone)]
pub struct ParsedMessage {
    pub request_id: RequestId,
    pub direction: u8,
    pub payload: Vec<u8>,
}

/// A property update: id, array index and value bytes.
#[derive(Debug, Clone)]
pub struct PropertyMessage {
    pub prop_id: u16,
    pub index: u16,
    pub data: Vec<u8>,
}

/// What a received message says: request, direction and decoded payload;
/// `None` for anything shorter than 8 bytes, without the MOTU header or the
/// end byte, or with an unknown request id.
pub open spec fn parse_message_spec(raw: Seq<u8>) -> Option<(RequestId, u8, Seq<u8>)> {
    if raw.len() < 8 || raw.take(6) != motu_header() || raw[raw.len() - 1] != 0xF7 {
        None
    } else {
        match request_of_code(raw[6] & 0x3Fu8) {
            Some(id) => Some(
                (id, (raw[6] & 0x40u8) >> 6u8, decode_7bit_spec(raw.subrange(7, raw.len() - 1))),
            ),
            None => None,
        }
    }
}

/// The model of a parsed message.
pub open spec fn parsed_model(m: Option<ParsedMessage>) -> Option<(RequestId, u8, Seq<u8>)> {
    match m {
        Some(p) => Some((p.request_id, p.direction, p.payload@)),
        None => None,
    }
}

/// Parses an incoming SysEx message from the device.
pub fn parse_message(raw: &[u8]) -> (res: Option<ParsedMessage>)
    ensures
        parsed_model(res) == parse_message_spec(raw@),
{
    if raw.len() < 8 {
        return None;
    }
    if raw[0] != 0xF0u8 || raw[1] != 0x00u8 || raw[2] != 0x00u8 || raw[3] != 0x3Bu8 || raw[4]
        != 0x00u8 || raw[5] != 0x01u8 {
        assert(raw@.take(6) != motu_header()) by {
            if raw@.take(6) == motu_header() {
                assert(raw@.take(6)[0] == raw@[0]);
                assert(raw@.take(6)[1] == raw@[1]);
                assert(raw@.take(6)[2] == raw@[2]);
                assert(raw@.take(6)[3] == raw@[3]);
                assert(raw@.take(6)[4] == raw@[4]);
                assert(raw@.take(6)[5] == raw@[5]);
            }
        }
        return None;
    }
    assert(raw@.take(6) =~= motu_header());
    if raw[raw.len() - 1] != SYSEX_END {
        return None;
    }
    let request_byte = raw[6];
    let direction = (request_byte & DIRECTION_MASK) >> DIRECTION_BIT;
    let request_id = match RequestId::from_u8(request_byte & REQUEST_ID_MASK) {
        Some(id) => id,
        None => {
            return None;
        },
    };
    let encoded_payload = &raw[7..raw.len() - 1];
    let payload = if encoded_payload.len() == 0 {
        Vec::new()
    } else {
        decode_7bit(encoded_payload)
    };
    assert(encoded_payload@.len() == 0 ==> payload@ =~= decode_7bit_spec(encoded_payload@));
    Some(ParsedMessage { request_id, direction, payload })
}

/// What a device property payload says: id and index (big-endian) and the
/// data after them; `None` below four bytes.
pub open spec fn parse_property_spec(payload: Seq<u8>) -> Option<(u16, u16, Seq<u8>)> {
    if payload.len() < 4 {
        None
    } else {
        Some(
            (
                be16_value(payload[0], payload[1]),
                be16_value(payload[2], payload[3]),
                payload.skip(4),
            ),
        )
    }
}

/// The model of a parsed property payload.
pub open spec fn property_model(m: Option<PropertyMessage>) -> Option<(u16, u16, Seq<u8>)> {
    match m {
        Some(p) => Some((p.prop_id, p.index, p.data@)),
        None => None,
    }
}

/// Extracts property ID, index, and data from a device property payload.
pub fn parse_property(payload: &[u8]) -> (res: Option<PropertyMessage>)
    ensures
        property_model(res) == parse_property_spec(payload@),
{
    if payload.len() < 4 {
        return None;
    }
    let prop_id = u16_from_be(payload[0], payload[1]);
    let index = u16_from_be(payload[2], payload[3]);
    let mut data: Vec<u8> = Vec::new();
    let mut k: usize = 4;
    while k < payload.len()
        invariant
            4 <= k <= payload@.len(),
            data@ == payload@.subrange(4, k as int),
        decreases payload@.len() - k,
    {
        data.push(payload[k]);
        k += 1;
        assert(data@ =~= payload@.subrange(4, k as int));
    }
    assert(data@ =~= payload@.skip(4));
    Some(PropertyMessage { prop_id, index, data })
}

/// A message built by `build_message` parses back to its request, the
/// host-to-device direction and the payload it was built from.
pub proof fn lemma_parse_build_message(request: RequestId, payload: Seq<u8>)
    ensures
        parse_message_spec(
            message_frame(
                request_byte(DIRECTION_HOST_TO_DEVICE, request),
                encode_7bit_spec(payload),
            ),
        ) == Some((request, DIRECTION_HOST_TO_DEVICE, payload)),
{
    let body = encode_7bit_spec(payload);
    let b = request_byte(DIRECTION_HOST_TO_DEVICE, request);
    let raw = message_frame(b, body);
    assert(raw.take(6) =~= motu_header());
    assert(raw.subrange(7, raw.len() - 1) =~= body);
    let c = request_code(request);
    assert(c <= 2);
    assert(((0u8 << 6u8) | (c & 0x3Fu8)) & 0x3Fu8 == c) by (bit_vector)
        requires
            c <= 2,
    ;
    assert((((0u8 << 6u8) | (c & 0x3Fu8)) & 0x40u8) >> 6u8 == 0) by (bit_vector)
        requires
            c <= 2,
    ;
    lemma_decode_encode_7bit(payload);
}

/// A device property payload made of an id, an index and data reads back as
/// that id, index and data.
pub proof fn lemma_parse_property_roundtrip(prop_id: u16, index: u16, data: Seq<u8>)
    ensures
        parse_property_spec(be16(prop_id) + be16(index) + data) == Some((prop_id, index, data)),
{
    let a = be16(prop_id);
    let b = be16(index);
    let head = seq![a[0], a[1], b[0], b[1]];
    assert(a + b =~= head);
    let p = head + data;
    super::types::lemma_be16_roundtrip(prop_id);
    super::types::lemma_be16_roundtrip(index);
    assert(p[0] == a[0] && p[1] == a[1] && p[2] == b[0] && p[3] == b[1]);
    assert(p.skip(4) =~= data);
}

} // verus!
