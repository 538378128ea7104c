//! The logic of the WebSocket link to the device: the property frames sent
//! and received, what each read result means, and which UDP discovery
//! announcement names the device.
//!
//! The socket work itself is done by the program around this library.

use vstd::prelude::*;
use vstd::utf8::*;

use crate::protocol::sysex::{parse_property, parse_property_spec};
use crate::protocol::types::{be16, u16_be_bytes};
use crate::json::{json_string_field, json_string_field_of, option_text};
use crate::text::{push_str, string_from_chars, utf8_to_string};

verus! {

/// Why the link to the device failed.
#[derive(Debug, Clone)]
pub enum ConnectionError {
    Disconnected(String),
    Protocol(String),
}

/// The text of a link failure, as shown to the user.
pub open spec fn connection_error_text(e: ConnectionError) -> Seq<char> {
    match e {
        ConnectionError::Disconnected(m) => "device disconnected: "@ + m@,
        ConnectionError::Protocol(m) => "protocol error: "@ + m@,
    }
}

impl ConnectionError {
    /// The text of the failure, as shown to the user.
    pub fn message(&self) -> (m: String)
        ensures
            m@ == connection_error_text(*self),
    {
        let mut buf: Vec<char> = Vec::new();
        match self {
            ConnectionError::Disconnected(m) => {
                push_str(&mut buf, "device disconnected: ");
                push_str(&mut buf, m.as_str());
            },
            ConnectionError::Protocol(m) => {
                push_str(&mut buf, "protocol error: ");
                push_str(&mut buf, m.as_str());
            },
        }
        assert(buf@ =~= connection_error_text(*self));
        string_from_chars(buf.as_slice())
    }
}

/// UDP port of the discovery announcements and of the WebSocket server.
pub const DISCOVERY_PORT: u16 = 1280;

/// The frame that carries one property write: id and index, big-endian,
/// then the value bytes.
pub open spec fn property_frame_spec(prop_id: u16, index: u16, data: Seq<u8>) -> Seq<u8> {
    be16(prop_id) + be16(index) + data
}

/// Builds the binary WebSocket frame that sets a property.
pub fn property_frame(prop_id: u16, index: u16, data: &[u8]) -> (frame: Vec<u8>)
    ensures
        frame@ == property_frame_spec(prop_id, index, data@),
{
    let mut frame = u16_be_bytes(prop_id);
    let mut idx = u16_be_bytes(index);
    frame.append(&mut idx);
    let ghost before = frame@;
    let mut k: usize = 0;
    while k < data.len()
        invariant
            k <= data@.len(),
            frame@ == before + data@.take(k as int),
        decreases data@.len() - k,
    {
        frame.push(data[k]);
        k += 1;
        assert(data@.take(k as int) =~= data@.take(k - 1).push(data@[k - 1]));
    }
    assert(data@.take(data@.len() as int) =~= data@);
    frame
}

/// The kind of an I/O error met while reading.
#[derive(Debug, Clone, Copy, PartialEq, Eq, Structural)]
pub enum IoKind {
    WouldBlock,
    TimedOut,
    Other,
}

/// The result of one read on the WebSocket, as plain values.
#[derive(Debug, Clone)]
pub enum ReadOutcome {
    /// A binary message.
    Binary(Vec<u8>),
    /// A ping, with its payload.
    Ping(Vec<u8>),
    /// Any other message.
    OtherMessage,
    /// The peer closed the connection.
    ConnectionClosed,
    /// The connection had been closed before.
    AlreadyClosed,
    /// An I/O error, with its kind and text.
    Io(IoKind, String),
    /// A WebSocket protocol error, with its text.
    Protocol(String),
    /// Any other error, with its text.
    OtherError(String),
}

/// What a read means for the caller.
#[derive(Debug, Clone)]
pub enum RecvAction {
    /// A property update: id, index and value bytes.
    Property(u16, u16, Vec<u8>),
    /// Answer with a pong carrying this payload; no update arrived.
    Pong(Vec<u8>),
    /// No update arrived.
    Nothing,
    /// The link failed.
    Error(ConnectionError),
}

/// What a read means: a binary message of at least four bytes is a property
/// update; a ping asks for a pong; a would-block or timed-out read means
/// no data; a closed connection or any other I/O error means the device is
/// gone; protocol and other errors are protocol errors.
pub open spec fn recv_action_ok(o: ReadOutcome, a: RecvAction) -> bool {
    match o {
        ReadOutcome::Binary(d) => if d@.len() >= 4 {
            a matches RecvAction::Property(id, index, data) && parse_property_spec(d@) == Some(
                (id, index, data@),
            )
        } else {
            a is Nothing
        },
        ReadOutcome::Ping(d) => a matches RecvAction::Pong(p) && p@ == d@,
        ReadOutcome::OtherMessage => a is Nothing,
        ReadOutcome::ConnectionClosed => a matches RecvAction::Error(
            ConnectionError::Disconnected(m),
        ) && m@ == "connection closed"@,
        ReadOutcome::AlreadyClosed => a matches RecvAction::Error(
            ConnectionError::Disconnected(m),
        ) && m@ == "already closed"@,
        ReadOutcome::Io(kind, text) => if kind == IoKind::WouldBlock || kind == IoKind::TimedOut {
            a is Nothing
        } else {
            a matches RecvAction::Error(ConnectionError::Disconnected(m)) && m@ == text@
        },
        ReadOutcome::Protocol(text) => a matches RecvAction::Error(ConnectionError::Protocol(m))
            && m@ == text@,
        ReadOutcome::OtherError(text) => a matches RecvAction::Error(ConnectionError::Protocol(m))
            && m@ == text@,
    }
}

/// Decides what a read from the device means.
pub fn classify_read(outcome: ReadOutcome) -> (action: RecvAction)
    ensures
        recv_action_ok(outcome, action),
{
    match outcome {
        ReadOutcome::Binary(data) => if data.len() >= 4 {
            match parse_property(data.as_slice()) {
                Some(m) => RecvAction::Property(m.prop_id, m.index, m.data),
                None => RecvAction::Nothing,
            }
        } else {
            RecvAction::Nothing
        },
        ReadOutcome::Ping(data) => RecvAction::Pong(data),
        ReadOutcome::OtherMessage => RecvAction::Nothing,
        ReadOutcome::ConnectionClosed => RecvAction::Error(
            ConnectionError::Disconnected(String::from_str("connection closed")),
        ),
        ReadOutcome::AlreadyClosed => RecvAction::Error(
            ConnectionError::Disconnected(String::from_str("already closed")),
        ),
        ReadOutcome::Io(kind, text) => match kind {
            IoKind::WouldBlock => RecvAction::Nothing,
            IoKind::TimedOut => RecvAction::Nothing,
            IoKind::Other => RecvAction::Error(ConnectionError::Disconnected(text)),
        },
        ReadOutcome::Protocol(text) => RecvAction::Error(ConnectionError::Protocol(text)),
        ReadOutcome::OtherError(text) => RecvAction::Error(ConnectionError::Protocol(text)),
    }
}

/// What a frame sent by `property_frame` reads as on the other end: the
/// same property id, index and value bytes.
pub proof fn lemma_frame_read_back(prop_id: u16, index: u16, data: Seq<u8>)
    ensures
        parse_property_spec(property_frame_spec(prop_id, index, data)) == Some(
            (prop_id, index, data),
        ),
        property_frame_spec(prop_id, index, data).len() >= 4,
{
    crate::protocol::sysex::lemma_parse_property_roundtrip(prop_id, index, data);
}

/// The text of a datagram: its UTF-8 decoding, or empty when it is not UTF-8.
pub open spec fn packet_text(packet: Seq<u8>) -> Seq<char> {
    if valid_utf8(packet) {
        decode_utf8(packet)
    } else {
        seq![]
    }
}

/// The device address that a discovery announcement gives: the announcement
/// must name the model `UltraLite-mk5`; the address is its `ip` field, or
/// the sender's address when it has none.
pub open spec fn discovery_address(packet: Seq<u8>, sender_ip: Seq<char>) -> Option<Seq<char>> {
    let text = packet_text(packet);
    if json_string_field(text, "model"@) == Some("UltraLite-mk5"@) {
        match json_string_field(text, "ip"@) {
            Some(ip) => Some(ip),
            None => Some(sender_ip),
        }
    } else {
        None
    }
}

/// Reads a UDP discovery announcement: the device's address when the
/// announcement comes from an UltraLite mk5.
pub fn discovered_ip(packet: &[u8], sender_ip: String) -> (ip: Option<String>)
    ensures
        option_text(ip) == discovery_address(packet@, sender_ip@),
{
    let text = match utf8_to_string(packet) {
        Some(t) => t,
        None => String::new(),
    };
    assert(text@ == packet_text(packet@));
    let model = json_string_field_of(text.as_str(), "model");
    let is_mk5 = match &model {
        Some(m) => crate::text::str_eq(m.as_str(), "UltraLite-mk5"),
        None => false,
    };
    if !is_mk5 {
        return None;
    }
    match json_string_field_of(text.as_str(), "ip") {
        Some(ip) => Some(ip),
        None => Some(sender_ip),
    }
}

} // verus!
