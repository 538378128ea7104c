use motu_mk5::device::connection::{
    classify_read, discovered_ip, property_frame, ConnectionError, IoKind, ReadOutcome,
    RecvAction, DISCOVERY_PORT,
};

#[test]
fn property_frames_are_big_endian() {
    assert_eq!(property_frame(1016, 2, &[0x3F, 0x80]), vec![0x03, 0xF8, 0x00, 0x02, 0x3F, 0x80]);
    assert_eq!(property_frame(10, 0, &[]), vec![0, 10, 0, 0]);
    assert_eq!(DISCOVERY_PORT, 1280);
}

#[test]
fn reads_are_classified() {
    let frame = property_frame(5001, 3, &[42]);
    match classify_read(ReadOutcome::Binary(frame)) {
        RecvAction::Property(id, index, data) => {
            assert_eq!((id, index, data), (5001, 3, vec![42]));
        }
        other => panic!("unexpected {other:?}"),
    }
    assert!(matches!(classify_read(ReadOutcome::Binary(vec![1, 2, 3])), RecvAction::Nothing));
    assert!(matches!(classify_read(ReadOutcome::Ping(vec![9])), RecvAction::Pong(p) if p == vec![9]));
    assert!(matches!(classify_read(ReadOutcome::OtherMessage), RecvAction::Nothing));
    assert!(matches!(
        classify_read(ReadOutcome::ConnectionClosed),
        RecvAction::Error(ConnectionError::Disconnected(m)) if m == "connection closed"
    ));
    assert!(matches!(
        classify_read(ReadOutcome::AlreadyClosed),
        RecvAction::Error(ConnectionError::Disconnected(m)) if m == "already closed"
    ));
    assert!(matches!(
        classify_read(ReadOutcome::Io(IoKind::WouldBlock, "w".to_string())),
        RecvAction::Nothing
    ));
    assert!(matches!(
        classify_read(ReadOutcome::Io(IoKind::TimedOut, "t".to_string())),
        RecvAction::Nothing
    ));
    assert!(matches!(
        classify_read(ReadOutcome::Io(IoKind::Other, "reset by peer".to_string())),
        RecvAction::Error(ConnectionError::Disconnected(m)) if m == "reset by peer"
    ));
    assert!(matches!(
        classify_read(ReadOutcome::Protocol("bad frame".to_string())),
        RecvAction::Error(ConnectionError::Protocol(m)) if m == "bad frame"
    ));
    assert!(matches!(
        classify_read(ReadOutcome::OtherError("odd".to_string())),
        RecvAction::Error(ConnectionError::Protocol(m)) if m == "odd"
    ));
}

#[test]
fn discovery_announcements() {
    let sender = "169.254.9.9".to_string();
    assert_eq!(
        discovered_ip(br#"{"model":"UltraLite-mk5","ip":"169.254.1.2"}"#, sender.clone()),
        Some("169.254.1.2".to_string())
    );
    assert_eq!(
        discovered_ip(br#"{"model":"UltraLite-mk5","uid":"0001f2"}"#, sender.clone()),
        Some("169.254.9.9".to_string())
    );
    assert_eq!(discovered_ip(br#"{"model":"828-mk5","ip":"1.2.3.4"}"#, sender.clone()), None);
    assert_eq!(discovered_ip(b"not json", sender.clone()), None);
    assert_eq!(discovered_ip(&[0xFF, 0xFE], sender), None);
}
