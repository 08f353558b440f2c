use alyson::client;
use alyson::types::{ClientInfo, InboxEntry, Room};
use alyson::WireError;

#[test]
fn client_info_new_keeps_fields() {
    let c = ClientInfo::new(3, "alice".to_string(), "127.0.0.1".to_string(), 4000);
    assert_eq!(c.id, 3);
    assert_eq!(c.username, "alice");
    assert_eq!(c.ip, "127.0.0.1");
    assert_eq!(c.port, 4000);
    let d = c.duplicate();
    assert_eq!(d.username, "alice");
    assert_eq!(d.port, 4000);
}

#[test]
fn inbox_entry_new_keeps_fields() {
    let e = InboxEntry::new(17, "hello".to_string(), 1, 2, true);
    assert_eq!(e.time, 17);
    assert_eq!(e.msg, "hello");
    assert_eq!(e.from, 1);
    assert_eq!(e.to, 2);
    assert!(e.cli_or_room);
    assert_eq!(e.duplicate(), e);
    assert_eq!(e.display_text(), "hello");
}

#[test]
fn legacy_inbox_entry_new_keeps_fields() {
    let e = client::InboxEntry::new(5, "x".to_string(), 7, 8, false);
    assert_eq!((e.time, e.from, e.to, e.cli_or_room), (5, 7, 8, false));
    assert_eq!(e.msg, "x");
    assert_eq!(e.display_text(), "x");
}

#[test]
fn room_membership() {
    let mut r = Room::new(9, "lobby".to_string());
    assert_eq!(r.id, 9);
    assert_eq!(r.username, "lobby");
    assert!(!r.is_member(1));
    r.add_member(1);
    assert!(r.is_member(1));
    assert!(!r.is_member(2));
}

#[test]
fn room_add_member_twice_is_once() {
    let mut r = Room::new(1, "r".to_string());
    r.add_member(4);
    r.add_member(4);
    assert_eq!(r.members.len(), 1);
    let d = r.duplicate();
    assert!(d.is_member(4));
    assert_eq!(d.members.len(), 1);
    assert_eq!(d.id, 1);
}

#[test]
fn error_texts() {
    let cases = vec![
        (WireError::Io("broken pipe".to_string()), "io error: broken pipe"),
        (WireError::InvalidName, "invalid name"),
        (WireError::HandshakeFailed("x".to_string()), "handshake failed: x"),
        (WireError::TcpConnectionFailed("refused".to_string()), "TCP connection failed: refused"),
        (WireError::Disconnected, "disconnected"),
        (WireError::PortNotAvailable, "port not available"),
        (WireError::ClientRegistrationTimeout, "client registration timeout"),
        (WireError::SerializationFailed, "serialization failed"),
        (WireError::PayloadTooLarge, "payload too large"),
        (WireError::ChannelNotFound, "channel not found"),
        (WireError::SenderNotFound, "sender not found"),
        (WireError::ReceiverNotFound, "receiver not found"),
        (WireError::ClientNotFound, "client not found"),
        (WireError::ChannelFailure, "channel failure"),
        (WireError::InvalidArgs, "invalid args"),
    ];
    for (e, text) in cases {
        assert_eq!(e.describe(), text);
        assert_eq!(e.duplicate(), e);
    }
}

#[test]
fn terminal_minimum_size() {
    assert_eq!(alyson::MIN_WIDTH, 80);
    assert_eq!(alyson::MIN_HEIGHT, 20);
}
