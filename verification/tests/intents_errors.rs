//! Intent bitmasks and the error taxonomy.

use smalld::{Error, Intent};

#[test]
fn intent_bits() {
    assert_eq!(Intent::Guilds.bit(), 1);
    assert_eq!(Intent::GuildMembers.bit(), 0b0010);
    assert_eq!(Intent::GuildMembers.bit() | Intent::GuildBans.bit(), 0b0110);
    assert_eq!(
        Intent::GuildMembers.bit() | Intent::GuildBans.bit() | Intent::GuildEmojis.bit(),
        0b1110
    );
    assert_eq!(Intent::DirectMessageTyping.bit(), 1 << 14);
    assert_eq!(u16::from(Intent::GuildPresences), 1 << 8);
}

#[test]
fn intent_mask_of_a_list() {
    assert_eq!(Intent::bit_mask_of(&Vec::new()), 0);
    assert_eq!(
        Intent::bit_mask_of(&vec![Intent::GuildMessages, Intent::DirectMessages]),
        (1 << 9) | (1 << 12)
    );
}

#[test]
fn intent_mask_constants() {
    assert_eq!(Intent::ALL, (1 << 15) - 1);
    assert_eq!(Intent::PRIVILEGED, (1 << 8) | (1 << 1));
    assert_eq!(Intent::UNPRIVILEGED, Intent::ALL ^ Intent::PRIVILEGED);
    assert_eq!(Intent::UNPRIVILEGED, 32509);
}

#[test]
fn illegal_state_carries_its_message() {
    match Error::illegal_state("No gateway connected") {
        Error::IllegalStateError(m) => assert_eq!(m, "No gateway connected"),
        other => panic!("expected an illegal-state error, got {:?}", other),
    }
}

#[test]
fn error_messages_are_single_lines() {
    assert_eq!(Error::illegal_state("No gateway connected").message(), "No gateway connected");
    assert_eq!(
        Error::WebSocketClosed { code: Some(4004), reason: String::from("Authentication failed.") }
            .message(),
        "4004: Authentication failed."
    );
    assert_eq!(
        Error::WebSocketClosed { code: None, reason: String::from("gone") }.message(),
        "unknown: gone"
    );
    assert_eq!(Error::WebSocketError(String::from("broken pipe")).message(), "broken pipe");
}

#[test]
fn errors_compare_by_content() {
    assert_eq!(
        Error::HttpError(String::from("HTTP status 404")),
        Error::HttpError(String::from("HTTP status 404"))
    );
    assert_ne!(
        Error::IllegalStateError(String::from("a")),
        Error::IllegalArgumentError(String::from("a"))
    );
}
