use chat_relay::message::{
    current_date, format_date, printed_or_epoch, MessageType, SocketMessage, DATE_FORMATTING,
};
use chat_relay::text::id_text;

fn record(body: &str, kind: MessageType, origin: Option<i64>) -> SocketMessage {
    SocketMessage::dated(body.to_string(), kind, origin, "2001-02-03 04:05:06".to_string())
}

#[test]
fn id_text_matches_decimal_notation() {
    assert_eq!(id_text(0), "0");
    assert_eq!(id_text(7), "7");
    assert_eq!(id_text(10), "10");
    assert_eq!(id_text(-1), "-1");
    assert_eq!(id_text(1234567890), "1234567890");
    assert_eq!(id_text(i64::MAX), "9223372036854775807");
    assert_eq!(id_text(i64::MIN), "-9223372036854775808");
    for id in [-100i64, -99, -10, -9, 9, 99, 100, 101, 4096, -4096] {
        assert_eq!(id_text(id), id.to_string());
    }
}

#[test]
fn current_date_has_the_fixed_shape() {
    assert_eq!(DATE_FORMATTING, "%Y-%m-%d %H:%M:%S");
    let date = current_date();
    let bytes = date.as_bytes();
    assert_eq!(bytes.len(), 19);
    for (at, byte) in bytes.iter().enumerate() {
        match at {
            4 | 7 => assert_eq!(*byte, b'-'),
            10 => assert_eq!(*byte, b' '),
            13 | 16 => assert_eq!(*byte, b':'),
            _ => assert!(byte.is_ascii_digit()),
        }
    }
}

#[test]
fn dated_keeps_every_field() {
    let m = SocketMessage::dated(
        "body".to_string(),
        MessageType::LEAVE,
        Some(-3),
        "1999-12-31 23:59:59".to_string(),
    );
    assert_eq!(m.message_type, MessageType::LEAVE);
    assert_eq!(m.message, "body");
    assert_eq!(m.id, Some(-3));
    assert_eq!(m.date, "1999-12-31 23:59:59");
}

#[test]
fn new_keeps_body_kind_and_origin() {
    let m = SocketMessage::new("hello".to_string(), MessageType::JOIN, Some(12));
    assert_eq!(m.message_type, MessageType::JOIN);
    assert_eq!(m.message, "hello");
    assert_eq!(m.id, Some(12));
    assert_eq!(m.date.len(), 19);
}

#[test]
fn default_is_an_empty_text_event() {
    let m = SocketMessage::default();
    assert_eq!(m.message_type, MessageType::TEXT);
    assert_eq!(m.message, "");
    assert_eq!(m.id, None);
    assert_eq!(m.date.len(), 19);
}

#[test]
fn clone_keeps_every_field() {
    let m = record("x", MessageType::INIT, Some(1));
    let c = m.clone();
    assert_eq!(c.message_type, MessageType::INIT);
    assert_eq!(c.message, "x");
    assert_eq!(c.id, Some(1));
    assert_eq!(c.date, m.date);
}

#[test]
fn parse_keeps_only_the_body_of_a_record() {
    for kind in [
        MessageType::JOIN,
        MessageType::LEAVE,
        MessageType::TEXT,
        MessageType::INIT,
        MessageType::DISCONNECTED,
        MessageType::CHAT_DELETED,
    ] {
        let m = SocketMessage::parse(Some(record("hi", kind, Some(5))));
        assert_eq!(m.message_type, MessageType::TEXT);
        assert_eq!(m.message, "hi");
        assert_eq!(m.id, None);
    }
}

#[test]
fn parse_of_malformed_text_is_the_empty_text_event() {
    let m = SocketMessage::parse(None);
    assert_eq!(m.message_type, MessageType::TEXT);
    assert_eq!(m.message, "");
    assert_eq!(m.id, None);
}

#[test]
fn parse_at_uses_the_given_time() {
    let m = SocketMessage::parse_at(
        Some(record("hi", MessageType::JOIN, Some(5))),
        "2020-01-01 00:00:00".to_string(),
    );
    assert_eq!(m.message, "hi");
    assert_eq!(m.date, "2020-01-01 00:00:00");
    let m = SocketMessage::parse_at(None, "2020-01-01 00:00:00".to_string());
    assert_eq!(m.message, "");
    assert_eq!(m.date, "2020-01-01 00:00:00");
}

#[test]
fn parse_failable_fails_on_malformed_text() {
    assert!(SocketMessage::parse_failable(None).is_none());
    let m = SocketMessage::parse_failable(Some(record("hi", MessageType::LEAVE, Some(5))))
        .expect("a record parses");
    assert_eq!(m.message_type, MessageType::TEXT);
    assert_eq!(m.message, "hi");
    assert_eq!(m.id, None);
}

#[test]
fn format_date_prints_utc_seconds() {
    assert_eq!(format_date(0), "1970-01-01 00:00:00");
    assert_eq!(format_date(59), "1970-01-01 00:00:59");
    assert_eq!(format_date(86_399), "1970-01-01 23:59:59");
    assert_eq!(format_date(86_400), "1970-01-02 00:00:00");
    assert_eq!(format_date(951_782_400), "2000-02-29 00:00:00");
    assert_eq!(format_date(1_000_000_000), "2001-09-09 01:46:40");
    assert_eq!(format_date(253_402_300_799), "9999-12-31 23:59:59");
}

#[test]
fn format_date_signs_years_past_9999() {
    assert_eq!(format_date(253_402_300_800), "+10000-01-01 00:00:00");
}

#[test]
fn format_date_falls_back_to_the_epoch() {
    assert_eq!(format_date(i64::MAX as u64), "1970-01-01 00:00:00");
    assert_eq!(format_date(i64::MAX as u64 + 1), "1970-01-01 00:00:00");
    assert_eq!(format_date(u64::MAX), "1970-01-01 00:00:00");
}

#[test]
fn current_date_is_not_in_the_past() {
    let now = current_date();
    assert!(now.as_str() >= "2024-01-01 00:00:00");
    assert_eq!(now.len(), 19);
}

#[test]
fn unprinted_instant_reads_as_the_epoch() {
    assert_eq!(printed_or_epoch(None), "1970-01-01 00:00:00");
    assert_eq!(
        printed_or_epoch(Some("2024-05-06 07:08:09".to_string())),
        "2024-05-06 07:08:09"
    );
}
