use aio_cooler::data::{millis_since_epoch, CommandMessage};
use std::time::{Duration, UNIX_EPOCH};
use aio_cooler::text::{push_decimal, push_signed_decimal};
use aio_cooler::{build_frame, build_message, command_frame, command_frame_at, decode_frame, ContentType, ProtocolError};

fn text_of(bytes: Vec<u8>) -> String {
    String::from_utf8(bytes).unwrap()
}

#[test]
fn message_at_a_given_time_is_exact() {
    let message = CommandMessage::at("mediaDelete", "{\"exclude\":[\"a.png\"]}", 1_700_000_123_456);
    let expected = "POST mediaDelete 1\r\n\
        SeqNumber=23456\r\n\
        AckNumber=-1\r\n\
        ContentLength=21\r\n\
        ContentType=json\r\n\
        FileName=-1\r\n\
        FileSize=-1\r\n\
        ContentRange=-1\r\n\
        Counter=-1\r\n\
        Date=1700000123456\r\n\
        msgId=-1\r\n\
        \r\n\
        {\"exclude\":[\"a.png\"]}";
    assert_eq!(text_of(message.to_bytes()), expected);
}

#[test]
fn media_delete_has_content_length_21() {
    let text = text_of(build_message("mediaDelete", "{\"exclude\":[\"a.png\"]}"));
    let mut lines = text.split("\r\n");
    assert_eq!(lines.next(), Some("POST mediaDelete 1"));
    assert!(text.contains("\r\nContentLength=21\r\n"));
}

#[test]
fn header_block_is_ten_lines_then_a_blank_line() {
    let body = "{\"exclude\":[\"a.png\"]}";
    let text = text_of(build_message("mediaDelete", body));
    let (head, rest) = text.split_once("\r\n\r\n").unwrap();
    assert_eq!(rest, body);
    let lines: Vec<&str> = head.split("\r\n").collect();
    assert_eq!(lines.len(), 11);
    assert_eq!(lines[0], "POST mediaDelete 1");
    let names: Vec<&str> = lines[1..].iter().map(|l| l.split('=').next().unwrap()).collect();
    assert_eq!(
        names,
        vec![
            "SeqNumber",
            "AckNumber",
            "ContentLength",
            "ContentType",
            "FileName",
            "FileSize",
            "ContentRange",
            "Counter",
            "Date",
            "msgId"
        ]
    );
    assert_eq!(lines[3], format!("ContentLength={}", body.len()));
}

#[test]
fn content_length_counts_bytes_not_characters() {
    let body = "{\"name\":\"größe→\"}";
    let message = CommandMessage::at("all", body, 5);
    let text = text_of(message.to_bytes());
    assert!(text.contains(&format!("\r\nContentLength={}\r\n", body.len())));
    assert_eq!(body.len(), 21);
    assert_eq!(body.chars().count(), 17);
    assert!(text.ends_with(body));
}

#[test]
fn new_message_fills_the_fields() {
    let message = CommandMessage::new("all", "{}");
    assert_eq!(message.cmd_type, "all");
    assert_eq!(message.body, "{}");
    assert_eq!(message.ack_number, -1);
    assert_eq!(message.file_name, -1);
    assert_eq!(message.file_size, -1);
    assert_eq!(message.content_range, -1);
    assert_eq!(message.counter, -1);
    assert_eq!(message.msg_id, -1);
    assert!(matches!(message.content_type, ContentType::Json));
    assert!(message.date > 1_600_000_000_000);
    assert_eq!(message.seq_number, message.date % 100_000);
    assert!(message.seq_number >= 0 && message.seq_number < 100_000);
}

#[test]
fn message_at_time_zero_and_at_a_round_time() {
    let zero = CommandMessage::at("all", "", 0);
    assert_eq!(zero.seq_number, 0);
    assert_eq!(zero.date, 0);
    assert!(text_of(zero.to_bytes()).contains("\r\nContentLength=0\r\n"));
    let round = CommandMessage::at("all", "", 1_700_000_100_000);
    assert_eq!(round.seq_number, 0);
    assert_eq!(round.date, 1_700_000_100_000);
    let last = CommandMessage::at("all", "", 99_999);
    assert_eq!(last.seq_number, 99_999);
}

#[test]
fn content_type_is_json() {
    assert_eq!(ContentType::Json.as_str(), "json");
}

#[test]
fn write_header_appends_one_line() {
    let mut out = String::from("x");
    CommandMessage::write_header(&mut out, "ContentType", "json");
    assert_eq!(out, "xContentType=json\r\n");
}

#[test]
fn decimal_text_of_numbers() {
    let mut out = String::new();
    push_decimal(&mut out, 0);
    out.push(' ');
    push_decimal(&mut out, 7);
    out.push(' ');
    push_decimal(&mut out, 1050);
    out.push(' ');
    push_decimal(&mut out, u64::MAX);
    assert_eq!(out, "0 7 1050 18446744073709551615");
}

#[test]
fn signed_decimal_text_of_numbers() {
    let mut out = String::new();
    push_signed_decimal(&mut out, -1);
    out.push(' ');
    push_signed_decimal(&mut out, 0);
    out.push(' ');
    push_signed_decimal(&mut out, i64::MAX);
    out.push(' ');
    push_signed_decimal(&mut out, i64::MIN);
    assert_eq!(out, "-1 0 9223372036854775807 -9223372036854775808");
}

#[test]
fn command_frame_carries_the_message() {
    let frame = command_frame_at("all", "{\"a\":1}", 42).unwrap();
    let message = CommandMessage::at("all", "{\"a\":1}", 42).to_bytes();
    assert_eq!(frame, build_frame(&message).unwrap());
    assert_eq!(decode_frame(&frame), Some(message));
}

#[test]
fn command_frame_escapes_markers_in_the_body() {
    let frame = command_frame_at("all", "Z[", 42).unwrap();
    let tail = &frame[frame.len() - 6..frame.len() - 2];
    assert_eq!(tail, &[0x5B, 0x01, 0x5B, 0x02]);
}

#[test]
fn command_frame_refuses_a_body_that_is_too_long() {
    let body = "a".repeat(70_000);
    assert_eq!(command_frame_at("all", &body, 42), Err(ProtocolError::PayloadTooLong));
    assert_eq!(command_frame("all", &body), Err(ProtocolError::PayloadTooLong));
}

#[test]
fn command_frame_now_decodes_to_a_message() {
    let frame = command_frame("mediaDelete", "{}").unwrap();
    let text = text_of(decode_frame(&frame).unwrap());
    assert!(text.starts_with("POST mediaDelete 1\r\nSeqNumber="));
    assert!(text.ends_with("\r\nmsgId=-1\r\n\r\n{}"));
}

#[test]
fn a_clock_reading_becomes_milliseconds() {
    assert_eq!(millis_since_epoch(Ok(Duration::new(1_700_000_123, 456_789_000))), 1_700_000_123_456);
    assert_eq!(millis_since_epoch(Ok(Duration::from_micros(1_999))), 1);
    assert_eq!(millis_since_epoch(Ok(Duration::ZERO)), 0);
    let later = UNIX_EPOCH + Duration::from_secs(5);
    assert!(UNIX_EPOCH.duration_since(later).is_err());
    assert_eq!(millis_since_epoch(UNIX_EPOCH.duration_since(later)), 0);
    assert_eq!(millis_since_epoch(later.duration_since(UNIX_EPOCH)), 5_000);
}
