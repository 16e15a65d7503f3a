use aio_cooler::{
    build_frame, calc_crc, decode_frame, escape_data, hex_string, unescape_data, ProtocolError,
    ESCAPE_MARKER, FRAME_MARKER, MAX_PAYLOAD,
};

#[test]
fn escape_replaces_both_reserved_bytes() {
    assert_eq!(escape_data(&[0x5A, 0x5B, 0x41]), vec![0x5B, 0x01, 0x5B, 0x02, 0x41]);
}

#[test]
fn escaped_length_and_checksum_of_reserved_bytes() {
    let escaped = escape_data(&[0x5A, 0x5B, 0x41]);
    assert_eq!(escaped.len(), 5);
    let expected = ((0x5Bu32 + 0x01 + 0x5B + 0x02 + 0x41) % 256) as u8;
    assert_eq!(calc_crc(&escaped), expected);
    assert_eq!(calc_crc(&escaped), 0xFA);
}

#[test]
fn escape_leaves_other_bytes_alone() {
    let data: Vec<u8> = (0u8..=255).filter(|b| *b != 0x5A && *b != 0x5B).collect();
    assert_eq!(escape_data(&data), data);
}

#[test]
fn escape_of_nothing_is_nothing() {
    assert_eq!(escape_data(&[]), Vec::<u8>::new());
    assert_eq!(calc_crc(&[]), 0);
}

#[test]
fn escaped_output_has_no_bare_marker() {
    let data: Vec<u8> = (0u8..=255).chain([0x5A, 0x5A, 0x5B, 0x5B, 0x01, 0x02]).collect();
    let escaped = escape_data(&data);
    for (i, b) in escaped.iter().enumerate() {
        assert_ne!(*b, FRAME_MARKER);
        if *b == ESCAPE_MARKER {
            assert!(escaped[i + 1] == 0x01 || escaped[i + 1] == 0x02);
        }
    }
}

#[test]
fn unescape_undoes_escape() {
    let data: Vec<u8> = (0u8..=255).chain([0x5A, 0x5B, 0x5B, 0x5A]).collect();
    assert_eq!(unescape_data(&escape_data(&data)), Some(data));
}

#[test]
fn unescape_rejects_bare_markers() {
    assert_eq!(unescape_data(&[0x41, 0x5A]), None);
    assert_eq!(unescape_data(&[0x5B]), None);
    assert_eq!(unescape_data(&[0x5B, 0x03]), None);
    assert_eq!(unescape_data(&[0x5B, 0x5B, 0x01]), None);
    assert_eq!(unescape_data(&[0x5B, 0x02, 0x5B, 0x01]), Some(vec![0x5B, 0x5A]));
}

#[test]
fn escape_is_injective_on_close_inputs() {
    assert_ne!(escape_data(&[0x5A]), escape_data(&[0x5B, 0x01]));
    assert_ne!(escape_data(&[0x5B]), escape_data(&[0x5B, 0x02]));
    assert_ne!(escape_data(&[0x5A, 0x01]), escape_data(&[0x5A]));
}

#[test]
fn checksum_wraps_modulo_256() {
    assert_eq!(calc_crc(&[0xFF, 0x01]), 0x00);
    assert_eq!(calc_crc(&[0xFF, 0xFF, 0xFF]), 0xFD);
    assert_eq!(calc_crc(&[1, 2, 3]), 6);
    assert_eq!(calc_crc(&[3, 2, 1]), 6);
}

#[test]
fn frame_layout_is_exact() {
    let frame = build_frame(&[0x41, 0x5A, 0x42]).unwrap();
    assert_eq!(frame, vec![0x5A, 0x00, 0x04, 0x41, 0x5B, 0x01, 0x42, 0xDF, 0x5A]);
}

#[test]
fn frame_of_empty_message() {
    assert_eq!(build_frame(&[]).unwrap(), vec![0x5A, 0x00, 0x00, 0x00, 0x5A]);
}

#[test]
fn frame_length_field_counts_escaped_bytes() {
    let message = vec![0x5Bu8; 300];
    let frame = build_frame(&message).unwrap();
    let escaped = escape_data(&message);
    assert_eq!(escaped.len(), 600);
    assert_eq!(frame[0], FRAME_MARKER);
    assert_eq!(frame[frame.len() - 1], frame[0]);
    assert_eq!(((frame[1] as usize) << 8) | frame[2] as usize, escaped.len());
    assert_eq!(&frame[3..frame.len() - 2], &escaped[..]);
    assert_eq!(frame[frame.len() - 2], calc_crc(&escaped));
    assert_eq!(frame.len(), escaped.len() + 5);
}

#[test]
fn frame_takes_the_longest_payload() {
    let message = vec![0x41u8; MAX_PAYLOAD];
    let frame = build_frame(&message).unwrap();
    assert_eq!(frame[1], 0xFF);
    assert_eq!(frame[2], 0xFF);
    assert_eq!(decode_frame(&frame), Some(message));
}

#[test]
fn frame_refuses_a_longer_payload() {
    assert_eq!(build_frame(&vec![0x41u8; MAX_PAYLOAD + 1]), Err(ProtocolError::PayloadTooLong));
    assert_eq!(build_frame(&vec![0x5Au8; 32768]), Err(ProtocolError::PayloadTooLong));
    assert!(build_frame(&vec![0x5Au8; 32767]).is_ok());
}

#[test]
fn decode_undoes_build() {
    let message: Vec<u8> = (0u8..=255).chain([0x5A, 0x5B]).collect();
    let frame = build_frame(&message).unwrap();
    assert_eq!(decode_frame(&frame), Some(message));
}

#[test]
fn decode_rejects_damaged_frames() {
    let frame = build_frame(b"POST all 1\r\n").unwrap();
    assert!(decode_frame(&frame).is_some());
    assert_eq!(decode_frame(&frame[..frame.len() - 1]), None);
    assert_eq!(decode_frame(&[0x5A, 0x00, 0x5A]), None);
    let mut wrong_sum = frame.clone();
    let at = wrong_sum.len() - 2;
    wrong_sum[at] = wrong_sum[at].wrapping_add(1);
    assert_eq!(decode_frame(&wrong_sum), None);
    let mut wrong_length = frame.clone();
    wrong_length[2] = wrong_length[2].wrapping_add(1);
    assert_eq!(decode_frame(&wrong_length), None);
    let mut wrong_start = frame.clone();
    wrong_start[0] = 0x00;
    assert_eq!(decode_frame(&wrong_start), None);
    let mut wrong_end = frame.clone();
    let last = wrong_end.len() - 1;
    wrong_end[last] = 0x00;
    assert_eq!(decode_frame(&wrong_end), None);
}

#[test]
fn decode_rejects_an_unescaped_payload() {
    let payload = [0x41u8, 0x5B, 0x07];
    let mut frame = vec![0x5A, 0x00, 0x03];
    frame.extend_from_slice(&payload);
    frame.push(calc_crc(&payload));
    frame.push(0x5A);
    assert_eq!(decode_frame(&frame), None);
}

#[test]
fn hex_string_is_lower_case_two_digits_each() {
    assert_eq!(hex_string(&[0x00, 0x5A, 0xFF, 0x0B, 0xA0]), "005aff0ba0");
    assert_eq!(hex_string(&[]), "");
}

#[test]
fn protocol_errors_have_words() {
    assert_eq!(ProtocolError::PayloadTooLong.describe(), "Command does not fit in one frame");
    assert_eq!(ProtocolError::Serialize.describe(), "Failed to encode the command body as JSON");
}
