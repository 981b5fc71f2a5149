use tattoy::shadow_terminal::{
    accumulate_pty_output, add_bytes_to_buffer, cursor_position_request_payloads,
    cursor_position_response, find_subsequence, input_payload_len, payload, payloads,
    pty_output_signals, scroll_position, PTYError, Scroll, PAYLOAD_SIZE,
};

#[test]
fn finds_the_first_occurrence() {
    assert_eq!(find_subsequence(b"abcabc", b"ca"), Some(2));
    assert_eq!(find_subsequence(b"abcabc", b"cc"), None);
    assert_eq!(find_subsequence(b"ab", b"abc"), None);
}

#[test]
fn output_signals() {
    let signals = pty_output_signals(b"hi\x1b[?1h there \x1b[6n");
    assert!(signals.application_mode_start);
    assert!(!signals.application_mode_end);
    assert!(signals.cursor_position_request);
    let none = pty_output_signals(b"plain output");
    assert!(!none.application_mode_start && !none.application_mode_end && !none.cursor_position_request);
    assert!(pty_output_signals(b"\x1b[?1l").application_mode_end);
}

#[test]
fn pty_output_ends_at_its_first_zero() {
    let mut accumulated = b"ab".to_vec();
    accumulate_pty_output(&mut accumulated, b"cd\0ef");
    assert_eq!(accumulated, b"abcd".to_vec());
    accumulate_pty_output(&mut accumulated, b"gh");
    assert_eq!(accumulated, b"abcdgh".to_vec());
}

#[test]
fn payload_length_is_up_to_the_first_zero() {
    let mut buffer = [0u8; 128];
    assert_eq!(input_payload_len(&buffer), 0);
    buffer[0] = b'x';
    buffer[1] = b'y';
    assert_eq!(input_payload_len(&buffer), 2);
    assert_eq!(input_payload_len(&[7u8; 128]), 128);
}

#[test]
fn bytes_go_to_the_start_of_the_buffer() {
    let mut buffer = [9u8; 128];
    add_bytes_to_buffer(&mut buffer, b"abc").unwrap();
    assert_eq!(&buffer[0..3], b"abc");
    assert_eq!(buffer[3], 9);
}

#[test]
fn too_many_bytes_for_the_buffer() {
    let mut buffer = [0u8; 128];
    let result = add_bytes_to_buffer(&mut buffer, &[1u8; 129]);
    assert!(matches!(result, Err(PTYError::BytesExceedBuffer { bytes: 129, buffer: 128 })));
    assert_eq!(buffer, [0u8; 128]);
}

#[test]
fn payloads_carry_all_bytes_in_order() {
    let bytes: Vec<u8> = (0..300u32).map(|i| (i % 251 + 1) as u8).collect();
    let parts = payloads(&bytes);
    assert_eq!(parts.len(), 3);
    let mut joined = Vec::new();
    for part in &parts {
        let size = input_payload_len(part);
        joined.extend_from_slice(&part[..size]);
    }
    assert_eq!(joined, bytes);
    assert_eq!(payloads(b"").len(), 0);
    assert_eq!(PAYLOAD_SIZE, 128);
    let single = payload(b"hi");
    assert_eq!(&single[0..2], b"hi");
    assert_eq!(single[2], 0);
}

#[test]
fn cursor_position_is_reported_row_first() {
    assert_eq!(cursor_position_response(3, 12), b"\x1b[12;3R".to_vec());
    let answer = cursor_position_request_payloads(b"..\x1b[6n..", 1, 2);
    assert_eq!(answer.len(), 1);
    assert_eq!(&answer[0][0..6], b"\x1b[2;1R");
    assert_eq!(answer[0][6], 0);
    assert!(cursor_position_request_payloads(b"no request", 1, 2).is_empty());
}

#[test]
fn scrolling_stays_within_the_history() {
    assert_eq!(scroll_position(0, 5, 100, 20, Scroll::Up), 5);
    assert_eq!(scroll_position(78, 5, 100, 20, Scroll::Up), 80);
    assert_eq!(scroll_position(7, 5, 100, 20, Scroll::Down), 2);
    assert_eq!(scroll_position(3, 5, 100, 20, Scroll::Down), 0);
    assert_eq!(scroll_position(50, 5, 100, 20, Scroll::Cancel), 0);
}

#[test]
fn scrolling_up_then_down_comes_back() {
    let up = scroll_position(10, 4, 100, 20, Scroll::Up);
    assert_eq!(scroll_position(up, 4, 100, 20, Scroll::Down), 10);
}
