use shell_pane::keys::{encode_events, encode_key, InputEvent, Key};

#[test]
fn control_c_is_byte_three() {
    assert_eq!(encode_key(Key::Letter('C'), true), vec![0x03]);
    assert_eq!(encode_key(Key::Letter('c'), true), vec![0x03]);
}

#[test]
fn enter_is_carriage_return() {
    assert_eq!(encode_key(Key::Enter, false), vec![0x0d]);
}

#[test]
fn arrow_up_is_escape_sequence() {
    assert_eq!(encode_key(Key::ArrowUp, false), vec![0x1b, 0x5b, 0x41]);
}

#[test]
fn key_table() {
    assert_eq!(encode_key(Key::Escape, false), vec![0x1b]);
    assert_eq!(encode_key(Key::Tab, false), vec![0x09]);
    assert_eq!(encode_key(Key::Backspace, false), vec![0x7f]);
    assert_eq!(encode_key(Key::Delete, false), b"\x1b[3~".to_vec());
    assert_eq!(encode_key(Key::ArrowDown, false), b"\x1b[B".to_vec());
    assert_eq!(encode_key(Key::ArrowRight, false), b"\x1b[C".to_vec());
    assert_eq!(encode_key(Key::ArrowLeft, false), b"\x1b[D".to_vec());
    assert_eq!(encode_key(Key::Home, false), b"\x1b[H".to_vec());
    assert_eq!(encode_key(Key::End, false), b"\x1b[F".to_vec());
    assert_eq!(encode_key(Key::PageUp, false), b"\x1b[5~".to_vec());
    assert_eq!(encode_key(Key::PageDown, false), b"\x1b[6~".to_vec());
}

#[test]
fn control_letters_span_the_alphabet() {
    assert_eq!(encode_key(Key::Letter('A'), true), vec![0x01]);
    assert_eq!(encode_key(Key::Letter('z'), true), vec![0x1a]);
}

#[test]
fn unlisted_keys_give_nothing() {
    assert_eq!(encode_key(Key::Other, false), Vec::<u8>::new());
    assert_eq!(encode_key(Key::Letter('a'), false), Vec::<u8>::new());
    assert_eq!(encode_key(Key::Letter('1'), true), Vec::<u8>::new());
}

#[test]
fn events_give_keys_then_text() {
    let events = vec![
        InputEvent::Text("ls".to_string()),
        InputEvent::Key { key: Key::Enter, ctrl: false },
        InputEvent::Text("é".to_string()),
        InputEvent::Key { key: Key::Letter('d'), ctrl: true },
    ];
    assert_eq!(encode_events(&events), vec![0x0d, 0x04, b'l', b's', 0xc3, 0xa9]);
}

#[test]
fn no_events_give_no_bytes() {
    assert_eq!(encode_events(&Vec::new()), Vec::<u8>::new());
}
