use moncomble_os::keyboard::{
    add_scancode, decode_scancode, init_keyboard, key_char, next_char, read_scancode, KeyDecoder,
    KeyInput, ScancodeQueue, ScancodeStatus, BACKSPACE_KEY_CODE, SCANCODE_QUEUE_CAPACITY,
};
use pc_keyboard::KeyCode;

#[test]
fn uninitialized_queue_drops_scancodes() {
    let mut q = ScancodeQueue::new();
    assert_eq!(add_scancode(&mut q, 0x1E), ScancodeStatus::Uninitialized);
    assert_eq!(read_scancode(&mut q), None);
}

#[test]
fn scancodes_come_out_in_order() {
    let mut q = ScancodeQueue::new();
    init_keyboard(&mut q);
    assert_eq!(read_scancode(&mut q), None);
    assert_eq!(add_scancode(&mut q, 1), ScancodeStatus::Queued);
    assert_eq!(add_scancode(&mut q, 2), ScancodeStatus::Queued);
    assert_eq!(read_scancode(&mut q), Some(1));
    assert_eq!(add_scancode(&mut q, 3), ScancodeStatus::Queued);
    assert_eq!(read_scancode(&mut q), Some(2));
    assert_eq!(read_scancode(&mut q), Some(3));
    assert_eq!(read_scancode(&mut q), None);
}

#[test]
fn full_queue_drops_scancode() {
    let mut q = ScancodeQueue::new();
    init_keyboard(&mut q);
    for i in 0..SCANCODE_QUEUE_CAPACITY {
        assert_eq!(add_scancode(&mut q, i as u8), ScancodeStatus::Queued);
    }
    assert_eq!(add_scancode(&mut q, 0xFF), ScancodeStatus::QueueFull);
    assert_eq!(read_scancode(&mut q), Some(0));
    assert_eq!(add_scancode(&mut q, 0xFE), ScancodeStatus::Queued);
    for i in 1..SCANCODE_QUEUE_CAPACITY {
        assert_eq!(read_scancode(&mut q), Some(i as u8));
    }
    assert_eq!(read_scancode(&mut q), Some(0xFE));
    assert_eq!(read_scancode(&mut q), None);
}

#[test]
fn second_init_keeps_queued_scancodes() {
    let mut q = ScancodeQueue::new();
    init_keyboard(&mut q);
    add_scancode(&mut q, 7);
    init_keyboard(&mut q);
    assert_eq!(read_scancode(&mut q), Some(7));
}

#[test]
fn key_chars() {
    assert_eq!(key_char(KeyInput::Unicode('a')), Some('a'));
    assert_eq!(key_char(KeyInput::Unicode('\n')), Some('\n'));
    assert_eq!(key_char(KeyInput::RawKey(KeyCode::Backspace as u8)), Some('\x08'));
    assert_eq!(BACKSPACE_KEY_CODE, KeyCode::Backspace as u8);
    assert_eq!(key_char(KeyInput::RawKey(KeyCode::LShift as u8)), None);
    assert_eq!(key_char(KeyInput::RawKey(KeyCode::ArrowUp as u8)), None);
}

#[test]
fn scancodes_decode_to_shell_characters() {
    let mut kb = KeyDecoder::new();
    assert_eq!(decode_scancode(&mut kb, 0x1E), Some('a'));
    assert_eq!(decode_scancode(&mut kb, 0x9E), None); // release of 'a'
    assert_eq!(decode_scancode(&mut kb, 0x0E), Some('\x08')); // backspace
    assert_eq!(decode_scancode(&mut kb, 0x1C), Some('\n')); // enter
    assert_eq!(decode_scancode(&mut kb, 0x2A), None); // left shift
    assert_eq!(decode_scancode(&mut kb, 0x1E), Some('A'));
    assert_eq!(decode_scancode(&mut kb, 0xAA), None); // release of left shift
    assert_eq!(decode_scancode(&mut kb, 0x3B), None); // F1 has no character
    assert_eq!(decode_scancode(&mut kb, 0x30), Some('b'));
}

#[test]
fn extended_scancodes_wait_for_their_second_byte() {
    let mut kb = KeyDecoder::new();
    assert_eq!(decode_scancode(&mut kb, 0xE0), None);
    assert_eq!(decode_scancode(&mut kb, 0x48), None); // arrow up
    assert_eq!(decode_scancode(&mut kb, 0x39), Some(' '));
}

#[test]
fn next_char_reads_queue_then_decodes() {
    let mut q = ScancodeQueue::new();
    let mut kb = KeyDecoder::new();
    assert_eq!(next_char(&mut q, &mut kb), None);
    init_keyboard(&mut q);
    assert_eq!(next_char(&mut q, &mut kb), None);
    add_scancode(&mut q, 0x23); // h
    add_scancode(&mut q, 0xA3); // release h
    add_scancode(&mut q, 0x17); // i
    assert_eq!(next_char(&mut q, &mut kb), Some('h'));
    assert_eq!(next_char(&mut q, &mut kb), None);
    assert_eq!(next_char(&mut q, &mut kb), Some('i'));
    assert_eq!(next_char(&mut q, &mut kb), None);
    assert_eq!(read_scancode(&mut q), None);
}

#[test]
fn decoding_depends_on_earlier_scancodes() {
    let mut kb = KeyDecoder::new();
    assert_eq!(decode_scancode(&mut kb, 0x36), None); // right shift held
    assert_eq!(decode_scancode(&mut kb, 0x02), Some('!'));
    assert_eq!(decode_scancode(&mut kb, 0xB6), None); // right shift released
    assert_eq!(decode_scancode(&mut kb, 0x02), Some('1'));
    let mut fresh = KeyDecoder::new();
    assert_eq!(decode_scancode(&mut fresh, 0x02), Some('1'));
}
