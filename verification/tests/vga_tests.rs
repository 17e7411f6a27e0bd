use moncomble_os::vga::{
    boot_banner, banner_cells, panic_banner, Screen, BLANK, PANIC_COLOR, VGA_BUFFER_LEN, VGA_COLOR,
    VGA_HEIGHT, VGA_WIDTH,
};

fn blank_screen() -> Screen {
    let mut s = Screen::from_cells(vec![0u8; VGA_BUFFER_LEN]);
    s.clear_screen();
    s
}

fn cell(s: &Screen, x: usize, y: usize) -> (u8, u8) {
    let off = (y * VGA_WIDTH + x) * 2;
    (s.cells()[off], s.cells()[off + 1])
}

fn row_text(s: &Screen, y: usize, n: usize) -> Vec<u8> {
    (0..n).map(|x| cell(s, x, y).0).collect()
}

#[test]
fn from_cells_keeps_buffer_and_starts_top_left() {
    let mut bytes = vec![7u8; VGA_BUFFER_LEN];
    bytes[0] = b'Q';
    let s = Screen::from_cells(bytes);
    assert_eq!(s.cursor(), (0, 0));
    assert_eq!(s.cells()[0], b'Q');
    assert_eq!(s.cells()[1], 7);
    assert_eq!(s.cells().len(), 4000);
}

#[test]
fn clear_screen_blanks_every_cell() {
    let mut s = Screen::from_cells(vec![0xAAu8; VGA_BUFFER_LEN]);
    s.putchar(b'z');
    s.clear_screen();
    assert_eq!(s.cursor(), (0, 0));
    for i in 0..VGA_BUFFER_LEN {
        let expected = if i % 2 == 0 { BLANK } else { VGA_COLOR };
        assert_eq!(s.cells()[i], expected);
    }
}

#[test]
fn printable_byte_is_written_at_cursor() {
    let mut s = blank_screen();
    s.putchar(b'A');
    assert_eq!(cell(&s, 0, 0), (b'A', 0x0F));
    assert_eq!(s.cursor(), (1, 0));
}

#[test]
fn untouched_cells_keep_their_bytes() {
    let mut s = Screen::from_cells(vec![0x55u8; VGA_BUFFER_LEN]);
    s.putchar(b'B');
    assert_eq!(cell(&s, 0, 0), (b'B', 0x0F));
    assert_eq!(cell(&s, 1, 0), (0x55, 0x55));
}

#[test]
fn newline_moves_to_next_row_start() {
    let mut s = blank_screen();
    s.print("ab");
    s.putchar(b'\n');
    assert_eq!(s.cursor(), (0, 1));
    s.putchar(b'c');
    assert_eq!(cell(&s, 0, 1).0, b'c');
}

#[test]
fn carriage_return_goes_to_row_start() {
    let mut s = blank_screen();
    s.print("abc\rX");
    assert_eq!(row_text(&s, 0, 3), b"Xbc".to_vec());
    assert_eq!(s.cursor(), (1, 0));
}

#[test]
fn tab_goes_to_next_multiple_of_eight() {
    let mut s = blank_screen();
    s.putchar(b'\t');
    assert_eq!(s.cursor(), (8, 0));
    s.print("abc");
    s.putchar(b'\t');
    assert_eq!(s.cursor(), (16, 0));
    // a tab writes nothing
    assert_eq!(cell(&s, 13, 0), (BLANK, VGA_COLOR));
}

#[test]
fn tab_near_right_edge_wraps() {
    let mut s = blank_screen();
    for _ in 0..75 {
        s.putchar(b'x');
    }
    s.putchar(b'\t');
    assert_eq!(s.cursor(), (0, 1));
}

#[test]
fn line_wraps_at_right_edge() {
    let mut s = blank_screen();
    for _ in 0..VGA_WIDTH {
        s.putchar(b'w');
    }
    assert_eq!(s.cursor(), (0, 1));
    assert_eq!(cell(&s, 79, 0).0, b'w');
}

#[test]
fn newline_on_bottom_row_scrolls() {
    let mut s = blank_screen();
    s.print("first");
    for _ in 0..(VGA_HEIGHT - 1) {
        s.putchar(b'\n');
    }
    assert_eq!(s.cursor(), (0, 24));
    s.print("last");
    assert_eq!(row_text(&s, 0, 5), b"first".to_vec());
    s.putchar(b'\n');
    assert_eq!(s.cursor(), (0, 24));
    // every row moved up by one; the first row's text is gone
    assert_eq!(row_text(&s, 0, 5), vec![BLANK; 5]);
    assert_eq!(row_text(&s, 23, 4), b"last".to_vec());
    // the bottom row is blank
    for x in 0..VGA_WIDTH {
        assert_eq!(cell(&s, x, 24), (BLANK, VGA_COLOR));
    }
}

#[test]
fn writing_past_the_last_cell_scrolls() {
    let mut s = blank_screen();
    for _ in 0..(VGA_HEIGHT - 1) {
        s.putchar(b'\n');
    }
    for _ in 0..VGA_WIDTH {
        s.putchar(b'k');
    }
    assert_eq!(s.cursor(), (0, 24));
    assert_eq!(row_text(&s, 23, 3), b"kkk".to_vec());
    assert_eq!(cell(&s, 0, 24), (BLANK, VGA_COLOR));
}

#[test]
fn println_adds_a_newline() {
    let mut a = blank_screen();
    a.println("hi");
    let mut b = blank_screen();
    b.print("hi\n");
    assert_eq!(a.cells(), b.cells());
    assert_eq!(a.cursor(), (0, 1));
    assert_eq!(b.cursor(), (0, 1));
}

#[test]
fn printing_in_parts_equals_printing_at_once() {
    let mut a = blank_screen();
    a.print("hello ");
    a.print("world\tx");
    let mut b = blank_screen();
    b.print("hello world\tx");
    assert_eq!(a.cells(), b.cells());
    assert_eq!(a.cursor(), b.cursor());
}

#[test]
fn print_bytes_writes_multibyte_text_bytewise() {
    let mut s = blank_screen();
    s.print("é");
    assert_eq!(s.cursor(), (2, 0));
    assert_eq!(row_text(&s, 0, 2), vec![0xC3, 0xA9]);
}

#[test]
fn banner_interleaves_text_and_attribute() {
    assert_eq!(banner_cells(b"ab", 0x4f), vec![b'a', 0x4f, b'b', 0x4f]);
    assert_eq!(banner_cells(b"", 0x0F), Vec::<u8>::new());
}

#[test]
fn boot_and_panic_banners() {
    let boot = boot_banner();
    assert_eq!(boot.len(), 40);
    assert_eq!(&boot[0..4], &[b'M', 0x0F, b'O', 0x0F]);
    let panic = panic_banner();
    assert_eq!(panic, vec![b'P', PANIC_COLOR, b'A', 0x4f, b'N', 0x4f, b'I', 0x4f, b'C', 0x4f, b':', 0x4f, b' ', 0x4f]);
}
