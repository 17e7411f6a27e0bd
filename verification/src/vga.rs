//! VGA text-mode console: an 80x25 grid of (character, attribute) byte pairs
//! with a cursor, newline, carriage return, tab stops, line wrapping and
//! scrolling.
//!
//! `Screen` holds the bytes that the hardware text buffer shows, laid out as
//! the hardware lays them out: the cell in column `x` and row `y` is the byte
//! pair at offset `(y * 80 + x) * 2`.

use vstd::prelude::*;
use vstd::string::StringSliceAdditionalSpecFns;

verus! {

/// Number of columns of the text screen.
pub const VGA_WIDTH: usize = 80;

/// Number of rows of the text screen.
pub const VGA_HEIGHT: usize = 25;

/// Attribute of the characters the console writes: white on black.
pub const VGA_COLOR: u8 = 0x0F;

/// Number of bytes of the text buffer: two per cell.
pub const VGA_BUFFER_LEN: usize = VGA_WIDTH * VGA_HEIGHT * 2;

/// Bytes of one row of the text buffer.
pub const VGA_ROW_LEN: usize = VGA_WIDTH * 2;

/// Attribute of the panic banner: white on red.
pub const PANIC_COLOR: u8 = 0x4f;

/// The byte of a blank character.
pub const BLANK: u8 = 0x20;

/// What a screen shows: the buffer bytes and the cursor position.
pub struct ScreenView {
    pub cells: Seq<u8>,
    pub x: int,
    pub y: int,
}

/// A screen state is well formed when the buffer has its full size and the
/// cursor stands on a cell of the grid.
pub open spec fn screen_wf(s: ScreenView) -> bool {
    &&& s.cells.len() == VGA_BUFFER_LEN
    &&& 0 <= s.x < VGA_WIDTH
    &&& 0 <= s.y < VGA_HEIGHT
}

/// Byte offset of the cell in column `x` and row `y`.
pub open spec fn cell_offset(x: int, y: int) -> int {
    (y * VGA_WIDTH + x) * 2
}

/// A fully blank buffer: spaces in the console's attribute.
pub open spec fn blank_cells() -> Seq<u8> {
    Seq::new(VGA_BUFFER_LEN as nat, |i: int| if i % 2 == 0 { BLANK } else { VGA_COLOR })
}

/// The buffer moved up by one row: every row takes the contents of the row
/// below it, and the bottom row becomes blank.
pub open spec fn scrolled(cells: Seq<u8>) -> Seq<u8> {
    Seq::new(
        VGA_BUFFER_LEN as nat,
        |i: int|
            if i < VGA_BUFFER_LEN - VGA_ROW_LEN {
                cells[i + VGA_ROW_LEN]
            } else if i % 2 == 0 {
                BLANK
            } else {
                VGA_COLOR
            },
    )
}

/// The first tab stop (a multiple of 8) strictly right of column `x`.
pub open spec fn next_tab_stop(x: int) -> int {
    (x / 8 + 1) * 8
}

/// The effect of one byte before wrapping: newline goes to the start of the
/// next row, carriage return to the start of the row, tab to the next tab
/// stop, and any other byte is written at the cursor, which then moves right.
pub open spec fn advance(s: ScreenView, c: u8) -> ScreenView {
    if c == 10 {
        ScreenView { cells: s.cells, x: 0, y: s.y + 1 }
    } else if c == 13 {
        ScreenView { cells: s.cells, x: 0, y: s.y }
    } else if c == 9 {
        ScreenView { cells: s.cells, x: next_tab_stop(s.x), y: s.y }
    } else {
        let off = cell_offset(s.x, s.y);
        ScreenView { cells: s.cells.update(off, c).update(off + 1, VGA_COLOR), x: s.x + 1, y: s.y }
    }
}

/// A cursor past the right edge goes to the start of the next row.
pub open spec fn wrap_line(s: ScreenView) -> ScreenView {
    if s.x >= VGA_WIDTH {
        ScreenView { cells: s.cells, x: 0, y: s.y + 1 }
    } else {
        s
    }
}

/// A cursor below the bottom row scrolls the screen and stays on the bottom row.
pub open spec fn scroll_if_needed(s: ScreenView) -> ScreenView {
    if s.y >= VGA_HEIGHT {
        ScreenView { cells: scrolled(s.cells), x: s.x, y: VGA_HEIGHT - 1 }
    } else {
        s
    }
}

/// The screen after one byte is put on it.
pub open spec fn put_char(s: ScreenView, c: u8) -> ScreenView {
    scroll_if_needed(wrap_line(advance(s, c)))
}

/// The screen after the bytes are put on it, one after the other.
pub open spec fn put_bytes(s: ScreenView, bytes: Seq<u8>) -> ScreenView
    decreases bytes.len(),
{
    if bytes.len() == 0 {
        s
    } else {
        put_char(put_bytes(s, bytes.drop_last()), bytes.last())
    }
}

/// The screen after a line is printed: its bytes, then a newline.
pub open spec fn print_line(s: ScreenView, line: Seq<u8>) -> ScreenView {
    put_bytes(s, line.push(10))
}

/// Whatever byte is put on a well-formed screen, the screen stays well
/// formed: the cursor never leaves the grid.
pub proof fn lemma_put_char_wf(s: ScreenView, c: u8)
    requires
        screen_wf(s),
    ensures
        screen_wf(put_char(s, c)),
{
    let a = advance(s, c);
    assert(a.cells.len() == VGA_BUFFER_LEN);
    assert(0 <= a.x <= VGA_WIDTH) by {
        if c == 9 {
            assert(next_tab_stop(s.x) <= 80) by (nonlinear_arith)
                requires
                    0 <= s.x < 80,
            ;
        }
    }
    assert(0 <= a.y <= VGA_HEIGHT);
}

/// Putting any bytes on a well-formed screen keeps it well formed.
pub proof fn lemma_cursor_stays_on_screen(s: ScreenView, bytes: Seq<u8>)
    requires
        screen_wf(s),
    ensures
        screen_wf(put_bytes(s, bytes)),
    decreases bytes.len(),
{
    if bytes.len() > 0 {
        lemma_cursor_stays_on_screen(s, bytes.drop_last());
        lemma_put_char_wf(put_bytes(s, bytes.drop_last()), bytes.last());
    }
}

/// Printing `a` and then `b` leaves the screen as printing `a + b` does.
pub proof fn lemma_print_concat(s: ScreenView, a: Seq<u8>, b: Seq<u8>)
    ensures
        put_bytes(s, a + b) == put_bytes(put_bytes(s, a), b),
    decreases b.len(),
{
    if b.len() == 0 {
        assert(a + b =~= a);
    } else {
        lemma_print_concat(s, a, b.drop_last());
        assert((a + b).drop_last() =~= a + b.drop_last());
        assert((a + b).last() == b.last());
    }
}

/// A printable byte put on the screen lands in the cell under the cursor,
/// in the console's attribute, when the screen does not scroll.
pub proof fn lemma_put_char_writes_at_cursor(s: ScreenView, c: u8)
    requires
        screen_wf(s),
        c != 9 && c != 10 && c != 13,
        s.x < VGA_WIDTH - 1 || s.y < VGA_HEIGHT - 1,
    ensures
        put_char(s, c).cells[cell_offset(s.x, s.y)] == c,
        put_char(s, c).cells[cell_offset(s.x, s.y) + 1] == VGA_COLOR,
{
    assert(0 <= cell_offset(s.x, s.y) && cell_offset(s.x, s.y) + 1 < VGA_BUFFER_LEN)
        by (nonlinear_arith)
        requires
            0 <= s.x < 80,
            0 <= s.y < 25,
    ;
}

/// After a tab the cursor stands on the nearest tab stop right of it (a
/// column that is a multiple of 8, at most 8 columns on), or, when no stop
/// is left on the row, at the start of the next row; a tab writes nothing.
pub proof fn lemma_tab_reaches_tab_stop(s: ScreenView)
    requires
        screen_wf(s),
    ensures
        put_char(s, 9).x % 8 == 0,
        put_char(s, 9).x > s.x || put_char(s, 9).x == 0,
        put_char(s, 9).x != 0 || s.y < VGA_HEIGHT - 1 ==> put_char(s, 9).cells == s.cells,
        put_char(s, 9).x != 0 ==> s.x < put_char(s, 9).x <= s.x + 8 && put_char(s, 9).y == s.y,
        s.x < VGA_WIDTH - 8 ==> put_char(s, 9).x != 0,
{
    assert(next_tab_stop(s.x) % 8 == 0 && s.x < next_tab_stop(s.x) <= s.x + 8) by (nonlinear_arith)
        requires
            0 <= s.x,
    ;
    assert(s.x < 72 ==> next_tab_stop(s.x) <= 72) by (nonlinear_arith)
        requires
            0 <= s.x,
    ;
}

/// A printable byte is written in the cell under the cursor, in the
/// console's attribute, and changes no other byte; the cursor moves one
/// column right, or to the start of the next row from the last column.
pub proof fn lemma_printable_advances(s: ScreenView, c: u8)
    requires
        screen_wf(s),
        c != 9 && c != 10 && c != 13,
        s.x < VGA_WIDTH - 1 || s.y < VGA_HEIGHT - 1,
    ensures
        put_char(s, c).cells[cell_offset(s.x, s.y)] == c,
        put_char(s, c).cells[cell_offset(s.x, s.y) + 1] == VGA_COLOR,
        forall|i: int|
            0 <= i < VGA_BUFFER_LEN && i != cell_offset(s.x, s.y) && i != cell_offset(s.x, s.y) + 1
                ==> #[trigger] put_char(s, c).cells[i] == s.cells[i],
        put_char(s, c).cells.len() == VGA_BUFFER_LEN,
        s.x < VGA_WIDTH - 1 ==> put_char(s, c).x == s.x + 1 && put_char(s, c).y == s.y,
        s.x == VGA_WIDTH - 1 ==> put_char(s, c).x == 0 && put_char(s, c).y == s.y + 1,
{
    assert(0 <= cell_offset(s.x, s.y) && cell_offset(s.x, s.y) + 1 < VGA_BUFFER_LEN)
        by (nonlinear_arith)
        requires
            0 <= s.x < 80,
            0 <= s.y < 25,
    ;
}

/// A cleared screen shows a space in the console's attribute in every cell.
pub proof fn lemma_blank_cells(x: int, y: int)
    requires
        0 <= x < VGA_WIDTH,
        0 <= y < VGA_HEIGHT,
    ensures
        blank_cells().len() == VGA_BUFFER_LEN,
        blank_cells()[cell_offset(x, y)] == BLANK,
        blank_cells()[cell_offset(x, y) + 1] == VGA_COLOR,
{
    assert(0 <= cell_offset(x, y) && cell_offset(x, y) + 1 < VGA_BUFFER_LEN && cell_offset(x, y) % 2
        == 0 && (cell_offset(x, y) + 1) % 2 == 1) by (nonlinear_arith)
        requires
            0 <= x < 80,
            0 <= y < 25,
    ;
}

/// A newline moves the cursor to the start of the next row, or, on the bottom
/// row, scrolls the screen up by one row.
pub proof fn lemma_newline(s: ScreenView)
    requires
        screen_wf(s),
    ensures
        put_char(s, 10).x == 0,
        s.y < VGA_HEIGHT - 1 ==> put_char(s, 10).y == s.y + 1 && put_char(s, 10).cells == s.cells,
        s.y == VGA_HEIGHT - 1 ==> put_char(s, 10).y == s.y && put_char(s, 10).cells == scrolled(s.cells),
{
}

/// Scrolling moves every cell of every row up by one whole row, both its
/// character and its attribute, and blanks the bottom row.
pub proof fn lemma_scroll_moves_rows_up(cells: Seq<u8>)
    requires
        cells.len() == VGA_BUFFER_LEN,
    ensures
        scrolled(cells).len() == VGA_BUFFER_LEN,
        forall|x: int, y: int|
            0 <= x < VGA_WIDTH && 0 <= y < VGA_HEIGHT - 1 ==> {
                &&& #[trigger] scrolled(cells)[cell_offset(x, y)] == cells[cell_offset(x, y + 1)]
                &&& scrolled(cells)[cell_offset(x, y) + 1] == cells[cell_offset(x, y + 1) + 1]
            },
        forall|x: int|
            0 <= x < VGA_WIDTH ==> {
                &&& #[trigger] scrolled(cells)[cell_offset(x, VGA_HEIGHT - 1)] == BLANK
                &&& scrolled(cells)[cell_offset(x, VGA_HEIGHT - 1) + 1] == VGA_COLOR
            },
{
    assert forall|x: int, y: int| 0 <= x < VGA_WIDTH && 0 <= y < VGA_HEIGHT - 1 implies {
        &&& #[trigger] scrolled(cells)[cell_offset(x, y)] == cells[cell_offset(x, y + 1)]
        &&& scrolled(cells)[cell_offset(x, y) + 1] == cells[cell_offset(x, y + 1) + 1]
    } by {
        assert(0 <= cell_offset(x, y) && cell_offset(x, y) + 1 < 3840 && cell_offset(x, y) + 160
            == cell_offset(x, y + 1)) by (nonlinear_arith)
            requires
                0 <= x < 80,
                0 <= y < 24,
        ;
    }
    assert forall|x: int| 0 <= x < VGA_WIDTH implies {
        &&& #[trigger] scrolled(cells)[cell_offset(x, VGA_HEIGHT - 1)] == BLANK
        &&& scrolled(cells)[cell_offset(x, VGA_HEIGHT - 1) + 1] == VGA_COLOR
    } by {
        assert(cell_offset(x, 24) == 3840 + 2 * x && (3840 + 2 * x) % 2 == 0 && (3840 + 2 * x + 1)
            % 2 == 1) by (nonlinear_arith)
            requires
                0 <= x < 80,
        ;
    }
}

/// A newline on the bottom row moves the whole screen up by one row: the
/// cell in column `x` of row `y` now shows what the cell of row `y + 1`
/// showed, and the bottom row is blank.
pub proof fn lemma_newline_on_bottom_row(s: ScreenView)
    requires
        screen_wf(s),
        s.y == VGA_HEIGHT - 1,
    ensures
        forall|x: int, y: int|
            0 <= x < VGA_WIDTH && 0 <= y < VGA_HEIGHT - 1 ==> {
                &&& #[trigger] put_char(s, 10).cells[cell_offset(x, y)] == s.cells[cell_offset(x, y + 1)]
                &&& put_char(s, 10).cells[cell_offset(x, y) + 1] == s.cells[cell_offset(x, y + 1) + 1]
            },
        forall|x: int|
            0 <= x < VGA_WIDTH ==> {
                &&& #[trigger] put_char(s, 10).cells[cell_offset(x, VGA_HEIGHT - 1)] == BLANK
                &&& put_char(s, 10).cells[cell_offset(x, VGA_HEIGHT - 1) + 1] == VGA_COLOR
            },
        put_char(s, 10).x == 0,
        put_char(s, 10).y == VGA_HEIGHT - 1,
{
    lemma_scroll_moves_rows_up(s.cells);
    assert(put_char(s, 10).cells == scrolled(s.cells));
}

/// A carriage return moves the cursor to the start of its own row and
/// writes nothing.
pub proof fn lemma_carriage_return(s: ScreenView)
    requires
        screen_wf(s),
    ensures
        put_char(s, 13).x == 0,
        put_char(s, 13).y == s.y,
        put_char(s, 13).cells == s.cells,
{
}

/// The bytes of `text` interleaved with the attribute `attr`, in the layout
/// of the text buffer: what writing `text` from the top-left cell puts there.
pub open spec fn banner_spec(text: Seq<u8>, attr: u8) -> Seq<u8> {
    Seq::new(text.len() * 2, |i: int| if i % 2 == 0 { text[i / 2] } else { attr })
}

/// A banner shows the `i`-th byte of its text in the `i`-th cell, each in
/// the given attribute, and has one cell per byte.
pub proof fn lemma_banner_cells(text: Seq<u8>, attr: u8, i: int)
    requires
        0 <= i < text.len(),
    ensures
        banner_spec(text, attr).len() == text.len() * 2,
        banner_spec(text, attr)[2 * i] == text[i],
        banner_spec(text, attr)[2 * i + 1] == attr,
{
    assert((2 * i) % 2 == 0 && (2 * i) / 2 == i && (2 * i + 1) % 2 == 1) by (nonlinear_arith);
}


/// The buffer bytes that show `text` in the attribute `attr` from the
/// top-left cell on, without a cursor: the boot message and the panic banner
/// are written this way.
pub fn banner_cells(text: &[u8], attr: u8) -> (r: Vec<u8>)
    requires
        text@.len() * 2 <= usize::MAX,
    ensures
        r@ == banner_spec(text@, attr),
{
    let mut r: Vec<u8> = Vec::new();
    let mut i: usize = 0;
    while i < text.len()
        invariant
            i <= text@.len(),
            text@.len() * 2 <= usize::MAX,
            r@.len() == i * 2,
            forall|j: int| 0 <= j < i * 2 ==> r@[j] == banner_spec(text@, attr)[j],
        decreases text@.len() - i,
    {
        r.push(text[i]);
        r.push(attr);
        proof {
            assert forall|j: int| 0 <= j < (i + 1) * 2 implies r@[j] == banner_spec(text@, attr)[j] by {
                if j >= i * 2 {
                    assert(j / 2 == i as int);
                }
            }
        }
        i = i + 1;
    }
    assert(r@ =~= banner_spec(text@, attr));
    r
}

/// The message shown at boot, from the top-left cell.
pub const BOOT_MESSAGE: &'static str = "MONCOMBLE_OS BOOT OK";

/// The banner shown when the kernel panics, from the top-left cell.
pub const PANIC_MESSAGE: &'static str = "PANIC: ";

/// The buffer bytes of the boot message, in the console's attribute.
pub fn boot_banner() -> (r: Vec<u8>)
    ensures
        r@ == banner_spec(BOOT_MESSAGE.spec_bytes(), VGA_COLOR),
{
    proof {
        reveal_strlit("MONCOMBLE_OS BOOT OK");
        assert(vstd::string::is_ascii(BOOT_MESSAGE));
        vstd::string::is_ascii_spec_bytes(BOOT_MESSAGE);
    }
    banner_cells(BOOT_MESSAGE.as_bytes(), VGA_COLOR)
}

/// The buffer bytes of the panic banner, white on red.
pub fn panic_banner() -> (r: Vec<u8>)
    ensures
        r@ == banner_spec(PANIC_MESSAGE.spec_bytes(), PANIC_COLOR),
{
    proof {
        reveal_strlit("PANIC: ");
        assert(vstd::string::is_ascii(PANIC_MESSAGE));
        vstd::string::is_ascii_spec_bytes(PANIC_MESSAGE);
    }
    banner_cells(PANIC_MESSAGE.as_bytes(), PANIC_COLOR)
}

/// The text screen: the bytes of the hardware buffer and the cursor.
pub struct Screen {
    cells: Vec<u8>,
    cursor_x: usize,
    cursor_y: usize,
}

impl View for Screen {
    type V = ScreenView;

    closed spec fn view(&self) -> ScreenView {
        ScreenView { cells: self.cells@, x: self.cursor_x as int, y: self.cursor_y as int }
    }
}

impl Screen {
    #[verifier::type_invariant]
    spec fn inv(self) -> bool {
        screen_wf(self@)
    }

    /// A screen showing the given buffer bytes, with the cursor in the
    /// top-left cell.
    pub fn from_cells(cells: Vec<u8>) -> (s: Screen)
        requires
            cells@.len() == VGA_BUFFER_LEN,
        ensures
            s@ == (ScreenView { cells: cells@, x: 0, y: 0 }),
    {
        Screen { cells, cursor_x: 0, cursor_y: 0 }
    }

    /// The buffer bytes, for copying to the hardware text buffer.
    pub fn cells(&self) -> (r: &[u8])
        ensures
            r@ == self@.cells,
            r@.len() == VGA_BUFFER_LEN,
    {
        proof {
            use_type_invariant(self);
        }
        self.cells.as_slice()
    }

    /// The cursor position, column first; always a cell of the grid.
    pub fn cursor(&self) -> (r: (usize, usize))
        ensures
            r.0 == self@.x,
            r.1 == self@.y,
            r.0 < VGA_WIDTH,
            r.1 < VGA_HEIGHT,
    {
        proof {
            use_type_invariant(self);
        }
        (self.cursor_x, self.cursor_y)
    }

    /// Blanks every cell and puts the cursor in the top-left cell.
    pub fn clear_screen(&mut self)
        ensures
            final(self)@ == (ScreenView { cells: blank_cells(), x: 0, y: 0 }),
    {
        proof {
            use_type_invariant(&*self);
        }
        let mut i: usize = 0;
        while i < VGA_WIDTH * VGA_HEIGHT
            invariant
                i <= VGA_WIDTH * VGA_HEIGHT,
                self.cells@.len() == VGA_BUFFER_LEN,
                screen_wf(self@),
                forall|j: int| 0 <= j < i * 2 ==> self.cells@[j] == blank_cells()[j],
            decreases VGA_WIDTH * VGA_HEIGHT - i,
        {
            let offset = i * 2;
            self.cells[offset] = BLANK;
            self.cells[offset + 1] = VGA_COLOR;
            i = i + 1;
        }
        self.cursor_x = 0;
        self.cursor_y = 0;
        assert(self.cells@ =~= blank_cells());
    }

    /// Moves every row up by one and blanks the bottom row; the cursor stays.
    fn scroll(&mut self)
        ensures
            final(self)@ == (ScreenView { cells: scrolled(old(self)@.cells), x: old(self)@.x, y: old(self)@.y }),
    {
        proof {
            use_type_invariant(&*self);
        }
        let ghost old_cells = self.cells@;
        let mut i: usize = 0;
        while i < VGA_BUFFER_LEN - VGA_ROW_LEN
            invariant
                i <= VGA_BUFFER_LEN - VGA_ROW_LEN,
                old_cells.len() == VGA_BUFFER_LEN,
                self.cells@.len() == VGA_BUFFER_LEN,
                screen_wf(self@),
                self.cursor_x == old(self).cursor_x,
                self.cursor_y == old(self).cursor_y,
                old_cells == old(self)@.cells,
                forall|j: int| 0 <= j < i ==> self.cells@[j] == old_cells[j + VGA_ROW_LEN],
                forall|j: int| i <= j < VGA_BUFFER_LEN ==> self.cells@[j] == old_cells[j],
            decreases VGA_BUFFER_LEN - VGA_ROW_LEN - i,
        {
            let v = self.cells[i + VGA_ROW_LEN];
            self.cells[i] = v;
            i = i + 1;
        }
        let mut x: usize = 0;
        while x < VGA_WIDTH
            invariant
                x <= VGA_WIDTH,
                old_cells.len() == VGA_BUFFER_LEN,
                self.cells@.len() == VGA_BUFFER_LEN,
                screen_wf(self@),
                self.cursor_x == old(self).cursor_x,
                self.cursor_y == old(self).cursor_y,
                old_cells == old(self)@.cells,
                forall|j: int|
                    0 <= j < VGA_BUFFER_LEN - VGA_ROW_LEN + x * 2 ==> self.cells@[j] == scrolled(
                        old_cells,
                    )[j],
            decreases VGA_WIDTH - x,
        {
            let offset = (VGA_BUFFER_LEN - VGA_ROW_LEN) + x * 2;
            self.cells[offset] = BLANK;
            self.cells[offset + 1] = VGA_COLOR;
            x = x + 1;
        }
        assert(self.cells@ =~= scrolled(old_cells));
    }

    /// Puts one byte on the screen at the cursor (see `put_char`).
    pub fn putchar(&mut self, c: u8)
        ensures
            final(self)@ == put_char(old(self)@, c),
    {
        proof {
            use_type_invariant(&*self);
        }
        let x = self.cursor_x;
        let y = self.cursor_y;
        let mut nx: usize;
        let mut ny: usize;
        if c == 10 {
            nx = 0;
            ny = y + 1;
        } else if c == 13 {
            nx = 0;
            ny = y;
        } else if c == 9 {
            let moved = x + 8;
            nx = moved & !7usize;
            proof {
                assert(moved & !7usize == (moved / 8) * 8) by (bit_vector)
                    requires
                        moved < 88usize,
                ;
                assert(moved / 8 == x / 8 + 1);
            }
            ny = y;
        } else {
            assert(0 <= (y * 80 + x) * 2 && (y * 80 + x) * 2 + 1 < 4000) by (nonlinear_arith)
                requires
                    x < 80,
                    y < 25,
            ;
            let offset = (y * VGA_WIDTH + x) * 2;
            self.cells[offset] = c;
            self.cells[offset + 1] = VGA_COLOR;
            nx = x + 1;
            ny = y;
        }
        assert(ScreenView { cells: self.cells@, x: nx as int, y: ny as int } == advance(
            old(self)@,
            c,
        ));
        if nx >= VGA_WIDTH {
            nx = 0;
            ny = ny + 1;
        }
        if ny >= VGA_HEIGHT {
            self.scroll();
            ny = VGA_HEIGHT - 1;
        }
        proof {
            lemma_put_char_wf(old(self)@, c);
        }
        self.cursor_x = nx;
        self.cursor_y = ny;
    }

    /// Puts the bytes on the screen one after the other.
    pub fn print_bytes(&mut self, bytes: &[u8])
        ensures
            final(self)@ == put_bytes(old(self)@, bytes@),
    {
        let mut i: usize = 0;
        while i < bytes.len()
            invariant
                i <= bytes@.len(),
                self@ == put_bytes(old(self)@, bytes@.take(i as int)),
            decreases bytes@.len() - i,
        {
            self.putchar(bytes[i]);
            proof {
                assert(bytes@.take(i + 1).drop_last() =~= bytes@.take(i as int));
            }
            i = i + 1;
        }
        assert(bytes@.take(i as int) =~= bytes@);
    }

    /// Prints a string: its UTF-8 bytes, one after the other.
    pub fn print(&mut self, s: &str)
        ensures
            final(self)@ == put_bytes(old(self)@, s.spec_bytes()),
    {
        self.print_bytes(s.as_bytes());
    }

    /// Prints a string, then a newline.
    pub fn println(&mut self, s: &str)
        ensures
            final(self)@ == print_line(old(self)@, s.spec_bytes()),
    {
        self.print(s);
        self.putchar(10);
        proof {
            lemma_print_concat(old(self)@, s.spec_bytes(), seq![10u8]);
            assert(s.spec_bytes() + seq![10u8] =~= s.spec_bytes().push(10));
            assert(put_bytes(put_bytes(old(self)@, s.spec_bytes()), seq![10u8]) == put_char(
                put_bytes(old(self)@, s.spec_bytes()),
                10,
            )) by {
                let t = put_bytes(old(self)@, s.spec_bytes());
                assert(seq![10u8].drop_last() =~= Seq::<u8>::empty());
                assert(seq![10u8].last() == 10u8);
                assert(put_bytes(t, Seq::<u8>::empty()) == t);
            }
        }
    }
}

} // verus!
