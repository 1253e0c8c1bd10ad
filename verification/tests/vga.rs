use kernel_core::port::PortWrite;
use kernel_core::vga_buffer::{
    cursor_port_writes, Color, ColorCode, ScreenChar, VgaOp, Writer, BUFFER_HEIGHT, BUFFER_SIZE,
    BUFFER_WIDTH, SCREEN_COUNT,
};

const GRAY: ColorCode = ColorCode(0x07);

fn blank(color: ColorCode) -> ScreenChar {
    ScreenChar { ascii_character: b' ', color_code: color }
}

/// A model of the VGA hardware: the text buffer and the cursor register.
struct Hw {
    cells: Vec<ScreenChar>,
    cursor: usize,
}

impl Hw {
    fn showing(w: &Writer) -> Hw {
        let s = w.active();
        let mut cells = Vec::new();
        for row in 0..BUFFER_HEIGHT {
            for col in 0..BUFFER_WIDTH {
                cells.push(w.char_at(s, row, col));
            }
        }
        let (r, c) = w.cursor(s);
        Hw { cells, cursor: r * BUFFER_WIDTH + c }
    }

    fn apply(&mut self, ops: &[VgaOp]) {
        for op in ops {
            match *op {
                VgaOp::Cell { row, col, ch } => self.cells[row * BUFFER_WIDTH + col] = ch,
                VgaOp::Cursor { pos } => self.cursor = pos,
            }
        }
    }

    fn matches(&self, w: &Writer) -> bool {
        let other = Hw::showing(w);
        self.cells == other.cells && self.cursor == other.cursor
    }
}

fn wb(w: &mut Writer, b: u8) -> Vec<VgaOp> {
    let mut ops = Vec::new();
    w.write_byte(b, &mut ops);
    ops
}

fn ws(w: &mut Writer, s: &str) -> Vec<VgaOp> {
    let mut ops = Vec::new();
    w.write_string(s, &mut ops);
    ops
}

fn clear(w: &mut Writer) -> Vec<VgaOp> {
    let mut ops = Vec::new();
    w.clear_screen(&mut ops);
    ops
}

fn switch(w: &mut Writer, i: usize) -> Vec<VgaOp> {
    let mut ops = Vec::new();
    w.switch_screen(i, &mut ops);
    ops
}

fn row_text(w: &Writer, screen: usize, row: usize, len: usize) -> String {
    (0..len).map(|col| w.char_at(screen, row, col).ascii_character as char).collect()
}

#[test]
fn color_numbers_round_trip() {
    for v in 0u8..16 {
        assert_eq!(Color::from_u8(v).to_u8(), v);
    }
    assert_eq!(Color::from_u8(0), Color::Black);
    assert_eq!(Color::from_u8(7), Color::LightGray);
    assert_eq!(Color::from_u8(14), Color::Yellow);
    assert_eq!(Color::from_u8(16), Color::White);
    assert_eq!(Color::from_u8(255), Color::White);
    assert_eq!(Color::Pink.to_u8(), 13);
}

#[test]
fn color_code_packs_background_high() {
    assert_eq!(ColorCode::new(Color::LightGray, Color::Black), ColorCode(0x07));
    assert_eq!(ColorCode::new(Color::Yellow, Color::Blue), ColorCode(0x1E));
    assert_eq!(ColorCode::new(Color::White, Color::White), ColorCode(0xFF));
    let c = ColorCode::new(Color::LightCyan, Color::Red);
    assert_eq!(c.foreground(), Color::LightCyan);
    assert_eq!(c.background(), Color::Red);
    assert_eq!(ColorCode(0xA5).foreground(), Color::Magenta);
    assert_eq!(ColorCode(0xA5).background(), Color::LightGreen);
}

#[test]
fn new_writer_is_blank() {
    let w = Writer::new();
    assert_eq!(w.active(), 0);
    for s in 0..SCREEN_COUNT {
        assert_eq!(w.cursor(s), (0, 0));
        assert_eq!(w.color_code(s), GRAY);
        for row in 0..BUFFER_HEIGHT {
            for col in 0..BUFFER_WIDTH {
                assert_eq!(w.char_at(s, row, col), blank(GRAY));
            }
        }
    }
}

#[test]
fn writing_a_byte_stores_it_and_moves_the_cursor() {
    let mut w = Writer::new();
    let ops = wb(&mut w, b'H');
    let h = ScreenChar { ascii_character: b'H', color_code: GRAY };
    assert_eq!(ops, vec![VgaOp::Cell { row: 0, col: 0, ch: h }, VgaOp::Cursor { pos: 1 }]);
    assert_eq!(w.char_at(0, 0, 0), h);
    assert_eq!(w.cursor(0), (0, 1));
}

#[test]
fn newline_moves_to_next_line_start() {
    let mut w = Writer::new();
    ws(&mut w, "ab");
    let ops = wb(&mut w, b'\n');
    assert_eq!(ops, vec![VgaOp::Cursor { pos: 80 }]);
    assert_eq!(w.cursor(0), (1, 0));
    wb(&mut w, b'c');
    assert_eq!(row_text(&w, 0, 0, 2), "ab");
    assert_eq!(row_text(&w, 0, 1, 1), "c");
}

#[test]
fn full_line_wraps_before_the_next_character() {
    let mut w = Writer::new();
    for _ in 0..BUFFER_WIDTH {
        wb(&mut w, b'x');
    }
    assert_eq!(w.cursor(0), (0, 80));
    let ops = wb(&mut w, b'y');
    assert_eq!(w.cursor(0), (1, 1));
    assert_eq!(w.char_at(0, 1, 0).ascii_character, b'y');
    assert_eq!(ops.len(), 2);
    assert_eq!(ops[1], VgaOp::Cursor { pos: 81 });
}

#[test]
fn newline_on_last_line_scrolls() {
    let mut w = Writer::new();
    for i in 0..BUFFER_HEIGHT {
        wb(&mut w, b'a' + i as u8);
        if i + 1 < BUFFER_HEIGHT {
            wb(&mut w, b'\n');
        }
    }
    assert_eq!(w.cursor(0), (24, 1));
    let ops = wb(&mut w, b'\n');
    assert_eq!(ops.len(), BUFFER_SIZE + 1);
    assert_eq!(ops[BUFFER_SIZE], VgaOp::Cursor { pos: 24 * 80 });
    assert_eq!(w.cursor(0), (24, 0));
    assert_eq!(w.char_at(0, 0, 0).ascii_character, b'b');
    assert_eq!(w.char_at(0, 23, 0).ascii_character, b'y');
    assert_eq!(w.char_at(0, 24, 0), blank(GRAY));
}

#[test]
fn scrolled_line_is_blank_in_current_colour() {
    let mut w = Writer::new();
    w.set_background(Color::Blue);
    for _ in 0..BUFFER_HEIGHT {
        wb(&mut w, b'\n');
    }
    let c = ColorCode::new(Color::LightGray, Color::Blue);
    for col in 0..BUFFER_WIDTH {
        assert_eq!(w.char_at(0, 24, col), blank(c));
    }
    assert_eq!(w.char_at(0, 0, 0), blank(GRAY));
}

#[test]
fn backspace_blanks_previous_cell() {
    let mut w = Writer::new();
    ws(&mut w, "ok");
    let ops = wb(&mut w, 0x08);
    assert_eq!(ops, vec![VgaOp::Cell { row: 0, col: 1, ch: blank(GRAY) }, VgaOp::Cursor { pos: 1 }]);
    assert_eq!(w.cursor(0), (0, 1));
    assert_eq!(row_text(&w, 0, 0, 2), "o ");
}

#[test]
fn backspace_at_line_start_does_nothing() {
    let mut w = Writer::new();
    ws(&mut w, "ab\n");
    let ops = wb(&mut w, 0x08);
    assert_eq!(ops, vec![VgaOp::Cursor { pos: 80 }]);
    assert_eq!(w.cursor(0), (1, 0));
    assert_eq!(row_text(&w, 0, 0, 2), "ab");
}

#[test]
fn unprintable_bytes_become_blocks() {
    let mut w = Writer::new();
    ws(&mut w, "a\u{e9}\x07b");
    // 'é' is two bytes in UTF-8, the bell is one
    let got: Vec<u8> = (0..5).map(|col| w.char_at(0, 0, col).ascii_character).collect();
    assert_eq!(got, vec![b'a', 0xFE, 0xFE, 0xFE, b'b']);
}

#[test]
fn write_string_returns_the_writes_of_each_byte() {
    let mut w1 = Writer::new();
    let mut w2 = Writer::new();
    let ops = ws(&mut w1, "hi\n!");
    let mut expected = Vec::new();
    for b in [b'h', b'i', b'\n', b'!'] {
        expected.extend(wb(&mut w2, b));
    }
    assert_eq!(ops, expected);
}

#[test]
fn clear_screen_blanks_and_homes() {
    let mut w = Writer::new();
    ws(&mut w, "hello\nworld");
    w.set_foreground(Color::Green);
    let ops = clear(&mut w);
    assert_eq!(ops.len(), BUFFER_SIZE + 1);
    assert_eq!(ops[BUFFER_SIZE], VgaOp::Cursor { pos: 0 });
    let c = ColorCode::new(Color::Green, Color::Black);
    assert_eq!(ops[0], VgaOp::Cell { row: 0, col: 0, ch: blank(c) });
    assert_eq!(ops[BUFFER_SIZE - 1], VgaOp::Cell { row: 24, col: 79, ch: blank(c) });
    assert_eq!(w.cursor(0), (0, 0));
    assert_eq!(w.char_at(0, 1, 3), blank(c));
}

#[test]
fn colour_changes_apply_to_later_text() {
    let mut w = Writer::new();
    wb(&mut w, b'a');
    w.set_foreground(Color::Red);
    wb(&mut w, b'b');
    w.set_background(Color::Blue);
    wb(&mut w, b'c');
    assert_eq!(w.char_at(0, 0, 0).color_code, GRAY);
    assert_eq!(w.char_at(0, 0, 1).color_code, ColorCode(0x04));
    assert_eq!(w.char_at(0, 0, 2).color_code, ColorCode(0x14));
    w.set_foreground(Color::White);
    assert_eq!(w.color_code(0), ColorCode(0x1F));
}

#[test]
fn screens_keep_their_own_content() {
    let mut w = Writer::new();
    ws(&mut w, "first");
    let ops = switch(&mut w, 1);
    assert_eq!(w.active(), 1);
    assert_eq!(ops.len(), BUFFER_SIZE + 1);
    assert_eq!(ops[5], VgaOp::Cell { row: 0, col: 5, ch: blank(GRAY) });
    assert_eq!(ops[BUFFER_SIZE], VgaOp::Cursor { pos: 0 });
    ws(&mut w, "second");
    w.set_foreground(Color::Yellow);
    let back = switch(&mut w, 0);
    assert_eq!(back[0], VgaOp::Cell { row: 0, col: 0, ch: ScreenChar { ascii_character: b'f', color_code: GRAY } });
    assert_eq!(back[BUFFER_SIZE], VgaOp::Cursor { pos: 5 });
    assert_eq!(row_text(&w, 0, 0, 5), "first");
    assert_eq!(row_text(&w, 1, 0, 6), "second");
    assert_eq!(w.cursor(1), (0, 6));
    assert_eq!(w.color_code(0), GRAY);
    assert_eq!(w.color_code(1), ColorCode(0x0E));
}

#[test]
fn switching_to_same_or_missing_screen_does_nothing() {
    let mut w = Writer::new();
    ws(&mut w, "x");
    assert!(switch(&mut w, 0).is_empty());
    assert!(switch(&mut w, 3).is_empty());
    assert!(switch(&mut w, usize::MAX).is_empty());
    assert_eq!(w.active(), 0);
    assert_eq!(w.cursor(0), (0, 1));
}

#[test]
fn hardware_follows_the_shown_screen() {
    let mut w = Writer::new();
    let mut hw = Hw::showing(&w);
    let text = "The quick brown fox\njumps\x08\x08 over\tthe lazy dog.\n";
    for round in 0..40 {
        let ops = ws(&mut w, text);
        hw.apply(&ops);
        assert!(hw.matches(&w));
        if round % 7 == 3 {
            let ops = switch(&mut w, (round / 7) % 3);
            hw.apply(&ops);
            assert!(hw.matches(&w));
        }
        if round % 11 == 5 {
            w.set_foreground(Color::from_u8(round as u8));
            let ops = clear(&mut w);
            hw.apply(&ops);
            assert!(hw.matches(&w));
        }
    }
    for _ in 0..200 {
        let ops = wb(&mut w, b'#');
        hw.apply(&ops);
    }
    assert!(hw.matches(&w));
}

#[test]
fn cursor_position_is_sent_in_two_halves() {
    let w = cursor_port_writes(1234);
    assert_eq!(
        w,
        [
            PortWrite { port: 0x3D4, value: 0x0F },
            PortWrite { port: 0x3D5, value: 0xD2 },
            PortWrite { port: 0x3D4, value: 0x0E },
            PortWrite { port: 0x3D5, value: 0x04 },
        ]
    );
    assert_eq!(cursor_port_writes(0)[1].value, 0);
    assert_eq!(cursor_port_writes(2000)[3].value, 7);
}

#[test]
fn writes_are_appended_after_earlier_ones() {
    let mut w = Writer::new();
    let mut ops = vec![VgaOp::Cursor { pos: 999 }];
    w.write_byte(b'a', &mut ops);
    w.write_string("b", &mut ops);
    assert_eq!(ops.len(), 5);
    assert_eq!(ops[0], VgaOp::Cursor { pos: 999 });
    assert_eq!(ops[4], VgaOp::Cursor { pos: 2 });
    w.switch_screen(2, &mut ops);
    assert_eq!(ops.len(), 5 + BUFFER_SIZE + 1);
}
