use vstd::prelude::*;
use vstd::string::StringSliceAdditionalSpecFns;
use crate::port::PortWrite;

verus! {

/// Rows of the VGA text buffer.
pub const BUFFER_HEIGHT: usize = 25;

/// Columns of the VGA text buffer.
pub const BUFFER_WIDTH: usize = 80;

/// Cells of one screen, stored row after row.
pub const BUFFER_SIZE: usize = 2000;

/// Number of virtual screens the writer keeps.
pub const SCREEN_COUNT: usize = 3;

/// The sixteen VGA text-mode colours.
#[derive(Debug, Clone, Copy, PartialEq, Eq, Structural)]
pub enum Color {
    Black,
    Blue,
    Green,
    Cyan,
    Red,
    Magenta,
    Brown,
    LightGray,
    DarkGray,
    LightBlue,
    LightGreen,
    LightCyan,
    LightRed,
    Pink,
    Yellow,
    White,
}

impl Color {
    /// The 4-bit VGA number of the colour.
    pub open spec fn code(self) -> u8 {
        match self {
            Color::Black => 0,
            Color::Blue => 1,
            Color::Green => 2,
            Color::Cyan => 3,
            Color::Red => 4,
            Color::Magenta => 5,
            Color::Brown => 6,
            Color::LightGray => 7,
            Color::DarkGray => 8,
            Color::LightBlue => 9,
            Color::LightGreen => 10,
            Color::LightCyan => 11,
            Color::LightRed => 12,
            Color::Pink => 13,
            Color::Yellow => 14,
            Color::White => 15,
        }
    }

    /// The colour's VGA number.
    pub fn to_u8(self) -> (v: u8)
        ensures
            v == self.code(),
    {
        match self {
            Color::Black => 0,
            Color::Blue => 1,
            Color::Green => 2,
            Color::Cyan => 3,
            Color::Red => 4,
            Color::Magenta => 5,
            Color::Brown => 6,
            Color::LightGray => 7,
            Color::DarkGray => 8,
            Color::LightBlue => 9,
            Color::LightGreen => 10,
            Color::LightCyan => 11,
            Color::LightRed => 12,
            Color::Pink => 13,
            Color::Yellow => 14,
            Color::White => 15,
        }
    }

    /// The colour with VGA number `v`; every number above 15 gives `White`.
    pub fn from_u8(v: u8) -> (c: Color)
        ensures
            c.code() == (if v < 16 { v } else { 15 }),
    {
        match v {
            0 => Color::Black,
            1 => Color::Blue,
            2 => Color::Green,
            3 => Color::Cyan,
            4 => Color::Red,
            5 => Color::Magenta,
            6 => Color::Brown,
            7 => Color::LightGray,
            8 => Color::DarkGray,
            9 => Color::LightBlue,
            10 => Color::LightGreen,
            11 => Color::LightCyan,
            12 => Color::LightRed,
            13 => Color::Pink,
            14 => Color::Yellow,
            _ => Color::White,
        }
    }
}

/// A colour attribute byte: background in the high nibble, foreground in the low one.
#[derive(Debug, Clone, Copy, PartialEq, Eq, Structural)]
pub struct ColorCode(pub u8);

impl ColorCode {
    /// The attribute byte for the two colours.
    pub fn new(foreground: Color, background: Color) -> (c: ColorCode)
        ensures
            c.0 == background.code() * 16 + foreground.code(),
    {
        let fg = foreground.to_u8();
        let bg = background.to_u8();
        assert((bg << 4u8) | fg == bg * 16 + fg) by (bit_vector)
            requires
                fg < 16,
                bg < 16,
        ;
        ColorCode((bg << 4u8) | fg)
    }

    /// The foreground colour (low nibble).
    pub fn foreground(&self) -> (c: Color)
        ensures
            c.code() == self.0 % 16,
    {
        let v = self.0;
        assert(v & 0x0F == v % 16 && v % 16 < 16) by (bit_vector);
        Color::from_u8(v & 0x0F)
    }

    /// The background colour (high nibble).
    pub fn background(&self) -> (c: Color)
        ensures
            c.code() == self.0 / 16,
    {
        let v = self.0;
        assert((v >> 4u8) & 0x0F == v / 16 && v / 16 < 16) by (bit_vector);
        Color::from_u8((v >> 4u8) & 0x0F)
    }
}


/// One character cell: an ASCII byte and its colour attribute.
#[derive(Debug, Clone, Copy, PartialEq, Eq, Structural)]
pub struct ScreenChar {
    pub ascii_character: u8,
    pub color_code: ColorCode,
}

/// A hardware write the writer asks for, in the order it must be done.
#[derive(Debug, Clone, Copy, PartialEq, Eq, Structural)]
pub enum VgaOp {
    /// Store `ch` in the text buffer at `row`, `col`.
    Cell { row: usize, col: usize, ch: ScreenChar },
    /// Move the hardware cursor to linear position `pos` (`row * BUFFER_WIDTH + col`).
    Cursor { pos: usize },
}

/// One virtual screen: its own character buffer (row after row), cursor and colour.
#[derive(Clone, Copy)]
pub struct Screen {
    buffer: [ScreenChar; BUFFER_SIZE],
    row_position: usize,
    column_position: usize,
    color_code: ColorCode,
}

/// The abstract content of a screen.
pub ghost struct ScreenView {
    pub cells: Seq<ScreenChar>,
    pub row: int,
    pub col: int,
    pub color: ColorCode,
}

/// The abstract content of the writer: all screens and which one is shown.
pub ghost struct WriterView {
    pub screens: Seq<ScreenView>,
    pub active: int,
}

/// Light gray on black, the colour every screen starts with.
pub open spec fn default_color() -> ColorCode {
    ColorCode(0x07)
}

/// A blank cell in the given colour.
pub open spec fn blank(color: ColorCode) -> ScreenChar {
    ScreenChar { ascii_character: 0x20, color_code: color }
}

/// Linear index of a cell.
pub open spec fn cell_index(row: int, col: int) -> int {
    row * (BUFFER_WIDTH as int) + col
}

/// A screen's invariant: a full buffer, the cursor row on screen, and the cursor
/// column at most one past the last column (a pending wrap).
pub open spec fn screen_ok(s: ScreenView) -> bool {
    &&& s.cells.len() == BUFFER_SIZE
    &&& 0 <= s.row < BUFFER_HEIGHT
    &&& 0 <= s.col <= BUFFER_WIDTH
}

/// Every line moves up by one and the bottom line is blanked in `fill`.
pub open spec fn scroll_up(cells: Seq<ScreenChar>, fill: ScreenChar) -> Seq<ScreenChar> {
    cells.subrange(BUFFER_WIDTH as int, BUFFER_SIZE as int) + Seq::new(BUFFER_WIDTH as nat, |i: int| fill)
}

/// Newline: the cursor goes to the start of the next line, scrolling when on the last line.
pub open spec fn line_feed(s: ScreenView) -> ScreenView {
    if s.row < BUFFER_HEIGHT - 1 {
        ScreenView { row: s.row + 1, col: 0, ..s }
    } else {
        ScreenView { cells: scroll_up(s.cells, blank(s.color)), col: 0, ..s }
    }
}

/// The screen after a printable byte: wrap first when the line is full, then store
/// the byte at the cursor in the current colour and advance.
pub open spec fn put_byte(s: ScreenView, byte: u8) -> ScreenView {
    let s1 = if s.col >= BUFFER_WIDTH { line_feed(s) } else { s };
    ScreenView {
        cells: s1.cells.update(cell_index(s1.row, s1.col), ScreenChar { ascii_character: byte, color_code: s1.color }),
        col: s1.col + 1,
        ..s1
    }
}

/// Backspace: step back one column (never past the line start) and blank that cell.
pub open spec fn rub_out(s: ScreenView) -> ScreenView {
    if s.col > 0 {
        ScreenView { cells: s.cells.update(cell_index(s.row, s.col - 1), blank(s.color)), col: s.col - 1, ..s }
    } else {
        s
    }
}

/// The screen after the writer receives `byte`.
pub open spec fn after_byte(s: ScreenView, byte: u8) -> ScreenView {
    if byte == 0x0A {
        line_feed(s)
    } else if byte == 0x08 {
        rub_out(s)
    } else {
        put_byte(s, byte)
    }
}

/// Writing the whole buffer to the hardware, row after row.
pub open spec fn flush_ops(cells: Seq<ScreenChar>) -> Seq<VgaOp> {
    Seq::new(
        BUFFER_SIZE as nat,
        |i: int| VgaOp::Cell { row: (i / BUFFER_WIDTH as int) as usize, col: (i % BUFFER_WIDTH as int) as usize, ch: cells[i] },
    )
}

/// Placing the hardware cursor where the screen's cursor is.
pub open spec fn cursor_op(s: ScreenView) -> VgaOp {
    VgaOp::Cursor { pos: cell_index(s.row, s.col) as usize }
}

/// The hardware writes of a newline: none, or a full repaint when the screen scrolled.
pub open spec fn line_feed_ops(s: ScreenView) -> Seq<VgaOp> {
    if s.row < BUFFER_HEIGHT - 1 {
        Seq::empty()
    } else {
        flush_ops(line_feed(s).cells)
    }
}

/// The hardware writes for one byte, ending with the cursor update.
pub open spec fn byte_ops(s: ScreenView, byte: u8) -> Seq<VgaOp> {
    let body = if byte == 0x0A {
        line_feed_ops(s)
    } else if byte == 0x08 {
        if s.col > 0 {
            seq![VgaOp::Cell { row: s.row as usize, col: (s.col - 1) as usize, ch: blank(s.color) }]
        } else {
            Seq::empty()
        }
    } else {
        let s1 = if s.col >= BUFFER_WIDTH { line_feed(s) } else { s };
        let pre = if s.col >= BUFFER_WIDTH { line_feed_ops(s) } else { Seq::empty() };
        pre.push(VgaOp::Cell { row: s1.row as usize, col: s1.col as usize, ch: ScreenChar { ascii_character: byte, color_code: s1.color } })
    };
    body.push(cursor_op(after_byte(s, byte)))
}

impl View for Screen {
    type V = ScreenView;

    closed spec fn view(&self) -> ScreenView {
        ScreenView {
            cells: self.buffer@,
            row: self.row_position as int,
            col: self.column_position as int,
            color: self.color_code,
        }
    }
}

impl Screen {
    /// A blank light-gray-on-black screen with the cursor at the top left.
    pub fn new() -> (s: Screen)
        ensures
            s@ == Screen::new_view(),
    {
        let color = ColorCode::new(Color::LightGray, Color::Black);
        let blank_char = ScreenChar { ascii_character: ' ' as u8, color_code: color };
        let s = Screen {
            buffer: [blank_char; BUFFER_SIZE],
            row_position: 0,
            column_position: 0,
            color_code: color,
        };
        proof {
            assert(s@.cells =~= Seq::new(BUFFER_SIZE as nat, |i: int| blank(default_color())));
        }
        s
    }
}


/// The screen the writer shows.
pub open spec fn active_screen(w: WriterView) -> ScreenView {
    w.screens[w.active]
}

/// The writer with its shown screen replaced by `s`.
pub open spec fn with_active(w: WriterView, s: ScreenView) -> WriterView {
    WriterView { screens: w.screens.update(w.active, s), ..w }
}

/// The writer's invariant: three well-formed screens and a valid shown screen.
pub open spec fn writer_ok(w: WriterView) -> bool {
    &&& w.screens.len() == SCREEN_COUNT
    &&& 0 <= w.active < SCREEN_COUNT
    &&& forall|i: int| 0 <= i < SCREEN_COUNT ==> #[trigger] screen_ok(w.screens[i])
}

/// The text-mode console: several virtual screens kept in memory, one of them shown.
///
/// The in-memory screens are the source of truth. Every operation returns the
/// hardware writes (`VgaOp`) that mirror its effect onto the VGA text buffer and
/// the cursor registers; the caller performs them in order.
pub struct Writer {
    screens: [Screen; SCREEN_COUNT],
    active: usize,
}

impl Writer {
    #[verifier::type_invariant]
    spec fn inv(&self) -> bool {
        &&& self.active < SCREEN_COUNT
        &&& forall|i: int|
            0 <= i < SCREEN_COUNT ==> #[trigger] self.screens@[i].row_position < BUFFER_HEIGHT
                && self.screens@[i].column_position <= BUFFER_WIDTH
    }

    proof fn lemma_inv_ok(&self)
        requires
            self.inv(),
        ensures
            writer_ok(self@),
    {
        assert forall|i: int| 0 <= i < SCREEN_COUNT implies #[trigger] screen_ok(self@.screens[i]) by {
            assert(self.screens@[i].row_position < BUFFER_HEIGHT);
        }
    }
}

impl View for Writer {
    type V = WriterView;

    closed spec fn view(&self) -> WriterView {
        WriterView { screens: self.screens@.map_values(|s: Screen| s@), active: self.active as int }
    }
}

impl Writer {
    /// Three blank screens, the first one shown.
    pub fn new() -> (w: Writer)
        ensures
            writer_ok(w@),
            w@.active == 0,
            forall|i: int| 0 <= i < SCREEN_COUNT ==> #[trigger] w@.screens[i] == Screen::new_view(),
    {
        let s = Screen::new();
        let w = Writer { screens: [s; SCREEN_COUNT], active: 0 };
        w
    }

    fn flush(&self, ops: &mut Vec<VgaOp>)
        requires
            writer_ok(self@),
        ensures
            final(ops)@ == old(ops)@ + flush_ops(active_screen(self@).cells),
    {
        let active = self.active;
        let ghost cells = active_screen(self@).cells;
        let mut i: usize = 0;
        while i < BUFFER_SIZE
            invariant
                i <= BUFFER_SIZE,
                active == self.active,
                writer_ok(self@),
                cells == active_screen(self@).cells,
                ops@ == old(ops)@ + flush_ops(cells).take(i as int),
            decreases BUFFER_SIZE - i,
        {
            let sc = self.screens[active].buffer[i];
            ops.push(VgaOp::Cell { row: i / BUFFER_WIDTH, col: i % BUFFER_WIDTH, ch: sc });
            proof {
                assert(flush_ops(cells).take(i as int + 1) =~= flush_ops(cells).take(i as int).push(
                    flush_ops(cells)[i as int],
                ));
            }
            i = i + 1;
        }
        proof {
            assert(flush_ops(cells).take(BUFFER_SIZE as int) =~= flush_ops(cells));
        }
    }

    proof fn lemma_active(&self)
        requires
            writer_ok(self@),
        ensures
            self.screens@[self.active as int]@ == active_screen(self@),
            screen_ok(active_screen(self@)),
            self.screens@[self.active as int].row_position < BUFFER_HEIGHT,
            self.screens@[self.active as int].column_position <= BUFFER_WIDTH,
    {
        assert(screen_ok(self@.screens[self.active as int]));
    }

    fn update_cursor(&self, ops: &mut Vec<VgaOp>)
        requires
            writer_ok(self@),
        ensures
            final(ops)@ == old(ops)@.push(cursor_op(active_screen(self@))),
    {
        let active = self.active;
        proof {
            self.lemma_active();
        }
        let pos = self.screens[active].row_position * BUFFER_WIDTH + self.screens[active].column_position;
        ops.push(VgaOp::Cursor { pos });
    }
}

impl Writer {
    /// The screens other than the shown one are as in `other`, which has the same shown screen index.
    spec fn others_unchanged(&self, other: &Writer) -> bool {
        &&& self.active == other.active
        &&& self.screens@.len() == SCREEN_COUNT
        &&& forall|k: int| 0 <= k < SCREEN_COUNT && k != self.active ==> self.screens@[k] == other.screens@[k]
    }

    proof fn lemma_with_active(&self, other: &Writer, s: ScreenView)
        requires
            writer_ok(other@),
            self.others_unchanged(other),
            self.screens@[self.active as int]@ == s,
            screen_ok(s),
        ensures
            self@ == with_active(other@, s),
            writer_ok(self@),
    {
        assert(self@.screens =~= other@.screens.update(other.active as int, s));
        assert forall|i: int| 0 <= i < SCREEN_COUNT implies #[trigger] screen_ok(self@.screens[i]) by {
            if i != self.active {
                assert(screen_ok(other@.screens[i]));
            }
        }
    }

    fn new_line(&mut self, ops: &mut Vec<VgaOp>)
        requires
            writer_ok(old(self)@),
        ensures
            writer_ok(final(self)@),
            final(self)@ == with_active(old(self)@, line_feed(active_screen(old(self)@))),
            final(ops)@ == old(ops)@ + line_feed_ops(active_screen(old(self)@)),
    {
        proof {
            use_type_invariant(&*self);
        }
        proof {
            self.lemma_active();
        }
        let ghost s0 = active_screen(self@);
        let active = self.active;
        if self.screens[active].row_position < BUFFER_HEIGHT - 1 {
            self.screens[active].row_position += 1;
            self.screens[active].column_position = 0;
            proof {
                assert(self.screens@[active as int]@.cells =~= s0.cells);
                self.lemma_with_active(old(self), line_feed(s0));
                assert(ops@ =~= old(ops)@ + line_feed_ops(s0));
            }
        } else {
            // scroll every line up by one
            let mut i: usize = BUFFER_WIDTH;
            while i < BUFFER_SIZE
                invariant
                    BUFFER_WIDTH <= i <= BUFFER_SIZE,
                    active == self.active,
                    active < SCREEN_COUNT,
                    self.others_unchanged(old(self)),
                self.inv(),
                    self.screens@[active as int].row_position == old(self).screens@[active as int].row_position,
                    self.screens@[active as int].column_position == old(self).screens@[active as int].column_position,
                    self.screens@[active as int].color_code == old(self).screens@[active as int].color_code,
                    forall|j: int| 0 <= j < i - BUFFER_WIDTH ==> self.screens@[active as int].buffer@[j] == s0.cells[j + BUFFER_WIDTH],
                    forall|j: int| i - BUFFER_WIDTH <= j < BUFFER_SIZE ==> self.screens@[active as int].buffer@[j] == s0.cells[j],
                    s0 == old(self).screens@[active as int]@,
                decreases BUFFER_SIZE - i,
            {
                let sc = self.screens[active].buffer[i];
                self.screens[active].buffer[i - BUFFER_WIDTH] = sc;
                i = i + 1;
            }
            let blank_char = ScreenChar { ascii_character: ' ' as u8, color_code: self.screens[active].color_code };
            let mut col: usize = 0;
            while col < BUFFER_WIDTH
                invariant
                    col <= BUFFER_WIDTH,
                    active == self.active,
                    active < SCREEN_COUNT,
                    self.others_unchanged(old(self)),
                self.inv(),
                    self.screens@[active as int].row_position == old(self).screens@[active as int].row_position,
                    self.screens@[active as int].column_position == old(self).screens@[active as int].column_position,
                    self.screens@[active as int].color_code == old(self).screens@[active as int].color_code,
                    blank_char == blank(s0.color),
                    forall|j: int| 0 <= j < BUFFER_SIZE - BUFFER_WIDTH ==> self.screens@[active as int].buffer@[j] == s0.cells[j + BUFFER_WIDTH],
                    forall|j: int| BUFFER_SIZE - BUFFER_WIDTH <= j < BUFFER_SIZE - BUFFER_WIDTH + col ==> self.screens@[active as int].buffer@[j] == blank_char,
                    s0 == old(self).screens@[active as int]@,
                decreases BUFFER_WIDTH - col,
            {
                self.screens[active].buffer[BUFFER_SIZE - BUFFER_WIDTH + col] = blank_char;
                col = col + 1;
            }
            self.screens[active].column_position = 0;
            proof {
                assert(self.screens@[active as int]@.cells =~= scroll_up(s0.cells, blank(s0.color)));
                self.lemma_with_active(old(self), line_feed(s0));
            }
            self.flush(ops);
        }
    }
}

/// The attribute with its foreground replaced.
pub open spec fn with_foreground(c: ColorCode, fg: Color) -> ColorCode {
    ColorCode(((c.0 / 16) * 16 + fg.code()) as u8)
}

/// The attribute with its background replaced.
pub open spec fn with_background(c: ColorCode, bg: Color) -> ColorCode {
    ColorCode((bg.code() * 16 + c.0 % 16) as u8)
}

/// What the writer stores for a byte of a string: printable ASCII, newline and
/// backspace pass through; anything else becomes the block character 0xFE.
pub open spec fn sanitize(b: u8) -> u8 {
    if (0x20 <= b <= 0x7E) || b == 0x0A || b == 0x08 {
        b
    } else {
        0xFE
    }
}

/// The writer after receiving `byte` on its shown screen.
pub open spec fn writer_after_byte(w: WriterView, byte: u8) -> WriterView {
    with_active(w, after_byte(active_screen(w), byte))
}

/// The writer after a whole string of bytes, each one sanitized first.
pub open spec fn writer_after_bytes(w: WriterView, bytes: Seq<u8>) -> WriterView
    decreases bytes.len(),
{
    if bytes.len() == 0 {
        w
    } else {
        writer_after_byte(writer_after_bytes(w, bytes.drop_last()), sanitize(bytes.last()))
    }
}

/// The hardware writes of a whole string of bytes, in order.
pub open spec fn bytes_ops(w: WriterView, bytes: Seq<u8>) -> Seq<VgaOp>
    decreases bytes.len(),
{
    if bytes.len() == 0 {
        Seq::empty()
    } else {
        let before = writer_after_bytes(w, bytes.drop_last());
        bytes_ops(w, bytes.drop_last()) + byte_ops(active_screen(before), sanitize(bytes.last()))
    }
}

/// The shown screen after clearing: blank in its colour, cursor at the top left.
pub open spec fn cleared(s: ScreenView) -> ScreenView {
    ScreenView { cells: Seq::new(BUFFER_SIZE as nat, |i: int| blank(s.color)), row: 0, col: 0, ..s }
}

impl Writer {
    fn backspace(&mut self, ops: &mut Vec<VgaOp>)
        requires
            writer_ok(old(self)@),
        ensures
            writer_ok(final(self)@),
            final(self)@ == with_active(old(self)@, rub_out(active_screen(old(self)@))),
            final(ops)@ == old(ops)@ + (if active_screen(old(self)@).col > 0 {
                seq![VgaOp::Cell {
                    row: active_screen(old(self)@).row as usize,
                    col: (active_screen(old(self)@).col - 1) as usize,
                    ch: blank(active_screen(old(self)@).color),
                }]
            } else {
                Seq::empty()
            }),
    {
        proof {
            use_type_invariant(&*self);
        }
        proof {
            self.lemma_active();
        }
        let ghost s0 = active_screen(self@);
        let active = self.active;
        if self.screens[active].column_position > 0 {
            self.screens[active].column_position -= 1;
            let row = self.screens[active].row_position;
            let col = self.screens[active].column_position;
            let color = self.screens[active].color_code;
            let blank_char = ScreenChar { ascii_character: ' ' as u8, color_code: color };
            self.screens[active].buffer[row * BUFFER_WIDTH + col] = blank_char;
            ops.push(VgaOp::Cell { row, col, ch: blank_char });
            proof {
                self.lemma_with_active(old(self), rub_out(s0));
                assert(ops@ =~= old(ops)@ + seq![VgaOp::Cell { row, col, ch: blank_char }]);
            }
        } else {
            proof {
                self.lemma_with_active(old(self), rub_out(s0));
                assert(ops@ =~= old(ops)@ + Seq::<VgaOp>::empty());
            }
        }
    }

    fn write_byte_into(&mut self, byte: u8, ops: &mut Vec<VgaOp>)
        requires
            writer_ok(old(self)@),
        ensures
            writer_ok(final(self)@),
            final(self)@ == writer_after_byte(old(self)@, byte),
            final(ops)@ == old(ops)@ + byte_ops(active_screen(old(self)@), byte),
    {
        proof {
            use_type_invariant(&*self);
        }
        let ghost s0 = active_screen(self@);
        if byte == 0x0A {
            self.new_line(ops);
        } else if byte == 0x08 {
            self.backspace(ops);
        } else {
            proof {
                self.lemma_active();
            }
            if self.screens[self.active].column_position >= BUFFER_WIDTH {
                self.new_line(ops);
            }
            proof {
                use_type_invariant(&*self);
                self.lemma_active();
            }
            let ghost s1 = active_screen(self@);
            let ghost mid: Writer = *self;
            assert(s1 == (if s0.col >= BUFFER_WIDTH { line_feed(s0) } else { s0 }));
            assert(self@ == with_active(old(self)@, s1)) by {
                if s0.col < BUFFER_WIDTH {
                    assert(old(self)@.screens.update(old(self)@.active, s0) =~= old(self)@.screens);
                }
            }
            let active = self.active;
            let row = self.screens[active].row_position;
            let col = self.screens[active].column_position;
            let color = self.screens[active].color_code;
            let sc = ScreenChar { ascii_character: byte, color_code: color };
            proof {
                assert(col < BUFFER_WIDTH);
            }
            self.screens[active].buffer[row * BUFFER_WIDTH + col] = sc;
            ops.push(VgaOp::Cell { row, col, ch: sc });
            self.screens[active].column_position += 1;
            proof {
                self.lemma_with_active(&mid, put_byte(s0, byte));
                assert(self@.screens =~= old(self)@.screens.update(old(self)@.active, put_byte(s0, byte)));
            }
        }
        self.update_cursor(ops);
        proof {
            assert(ops@ =~= old(ops)@ + byte_ops(active_screen(old(self)@), byte));
        }
    }
}

impl Writer {
    /// Writes one byte to the shown screen: newline, backspace, or a character
    /// (wrapping to the next line when the current one is full, scrolling at the bottom).
    /// Appends to `ops` the hardware writes that mirror the change, ending with the
    /// cursor update.
    pub fn write_byte(&mut self, byte: u8, ops: &mut Vec<VgaOp>)
        ensures
            writer_ok(old(self)@),
            writer_ok(final(self)@),
            final(self)@ == writer_after_byte(old(self)@, byte),
            final(ops)@ == old(ops)@ + byte_ops(active_screen(old(self)@), byte),
    {
        proof {
            use_type_invariant(&*self);
            self.lemma_inv_ok();
        }
        self.write_byte_into(byte, ops);
    }

    /// Writes every byte of `s`; bytes other than printable ASCII, newline and
    /// backspace are shown as the block character 0xFE. Appends the hardware writes
    /// of every byte, in order, to `ops`.
    pub fn write_string(&mut self, s: &str, ops: &mut Vec<VgaOp>)
        ensures
            writer_ok(old(self)@),
            writer_ok(final(self)@),
            final(self)@ == writer_after_bytes(old(self)@, s.spec_bytes()),
            final(ops)@ == old(ops)@ + bytes_ops(old(self)@, s.spec_bytes()),
    {
        proof {
            use_type_invariant(&*self);
            self.lemma_inv_ok();
        }
        let bytes = s.as_bytes();
        let ghost ops0 = ops@;
        let mut i: usize = 0;
        while i < bytes.len()
            invariant
                i <= bytes@.len(),
                bytes@ == s.spec_bytes(),
                writer_ok(self@),
                self@ == writer_after_bytes(old(self)@, bytes@.take(i as int)),
                ops@ == ops0 + bytes_ops(old(self)@, bytes@.take(i as int)),
            decreases bytes@.len() - i,
        {
            let byte = bytes[i];
            let b = if (byte >= 32 && byte <= 126) || byte == 0x0A || byte == 0x08 {
                byte
            } else {
                0xfe
            };
            self.write_byte_into(b, ops);
            proof {
                assert(bytes@.take(i as int + 1).drop_last() =~= bytes@.take(i as int));
                assert(ops@ =~= ops0 + bytes_ops(old(self)@, bytes@.take(i as int + 1)));
            }
            i = i + 1;
        }
        proof {
            assert(bytes@.take(bytes@.len() as int) =~= bytes@);
        }
    }

    /// Blanks the shown screen in its current colour and homes the cursor;
    /// appends a full repaint followed by the cursor update to `ops`.
    pub fn clear_screen(&mut self, ops: &mut Vec<VgaOp>)
        ensures
            writer_ok(old(self)@),
            writer_ok(final(self)@),
            final(self)@ == with_active(old(self)@, cleared(active_screen(old(self)@))),
            final(ops)@ == old(ops)@ + flush_ops(cleared(active_screen(old(self)@)).cells).push(
                cursor_op(cleared(active_screen(old(self)@))),
            ),
    {
        proof {
            use_type_invariant(&*self);
            self.lemma_inv_ok();
        }
        proof {
            self.lemma_active();
        }
        let ghost s0 = active_screen(self@);
        let active = self.active;
        let blank_char = ScreenChar { ascii_character: ' ' as u8, color_code: self.screens[active].color_code };
        let mut i: usize = 0;
        while i < BUFFER_SIZE
            invariant
                i <= BUFFER_SIZE,
                active == self.active,
                active < SCREEN_COUNT,
                self.others_unchanged(old(self)),
                self.inv(),
                self.screens@[active as int].row_position == old(self).screens@[active as int].row_position,
                self.screens@[active as int].column_position == old(self).screens@[active as int].column_position,
                self.screens@[active as int].color_code == old(self).screens@[active as int].color_code,
                blank_char == blank(s0.color),
                forall|j: int| 0 <= j < i ==> self.screens@[active as int].buffer@[j] == blank_char,
                s0 == old(self).screens@[active as int]@,
            decreases BUFFER_SIZE - i,
        {
            self.screens[active].buffer[i] = blank_char;
            i = i + 1;
        }
        self.screens[active].row_position = 0;
        self.screens[active].column_position = 0;
        proof {
            assert(self.screens@[active as int]@.cells =~= cleared(s0).cells);
            self.lemma_with_active(old(self), cleared(s0));
        }
        self.flush(ops);
        self.update_cursor(ops);
        proof {
            assert(ops@ =~= old(ops)@ + flush_ops(cleared(s0).cells).push(cursor_op(cleared(s0))));
        }
    }

    /// Changes the foreground colour used for later characters on the shown screen.
    pub fn set_foreground(&mut self, foreground: Color)
        ensures
            writer_ok(old(self)@),
            writer_ok(final(self)@),
            final(self)@ == with_active(
                old(self)@,
                ScreenView {
                    color: with_foreground(active_screen(old(self)@).color, foreground),
                    ..active_screen(old(self)@)
                },
            ),
    {
        proof {
            use_type_invariant(&*self);
            self.lemma_inv_ok();
        }
        proof {
            self.lemma_active();
        }
        let active = self.active;
        let bg = self.screens[active].color_code.background();
        let code = ColorCode::new(foreground, bg);
        self.screens[active].color_code = code;
        proof {
            let s0 = active_screen(old(self)@);
            assert(code.0 == (s0.color.0 / 16) * 16 + foreground.code());
            self.lemma_with_active(old(self), ScreenView { color: with_foreground(s0.color, foreground), ..s0 });
        }
    }

    /// Changes the background colour used for later characters on the shown screen.
    pub fn set_background(&mut self, background: Color)
        ensures
            writer_ok(old(self)@),
            writer_ok(final(self)@),
            final(self)@ == with_active(
                old(self)@,
                ScreenView {
                    color: with_background(active_screen(old(self)@).color, background),
                    ..active_screen(old(self)@)
                },
            ),
    {
        proof {
            use_type_invariant(&*self);
            self.lemma_inv_ok();
        }
        proof {
            self.lemma_active();
        }
        let active = self.active;
        let fg = self.screens[active].color_code.foreground();
        let code = ColorCode::new(fg, background);
        self.screens[active].color_code = code;
        proof {
            let s0 = active_screen(old(self)@);
            self.lemma_with_active(old(self), ScreenView { color: with_background(s0.color, background), ..s0 });
        }
    }

    /// Shows screen `index`. An index outside `0..SCREEN_COUNT`, or the screen already
    /// shown, changes nothing and needs no hardware write; otherwise the newly shown
    /// screen is repainted and the cursor restored to its saved position (these writes
    /// are appended to `ops`).
    pub fn switch_screen(&mut self, index: usize, ops: &mut Vec<VgaOp>)
        ensures
            writer_ok(old(self)@),
            writer_ok(final(self)@),
            final(self)@.screens == old(self)@.screens,
            index >= SCREEN_COUNT || index == old(self)@.active ==> final(self)@ == old(self)@
                && final(ops)@ == old(ops)@,
            index < SCREEN_COUNT && index != old(self)@.active ==> final(self)@.active == index
                && final(ops)@ == old(ops)@ + flush_ops(old(self)@.screens[index as int].cells).push(
                cursor_op(old(self)@.screens[index as int]),
            ),
    {
        proof {
            use_type_invariant(&*self);
            self.lemma_inv_ok();
        }
        if index >= SCREEN_COUNT || index == self.active {
            return;
        }
        self.active = index;
        self.flush(ops);
        self.update_cursor(ops);
        proof {
            assert(ops@ =~= old(ops)@ + flush_ops(old(self)@.screens[index as int].cells).push(
                cursor_op(old(self)@.screens[index as int]),
            ));
        }
    }
}

impl Writer {
    /// The index of the shown screen.
    pub fn active(&self) -> (i: usize)
        ensures
            writer_ok(self@),
            i == self@.active,
            i < SCREEN_COUNT,
    {
        proof {
            use_type_invariant(self);
            self.lemma_inv_ok();
        }
        self.active
    }

    /// The cell at `row`, `col` of screen `screen`.
    pub fn char_at(&self, screen: usize, row: usize, col: usize) -> (c: ScreenChar)
        requires
            screen < SCREEN_COUNT,
            row < BUFFER_HEIGHT,
            col < BUFFER_WIDTH,
        ensures
            writer_ok(self@),
            c == self@.screens[screen as int].cells[cell_index(row as int, col as int)],
    {
        proof {
            use_type_invariant(self);
            self.lemma_inv_ok();
        }
        self.screens[screen].buffer[row * BUFFER_WIDTH + col]
    }

    /// The saved cursor (row, column) of screen `screen`.
    pub fn cursor(&self, screen: usize) -> (pos: (usize, usize))
        requires
            screen < SCREEN_COUNT,
        ensures
            writer_ok(self@),
            pos.0 == self@.screens[screen as int].row,
            pos.1 == self@.screens[screen as int].col,
    {
        proof {
            use_type_invariant(self);
            self.lemma_inv_ok();
        }
        (self.screens[screen].row_position, self.screens[screen].column_position)
    }

    /// The colour attribute screen `screen` writes with.
    pub fn color_code(&self, screen: usize) -> (c: ColorCode)
        requires
            screen < SCREEN_COUNT,
        ensures
            writer_ok(self@),
            c == self@.screens[screen as int].color,
    {
        proof {
            use_type_invariant(self);
            self.lemma_inv_ok();
        }
        self.screens[screen].color_code
    }
}

impl Screen {
    /// The content of a freshly created screen.
    pub open spec fn new_view() -> ScreenView {
        ScreenView {
            cells: Seq::new(BUFFER_SIZE as nat, |i: int| blank(default_color())),
            row: 0,
            col: 0,
            color: default_color(),
        }
    }
}


// ---------------------------------------------------------------------------
// The hardware mirror
// ---------------------------------------------------------------------------

/// The VGA text buffer after one hardware write (cursor moves leave it as it is).
pub open spec fn apply_op(hw: Seq<ScreenChar>, op: VgaOp) -> Seq<ScreenChar> {
    match op {
        VgaOp::Cell { row, col, ch } => {
            if row < BUFFER_HEIGHT && col < BUFFER_WIDTH {
                hw.update(cell_index(row as int, col as int), ch)
            } else {
                hw
            }
        },
        VgaOp::Cursor { pos } => hw,
    }
}

/// The VGA text buffer after a sequence of hardware writes, done in order.
pub open spec fn apply_ops(hw: Seq<ScreenChar>, ops: Seq<VgaOp>) -> Seq<ScreenChar>
    decreases ops.len(),
{
    if ops.len() == 0 {
        hw
    } else {
        apply_op(apply_ops(hw, ops.drop_last()), ops.last())
    }
}

proof fn lemma_apply_ops_append(hw: Seq<ScreenChar>, a: Seq<VgaOp>, b: Seq<VgaOp>)
    ensures
        apply_ops(hw, a + b) == apply_ops(apply_ops(hw, a), b),
    decreases b.len(),
{
    if b.len() == 0 {
        assert(a + b =~= a);
    } else {
        assert((a + b).drop_last() =~= a + b.drop_last());
        lemma_apply_ops_append(hw, a, b.drop_last());
    }
}

proof fn lemma_flush_prefix(hw: Seq<ScreenChar>, cells: Seq<ScreenChar>, k: int)
    requires
        hw.len() == BUFFER_SIZE,
        cells.len() == BUFFER_SIZE,
        0 <= k <= BUFFER_SIZE,
    ensures
        apply_ops(hw, flush_ops(cells).take(k)) == cells.take(k) + hw.skip(k),
    decreases k,
{
    if k == 0 {
        assert(flush_ops(cells).take(0) =~= Seq::<VgaOp>::empty());
        assert(cells.take(0) + hw.skip(0) =~= hw);
    } else {
        lemma_flush_prefix(hw, cells, k - 1);
        assert(flush_ops(cells).take(k).drop_last() =~= flush_ops(cells).take(k - 1));
        let i = k - 1;
        let row = i / BUFFER_WIDTH as int;
        let col = i % BUFFER_WIDTH as int;
        assert(row * 80 + col == i && 0 <= row < 25 && 0 <= col < 80) by {
            vstd::arithmetic::div_mod::lemma_fundamental_div_mod(i, 80);
        }
        assert((cells.take(k - 1) + hw.skip(k - 1)).update(i, cells[i]) =~= cells.take(k) + hw.skip(k));
    }
}

/// Repainting: the full-screen writes followed by a cursor move make any VGA
/// buffer show exactly the given screen.
pub proof fn law_repaint_shows_screen(hw: Seq<ScreenChar>, s: ScreenView)
    requires
        hw.len() == BUFFER_SIZE,
        screen_ok(s),
    ensures
        apply_ops(hw, flush_ops(s.cells)) == s.cells,
        apply_ops(hw, flush_ops(s.cells).push(cursor_op(s))) == s.cells,
{
    lemma_flush_prefix(hw, s.cells, BUFFER_SIZE as int);
    assert(flush_ops(s.cells).take(BUFFER_SIZE as int) =~= flush_ops(s.cells));
    assert(s.cells.take(BUFFER_SIZE as int) + hw.skip(BUFFER_SIZE as int) =~= s.cells);
    assert(flush_ops(s.cells).push(cursor_op(s)).drop_last() =~= flush_ops(s.cells));
}

/// Every byte keeps a screen well formed.
pub proof fn law_after_byte_keeps_screen_ok(s: ScreenView, byte: u8)
    requires
        screen_ok(s),
    ensures
        screen_ok(after_byte(s, byte)),
{
}

/// Writing a byte: when the VGA buffer showed the screen before, doing the returned
/// writes makes it show the screen after, and the last write puts the hardware cursor
/// at the screen's new cursor position.
pub proof fn law_byte_ops_mirror(s: ScreenView, byte: u8)
    requires
        screen_ok(s),
    ensures
        apply_ops(s.cells, byte_ops(s, byte)) == after_byte(s, byte).cells,
        byte_ops(s, byte).last() == cursor_op(after_byte(s, byte)),
{
    let ops = byte_ops(s, byte);
    let s2 = after_byte(s, byte);
    assert(ops.drop_last().push(ops.last()) =~= ops);
    let body = ops.drop_last();
    // a cursor move never touches the text buffer
    assert(apply_ops(s.cells, ops) == apply_ops(s.cells, body));
    if byte == 0x0A {
        if s.row < BUFFER_HEIGHT - 1 {
            assert(body =~= Seq::<VgaOp>::empty());
        } else {
            law_repaint_shows_screen(s.cells, line_feed(s));
        }
    } else if byte == 0x08 {
        if s.col > 0 {
            assert(body.drop_last() =~= Seq::<VgaOp>::empty());
            assert(apply_ops(s.cells, body.drop_last()) == s.cells);
            assert(apply_ops(s.cells, body) == apply_op(s.cells, body.last()));
            assert(apply_ops(s.cells, body) == s2.cells);
        } else {
            assert(body =~= Seq::<VgaOp>::empty());
        }
    } else {
        let s1 = if s.col >= BUFFER_WIDTH { line_feed(s) } else { s };
        let pre = if s.col >= BUFFER_WIDTH { line_feed_ops(s) } else { Seq::empty() };
        assert(body.drop_last() =~= pre);
        assert(apply_ops(s.cells, pre) == s1.cells) by {
            if s.col >= BUFFER_WIDTH && s.row >= BUFFER_HEIGHT - 1 {
                law_repaint_shows_screen(s.cells, line_feed(s));
            } else {
                assert(pre =~= Seq::<VgaOp>::empty());
            }
        }
        assert(apply_ops(s.cells, body) == apply_op(s1.cells, body.last()));
        assert(apply_ops(s.cells, body) == s2.cells);
    }
}

/// Writing only ever changes the shown screen: every other screen keeps its text,
/// cursor and colour, and the shown screen stays the same one.
pub proof fn law_write_leaves_other_screens(w: WriterView, byte: u8, i: int)
    requires
        writer_ok(w),
        0 <= i < SCREEN_COUNT,
        i != w.active,
    ensures
        writer_after_byte(w, byte).screens[i] == w.screens[i],
        writer_after_byte(w, byte).active == w.active,
{
}

/// The writer's invariant survives every byte.
pub proof fn law_writer_after_byte_ok(w: WriterView, byte: u8)
    requires
        writer_ok(w),
    ensures
        writer_ok(writer_after_byte(w, byte)),
{
    let w2 = writer_after_byte(w, byte);
    assert(screen_ok(w.screens[w.active]));
    assert forall|i: int| 0 <= i < SCREEN_COUNT implies #[trigger] screen_ok(w2.screens[i]) by {
        if i != w.active {
            assert(screen_ok(w.screens[i]));
        }
    }
}

proof fn lemma_writer_after_bytes_ok(w: WriterView, bytes: Seq<u8>)
    requires
        writer_ok(w),
    ensures
        writer_ok(writer_after_bytes(w, bytes)),
        writer_after_bytes(w, bytes).active == w.active,
    decreases bytes.len(),
{
    if bytes.len() > 0 {
        lemma_writer_after_bytes_ok(w, bytes.drop_last());
        law_writer_after_byte_ok(writer_after_bytes(w, bytes.drop_last()), sanitize(bytes.last()));
    }
}

/// Writing a string: when the VGA buffer showed the shown screen before, doing the
/// returned writes makes it show the shown screen after.
pub proof fn law_string_ops_mirror(w: WriterView, bytes: Seq<u8>)
    requires
        writer_ok(w),
    ensures
        apply_ops(active_screen(w).cells, bytes_ops(w, bytes)) == active_screen(writer_after_bytes(w, bytes)).cells,
    decreases bytes.len(),
{
    if bytes.len() > 0 {
        let prev = bytes.drop_last();
        let mid = writer_after_bytes(w, prev);
        law_string_ops_mirror(w, prev);
        lemma_writer_after_bytes_ok(w, prev);
        assert(screen_ok(mid.screens[mid.active]));
        lemma_apply_ops_append(active_screen(w).cells, bytes_ops(w, prev), byte_ops(active_screen(mid), sanitize(bytes.last())));
        law_byte_ops_mirror(active_screen(mid), sanitize(bytes.last()));
    }
}


/// CRT controller index register.
pub const CRTC_INDEX: u16 = 0x3D4;

/// CRT controller data register.
pub const CRTC_DATA: u16 = 0x3D5;

/// The port writes that move the hardware cursor to linear position `pos`:
/// select cursor-low (0x0F) and send the low byte, then select cursor-high (0x0E)
/// and send the next byte.
pub fn cursor_port_writes(pos: usize) -> (w: [PortWrite; 4])
    ensures
        w@ == seq![
            PortWrite { port: CRTC_INDEX, value: 0x0F },
            PortWrite { port: CRTC_DATA, value: (pos % 0x100) as u8 },
            PortWrite { port: CRTC_INDEX, value: 0x0E },
            PortWrite { port: CRTC_DATA, value: ((pos / 0x100) % 0x100) as u8 },
        ],
{
    assert((pos & 0xFF) as u8 == pos % 0x100) by (bit_vector);
    assert(((pos >> 8usize) & 0xFF) as u8 == (pos / 0x100) % 0x100) by (bit_vector);
    let w = [
        PortWrite { port: CRTC_INDEX, value: 0x0F },
        PortWrite { port: CRTC_DATA, value: (pos & 0xFF) as u8 },
        PortWrite { port: CRTC_INDEX, value: 0x0E },
        PortWrite { port: CRTC_DATA, value: ((pos >> 8usize) & 0xFF) as u8 },
    ];
    proof {
        assert(w@ =~= seq![
            PortWrite { port: CRTC_INDEX, value: 0x0F },
            PortWrite { port: CRTC_DATA, value: (pos % 0x100) as u8 },
            PortWrite { port: CRTC_INDEX, value: 0x0E },
            PortWrite { port: CRTC_DATA, value: ((pos / 0x100) % 0x100) as u8 },
        ]);
    }
    w
}


// ---------------------------------------------------------------------------
// Colours
// ---------------------------------------------------------------------------

/// A colour is identified by its VGA number, so `from_u8` gives back the colour
/// whose `to_u8` it is given.
pub proof fn law_color_number_identifies(a: Color, b: Color)
    ensures
        a.code() == b.code() ==> a == b,
        a.code() < 16,
{
}

/// The attribute byte built from two colours gives them back: its foreground is
/// the first and its background the second.
pub proof fn law_color_code_round_trip(fg: Color, bg: Color)
    ensures
        forall|c: Color| #[trigger] c.code() == (bg.code() * 16 + fg.code()) % 16 ==> c == fg,
        forall|c: Color| #[trigger] c.code() == (bg.code() * 16 + fg.code()) / 16 ==> c == bg,
{
    assert((bg.code() * 16 + fg.code()) % 16 == fg.code());
    assert((bg.code() * 16 + fg.code()) / 16 == bg.code());
}

/// Changing the foreground keeps the background, and the other way round.
pub proof fn law_color_changes_are_independent(c: ColorCode, fg: Color, bg: Color)
    ensures
        with_foreground(c, fg).0 / 16 == c.0 / 16,
        with_foreground(c, fg).0 % 16 == fg.code(),
        with_background(c, bg).0 % 16 == c.0 % 16,
        with_background(c, bg).0 / 16 == bg.code(),
{
}

/// The colours in VGA palette order.
pub open spec fn vga_palette() -> Seq<Color> {
    seq![
        Color::Black, Color::Blue, Color::Green, Color::Cyan,
        Color::Red, Color::Magenta, Color::Brown, Color::LightGray,
        Color::DarkGray, Color::LightBlue, Color::LightGreen, Color::LightCyan,
        Color::LightRed, Color::Pink, Color::Yellow, Color::White,
    ]
}

/// Each colour has its VGA number: the palette runs Black = 0, Blue = 1, Green = 2,
/// Cyan = 3, ... White = 15, so the attribute built from two colours carries exactly
/// those numbers (background high nibble, foreground low).
pub proof fn law_vga_palette_numbers()
    ensures
        forall|i: int| 0 <= i < 16 ==> (#[trigger] vga_palette()[i]).code() == i,
        forall|fg: int, bg: int|
            0 <= fg < 16 && 0 <= bg < 16 ==> #[trigger] with_foreground(
                ColorCode((bg * 16) as u8),
                vga_palette()[fg],
            ).0 == bg * 16 + fg,
{
    assert forall|i: int| 0 <= i < 16 implies (#[trigger] vga_palette()[i]).code() == i by {
        if i == 0 {} else if i == 1 {} else if i == 2 {} else if i == 3 {} else if i == 4 {}
        else if i == 5 {} else if i == 6 {} else if i == 7 {} else if i == 8 {} else if i == 9 {}
        else if i == 10 {} else if i == 11 {} else if i == 12 {} else if i == 13 {} else if i == 14 {}
        else {}
    }
}

/// Bytes a string write shows as themselves: printable ASCII, newline and backspace.
pub open spec fn shown_as_is(b: u8) -> bool {
    (0x20 <= b && b <= 0x7E) || b == 0x0A || b == 0x08
}

/// A cell holds a printable ASCII character or the block character 0xFE.
pub open spec fn clean_cell(c: ScreenChar) -> bool {
    (0x20 <= c.ascii_character && c.ascii_character <= 0x7E) || c.ascii_character == 0xFE
}

/// Every cell of the screen is clean.
pub open spec fn clean_screen(s: ScreenView) -> bool {
    forall|i: int| 0 <= i < s.cells.len() ==> #[trigger] clean_cell(s.cells[i])
}

/// Writing a one-byte string: printable ASCII, newline and backspace act as
/// themselves; every other byte (control characters such as tab, and 0x7F..0xFF) is
/// written as the block character 0xFE.
pub proof fn law_string_byte_or_block(w: WriterView, b: u8)
    ensures
        shown_as_is(b) ==> writer_after_bytes(w, seq![b]) == writer_after_byte(w, b),
        !shown_as_is(b) ==> writer_after_bytes(w, seq![b]) == writer_after_byte(w, 0xFE),
        shown_as_is(b) ==> bytes_ops(w, seq![b]) == byte_ops(active_screen(w), b),
        !shown_as_is(b) ==> bytes_ops(w, seq![b]) == byte_ops(active_screen(w), 0xFE),
{
    assert(seq![b].drop_last() =~= Seq::<u8>::empty());
    assert(writer_after_bytes(w, seq![b].drop_last()) == w);
    assert(bytes_ops(w, seq![b].drop_last()) == Seq::<VgaOp>::empty());
    assert(seq![b].last() == b);
    assert(Seq::<VgaOp>::empty() + byte_ops(active_screen(w), sanitize(b)) =~= byte_ops(active_screen(w), sanitize(b)));
}

proof fn lemma_byte_keeps_clean(s: ScreenView, b: u8)
    requires
        screen_ok(s),
        clean_screen(s),
        shown_as_is(b) || b == 0xFE,
    ensures
        clean_screen(after_byte(s, b)),
{
    let s2 = after_byte(s, b);
    assert forall|i: int| 0 <= i < s2.cells.len() implies #[trigger] clean_cell(s2.cells[i]) by {
        if b != 0x0A && b != 0x08 && s.col >= BUFFER_WIDTH && s.row >= BUFFER_HEIGHT - 1 {
            let lf = line_feed(s);
            if i != cell_index(lf.row, lf.col) {
                if i < BUFFER_SIZE - BUFFER_WIDTH {
                    assert(clean_cell(s.cells[i + BUFFER_WIDTH]));
                }
            }
        } else if b == 0x0A && s.row >= BUFFER_HEIGHT - 1 {
            if i < BUFFER_SIZE - BUFFER_WIDTH {
                assert(clean_cell(s.cells[i + BUFFER_WIDTH]));
            }
        } else {
            assert(clean_cell(s.cells[i]) || s2.cells[i] != s.cells[i]);
        }
    }
}

/// A string write never stores a control byte: on a screen that shows only printable
/// characters and blocks, writing any string leaves only printable characters and blocks.
pub proof fn law_string_leaves_screen_clean(w: WriterView, bytes: Seq<u8>)
    requires
        writer_ok(w),
        clean_screen(active_screen(w)),
    ensures
        clean_screen(active_screen(writer_after_bytes(w, bytes))),
    decreases bytes.len(),
{
    if bytes.len() > 0 {
        let prev = bytes.drop_last();
        law_string_leaves_screen_clean(w, prev);
        lemma_writer_after_bytes_ok(w, prev);
        let mid = writer_after_bytes(w, prev);
        assert(screen_ok(mid.screens[mid.active]));
        lemma_byte_keeps_clean(active_screen(mid), sanitize(bytes.last()));
    }
}

/// A fresh screen shows only blanks, so it is clean.
pub proof fn law_new_screen_is_clean()
    ensures
        clean_screen(Screen::new_view()),
{
}

} // verus!
