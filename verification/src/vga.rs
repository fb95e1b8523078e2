//! VGA text-mode console writer.
//!
//! The screen is a row-major grid of 80 x 25 two-byte cells: a display code
//! and a packed colour attribute.  The `Writer` consumes a byte stream,
//! interprets newline and backspace, wraps and scrolls, and keeps a hardware
//! cursor in sync by a two-register port protocol.  The grid is held here as
//! owned cells and every port write is recorded in order, so the whole
//! automaton, including the exact port traffic, is stated and proved; binding
//! the grid to the memory-mapped region and the two I/O ports is the
//! embedding program's task.

use vstd::prelude::*;
use vstd::string::StringSliceAdditionalSpecFns;

verus! {

/// Number of character cells in one row.
pub const BUFFER_WIDTH: usize = 80;

/// Number of rows on the screen.
pub const BUFFER_HEIGHT: usize = 25;

/// Total number of cells on the screen.
pub const BUFFER_CELLS: usize = 2000;

/// Index register of the CRT controller: selects which cursor register the
/// next data-port write lands in.
pub const CURSOR_COMMAND_PORT: u16 = 0x3D4;

/// Data register of the CRT controller.
pub const CURSOR_DATA_PORT: u16 = 0x3D5;

/// The sixteen VGA colours, in the order of their 4-bit hardware codes.
#[derive(Debug, Clone, Copy, PartialEq, Eq, Structural)]
pub enum Color {
    Black,
    Blue,
    Green,
    Cyan,
    Red,
    Magenta,
    Brown,
    LightGray,
    DarkGray,
    LightBlue,
    LightGreen,
    LightCyan,
    LightRed,
    Pink,
    Yellow,
    White,
}

/// The 4-bit hardware code of a colour.
pub open spec fn spec_color_code(c: Color) -> u8 {
    match c {
        Color::Black => 0,
        Color::Blue => 1,
        Color::Green => 2,
        Color::Cyan => 3,
        Color::Red => 4,
        Color::Magenta => 5,
        Color::Brown => 6,
        Color::LightGray => 7,
        Color::DarkGray => 8,
        Color::LightBlue => 9,
        Color::LightGreen => 10,
        Color::LightCyan => 11,
        Color::LightRed => 12,
        Color::Pink => 13,
        Color::Yellow => 14,
        Color::White => 15,
    }
}

impl Color {
    /// The 4-bit code the hardware uses for this colour.
    pub fn code(self) -> (r: u8)
        ensures
            r == spec_color_code(self),
    {
        match self {
            Color::Black => 0,
            Color::Blue => 1,
            Color::Green => 2,
            Color::Cyan => 3,
            Color::Red => 4,
            Color::Magenta => 5,
            Color::Brown => 6,
            Color::LightGray => 7,
            Color::DarkGray => 8,
            Color::LightBlue => 9,
            Color::LightGreen => 10,
            Color::LightCyan => 11,
            Color::LightRed => 12,
            Color::Pink => 13,
            Color::Yellow => 14,
            Color::White => 15,
        }
    }
}

/// The packed attribute byte of one cell: bits 0-3 foreground colour,
/// bits 4-6 background colour, bit 7 blink flag.
pub open spec fn spec_attr_byte(foreground: Color, background: Color, blink: bool) -> u8 {
    (((if blink {
        1u8
    } else {
        0u8
    }) << 7) | (spec_color_code(background) << 4) | spec_color_code(foreground)) as u8
}

/// One cell's colour attribute, packed exactly as the hardware reads it.
#[derive(Debug, Clone, Copy, PartialEq, Eq, Structural)]
pub struct CharAttr(u8);

impl CharAttr {
    /// The packed byte.
    pub closed spec fn spec_byte(self) -> u8 {
        self.0
    }

    /// Packs foreground, background and blink into one attribute byte.  All
    /// attribute construction goes through here, so the layout is stated in
    /// one place.
    pub fn new(foreground: Color, background: Color, blink: bool) -> (r: CharAttr)
        ensures
            r.spec_byte() == spec_attr_byte(foreground, background, blink),
    {
        let b: u8 = if blink {
            1
        } else {
            0
        };
        CharAttr((b << 7) | (background.code() << 4) | foreground.code())
    }

    /// The packed byte, for handing the cell to the hardware.
    pub fn byte(self) -> (r: u8)
        ensures
            r == self.spec_byte(),
    {
        self.0
    }
}

/// One screen cell: the display code byte and its attribute byte.
#[derive(Debug, Clone, Copy, PartialEq, Eq, Structural)]
pub struct SingleChar {
    /// The display code (for text, the ASCII code).
    pub code: u8,
    /// The colour attribute.
    pub attr: CharAttr,
}

impl SingleChar {
    /// Builds a cell from a display code and an attribute.
    pub fn new(code: u8, attr: CharAttr) -> (r: SingleChar)
        ensures
            r == (SingleChar { code, attr }),
    {
        SingleChar { code, attr }
    }
}

/// A blank cell: display code 0 under the given attribute.
pub open spec fn spec_blank(attr: CharAttr) -> SingleChar {
    SingleChar { code: 0, attr }
}

/// One write to a CRT controller port, in the order it was issued.
#[derive(Debug, Clone, Copy, PartialEq, Eq, Structural)]
pub struct PortWrite {
    /// The port written to: `CURSOR_COMMAND_PORT` or `CURSOR_DATA_PORT`.
    pub port: u16,
    /// The byte written.
    pub value: u8,
}

/// The screen's cell grid, row-major: cell (row, col) lives at index
/// `row * BUFFER_WIDTH + col`.
pub struct ScreenBuffer {
    cells: Vec<SingleChar>,
}

impl View for ScreenBuffer {
    type V = Seq<SingleChar>;

    closed spec fn view(&self) -> Seq<SingleChar> {
        self.cells@
    }
}

impl ScreenBuffer {
    /// A buffer is well formed when it holds exactly one cell per screen
    /// position.
    pub open spec fn wf(&self) -> bool {
        self@.len() == BUFFER_CELLS
    }

    /// A fresh grid with every cell equal to `fill`.
    pub fn new(fill: SingleChar) -> (r: ScreenBuffer)
        ensures
            r.wf(),
            forall|i: int| 0 <= i < BUFFER_CELLS ==> r@[i] == fill,
    {
        let mut cells: Vec<SingleChar> = Vec::new();
        let mut i: usize = 0;
        while i < BUFFER_CELLS
            invariant
                i <= BUFFER_CELLS,
                cells@.len() == i,
                forall|j: int| 0 <= j < i ==> cells@[j] == fill,
            decreases BUFFER_CELLS - i,
        {
            cells.push(fill);
            i = i + 1;
        }
        ScreenBuffer { cells }
    }

    /// Reads the cell at (row, col).
    pub fn read(&self, row: usize, col: usize) -> (r: SingleChar)
        requires
            self.wf(),
            row < BUFFER_HEIGHT,
            col < BUFFER_WIDTH,
        ensures
            r == self@[row * BUFFER_WIDTH + col],
    {
        self.cells[row * BUFFER_WIDTH + col]
    }

    /// Writes the cell at (row, col).
    pub fn write(&mut self, row: usize, col: usize, ch: SingleChar)
        requires
            old(self).wf(),
            row < BUFFER_HEIGHT,
            col < BUFFER_WIDTH,
        ensures
            final(self).wf(),
            final(self)@ == old(self)@.update((row * BUFFER_WIDTH + col) as int, ch),
    {
        let idx: usize = row * BUFFER_WIDTH + col;
        self.cells[idx] = ch;
    }
}


/// The abstract state of a `Writer`: the grid contents, the logical
/// position, the default attribute, the visibility flag, and the full
/// history of port writes issued so far.
#[verifier::ext_equal]
pub struct WriterView {
    /// The 2000 cells, row-major.
    pub cells: Seq<SingleChar>,
    /// Row of the next write, in `[0, BUFFER_HEIGHT)`.
    pub row_pos: int,
    /// Column of the next write, in `[0, BUFFER_WIDTH)`.
    pub col_pos: int,
    /// Attribute given to every cell this writer writes.
    pub default_attr: CharAttr,
    /// Whether the hardware cursor is kept in sync.
    pub cursor_visible: bool,
    /// Every port write issued, oldest first.
    pub ports: Seq<PortWrite>,
}

/// A writer state is well formed when the grid is full-sized and the
/// position is strictly inside it.
pub open spec fn spec_wf(v: WriterView) -> bool {
    &&& v.cells.len() == BUFFER_CELLS
    &&& 0 <= v.row_pos < BUFFER_HEIGHT
    &&& 0 <= v.col_pos < BUFFER_WIDTH
}

/// The cell of a grid at (row, col).
pub open spec fn spec_cell_at(cells: Seq<SingleChar>, row: int, col: int) -> SingleChar {
    cells[row * BUFFER_WIDTH + col]
}

/// The linear cell index of the logical position.
pub open spec fn spec_pos(v: WriterView) -> int {
    v.row_pos * BUFFER_WIDTH + v.col_pos
}

/// The exact four port writes that set the hardware cursor to linear
/// position `pos`: index 0x0F then the low byte, index 0x0E then the high
/// byte.  The order is fixed by the hardware protocol.
pub open spec fn spec_cursor_set_seq(pos: int) -> Seq<PortWrite> {
    seq![
        PortWrite { port: CURSOR_COMMAND_PORT, value: 0x0F },
        PortWrite { port: CURSOR_DATA_PORT, value: (pos % 256) as u8 },
        PortWrite { port: CURSOR_COMMAND_PORT, value: 0x0E },
        PortWrite { port: CURSOR_DATA_PORT, value: ((pos / 256) % 256) as u8 },
    ]
}

/// The two port writes that hide the hardware cursor.
pub open spec fn spec_cursor_hide_seq() -> Seq<PortWrite> {
    seq![
        PortWrite { port: CURSOR_COMMAND_PORT, value: 0x0A },
        PortWrite { port: CURSOR_DATA_PORT, value: 0x20 },
    ]
}

/// Cursor synchronisation: a no-op while the cursor is hidden, otherwise it
/// appends exactly one position-set sequence for the current position.
pub open spec fn spec_update_cursor(v: WriterView) -> WriterView {
    if v.cursor_visible {
        WriterView { ports: v.ports + spec_cursor_set_seq(spec_pos(v)), ..v }
    } else {
        v
    }
}

/// The grid with every cell of `row` blanked under `attr`.
pub open spec fn spec_clear_row(cells: Seq<SingleChar>, row: int, attr: CharAttr) -> Seq<
    SingleChar,
> {
    Seq::new(
        cells.len(),
        |i: int|
            if row * BUFFER_WIDTH <= i < (row + 1) * BUFFER_WIDTH {
                spec_blank(attr)
            } else {
                cells[i]
            },
    )
}

/// The grid with the first `rows` rows blanked under `attr`.
pub open spec fn spec_cleared_upto(cells: Seq<SingleChar>, rows: int, attr: CharAttr) -> Seq<
    SingleChar,
> {
    Seq::new(
        cells.len(),
        |i: int|
            if i < rows * BUFFER_WIDTH {
                spec_blank(attr)
            } else {
                cells[i]
            },
    )
}

/// The grid scrolled up one row: every row moves one row towards the top and
/// the bottom row becomes blank.
pub open spec fn spec_scroll(cells: Seq<SingleChar>, attr: CharAttr) -> Seq<SingleChar> {
    Seq::new(
        cells.len(),
        |i: int|
            if i < (BUFFER_HEIGHT - 1) * BUFFER_WIDTH {
                cells[i + BUFFER_WIDTH]
            } else {
                spec_blank(attr)
            },
    )
}

/// Line feed: below the last row the row advances; on the last row the grid
/// scrolls up.  Either way the column resets and the cursor is synced.
pub open spec fn spec_new_line(v: WriterView) -> WriterView {
    let moved = if v.row_pos < BUFFER_HEIGHT - 1 {
        WriterView { row_pos: v.row_pos + 1, ..v }
    } else {
        WriterView { cells: spec_scroll(v.cells, v.default_attr), ..v }
    };
    spec_update_cursor(WriterView { col_pos: 0, ..moved })
}

/// One cursor retreat: steps the position back one cell (wrapping to column
/// 79 of the row above at the start of a row, staying put at the origin)
/// and blanks the cell retreated onto, then syncs the cursor.
pub open spec fn spec_backspace(v: WriterView) -> WriterView {
    let moved = if v.col_pos > 0 {
        WriterView {
            col_pos: v.col_pos - 1,
            cells: v.cells.update(
                v.row_pos * BUFFER_WIDTH + v.col_pos - 1,
                spec_blank(v.default_attr),
            ),
            ..v
        }
    } else if v.row_pos > 0 {
        WriterView {
            row_pos: v.row_pos - 1,
            col_pos: BUFFER_WIDTH - 1,
            cells: v.cells.update(
                (v.row_pos - 1) * BUFFER_WIDTH + (BUFFER_WIDTH - 1),
                spec_blank(v.default_attr),
            ),
            ..v
        }
    } else {
        v
    };
    spec_update_cursor(moved)
}

/// Column advance after a cell write: wraps through a line feed at the last
/// column, otherwise steps right and syncs the cursor.
pub open spec fn spec_cursor_next(v: WriterView) -> WriterView {
    if v.col_pos == BUFFER_WIDTH - 1 {
        spec_new_line(v)
    } else {
        spec_update_cursor(WriterView { col_pos: v.col_pos + 1, ..v })
    }
}

/// Writes one raw display code at the current position, then advances.
pub open spec fn spec_do_write_byte(v: WriterView, data: u8) -> WriterView {
    spec_cursor_next(
        WriterView {
            cells: v.cells.update(spec_pos(v), SingleChar { code: data, attr: v.default_attr }),
            ..v
        },
    )
}

/// The byte automaton: newline feeds the line, backspace performs the
/// retreat / blank / retreat sequence, anything else is written as a glyph.
pub open spec fn spec_write_byte(v: WriterView, byte: u8) -> WriterView {
    if byte == 10 {
        spec_new_line(v)
    } else if byte == 8 {
        spec_backspace(spec_do_write_byte(spec_backspace(v), 0))
    } else {
        spec_do_write_byte(v, byte)
    }
}

/// Folds `spec_write_byte` over a byte sequence, front to back.
pub open spec fn spec_write_bytes(v: WriterView, s: Seq<u8>) -> WriterView
    decreases s.len(),
{
    if s.len() == 0 {
        v
    } else {
        spec_write_bytes(spec_write_byte(v, s[0]), s.skip(1))
    }
}

/// Blanks the current row and resets the column; the row stays.
pub open spec fn spec_clear_current_row(v: WriterView) -> WriterView {
    WriterView { cells: spec_clear_row(v.cells, v.row_pos, v.default_attr), col_pos: 0, ..v }
}

/// Blanks rows `0..=row_pos` only - rows never reached stay untouched - and
/// returns the position to the origin.
pub open spec fn spec_clear_all(v: WriterView) -> WriterView {
    WriterView {
        cells: spec_cleared_upto(v.cells, v.row_pos + 1, v.default_attr),
        row_pos: 0,
        col_pos: 0,
        ..v
    }
}

/// Stores the visibility flag; turning it on re-issues a position set,
/// turning it off issues the hide sequence.
pub open spec fn spec_set_cursor_visible(v: WriterView, visible: bool) -> WriterView {
    let v1 = WriterView { cursor_visible: visible, ..v };
    if visible {
        spec_update_cursor(v1)
    } else {
        WriterView { ports: v1.ports + spec_cursor_hide_seq(), ..v1 }
    }
}

/// The console writer: consumes bytes, keeps the grid and the hardware
/// cursor in step.
pub struct Writer {
    row_pos: usize,
    col_pos: usize,
    default_attr: CharAttr,
    buffer: ScreenBuffer,
    cursor_visible: bool,
    port_log: Vec<PortWrite>,
}

impl View for Writer {
    type V = WriterView;

    closed spec fn view(&self) -> WriterView {
        WriterView {
            cells: self.buffer@,
            row_pos: self.row_pos as int,
            col_pos: self.col_pos as int,
            default_attr: self.default_attr,
            cursor_visible: self.cursor_visible,
            ports: self.port_log@,
        }
    }
}

impl Writer {
    /// The writer's invariant, established by `new` and kept by every
    /// operation.
    pub open spec fn wf(&self) -> bool {
        spec_wf(self@)
    }

    /// A fresh writer over a blank grid: position at the origin, cursor
    /// visible, no port traffic yet.
    pub fn new(default_attr: CharAttr) -> (r: Writer)
        ensures
            r.wf(),
            r@.cells == Seq::new(BUFFER_CELLS as nat, |i: int| spec_blank(default_attr)),
            r@.row_pos == 0,
            r@.col_pos == 0,
            r@.default_attr == default_attr,
            r@.cursor_visible,
            r@.ports == Seq::<PortWrite>::empty(),
    {
        let blank = SingleChar::new(0, default_attr);
        let r = Writer {
            row_pos: 0,
            col_pos: 0,
            default_attr,
            buffer: ScreenBuffer::new(blank),
            cursor_visible: true,
            port_log: Vec::new(),
        };
        proof {
            assert(r@.cells =~= Seq::new(BUFFER_CELLS as nat, |i: int| spec_blank(default_attr)));
        }
        r
    }

    /// Issues the position-set port sequence for the current position, if
    /// the cursor is visible.
    fn _update_cursor(&mut self)
        requires
            old(self).wf(),
        ensures
            final(self).wf(),
            final(self)@ == spec_update_cursor(old(self)@),
    {
        if !self.cursor_visible {
            return ;
        }
        let pos: usize = self.row_pos * BUFFER_WIDTH + self.col_pos;
        self.port_log.push(PortWrite { port: CURSOR_COMMAND_PORT, value: 0x0F });
        self.port_log.push(PortWrite { port: CURSOR_DATA_PORT, value: (pos % 256) as u8 });
        self.port_log.push(PortWrite { port: CURSOR_COMMAND_PORT, value: 0x0E });
        self.port_log.push(PortWrite { port: CURSOR_DATA_PORT, value: ((pos / 256) % 256) as u8 });
        proof {
            assert(self@.ports =~= old(self)@.ports + spec_cursor_set_seq(spec_pos(old(self)@)));
            assert(self@ =~= spec_update_cursor(old(self)@));
        }
    }

    /// Blanks every cell of one row under the default attribute.
    fn _clear_row(&mut self, row_idx: usize)
        requires
            old(self).wf(),
            row_idx < BUFFER_HEIGHT,
        ensures
            final(self).wf(),
            final(self)@ == (WriterView {
                cells: spec_clear_row(old(self)@.cells, row_idx as int, old(self)@.default_attr),
                ..old(self)@
            }),
    {
        let attr = self.default_attr;
        let mut col: usize = 0;
        while col < BUFFER_WIDTH
            invariant
                old(self).wf(),
                self.wf(),
                col <= BUFFER_WIDTH,
                row_idx < BUFFER_HEIGHT,
                attr == old(self)@.default_attr,
                self@.row_pos == old(self)@.row_pos,
                self@.col_pos == old(self)@.col_pos,
                self@.default_attr == old(self)@.default_attr,
                self@.cursor_visible == old(self)@.cursor_visible,
                self@.ports == old(self)@.ports,
                forall|i: int|
                    0 <= i < BUFFER_CELLS ==> self@.cells[i] == (if row_idx * BUFFER_WIDTH <= i
                        < row_idx * BUFFER_WIDTH + col {
                        spec_blank(attr)
                    } else {
                        old(self)@.cells[i]
                    }),
            decreases BUFFER_WIDTH - col,
        {
            self.buffer.write(row_idx, col, SingleChar::new(0, attr));
            col = col + 1;
        }
        proof {
            assert(self@.cells =~= spec_clear_row(
                old(self)@.cells,
                row_idx as int,
                old(self)@.default_attr,
            ));
            assert(self@ =~= (WriterView {
                cells: spec_clear_row(old(self)@.cells, row_idx as int, old(self)@.default_attr),
                ..old(self)@
            }));
        }
    }
}


/// Folding one more byte at the back equals folding the prefix, then the
/// byte.
proof fn lemma_write_bytes_push(v: WriterView, s: Seq<u8>, b: u8)
    ensures
        spec_write_bytes(v, s.push(b)) == spec_write_byte(spec_write_bytes(v, s), b),
    decreases s.len(),
{
    if s.len() == 0 {
        assert(s.push(b)[0] == b);
        assert(s.push(b).skip(1) =~= Seq::<u8>::empty());
        assert(spec_write_bytes(v, s.push(b)) == spec_write_bytes(
            spec_write_byte(v, b),
            s.push(b).skip(1),
        ));
        assert(spec_write_bytes(spec_write_byte(v, b), Seq::<u8>::empty()) == spec_write_byte(
            v,
            b,
        ));
        assert(spec_write_bytes(v, s) == v);
    } else {
        assert(s.push(b)[0] == s[0]);
        assert(s.push(b).skip(1) =~= s.skip(1).push(b));
        assert(spec_write_bytes(v, s.push(b)) == spec_write_bytes(
            spec_write_byte(v, s[0]),
            s.skip(1).push(b),
        ));
        lemma_write_bytes_push(spec_write_byte(v, s[0]), s.skip(1), b);
        assert(spec_write_bytes(v, s) == spec_write_bytes(spec_write_byte(v, s[0]), s.skip(1)));
    }
}

impl Writer {
    /// Retreats the cursor one cell and blanks the cell it lands on, then
    /// syncs the hardware cursor.
    fn _backspace(&mut self)
        requires
            old(self).wf(),
        ensures
            final(self).wf(),
            final(self)@ == spec_backspace(old(self)@),
    {
        if self.col_pos > 0 {
            self.col_pos = self.col_pos - 1;
            let attr = self.default_attr;
            let row = self.row_pos;
            let col = self.col_pos;
            self.buffer.write(row, col, SingleChar::new(0, attr));
        } else if self.row_pos > 0 {
            self.row_pos = self.row_pos - 1;
            self.col_pos = BUFFER_WIDTH - 1;
            let attr = self.default_attr;
            let row = self.row_pos;
            let col = self.col_pos;
            self.buffer.write(row, col, SingleChar::new(0, attr));
        }
        self._update_cursor();
        proof {
            assert(self@ =~= spec_backspace(old(self)@));
        }
    }

    /// Feeds the line: advances the row or, on the last row, scrolls the
    /// grid up; resets the column and syncs the cursor.
    fn _new_line(&mut self)
        requires
            old(self).wf(),
        ensures
            final(self).wf(),
            final(self)@ == spec_new_line(old(self)@),
    {
        if self.row_pos < BUFFER_HEIGHT - 1 {
            self.row_pos = self.row_pos + 1;
        } else {
            // Rows are copied upwards in ascending order so that each row is
            // fully read before the pass overwrites it.
            let mut row: usize = 1;
            while row < BUFFER_HEIGHT
                invariant
                    old(self).wf(),
                    self.wf(),
                    1 <= row <= BUFFER_HEIGHT,
                    self@.row_pos == old(self)@.row_pos,
                    self@.col_pos == old(self)@.col_pos,
                    self@.default_attr == old(self)@.default_attr,
                    self@.cursor_visible == old(self)@.cursor_visible,
                    self@.ports == old(self)@.ports,
                    forall|i: int|
                        0 <= i < (row - 1) * BUFFER_WIDTH ==> self@.cells[i] == old(
                            self,
                        )@.cells[i + BUFFER_WIDTH],
                    forall|i: int|
                        (row - 1) * BUFFER_WIDTH <= i < BUFFER_CELLS ==> self@.cells[i] == old(
                            self,
                        )@.cells[i],
                decreases BUFFER_HEIGHT - row,
            {
                let mut col: usize = 0;
                while col < BUFFER_WIDTH
                    invariant
                        old(self).wf(),
                        self.wf(),
                        1 <= row < BUFFER_HEIGHT,
                        col <= BUFFER_WIDTH,
                        self@.row_pos == old(self)@.row_pos,
                        self@.col_pos == old(self)@.col_pos,
                        self@.default_attr == old(self)@.default_attr,
                        self@.cursor_visible == old(self)@.cursor_visible,
                        self@.ports == old(self)@.ports,
                        forall|i: int|
                            0 <= i < (row - 1) * BUFFER_WIDTH + col ==> self@.cells[i] == old(
                                self,
                            )@.cells[i + BUFFER_WIDTH],
                        forall|i: int|
                            (row - 1) * BUFFER_WIDTH + col <= i < BUFFER_CELLS ==> self@.cells[i]
                                == old(self)@.cells[i],
                    decreases BUFFER_WIDTH - col,
                {
                    let ch = self.buffer.read(row, col);
                    self.buffer.write(row - 1, col, ch);
                    col = col + 1;
                }
                row = row + 1;
            }
            let last: usize = BUFFER_HEIGHT - 1;
            self._clear_row(last);
            proof {
                assert(self@.cells =~= spec_scroll(old(self)@.cells, old(self)@.default_attr));
            }
        }
        self.col_pos = 0;
        self._update_cursor();
        proof {
            assert(self@ =~= spec_new_line(old(self)@));
        }
    }

    /// Advances the column after a cell write, wrapping through a line feed
    /// at the end of the row.
    fn _cursor_next(&mut self)
        requires
            old(self).wf(),
        ensures
            final(self).wf(),
            final(self)@ == spec_cursor_next(old(self)@),
    {
        if self.col_pos == BUFFER_WIDTH - 1 {
            self._new_line();
            return ;
        }
        self.col_pos = self.col_pos + 1;
        self._update_cursor();
        proof {
            assert(self@ =~= spec_cursor_next(old(self)@));
        }
    }

    /// Writes one raw display code at the current position, without
    /// interpreting it, and advances.
    fn do_write_byte(&mut self, data: u8)
        requires
            old(self).wf(),
        ensures
            final(self).wf(),
            final(self)@ == spec_do_write_byte(old(self)@, data),
    {
        let attr = self.default_attr;
        let row = self.row_pos;
        let col = self.col_pos;
        self.buffer.write(row, col, SingleChar::new(data, attr));
        self._cursor_next();
    }

    /// Consumes one byte: newline feeds the line; backspace retreats, blanks
    /// the passed-over cell and retreats again, so the cursor ends one cell
    /// before the retreat target; any other byte is written as a glyph.
    pub fn write_byte(&mut self, byte: u8)
        requires
            old(self).wf(),
        ensures
            final(self).wf(),
            final(self)@ == spec_write_byte(old(self)@, byte),
    {
        if byte == 10 {
            self._new_line();
            return ;
        }
        if byte == 0x8 {
            self._backspace();
            self.do_write_byte(0);
            self._backspace();
            return ;
        }
        self.do_write_byte(byte);
    }

    /// Writes every byte of `s` in order, one byte per cell; the caller
    /// supplies already single-byte-per-cell text.
    pub fn write_string(&mut self, s: &str)
        requires
            old(self).wf(),
        ensures
            final(self).wf(),
            final(self)@ == spec_write_bytes(old(self)@, s.spec_bytes()),
    {
        let bytes: &[u8] = s.as_bytes();
        let n: usize = bytes.len();
        let mut i: usize = 0;
        while i < n
            invariant
                old(self).wf(),
                self.wf(),
                i <= n,
                bytes@ == s.spec_bytes(),
                n == bytes@.len(),
                self@ == spec_write_bytes(old(self)@, bytes@.take(i as int)),
            decreases n - i,
        {
            proof {
                assert(bytes@.take(i + 1) =~= bytes@.take(i as int).push(bytes@[i as int]));
                lemma_write_bytes_push(old(self)@, bytes@.take(i as int), bytes@[i as int]);
            }
            let b: u8 = bytes[i];
            self.write_byte(b);
            i = i + 1;
        }
        proof {
            assert(bytes@.take(n as int) =~= s.spec_bytes());
        }
    }

    /// Blanks every cell of the current row and resets the column; the row
    /// stays where it was.
    pub fn clear_current_row(&mut self)
        requires
            old(self).wf(),
        ensures
            final(self).wf(),
            final(self)@ == spec_clear_current_row(old(self)@),
    {
        let row = self.row_pos;
        self._clear_row(row);
        self.col_pos = 0;
        proof {
            assert(self@ =~= spec_clear_current_row(old(self)@));
        }
    }

    /// Blanks rows `0..=row_pos` only - rows below the deepest position ever
    /// reached keep their contents - and returns to the origin.
    pub fn clear_all(&mut self)
        requires
            old(self).wf(),
        ensures
            final(self).wf(),
            final(self)@ == spec_clear_all(old(self)@),
    {
        let n: usize = self.row_pos + 1;
        let mut i: usize = 0;
        while i < n
            invariant
                old(self).wf(),
                self.wf(),
                i <= n,
                n == old(self)@.row_pos + 1,
                self@.row_pos == old(self)@.row_pos,
                self@.col_pos == old(self)@.col_pos,
                self@.default_attr == old(self)@.default_attr,
                self@.cursor_visible == old(self)@.cursor_visible,
                self@.ports == old(self)@.ports,
                forall|j: int|
                    0 <= j < i * BUFFER_WIDTH ==> self@.cells[j] == spec_blank(
                        old(self)@.default_attr,
                    ),
                forall|j: int|
                    i * BUFFER_WIDTH <= j < BUFFER_CELLS ==> self@.cells[j] == old(self)@.cells[j],
            decreases n - i,
        {
            self._clear_row(i);
            i = i + 1;
        }
        self.col_pos = 0;
        self.row_pos = 0;
        proof {
            assert(self@.cells =~= spec_cleared_upto(
                old(self)@.cells,
                old(self)@.row_pos + 1,
                old(self)@.default_attr,
            ));
            assert(self@ =~= spec_clear_all(old(self)@));
        }
    }

    /// Stores the visibility flag; turning the cursor on re-issues a
    /// position set, turning it off issues the hide sequence.
    pub fn set_cursor_visible(&mut self, visible: bool)
        requires
            old(self).wf(),
        ensures
            final(self).wf(),
            final(self)@ == spec_set_cursor_visible(old(self)@, visible),
    {
        self.cursor_visible = visible;
        if visible {
            self._update_cursor();
        } else {
            self.port_log.push(PortWrite { port: CURSOR_COMMAND_PORT, value: 0x0A });
            self.port_log.push(PortWrite { port: CURSOR_DATA_PORT, value: 0x20 });
        }
        proof {
            assert(self@.ports =~= spec_set_cursor_visible(old(self)@, visible).ports);
            assert(self@ =~= spec_set_cursor_visible(old(self)@, visible));
        }
    }

    /// The screen grid, for reading cells back.
    pub fn get_buffer(&self) -> (r: &ScreenBuffer)
        ensures
            r@ == self@.cells,
    {
        &self.buffer
    }

    /// The current row of the logical position.
    pub fn row_pos(&self) -> (r: usize)
        ensures
            r == self@.row_pos,
    {
        self.row_pos
    }

    /// The current column of the logical position.
    pub fn col_pos(&self) -> (r: usize)
        ensures
            r == self@.col_pos,
    {
        self.col_pos
    }

    /// Whether the hardware cursor is currently kept in sync.
    pub fn cursor_visible(&self) -> (r: bool)
        ensures
            r == self@.cursor_visible,
    {
        self.cursor_visible
    }

    /// The recorded port traffic, oldest write first.
    pub fn port_log(&self) -> (r: &Vec<PortWrite>)
        ensures
            r@ == self@.ports,
    {
        &self.port_log
    }
}

} // verus!
