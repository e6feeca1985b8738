//! Text-mode display driver: typed glyph cells, the fixed 80x25 grid of
//! volatile cells, and the console writer with line wrap and scroll.

use vstd::prelude::*;

verus! {

/// Width of the display grid in character cells.
pub const BUFFER_WIDTH: usize = 80;

/// Height of the display grid in rows.
pub const BUFFER_HEIGHT: usize = 25;

/// The hardware color palette, in its hardware numbering order
/// (`Black` is code 0, `White` is code 15).
#[derive(Debug, Clone, Copy, PartialEq, Eq, Structural)]
pub enum Color {
    Black,
    Blue,
    Green,
    Cyan,
    Red,
    Magenta,
    Brown,
    LightGray,
    DarkGray,
    LightBlue,
    LightGreen,
    LightCyan,
    LightRed,
    Pink,
    Yellow,
    White,
}

impl Color {
    /// The 4-bit hardware code of this color.
    pub open spec fn spec_value(self) -> u8 {
        match self {
            Color::Black => 0,
            Color::Blue => 1,
            Color::Green => 2,
            Color::Cyan => 3,
            Color::Red => 4,
            Color::Magenta => 5,
            Color::Brown => 6,
            Color::LightGray => 7,
            Color::DarkGray => 8,
            Color::LightBlue => 9,
            Color::LightGreen => 10,
            Color::LightCyan => 11,
            Color::LightRed => 12,
            Color::Pink => 13,
            Color::Yellow => 14,
            Color::White => 15,
        }
    }

    /// The 4-bit hardware code of this color.
    #[verifier::when_used_as_spec(spec_value)]
    pub fn value(self) -> (v: u8)
        ensures
            v == self.spec_value(),
            v < 16,
    {
        match self {
            Color::Black => 0,
            Color::Blue => 1,
            Color::Green => 2,
            Color::Cyan => 3,
            Color::Red => 4,
            Color::Magenta => 5,
            Color::Brown => 6,
            Color::LightGray => 7,
            Color::DarkGray => 8,
            Color::LightBlue => 9,
            Color::LightGreen => 10,
            Color::LightCyan => 11,
            Color::LightRed => 12,
            Color::Pink => 13,
            Color::Yellow => 14,
            Color::White => 15,
        }
    }
}

/// A packed style byte: background color in the high nibble, foreground
/// color in the low nibble.
#[derive(Debug, Clone, Copy, PartialEq, Eq, Structural)]
pub struct ColorCode(u8);

impl ColorCode {
    /// The packed byte itself.
    pub closed spec fn bits(self) -> u8 {
        self.0
    }

    /// Pack a foreground and a background color into one style byte.
    /// The hardware uses only the low 8 color codes for the background:
    /// the remaining bit is reserved and kept zero.
    pub fn new(foreground: Color, background: Color) -> (cc: ColorCode)
        requires
            background.spec_value() < 8,
        ensures
            cc.bits() == background.spec_value() * 16 + foreground.spec_value(),
    {
        ColorCode(background.value() * 16 + foreground.value())
    }

    /// The packed byte, as a value a caller can read.
    pub fn to_byte(self) -> (v: u8)
        ensures
            v == self.bits(),
    {
        self.0
    }
}

/// One character cell as the hardware defines it: a glyph byte and a
/// packed style byte.
#[derive(Debug, Clone, Copy, PartialEq, Eq, Structural)]
pub struct ScreenChar {
    pub ascii_character: u8,
    pub color_code: ColorCode,
}

/// The 16-bit value a cell occupies in display memory: the style byte in
/// the high half, the glyph byte in the low half.
pub open spec fn pack_cell(ch: u8, style: u8) -> u16 {
    (style as int * 256 + ch as int) as u16
}

impl ScreenChar {
    /// The 16-bit display-memory encoding of this cell.
    pub open spec fn to_bits(self) -> u16 {
        pack_cell(self.ascii_character, self.color_code.bits())
    }

    /// Compute the 16-bit display-memory encoding of this cell.
    pub fn bits(self) -> (v: u16)
        ensures
            v == self.to_bits(),
    {
        (self.color_code.to_byte() as u16) * 256 + (self.ascii_character as u16)
    }
}

/// `volatile::Volatile` wraps a value so that every load and store of it is
/// an individually observable volatile memory operation, which the display
/// hardware requires.
#[verifier::external_type_specification]
#[verifier::external_body]
#[verifier::reject_recursive_types(T)]
pub struct ExVolatile<T: Copy>(volatile::Volatile<T>);

/// The value currently stored in a volatile display cell.
pub uninterp spec fn vol_val(v: volatile::Volatile<u16>) -> u16;

/// Relies on `volatile::Volatile::new`: the returned wrapper stores exactly
/// the given value.
#[verifier::external_body]
fn vol_new(x: u16) -> (v: volatile::Volatile<u16>)
    ensures
        vol_val(v) == x,
{
    volatile::Volatile::new(x)
}

/// Relies on `volatile::Volatile::read`: a volatile load returns the stored
/// value and changes nothing.
#[verifier::external_body]
fn row_read(row: &Vec<volatile::Volatile<u16>>, col: usize) -> (r: u16)
    requires
        col < row@.len(),
    ensures
        r == vol_val(row@[col as int]),
{
    row[col].read()
}

/// Relies on `volatile::Volatile::write`: a volatile store replaces the
/// stored value of this one cell; no other cell of the row is touched.
#[verifier::external_body]
fn row_write(row: &mut Vec<volatile::Volatile<u16>>, col: usize, x: u16)
    requires
        col < old(row)@.len(),
    ensures
        final(row)@.len() == old(row)@.len(),
        vol_val(final(row)@[col as int]) == x,
        forall|j: int|
            0 <= j < final(row)@.len() && j != col ==> vol_val(final(row)@[j]) == vol_val(
                old(row)@[j],
            ),
{
    row[col].write(x)
}

/// The fixed 80x25 display grid of volatile character cells.
pub struct Buffer {
    rows: Vec<Vec<volatile::Volatile<u16>>>,
}

impl Buffer {
    /// The grid has exactly `BUFFER_HEIGHT` rows of `BUFFER_WIDTH` cells.
    pub closed spec fn wf(self) -> bool {
        &&& self.rows@.len() == BUFFER_HEIGHT
        &&& forall|r: int| 0 <= r < BUFFER_HEIGHT ==> self.rows@[r]@.len() == BUFFER_WIDTH
    }

    /// The grid contents as a sequence of rows of 16-bit cell values.
    pub closed spec fn view(self) -> Seq<Seq<u16>> {
        Seq::new(
            BUFFER_HEIGHT as nat,
            |r: int| Seq::new(BUFFER_WIDTH as nat, |c: int| vol_val(self.rows@[r]@[c])),
        )
    }

    /// A grid with every cell holding `fill`.
    pub fn new_filled(fill: u16) -> (b: Buffer)
        ensures
            b.wf(),
            forall|r: int, c: int|
                0 <= r < BUFFER_HEIGHT && 0 <= c < BUFFER_WIDTH ==> b@[r][c] == fill,
    {
        let mut rows: Vec<Vec<volatile::Volatile<u16>>> = Vec::new();
        while rows.len() < BUFFER_HEIGHT
            invariant
                rows@.len() <= BUFFER_HEIGHT,
                forall|r: int|
                    0 <= r < rows@.len() ==> rows@[r]@.len() == BUFFER_WIDTH,
                forall|r: int, c: int|
                    0 <= r < rows@.len() && 0 <= c < BUFFER_WIDTH ==> vol_val(rows@[r]@[c])
                        == fill,
            decreases BUFFER_HEIGHT - rows.len(),
        {
            let mut row: Vec<volatile::Volatile<u16>> = Vec::new();
            while row.len() < BUFFER_WIDTH
                invariant
                    row@.len() <= BUFFER_WIDTH,
                    forall|c: int| 0 <= c < row@.len() ==> vol_val(row@[c]) == fill,
                decreases BUFFER_WIDTH - row.len(),
            {
                row.push(vol_new(fill));
            }
            rows.push(row);
        }
        Buffer { rows }
    }

    /// Read the cell at (`row`, `col`) through a volatile load.
    pub fn read(&self, row: usize, col: usize) -> (r: u16)
        requires
            self.wf(),
            row < BUFFER_HEIGHT,
            col < BUFFER_WIDTH,
        ensures
            r == self@[row as int][col as int],
    {
        row_read(&self.rows[row], col)
    }

    /// Write `cell` at (`row`, `col`) through a volatile store; every other
    /// cell keeps its value.
    pub fn write(&mut self, row: usize, col: usize, cell: u16)
        requires
            old(self).wf(),
            row < BUFFER_HEIGHT,
            col < BUFFER_WIDTH,
        ensures
            final(self).wf(),
            final(self)@[row as int][col as int] == cell,
            forall|r: int, c: int|
                0 <= r < BUFFER_HEIGHT && 0 <= c < BUFFER_WIDTH && !(r == row && c == col)
                    ==> final(self)@[r][c] == old(self)@[r][c],
    {
        let inner: &mut Vec<volatile::Volatile<u16>> = &mut self.rows[row];
        row_write(inner, col, cell);
    }
}

/// The cell value a cleared position holds: a space glyph in the given style.
pub open spec fn blank_cell(style: u8) -> u16 {
    pack_cell(0x20, style)
}

/// A grid of the fixed display shape.
pub open spec fn wf_grid(g: Seq<Seq<u16>>) -> bool {
    &&& g.len() == BUFFER_HEIGHT
    &&& forall|r: int| 0 <= r < BUFFER_HEIGHT ==> g[r].len() == BUFFER_WIDTH
}

/// The grid after one scroll: every row moves up by one, the bottom row is
/// cleared to `blank`. Column 0 of the moved rows keeps its old content:
/// the copy loop of the scroll starts at column 1 — a known quirk of this
/// driver, kept deliberately for exact visual compatibility.
pub open spec fn scrolled(g: Seq<Seq<u16>>, blank: u16) -> Seq<Seq<u16>> {
    Seq::new(
        BUFFER_HEIGHT as nat,
        |r: int|
            Seq::new(
                BUFFER_WIDTH as nat,
                |c: int|
                    if r == BUFFER_HEIGHT - 1 {
                        blank
                    } else if c == 0 {
                        g[r][c]
                    } else {
                        g[r + 1][c]
                    },
            ),
    )
}

/// The grid with the cell at (`row`, `col`) replaced by `v`.
pub open spec fn written(g: Seq<Seq<u16>>, row: int, col: int, v: u16) -> Seq<Seq<u16>> {
    g.update(row, g[row].update(col, v))
}

/// The cursor column after one byte is written: line feed resets it, a
/// write past the right edge wraps to a fresh row and lands in column 0,
/// any other write advances it by one.
pub open spec fn col_after(col: int, b: u8) -> int {
    if b == 10 {
        0
    } else if col >= BUFFER_WIDTH {
        1
    } else {
        col + 1
    }
}

/// The grid after one byte is written at cursor column `col` in style
/// `style`: line feed scrolls, a write past the right edge scrolls first
/// and then places the glyph at column 0 of the bottom row, any other
/// write places the glyph at (bottom row, `col`).
pub open spec fn grid_after(g: Seq<Seq<u16>>, col: int, style: u8, b: u8) -> Seq<Seq<u16>> {
    if b == 10 {
        scrolled(g, blank_cell(style))
    } else if col >= BUFFER_WIDTH {
        written(
            scrolled(g, blank_cell(style)),
            BUFFER_HEIGHT - 1,
            0,
            pack_cell(b, style),
        )
    } else {
        written(g, BUFFER_HEIGHT - 1, col, pack_cell(b, style))
    }
}

/// A byte in the printable ASCII range.
pub open spec fn printable(b: u8) -> bool {
    0x20 <= b && b <= 0x7e
}

/// A byte as the writer stores it: printable ASCII and line feed pass
/// through, anything else becomes the placeholder glyph 0xFE.
pub open spec fn subst(b: u8) -> u8 {
    if printable(b) || b == 10 {
        b
    } else {
        0xfe
    }
}

/// Cursor column and grid after a whole byte sequence is written through
/// the substitution filter.
pub open spec fn run_bytes(col: int, g: Seq<Seq<u16>>, style: u8, bytes: Seq<u8>) -> (
    int,
    Seq<Seq<u16>>,
)
    decreases bytes.len(),
{
    if bytes.len() == 0 {
        (col, g)
    } else {
        let b = subst(bytes[0]);
        run_bytes(col_after(col, b), grid_after(g, col, style, b), style, bytes.skip(1))
    }
}

/// The console writer: owns the display grid, the cursor column on the
/// bottom row, and the style applied to written cells.
pub struct Writer {
    column_position: usize,
    color_code: ColorCode,
    buffer: Buffer,
}

impl Writer {
    /// Current cursor column.
    pub closed spec fn column(self) -> int {
        self.column_position as int
    }

    /// The style byte applied to written cells.
    pub closed spec fn style(self) -> u8 {
        self.color_code.bits()
    }

    /// The current grid contents.
    pub closed spec fn grid(self) -> Seq<Seq<u16>> {
        self.buffer@
    }

    /// The writer's invariant: the grid has its fixed shape and the cursor
    /// column never leaves [0, BUFFER_WIDTH]. It equals BUFFER_WIDTH only
    /// after a write fills the last cell of the row; the next write wraps.
    pub closed spec fn wf(self) -> bool {
        &&& self.buffer.wf()
        &&& self.column_position <= BUFFER_WIDTH
    }

    /// A fresh writer: cursor at column 0, every cell blank in the given
    /// style.
    pub fn new(color_code: ColorCode) -> (w: Writer)
        ensures
            w.wf(),
            w.column() == 0,
            w.style() == color_code.bits(),
            wf_grid(w.grid()),
            forall|r: int, c: int|
                0 <= r < BUFFER_HEIGHT && 0 <= c < BUFFER_WIDTH ==> w.grid()[r][c] == blank_cell(
                    color_code.bits(),
                ),
    {
        let blank = ScreenChar { ascii_character: 0x20, color_code };
        Writer { column_position: 0, color_code, buffer: Buffer::new_filled(blank.bits()) }
    }

    /// Current cursor column, as a value a caller can read.
    pub fn current_column(&self) -> (c: usize)
        ensures
            c == self.column(),
    {
        self.column_position
    }

    /// Read the cell at (`row`, `col`).
    pub fn read_cell(&self, row: usize, col: usize) -> (v: u16)
        requires
            self.wf(),
            row < BUFFER_HEIGHT,
            col < BUFFER_WIDTH,
        ensures
            v == self.grid()[row as int][col as int],
    {
        self.buffer.read(row, col)
    }

    /// Write one byte: line feed starts a new line; a byte arriving with
    /// the cursor past the right edge wraps first; the byte is then placed
    /// at the cursor on the bottom row and the cursor advances. No byte
    /// value fails here; unprintable bytes are filtered by `write_string`.
    pub fn write_byte(&mut self, byte: u8)
        requires
            old(self).wf(),
        ensures
            final(self).wf(),
            final(self).style() == old(self).style(),
            final(self).column() == col_after(old(self).column(), byte),
            final(self).grid() == grid_after(
                old(self).grid(),
                old(self).column(),
                old(self).style(),
                byte,
            ),
    {
        if byte == 10 {
            self.new_line();
        } else {
            if self.column_position >= BUFFER_WIDTH {
                self.new_line();
            }
            let row = BUFFER_HEIGHT - 1;
            let col = self.column_position;
            let cell = ScreenChar { ascii_character: byte, color_code: self.color_code };
            self.buffer.write(row, col, cell.bits());
            self.column_position = self.column_position + 1;
            proof {
                assert(self.grid() =~~= grid_after(
                    old(self).grid(),
                    old(self).column(),
                    old(self).style(),
                    byte,
                ));
            }
        }
    }

    /// Write a whole byte sequence through the substitution filter:
    /// printable ASCII and line feed pass to `write_byte` unchanged, every
    /// other byte is replaced by the placeholder glyph 0xFE.
    pub fn write_string(&mut self, s: &[u8])
        requires
            old(self).wf(),
        ensures
            final(self).wf(),
            final(self).style() == old(self).style(),
            final(self).column() == run_bytes(
                old(self).column(),
                old(self).grid(),
                old(self).style(),
                s@,
            ).0,
            final(self).grid() == run_bytes(
                old(self).column(),
                old(self).grid(),
                old(self).style(),
                s@,
            ).1,
    {
        let ghost start_col = self.column();
        let ghost start_grid = self.grid();
        let ghost style = self.style();
        proof {
            assert(s@.skip(0) =~= s@);
        }
        let mut i: usize = 0;
        while i < s.len()
            invariant
                self.wf(),
                self.style() == style,
                i <= s@.len(),
                run_bytes(start_col, start_grid, style, s@) == run_bytes(
                    self.column(),
                    self.grid(),
                    style,
                    s@.skip(i as int),
                ),
            decreases s@.len() - i,
        {
            let byte = s[i];
            let filtered: u8 = if (0x20 <= byte && byte <= 0x7e) || byte == 10 {
                byte
            } else {
                0xfe
            };
            proof {
                assert(filtered == subst(s@[i as int]));
                assert(s@.skip(i as int)[0] == s@[i as int]);
                assert(s@.skip(i as int).skip(1) =~= s@.skip(i as int + 1));
            }
            self.write_byte(filtered);
            i = i + 1;
        }
    }

    /// Scroll: copy every row one position up (columns 1 and above; column
    /// 0 of each moved row keeps its stale content, the known quirk of
    /// this driver), clear the bottom row, reset the cursor.
    fn new_line(&mut self)
        requires
            old(self).wf(),
        ensures
            final(self).wf(),
            final(self).style() == old(self).style(),
            final(self).column() == 0,
            final(self).grid() == scrolled(old(self).grid(), blank_cell(old(self).style())),
    {
        let mut row: usize = 1;
        while row < BUFFER_HEIGHT
            invariant
                self.wf(),
                self.style() == old(self).style(),
                self.column() == old(self).column(),
                1 <= row <= BUFFER_HEIGHT,
                forall|r: int, c: int|
                    0 <= r < row - 1 && 1 <= c < BUFFER_WIDTH ==> self.grid()[r][c] == old(
                        self,
                    ).grid()[r + 1][c],
                forall|r: int| 0 <= r < row - 1 ==> self.grid()[r][0] == old(self).grid()[r][0],
                forall|r: int, c: int|
                    row - 1 <= r < BUFFER_HEIGHT && 0 <= c < BUFFER_WIDTH ==> self.grid()[r][c]
                        == old(self).grid()[r][c],
            decreases BUFFER_HEIGHT - row,
        {
            let dst = row - 1;
            let mut col: usize = 1;
            while col < BUFFER_WIDTH
                invariant
                    self.wf(),
                    self.style() == old(self).style(),
                    self.column() == old(self).column(),
                    1 <= row < BUFFER_HEIGHT,
                    dst == row - 1,
                    1 <= col <= BUFFER_WIDTH,
                    forall|r: int, c: int|
                        0 <= r < dst && 1 <= c < BUFFER_WIDTH ==> self.grid()[r][c] == old(
                            self,
                        ).grid()[r + 1][c],
                    forall|r: int| 0 <= r < dst ==> self.grid()[r][0] == old(self).grid()[r][0],
                    forall|c: int|
                        1 <= c < col ==> self.grid()[dst as int][c] == old(self).grid()[row as int][c],
                    self.grid()[dst as int][0] == old(self).grid()[dst as int][0],
                    forall|c: int|
                        col <= c < BUFFER_WIDTH ==> self.grid()[dst as int][c] == old(
                            self,
                        ).grid()[dst as int][c],
                    forall|r: int, c: int|
                        row <= r < BUFFER_HEIGHT && 0 <= c < BUFFER_WIDTH ==> self.grid()[r][c]
                            == old(self).grid()[r][c],
                decreases BUFFER_WIDTH - col,
            {
                let character = self.buffer.read(row, col);
                self.buffer.write(dst, col, character);
                col = col + 1;
            }
            row = row + 1;
        }
        let ghost mid = self.grid();
        self.clear_row(BUFFER_HEIGHT - 1);
        proof {
            assert(self.grid()[BUFFER_HEIGHT - 1][0] == blank_cell(old(self).style()));
        }
        self.column_position = 0;
        proof {
            let ghost target = scrolled(old(self).grid(), blank_cell(old(self).style()));
            assert forall|r: int, c: int|
                0 <= r < BUFFER_HEIGHT && 0 <= c < BUFFER_WIDTH implies self.grid()[r][c]
                == target[r][c] by {
                if r == BUFFER_HEIGHT - 1 {
                    assert(self.grid()[r][c] == blank_cell(old(self).style()));
                } else {
                    assert(self.grid()[r][c] == mid[r][c]);
                    if c == 0 {
                        assert(mid[r][c] == old(self).grid()[r][c]);
                    } else {
                        assert(mid[r][c] == old(self).grid()[r + 1][c]);
                    }
                }
            }
            assert(self.grid() =~~= scrolled(old(self).grid(), blank_cell(old(self).style())));
        }
    }

    /// Overwrite every cell of `row` with a blank cell in the current
    /// style.
    fn clear_row(&mut self, row: usize)
        requires
            old(self).wf(),
            row < BUFFER_HEIGHT,
        ensures
            final(self).wf(),
            final(self).style() == old(self).style(),
            final(self).column() == old(self).column(),
            forall|c: int|
                0 <= c < BUFFER_WIDTH ==> final(self).grid()[row as int][c] == blank_cell(
                    old(self).style(),
                ),
            forall|r: int, c: int|
                0 <= r < BUFFER_HEIGHT && 0 <= c < BUFFER_WIDTH && r != row
                    ==> final(self).grid()[r][c] == old(self).grid()[r][c],
    {
        let blank = ScreenChar { ascii_character: 0x20, color_code: self.color_code }.bits();
        let mut col: usize = 0;
        while col < BUFFER_WIDTH
            invariant
                self.wf(),
                self.style() == old(self).style(),
                self.column() == old(self).column(),
                row < BUFFER_HEIGHT,
                col <= BUFFER_WIDTH,
                blank == blank_cell(old(self).style()),
                forall|c: int|
                    0 <= c < col ==> self.grid()[row as int][c] == blank_cell(old(self).style()),
                forall|c: int|
                    col <= c < BUFFER_WIDTH ==> self.grid()[row as int][c] == old(
                        self,
                    ).grid()[row as int][c],
                forall|r: int, c: int|
                    0 <= r < BUFFER_HEIGHT && 0 <= c < BUFFER_WIDTH && r != row ==> self.grid()[r][c]
                        == old(self).grid()[r][c],
            decreases BUFFER_WIDTH - col,
        {
            let ghost before = self.grid();
            self.buffer.write(row, col, blank);
            proof {
                assert forall|c2: int| 0 <= c2 < col + 1 implies self.grid()[row as int][c2]
                    == blank_cell(old(self).style()) by {
                    if c2 < col {
                        assert(self.grid()[row as int][c2] == before[row as int][c2]);
                    }
                }
            }
            col = col + 1;
        }
    }
}

/// What well-formedness guarantees, stated publicly: every well-formed
/// writer has a grid of the fixed display shape and a cursor column in
/// [0, BUFFER_WIDTH], so callers can index cells and apply the laws
/// without reaching into the representation.
pub proof fn lemma_writer_shape(w: Writer)
    requires
        w.wf(),
    ensures
        wf_grid(w.grid()),
        0 <= w.column() <= BUFFER_WIDTH,
{
}

/// Column invariant (law): one written byte takes a cursor column in
/// [0, BUFFER_WIDTH] back into [0, BUFFER_WIDTH], and the column reaches
/// the upper bound itself only right after a glyph fills the last cell of
/// the row; before every placement the column is strictly below
/// BUFFER_WIDTH.
pub proof fn lemma_column_invariant(col: int, b: u8)
    requires
        0 <= col <= BUFFER_WIDTH,
    ensures
        0 <= col_after(col, b) <= BUFFER_WIDTH,
        col_after(col, b) == BUFFER_WIDTH <==> (b != 10 && col == BUFFER_WIDTH - 1),
{
}

/// Column invariant over whole write sequences (law): however many bytes
/// are written, the cursor column never leaves [0, BUFFER_WIDTH].
pub proof fn lemma_column_invariant_run(col: int, g: Seq<Seq<u16>>, style: u8, bytes: Seq<u8>)
    requires
        0 <= col <= BUFFER_WIDTH,
    ensures
        0 <= run_bytes(col, g, style, bytes).0 <= BUFFER_WIDTH,
    decreases bytes.len(),
{
    if bytes.len() > 0 {
        let b = subst(bytes[0]);
        lemma_column_invariant(col, b);
        lemma_column_invariant_run(
            col_after(col, b),
            grid_after(g, col, style, b),
            style,
            bytes.skip(1),
        );
    }
}

/// Scroll content (law): a scroll moves every cell of columns 1 and above
/// one row up, keeps column 0 of the moved rows, and blanks the bottom
/// row.
pub proof fn lemma_scroll_content(g: Seq<Seq<u16>>, blank: u16, r: int, c: int)
    requires
        0 <= r < BUFFER_HEIGHT - 1,
        1 <= c < BUFFER_WIDTH,
    ensures
        scrolled(g, blank)[r][c] == g[r + 1][c],
        scrolled(g, blank)[r][0] == g[r][0],
        scrolled(g, blank)[BUFFER_HEIGHT - 1][c] == blank,
{
}

/// Substitution (law): a control byte other than line feed leaves the
/// placeholder glyph 0xFE at the target cell, not the byte itself, and
/// advances the cursor by one.
pub proof fn lemma_substitution(col: int, g: Seq<Seq<u16>>, style: u8, b: u8)
    requires
        wf_grid(g),
        0 <= col < BUFFER_WIDTH,
        !printable(b),
        b != 10,
    ensures
        run_bytes(col, g, style, seq![b]).0 == col + 1,
        run_bytes(col, g, style, seq![b]).1[BUFFER_HEIGHT - 1][col] == pack_cell(0xfe, style),
{
    let s0 = subst(b);
    assert(s0 == 0xfe);
    assert(seq![b][0] == b);
    assert(seq![b].skip(1) =~= Seq::<u8>::empty());
    let stepped = run_bytes(
        col_after(col, s0),
        grid_after(g, col, style, s0),
        style,
        Seq::<u8>::empty(),
    );
    assert(run_bytes(col, g, style, seq![b]) == stepped);
    assert(stepped.0 == col + 1);
    assert(stepped.1 == written(g, BUFFER_HEIGHT - 1, col, pack_cell(0xfe, style)));
    assert(g[BUFFER_HEIGHT - 1].update(col, pack_cell(0xfe, style))[col] == pack_cell(
        0xfe,
        style,
    ));
}

/// Writing a prefix and then a suffix is one write of the whole sequence.
pub proof fn lemma_run_append(col: int, g: Seq<Seq<u16>>, style: u8, a: Seq<u8>, b: Seq<u8>)
    ensures
        run_bytes(col, g, style, a + b) == run_bytes(
            run_bytes(col, g, style, a).0,
            run_bytes(col, g, style, a).1,
            style,
            b,
        ),
    decreases a.len(),
{
    if a.len() == 0 {
        assert(a + b =~= b);
    } else {
        let s = subst(a[0]);
        assert((a + b)[0] == a[0]);
        assert((a + b).skip(1) =~= a.skip(1) + b);
        lemma_run_append(col_after(col, s), grid_after(g, col, style, s), style, a.skip(1), b);
    }
}

/// Writing printable bytes that fit in the remaining row advances the
/// cursor by exactly their number.
pub proof fn lemma_fill_columns(col: int, g: Seq<Seq<u16>>, style: u8, bytes: Seq<u8>)
    requires
        0 <= col,
        col + bytes.len() <= BUFFER_WIDTH,
        forall|i: int| 0 <= i < bytes.len() ==> printable(bytes[i]),
    ensures
        run_bytes(col, g, style, bytes).0 == col + bytes.len(),
    decreases bytes.len(),
{
    if bytes.len() > 0 {
        assert(printable(bytes[0]));
        assert(forall|i: int|
            0 <= i < bytes.skip(1).len() ==> printable(#[trigger] bytes.skip(1)[i]));
        lemma_fill_columns(
            col + 1,
            grid_after(g, col, style, bytes[0]),
            style,
            bytes.skip(1),
        );
    }
}

/// Wrap correctness (law): from a fresh line, BUFFER_WIDTH printable
/// bytes fill the bottom row and leave the cursor at the row's end; the
/// next printable byte scrolls first — the filled row moves one row up, a
/// blank row appears at the bottom — and is then placed at column 0, so
/// the cursor stands at 1 right after it.
pub proof fn lemma_wrap_correctness(g: Seq<Seq<u16>>, style: u8, bytes: Seq<u8>)
    requires
        bytes.len() == BUFFER_WIDTH + 1,
        forall|i: int| 0 <= i < bytes.len() ==> printable(bytes[i]),
    ensures
        run_bytes(0, g, style, bytes.take(BUFFER_WIDTH as int)).0 == BUFFER_WIDTH,
        run_bytes(0, g, style, bytes).0 == 1,
        run_bytes(0, g, style, bytes).1 == written(
            scrolled(
                run_bytes(0, g, style, bytes.take(BUFFER_WIDTH as int)).1,
                blank_cell(style),
            ),
            BUFFER_HEIGHT - 1,
            0,
            pack_cell(bytes[BUFFER_WIDTH as int], style),
        ),
{
    let w = BUFFER_WIDTH as int;
    let prefix = bytes.take(w);
    assert(forall|i: int| 0 <= i < prefix.len() ==> printable(#[trigger] prefix[i]));
    lemma_fill_columns(0, g, style, prefix);
    lemma_run_append(0, g, style, prefix, bytes.skip(w));
    assert(prefix + bytes.skip(w) =~= bytes);
    let mid = run_bytes(0, g, style, prefix);
    let last = bytes[w];
    assert(printable(last));
    assert(subst(last) == last);
    assert(bytes.skip(w)[0] == last);
    assert(bytes.skip(w).skip(1) =~= Seq::<u8>::empty());
    let stepped = run_bytes(
        col_after(w, last),
        grid_after(mid.1, w, style, last),
        style,
        Seq::<u8>::empty(),
    );
    assert(run_bytes(mid.0, mid.1, style, bytes.skip(w)) == stepped);
    assert(stepped.0 == 1);
    assert(stepped.1 == grid_after(mid.1, w, style, last));
}

} // verus!
