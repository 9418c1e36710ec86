//! The text-mode BIOS: a grid of 45 rows of 80 coloured characters, the
//! last key pressed and a run flag.
//!
//! Pixels are half cells: pixel row `2r` is the background colour of cell row
//! `r` and pixel row `2r + 1` its foreground colour, both drawn with the
//! lower-half-block character.
use vstd::prelude::*;

verus! {

/// Number of character rows.
pub const ROWS: usize = 45;

/// Number of character columns.
pub const COLUMNS: usize = 80;

/// Default foreground colour (white).
pub const DEFAULT_FG: u8 = 15;

/// The character that draws pixels.
pub const PIXEL_CHAR: char = '\u{2584}';

/// A byte cell.
#[derive(Debug)]
pub struct U8 {
    x: u8,
}

impl View for U8 {
    type V = u8;

    closed spec fn view(&self) -> u8 {
        self.x
    }
}

impl U8 {
    pub fn new(v: u8) -> (r: Self)
        ensures
            r@ == v,
    {
        U8 { x: v }
    }

    pub fn set(&mut self, v: u8)
        ensures
            final(self)@ == v,
    {
        self.x = v;
    }

    pub fn get(&self) -> (r: u8)
        ensures
            r == self@,
    {
        self.x
    }
}

/// What a screen cell shows.
pub struct Cell {
    pub ch: char,
    pub fg: u8,
    pub bg: u8,
}

/// A screen cell: a character with foreground and background colours.
#[derive(Debug)]
pub struct Char {
    x: char,
    col: u8,
    col_bg: u8,
}

impl View for Char {
    type V = Cell;

    closed spec fn view(&self) -> Cell {
        Cell { ch: self.x, fg: self.col, bg: self.col_bg }
    }
}

impl Char {
    /// The character `v`, white on black.
    pub fn new(v: char) -> (r: Self)
        ensures
            r@ == (Cell { ch: v, fg: DEFAULT_FG, bg: 0 }),
    {
        Char { x: v, col: DEFAULT_FG, col_bg: 0 }
    }

    pub fn set(&mut self, v: char)
        ensures
            final(self)@ == (Cell { ch: v, ..old(self)@ }),
    {
        self.x = v;
    }

    pub fn get(&self) -> (r: char)
        ensures
            r == self@.ch,
    {
        self.x
    }

    pub fn get_col(&self) -> (r: u8)
        ensures
            r == self@.fg,
    {
        self.col
    }

    pub fn set_col(&mut self, col: u8)
        ensures
            final(self)@ == (Cell { fg: col, ..old(self)@ }),
    {
        self.col = col;
    }

    pub fn get_col_bg(&self) -> (r: u8)
        ensures
            r == self@.bg,
    {
        self.col_bg
    }

    pub fn set_col_bg(&mut self, col: u8)
        ensures
            final(self)@ == (Cell { bg: col, ..old(self)@ }),
    {
        self.col_bg = col;
    }
}

/// The BIOS state: the character grid (row by row), the run flag (zero
/// asks everything to stop), the last key pressed (`'\0'` for none) and
/// an input line.
#[derive(Debug)]
pub struct BIOS {
    pub char_buffer: Vec<Vec<Char>>,
    pub should_continue: U8,
    pub last_char: Char,
    pub input_string: String,
}

impl BIOS {
    /// The grid has 45 rows of 80 cells.
    pub open spec fn wf(&self) -> bool {
        &&& self.char_buffer@.len() == ROWS
        &&& forall|y: int| 0 <= y < ROWS ==> #[trigger] self.char_buffer@[y]@.len() == COLUMNS
    }

    /// The cell at row `y`, column `x`.
    pub open spec fn cell(&self, y: int, x: int) -> Cell {
        self.char_buffer@[y]@[x]@
    }
}

/// A key event that the BIOS reacts to.
#[derive(Clone, Copy, Debug)]
pub enum KeyInput {
    Backspace,
    Delete,
    /// A character key, with whether Control was held.
    Char { c: char, control: bool },
    Esc,
    End,
    /// Any other key.
    Other,
}

/// What to draw for one cell of the grid: the colour changes that come
/// first (none when the colour is the one last set), then the character at
/// column `x`, row `y`.
#[derive(Clone, Copy, Debug)]
pub struct CellDraw {
    pub x: u16,
    pub y: u16,
    pub ch: char,
    pub set_fg: Option<u8>,
    pub set_bg: Option<u8>,
}


fn set_cell_char(b: &mut BIOS, y: usize, x: usize, c: char)
    requires
        old(b).wf(),
        y < ROWS,
        x < COLUMNS,
    ensures
        final(b).wf(),
        final(b).should_continue == old(b).should_continue,
        final(b).last_char == old(b).last_char,
        final(b).input_string == old(b).input_string,
        final(b).cell(y as int, x as int) == (Cell { ch: c, ..old(b).cell(y as int, x as int) }),
        forall|i: int, j: int|
            0 <= i < ROWS && 0 <= j < COLUMNS && (i != y || j != x) ==> #[trigger] final(b).cell(i, j)
                == old(b).cell(i, j),
{
    b.char_buffer[y][x].set(c);
}

fn set_cell_fg(b: &mut BIOS, y: usize, x: usize, col: u8)
    requires
        old(b).wf(),
        y < ROWS,
        x < COLUMNS,
    ensures
        final(b).wf(),
        final(b).should_continue == old(b).should_continue,
        final(b).last_char == old(b).last_char,
        final(b).input_string == old(b).input_string,
        final(b).cell(y as int, x as int) == (Cell { fg: col, ..old(b).cell(y as int, x as int) }),
        forall|i: int, j: int|
            0 <= i < ROWS && 0 <= j < COLUMNS && (i != y || j != x) ==> #[trigger] final(b).cell(i, j)
                == old(b).cell(i, j),
{
    b.char_buffer[y][x].set_col(col);
}

fn set_cell_bg(b: &mut BIOS, y: usize, x: usize, col: u8)
    requires
        old(b).wf(),
        y < ROWS,
        x < COLUMNS,
    ensures
        final(b).wf(),
        final(b).should_continue == old(b).should_continue,
        final(b).last_char == old(b).last_char,
        final(b).input_string == old(b).input_string,
        final(b).cell(y as int, x as int) == (Cell { bg: col, ..old(b).cell(y as int, x as int) }),
        forall|i: int, j: int|
            0 <= i < ROWS && 0 <= j < COLUMNS && (i != y || j != x) ==> #[trigger] final(b).cell(i, j)
                == old(b).cell(i, j),
{
    b.char_buffer[y][x].set_col_bg(col);
}

impl BIOS {
    /// Whether the grid has its 45 rows of 80 cells, which the drawing
    /// functions ask for.
    pub fn has_full_grid(&self) -> (r: bool)
        ensures
            r == self.wf(),
    {
        if self.char_buffer.len() != ROWS {
            return false;
        }
        let mut y: usize = 0;
        while y < ROWS
            invariant
                y <= ROWS,
                self.char_buffer@.len() == ROWS,
                forall|i: int| 0 <= i < y ==> #[trigger] self.char_buffer@[i]@.len() == COLUMNS,
            decreases ROWS - y,
        {
            if self.char_buffer[y].len() != COLUMNS {
                return false;
            }
            y = y + 1;
        }
        true
    }

    /// A blank grid (character `'\0'`, white on black), running, no key.
    pub fn new() -> (r: Self)
        ensures
            r.wf(),
            forall|y: int, x: int|
                0 <= y < ROWS && 0 <= x < COLUMNS ==> #[trigger] r.cell(y, x) == (Cell {
                    ch: '\0',
                    fg: DEFAULT_FG,
                    bg: 0,
                }),
            r.should_continue@ == 1,
            r.last_char@ == (Cell { ch: '\0', fg: DEFAULT_FG, bg: 0 }),
            r.input_string@ == Seq::<char>::empty(),
    {
        let mut rows: Vec<Vec<Char>> = Vec::new();
        let mut y: usize = 0;
        while y < ROWS
            invariant
                y <= ROWS,
                rows@.len() == y,
                forall|i: int| 0 <= i < y ==> #[trigger] rows@[i]@.len() == COLUMNS,
                forall|i: int, j: int|
                    0 <= i < y && 0 <= j < COLUMNS ==> #[trigger] rows@[i]@[j]@ == (Cell {
                        ch: '\0',
                        fg: DEFAULT_FG,
                        bg: 0,
                    }),
            decreases ROWS - y,
        {
            let mut row: Vec<Char> = Vec::new();
            let mut x: usize = 0;
            while x < COLUMNS
                invariant
                    x <= COLUMNS,
                    row@.len() == x,
                    forall|j: int| 0 <= j < x ==> #[trigger] row@[j]@ == (Cell { ch: '\0', fg: DEFAULT_FG, bg: 0 }),
                decreases COLUMNS - x,
            {
                row.push(Char::new('\0'));
                x = x + 1;
            }
            rows.push(row);
            y = y + 1;
        }
        BIOS {
            char_buffer: rows,
            should_continue: U8::new(1),
            last_char: Char::new('\0'),
            input_string: String::new(),
        }
    }

    /// Reacts to a key press: Backspace and Delete become character 127,
    /// a character key becomes the last character, and Esc, End and
    /// Control-C clear the run flag.
    pub fn handle_key(&mut self, key: KeyInput)
        ensures
            final(self).char_buffer == old(self).char_buffer,
            final(self).input_string == old(self).input_string,
            final(self).last_char@ == match key {
                KeyInput::Backspace => Cell { ch: 127 as char, ..old(self).last_char@ },
                KeyInput::Delete => Cell { ch: 127 as char, ..old(self).last_char@ },
                KeyInput::Char { c, control } => Cell { ch: c, ..old(self).last_char@ },
                _ => old(self).last_char@,
            },
            final(self).should_continue@ == match key {
                KeyInput::Char { c, control } => if control && c == 'c' {
                    0
                } else {
                    old(self).should_continue@
                },
                KeyInput::Esc => 0,
                KeyInput::End => 0,
                _ => old(self).should_continue@,
            },
    {
        match key {
            KeyInput::Backspace => {
                self.last_char.set(127 as char);
            },
            KeyInput::Delete => {
                self.last_char.set(127 as char);
            },
            KeyInput::Char { c, control } => {
                if control && c == 'c' {
                    self.should_continue.set(0);
                }
                self.last_char.set(c);
            },
            KeyInput::Esc => {
                self.should_continue.set(0);
            },
            KeyInput::End => {
                self.should_continue.set(0);
            },
            KeyInput::Other => {},
        }
    }
}

/// Writes `c` at column `x % 80`, row `y % 45`, white on black.
pub fn write_char(bios: &mut BIOS, c: char, x: u16, y: u16)
    requires
        old(bios).wf(),
    ensures
        final(bios).wf(),
        final(bios).should_continue == old(bios).should_continue,
        final(bios).last_char == old(bios).last_char,
        final(bios).input_string == old(bios).input_string,
        forall|i: int, j: int|
            0 <= i < ROWS && 0 <= j < COLUMNS ==> #[trigger] final(bios).cell(i, j) == if i == y % 45
                && j == x % 80 {
                Cell { ch: c, fg: DEFAULT_FG, bg: 0 }
            } else {
                old(bios).cell(i, j)
            },
{
    let x = (x % 80) as usize;
    let y = (y % 45) as usize;
    set_cell_char(bios, y, x, c);
    set_cell_fg(bios, y, x, DEFAULT_FG);
    set_cell_bg(bios, y, x, 0);
}

/// Writes `c` at column `x % 80`, row `y % 45` in foreground colour `col`,
/// keeping the cell's background.
pub fn write_char_color(bios: &mut BIOS, c: char, x: u16, y: u16, col: u8)
    requires
        old(bios).wf(),
    ensures
        final(bios).wf(),
        final(bios).should_continue == old(bios).should_continue,
        final(bios).last_char == old(bios).last_char,
        final(bios).input_string == old(bios).input_string,
        forall|i: int, j: int|
            0 <= i < ROWS && 0 <= j < COLUMNS ==> #[trigger] final(bios).cell(i, j) == if i == y % 45
                && j == x % 80 {
                Cell { ch: c, fg: col, bg: old(bios).cell(i, j).bg }
            } else {
                old(bios).cell(i, j)
            },
{
    let x = (x % 80) as usize;
    let y = (y % 45) as usize;
    set_cell_char(bios, y, x, c);
    set_cell_fg(bios, y, x, col);
}

/// Takes the last key pressed: `None` when there is none (`'\0'`), and the
/// key is then forgotten.
pub fn read_char(bios: &mut BIOS) -> (r: Option<char>)
    ensures
        final(bios).char_buffer == old(bios).char_buffer,
        final(bios).should_continue == old(bios).should_continue,
        final(bios).input_string == old(bios).input_string,
        old(bios).last_char@.ch == '\0' ==> r is None && final(bios).last_char == old(bios).last_char,
        old(bios).last_char@.ch != '\0' ==> r == Some(old(bios).last_char@.ch) && final(bios).last_char@
            == (Cell { ch: '\0', ..old(bios).last_char@ }),
{
    let tmp = bios.last_char.get();
    if tmp == '\0' {
        None
    } else {
        bios.last_char.set('\0');
        Some(tmp)
    }
}

/// Whether the run flag asks everything to stop.
pub fn should_exit(bios: &BIOS) -> (r: bool)
    ensures
        r == (bios.should_continue@ == 0),
{
    bios.should_continue.get() == 0
}

/// Whether the run flag lets everything go on.
pub fn should_continue(bios: &BIOS) -> (r: bool)
    ensures
        r == (bios.should_continue@ != 0),
{
    bios.should_continue.get() != 0
}

/// The cell that pixel `(x, y)` lands in after wrapping (`x % 80`,
/// `y % 90`), painted in `col`.
pub open spec fn pixel_cell(old_cell: Cell, y: int, col: u8) -> Cell {
    if (y % 90) % 2 == 0 {
        Cell { ch: PIXEL_CHAR, bg: col, ..old_cell }
    } else {
        Cell { ch: PIXEL_CHAR, fg: col, ..old_cell }
    }
}

/// Sets pixel `(x % 80, y % 90)` to colour `col`.
pub fn draw_pixel(bios: &mut BIOS, x: u16, y: u16, col: u8)
    requires
        old(bios).wf(),
    ensures
        final(bios).wf(),
        final(bios).should_continue == old(bios).should_continue,
        final(bios).last_char == old(bios).last_char,
        final(bios).input_string == old(bios).input_string,
        forall|i: int, j: int|
            0 <= i < ROWS && 0 <= j < COLUMNS ==> #[trigger] final(bios).cell(i, j) == if i == (y % 90)
                / 2 && j == x % 80 {
                pixel_cell(old(bios).cell(i, j), y as int, col)
            } else {
                old(bios).cell(i, j)
            },
{
    let x = (x % 80) as usize;
    let y2 = y % 90;
    let y_act = (y2 / 2) as usize;
    if y2 % 2 == 0 {
        set_cell_bg(bios, y_act, x, col);
        set_cell_char(bios, y_act, x, PIXEL_CHAR);
    } else {
        set_cell_fg(bios, y_act, x, col);
        set_cell_char(bios, y_act, x, PIXEL_CHAR);
    }
}

fn fill(bios: &mut BIOS, bg: u8)
    requires
        old(bios).wf(),
    ensures
        final(bios).wf(),
        final(bios).should_continue == old(bios).should_continue,
        final(bios).last_char == old(bios).last_char,
        final(bios).input_string == old(bios).input_string,
        forall|i: int, j: int|
            0 <= i < ROWS && 0 <= j < COLUMNS ==> #[trigger] final(bios).cell(i, j) == (Cell {
                ch: '\0',
                fg: DEFAULT_FG,
                bg: bg,
            }),
{
    let mut i: usize = 0;
    while i < ROWS
        invariant
            i <= ROWS,
            bios.wf(),
            bios.should_continue == old(bios).should_continue,
            bios.last_char == old(bios).last_char,
            bios.input_string == old(bios).input_string,
            forall|a: int, b: int|
                0 <= a < i && 0 <= b < COLUMNS ==> #[trigger] bios.cell(a, b) == (Cell {
                    ch: '\0',
                    fg: DEFAULT_FG,
                    bg: bg,
                }),
        decreases ROWS - i,
    {
        let mut j: usize = 0;
        while j < COLUMNS
            invariant
                i < ROWS,
                j <= COLUMNS,
                bios.wf(),
                bios.should_continue == old(bios).should_continue,
                bios.last_char == old(bios).last_char,
                bios.input_string == old(bios).input_string,
                forall|a: int, b: int|
                    (0 <= a < i && 0 <= b < COLUMNS) || (a == i && 0 <= b < j) ==> #[trigger] bios.cell(a, b)
                        == (Cell { ch: '\0', fg: DEFAULT_FG, bg: bg }),
            decreases COLUMNS - j,
        {
            set_cell_char(bios, i, j, '\0');
            set_cell_fg(bios, i, j, DEFAULT_FG);
            set_cell_bg(bios, i, j, bg);
            j = j + 1;
        }
        i = i + 1;
    }
}

/// Blanks every cell: character `'\0'`, white on black.
pub fn clear_frame_buffer(bios: &mut BIOS)
    requires
        old(bios).wf(),
    ensures
        final(bios).wf(),
        final(bios).should_continue == old(bios).should_continue,
        final(bios).last_char == old(bios).last_char,
        final(bios).input_string == old(bios).input_string,
        forall|i: int, j: int|
            0 <= i < ROWS && 0 <= j < COLUMNS ==> #[trigger] final(bios).cell(i, j) == (Cell {
                ch: '\0',
                fg: DEFAULT_FG,
                bg: 0,
            }),
{
    fill(bios, 0);
}

/// Blanks every cell: character `'\0'`, white on background `c`.
pub fn clear_frame_buffer_color(bios: &mut BIOS, c: u8)
    requires
        old(bios).wf(),
    ensures
        final(bios).wf(),
        final(bios).should_continue == old(bios).should_continue,
        final(bios).last_char == old(bios).last_char,
        final(bios).input_string == old(bios).input_string,
        forall|i: int, j: int|
            0 <= i < ROWS && 0 <= j < COLUMNS ==> #[trigger] final(bios).cell(i, j) == (Cell {
                ch: '\0',
                fg: DEFAULT_FG,
                bg: c,
            }),
{
    fill(bios, c);
}


/// Whether some pixel `(px, py)` with `x0 <= px < x1` and `y0 <= py < y1`
/// lands in cell `(row, col)` on the side `parity` (0 background, 1
/// foreground).
pub open spec fn rect_hits(x0: int, x1: int, y0: int, y1: int, row: int, col: int, parity: int) -> bool {
    exists|px: int, py: int|
        x0 <= px < x1 && y0 <= py < y1 && #[trigger] (px % 80) == col && #[trigger] (py % 90) == 2 * row
            + parity
}

/// A cell after pixels of colour `c` have landed on its background side
/// (`back`) and/or its foreground side (`fore`).
pub open spec fn painted(old_cell: Cell, back: bool, fore: bool, c: u8) -> Cell {
    if !back && !fore {
        old_cell
    } else {
        Cell {
            ch: PIXEL_CHAR,
            fg: if fore {
                c
            } else {
                old_cell.fg
            },
            bg: if back {
                c
            } else {
                old_cell.bg
            },
        }
    }
}

pub(crate) proof fn lemma_rect_empty(x0: int, x1: int, y0: int, y1: int, row: int, col: int, parity: int)
    requires
        x1 <= x0 || y1 <= y0,
    ensures
        !rect_hits(x0, x1, y0, y1, row, col, parity),
{
}

pub(crate) proof fn lemma_rect_extend_x(x0: int, x1: int, y0: int, row: int, col: int, parity: int)
    requires
        x0 <= x1,
    ensures
        rect_hits(x0, x1 + 1, y0, y0 + 1, row, col, parity) == (rect_hits(x0, x1, y0, y0 + 1, row, col, parity)
            || (x1 % 80 == col && y0 % 90 == 2 * row + parity)),
{
    if rect_hits(x0, x1 + 1, y0, y0 + 1, row, col, parity) && !(x1 % 80 == col && y0 % 90 == 2 * row + parity) {
        let (px, py) = choose|px: int, py: int|
            x0 <= px < x1 + 1 && y0 <= py < y0 + 1 && #[trigger] (px % 80) == col && #[trigger] (py % 90) == 2
                * row + parity;
        assert(py == y0);
        assert(px != x1);
        assert(x0 <= px < x1 && y0 <= py < y0 + 1 && (px % 80) == col && (py % 90) == 2 * row + parity);
    }
    if rect_hits(x0, x1, y0, y0 + 1, row, col, parity) {
        let (px, py) = choose|px: int, py: int|
            x0 <= px < x1 && y0 <= py < y0 + 1 && #[trigger] (px % 80) == col && #[trigger] (py % 90) == 2 * row
                + parity;
        assert(x0 <= px < x1 + 1 && y0 <= py < y0 + 1 && (px % 80) == col && (py % 90) == 2 * row + parity);
    }
    if x1 % 80 == col && y0 % 90 == 2 * row + parity {
        assert(x0 <= x1 < x1 + 1 && y0 <= y0 < y0 + 1 && (x1 % 80) == col && (y0 % 90) == 2 * row + parity);
    }
}

pub(crate) proof fn lemma_rect_extend_y(x0: int, x1: int, y0: int, y1: int, row: int, col: int, parity: int)
    requires
        y0 <= y1,
    ensures
        rect_hits(x0, x1, y0, y1 + 1, row, col, parity) == (rect_hits(x0, x1, y0, y1, row, col, parity)
            || rect_hits(x0, x1, y1, y1 + 1, row, col, parity)),
{
    if rect_hits(x0, x1, y0, y1 + 1, row, col, parity) {
        let (px, py) = choose|px: int, py: int|
            x0 <= px < x1 && y0 <= py < y1 + 1 && #[trigger] (px % 80) == col && #[trigger] (py % 90) == 2 * row
                + parity;
        if py < y1 {
            assert(x0 <= px < x1 && y0 <= py < y1 && (px % 80) == col && (py % 90) == 2 * row + parity);
        } else {
            assert(x0 <= px < x1 && y1 <= py < y1 + 1 && (px % 80) == col && (py % 90) == 2 * row + parity);
        }
    }
    if rect_hits(x0, x1, y0, y1, row, col, parity) {
        let (px, py) = choose|px: int, py: int|
            x0 <= px < x1 && y0 <= py < y1 && #[trigger] (px % 80) == col && #[trigger] (py % 90) == 2 * row
                + parity;
        assert(x0 <= px < x1 && y0 <= py < y1 + 1 && (px % 80) == col && (py % 90) == 2 * row + parity);
    }
    if rect_hits(x0, x1, y1, y1 + 1, row, col, parity) {
        let (px, py) = choose|px: int, py: int|
            x0 <= px < x1 && y1 <= py < y1 + 1 && #[trigger] (px % 80) == col && #[trigger] (py % 90) == 2 * row
                + parity;
        assert(x0 <= px < x1 && y0 <= py < y1 + 1 && (px % 80) == col && (py % 90) == 2 * row + parity);
    }
}

/// The cells after drawing the pixels of `[x0, x1) x [y0, y1)` plus those of
/// `[x0, cx)` on row `cy`.
pub open spec fn partly_painted(
    orig: Cell,
    x0: int,
    x1: int,
    y0: int,
    cy: int,
    cx: int,
    row: int,
    col: int,
    c: u8,
) -> Cell {
    painted(
        orig,
        rect_hits(x0, x1, y0, cy, row, col, 0) || rect_hits(x0, cx, cy, cy + 1, row, col, 0),
        rect_hits(x0, x1, y0, cy, row, col, 1) || rect_hits(x0, cx, cy, cy + 1, row, col, 1),
        c,
    )
}

/// Draws every pixel `(px, py)` with `x <= px < x + w` and `y <= py < y + h`
/// in colour `col`, where the ends are computed modulo 2^16 (so a wrapped end
/// draws nothing); pixels wrap onto the screen as in [`draw_pixel`].
pub fn draw_rectangle(bios: &mut BIOS, x: u16, y: u16, w: u16, h: u16, col: u8)
    requires
        old(bios).wf(),
    ensures
        final(bios).wf(),
        final(bios).should_continue == old(bios).should_continue,
        final(bios).last_char == old(bios).last_char,
        final(bios).input_string == old(bios).input_string,
        ({
            let ex = vstd::wrapping::u16_specs::wrapping_add(x, w) as int;
            let ey = vstd::wrapping::u16_specs::wrapping_add(y, h) as int;
            forall|i: int, j: int|
                0 <= i < ROWS && 0 <= j < COLUMNS ==> #[trigger] final(bios).cell(i, j) == painted(
                    old(bios).cell(i, j),
                    rect_hits(x as int, ex, y as int, ey, i, j, 0),
                    rect_hits(x as int, ex, y as int, ey, i, j, 1),
                    col,
                )
        }),
{
    let ex = x.wrapping_add(w) as u32;
    let ey = y.wrapping_add(h) as u32;
    let ghost orig = *bios;
    let mut dy: u32 = y as u32;
    proof {
        assert forall|i: int, j: int| 0 <= i < ROWS && 0 <= j < COLUMNS implies #[trigger] bios.cell(i, j)
            == partly_painted(orig.cell(i, j), x as int, ex as int, y as int, dy as int, x as int, i, j, col) by {
            lemma_rect_empty(x as int, ex as int, y as int, y as int, i, j, 0);
            lemma_rect_empty(x as int, ex as int, y as int, y as int, i, j, 1);
            lemma_rect_empty(x as int, x as int, dy as int, dy as int + 1, i, j, 0);
            lemma_rect_empty(x as int, x as int, dy as int, dy as int + 1, i, j, 1);
        }
    }
    while dy < ey
        invariant
            bios.wf(),
            bios.should_continue == orig.should_continue,
            bios.last_char == orig.last_char,
            bios.input_string == orig.input_string,
            y <= dy,
            y <= ey ==> dy <= ey,
            y > ey ==> dy == y,
            ey <= 0xffff,
            ex <= 0xffff,
            forall|i: int, j: int|
                0 <= i < ROWS && 0 <= j < COLUMNS ==> #[trigger] bios.cell(i, j) == partly_painted(
                    orig.cell(i, j),
                    x as int,
                    ex as int,
                    y as int,
                    dy as int,
                    x as int,
                    i,
                    j,
                    col,
                ),
        decreases ey - dy,
    {
        let mut dx: u32 = x as u32;
        while dx < ex
            invariant
                bios.wf(),
                bios.should_continue == orig.should_continue,
                bios.last_char == orig.last_char,
                bios.input_string == orig.input_string,
                y <= dy < ey,
                ey <= 0xffff,
                ex <= 0xffff,
                x <= dx,
                x <= ex ==> dx <= ex,
                x > ex ==> dx == x,
                forall|i: int, j: int|
                    0 <= i < ROWS && 0 <= j < COLUMNS ==> #[trigger] bios.cell(i, j) == partly_painted(
                        orig.cell(i, j),
                        x as int,
                        ex as int,
                        y as int,
                        dy as int,
                        dx as int,
                        i,
                        j,
                        col,
                    ),
            decreases ex - dx,
        {
            let ghost before = *bios;
            draw_pixel(bios, dx as u16, dy as u16, col);
            proof {
                assert forall|i: int, j: int| 0 <= i < ROWS && 0 <= j < COLUMNS implies #[trigger] bios.cell(i, j)
                    == partly_painted(orig.cell(i, j), x as int, ex as int, y as int, dy as int, dx + 1, i, j, col) by {
                    lemma_rect_extend_x(x as int, dx as int, dy as int, i, j, 0);
                    lemma_rect_extend_x(x as int, dx as int, dy as int, i, j, 1);
                    assert(before.cell(i, j) == partly_painted(orig.cell(i, j), x as int, ex as int, y as int, dy as int, dx as int, i, j, col));
                }
            }
            dx = dx + 1;
        }
        proof {
            assert forall|i: int, j: int| 0 <= i < ROWS && 0 <= j < COLUMNS implies #[trigger] bios.cell(i, j)
                == partly_painted(orig.cell(i, j), x as int, ex as int, y as int, dy + 1, x as int, i, j, col) by {
                if x <= ex {
                    assert(dx == ex);
                } else {
                    lemma_rect_empty(x as int, ex as int, dy as int, dy as int + 1, i, j, 0);
                    lemma_rect_empty(x as int, ex as int, dy as int, dy as int + 1, i, j, 1);
                    lemma_rect_empty(x as int, dx as int, dy as int, dy as int + 1, i, j, 0);
                    lemma_rect_empty(x as int, dx as int, dy as int, dy as int + 1, i, j, 1);
                }
                lemma_rect_extend_y(x as int, ex as int, y as int, dy as int, i, j, 0);
                lemma_rect_extend_y(x as int, ex as int, y as int, dy as int, i, j, 1);
                lemma_rect_empty(x as int, x as int, dy as int + 1, dy as int + 2, i, j, 0);
                lemma_rect_empty(x as int, x as int, dy as int + 1, dy as int + 2, i, j, 1);
            }
        }
        dy = dy + 1;
    }
    proof {
        assert forall|i: int, j: int| 0 <= i < ROWS && 0 <= j < COLUMNS implies #[trigger] bios.cell(i, j)
            == painted(orig.cell(i, j), rect_hits(x as int, ex as int, y as int, ey as int, i, j, 0), rect_hits(x as int, ex as int, y as int, ey as int, i, j, 1), col) by {
            lemma_rect_empty(x as int, x as int, dy as int, dy as int + 1, i, j, 0);
            lemma_rect_empty(x as int, x as int, dy as int, dy as int + 1, i, j, 1);
            if y > ey {
                lemma_rect_empty(x as int, ex as int, y as int, ey as int, i, j, 0);
                lemma_rect_empty(x as int, ex as int, y as int, ey as int, i, j, 1);
                lemma_rect_empty(x as int, ex as int, y as int, dy as int, i, j, 0);
                lemma_rect_empty(x as int, ex as int, y as int, dy as int, i, j, 1);
            } else {
                assert(dy == ey);
            }
        }
    }
}


impl BIOS {
    /// The cell at position `k` in row-major order.
    pub open spec fn nth_cell(&self, k: int) -> Cell {
        self.cell(k / 80, k % 80)
    }

    /// The foreground and background colours in force before cell `k` is
    /// drawn: white on black at the start, then those of the cell before.
    pub open spec fn colours_before(&self, k: int) -> (u8, u8) {
        if k == 0 {
            (DEFAULT_FG, 0)
        } else {
            (self.nth_cell(k - 1).fg, self.nth_cell(k - 1).bg)
        }
    }

    /// How cell `k` (row-major) is drawn: a blank shows as a space.
    pub open spec fn cell_draw(&self, k: int) -> CellDraw {
        let c = self.nth_cell(k);
        let (fg, bg) = self.colours_before(k);
        CellDraw {
            x: (k % 80) as u16,
            y: (k / 80) as u16,
            ch: if c.ch == '\0' {
                ' '
            } else {
                c.ch
            },
            set_fg: if c.fg != fg {
                Some(c.fg)
            } else {
                None
            },
            set_bg: if c.bg != bg {
                Some(c.bg)
            } else {
                None
            },
        }
    }

    /// The drawing of the whole grid, row by row, starting from white on
    /// black and changing colour only where it differs from the last one set.
    pub fn render_cells(&self) -> (r: Vec<CellDraw>)
        requires
            self.wf(),
        ensures
            r@.len() == ROWS * COLUMNS,
            forall|k: int| 0 <= k < ROWS * COLUMNS ==> #[trigger] r@[k] == self.cell_draw(k),
    {
        let mut out: Vec<CellDraw> = Vec::new();
        let mut cfg: u8 = DEFAULT_FG;
        let mut cbg: u8 = 0;
        let mut y: usize = 0;
        while y < ROWS
            invariant
                self.wf(),
                y <= ROWS,
                out@.len() == y * 80,
                (cfg, cbg) == self.colours_before(out@.len() as int),
                forall|k: int| 0 <= k < out@.len() ==> #[trigger] out@[k] == self.cell_draw(k),
            decreases ROWS - y,
        {
            let mut x: usize = 0;
            while x < COLUMNS
                invariant
                    self.wf(),
                    y < ROWS,
                    x <= COLUMNS,
                    out@.len() == y * 80 + x,
                    (cfg, cbg) == self.colours_before(out@.len() as int),
                    forall|k: int| 0 <= k < out@.len() ==> #[trigger] out@[k] == self.cell_draw(k),
                decreases COLUMNS - x,
            {
                let ghost k = out@.len() as int;
                proof {
                    assert(k / 80 == y as int && k % 80 == x as int) by (nonlinear_arith)
                        requires
                            k == y * 80 + x,
                            0 <= x < 80,
                            0 <= y,
                    ;
                }
                let cell = &self.char_buffer[y][x];
                let fg = cell.get_col();
                let bg = cell.get_col_bg();
                let c = cell.get();
                let set_fg = if fg != cfg {
                    cfg = fg;
                    Some(fg)
                } else {
                    None
                };
                let set_bg = if bg != cbg {
                    cbg = bg;
                    Some(bg)
                } else {
                    None
                };
                let ch = if c == '\0' {
                    ' '
                } else {
                    c
                };
                out.push(CellDraw { x: x as u16, y: y as u16, ch, set_fg, set_bg });
                proof {
                    assert((k + 1) - 1 == k);
                }
                x = x + 1;
            }
            y = y + 1;
        }
        out
    }
}

} // verus!
