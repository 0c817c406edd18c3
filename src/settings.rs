//! The in-memory model of a saved board: grid size, cells, update rate,
//! colors and the initial camera framing.
use vstd::prelude::*;

pub mod golfile;

pub use golfile::GOLFileError;

use golfile::{u32_be_bytes, u32_from_be, u32_from_be_bytes, u32_to_be_bytes};

verus! {

/// A color: four 8-bit channels.
#[derive(Debug, Clone, Copy, PartialEq, Eq, Structural, Default)]
pub struct RGBA {
    pub r: u8,
    pub g: u8,
    pub b: u8,
    pub a: u8,
}

impl RGBA {
    /// The four channels in file order: red, green, blue, alpha.
    pub open spec fn spec_bytes(self) -> Seq<u8> {
        seq![self.r, self.g, self.b, self.a]
    }

    pub fn to_be_bytes(&self) -> (r: [u8; 4])
        ensures
            r@ == self.spec_bytes(),
    {
        let r = [self.r, self.g, self.b, self.a];
        assert(r@ =~= self.spec_bytes());
        r
    }
}

/// How a loaded board is first framed on screen.
///
/// The zoom factor of `Center` is an IEEE-754 single-precision value, held
/// as its bit pattern.
#[derive(Debug, Clone, Copy, PartialEq, Eq, Structural)]
pub enum StartingView {
    FitGridToScreen,
    Center(u32),
}

impl StartingView {
    /// The five bytes of the view in a file: a tag, `0` or `1`, then the
    /// zoom of `Center`, or four zero bytes.
    pub open spec fn spec_bytes(self) -> Seq<u8> {
        match self {
            StartingView::FitGridToScreen => seq![0u8, 0u8, 0u8, 0u8, 0u8],
            StartingView::Center(zoom) => seq![1u8] + u32_be_bytes(zoom),
        }
    }

    /// The view that five bytes of a file hold: tag `0` is
    /// `FitGridToScreen`, whatever follows it; tag `1` is `Center` with the
    /// zoom that follows; any other tag is not valid.
    pub open spec fn spec_from_bytes(b: Seq<u8>) -> Result<StartingView, GOLFileError> {
        if b[0] == 0 {
            Ok(StartingView::FitGridToScreen)
        } else if b[0] == 1 {
            Ok(StartingView::Center(u32_from_be(b[1], b[2], b[3], b[4])))
        } else {
            Err(GOLFileError::NotValidFile)
        }
    }

    pub fn to_be_bytes(self) -> (r: [u8; 5])
        ensures
            r@ == self.spec_bytes(),
    {
        match self {
            StartingView::FitGridToScreen => {
                let r = [0x00u8, 0x00, 0x00, 0x00, 0x00];
                assert(r@ =~= self.spec_bytes());
                r
            },
            StartingView::Center(zoom) => {
                let zoom_bytes = u32_to_be_bytes(zoom);
                let r = [0x01u8, zoom_bytes[0], zoom_bytes[1], zoom_bytes[2], zoom_bytes[3]];
                assert(r@ =~= self.spec_bytes());
                r
            },
        }
    }

    pub fn from_be_bytes(bytes: [u8; 5]) -> (r: Result<Self, GOLFileError>)
        ensures
            r == StartingView::spec_from_bytes(bytes@),
    {
        match bytes[0] {
            0x00 => Ok(StartingView::FitGridToScreen),
            0x01 => Ok(StartingView::Center(u32_from_be_bytes(bytes[1], bytes[2], bytes[3], bytes[4]))),
            _ => Err(GOLFileError::NotValidFile),
        }
    }
}

/// The bit pattern of the 32-bit float `0.0`.
pub const F32_ZERO_BITS: u32 = 0x0000_0000;

/// The bit pattern of the 32-bit float `-0.0`.
pub const F32_NEG_ZERO_BITS: u32 = 0x8000_0000;

/// The bit pattern of the 32-bit float `2.0`.
pub const F32_TWO_BITS: u32 = 0x4000_0000;

/// The float with these bits compares equal to `0.0` (it is `0.0` or `-0.0`).
pub open spec fn is_zero_f32(bits: u32) -> bool {
    bits == F32_ZERO_BITS || bits == F32_NEG_ZERO_BITS
}

/// Tells whether the float with these bits compares equal to `0.0`.
pub fn f32_bits_is_zero(bits: u32) -> (r: bool)
    ensures
        r == is_zero_f32(bits),
{
    bits == F32_ZERO_BITS || bits == F32_NEG_ZERO_BITS
}

/// A grid of `rows` rows of `columns` cells, all off.
pub open spec fn blank_grid(columns: nat, rows: nat) -> Seq<Seq<bool>> {
    Seq::new(rows, |_r: int| blank_row_spec(columns))
}

/// A row of `columns` cells, all off.
pub open spec fn blank_row_spec(columns: nat) -> Seq<bool> {
    Seq::new(columns, |_c: int| false)
}

/// The cells of each row of a grid.
pub open spec fn rows_view(rows: Seq<Vec<bool>>) -> Seq<Seq<bool>> {
    rows.map_values(|row: Vec<bool>| row@)
}

/// The mathematical value of a [`Settings`].
pub struct SettingsView {
    /// Row-major cells: `squares[row][column]`.
    pub squares: Seq<Seq<bool>>,
    pub squares_x: u16,
    pub squares_y: u16,
    /// Bits of the 32-bit float rate of updates per second.
    pub updates_sec: u32,
    pub background_color: RGBA,
    pub starting_view: StartingView,
    pub square_color_off: RGBA,
    pub square_color_on: RGBA,
}

impl SettingsView {
    /// The grid holds exactly `squares_y` rows of `squares_x` cells.
    pub open spec fn is_rectangular(self) -> bool {
        &&& self.squares.len() == self.squares_y
        &&& forall|row: int|
            0 <= row < self.squares.len() ==> #[trigger] self.squares[row].len() == self.squares_x
    }

    /// Both dimensions positive, a nonzero rate, and a cell field of the
    /// declared size.
    pub open spec fn valid(self) -> bool {
        &&& self.squares_x > 0
        &&& self.squares_y > 0
        &&& !is_zero_f32(self.updates_sec)
        &&& self.is_rectangular()
    }
}

/// The settings a new board starts from.
pub open spec fn default_settings() -> SettingsView {
    SettingsView {
        squares: blank_grid(5, 5),
        squares_x: 5,
        squares_y: 5,
        updates_sec: F32_TWO_BITS,
        background_color: RGBA { r: 4, g: 4, b: 4, a: 255 },
        starting_view: StartingView::FitGridToScreen,
        square_color_off: RGBA { r: 105, g: 105, b: 105, a: 255 },
        square_color_on: RGBA { r: 211, g: 211, b: 211, a: 255 },
    }
}

/// A Game of Life board and the way it is displayed.
#[derive(Debug, Clone)]
pub struct Settings {
    /// Row major order, i.e. `squares[row][column]`.
    squares: Vec<Vec<bool>>,
    squares_x: u16,
    squares_y: u16,
    updates_sec: u32,
    background_color: RGBA,
    starting_view: StartingView,
    square_color_off: RGBA,
    square_color_on: RGBA,
}

impl View for Settings {
    type V = SettingsView;

    closed spec fn view(&self) -> SettingsView {
        SettingsView {
            squares: rows_view(self.squares@),
            squares_x: self.squares_x,
            squares_y: self.squares_y,
            updates_sec: self.updates_sec,
            background_color: self.background_color,
            starting_view: self.starting_view,
            square_color_off: self.square_color_off,
            square_color_on: self.square_color_on,
        }
    }
}

/// A row of `columns` cells, all off.
fn blank_row(columns: u16) -> (r: Vec<bool>)
    ensures
        r@ == blank_row_spec(columns as nat),
{
    let mut row: Vec<bool> = Vec::new();
    for _column in 0..columns
        invariant
            row@ == blank_row_spec(_column as nat),
    {
        row.push(false);
        assert(row@ =~= blank_row_spec((_column + 1) as nat));
    }
    row
}

/// A grid of `rows` rows of `columns` cells, all off.
fn blank_squares(columns: u16, rows: u16) -> (r: Vec<Vec<bool>>)
    ensures
        rows_view(r@) == blank_grid(columns as nat, rows as nat),
{
    let mut squares: Vec<Vec<bool>> = Vec::new();
    for row in 0..rows
        invariant
            rows_view(squares@) == blank_grid(columns as nat, row as nat),
    {
        let ghost before = squares@;
        assert(rows_view(before).len() == before.len());
        assert(before.len() == row);
        let new_row = blank_row(columns);
        squares.push(new_row);
        assert forall|r: int| 0 <= r < squares@.len() implies #[trigger] squares@[r]@
            == blank_row_spec(columns as nat) by {
            if r < before.len() {
                assert(squares@[r] == before[r]);
                assert(rows_view(before)[r] == before[r]@);
                assert(blank_grid(columns as nat, row as nat)[r] == blank_row_spec(columns as nat));
            }
        }
        assert(rows_view(squares@) =~= blank_grid(
            columns as nat,
            (row + 1) as nat,
        ));
    }
    squares
}

impl Default for StartingView {
    fn default() -> (r: Self)
        ensures
            r == StartingView::FitGridToScreen,
    {
        StartingView::FitGridToScreen
    }
}

impl Default for Settings {
    fn default() -> (r: Self)
        ensures
            r@ == default_settings(),
            r.wf(),
    {
        Settings {
            squares: blank_squares(5, 5),
            squares_x: 5,
            squares_y: 5,
            updates_sec: F32_TWO_BITS,
            background_color: RGBA { r: 4, g: 4, b: 4, a: 255 },
            starting_view: StartingView::FitGridToScreen,
            square_color_off: RGBA { r: 105, g: 105, b: 105, a: 255 },
            square_color_on: RGBA { r: 211, g: 211, b: 211, a: 255 },
        }
    }
}

impl Settings {
    /// Well-formedness: the value is a valid board.
    pub open spec fn wf(&self) -> bool {
        self@.valid()
    }

    pub fn squares_x(&self) -> (r: u16)
        ensures
            r == self@.squares_x,
    {
        self.squares_x
    }

    pub fn squares_y(&self) -> (r: u16)
        ensures
            r == self@.squares_y,
    {
        self.squares_y
    }

    /// Whether the cell at `row`, `column` is on.
    pub fn square(&self, row: u16, column: u16) -> (r: bool)
        requires
            self.wf(),
            row < self@.squares_y,
            column < self@.squares_x,
        ensures
            r == self@.squares[row as int][column as int],
    {
        assert(self@.squares[row as int] == self.squares@[row as int]@);
        self.squares[row as usize][column as usize]
    }

    /// Bits of the 32-bit float rate of updates per second.
    pub fn updates_sec(&self) -> (r: u32)
        ensures
            r == self@.updates_sec,
    {
        self.updates_sec
    }

    pub fn starting_view(&self) -> (r: StartingView)
        ensures
            r == self@.starting_view,
    {
        self.starting_view
    }

    pub fn background_color(&self) -> (r: RGBA)
        ensures
            r == self@.background_color,
    {
        self.background_color
    }

    pub fn sqcolor_off(&self) -> (r: RGBA)
        ensures
            r == self@.square_color_off,
    {
        self.square_color_off
    }

    pub fn sqcolor_on(&self) -> (r: RGBA)
        ensures
            r == self@.square_color_on,
    {
        self.square_color_on
    }

    /// Gives the grid `columns` columns and `rows` rows, all cells off; the
    /// previous cells are discarded, not carried over.
    pub fn resize_grid(&mut self, columns: u16, rows: u16)
        requires
            old(self).wf(),
            columns > 0,
            rows > 0,
        ensures
            final(self).wf(),
            final(self)@ == (SettingsView {
                squares: blank_grid(columns as nat, rows as nat),
                squares_x: columns,
                squares_y: rows,
                ..old(self)@
            }),
    {
        self.squares_x = columns;
        self.squares_y = rows;
        self.squares = blank_squares(columns, rows);
    }

    /// Sets the rate of updates per second, given as the bits of a 32-bit
    /// float that is not zero.
    pub fn set_updates_sec(&mut self, bits: u32)
        requires
            old(self).wf(),
            !is_zero_f32(bits),
        ensures
            final(self).wf(),
            final(self)@ == (SettingsView { updates_sec: bits, ..old(self)@ }),
    {
        self.updates_sec = bits;
    }

    pub fn set_starting_view(&mut self, new: StartingView)
        requires
            old(self).wf(),
        ensures
            final(self).wf(),
            final(self)@ == (SettingsView { starting_view: new, ..old(self)@ }),
    {
        self.starting_view = new;
    }

    pub fn set_background_color(&mut self, new: RGBA)
        requires
            old(self).wf(),
        ensures
            final(self).wf(),
            final(self)@ == (SettingsView { background_color: new, ..old(self)@ }),
    {
        self.background_color = new;
    }

    pub fn set_sqcolor_off(&mut self, new: RGBA)
        requires
            old(self).wf(),
        ensures
            final(self).wf(),
            final(self)@ == (SettingsView { square_color_off: new, ..old(self)@ }),
    {
        self.square_color_off = new;
    }

    pub fn set_sqcolor_on(&mut self, new: RGBA)
        requires
            old(self).wf(),
        ensures
            final(self).wf(),
            final(self)@ == (SettingsView { square_color_on: new, ..old(self)@ }),
    {
        self.square_color_on = new;
    }
}

} // verus!
