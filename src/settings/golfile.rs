//! The `.gol` file format: a 36-byte prelude, then one byte per cell.
//!
//! | Offset | Length | Field |
//! |---|---|---|
//! | 0 | 4 | `gol!` |
//! | 4 | 2 | grid width, `u16` |
//! | 6 | 2 | grid height, `u16` |
//! | 8 | 4 | updates per second, `f32` |
//! | 12 | 4 | background color |
//! | 16 | 5 | starting view: a tag, then a zoom `f32` or zeros |
//! | 21 | 4 | color of a cell that is off |
//! | 25 | 4 | color of a cell that is on |
//! | 29 | 7 | `0x00` then `\gol!/` |
//! | 36 | width * height | the cells, row by row; nonzero means on |
//!
//! Numbers are big-endian.
use vstd::prelude::*;

use vstd::arithmetic::div_mod::lemma_fundamental_div_mod_converse;

use super::{
    f32_bits_is_zero, is_zero_f32, rows_view, RGBA, Settings, SettingsView,
    StartingView,
};

verus! {

/// The storage layer's error, carried through unchanged.
#[verifier::external_type_specification]
#[verifier::external_body]
pub struct ExIoError(std::io::Error);

/// Why a board could not be read or written.
#[derive(Debug)]
pub enum GOLFileError {
    NotValidFile,
    UnexpectedEndOfBytes,
    IOError(std::io::Error),
}

/// Length of the prelude that comes before the cells.
pub const PRELUDE_LENGTH: usize = 36;

/// The first four bytes of a file: `gol!`.
pub open spec fn magic() -> Seq<u8> {
    seq![0x67u8, 0x6Fu8, 0x6Cu8, 0x21u8]
}

/// The last six bytes of the prelude: `\gol!/`.
pub open spec fn terminator() -> Seq<u8> {
    seq![0x5Cu8, 0x67u8, 0x6Fu8, 0x6Cu8, 0x21u8, 0x2Fu8]
}

/// The byte that stands for a cell.
pub open spec fn cell_byte(on: bool) -> u8 {
    if on {
        1
    } else {
        0
    }
}

/// The 36 bytes that come before the cells.
pub open spec fn prelude_bytes(s: SettingsView) -> Seq<u8> {
    magic() + u16_be_bytes(s.squares_x) + u16_be_bytes(s.squares_y) + u32_be_bytes(s.updates_sec)
        + s.background_color.spec_bytes() + s.starting_view.spec_bytes()
        + s.square_color_off.spec_bytes() + s.square_color_on.spec_bytes() + seq![0u8]
        + terminator()
}

/// The first `n` cell bytes of a grid `width` cells wide: byte `i` is the
/// cell at row `i / width`, column `i % width`.
pub open spec fn cell_bytes(squares: Seq<Seq<bool>>, width: nat, n: nat) -> Seq<u8> {
    Seq::new(n, |i: int| cell_byte(squares[i / width as int][i % width as int]))
}

/// The bytes of a file that holds `s`.
pub open spec fn encoding(s: SettingsView) -> Seq<u8> {
    prelude_bytes(s) + cell_bytes(s.squares, s.squares_x as nat, (s.squares_x * s.squares_y) as nat)
}

/// The grid that a cell field `width` cells wide and `height` high holds:
/// the cell at `row`, `column` is on when byte `row * width + column` is
/// not zero.
pub open spec fn cells_grid(cells: Seq<u8>, width: nat, height: nat) -> Seq<Seq<bool>> {
    Seq::new(height, |row: int| Seq::new(width, |column: int| cells[row * width + column] != 0))
}

/// The color held by the four bytes at `at`.
pub open spec fn rgba_at(b: Seq<u8>, at: int) -> RGBA {
    RGBA { r: b[at], g: b[at + 1], b: b[at + 2], a: b[at + 3] }
}

/// What reading the bytes `b` gives: the board they hold, or why they hold
/// none.
pub open spec fn decoding(b: Seq<u8>) -> Result<SettingsView, GOLFileError> {
    if b.len() >= 4 && b.subrange(0, 4) != magic() {
        Err(GOLFileError::NotValidFile)
    } else if b.len() < PRELUDE_LENGTH {
        Err(GOLFileError::UnexpectedEndOfBytes)
    } else {
        let width = u16_from_be(b[4], b[5]);
        let height = u16_from_be(b[6], b[7]);
        let rate = u32_from_be(b[8], b[9], b[10], b[11]);
        let view = StartingView::spec_from_bytes(b.subrange(16, 21));
        if width == 0 || height == 0 {
            Err(GOLFileError::NotValidFile)
        } else if is_zero_f32(rate) {
            Err(GOLFileError::NotValidFile)
        } else if view is Err {
            Err(GOLFileError::NotValidFile)
        } else if b[29] != 0 {
            Err(GOLFileError::NotValidFile)
        } else if b.subrange(30, 36) != terminator() {
            Err(GOLFileError::NotValidFile)
        } else if b.len() - PRELUDE_LENGTH != width * height {
            Err(GOLFileError::UnexpectedEndOfBytes)
        } else {
            Ok(
                SettingsView {
                    squares: cells_grid(
                        b.subrange(PRELUDE_LENGTH as int, b.len() as int),
                        width as nat,
                        height as nat,
                    ),
                    squares_x: width,
                    squares_y: height,
                    updates_sec: rate,
                    background_color: rgba_at(b, 12),
                    starting_view: view->Ok_0,
                    square_color_off: rgba_at(b, 21),
                    square_color_on: rgba_at(b, 25),
                },
            )
        }
    }
}

/// What a call that reads a board returned, seen as values.
pub open spec fn result_view(r: Result<Settings, GOLFileError>) -> Result<SettingsView, GOLFileError> {
    match r {
        Ok(s) => Ok(s@),
        Err(e) => Err(e),
    }
}

/// The two bytes of `v`, most significant first.
pub open spec fn u16_be_bytes(v: u16) -> Seq<u8> {
    seq![(v >> 8u16) as u8, (v & 0xffu16) as u8]
}

/// The number whose big-endian bytes are `hi`, `lo`.
pub open spec fn u16_from_be(hi: u8, lo: u8) -> u16 {
    ((hi as u16) << 8u16) | (lo as u16)
}

/// The four bytes of `v`, most significant first.
pub open spec fn u32_be_bytes(v: u32) -> Seq<u8> {
    seq![
        (v >> 24u32) as u8,
        ((v >> 16u32) & 0xffu32) as u8,
        ((v >> 8u32) & 0xffu32) as u8,
        (v & 0xffu32) as u8,
    ]
}

/// The number whose big-endian bytes are `b0` to `b3`.
pub open spec fn u32_from_be(b0: u8, b1: u8, b2: u8, b3: u8) -> u32 {
    ((b0 as u32) << 24u32) | ((b1 as u32) << 16u32) | ((b2 as u32) << 8u32) | (b3 as u32)
}

pub(crate) fn u16_to_be_bytes(v: u16) -> (r: [u8; 2])
    ensures
        r@ == u16_be_bytes(v),
{
    let r = [(v >> 8u16) as u8, (v & 0xffu16) as u8];
    assert(r@ =~= u16_be_bytes(v));
    r
}

pub(crate) fn u16_from_be_bytes(hi: u8, lo: u8) -> (r: u16)
    ensures
        r == u16_from_be(hi, lo),
{
    ((hi as u16) << 8u16) | (lo as u16)
}

pub(crate) fn u32_to_be_bytes(v: u32) -> (r: [u8; 4])
    ensures
        r@ == u32_be_bytes(v),
{
    let r = [
        (v >> 24u32) as u8,
        ((v >> 16u32) & 0xffu32) as u8,
        ((v >> 8u32) & 0xffu32) as u8,
        (v & 0xffu32) as u8,
    ];
    assert(r@ =~= u32_be_bytes(v));
    r
}

pub(crate) fn u32_from_be_bytes(b0: u8, b1: u8, b2: u8, b3: u8) -> (r: u32)
    ensures
        r == u32_from_be(b0, b1, b2, b3),
{
    ((b0 as u32) << 24u32) | ((b1 as u32) << 16u32) | ((b2 as u32) << 8u32) | (b3 as u32)
}

fn magic_bytes() -> (r: [u8; 4])
    ensures
        r@ == magic(),
{
    let r = [0x67u8, 0x6F, 0x6C, 0x21];
    assert(r@ =~= magic());
    r
}

fn terminator_bytes() -> (r: [u8; 6])
    ensures
        r@ == terminator(),
{
    let r = [0x5Cu8, 0x67, 0x6F, 0x6C, 0x21, 0x2F];
    assert(r@ =~= terminator());
    r
}

/// Whether `bytes` holds `expected` from offset `start` on.
fn bytes_match(bytes: &[u8], start: usize, expected: &[u8]) -> (r: bool)
    requires
        start + expected@.len() <= bytes@.len(),
    ensures
        r == (bytes@.subrange(start as int, start + expected@.len()) == expected@),
{
    let mut i: usize = 0;
    while i < expected.len()
        invariant
            i <= expected@.len(),
            start + expected@.len() <= bytes.len(),
            bytes@.subrange(start as int, start + i) == expected@.subrange(0, i as int),
        decreases expected@.len() - i,
    {
        if bytes[start + i] != expected[i] {
            assert(bytes@.subrange(start as int, start + expected@.len())[i as int] != expected@[i as int]);
            return false;
        }
        assert(bytes@.subrange(start as int, start + i + 1) =~= expected@.subrange(0, i + 1));
        i = i + 1;
    }
    assert(expected@.subrange(0, i as int) =~= expected@);
    true
}

/// Appends `bytes` to `out`.
fn append_bytes(out: &mut Vec<u8>, bytes: &[u8])
    ensures
        final(out)@ == old(out)@ + bytes@,
{
    let mut i: usize = 0;
    while i < bytes.len()
        invariant
            i <= bytes@.len(),
            out@ == old(out)@ + bytes@.subrange(0, i as int),
        decreases bytes@.len() - i,
    {
        out.push(bytes[i]);
        assert(bytes@.subrange(0, i + 1) =~= bytes@.subrange(0, i as int).push(bytes@[i as int]));
        i = i + 1;
    }
    assert(bytes@.subrange(0, i as int) =~= bytes@);
}

/// The cells of row `row` of a grid `width` cells wide, read from the cell
/// field that starts at `PRELUDE_LENGTH` in `bytes`.
fn read_row(bytes: &[u8], width: usize, height: usize, row: usize) -> (r: Vec<bool>)
    requires
        row < height,
        bytes.len() == PRELUDE_LENGTH + width * height,
    ensures
        r@ == cells_grid(
            bytes@.subrange(PRELUDE_LENGTH as int, bytes@.len() as int),
            width as nat,
            height as nat,
        )[row as int],
{
    let ghost cells = bytes@.subrange(PRELUDE_LENGTH as int, bytes@.len() as int);
    assert(row * width + width <= width * height) by (nonlinear_arith)
        requires
            row < height,
    ;
    let start = PRELUDE_LENGTH + row * width;
    let mut r: Vec<bool> = Vec::new();
    for column in 0..width
        invariant
            start == PRELUDE_LENGTH + row * width,
            row * width + width <= width * height,
            bytes.len() == PRELUDE_LENGTH + width * height,
            cells == bytes@.subrange(PRELUDE_LENGTH as int, bytes@.len() as int),
            r@ == Seq::new(column as nat, |c: int| cells[row * width + c] != 0),
    {
        r.push(bytes[start + column] != 0);
        assert(r@ =~= Seq::new((column + 1) as nat, |c: int| cells[row * width + c] != 0));
    }
    r
}

impl Settings {
    /// Reads a board from the bytes of a file.
    ///
    /// Fails with `NotValidFile` when the bytes do not start with `gol!`, a
    /// dimension or the rate is zero, the starting view has an unknown tag
    /// or the prelude does not end in `0x00` and `\gol!/`; with
    /// `UnexpectedEndOfBytes` when the bytes stop before the end of the
    /// prelude, or the cells after it are not exactly width * height.
    pub fn from_be_bytes(bytes: &[u8]) -> (r: Result<Settings, GOLFileError>)
        ensures
            result_view(r) == decoding(bytes@),
            r is Ok ==> r->Ok_0.wf(),
    {
        let ghost b = bytes@;
        if bytes.len() >= 4 && !bytes_match(bytes, 0, magic_bytes().as_slice()) {
            return Err(GOLFileError::NotValidFile);
        }
        if bytes.len() < PRELUDE_LENGTH {
            return Err(GOLFileError::UnexpectedEndOfBytes);
        }
        let squares_x = u16_from_be_bytes(bytes[4], bytes[5]);
        let squares_y = u16_from_be_bytes(bytes[6], bytes[7]);
        if squares_x == 0 || squares_y == 0 {
            return Err(GOLFileError::NotValidFile);
        }
        let updates_sec = u32_from_be_bytes(bytes[8], bytes[9], bytes[10], bytes[11]);
        if f32_bits_is_zero(updates_sec) {
            return Err(GOLFileError::NotValidFile);
        }
        let background_color = RGBA { r: bytes[12], g: bytes[13], b: bytes[14], a: bytes[15] };
        let view_bytes = [bytes[16], bytes[17], bytes[18], bytes[19], bytes[20]];
        assert(view_bytes@ =~= b.subrange(16, 21));
        let starting_view = match StartingView::from_be_bytes(view_bytes) {
            Ok(view) => view,
            Err(_) => return Err(GOLFileError::NotValidFile),
        };
        let square_color_off = RGBA { r: bytes[21], g: bytes[22], b: bytes[23], a: bytes[24] };
        let square_color_on = RGBA { r: bytes[25], g: bytes[26], b: bytes[27], a: bytes[28] };
        if bytes[29] != 0 {
            return Err(GOLFileError::NotValidFile);
        }
        if !bytes_match(bytes, 30, terminator_bytes().as_slice()) {
            return Err(GOLFileError::NotValidFile);
        }
        let width = squares_x as usize;
        let height = squares_y as usize;
        assert(width * height <= 0xffff * 0xffff) by (nonlinear_arith)
            requires
                width <= 0xffff,
                height <= 0xffff,
        ;
        if bytes.len() - PRELUDE_LENGTH != width * height {
            return Err(GOLFileError::UnexpectedEndOfBytes);
        }

        let ghost grid = cells_grid(
            b.subrange(PRELUDE_LENGTH as int, b.len() as int),
            width as nat,
            height as nat,
        );
        let mut squares: Vec<Vec<bool>> = Vec::new();
        for row in 0..height
            invariant
                b == bytes@,
                b.len() == PRELUDE_LENGTH + width * height,
                grid == cells_grid(
                    b.subrange(PRELUDE_LENGTH as int, b.len() as int),
                    width as nat,
                    height as nat,
                ),
                rows_view(squares@) == grid.subrange(0, row as int),
        {
            let ghost before = squares@;
            let cells = read_row(bytes, width, height, row);
            squares.push(cells);
            assert(rows_view(before).len() == before.len());
            assert forall|r: int| 0 <= r <= row implies #[trigger] rows_view(squares@)[r] == grid[r] by {
                if r < row {
                    assert(squares@[r] == before[r]);
                    assert(rows_view(before)[r] == grid.subrange(0, row as int)[r]);
                }
            }
            assert(rows_view(squares@) =~= grid.subrange(0, row + 1));
        }
        assert(grid.subrange(0, height as int) =~= grid);
        let settings = Settings {
            squares,
            squares_x,
            squares_y,
            updates_sec,
            background_color,
            starting_view,
            square_color_off,
            square_color_on,
        };
        assert(settings@.squares.len() == squares_y);
        Ok(settings)
    }

    /// The bytes of a file that holds this board: the prelude, then the
    /// cells row by row, `1` for on and `0` for off.
    pub fn to_be_bytes(&self) -> (r: Vec<u8>)
        requires
            self.wf(),
        ensures
            r@ == encoding(self@),
    {
        let ghost s = self@;
        let mut out: Vec<u8> = Vec::new();
        append_bytes(&mut out, magic_bytes().as_slice());
        append_bytes(&mut out, u16_to_be_bytes(self.squares_x).as_slice());
        append_bytes(&mut out, u16_to_be_bytes(self.squares_y).as_slice());
        append_bytes(&mut out, u32_to_be_bytes(self.updates_sec).as_slice());
        append_bytes(&mut out, self.background_color.to_be_bytes().as_slice());
        append_bytes(&mut out, self.starting_view.to_be_bytes().as_slice());
        append_bytes(&mut out, self.square_color_off.to_be_bytes().as_slice());
        append_bytes(&mut out, self.square_color_on.to_be_bytes().as_slice());
        out.push(0x00);
        append_bytes(&mut out, terminator_bytes().as_slice());
        assert(out@ =~= prelude_bytes(s));

        let width = self.squares_x as usize;
        let height = self.squares_y as usize;
        assert(out@ =~= prelude_bytes(s) + cell_bytes(s.squares, width as nat, 0));
        assert(0 * width == 0);
        for row in 0..height
            invariant
                s == self@,
                s.valid(),
                width == s.squares_x,
                height == s.squares_y,
                out@ == prelude_bytes(s) + cell_bytes(s.squares, width as nat, (row * width) as nat),
        {
            assert(self.squares@[row as int]@ == s.squares[row as int]);
            for column in 0..width
                invariant
                    s == self@,
                    s.valid(),
                    row < height,
                    width == s.squares_x,
                    height == s.squares_y,
                    self.squares@[row as int]@ == s.squares[row as int],
                    out@ == prelude_bytes(s) + cell_bytes(
                        s.squares,
                        width as nat,
                        (row * width + column) as nat,
                    ),
            {
                let on = self.squares[row][column];
                out.push(if on { 0x01 } else { 0x00 });
                proof {
                    let n = row * width + column;
                    lemma_fundamental_div_mod_converse(n, width as int, row as int, column as int);
                    assert(cell_bytes(s.squares, width as nat, (n + 1) as nat) =~= cell_bytes(
                        s.squares,
                        width as nat,
                        n as nat,
                    ).push(cell_byte(on)));
                    assert(out@ =~= prelude_bytes(s) + cell_bytes(s.squares, width as nat, (n + 1) as nat));
                }
            }
            assert((row + 1) * width == row * width + width) by (nonlinear_arith);
        }
        assert(height * width == s.squares_x * s.squares_y) by (nonlinear_arith)
            requires
                width == s.squares_x,
                height == s.squares_y,
        ;
        out
    }
}

/// Reading back the big-endian bytes of a 16-bit number gives the number.
pub proof fn lemma_u16_be_round_trip(v: u16)
    ensures
        u16_from_be(u16_be_bytes(v)[0], u16_be_bytes(v)[1]) == v,
{
    assert((((((v >> 8u16) as u8) as u16) << 8u16) | (((v & 0xffu16) as u8) as u16)) == v)
        by (bit_vector);
}

/// Reading back the big-endian bytes of a 32-bit number gives the number.
pub proof fn lemma_u32_be_round_trip(v: u32)
    ensures
        u32_from_be(u32_be_bytes(v)[0], u32_be_bytes(v)[1], u32_be_bytes(v)[2], u32_be_bytes(v)[3])
            == v,
{
    assert(((((v >> 24u32) as u8 as u32) << 24u32) | ((((v >> 16u32) & 0xffu32) as u8 as u32)
        << 16u32) | ((((v >> 8u32) & 0xffu32) as u8 as u32) << 8u32) | ((v & 0xffu32) as u8 as u32))
        == v) by (bit_vector);
}

/// The five bytes of a starting view read back as that view.
pub proof fn lemma_starting_view_round_trip(v: StartingView)
    ensures
        StartingView::spec_from_bytes(v.spec_bytes()) == Ok::<StartingView, GOLFileError>(v),
{
    if let StartingView::Center(zoom) = v {
        lemma_u32_be_round_trip(zoom);
    }
}

/// The cell bytes of a rectangular grid read back as that grid.
pub proof fn lemma_cells_round_trip(s: SettingsView)
    requires
        s.valid(),
    ensures
        cells_grid(
            cell_bytes(s.squares, s.squares_x as nat, (s.squares_x * s.squares_y) as nat),
            s.squares_x as nat,
            s.squares_y as nat,
        ) == s.squares,
{
    let w = s.squares_x as int;
    let h = s.squares_y as int;
    let cells = cell_bytes(s.squares, w as nat, (w * h) as nat);
    let grid = cells_grid(cells, w as nat, h as nat);
    assert forall|row: int, column: int| 0 <= row < h && 0 <= column < w implies #[trigger] grid[row][column]
        == s.squares[row][column] by {
        assert(row * w + column < w * h) by (nonlinear_arith)
            requires
                0 <= row < h,
                0 <= column < w,
        ;
        lemma_fundamental_div_mod_converse(row * w + column, w, row, column);
    }
    assert forall|row: int| 0 <= row < h implies #[trigger] grid[row] == s.squares[row] by {
        assert(grid[row] =~= s.squares[row]);
    }
    assert(grid =~= s.squares);
}

/// Reading back the bytes written for a valid board gives the same board,
/// field for field, cells and starting view included.
pub proof fn lemma_round_trip(s: SettingsView)
    requires
        s.valid(),
    ensures
        decoding(encoding(s)) == Ok::<SettingsView, GOLFileError>(s),
{
    let b = encoding(s);
    let w = s.squares_x as int;
    let h = s.squares_y as int;
    let cells = cell_bytes(s.squares, w as nat, (w * h) as nat);
    lemma_u16_be_round_trip(s.squares_x);
    lemma_u16_be_round_trip(s.squares_y);
    lemma_u32_be_round_trip(s.updates_sec);
    lemma_starting_view_round_trip(s.starting_view);
    lemma_cells_round_trip(s);
    assert(b.subrange(0, 4) =~= magic());
    assert(b.subrange(16, 21) =~= s.starting_view.spec_bytes());
    assert(b.subrange(30, 36) =~= terminator());
    assert(b.subrange(PRELUDE_LENGTH as int, b.len() as int) =~= cells);
    assert(rgba_at(b, 12) == s.background_color);
    assert(rgba_at(b, 21) == s.square_color_off);
    assert(rgba_at(b, 25) == s.square_color_on);
    assert(b[4] == u16_be_bytes(s.squares_x)[0] && b[5] == u16_be_bytes(s.squares_x)[1]);
    assert(b[6] == u16_be_bytes(s.squares_y)[0] && b[7] == u16_be_bytes(s.squares_y)[1]);
    assert(b[8] == u32_be_bytes(s.updates_sec)[0] && b[9] == u32_be_bytes(s.updates_sec)[1]);
    assert(b[10] == u32_be_bytes(s.updates_sec)[2] && b[11] == u32_be_bytes(s.updates_sec)[3]);
}

/// Bytes of four or more that do not start with `gol!` are not a valid
/// file, whatever follows.
pub proof fn lemma_bad_magic_rejected(b: Seq<u8>)
    requires
        b.len() >= 4,
        b.subrange(0, 4) != magic(),
    ensures
        decoding(b) == Err::<SettingsView, GOLFileError>(GOLFileError::NotValidFile),
{
}

/// A whole prelude that declares a width or a height of zero is not a valid
/// file, whatever the rest holds.
pub proof fn lemma_zero_dimension_rejected(b: Seq<u8>)
    requires
        b.len() >= PRELUDE_LENGTH,
        u16_from_be(b[4], b[5]) == 0 || u16_from_be(b[6], b[7]) == 0,
    ensures
        decoding(b) == Err::<SettingsView, GOLFileError>(GOLFileError::NotValidFile),
{
}

/// A whole prelude whose rate of updates is the float zero is not a valid
/// file, whatever the rest holds.
pub proof fn lemma_zero_rate_rejected(b: Seq<u8>)
    requires
        b.len() >= PRELUDE_LENGTH,
        is_zero_f32(u32_from_be(b[8], b[9], b[10], b[11])),
    ensures
        decoding(b) == Err::<SettingsView, GOLFileError>(GOLFileError::NotValidFile),
{
}

/// Changing any one of the seven bytes that end the prelude of a valid
/// file makes it not a valid file.
pub proof fn lemma_terminator_enforced(s: SettingsView, at: int, byte: u8)
    requires
        s.valid(),
        29 <= at < 36,
        byte != encoding(s)[at],
    ensures
        decoding(encoding(s).update(at, byte)) == Err::<SettingsView, GOLFileError>(
            GOLFileError::NotValidFile,
        ),
{
    let b = encoding(s);
    let c = b.update(at, byte);
    lemma_round_trip(s);
    assert(b.subrange(0, 4) =~= c.subrange(0, 4));
    assert(b.subrange(16, 21) =~= c.subrange(16, 21));
    assert(b.subrange(30, 36) =~= terminator());
    if at > 29 {
        assert(c.subrange(30, 36)[at - 30] != terminator()[at - 30]);
    }
}

/// A valid prelude followed by fewer cell bytes than width * height is cut
/// short.
pub proof fn lemma_truncation_detected(s: SettingsView, cells: Seq<u8>)
    requires
        s.valid(),
        cells.len() < s.squares_x * s.squares_y,
    ensures
        decoding(prelude_bytes(s) + cells) == Err::<SettingsView, GOLFileError>(
            GOLFileError::UnexpectedEndOfBytes,
        ),
{
    let b = encoding(s);
    let c = prelude_bytes(s) + cells;
    lemma_round_trip(s);
    assert(b.subrange(0, 4) =~= c.subrange(0, 4));
    assert(b.subrange(16, 21) =~= c.subrange(16, 21));
    assert(b.subrange(30, 36) =~= c.subrange(30, 36));
    assert forall|i: int| 0 <= i < PRELUDE_LENGTH implies b[i] == c[i] by {}
}

} // verus!
