//! The decoder for the Windows XP version of the game, which keeps its
//! board in one buffer at a fixed address.
//!
//! The buffer is a grid of rows of 0x20 bytes. The first row is a border,
//! and so are the first byte of every row and the byte behind its last
//! square.

use crate::error::Error;
use crate::grid::{Board, BoardView, CellToken};
use crate::layout::{read_u32, u32_at};
use crate::memory::{delivered, MemoryHandle, Request, Step};
use vstd::prelude::*;

verus! {

/// The address of the board record in the game's memory.
pub const WINXP_BOARD_ADDRESS: u64 = 0x0100_5330;

/// The size in bytes of the buffer of squares.
pub const WINXP_BOARD_SIZE: usize = 0x360;

/// The size in bytes of what precedes the buffer in the record: the mine
/// count, the width, the height and one unused number.
pub const RECORD_HEADER_SIZE: usize = 16;

/// The size in bytes of the whole record.
pub const RECORD_SIZE: usize = 0x370;

/// The size in bytes of one row of the buffer.
pub const FIELD_SIZE: usize = 0x20;

/// The byte that a border square holds.
pub const CELL_DELIMITER: u8 = 0x10;

/// The byte that fills the first row behind the border.
pub const CELL_EMPTY: u8 = 0x0f;

/// What a revealed square with the numeral `digit` shows. A square without
/// mines around it is shown blank. A square counts at most eight mines
/// around it: a larger number is no numeral, and is shown as unknown.
pub open spec fn numeral(digit: int) -> CellToken {
    if digit == 0 {
        CellToken::Blank
    } else if 1 <= digit <= 8 {
        CellToken::Digit(digit as u8)
    } else {
        CellToken::Unknown
    }
}

/// What the raw byte of a square shows. The order of the tests matters: the
/// bits of a mine and the marks of the player are looked at before the
/// numeral.
pub open spec fn token_of(cell: u8) -> CellToken {
    if cell & 0x80 != 0 || cell == 0xcc {
        CellToken::Mine
    } else if cell & 0x0f == 0x0e {
        CellToken::Flag
    } else if cell & 0x0f == 0x0d {
        CellToken::QuestionMark
    } else if cell & 0xf0 == 0 {
        CellToken::Unexplored
    } else if cell & 0x40 != 0 {
        numeral((cell & 0x0f) as int)
    } else {
        CellToken::Unknown
    }
}

/// The token of a revealed square with the numeral `digit`.
fn reveal_numeral(digit: u8) -> (token: CellToken)
    ensures
        token == numeral(digit as int),
        token.wf(),
{
    if digit == 0 {
        CellToken::Blank
    } else if digit <= 8 {
        CellToken::Digit(digit)
    } else {
        CellToken::Unknown
    }
}

/// Classifies the raw byte of a square. No byte is an error: one that fits
/// nothing is shown as unknown.
pub fn classify(cell: u8) -> (token: CellToken)
    ensures
        token == token_of(cell),
        token.wf(),
{
    if cell & 0x80 != 0 || cell == 0xcc {
        CellToken::Mine
    } else if cell & 0x0f == 0x0e {
        CellToken::Flag
    } else if cell & 0x0f == 0x0d {
        CellToken::QuestionMark
    } else if cell & 0xf0 == 0 {
        CellToken::Unexplored
    } else if cell & 0x40 != 0 {
        reveal_numeral(cell & 0x0f)
    } else {
        CellToken::Unknown
    }
}

/// The mine count of a record.
pub open spec fn mines_of(record: Seq<u8>) -> u32 {
    u32_at(record, 0)
}

/// The width of a record's board.
pub open spec fn width_of(record: Seq<u8>) -> u32 {
    u32_at(record, 4)
}

/// The height of a record's board.
pub open spec fn height_of(record: Seq<u8>) -> u32 {
    u32_at(record, 8)
}

/// The buffer of squares of a record.
pub open spec fn data_of(record: Seq<u8>) -> Seq<u8> {
    record.subrange(RECORD_HEADER_SIZE as int, RECORD_SIZE as int)
}

/// The first row of the buffer is a border: `width + 2` border bytes, and
/// the filler up to the end of the row.
pub open spec fn has_border(width: u32, data: Seq<u8>) -> bool {
    &&& width + 2 <= data.len()
    &&& forall|i: int| 0 <= i < width + 2 ==> data[i] == CELL_DELIMITER
    &&& forall|i: int| width + 2 <= i < FIELD_SIZE ==> data[i] == CELL_EMPTY
}

/// The game's window allows this width and this height.
pub open spec fn has_sane_dimensions(width: u32, height: u32) -> bool {
    9 <= width <= 30 && 9 <= height <= 24
}

/// The offset in the buffer of the square at (`row`, `column`): one row and
/// one column of border are skipped.
pub open spec fn cell_offset(row: int, column: int) -> int {
    (row + 1) * FIELD_SIZE + column + 1
}

/// The board that a well-formed record shows.
pub open spec fn shown(record: Seq<u8>) -> BoardView {
    BoardView {
        mines: mines_of(record),
        rows: height_of(record) as nat,
        columns: width_of(record) as nat,
        cells: Seq::new(
            height_of(record) as nat,
            |r: int|
                Seq::new(
                    width_of(record) as nat,
                    |c: int| token_of(data_of(record)[cell_offset(r, c)]),
                ),
        ),
    }
}

/// What decoding makes of a record. Bytes of another length are no
/// record. The border is looked at first, then the dimensions.
pub open spec fn decoding(record: Seq<u8>) -> Result<BoardView, Error> {
    if record.len() != RECORD_SIZE {
        Err(Error::InvalidBoardStructure)
    } else if !has_border(width_of(record), data_of(record)) {
        Err(Error::InvalidBoardStructure)
    } else if !has_sane_dimensions(width_of(record), height_of(record)) {
        Err(Error::InvalidBoardDimensions)
    } else {
        Ok(shown(record))
    }
}

/// A record of the right size with a border and with dimensions that the
/// game allows is decoded, and the board has those dimensions and the
/// record's mine count.
pub proof fn lemma_bordered_record_is_decoded(record: Seq<u8>)
    requires
        record.len() == RECORD_SIZE,
        has_border(width_of(record), data_of(record)),
        has_sane_dimensions(width_of(record), height_of(record)),
    ensures
        decoding(record) == Ok::<BoardView, Error>(shown(record)),
        shown(record).wf(),
        shown(record).rows == height_of(record),
        shown(record).columns == width_of(record),
        shown(record).mines == mines_of(record),
{
}

/// Overwriting any one of the `width + 2` border bytes with another value
/// makes decoding fail with `InvalidBoardStructure`.
pub proof fn lemma_corrupted_border_is_rejected(record: Seq<u8>, at: int, value: u8)
    requires
        record.len() == RECORD_SIZE,
        0 <= at < width_of(record) + 2,
        at < WINXP_BOARD_SIZE,
        value != CELL_DELIMITER,
    ensures
        decoding(record.update(RECORD_HEADER_SIZE + at, value)) == Err::<BoardView, Error>(
            Error::InvalidBoardStructure,
        ),
{
    let corrupted = record.update(RECORD_HEADER_SIZE + at, value);
    assert(width_of(corrupted) == width_of(record));
    assert(data_of(corrupted)[at] == value);
}

/// The classes of raw bytes, by value: a byte from 0x80 on is a mine;
/// below that, a low nibble of 0xE is a flag and one of 0xD a question
/// mark; of the rest, a byte below 0x10 is an unexplored square, a byte
/// from 0x40 on shows the numeral in its low nibble, and a byte between is
/// unknown.
pub proof fn lemma_classes(cell: u8)
    ensures
        token_of(cell) == if cell >= 0x80 {
            CellToken::Mine
        } else if cell % 0x10 == 0x0e {
            CellToken::Flag
        } else if cell % 0x10 == 0x0d {
            CellToken::QuestionMark
        } else if cell < 0x10 {
            CellToken::Unexplored
        } else if cell >= 0x40 {
            numeral((cell % 0x10) as int)
        } else {
            CellToken::Unknown
        },
{
    assert((cell & 0x80 != 0) == (cell >= 0x80)) by (bit_vector);
    assert(cell & 0x0f == cell % 0x10) by (bit_vector);
    assert((cell & 0xf0 == 0) == (cell < 0x10)) by (bit_vector);
    assert(cell < 0x80 ==> ((cell & 0x40 != 0) == (cell >= 0x40))) by (bit_vector);
}

/// Tells whether the first row of the buffer is a border.
fn check_border(width: u32, record: &[u8]) -> (ok: bool)
    requires
        record@.len() == RECORD_SIZE,
    ensures
        ok == has_border(width, data_of(record@)),
{
    let ghost data = data_of(record@);
    if width > 0x35e {
        return false;
    }
    let border: usize = width as usize + 2;
    let mut i: usize = 0;
    while i < border
        invariant
            i <= border,
            border == width + 2,
            border <= 0x360,
            record@.len() == RECORD_SIZE,
            data == data_of(record@),
            forall|k: int| 0 <= k < i ==> data[k] == CELL_DELIMITER,
        decreases border - i,
    {
        if record[RECORD_HEADER_SIZE + i] != CELL_DELIMITER {
            assert(data[i as int] != CELL_DELIMITER);
            return false;
        }
        i += 1;
    }
    while i < FIELD_SIZE
        invariant
            border <= i,
            border == width + 2,
            record@.len() == RECORD_SIZE,
            data == data_of(record@),
            forall|k: int| 0 <= k < border ==> data[k] == CELL_DELIMITER,
            forall|k: int| border <= k < i ==> data[k] == CELL_EMPTY,
        decreases FIELD_SIZE - i,
    {
        if record[RECORD_HEADER_SIZE + i] != CELL_EMPTY {
            assert(data[i as int] != CELL_EMPTY);
            return false;
        }
        i += 1;
    }
    true
}

/// Decodes the board record.
pub fn decode(record: &[u8]) -> (result: Result<Board, Error>)
    ensures
        match result {
            Ok(board) => decoding(record@) == Ok::<BoardView, Error>(board@),
            Err(error) => decoding(record@) == Err::<BoardView, Error>(error),
        },
{
    if record.len() != RECORD_SIZE {
        return Err(Error::InvalidBoardStructure);
    }
    let mines: u32 = read_u32(record, 0);
    let width: u32 = read_u32(record, 4);
    let height: u32 = read_u32(record, 8);
    if !check_border(width, record) {
        return Err(Error::InvalidBoardStructure);
    }
    if !(9 <= width && width <= 30 && 9 <= height && height <= 24) {
        return Err(Error::InvalidBoardDimensions);
    }
    let rows: usize = height as usize;
    let columns: usize = width as usize;
    let ghost data = data_of(record@);
    let mut board = Board::new(rows, columns, mines);
    let mut r: usize = 0;
    while r < rows
        invariant
            r <= rows,
            rows == height,
            columns == width,
            has_sane_dimensions(width, height),
            record@.len() == RECORD_SIZE,
            data == data_of(record@),
            board@.wf(),
            board@.mines == mines,
            board@.rows == rows,
            board@.columns == columns,
            forall|i: int, j: int|
                0 <= i < r && 0 <= j < columns ==> (#[trigger] board@.cells[i][j]) == token_of(
                    data[cell_offset(i, j)],
                ),
        decreases rows - r,
    {
        let mut c: usize = 0;
        while c < columns
            invariant
                r < rows,
                c <= columns,
                rows == height,
                columns == width,
                has_sane_dimensions(width, height),
                record@.len() == RECORD_SIZE,
                data == data_of(record@),
                board@.wf(),
                board@.mines == mines,
                board@.rows == rows,
                board@.columns == columns,
                forall|i: int, j: int|
                    0 <= i < r && 0 <= j < columns ==> (#[trigger] board@.cells[i][j]) == token_of(
                        data[cell_offset(i, j)],
                    ),
                forall|j: int|
                    0 <= j < c ==> (#[trigger] board@.cells[r as int][j]) == token_of(
                        data[cell_offset(r as int, j)],
                    ),
            decreases columns - c,
        {
            let at: usize = RECORD_HEADER_SIZE + (r + 1) * FIELD_SIZE + c + 1;
            assert(data[cell_offset(r as int, c as int)] == record@[at as int]);
            let token = classify(record[at]);
            let ghost before = board@;
            let written = board.insert(token, r, c);
            assert(written is Ok);
            assert(board@ == before.set(r as int, c as int, token));
            c += 1;
        }
        r += 1;
    }
    assert(board@.cells =~~= shown(record@).cells);
    Ok(board)
}

/// The retrieval of the board: one read of the whole record.
#[derive(Clone, Copy, Debug, PartialEq, Eq, Structural)]
pub struct BoardReader {}

impl View for BoardReader {
    type V = BoardReader;

    open spec fn view(&self) -> BoardReader {
        *self
    }
}

impl BoardReader {
    /// What has to be fetched.
    pub open spec fn spec_request(&self) -> Request {
        Request::Read { address: WINXP_BOARD_ADDRESS, size: RECORD_SIZE }
    }

    /// What has to be fetched.
    #[verifier::when_used_as_spec(spec_request)]
    pub fn request(&self) -> (request: Request)
        ensures
            request == self.spec_request(),
    {
        Request::Read { address: WINXP_BOARD_ADDRESS, size: RECORD_SIZE }
    }

    /// Where the reader stands after `outcome`: it never asks for more.
    pub open spec fn next(self, outcome: Option<Seq<u8>>) -> Step<BoardReader, BoardView> {
        if !self.spec_request().accepts(outcome) {
            Step::Failed(self.spec_request().fault())
        } else {
            match decoding(outcome->Some_0) {
                Ok(board) => Step::Done(board),
                Err(error) => Step::Failed(error),
            }
        }
    }

    /// Takes the outcome of the read and decodes the record.
    pub fn resume(self, outcome: Option<Vec<u8>>) -> (step: Step<BoardReader, Board>)
        ensures
            step@ == self.next(delivered(outcome)),
    {
        match self.request().accept(outcome) {
            Ok(record) => match decode(record.as_slice()) {
                Ok(board) => Step::Done(board),
                Err(error) => Step::Failed(error),
            },
            Err(error) => Step::Failed(error),
        }
    }
}

/// Starts the retrieval of the board of the game behind `a_remote`.
pub fn board(a_remote: MemoryHandle) -> (reader: Result<BoardReader, Error>)
    ensures
        reader == if a_remote is Process {
            Ok::<BoardReader, Error>(BoardReader {  })
        } else {
            Err::<BoardReader, Error>(Error::Unsupported)
        },
{
    match a_remote {
        MemoryHandle::Process(_) => Ok(BoardReader {  }),
        _ => Err(Error::Unsupported),
    }
}

} // verus!
