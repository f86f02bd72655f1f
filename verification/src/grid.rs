//! The normalized board: a rectangle of display tokens and a mine count.

use crate::error::Error;
use vstd::arithmetic::div_mod::{lemma_fundamental_div_mod, lemma_fundamental_div_mod_converse};
use vstd::arithmetic::mul::lemma_mul_is_commutative;
use vstd::prelude::*;
use vstd::string::StringExecFns;

verus! {

/// What one square of the board shows.
#[derive(Clone, Copy, Debug, PartialEq, Eq, Structural)]
pub enum CellToken {
    /// A square that nothing was written to, or a revealed square without a
    /// numeral.
    Blank,
    /// An explicitly empty square.
    Empty,
    /// A revealed numeral, `0` to `8`.
    Digit(u8),
    /// A square that has not been uncovered.
    Unexplored,
    /// A mine.
    Mine,
    /// A square that the player flagged.
    Flag,
    /// A square that the player marked with a question mark.
    QuestionMark,
    /// A state that the game uses but that has no meaning here.
    Unexpected,
    /// The fallback for raw values that fit none of the above.
    Unknown,
}

impl CellToken {
    /// A digit token carries a numeral that a square can show.
    pub open spec fn wf(self) -> bool {
        self matches CellToken::Digit(d) ==> d <= 8
    }

    /// The character that stands for the token in a plain rendering. A
    /// digit token that carries no numeral is shown as unknown.
    pub open spec fn spec_glyph(&self) -> char {
        match *self {
            CellToken::Blank => ' ',
            CellToken::Empty => ' ',
            CellToken::Digit(0) => '0',
            CellToken::Digit(1) => '1',
            CellToken::Digit(2) => '2',
            CellToken::Digit(3) => '3',
            CellToken::Digit(4) => '4',
            CellToken::Digit(5) => '5',
            CellToken::Digit(6) => '6',
            CellToken::Digit(7) => '7',
            CellToken::Digit(8) => '8',
            CellToken::Digit(_) => '!',
            CellToken::Unexplored => '.',
            CellToken::Mine => '*',
            CellToken::Flag => 'F',
            CellToken::QuestionMark => '?',
            CellToken::Unexpected => '!',
            CellToken::Unknown => '!',
        }
    }

    /// The glyph of the token as a piece of text.
    pub fn symbol(&self) -> (symbol: &'static str)
        ensures
            symbol@ == seq![self.spec_glyph()],
    {
        proof {
            reveal_strlit(" ");
            reveal_strlit("0");
            reveal_strlit("1");
            reveal_strlit("2");
            reveal_strlit("3");
            reveal_strlit("4");
            reveal_strlit("5");
            reveal_strlit("6");
            reveal_strlit("7");
            reveal_strlit("8");
            reveal_strlit(".");
            reveal_strlit("*");
            reveal_strlit("F");
            reveal_strlit("?");
            reveal_strlit("!");
        }
        let symbol = match self {
            CellToken::Blank => " ",
            CellToken::Empty => " ",
            CellToken::Digit(0) => "0",
            CellToken::Digit(1) => "1",
            CellToken::Digit(2) => "2",
            CellToken::Digit(3) => "3",
            CellToken::Digit(4) => "4",
            CellToken::Digit(5) => "5",
            CellToken::Digit(6) => "6",
            CellToken::Digit(7) => "7",
            CellToken::Digit(8) => "8",
            CellToken::Digit(_) => "!",
            CellToken::Unexplored => ".",
            CellToken::Mine => "*",
            CellToken::Flag => "F",
            CellToken::QuestionMark => "?",
            CellToken::Unexpected => "!",
            CellToken::Unknown => "!",
        };
        assert(symbol@ =~= seq![self.spec_glyph()]);
        symbol
    }

    /// The character that stands for the token in a plain rendering.
    #[verifier::when_used_as_spec(spec_glyph)]
    pub fn glyph(&self) -> (glyph: char)
        ensures
            glyph == self.spec_glyph(),
    {
        match self {
            CellToken::Blank => ' ',
            CellToken::Empty => ' ',
            CellToken::Digit(0) => '0',
            CellToken::Digit(1) => '1',
            CellToken::Digit(2) => '2',
            CellToken::Digit(3) => '3',
            CellToken::Digit(4) => '4',
            CellToken::Digit(5) => '5',
            CellToken::Digit(6) => '6',
            CellToken::Digit(7) => '7',
            CellToken::Digit(8) => '8',
            CellToken::Digit(_) => '!',
            CellToken::Unexplored => '.',
            CellToken::Mine => '*',
            CellToken::Flag => 'F',
            CellToken::QuestionMark => '?',
            CellToken::Unexpected => '!',
            CellToken::Unknown => '!',
        }
    }
}

/// The mathematical content of a [`Board`].
pub struct BoardView {
    /// The number of mines that the game reports.
    pub mines: u32,
    /// The number of rows.
    pub rows: nat,
    /// The number of columns.
    pub columns: nat,
    /// The tokens, row by row.
    pub cells: Seq<Seq<CellToken>>,
}

impl BoardView {
    /// The grid is a rectangle of `rows` by `columns`.
    pub open spec fn wf(self) -> bool {
        &&& self.cells.len() == self.rows
        &&& forall|r: int| 0 <= r < self.rows ==> (#[trigger] self.cells[r]).len() == self.columns
    }

    /// A board of the given shape on which nothing has been written.
    pub open spec fn blank(rows: nat, columns: nat, mines: u32) -> BoardView {
        BoardView {
            mines,
            rows,
            columns,
            cells: Seq::new(rows, |r: int| Seq::new(columns, |c: int| CellToken::Blank)),
        }
    }

    /// The board has a cell at (`row`, `column`).
    pub open spec fn in_bounds(self, row: int, column: int) -> bool {
        0 <= row < self.rows && 0 <= column < self.columns
    }

    /// The board with one cell overwritten.
    pub open spec fn set(self, row: int, column: int, value: CellToken) -> BoardView {
        BoardView { cells: self.cells.update(row, self.cells[row].update(column, value)), ..self }
    }

    /// The first `count` cells of row `row` as text: each glyph is followed
    /// by a space.
    pub open spec fn cells_as_text(self, row: int, count: nat) -> Seq<char>
        decreases count,
    {
        if count == 0 {
            Seq::empty()
        } else {
            self.cells_as_text(row, (count - 1) as nat) + seq![
                self.cells[row][count - 1].spec_glyph(),
                ' ',
            ]
        }
    }

    /// Row `row` as a line of text: a tab, the cells, and the end of the
    /// line.
    pub open spec fn line(self, row: int) -> Seq<char> {
        seq!['\t'] + self.cells_as_text(row, self.columns) + seq!['\n']
    }

    /// The first `count` rows as text, one line each.
    pub open spec fn rows_as_text(self, count: nat) -> Seq<char>
        decreases count,
    {
        if count == 0 {
            Seq::empty()
        } else {
            self.rows_as_text((count - 1) as nat) + self.line(count - 1)
        }
    }

    /// The board as text, row by row.
    pub open spec fn rendered(self) -> Seq<char> {
        self.rows_as_text(self.rows)
    }

    /// The board after its first `count` cells, counted row by row, have
    /// each been overwritten with what `tokens` gives for its row and
    /// column.
    pub open spec fn filled(self, tokens: spec_fn(int, int) -> CellToken, count: nat) -> BoardView
        decreases count,
    {
        if count == 0 {
            self
        } else {
            let last = count - 1;
            let row = last / self.columns as int;
            let column = last % self.columns as int;
            self.filled(tokens, last as nat).set(row, column, tokens(row, column))
        }
    }

    /// Counted row by row, every number below `rows * columns` names one
    /// cell of the board, and no two numbers name the same cell.
    pub proof fn lemma_row_major(self, number: int)
        requires
            0 <= number < self.rows * self.columns,
        ensures
            self.in_bounds(number / self.columns as int, number % self.columns as int),
            (number / self.columns as int) * self.columns + number % self.columns as int == number,
    {
        let columns = self.columns as int;
        let rows = self.rows as int;
        assert(columns > 0) by (nonlinear_arith)
            requires
                0 <= number < rows * columns,
                0 <= columns,
        ;
        lemma_fundamental_div_mod(number, columns);
        let row = number / columns;
        let column = number % columns;
        lemma_mul_is_commutative(columns, row);
        assert(0 <= row < rows) by (nonlinear_arith)
            requires
                number == row * columns + column,
                0 <= column < columns,
                0 <= number < rows * columns,
        ;
    }

    /// Filling a blank board cell by cell, row by row, writes every cell
    /// exactly once: after `count` insertions the cell at (`r`, `c`) holds
    /// its token if its number `r * columns + c` is below `count`, and is
    /// still blank otherwise.
    pub proof fn lemma_fill(
        rows: nat,
        columns: nat,
        mines: u32,
        tokens: spec_fn(int, int) -> CellToken,
        count: nat,
    )
        requires
            rows * columns >= 1,
            count <= rows * columns,
        ensures
            ({
                let board = BoardView::blank(rows, columns, mines).filled(tokens, count);
                &&& board.wf()
                &&& board.rows == rows
                &&& board.columns == columns
                &&& board.mines == mines
                &&& forall|r: int, c: int|
                    0 <= r < rows && 0 <= c < columns ==> #[trigger] board.cells[r][c] == if r
                        * columns + c < count {
                        tokens(r, c)
                    } else {
                        CellToken::Blank
                    }
            }),
        decreases count,
    {
        let blank = BoardView::blank(rows, columns, mines);
        if count > 0 {
            let last = count - 1;
            BoardView::lemma_fill(rows, columns, mines, tokens, last as nat);
            let before = blank.filled(tokens, last as nat);
            blank.lemma_row_major(last);
            let row = last / columns as int;
            let column = last % columns as int;
            let board = blank.filled(tokens, count);
            assert(board == before.set(row, column, tokens(row, column)));
            assert forall|r: int, c: int|
                0 <= r < rows && 0 <= c < columns implies #[trigger] board.cells[r][c] == if r
                * columns + c < count {
                tokens(r, c)
            } else {
                CellToken::Blank
            } by {
                if r * columns + c == last {
                    lemma_fundamental_div_mod_converse(last, columns as int, r, c);
                }
            }
        }
    }
}

/// A rectangular grid of display tokens together with the number of mines
/// that the game reports.
pub struct Board {
    mines: u32,
    rows: usize,
    columns: usize,
    data: Vec<Vec<CellToken>>,
}

impl View for Board {
    type V = BoardView;

    closed spec fn view(&self) -> BoardView {
        BoardView {
            mines: self.mines,
            rows: self.rows as nat,
            columns: self.columns as nat,
            cells: Seq::new(
                self.rows as nat,
                |r: int| Seq::new(self.columns as nat, |c: int| self.data@[r]@[c]),
            ),
        }
    }
}

impl Board {
    /// The view of a board is a rectangle.
    pub proof fn lemma_view_is_wf(self)
        ensures
            self@.wf(),
    {
    }

    #[verifier::type_invariant]
    closed spec fn inv(&self) -> bool {
        &&& self.data@.len() == self.rows
        &&& forall|r: int| 0 <= r < self.rows ==> (#[trigger] self.data@[r])@.len() == self.columns
    }

    /// Creates a board of `rows` by `columns` squares, all blank.
    pub fn new(rows: usize, columns: usize, mines: u32) -> (board: Board)
        ensures
            board@ == BoardView::blank(rows as nat, columns as nat, mines),
    {
        let mut data: Vec<Vec<CellToken>> = Vec::new();
        let mut r: usize = 0;
        while r < rows
            invariant
                r <= rows,
                data@.len() == r,
                forall|i: int|
                    0 <= i < r ==> (#[trigger] data@[i])@ == Seq::new(
                        columns as nat,
                        |c: int| CellToken::Blank,
                    ),
            decreases rows - r,
        {
            let mut line: Vec<CellToken> = Vec::new();
            let mut c: usize = 0;
            while c < columns
                invariant
                    c <= columns,
                    line@ == Seq::new(c as nat, |c: int| CellToken::Blank),
                decreases columns - c,
            {
                line.push(CellToken::Blank);
                c += 1;
            }
            data.push(line);
            r += 1;
        }
        let board = Board { mines, rows, columns, data };
        assert(board@.cells =~~= BoardView::blank(rows as nat, columns as nat, mines).cells);
        board
    }

    /// The number of rows.
    pub fn rows(&self) -> (rows: usize)
        ensures
            rows == self@.rows,
    {
        self.rows
    }

    /// The number of columns.
    pub fn columns(&self) -> (columns: usize)
        ensures
            columns == self@.columns,
    {
        self.columns
    }

    /// The number of mines that the game reports.
    pub fn mines(&self) -> (mines: u32)
        ensures
            mines == self@.mines,
    {
        self.mines
    }

    /// The token of the cell at (`row`, `column`), where there is such a
    /// cell.
    pub fn get(&self, row: usize, column: usize) -> (cell: Option<CellToken>)
        ensures
            cell == if self@.in_bounds(row as int, column as int) {
                Some(self@.cells[row as int][column as int])
            } else {
                None
            },
    {
        proof {
            use_type_invariant(self);
        }
        if row < self.rows && column < self.columns {
            Some(self.data[row][column])
        } else {
            None
        }
    }

    /// Renders the board as plain text, row by row: a tab, then each glyph
    /// followed by a space, then the end of the line.
    pub fn render(&self) -> (text: String)
        ensures
            text@ == self@.rendered(),
    {
        proof {
            use_type_invariant(self);
            reveal_strlit("\t");
            reveal_strlit(" ");
            reveal_strlit("\n");
        }
        let mut text = String::new();
        let mut r: usize = 0;
        while r < self.rows
            invariant
                r <= self.rows,
                self.inv(),
                "\t"@ == seq!['\t'],
                " "@ == seq![' '],
                "\n"@ == seq!['\n'],
                text@ == self@.rows_as_text(r as nat),
            decreases self.rows - r,
        {
            let ghost before = text@;
            text.append("\t");
            let mut c: usize = 0;
            while c < self.columns
                invariant
                    r < self.rows,
                    c <= self.columns,
                    self.inv(),
                    " "@ == seq![' '],
                    text@ == before + seq!['\t'] + self@.cells_as_text(r as int, c as nat),
                decreases self.columns - c,
            {
                let token = self.data[r][c];
                assert(token == self@.cells[r as int][c as int]);
                text.append(token.symbol());
                text.append(" ");
                assert(text@ =~= before + seq!['\t'] + self@.cells_as_text(
                    r as int,
                    (c + 1) as nat,
                ));
                c += 1;
            }
            text.append("\n");
            assert(text@ =~= self@.rows_as_text((r + 1) as nat));
            r += 1;
        }
        text
    }

    /// Overwrites the cell at (`row`, `column`).
    pub fn insert(&mut self, value: CellToken, row: usize, column: usize) -> (result: Result<(), Error>)
        ensures
            old(self)@.in_bounds(row as int, column as int) ==> {
                &&& result is Ok
                &&& final(self)@ == old(self)@.set(row as int, column as int, value)
            },
            !old(self)@.in_bounds(row as int, column as int) ==> {
                &&& result == Err::<(), Error>(Error::IndexOutOfBounds { row, column })
                &&& final(self)@ == old(self)@
            },
    {
        proof {
            use_type_invariant(&*self);
        }
        if row >= self.rows || column >= self.columns {
            return Err(Error::IndexOutOfBounds { row, column });
        }
        overwrite(&mut self.data, row, column, value);
        assert(self@.cells =~~= old(self)@.set(row as int, column as int, value).cells);
        Ok(())
    }
}

/// Replaces one element of a vector of lines, leaving every length as it was.
fn overwrite(data: &mut Vec<Vec<CellToken>>, row: usize, column: usize, value: CellToken)
    requires
        row < old(data)@.len(),
        column < old(data)@[row as int]@.len(),
    ensures
        final(data)@.len() == old(data)@.len(),
        final(data)@[row as int]@ == old(data)@[row as int]@.update(column as int, value),
        forall|r: int| 0 <= r < old(data)@.len() && r != row ==> final(data)@[r] == old(data)@[r],
    no_unwind
{
    let line = &mut data[row];
    line[column] = value;
}

} // verus!
