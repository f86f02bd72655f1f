//! The decoder for the Windows 7 version of the game, which keeps its board
//! in a graph of records on the heap.
//!
//! The root of the graph is found without symbols: a fixed sequence of
//! instruction bytes marks, in the image, a relative call whose target
//! holds the pointer to the running game. From the game record the board
//! record is reached, and from there two trees of elements: one that says
//! what each square shows, one that says where the mines lie. A tree is a
//! root element whose children are the columns; the children of a column
//! are its cells, from the first row down.
//!
//! The instruction bytes and the distance from them to the call belong to
//! one build of the game. Against another build the signature is not found,
//! or the chain leads somewhere else: nothing here can tell.

use crate::error::{Error, ReadFault, TreeKind, TreePart};
use crate::grid::{Board, BoardView, CellToken};
use crate::layout::{displace, displaced, read_u32, read_u64, signed, to_signed, u32_at, u64_at};
use crate::memory::{
    copy, copy_array, copy_array_request, copy_request, delivered, first_occurrence,
    lemma_first_occurrence, search, MemoryHandle, Request, Step,
};
use crate::process::{peb, ImageNtHeaders, NtHeadersReader, PebReader};
use vstd::prelude::*;

verus! {

/// The distance in bytes from the match of the signature to the
/// displacement field of the call.
pub const OFFS_WIN6_TO_G: i64 = -21;

/// The size in bytes of the displacement field.
pub const DISPLACEMENT_SIZE: usize = 4;

/// The size in bytes of a pointer of the game.
pub const POINTER_SIZE: usize = 8;

/// The size in bytes of an element record.
pub const ELEMENT_SIZE: usize = 32;

/// The offset of the address of an element's children.
pub const ELEMENT_CHILDREN: usize = 16;

/// The size in bytes of the game record.
pub const GAME_SIZE: usize = 32;

/// The offset of the address of the board record in the game record.
pub const GAME_BOARD: usize = 24;

/// The size in bytes of the board record.
pub const BOARD_RECORD_SIZE: usize = 104;

/// The offset of the mine count in the board record.
pub const RECORD_MINES: usize = 8;

/// The offset of the number of rows in the board record.
pub const RECORD_ROWS: usize = 12;

/// The offset of the number of columns in the board record.
pub const RECORD_COLUMNS: usize = 16;

/// The largest number of rows that the game's window holds.
pub const MAX_ROWS: u32 = 24;

/// The largest number of columns that the game's window holds.
pub const MAX_COLUMNS: u32 = 30;

/// The offset, in the board record, of the address of the tree of what
/// the squares show.
pub const RECORD_REVEALED: usize = 80;

/// The offset, in the board record, of the address of the tree of mines.
pub const RECORD_HIDDEN: usize = 88;

/// The instruction bytes that precede the call.
pub open spec fn get_singleton_signature() -> Seq<u8> {
    seq![0x48u8, 0x89, 0x44, 0x24, 0x70, 0x48, 0x85, 0xc0, 0x74, 0x0a, 0x48, 0x8b, 0xc8, 0xe8]
}

fn signature() -> (bytes: Vec<u8>)
    ensures
        bytes@ == get_singleton_signature(),
{
    let bytes: Vec<u8> = vec![
        0x48u8,
        0x89,
        0x44,
        0x24,
        0x70,
        0x48,
        0x85,
        0xc0,
        0x74,
        0x0a,
        0x48,
        0x8b,
        0xc8,
        0xe8,
    ];
    assert(bytes@ =~= get_singleton_signature());
    bytes
}

/// The token at `index` of the display table. An index behind the table
/// is shown as unknown.
pub open spec fn display(index: int) -> CellToken {
    if 0 <= index <= 8 {
        CellToken::Digit(index as u8)
    } else if index == 9 {
        CellToken::Unexplored
    } else if index == 10 {
        CellToken::Flag
    } else if index == 11 {
        CellToken::QuestionMark
    } else if index == 12 {
        CellToken::Empty
    } else if index == 13 {
        CellToken::Unexpected
    } else {
        CellToken::Unknown
    }
}

/// Looks up the display table.
pub fn lookup(index: u32) -> (token: CellToken)
    ensures
        token == display(index as int),
        token.wf(),
{
    if index <= 8 {
        CellToken::Digit(index as u8)
    } else if index == 9 {
        CellToken::Unexplored
    } else if index == 10 {
        CellToken::Flag
    } else if index == 11 {
        CellToken::QuestionMark
    } else if index == 12 {
        CellToken::Empty
    } else if index == 13 {
        CellToken::Unexpected
    } else {
        CellToken::Unknown
    }
}

/// The size in bytes of one cell of a column: an index into the display
/// table in the one tree, a flag byte in the other.
pub open spec fn spec_cell_size(kind: TreeKind) -> usize {
    match kind {
        TreeKind::Revealed => 4,
        TreeKind::Hidden => 1,
    }
}

/// The size in bytes of one cell of a column.
#[verifier::when_used_as_spec(spec_cell_size)]
pub fn cell_size(kind: TreeKind) -> (size: usize)
    ensures
        size == spec_cell_size(kind),
{
    match kind {
        TreeKind::Revealed => 4,
        TreeKind::Hidden => 1,
    }
}

/// What the cell in row `row` of a column writes on the board, if it
/// writes anything. The tree of mines only marks: a cell without a mine
/// leaves its square as it is.
pub open spec fn mark(kind: TreeKind, cells: Seq<u8>, row: int) -> Option<CellToken> {
    match kind {
        TreeKind::Revealed => Some(display(u32_at(cells, 4 * row) as int)),
        TreeKind::Hidden => if cells[row] != 0 {
            Some(CellToken::Mine)
        } else {
            None
        },
    }
}

/// The board after the first `rows` cells of column `column` have been
/// written, one after the other. The first cell that falls outside the
/// board ends it.
pub open spec fn overlay(
    board: BoardView,
    kind: TreeKind,
    column: int,
    cells: Seq<u8>,
    rows: nat,
) -> Result<BoardView, Error>
    decreases rows,
{
    if rows == 0 {
        Ok(board)
    } else {
        match overlay(board, kind, column, cells, (rows - 1) as nat) {
            Err(error) => Err(error),
            Ok(before) => match mark(kind, cells, rows - 1) {
                None => Ok(before),
                Some(token) => if before.in_bounds(rows - 1, column) {
                    Ok(before.set(rows - 1, column, token))
                } else {
                    Err(Error::IndexOutOfBounds { row: (rows - 1) as usize, column: column as usize })
                },
            },
        }
    }
}

/// Once a cell has fallen outside the board, further cells change nothing.
proof fn lemma_overlay_stays_failed(
    board: BoardView,
    kind: TreeKind,
    column: int,
    cells: Seq<u8>,
    failed: nat,
    rows: nat,
)
    requires
        failed <= rows,
        overlay(board, kind, column, cells, failed) is Err,
    ensures
        overlay(board, kind, column, cells, rows) == overlay(board, kind, column, cells, failed),
    decreases rows,
{
    if failed < rows {
        lemma_overlay_stays_failed(board, kind, column, cells, failed, (rows - 1) as nat);
    }
}

/// What the cells of a column come to, said at once. Where every cell that
/// writes falls on the board, the board keeps its shape and changes in
/// column `column` alone, in the rows whose cells write. Otherwise the
/// first cell that writes and falls outside is reported.
pub proof fn lemma_overlay(board: BoardView, kind: TreeKind, column: int, cells: Seq<u8>, rows: nat)
    requires
        board.wf(),
        0 <= column <= usize::MAX,
        rows <= usize::MAX,
    ensures
        match overlay(board, kind, column, cells, rows) {
            Ok(after) => {
                &&& after.wf()
                &&& after.rows == board.rows
                &&& after.columns == board.columns
                &&& after.mines == board.mines
                &&& forall|r: int|
                    0 <= r < rows && mark(kind, cells, r) is Some ==> board.in_bounds(r, column)
                &&& forall|r: int, c: int|
                    board.in_bounds(r, c) ==> #[trigger] after.cells[r][c] == if c == column && r
                        < rows && mark(kind, cells, r) is Some {
                        mark(kind, cells, r)->Some_0
                    } else {
                        board.cells[r][c]
                    }
            },
            Err(error) => exists|r: int|
                {
                    &&& 0 <= r < rows
                    &&& #[trigger] mark(kind, cells, r) is Some
                    &&& !board.in_bounds(r, column)
                    &&& error == Error::IndexOutOfBounds { row: r as usize, column: column as usize }
                    &&& forall|k: int|
                        0 <= k < r && mark(kind, cells, k) is Some ==> board.in_bounds(k, column)
                },
        },
    decreases rows,
{
    if rows > 0 {
        let last = rows - 1;
        lemma_overlay(board, kind, column, cells, last as nat);
        match overlay(board, kind, column, cells, last as nat) {
            Ok(before) => {
                match mark(kind, cells, last) {
                    Some(token) => {
                        if before.in_bounds(last, column) {
                            let after = before.set(last, column, token);
                            assert forall|r: int, c: int|
                                board.in_bounds(r, c) implies #[trigger] after.cells[r][c]
                                == if c == column && r < rows && mark(kind, cells, r) is Some {
                                mark(kind, cells, r)->Some_0
                            } else {
                                board.cells[r][c]
                            } by {
                                assert(before.cells[r][c] == if c == column && r < last && mark(
                                    kind,
                                    cells,
                                    r,
                                ) is Some {
                                    mark(kind, cells, r)->Some_0
                                } else {
                                    board.cells[r][c]
                                });
                            }
                        } else {
                            assert(mark(kind, cells, last) is Some);
                        }
                    },
                    None => {},
                }
            },
            Err(error) => {
                let r = choose|r: int|
                    {
                        &&& 0 <= r < last
                        &&& #[trigger] mark(kind, cells, r) is Some
                        &&& !board.in_bounds(r, column)
                        &&& error == Error::IndexOutOfBounds { row: r as usize, column: column as usize }
                        &&& forall|k: int|
                            0 <= k < r && mark(kind, cells, k) is Some ==> board.in_bounds(k, column)
                    };
                assert(mark(kind, cells, r) is Some);
            },
        }
    }
}

/// Writes the cells of one column on the board.
fn write_column(board: Board, kind: TreeKind, column: usize, cells: &[u8], rows: usize) -> (result:
    Result<Board, Error>)
    requires
        cells.len() == spec_cell_size(kind) * rows,
    ensures
        match result {
            Ok(after) => overlay(board@, kind, column as int, cells@, rows as nat) == Ok::<
                BoardView,
                Error,
            >(after@),
            Err(error) => overlay(board@, kind, column as int, cells@, rows as nat) == Err::<
                BoardView,
                Error,
            >(error),
        },
{
    let ghost start = board@;
    let mut written = board;
    let mut r: usize = 0;
    while r < rows
        invariant
            r <= rows,
            cells.len() == spec_cell_size(kind) * rows,
            start == board@,
            overlay(start, kind, column as int, cells@, r as nat) == Ok::<BoardView, Error>(written@),
        decreases rows - r,
    {
        let token: Option<CellToken> = match kind {
            TreeKind::Revealed => Some(lookup(read_u32(cells, 4 * r))),
            TreeKind::Hidden => if cells[r] != 0 {
                Some(CellToken::Mine)
            } else {
                None
            },
        };
        assert(token == mark(kind, cells@, r as int));
        match token {
            Some(token) => {
                match written.insert(token, r, column) {
                    Ok(_) => {},
                    Err(error) => {
                        proof {
                            assert(overlay(start, kind, column as int, cells@, (r + 1) as nat)
                                == Err::<BoardView, Error>(error));
                            lemma_overlay_stays_failed(
                                start,
                                kind,
                                column as int,
                                cells@,
                                (r + 1) as nat,
                                rows as nat,
                            );
                        }
                        return Err(error);
                    },
                }
            },
            None => {},
        }
        r += 1;
    }
    Ok(written)
}

/// Where the walk of an element tree stands.
#[derive(Clone, Copy, Debug, PartialEq, Eq, Structural)]
pub enum TreeStage {
    /// Waiting for the root element.
    Root,
    /// Waiting for the pointers to the `columns` column elements.
    ColumnPointers { columns: usize },
    /// Waiting for the element of column `column`.
    Column { column: usize },
    /// Waiting for the `rows` cells of column `column`.
    Rows { column: usize, rows: usize },
}

impl TreeStage {
    /// The part of the tree that the stage waits for.
    pub open spec fn spec_part(&self) -> TreePart {
        match *self {
            TreeStage::Root => TreePart::Root,
            TreeStage::ColumnPointers { .. } => TreePart::ColumnPointers,
            TreeStage::Column { column } => TreePart::Column(column),
            TreeStage::Rows { column, .. } => TreePart::Rows(column),
        }
    }

    /// The part of the tree that the stage waits for.
    #[verifier::when_used_as_spec(spec_part)]
    pub fn part(&self) -> (part: TreePart)
        ensures
            part == self.spec_part(),
    {
        match self {
            TreeStage::Root => TreePart::Root,
            TreeStage::ColumnPointers { .. } => TreePart::ColumnPointers,
            TreeStage::Column { column } => TreePart::Column(*column),
            TreeStage::Rows { column, .. } => TreePart::Rows(*column),
        }
    }

    /// The number of bytes that the stage waits for.
    pub open spec fn expected(self, kind: TreeKind) -> int {
        match self {
            TreeStage::Root => ELEMENT_SIZE as int,
            TreeStage::ColumnPointers { columns } => POINTER_SIZE * columns,
            TreeStage::Column { .. } => ELEMENT_SIZE as int,
            TreeStage::Rows { rows, .. } => spec_cell_size(kind) * rows,
        }
    }
}

/// What becomes of a walk when the request for its next part has been
/// made: an array too large to ask for ends it.
pub open spec fn planned(
    kind: TreeKind,
    part: TreePart,
    request: Result<Request, Error>,
    then: TreeReaderView,
) -> Step<TreeReaderView, BoardView> {
    match request {
        Ok(request) => Step::Pending(TreeReaderView { request, ..then }),
        Err(Error::SizeOverflow) => Step::Failed(
            Error::StructureRead { tree: kind, part, fault: ReadFault::Overflow },
        ),
        Err(error) => Step::Failed(error),
    }
}

/// The mathematical content of a [`TreeReader`].
pub struct TreeReaderView {
    pub memory: MemoryHandle,
    pub kind: TreeKind,
    pub board: BoardView,
    pub pointers: Seq<u64>,
    pub stage: TreeStage,
    pub request: Request,
}

impl TreeReaderView {
    /// The walk is one that a reader can be in.
    pub open spec fn wf(self) -> bool {
        &&& self.memory is Process
        &&& self.board.wf()
        &&& self.request is Read
        &&& self.request.spec_size() == self.stage.expected(self.kind)
        &&& match self.stage {
            TreeStage::Column { column } => column < self.pointers.len(),
            TreeStage::Rows { column, .. } => column < self.pointers.len(),
            _ => true,
        }
    }

    /// The walk of the tree at `base`, before anything has been read.
    pub open spec fn start(
        memory: MemoryHandle,
        board: BoardView,
        base: u64,
        kind: TreeKind,
    ) -> TreeReaderView {
        TreeReaderView {
            memory,
            kind,
            board,
            pointers: Seq::empty(),
            stage: TreeStage::Root,
            request: Request::Read { address: base, size: ELEMENT_SIZE },
        }
    }

    /// The walk turned to the element of column `column`, or the board
    /// where there is no such column.
    pub open spec fn turn_to(self, column: int) -> Step<TreeReaderView, BoardView> {
        if column < self.pointers.len() {
            planned(
                self.kind,
                TreePart::Column(column as usize),
                copy_request(self.memory, self.pointers[column], ELEMENT_SIZE),
                TreeReaderView { stage: TreeStage::Column { column: column as usize }, ..self },
            )
        } else {
            Step::Done(self.board)
        }
    }

    /// Where the walk stands after `outcome`.
    pub open spec fn next(self, outcome: Option<Seq<u8>>) -> Step<TreeReaderView, BoardView> {
        if !self.request.accepts(outcome) {
            Step::Failed(
                Error::StructureRead {
                    tree: self.kind,
                    part: self.stage.spec_part(),
                    fault: ReadFault::Transfer,
                },
            )
        } else {
            let bytes = outcome->Some_0;
            match self.stage {
                TreeStage::Root => {
                    let columns = u32_at(bytes, 0) as usize;
                    planned(
                        self.kind,
                        TreePart::ColumnPointers,
                        copy_array_request(
                            self.memory,
                            u64_at(bytes, ELEMENT_CHILDREN as int),
                            POINTER_SIZE,
                            columns,
                        ),
                        TreeReaderView { stage: TreeStage::ColumnPointers { columns }, ..self },
                    )
                },
                TreeStage::ColumnPointers { columns } => TreeReaderView {
                    pointers: Seq::new(columns as nat, |i: int| u64_at(bytes, POINTER_SIZE * i)),
                    ..self
                }.turn_to(0),
                TreeStage::Column { column } => {
                    let rows = u32_at(bytes, 0) as usize;
                    planned(
                        self.kind,
                        TreePart::Rows(column),
                        copy_array_request(
                            self.memory,
                            u64_at(bytes, ELEMENT_CHILDREN as int),
                            spec_cell_size(self.kind),
                            rows,
                        ),
                        TreeReaderView { stage: TreeStage::Rows { column, rows }, ..self },
                    )
                },
                TreeStage::Rows { column, rows } => match overlay(
                    self.board,
                    self.kind,
                    column as int,
                    bytes,
                    rows as nat,
                ) {
                    Ok(board) => TreeReaderView { board, ..self }.turn_to(column + 1),
                    Err(error) => Step::Failed(error),
                },
            }
        }
    }
}

/// A walk stays a walk: what follows a well-formed state is well formed,
/// reads the same memory and walks the same tree, and the board keeps its
/// shape, also when the walk is done.
pub proof fn lemma_walk_goes_on(reader: TreeReaderView, outcome: Option<Seq<u8>>)
    requires
        reader.wf(),
    ensures
        match reader.next(outcome) {
            Step::Pending(after) => {
                &&& after.wf()
                &&& after.memory == reader.memory
                &&& after.kind == reader.kind
                &&& after.board.rows == reader.board.rows
                &&& after.board.columns == reader.board.columns
                &&& after.board.mines == reader.board.mines
            },
            Step::Done(board) => {
                &&& board.wf()
                &&& board.rows == reader.board.rows
                &&& board.columns == reader.board.columns
                &&& board.mines == reader.board.mines
            },
            Step::Failed(_) => true,
        },
{
    if reader.request.accepts(outcome) {
        match reader.stage {
            TreeStage::Rows { column, rows } => {
                lemma_overlay(reader.board, reader.kind, column as int, outcome->Some_0, rows as nat);
            },
            _ => {},
        }
    }
}

/// A failure of a walk tells what went wrong and where: a part of the tree
/// that could not be had, with the tree and the part, or a cell that fell
/// outside the board.
pub proof fn lemma_walk_fails_with_context(reader: TreeReaderView, outcome: Option<Seq<u8>>)
    requires
        reader.wf(),
        reader.next(outcome) is Failed,
    ensures
        match reader.next(outcome)->Failed_0 {
            Error::StructureRead { tree, part, fault } => {
                &&& tree == reader.kind
                &&& fault == ReadFault::Transfer ==> !reader.request.accepts(outcome) && part
                    == reader.stage.spec_part()
                &&& fault == ReadFault::Overflow ==> reader.request.accepts(outcome)
            },
            Error::IndexOutOfBounds { row, column } => {
                &&& reader.stage matches TreeStage::Rows { column: walked, rows }
                &&& column == walked
                &&& row < rows
                &&& !reader.board.in_bounds(row as int, column as int)
            },
            _ => false,
        },
{
    if reader.request.accepts(outcome) {
        match reader.stage {
            TreeStage::Rows { column, rows } => {
                lemma_overlay(reader.board, reader.kind, column as int, outcome->Some_0, rows as nat);
            },
            _ => {},
        }
    }
}

/// The walk of one element tree, which writes what it finds on a board.
pub struct TreeReader {
    memory: MemoryHandle,
    kind: TreeKind,
    board: Board,
    pointers: Vec<u64>,
    stage: TreeStage,
    request: Request,
}

impl View for TreeReader {
    type V = TreeReaderView;

    closed spec fn view(&self) -> TreeReaderView {
        TreeReaderView {
            memory: self.memory,
            kind: self.kind,
            board: self.board@,
            pointers: self.pointers@,
            stage: self.stage,
            request: self.request,
        }
    }
}

/// Reads the pointers to the column elements out of their bytes.
fn parse_pointers(bytes: &[u8], columns: usize) -> (pointers: Vec<u64>)
    requires
        bytes.len() == POINTER_SIZE * columns,
    ensures
        pointers@ == Seq::new(columns as nat, |i: int| u64_at(bytes@, POINTER_SIZE * i)),
{
    let mut pointers: Vec<u64> = Vec::new();
    let mut i: usize = 0;
    while i < columns
        invariant
            i <= columns,
            bytes.len() == POINTER_SIZE * columns,
            pointers@ == Seq::new(i as nat, |k: int| u64_at(bytes@, POINTER_SIZE * k)),
        decreases columns - i,
    {
        pointers.push(read_u64(bytes, POINTER_SIZE * i));
        i += 1;
    }
    pointers
}

impl TreeReader {
    /// A reader is always in a state that a walk can be in.
    #[verifier::type_invariant]
    pub open spec fn inv(&self) -> bool {
        self@.wf()
    }

    /// What has to be fetched next.
    pub fn request(&self) -> (request: Request)
        ensures
            request == self@.request,
    {
        self.request
    }

    /// Takes the outcome of the request and moves on.
    pub fn resume(self, outcome: Option<Vec<u8>>) -> (step: Step<TreeReader, Board>)
        ensures
            step@ == self@.next(delivered(outcome)),
    {
        proof {
            use_type_invariant(&self);
        }
        let TreeReader { memory, kind, board, pointers, stage, request } = self;
        let bytes = match request.accept(outcome) {
            Ok(bytes) => bytes,
            Err(_) => {
                return Step::Failed(
                    Error::StructureRead { tree: kind, part: stage.part(), fault: ReadFault::Transfer },
                );
            },
        };
        match stage {
            TreeStage::Root => {
                let columns: usize = read_u32(bytes.as_slice(), 0) as usize;
                let children: u64 = read_u64(bytes.as_slice(), ELEMENT_CHILDREN);
                let stage = TreeStage::ColumnPointers { columns };
                match copy_array(&memory, children, POINTER_SIZE, columns) {
                    Ok(request) => Step::Pending(
                        TreeReader { memory, kind, board, pointers, stage, request },
                    ),
                    Err(error) => Step::Failed(plan_failure(kind, TreePart::ColumnPointers, error)),
                }
            },
            TreeStage::ColumnPointers { columns } => {
                let pointers = parse_pointers(bytes.as_slice(), columns);
                turn_to(memory, kind, board, pointers, stage, request, 0)
            },
            TreeStage::Column { column } => {
                let rows: usize = read_u32(bytes.as_slice(), 0) as usize;
                let children: u64 = read_u64(bytes.as_slice(), ELEMENT_CHILDREN);
                let stage = TreeStage::Rows { column, rows };
                match copy_array(&memory, children, cell_size(kind), rows) {
                    Ok(request) => Step::Pending(
                        TreeReader { memory, kind, board, pointers, stage, request },
                    ),
                    Err(error) => Step::Failed(plan_failure(kind, TreePart::Rows(column), error)),
                }
            },
            TreeStage::Rows { column, rows } => {
                match write_column(board, kind, column, bytes.as_slice(), rows) {
                    Ok(board) => {
                        proof {
                            board.lemma_view_is_wf();
                        }
                        assert(column < pointers.len());
                        turn_to(memory, kind, board, pointers, stage, request, column + 1)
                    },
                    Err(error) => Step::Failed(error),
                }
            },
        }
    }
}

/// The failure that stands for a request that could not be made.
fn plan_failure(kind: TreeKind, part: TreePart, error: Error) -> (failure: Error)
    ensures
        failure == match error {
            Error::SizeOverflow => Error::StructureRead { tree: kind, part, fault: ReadFault::Overflow },
            _ => error,
        },
{
    match error {
        Error::SizeOverflow => Error::StructureRead { tree: kind, part, fault: ReadFault::Overflow },
        _ => error,
    }
}

/// Turns to the element of column `column`, or ends the walk where there is
/// no such column.
fn turn_to(
    memory: MemoryHandle,
    kind: TreeKind,
    board: Board,
    pointers: Vec<u64>,
    stage: TreeStage,
    request: Request,
    column: usize,
) -> (step: Step<TreeReader, Board>)
    requires
        memory is Process,
        board@.wf(),
    ensures
        step@ == (TreeReaderView {
            memory,
            kind,
            board: board@,
            pointers: pointers@,
            stage,
            request,
        }).turn_to(column as int),
{
    if column < pointers.len() {
        let stage = TreeStage::Column { column };
        match copy(&memory, pointers[column], ELEMENT_SIZE) {
            Ok(request) => Step::Pending(TreeReader { memory, kind, board, pointers, stage, request }),
            Err(error) => Step::Failed(plan_failure(kind, TreePart::Column(column), error)),
        }
    } else {
        Step::Done(board)
    }
}

/// Starts the walk of the element tree at `base`, which will write what it
/// finds on `board`.
pub fn parse_raw_board(memory: &MemoryHandle, board: Board, base: u64, visible: TreeKind) -> (reader:
    Result<TreeReader, Error>)
    ensures
        match reader {
            Ok(reader) => memory is Process && reader@ == TreeReaderView::start(
                *memory,
                board@,
                base,
                visible,
            ),
            Err(error) => !(memory is Process) && error == Error::Unsupported,
        },
{
    proof {
        board.lemma_view_is_wf();
    }
    match copy(memory, base, ELEMENT_SIZE) {
        Ok(request) => Ok(
            TreeReader {
                memory: *memory,
                kind: visible,
                board,
                pointers: Vec::new(),
                stage: TreeStage::Root,
                request,
            },
        ),
        Err(error) => Err(error),
    }
}

/// Where the decoder stands. `T` is the walk of an element tree.
pub enum Stage<T> {
    /// Retrieving the environment block of the process.
    Peb(PebReader),
    /// Retrieving the headers of the image.
    Headers(NtHeadersReader),
    /// Waiting for a copy of the whole image, to search it.
    Haystack { image_base: u64, size: u32 },
    /// Waiting for the displacement field of the call, which lies at
    /// `field`.
    Displacement { field: u64 },
    /// Waiting for the pointer to the game record.
    Singleton { address: u64 },
    /// Waiting for the game record.
    Game { address: u64 },
    /// Waiting for the board record.
    Record { address: u64 },
    /// Walking the tree of what the squares show. The tree of mines, at
    /// `mines`, comes next.
    Revealed { tree: T, mines: u64 },
    /// Walking the tree of mines.
    Mines { tree: T },
}

/// The address of the displacement field of the call that the signature
/// was found behind, `offset` bytes into the image.
pub open spec fn displacement_field(image_base: u64, offset: usize) -> u64 {
    displaced(image_base, offset + OFFS_WIN6_TO_G)
}

/// The target of the call. The field holds a two's complement
/// displacement, which counts from the end of the field; one byte more is
/// skipped. A negative displacement leads back, to an address below that
/// point.
pub open spec fn call_target(field: u64, displacement: u32) -> u64 {
    displaced(field, 1 + DISPLACEMENT_SIZE + signed(displacement))
}

/// The record announces no more rows and no more columns than the game's
/// window holds. A record that announces more is not the game's board
/// record.
pub open spec fn fits_the_window(record: Seq<u8>) -> bool {
    &&& u32_at(record, RECORD_ROWS as int) <= MAX_ROWS
    &&& u32_at(record, RECORD_COLUMNS as int) <= MAX_COLUMNS
}

/// The empty board that a board record announces.
pub open spec fn announced(record: Seq<u8>) -> BoardView {
    BoardView::blank(
        u32_at(record, RECORD_ROWS as int) as nat,
        u32_at(record, RECORD_COLUMNS as int) as nat,
        u32_at(record, RECORD_MINES as int),
    )
}

/// The mathematical content of a [`BoardReader`].
pub struct BoardReaderView {
    pub memory: MemoryHandle,
    pub stage: Stage<TreeReaderView>,
}

impl BoardReaderView {
    /// The state is one that a decoder can be in.
    pub open spec fn wf(self) -> bool {
        &&& self.memory is Process
        &&& match self.stage {
            Stage::Revealed { tree, .. } => tree.wf() && tree.memory == self.memory,
            Stage::Mines { tree } => tree.wf() && tree.memory == self.memory,
            _ => true,
        }
    }

    /// The decoder before anything has been read.
    pub open spec fn start(memory: MemoryHandle) -> BoardReaderView {
        BoardReaderView { memory, stage: Stage::Peb(PebReader::Information) }
    }

    /// What has to be fetched next.
    pub open spec fn request(self) -> Request {
        match self.stage {
            Stage::Peb(reader) => reader.spec_request(),
            Stage::Headers(reader) => reader.spec_request(),
            Stage::Haystack { image_base, size } => Request::Read {
                address: image_base,
                size: size as usize,
            },
            Stage::Displacement { field } => Request::Read { address: field, size: DISPLACEMENT_SIZE },
            Stage::Singleton { address } => Request::Read { address, size: POINTER_SIZE },
            Stage::Game { address } => Request::Read { address, size: GAME_SIZE },
            Stage::Record { address } => Request::Read { address, size: BOARD_RECORD_SIZE },
            Stage::Revealed { tree, .. } => tree.request,
            Stage::Mines { tree } => tree.request,
        }
    }

    /// The decoder in another stage.
    pub open spec fn at(self, stage: Stage<TreeReaderView>) -> Step<BoardReaderView, BoardView> {
        Step::Pending(BoardReaderView { stage, ..self })
    }

    /// The bytes of `outcome`, where the transfer counts.
    pub open spec fn taken(self, outcome: Option<Seq<u8>>) -> Option<Seq<u8>> {
        if self.request().accepts(outcome) {
            outcome
        } else {
            None
        }
    }

    /// Where the decoder stands after `outcome`.
    pub open spec fn next(self, outcome: Option<Seq<u8>>) -> Step<BoardReaderView, BoardView> {
        match self.stage {
            Stage::Peb(reader) => match reader.next(outcome) {
                Step::Pending(reader) => self.at(Stage::Peb(reader)),
                Step::Done(peb) => self.at(
                    Stage::Headers(NtHeadersReader::Container { image_base: peb.image_base_address }),
                ),
                Step::Failed(error) => Step::Failed(error),
            },
            Stage::Headers(reader) => match reader.next(outcome) {
                Step::Pending(reader) => self.at(Stage::Headers(reader)),
                Step::Done(ImageNtHeaders::X64(headers)) => self.at(
                    Stage::Haystack { image_base: headers.image_base, size: headers.size_of_image },
                ),
                Step::Done(ImageNtHeaders::X86(_)) => Step::Failed(Error::UnsupportedArchitecture),
                Step::Failed(error) => Step::Failed(error),
            },
            Stage::Haystack { image_base, .. } => match self.taken(outcome) {
                Some(image) => match first_occurrence(image, get_singleton_signature()) {
                    Some(offset) => self.at(
                        Stage::Displacement { field: displacement_field(image_base, offset) },
                    ),
                    None => Step::Failed(Error::PatternNotFound),
                },
                None => Step::Failed(self.request().fault()),
            },
            Stage::Displacement { field } => match self.taken(outcome) {
                Some(bytes) => self.at(
                    Stage::Singleton { address: call_target(field, u32_at(bytes, 0)) },
                ),
                None => Step::Failed(self.request().fault()),
            },
            Stage::Singleton { .. } => match self.taken(outcome) {
                Some(bytes) => self.at(Stage::Game { address: u64_at(bytes, 0) }),
                None => Step::Failed(self.request().fault()),
            },
            Stage::Game { .. } => match self.taken(outcome) {
                Some(bytes) => self.at(Stage::Record { address: u64_at(bytes, GAME_BOARD as int) }),
                None => Step::Failed(self.request().fault()),
            },
            Stage::Record { .. } => match self.taken(outcome) {
                Some(record) => if !fits_the_window(record) {
                    Step::Failed(Error::InvalidBoardDimensions)
                } else {
                    self.at(
                        Stage::Revealed {
                            tree: TreeReaderView::start(
                                self.memory,
                                announced(record),
                                u64_at(record, RECORD_REVEALED as int),
                                TreeKind::Revealed,
                            ),
                            mines: u64_at(record, RECORD_HIDDEN as int),
                        },
                    )
                },
                None => Step::Failed(self.request().fault()),
            },
            Stage::Revealed { tree, mines } => match tree.next(outcome) {
                Step::Pending(tree) => self.at(Stage::Revealed { tree, mines }),
                Step::Done(board) => self.at(
                    Stage::Mines {
                        tree: TreeReaderView::start(self.memory, board, mines, TreeKind::Hidden),
                    },
                ),
                Step::Failed(error) => Step::Failed(error),
            },
            Stage::Mines { tree } => match tree.next(outcome) {
                Step::Pending(tree) => self.at(Stage::Mines { tree }),
                Step::Done(board) => Step::Done(board),
                Step::Failed(error) => Step::Failed(error),
            },
        }
    }
}

/// A decoder stays a decoder: what follows a well-formed state is well
/// formed and reads the same memory.
pub proof fn lemma_decoder_goes_on(reader: BoardReaderView, outcome: Option<Seq<u8>>)
    requires
        reader.wf(),
    ensures
        match reader.next(outcome) {
            Step::Pending(after) => after.wf() && after.memory == reader.memory,
            Step::Done(board) => board.wf(),
            Step::Failed(_) => true,
        },
{
    match reader.stage {
        Stage::Revealed { tree, .. } => {
            lemma_walk_goes_on(tree, outcome);
        },
        Stage::Mines { tree } => {
            lemma_walk_goes_on(tree, outcome);
        },
        _ => {},
    }
}

/// The call is resolved as a relative call is: from the address behind the
/// displacement field, which is four bytes long, the displacement leads
/// forward or, where it is negative, back, and one byte more is skipped.
/// Without wrap-around the target is the plain sum.
pub proof fn lemma_call_target(field: u64, displacement: u32)
    ensures
        call_target(field, displacement) == displaced(field, 5 + signed(displacement)),
        -0x8000_0000 <= signed(displacement) < 0x8000_0000,
        displacement < 0x8000_0000 ==> signed(displacement) == displacement,
        displacement >= 0x8000_0000 ==> signed(displacement) == displacement - 0x1_0000_0000,
        0 <= field + 5 + signed(displacement) <= u64::MAX ==> call_target(field, displacement)
            == field + 5 + signed(displacement),
{
}

/// A board record that announces more rows or more columns than the
/// game's window holds ends the decoder with `InvalidBoardDimensions`,
/// before any board is made.
pub proof fn lemma_oversized_board_is_refused(reader: BoardReaderView, record: Seq<u8>)
    requires
        reader.stage is Record,
        record.len() == BOARD_RECORD_SIZE,
        u32_at(record, RECORD_ROWS as int) > MAX_ROWS || u32_at(record, RECORD_COLUMNS as int)
            > MAX_COLUMNS,
    ensures
        reader.next(Some(record)) == Step::<BoardReaderView, BoardView>::Failed(
            Error::InvalidBoardDimensions,
        ),
{
}

/// Whatever board the decoder hands out or walks a tree on fits the
/// game's window.
pub proof fn lemma_boards_fit_the_window(reader: BoardReaderView, outcome: Option<Seq<u8>>)
    requires
        reader.stage is Record,
    ensures
        reader.next(outcome) matches Step::Pending(after) ==> {
            &&& after.stage matches Stage::Revealed { tree, .. }
            &&& tree.board.rows <= MAX_ROWS
            &&& tree.board.columns <= MAX_COLUMNS
        },
        !(reader.next(outcome) is Done),
{
}

/// A 32-bit image is refused: the decoder follows 64-bit pointers. It is
/// refused as soon as its headers are there, before anything is searched.
pub proof fn lemma_x86_is_not_supported(reader: BoardReaderView, outcome: Option<Seq<u8>>)
    requires
        reader.stage matches Stage::Headers(headers) && headers.next(outcome) matches Step::Done(
            ImageNtHeaders::X86(_),
        ),
    ensures
        reader.next(outcome) == Step::<BoardReaderView, BoardView>::Failed(
            Error::UnsupportedArchitecture,
        ),
{
}

/// Where the signature lies nowhere in the image, the decoder gives up
/// with `PatternNotFound`, which no failed read is reported as.
pub proof fn lemma_missing_signature(reader: BoardReaderView, outcome: Option<Seq<u8>>)
    requires
        reader.wf(),
    ensures
        reader.next(outcome) == Step::<BoardReaderView, BoardView>::Failed(Error::PatternNotFound)
            <==> {
            &&& reader.stage is Haystack
            &&& reader.request().accepts(outcome)
            &&& first_occurrence(outcome->Some_0, get_singleton_signature()) is None
        },
{
    match reader.stage {
        Stage::Revealed { tree, .. } => {
            if tree.next(outcome) is Failed {
                lemma_walk_fails_with_context(tree, outcome);
            }
        },
        Stage::Mines { tree } => {
            if tree.next(outcome) is Failed {
                lemma_walk_fails_with_context(tree, outcome);
            }
        },
        _ => {},
    }
}

/// The decoder of the board of the Windows 7 game.
pub struct BoardReader {
    memory: MemoryHandle,
    stage: Stage<TreeReader>,
}

impl View for BoardReader {
    type V = BoardReaderView;

    closed spec fn view(&self) -> BoardReaderView {
        BoardReaderView {
            memory: self.memory,
            stage: match self.stage {
                Stage::Peb(reader) => Stage::Peb(reader),
                Stage::Headers(reader) => Stage::Headers(reader),
                Stage::Haystack { image_base, size } => Stage::Haystack { image_base, size },
                Stage::Displacement { field } => Stage::Displacement { field },
                Stage::Singleton { address } => Stage::Singleton { address },
                Stage::Game { address } => Stage::Game { address },
                Stage::Record { address } => Stage::Record { address },
                Stage::Revealed { tree, mines } => Stage::Revealed { tree: tree@, mines },
                Stage::Mines { tree } => Stage::Mines { tree: tree@ },
            },
        }
    }
}

impl BoardReader {
    /// A reader is always in a state that a decoder can be in.
    #[verifier::type_invariant]
    pub open spec fn inv(&self) -> bool {
        self@.wf()
    }

    /// What has to be fetched next.
    pub fn request(&self) -> (request: Request)
        ensures
            request == self@.request(),
    {
        match &self.stage {
            Stage::Peb(reader) => reader.request(),
            Stage::Headers(reader) => reader.request(),
            Stage::Haystack { image_base, size } => Request::Read {
                address: *image_base,
                size: *size as usize,
            },
            Stage::Displacement { field } => Request::Read { address: *field, size: DISPLACEMENT_SIZE },
            Stage::Singleton { address } => Request::Read { address: *address, size: POINTER_SIZE },
            Stage::Game { address } => Request::Read { address: *address, size: GAME_SIZE },
            Stage::Record { address } => Request::Read { address: *address, size: BOARD_RECORD_SIZE },
            Stage::Revealed { tree, .. } => tree.request(),
            Stage::Mines { tree } => tree.request(),
        }
    }

    /// Takes the outcome of the request and moves on.
    pub fn resume(self, outcome: Option<Vec<u8>>) -> (step: Step<BoardReader, Board>)
        ensures
            step@ == self@.next(delivered(outcome)),
    {
        proof {
            use_type_invariant(&self);
        }
        let request = self.request();
        let BoardReader { memory, stage } = self;
        match stage {
            Stage::Peb(reader) => match reader.resume(outcome) {
                Step::Pending(reader) => Step::Pending(BoardReader { memory, stage: Stage::Peb(reader) }),
                Step::Done(peb) => Step::Pending(
                    BoardReader {
                        memory,
                        stage: Stage::Headers(
                            NtHeadersReader::Container { image_base: peb.image_base_address },
                        ),
                    },
                ),
                Step::Failed(error) => Step::Failed(error),
            },
            Stage::Headers(reader) => match reader.resume(outcome) {
                Step::Pending(reader) => Step::Pending(
                    BoardReader { memory, stage: Stage::Headers(reader) },
                ),
                Step::Done(ImageNtHeaders::X64(headers)) => Step::Pending(
                    BoardReader {
                        memory,
                        stage: Stage::Haystack {
                            image_base: headers.image_base,
                            size: headers.size_of_image,
                        },
                    },
                ),
                Step::Done(ImageNtHeaders::X86(_)) => Step::Failed(Error::UnsupportedArchitecture),
                Step::Failed(error) => Step::Failed(error),
            },
            Stage::Haystack { image_base, size } => {
                let pattern = signature();
                let searching = match search(pattern.as_slice(), &memory, image_base, size) {
                    Ok(searching) => searching,
                    Err(error) => { return Step::Failed(error); },
                };
                let ghost haystack = delivered(outcome);
                match searching.resume(outcome) {
                    Ok(Some(offset)) => {
                        proof {
                            lemma_first_occurrence(
                                haystack->Some_0,
                                get_singleton_signature(),
                                Some(offset),
                            );
                        }
                        let field = displace(image_base, offset as i64 + OFFS_WIN6_TO_G);
                        Step::Pending(BoardReader { memory, stage: Stage::Displacement { field } })
                    },
                    Ok(None) => Step::Failed(Error::PatternNotFound),
                    Err(error) => Step::Failed(error),
                }
            },
            Stage::Displacement { field } => match request.accept(outcome) {
                Ok(bytes) => {
                    let displacement: i64 = to_signed(read_u32(bytes.as_slice(), 0));
                    let address = displace(field, 1 + DISPLACEMENT_SIZE as i64 + displacement);
                    Step::Pending(BoardReader { memory, stage: Stage::Singleton { address } })
                },
                Err(error) => Step::Failed(error),
            },
            Stage::Singleton { .. } => match request.accept(outcome) {
                Ok(bytes) => Step::Pending(
                    BoardReader {
                        memory,
                        stage: Stage::Game { address: read_u64(bytes.as_slice(), 0) },
                    },
                ),
                Err(error) => Step::Failed(error),
            },
            Stage::Game { .. } => match request.accept(outcome) {
                Ok(bytes) => Step::Pending(
                    BoardReader {
                        memory,
                        stage: Stage::Record { address: read_u64(bytes.as_slice(), GAME_BOARD) },
                    },
                ),
                Err(error) => Step::Failed(error),
            },
            Stage::Record { .. } => match request.accept(outcome) {
                Ok(bytes) => {
                    let record = bytes.as_slice();
                    let rows: u32 = read_u32(record, RECORD_ROWS);
                    let columns: u32 = read_u32(record, RECORD_COLUMNS);
                    if rows > MAX_ROWS || columns > MAX_COLUMNS {
                        return Step::Failed(Error::InvalidBoardDimensions);
                    }
                    let board = Board::new(
                        rows as usize,
                        columns as usize,
                        read_u32(record, RECORD_MINES),
                    );
                    let revealed: u64 = read_u64(record, RECORD_REVEALED);
                    let mines: u64 = read_u64(record, RECORD_HIDDEN);
                    match parse_raw_board(&memory, board, revealed, TreeKind::Revealed) {
                        Ok(tree) => Step::Pending(
                            BoardReader { memory, stage: Stage::Revealed { tree, mines } },
                        ),
                        Err(error) => Step::Failed(error),
                    }
                },
                Err(error) => Step::Failed(error),
            },
            Stage::Revealed { tree, mines } => match tree.resume(outcome) {
                Step::Pending(tree) => {
                    proof {
                        use_type_invariant(&tree);
                    }
                    Step::Pending(BoardReader { memory, stage: Stage::Revealed { tree, mines } })
                },
                Step::Done(board) => match parse_raw_board(&memory, board, mines, TreeKind::Hidden) {
                    Ok(tree) => {
                        proof {
                            use_type_invariant(&tree);
                        }
                        Step::Pending(BoardReader { memory, stage: Stage::Mines { tree } })
                    },
                    Err(error) => Step::Failed(error),
                },
                Step::Failed(error) => Step::Failed(error),
            },
            Stage::Mines { tree } => match tree.resume(outcome) {
                Step::Pending(tree) => {
                    proof {
                        use_type_invariant(&tree);
                    }
                    Step::Pending(BoardReader { memory, stage: Stage::Mines { tree } })
                },
                Step::Done(board) => Step::Done(board),
                Step::Failed(error) => Step::Failed(error),
            },
        }
    }
}

/// Starts the retrieval of the board of the game behind `a_remote`.
pub fn board(a_remote: MemoryHandle) -> (reader: Result<BoardReader, Error>)
    ensures
        match reader {
            Ok(reader) => a_remote is Process && reader@ == BoardReaderView::start(a_remote),
            Err(error) => !(a_remote is Process) && error == Error::Unsupported,
        },
{
    match peb(&a_remote, false) {
        Ok(reader) => Ok(BoardReader { memory: a_remote, stage: Stage::Peb(reader) }),
        Err(error) => Err(error),
    }
}

} // verus!
