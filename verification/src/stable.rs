//! What a reader comes to against a target whose memory does not change.
//!
//! A running game changes its memory as it pleases, and a reader is
//! verified for whatever each read delivers. Against a target that answers
//! every request the same way each time, more can be said: the run of a
//! reader has an end, and the end is what the records in the target's
//! memory say when they are followed from the first to the last.

use crate::error::{Error, ReadFault, TreeKind, TreePart};
use crate::grid::BoardView;
use crate::layout::{displaced, signed, u16_at, u32_at, u64_at};
use crate::memory::{first_occurrence, MemoryHandle, Request, Step};
use crate::session::{ClosingView, DecoderView, ReportView, Version, VersionReader};
use crate::versions::windows_xp;
use crate::versions::windows_7::{
    announced, call_target, displacement_field, fits_the_window, get_singleton_signature,
    lemma_overlay, overlay,
    spec_cell_size, BoardReaderView, Stage, TreeReaderView, TreeStage, BOARD_RECORD_SIZE,
    DISPLACEMENT_SIZE, ELEMENT_CHILDREN, ELEMENT_SIZE, GAME_BOARD, GAME_SIZE, POINTER_SIZE,
    RECORD_HIDDEN, RECORD_REVEALED,
};
use crate::process::{
    architecture_of, ImageNtHeaders, NtHeadersReader, Peb, PebReader, BASIC_INFORMATION_PEB,
    BASIC_INFORMATION_SIZE, DOS_HEADER_LFANEW, DOS_HEADER_SIZE, IMAGE_DOS_SIGNATURE, NT_COMMON_SIZE,
    PEB_SIZE,
};
use vstd::prelude::*;

verus! {

/// What a target answers to each request.
pub type Target = spec_fn(Request) -> Option<Seq<u8>>;

/// A reader, as far as a run is concerned: it asks, and it moves on.
pub trait Reader: Sized {
    /// What a run of the reader yields.
    type Output;

    /// What the reader asks for.
    spec fn asks(self) -> Request;

    /// Where the reader stands after `outcome`.
    spec fn after(self, outcome: Option<Seq<u8>>) -> Step<Self, Self::Output>;
}

impl Reader for PebReader {
    type Output = Peb;

    open spec fn asks(self) -> Request {
        self.spec_request()
    }

    open spec fn after(self, outcome: Option<Seq<u8>>) -> Step<PebReader, Peb> {
        self.next(outcome)
    }
}

impl Reader for NtHeadersReader {
    type Output = ImageNtHeaders;

    open spec fn asks(self) -> Request {
        self.spec_request()
    }

    open spec fn after(self, outcome: Option<Seq<u8>>) -> Step<NtHeadersReader, ImageNtHeaders> {
        self.next(outcome)
    }
}

/// One step of a run: a reader that waits is given what the target
/// answers; a run that has ended stays where it is.
pub open spec fn advance<R: Reader>(step: Step<R, R::Output>, target: Target) -> Step<R, R::Output> {
    match step {
        Step::Pending(reader) => reader.after(target(reader.asks())),
        _ => step,
    }
}

/// Where a run stands after `steps` steps.
pub open spec fn run<R: Reader>(step: Step<R, R::Output>, target: Target, steps: nat) -> Step<
    R,
    R::Output,
>
    decreases steps,
{
    if steps == 0 {
        step
    } else {
        advance(run(step, target, (steps - 1) as nat), target)
    }
}

/// The end of a run that came to `result`.
pub open spec fn ended<R: Reader>(result: Result<R::Output, Error>) -> Step<R, R::Output> {
    match result {
        Ok(output) => Step::Done(output),
        Err(error) => Step::Failed(error),
    }
}

/// A run can be cut in two.
pub proof fn lemma_run_in_two<R: Reader>(step: Step<R, R::Output>, target: Target, first: nat, second: nat)
    ensures
        run(step, target, first + second) == run(run(step, target, first), target, second),
    decreases second,
{
    if second > 0 {
        lemma_run_in_two(step, target, first, (second - 1) as nat);
        assert(run(step, target, first + second) == advance(
            run(step, target, (first + second - 1) as nat),
            target,
        ));
    }
}

/// A run that has ended stays ended.
pub proof fn lemma_run_stays_ended<R: Reader>(step: Step<R, R::Output>, target: Target, steps: nat)
    requires
        !(step is Pending),
    ensures
        run(step, target, steps) == step,
    decreases steps,
{
    if steps > 0 {
        lemma_run_stays_ended(step, target, (steps - 1) as nat);
    }
}

/// A run that has ended after `steps` steps took a last step to get
/// there.
pub proof fn lemma_last_step<R: Reader>(step: Step<R, R::Output>, target: Target, steps: nat) -> (last:
    nat)
    requires
        step is Pending,
        !(run(step, target, steps) is Pending),
    ensures
        1 <= last <= steps,
        run(step, target, (last - 1) as nat) is Pending,
        run(step, target, last) == run(step, target, steps),
    decreases steps,
{
    if run(step, target, (steps - 1) as nat) is Pending {
        steps
    } else {
        lemma_last_step(step, target, (steps - 1) as nat)
    }
}

/// The bytes that the target delivers for a request, where it delivers all
/// of them.
pub open spec fn fetched(target: Target, request: Request) -> Result<Seq<u8>, Error> {
    if request.accepts(target(request)) {
        Ok(target(request)->Some_0)
    } else {
        Err(request.fault())
    }
}

/// The `size` bytes at `address` in the target's memory, where they can be
/// read.
pub open spec fn read(target: Target, address: u64, size: usize) -> Result<Seq<u8>, Error> {
    fetched(target, Request::Read { address, size })
}

/// The environment block of the target.
pub open spec fn environment_block(target: Target) -> Result<Peb, Error> {
    match fetched(target, Request::BasicInformation { size: BASIC_INFORMATION_SIZE }) {
        Err(error) => Err(error),
        Ok(information) => match read(
            target,
            u64_at(information, BASIC_INFORMATION_PEB as int),
            PEB_SIZE,
        ) {
            Err(error) => Err(error),
            Ok(block) => Ok(Peb::decode(block)),
        },
    }
}

/// The retrieval of the environment block ends after two steps, with the
/// environment block of the target.
pub proof fn lemma_peb_run(target: Target)
    ensures
        run(Step::Pending(PebReader::Information), target, 2) == ended::<PebReader>(
            environment_block(target),
        ),
{
    let start = Step::<PebReader, Peb>::Pending(PebReader::Information);
    assert(run(start, target, 0) == start);
    assert(run(start, target, 1) == advance(start, target));
    assert(run(start, target, 2) == advance(advance(start, target), target));
}

/// The architecture header of the image at `image_base` in the target:
/// the container header names the place of the architecture header, the
/// machine type in it names the layout, and both signatures are checked.
pub open spec fn image_headers(target: Target, image_base: u64) -> Result<ImageNtHeaders, Error> {
    match read(target, image_base, DOS_HEADER_SIZE) {
        Err(error) => Err(error),
        Ok(container) => if u16_at(container, 0) != IMAGE_DOS_SIGNATURE {
            Err(Error::InvalidImageSignature)
        } else {
            let address = displaced(image_base, signed(u32_at(container, DOS_HEADER_LFANEW as int)));
            match read(target, address, NT_COMMON_SIZE) {
                Err(error) => Err(error),
                Ok(common) => {
                    let architecture = architecture_of(u16_at(common, 4));
                    match read(target, address, ImageNtHeaders::spec_size(architecture)) {
                        Err(error) => Err(error),
                        Ok(bytes) => {
                            let headers = ImageNtHeaders::decode(architecture, bytes);
                            if headers.spec_is_valid() {
                                Ok(headers)
                            } else {
                                Err(Error::InvalidImageSignature)
                            }
                        },
                    }
                },
            }
        },
    }
}

/// The retrieval of the headers ends after three steps, with the
/// architecture header of the image.
pub proof fn lemma_headers_run(target: Target, image_base: u64)
    ensures
        run(Step::Pending(NtHeadersReader::Container { image_base }), target, 3) == ended::<
            NtHeadersReader,
        >(image_headers(target, image_base)),
{
    let start = Step::<NtHeadersReader, ImageNtHeaders>::Pending(
        NtHeadersReader::Container { image_base },
    );
    assert(run(start, target, 0) == start);
    assert(run(start, target, 1) == advance(start, target));
    assert(run(start, target, 2) == advance(advance(start, target), target));
    assert(run(start, target, 3) == advance(advance(advance(start, target), target), target));
}

/// Headers are handed out only if the container carries its magic number
/// and the architecture header its signature.
pub proof fn lemma_headers_are_genuine(target: Target, image_base: u64)
    requires
        image_headers(target, image_base) is Ok,
    ensures
        read(target, image_base, DOS_HEADER_SIZE) is Ok,
        u16_at(read(target, image_base, DOS_HEADER_SIZE)->Ok_0, 0) == IMAGE_DOS_SIGNATURE,
        image_headers(target, image_base)->Ok_0.spec_is_valid(),
{
}

impl Reader for TreeReaderView {
    type Output = BoardView;

    open spec fn asks(self) -> Request {
        self.request
    }

    open spec fn after(self, outcome: Option<Seq<u8>>) -> Step<TreeReaderView, BoardView> {
        self.next(outcome)
    }
}

impl Reader for BoardReaderView {
    type Output = BoardView;

    open spec fn asks(self) -> Request {
        self.request()
    }

    open spec fn after(self, outcome: Option<Seq<u8>>) -> Step<BoardReaderView, BoardView> {
        self.next(outcome)
    }
}

/// The failure that stands for a part of a tree that cannot be read.
pub open spec fn unread(kind: TreeKind, part: TreePart) -> Error {
    Error::StructureRead { tree: kind, part, fault: ReadFault::Transfer }
}

/// The failure that stands for a part of a tree that is too large to ask
/// for.
pub open spec fn oversized(kind: TreeKind, part: TreePart) -> Error {
    Error::StructureRead { tree: kind, part, fault: ReadFault::Overflow }
}

/// The board after the columns from `column` on have been written on it,
/// each from the element that its pointer leads to.
pub open spec fn columns_from(
    target: Target,
    board: BoardView,
    kind: TreeKind,
    pointers: Seq<u64>,
    column: nat,
) -> Result<BoardView, Error>
    decreases pointers.len() - column,
{
    if column >= pointers.len() {
        Ok(board)
    } else {
        match read(target, pointers[column as int], ELEMENT_SIZE) {
            Err(_) => Err(unread(kind, TreePart::Column(column as usize))),
            Ok(element) => {
                let rows = u32_at(element, 0) as usize;
                if spec_cell_size(kind) * rows > usize::MAX {
                    Err(oversized(kind, TreePart::Rows(column as usize)))
                } else {
                    match read(
                        target,
                        u64_at(element, ELEMENT_CHILDREN as int),
                        (spec_cell_size(kind) * rows) as usize,
                    ) {
                        Err(_) => Err(unread(kind, TreePart::Rows(column as usize))),
                        Ok(cells) => match overlay(board, kind, column as int, cells, rows as nat) {
                            Err(error) => Err(error),
                            Ok(written) => columns_from(target, written, kind, pointers, column + 1),
                        },
                    }
                }
            },
        }
    }
}

/// The pointers to the column elements that a table of pointers holds.
pub open spec fn pointers_in(table: Seq<u8>, columns: nat) -> Seq<u64> {
    Seq::new(columns, |i: int| u64_at(table, POINTER_SIZE * i))
}

/// The board after the element tree at `root` has been written on it.
pub open spec fn tree_board(target: Target, board: BoardView, kind: TreeKind, root: u64) -> Result<
    BoardView,
    Error,
> {
    match read(target, root, ELEMENT_SIZE) {
        Err(_) => Err(unread(kind, TreePart::Root)),
        Ok(element) => {
            let columns = u32_at(element, 0) as usize;
            if POINTER_SIZE * columns > usize::MAX {
                Err(oversized(kind, TreePart::ColumnPointers))
            } else {
                match read(
                    target,
                    u64_at(element, ELEMENT_CHILDREN as int),
                    (POINTER_SIZE * columns) as usize,
                ) {
                    Err(_) => Err(unread(kind, TreePart::ColumnPointers)),
                    Ok(table) => columns_from(
                        target,
                        board,
                        kind,
                        pointers_in(table, columns as nat),
                        0,
                    ),
                }
            }
        },
    }
}

/// From the turn to column `column` on, the walk ends with the board on
/// which the columns from there on have been written.
pub proof fn lemma_columns_run(target: Target, reader: TreeReaderView, column: nat) -> (steps: nat)
    requires
        reader.memory is Process,
        reader.board.wf(),
        column <= reader.pointers.len() <= usize::MAX,
    ensures
        run(reader.turn_to(column as int), target, steps) == ended::<TreeReaderView>(
            columns_from(target, reader.board, reader.kind, reader.pointers, column),
        ),
    decreases reader.pointers.len() - column,
{
    let start = reader.turn_to(column as int);
    let kind = reader.kind;
    if column >= reader.pointers.len() {
        0
    } else {
        assert(run(start, target, 0) == start);
        assert(run(start, target, 1) == advance(start, target));
        assert(run(start, target, 2) == advance(advance(start, target), target));
        match read(target, reader.pointers[column as int], ELEMENT_SIZE) {
            Err(_) => 1,
            Ok(element) => {
                let rows = u32_at(element, 0) as usize;
                if spec_cell_size(kind) * rows > usize::MAX {
                    1
                } else {
                    match read(
                        target,
                        u64_at(element, ELEMENT_CHILDREN as int),
                        (spec_cell_size(kind) * rows) as usize,
                    ) {
                        Err(_) => 2,
                        Ok(cells) => {
                            lemma_overlay(reader.board, kind, column as int, cells, rows as nat);
                            match overlay(reader.board, kind, column as int, cells, rows as nat) {
                                Err(error) => 2,
                                Ok(written) => {
                                    let then = TreeReaderView { board: written, ..reader };
                                    let waiting = TreeReaderView {
                                        stage: TreeStage::Rows { column: column as usize, rows },
                                        request: Request::Read {
                                            address: u64_at(element, ELEMENT_CHILDREN as int),
                                            size: (spec_cell_size(kind) * rows) as usize,
                                        },
                                        board: written,
                                        ..reader
                                    };
                                    let next = column as int + 1;
                                    assert(waiting.turn_to(next) == then.turn_to(next));
                                    let rest = lemma_columns_run(target, then, column + 1);
                                    lemma_run_in_two(start, target, 2, rest);
                                    2 + rest
                                },
                            }
                        },
                    }
                }
            },
        }
    }
}

/// The walk of an element tree ends, and it ends with the board on which
/// the tree has been written.
pub proof fn lemma_walk_run(
    target: Target,
    memory: MemoryHandle,
    board: BoardView,
    root: u64,
    kind: TreeKind,
) -> (steps: nat)
    requires
        memory is Process,
        board.wf(),
    ensures
        run(Step::Pending(TreeReaderView::start(memory, board, root, kind)), target, steps)
            == ended::<TreeReaderView>(tree_board(target, board, kind, root)),
{
    let reader = TreeReaderView::start(memory, board, root, kind);
    let start = Step::<TreeReaderView, BoardView>::Pending(reader);
    assert(run(start, target, 0) == start);
    assert(run(start, target, 1) == advance(start, target));
    assert(run(start, target, 2) == advance(advance(start, target), target));
    match read(target, root, ELEMENT_SIZE) {
        Err(_) => 1,
        Ok(element) => {
            let columns = u32_at(element, 0) as usize;
            if POINTER_SIZE * columns > usize::MAX {
                1
            } else {
                match read(
                    target,
                    u64_at(element, ELEMENT_CHILDREN as int),
                    (POINTER_SIZE * columns) as usize,
                ) {
                    Err(_) => 2,
                    Ok(table) => {
                        let then = TreeReaderView {
                            pointers: pointers_in(table, columns as nat),
                            stage: TreeStage::ColumnPointers { columns },
                            request: Request::Read {
                                address: u64_at(element, ELEMENT_CHILDREN as int),
                                size: (POINTER_SIZE * columns) as usize,
                            },
                            ..reader
                        };
                        let rest = lemma_columns_run(target, then, 0);
                        lemma_run_in_two(start, target, 2, rest);
                        2 + rest
                    },
                }
            }
        },
    }
}

/// Writing a tree on a board leaves the board its shape.
pub proof fn lemma_columns_keep_the_shape(
    target: Target,
    board: BoardView,
    kind: TreeKind,
    pointers: Seq<u64>,
    column: nat,
)
    requires
        board.wf(),
        pointers.len() <= usize::MAX,
    ensures
        columns_from(target, board, kind, pointers, column) matches Ok(written) ==> {
            &&& written.wf()
            &&& written.rows == board.rows
            &&& written.columns == board.columns
            &&& written.mines == board.mines
        },
    decreases pointers.len() - column,
{
    if column < pointers.len() {
        match read(target, pointers[column as int], ELEMENT_SIZE) {
            Err(_) => {},
            Ok(element) => {
                let rows = u32_at(element, 0) as usize;
                if spec_cell_size(kind) * rows <= usize::MAX {
                    match read(
                        target,
                        u64_at(element, ELEMENT_CHILDREN as int),
                        (spec_cell_size(kind) * rows) as usize,
                    ) {
                        Err(_) => {},
                        Ok(cells) => {
                            lemma_overlay(board, kind, column as int, cells, rows as nat);
                            match overlay(board, kind, column as int, cells, rows as nat) {
                                Err(_) => {},
                                Ok(written) => {
                                    lemma_columns_keep_the_shape(
                                        target,
                                        written,
                                        kind,
                                        pointers,
                                        column + 1,
                                    );
                                },
                            }
                        },
                    }
                }
            },
        }
    }
}

/// Writing a tree on a board leaves the board its shape.
pub proof fn lemma_tree_keeps_the_shape(target: Target, board: BoardView, kind: TreeKind, root: u64)
    requires
        board.wf(),
    ensures
        tree_board(target, board, kind, root) matches Ok(written) ==> {
            &&& written.wf()
            &&& written.rows == board.rows
            &&& written.columns == board.columns
            &&& written.mines == board.mines
        },
{
    match read(target, root, ELEMENT_SIZE) {
        Err(_) => {},
        Ok(element) => {
            let columns = u32_at(element, 0) as usize;
            if POINTER_SIZE * columns <= usize::MAX {
                match read(
                    target,
                    u64_at(element, ELEMENT_CHILDREN as int),
                    (POINTER_SIZE * columns) as usize,
                ) {
                    Err(_) => {},
                    Ok(table) => {
                        lemma_columns_keep_the_shape(
                            target,
                            board,
                            kind,
                            pointers_in(table, columns as nat),
                            0,
                        );
                    },
                }
            }
        },
    }
}

/// The decoder while it walks a tree: the first tree where the root of the
/// second is still kept, the second otherwise.
pub open spec fn walking(
    memory: MemoryHandle,
    tree: TreeReaderView,
    mines: Option<u64>,
) -> BoardReaderView {
    BoardReaderView {
        memory,
        stage: match mines {
            Some(mines) => Stage::Revealed { tree, mines },
            None => Stage::Mines { tree },
        },
    }
}

/// Where the decoder stands when the walk of a tree has ended: behind the
/// first tree comes the second, behind the second the board is done.
pub open spec fn walked(
    memory: MemoryHandle,
    end: Step<TreeReaderView, BoardView>,
    mines: Option<u64>,
) -> Step<BoardReaderView, BoardView> {
    match end {
        Step::Pending(tree) => Step::Pending(walking(memory, tree, mines)),
        Step::Done(board) => match mines {
            Some(root) => Step::Pending(
                walking(memory, TreeReaderView::start(memory, board, root, TreeKind::Hidden), None),
            ),
            None => Step::Done(board),
        },
        Step::Failed(error) => Step::Failed(error),
    }
}

/// While the walk of a tree goes on, the decoder goes with it.
proof fn lemma_decoder_follows_walk(
    target: Target,
    memory: MemoryHandle,
    tree: TreeReaderView,
    mines: Option<u64>,
    steps: nat,
)
    requires
        run(Step::Pending(tree), target, steps) is Pending,
    ensures
        run(Step::Pending(walking(memory, tree, mines)), target, steps) == walked(
            memory,
            run(Step::Pending(tree), target, steps),
            mines,
        ),
    decreases steps,
{
    if steps > 0 {
        lemma_decoder_follows_walk(target, memory, tree, mines, (steps - 1) as nat);
    }
}

/// When the walk of a tree ends, the decoder moves on.
proof fn lemma_decoder_leaves_walk(
    target: Target,
    memory: MemoryHandle,
    tree: TreeReaderView,
    mines: Option<u64>,
    steps: nat,
) -> (last: nat)
    requires
        !(run(Step::Pending(tree), target, steps) is Pending),
    ensures
        run(Step::Pending(walking(memory, tree, mines)), target, last) == walked(
            memory,
            run(Step::Pending(tree), target, steps),
            mines,
        ),
{
    let last = lemma_last_step(Step::Pending(tree), target, steps);
    lemma_decoder_follows_walk(target, memory, tree, mines, (last - 1) as nat);
    last
}

/// The board that a board record describes: the empty board that it
/// announces, with the tree of what the squares show written on it, and
/// then the tree of mines. A record that announces a board larger than the
/// game's window describes none.
pub open spec fn board_of_record(target: Target, record: Seq<u8>) -> Result<BoardView, Error> {
    if !fits_the_window(record) {
        Err(Error::InvalidBoardDimensions)
    } else {
        match tree_board(
            target,
            announced(record),
            TreeKind::Revealed,
            u64_at(record, RECORD_REVEALED as int),
        ) {
            Err(error) => Err(error),
            Ok(board) => tree_board(
                target,
                board,
                TreeKind::Hidden,
                u64_at(record, RECORD_HIDDEN as int),
            ),
        }
    }
}

/// The board of the board record at `address`.
pub open spec fn board_at(target: Target, address: u64) -> Result<BoardView, Error> {
    match read(target, address, BOARD_RECORD_SIZE) {
        Err(error) => Err(error),
        Ok(record) => board_of_record(target, record),
    }
}

/// The board of the game record at `address`.
pub open spec fn game_at(target: Target, address: u64) -> Result<BoardView, Error> {
    match read(target, address, GAME_SIZE) {
        Err(error) => Err(error),
        Ok(game) => board_at(target, u64_at(game, GAME_BOARD as int)),
    }
}

/// The board of the game that the pointer at `address` leads to.
pub open spec fn singleton_at(target: Target, address: u64) -> Result<BoardView, Error> {
    match read(target, address, POINTER_SIZE) {
        Err(error) => Err(error),
        Ok(pointer) => game_at(target, u64_at(pointer, 0)),
    }
}

/// The board of the game whose pointer lies at the target of the call
/// with the displacement field at `field`.
pub open spec fn call_at(target: Target, field: u64) -> Result<BoardView, Error> {
    match read(target, field, DISPLACEMENT_SIZE) {
        Err(error) => Err(error),
        Ok(displacement) => singleton_at(target, call_target(field, u32_at(displacement, 0))),
    }
}

/// The board of the game whose image of `size` bytes lies at `image_base`:
/// the first occurrence of the signature in the image leads to the call.
pub open spec fn image_at(target: Target, image_base: u64, size: u32) -> Result<BoardView, Error> {
    match read(target, image_base, size as usize) {
        Err(error) => Err(error),
        Ok(image) => match first_occurrence(image, get_singleton_signature()) {
            None => Err(Error::PatternNotFound),
            Some(offset) => call_at(target, displacement_field(image_base, offset)),
        },
    }
}

/// The board of the game whose image is loaded at `address`. The headers
/// say where the image prefers to lie and how large it is; a 32-bit image
/// is refused.
pub open spec fn loaded_at(target: Target, address: u64) -> Result<BoardView, Error> {
    match image_headers(target, address) {
        Err(error) => Err(error),
        Ok(ImageNtHeaders::X86(_)) => Err(Error::UnsupportedArchitecture),
        Ok(ImageNtHeaders::X64(headers)) => image_at(target, headers.image_base, headers.size_of_image),
    }
}

/// The board that the memory of the target describes.
pub open spec fn snapshot(target: Target) -> Result<BoardView, Error> {
    match environment_block(target) {
        Err(error) => Err(error),
        Ok(block) => loaded_at(target, block.image_base_address),
    }
}

/// The decoder in stage `stage`.
pub open spec fn decoder_at(memory: MemoryHandle, stage: Stage<TreeReaderView>) -> Step<
    BoardReaderView,
    BoardView,
> {
    Step::Pending(BoardReaderView { memory, stage })
}

/// From the board record on, the decoder ends with the board that the
/// record describes.
proof fn lemma_record_run(target: Target, memory: MemoryHandle, address: u64) -> (steps: nat)
    requires
        memory is Process,
    ensures
        run(decoder_at(memory, Stage::Record { address }), target, steps) == ended::<
            BoardReaderView,
        >(board_at(target, address)),
{
    let start = decoder_at(memory, Stage::Record { address });
    assert(run(start, target, 0) == start);
    assert(run(start, target, 1) == advance(start, target));
    match read(target, address, BOARD_RECORD_SIZE) {
        Err(_) => 1,
        Ok(record) => if !fits_the_window(record) {
            1
        } else {
            let revealed = u64_at(record, RECORD_REVEALED as int);
            let hidden = u64_at(record, RECORD_HIDDEN as int);
            let first = TreeReaderView::start(memory, announced(record), revealed, TreeKind::Revealed);
            let walk = lemma_walk_run(target, memory, announced(record), revealed, TreeKind::Revealed);
            let leave = lemma_decoder_leaves_walk(target, memory, first, Some(hidden), walk);
            lemma_run_in_two(start, target, 1, leave);
            lemma_tree_keeps_the_shape(target, announced(record), TreeKind::Revealed, revealed);
            match tree_board(target, announced(record), TreeKind::Revealed, revealed) {
                Err(_) => 1 + leave,
                Ok(board) => {
                    let second = TreeReaderView::start(memory, board, hidden, TreeKind::Hidden);
                    let walk = lemma_walk_run(target, memory, board, hidden, TreeKind::Hidden);
                    let end = lemma_decoder_leaves_walk(target, memory, second, None, walk);
                    lemma_run_in_two(start, target, 1 + leave, end);
                    1 + leave + end
                },
            }
        },
    }
}

/// From the game record on.
proof fn lemma_game_run(target: Target, memory: MemoryHandle, address: u64) -> (steps: nat)
    requires
        memory is Process,
    ensures
        run(decoder_at(memory, Stage::Game { address }), target, steps) == ended::<
            BoardReaderView,
        >(game_at(target, address)),
{
    let start = decoder_at(memory, Stage::Game { address });
    assert(run(start, target, 0) == start);
    assert(run(start, target, 1) == advance(start, target));
    match read(target, address, GAME_SIZE) {
        Err(_) => 1,
        Ok(game) => {
            let rest = lemma_record_run(target, memory, u64_at(game, GAME_BOARD as int));
            lemma_run_in_two(start, target, 1, rest);
            1 + rest
        },
    }
}

/// From the pointer to the game on.
proof fn lemma_singleton_run(target: Target, memory: MemoryHandle, address: u64) -> (steps: nat)
    requires
        memory is Process,
    ensures
        run(decoder_at(memory, Stage::Singleton { address }), target, steps) == ended::<
            BoardReaderView,
        >(singleton_at(target, address)),
{
    let start = decoder_at(memory, Stage::Singleton { address });
    assert(run(start, target, 0) == start);
    assert(run(start, target, 1) == advance(start, target));
    match read(target, address, POINTER_SIZE) {
        Err(_) => 1,
        Ok(pointer) => {
            let rest = lemma_game_run(target, memory, u64_at(pointer, 0));
            lemma_run_in_two(start, target, 1, rest);
            1 + rest
        },
    }
}

/// From the displacement field of the call on.
proof fn lemma_call_run(target: Target, memory: MemoryHandle, field: u64) -> (steps: nat)
    requires
        memory is Process,
    ensures
        run(decoder_at(memory, Stage::Displacement { field }), target, steps) == ended::<
            BoardReaderView,
        >(call_at(target, field)),
{
    let start = decoder_at(memory, Stage::Displacement { field });
    assert(run(start, target, 0) == start);
    assert(run(start, target, 1) == advance(start, target));
    match read(target, field, DISPLACEMENT_SIZE) {
        Err(_) => 1,
        Ok(displacement) => {
            let rest = lemma_singleton_run(
                target,
                memory,
                call_target(field, u32_at(displacement, 0)),
            );
            lemma_run_in_two(start, target, 1, rest);
            1 + rest
        },
    }
}

/// From the copy of the image on.
proof fn lemma_image_run(target: Target, memory: MemoryHandle, image_base: u64, size: u32) -> (steps:
    nat)
    requires
        memory is Process,
    ensures
        run(decoder_at(memory, Stage::Haystack { image_base, size }), target, steps) == ended::<
            BoardReaderView,
        >(image_at(target, image_base, size)),
{
    let start = decoder_at(memory, Stage::Haystack { image_base, size });
    assert(run(start, target, 0) == start);
    assert(run(start, target, 1) == advance(start, target));
    match read(target, image_base, size as usize) {
        Err(_) => 1,
        Ok(image) => match first_occurrence(image, get_singleton_signature()) {
            None => 1,
            Some(offset) => {
                let rest = lemma_call_run(target, memory, displacement_field(image_base, offset));
                lemma_run_in_two(start, target, 1, rest);
                1 + rest
            },
        },
    }
}

/// From the headers of the image on.
proof fn lemma_loaded_run(target: Target, memory: MemoryHandle, address: u64) -> (steps: nat)
    requires
        memory is Process,
    ensures
        run(
            decoder_at(memory, Stage::Headers(NtHeadersReader::Container { image_base: address })),
            target,
            steps,
        ) == ended::<BoardReaderView>(loaded_at(target, address)),
{
    let start = decoder_at(
        memory,
        Stage::Headers(NtHeadersReader::Container { image_base: address }),
    );
    assert(run(start, target, 0) == start);
    assert(run(start, target, 1) == advance(start, target));
    assert(run(start, target, 2) == advance(advance(start, target), target));
    assert(run(start, target, 3) == advance(advance(advance(start, target), target), target));
    match image_headers(target, address) {
        Err(_) => 3,
        Ok(ImageNtHeaders::X86(_)) => 3,
        Ok(ImageNtHeaders::X64(headers)) => {
            let rest = lemma_image_run(target, memory, headers.image_base, headers.size_of_image);
            lemma_run_in_two(start, target, 3, rest);
            3 + rest
        },
    }
}

/// Against a target whose memory does not change, the decoder comes to an
/// end, and the end is the board that the memory of the target describes,
/// or the failure to follow it there.
pub proof fn lemma_decoder_run(target: Target, memory: MemoryHandle) -> (steps: nat)
    requires
        memory is Process,
    ensures
        run(Step::Pending(BoardReaderView::start(memory)), target, steps) == ended::<
            BoardReaderView,
        >(snapshot(target)),
{
    let start = Step::<BoardReaderView, BoardView>::Pending(BoardReaderView::start(memory));
    assert(run(start, target, 0) == start);
    assert(run(start, target, 1) == advance(start, target));
    assert(run(start, target, 2) == advance(advance(start, target), target));
    match environment_block(target) {
        Err(_) => 2,
        Ok(block) => {
            let rest = lemma_loaded_run(target, memory, block.image_base_address);
            lemma_run_in_two(start, target, 2, rest);
            2 + rest
        },
    }
}

impl Reader for windows_xp::BoardReader {
    type Output = BoardView;

    open spec fn asks(self) -> Request {
        self.spec_request()
    }

    open spec fn after(self, outcome: Option<Seq<u8>>) -> Step<windows_xp::BoardReader, BoardView> {
        self.next(outcome)
    }
}

impl Reader for DecoderView {
    type Output = ClosingView;

    open spec fn asks(self) -> Request {
        self.request()
    }

    open spec fn after(self, outcome: Option<Seq<u8>>) -> Step<DecoderView, ClosingView> {
        self.next(outcome)
    }
}

/// The board that the buffer at its fixed address in the target shows.
pub open spec fn fixed_buffer_board(target: Target) -> Result<BoardView, Error> {
    match read(target, windows_xp::WINXP_BOARD_ADDRESS, windows_xp::RECORD_SIZE) {
        Ok(record) => windows_xp::decoding(record),
        Err(error) => Err(error),
    }
}

/// The decoder of the fixed buffer ends after one step, with the board
/// that the buffer shows.
pub proof fn lemma_fixed_buffer_run(target: Target)
    ensures
        run(Step::Pending(windows_xp::BoardReader {  }), target, 1) == ended::<
            windows_xp::BoardReader,
        >(fixed_buffer_board(target)),
{
    let start = Step::<windows_xp::BoardReader, BoardView>::Pending(windows_xp::BoardReader {  });
    assert(run(start, target, 0) == start);
    assert(run(start, target, 1) == advance(start, target));
}

/// What a session with a game of `version` reports.
pub open spec fn report(target: Target, version: Version) -> Result<ReportView, Error> {
    let board = match version {
        Version::WindowsXP => fixed_buffer_board(target),
        Version::Windows7 => snapshot(target),
    };
    match board {
        Ok(board) => Ok(ReportView { version, board }),
        Err(error) => Err(error),
    }
}

/// While the decoder of the Windows 7 game goes on, the session goes with
/// it.
proof fn lemma_session_follows_decoder(
    target: Target,
    handle: isize,
    reader: BoardReaderView,
    steps: nat,
)
    requires
        run(Step::Pending(reader), target, steps) is Pending,
    ensures
        run(Step::Pending(DecoderView { handle, reader: VersionReader::Windows7(reader) }), target, steps)
            == Step::<DecoderView, ClosingView>::Pending(
            DecoderView {
                handle,
                reader: VersionReader::Windows7(run(Step::Pending(reader), target, steps)->Pending_0),
            },
        ),
    decreases steps,
{
    if steps > 0 {
        lemma_session_follows_decoder(target, handle, reader, (steps - 1) as nat);
    }
}

/// Against a target whose memory does not change, the work on an opened
/// game comes to an end, the end is the closing of the handle that the
/// game was opened with, and behind it lies what the memory of the target
/// describes.
pub proof fn lemma_session_run(target: Target, version: Version, handle: isize) -> (steps: nat)
    ensures
        run(Step::Pending(DecoderView::start(version, handle)), target, steps) == Step::<
            DecoderView,
            ClosingView,
        >::Done(ClosingView { handle, result: report(target, version) }),
{
    let start = Step::<DecoderView, ClosingView>::Pending(DecoderView::start(version, handle));
    assert(run(start, target, 0) == start);
    match version {
        Version::WindowsXP => {
            assert(run(start, target, 1) == advance(start, target));
            1
        },
        Version::Windows7 => {
            let memory = MemoryHandle::Process(handle);
            let reader = BoardReaderView::start(memory);
            let end = lemma_decoder_run(target, memory);
            let last = lemma_last_step(Step::Pending(reader), target, end);
            lemma_session_follows_decoder(target, handle, reader, (last - 1) as nat);
            last
        },
    }
}

} // verus!
