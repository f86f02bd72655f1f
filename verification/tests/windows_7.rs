use mimisweep::error::{Error, ReadFault, TreeKind, TreePart};
use mimisweep::grid::{Board, CellToken};
use mimisweep::memory::{MemoryHandle, Request, Step};
use mimisweep::session::{Opening, Version};
use mimisweep::versions::windows_7::{
    board, cell_size, lookup, parse_raw_board, BoardReader, TreeReader, TreeStage,
};

const SIGNATURE: [u8; 14] =
    [0x48, 0x89, 0x44, 0x24, 0x70, 0x48, 0x85, 0xc0, 0x74, 0x0a, 0x48, 0x8b, 0xc8, 0xe8];

const PEB: u64 = 0x0000_0000_7efd_e000;
const IMAGE: u64 = 0x0000_0000_ff5a_0000;
const IMAGE_SIZE: u32 = 0x400;
const MATCH: u64 = 0x200;
const DISPLACEMENT: u32 = 0x0009_0000;
const SINGLETON: u64 = IMAGE + MATCH - 21 + 5 + DISPLACEMENT as u64;
const GAME: u64 = 0x0000_0000_0250_0000;
const RECORD: u64 = 0x0000_0000_0250_1000;
const REVEALED: u64 = 0x0000_0000_0260_0000;
const HIDDEN: u64 = 0x0000_0000_0270_0000;

struct Region {
    base: u64,
    bytes: Vec<u8>,
}

struct Target {
    information: Option<Vec<u8>>,
    regions: Vec<Region>,
}

impl Target {
    fn put(&mut self, base: u64, bytes: Vec<u8>) {
        self.regions.retain(|region| region.base != base);
        self.regions.push(Region { base, bytes });
    }

    fn patch(&mut self, base: u64, at: usize, bytes: &[u8]) {
        for region in &mut self.regions {
            if region.base == base {
                region.bytes[at..at + bytes.len()].copy_from_slice(bytes);
                return;
            }
        }
        panic!("no region at {:#x}", base);
    }

    fn remove(&mut self, base: u64) {
        self.regions.retain(|region| region.base != base);
    }

    fn serve(&self, request: Request) -> Option<Vec<u8>> {
        match request {
            Request::BasicInformation { .. } => self.information.clone(),
            Request::Read { address, size } => {
                for region in &self.regions {
                    let end = region.base + region.bytes.len() as u64;
                    if region.base <= address && address + size as u64 <= end {
                        let start = (address - region.base) as usize;
                        return Some(region.bytes[start..start + size].to_vec());
                    }
                }
                None
            }
        }
    }
}

fn element(count: u32, children: u64) -> Vec<u8> {
    let mut bytes = vec![0xeeu8; 32];
    bytes[0..4].copy_from_slice(&count.to_le_bytes());
    bytes[16..24].copy_from_slice(&children.to_le_bytes());
    bytes
}

fn plant_tree(target: &mut Target, root: u64, columns: &[Vec<u8>], cell: usize) {
    let pointers = root + 0x100;
    target.put(root, element(columns.len() as u32, pointers));
    let mut table = Vec::new();
    for (c, cells) in columns.iter().enumerate() {
        let column = root + 0x1000 + 0x100 * c as u64;
        let rows = column + 0x20;
        table.extend_from_slice(&column.to_le_bytes());
        target.put(column, element((cells.len() / cell) as u32, rows));
        target.put(rows, cells.clone());
    }
    target.put(pointers, table);
}

fn revealed_column(indices: &[u32]) -> Vec<u8> {
    indices.iter().flat_map(|index| index.to_le_bytes()).collect()
}

fn game(rows: u32, columns: u32, mines: u32, revealed: &[Vec<u32>], hidden: &[Vec<u8>]) -> Target {
    let mut target = Target { information: None, regions: Vec::new() };
    let mut information = vec![0u8; 48];
    information[8..16].copy_from_slice(&PEB.to_le_bytes());
    target.information = Some(information);
    let mut block = vec![0u8; 40];
    block[16..24].copy_from_slice(&IMAGE.to_le_bytes());
    target.put(PEB, block);
    let mut image = vec![0x90u8; IMAGE_SIZE as usize];
    image[0] = 0x4d;
    image[1] = 0x5a;
    image[60..64].copy_from_slice(&0x80u32.to_le_bytes());
    image[0x80..0x84].copy_from_slice(&0x4550u32.to_le_bytes());
    image[0x84..0x86].copy_from_slice(&0x8664u16.to_le_bytes());
    image[0x80 + 48..0x80 + 56].copy_from_slice(&IMAGE.to_le_bytes());
    image[0x80 + 80..0x80 + 84].copy_from_slice(&IMAGE_SIZE.to_le_bytes());
    let at = MATCH as usize;
    image[at..at + 14].copy_from_slice(&SIGNATURE);
    image[at - 21..at - 17].copy_from_slice(&DISPLACEMENT.to_le_bytes());
    target.put(IMAGE, image);
    target.put(SINGLETON, GAME.to_le_bytes().to_vec());
    let mut record = vec![0x77u8; 32];
    record[24..32].copy_from_slice(&RECORD.to_le_bytes());
    target.put(GAME, record);
    let mut record = vec![0x66u8; 104];
    record[8..12].copy_from_slice(&mines.to_le_bytes());
    record[12..16].copy_from_slice(&rows.to_le_bytes());
    record[16..20].copy_from_slice(&columns.to_le_bytes());
    record[80..88].copy_from_slice(&REVEALED.to_le_bytes());
    record[88..96].copy_from_slice(&HIDDEN.to_le_bytes());
    target.put(RECORD, record);
    let columns: Vec<Vec<u8>> = revealed.iter().map(|column| revealed_column(column)).collect();
    plant_tree(&mut target, REVEALED, &columns, 4);
    plant_tree(&mut target, HIDDEN, hidden, 1);
    target
}

fn run(target: &Target) -> Result<Board, Error> {
    let mut reader: BoardReader = board(MemoryHandle::Process(0x44)).unwrap();
    for _ in 0..10_000 {
        let outcome = target.serve(reader.request());
        match reader.resume(outcome) {
            Step::Pending(next) => reader = next,
            Step::Done(board) => return Ok(board),
            Step::Failed(error) => return Err(error),
        }
    }
    panic!("the decoder does not come to an end");
}

fn walk(target: &Target, mut reader: TreeReader) -> Result<Board, Error> {
    for _ in 0..10_000 {
        let outcome = target.serve(reader.request());
        match reader.resume(outcome) {
            Step::Pending(next) => reader = next,
            Step::Done(board) => return Ok(board),
            Step::Failed(error) => return Err(error),
        }
    }
    panic!("the walk does not come to an end");
}

fn small_game() -> Target {
    game(
        3,
        2,
        2,
        &[vec![0, 1, 9], vec![10, 11, 12]],
        &[vec![0, 0, 1], vec![1, 0, 0]],
    )
}

#[test]
fn display_table() {
    for index in 0..=8u32 {
        assert_eq!(lookup(index), CellToken::Digit(index as u8));
    }
    assert_eq!(lookup(9), CellToken::Unexplored);
    assert_eq!(lookup(10), CellToken::Flag);
    assert_eq!(lookup(11), CellToken::QuestionMark);
    assert_eq!(lookup(12), CellToken::Empty);
    assert_eq!(lookup(13), CellToken::Unexpected);
    assert_eq!(lookup(14), CellToken::Unknown);
    assert_eq!(lookup(15), CellToken::Unknown);
    assert_eq!(lookup(u32::MAX), CellToken::Unknown);
    assert_eq!(cell_size(TreeKind::Revealed), 4);
    assert_eq!(cell_size(TreeKind::Hidden), 1);
}

#[test]
fn parts_of_a_tree() {
    assert_eq!(TreeStage::Root.part(), TreePart::Root);
    assert_eq!(TreeStage::ColumnPointers { columns: 4 }.part(), TreePart::ColumnPointers);
    assert_eq!(TreeStage::Column { column: 3 }.part(), TreePart::Column(3));
    assert_eq!(TreeStage::Rows { column: 3, rows: 9 }.part(), TreePart::Rows(3));
}

#[test]
fn a_whole_game_is_decoded() {
    let board = run(&small_game()).unwrap();
    assert_eq!(board.rows(), 3);
    assert_eq!(board.columns(), 2);
    assert_eq!(board.mines(), 2);
    assert_eq!(board.get(0, 0), Some(CellToken::Digit(0)));
    assert_eq!(board.get(1, 0), Some(CellToken::Digit(1)));
    assert_eq!(board.get(2, 0), Some(CellToken::Mine));
    assert_eq!(board.get(0, 1), Some(CellToken::Mine));
    assert_eq!(board.get(1, 1), Some(CellToken::QuestionMark));
    assert_eq!(board.get(2, 1), Some(CellToken::Empty));
}

#[test]
fn the_requests_follow_the_chain() {
    let target = small_game();
    let mut reader = board(MemoryHandle::Process(0x44)).unwrap();
    let expected = [
        Request::BasicInformation { size: 48 },
        Request::Read { address: PEB, size: 40 },
        Request::Read { address: IMAGE, size: 64 },
        Request::Read { address: IMAGE + 0x80, size: 24 },
        Request::Read { address: IMAGE + 0x80, size: 264 },
        Request::Read { address: IMAGE, size: IMAGE_SIZE as usize },
        Request::Read { address: IMAGE + MATCH - 21, size: 4 },
        Request::Read { address: SINGLETON, size: 8 },
        Request::Read { address: GAME, size: 32 },
        Request::Read { address: RECORD, size: 104 },
        Request::Read { address: REVEALED, size: 32 },
        Request::Read { address: REVEALED + 0x100, size: 16 },
        Request::Read { address: REVEALED + 0x1000, size: 32 },
        Request::Read { address: REVEALED + 0x1020, size: 12 },
        Request::Read { address: REVEALED + 0x1100, size: 32 },
        Request::Read { address: REVEALED + 0x1120, size: 12 },
        Request::Read { address: HIDDEN, size: 32 },
        Request::Read { address: HIDDEN + 0x100, size: 16 },
        Request::Read { address: HIDDEN + 0x1000, size: 32 },
        Request::Read { address: HIDDEN + 0x1020, size: 3 },
        Request::Read { address: HIDDEN + 0x1100, size: 32 },
        Request::Read { address: HIDDEN + 0x1120, size: 3 },
    ];
    for (number, request) in expected.iter().enumerate() {
        assert_eq!(reader.request(), *request);
        match reader.resume(target.serve(*request)) {
            Step::Pending(next) => reader = next,
            Step::Done(_) => {
                assert_eq!(number, expected.len() - 1);
                return;
            }
            Step::Failed(error) => panic!("request {} failed: {:?}", number, error),
        }
    }
    panic!("the decoder asks for more");
}

#[test]
fn the_call_target_counts_from_the_end_of_the_field() {
    let mut target = small_game();
    target.patch(IMAGE, MATCH as usize - 21, &0u32.to_le_bytes());
    target.remove(SINGLETON);
    target.patch(IMAGE, MATCH as usize - 16, &GAME.to_le_bytes());
    assert!(run(&target).is_ok());
}

#[test]
fn a_negative_displacement_leads_back() {
    let target = small_game();
    let mut reader = board(MemoryHandle::Process(0x44)).unwrap();
    for _ in 0..6 {
        let outcome = target.serve(reader.request());
        reader = match reader.resume(outcome) {
            Step::Pending(next) => next,
            _ => panic!("the decoder ends early"),
        };
    }
    let field = IMAGE + MATCH - 21;
    assert_eq!(reader.request(), Request::Read { address: field, size: 4 });
    let reader = match reader.resume(Some((-5i32).to_le_bytes().to_vec())) {
        Step::Pending(next) => next,
        _ => panic!("the decoder ends early"),
    };
    assert_eq!(reader.request(), Request::Read { address: field, size: 8 });
}

#[test]
fn a_negative_displacement_is_followed_to_the_board() {
    let mut target = small_game();
    let back: i32 = -0x100;
    target.patch(IMAGE, MATCH as usize - 21, &back.to_le_bytes());
    target.remove(SINGLETON);
    let pointer = MATCH as usize - 21 + 5 - 0x100;
    target.patch(IMAGE, pointer, &GAME.to_le_bytes());
    let mut reader = board(MemoryHandle::Process(0x44)).unwrap();
    let mut asked = Vec::new();
    let board = loop {
        let request = reader.request();
        asked.push(request);
        match reader.resume(target.serve(request)) {
            Step::Pending(next) => reader = next,
            Step::Done(board) => break board,
            Step::Failed(error) => panic!("the decoder failed: {:?}", error),
        }
    };
    assert_eq!(asked[7], Request::Read { address: IMAGE + pointer as u64, size: 8 });
    assert_eq!(board.rows(), 3);
    assert_eq!(board.get(2, 0), Some(CellToken::Mine));
}

#[test]
fn the_displacement_is_signed_at_its_extremes() {
    for (displacement, delta) in [
        (0x7fff_ffffu32, 0x7fff_ffffi64),
        (0x8000_0000, -0x8000_0000),
        (0xffff_ffff, -1),
        (0, 0),
    ] {
        let mut target = small_game();
        target.patch(IMAGE, MATCH as usize - 21, &displacement.to_le_bytes());
        let mut reader = board(MemoryHandle::Process(0x44)).unwrap();
        for _ in 0..7 {
            let outcome = target.serve(reader.request());
            reader = match reader.resume(outcome) {
                Step::Pending(next) => next,
                _ => panic!("the decoder ends early"),
            };
        }
        let expected = (IMAGE + MATCH - 21 + 5).wrapping_add_signed(delta);
        assert_eq!(reader.request(), Request::Read { address: expected, size: 8 });
    }
}

#[test]
fn a_board_larger_than_the_window_is_refused() {
    for (rows, columns) in [(25u32, 30u32), (24, 31), (u32::MAX, 9), (9, u32::MAX), (u32::MAX, u32::MAX)] {
        let target = game(rows, columns, 10, &[], &[]);
        assert_eq!(run(&target).err(), Some(Error::InvalidBoardDimensions));
    }
}

#[test]
fn a_board_as_large_as_the_window_is_decoded() {
    let revealed: Vec<Vec<u32>> = (0..30).map(|c| (0..24).map(|r| (r + c) % 9).collect()).collect();
    let hidden: Vec<Vec<u8>> = (0..30).map(|_| vec![0u8; 24]).collect();
    let target = game(24, 30, 99, &revealed, &hidden);
    let board = run(&target).unwrap();
    assert_eq!(board.rows(), 24);
    assert_eq!(board.columns(), 30);
    assert_eq!(board.mines(), 99);
    for r in 0..24usize {
        for c in 0..30usize {
            assert_eq!(board.get(r, c), Some(CellToken::Digit(((r + c) % 9) as u8)));
        }
    }
}

#[test]
fn the_first_match_of_the_signature_counts() {
    let mut target = small_game();
    target.patch(IMAGE, 0x300, &SIGNATURE);
    assert!(run(&target).is_ok());
    target.patch(IMAGE, 0x120, &SIGNATURE);
    let field = IMAGE + 0x120 - 21;
    assert_eq!(
        run(&target).err(),
        Some(Error::MemoryRead { address: field + 5 - 0x6f6f_6f70, size: 8 })
    );
}

#[test]
fn a_missing_signature_is_reported_as_such() {
    let mut target = small_game();
    target.patch(IMAGE, MATCH as usize + 13, &[0xe9]);
    assert_eq!(run(&target).err(), Some(Error::PatternNotFound));
}

#[test]
fn a_32_bit_image_is_not_supported() {
    let mut target = small_game();
    target.patch(IMAGE, 0x84, &0x014cu16.to_le_bytes());
    assert_eq!(run(&target).err(), Some(Error::UnsupportedArchitecture));
}

#[test]
fn a_corrupted_image_is_rejected() {
    let mut target = small_game();
    target.patch(IMAGE, 0, &[0x4d, 0x5b]);
    assert_eq!(run(&target).err(), Some(Error::InvalidImageSignature));
    let mut target = small_game();
    target.patch(IMAGE, 0x80, &[0x50, 0x45, 0x01, 0x00]);
    assert_eq!(run(&target).err(), Some(Error::InvalidImageSignature));
}

#[test]
fn failed_reads_on_the_way_to_the_board() {
    let mut target = small_game();
    target.information = None;
    assert_eq!(run(&target).err(), Some(Error::ProcessQueryFailed));
    for (base, size) in [(PEB, 40), (IMAGE, 64), (SINGLETON, 8), (GAME, 32), (RECORD, 104)] {
        let mut target = small_game();
        target.remove(base);
        assert_eq!(run(&target).err(), Some(Error::MemoryRead { address: base, size }));
    }
    let mut target = small_game();
    let image = target.serve(Request::Read { address: IMAGE, size: 0x200 }).unwrap();
    target.put(IMAGE, image);
    assert_eq!(
        run(&target).err(),
        Some(Error::MemoryRead { address: IMAGE, size: IMAGE_SIZE as usize })
    );
}

#[test]
fn failed_reads_in_the_trees_name_the_part() {
    let cases = [
        (REVEALED, TreeKind::Revealed, TreePart::Root),
        (REVEALED + 0x100, TreeKind::Revealed, TreePart::ColumnPointers),
        (REVEALED + 0x1000, TreeKind::Revealed, TreePart::Column(0)),
        (REVEALED + 0x1120, TreeKind::Revealed, TreePart::Rows(1)),
        (HIDDEN, TreeKind::Hidden, TreePart::Root),
        (HIDDEN + 0x100, TreeKind::Hidden, TreePart::ColumnPointers),
        (HIDDEN + 0x1100, TreeKind::Hidden, TreePart::Column(1)),
        (HIDDEN + 0x1020, TreeKind::Hidden, TreePart::Rows(0)),
    ];
    for (base, tree, part) in cases {
        let mut target = small_game();
        target.remove(base);
        assert_eq!(
            run(&target).err(),
            Some(Error::StructureRead { tree, part, fault: ReadFault::Transfer })
        );
    }
}

#[test]
fn cells_outside_the_board_fail() {
    let target = game(2, 2, 0, &[vec![0, 1, 9], vec![1, 1]], &[vec![0, 0], vec![0, 0]]);
    assert_eq!(run(&target).err(), Some(Error::IndexOutOfBounds { row: 2, column: 0 }));
    let target = game(2, 1, 0, &[vec![0, 1], vec![1, 1]], &[vec![0, 0]]);
    assert_eq!(run(&target).err(), Some(Error::IndexOutOfBounds { row: 0, column: 1 }));
    let target = game(0, 1, 0, &[vec![5]], &[vec![]]);
    assert_eq!(run(&target).err(), Some(Error::IndexOutOfBounds { row: 0, column: 0 }));
}

#[test]
fn mines_outside_the_board_fail_and_other_cells_do_not() {
    let target = game(2, 2, 0, &[vec![0, 1], vec![1, 1]], &[vec![0, 0, 0, 0], vec![0, 0]]);
    assert!(run(&target).is_ok());
    let target = game(2, 2, 0, &[vec![0, 1], vec![1, 1]], &[vec![0, 0, 0, 7], vec![0, 0]]);
    assert_eq!(run(&target).err(), Some(Error::IndexOutOfBounds { row: 3, column: 0 }));
    let target = game(2, 2, 0, &[vec![0, 1], vec![1, 1]], &[vec![0, 0], vec![0, 0], vec![0, 0]]);
    assert!(run(&target).is_ok());
    let target = game(2, 2, 0, &[vec![0, 1], vec![1, 1]], &[vec![0, 0], vec![0, 0], vec![0, 1]]);
    assert_eq!(run(&target).err(), Some(Error::IndexOutOfBounds { row: 1, column: 2 }));
}

#[test]
fn the_tree_of_mines_only_marks() {
    let target = game(2, 2, 1, &[vec![3, 9]], &[vec![0xff], vec![0, 0x01]]);
    let board = run(&target).unwrap();
    assert_eq!(board.get(0, 0), Some(CellToken::Mine));
    assert_eq!(board.get(1, 0), Some(CellToken::Unexplored));
    assert_eq!(board.get(0, 1), Some(CellToken::Blank));
    assert_eq!(board.get(1, 1), Some(CellToken::Mine));
}

#[test]
fn unknown_indices_are_tolerated() {
    let target = game(1, 3, 0, &[vec![13], vec![14], vec![0xdead_beef]], &[]);
    let board = run(&target).unwrap();
    assert_eq!(board.get(0, 0), Some(CellToken::Unexpected));
    assert_eq!(board.get(0, 1), Some(CellToken::Unknown));
    assert_eq!(board.get(0, 2), Some(CellToken::Unknown));
}

#[test]
fn trees_without_columns_leave_the_board_blank() {
    let target = game(2, 2, 5, &[], &[]);
    let board = run(&target).unwrap();
    assert_eq!(board.mines(), 5);
    for r in 0..2 {
        for c in 0..2 {
            assert_eq!(board.get(r, c), Some(CellToken::Blank));
        }
    }
}

#[test]
fn a_walk_writes_on_the_board_it_is_given() {
    let mut target = Target { information: None, regions: Vec::new() };
    plant_tree(&mut target, HIDDEN, &[vec![0, 1], vec![0, 0], vec![1, 0]], 1);
    let mut given = Board::new(2, 3, 0);
    given.insert(CellToken::Flag, 0, 0).unwrap();
    given.insert(CellToken::Flag, 1, 0).unwrap();
    let reader = parse_raw_board(&MemoryHandle::Process(1), given, HIDDEN, TreeKind::Hidden).unwrap();
    assert_eq!(reader.request(), Request::Read { address: HIDDEN, size: 32 });
    let board = walk(&target, reader).unwrap();
    assert_eq!(board.get(0, 0), Some(CellToken::Flag));
    assert_eq!(board.get(1, 0), Some(CellToken::Mine));
    assert_eq!(board.get(0, 1), Some(CellToken::Blank));
    assert_eq!(board.get(1, 1), Some(CellToken::Blank));
    assert_eq!(board.get(0, 2), Some(CellToken::Mine));
    assert_eq!(board.get(1, 2), Some(CellToken::Blank));
}

#[test]
fn the_win7_decoder_needs_a_process() {
    for memory in [MemoryHandle::Own, MemoryHandle::File(1), MemoryHandle::Kernel(1), MemoryHandle::Dump] {
        assert!(matches!(board(memory), Err(Error::Unsupported)));
        assert!(matches!(
            parse_raw_board(&memory, Board::new(1, 1, 0), 0, TreeKind::Revealed),
            Err(Error::Unsupported)
        ));
    }
}

#[test]
fn a_session_with_the_win7_game_reports_the_board() {
    let target = small_game();
    let mut decoder = (Opening { version: Version::Windows7, pid: 99 }).resume(Some(0x1c4)).unwrap();
    let mut fetched = 0;
    let closing = loop {
        assert_eq!(decoder.handle(), 0x1c4);
        let outcome = target.serve(decoder.request());
        fetched += 1;
        match decoder.resume(outcome) {
            Step::Pending(next) => decoder = next,
            Step::Done(closing) => break closing,
            Step::Failed(error) => panic!("the work failed before the handle was closed: {:?}", error),
        }
    };
    assert_eq!(fetched, 22);
    assert_eq!(closing.handle(), 0x1c4);
    let report = closing.resume().unwrap();
    assert_eq!(report.version, Version::Windows7);
    assert_eq!(report.board.rows(), 3);
    assert_eq!(report.board.columns(), 2);
    assert_eq!(report.board.mines(), 2);
    assert_eq!(report.board.render(), "\t0 * \n\t1 ? \n\t*   \n");
}

#[test]
fn a_failing_session_with_the_win7_game_closes_the_handle() {
    let mut target = small_game();
    target.remove(HIDDEN + 0x1120);
    let mut decoder = (Opening { version: Version::Windows7, pid: 99 }).resume(Some(7)).unwrap();
    let closing = loop {
        let outcome = target.serve(decoder.request());
        match decoder.resume(outcome) {
            Step::Pending(next) => decoder = next,
            Step::Done(closing) => break closing,
            Step::Failed(error) => panic!("the work failed before the handle was closed: {:?}", error),
        }
    };
    assert_eq!(closing.handle(), 7);
    assert_eq!(
        closing.resume().err(),
        Some(Error::StructureRead {
            tree: TreeKind::Hidden,
            part: TreePart::Rows(1),
            fault: ReadFault::Transfer
        })
    );
}
