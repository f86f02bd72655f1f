//! The ways in which taking a snapshot of the game can fail.

use vstd::prelude::*;

verus! {

/// Which of the two element trees of the board record was being walked.
#[derive(Clone, Copy, Debug, PartialEq, Eq, Structural)]
pub enum TreeKind {
    /// The tree whose leaves say what each square currently shows.
    Revealed,
    /// The tree whose leaves say where the mines lie.
    Hidden,
}

/// The part of an element tree that could not be read.
#[derive(Clone, Copy, Debug, PartialEq, Eq, Structural)]
pub enum TreePart {
    /// The root element.
    Root,
    /// The array of column pointers that the root refers to.
    ColumnPointers,
    /// The element of the column with the given index.
    Column(usize),
    /// The cells of the column with the given index.
    Rows(usize),
}

/// Why a read of a tree part did not deliver its bytes.
#[derive(Clone, Copy, Debug, PartialEq, Eq, Structural)]
pub enum ReadFault {
    /// The transfer failed or came back short.
    Transfer,
    /// The size of the array does not fit the size arithmetic.
    Overflow,
}

/// A terminal failure. Nothing is retried: one bad read invalidates the
/// whole snapshot.
#[derive(Clone, Copy, Debug, PartialEq, Eq, Structural)]
pub enum Error {
    /// No running process carries one of the known game names.
    ProcessNotFound,
    /// The game process could not be opened for reading.
    HandleAcquisitionFailed,
    /// The kind of memory handle does not implement the operation.
    Unsupported,
    /// The system could not report where the process keeps its environment
    /// block, or reported a block of unexpected length.
    ProcessQueryFailed,
    /// The read of `size` bytes of the process's memory at `address` failed
    /// or delivered fewer bytes than were asked for.
    MemoryRead { address: u64, size: usize },
    /// Element size times element count does not fit in `usize`.
    SizeOverflow,
    /// The container magic or the architecture header's signature is wrong.
    InvalidImageSignature,
    /// The image is a 32-bit one and the decoder follows 64-bit pointers.
    UnsupportedArchitecture,
    /// The instruction signature occurs nowhere in the image.
    PatternNotFound,
    /// A part of an element tree could not be read.
    StructureRead { tree: TreeKind, part: TreePart, fault: ReadFault },
    /// The first row of the fixed buffer is not a border row.
    InvalidBoardStructure,
    /// Width or height lies outside what the game's window allows.
    InvalidBoardDimensions,
    /// A cell outside the grid was addressed.
    IndexOutOfBounds { row: usize, column: usize },
}

} // verus!
