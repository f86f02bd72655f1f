//! Reconstruction of a Minesweeper board from the memory of a running game.
//!
//! The game does not cooperate. Its board is found by reading its memory:
//! the headers of its image, a signature of instruction bytes in the image,
//! and the records that the code behind the signature leads to. Two
//! versions of the game are known, and each has a decoder of its own in
//! [`versions`].
//!
//! The crate never touches another process itself. Every decoder is a
//! reader that can be resumed: it names the bytes that it needs next, as a
//! [`memory::Request`], and is resumed with whatever the embedding program
//! managed to fetch. So a reader is a value, and each of its steps is
//! verified for every outcome of the read before it: a running game changes
//! its memory as it pleases.
//!
//! ```text
//! let mut reader = versions::windows_7::board(handle)?;
//! loop {
//!     let outcome = fetch(reader.request());
//!     match reader.resume(outcome) {
//!         Step::Pending(next) => reader = next,
//!         Step::Done(board) => break Ok(board),
//!         Step::Failed(error) => break Err(error),
//!     }
//! }
//! ```
//!
//! [`session`] strings a whole snapshot together, from the search for the
//! game's process to the release of the handle, and [`stable`] says what a
//! reader comes to when the memory that it reads does not change.

pub mod error;
pub mod grid;
pub mod layout;
pub mod memory;
pub mod process;
pub mod session;
pub mod stable;
pub mod versions;

pub use error::Error;
pub use grid::{Board, BoardView, CellToken};
pub use session::info;
