//! One snapshot of a running game, from the search for its process to the
//! release of the handle.
//!
//! A session passes through four phases, each a type of its own: the
//! [`Lookup`] of a process, the [`Opening`] of it, the work of the
//! [`Decoder`], and the [`Closing`] of the handle. The embedding program
//! performs what a phase asks for and hands the answer back; it gets the
//! [`Report`] only from the last phase, behind the release of the handle.

use crate::error::Error;
use crate::grid::{Board, BoardView};
use crate::memory::{delivered, MemoryHandle, Request, Step};
use crate::versions::windows_7;
use crate::versions::windows_xp;
use vstd::prelude::*;

verus! {

/// The right to read the memory of a process.
pub const PROCESS_VM_READ: u32 = 0x0010;

/// The right to operate on the address space of a process.
pub const PROCESS_VM_OPERATION: u32 = 0x0008;

/// The right to query information about a process.
pub const PROCESS_QUERY_INFORMATION: u32 = 0x0400;

/// The rights that a session asks for when it opens the game: all of the
/// three above.
pub const DESIRED_ACCESS: u32 = 0x0418;

/// The versions of the game that can be decoded.
#[derive(Clone, Copy, Debug, PartialEq, Eq, Structural)]
pub enum Version {
    /// The game that came with Windows XP.
    WindowsXP,
    /// The game that came with Windows 7.
    Windows7,
}

impl Version {
    /// The exact name of the game's process.
    pub open spec fn spec_process_name(&self) -> Seq<char> {
        match *self {
            Version::Windows7 => "Minesweeper.exe"@,
            Version::WindowsXP => "WINMINE.EXE"@,
        }
    }

    /// The exact name of the game's process.
    pub fn process_name(&self) -> (name: &'static str)
        ensures
            name@ == self.spec_process_name(),
    {
        match self {
            Version::Windows7 => "Minesweeper.exe",
            Version::WindowsXP => "WINMINE.EXE",
        }
    }

    /// The name of the version, for people.
    pub open spec fn spec_label(&self) -> Seq<char> {
        match *self {
            Version::Windows7 => "Windows 7"@,
            Version::WindowsXP => "Windows XP"@,
        }
    }

    /// The name of the version, for people.
    pub fn label(&self) -> (label: &'static str)
        ensures
            label@ == self.spec_label(),
    {
        match self {
            Version::Windows7 => "Windows 7",
            Version::WindowsXP => "Windows XP",
        }
    }

    /// The version to look for when this one is not running.
    pub open spec fn spec_successor(&self) -> Option<Version> {
        match *self {
            Version::Windows7 => Some(Version::WindowsXP),
            Version::WindowsXP => None,
        }
    }

    /// The version to look for when this one is not running.
    #[verifier::when_used_as_spec(spec_successor)]
    pub fn successor(&self) -> (next: Option<Version>)
        ensures
            next == self.spec_successor(),
    {
        match self {
            Version::Windows7 => Some(Version::WindowsXP),
            Version::WindowsXP => None,
        }
    }
}

/// The search for a running game: the known versions are tried one after
/// the other.
#[derive(Clone, Copy, Debug, PartialEq, Eq, Structural)]
pub struct Lookup {
    pub candidate: Version,
}

impl Lookup {
    /// Where the search stands once the system has said whether a process
    /// of the candidate's name runs, and under which identifier.
    pub open spec fn next(self, pid: Option<u32>) -> Step<Lookup, Opening> {
        match pid {
            Some(pid) => Step::Done(Opening { version: self.candidate, pid }),
            None => match self.candidate.spec_successor() {
                Some(candidate) => Step::Pending(Lookup { candidate }),
                None => Step::Failed(Error::ProcessNotFound),
            },
        }
    }

    /// Takes the answer of the system and moves on.
    pub fn resume(self, pid: Option<u32>) -> (step: Step<Lookup, Opening>)
        ensures
            step == self.next(pid),
    {
        match pid {
            Some(pid) => Step::Done(Opening { version: self.candidate, pid }),
            None => match self.candidate.successor() {
                Some(candidate) => Step::Pending(Lookup { candidate }),
                None => Step::Failed(Error::ProcessNotFound),
            },
        }
    }
}

/// Starts a session: the first thing to find out is whether the first of
/// the known versions runs.
pub fn info() -> (lookup: Lookup)
    ensures
        lookup == (Lookup { candidate: Version::Windows7 }),
{
    Lookup { candidate: Version::Windows7 }
}

/// The opening of the process `pid` with the rights of [`DESIRED_ACCESS`].
#[derive(Clone, Copy, Debug, PartialEq, Eq, Structural)]
pub struct Opening {
    pub version: Version,
    pub pid: u32,
}

/// Which decoder is at work. `T` is the decoder of the Windows 7 game.
pub enum VersionReader<T> {
    /// The decoder of the Windows XP game.
    WindowsXP(windows_xp::BoardReader),
    /// The decoder of the Windows 7 game.
    Windows7(T),
}

/// The mathematical content of a [`Decoder`].
pub struct DecoderView {
    pub handle: isize,
    pub reader: VersionReader<windows_7::BoardReaderView>,
}

/// What a session comes to: the version that was found, and its board.
pub struct Report {
    pub version: Version,
    pub board: Board,
}

/// The mathematical content of a [`Report`].
pub struct ReportView {
    pub version: Version,
    pub board: BoardView,
}

impl View for Report {
    type V = ReportView;

    open spec fn view(&self) -> ReportView {
        ReportView { version: self.version, board: self.board@ }
    }
}

/// The mathematical content of a [`Closing`].
pub struct ClosingView {
    pub handle: isize,
    pub result: Result<ReportView, Error>,
}

impl DecoderView {
    /// The state is one that a decoder can be in: the memory that is read
    /// is that of the process behind the handle.
    pub open spec fn wf(self) -> bool {
        match self.reader {
            VersionReader::WindowsXP(_) => true,
            VersionReader::Windows7(reader) => reader.wf() && reader.memory == MemoryHandle::Process(
                self.handle,
            ),
        }
    }

    /// The decoder of the game of `version`, before anything has been
    /// read.
    pub open spec fn start(version: Version, handle: isize) -> DecoderView {
        DecoderView {
            handle,
            reader: match version {
                Version::WindowsXP => VersionReader::WindowsXP(windows_xp::BoardReader {  }),
                Version::Windows7 => VersionReader::Windows7(
                    windows_7::BoardReaderView::start(MemoryHandle::Process(handle)),
                ),
            },
        }
    }

    /// The version of the game that is decoded.
    pub open spec fn version(self) -> Version {
        match self.reader {
            VersionReader::WindowsXP(_) => Version::WindowsXP,
            VersionReader::Windows7(_) => Version::Windows7,
        }
    }

    /// What has to be fetched next.
    pub open spec fn request(self) -> Request {
        match self.reader {
            VersionReader::WindowsXP(reader) => reader.spec_request(),
            VersionReader::Windows7(reader) => reader.request(),
        }
    }

    /// The end of the work: whatever came of it, the handle is closed
    /// next.
    pub open spec fn end(self, result: Result<BoardView, Error>) -> Step<DecoderView, ClosingView> {
        Step::Done(
            ClosingView {
                handle: self.handle,
                result: match result {
                    Ok(board) => Ok(ReportView { version: self.version(), board }),
                    Err(error) => Err(error),
                },
            },
        )
    }

    /// Where the decoder stands after `outcome`. It never fails: a failure
    /// of the work is carried to the closing of the handle.
    pub open spec fn next(self, outcome: Option<Seq<u8>>) -> Step<DecoderView, ClosingView> {
        match self.reader {
            VersionReader::WindowsXP(reader) => match reader.next(outcome) {
                Step::Pending(reader) => Step::Pending(
                    DecoderView { reader: VersionReader::WindowsXP(reader), ..self },
                ),
                Step::Done(board) => self.end(Ok(board)),
                Step::Failed(error) => self.end(Err(error)),
            },
            VersionReader::Windows7(reader) => match reader.next(outcome) {
                Step::Pending(reader) => Step::Pending(
                    DecoderView { reader: VersionReader::Windows7(reader), ..self },
                ),
                Step::Done(board) => self.end(Ok(board)),
                Step::Failed(error) => self.end(Err(error)),
            },
        }
    }
}

/// The handle is released on every way out: the work never ends in a
/// failure of its own, it only ever ends in the closing of the handle that
/// it was started with, and until then it keeps that handle and its
/// version.
pub proof fn lemma_handle_is_released(decoder: DecoderView, outcome: Option<Seq<u8>>)
    requires
        decoder.wf(),
    ensures
        match decoder.next(outcome) {
            Step::Pending(after) => after.wf() && after.handle == decoder.handle && after.version()
                == decoder.version(),
            Step::Done(closing) => closing.handle == decoder.handle && (closing.result matches Ok(
                report,
            ) ==> report.version == decoder.version() && report.board.wf()),
            Step::Failed(_) => false,
        },
{
    match decoder.reader {
        VersionReader::WindowsXP(reader) => {
            if outcome is Some && windows_xp::decoding(outcome->Some_0) is Ok {
                windows_xp::lemma_bordered_record_is_decoded(outcome->Some_0);
            }
        },
        VersionReader::Windows7(reader) => {
            windows_7::lemma_decoder_goes_on(reader, outcome);
        },
    }
}

/// The work on an opened game: the decoder of its version, and the handle
/// that the reads go through.
pub struct Decoder {
    handle: isize,
    reader: VersionReader<windows_7::BoardReader>,
}

impl View for Decoder {
    type V = DecoderView;

    closed spec fn view(&self) -> DecoderView {
        DecoderView {
            handle: self.handle,
            reader: match self.reader {
                VersionReader::WindowsXP(reader) => VersionReader::WindowsXP(reader),
                VersionReader::Windows7(reader) => VersionReader::Windows7(reader@),
            },
        }
    }
}

impl Opening {
    /// Takes the handle that the system gave, if it gave one, and sets up
    /// the decoder of the version that was found.
    pub fn resume(self, handle: Option<isize>) -> (decoder: Result<Decoder, Error>)
        ensures
            match handle {
                Some(handle) => decoder is Ok && decoder->Ok_0@ == DecoderView::start(
                    self.version,
                    handle,
                ),
                None => decoder is Err && decoder->Err_0 == Error::HandleAcquisitionFailed,
            },
    {
        let handle = match handle {
            Some(handle) => handle,
            None => { return Err(Error::HandleAcquisitionFailed); },
        };
        let a_remote = MemoryHandle::Process(handle);
        match self.version {
            Version::WindowsXP => match windows_xp::board(a_remote) {
                Ok(reader) => Ok(Decoder { handle, reader: VersionReader::WindowsXP(reader) }),
                Err(error) => Err(error),
            },
            Version::Windows7 => match windows_7::board(a_remote) {
                Ok(reader) => {
                    proof {
                        use_type_invariant(&reader);
                    }
                    Ok(Decoder { handle, reader: VersionReader::Windows7(reader) })
                },
                Err(error) => Err(error),
            },
        }
    }
}

/// The release of the handle, which stands between the work and its
/// result.
pub struct Closing {
    handle: isize,
    result: Result<Report, Error>,
}

impl View for Closing {
    type V = ClosingView;

    closed spec fn view(&self) -> ClosingView {
        ClosingView {
            handle: self.handle,
            result: match self.result {
                Ok(report) => Ok(report@),
                Err(error) => Err(error),
            },
        }
    }
}

impl Decoder {
    /// A decoder is always in a state that the work can be in.
    #[verifier::type_invariant]
    pub open spec fn inv(&self) -> bool {
        self@.wf()
    }

    /// The handle that the reads go through.
    pub fn handle(&self) -> (handle: isize)
        ensures
            handle == self@.handle,
    {
        self.handle
    }

    /// What has to be fetched next.
    pub fn request(&self) -> (request: Request)
        ensures
            request == self@.request(),
    {
        match &self.reader {
            VersionReader::WindowsXP(reader) => reader.request(),
            VersionReader::Windows7(reader) => reader.request(),
        }
    }

    /// Takes the outcome of the request and moves on.
    pub fn resume(self, outcome: Option<Vec<u8>>) -> (step: Step<Decoder, Closing>)
        ensures
            step@ == self@.next(delivered(outcome)),
    {
        proof {
            use_type_invariant(&self);
        }
        let Decoder { handle, reader } = self;
        match reader {
            VersionReader::WindowsXP(reader) => match reader.resume(outcome) {
                Step::Pending(reader) => Step::Pending(
                    Decoder { handle, reader: VersionReader::WindowsXP(reader) },
                ),
                Step::Done(board) => Step::Done(
                    Closing { handle, result: Ok(Report { version: Version::WindowsXP, board }) },
                ),
                Step::Failed(error) => Step::Done(Closing { handle, result: Err(error) }),
            },
            VersionReader::Windows7(reader) => match reader.resume(outcome) {
                Step::Pending(reader) => {
                    proof {
                        use_type_invariant(&reader);
                    }
                    Step::Pending(Decoder { handle, reader: VersionReader::Windows7(reader) })
                },
                Step::Done(board) => Step::Done(
                    Closing { handle, result: Ok(Report { version: Version::Windows7, board }) },
                ),
                Step::Failed(error) => Step::Done(Closing { handle, result: Err(error) }),
            },
        }
    }
}

impl Closing {
    /// The handle that has to be closed.
    pub fn handle(&self) -> (handle: isize)
        ensures
            handle == self@.handle,
    {
        self.handle
    }

    /// Hands out what the session came to, once the handle has been
    /// closed.
    pub fn resume(self) -> (result: Result<Report, Error>)
        ensures
            match result {
                Ok(report) => self@.result == Ok::<ReportView, Error>(report@),
                Err(error) => self@.result == Err::<ReportView, Error>(error),
            },
    {
        self.result
    }
}

} // verus!
