//! What a process says about itself: its environment block and the headers
//! of its executable image.

use crate::error::Error;
use crate::layout::{
    displace, displaced, read_u16, read_u32, read_u64, signed, to_signed, u16_at, u32_at, u64_at,
};
use crate::memory::{delivered, MemoryHandle, Request, Step};
use vstd::prelude::*;

verus! {

/// The size in bytes of the basic information block of a process.
pub const BASIC_INFORMATION_SIZE: usize = 48;

/// The offset of the environment block's address in the basic information
/// block.
pub const BASIC_INFORMATION_PEB: usize = 8;

/// The size in bytes of the leading part of the environment block that
/// [`Peb`] covers.
pub const PEB_SIZE: usize = 40;

/// The size in bytes of the container header of an image.
pub const DOS_HEADER_SIZE: usize = 64;

/// The offset, in the container header, of the offset of the architecture
/// header.
pub const DOS_HEADER_LFANEW: usize = 60;

/// The magic number of the container header.
pub const IMAGE_DOS_SIGNATURE: u16 = 0x5A4D;

/// The signature of the architecture header.
pub const IMAGE_NT_SIGNATURE: u32 = 0x0000_4550;

/// The machine type of a 32-bit image.
pub const IMAGE_FILE_MACHINE_I386: u16 = 0x014c;

/// The size in bytes of the part that the architecture headers of both
/// layouts share: the signature and the file header.
pub const NT_COMMON_SIZE: usize = 24;

/// The size in bytes of the architecture header of a 32-bit image.
pub const NT_HEADERS32_SIZE: usize = 248;

/// The size in bytes of the architecture header of a 64-bit image.
pub const NT_HEADERS64_SIZE: usize = 264;

/// The two flag bytes of the environment block.
#[derive(Clone, Copy, Debug, PartialEq, Eq, Structural)]
pub struct BitField {
    pub image_uses_large_pages: u8,
    pub spare_bits: u8,
}

/// The leading fields of the environment block of a 64-bit process.
#[derive(Clone, Copy, Debug, PartialEq, Eq, Structural)]
pub struct Peb {
    pub inherited_address_space: u8,
    pub read_image_file_exec_options: u8,
    pub being_debugged: u8,
    pub bit_field: BitField,
    pub mutant: u64,
    pub image_base_address: u64,
    pub ldr: u64,
    pub process_parameters: u64,
}

impl Peb {
    /// The block that `bytes` hold.
    pub open spec fn decode(bytes: Seq<u8>) -> Peb {
        Peb {
            inherited_address_space: bytes[0],
            read_image_file_exec_options: bytes[1],
            being_debugged: bytes[2],
            bit_field: BitField { image_uses_large_pages: bytes[3], spare_bits: bytes[4] },
            mutant: u64_at(bytes, 8),
            image_base_address: u64_at(bytes, 16),
            ldr: u64_at(bytes, 24),
            process_parameters: u64_at(bytes, 32),
        }
    }

    /// Reads the block out of its bytes.
    pub fn parse(bytes: &[u8]) -> (peb: Peb)
        requires
            bytes@.len() == PEB_SIZE,
        ensures
            peb == Peb::decode(bytes@),
    {
        Peb {
            inherited_address_space: bytes[0],
            read_image_file_exec_options: bytes[1],
            being_debugged: bytes[2],
            bit_field: BitField { image_uses_large_pages: bytes[3], spare_bits: bytes[4] },
            mutant: read_u64(bytes, 8),
            image_base_address: read_u64(bytes, 16),
            ldr: read_u64(bytes, 24),
            process_parameters: read_u64(bytes, 32),
        }
    }
}

/// The retrieval of the environment block: first the system is asked where
/// the block lies, then the block is copied.
#[derive(Clone, Copy, Debug, PartialEq, Eq, Structural)]
pub enum PebReader {
    /// Waiting for the basic information block.
    Information,
    /// Waiting for the environment block at `address`.
    Block { address: u64 },
}

impl PebReader {
    /// What has to be fetched next.
    pub open spec fn spec_request(&self) -> Request {
        match *self {
            PebReader::Information => Request::BasicInformation { size: BASIC_INFORMATION_SIZE },
            PebReader::Block { address } => Request::Read { address, size: PEB_SIZE },
        }
    }

    /// What has to be fetched next.
    #[verifier::when_used_as_spec(spec_request)]
    pub fn request(&self) -> (request: Request)
        ensures
            request == self.spec_request(),
    {
        match self {
            PebReader::Information => Request::BasicInformation { size: BASIC_INFORMATION_SIZE },
            PebReader::Block { address } => Request::Read { address: *address, size: PEB_SIZE },
        }
    }

    /// Where the reader stands after `outcome`.
    pub open spec fn next(self, outcome: Option<Seq<u8>>) -> Step<PebReader, Peb> {
        if !self.spec_request().accepts(outcome) {
            Step::Failed(self.spec_request().fault())
        } else {
            let bytes = outcome->Some_0;
            match self {
                PebReader::Information => Step::Pending(
                    PebReader::Block { address: u64_at(bytes, BASIC_INFORMATION_PEB as int) },
                ),
                PebReader::Block { .. } => Step::Done(Peb::decode(bytes)),
            }
        }
    }

    /// Takes the outcome of the request and moves on.
    pub fn resume(self, outcome: Option<Vec<u8>>) -> (step: Step<PebReader, Peb>)
        ensures
            step == self.next(delivered(outcome)),
    {
        let bytes = match self.request().accept(outcome) {
            Ok(bytes) => bytes,
            Err(error) => { return Step::Failed(error); },
        };
        match self {
            PebReader::Information => Step::Pending(
                PebReader::Block { address: read_u64(bytes.as_slice(), BASIC_INFORMATION_PEB) },
            ),
            PebReader::Block { .. } => Step::Done(Peb::parse(bytes.as_slice())),
        }
    }
}

/// Starts the retrieval of the environment block of the process behind
/// `memory`.
pub fn peb(memory: &MemoryHandle, _is_wow: bool) -> (reader: Result<PebReader, Error>)
    ensures
        reader == if memory is Process {
            Ok::<PebReader, Error>(PebReader::Information)
        } else {
            Err::<PebReader, Error>(Error::Unsupported)
        },
{
    match memory {
        MemoryHandle::Process(_) => Ok(PebReader::Information),
        _ => Err(Error::Unsupported),
    }
}

/// The two layouts of an image.
#[derive(Clone, Copy, Debug, PartialEq, Eq, Structural)]
pub enum Architecture {
    /// A 32-bit image.
    X86,
    /// A 64-bit image.
    X64,
}

/// What is read of the architecture header of a 32-bit image.
#[derive(Clone, Copy, Debug, PartialEq, Eq, Structural)]
pub struct NtHeaders32 {
    pub signature: u32,
    pub machine: u16,
    pub image_base: u32,
    pub size_of_image: u32,
}

/// What is read of the architecture header of a 64-bit image.
#[derive(Clone, Copy, Debug, PartialEq, Eq, Structural)]
pub struct NtHeaders64 {
    pub signature: u32,
    pub machine: u16,
    pub image_base: u64,
    pub size_of_image: u32,
}

/// The architecture header of an image, in the layout of its architecture.
#[derive(Clone, Copy, Debug, PartialEq, Eq, Structural)]
pub enum ImageNtHeaders {
    /// The header of a 32-bit image.
    X86(NtHeaders32),
    /// The header of a 64-bit image.
    X64(NtHeaders64),
}

impl ImageNtHeaders {
    /// The header that `bytes` hold, read in the layout of `architecture`.
    pub open spec fn decode(architecture: Architecture, bytes: Seq<u8>) -> ImageNtHeaders {
        match architecture {
            Architecture::X86 => ImageNtHeaders::X86(
                NtHeaders32 {
                    signature: u32_at(bytes, 0),
                    machine: u16_at(bytes, 4),
                    image_base: u32_at(bytes, 52),
                    size_of_image: u32_at(bytes, 80),
                },
            ),
            Architecture::X64 => ImageNtHeaders::X64(
                NtHeaders64 {
                    signature: u32_at(bytes, 0),
                    machine: u16_at(bytes, 4),
                    image_base: u64_at(bytes, 48),
                    size_of_image: u32_at(bytes, 80),
                },
            ),
        }
    }

    /// The size in bytes of the header in the layout of `architecture`.
    pub open spec fn spec_size(architecture: Architecture) -> usize {
        match architecture {
            Architecture::X86 => NT_HEADERS32_SIZE,
            Architecture::X64 => NT_HEADERS64_SIZE,
        }
    }

    /// The size in bytes of the header in the layout of `architecture`.
    #[verifier::when_used_as_spec(spec_size)]
    pub fn size(architecture: Architecture) -> (size: usize)
        ensures
            size == ImageNtHeaders::spec_size(architecture),
    {
        match architecture {
            Architecture::X86 => NT_HEADERS32_SIZE,
            Architecture::X64 => NT_HEADERS64_SIZE,
        }
    }

    /// Reads the header out of its bytes.
    pub fn parse(architecture: Architecture, bytes: &[u8]) -> (headers: ImageNtHeaders)
        requires
            bytes@.len() == ImageNtHeaders::spec_size(architecture),
        ensures
            headers == ImageNtHeaders::decode(architecture, bytes@),
    {
        match architecture {
            Architecture::X86 => ImageNtHeaders::X86(
                NtHeaders32 {
                    signature: read_u32(bytes, 0),
                    machine: read_u16(bytes, 4),
                    image_base: read_u32(bytes, 52),
                    size_of_image: read_u32(bytes, 80),
                },
            ),
            Architecture::X64 => ImageNtHeaders::X64(
                NtHeaders64 {
                    signature: read_u32(bytes, 0),
                    machine: read_u16(bytes, 4),
                    image_base: read_u64(bytes, 48),
                    size_of_image: read_u32(bytes, 80),
                },
            ),
        }
    }

    /// The signature that the header carries.
    pub open spec fn spec_signature(&self) -> u32 {
        match *self {
            ImageNtHeaders::X86(headers) => headers.signature,
            ImageNtHeaders::X64(headers) => headers.signature,
        }
    }

    /// The header carries the signature of an architecture header.
    pub open spec fn spec_is_valid(&self) -> bool {
        self.spec_signature() == IMAGE_NT_SIGNATURE
    }

    /// Tells whether the header carries the signature of an architecture
    /// header.
    #[verifier::when_used_as_spec(spec_is_valid)]
    pub fn is_valid(&self) -> (valid: bool)
        ensures
            valid == self.spec_is_valid(),
    {
        match self {
            ImageNtHeaders::X86(headers) => headers.signature == IMAGE_NT_SIGNATURE,
            ImageNtHeaders::X64(headers) => headers.signature == IMAGE_NT_SIGNATURE,
        }
    }

    /// The layout of the header.
    pub open spec fn spec_architecture(&self) -> Architecture {
        match *self {
            ImageNtHeaders::X86(_) => Architecture::X86,
            ImageNtHeaders::X64(_) => Architecture::X64,
        }
    }

    /// The layout of the header.
    #[verifier::when_used_as_spec(spec_architecture)]
    pub fn architecture(&self) -> (architecture: Architecture)
        ensures
            architecture == self.spec_architecture(),
    {
        match self {
            ImageNtHeaders::X86(_) => Architecture::X86,
            ImageNtHeaders::X64(_) => Architecture::X64,
        }
    }

    /// The address at which the image prefers to be loaded.
    pub open spec fn spec_image_base(&self) -> u64 {
        match *self {
            ImageNtHeaders::X86(headers) => headers.image_base as u64,
            ImageNtHeaders::X64(headers) => headers.image_base,
        }
    }

    /// The address at which the image prefers to be loaded.
    #[verifier::when_used_as_spec(spec_image_base)]
    pub fn image_base(&self) -> (base: u64)
        ensures
            base == self.spec_image_base(),
    {
        match self {
            ImageNtHeaders::X86(headers) => headers.image_base as u64,
            ImageNtHeaders::X64(headers) => headers.image_base,
        }
    }

    /// The size in bytes of the image in memory.
    pub open spec fn spec_size_of_image(&self) -> u32 {
        match *self {
            ImageNtHeaders::X86(headers) => headers.size_of_image,
            ImageNtHeaders::X64(headers) => headers.size_of_image,
        }
    }

    /// The size in bytes of the image in memory.
    #[verifier::when_used_as_spec(spec_size_of_image)]
    pub fn size_of_image(&self) -> (size: u32)
        ensures
            size == self.spec_size_of_image(),
    {
        match self {
            ImageNtHeaders::X86(headers) => headers.size_of_image,
            ImageNtHeaders::X64(headers) => headers.size_of_image,
        }
    }
}

/// The layout that a machine type stands for. Every machine type but that
/// of 32-bit x86 is read in the 64-bit layout.
pub open spec fn architecture_of(machine: u16) -> Architecture {
    if machine == IMAGE_FILE_MACHINE_I386 {
        Architecture::X86
    } else {
        Architecture::X64
    }
}

/// The retrieval of the architecture header of the image at `image_base`.
#[derive(Clone, Copy, Debug, PartialEq, Eq, Structural)]
pub enum NtHeadersReader {
    /// Waiting for the container header at `image_base`.
    Container { image_base: u64 },
    /// Waiting for the part of the architecture header at `address` that
    /// names the machine type.
    Machine { address: u64 },
    /// Waiting for the whole architecture header at `address`.
    Headers { address: u64, architecture: Architecture },
}

impl NtHeadersReader {
    /// What has to be fetched next.
    pub open spec fn spec_request(&self) -> Request {
        match *self {
            NtHeadersReader::Container { image_base } => Request::Read {
                address: image_base,
                size: DOS_HEADER_SIZE,
            },
            NtHeadersReader::Machine { address } => Request::Read { address, size: NT_COMMON_SIZE },
            NtHeadersReader::Headers { address, architecture } => Request::Read {
                address,
                size: ImageNtHeaders::spec_size(architecture),
            },
        }
    }

    /// What has to be fetched next.
    #[verifier::when_used_as_spec(spec_request)]
    pub fn request(&self) -> (request: Request)
        ensures
            request == self.spec_request(),
    {
        match self {
            NtHeadersReader::Container { image_base } => Request::Read {
                address: *image_base,
                size: DOS_HEADER_SIZE,
            },
            NtHeadersReader::Machine { address } => Request::Read {
                address: *address,
                size: NT_COMMON_SIZE,
            },
            NtHeadersReader::Headers { address, architecture } => Request::Read {
                address: *address,
                size: ImageNtHeaders::size(*architecture),
            },
        }
    }

    /// Where the reader stands after `outcome`.
    pub open spec fn next(self, outcome: Option<Seq<u8>>) -> Step<NtHeadersReader, ImageNtHeaders> {
        if !self.spec_request().accepts(outcome) {
            Step::Failed(self.spec_request().fault())
        } else {
            let bytes = outcome->Some_0;
            match self {
                NtHeadersReader::Container { image_base } => {
                    if u16_at(bytes, 0) != IMAGE_DOS_SIGNATURE {
                        Step::Failed(Error::InvalidImageSignature)
                    } else {
                        Step::Pending(
                            NtHeadersReader::Machine {
                                address: displaced(
                                    image_base,
                                    signed(u32_at(bytes, DOS_HEADER_LFANEW as int)),
                                ),
                            },
                        )
                    }
                },
                NtHeadersReader::Machine { address } => Step::Pending(
                    NtHeadersReader::Headers {
                        address,
                        architecture: architecture_of(u16_at(bytes, 4)),
                    },
                ),
                NtHeadersReader::Headers { architecture, .. } => {
                    let headers = ImageNtHeaders::decode(architecture, bytes);
                    if headers.spec_is_valid() {
                        Step::Done(headers)
                    } else {
                        Step::Failed(Error::InvalidImageSignature)
                    }
                },
            }
        }
    }

    /// Takes the outcome of the request and moves on.
    pub fn resume(self, outcome: Option<Vec<u8>>) -> (step: Step<NtHeadersReader, ImageNtHeaders>)
        ensures
            step == self.next(delivered(outcome)),
    {
        let bytes = match self.request().accept(outcome) {
            Ok(bytes) => bytes,
            Err(error) => { return Step::Failed(error); },
        };
        match self {
            NtHeadersReader::Container { image_base } => {
                if read_u16(bytes.as_slice(), 0) != IMAGE_DOS_SIGNATURE {
                    Step::Failed(Error::InvalidImageSignature)
                } else {
                    let offset = to_signed(read_u32(bytes.as_slice(), DOS_HEADER_LFANEW));
                    Step::Pending(NtHeadersReader::Machine { address: displace(image_base, offset) })
                }
            },
            NtHeadersReader::Machine { address } => {
                let architecture = if read_u16(bytes.as_slice(), 4) == IMAGE_FILE_MACHINE_I386 {
                    Architecture::X86
                } else {
                    Architecture::X64
                };
                Step::Pending(NtHeadersReader::Headers { address, architecture })
            },
            NtHeadersReader::Headers { architecture, .. } => {
                let headers = ImageNtHeaders::parse(architecture, bytes.as_slice());
                if headers.is_valid() {
                    Step::Done(headers)
                } else {
                    Step::Failed(Error::InvalidImageSignature)
                }
            },
        }
    }
}

/// A container header whose magic number is wrong ends the retrieval with
/// `InvalidImageSignature`, whatever else the header holds.
pub proof fn lemma_corrupted_magic_is_rejected(image_base: u64, header: Seq<u8>)
    requires
        header.len() == DOS_HEADER_SIZE,
        u16_at(header, 0) != IMAGE_DOS_SIGNATURE,
    ensures
        (NtHeadersReader::Container { image_base }).next(Some(header)) == Step::<
            NtHeadersReader,
            ImageNtHeaders,
        >::Failed(Error::InvalidImageSignature),
{
}

/// No header is handed out half checked: the retrieval yields a header
/// only in its last stage, the header is the one that the bytes hold in the
/// layout that was announced, and it carries the signature.
pub proof fn lemma_headers_are_checked(
    reader: NtHeadersReader,
    outcome: Option<Seq<u8>>,
    headers: ImageNtHeaders,
)
    requires
        reader.next(outcome) == Step::<NtHeadersReader, ImageNtHeaders>::Done(headers),
    ensures
        reader is Headers,
        outcome is Some,
        headers == ImageNtHeaders::decode(reader->architecture, outcome->Some_0),
        headers.spec_architecture() == reader->architecture,
        headers.spec_is_valid(),
{
}

/// Starts the retrieval of the architecture header of the image that is
/// loaded at `image_base` in the process behind `process`.
pub fn nt_headers(process: &MemoryHandle, image_base: u64) -> (reader: Result<NtHeadersReader, Error>)
    ensures
        reader == if process is Process {
            Ok::<NtHeadersReader, Error>(NtHeadersReader::Container { image_base })
        } else {
            Err::<NtHeadersReader, Error>(Error::Unsupported)
        },
{
    match process {
        MemoryHandle::Process(_) => Ok(NtHeadersReader::Container { image_base }),
        _ => Err(Error::Unsupported),
    }
}

} // verus!
