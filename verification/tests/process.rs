use mimisweep::error::Error;
use mimisweep::memory::{MemoryHandle, Request, Step};
use mimisweep::process::{
    nt_headers, peb, Architecture, BitField, ImageNtHeaders, NtHeaders32, NtHeaders64,
    NtHeadersReader, Peb, PebReader,
};

fn put_u16(bytes: &mut [u8], at: usize, value: u16) {
    bytes[at..at + 2].copy_from_slice(&value.to_le_bytes());
}

fn put_u32(bytes: &mut [u8], at: usize, value: u32) {
    bytes[at..at + 4].copy_from_slice(&value.to_le_bytes());
}

fn put_u64(bytes: &mut [u8], at: usize, value: u64) {
    bytes[at..at + 8].copy_from_slice(&value.to_le_bytes());
}

fn dos_header(magic: u16, lfanew: i32) -> Vec<u8> {
    let mut header = vec![0xa5u8; 64];
    put_u16(&mut header, 0, magic);
    put_u32(&mut header, 60, lfanew as u32);
    header
}

fn nt_common(signature: u32, machine: u16) -> Vec<u8> {
    let mut header = vec![0x5au8; 24];
    put_u32(&mut header, 0, signature);
    put_u16(&mut header, 4, machine);
    header
}

fn nt_headers64(signature: u32, machine: u16, image_base: u64, size_of_image: u32) -> Vec<u8> {
    let mut header = vec![0x5au8; 264];
    put_u32(&mut header, 0, signature);
    put_u16(&mut header, 4, machine);
    put_u64(&mut header, 48, image_base);
    put_u32(&mut header, 80, size_of_image);
    header
}

fn nt_headers32(signature: u32, machine: u16, image_base: u32, size_of_image: u32) -> Vec<u8> {
    let mut header = vec![0x5au8; 248];
    put_u32(&mut header, 0, signature);
    put_u16(&mut header, 4, machine);
    put_u32(&mut header, 52, image_base);
    put_u32(&mut header, 80, size_of_image);
    header
}

fn pending<M, T>(step: Step<M, T>) -> M {
    match step {
        Step::Pending(reader) => reader,
        Step::Done(_) => panic!("the reader is done"),
        Step::Failed(error) => panic!("the reader failed: {:?}", error),
    }
}

fn done<M, T>(step: Step<M, T>) -> T {
    match step {
        Step::Pending(_) => panic!("the reader goes on"),
        Step::Done(result) => result,
        Step::Failed(error) => panic!("the reader failed: {:?}", error),
    }
}

fn failed<M, T>(step: Step<M, T>) -> Error {
    match step {
        Step::Pending(_) => panic!("the reader goes on"),
        Step::Done(_) => panic!("the reader is done"),
        Step::Failed(error) => error,
    }
}

#[test]
fn peb_is_read_where_the_system_says() {
    let reader = peb(&MemoryHandle::Process(0x44), false).unwrap();
    assert_eq!(reader, PebReader::Information);
    assert_eq!(reader.request(), Request::BasicInformation { size: 48 });
    let mut information = vec![0u8; 48];
    put_u64(&mut information, 8, 0x7ff6_1234_5000);
    let reader = pending(reader.resume(Some(information)));
    assert_eq!(reader, PebReader::Block { address: 0x7ff6_1234_5000 });
    assert_eq!(reader.request(), Request::Read { address: 0x7ff6_1234_5000, size: 40 });
    let mut block = vec![0u8; 40];
    block[0] = 1;
    block[1] = 2;
    block[2] = 3;
    block[3] = 4;
    block[4] = 5;
    put_u64(&mut block, 8, 0xffff_ffff_ffff_ffff);
    put_u64(&mut block, 16, 0x0000_0001_0000_0000);
    put_u64(&mut block, 24, 0x7ffb_0000_1000);
    put_u64(&mut block, 32, 0x0000_0000_0020_0000);
    assert_eq!(
        done(reader.resume(Some(block))),
        Peb {
            inherited_address_space: 1,
            read_image_file_exec_options: 2,
            being_debugged: 3,
            bit_field: BitField { image_uses_large_pages: 4, spare_bits: 5 },
            mutant: 0xffff_ffff_ffff_ffff,
            image_base_address: 0x0000_0001_0000_0000,
            ldr: 0x7ffb_0000_1000,
            process_parameters: 0x0000_0000_0020_0000,
        }
    );
}

#[test]
fn peb_needs_a_process() {
    for memory in [MemoryHandle::Own, MemoryHandle::File(1), MemoryHandle::Kernel(1), MemoryHandle::Dump] {
        assert_eq!(peb(&memory, false), Err(Error::Unsupported));
        assert_eq!(peb(&memory, true), Err(Error::Unsupported));
    }
}

#[test]
fn peb_query_of_unexpected_length_fails() {
    assert_eq!(failed(PebReader::Information.resume(Some(vec![0; 47]))), Error::ProcessQueryFailed);
    assert_eq!(failed(PebReader::Information.resume(Some(vec![0; 49]))), Error::ProcessQueryFailed);
    assert_eq!(failed(PebReader::Information.resume(None)), Error::ProcessQueryFailed);
}

#[test]
fn peb_read_failure() {
    let reader = PebReader::Block { address: 0x1000 };
    let lost = Error::MemoryRead { address: 0x1000, size: 40 };
    assert_eq!(failed(reader.resume(None)), lost);
    assert_eq!(failed(reader.resume(Some(vec![0; 39]))), lost);
}

#[test]
fn nt_headers_of_a_64_bit_image() {
    let reader = nt_headers(&MemoryHandle::Process(0x44), 0x1_4000_0000).unwrap();
    assert_eq!(reader, NtHeadersReader::Container { image_base: 0x1_4000_0000 });
    assert_eq!(reader.request(), Request::Read { address: 0x1_4000_0000, size: 64 });
    let reader = pending(reader.resume(Some(dos_header(0x5a4d, 0xe8))));
    assert_eq!(reader, NtHeadersReader::Machine { address: 0x1_4000_00e8 });
    assert_eq!(reader.request(), Request::Read { address: 0x1_4000_00e8, size: 24 });
    let reader = pending(reader.resume(Some(nt_common(0x4550, 0x8664))));
    assert_eq!(
        reader,
        NtHeadersReader::Headers { address: 0x1_4000_00e8, architecture: Architecture::X64 }
    );
    assert_eq!(reader.request(), Request::Read { address: 0x1_4000_00e8, size: 264 });
    let headers = done(reader.resume(Some(nt_headers64(0x4550, 0x8664, 0x1_4000_0000, 0xe7000))));
    assert_eq!(
        headers,
        ImageNtHeaders::X64(NtHeaders64 {
            signature: 0x4550,
            machine: 0x8664,
            image_base: 0x1_4000_0000,
            size_of_image: 0xe7000,
        })
    );
    assert!(headers.is_valid());
    assert_eq!(headers.architecture(), Architecture::X64);
    assert_eq!(headers.image_base(), 0x1_4000_0000);
    assert_eq!(headers.size_of_image(), 0xe7000);
}

#[test]
fn nt_headers_of_a_32_bit_image() {
    let reader = NtHeadersReader::Machine { address: 0x0100_00f0 };
    let reader = pending(reader.resume(Some(nt_common(0x4550, 0x014c))));
    assert_eq!(
        reader,
        NtHeadersReader::Headers { address: 0x0100_00f0, architecture: Architecture::X86 }
    );
    assert_eq!(reader.request(), Request::Read { address: 0x0100_00f0, size: 248 });
    let headers = done(reader.resume(Some(nt_headers32(0x4550, 0x014c, 0x0100_0000, 0x2_0000))));
    assert_eq!(
        headers,
        ImageNtHeaders::X86(NtHeaders32 {
            signature: 0x4550,
            machine: 0x014c,
            image_base: 0x0100_0000,
            size_of_image: 0x2_0000,
        })
    );
    assert!(headers.is_valid());
    assert_eq!(headers.architecture(), Architecture::X86);
    assert_eq!(headers.image_base(), 0x0100_0000);
    assert_eq!(headers.size_of_image(), 0x2_0000);
}

#[test]
fn every_other_machine_is_read_as_64_bit() {
    for machine in [0x8664u16, 0xaa64, 0x0200, 0, 0xffff, 0x014d] {
        let reader = NtHeadersReader::Machine { address: 0x1000 };
        assert_eq!(
            pending(reader.resume(Some(nt_common(0x4550, machine)))),
            NtHeadersReader::Headers { address: 0x1000, architecture: Architecture::X64 }
        );
    }
}

#[test]
fn corrupted_container_magic_is_rejected() {
    for magic in [0x5a4cu16, 0x5a4e, 0x4d5a, 0, 0xffff, 0x5b4d, 0x5a0d] {
        for lfanew in [0xe8, 0, -64, i32::MAX] {
            let reader = NtHeadersReader::Container { image_base: 0x1_4000_0000 };
            assert_eq!(
                failed(reader.resume(Some(dos_header(magic, lfanew)))),
                Error::InvalidImageSignature
            );
        }
    }
}

#[test]
fn every_corruption_of_the_magic_bytes_is_rejected() {
    let good = dos_header(0x5a4d, 0xe8);
    for at in 0..2 {
        for bit in 0..8 {
            let mut header = good.clone();
            header[at] ^= 1 << bit;
            let reader = NtHeadersReader::Container { image_base: 0x1_4000_0000 };
            assert_eq!(failed(reader.resume(Some(header))), Error::InvalidImageSignature);
        }
    }
}

#[test]
fn wrong_architecture_signature_is_rejected() {
    for architecture in [Architecture::X64, Architecture::X86] {
        for signature in [0x4551u32, 0x0000_4542, 0x4550_0000, 0, 0x0001_4550] {
            let reader = NtHeadersReader::Headers { address: 0x1000, architecture };
            let bytes = match architecture {
                Architecture::X64 => nt_headers64(signature, 0x8664, 0x1000, 0x1000),
                Architecture::X86 => nt_headers32(signature, 0x014c, 0x1000, 0x1000),
            };
            assert_eq!(failed(reader.resume(Some(bytes))), Error::InvalidImageSignature);
        }
    }
}

#[test]
fn architecture_header_lies_at_a_signed_offset() {
    let reader = NtHeadersReader::Container { image_base: 0x1_4000_0000 };
    assert_eq!(
        pending(reader.resume(Some(dos_header(0x5a4d, -0x100)))),
        NtHeadersReader::Machine { address: 0x1_3fff_ff00 }
    );
    let reader = NtHeadersReader::Container { image_base: 0x10 };
    assert_eq!(
        pending(reader.resume(Some(dos_header(0x5a4d, -0x20)))),
        NtHeadersReader::Machine { address: 0xffff_ffff_ffff_fff0 }
    );
    let reader = NtHeadersReader::Container { image_base: 0xffff_ffff_ffff_fff0 };
    assert_eq!(
        pending(reader.resume(Some(dos_header(0x5a4d, 0x20)))),
        NtHeadersReader::Machine { address: 0x10 }
    );
}

#[test]
fn nt_headers_read_failures() {
    let readers = [
        NtHeadersReader::Container { image_base: 0x1000 },
        NtHeadersReader::Machine { address: 0x1000 },
        NtHeadersReader::Headers { address: 0x1000, architecture: Architecture::X64 },
        NtHeadersReader::Headers { address: 0x1000, architecture: Architecture::X86 },
    ];
    for reader in readers {
        let lost = Error::MemoryRead { address: 0x1000, size: reader.request().size() };
        assert_eq!(failed(reader.resume(None)), lost);
        let short = vec![0x4du8; reader.request().size() - 1];
        assert_eq!(failed(reader.resume(Some(short))), lost);
        let long = vec![0x4du8; reader.request().size() + 1];
        assert_eq!(failed(reader.resume(Some(long))), lost);
    }
}

#[test]
fn nt_headers_need_a_process() {
    for memory in [MemoryHandle::Own, MemoryHandle::File(1), MemoryHandle::Kernel(1), MemoryHandle::Dump] {
        assert_eq!(nt_headers(&memory, 0x1000), Err(Error::Unsupported));
    }
}

#[test]
fn parse_reads_both_layouts() {
    assert_eq!(ImageNtHeaders::size(Architecture::X86), 248);
    assert_eq!(ImageNtHeaders::size(Architecture::X64), 264);
    let headers = ImageNtHeaders::parse(Architecture::X64, &nt_headers64(1, 2, 3, 4));
    assert_eq!(
        headers,
        ImageNtHeaders::X64(NtHeaders64 { signature: 1, machine: 2, image_base: 3, size_of_image: 4 })
    );
    assert!(!headers.is_valid());
    let block = Peb::parse(&[0u8; 40]);
    assert_eq!(block.image_base_address, 0);
}
