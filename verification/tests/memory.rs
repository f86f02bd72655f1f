use mimisweep::error::Error;
use mimisweep::memory::{copy, copy_array, search, to_vec, MemoryHandle, Request};

fn unreadable() -> [MemoryHandle; 4] {
    [MemoryHandle::Own, MemoryHandle::File(3), MemoryHandle::Kernel(4), MemoryHandle::Dump]
}

#[test]
fn copy_asks_for_the_bytes_of_the_value() {
    let memory = MemoryHandle::Process(0x44);
    assert_eq!(copy(&memory, 0x1000, 24), Ok(Request::Read { address: 0x1000, size: 24 }));
    assert_eq!(copy(&memory, u64::MAX, 0), Ok(Request::Read { address: u64::MAX, size: 0 }));
}

#[test]
fn copy_is_unsupported_on_other_handles() {
    for memory in unreadable() {
        assert_eq!(copy(&memory, 0x1000, 24), Err(Error::Unsupported));
    }
}

#[test]
fn copy_array_multiplies() {
    let memory = MemoryHandle::Process(0x44);
    assert_eq!(copy_array(&memory, 0x2000, 8, 30), Ok(Request::Read { address: 0x2000, size: 240 }));
    assert_eq!(copy_array(&memory, 0x2000, 4, 0), Ok(Request::Read { address: 0x2000, size: 0 }));
    assert_eq!(
        copy_array(&memory, 0x2000, 1, usize::MAX),
        Ok(Request::Read { address: 0x2000, size: usize::MAX })
    );
}

#[test]
fn copy_array_refuses_a_size_that_overflows() {
    let memory = MemoryHandle::Process(0x44);
    assert_eq!(copy_array(&memory, 0x2000, 2, usize::MAX), Err(Error::SizeOverflow));
    assert_eq!(copy_array(&memory, 0x2000, usize::MAX, 2), Err(Error::SizeOverflow));
    assert_eq!(copy_array(&memory, 0x2000, 8, usize::MAX / 8 + 1), Err(Error::SizeOverflow));
    assert_eq!(
        copy_array(&memory, 0x2000, 8, usize::MAX / 8),
        Ok(Request::Read { address: 0x2000, size: usize::MAX / 8 * 8 })
    );
    for memory in unreadable() {
        assert_eq!(copy_array(&memory, 0x2000, 2, usize::MAX), Err(Error::SizeOverflow));
        assert_eq!(copy_array(&memory, 0x2000, 2, 2), Err(Error::Unsupported));
    }
}

#[test]
fn raw_handle() {
    assert_eq!(MemoryHandle::Process(0x44).raw(), Ok(0x44));
    assert_eq!(MemoryHandle::Process(-1).raw(), Ok(-1));
    for memory in unreadable() {
        assert_eq!(memory.raw(), Err(Error::Unsupported));
    }
}

#[test]
fn a_complete_transfer_is_accepted() {
    let request = Request::Read { address: 0x1000, size: 4 };
    assert_eq!(request.size(), 4);
    assert_eq!(request.accept(Some(vec![1, 2, 3, 4])), Ok(vec![1, 2, 3, 4]));
    let nothing = Request::Read { address: 0x1000, size: 0 };
    assert_eq!(nothing.accept(Some(vec![])), Ok(vec![]));
}

#[test]
fn a_short_transfer_is_a_failed_one() {
    let request = Request::Read { address: 0x1000, size: 4 };
    let lost = Error::MemoryRead { address: 0x1000, size: 4 };
    assert_eq!(request.accept(Some(vec![1, 2, 3])), Err(lost));
    assert_eq!(request.accept(Some(vec![])), Err(lost));
    assert_eq!(request.accept(Some(vec![1, 2, 3, 4, 5])), Err(lost));
    assert_eq!(request.accept(None), Err(lost));
    let query = Request::BasicInformation { size: 48 };
    assert_eq!(query.size(), 48);
    assert_eq!(query.accept(Some(vec![0; 47])), Err(Error::ProcessQueryFailed));
    assert_eq!(query.accept(None), Err(Error::ProcessQueryFailed));
    assert_eq!(query.accept(Some(vec![7; 48])), Ok(vec![7; 48]));
}

#[test]
fn search_asks_for_the_range_and_no_more() {
    let memory = MemoryHandle::Process(0x44);
    let searching = search(b"bar", &memory, 0x40_0000, 11).unwrap();
    assert_eq!(searching.request(), Request::Read { address: 0x40_0000, size: 11 });
    let searching = search(b"bar", &memory, 0x40_0000, u32::MAX).unwrap();
    assert_eq!(
        searching.request(),
        Request::Read { address: 0x40_0000, size: u32::MAX as usize }
    );
}

#[test]
fn search_finds_the_pattern_at_its_offset() {
    let memory = MemoryHandle::Process(0x44);
    let haystack = b"foo bar baz".to_vec();
    for (pattern, offset) in [(&b"foo"[..], 0usize), (b"bar", 4), (b"baz", 8), (b"z", 10), (b"o", 1)] {
        let searching = search(pattern, &memory, 0x40_0000, 11).unwrap();
        assert_eq!(searching.resume(Some(haystack.clone())), Ok(Some(offset)));
    }
}

#[test]
fn search_finds_the_pattern_at_every_offset() {
    let memory = MemoryHandle::Process(0x44);
    let pattern = [0x48u8, 0x89, 0x44, 0x24];
    for size in [4usize, 5, 63, 64, 65, 200] {
        for offset in 0..=size - pattern.len() {
            let mut haystack = vec![0x90u8; size];
            haystack[offset..offset + pattern.len()].copy_from_slice(&pattern);
            let searching = search(&pattern, &memory, 0, size as u32).unwrap();
            assert_eq!(searching.resume(Some(haystack)), Ok(Some(offset)));
        }
    }
}

#[test]
fn search_reports_the_first_of_several() {
    let memory = MemoryHandle::Process(0x44);
    let searching = search(b"ab", &memory, 0, 8).unwrap();
    assert_eq!(searching.resume(Some(b"xxabxxab".to_vec())), Ok(Some(2)));
    let searching = search(b"aa", &memory, 0, 4).unwrap();
    assert_eq!(searching.resume(Some(b"aaaa".to_vec())), Ok(Some(0)));
}

#[test]
fn search_misses_a_pattern_that_is_not_there() {
    let memory = MemoryHandle::Process(0x44);
    let searching = search(b"quux", &memory, 0, 11).unwrap();
    assert_eq!(searching.resume(Some(b"foo bar baz".to_vec())), Ok(None));
    let searching = search(b"bar", &memory, 0, 2).unwrap();
    assert_eq!(searching.resume(Some(b"ba".to_vec())), Ok(None));
    let searching = search(b"bar", &memory, 0, 0).unwrap();
    assert_eq!(searching.resume(Some(vec![])), Ok(None));
}

#[test]
fn search_finds_the_empty_pattern_at_the_start() {
    let memory = MemoryHandle::Process(0x44);
    let searching = search(b"", &memory, 0, 3).unwrap();
    assert_eq!(searching.resume(Some(b"abc".to_vec())), Ok(Some(0)));
    let searching = search(b"", &memory, 0, 0).unwrap();
    assert_eq!(searching.resume(Some(vec![])), Ok(Some(0)));
    let searching = search(b"", &memory, 0, 100).unwrap();
    assert_eq!(searching.resume(Some(vec![0x90; 100])), Ok(Some(0)));
}

#[test]
fn search_fails_where_the_range_cannot_be_copied() {
    let memory = MemoryHandle::Process(0x44);
    let lost = Error::MemoryRead { address: 0x40_0000, size: 11 };
    let searching = search(b"bar", &memory, 0x40_0000, 11).unwrap();
    assert_eq!(searching.resume(None), Err(lost));
    let searching = search(b"bar", &memory, 0x40_0000, 11).unwrap();
    assert_eq!(searching.resume(Some(b"foo bar ba".to_vec())), Err(lost));
    let searching = search(b"bar", &memory, 0x40_0000, 11).unwrap();
    assert_eq!(searching.resume(Some(b"foo bar baz!".to_vec())), Err(lost));
}

#[test]
fn search_is_unsupported_on_other_handles() {
    for memory in unreadable() {
        assert!(matches!(search(b"bar", &memory, 0, 11), Err(Error::Unsupported)));
    }
}

#[test]
fn slices_are_copied() {
    assert_eq!(to_vec(&[]), Vec::<u8>::new());
    assert_eq!(to_vec(&[1, 2, 3]), vec![1, 2, 3]);
}
