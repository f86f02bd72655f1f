//! Access to the memory of another process, stated as requests.
//!
//! Nothing here performs a read. A function of this module says which bytes
//! have to be fetched, as a [`Request`]; the embedding program fetches them
//! and reports what it got, `None` where the system refused the transfer.
//! [`Request::accept`] then decides whether the transfer counts.

use crate::error::Error;
use vstd::prelude::*;

verus! {

/// The kinds of memory that a handle can stand for. Only a running process
/// can be read; every operation on another kind is answered with
/// [`Error::Unsupported`].
#[derive(Clone, Copy, Debug, PartialEq, Eq, Structural)]
pub enum MemoryHandle {
    /// The memory of the running program itself.
    Own,
    /// The memory of a running process, with the system's handle to it.
    Process(isize),
    /// A file, with the system's handle to it.
    File(isize),
    /// Kernel memory, with the system's handle to the device.
    Kernel(isize),
    /// A memory dump.
    Dump,
}

impl MemoryHandle {
    /// The system handle behind a process handle.
    pub open spec fn spec_raw(self) -> Result<isize, Error> {
        match self {
            MemoryHandle::Process(handle) => Ok(handle),
            _ => Err(Error::Unsupported),
        }
    }

    /// The system handle to pass to the system's own calls, and to close
    /// when the snapshot is over.
    pub fn raw(&self) -> (handle: Result<isize, Error>)
        ensures
            handle == self.spec_raw(),
    {
        match self {
            MemoryHandle::Process(handle) => Ok(*handle),
            _ => Err(Error::Unsupported),
        }
    }
}

/// Something that the embedding program has to fetch.
#[derive(Clone, Copy, Debug, PartialEq, Eq, Structural)]
pub enum Request {
    /// The basic information block that the system keeps about the process.
    BasicInformation { size: usize },
    /// The bytes of the process's memory from `address` on.
    Read { address: u64, size: usize },
}

/// The bytes of an outcome, as a sequence.
pub open spec fn delivered(outcome: Option<Vec<u8>>) -> Option<Seq<u8>> {
    match outcome {
        Some(bytes) => Some(bytes@),
        None => None,
    }
}

impl Request {
    /// The number of bytes asked for.
    pub open spec fn spec_size(&self) -> usize {
        match *self {
            Request::BasicInformation { size } => size,
            Request::Read { size, .. } => size,
        }
    }

    /// The number of bytes asked for.
    #[verifier::when_used_as_spec(spec_size)]
    pub fn size(&self) -> (size: usize)
        ensures
            size == self.spec_size(),
    {
        match self {
            Request::BasicInformation { size } => *size,
            Request::Read { size, .. } => *size,
        }
    }

    /// The error that stands for a transfer that did not deliver.
    pub open spec fn fault(self) -> Error {
        match self {
            Request::BasicInformation { .. } => Error::ProcessQueryFailed,
            Request::Read { address, size } => Error::MemoryRead { address, size },
        }
    }

    /// A transfer counts only if it delivered every byte asked for.
    pub open spec fn accepts(self, outcome: Option<Seq<u8>>) -> bool {
        outcome matches Some(bytes) && bytes.len() == self.spec_size()
    }

    /// Takes the outcome of the transfer. A short transfer is a failed one.
    pub fn accept(&self, outcome: Option<Vec<u8>>) -> (result: Result<Vec<u8>, Error>)
        ensures
            self.accepts(delivered(outcome)) ==> result is Ok && Some(result->Ok_0) == outcome,
            !self.accepts(delivered(outcome)) ==> result == Err::<Vec<u8>, Error>(self.fault()),
    {
        match outcome {
            Some(bytes) => {
                if bytes.len() == self.size() {
                    Ok(bytes)
                } else {
                    Err(self.failure())
                }
            },
            None => Err(self.failure()),
        }
    }

    fn failure(&self) -> (error: Error)
        ensures
            error == self.fault(),
    {
        match self {
            Request::BasicInformation { .. } => Error::ProcessQueryFailed,
            Request::Read { address, size } => Error::MemoryRead { address: *address, size: *size },
        }
    }
}

/// How far a reader has come.
pub enum Step<M, T> {
    /// The reader waits for the outcome of its request.
    Pending(M),
    /// The reader has its result.
    Done(T),
    /// The reader gave up.
    Failed(Error),
}

impl<M: View, T: View> View for Step<M, T> {
    type V = Step<M::V, T::V>;

    open spec fn view(&self) -> Step<M::V, T::V> {
        match *self {
            Step::Pending(reader) => Step::Pending(reader@),
            Step::Done(result) => Step::Done(result@),
            Step::Failed(error) => Step::Failed(error),
        }
    }
}

/// The request that `copy` answers with.
pub open spec fn copy_request(memory: MemoryHandle, address: u64, size: usize) -> Result<
    Request,
    Error,
> {
    if memory is Process {
        Ok(Request::Read { address, size })
    } else {
        Err(Error::Unsupported)
    }
}

/// Asks for a copy of the `size` bytes at `address`.
pub fn copy(memory: &MemoryHandle, address: u64, size: usize) -> (request: Result<Request, Error>)
    ensures
        request == copy_request(*memory, address, size),
{
    match memory {
        MemoryHandle::Process(_) => Ok(Request::Read { address, size }),
        _ => Err(Error::Unsupported),
    }
}

/// The request that `copy_array` answers with.
pub open spec fn copy_array_request(
    memory: MemoryHandle,
    address: u64,
    element_size: usize,
    count: usize,
) -> Result<Request, Error> {
    if element_size * count > usize::MAX {
        Err(Error::SizeOverflow)
    } else {
        copy_request(memory, address, (element_size * count) as usize)
    }
}

/// Asks for a copy of `count` adjacent elements of `element_size` bytes
/// each, the first of them at `address`. An array whose size in bytes does
/// not fit in `usize` is refused before anything else is looked at.
pub fn copy_array(memory: &MemoryHandle, address: u64, element_size: usize, count: usize) -> (request:
    Result<Request, Error>)
    ensures
        request == copy_array_request(*memory, address, element_size, count),
        element_size * count > usize::MAX ==> request == Err::<Request, Error>(Error::SizeOverflow),
{
    match element_size.checked_mul(count) {
        Some(size) => copy(memory, address, size),
        None => Err(Error::SizeOverflow),
    }
}

/// `pattern` lies in `haystack` at offset `at`.
pub open spec fn occurs_at(haystack: Seq<u8>, pattern: Seq<u8>, at: int) -> bool {
    &&& 0 <= at
    &&& at + pattern.len() <= haystack.len()
    &&& forall|i: int| 0 <= i < pattern.len() ==> haystack[at + i] == #[trigger] pattern[i]
}

/// `found` is the offset of the first occurrence of `pattern` in
/// `haystack`, or `None` where there is no occurrence.
pub open spec fn is_first_occurrence(haystack: Seq<u8>, pattern: Seq<u8>, found: Option<usize>) -> bool {
    match found {
        Some(at) => occurs_at(haystack, pattern, at as int) && forall|k: int|
            0 <= k < at ==> !occurs_at(haystack, pattern, k),
        None => forall|k: int| !occurs_at(haystack, pattern, k),
    }
}

/// The offset of the first occurrence of `pattern` in `haystack` at or
/// behind `start`.
pub open spec fn first_occurrence_from(haystack: Seq<u8>, pattern: Seq<u8>, start: int) -> Option<
    usize,
>
    decreases haystack.len() - start,
{
    if start < 0 || start + pattern.len() > haystack.len() {
        None
    } else if occurs_at(haystack, pattern, start) {
        Some(#[verifier::truncate] (start as usize))
    } else {
        first_occurrence_from(haystack, pattern, start + 1)
    }
}

/// The offset of the first occurrence of `pattern` in `haystack`.
pub open spec fn first_occurrence(haystack: Seq<u8>, pattern: Seq<u8>) -> Option<usize> {
    first_occurrence_from(haystack, pattern, 0)
}

/// A scan from `start` on finds the first occurrence at or behind `start`.
proof fn lemma_scan(haystack: Seq<u8>, pattern: Seq<u8>, start: int)
    requires
        0 <= start,
        haystack.len() <= usize::MAX,
    ensures
        match first_occurrence_from(haystack, pattern, start) {
            Some(at) => start <= at && occurs_at(haystack, pattern, at as int) && forall|k: int|
                start <= k < at ==> !occurs_at(haystack, pattern, k),
            None => forall|k: int| start <= k ==> !occurs_at(haystack, pattern, k),
        },
    decreases haystack.len() - start,
{
    if start + pattern.len() > haystack.len() {
    } else if occurs_at(haystack, pattern, start) {
    } else {
        lemma_scan(haystack, pattern, start + 1);
    }
}

/// There is one first occurrence: whatever meets `is_first_occurrence` is
/// what a scan from the start finds.
pub proof fn lemma_first_occurrence(haystack: Seq<u8>, pattern: Seq<u8>, found: Option<usize>)
    requires
        haystack.len() <= usize::MAX,
    ensures
        is_first_occurrence(haystack, pattern, found) <==> found == first_occurrence(
            haystack,
            pattern,
        ),
{
    lemma_scan(haystack, pattern, 0);
    let scanned = first_occurrence(haystack, pattern);
    if is_first_occurrence(haystack, pattern, found) {
        match (found, scanned) {
            (Some(a), Some(b)) => {
                if a < b {
                    assert(occurs_at(haystack, pattern, a as int));
                } else if b < a {
                    assert(occurs_at(haystack, pattern, b as int));
                }
            },
            (Some(a), None) => {
                assert(occurs_at(haystack, pattern, a as int));
            },
            (None, Some(b)) => {
                assert(occurs_at(haystack, pattern, b as int));
            },
            (None, None) => {},
        }
    }
}

/// A pattern that lies in the haystack is found, at the first offset at
/// which it lies: at `at` itself where it lies at no earlier offset.
pub proof fn lemma_search_finds(haystack: Seq<u8>, pattern: Seq<u8>, at: int)
    requires
        haystack.len() <= usize::MAX,
        occurs_at(haystack, pattern, at),
    ensures
        first_occurrence(haystack, pattern) is Some,
        first_occurrence(haystack, pattern)->Some_0 <= at,
        occurs_at(haystack, pattern, first_occurrence(haystack, pattern)->Some_0 as int),
        (forall|k: int| 0 <= k < at ==> !occurs_at(haystack, pattern, k)) ==> first_occurrence(
            haystack,
            pattern,
        ) == Some(at as usize),
{
    lemma_scan(haystack, pattern, 0);
    let found = first_occurrence(haystack, pattern);
    if found is Some && found->Some_0 > at {
        assert(!occurs_at(haystack, pattern, at));
    }
    if forall|k: int| 0 <= k < at ==> !occurs_at(haystack, pattern, k) {
        if found->Some_0 < at {
            assert(occurs_at(haystack, pattern, found->Some_0 as int));
        }
    }
}

/// A pattern that lies nowhere in the haystack is not found.
pub proof fn lemma_search_misses(haystack: Seq<u8>, pattern: Seq<u8>)
    requires
        haystack.len() <= usize::MAX,
        forall|k: int| !occurs_at(haystack, pattern, k),
    ensures
        first_occurrence(haystack, pattern) is None,
{
    lemma_scan(haystack, pattern, 0);
    let found = first_occurrence(haystack, pattern);
    if found is Some {
        assert(occurs_at(haystack, pattern, found->Some_0 as int));
    }
}

/// Calls `memchr::memmem::find`, which returns the index of the first
/// occurrence of the needle in the haystack and `None` where the needle
/// does not occur. The empty needle occurs at every offset, so it is found
/// at offset 0.
#[verifier::external_body]
fn find(haystack: &[u8], needle: &[u8]) -> (found: Option<usize>)
    ensures
        is_first_occurrence(haystack@, needle@, found),
{
    memchr::memmem::find(haystack, needle)
}

/// A search for a byte pattern in a range of the process's memory. The
/// range is copied whole and searched locally.
pub struct Search {
    pattern: Vec<u8>,
    request: Request,
}

impl Search {
    /// The pattern that is looked for.
    pub closed spec fn pattern(self) -> Seq<u8> {
        self.pattern@
    }

    /// The range that has to be copied.
    pub closed spec fn spec_request(&self) -> Request {
        self.request
    }

    /// The range that has to be copied.
    #[verifier::when_used_as_spec(spec_request)]
    pub fn request(&self) -> (request: Request)
        ensures
            request == self.spec_request(),
    {
        self.request
    }

    /// What the search comes to on `outcome`.
    pub open spec fn finish(self, outcome: Option<Seq<u8>>) -> Result<Option<usize>, Error> {
        if self.spec_request().accepts(outcome) {
            Ok(first_occurrence(outcome->Some_0, self.pattern()))
        } else {
            Err(self.spec_request().fault())
        }
    }

    /// Searches the copied range. The offset that comes back counts from
    /// the start of the range.
    pub fn resume(self, outcome: Option<Vec<u8>>) -> (result: Result<Option<usize>, Error>)
        ensures
            result == self.finish(delivered(outcome)),
    {
        match self.request.accept(outcome) {
            Ok(haystack) => {
                let found = find(haystack.as_slice(), self.pattern.as_slice());
                proof {
                    lemma_first_occurrence(haystack@, self.pattern@, found);
                }
                Ok(found)
            },
            Err(error) => Err(error),
        }
    }
}

/// Starts a search for `pattern` in the `size` bytes from `base` on. No
/// byte outside that range is ever asked for.
pub fn search(pattern: &[u8], memory: &MemoryHandle, base: u64, size: u32) -> (search: Result<
    Search,
    Error,
>)
    ensures
        match search {
            Ok(search) => memory is Process && search.pattern() == pattern@ && search.spec_request()
                == (Request::Read { address: base, size: size as usize }),
            Err(error) => !(memory is Process) && error == Error::Unsupported,
        },
{
    match copy_array(memory, base, 1, size as usize) {
        Ok(request) => Ok(Search { pattern: to_vec(pattern), request }),
        Err(_) => Err(Error::Unsupported),
    }
}

/// Copies a slice of bytes into a vector.
pub fn to_vec(bytes: &[u8]) -> (copy: Vec<u8>)
    ensures
        copy@ == bytes@,
{
    let mut copy: Vec<u8> = Vec::new();
    let mut i: usize = 0;
    while i < bytes.len()
        invariant
            i <= bytes@.len(),
            copy@ == bytes@.subrange(0, i as int),
        decreases bytes@.len() - i,
    {
        copy.push(bytes[i]);
        i += 1;
    }
    copy
}

} // verus!
