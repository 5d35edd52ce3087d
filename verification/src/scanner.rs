//! The scan of a whole process, one request at a time.
//!
//! A scan walks the regions of the target from a start address. It reads
//! every region that is committed and is no part of a module's image, looks
//! for the signature in it, and stops at the first region that holds a match.
//! Each region is searched by itself: a match that would begin in one region
//! and end in the next is not found.
//!
//! The scan itself touches no memory. It says what it needs next, a region
//! description or the bytes of a region, and the caller supplies it. It is
//! started on a process whose handle is usable, and on no other.

use vstd::prelude::*;
use crate::error::MemoryError;
use crate::process::Process;
use crate::region::{MemoryRegion, RegionCursor, address_space_end};
use crate::signature::{Cell, Signature, is_first_match, no_match};
use crate::syntax::parse_text;

verus! {

/// What a scan needs next from its caller.
#[derive(Clone, Copy, Debug, PartialEq, Eq, Structural)]
pub enum ScanRequest {
    /// Describe the region that holds `address`, or the next one behind it.
    Query { address: u64 },
    /// Read `length` bytes at `address`.
    Read { address: u64, length: u64 },
    /// Nothing: the scan is over, with the address of the match if there is one.
    Done { found: Option<u64> },
}

/// The request of a scan that has just moved its cursor: ask about the next
/// region, or stop without a match at the end of the walk.
pub open spec fn resume(cursor: RegionCursor) -> ScanRequest {
    match cursor.next {
        Some(address) => ScanRequest::Query { address },
        None => ScanRequest::Done { found: None },
    }
}

/// The request that follows the answer `reported` to a query: read the region
/// if the walk hands it out and it is scannable, pass over it if it is not,
/// stop if the walk has ended.
pub open spec fn request_after_region(
    cursor: RegionCursor,
    reported: Option<MemoryRegion>,
) -> ScanRequest {
    match cursor.yields(reported) {
        Some(region) => if region.scannable() {
            ScanRequest::Read { address: region.base_address, length: region.size }
        } else {
            resume(cursor.after(reported))
        },
        None => ScanRequest::Done { found: None },
    }
}

/// `next` is the request that follows reading `bytes` at `address`: stop at
/// the address of the first match in `bytes`, or go on from `cursor` if
/// `bytes` holds none.
pub open spec fn is_request_after_bytes(
    pattern: Seq<Cell>,
    address: u64,
    bytes: Seq<u8>,
    cursor: RegionCursor,
    next: ScanRequest,
) -> bool {
    match next {
        ScanRequest::Done { found: Some(hit) } => {
            &&& address <= hit
            &&& is_first_match(pattern, bytes, hit - address)
        },
        _ => no_match(pattern, bytes) && next == resume(cursor),
    }
}

/// `error` is why a scan of `process` for the signature text `pattern` is
/// refused: the handle is not usable, or it is and the text is malformed.
pub open spec fn is_refusal(process: &Process, pattern: Seq<char>, error: MemoryError) -> bool {
    if process.usable() {
        error == MemoryError::Parse && parse_text(pattern) is None
    } else {
        error == MemoryError::InvalidHandle
    }
}

/// A scan on a handle that has been closed is refused with
/// [`MemoryError::InvalidHandle`] and nothing else, whatever is searched for.
pub proof fn lemma_scan_after_close_is_refused(
    process: Process,
    pattern: Seq<char>,
    error: MemoryError,
)
    ensures
        is_refusal(&process.closed(), pattern, error) <==> error == MemoryError::InvalidHandle,
{
}

/// What a scan is doing.
#[derive(Clone, Copy, Debug, PartialEq, Eq, Structural)]
enum Phase {
    /// Walking the regions: the next region is asked for at the cursor.
    Walking,
    /// Waiting for the bytes of a region.
    Reading { address: u64, length: u64 },
    /// Over.
    Finished { found: Option<u64> },
}

/// A scan of a whole process in progress.
#[derive(Debug)]
pub struct ProcessScan {
    signature: Signature,
    cursor: RegionCursor,
    phase: Phase,
}

impl ProcessScan {
    #[verifier::type_invariant]
    spec fn well_formed(&self) -> bool {
        self.phase matches Phase::Reading { address, length } ==> address + length
            <= address_space_end()
    }

    /// The cells of the signature that is searched for.
    pub closed spec fn pattern(&self) -> Seq<Cell> {
        self.signature@
    }

    /// The place of the walk over the regions.
    pub closed spec fn cursor(&self) -> RegionCursor {
        self.cursor
    }

    /// What the scan needs next.
    pub closed spec fn pending(&self) -> ScanRequest {
        match self.phase {
            Phase::Walking => resume(self.cursor),
            Phase::Reading { address, length } => ScanRequest::Read { address, length },
            Phase::Finished { found } => ScanRequest::Done { found },
        }
    }

    /// Starts a scan of `process` for the signature `pattern` at
    /// `start_address`.
    ///
    /// A process whose handle was never opened, or was released, is refused
    /// with [`MemoryError::InvalidHandle`], whatever `pattern` holds. On a
    /// usable handle, `pattern` is refused with [`MemoryError::Parse`] if it
    /// is no signature text.
    pub fn new(process: &Process, pattern: &str, start_address: u64) -> (started: Result<
        ProcessScan,
        MemoryError,
    >)
        ensures
            match started {
                Ok(scan) => {
                    &&& process.usable()
                    &&& parse_text(pattern@) == Some(scan.pattern())
                    &&& scan.cursor() == RegionCursor::starting_at(start_address)
                    &&& scan.pending() == (ScanRequest::Query { address: start_address })
                },
                Err(error) => is_refusal(process, pattern@, error),
            },
    {
        if let Err(error) = process.raw_handle() {
            return Err(error);
        }
        match Signature::new(pattern) {
            Ok(signature) => Ok(
                ProcessScan {
                    signature,
                    cursor: RegionCursor::new(start_address),
                    phase: Phase::Walking,
                },
            ),
            Err(error) => Err(error),
        }
    }

    /// What the scan needs next.
    pub fn request(&self) -> (request: ScanRequest)
        ensures
            request == self.pending(),
            request matches ScanRequest::Query { address } ==> self.cursor().next == Some(address),
            request matches ScanRequest::Read { address, length } ==> address + length
                <= address_space_end(),
    {
        proof {
            use_type_invariant(self);
        }
        match self.phase {
            Phase::Walking => match self.cursor.query_address() {
                Some(address) => ScanRequest::Query { address },
                None => ScanRequest::Done { found: None },
            },
            Phase::Reading { address, length } => ScanRequest::Read { address, length },
            Phase::Finished { found } => ScanRequest::Done { found },
        }
    }

    /// Takes the answer to a query: the region that the operating system
    /// described, or nothing where it could describe none. Returns what the
    /// scan needs next.
    ///
    /// The walk moves behind the region whether or not it is read. A scan that
    /// has not asked for a region stays as it is.
    pub fn region_reported(&mut self, reported: Option<MemoryRegion>) -> (next: ScanRequest)
        ensures
            next == final(self).pending(),
            final(self).pattern() == old(self).pattern(),
            old(self).pending() is Query ==> {
                &&& final(self).cursor() == old(self).cursor().after(reported)
                &&& final(self).pending() == request_after_region(old(self).cursor(), reported)
            },
            !(old(self).pending() is Query) ==> {
                &&& final(self).cursor() == old(self).cursor()
                &&& final(self).pending() == old(self).pending()
            },
    {
        if self.phase == Phase::Walking && !self.cursor.is_finished() {
            let mut cursor: RegionCursor = self.cursor;
            let yielded: Option<MemoryRegion> = cursor.advance(reported);
            self.cursor = cursor;
            match yielded {
                Some(region) => {
                    if region.is_scannable() {
                        self.phase =
                        Phase::Reading { address: region.base_address, length: region.size };
                    }
                },
                None => {
                    self.phase = Phase::Finished { found: None };
                },
            }
        }
        self.request()
    }

    /// Takes the bytes that were read for a `Read` request and returns what
    /// the scan needs next: nothing more if the signature matches in them,
    /// and the next region otherwise.
    ///
    /// A scan that has not asked for bytes, or has asked for another number of
    /// them, stays as it is.
    pub fn bytes_read(&mut self, bytes: &[u8]) -> (next: ScanRequest)
        ensures
            next == final(self).pending(),
            final(self).pattern() == old(self).pattern(),
            final(self).cursor() == old(self).cursor(),
            match old(self).pending() {
                ScanRequest::Read { address, length } if bytes@.len() == length => {
                    is_request_after_bytes(
                        old(self).pattern(),
                        address,
                        bytes@,
                        old(self).cursor(),
                        final(self).pending(),
                    )
                },
                _ => final(self).pending() == old(self).pending(),
            },
    {
        proof {
            use_type_invariant(&*self);
        }
        match self.phase {
            Phase::Reading { address, length } => {
                if bytes.len() as u64 == length {
                    match self.signature.scan(bytes) {
                        Some(offset) => {
                            self.phase = Phase::Finished { found: Some(address + offset) };
                        },
                        None => {
                            self.phase = Phase::Walking;
                        },
                    }
                }
            },
            _ => {},
        }
        self.request()
    }
}

} // verus!
