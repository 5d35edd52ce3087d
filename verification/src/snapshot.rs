//! Scans of a captured address space.
//!
//! A snapshot lists regions together with the bytes they held. It answers a
//! query as the operating system would: with the first region of the list
//! that ends behind the address asked about.

use vstd::prelude::*;
use crate::error::MemoryError;
use crate::process::Process;
use crate::region::{MemoryRegion, RegionCursor, address_space_end, lemma_cursor_advances};
use crate::scanner::{ProcessScan, ScanRequest, is_refusal};
use crate::signature::{
    Cell, first_match, is_first_match, lemma_first_match, lemma_scan_result_is_first_match,
    matches_at,
};
use crate::syntax::parse_text;

verus! {

/// A region of a captured address space and the bytes it held. The region
/// is as long as its bytes.
#[derive(Debug)]
pub struct RegionImage {
    pub base_address: u64,
    pub is_committed: bool,
    pub is_image_backed: bool,
    pub bytes: Vec<u8>,
}

impl RegionImage {
    /// The description of the region.
    pub open spec fn region(&self) -> MemoryRegion {
        MemoryRegion {
            base_address: self.base_address,
            size: self.bytes.len() as u64,
            is_committed: self.is_committed,
            is_image_backed: self.is_image_backed,
        }
    }

    /// The description of the region.
    pub fn describe(&self) -> (region: MemoryRegion)
        ensures
            region == self.region(),
            region.size == self.bytes@.len(),
    {
        MemoryRegion {
            base_address: self.base_address,
            size: self.bytes.len() as u64,
            is_committed: self.is_committed,
            is_image_backed: self.is_image_backed,
        }
    }
}

/// The image at `index` is the first of `images` that ends behind `address`.
pub open spec fn is_first_image_behind(images: Seq<RegionImage>, address: u64, index: int) -> bool {
    &&& 0 <= index < images.len()
    &&& images[index].region().end() > address
    &&& forall|j: int| 0 <= j < index ==> (#[trigger] images[j]).region().end() <= address
}

/// The index of the first of `images` that ends behind `address`: the region
/// that holds `address` or follows it, in a list that is in address order.
pub open spec fn first_image_behind(images: Seq<RegionImage>, address: u64) -> Option<int> {
    if exists|index: int| is_first_image_behind(images, address, index) {
        Some(choose|index: int| is_first_image_behind(images, address, index))
    } else {
        None
    }
}

/// The address at which a scan of `images` that stands at `cursor` finds
/// `pattern`: that of the first match in the first region that the walk
/// reaches, that is scannable, and that holds a match.
pub open spec fn scan_from(
    pattern: Seq<Cell>,
    images: Seq<RegionImage>,
    cursor: RegionCursor,
) -> Option<int>
    decreases address_space_end() - cursor.position(),
{
    match cursor.next {
        None => None,
        Some(address) => match first_image_behind(images, address) {
            None => None,
            Some(index) => {
                let image = images[index];
                let region = image.region();
                if !cursor.admits(region) {
                    None
                } else {
                    match first_match_if(region.scannable(), pattern, image.bytes@) {
                        Some(at) => Some(region.base_address + at),
                        None => scan_from(pattern, images, cursor.after(Some(region))),
                    }
                }
            },
        },
    }
}

/// The first match of `pattern` in `bytes` if they are read at all.
pub open spec fn first_match_if(read: bool, pattern: Seq<Cell>, bytes: Seq<u8>) -> Option<int> {
    if read {
        first_match(pattern, bytes)
    } else {
        None
    }
}

/// The images are not empty, lie inside the address space, and stand in the
/// list in address order without overlap.
pub open spec fn in_address_order(images: Seq<RegionImage>) -> bool {
    &&& forall|i: int|
        0 <= i < images.len() ==> 0 < (#[trigger] images[i]).bytes.len() && images[i].region().end()
            <= address_space_end()
    &&& forall|i: int, j: int|
        0 <= i < j < images.len() ==> (#[trigger] images[i]).region().end()
            <= (#[trigger] images[j]).base_address
}

/// `pattern` matches at the address `hit` inside the image at `index`, which
/// is scannable and ends behind `position`.
pub open spec fn occurs_in(
    pattern: Seq<Cell>,
    images: Seq<RegionImage>,
    position: int,
    index: int,
    hit: int,
) -> bool {
    &&& 0 <= index < images.len()
    &&& images[index].region().scannable()
    &&& images[index].region().end() > position
    &&& matches_at(pattern, images[index].bytes@, hit - images[index].base_address)
}

/// `pattern` matches at the address `hit` inside a scannable image that
/// ends behind `position`.
pub open spec fn occurs_behind(
    pattern: Seq<Cell>,
    images: Seq<RegionImage>,
    position: int,
    hit: int,
) -> bool {
    exists|index: int| occurs_in(pattern, images, position, index, hit)
}

/// `found` is the lowest address behind `position` at which `pattern`
/// matches inside a scannable image, or nothing where there is no such
/// address.
pub open spec fn is_lowest_occurrence(
    pattern: Seq<Cell>,
    images: Seq<RegionImage>,
    position: int,
    found: Option<int>,
) -> bool {
    match found {
        Some(hit) => {
            &&& occurs_behind(pattern, images, position, hit)
            &&& forall|other: int| #[trigger]
                occurs_behind(pattern, images, position, other) ==> hit <= other
        },
        None => forall|other: int| !occurs_behind(pattern, images, position, other),
    }
}

/// Where an image ends behind `address`, one of them is the first in the list.
proof fn lemma_first_image_exists(images: Seq<RegionImage>, address: u64, index: int)
    requires
        0 <= index < images.len(),
        images[index].region().end() > address,
    ensures
        first_image_behind(images, address) matches Some(first) && is_first_image_behind(
            images,
            address,
            first,
        ) && first <= index,
    decreases index,
{
    if exists|j: int| 0 <= j < index && (#[trigger] images[j]).region().end() > address {
        let j = choose|j: int| 0 <= j < index && (#[trigger] images[j]).region().end() > address;
        lemma_first_image_exists(images, address, j);
    } else {
        assert(is_first_image_behind(images, address, index));
    }
}

/// In a snapshot in address order, a scan from `cursor` finds the lowest
/// address behind the cursor at which the signature matches inside a
/// scannable region.
proof fn lemma_scan_from_lowest(pattern: Seq<Cell>, images: Seq<RegionImage>, cursor: RegionCursor)
    requires
        in_address_order(images),
        cursor.fresh || forall|i: int|
            0 <= i < images.len() && (#[trigger] images[i]).region().end() > cursor.position()
                ==> images[i].base_address >= cursor.position(),
    ensures
        is_lowest_occurrence(
            pattern,
            images,
            cursor.position(),
            scan_from(pattern, images, cursor),
        ),
    decreases address_space_end() - cursor.position(),
{
    let position = cursor.position();
    match cursor.next {
        None => {
            // no image ends behind the end of the address space
            assert forall|other: int| !occurs_behind(pattern, images, position, other) by {
                assert forall|index: int| !occurs_in(pattern, images, position, index, other) by {}
            }
        },
        Some(address) => {
            match first_image_behind(images, address) {
                None => {
                    // no image ends behind the cursor
                    assert forall|other: int| !occurs_behind(pattern, images, position, other) by {
                        assert forall|index: int| !occurs_in(
                            pattern,
                            images,
                            position,
                            index,
                            other,
                        ) by {
                            if occurs_in(pattern, images, position, index, other) {
                                lemma_first_image_exists(images, address, index);
                            }
                        }
                    }
                },
                Some(first) => {
                    let image = images[first];
                    let region = image.region();
                    let then = cursor.after(Some(region));
                    assert(is_first_image_behind(images, address, first));
                    assert(cursor.admits(region));
                    // the images that end behind the cursor are this one and the later ones
                    assert forall|index: int|
                        0 <= index < first implies (#[trigger] images[index]).region().end()
                        <= position by {}
                    if region.scannable() {
                        lemma_first_match(pattern, image.bytes@);
                    }
                    match first_match_if(region.scannable(), pattern, image.bytes@) {
                        Some(at) => {
                            // a later image begins where this one ends, or behind that
                            let hit = region.base_address + at;
                            assert(occurs_in(pattern, images, position, first, hit));
                            assert forall|other: int| #[trigger]
                                occurs_behind(pattern, images, position, other) implies hit
                                <= other by {
                                let index = choose|index: int|
                                    occurs_in(pattern, images, position, index, other);
                                if index == first && other < hit {
                                    assert(!matches_at(
                                        pattern,
                                        image.bytes@,
                                        other - region.base_address,
                                    ));
                                }
                            }
                        },
                        None => {
                            // this image holds no match that counts, and the scan goes on
                            // behind it, where the later images lie
                            lemma_scan_from_lowest(pattern, images, then);
                            assert forall|other: int|
                                occurs_behind(pattern, images, position, other) == occurs_behind(
                                    pattern,
                                    images,
                                    then.position(),
                                    other,
                                ) by {
                                if occurs_behind(pattern, images, position, other) {
                                    let index = choose|index: int|
                                        occurs_in(pattern, images, position, index, other);
                                    assert(occurs_in(
                                        pattern,
                                        images,
                                        then.position(),
                                        index,
                                        other,
                                    ));
                                }
                                if occurs_behind(pattern, images, then.position(), other) {
                                    let index = choose|index: int|
                                        occurs_in(pattern, images, then.position(), index, other);
                                    assert(occurs_in(pattern, images, position, index, other));
                                }
                            }
                        },
                    }
                },
            }
        },
    }
}

/// A scan visits the regions of a snapshot lowest address first and stops at
/// the first match: in a snapshot in address order, it finds the lowest
/// address at which the signature matches inside a scannable region that
/// ends behind the start address, and nothing where there is no such
/// address. A match that would begin in one region and end in another
/// counts for neither.
pub proof fn lemma_scan_finds_lowest_address(
    pattern: Seq<Cell>,
    images: Seq<RegionImage>,
    start_address: u64,
)
    requires
        in_address_order(images),
    ensures
        is_lowest_occurrence(
            pattern,
            images,
            start_address as int,
            scan_from(pattern, images, RegionCursor::starting_at(start_address)),
        ),
{
    lemma_scan_from_lowest(pattern, images, RegionCursor::starting_at(start_address));
}

/// Finds the first of `images` that ends behind `address`.
pub fn find_image(images: &Vec<RegionImage>, address: u64) -> (found: Option<usize>)
    ensures
        match found {
            Some(index) => first_image_behind(images@, address) == Some(index as int),
            None => first_image_behind(images@, address) is None,
        },
{
    let mut index: usize = 0;
    while index < images.len()
        invariant
            index <= images@.len(),
            forall|j: int| 0 <= j < index ==> (#[trigger] images@[j]).region().end() <= address,
        decreases images@.len() - index,
    {
        let region: MemoryRegion = images[index].describe();
        if region.size > u64::MAX - region.base_address || region.base_address + region.size
            > address {
            assert(is_first_image_behind(images@, address, index as int));
            return Some(index);
        }
        index += 1;
    }
    assert forall|i: int| !is_first_image_behind(images@, address, i) by {}
    None
}

/// Scans a captured address space of `process` for the signature `pattern`,
/// from `start_address` on, and returns the address of the match.
///
/// A process whose handle was never opened, or was released, is refused with
/// [`MemoryError::InvalidHandle`], whatever else is asked. On a usable
/// handle, `pattern` is refused with [`MemoryError::Parse`] if it is no
/// signature text. Nothing is found where no scannable region holds a match:
/// that is no error.
pub fn sig_scan(
    process: &Process,
    images: &Vec<RegionImage>,
    pattern: &str,
    start_address: u64,
) -> (outcome: Result<Option<u64>, MemoryError>)
    ensures
        match outcome {
            Ok(found) => {
                &&& process.usable()
                &&& parse_text(pattern@) matches Some(cells)
                &&& match found {
                    Some(hit) => scan_from(cells, images@, RegionCursor::starting_at(start_address))
                        == Some(hit as int),
                    None => scan_from(cells, images@, RegionCursor::starting_at(start_address))
                        is None,
                }
            },
            Err(error) => is_refusal(process, pattern@, error),
        },
{
    let mut scan: ProcessScan = match ProcessScan::new(process, pattern, start_address) {
        Ok(scan) => scan,
        Err(error) => {
            return Err(error);
        },
    };
    let ghost cells = scan.pattern();
    let ghost goal = scan_from(cells, images@, RegionCursor::starting_at(start_address));
    let mut reading: usize = 0;
    loop
        invariant
            process.usable(),
            scan.pattern() == cells,
            parse_text(pattern@) == Some(cells),
            goal == scan_from(cells, images@, RegionCursor::starting_at(start_address)),
            match scan.pending() {
                ScanRequest::Query { address } => goal == scan_from(cells, images@, scan.cursor()),
                ScanRequest::Read { address, length } => {
                    &&& reading < images@.len()
                    &&& address == images@[reading as int].base_address
                    &&& length == images@[reading as int].bytes@.len()
                    &&& goal == match first_match(cells, images@[reading as int].bytes@) {
                        Some(at) => Some(address + at),
                        None => scan_from(cells, images@, scan.cursor()),
                    }
                },
                ScanRequest::Done { found } => match found {
                    Some(hit) => goal == Some(hit as int),
                    None => goal is None,
                },
            },
        decreases
                address_space_end() - scan.cursor().position(),
                if scan.pending() is Read {
                    1int
                } else {
                    0int
                },
    {
        let ghost before = scan.cursor();
        match scan.request() {
            ScanRequest::Query { address } => {
                match find_image(images, address) {
                    Some(index) => {
                        reading = index;
                        let region: MemoryRegion = images[index].describe();
                        proof {
                            lemma_cursor_advances(before, Some(region));
                        }
                        scan.region_reported(Some(region));
                        assert(region.scannable() && before.admits(region) ==> goal
                            == match first_match(cells, images@[index as int].bytes@) {
                            Some(at) => Some(region.base_address + at),
                            None => scan_from(cells, images@, scan.cursor()),
                        });
                    },
                    None => {
                        proof {
                            lemma_cursor_advances(before, None);
                        }
                        scan.region_reported(None);
                    },
                }
            },
            ScanRequest::Read { address, length } => {
                let ghost bytes = images@[reading as int].bytes@;
                scan.bytes_read(images[reading].bytes.as_slice());
                proof {
                    match scan.pending() {
                        ScanRequest::Done { found: Some(hit) } => {
                            lemma_scan_result_is_first_match(
                                cells,
                                bytes,
                                Some((hit - address) as u64),
                            );
                        },
                        _ => {
                            lemma_scan_result_is_first_match(cells, bytes, None);
                        },
                    }
                }
            },
            ScanRequest::Done { found } => {
                return Ok(found);
            },
        }
    }
}

} // verus!
