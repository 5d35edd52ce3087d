//! Regions of an address space, and the walk over them.
//!
//! The caller asks the operating system which region holds the address the
//! cursor stands at, or follows it, and hands the answer to the cursor. The
//! cursor moves to the end of that region, whether or not anyone reads it.
//! The walk ends with the first answer that would not move it forward, or
//! that reaches back into a region it has passed.

use vstd::prelude::*;

verus! {

/// One past the highest address: 2 to the power of 64.
pub open spec fn address_space_end() -> int {
    u64::MAX + 1
}

/// A contiguous range of an address space with uniform attributes.
#[derive(Clone, Copy, Debug, PartialEq, Eq, Structural)]
pub struct MemoryRegion {
    pub base_address: u64,
    pub size: u64,
    /// Backed by storage, not merely reserved.
    pub is_committed: bool,
    /// Mapped from the file of a loaded module.
    pub is_image_backed: bool,
}

impl MemoryRegion {
    /// One past the last address of the region.
    pub open spec fn end(self) -> int {
        self.base_address + self.size
    }

    /// A scan of a whole process reads the region: it is committed and is no
    /// part of a module's image.
    pub open spec fn scannable(self) -> bool {
        self.is_committed && !self.is_image_backed
    }

    /// Whether a scan of a whole process reads the region.
    pub fn is_scannable(&self) -> (yes: bool)
        ensures
            yes == self.scannable(),
    {
        self.is_committed && !self.is_image_backed
    }
}

/// The place of a walk over the regions of an address space.
#[derive(Clone, Copy, Debug, PartialEq, Eq, Structural)]
pub struct RegionCursor {
    /// The address to ask about next; nothing once the walk has ended.
    pub next: Option<u64>,
    /// No answer has been taken yet.
    pub fresh: bool,
}

impl RegionCursor {
    /// How far the walk has come: the address to ask about next, or the end
    /// of the address space once the walk has ended.
    pub open spec fn position(self) -> int {
        match self.next {
            Some(address) => address as int,
            None => address_space_end(),
        }
    }

    /// The walk has ended.
    pub open spec fn finished(self) -> bool {
        self.next is None
    }

    /// The cursor of a walk that starts at `start`.
    pub open spec fn starting_at(start: u64) -> RegionCursor {
        RegionCursor { next: Some(start), fresh: true }
    }

    /// `region` is an answer that moves the walk forward: it is not empty and
    /// ends inside the address space and behind the cursor. The first region
    /// of a walk may begin before the cursor, as the region that holds the
    /// start address does; every later one begins at the cursor or behind it.
    pub open spec fn admits(self, region: MemoryRegion) -> bool {
        &&& self.next is Some
        &&& region.size > 0
        &&& self.fresh || self.position() <= region.base_address
        &&& self.position() < region.end() <= address_space_end()
    }

    /// The region that the walk hands out for the answer `reported`.
    pub open spec fn yields(self, reported: Option<MemoryRegion>) -> Option<MemoryRegion> {
        match reported {
            Some(region) => if self.admits(region) {
                Some(region)
            } else {
                None
            },
            None => None,
        }
    }

    /// The cursor after the answer `reported`: at the end of an admitted
    /// region, and at the end of the walk after anything else.
    pub open spec fn after(self, reported: Option<MemoryRegion>) -> RegionCursor {
        match self.yields(reported) {
            Some(region) => RegionCursor {
                next: if region.end() < address_space_end() {
                    Some(region.end() as u64)
                } else {
                    None
                },
                fresh: false,
            },
            None => RegionCursor { next: None, fresh: false },
        }
    }

    /// The regions that the walk hands out for the answers `reports`, given
    /// in the order in which they came.
    pub open spec fn walk(self, reports: Seq<Option<MemoryRegion>>) -> Seq<MemoryRegion>
        decreases reports.len(),
    {
        if reports.len() == 0 {
            Seq::empty()
        } else {
            match self.yields(reports[0]) {
                Some(region) => seq![region] + self.after(reports[0]).walk(reports.skip(1)),
                None => Seq::empty(),
            }
        }
    }

    /// Starts a walk at `start`.
    pub fn new(start: u64) -> (cursor: RegionCursor)
        ensures
            cursor == RegionCursor::starting_at(start),
    {
        RegionCursor { next: Some(start), fresh: true }
    }

    /// The address to ask the operating system about, or nothing once the
    /// walk has ended.
    pub fn query_address(&self) -> (address: Option<u64>)
        ensures
            address == self.next,
    {
        self.next
    }

    /// Whether the walk has ended.
    pub fn is_finished(&self) -> (yes: bool)
        ensures
            yes == self.finished(),
    {
        self.next.is_none()
    }

    /// Takes the answer to the query at the cursor's address: the region the
    /// operating system described, or nothing where it could describe none.
    ///
    /// Returns the region if it moves the walk forward, and moves the cursor
    /// to its end. Any other answer ends the walk.
    pub fn advance(&mut self, reported: Option<MemoryRegion>) -> (yielded: Option<MemoryRegion>)
        ensures
            yielded == old(self).yields(reported),
            *final(self) == old(self).after(reported),
    {
        let address: Option<u64> = self.next;
        let fresh: bool = self.fresh;
        self.next = None;
        self.fresh = false;
        match (address, reported) {
            (Some(address), Some(region)) => {
                if region.size == 0 || (!fresh && region.base_address < address) {
                    return None;
                }
                match region.base_address.checked_add(region.size) {
                    Some(end) => {
                        if end <= address {
                            return None;
                        }
                        self.next = Some(end);
                    },
                    None => {
                        if region.size - 1 > u64::MAX - region.base_address {
                            return None;
                        }
                    },
                }
                Some(region)
            },
            _ => None,
        }
    }
}

/// Every answer moves an unfinished walk forward: to the end of the region
/// it hands out, or to its own end.
pub proof fn lemma_cursor_advances(cursor: RegionCursor, reported: Option<MemoryRegion>)
    requires
        !cursor.finished(),
    ensures
        cursor.position() < cursor.after(reported).position() <= address_space_end(),
        cursor.yields(reported) matches Some(region) ==> cursor.after(reported).position()
            == region.end(),
{
}

/// A walk that has ended stays ended and hands out nothing more.
pub proof fn lemma_finished_walk_stays(cursor: RegionCursor, reported: Option<MemoryRegion>)
    requires
        cursor.finished(),
    ensures
        cursor.yields(reported) is None,
        cursor.after(reported).finished(),
{
}

/// The regions of a walk lie behind one another without overlap: each ends
/// behind the cursor, none but the first begins before the cursor, and each
/// begins where an earlier one ends, or behind that. So the base addresses
/// never decrease along a walk.
pub proof fn lemma_walk_ordered(cursor: RegionCursor, reports: Seq<Option<MemoryRegion>>)
    ensures
        cursor.walk(reports).len() <= reports.len(),
        forall|i: int|
            0 <= i < cursor.walk(reports).len() ==> {
                let region = #[trigger] cursor.walk(reports)[i];
                &&& region.size > 0
                &&& cursor.position() < region.end() <= address_space_end()
                &&& i > 0 || !cursor.fresh ==> cursor.position() <= region.base_address
            },
        forall|i: int, j: int|
            0 <= i < j < cursor.walk(reports).len() ==> {
                let earlier = #[trigger] cursor.walk(reports)[i];
                let later = #[trigger] cursor.walk(reports)[j];
                &&& earlier.end() <= later.base_address
                &&& earlier.base_address < later.base_address
            },
    decreases reports.len(),
{
    if reports.len() > 0 {
        match cursor.yields(reports[0]) {
            Some(region) => {
                let then = cursor.after(reports[0]);
                let tail = then.walk(reports.skip(1));
                lemma_walk_ordered(then, reports.skip(1));
                // the walk hands out `region` and then what it hands out behind it
                assert(cursor.walk(reports) =~= seq![region] + tail);
            },
            None => {},
        }
    }
}

} // verus!
