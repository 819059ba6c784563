//! Which parts of a resource have yet to be given their first value.

use crate::storage::{BufferId, TextureId};
use std::ops::Range;
use vstd::prelude::*;

verus! {

/// What a use of memory means for its first value.
#[derive(Clone, Copy, Debug, PartialEq, Eq, Structural)]
pub enum MemoryInitKind {
    /// The use writes all of the memory.
    ImplicitlyInitialized,
    /// The use reads the memory, which must have been written before.
    NeedsInitializedMemory,
}

/// A range of a buffer that a use touches and that may hold bytes never written.
#[derive(Debug, PartialEq, Eq)]
pub struct BufferInitTrackerAction {
    pub id: BufferId,
    pub range: Range<u64>,
    pub kind: MemoryInitKind,
}

/// Mip levels and array layers of a texture.
#[derive(Debug, PartialEq, Eq)]
pub struct TextureInitRange {
    pub mip_range: Range<u32>,
    pub layer_range: Range<u32>,
}

/// A part of a texture that a use touches.
#[derive(Debug, PartialEq, Eq)]
pub struct TextureInitTrackerAction {
    pub id: TextureId,
    pub range: TextureInitRange,
    pub kind: MemoryInitKind,
}

/// Whether two ranges have a byte in common.
pub open spec fn spec_overlaps(a: Range<u64>, b: Range<u64>) -> bool {
    a.start < a.end && b.start < b.end && a.start < b.end && b.start < a.end
}

/// The part of `range` that lies within `query`, joined to `found`.
pub open spec fn spec_join(found: Option<Range<u64>>, range: Range<u64>, query: Range<u64>) -> Option<
    Range<u64>,
> {
    let start = if range.start >= query.start {
        range.start
    } else {
        query.start
    };
    let end = if range.end <= query.end {
        range.end
    } else {
        query.end
    };
    match found {
        None => Some(start..end),
        Some(hull) => Some(
            (if hull.start <= start {
                hull.start
            } else {
                start
            })..(if hull.end >= end {
                hull.end
            } else {
                end
            }),
        ),
    }
}

/// The least range within `query` that holds every byte of `query` that one of the
/// first `n` of `ranges` holds; nothing if they hold no byte of `query`.
pub open spec fn spec_uninitialized_within(ranges: Seq<Range<u64>>, query: Range<u64>, n: int) -> Option<
    Range<u64>,
>
    decreases n,
{
    if n <= 0 {
        None
    } else if spec_overlaps(ranges[n - 1], query) {
        spec_join(spec_uninitialized_within(ranges, query, n - 1), ranges[n - 1], query)
    } else {
        spec_uninitialized_within(ranges, query, n - 1)
    }
}

/// The ranges of a buffer that have never been written.
#[derive(Debug, PartialEq, Eq)]
pub struct BufferInitTracker {
    pub uninitialized_ranges: Vec<Range<u64>>,
}

impl BufferInitTracker {
    /// The tracker of a new buffer of `size` bytes, none of which has been written.
    pub fn new(size: u64) -> (r: Self)
        ensures
            r.uninitialized_ranges@ == seq![0u64..size],
    {
        let mut uninitialized_ranges: Vec<Range<u64>> = Vec::new();
        uninitialized_ranges.push(0..size);
        assert(uninitialized_ranges@ =~= seq![0u64..size]);
        BufferInitTracker { uninitialized_ranges }
    }

    pub open spec fn spec_check(&self, query: Range<u64>) -> Option<Range<u64>> {
        spec_uninitialized_within(
            self.uninitialized_ranges@,
            query,
            self.uninitialized_ranges@.len() as int,
        )
    }

    /// The least range within `query` that holds every byte of `query` that has never
    /// been written; nothing if every byte of `query` has been written.
    pub fn check(&self, query: &Range<u64>) -> (r: Option<Range<u64>>)
        ensures
            r == self.spec_check(*query),
    {
        let mut found: Option<Range<u64>> = None;
        let mut i: usize = 0;
        while i < self.uninitialized_ranges.len()
            invariant
                i <= self.uninitialized_ranges@.len(),
                found == spec_uninitialized_within(self.uninitialized_ranges@, *query, i as int),
            decreases self.uninitialized_ranges@.len() - i,
        {
            let range = &self.uninitialized_ranges[i];
            if range.start < range.end && query.start < query.end && range.start < query.end
                && query.start < range.end {
                let start = if range.start >= query.start {
                    range.start
                } else {
                    query.start
                };
                let end = if range.end <= query.end {
                    range.end
                } else {
                    query.end
                };
                found = match found {
                    None => Some(start..end),
                    Some(hull) => Some(
                        (if hull.start <= start {
                            hull.start
                        } else {
                            start
                        })..(if hull.end >= end {
                            hull.end
                        } else {
                            end
                        }),
                    ),
                };
            }
            i += 1;
        }
        found
    }

    pub open spec fn spec_create_action(
        &self,
        id: BufferId,
        query: Range<u64>,
        kind: MemoryInitKind,
    ) -> Option<BufferInitTrackerAction> {
        match self.spec_check(query) {
            Some(range) => Some(BufferInitTrackerAction { id, range, kind }),
            None => None,
        }
    }

    /// What a use of `query` has to see to before it runs, if anything.
    pub fn create_action(&self, id: BufferId, query: &Range<u64>, kind: MemoryInitKind) -> (r:
        Option<BufferInitTrackerAction>)
        ensures
            r == self.spec_create_action(id, *query, kind),
    {
        match self.check(query) {
            Some(range) => Some(BufferInitTrackerAction { id, range, kind }),
            None => None,
        }
    }
}

/// What is found lies within the query, is not empty, and holds every byte of the query
/// that one of the ranges holds; and nothing is found only where the ranges hold no
/// byte of the query.
pub proof fn lemma_uninitialized_within(ranges: Seq<Range<u64>>, query: Range<u64>, n: int)
    requires
        0 <= n <= ranges.len(),
    ensures
        match spec_uninitialized_within(ranges, query, n) {
            Some(hull) => {
                &&& query.start <= hull.start < hull.end <= query.end
                &&& forall|i: int|
                    0 <= i < n && spec_overlaps(#[trigger] ranges[i], query) ==> {
                        &&& hull.start <= ranges[i].start || hull.start == query.start
                        &&& ranges[i].end <= hull.end || hull.end == query.end
                    }
            },
            None => forall|i: int| 0 <= i < n ==> !spec_overlaps(#[trigger] ranges[i], query),
        },
    decreases n,
{
    if n > 0 {
        lemma_uninitialized_within(ranges, query, n - 1);
    }
}

} // verus!
