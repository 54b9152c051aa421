//! Filter/pagination composition: request-supplied list parameters become a
//! validated, bounded query. Composition is total and defaulting — a missing
//! offset or ordering falls back to a default, and the limit is clamped to
//! the hard page cap rather than rejected, because list reads are low-stakes.

use vstd::prelude::*;

verus! {

/// Raw list parameters as the transport layer hands them over; any field may
/// be missing.
#[derive(Clone, Copy, Debug)]
pub struct SelectQuery {
    /// How many leading records to skip.
    pub offset: Option<usize>,
    /// How many records to return at most.
    pub limit: Option<usize>,
    /// Whether to order by primary key ascending (the default) or descending.
    pub asc: Option<bool>,
}

/// A validated, bounded query: the limit never exceeds [`crate::MAX_PAGE_SIZE`].
#[derive(Clone, Copy, Debug)]
pub struct SelectFilters {
    /// How many leading records to skip.
    pub offset: usize,
    /// How many records to return at most; at most [`crate::MAX_PAGE_SIZE`].
    pub limit: usize,
    /// Order by primary key ascending when true, descending when false.
    pub asc: bool,
}

/// What composing a raw query yields: offset and ordering defaulted, limit
/// clamped to the page cap.
pub open spec fn composed(q: SelectQuery) -> SelectFilters {
    SelectFilters {
        offset: match q.offset {
            Some(o) => o,
            None => 0,
        },
        limit: match q.limit {
            Some(l) => if l <= crate::MAX_PAGE_SIZE {
                l
            } else {
                crate::MAX_PAGE_SIZE
            },
            None => crate::MAX_PAGE_SIZE,
        },
        asc: match q.asc {
            Some(a) => a,
            None => true,
        },
    }
}

impl SelectFilters {
    /// A bounded query never asks for more than the page cap.
    pub open spec fn valid(self) -> bool {
        self.limit <= crate::MAX_PAGE_SIZE
    }

    /// Composes raw request parameters into a bounded query. Total: every
    /// possible input yields a well-formed result.
    pub fn from(q: SelectQuery) -> (f: SelectFilters)
        ensures
            f == composed(q),
            f.valid(),
    {
        let offset = match q.offset {
            Some(o) => o,
            None => 0,
        };
        let limit = match q.limit {
            Some(l) => if l <= crate::MAX_PAGE_SIZE {
                l
            } else {
                crate::MAX_PAGE_SIZE
            },
            None => crate::MAX_PAGE_SIZE,
        };
        let asc = match q.asc {
            Some(a) => a,
            None => true,
        };
        SelectFilters { offset, limit, asc }
    }
}

} // verus!
