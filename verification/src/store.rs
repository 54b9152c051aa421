//! The resource store: one generic CRUD engine, keyed by the 32-bit primary
//! key, instantiated once per resource kind. Rows are kept sorted by primary
//! key, so a list scan comes back ordered without further work. Writes follow
//! the replace (upsert) discipline: a row is created or fully overwritten,
//! never merged. A `fault` flag models the backing store failing, so callers'
//! failure handling can be exercised; `calls` counts how often the store was
//! reached at all.

use vstd::prelude::*;

use crate::filters::SelectFilters;

verus! {

/// A payload that can be duplicated exactly, so rows can be handed out
/// without giving up the stored copy.
pub trait Payload: Sized {
    /// An exact copy of the payload.
    fn dup(&self) -> (r: Self)
        ensures
            r == *self,
    ;
}

/// One stored row: the caller-picked primary key, the kind-specific payload,
/// and the time the row was last written.
pub struct Record<P> {
    /// Caller-supplied primary key.
    pub id: i32,
    /// Kind-specific payload.
    pub payload: P,
    /// Unix timestamp of the write that created this row.
    pub created: i32,
}

impl<P: Payload> Record<P> {
    /// An exact copy of the row.
    pub fn dup(&self) -> (r: Self)
        ensures
            r == *self,
    {
        Record { id: self.id, payload: self.payload.dup(), created: self.created }
    }
}

/// How a store operation can fail.
#[derive(Clone, Copy, Debug, PartialEq, Eq, Structural)]
pub enum StoreError {
    /// No row with the requested primary key.
    NotFound,
    /// The backing store failed.
    Backend,
}

/// Whether some row of `rows` has primary key `id`.
pub open spec fn has_id<P>(rows: Seq<Record<P>>, id: int) -> bool {
    exists|i: int| 0 <= i < rows.len() && rows[i].id == id
}

/// The row of `rows` with primary key `id`, if any.
pub open spec fn lookup<P>(rows: Seq<Record<P>>, id: int) -> Option<Record<P>> {
    if has_id(rows, id) {
        Some(rows[choose|i: int| 0 <= i < rows.len() && rows[i].id == id])
    } else {
        None
    }
}

/// Rows are strictly ascending by primary key; keys are therefore unique.
pub open spec fn sorted_by_id<P>(rows: Seq<Record<P>>) -> bool {
    forall|i: int, j: int| 0 <= i < j < rows.len() ==> rows[i].id < rows[j].id
}

/// What one replace (upsert) does to the rows: the row under `id` now holds
/// exactly the given payload and timestamp, and no other row changed.
pub open spec fn replaced<P>(pre: Seq<Record<P>>, post: Seq<Record<P>>, id: int, payload: P, now: int) -> bool {
    &&& lookup(post, id) == Some(Record { id: id as i32, payload, created: now as i32 })
    &&& forall|x: int| x != id ==> lookup(post, x) == lookup(pre, x)
}

/// What one delete does to the rows: the row under `id` is gone, and no other
/// row changed.
pub open spec fn deleted<P>(pre: Seq<Record<P>>, post: Seq<Record<P>>, id: int) -> bool {
    &&& lookup(post, id) is None
    &&& forall|x: int| x != id ==> lookup(post, x) == lookup(pre, x)
}

/// The ordered page a bounded scan returns: ascending or descending by
/// primary key, skipping `offset` rows, never more than the requested limit
/// nor the hard page cap.
pub open spec fn page<P>(rows: Seq<Record<P>>, f: SelectFilters) -> Seq<Record<P>> {
    let ordered = if f.asc {
        rows
    } else {
        rows.reverse()
    };
    let cap = if f.limit <= crate::MAX_PAGE_SIZE {
        f.limit as int
    } else {
        crate::MAX_PAGE_SIZE as int
    };
    let lo = if f.offset as int <= ordered.len() {
        f.offset as int
    } else {
        ordered.len() as int
    };
    let hi = if lo + cap <= ordered.len() {
        lo + cap
    } else {
        ordered.len() as int
    };
    ordered.subrange(lo, hi)
}

/// A row present in a sorted sequence is exactly what lookup yields.
pub proof fn lemma_lookup_at<P>(rows: Seq<Record<P>>, i: int)
    requires
        sorted_by_id(rows),
        0 <= i < rows.len(),
    ensures
        lookup(rows, rows[i].id as int) == Some(rows[i]),
{
    let id = rows[i].id as int;
    assert(has_id(rows, id));
    let j = choose|j: int| 0 <= j < rows.len() && rows[j].id == id;
    if i < j {
        assert(rows[i].id < rows[j].id);
    } else if j < i {
        assert(rows[j].id < rows[i].id);
    }
}

/// A key no row carries is exactly what lookup misses.
pub proof fn lemma_lookup_absent<P>(rows: Seq<Record<P>>, id: int)
    requires
        forall|i: int| 0 <= i < rows.len() ==> #[trigger] rows[i].id != id,
    ensures
        lookup(rows, id) is None,
{
}

/// Inserting a fresh row at its sorted position leaves every other key's
/// lookup unchanged and makes the new key's lookup yield the new row.
pub proof fn lemma_lookup_insert<P>(rows: Seq<Record<P>>, pos: int, rec: Record<P>)
    requires
        sorted_by_id(rows),
        sorted_by_id(rows.insert(pos, rec)),
        0 <= pos <= rows.len(),
    ensures
        lookup(rows.insert(pos, rec), rec.id as int) == Some(rec),
        forall|x: int| x != rec.id ==> lookup(rows.insert(pos, rec), x) == lookup(rows, x),
{
    let post = rows.insert(pos, rec);
    rows.insert_ensures(pos, rec);
    assert(post[pos] == rec);
    lemma_lookup_at(post, pos);
    assert forall|x: int| x != rec.id implies lookup(post, x) == lookup(rows, x) by {
        if has_id(rows, x) {
            let i = choose|i: int| 0 <= i < rows.len() && rows[i].id == x;
            lemma_lookup_at(rows, i);
            let ii = if i < pos {
                i
            } else {
                i + 1
            };
            assert(post[ii] == rows[i]);
            lemma_lookup_at(post, ii);
        } else {
            assert(forall|i: int| 0 <= i < rows.len() ==> #[trigger] rows[i].id != x);
            assert forall|k: int| 0 <= k < post.len() implies #[trigger] post[k].id != x by {
                if k < pos {
                    assert(post[k] == rows[k]);
                } else if k == pos {
                    assert(post[k] == rec);
                } else {
                    assert(post[k] == rows[k - 1]);
                }
            }
            lemma_lookup_absent(rows, x);
            lemma_lookup_absent(post, x);
        }
    }
}

/// Inserting a row between the keys below it and the keys above it keeps the
/// rows sorted.
pub proof fn lemma_insert_sorted<P>(rows: Seq<Record<P>>, pos: int, rec: Record<P>)
    requires
        sorted_by_id(rows),
        0 <= pos <= rows.len(),
        forall|k: int| 0 <= k < pos ==> #[trigger] rows[k].id < rec.id,
        forall|k: int| pos <= k < rows.len() ==> #[trigger] rows[k].id > rec.id,
    ensures
        sorted_by_id(rows.insert(pos, rec)),
{
    let post = rows.insert(pos, rec);
    rows.insert_ensures(pos, rec);
    assert forall|i: int, j: int| 0 <= i < j < post.len() implies post[i].id < post[j].id by {
        if i < pos {
            assert(post[i] == rows[i]);
        } else if i == pos {
            assert(post[i] == rec);
        } else {
            assert(post[i] == rows[i - 1]);
        }
        if j < pos {
            assert(post[j] == rows[j]);
        } else if j == pos {
            assert(post[j] == rec);
        } else {
            assert(post[j] == rows[j - 1]);
        }
    }
}

/// Removing a row leaves every other key's lookup unchanged and makes the
/// removed key's lookup miss.
pub proof fn lemma_lookup_remove<P>(rows: Seq<Record<P>>, pos: int)
    requires
        sorted_by_id(rows),
        0 <= pos < rows.len(),
    ensures
        sorted_by_id(rows.remove(pos)),
        lookup(rows.remove(pos), rows[pos].id as int) is None,
        forall|x: int| x != rows[pos].id ==> lookup(rows.remove(pos), x) == lookup(rows, x),
{
    let post = rows.remove(pos);
    rows.remove_ensures(pos);
    assert(sorted_by_id(post)) by {
        assert forall|i: int, j: int| 0 <= i < j < post.len() implies post[i].id < post[j].id by {
            let oi = if i < pos {
                i
            } else {
                i + 1
            };
            let oj = if j < pos {
                j
            } else {
                j + 1
            };
            assert(post[i] == rows[oi]);
            assert(post[j] == rows[oj]);
        }
    }
    assert forall|k: int| 0 <= k < post.len() implies #[trigger] post[k].id != rows[pos].id by {
        if k < pos {
            assert(post[k] == rows[k]);
        } else {
            assert(post[k] == rows[k + 1]);
        }
    }
    lemma_lookup_absent(post, rows[pos].id as int);
    assert forall|x: int| x != rows[pos].id implies lookup(post, x) == lookup(rows, x) by {
        if has_id(rows, x) {
            let i = choose|i: int| 0 <= i < rows.len() && rows[i].id == x;
            lemma_lookup_at(rows, i);
            let ii = if i < pos {
                i
            } else {
                i - 1
            };
            assert(post[ii] == rows[i]);
            lemma_lookup_at(post, ii);
        } else {
            assert(forall|i: int| 0 <= i < rows.len() ==> #[trigger] rows[i].id != x);
            assert forall|k: int| 0 <= k < post.len() implies #[trigger] post[k].id != x by {
                if k < pos {
                    assert(post[k] == rows[k]);
                } else {
                    assert(post[k] == rows[k + 1]);
                }
            }
            lemma_lookup_absent(rows, x);
            lemma_lookup_absent(post, x);
        }
    }
}

/// One resource kind's rows, with a fault-injection flag standing for the
/// backing store failing and a counter of how often the store was reached.
pub struct Store<P> {
    rows: Vec<Record<P>>,
    /// When set, every operation fails with [`StoreError::Backend`].
    pub fault: bool,
    /// How many operations reached this store (saturating).
    pub calls: u64,
}

impl<P> View for Store<P> {
    type V = Seq<Record<P>>;

    closed spec fn view(&self) -> Seq<Record<P>> {
        self.rows@
    }
}

impl<P> Store<P> {
    /// Whether the backing store is failing (fault injection).
    pub closed spec fn faulted(&self) -> bool {
        self.fault
    }

    /// How many operations have reached this store.
    pub closed spec fn call_count(&self) -> u64 {
        self.calls
    }

    /// How many operations have reached this store (saturating counter).
    pub fn calls(&self) -> (c: u64)
        ensures
            c == self.call_count(),
    {
        self.calls
    }
}

impl<P: Payload> Store<P> {
    /// Rows are strictly ascending by primary key.
    pub open spec fn inv(&self) -> bool {
        sorted_by_id(self@)
    }

    /// An empty, healthy store.
    pub fn new() -> (s: Self)
        ensures
            s.inv(),
            s@ == Seq::<Record<P>>::empty(),
            !s.faulted(),
            s.call_count() == 0,
    {
        Store { rows: Vec::new(), fault: false, calls: 0 }
    }

    /// Makes every following operation fail, as a failing backing store would.
    pub fn inject_fault(&mut self)
        ensures
            final(self)@ == old(self)@,
            final(self).faulted(),
            final(self).call_count() == old(self).call_count(),
    {
        self.fault = true;
    }

    fn count_call(&mut self)
        ensures
            final(self)@ == old(self)@,
            final(self).faulted() == old(self).faulted(),
            final(self).call_count() == if old(self).call_count() < u64::MAX {
                old(self).call_count() + 1
            } else {
                old(self).call_count() as int
            },
    {
        if self.calls < u64::MAX {
            self.calls = self.calls + 1;
        }
    }

    /// Single-row lookup by primary key.
    pub fn find(&mut self, id: i32) -> (r: Result<Record<P>, StoreError>)
        requires
            old(self).inv(),
        ensures
            final(self).inv(),
            final(self)@ == old(self)@,
            final(self).faulted() == old(self).faulted(),
            final(self).call_count() >= old(self).call_count(),
            old(self).faulted() ==> r == Err::<Record<P>, StoreError>(StoreError::Backend),
            !old(self).faulted() ==> match r {
                Ok(rec) => lookup(final(self)@, id as int) == Some(rec),
                Err(e) => e == StoreError::NotFound && lookup(final(self)@, id as int) is None,
            },
    {
        self.count_call();
        if self.fault {
            return Err(StoreError::Backend);
        }
        let n = self.rows.len();
        let mut i: usize = 0;
        while i < n
            invariant
                self.inv(),
                self@ == old(self)@,
                !old(self).faulted(),
                self.faulted() == old(self).faulted(),
                self.call_count() >= old(self).call_count(),
                n == self@.len(),
                i <= n,
                forall|j: int| 0 <= j < i ==> #[trigger] self@[j].id != id,
            decreases n - i,
        {
            if self.rows[i].id == id {
                let rec = self.rows[i].dup();
                proof {
                    lemma_lookup_at(self@, i as int);
                }
                return Ok(rec);
            }
            i = i + 1;
        }
        proof {
            lemma_lookup_absent(self@, id as int);
        }
        Err(StoreError::NotFound)
    }

    /// Replace (upsert): creates the row under `id` or fully overwrites it —
    /// payload and timestamp — and returns the row as written. The sole write
    /// entry point; idempotent in effect but not in timestamp.
    pub fn replace(&mut self, id: i32, payload: P, now: i32) -> (r: Result<Record<P>, StoreError>)
        requires
            old(self).inv(),
        ensures
            final(self).inv(),
            final(self).faulted() == old(self).faulted(),
            final(self).call_count() >= old(self).call_count(),
            old(self).faulted() ==> r == Err::<Record<P>, StoreError>(StoreError::Backend) && final(self)@ == old(self)@,
            !old(self).faulted() ==> match r {
                Ok(rec) => rec == (Record { id, payload, created: now }) && replaced(
                    old(self)@,
                    final(self)@,
                    id as int,
                    payload,
                    now as int,
                ),
                Err(_) => false,
            },
    {
        self.count_call();
        if self.fault {
            return Err(StoreError::Backend);
        }
        let rec = Record { id, payload, created: now };
        let out = rec.dup();
        let n = self.rows.len();
        let mut pos: usize = 0;
        while pos < n && self.rows[pos].id < id
            invariant
                self.inv(),
                self@ == old(self)@,
                !old(self).faulted(),
                self.faulted() == old(self).faulted(),
                self.call_count() >= old(self).call_count(),
                n == self@.len(),
                pos <= n,
                forall|j: int| 0 <= j < pos ==> #[trigger] self@[j].id < id,
            decreases n - pos,
        {
            pos = pos + 1;
        }
        let ghost pre = self@;
        let mut removed = false;
        if pos < n && self.rows[pos].id == id {
            proof {
                lemma_lookup_remove(pre, pos as int);
            }
            self.rows.remove(pos);
            removed = true;
        }
        let ghost mid = self@;
        proof {
            if removed {
                pre.remove_ensures(pos as int);
            }
            assert forall|k: int| 0 <= k < mid.len() implies (k < pos as int ==> #[trigger] mid[k].id
                < id) && (k >= pos as int ==> mid[k].id > id) by {
                if removed {
                    if k < pos as int {
                        assert(mid[k] == pre[k]);
                    } else {
                        assert(mid[k] == pre[k + 1]);
                        assert(pre[pos as int].id == id);
                    }
                } else {
                    if k >= pos as int {
                        assert(pre[pos as int].id > id);
                        if k > pos as int {
                            assert(pre[pos as int].id < pre[k].id);
                        }
                    }
                }
            }
            lemma_insert_sorted(mid, pos as int, rec);
            lemma_lookup_insert(mid, pos as int, rec);
            if removed {
                lemma_lookup_remove(pre, pos as int);
            }
        }
        self.rows.insert(pos, rec);
        Ok(out)
    }

    /// Removes the row under `id`. Deleting an absent id is `NotFound`, not a
    /// silent success: repeated deletes are not idempotent at this layer.
    pub fn delete(&mut self, id: i32) -> (r: Result<(), StoreError>)
        requires
            old(self).inv(),
        ensures
            final(self).inv(),
            final(self).faulted() == old(self).faulted(),
            final(self).call_count() >= old(self).call_count(),
            old(self).faulted() ==> r == Err::<(), StoreError>(StoreError::Backend) && final(self)@ == old(self)@,
            !old(self).faulted() ==> match r {
                Ok(()) => lookup(old(self)@, id as int) is Some && deleted(old(self)@, final(self)@, id as int),
                Err(e) => e == StoreError::NotFound && lookup(old(self)@, id as int) is None && final(self)@
                    == old(self)@,
            },
    {
        self.count_call();
        if self.fault {
            return Err(StoreError::Backend);
        }
        let n = self.rows.len();
        let mut i: usize = 0;
        while i < n
            invariant
                self.inv(),
                self@ == old(self)@,
                !old(self).faulted(),
                self.faulted() == old(self).faulted(),
                self.call_count() >= old(self).call_count(),
                n == self@.len(),
                i <= n,
                forall|j: int| 0 <= j < i ==> #[trigger] self@[j].id != id,
            decreases n - i,
        {
            if self.rows[i].id == id {
                proof {
                    lemma_lookup_at(self@, i as int);
                    lemma_lookup_remove(self@, i as int);
                }
                self.rows.remove(i);
                return Ok(());
            }
            i = i + 1;
        }
        proof {
            lemma_lookup_absent(self@, id as int);
        }
        Err(StoreError::NotFound)
    }

    /// Bounded, ordered scan: by primary key ascending (or descending when
    /// asked), skipping `offset` rows, returning at most the requested limit
    /// and never more than the hard page cap. An empty page is a valid
    /// result, not an error.
    pub fn select(&mut self, f: SelectFilters) -> (r: Result<Vec<Record<P>>, StoreError>)
        requires
            old(self).inv(),
        ensures
            final(self).inv(),
            final(self)@ == old(self)@,
            final(self).faulted() == old(self).faulted(),
            final(self).call_count() >= old(self).call_count(),
            old(self).faulted() ==> r is Err && r == Err::<Vec<Record<P>>, StoreError>(StoreError::Backend),
            !old(self).faulted() ==> match r {
                Ok(v) => v@ == page(final(self)@, f) && v@.len() <= f.limit && v@.len()
                    <= crate::MAX_PAGE_SIZE,
                Err(_) => false,
            },
    {
        self.count_call();
        if self.fault {
            return Err(StoreError::Backend);
        }
        let n = self.rows.len();
        let cap = if f.limit <= crate::MAX_PAGE_SIZE {
            f.limit
        } else {
            crate::MAX_PAGE_SIZE
        };
        let lo = if f.offset <= n {
            f.offset
        } else {
            n
        };
        let count = if cap <= n - lo {
            cap
        } else {
            n - lo
        };
        let ghost ordered = if f.asc {
            self@
        } else {
            self@.reverse()
        };
        proof {
            assert(page(self@, f) =~= ordered.subrange(lo as int, lo as int + count as int));
        }
        let mut out: Vec<Record<P>> = Vec::new();
        let mut k: usize = 0;
        while k < count
            invariant
                self.inv(),
                self@ == old(self)@,
                !old(self).faulted(),
                self.faulted() == old(self).faulted(),
                self.call_count() >= old(self).call_count(),
                n == self@.len(),
                lo + count <= n,
                k <= count,
                ordered == (if f.asc {
                    self@
                } else {
                    self@.reverse()
                }),
                out@.len() == k,
                forall|m: int| 0 <= m < k ==> #[trigger] out@[m] == ordered[lo + m],
            decreases count - k,
        {
            let idx = if f.asc {
                lo + k
            } else {
                n - 1 - lo - k
            };
            let rec = self.rows[idx].dup();
            proof {
                if !f.asc {
                    assert(ordered[lo + k] == self@[n - 1 - (lo + k)]);
                }
            }
            out.push(rec);
            k = k + 1;
        }
        proof {
            assert(out@ =~= ordered.subrange(lo as int, lo as int + count as int));
        }
        Ok(out)
    }
}

/// Replacing a row twice with the same payload leaves the same logical record
/// retrievable — same key, same payload — though the write timestamp
/// advances to the later write's.
pub proof fn lemma_replace_idempotent_in_effect<P>(
    s0: Seq<Record<P>>,
    s1: Seq<Record<P>>,
    s2: Seq<Record<P>>,
    id: int,
    payload: P,
    t1: int,
    t2: int,
)
    requires
        replaced(s0, s1, id, payload, t1),
        replaced(s1, s2, id, payload, t2),
    ensures
        lookup(s1, id) == Some((Record { id: id as i32, payload, created: t1 as i32 })),
        lookup(s2, id) == Some((Record { id: id as i32, payload, created: t2 as i32 })),
        forall|x: int| x != id ==> lookup(s2, x) == lookup(s0, x),
{
}

/// After a replace of `id` and then a delete of `id`, a find misses; and by
/// the delete contract, a second delete of `id` reports `NotFound` again.
pub proof fn lemma_find_after_delete<P>(
    s0: Seq<Record<P>>,
    s1: Seq<Record<P>>,
    s2: Seq<Record<P>>,
    id: int,
    payload: P,
    t: int,
)
    requires
        replaced(s0, s1, id, payload, t),
        deleted(s1, s2, id),
    ensures
        lookup(s2, id) is None,
{
}

} // verus!
