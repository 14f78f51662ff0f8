//! The rooted-allocation arena: one per runtime, alive for its whole
//! life. It tracks a dynamic set of rooted allocations — values that must
//! stay reachable across calls into the engine because externally owned
//! data still refers to them — plus the garbage that unrooting leaves
//! behind until an explicit full collection. Collection is never run
//! implicitly in the middle of an execution.

use vstd::prelude::*;

verus! {

/// One rooted allocation: a stable handle and its size in bytes.
#[derive(Clone, Copy, Debug, PartialEq, Eq, Structural)]
pub struct ArenaRoot {
    pub id: u64,
    pub bytes: u64,
}

/// The bytes held by a set of roots.
pub open spec fn sum_bytes(s: Seq<ArenaRoot>) -> int
    decreases s.len(),
{
    if s.len() == 0 {
        0
    } else {
        sum_bytes(s.drop_last()) + s.last().bytes
    }
}

pub proof fn lemma_sum_nonneg(s: Seq<ArenaRoot>)
    ensures
        sum_bytes(s) >= 0,
    decreases s.len(),
{
    if s.len() > 0 {
        lemma_sum_nonneg(s.drop_last());
    }
}

/// Taking one root out takes exactly its bytes out of the sum.
pub proof fn lemma_sum_remove(s: Seq<ArenaRoot>, i: int)
    requires
        0 <= i < s.len(),
    ensures
        sum_bytes(s.remove(i)) == sum_bytes(s) - s[i].bytes,
    decreases s.len(),
{
    if i == s.len() - 1 {
        assert(s.remove(i) =~= s.drop_last());
    } else {
        assert(s.remove(i).drop_last() =~= s.drop_last().remove(i));
        assert(s.remove(i).last() == s.last());
        lemma_sum_remove(s.drop_last(), i);
    }
}

/// The arena: a dynamic root set with its allocation accounting.
pub struct LuaArena {
    pub roots: Vec<ArenaRoot>,
    /// Bytes of the still-rooted allocations; always their exact sum.
    pub rooted_bytes: u64,
    /// Bytes of unrooted allocations not yet reclaimed.
    pub garbage_bytes: u64,
    /// Bytes allocated since the last full collection.
    pub debt: u64,
    pub next_id: u64,
}

impl LuaArena {
    pub open spec fn wf(self) -> bool {
        &&& self.rooted_bytes as int == sum_bytes(self.roots@)
        &&& self.rooted_bytes + self.garbage_bytes <= u64::MAX
        &&& forall|i: int|
            0 <= i < self.roots@.len() ==> (#[trigger] self.roots@[i].id) < self.next_id
        &&& forall|i: int, j: int|
            0 <= i < j < self.roots@.len() ==> (#[trigger] self.roots@[i].id) != (
            #[trigger] self.roots@[j].id)
    }

    /// All currently allocated bytes: rooted plus uncollected garbage.
    pub open spec fn spec_total(self) -> int {
        self.rooted_bytes + self.garbage_bytes
    }

    pub fn new() -> (r: LuaArena)
        ensures
            r.wf(),
            r.roots@.len() == 0,
            r.spec_total() == 0,
            r.debt == 0,
    {
        LuaArena { roots: Vec::new(), rooted_bytes: 0, garbage_bytes: 0, debt: 0, next_id: 0 }
    }

    /// Law (with `collect_all`): rooting never shrinks the total — across
    /// any number of executions that root allocations without an explicit
    /// collection, total allocation is monotonically non-decreasing.
    ///
    /// Roots a new allocation and returns its fresh stable handle, or
    /// nothing when a counter would overflow (the arena is then left
    /// exactly as it was).
    pub fn root(&mut self, bytes: u64) -> (r: Option<u64>)
        requires
            old(self).wf(),
        ensures
            final(self).wf(),
            r matches Some(h) ==> ({
                &&& h == old(self).next_id
                &&& final(self).roots@ == old(self).roots@.push(ArenaRoot { id: h, bytes })
                &&& final(self).rooted_bytes == old(self).rooted_bytes + bytes
                &&& final(self).garbage_bytes == old(self).garbage_bytes
                &&& final(self).debt == old(self).debt + bytes
                &&& final(self).spec_total() == old(self).spec_total() + bytes
            }),
            r is None ==> final(self).roots@ == old(self).roots@,
            r is None ==> final(self).rooted_bytes == old(self).rooted_bytes,
            r is None ==> final(self).garbage_bytes == old(self).garbage_bytes,
            r is None ==> final(self).debt == old(self).debt,
            r is None ==> final(self).next_id == old(self).next_id,
            (r is Some) <==> (old(self).spec_total() + bytes <= u64::MAX && old(self).debt + bytes
                <= u64::MAX && old(self).next_id < u64::MAX),
    {
        if self.next_id == u64::MAX {
            return None;
        }
        let room = u64::MAX - self.rooted_bytes - self.garbage_bytes;
        if bytes > room {
            return None;
        }
        if self.debt > u64::MAX - bytes {
            return None;
        }
        let h = self.next_id;
        let ghost prev = self.roots@;
        self.next_id = self.next_id + 1;
        self.roots.push(ArenaRoot { id: h, bytes });
        self.rooted_bytes = self.rooted_bytes + bytes;
        self.debt = self.debt + bytes;
        proof {
            assert(self.roots@.drop_last() =~= prev);
        }
        Some(h)
    }

    /// Drop the root with handle `h`. Its bytes stay allocated — as
    /// garbage — until the next full collection; every other root keeps
    /// its place and its bytes.
    pub fn unroot(&mut self, h: u64) -> (found: bool)
        requires
            old(self).wf(),
        ensures
            final(self).wf(),
            found <==> exists|i: int|
                0 <= i < old(self).roots@.len() && (#[trigger] old(self).roots@[i].id) == h,
            !found ==> final(self).roots@ == old(self).roots@,
            !found ==> final(self).rooted_bytes == old(self).rooted_bytes,
            !found ==> final(self).garbage_bytes == old(self).garbage_bytes,
            found ==> exists|i: int|
                {
                    &&& 0 <= i < old(self).roots@.len()
                    &&& (#[trigger] old(self).roots@[i].id) == h
                    &&& final(self).roots@ == old(self).roots@.remove(i)
                    &&& final(self).rooted_bytes == old(self).rooted_bytes - old(
                        self,
                    ).roots@[i].bytes
                    &&& final(self).garbage_bytes == old(self).garbage_bytes + old(
                        self,
                    ).roots@[i].bytes
                },
            final(self).debt == old(self).debt,
            final(self).next_id == old(self).next_id,
            final(self).spec_total() == old(self).spec_total(),
    {
        let n = self.roots.len();
        let mut i: usize = 0;
        while i < n
            invariant
                n == self.roots@.len(),
                i <= n,
                self.wf(),
                *self == *old(self),
                forall|j: int| 0 <= j < i ==> (#[trigger] self.roots@[j].id) != h,
            decreases n - i,
        {
            if self.roots[i].id == h {
                let ghost prev = self.roots@;
                let r = self.roots.remove(i);
                proof {
                    lemma_sum_remove(prev, i as int);
                    lemma_sum_nonneg(prev.remove(i as int));
                }
                self.rooted_bytes = self.rooted_bytes - r.bytes;
                self.garbage_bytes = self.garbage_bytes + r.bytes;
                return true;
            }
            i = i + 1;
        }
        false
    }

    /// Law (second half of the allocation story): a full collection frees
    /// exactly the allocation attributable to no-longer-rooted values,
    /// while every allocation still externally rooted remains counted.
    pub fn collect_all(&mut self)
        requires
            old(self).wf(),
        ensures
            final(self).wf(),
            final(self).roots@ == old(self).roots@,
            final(self).rooted_bytes == old(self).rooted_bytes,
            final(self).garbage_bytes == 0,
            final(self).debt == 0,
            final(self).next_id == old(self).next_id,
            final(self).spec_total() == old(self).rooted_bytes,
    {
        self.garbage_bytes = 0;
        self.debt = 0;
    }

    /// All currently allocated bytes.
    pub fn total_allocation(&self) -> (r: u64)
        requires
            self.wf(),
        ensures
            r == self.spec_total(),
    {
        self.rooted_bytes + self.garbage_bytes
    }

    /// Bytes under the collector's management. The model arena tracks
    /// only collector-managed memory, so this equals the total.
    pub fn gc_allocation(&self) -> (r: u64)
        requires
            self.wf(),
        ensures
            r == self.spec_total(),
    {
        self.rooted_bytes + self.garbage_bytes
    }

    /// Bytes allocated since the last full collection.
    pub fn allocation_debt(&self) -> (r: u64)
        ensures
            r == self.debt,
    {
        self.debt
    }
}

} // verus!
