//! The table heap: every namespace the sandbox hands to a script lives
//! here, together with the access mode that mediates script reads and
//! writes — plain, protected (read-only, wrapper irremovable), or overlay
//! (reads fall through to a lower table, writes stay in the upper).

use vstd::prelude::*;

use crate::{ScriptError, ValV, Value};

verus! {

/// How script-level access to a table is mediated. Once a table leaves
/// `Plain` there is no operation that brings it back: the wrapper cannot
/// be replaced or removed.
#[derive(Clone, Copy, Debug, PartialEq, Eq, Structural)]
pub enum TableMode {
    /// Raw reads and writes.
    Plain,
    /// Reads return the backing entries; every write is rejected.
    Protected,
    /// Reads that miss fall through to the lower table (by heap index);
    /// writes always land here, never below.
    Overlay(usize),
}

/// One table: its entries in write order (a later entry for a key
/// shadows an earlier one; the absent value erases), and its mode.
pub struct TableData {
    pub entries: Vec<(String, Value)>,
    pub mode: TableMode,
}

/// The value stored under `k`: the last write wins, a missing key is the
/// absent value.
pub open spec fn lookup(s: Seq<(String, Value)>, k: Seq<char>) -> ValV
    decreases s.len(),
{
    if s.len() == 0 {
        ValV::Nil
    } else if s.last().0@ == k {
        s.last().1@
    } else {
        lookup(s.drop_last(), k)
    }
}

/// Overlay lower links always point to an earlier table, so read chains
/// terminate.
pub open spec fn seq_wf(ts: Seq<TableData>) -> bool {
    forall|i: int|
        0 <= i < ts.len() ==> ((#[trigger] ts[i].mode) matches TableMode::Overlay(l) ==> (
        l as int) < i)
}

/// The raw (mode-blind) value of key `k` in table `t`.
pub open spec fn tbl_at(ts: Seq<TableData>, t: int, k: Seq<char>) -> ValV {
    lookup(ts[t].entries@, k)
}

/// What a script read of `k` against table `t` yields: raw value, except
/// that an overlay miss falls through to the lower table.
pub open spec fn read_at(ts: Seq<TableData>, t: int, k: Seq<char>) -> ValV
    decreases t,
{
    if 0 <= t < ts.len() {
        match ts[t].mode {
            TableMode::Overlay(l) => {
                if tbl_at(ts, t, k) != ValV::Nil {
                    tbl_at(ts, t, k)
                } else if (l as int) < t {
                    read_at(ts, l as int, k)
                } else {
                    ValV::Nil
                }
            },
            _ => tbl_at(ts, t, k),
        }
    } else {
        ValV::Nil
    }
}

/// Appending an entry changes the lookup of exactly that key.
pub proof fn lemma_lookup_push(s: Seq<(String, Value)>, e: (String, Value), k: Seq<char>)
    ensures
        lookup(s.push(e), k) == (if e.0@ == k {
            e.1@
        } else {
            lookup(s, k)
        }),
{
    assert(s.push(e).drop_last() =~= s);
    assert(s.push(e).last() == e);
}

/// A script read of table `t` consults only tables up to `t`, so two
/// heaps that agree there read alike.
pub proof fn lemma_read_agree(ts0: Seq<TableData>, ts1: Seq<TableData>, t: int, k: Seq<char>)
    requires
        0 <= t < ts0.len(),
        t < ts1.len(),
        forall|i: int| 0 <= i <= t ==> ts1[i] == ts0[i],
    ensures
        read_at(ts1, t, k) == read_at(ts0, t, k),
    decreases t,
{
    assert(ts1[t] == ts0[t]);
    match ts0[t].mode {
        TableMode::Overlay(l) => {
            if tbl_at(ts0, t, k) == ValV::Nil && (l as int) < t {
                lemma_read_agree(ts0, ts1, l as int, k);
            }
        },
        _ => {},
    }
}

pub struct TableHeap {
    pub tables: Vec<TableData>,
}

impl TableHeap {
    /// The heap as a sequence of tables.
    pub open spec fn ts(self) -> Seq<TableData> {
        self.tables@
    }

    pub open spec fn wf(self) -> bool {
        seq_wf(self.ts())
    }

    pub fn new() -> (r: TableHeap)
        ensures
            r.ts().len() == 0,
            r.wf(),
    {
        TableHeap { tables: Vec::new() }
    }

    /// Allocate a fresh, empty, plain table; its index names it.
    pub fn create_table(&mut self) -> (id: usize)
        ensures
            final(self).ts().len() == old(self).ts().len() + 1,
            id as int == old(self).ts().len(),
            forall|i: int| 0 <= i < old(self).ts().len() ==> final(self).ts()[i] == old(
                self,
            ).ts()[i],
            final(self).ts()[id as int].entries@.len() == 0,
            final(self).ts()[id as int].mode == TableMode::Plain,
            old(self).wf() ==> final(self).wf(),
    {
        let id = self.tables.len();
        self.tables.push(TableData { entries: Vec::new(), mode: TableMode::Plain });
        id
    }

    /// The raw value under `k` in table `t`, metatables ignored.
    pub fn raw_get(&self, t: usize, k: &str) -> (r: Value)
        requires
            t < self.ts().len(),
        ensures
            r@ == tbl_at(self.ts(), t as int, k@),
    {
        let key: String = k.to_owned();
        let td = &self.tables[t];
        let e = &td.entries;
        let ghost full: Seq<(String, Value)> = e@;
        let mut i: usize = e.len();
        proof {
            assert(full.take(i as int) =~= full);
        }
        while i > 0
            invariant
                i <= full.len(),
                full == e@,
                e@ == self.tables@[t as int].entries@,
                t < self.ts().len(),
                key@ == k@,
                lookup(full, k@) == lookup(full.take(i as int), k@),
            decreases i,
        {
            i = i - 1;
            let entry = &e[i];
            if entry.0 == key {
                proof {
                    assert(full.take((i + 1) as int).last() == full[i as int]);
                    assert(full.take((i + 1) as int).len() == i + 1);
                }
                return entry.1.dup();
            }
            proof {
                assert(full.take((i + 1) as int).last() == full[i as int]);
                assert(full.take((i + 1) as int).drop_last() =~= full.take(i as int));
            }
        }
        proof {
            assert(full.take(0).len() == 0);
        }
        Value::Nil
    }

    /// Store `v` under `k` in table `t`, metatables ignored: the native
    /// path that bootstrap code uses, never handed to scripts.
    pub fn raw_set(&mut self, t: usize, k: &str, v: Value)
        requires
            t < old(self).ts().len(),
        ensures
            final(self).ts().len() == old(self).ts().len(),
            forall|i: int|
                0 <= i < old(self).ts().len() && i != t ==> final(self).ts()[i] == old(
                    self,
                ).ts()[i],
            final(self).ts()[t as int].mode == old(self).ts()[t as int].mode,
            forall|k2: Seq<char>|
                #[trigger] tbl_at(final(self).ts(), t as int, k2) == (if k2 == k@ {
                    v@
                } else {
                    tbl_at(old(self).ts(), t as int, k2)
                }),
            old(self).wf() ==> final(self).wf(),
    {
        let key: String = k.to_owned();
        let ghost prev: Seq<(String, Value)> = self.tables@[t as int].entries@;
        let ghost pair: (String, Value) = (key, v);
        self.tables[t].entries.push((key, v));
        proof {
            assert(final(self).tables@[t as int].entries@ == prev.push(pair));
            assert forall|k2: Seq<char>|
                #[trigger] tbl_at(self.ts(), t as int, k2) == (if k2 == k@ {
                    v@
                } else {
                    tbl_at(old(self).ts(), t as int, k2)
                }) by {
                lemma_lookup_push(prev, pair, k2);
            }
        }
    }

    /// Install the read-only wrapper: reads keep returning the backing
    /// entries, writes will be rejected, and no operation removes the
    /// wrapper again.
    pub fn protect_table(&mut self, t: usize)
        requires
            t < old(self).ts().len(),
            old(self).ts()[t as int].mode == TableMode::Plain,
        ensures
            final(self).ts().len() == old(self).ts().len(),
            forall|i: int|
                0 <= i < old(self).ts().len() && i != t ==> final(self).ts()[i] == old(
                    self,
                ).ts()[i],
            final(self).ts()[t as int].entries@ == old(self).ts()[t as int].entries@,
            final(self).ts()[t as int].mode == TableMode::Protected,
            forall|k2: Seq<char>|
                #[trigger] tbl_at(final(self).ts(), t as int, k2) == tbl_at(
                    old(self).ts(),
                    t as int,
                    k2,
                ),
            old(self).wf() ==> final(self).wf(),
    {
        let td = &mut self.tables[t];
        td.mode = TableMode::Protected;
    }

    /// Allocate and protect in one step: an ephemeral read-only container.
    pub fn create_protected_table(&mut self) -> (id: usize)
        ensures
            final(self).ts().len() == old(self).ts().len() + 1,
            id as int == old(self).ts().len(),
            forall|i: int| 0 <= i < old(self).ts().len() ==> final(self).ts()[i] == old(
                self,
            ).ts()[i],
            final(self).ts()[id as int].entries@.len() == 0,
            final(self).ts()[id as int].mode == TableMode::Protected,
            old(self).wf() ==> final(self).wf(),
    {
        let id = self.create_table();
        self.protect_table(id);
        id
    }

    /// Allocate the upper table of an overlay over `lower`: reads fall
    /// through, writes will stay in the upper table.
    pub fn create_overlay_table(&mut self, lower: usize) -> (id: usize)
        requires
            lower < old(self).ts().len(),
        ensures
            final(self).ts().len() == old(self).ts().len() + 1,
            id as int == old(self).ts().len(),
            forall|i: int| 0 <= i < old(self).ts().len() ==> final(self).ts()[i] == old(
                self,
            ).ts()[i],
            final(self).ts()[id as int].entries@.len() == 0,
            final(self).ts()[id as int].mode == TableMode::Overlay(lower),
            old(self).wf() ==> final(self).wf(),
    {
        let id = self.tables.len();
        self.tables.push(TableData { entries: Vec::new(), mode: TableMode::Overlay(lower) });
        id
    }

    /// A script read: raw value, with overlay misses falling through.
    pub fn read(&self, t: usize, k: &str) -> (r: Value)
        requires
            self.wf(),
            t < self.ts().len(),
        ensures
            r@ == read_at(self.ts(), t as int, k@),
        decreases t,
    {
        let mode = self.tables[t].mode;
        match mode {
            TableMode::Overlay(l) => {
                let v = self.raw_get(t, k);
                if v.is_nil() {
                    proof {
                        assert(self.ts()[t as int].mode matches TableMode::Overlay(low) && (
                        low as int) < t);
                    }
                    self.read(l, k)
                } else {
                    v
                }
            },
            _ => self.raw_get(t, k),
        }
    }

    /// Drop the most recently created table: how an execution's overlay
    /// is discarded when the execution returns.
    pub fn discard_top(&mut self)
        requires
            old(self).ts().len() > 0,
        ensures
            final(self).ts() == old(self).ts().drop_last(),
            old(self).wf() ==> final(self).wf(),
    {
        let _ = self.tables.pop();
        proof {
            assert(final(self).ts() =~= old(self).ts().drop_last());
        }
    }

    /// A script write: rejected on a protected table with the heap left
    /// untouched; on an overlay it lands in the upper table (`t` itself);
    /// on a plain table it lands raw.
    pub fn write(&mut self, t: usize, k: &str, v: Value) -> (r: Result<(), ScriptError>)
        requires
            old(self).wf(),
            t < old(self).ts().len(),
        ensures
            final(self).wf(),
            final(self).ts().len() == old(self).ts().len(),
            forall|i: int|
                0 <= i < old(self).ts().len() ==> final(self).ts()[i].mode == old(
                    self,
                ).ts()[i].mode,
            old(self).ts()[t as int].mode is Protected ==> (r matches Err(
                ScriptError::ProtectedTableUpdate,
            )) && final(self).ts() == old(self).ts(),
            !(old(self).ts()[t as int].mode is Protected) ==> r is Ok && (forall|i: int|
                0 <= i < old(self).ts().len() && i != t ==> final(self).ts()[i] == old(
                    self,
                ).ts()[i]) && (forall|k2: Seq<char>|
                #[trigger] tbl_at(final(self).ts(), t as int, k2) == (if k2 == k@ {
                    v@
                } else {
                    tbl_at(old(self).ts(), t as int, k2)
                })),
    {
        let mode = self.tables[t].mode;
        match mode {
            TableMode::Protected => Err(ScriptError::ProtectedTableUpdate),
            _ => {
                self.raw_set(t, k, v);
                Ok(())
            },
        }
    }
}

/// Every table reference a script could observe points at a protected
/// table — except that the active overlay `env` may refer to itself (it
/// is its own global-namespace alias). With `env == -1` (no active
/// execution) every observable reference is protected.
pub open spec fn visible_ok(ts: Seq<TableData>, env: int) -> bool {
    forall|i: int, k: Seq<char>|
        0 <= i < ts.len() ==> ((#[trigger] tbl_at(ts, i, k)) matches ValV::Table(t) ==> 0 <= t
            < ts.len() && (ts[t].mode is Protected || (t == env && i == env)))
}

/// Storing a value that itself satisfies the reference discipline keeps
/// every observable reference disciplined.
pub proof fn lemma_visible_after_set(
    ts0: Seq<TableData>,
    ts1: Seq<TableData>,
    t: int,
    k: Seq<char>,
    v: ValV,
    env: int,
)
    requires
        visible_ok(ts0, env),
        0 <= t < ts0.len(),
        ts1.len() == ts0.len(),
        forall|i: int| 0 <= i < ts0.len() && i != t ==> ts1[i] == ts0[i],
        forall|i: int| 0 <= i < ts0.len() ==> ts1[i].mode == ts0[i].mode,
        forall|k2: Seq<char>|
            #[trigger] tbl_at(ts1, t, k2) == (if k2 == k {
                v
            } else {
                tbl_at(ts0, t, k2)
            }),
        v matches ValV::Table(x) ==> 0 <= x < ts0.len() && (ts0[x].mode is Protected || (x == env
            && t == env)),
    ensures
        visible_ok(ts1, env),
{
    assert forall|i: int, k3: Seq<char>| 0 <= i < ts1.len() implies ((#[trigger] tbl_at(
        ts1,
        i,
        k3,
    )) matches ValV::Table(x) ==> 0 <= x < ts1.len() && (ts1[x].mode is Protected || (x == env && i
        == env))) by {
        if i != t {
            assert(tbl_at(ts1, i, k3) == tbl_at(ts0, i, k3));
        }
    }
}

/// Appending a fresh, empty table keeps every observable reference
/// disciplined.
pub proof fn lemma_visible_after_create(ts0: Seq<TableData>, ts1: Seq<TableData>, env: int)
    requires
        visible_ok(ts0, env),
        ts1.len() == ts0.len() + 1,
        forall|i: int| 0 <= i < ts0.len() ==> ts1[i] == ts0[i],
        ts1[ts0.len() as int].entries@.len() == 0,
    ensures
        visible_ok(ts1, env),
{
    assert forall|i: int, k3: Seq<char>| 0 <= i < ts1.len() implies ((#[trigger] tbl_at(
        ts1,
        i,
        k3,
    )) matches ValV::Table(x) ==> 0 <= x < ts1.len() && (ts1[x].mode is Protected || (x == env && i
        == env))) by {
        if i < ts0.len() {
            assert(tbl_at(ts1, i, k3) == tbl_at(ts0, i, k3));
        } else {
            assert(tbl_at(ts1, i, k3) == ValV::Nil);
        }
    }
}

/// Protecting a table only strengthens the reference discipline.
pub proof fn lemma_visible_after_protect(
    ts0: Seq<TableData>,
    ts1: Seq<TableData>,
    t: int,
    env: int,
)
    requires
        visible_ok(ts0, env),
        0 <= t < ts0.len(),
        ts1.len() == ts0.len(),
        forall|i: int| 0 <= i < ts0.len() && i != t ==> ts1[i] == ts0[i],
        ts1[t].entries@ == ts0[t].entries@,
        ts1[t].mode == TableMode::Protected,
    ensures
        visible_ok(ts1, env),
{
    assert forall|i: int, k3: Seq<char>| 0 <= i < ts1.len() implies ((#[trigger] tbl_at(
        ts1,
        i,
        k3,
    )) matches ValV::Table(x) ==> 0 <= x < ts1.len() && (ts1[x].mode is Protected || (x == env && i
        == env))) by {
        assert(tbl_at(ts1, i, k3) == tbl_at(ts0, i, k3));
        match tbl_at(ts0, i, k3) {
            ValV::Table(x) => {
                if x != t {
                    assert(ts1[x].mode == ts0[x].mode);
                }
            },
            _ => {},
        }
    }
}

/// A non-absent script read comes raw out of some table at or below `t`.
pub proof fn lemma_read_found(ts: Seq<TableData>, t: int, k: Seq<char>)
    requires
        0 <= t < ts.len(),
    ensures
        read_at(ts, t, k) == ValV::Nil || exists|i: int|
            0 <= i <= t && #[trigger] tbl_at(ts, i, k) == read_at(ts, t, k),
    decreases t,
{
    match ts[t].mode {
        TableMode::Overlay(l) => {
            if tbl_at(ts, t, k) != ValV::Nil {
                assert(tbl_at(ts, t, k) == read_at(ts, t, k));
            } else if (l as int) < t {
                lemma_read_found(ts, l as int, k);
            }
        },
        _ => {
            assert(tbl_at(ts, t, k) == read_at(ts, t, k));
        },
    }
}

/// Law: protection never changes what a table holds. Once the read-only
/// wrapper is installed, every key still reads as the value stored
/// before protection — writes are what protection takes away, not reads.
pub proof fn lemma_protect_preserves_reads(
    ts0: Seq<TableData>,
    ts1: Seq<TableData>,
    t: int,
    k: Seq<char>,
)
    requires
        0 <= t < ts0.len(),
        ts1.len() == ts0.len(),
        ts1[t].entries@ == ts0[t].entries@,
        ts1[t].mode == TableMode::Protected,
    ensures
        read_at(ts1, t, k) == tbl_at(ts0, t, k),
{
    assert(tbl_at(ts1, t, k) == tbl_at(ts0, t, k));
}

/// Law: an overlay write never mutates its lower table. After writing a
/// (present) value `v` under `k` to the upper table `u` of an overlay
/// over `l`, the lower table's raw and script-visible values of `k` are
/// what they were, while a read through the overlay yields `v`. (Writing
/// the absent value is the one excluded input: it erases the upper entry,
/// so the overlay read falls through again.)
pub proof fn lemma_overlay_write_isolated(
    ts0: Seq<TableData>,
    ts1: Seq<TableData>,
    u: int,
    l: usize,
    k: Seq<char>,
    v: ValV,
)
    requires
        seq_wf(ts0),
        0 <= u < ts0.len(),
        ts0[u].mode == TableMode::Overlay(l),
        ts1.len() == ts0.len(),
        ts1[u].mode == ts0[u].mode,
        forall|i: int| 0 <= i < ts0.len() && i != u ==> ts1[i] == ts0[i],
        forall|k2: Seq<char>|
            #[trigger] tbl_at(ts1, u, k2) == (if k2 == k {
                v
            } else {
                tbl_at(ts0, u, k2)
            }),
        v != ValV::Nil,
    ensures
        tbl_at(ts1, l as int, k) == tbl_at(ts0, l as int, k),
        read_at(ts1, l as int, k) == read_at(ts0, l as int, k),
        read_at(ts1, u, k) == v,
{
    assert((l as int) < u);
    assert(ts1[l as int] == ts0[l as int]);
    lemma_read_agree(ts0, ts1, l as int, k);
    assert(tbl_at(ts1, u, k) == v);
}

/// Law: each execution's overlay starts clean, so a later execution
/// reads the shared namespace exactly as it stood before an earlier one
/// ran: the earlier execution's overlay is gone and its writes with it.
pub proof fn lemma_execution_isolation(
    ts0: Seq<TableData>,
    ts2: Seq<TableData>,
    g: usize,
    k: Seq<char>,
)
    requires
        seq_wf(ts0),
        (g as int) < ts0.len(),
        ts2.len() == ts0.len() + 1,
        forall|i: int| 0 <= i < ts0.len() ==> ts2[i] == ts0[i],
        ts2[ts0.len() as int].mode == TableMode::Overlay(g),
        ts2[ts0.len() as int].entries@.len() == 0,
    ensures
        read_at(ts2, ts0.len() as int, k) == read_at(ts0, g as int, k),
{
    let env = ts0.len() as int;
    assert(tbl_at(ts2, env, k) == ValV::Nil);
    lemma_read_agree(ts0, ts2, g as int, k);
}

} // verus!
