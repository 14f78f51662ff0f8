//! The runtime: bootstraps the restricted interpreter state once,
//! protects every shared namespace before any script can run, and drives
//! each execution inside a fresh overlay environment.
//!
//! An execution is a session: `begin_run` gates the chunk and builds the
//! overlay, the event functions answer the interpreter's namespace
//! requests (global reads and writes, indexing, module resolution), and
//! `finish_run` reports arena statistics when asked and discards the
//! overlay, so no global mutation survives the call.

use vstd::prelude::*;

use crate::arena::LuaArena;
use crate::modules::{
    candidate0, candidate1, candidate2, resolve_module, resolve_spec, VirtualFs,
};
use crate::tables::{
    lemma_read_agree, lemma_read_found, lemma_visible_after_create, lemma_visible_after_protect,
    lemma_visible_after_set, read_at, seq_wf, tbl_at, visible_ok, TableData, TableHeap, TableMode,
};
use crate::{ScriptError, ValV, Value};

verus! {

/// What the sandbox reads of an externally owned document root: its
/// name. The host converts its own document type to and from this.
pub struct DocumentRoot {
    pub name: String,
}

/// Per-execution context: an optional document root to bind under the
/// fixed name "document", and whether to report arena statistics.
pub struct LuaContext {
    pub document_root: Option<DocumentRoot>,
    pub print_arena_stats: bool,
}

/// A snapshot of the arena's accounting.
#[derive(Clone, Copy, Debug, PartialEq, Eq, Structural)]
pub struct ArenaStats {
    pub total: u64,
    pub gc: u64,
    pub debt: u64,
}

/// Arena statistics around the full collection that the diagnostics
/// path of an execution performs.
#[derive(Clone, Copy, Debug, PartialEq, Eq, Structural)]
pub struct ArenaReport {
    pub before: ArenaStats,
    pub after: ArenaStats,
}

/// One active execution: the index of its overlay environment, how many
/// document bindings existed when it began, and the chunk name under
/// which its failures are reported.
pub struct Execution {
    pub env: usize,
    pub docs_base: usize,
    pub chunk_name: String,
}

/// What the per-call "vfs" namespace holds: each binding's name maps to
/// the handle of its capability (its position in the binding order), a
/// later duplicate name shadowing an earlier one; every other key is
/// absent.
pub open spec fn vfs_table_at(bs: Seq<(String, VirtualFs)>, k: Seq<char>) -> ValV
    decreases bs.len(),
{
    if bs.len() == 0 {
        ValV::Nil
    } else if bs.last().0@ == k {
        ValV::Handle(bs.len() - 1)
    } else {
        vfs_table_at(bs.drop_last(), k)
    }
}

/// The long-lived runtime: the table heap holding every namespace, the
/// shared protected capability table ("mod"), the arena, the active
/// filesystem bindings, and the document roots currently lent out.
pub struct ModLuaRuntime {
    pub heap: TableHeap,
    pub globals: usize,
    pub lib: usize,
    pub arena_state: LuaArena,
    pub vfs: Option<Vec<(String, VirtualFs)>>,
    pub docs: Vec<DocumentRoot>,
}

impl ModLuaRuntime {
    pub open spec fn ts(self) -> Seq<TableData> {
        self.heap.ts()
    }

    /// The value of key `k` in the shared global namespace.
    pub open spec fn g_at(self, k: Seq<char>) -> ValV {
        tbl_at(self.ts(), self.globals as int, k)
    }

    /// The value of key `k` in the shared capability table.
    pub open spec fn lib_at(self, k: Seq<char>) -> ValV {
        tbl_at(self.ts(), self.lib as int, k)
    }

    pub open spec fn vfs_active(self) -> bool {
        self.vfs is Some
    }

    pub open spec fn base_wf(self) -> bool {
        &&& self.heap.wf()
        &&& self.arena_state.wf()
        &&& (self.globals as int) < self.ts().len()
        &&& (self.lib as int) < self.ts().len()
        &&& self.ts()[self.globals as int].mode == TableMode::Plain
        &&& self.ts()[self.lib as int].mode == TableMode::Protected
    }

    /// Well-formed and idle: no execution in flight, so every table
    /// reference a script could ever have observed is protected.
    pub open spec fn wf(self) -> bool {
        &&& self.base_wf()
        &&& visible_ok(self.ts(), -1)
    }

    /// Well-formed with the execution `ex` in flight: its overlay is the
    /// top table, laid over the shared globals.
    pub open spec fn session_wf(self, ex: Execution) -> bool {
        &&& self.base_wf()
        &&& ex.env as int == self.ts().len() - 1
        &&& self.ts()[ex.env as int].mode == TableMode::Overlay(self.globals)
        &&& visible_ok(self.ts(), ex.env as int)
        &&& ex.docs_base <= self.docs@.len()
    }

    /// A value a script may legitimately hold during execution `env`:
    /// any table it refers to is protected, or is the overlay itself.
    pub open spec fn value_ok(self, v: ValV, env: int) -> bool {
        v matches ValV::Table(t) ==> 0 <= t < self.ts().len() && (self.ts()[t].mode is Protected
            || t == env)
    }

    /// A scoped borrow of the arena.
    pub fn arena(&self) -> (r: &LuaArena)
        ensures
            *r == self.arena_state,
    {
        &self.arena_state
    }

    /// Strip the module system of every filesystem- and native-library
    /// resolution primitive and pin the single fixed logical search path;
    /// resolution itself is the virtual strategy (`require`).
    fn setup_package(heap: &mut TableHeap, pkg: usize)
        requires
            old(heap).wf(),
            (pkg as int) < old(heap).ts().len(),
            visible_ok(old(heap).ts(), -1),
        ensures
            final(heap).wf(),
            visible_ok(final(heap).ts(), -1),
            final(heap).ts().len() == old(heap).ts().len(),
            forall|i: int|
                0 <= i < old(heap).ts().len() && i != pkg ==> final(heap).ts()[i] == old(
                    heap,
                ).ts()[i],
            forall|i: int|
                0 <= i < old(heap).ts().len() ==> final(heap).ts()[i].mode == old(
                    heap,
                ).ts()[i].mode,
            tbl_at(final(heap).ts(), pkg as int, "path"@) == ValV::Str(
                "./?.lua;/data/?.lua;/?.lua"@,
            ),
            tbl_at(final(heap).ts(), pkg as int, "cpath"@) == ValV::Nil,
            tbl_at(final(heap).ts(), pkg as int, "loadlib"@) == ValV::Nil,
            tbl_at(final(heap).ts(), pkg as int, "preload"@) == ValV::Nil,
            tbl_at(final(heap).ts(), pkg as int, "searchpath"@) == ValV::Nil,
    {
        let ghost t: int = pkg as int;
        // The primitives arrive with the module system, whatever the
        // enabled facility set; then they are removed one by one.
        let ghost s0 = heap.ts();
        heap.raw_set(pkg, "cpath", Value::Handle(1));
        proof {
            lemma_visible_after_set(s0, heap.ts(), t, "cpath"@, ValV::Handle(1), -1);
        }
        let ghost s1 = heap.ts();
        heap.raw_set(pkg, "loadlib", Value::Handle(2));
        proof {
            lemma_visible_after_set(s1, heap.ts(), t, "loadlib"@, ValV::Handle(2), -1);
        }
        let ghost s2 = heap.ts();
        heap.raw_set(pkg, "preload", Value::Handle(3));
        proof {
            lemma_visible_after_set(s2, heap.ts(), t, "preload"@, ValV::Handle(3), -1);
        }
        let ghost s3 = heap.ts();
        heap.raw_set(pkg, "searchpath", Value::Handle(4));
        proof {
            lemma_visible_after_set(s3, heap.ts(), t, "searchpath"@, ValV::Handle(4), -1);
        }
        let ghost s4 = heap.ts();
        heap.raw_set(pkg, "cpath", Value::Nil);
        proof {
            lemma_visible_after_set(s4, heap.ts(), t, "cpath"@, ValV::Nil, -1);
        }
        let ghost s5 = heap.ts();
        heap.raw_set(pkg, "loadlib", Value::Nil);
        proof {
            lemma_visible_after_set(s5, heap.ts(), t, "loadlib"@, ValV::Nil, -1);
        }
        let ghost s6 = heap.ts();
        heap.raw_set(pkg, "preload", Value::Nil);
        proof {
            lemma_visible_after_set(s6, heap.ts(), t, "preload"@, ValV::Nil, -1);
        }
        let ghost s7 = heap.ts();
        heap.raw_set(pkg, "searchpath", Value::Nil);
        proof {
            lemma_visible_after_set(s7, heap.ts(), t, "searchpath"@, ValV::Nil, -1);
        }
        let ghost s8 = heap.ts();
        heap.raw_set(pkg, "path", Value::Str("./?.lua;/data/?.lua;/?.lua".to_owned()));
        proof {
            lemma_visible_after_set(
                s8,
                heap.ts(),
                t,
                "path"@,
                ValV::Str("./?.lua;/data/?.lua;/?.lua"@),
                -1,
            );
            reveal_strlit("path");
            reveal_strlit("cpath");
            reveal_strlit("loadlib");
            reveal_strlit("preload");
            reveal_strlit("searchpath");
            assert("path"@.len() == 4);
            assert("cpath"@.len() == 5);
            assert("loadlib"@.len() == 7);
            assert("preload"@.len() == 7);
            assert("searchpath"@.len() == 10);
            assert("loadlib"@[0] == 'l');
            assert("preload"@[0] == 'p');
            assert(tbl_at(heap.ts(), t, "cpath"@) == ValV::Nil);
            assert(tbl_at(heap.ts(), t, "loadlib"@) == ValV::Nil);
            assert(tbl_at(heap.ts(), t, "preload"@) == ValV::Nil);
            assert(tbl_at(heap.ts(), t, "searchpath"@) == ValV::Nil);
        }
    }

    /// Bootstrap the runtime, all-or-nothing: only the table, string,
    /// numeric and module-system facilities exist; dynamic file loading,
    /// raw collection control and raw protected-table assignment are
    /// removed outright; every base library namespace, every capability
    /// sub-table and the capability table itself are protected before any
    /// script can run; and the ambient mutable global namespace is gone —
    /// each execution brings its own overlay.
    #[verifier::rlimit(60)]
    pub fn new() -> (r: ModLuaRuntime)
        ensures
            r.wf(),
            !r.vfs_active(),
            r.docs@.len() == 0,
            r.arena_state.roots@.len() == 0,
            r.arena_state.spec_total() == 0,
            r.arena_state.debt == 0,
            r.g_at("dofile"@) == ValV::Nil,
            r.g_at("collectgarbage"@) == ValV::Nil,
            r.g_at("loadfile"@) == ValV::Nil,
            r.g_at("rawset"@) == ValV::Nil,
            r.g_at("_G"@) == ValV::Nil,
            r.g_at("string"@) is Table,
            r.g_at("table"@) is Table,
            r.g_at("math"@) is Table,
            r.g_at("package"@) is Table,
            r.g_at("mod"@) == ValV::Table(r.lib as int),
            forall|k: Seq<char>|
                k != "string"@ && k != "table"@ && k != "math"@ && k != "package"@ && k != "mod"@
                    ==> #[trigger] r.g_at(k) == ValV::Nil,
            exists|p: int|
                #![auto]
                {
                    &&& r.g_at("package"@) == ValV::Table(p)
                    &&& 0 <= p < r.ts().len()
                    &&& r.ts()[p].mode is Protected
                    &&& tbl_at(r.ts(), p, "path"@) == ValV::Str("./?.lua;/data/?.lua;/?.lua"@)
                    &&& tbl_at(r.ts(), p, "cpath"@) == ValV::Nil
                    &&& tbl_at(r.ts(), p, "loadlib"@) == ValV::Nil
                    &&& tbl_at(r.ts(), p, "preload"@) == ValV::Nil
                    &&& tbl_at(r.ts(), p, "searchpath"@) == ValV::Nil
                },
            r.lib_at("util"@) is Table,
            r.lib_at("iterutil"@) is Table,
            r.lib_at("table"@) is Table,
            r.lib_at("debug"@) is Table,
            r.lib_at("xml"@) is Table,
            r.lib_at("vfs"@) == ValV::Nil,
    {
        let mut heap = TableHeap::new();
        proof {
            assert(visible_ok(heap.ts(), -1));
        }
        let ghost h0 = heap.ts();
        let globals = heap.create_table();
        proof {
            lemma_visible_after_create(h0, heap.ts(), -1);
        }
        // Base library namespaces; each is protected before it becomes
        // reachable from the global namespace.
        let ghost h1 = heap.ts();
        let string_t = heap.create_table();
        proof {
            lemma_visible_after_create(h1, heap.ts(), -1);
        }
        let ghost h2 = heap.ts();
        heap.protect_table(string_t);
        proof {
            lemma_visible_after_protect(h2, heap.ts(), string_t as int, -1);
        }
        let ghost h3 = heap.ts();
        heap.raw_set(globals, "string", Value::Table(string_t));
        proof {
            lemma_visible_after_set(
                h3,
                heap.ts(),
                globals as int,
                "string"@,
                ValV::Table(string_t as int),
                -1,
            );
        }
        let ghost h4 = heap.ts();
        let table_t = heap.create_table();
        proof {
            lemma_visible_after_create(h4, heap.ts(), -1);
        }
        let ghost h5 = heap.ts();
        heap.protect_table(table_t);
        proof {
            lemma_visible_after_protect(h5, heap.ts(), table_t as int, -1);
        }
        let ghost h6 = heap.ts();
        heap.raw_set(globals, "table", Value::Table(table_t));
        proof {
            lemma_visible_after_set(
                h6,
                heap.ts(),
                globals as int,
                "table"@,
                ValV::Table(table_t as int),
                -1,
            );
        }
        let ghost h7 = heap.ts();
        let math_t = heap.create_table();
        proof {
            lemma_visible_after_create(h7, heap.ts(), -1);
        }
        let ghost h8 = heap.ts();
        heap.protect_table(math_t);
        proof {
            lemma_visible_after_protect(h8, heap.ts(), math_t as int, -1);
        }
        let ghost h9 = heap.ts();
        heap.raw_set(globals, "math", Value::Table(math_t));
        proof {
            lemma_visible_after_set(
                h9,
                heap.ts(),
                globals as int,
                "math"@,
                ValV::Table(math_t as int),
                -1,
            );
        }
        // The module system namespace: stripped, pinned to the fixed
        // search path, then protected and linked.
        let ghost h10 = heap.ts();
        let pkg = heap.create_table();
        proof {
            lemma_visible_after_create(h10, heap.ts(), -1);
        }
        Self::setup_package(&mut heap, pkg);
        let ghost h11 = heap.ts();
        heap.protect_table(pkg);
        proof {
            lemma_visible_after_protect(h11, heap.ts(), pkg as int, -1);
        }
        let ghost h12 = heap.ts();
        heap.raw_set(globals, "package", Value::Table(pkg));
        let ghost early = heap.ts();
        proof {
            lemma_visible_after_set(
                h12,
                heap.ts(),
                globals as int,
                "package"@,
                ValV::Table(pkg as int),
                -1,
            );
            reveal_strlit("string");
            reveal_strlit("table");
            reveal_strlit("math");
            reveal_strlit("package");
            assert("string"@.len() == 6);
            assert("table"@.len() == 5);
            assert("math"@.len() == 4);
            assert("package"@.len() == 7);
            assert("string"@[0] == 's');
            assert("table"@[0] == 't');
            assert(tbl_at(h4, globals as int, "string"@) == ValV::Table(string_t as int));
            assert(tbl_at(h6, globals as int, "string"@) == ValV::Table(string_t as int));
            assert(tbl_at(h7, globals as int, "string"@) == ValV::Table(string_t as int));
            assert(tbl_at(h9, globals as int, "string"@) == ValV::Table(string_t as int));
            assert(tbl_at(h10, globals as int, "string"@) == ValV::Table(string_t as int));
            assert(tbl_at(h11, globals as int, "string"@) == ValV::Table(string_t as int));
            assert(tbl_at(h12, globals as int, "string"@) == ValV::Table(string_t as int));
            assert(tbl_at(early, globals as int, "string"@) == ValV::Table(string_t as int));
            assert(tbl_at(h7, globals as int, "table"@) == ValV::Table(table_t as int));
            assert(tbl_at(h9, globals as int, "table"@) == ValV::Table(table_t as int));
            assert(tbl_at(h10, globals as int, "table"@) == ValV::Table(table_t as int));
            assert(tbl_at(h11, globals as int, "table"@) == ValV::Table(table_t as int));
            assert(tbl_at(h12, globals as int, "table"@) == ValV::Table(table_t as int));
            assert(tbl_at(early, globals as int, "table"@) == ValV::Table(table_t as int));
            assert(tbl_at(h10, globals as int, "math"@) == ValV::Table(math_t as int));
            assert(tbl_at(h11, globals as int, "math"@) == ValV::Table(math_t as int));
            assert(tbl_at(h12, globals as int, "math"@) == ValV::Table(math_t as int));
            assert(tbl_at(early, globals as int, "math"@) == ValV::Table(math_t as int));
            assert(tbl_at(early, globals as int, "package"@) == ValV::Table(pkg as int));
            reveal_strlit("path");
            reveal_strlit("cpath");
            reveal_strlit("loadlib");
            reveal_strlit("preload");
            reveal_strlit("searchpath");
            assert(tbl_at(h12, pkg as int, "path"@) == ValV::Str("./?.lua;/data/?.lua;/?.lua"@));
            assert(tbl_at(h12, pkg as int, "cpath"@) == ValV::Nil);
            assert(tbl_at(h12, pkg as int, "loadlib"@) == ValV::Nil);
            assert(tbl_at(h12, pkg as int, "preload"@) == ValV::Nil);
            assert(tbl_at(h12, pkg as int, "searchpath"@) == ValV::Nil);
            assert(early[pkg as int] == h12[pkg as int]);
            assert(tbl_at(early, pkg as int, "path"@) == ValV::Str("./?.lua;/data/?.lua;/?.lua"@));
            assert(tbl_at(early, pkg as int, "cpath"@) == ValV::Nil);
            assert(tbl_at(early, pkg as int, "loadlib"@) == ValV::Nil);
            assert(tbl_at(early, pkg as int, "preload"@) == ValV::Nil);
            assert(tbl_at(early, pkg as int, "searchpath"@) == ValV::Nil);
            assert(early[pkg as int].mode is Protected);
            assert forall|k: Seq<char>|
                k != "string"@ && k != "table"@ && k != "math"@ && k != "package"@ implies tbl_at(
                early,
                globals as int,
                k,
            ) == ValV::Nil by {
                assert(tbl_at(h1, globals as int, k) == ValV::Nil);
                assert(tbl_at(h2, globals as int, k) == ValV::Nil);
                assert(tbl_at(h3, globals as int, k) == ValV::Nil);
                assert(tbl_at(h4, globals as int, k) == ValV::Nil);
                assert(tbl_at(h5, globals as int, k) == ValV::Nil);
                assert(tbl_at(h6, globals as int, k) == ValV::Nil);
                assert(tbl_at(h7, globals as int, k) == ValV::Nil);
                assert(tbl_at(h8, globals as int, k) == ValV::Nil);
                assert(tbl_at(h9, globals as int, k) == ValV::Nil);
                assert(tbl_at(h10, globals as int, k) == ValV::Nil);
                assert(tbl_at(h11, globals as int, k) == ValV::Nil);
                assert(tbl_at(h12, globals as int, k) == ValV::Nil);
                assert(tbl_at(early, globals as int, k) == ValV::Nil);
            }
        }
        // Dangerous primitives arrive with the interpreter whatever the
        // facility set; remove each defensively.
        let ghost h13 = heap.ts();
        heap.raw_set(globals, "dofile", Value::Handle(11));
        proof {
            lemma_visible_after_set(h13, heap.ts(), globals as int, "dofile"@, ValV::Handle(11), -1);
        }
        let ghost h14 = heap.ts();
        heap.raw_set(globals, "collectgarbage", Value::Handle(12));
        proof {
            lemma_visible_after_set(
                h14,
                heap.ts(),
                globals as int,
                "collectgarbage"@,
                ValV::Handle(12),
                -1,
            );
        }
        let ghost h15 = heap.ts();
        heap.raw_set(globals, "loadfile", Value::Handle(13));
        proof {
            lemma_visible_after_set(
                h15,
                heap.ts(),
                globals as int,
                "loadfile"@,
                ValV::Handle(13),
                -1,
            );
        }
        let ghost h16 = heap.ts();
        heap.raw_set(globals, "rawset", Value::Handle(14));
        let ghost staged = heap.ts();
        proof {
            lemma_visible_after_set(h16, heap.ts(), globals as int, "rawset"@, ValV::Handle(14), -1);
            reveal_strlit("dofile");
            reveal_strlit("collectgarbage");
            reveal_strlit("loadfile");
            reveal_strlit("rawset");
            assert("dofile"@.len() == 6);
            assert("collectgarbage"@.len() == 14);
            assert("loadfile"@.len() == 8);
            assert("rawset"@.len() == 6);
            assert("dofile"@[0] == 'd');
            assert("rawset"@[0] == 'r');
            assert(tbl_at(h14, globals as int, "string"@) == ValV::Table(string_t as int));
            assert(tbl_at(h15, globals as int, "string"@) == ValV::Table(string_t as int));
            assert(tbl_at(h16, globals as int, "string"@) == ValV::Table(string_t as int));
            assert(tbl_at(staged, globals as int, "string"@) == ValV::Table(string_t as int));
            assert(tbl_at(h14, globals as int, "table"@) == ValV::Table(table_t as int));
            assert(tbl_at(h15, globals as int, "table"@) == ValV::Table(table_t as int));
            assert(tbl_at(h16, globals as int, "table"@) == ValV::Table(table_t as int));
            assert(tbl_at(staged, globals as int, "table"@) == ValV::Table(table_t as int));
            assert(tbl_at(h14, globals as int, "math"@) == ValV::Table(math_t as int));
            assert(tbl_at(h15, globals as int, "math"@) == ValV::Table(math_t as int));
            assert(tbl_at(h16, globals as int, "math"@) == ValV::Table(math_t as int));
            assert(tbl_at(staged, globals as int, "math"@) == ValV::Table(math_t as int));
            assert(tbl_at(h14, globals as int, "package"@) == ValV::Table(pkg as int));
            assert(tbl_at(h15, globals as int, "package"@) == ValV::Table(pkg as int));
            assert(tbl_at(h16, globals as int, "package"@) == ValV::Table(pkg as int));
            assert(tbl_at(staged, globals as int, "package"@) == ValV::Table(pkg as int));
            assert(h14[pkg as int] == early[pkg as int]);
            assert(h15[pkg as int] == h14[pkg as int]);
            assert(h16[pkg as int] == h15[pkg as int]);
            assert(staged[pkg as int] == h16[pkg as int]);
            assert forall|k: Seq<char>|
                k != "string"@ && k != "table"@ && k != "math"@ && k != "package"@ && k
                    != "dofile"@ && k != "collectgarbage"@ && k != "loadfile"@ && k != "rawset"@
                    implies tbl_at(staged, globals as int, k) == ValV::Nil by {
                assert(tbl_at(early, globals as int, k) == ValV::Nil);
                assert(tbl_at(h14, globals as int, k) == ValV::Nil);
                assert(tbl_at(h15, globals as int, k) == ValV::Nil);
                assert(tbl_at(h16, globals as int, k) == ValV::Nil);
                assert(tbl_at(staged, globals as int, k) == ValV::Nil);
            }
        }
        let ghost h17 = heap.ts();
        heap.raw_set(globals, "dofile", Value::Nil);
        proof {
            lemma_visible_after_set(h17, heap.ts(), globals as int, "dofile"@, ValV::Nil, -1);
        }
        let ghost h18 = heap.ts();
        heap.raw_set(globals, "collectgarbage", Value::Nil);
        proof {
            lemma_visible_after_set(
                h18,
                heap.ts(),
                globals as int,
                "collectgarbage"@,
                ValV::Nil,
                -1,
            );
        }
        let ghost h19 = heap.ts();
        heap.raw_set(globals, "loadfile", Value::Nil);
        proof {
            lemma_visible_after_set(h19, heap.ts(), globals as int, "loadfile"@, ValV::Nil, -1);
        }
        let ghost h20 = heap.ts();
        heap.raw_set(globals, "rawset", Value::Nil);
        proof {
            lemma_visible_after_set(h20, heap.ts(), globals as int, "rawset"@, ValV::Nil, -1);
        }
        // No script may ever observe a process-wide mutable global
        // table: every execution supplies its own overlay instead.
        let ghost h21 = heap.ts();
        heap.raw_set(globals, "_G", Value::Nil);
        let ghost mid = heap.ts();
        proof {
            lemma_visible_after_set(h21, heap.ts(), globals as int, "_G"@, ValV::Nil, -1);
            reveal_strlit("string");
            reveal_strlit("table");
            reveal_strlit("math");
            reveal_strlit("package");
            reveal_strlit("dofile");
            reveal_strlit("collectgarbage");
            reveal_strlit("loadfile");
            reveal_strlit("rawset");
            reveal_strlit("_G");
            reveal_strlit("mod");
            assert("string"@.len() == 6);
            assert("table"@.len() == 5);
            assert("math"@.len() == 4);
            assert("package"@.len() == 7);
            assert("dofile"@.len() == 6);
            assert("collectgarbage"@.len() == 14);
            assert("loadfile"@.len() == 8);
            assert("rawset"@.len() == 6);
            assert("_G"@.len() == 2);
            assert("mod"@.len() == 3);
            assert("string"@[0] == 's');
            assert("dofile"@[0] == 'd');
            assert("rawset"@[0] == 'r');
            assert("table"@[0] == 't');
            assert(tbl_at(mid, globals as int, "dofile"@) == ValV::Nil);
            assert(tbl_at(mid, globals as int, "collectgarbage"@) == ValV::Nil);
            assert(tbl_at(mid, globals as int, "loadfile"@) == ValV::Nil);
            assert(tbl_at(mid, globals as int, "rawset"@) == ValV::Nil);
            assert(tbl_at(mid, globals as int, "_G"@) == ValV::Nil);
            assert(tbl_at(h18, globals as int, "string"@) == ValV::Table(string_t as int));
            assert(tbl_at(h19, globals as int, "string"@) == ValV::Table(string_t as int));
            assert(tbl_at(h20, globals as int, "string"@) == ValV::Table(string_t as int));
            assert(tbl_at(h21, globals as int, "string"@) == ValV::Table(string_t as int));
            assert(tbl_at(mid, globals as int, "string"@) == ValV::Table(string_t as int));
            assert(tbl_at(h18, globals as int, "table"@) == ValV::Table(table_t as int));
            assert(tbl_at(h19, globals as int, "table"@) == ValV::Table(table_t as int));
            assert(tbl_at(h20, globals as int, "table"@) == ValV::Table(table_t as int));
            assert(tbl_at(h21, globals as int, "table"@) == ValV::Table(table_t as int));
            assert(tbl_at(mid, globals as int, "table"@) == ValV::Table(table_t as int));
            assert(tbl_at(h18, globals as int, "math"@) == ValV::Table(math_t as int));
            assert(tbl_at(h19, globals as int, "math"@) == ValV::Table(math_t as int));
            assert(tbl_at(h20, globals as int, "math"@) == ValV::Table(math_t as int));
            assert(tbl_at(h21, globals as int, "math"@) == ValV::Table(math_t as int));
            assert(tbl_at(mid, globals as int, "math"@) == ValV::Table(math_t as int));
            assert(tbl_at(h18, globals as int, "package"@) == ValV::Table(pkg as int));
            assert(tbl_at(h19, globals as int, "package"@) == ValV::Table(pkg as int));
            assert(tbl_at(h20, globals as int, "package"@) == ValV::Table(pkg as int));
            assert(tbl_at(h21, globals as int, "package"@) == ValV::Table(pkg as int));
            assert(tbl_at(mid, globals as int, "package"@) == ValV::Table(pkg as int));
            assert(h18[pkg as int] == staged[pkg as int]);
            assert(h19[pkg as int] == h18[pkg as int]);
            assert(h20[pkg as int] == h19[pkg as int]);
            assert(h21[pkg as int] == h20[pkg as int]);
            assert(mid[pkg as int] == h21[pkg as int]);
            assert forall|k: Seq<char>|
                k != "string"@ && k != "table"@ && k != "math"@ && k != "package"@ implies tbl_at(
                mid,
                globals as int,
                k,
            ) == ValV::Nil by {
                if k == "dofile"@ || k == "collectgarbage"@ || k == "loadfile"@ || k == "rawset"@
                    || k == "_G"@ {
                    assert(tbl_at(mid, globals as int, k) == ValV::Nil);
                } else {
                    assert(tbl_at(staged, globals as int, k) == ValV::Nil);
                    assert(tbl_at(h18, globals as int, k) == ValV::Nil);
                    assert(tbl_at(h19, globals as int, k) == ValV::Nil);
                    assert(tbl_at(h20, globals as int, k) == ValV::Nil);
                    assert(tbl_at(h21, globals as int, k) == ValV::Nil);
                    assert(tbl_at(mid, globals as int, k) == ValV::Nil);
                }
            }
        }
        // The shared capability table: the bundled helper sub-tables and
        // the native extension tables, each protected, then the table
        // itself.
        let ghost h22 = heap.ts();
        let util_t = heap.create_table();
        proof {
            lemma_visible_after_create(h22, heap.ts(), -1);
        }
        let ghost h23 = heap.ts();
        heap.protect_table(util_t);
        proof {
            lemma_visible_after_protect(h23, heap.ts(), util_t as int, -1);
        }
        let ghost h24 = heap.ts();
        let iterutil_t = heap.create_table();
        proof {
            lemma_visible_after_create(h24, heap.ts(), -1);
        }
        let ghost h25 = heap.ts();
        heap.protect_table(iterutil_t);
        proof {
            lemma_visible_after_protect(h25, heap.ts(), iterutil_t as int, -1);
        }
        let ghost h26 = heap.ts();
        let tablehelp_t = heap.create_table();
        proof {
            lemma_visible_after_create(h26, heap.ts(), -1);
        }
        let ghost h27 = heap.ts();
        heap.protect_table(tablehelp_t);
        proof {
            lemma_visible_after_protect(h27, heap.ts(), tablehelp_t as int, -1);
        }
        let ghost h28 = heap.ts();
        let debug_t = heap.create_table();
        proof {
            lemma_visible_after_create(h28, heap.ts(), -1);
        }
        let ghost h29 = heap.ts();
        heap.protect_table(debug_t);
        proof {
            lemma_visible_after_protect(h29, heap.ts(), debug_t as int, -1);
        }
        let ghost h30 = heap.ts();
        let xml_t = heap.create_table();
        proof {
            lemma_visible_after_create(h30, heap.ts(), -1);
        }
        let ghost h31 = heap.ts();
        heap.protect_table(xml_t);
        proof {
            lemma_visible_after_protect(h31, heap.ts(), xml_t as int, -1);
        }
        let ghost h32 = heap.ts();
        let lib = heap.create_table();
        proof {
            lemma_visible_after_create(h32, heap.ts(), -1);
        }
        let ghost h33 = heap.ts();
        heap.raw_set(lib, "util", Value::Table(util_t));
        proof {
            lemma_visible_after_set(
                h33,
                heap.ts(),
                lib as int,
                "util"@,
                ValV::Table(util_t as int),
                -1,
            );
        }
        let ghost h34 = heap.ts();
        heap.raw_set(lib, "iterutil", Value::Table(iterutil_t));
        proof {
            lemma_visible_after_set(
                h34,
                heap.ts(),
                lib as int,
                "iterutil"@,
                ValV::Table(iterutil_t as int),
                -1,
            );
        }
        let ghost h35 = heap.ts();
        heap.raw_set(lib, "table", Value::Table(tablehelp_t));
        proof {
            lemma_visible_after_set(
                h35,
                heap.ts(),
                lib as int,
                "table"@,
                ValV::Table(tablehelp_t as int),
                -1,
            );
        }
        let ghost h36 = heap.ts();
        heap.raw_set(lib, "debug", Value::Table(debug_t));
        proof {
            lemma_visible_after_set(
                h36,
                heap.ts(),
                lib as int,
                "debug"@,
                ValV::Table(debug_t as int),
                -1,
            );
        }
        let ghost h37 = heap.ts();
        heap.raw_set(lib, "xml", Value::Table(xml_t));
        proof {
            lemma_visible_after_set(
                h37,
                heap.ts(),
                lib as int,
                "xml"@,
                ValV::Table(xml_t as int),
                -1,
            );
        }
        let ghost h38 = heap.ts();
        heap.protect_table(lib);
        proof {
            lemma_visible_after_protect(h38, heap.ts(), lib as int, -1);
        }
        let ghost h39 = heap.ts();
        heap.raw_set(globals, "mod", Value::Table(lib));
        proof {
            lemma_visible_after_set(
                h39,
                heap.ts(),
                globals as int,
                "mod"@,
                ValV::Table(lib as int),
                -1,
            );
        }
        proof {
            reveal_strlit("string");
            reveal_strlit("table");
            reveal_strlit("math");
            reveal_strlit("package");
            reveal_strlit("dofile");
            reveal_strlit("collectgarbage");
            reveal_strlit("loadfile");
            reveal_strlit("rawset");
            reveal_strlit("_G");
            reveal_strlit("mod");
            reveal_strlit("util");
            reveal_strlit("iterutil");
            reveal_strlit("debug");
            reveal_strlit("xml");
            reveal_strlit("vfs");
            assert("string"@.len() == 6);
            assert("table"@.len() == 5);
            assert("math"@.len() == 4);
            assert("package"@.len() == 7);
            assert("dofile"@.len() == 6);
            assert("collectgarbage"@.len() == 14);
            assert("loadfile"@.len() == 8);
            assert("rawset"@.len() == 6);
            assert("_G"@.len() == 2);
            assert("mod"@.len() == 3);
            assert("util"@.len() == 4);
            assert("iterutil"@.len() == 8);
            assert("debug"@.len() == 5);
            assert("xml"@.len() == 3);
            assert("vfs"@.len() == 3);
            assert("string"@[0] == 's');
            assert("dofile"@[0] == 'd');
            assert("rawset"@[0] == 'r');
            assert("table"@[0] == 't');
            assert("debug"@[0] == 'd');
            assert("xml"@[0] == 'x');
            assert("vfs"@[0] == 'v');
            assert("mod"@[0] == 'm');
            assert(h23[globals as int] == mid[globals as int]);
            assert(h25[globals as int] == h23[globals as int]);
            assert(h27[globals as int] == h25[globals as int]);
            assert(h29[globals as int] == h27[globals as int]);
            assert(h31[globals as int] == h29[globals as int]);
            assert(h33[globals as int] == h31[globals as int]);
            assert(h35[globals as int] == h33[globals as int]);
            assert(h37[globals as int] == h35[globals as int]);
            assert(h39[globals as int] == h37[globals as int]);
            assert(h39[globals as int] == mid[globals as int]);
            assert(tbl_at(heap.ts(), globals as int, "dofile"@) == ValV::Nil);
            assert(tbl_at(heap.ts(), globals as int, "collectgarbage"@) == ValV::Nil);
            assert(tbl_at(heap.ts(), globals as int, "loadfile"@) == ValV::Nil);
            assert(tbl_at(heap.ts(), globals as int, "rawset"@) == ValV::Nil);
            assert(tbl_at(heap.ts(), globals as int, "_G"@) == ValV::Nil);
            assert(tbl_at(heap.ts(), globals as int, "string"@) == ValV::Table(string_t as int));
            assert(tbl_at(heap.ts(), globals as int, "table"@) == ValV::Table(table_t as int));
            assert(tbl_at(heap.ts(), globals as int, "math"@) == ValV::Table(math_t as int));
            assert(tbl_at(heap.ts(), globals as int, "package"@) == ValV::Table(pkg as int));
            assert(tbl_at(heap.ts(), globals as int, "mod"@) == ValV::Table(lib as int));
            assert(tbl_at(h34, lib as int, "util"@) == ValV::Table(util_t as int));
            assert(tbl_at(h35, lib as int, "util"@) == ValV::Table(util_t as int));
            assert(tbl_at(h36, lib as int, "util"@) == ValV::Table(util_t as int));
            assert(tbl_at(h37, lib as int, "util"@) == ValV::Table(util_t as int));
            assert(tbl_at(h38, lib as int, "util"@) == ValV::Table(util_t as int));
            assert(tbl_at(h39, lib as int, "util"@) == ValV::Table(util_t as int));
            assert(tbl_at(heap.ts(), lib as int, "util"@) == ValV::Table(util_t as int));
            assert(tbl_at(h35, lib as int, "iterutil"@) == ValV::Table(iterutil_t as int));
            assert(tbl_at(h36, lib as int, "iterutil"@) == ValV::Table(iterutil_t as int));
            assert(tbl_at(h37, lib as int, "iterutil"@) == ValV::Table(iterutil_t as int));
            assert(tbl_at(h38, lib as int, "iterutil"@) == ValV::Table(iterutil_t as int));
            assert(tbl_at(h39, lib as int, "iterutil"@) == ValV::Table(iterutil_t as int));
            assert(tbl_at(heap.ts(), lib as int, "iterutil"@) == ValV::Table(iterutil_t as int));
            assert(tbl_at(h36, lib as int, "table"@) == ValV::Table(tablehelp_t as int));
            assert(tbl_at(h37, lib as int, "table"@) == ValV::Table(tablehelp_t as int));
            assert(tbl_at(h38, lib as int, "table"@) == ValV::Table(tablehelp_t as int));
            assert(tbl_at(h39, lib as int, "table"@) == ValV::Table(tablehelp_t as int));
            assert(tbl_at(heap.ts(), lib as int, "table"@) == ValV::Table(tablehelp_t as int));
            assert(tbl_at(h37, lib as int, "debug"@) == ValV::Table(debug_t as int));
            assert(tbl_at(h38, lib as int, "debug"@) == ValV::Table(debug_t as int));
            assert(tbl_at(h39, lib as int, "debug"@) == ValV::Table(debug_t as int));
            assert(tbl_at(heap.ts(), lib as int, "debug"@) == ValV::Table(debug_t as int));
            assert(tbl_at(h38, lib as int, "xml"@) == ValV::Table(xml_t as int));
            assert(tbl_at(h39, lib as int, "xml"@) == ValV::Table(xml_t as int));
            assert(tbl_at(heap.ts(), lib as int, "xml"@) == ValV::Table(xml_t as int));
            assert(tbl_at(h34, lib as int, "vfs"@) == ValV::Nil);
            assert(tbl_at(h35, lib as int, "vfs"@) == ValV::Nil);
            assert(tbl_at(h36, lib as int, "vfs"@) == ValV::Nil);
            assert(tbl_at(h37, lib as int, "vfs"@) == ValV::Nil);
            assert(tbl_at(h38, lib as int, "vfs"@) == ValV::Nil);
            assert(tbl_at(h39, lib as int, "vfs"@) == ValV::Nil);
            assert(tbl_at(heap.ts(), lib as int, "vfs"@) == ValV::Nil);
            assert(h23[pkg as int] == mid[pkg as int]);
            assert(h25[pkg as int] == h23[pkg as int]);
            assert(h27[pkg as int] == h25[pkg as int]);
            assert(h29[pkg as int] == h27[pkg as int]);
            assert(h31[pkg as int] == h29[pkg as int]);
            assert(h33[pkg as int] == h31[pkg as int]);
            assert(h35[pkg as int] == h33[pkg as int]);
            assert(h37[pkg as int] == h35[pkg as int]);
            assert(h39[pkg as int] == h37[pkg as int]);
            assert(heap.ts()[pkg as int] == h39[pkg as int]);
            assert(heap.ts()[pkg as int] == early[pkg as int]);
            assert(heap.ts()[pkg as int].mode is Protected);
            assert(tbl_at(heap.ts(), pkg as int, "path"@) == ValV::Str(
                "./?.lua;/data/?.lua;/?.lua"@,
            ));
            assert(tbl_at(heap.ts(), pkg as int, "cpath"@) == ValV::Nil);
            assert(tbl_at(heap.ts(), pkg as int, "loadlib"@) == ValV::Nil);
            assert(tbl_at(heap.ts(), pkg as int, "preload"@) == ValV::Nil);
            assert(tbl_at(heap.ts(), pkg as int, "searchpath"@) == ValV::Nil);
            assert forall|k: Seq<char>|
                k != "string"@ && k != "table"@ && k != "math"@ && k != "package"@ && k != "mod"@
                    implies tbl_at(heap.ts(), globals as int, k) == ValV::Nil by {
                assert(tbl_at(mid, globals as int, k) == ValV::Nil);
                assert(tbl_at(h39, globals as int, k) == ValV::Nil);
                assert(tbl_at(heap.ts(), globals as int, k) == ValV::Nil);
            }
        }
        ModLuaRuntime {
            heap,
            globals,
            lib,
            arena_state: LuaArena::new(),
            vfs: None,
            docs: Vec::new(),
        }
    }

    /// Begin one execution: reject any precompiled/binary chunk before a
    /// single side effect, then build a fresh overlay over the shared
    /// namespace, alias it to itself as the global table, and bind the
    /// context's document root (if any) under the fixed name "document".
    pub fn begin_run(&mut self, code: &[u8], chunk_name: &str, context: &LuaContext) -> (r: Result<
        Execution,
        ScriptError,
    >)
        requires
            old(self).wf(),
        ensures
            (code@.len() > 0 && code@[0] == 27u8) <==> (r is Err),
            r is Err ==> (r matches Err(ScriptError::BinaryChunkRejected)),
            r is Err ==> final(self).ts() == old(self).ts(),
            r is Err ==> final(self).vfs == old(self).vfs,
            r is Err ==> final(self).arena_state == old(self).arena_state,
            r is Err ==> final(self).docs@ == old(self).docs@,
            r is Err ==> final(self).globals == old(self).globals && final(self).lib == old(
                self,
            ).lib,
            r matches Ok(ex) ==> ({
                &&& final(self).session_wf(ex)
                &&& ex.env as int == old(self).ts().len()
                &&& final(self).ts().len() == old(self).ts().len() + 1
                &&& (forall|i: int|
                    0 <= i < old(self).ts().len() ==> final(self).ts()[i] == old(self).ts()[i])
                &&& final(self).globals == old(self).globals
                &&& final(self).lib == old(self).lib
                &&& final(self).vfs == old(self).vfs
                &&& final(self).arena_state == old(self).arena_state
                &&& ex.docs_base == old(self).docs@.len()
                &&& tbl_at(final(self).ts(), ex.env as int, "_G"@) == ValV::Table(ex.env as int)
                &&& (context.document_root is Some ==> tbl_at(
                    final(self).ts(),
                    ex.env as int,
                    "document"@,
                ) == ValV::Handle(old(self).docs@.len() as int) && final(self).docs@.len() == old(
                    self,
                ).docs@.len() + 1)
                &&& (context.document_root matches Some(d) ==> final(self).docs@ == old(
                    self,
                ).docs@.push((DocumentRoot { name: d.name })))
                &&& (context.document_root is None ==> final(self).docs@ == old(self).docs@
                    && tbl_at(final(self).ts(), ex.env as int, "document"@) == ValV::Nil)
                &&& (forall|k: Seq<char>|
                    k != "_G"@ && k != "document"@ ==> #[trigger] read_at(
                        final(self).ts(),
                        ex.env as int,
                        k,
                    ) == read_at(old(self).ts(), old(self).globals as int, k))
            }),
    {
        if code.len() > 0 {
            let b: u8 = code[0];
            if b == 27 {
                return Err(ScriptError::BinaryChunkRejected);
            }
        }
        let ghost ts0 = self.heap.ts();
        let env = self.heap.create_overlay_table(self.globals);
        proof {
            assert forall|i: int, k: Seq<char>| 0 <= i < ts0.len() implies ((#[trigger] tbl_at(
                ts0,
                i,
                k,
            )) matches ValV::Table(t) ==> 0 <= t < ts0.len() && (ts0[t].mode is Protected || (t
                == env as int && i == env as int))) by {
                assert(visible_ok(ts0, -1));
            }
            assert(visible_ok(ts0, env as int));
            lemma_visible_after_create(ts0, self.heap.ts(), env as int);
        }
        let ghost ts1 = self.heap.ts();
        self.heap.raw_set(env, "_G", Value::Table(env));
        proof {
            lemma_visible_after_set(
                ts1,
                self.heap.ts(),
                env as int,
                "_G"@,
                ValV::Table(env as int),
                env as int,
            );
        }
        let docs_base = self.docs.len();
        match &context.document_root {
            Some(d) => {
                let h = self.docs.len();
                self.docs.push(DocumentRoot { name: d.name.clone() });
                let ghost ts2 = self.heap.ts();
                self.heap.raw_set(env, "document", Value::Handle(h as u64));
                proof {
                    lemma_visible_after_set(
                        ts2,
                        self.heap.ts(),
                        env as int,
                        "document"@,
                        ValV::Handle(h as int),
                        env as int,
                    );
                }
            },
            None => {},
        }
        proof {
            reveal_strlit("_G");
            reveal_strlit("document");
            assert("_G"@.len() == 2);
            assert("document"@.len() == 8);
            assert(tbl_at(self.heap.ts(), env as int, "_G"@) == ValV::Table(env as int));
            assert forall|k: Seq<char>| k != "_G"@ && k != "document"@ implies #[trigger] read_at(
                self.heap.ts(),
                env as int,
                k,
            ) == read_at(ts0, self.globals as int, k) by {
                assert(tbl_at(self.heap.ts(), env as int, k) == ValV::Nil);
                lemma_read_agree(ts0, self.heap.ts(), self.globals as int, k);
            }
        }
        Ok(Execution { env, docs_base, chunk_name: chunk_name.to_owned() })
    }

    /// Answer a script's read of global `k`: the overlay first, the
    /// shared namespace beneath it.
    pub fn read_global(&self, ex: &Execution, k: &str) -> (r: Value)
        requires
            self.session_wf(*ex),
        ensures
            r@ == read_at(self.ts(), ex.env as int, k@),
            self.value_ok(r@, ex.env as int),
    {
        proof {
            lemma_read_found(self.ts(), ex.env as int, k@);
        }
        self.heap.read(ex.env, k)
    }

    /// Answer a script's indexing of a held value: tables read through
    /// their access mode, anything else is a runtime error.
    pub fn index_value(&self, ex: &Execution, target: &Value, k: &str) -> (r: Result<
        Value,
        ScriptError,
    >)
        requires
            self.session_wf(*ex),
            self.value_ok(target@, ex.env as int),
        ensures
            !(target@ is Table) ==> (r matches Err(ScriptError::BadIndex)),
            target@ matches ValV::Table(t) ==> (r matches Ok(v) && v@ == read_at(self.ts(), t, k@)
                && self.value_ok(v@, ex.env as int)),
    {
        match target {
            Value::Table(t) => {
                proof {
                    lemma_read_found(self.ts(), *t as int, k@);
                }
                Ok(self.heap.read(*t, k))
            },
            _ => Err(ScriptError::BadIndex),
        }
    }

    /// A script's write to global `k`: it lands in the overlay, never in
    /// the shared namespace beneath.
    pub fn write_global(&mut self, ex: &Execution, k: &str, v: Value)
        requires
            old(self).session_wf(*ex),
            old(self).value_ok(v@, ex.env as int),
        ensures
            final(self).session_wf(*ex),
            final(self).ts().len() == old(self).ts().len(),
            forall|i: int|
                0 <= i < old(self).ts().len() && i != ex.env as int ==> final(self).ts()[i] == old(
                    self,
                ).ts()[i],
            forall|k2: Seq<char>|
                #[trigger] tbl_at(final(self).ts(), ex.env as int, k2) == (if k2 == k@ {
                    v@
                } else {
                    tbl_at(old(self).ts(), ex.env as int, k2)
                }),
            v@ != ValV::Nil ==> read_at(final(self).ts(), ex.env as int, k@) == v@,
            final(self).globals == old(self).globals,
            final(self).lib == old(self).lib,
            final(self).vfs == old(self).vfs,
            final(self).arena_state == old(self).arena_state,
            final(self).docs@ == old(self).docs@,
    {
        let ghost ts0 = self.heap.ts();
        let _r = self.heap.write(ex.env, k, v);
        proof {
            lemma_visible_after_set(ts0, self.heap.ts(), ex.env as int, k@, v@, ex.env as int);
        }
    }

    /// A script's write through a held table reference: rejected with a
    /// sandbox-violation error on a protected table — the heap untouched —
    /// and confined to the overlay otherwise.
    pub fn set_index(&mut self, ex: &Execution, target: &Value, k: &str, v: Value) -> (r: Result<
        (),
        ScriptError,
    >)
        requires
            old(self).session_wf(*ex),
            old(self).value_ok(target@, ex.env as int),
            old(self).value_ok(v@, ex.env as int),
        ensures
            final(self).session_wf(*ex),
            final(self).globals == old(self).globals,
            final(self).lib == old(self).lib,
            final(self).vfs == old(self).vfs,
            final(self).arena_state == old(self).arena_state,
            final(self).docs@ == old(self).docs@,
            !(target@ is Table) ==> (r matches Err(ScriptError::BadIndex)) && final(self).ts()
                == old(self).ts(),
            target@ matches ValV::Table(t) ==> ({
                &&& (old(self).ts()[t].mode is Protected ==> (r matches Err(
                    ScriptError::ProtectedTableUpdate,
                )) && final(self).ts() == old(self).ts())
                &&& (!(old(self).ts()[t].mode is Protected) ==> (r is Ok) && (forall|i: int|
                    0 <= i < old(self).ts().len() && i != t ==> final(self).ts()[i] == old(
                        self,
                    ).ts()[i]) && (forall|k2: Seq<char>|
                    #[trigger] tbl_at(final(self).ts(), t, k2) == (if k2 == k@ {
                        v@
                    } else {
                        tbl_at(old(self).ts(), t, k2)
                    })))
            }),
    {
        match target {
            Value::Table(t) => {
                let ghost ts0 = self.heap.ts();
                let r = self.heap.write(*t, k, v);
                proof {
                    if !(ts0[*t as int].mode is Protected) {
                        lemma_visible_after_set(
                            ts0,
                            self.heap.ts(),
                            *t as int,
                            k@,
                            v@,
                            ex.env as int,
                        );
                    }
                }
                r
            },
            _ => Err(ScriptError::BadIndex),
        }
    }

    /// Resolve a module name for `require`: only the filesystem bindings
    /// active right now can answer; with none active — or none that
    /// serves the name — the error lists every candidate path tried.
    pub fn require(&self, name: &str) -> (r: Result<String, ScriptError>)
        ensures
            self.vfs matches Some(bs) ==> (match resolve_spec(bs@, name@) {
                Some(c) => r matches Ok(s) && s@ == c,
                None => (r matches Err(ScriptError::ModuleNotFound { tried }) && tried@.len() == 3
                    && tried@[0]@ == candidate0(name@) && tried@[1]@ == candidate1(name@)
                    && tried@[2]@ == candidate2(name@)),
            }),
            self.vfs is None ==> (r matches Err(ScriptError::ModuleNotFound { tried })
                && tried@.len() == 3 && tried@[0]@ == candidate0(name@) && tried@[1]@ == candidate1(
                name@,
            ) && tried@[2]@ == candidate2(name@)),
    {
        match &self.vfs {
            Some(bs) => resolve_module(bs, name),
            None => {
                let empty: Vec<(String, VirtualFs)> = Vec::new();
                let r = resolve_module(&empty, name);
                proof {
                    assert(empty@.len() == 0);
                }
                r
            },
        }
    }

    /// End an execution: report arena statistics around one full
    /// collection when asked, then discard the overlay and release the
    /// lent document roots — no global mutation survives.
    pub fn finish_run(&mut self, ex: Execution, context: &LuaContext) -> (r: Option<ArenaReport>)
        requires
            old(self).session_wf(ex),
        ensures
            final(self).wf(),
            final(self).ts() == old(self).ts().drop_last(),
            final(self).docs@ == old(self).docs@.subrange(0, ex.docs_base as int),
            final(self).vfs == old(self).vfs,
            final(self).globals == old(self).globals,
            final(self).lib == old(self).lib,
            context.print_arena_stats ==> (r matches Some(rep) && ({
                &&& rep.before.total == old(self).arena_state.spec_total()
                &&& rep.before.gc == old(self).arena_state.spec_total()
                &&& rep.before.debt == old(self).arena_state.debt
                &&& rep.after.total == old(self).arena_state.rooted_bytes
                &&& rep.after.gc == old(self).arena_state.rooted_bytes
                &&& rep.after.debt == 0
            })),
            context.print_arena_stats ==> final(self).arena_state.roots@ == old(
                self,
            ).arena_state.roots@,
            context.print_arena_stats ==> final(self).arena_state.rooted_bytes == old(
                self,
            ).arena_state.rooted_bytes,
            context.print_arena_stats ==> final(self).arena_state.garbage_bytes == 0,
            !context.print_arena_stats ==> r is None,
            !context.print_arena_stats ==> final(self).arena_state == old(self).arena_state,
    {
        let mut report: Option<ArenaReport> = None;
        if context.print_arena_stats {
            let before = ArenaStats {
                total: self.arena_state.total_allocation(),
                gc: self.arena_state.gc_allocation(),
                debt: self.arena_state.allocation_debt(),
            };
            self.arena_state.collect_all();
            let after = ArenaStats {
                total: self.arena_state.total_allocation(),
                gc: self.arena_state.gc_allocation(),
                debt: self.arena_state.allocation_debt(),
            };
            report = Some(ArenaReport { before, after });
        }
        let ghost ts0 = self.heap.ts();
        self.heap.discard_top();
        self.docs.truncate(ex.docs_base);
        proof {
            let ts1 = self.heap.ts();
            assert forall|i: int, k3: Seq<char>| 0 <= i < ts1.len() implies ((#[trigger] tbl_at(
                ts1,
                i,
                k3,
            )) matches ValV::Table(x) ==> 0 <= x < ts1.len() && (ts1[x].mode is Protected || (x
                == -1 && i == -1))) by {
                assert(ts1[i] == ts0[i]);
                assert(tbl_at(ts1, i, k3) == tbl_at(ts0, i, k3));
                match tbl_at(ts0, i, k3) {
                    ValV::Table(x) => {
                        assert(0 <= x < ts0.len() && (ts0[x].mode is Protected || (x
                            == ex.env as int && i == ex.env as int)));
                        assert(ts0[ex.env as int].mode matches TableMode::Overlay(g));
                        assert(!(ts0[x].mode is Protected) ==> false);
                        assert(ts1[x].mode == ts0[x].mode);
                    },
                    _ => {},
                }
            }
            assert(visible_ok(ts1, -1));
        }
        report
    }

    /// Bind the given virtual filesystems, in order, for the scoped
    /// span that follows: a fresh protected "vfs" namespace exposes each
    /// under its name — a later duplicate name shadows an earlier one —
    /// and module resolution consults them until `unbind_filesystems`
    /// runs. The caller brackets the span and must unbind on every exit
    /// path.
    pub fn bind_filesystems(&mut self, bindings: Vec<(String, VirtualFs)>)
        requires
            old(self).wf(),
            !old(self).vfs_active(),
        ensures
            final(self).wf(),
            final(self).vfs matches Some(b) && b == bindings,
            final(self).globals == old(self).globals,
            final(self).lib == old(self).lib,
            final(self).arena_state == old(self).arena_state,
            final(self).docs@ == old(self).docs@,
            final(self).ts().len() == old(self).ts().len() + 1,
            forall|i: int|
                0 <= i < old(self).ts().len() && i != old(self).lib as int ==> final(self).ts()[i]
                    == old(self).ts()[i],
            final(self).lib_at("vfs"@) == ValV::Table(old(self).ts().len() as int),
            final(self).ts()[old(self).ts().len() as int].mode is Protected,
            forall|k: Seq<char>|
                #[trigger] tbl_at(final(self).ts(), old(self).ts().len() as int, k)
                    == vfs_table_at(bindings@, k),
    {
        let ghost ts_in = self.heap.ts();
        let vt = self.heap.create_table();
        proof {
            lemma_visible_after_create(ts_in, self.heap.ts(), -1);
        }
        let n = bindings.len();
        let mut j: usize = 0;
        while j < n
            invariant
                n == bindings@.len(),
                j <= n,
                self.heap.wf(),
                vt as int == ts_in.len(),
                self.heap.ts().len() == ts_in.len() + 1,
                forall|i: int| 0 <= i < ts_in.len() ==> self.heap.ts()[i] == ts_in[i],
                self.heap.ts()[vt as int].mode == TableMode::Plain,
                visible_ok(self.heap.ts(), -1),
                forall|k: Seq<char>| !((#[trigger] tbl_at(self.heap.ts(), vt as int, k)) is Table),
                forall|k: Seq<char>|
                    #[trigger] tbl_at(self.heap.ts(), vt as int, k) == vfs_table_at(
                        bindings@.take(j as int),
                        k,
                    ),
                self.globals == old(self).globals,
                self.lib == old(self).lib,
                self.vfs == old(self).vfs,
                self.arena_state == old(self).arena_state,
                self.docs@ == old(self).docs@,
                ts_in == old(self).ts(),
                old(self).base_wf(),
            decreases n - j,
        {
            let ghost ts_a = self.heap.ts();
            let name = &bindings[j].0;
            self.heap.raw_set(vt, name.as_str(), Value::Handle(j as u64));
            proof {
                lemma_visible_after_set(
                    ts_a,
                    self.heap.ts(),
                    vt as int,
                    name@,
                    ValV::Handle(j as int),
                    -1,
                );
                assert(bindings@.take(j as int + 1).drop_last() =~= bindings@.take(j as int));
                assert(bindings@.take(j as int + 1).last() == bindings@[j as int]);
            }
            j = j + 1;
        }
        proof {
            assert(bindings@.take(n as int) =~= bindings@);
        }
        let ghost ts_b = self.heap.ts();
        self.heap.protect_table(vt);
        proof {
            lemma_visible_after_protect(ts_b, self.heap.ts(), vt as int, -1);
        }
        let ghost ts_c = self.heap.ts();
        self.heap.raw_set(self.lib, "vfs", Value::Table(vt));
        proof {
            lemma_visible_after_set(
                ts_c,
                self.heap.ts(),
                self.lib as int,
                "vfs"@,
                ValV::Table(vt as int),
                -1,
            );
            assert forall|k: Seq<char>| #[trigger] tbl_at(self.heap.ts(), vt as int, k)
                == vfs_table_at(bindings@, k) by {
                assert(tbl_at(ts_b, vt as int, k) == vfs_table_at(bindings@, k));
                assert(tbl_at(ts_c, vt as int, k) == vfs_table_at(bindings@, k));
                assert(self.heap.ts()[vt as int] == ts_c[vt as int]);
            }
        }
        self.vfs = Some(bindings);
    }

    /// Remove the "vfs" namespace and forget the bindings. Runs on every
    /// exit path of the span that bound them, success or failure — so it
    /// asks nothing of its caller, and always leaves the bindings gone.
    pub fn unbind_filesystems(&mut self)
        ensures
            !final(self).vfs_active(),
            final(self).globals == old(self).globals,
            final(self).lib == old(self).lib,
            final(self).arena_state == old(self).arena_state,
            final(self).docs@ == old(self).docs@,
            old(self).wf() ==> ({
                &&& final(self).wf()
                &&& final(self).lib_at("vfs"@) == ValV::Nil
                &&& final(self).ts().len() == old(self).ts().len()
                &&& (forall|i: int|
                    0 <= i < old(self).ts().len() && i != old(self).lib as int
                        ==> final(self).ts()[i] == old(self).ts()[i])
                &&& (forall|k2: Seq<char>|
                    k2 != "vfs"@ ==> #[trigger] tbl_at(final(self).ts(), old(self).lib as int, k2)
                        == tbl_at(old(self).ts(), old(self).lib as int, k2))
            }),
    {
        if self.lib < self.heap.tables.len() {
            let ghost ts0 = self.heap.ts();
            self.heap.raw_set(self.lib, "vfs", Value::Nil);
            proof {
                if seq_wf(ts0) && visible_ok(ts0, -1) {
                    lemma_visible_after_set(
                        ts0,
                        self.heap.ts(),
                        self.lib as int,
                        "vfs"@,
                        ValV::Nil,
                        -1,
                    );
                }
            }
        }
        self.vfs = None;
    }

    /// The runtime state that binding `bindings` over `self` yields:
    /// well-formed, these very bindings active, the heap grown by one
    /// protected "vfs" table that maps each binding's name to its
    /// capability handle, and everything else as it was.
    pub open spec fn bound_with(
        self,
        bindings: Vec<(String, VirtualFs)>,
        b: ModLuaRuntime,
    ) -> bool {
        &&& b.wf()
        &&& b.vfs == Some(bindings)
        &&& b.globals == self.globals
        &&& b.lib == self.lib
        &&& b.arena_state == self.arena_state
        &&& b.docs@ == self.docs@
        &&& b.ts().len() == self.ts().len() + 1
        &&& (forall|i: int|
            0 <= i < self.ts().len() && i != self.lib as int ==> b.ts()[i] == self.ts()[i])
        &&& b.lib_at("vfs"@) == ValV::Table(self.ts().len() as int)
        &&& b.ts()[self.ts().len() as int].mode is Protected
        &&& (forall|k: Seq<char>|
            #[trigger] tbl_at(b.ts(), self.ts().len() as int, k) == vfs_table_at(bindings@, k))
    }

    /// Register the given filesystems for exactly the dynamic extent of
    /// `body`, which is expected to trigger one or more executions that
    /// call `require` and runs on precisely the state those bindings
    /// make. The "vfs" namespace and the bindings are gone by the time
    /// this returns, on every exit path — a failing body included — and
    /// the runtime comes back well-formed.
    pub fn with_filesystems<R, F: FnOnce(ModLuaRuntime) -> (ModLuaRuntime, Result<R, ScriptError>)>(
        self,
        bindings: Vec<(String, VirtualFs)>,
        body: F,
    ) -> (r: (ModLuaRuntime, Result<R, ScriptError>))
        requires
            self.wf(),
            !self.vfs_active(),
            forall|s: ModLuaRuntime| #[trigger] call_requires(body, (s,)),
            forall|s: ModLuaRuntime, o: (ModLuaRuntime, Result<R, ScriptError>)|
                (#[trigger] call_ensures(body, (s,), o)) && s.wf() ==> o.0.wf(),
        ensures
            !r.0.vfs_active(),
            r.0.wf(),
            r.0.lib_at("vfs"@) == ValV::Nil,
            exists|bound: ModLuaRuntime, after: ModLuaRuntime|
                #[trigger] call_ensures(body, (bound,), (after, r.1)) && self.bound_with(
                    bindings,
                    bound,
                ),
    {
        let mut rt = self;
        rt.bind_filesystems(bindings);
        let ghost bound_state = rt;
        let (mid, res) = body(rt);
        proof {
            assert(call_ensures(body, (bound_state,), (mid, res)));
            assert(mid.wf());
            assert(self.bound_with(bindings, bound_state));
        }
        let mut out = mid;
        out.unbind_filesystems();
        let result = (out, res);
        proof {
            assert(call_ensures(body, (bound_state,), (mid, result.1)));
            assert(exists|bound: ModLuaRuntime, after: ModLuaRuntime|
                #[trigger] call_ensures(body, (bound,), (after, result.1)) && self.bound_with(
                    bindings,
                    bound,
                ));
        }
        result
    }

    /// The name accessor of a bound document handle: what a script sees
    /// when it asks the bound document for its name.
    pub fn document_name(&self, v: &Value) -> (r: Option<String>)
        ensures
            match v@ {
                ValV::Handle(h) => {
                    if 0 <= h < self.docs@.len() {
                        r matches Some(s) && s@ == self.docs@[h].name@
                    } else {
                        r is None
                    }
                },
                _ => r is None,
            },
    {
        match v {
            Value::Handle(h) => {
                if *h < self.docs.len() as u64 {
                    Some(self.docs[*h as usize].name.clone())
                } else {
                    None
                }
            },
            _ => None,
        }
    }
}

} // verus!
