use modlua::arena::LuaArena;
use modlua::modules::VirtualFs;
use modlua::runtime::{DocumentRoot, LuaContext, ModLuaRuntime};
use modlua::tables::TableHeap;
use modlua::{ScriptError, Value};

fn plain_context() -> LuaContext {
    LuaContext { document_root: None, print_arena_stats: false }
}

#[test]
fn protected_table_rejects_writes_and_keeps_reads() {
    let mut heap = TableHeap::new();
    let t = heap.create_table();
    heap.raw_set(t, "answer", Value::Int(42));
    heap.protect_table(t);
    let r = heap.write(t, "answer", Value::Int(0));
    assert!(matches!(r, Err(ScriptError::ProtectedTableUpdate)));
    assert_eq!(
        r.unwrap_err().message(),
        "attempt to update a protected table"
    );
    // a key set before protection still reads back unchanged
    assert_eq!(heap.read(t, "answer"), Value::Int(42));
    // and a fresh key write fails too
    assert!(matches!(
        heap.write(t, "other", Value::Int(1)),
        Err(ScriptError::ProtectedTableUpdate)
    ));
}

#[test]
fn overlay_writes_never_reach_the_lower_table() {
    let mut heap = TableHeap::new();
    let lower = heap.create_table();
    heap.raw_set(lower, "k", Value::Str("lower".to_string()));
    let upper = heap.create_overlay_table(lower);
    heap.write(upper, "k", Value::Str("upper".to_string())).unwrap();
    // reading K from the lower table directly yields its pre-write value
    assert_eq!(heap.raw_get(lower, "k"), Value::Str("lower".to_string()));
    // reading K through the overlay yields the written value
    assert_eq!(heap.read(upper, "k"), Value::Str("upper".to_string()));
    // a miss in the overlay falls through to the lower table
    heap.raw_set(lower, "other", Value::Int(7));
    assert_eq!(heap.read(upper, "other"), Value::Int(7));
}

#[test]
fn sequential_runs_never_observe_each_other() {
    let mut rt = ModLuaRuntime::new();
    let ctx = plain_context();

    let ex1 = rt.begin_run(b"x = 'first'", "one", &ctx).unwrap();
    rt.write_global(&ex1, "x", Value::Str("first".to_string()));
    assert_eq!(rt.read_global(&ex1, "x"), Value::Str("first".to_string()));
    rt.finish_run(ex1, &ctx);

    let ex2 = rt.begin_run(b"x = 'second'", "two", &ctx).unwrap();
    // the second execution sees a clean overlay
    assert_eq!(rt.read_global(&ex2, "x"), Value::Nil);
    rt.write_global(&ex2, "x", Value::Str("second".to_string()));
    assert_eq!(rt.read_global(&ex2, "x"), Value::Str("second".to_string()));
    rt.finish_run(ex2, &ctx);
}

#[test]
fn binary_chunks_are_rejected_before_any_effect() {
    let mut rt = ModLuaRuntime::new();
    let ctx = plain_context();
    let r = rt.begin_run(b"\x1bLua precompiled", "bin", &ctx);
    assert!(matches!(r, Err(ScriptError::BinaryChunkRejected)));
    // a text chunk is accepted
    let ex = rt.begin_run(b"return 2+2", "ok", &ctx).unwrap();
    rt.finish_run(ex, &ctx);
}

#[test]
fn globals_overlay_aliases_itself() {
    let mut rt = ModLuaRuntime::new();
    let ctx = plain_context();
    let ex = rt.begin_run(b"", "chunk", &ctx).unwrap();
    // the overlay is its own global-namespace alias
    let g = rt.read_global(&ex, "_G");
    assert!(matches!(g, Value::Table(_)));
    // dangerous primitives were removed at bootstrap
    assert_eq!(rt.read_global(&ex, "dofile"), Value::Nil);
    assert_eq!(rt.read_global(&ex, "collectgarbage"), Value::Nil);
    assert_eq!(rt.read_global(&ex, "loadfile"), Value::Nil);
    assert_eq!(rt.read_global(&ex, "rawset"), Value::Nil);
    // and nothing beyond the enumerated namespaces exists at all
    assert_eq!(rt.read_global(&ex, "os"), Value::Nil);
    assert_eq!(rt.read_global(&ex, "io"), Value::Nil);
    assert_eq!(rt.read_global(&ex, "print"), Value::Nil);
    rt.finish_run(ex, &ctx);
}

#[test]
fn module_system_is_stripped_and_pinned() {
    let mut rt = ModLuaRuntime::new();
    let ctx = plain_context();
    let ex = rt.begin_run(b"return package.path", "pkg", &ctx).unwrap();
    let pkg = rt.read_global(&ex, "package");
    assert!(matches!(pkg, Value::Table(_)));
    assert_eq!(
        rt.index_value(&ex, &pkg, "path").unwrap(),
        Value::Str("./?.lua;/data/?.lua;/?.lua".to_string())
    );
    assert_eq!(rt.index_value(&ex, &pkg, "cpath").unwrap(), Value::Nil);
    assert_eq!(rt.index_value(&ex, &pkg, "loadlib").unwrap(), Value::Nil);
    assert_eq!(rt.index_value(&ex, &pkg, "preload").unwrap(), Value::Nil);
    assert_eq!(rt.index_value(&ex, &pkg, "searchpath").unwrap(), Value::Nil);
    // the module system namespace is protected like the rest
    assert!(matches!(
        rt.set_index(&ex, &pkg, "path", Value::Nil),
        Err(ScriptError::ProtectedTableUpdate)
    ));
    rt.finish_run(ex, &ctx);
}

#[test]
fn capability_table_is_protected_all_the_way_down() {
    let mut rt = ModLuaRuntime::new();
    let ctx = plain_context();
    let ex = rt.begin_run(b"mod.table.insert = nil", "violating", &ctx).unwrap();

    let m = rt.read_global(&ex, "mod");
    assert!(matches!(m, Value::Table(_)));
    let sub = rt.index_value(&ex, &m, "table").unwrap();
    assert!(matches!(sub, Value::Table(_)));
    let before = rt.index_value(&ex, &sub, "insert").unwrap();

    // the write fails with the protected-table error
    let r = rt.set_index(&ex, &sub, "insert", Value::Nil);
    assert!(matches!(r, Err(ScriptError::ProtectedTableUpdate)));
    // and mod.table is unchanged
    assert_eq!(rt.index_value(&ex, &sub, "insert").unwrap(), before);

    // writing to the capability table itself fails as well
    let r2 = rt.set_index(&ex, &m, "table", Value::Nil);
    assert!(matches!(r2, Err(ScriptError::ProtectedTableUpdate)));

    // indexing through a non-table is a runtime error
    assert!(matches!(
        rt.index_value(&ex, &Value::Int(3), "x"),
        Err(ScriptError::BadIndex)
    ));
    rt.finish_run(ex, &ctx);
}

#[test]
fn bound_document_is_visible_by_its_fixed_name() {
    let mut rt = ModLuaRuntime::new();
    let ctx = LuaContext {
        document_root: Some(DocumentRoot { name: "ship.xml".to_string() }),
        print_arena_stats: false,
    };
    let ex = rt.begin_run(b"return document:name()", "doc", &ctx).unwrap();
    let d = rt.read_global(&ex, "document");
    assert!(matches!(d, Value::Handle(_)));
    assert_eq!(rt.document_name(&d).unwrap(), "ship.xml".to_string());
    rt.finish_run(ex, &ctx);

    // without a bound document the name is absent
    let ctx2 = plain_context();
    let ex2 = rt.begin_run(b"", "nodoc", &ctx2).unwrap();
    assert_eq!(rt.read_global(&ex2, "document"), Value::Nil);
    rt.finish_run(ex2, &ctx2);
}

#[test]
fn filesystem_bindings_are_scoped() {
    let mut rt = ModLuaRuntime::new();

    let mut fs_a = VirtualFs::new();
    fs_a.add_file("./only_a.lua", "return 'a'");
    let fs_b = VirtualFs::new();

    rt.bind_filesystems(vec![("a".to_string(), fs_a), ("b".to_string(), fs_b)]);
    // the protected "vfs" namespace exposes each filesystem under its name
    let ctx = plain_context();
    let ex = rt.begin_run(b"return mod.vfs.a", "vfs", &ctx).unwrap();
    let m = rt.read_global(&ex, "mod");
    let vfs = rt.index_value(&ex, &m, "vfs").unwrap();
    assert!(matches!(vfs, Value::Table(_)));
    assert_eq!(rt.index_value(&ex, &vfs, "a").unwrap(), Value::Handle(0));
    assert_eq!(rt.index_value(&ex, &vfs, "b").unwrap(), Value::Handle(1));
    assert_eq!(rt.index_value(&ex, &vfs, "c").unwrap(), Value::Nil);
    assert!(matches!(
        rt.set_index(&ex, &vfs, "a", Value::Nil),
        Err(ScriptError::ProtectedTableUpdate)
    ));
    rt.finish_run(ex, &ctx);
    // a module present only under "a" resolves while the binding is active
    assert_eq!(rt.require("only_a").unwrap(), "return 'a'".to_string());
    // a missing module fails, listing the whole search path tried
    match rt.require("absent") {
        Err(ScriptError::ModuleNotFound { tried }) => {
            assert_eq!(tried, vec!["./absent.lua", "/data/absent.lua", "/absent.lua"]);
        }
        other => panic!("expected module-not-found, got {:?}", other),
    }

    rt.unbind_filesystems();
    // once the binding span is over, the same name no longer resolves
    assert!(matches!(
        rt.require("only_a"),
        Err(ScriptError::ModuleNotFound { .. })
    ));
    // and the "vfs" namespace itself is gone
    let ex2 = rt.begin_run(b"return mod.vfs", "after", &ctx).unwrap();
    let m2 = rt.read_global(&ex2, "mod");
    assert_eq!(rt.index_value(&ex2, &m2, "vfs").unwrap(), Value::Nil);
    rt.finish_run(ex2, &ctx);
}

#[test]
fn with_filesystems_unbinds_on_every_exit_path() {
    let rt = ModLuaRuntime::new();
    let mut fs = VirtualFs::new();
    fs.add_file("./m.lua", "source of m");

    // normal return: the binding answers while the body runs
    let (rt, res) = rt.with_filesystems(vec![("a".to_string(), fs)], |rt2| {
        let content = rt2.require("m").map(|_| ());
        (rt2, content)
    });
    assert!(res.is_ok());
    assert!(rt.vfs.is_none());
    assert!(matches!(
        rt.require("m"),
        Err(ScriptError::ModuleNotFound { .. })
    ));

    // error return: the bindings are removed all the same
    let (rt, res) = rt.with_filesystems(vec![], |rt2| {
        let e = rt2.require("m").unwrap_err();
        (rt2, Err::<(), _>(e))
    });
    assert!(res.is_err());
    assert!(rt.vfs.is_none());
}

#[test]
fn resolution_order_prefers_earlier_tiers_and_bindings() {
    let mut rt = ModLuaRuntime::new();

    let mut fs_a = VirtualFs::new();
    fs_a.add_file("./m.lua", "from a, first tier");
    let mut fs_b = VirtualFs::new();
    fs_b.add_file("./m.lua", "from b, first tier");
    fs_b.add_file("/data/n.lua", "from b, second tier");
    rt.bind_filesystems(vec![("a".to_string(), fs_a), ("b".to_string(), fs_b)]);

    // earlier binding wins for the same candidate path
    assert_eq!(rt.require("m").unwrap(), "from a, first tier".to_string());
    // a later tier still resolves when earlier tiers miss
    assert_eq!(rt.require("n").unwrap(), "from b, second tier".to_string());
    rt.unbind_filesystems();
}

#[test]
fn arena_allocation_is_monotone_until_collected() {
    let mut arena = LuaArena::new();
    let h1 = arena.root(100).unwrap();
    let _h2 = arena.root(50).unwrap();
    assert_eq!(arena.total_allocation(), 150);
    assert_eq!(arena.allocation_debt(), 150);

    // dropping a root frees nothing until a full collection runs
    assert!(arena.unroot(h1));
    assert_eq!(arena.total_allocation(), 150);

    arena.collect_all();
    // unreachable allocation dropped, still-rooted allocation remains
    assert_eq!(arena.total_allocation(), 50);
    assert_eq!(arena.gc_allocation(), 50);
    assert_eq!(arena.allocation_debt(), 0);

    // unrooting an unknown handle is a no-op
    assert!(!arena.unroot(h1));
}

#[test]
fn run_reports_arena_statistics_when_asked() {
    let mut rt = ModLuaRuntime::new();
    rt.arena_state.root(64).unwrap();
    let h = rt.arena_state.root(32).unwrap();
    rt.arena_state.unroot(h);

    let ctx = LuaContext { document_root: None, print_arena_stats: true };
    let ex = rt.begin_run(b"return 0", "stats", &ctx).unwrap();
    let report = rt.finish_run(ex, &ctx).unwrap();
    assert_eq!(report.before.total, 96);
    assert_eq!(report.before.debt, 96);
    assert_eq!(report.after.total, 64);
    assert_eq!(report.after.debt, 0);

    let ctx2 = plain_context();
    let ex2 = rt.begin_run(b"return 0", "quiet", &ctx2).unwrap();
    assert!(rt.finish_run(ex2, &ctx2).is_none());
}
