//! An embedded-scripting sandbox core: protected (read-only) namespace
//! tables, per-execution overlay environments, virtual module resolution
//! against scoped filesystem bindings, and a rooted-allocation arena that
//! bridges engine-owned values with externally owned data.

use vstd::prelude::*;

pub mod arena;
pub mod installer;
pub mod modules;
pub mod runtime;
pub mod tables;

verus! {

/// A value as the sandbox's namespace layer sees it: the engine's dynamic
/// values reduced to what the access-control logic inspects.
#[derive(Debug, PartialEq)]
pub enum Value {
    /// The absent value; a namespace read of a missing key yields it.
    Nil,
    Bool(bool),
    Int(i64),
    Str(String),
    /// A reference to a table held by the runtime's table heap.
    Table(usize),
    /// An opaque engine- or host-owned object (userdata), by handle.
    Handle(u64),
}

/// The mathematical image of a `Value`: strings become character
/// sequences, references become their indices.
pub enum ValV {
    Nil,
    Bool(bool),
    Int(int),
    Str(Seq<char>),
    Table(int),
    Handle(int),
}

impl View for Value {
    type V = ValV;

    open spec fn view(&self) -> ValV {
        match self {
            Value::Nil => ValV::Nil,
            Value::Bool(b) => ValV::Bool(*b),
            Value::Int(i) => ValV::Int(*i as int),
            Value::Str(s) => ValV::Str(s@),
            Value::Table(t) => ValV::Table(*t as int),
            Value::Handle(h) => ValV::Handle(*h as int),
        }
    }
}

impl Value {
    /// Whether this is the absent value.
    pub fn is_nil(&self) -> (r: bool)
        ensures
            r == (self@ is Nil),
    {
        match self {
            Value::Nil => true,
            _ => false,
        }
    }

    /// An owned copy whose mathematical image equals this value's.
    pub fn dup(&self) -> (r: Value)
        ensures
            r@ == self@,
    {
        match self {
            Value::Nil => Value::Nil,
            Value::Bool(b) => Value::Bool(*b),
            Value::Int(i) => Value::Int(*i),
            Value::Str(s) => Value::Str(s.clone()),
            Value::Table(t) => Value::Table(*t),
            Value::Handle(h) => Value::Handle(*h),
        }
    }
}

/// Why a script-level request was refused or failed.
#[derive(Debug)]
pub enum ScriptError {
    /// A write reached a protected table.
    ProtectedTableUpdate,
    /// A path segment was indexed through a value that is not a table.
    BadIndex,
    /// The chunk carried the precompiled-chunk signature; only text
    /// sources are compiled.
    BinaryChunkRejected,
    /// No active filesystem binding resolved the module; carries every
    /// candidate path that was tried, in order.
    ModuleNotFound { tried: Vec<String> },
}

impl ScriptError {
    /// The fixed, human-readable description of this failure.
    pub fn message(&self) -> (r: &'static str)
        ensures
            self matches ScriptError::ProtectedTableUpdate ==> r@ == "attempt to update a protected table"@,
            self matches ScriptError::BadIndex ==> r@ == "attempt to index a non-table value"@,
            self matches ScriptError::BinaryChunkRejected ==> r@ == "attempt to load a binary chunk"@,
            self matches ScriptError::ModuleNotFound { .. } ==> r@
                == "module not found on the virtual search path"@,
    {
        match self {
            ScriptError::ProtectedTableUpdate => "attempt to update a protected table",
            ScriptError::BadIndex => "attempt to index a non-table value",
            ScriptError::BinaryChunkRejected => "attempt to load a binary chunk",
            ScriptError::ModuleNotFound { .. } => "module not found on the virtual search path",
        }
    }
}

} // verus!
