//! The crash report model: the typed records that one triage run produces.
//!
//! Ownership is strictly tree-shaped: a `GdbThreadInfo` owns its threads, a
//! thread owns its frames, and a frame owns one symbol and two variable
//! lists.

use vstd::prelude::*;

verus! {

/// Where a frame's instruction pointer resolves to in source.  `line` keeps
/// the debugger's own "unknown" convention (-1 or absent frames report it),
/// so it is a plain signed value rather than an index.
#[derive(Debug)]
pub struct GdbSymbol {
    pub function_name: String,
    pub mangled_function_name: String,
    pub function_signature: String,
    pub file: String,
    pub line: i64,
}

/// A debugger-stringified function argument or local; `value` is opaque text
/// and is never re-parsed.
#[derive(Debug)]
pub struct GdbVariable {
    pub var_type: String,
    pub name: String,
    pub value: String,
}

/// One stack level.  `address` is the absolute instruction pointer,
/// `relative_address` the offset from the owning module's load base, and
/// `pretty_address` a human-formatted rendering kept alongside the numbers.
#[derive(Debug)]
pub struct GdbFrameInfo {
    pub address: i64,
    pub relative_address: i64,
    pub module: String,
    pub pretty_address: String,
    pub symbol: GdbSymbol,
    pub args: Vec<GdbVariable>,
    pub locals: Vec<GdbVariable>,
}

/// One thread with its backtrace, innermost frame first.
#[derive(Debug)]
pub struct GdbThread {
    pub tid: i32,
    pub backtrace: Vec<GdbFrameInfo>,
}

/// All threads at the triage point; `current_tid` names the one that had
/// control (usually the one that faulted).
#[derive(Debug)]
pub struct GdbThreadInfo {
    pub current_tid: i32,
    pub threads: Vec<GdbThread>,
}

/// The triaged program's own captured output and exit status.
#[derive(Debug)]
pub struct GdbChildResult {
    pub stdout: String,
    pub stderr: String,
    pub status_code: i32,
}

/// The complete output of one triage operation.
#[derive(Debug)]
pub struct GdbTriageResult {
    pub thread_info: GdbThreadInfo,
    pub child: GdbChildResult,
}

} // verus!
