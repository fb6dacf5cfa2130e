//! Deserializing the triage payload into the crash report model.
//!
//! JSON mechanics (lexing, escapes, numbers) are serde_json's job and are
//! consumed as a primitive: one trusted call parses the text and converts the
//! resulting document, node for node, into the library-owned [`JsonNode`]
//! tree of plain values.  Everything after that — which documents match the
//! wire schema and how a matching document populates the report records — is
//! this crate's own logic, verified against the spec-level models below.

use vstd::prelude::*;
use vstd::string::StringExecFns;
use crate::text::chars_of;
use crate::report::{GdbSymbol, GdbVariable, GdbFrameInfo, GdbThread, GdbThreadInfo};

verus! {

#[verifier::external_type_specification]
#[verifier::external_body]
pub struct ExValue(serde_json::Value);

#[verifier::external_type_specification]
#[verifier::external_body]
pub struct ExJsonError(serde_json::Error);

/// A JSON document as a tree of plain values.  Numbers keep only the
/// signed-64-bit reading the wire schema uses; any other number (huge or
/// fractional) becomes [`JsonNode::OtherNumber`], which no schema field
/// accepts.  An object is its key/value pairs in order; a lookup takes the
/// first binding of a key.
pub enum JsonNode {
    Null,
    Bool(bool),
    Int(i64),
    OtherNumber,
    Str(String),
    Arr(Vec<JsonNode>),
    Obj(Vec<(String, JsonNode)>),
}

/// The tree a text denotes as a JSON document, or nothing when serde_json
/// rejects the text; a function of the text alone.
pub uninterp spec fn json_doc(s: Seq<char>) -> Option<JsonNode>;

/// serde_json accepts the text as a JSON document.
pub open spec fn json_parses(s: Seq<char>) -> bool {
    json_doc(s) is Some
}

/// Relies on serde_json::from_str::<Value>: whether a text is a JSON
/// document, and which tree it denotes, is a function of the text alone.
#[verifier::external_body]
fn parse_json_tree(s: &str) -> (r: Result<JsonNode, serde_json::Error>)
    ensures
        r is Ok <==> json_doc(s@) is Some,
        (r matches Ok(t) ==> json_doc(s@) == Some(t)),
{
    serde_json::from_str::<serde_json::Value>(s).map(|v| value_to_node(&v))
}

/// Relies on serde_json::Value's variants: converts the parsed document into
/// the library's tree, one arm per variant, moving values only.  It exists
/// apart from [`parse_json_tree`] only because the conversion recurses; it is
/// called from that body alone.
#[verifier::external_body]
fn value_to_node(v: &serde_json::Value) -> JsonNode {
    match v {
        serde_json::Value::Null => JsonNode::Null,
        serde_json::Value::Bool(b) => JsonNode::Bool(*b),
        serde_json::Value::Number(n) => n.as_i64().map_or(JsonNode::OtherNumber, JsonNode::Int),
        serde_json::Value::String(s) => JsonNode::Str(s.clone()),
        serde_json::Value::Array(a) => JsonNode::Arr(a.iter().map(value_to_node).collect()),
        serde_json::Value::Object(m) => JsonNode::Obj(
            m.iter().map(|(k, x)| (k.clone(), value_to_node(x))).collect(),
        ),
    }
}

/// Relies on serde_json::Error's Display impl for a diagnostic message.
#[verifier::external_body]
fn json_error_message(e: &serde_json::Error) -> String {
    e.to_string()
}

// ---------------------------------------------------------------------------
// The wire schema, as spec-level models of the report records.
// ---------------------------------------------------------------------------

#[verifier::ext_equal]
pub struct VariableModel {
    pub var_type: Seq<char>,
    pub name: Seq<char>,
    pub value: Seq<char>,
}

#[verifier::ext_equal]
pub struct SymbolModel {
    pub function_name: Seq<char>,
    pub mangled_function_name: Seq<char>,
    pub function_signature: Seq<char>,
    pub file: Seq<char>,
    pub line: i64,
}

#[verifier::ext_equal]
pub struct FrameModel {
    pub address: i64,
    pub relative_address: i64,
    pub module: Seq<char>,
    pub pretty_address: Seq<char>,
    pub symbol: SymbolModel,
    pub args: Seq<VariableModel>,
    pub locals: Seq<VariableModel>,
}

#[verifier::ext_equal]
pub struct ThreadModel {
    pub tid: i32,
    pub backtrace: Seq<FrameModel>,
}

#[verifier::ext_equal]
pub struct ThreadInfoModel {
    pub current_tid: i32,
    pub threads: Seq<ThreadModel>,
}

/// The first binding of `key` among an object's pairs.
pub open spec fn pairs_get(pairs: Seq<(String, JsonNode)>, key: Seq<char>) -> Option<JsonNode>
    decreases pairs.len(),
{
    if pairs.len() == 0 {
        None
    } else if pairs[0].0@ == key {
        Some(pairs[0].1)
    } else {
        pairs_get(pairs.drop_first(), key)
    }
}

/// The node under `key` when `n` is an object holding it.
pub open spec fn node_field(n: JsonNode, key: Seq<char>) -> Option<JsonNode> {
    match n {
        JsonNode::Obj(pairs) => pairs_get(pairs@, key),
        _ => None,
    }
}

/// The text under `key` when it holds a JSON string.
pub open spec fn field_string(n: JsonNode, key: Seq<char>) -> Option<Seq<char>> {
    match node_field(n, key) {
        Some(JsonNode::Str(s)) => Some(s@),
        _ => None,
    }
}

/// The integer under `key` when it holds a signed-64-bit JSON integer.
pub open spec fn field_int(n: JsonNode, key: Seq<char>) -> Option<i64> {
    match node_field(n, key) {
        Some(JsonNode::Int(i)) => Some(i),
        _ => None,
    }
}

/// The variable record a node denotes, if it matches the schema.
pub open spec fn json_variable(n: JsonNode) -> Option<VariableModel> {
    if field_string(n, "type"@) is Some && field_string(n, "name"@) is Some && field_string(
        n,
        "value"@,
    ) is Some {
        Some(
            VariableModel {
                var_type: field_string(n, "type"@)->0,
                name: field_string(n, "name"@)->0,
                value: field_string(n, "value"@)->0,
            },
        )
    } else {
        None
    }
}

/// The variable list a node denotes: an array whose every element matches.
pub open spec fn json_variables(n: JsonNode) -> Option<Seq<VariableModel>> {
    match n {
        JsonNode::Arr(items) => {
            if forall|i: int|
                0 <= i < items@.len() ==> (#[trigger] json_variable(items@[i])) is Some {
                Some(Seq::new(items@.len(), |i: int| json_variable(items@[i])->0))
            } else {
                None
            }
        },
        _ => None,
    }
}

/// The symbol record a node denotes, if it matches the schema.
pub open spec fn json_symbol(n: JsonNode) -> Option<SymbolModel> {
    if field_string(n, "function_name"@) is Some && field_string(n, "mangled_function_name"@)
        is Some && field_string(n, "function_signature"@) is Some && field_string(n, "file"@)
        is Some && field_int(n, "line"@) is Some {
        Some(
            SymbolModel {
                function_name: field_string(n, "function_name"@)->0,
                mangled_function_name: field_string(n, "mangled_function_name"@)->0,
                function_signature: field_string(n, "function_signature"@)->0,
                file: field_string(n, "file"@)->0,
                line: field_int(n, "line"@)->0,
            },
        )
    } else {
        None
    }
}

/// The frame record a node denotes, if it matches the schema.
pub open spec fn json_frame(n: JsonNode) -> Option<FrameModel> {
    if field_int(n, "address"@) is Some && field_int(n, "relative_address"@) is Some
        && field_string(n, "module"@) is Some && field_string(n, "pretty_address"@) is Some && (
    match node_field(n, "symbol"@) {
        Some(f) => json_symbol(f) is Some,
        None => false,
    }) && (match node_field(n, "args"@) {
        Some(f) => json_variables(f) is Some,
        None => false,
    }) && (match node_field(n, "locals"@) {
        Some(f) => json_variables(f) is Some,
        None => false,
    }) {
        Some(
            FrameModel {
                address: field_int(n, "address"@)->0,
                relative_address: field_int(n, "relative_address"@)->0,
                module: field_string(n, "module"@)->0,
                pretty_address: field_string(n, "pretty_address"@)->0,
                symbol: json_symbol(node_field(n, "symbol"@)->0)->0,
                args: json_variables(node_field(n, "args"@)->0)->0,
                locals: json_variables(node_field(n, "locals"@)->0)->0,
            },
        )
    } else {
        None
    }
}

/// The backtrace a node denotes: an array whose every element is a frame.
pub open spec fn json_frames(n: JsonNode) -> Option<Seq<FrameModel>> {
    match n {
        JsonNode::Arr(items) => {
            if forall|i: int| 0 <= i < items@.len() ==> (#[trigger] json_frame(items@[i])) is Some {
                Some(Seq::new(items@.len(), |i: int| json_frame(items@[i])->0))
            } else {
                None
            }
        },
        _ => None,
    }
}

/// The thread record a node denotes: a tid that fits a signed 32-bit value
/// and a backtrace array.
pub open spec fn json_thread(n: JsonNode) -> Option<ThreadModel> {
    if field_int(n, "tid"@) is Some && i32::MIN as i64 <= field_int(n, "tid"@)->0 && field_int(
        n,
        "tid"@,
    )->0 <= i32::MAX as i64 && (match node_field(n, "backtrace"@) {
        Some(f) => json_frames(f) is Some,
        None => false,
    }) {
        Some(
            ThreadModel {
                tid: field_int(n, "tid"@)->0 as i32,
                backtrace: json_frames(node_field(n, "backtrace"@)->0)->0,
            },
        )
    } else {
        None
    }
}

/// The thread list a node denotes.
pub open spec fn json_threads(n: JsonNode) -> Option<Seq<ThreadModel>> {
    match n {
        JsonNode::Arr(items) => {
            if forall|i: int| 0 <= i < items@.len() ==> (#[trigger] json_thread(items@[i])) is Some {
                Some(Seq::new(items@.len(), |i: int| json_thread(items@[i])->0))
            } else {
                None
            }
        },
        _ => None,
    }
}

/// The complete report a document denotes, if it matches the wire schema.
pub open spec fn json_thread_info(n: JsonNode) -> Option<ThreadInfoModel> {
    if field_int(n, "current_tid"@) is Some && i32::MIN as i64 <= field_int(n, "current_tid"@)->0
        && field_int(n, "current_tid"@)->0 <= i32::MAX as i64 && (match node_field(n, "threads"@) {
        Some(f) => json_threads(f) is Some,
        None => false,
    }) {
        Some(
            ThreadInfoModel {
                current_tid: field_int(n, "current_tid"@)->0 as i32,
                threads: json_threads(node_field(n, "threads"@)->0)->0,
            },
        )
    } else {
        None
    }
}

/// The report a text denotes: it parses as JSON and matches the schema.
pub open spec fn payload_info(s: Seq<char>) -> Option<ThreadInfoModel> {
    match json_doc(s) {
        Some(n) => json_thread_info(n),
        None => None,
    }
}

// ---------------------------------------------------------------------------
// Models of the report records themselves, tying parsed values to the schema.
// ---------------------------------------------------------------------------

pub open spec fn variable_model(v: GdbVariable) -> VariableModel {
    VariableModel { var_type: v.var_type@, name: v.name@, value: v.value@ }
}

pub open spec fn variables_model(vs: Seq<GdbVariable>) -> Seq<VariableModel> {
    vs.map_values(|v: GdbVariable| variable_model(v))
}

pub open spec fn symbol_model(s: GdbSymbol) -> SymbolModel {
    SymbolModel {
        function_name: s.function_name@,
        mangled_function_name: s.mangled_function_name@,
        function_signature: s.function_signature@,
        file: s.file@,
        line: s.line,
    }
}

pub open spec fn frame_model(f: GdbFrameInfo) -> FrameModel {
    FrameModel {
        address: f.address,
        relative_address: f.relative_address,
        module: f.module@,
        pretty_address: f.pretty_address@,
        symbol: symbol_model(f.symbol),
        args: variables_model(f.args@),
        locals: variables_model(f.locals@),
    }
}

pub open spec fn frames_model(fs: Seq<GdbFrameInfo>) -> Seq<FrameModel> {
    fs.map_values(|f: GdbFrameInfo| frame_model(f))
}

pub open spec fn thread_model(t: GdbThread) -> ThreadModel {
    ThreadModel { tid: t.tid, backtrace: frames_model(t.backtrace@) }
}

pub open spec fn threads_model(ts: Seq<GdbThread>) -> Seq<ThreadModel> {
    ts.map_values(|t: GdbThread| thread_model(t))
}

pub open spec fn thread_info_model(info: GdbThreadInfo) -> ThreadInfoModel {
    ThreadInfoModel { current_tid: info.current_tid, threads: threads_model(info.threads@) }
}

// ---------------------------------------------------------------------------
// The verified schema walk.
// ---------------------------------------------------------------------------

fn str_eq(a: &str, b: &str) -> (r: bool)
    ensures
        r == (a@ == b@),
{
    let av = chars_of(a);
    let bv = chars_of(b);
    let alen: usize = av.len();
    let blen: usize = bv.len();
    if alen != blen {
        assert(a@.len() != b@.len());
        return false;
    }
    let mut i: usize = 0;
    while i < alen
        invariant
            alen == a@.len(),
            alen == blen,
            blen == b@.len(),
            av@ == a@,
            bv@ == b@,
            i <= alen,
            forall|k: int| 0 <= k < i ==> a@[k] == b@[k],
        decreases alen - i,
    {
        if av[i] != bv[i] {
            assert(a@[i as int] != b@[i as int]);
            return false;
        }
        i += 1;
    }
    assert(a@ =~= b@);
    true
}

fn key_error(what: &str, key: &str) -> String {
    let mut m: String = what.to_owned();
    m.append(key);
    m
}

/// Look a key up in an object node; the error names the key.
fn walk_field<'a>(n: &'a JsonNode, key: &str) -> (r: Result<&'a JsonNode, String>)
    ensures
        (match r {
            Ok(f) => node_field(*n, key@) == Some(*f),
            Err(_) => node_field(*n, key@) is None,
        }),
{
    match n {
        JsonNode::Obj(pairs) => {
            assert(node_field(*n, key@) == pairs_get(pairs@, key@));
            assert(pairs@.skip(0) =~= pairs@);
            let len: usize = pairs.len();
            let mut i: usize = 0;
            while i < len
                invariant
                    len == pairs@.len(),
                    i <= len,
                    node_field(*n, key@) == pairs_get(pairs@, key@),
                    pairs_get(pairs@, key@) == pairs_get(pairs@.skip(i as int), key@),
                decreases len - i,
            {
                assert(pairs@.skip(i as int)[0] == pairs@[i as int]);
                if str_eq(pairs[i].0.as_str(), key) {
                    assert(pairs_get(pairs@.skip(i as int), key@) == Some(pairs@[i as int].1));
                    return Ok(&pairs[i].1);
                }
                assert(pairs_get(pairs@.skip(i as int), key@) == pairs_get(
                    pairs@.skip(i as int).drop_first(),
                    key@,
                ));
                assert(pairs@.skip(i as int).drop_first() =~= pairs@.skip(i as int + 1));
                i += 1;
            }
            assert(pairs@.skip(len as int) =~= Seq::<(String, JsonNode)>::empty());
            assert(pairs_get(Seq::<(String, JsonNode)>::empty(), key@) is None);
            Err(key_error("missing key: ", key))
        },
        _ => Err(key_error("expected an object holding key: ", key)),
    }
}

/// Read a JSON string under a key; the error names the key.
fn walk_string(n: &JsonNode, key: &str) -> (r: Result<String, String>)
    ensures
        (match r {
            Ok(s) => field_string(*n, key@) == Some(s@),
            Err(_) => field_string(*n, key@) is None,
        }),
{
    match walk_field(n, key) {
        Ok(f) => match f {
            JsonNode::Str(s) => Ok(s.clone()),
            _ => Err(key_error("expected a string at key: ", key)),
        },
        Err(m) => Err(m),
    }
}

/// Read a signed-64-bit JSON integer under a key; the error names the key.
fn walk_int(n: &JsonNode, key: &str) -> (r: Result<i64, String>)
    ensures
        (match r {
            Ok(v) => field_int(*n, key@) == Some(v),
            Err(_) => field_int(*n, key@) is None,
        }),
{
    match walk_field(n, key) {
        Ok(f) => match f {
            JsonNode::Int(i) => Ok(*i),
            _ => Err(key_error("expected an integer at key: ", key)),
        },
        Err(m) => Err(m),
    }
}

/// Read an integer that must fit a signed 32-bit value.
fn walk_i32(n: &JsonNode, key: &str) -> (r: Result<i32, String>)
    ensures
        (match r {
            Ok(v) => field_int(*n, key@) == Some(v as i64),
            Err(_) => field_int(*n, key@) is None || field_int(*n, key@)->0 < i32::MIN as i64
                || field_int(*n, key@)->0 > i32::MAX as i64,
        }),
{
    match walk_int(n, key) {
        Ok(v) => if i32::MIN as i64 <= v && v <= i32::MAX as i64 {
            Ok(v as i32)
        } else {
            Err(key_error("integer out of range at key: ", key))
        },
        Err(m) => Err(m),
    }
}

fn parse_variable(n: &JsonNode) -> (r: Result<GdbVariable, String>)
    ensures
        (match r {
            Ok(v) => json_variable(*n) == Some(variable_model(v)),
            Err(_) => json_variable(*n) is None,
        }),
{
    let var_type = match walk_string(n, "type") {
        Ok(s) => s,
        Err(m) => return Err(m),
    };
    let name = match walk_string(n, "name") {
        Ok(s) => s,
        Err(m) => return Err(m),
    };
    let value = match walk_string(n, "value") {
        Ok(s) => s,
        Err(m) => return Err(m),
    };
    Ok(GdbVariable { var_type, name, value })
}

fn parse_variable_list(n: &JsonNode) -> (r: Result<Vec<GdbVariable>, String>)
    ensures
        (match r {
            Ok(vs) => json_variables(*n) == Some(variables_model(vs@)),
            Err(_) => json_variables(*n) is None,
        }),
{
    match n {
        JsonNode::Arr(items) => {
            let len: usize = items.len();
            let mut out: Vec<GdbVariable> = Vec::new();
            let mut i: usize = 0;
            while i < len
                invariant
                    len == items@.len(),
                    i <= len,
                    out@.len() == i,
                    *n == JsonNode::Arr(*items),
                    forall|k: int|
                        0 <= k < i ==> (#[trigger] json_variable(items@[k])) == Some(
                            variable_model(out@[k]),
                        ),
                decreases len - i,
            {
                match parse_variable(&items[i]) {
                    Ok(v) => out.push(v),
                    Err(m) => {
                        assert(json_variables(*n) is None) by {
                            assert((json_variable(items@[i as int])) is None);
                        };
                        return Err(m);
                    },
                }
                i += 1;
            }
            assert(json_variables(*n) == Some(variables_model(out@))) by {
                assert(forall|k: int|
                    0 <= k < items@.len() ==> (#[trigger] json_variable(items@[k])) is Some);
                assert(Seq::new(items@.len(), |k: int| json_variable(items@[k])->0)
                    =~= variables_model(out@));
            };
            Ok(out)
        },
        _ => Err("expected an array of variables".to_owned()),
    }
}

fn parse_symbol(n: &JsonNode) -> (r: Result<GdbSymbol, String>)
    ensures
        (match r {
            Ok(s) => json_symbol(*n) == Some(symbol_model(s)),
            Err(_) => json_symbol(*n) is None,
        }),
{
    let function_name = match walk_string(n, "function_name") {
        Ok(s) => s,
        Err(m) => return Err(m),
    };
    let mangled_function_name = match walk_string(n, "mangled_function_name") {
        Ok(s) => s,
        Err(m) => return Err(m),
    };
    let function_signature = match walk_string(n, "function_signature") {
        Ok(s) => s,
        Err(m) => return Err(m),
    };
    let file = match walk_string(n, "file") {
        Ok(s) => s,
        Err(m) => return Err(m),
    };
    let line = match walk_int(n, "line") {
        Ok(v) => v,
        Err(m) => return Err(m),
    };
    Ok(GdbSymbol { function_name, mangled_function_name, function_signature, file, line })
}

fn parse_frame(n: &JsonNode) -> (r: Result<GdbFrameInfo, String>)
    ensures
        (match r {
            Ok(f) => json_frame(*n) == Some(frame_model(f)),
            Err(_) => json_frame(*n) is None,
        }),
{
    let address = match walk_int(n, "address") {
        Ok(v) => v,
        Err(m) => return Err(m),
    };
    let relative_address = match walk_int(n, "relative_address") {
        Ok(v) => v,
        Err(m) => return Err(m),
    };
    let module = match walk_string(n, "module") {
        Ok(s) => s,
        Err(m) => return Err(m),
    };
    let pretty_address = match walk_string(n, "pretty_address") {
        Ok(s) => s,
        Err(m) => return Err(m),
    };
    let symbol = match walk_field(n, "symbol") {
        Ok(f) => match parse_symbol(f) {
            Ok(s) => s,
            Err(m) => return Err(m),
        },
        Err(m) => return Err(m),
    };
    let args = match walk_field(n, "args") {
        Ok(f) => match parse_variable_list(f) {
            Ok(v) => v,
            Err(m) => return Err(m),
        },
        Err(m) => return Err(m),
    };
    let locals = match walk_field(n, "locals") {
        Ok(f) => match parse_variable_list(f) {
            Ok(v) => v,
            Err(m) => return Err(m),
        },
        Err(m) => return Err(m),
    };
    Ok(GdbFrameInfo { address, relative_address, module, pretty_address, symbol, args, locals })
}

fn parse_frame_list(n: &JsonNode) -> (r: Result<Vec<GdbFrameInfo>, String>)
    ensures
        (match r {
            Ok(fs) => json_frames(*n) == Some(frames_model(fs@)),
            Err(_) => json_frames(*n) is None,
        }),
{
    match n {
        JsonNode::Arr(items) => {
            let len: usize = items.len();
            let mut out: Vec<GdbFrameInfo> = Vec::new();
            let mut i: usize = 0;
            while i < len
                invariant
                    len == items@.len(),
                    i <= len,
                    out@.len() == i,
                    *n == JsonNode::Arr(*items),
                    forall|k: int|
                        0 <= k < i ==> (#[trigger] json_frame(items@[k])) == Some(
                            frame_model(out@[k]),
                        ),
                decreases len - i,
            {
                match parse_frame(&items[i]) {
                    Ok(f) => out.push(f),
                    Err(m) => {
                        assert(json_frames(*n) is None) by {
                            assert((json_frame(items@[i as int])) is None);
                        };
                        return Err(m);
                    },
                }
                i += 1;
            }
            assert(json_frames(*n) == Some(frames_model(out@))) by {
                assert(forall|k: int|
                    0 <= k < items@.len() ==> (#[trigger] json_frame(items@[k])) is Some);
                assert(Seq::new(items@.len(), |k: int| json_frame(items@[k])->0) =~= frames_model(
                    out@,
                ));
            };
            Ok(out)
        },
        _ => Err("expected an array of frames".to_owned()),
    }
}

fn parse_thread(n: &JsonNode) -> (r: Result<GdbThread, String>)
    ensures
        (match r {
            Ok(t) => json_thread(*n) == Some(thread_model(t)),
            Err(_) => json_thread(*n) is None,
        }),
{
    let tid = match walk_i32(n, "tid") {
        Ok(v) => v,
        Err(m) => return Err(m),
    };
    let backtrace = match walk_field(n, "backtrace") {
        Ok(f) => match parse_frame_list(f) {
            Ok(fs) => fs,
            Err(m) => return Err(m),
        },
        Err(m) => return Err(m),
    };
    Ok(GdbThread { tid, backtrace })
}

fn parse_thread_list(n: &JsonNode) -> (r: Result<Vec<GdbThread>, String>)
    ensures
        (match r {
            Ok(ts) => json_threads(*n) == Some(threads_model(ts@)),
            Err(_) => json_threads(*n) is None,
        }),
{
    match n {
        JsonNode::Arr(items) => {
            let len: usize = items.len();
            let mut out: Vec<GdbThread> = Vec::new();
            let mut i: usize = 0;
            while i < len
                invariant
                    len == items@.len(),
                    i <= len,
                    out@.len() == i,
                    *n == JsonNode::Arr(*items),
                    forall|k: int|
                        0 <= k < i ==> (#[trigger] json_thread(items@[k])) == Some(
                            thread_model(out@[k]),
                        ),
                decreases len - i,
            {
                match parse_thread(&items[i]) {
                    Ok(t) => out.push(t),
                    Err(m) => {
                        assert(json_threads(*n) is None) by {
                            assert((json_thread(items@[i as int])) is None);
                        };
                        return Err(m);
                    },
                }
                i += 1;
            }
            assert(json_threads(*n) == Some(threads_model(out@))) by {
                assert(forall|k: int|
                    0 <= k < items@.len() ==> (#[trigger] json_thread(items@[k])) is Some);
                assert(Seq::new(items@.len(), |k: int| json_thread(items@[k])->0) =~= threads_model(
                    out@,
                ));
            };
            Ok(out)
        },
        _ => Err("expected an array of threads".to_owned()),
    }
}

fn parse_info_node(n: &JsonNode) -> (r: Result<GdbThreadInfo, String>)
    ensures
        (match r {
            Ok(info) => json_thread_info(*n) == Some(thread_info_model(info)),
            Err(_) => json_thread_info(*n) is None,
        }),
{
    let current_tid = match walk_i32(n, "current_tid") {
        Ok(v) => v,
        Err(m) => return Err(m),
    };
    let threads = match walk_field(n, "threads") {
        Ok(f) => match parse_thread_list(f) {
            Ok(ts) => ts,
            Err(m) => return Err(m),
        },
        Err(m) => return Err(m),
    };
    Ok(GdbThreadInfo { current_tid, threads })
}

/// Deserialize a bracketed payload as the thread-info schema.
///
/// Succeeds exactly when the text is a JSON document matching the wire
/// schema, and then every field of the result equals the document's, with
/// the order of threads, frames, arguments and locals preserved.  A text
/// serde_json rejects fails with the parser's own message; a schema mismatch
/// fails with a message naming the offending key or step.
pub fn parse_thread_info(s: &str) -> (r: Result<GdbThreadInfo, String>)
    ensures
        r is Ok <==> payload_info(s@) is Some,
        (r matches Ok(info) ==> payload_info(s@) == Some(thread_info_model(info))),
        !json_parses(s@) ==> r is Err,
{
    match parse_json_tree(s) {
        Err(e) => Err(json_error_message(&e)),
        Ok(node) => match parse_info_node(&node) {
            Ok(info) => Ok(info),
            Err(m) => Err(m),
        },
    }
}

} // verus!
