//! The debugger driver's decision logic.
//!
//! Everything here is a pure function from captured values to values: the
//! argument vectors handed to the debugger, the sanity-check verdict over its
//! captured stdout, and the slicing of a finished triage run's stdout/stderr
//! into the crash report.  Spawning the debugger and capturing its streams is
//! the caller's job; the captured bytes come back in here.

use vstd::prelude::*;
use vstd::string::StrSliceExecFns;
use vstd::string::StringExecFns;
use crate::text::{occurs, occurs_at, first_match};
use crate::text::{lemma_first_match_unique};
use crate::text::{chars_of, find_first};
use crate::marker::{DbgMarker, ExtractError, make_marker, extract_marker};
use crate::marker::{marker_start_of, marker_end_of, extract_ok, extracted, extract_failure};
use crate::report::{GdbChildResult, GdbTriageResult};
use crate::json::{payload_info, thread_info_model, parse_thread_info};

verus! {

/// The tag bracketing the triaged program's own output.
pub open spec fn child_output_tag() -> Seq<char> {
    "AFLTRIAGE_CHILD_OUTPUT"@
}

/// The tag bracketing the triage payload.
pub open spec fn backtrace_tag() -> Seq<char> {
    "AFLTRIAGE_BACKTRACE"@
}

pub open spec fn child_start() -> Seq<char> {
    marker_start_of(child_output_tag())
}

pub open spec fn child_end() -> Seq<char> {
    marker_end_of(child_output_tag())
}

pub open spec fn backtrace_start() -> Seq<char> {
    marker_start_of(backtrace_tag())
}

pub open spec fn backtrace_end() -> Seq<char> {
    marker_end_of(backtrace_tag())
}

/// The sentinel pair around the triaged program's own output.
pub fn child_output_marker() -> (m: DbgMarker)
    ensures
        m.start@ == child_start(),
        m.end@ == child_end(),
{
    make_marker("AFLTRIAGE_CHILD_OUTPUT")
}

/// The sentinel pair around the triage payload.
pub fn backtrace_marker() -> (m: DbgMarker)
    ensures
        m.start@ == backtrace_start(),
        m.end@ == backtrace_end(),
{
    make_marker("AFLTRIAGE_BACKTRACE")
}

/// What permissive text decoding yields on a byte stream; a function of the
/// bytes alone, with invalid sequences replaced rather than rejected.
pub uninterp spec fn lossy_decoded(b: Seq<u8>) -> Seq<char>;

/// Relies on String::from_utf8_lossy: decodes captured bytes permissively,
/// replacing invalid sequences, as a function of the bytes alone.
#[verifier::external_body]
fn decode_lossy(b: &[u8]) -> (r: String)
    ensures
        r@ == lossy_decoded(b@),
{
    String::from_utf8_lossy(b).into_owned()
}

/// Why a triage operation failed; every failure is surfaced as a variant,
/// never swallowed.
#[derive(Debug)]
pub enum TriageError {
    /// The debugger executable could not be launched.
    SpawnFailure(String),
    /// No triage script path could be resolved.
    UnsupportedScriptLocation,
    /// The child-output sentinels could not be sliced out of the captured
    /// stdout.
    ChildStdoutMarker(ExtractError),
    /// The child-output sentinels could not be sliced out of the captured
    /// stderr.
    ChildStderrMarker(ExtractError),
    /// The backtrace sentinels could not be sliced out of the captured
    /// stdout.
    BacktraceMarker(ExtractError),
    /// The backtrace sentinels could not be sliced out of the captured
    /// stderr.
    BacktraceErrorMarker(ExtractError),
    /// The triage script ran but reported a failure through its stderr slice.
    TriageScriptError(String),
    /// The bracketed stdout slice was not a JSON document matching the
    /// schema.
    PayloadParseError(String),
}

/// All four slices can be taken: the child-output pair on both streams and
/// the backtrace pair on both streams.
pub open spec fn all_markers_extracted(so: Seq<char>, se: Seq<char>) -> bool {
    extract_ok(so, child_start(), child_end()) && extract_ok(se, child_start(), child_end())
        && extract_ok(so, backtrace_start(), backtrace_end()) && extract_ok(
        se,
        backtrace_start(),
        backtrace_end(),
    )
}

/// Slice a finished debugger run's captured streams and deserialize the
/// triage payload.
///
/// The four extractions are attempted in a fixed order — child output from
/// stdout, child output from stderr, backtrace from stdout, backtrace from
/// stderr — and the first failure short-circuits with an error naming the
/// pair and stream that failed.  A non-empty backtrace-stderr slice is the
/// script's own failure report and wins over any payload; only then is the
/// payload parsed.  Success is owed whenever all four slices can be taken,
/// the backtrace-stderr slice is empty and the payload is a schema-matching
/// JSON document, and then the returned report equals that document's
/// fields.  No partial result is ever returned.
pub fn process_triage_output(stdout: &[u8], stderr: &[u8], status_code: i32) -> (r: Result<
    GdbTriageResult,
    TriageError,
>)
    ensures
        ({
            let so = lossy_decoded(stdout@);
            let se = lossy_decoded(stderr@);
            match r {
                Ok(res) => all_markers_extracted(so, se) && extracted(
                    se,
                    backtrace_start(),
                    backtrace_end(),
                ).len() == 0 && payload_info(extracted(so, backtrace_start(), backtrace_end()))
                    == Some(thread_info_model(res.thread_info)) && res.child.stdout@ == extracted(
                    so,
                    child_start(),
                    child_end(),
                ) && res.child.stderr@ == extracted(se, child_start(), child_end())
                    && res.child.status_code == status_code,
                Err(err) => match err {
                    TriageError::ChildStdoutMarker(e) => extract_failure(
                        so,
                        child_start(),
                        child_end(),
                        e,
                    ),
                    TriageError::ChildStderrMarker(e) => extract_ok(so, child_start(), child_end())
                        && extract_failure(se, child_start(), child_end(), e),
                    TriageError::BacktraceMarker(e) => extract_ok(so, child_start(), child_end())
                        && extract_ok(se, child_start(), child_end()) && extract_failure(
                        so,
                        backtrace_start(),
                        backtrace_end(),
                        e,
                    ),
                    TriageError::BacktraceErrorMarker(e) => extract_ok(
                        so,
                        child_start(),
                        child_end(),
                    ) && extract_ok(se, child_start(), child_end()) && extract_ok(
                        so,
                        backtrace_start(),
                        backtrace_end(),
                    ) && extract_failure(se, backtrace_start(), backtrace_end(), e),
                    TriageError::TriageScriptError(text) => all_markers_extracted(so, se) && text@
                        == extracted(se, backtrace_start(), backtrace_end()) && text@.len() != 0,
                    TriageError::PayloadParseError(_) => all_markers_extracted(so, se) && extracted(
                        se,
                        backtrace_start(),
                        backtrace_end(),
                    ).len() == 0 && payload_info(extracted(so, backtrace_start(), backtrace_end()))
                        is None,
                    TriageError::SpawnFailure(_) => false,
                    TriageError::UnsupportedScriptLocation => false,
                },
            }
        }),
        ({
            let so = lossy_decoded(stdout@);
            let se = lossy_decoded(stderr@);
            (all_markers_extracted(so, se) && extracted(se, backtrace_start(), backtrace_end()).len()
                != 0) ==> (r matches Err(TriageError::TriageScriptError(text)) && text@ == extracted(
                se,
                backtrace_start(),
                backtrace_end(),
            ))
        }),
        ({
            let so = lossy_decoded(stdout@);
            let se = lossy_decoded(stderr@);
            (all_markers_extracted(so, se) && extracted(se, backtrace_start(), backtrace_end()).len()
                == 0 && payload_info(extracted(so, backtrace_start(), backtrace_end())) is None)
                ==> r matches Err(TriageError::PayloadParseError(_))
        }),
        ({
            let so = lossy_decoded(stdout@);
            let se = lossy_decoded(stderr@);
            (all_markers_extracted(so, se) && extracted(se, backtrace_start(), backtrace_end()).len()
                == 0 && payload_info(extracted(so, backtrace_start(), backtrace_end())) is Some)
                ==> r is Ok
        }),
{
    let child_marker = child_output_marker();
    let bt_marker = backtrace_marker();
    let out_text = decode_lossy(stdout);
    let err_text = decode_lossy(stderr);
    let child_stdout: String = match extract_marker(out_text.as_str(), &child_marker) {
        Ok(s) => s.to_owned(),
        Err(e) => return Err(TriageError::ChildStdoutMarker(e)),
    };
    let child_stderr: String = match extract_marker(err_text.as_str(), &child_marker) {
        Ok(s) => s.to_owned(),
        Err(e) => return Err(TriageError::ChildStderrMarker(e)),
    };
    let backtrace_output: &str = match extract_marker(out_text.as_str(), &bt_marker) {
        Ok(s) => s,
        Err(e) => return Err(TriageError::BacktraceMarker(e)),
    };
    let backtrace_errors: &str = match extract_marker(err_text.as_str(), &bt_marker) {
        Ok(s) => s,
        Err(e) => return Err(TriageError::BacktraceErrorMarker(e)),
    };
    if !backtrace_errors.is_empty() {
        return Err(TriageError::TriageScriptError(backtrace_errors.to_owned()));
    }
    match parse_thread_info(backtrace_output) {
        Ok(info) => Ok(
            GdbTriageResult {
                thread_info: info,
                child: GdbChildResult { stdout: child_stdout, stderr: child_stderr, status_code },
            },
        ),
        Err(msg) => Err(TriageError::PayloadParseError(msg)),
    }
}

/// A single newline, as a search pattern.
pub open spec fn newline() -> Seq<char> {
    seq!['\n']
}

/// Everything up to (not including) the first newline, or all of `s` when it
/// has none.
pub open spec fn line_of(s: Seq<char>) -> Seq<char> {
    if occurs(s, newline()) {
        s.take(first_match(s, newline()))
    } else {
        s
    }
}

/// Drop one trailing carriage return, as reading a line does.
pub open spec fn strip_cr(s: Seq<char>) -> Seq<char> {
    if s.len() > 0 && s.last() == '\r' {
        s.drop_last()
    } else {
        s
    }
}

/// The rest of the line following the first occurrence of `prefix` in `t`;
/// meaningful only when `prefix` occurs.
pub open spec fn version_after(t: Seq<char>, prefix: Seq<char>) -> Seq<char> {
    strip_cr(line_of(t.skip(first_match(t, prefix) + prefix.len())))
}

proof fn lemma_single_char_occurs_at(s: Seq<char>, c: char, k: int)
    ensures
        occurs_at(s, seq![c], k) <==> (0 <= k < s.len() && s[k] == c),
{
    if 0 <= k < s.len() {
        assert(s.subrange(k, k + 1) =~= seq![s[k]]);
        if s[k] == c {
            assert(s.subrange(k, k + 1) =~= seq![c]);
        } else {
            assert(s.subrange(k, k + 1) != seq![c]) by {
                assert(s.subrange(k, k + 1)[0] == s[k]);
                assert(seq![c][0] == c);
            };
        }
    }
}

fn find_char_from(chars: &Vec<char>, from: usize, c: char) -> (r: Option<usize>)
    requires
        from <= chars@.len(),
    ensures
        (match r {
            Some(j) => from <= j < chars@.len() && chars@[j as int] == c && (forall|k: int|
                from <= k < j ==> chars@[k] != c),
            None => forall|k: int| from <= k < chars@.len() ==> chars@[k] != c,
        }),
{
    let n: usize = chars.len();
    let mut j: usize = from;
    while j < n
        invariant
            n == chars@.len(),
            from <= j <= n,
            forall|k: int| from <= k < j ==> chars@[k] != c,
        decreases n - j,
    {
        if chars[j] == c {
            return Some(j);
        }
        j += 1;
    }
    None
}

/// The rest of the line after the first occurrence of `prefix`, with one
/// trailing carriage return removed, as the sanity check reads a reported
/// version.
fn version_value<'a>(text: &'a str, text_chars: &Vec<char>, prefix: &Vec<char>) -> (r: Option<
    &'a str,
>)
    requires
        text_chars@ == text@,
    ensures
        r is Some <==> occurs(text@, prefix@),
        (match r {
            Some(line) => line@ == version_after(text@, prefix@),
            None => true,
        }),
{
    let found = find_first(text_chars, prefix);
    let idx: usize = match found {
        Some(i) => i,
        None => { return None },
    };
    proof {
        lemma_first_match_unique(text@, prefix@, idx as int);
    }
    let text_len: usize = text_chars.len();
    let start: usize = idx + prefix.len();
    let ghost tail: Seq<char> = text@.skip(start as int);
    let line_end: usize = match find_char_from(text_chars, start, '\n') {
        Some(j) => {
            proof {
                lemma_single_char_occurs_at(tail, '\n', j - start);
                assert(occurs_at(tail, newline(), j - start));
                assert forall|m: int| 0 <= m < j - start implies !occurs_at(tail, newline(), m) by {
                    lemma_single_char_occurs_at(tail, '\n', m);
                };
                lemma_first_match_unique(tail, newline(), j - start);
                assert(line_of(tail) =~= text@.subrange(start as int, j as int));
            }
            j
        },
        None => {
            proof {
                assert(!occurs(tail, newline())) by {
                    if occurs(tail, newline()) {
                        let m = choose|m: int| occurs_at(tail, newline(), m);
                        lemma_single_char_occurs_at(tail, '\n', m);
                    }
                };
                assert(line_of(tail) =~= text@.subrange(start as int, text_len as int));
            }
            text_len
        },
    };
    assert(line_of(tail) == text@.subrange(start as int, line_end as int));
    let stripped_end: usize = if line_end > start && *text_chars.get(line_end - 1).unwrap() == '\r' {
        proof {
            assert(line_of(tail).last() == '\r');
            assert(strip_cr(line_of(tail)) =~= text@.subrange(start as int, line_end - 1));
        }
        line_end - 1
    } else {
        proof {
            if line_of(tail).len() > 0 && line_of(tail).last() == '\r' {
                assert(text@[line_end - 1] == '\r');
            }
            assert(strip_cr(line_of(tail)) == line_of(tail));
        }
        line_end
    };
    let line = text.substring_char(start, stripped_end);
    Some(line)
}

/// The sanity-check verdict over the debugger's captured stdout and exit
/// status: the debugger's own version line and its scripting runtime's
/// version line, found by prefix search, or nothing when either prefix is
/// missing or the exit was unsuccessful.
pub fn check_sanity_output(stdout: &[u8], exit_success: bool) -> (r: Option<(String, String)>)
    ensures
        ({
            let t = lossy_decoded(stdout@);
            &&& (r is Some <==> (exit_success && occurs(t, "V:"@) && occurs(t, "P:"@)))
            &&& (r matches Some(pair) ==> pair.0@ == version_after(t, "V:"@) && pair.1@
                == version_after(t, "P:"@))
        }),
{
    if !exit_success {
        return None;
    }
    let text = decode_lossy(stdout);
    let text_chars = chars_of(text.as_str());
    let v_prefix = chars_of("V:");
    let p_prefix = chars_of("P:");
    let version: String = match version_value(text.as_str(), &text_chars, &v_prefix) {
        Some(s) => s.to_owned(),
        None => { return None },
    };
    let python_version: String = match version_value(text.as_str(), &text_chars, &p_prefix) {
        Some(s) => s.to_owned(),
        None => { return None },
    };
    Some((version, python_version))
}

/// The one-shot scripted command whose output the sanity check reads: it
/// prints the debugger's version and its scripting runtime's version on
/// prefixed lines.
pub open spec fn sanity_python_command() -> Seq<char> {
    "python import gdb, sys; print('V:'+gdb.execute('show version', to_string=True).splitlines()[0]); print('P:'+sys.version.splitlines()[0].strip())"@
}

/// The argument vector for the sanity-check invocation.
pub open spec fn sanity_args() -> Seq<Seq<char>> {
    seq!["--nx"@, "--batch"@, "-iex"@, sanity_python_command()]
}

/// Build the sanity-check argument vector.
pub fn build_sanity_args() -> (r: Vec<String>)
    ensures
        r.deep_view() == sanity_args(),
{
    let mut args: Vec<String> = Vec::new();
    args.push("--nx".to_owned());
    args.push("--batch".to_owned());
    args.push("-iex".to_owned());
    args.push(
        "python import gdb, sys; print('V:'+gdb.execute('show version', to_string=True).splitlines()[0]); print('P:'+sys.version.splitlines()[0].strip())".to_owned(),
    );
    assert(args.deep_view() =~= sanity_args());
    args
}

/// The scripted line that prints a sentinel, followed by a newline, to both
/// of the debugger's own stdout and stderr.
pub open spec fn python_emit_line(sentinel: Seq<char>) -> Seq<char> {
    "python [x.write('"@ + sentinel + "\\n') for x in [sys.stdout, sys.stderr]]"@
}

fn python_emit(sentinel: &str) -> (r: String)
    ensures
        r@ == python_emit_line(sentinel@),
{
    let mut out: String = "python [x.write('".to_owned();
    out.append(sentinel);
    out.append("\\n') for x in [sys.stdout, sys.stderr]]");
    out
}

/// The fixed front of the triage argument vector: index-cache setup, the
/// child-output sentinels around a transcript-silenced `run`, the backtrace
/// sentinels around sourcing the triage script, and the `--args` terminator
/// after which the target program's own argument vector follows.
pub open spec fn triage_arg_prefix(script_path: Seq<char>) -> Seq<Seq<char>> {
    seq![
        "--batch"@,
        "--nx"@,
        "-iex"@,
        "set index-cache on"@,
        "-iex"@,
        "set index-cache directory gdb_cache"@,
        "-ex"@,
        python_emit_line(child_start()),
        "-ex"@,
        "set logging file /dev/null"@,
        "-ex"@,
        "set logging redirect on"@,
        "-ex"@,
        "set logging on"@,
        "-ex"@,
        "run"@,
        "-ex"@,
        "set logging redirect off"@,
        "-ex"@,
        "set logging off"@,
        "-ex"@,
        python_emit_line(child_end()),
        "-ex"@,
        python_emit_line(backtrace_start()),
        "-x"@,
        script_path,
        "-ex"@,
        python_emit_line(backtrace_end()),
        "--args"@,
    ]
}

/// Build the full triage argument vector: the fixed front for the given
/// script path, then the target program's own argument vector, unchanged and
/// in order.  This exact shape is the wire contract with the debugger.
pub fn build_triage_args(script_path: &str, prog_args: &Vec<String>) -> (r: Vec<String>)
    ensures
        r.deep_view() == triage_arg_prefix(script_path@) + prog_args.deep_view(),
{
    let child_marker = child_output_marker();
    let bt_marker = backtrace_marker();
    let mut args: Vec<String> = Vec::new();
    args.push("--batch".to_owned());
    args.push("--nx".to_owned());
    args.push("-iex".to_owned());
    args.push("set index-cache on".to_owned());
    args.push("-iex".to_owned());
    args.push("set index-cache directory gdb_cache".to_owned());
    args.push("-ex".to_owned());
    args.push(python_emit(child_marker.start.as_str()));
    args.push("-ex".to_owned());
    args.push("set logging file /dev/null".to_owned());
    args.push("-ex".to_owned());
    args.push("set logging redirect on".to_owned());
    args.push("-ex".to_owned());
    args.push("set logging on".to_owned());
    args.push("-ex".to_owned());
    args.push("run".to_owned());
    args.push("-ex".to_owned());
    args.push("set logging redirect off".to_owned());
    args.push("-ex".to_owned());
    args.push("set logging off".to_owned());
    args.push("-ex".to_owned());
    args.push(python_emit(child_marker.end.as_str()));
    args.push("-ex".to_owned());
    args.push(python_emit(bt_marker.start.as_str()));
    args.push("-x".to_owned());
    args.push(script_path.to_owned());
    args.push("-ex".to_owned());
    args.push(python_emit(bt_marker.end.as_str()));
    args.push("--args".to_owned());
    assert(args.deep_view() =~= triage_arg_prefix(script_path@));
    let n: usize = prog_args.len();
    let mut i: usize = 0;
    while i < n
        invariant
            n == prog_args@.len(),
            i <= n,
            args.deep_view() == triage_arg_prefix(script_path@) + prog_args.deep_view().take(
                i as int,
            ),
        decreases n - i,
    {
        let ghost pre_elems = args@;
        let ghost pre = args.deep_view();
        let next = prog_args[i].clone();
        assert(next@ == prog_args.deep_view()[i as int]);
        args.push(next);
        proof {
            let target = triage_arg_prefix(script_path@) + prog_args.deep_view().take(i + 1);
            assert forall|k: int| 0 <= k < args.deep_view().len() implies #[trigger] (
            args.deep_view()[k]) == target[k] by {
                if k < pre.len() {
                    assert(args@[k] == pre_elems[k]);
                    assert(pre[k] == pre_elems[k].deep_view());
                    assert(pre[k] == target[k]);
                } else {
                    assert(args@[k] == prog_args@[i as int]);
                }
            };
            assert(args@.len() == pre_elems.len() + 1);
            assert(pre.len() == pre_elems.len());
            assert(pre.len() == 29 + i);
            assert(args.deep_view().len() == 29 + i + 1);
            assert(target.len() == 29 + i + 1);
            assert(args.deep_view() =~= target);
        }
        i += 1;
    }
    assert(prog_args.deep_view().take(n as int) =~= prog_args.deep_view());
    args
}

} // verus!
