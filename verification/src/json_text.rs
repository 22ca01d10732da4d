//! Reading JSON text with `serde_json`: Herdr's command output and socket replies, the
//! plugin context, and the stored marks.
use vstd::prelude::*;
use crate::herdr::{reply_outcome, socket_reply};
use crate::json::{str_at, str_field, take_field, Json};
use crate::keyset::KeySet;
use crate::text::{append_str, chars_of, string_of, strings_view, trim_end};

verus! {

#[verifier::external_type_specification]
#[verifier::external_body]
pub struct ExJsonValue(serde_json::Value);

/// What `serde_json::from_slice` reads from `bytes` as a JSON value (taken one for one as
/// a library value), or the message of its error.
pub uninterp spec fn json_of_bytes(bytes: Seq<u8>) -> Result<Json, Seq<char>>;

/// What `serde_json::from_str` reads from `text` as a JSON value (taken one for one as a
/// library value), or the message of its error.
pub uninterp spec fn json_of_text(text: Seq<char>) -> Result<Json, Seq<char>>;

/// What `serde_json::from_str` reads from `text` as a list of strings, or the message of
/// its error.
pub uninterp spec fn strings_of_text(text: Seq<char>) -> Result<Seq<Seq<char>>, Seq<char>>;

/// A result with its error as text.
pub open spec fn json_result(r: Result<Json, String>) -> Result<Json, Seq<char>> {
    match r {
        Ok(v) => Ok(v),
        Err(e) => Err(e@),
    }
}

/// A `serde_json` value as a library value, one for one: a number outside `i64` is only
/// known to be a number. Used by the readers below to convert what `serde_json` read.
#[verifier::external_body]
fn value_json(value: &serde_json::Value) -> Json {
    match value {
        serde_json::Value::Null => Json::Null,
        serde_json::Value::Bool(b) => Json::Bool(*b),
        serde_json::Value::Number(n) => n.as_i64().map_or(Json::Number, Json::Int),
        serde_json::Value::String(s) => Json::Str(s.clone()),
        serde_json::Value::Array(items) => Json::Array(items.iter().map(value_json).collect()),
        serde_json::Value::Object(members) => Json::Object(
            members.iter().map(|(k, v)| (k.clone(), value_json(v))).collect(),
        ),
    }
}

/// `serde_json::from_slice` read as a JSON value: the value (see `value_json`), or the
/// error's message; named by `json_of_bytes`.
#[verifier::external_body]
fn read_json_bytes(bytes: &[u8]) -> (r: Result<Json, String>)
    ensures
        json_result(r) == json_of_bytes(bytes@),
{
    serde_json::from_slice::<serde_json::Value>(bytes).map(|v| value_json(&v)).map_err(|e| e.to_string())
}

/// `serde_json::from_str` read as a JSON value: the value (see `value_json`), or the
/// error's message; named by `json_of_text`.
#[verifier::external_body]
fn read_json_text(text: &str) -> (r: Result<Json, String>)
    ensures
        json_result(r) == json_of_text(text@),
{
    serde_json::from_str::<serde_json::Value>(text).map(|v| value_json(&v)).map_err(|e| e.to_string())
}

/// `serde_json::from_str` read as a list of strings, or the error's message; named by
/// `strings_of_text`.
#[verifier::external_body]
fn read_strings(text: &str) -> (r: Result<Vec<String>, String>)
    ensures
        match r {
            Ok(v) => strings_of_text(text@) == Ok::<Seq<Seq<char>>, Seq<char>>(strings_view(v@)),
            Err(e) => strings_of_text(text@) == Err::<Seq<Seq<char>>, Seq<char>>(e@),
        },
{
    serde_json::from_str::<Vec<String>>(text).map_err(|e| e.to_string())
}

/// What a Herdr command gives: its error output when it failed, else its standard output
/// read as JSON (or the reading error).
pub fn herdr_output(succeeded: bool, stdout: &[u8], stderr: String) -> (r: Result<Json, String>)
    ensures
        !succeeded ==> json_result(r) == Err::<Json, Seq<char>>(stderr@),
        succeeded ==> json_result(r) == json_of_bytes(stdout@),
{
    if !succeeded {
        return Err(stderr);
    }
    read_json_bytes(stdout)
}

fn trimmed_end(s: &str) -> (r: String)
    ensures
        r@ == trim_end(s@),
{
    let v = chars_of(s);
    let mut n: usize = v.len();
    assert(v@.take(n as int) =~= v@);
    while n > 0 && crate::text::is_whitespace(v[n - 1])
        invariant
            n <= v@.len(),
            trim_end(v@) == trim_end(v@.take(n as int)),
        decreases n,
    {
        assert(v@.take(n as int).drop_last() =~= v@.take(n - 1));
        n = n - 1;
    }
    let out = crate::text::slice_vec(v.as_slice(), 0, n);
    assert(out@ =~= v@.take(n as int));
    string_of(out.as_slice())
}

/// What a socket reply line to request `id` gives: a reading error when the line, without
/// trailing white space, is not JSON, else what `reply_outcome` gives of the value.
pub open spec fn socket_outcome(id: Seq<char>, line: Seq<char>) -> Result<Json, Seq<char>> {
    match json_of_text(trim_end(line)) {
        Err(m) => Err("malformed Herdr response: "@ + m),
        Ok(v) => reply_outcome(id, v),
    }
}

/// Reads a socket reply line to request `id` (see `socket_outcome`).
pub fn socket_response(id: &str, line: &str) -> (r: Result<Json, String>)
    ensures
        json_result(r) == socket_outcome(id@, line@),
{
    let text = trimmed_end(line);
    match read_json_text(text.as_str()) {
        Err(m) => {
            let mut out = chars_of("malformed Herdr response: ");
            append_str(&mut out, m.as_str());
            Err(string_of(out.as_slice()))
        },
        Ok(v) => {
            let refused = match socket_reply(id, &v) {
                Ok(_) => None,
                Err(m) => Some(m),
            };
            match refused {
                Some(m) => Err(m),
                None => match take_field(v, "result") {
                    Some(result) => Ok(result),
                    None => Err("malformed Herdr success response".to_owned()),
                },
            }
        },
    }
}

/// The Workspace named by Herdr's plugin context: its non-empty `workspace_id` string.
pub open spec fn launch_workspace_in(context: Seq<char>) -> Option<Seq<char>> {
    match json_of_text(context) {
        Ok(v) => match str_field(v, "workspace_id"@) {
            Some(s) => if s.len() > 0 {
                Some(s)
            } else {
                None
            },
            None => None,
        },
        Err(_) => None,
    }
}

/// The Workspace named by Herdr's plugin context (see `launch_workspace_in`).
pub fn launch_workspace_of(context: &str) -> (r: Option<String>)
    ensures
        crate::model::opt_view(r) == launch_workspace_in(context@),
{
    match read_json_text(context) {
        Ok(v) => match str_at(&v, "workspace_id") {
            Some(s) => if !s.is_empty() {
                Some(s.to_owned())
            } else {
                None
            },
            None => None,
        },
        Err(_) => None,
    }
}

/// The stored marks: the keys of a JSON list of strings, or why it does not read.
pub open spec fn pins_in(text: Seq<char>) -> Result<Set<Seq<char>>, Seq<char>> {
    match strings_of_text(text) {
        Ok(keys) => Ok(keys.to_set()),
        Err(m) => Err("failed to parse pinned entries: "@ + m),
    }
}

/// Reads the stored marks (see `pins_in`).
pub fn pins_from_text(text: &str) -> (r: Result<KeySet, String>)
    ensures
        match r {
            Ok(k) => pins_in(text@) == Ok::<Set<Seq<char>>, Seq<char>>(k@),
            Err(m) => pins_in(text@) == Err::<Set<Seq<char>>, Seq<char>>(m@),
        },
{
    match read_strings(text) {
        Ok(keys) => Ok(KeySet::from_keys(keys)),
        Err(m) => {
            let mut out = chars_of("failed to parse pinned entries: ");
            append_str(&mut out, m.as_str());
            Err(string_of(out.as_slice()))
        },
    }
}

} // verus!
