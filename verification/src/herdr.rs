//! Talking to Herdr: notification sound choice, notification text, and the checks on a
//! socket API reply.
use vstd::prelude::*;
use crate::config::NotificationsConfig;
use crate::json::{field, str_field, Json};
use crate::text::{append_str, ascii_lower, chars_of, string_of, trim};

verus! {

/// The Herdr sound and the custom sound file of a notification: silent without audio;
/// Herdr's default sound for the `default` setting; no Herdr sound but the configured
/// (non-empty) file for `custom`; silent otherwise.
pub open spec fn audio_of(c: NotificationsConfig, default_sound: Seq<char>) -> (Seq<char>, Option<Seq<char>>) {
    if !c.audio {
        ("none"@, None)
    } else {
        let s = ascii_lower(trim(c.sound@));
        if s == "default"@ {
            (default_sound, None)
        } else if s == "custom"@ {
            (
                "none"@,
                match c.custom_sound {
                    Some(p) => if p@.len() > 0 {
                        Some(p@)
                    } else {
                        None
                    },
                    None => None,
                },
            )
        } else {
            ("none"@, None)
        }
    }
}

/// The Herdr sound and the custom sound file of a notification.
pub fn notification_audio<'a>(config: &'a NotificationsConfig, default_sound: &'static str) -> (r: (&'static str, Option<&'a str>))
    ensures
        (r.0@, crate::recent::opt_str_view(r.1)) == audio_of(*config, default_sound@),
{
    if !config.audio {
        return ("none", None);
    }
    let t = crate::text::trim_chars(chars_of(config.sound.as_str()).as_slice());
    let ts = string_of(t.as_slice());
    let l = string_of(crate::text::to_ascii_lowercase(ts.as_str()).as_slice());
    if crate::text::eq_str(l.as_str(), "default") {
        (default_sound, None)
    } else if crate::text::eq_str(l.as_str(), "custom") {
        (
            "none",
            match &config.custom_sound {
                Some(p) => if p.as_str().is_empty() {
                    None
                } else {
                    Some(p.as_str())
                },
                None => None,
            },
        )
    } else {
        ("none", None)
    }
}

/// The first `max` characters of `value`, followed by `…` when it was longer.
pub open spec fn truncated(value: Seq<char>, max: int) -> Seq<char> {
    if value.len() > max {
        value.take(max) + seq!['…']
    } else {
        value
    }
}

/// The first `max_chars` characters of `value`, with `…` when it was cut.
pub fn truncate(value: &str, max_chars: usize) -> (r: String)
    ensures
        r@ == truncated(value@, max_chars as int),
{
    let v = chars_of(value);
    if v.len() > max_chars {
        let mut out = crate::text::slice_vec(v.as_slice(), 0, max_chars);
        out.push('…');
        assert(out@ =~= truncated(value@, max_chars as int));
        string_of(out.as_slice())
    } else {
        value.to_owned()
    }
}

/// What a socket API reply to request `id` gives: its `result`, or the error: a reply to
/// another request, a reported API error (with code and message), or a malformed reply.
pub open spec fn reply_outcome(id: Seq<char>, reply: Json) -> Result<Json, Seq<char>> {
    if str_field(reply, "id"@) != Some(id) {
        Err("Herdr response ID did not match request"@)
    } else if field(reply, "error"@) is Some {
        let e = field(reply, "error"@)->0;
        match (str_field(e, "code"@), str_field(e, "message"@)) {
            (Some(code), Some(message)) => Err("Herdr API error ("@ + code + "): "@ + message),
            _ => Err("malformed Herdr API error response"@),
        }
    } else {
        match field(reply, "result"@) {
            Some(r) => Ok(r),
            None => Err("malformed Herdr success response"@),
        }
    }
}

/// Checks a socket API reply to request `id` and gives its `result` (see
/// `reply_outcome`).
pub fn socket_reply<'a>(id: &str, reply: &'a Json) -> (r: Result<&'a Json, String>)
    ensures
        match r {
            Ok(v) => reply_outcome(id@, *reply) == Ok::<Json, Seq<char>>(*v),
            Err(m) => reply_outcome(id@, *reply) == Err::<Json, Seq<char>>(m@),
        },
{
    let matches = match crate::json::str_at(reply, "id") {
        Some(x) => crate::text::eq_str(x, id),
        None => false,
    };
    if !matches {
        return Err("Herdr response ID did not match request".to_owned());
    }
    match reply.get("error") {
        Some(e) => {
            return match (crate::json::str_at(e, "code"), crate::json::str_at(e, "message")) {
                (Some(code), Some(message)) => {
                    let mut m = chars_of("Herdr API error (");
                    append_str(&mut m, code);
                    append_str(&mut m, "): ");
                    append_str(&mut m, message);
                    Err(string_of(m.as_slice()))
                },
                _ => Err("malformed Herdr API error response".to_owned()),
            };
        },
        None => {},
    }
    match reply.get("result") {
        Some(r) => Ok(r),
        None => Err("malformed Herdr success response".to_owned()),
    }
}

/// What a TOML document sets for `key` at its top level: nothing when the document does
/// not parse or has no such entry, `Some(None)` when the entry is not a string, and the
/// string otherwise.
pub uninterp spec fn toml_top_setting(document: Seq<char>, key: Seq<char>) -> Option<Option<Seq<char>>>;

/// What a TOML document sets for `key` in its table `table`: nothing when the document
/// does not parse, has no entry `table`, that entry is not a table, or the table has no
/// entry `key`; `Some(None)` when the entry is not a string, and the string otherwise.
pub uninterp spec fn toml_table_setting(document: Seq<char>, table: Seq<char>, key: Seq<char>) -> Option<
    Option<Seq<char>>,
>;

/// An optional optional string as values.
pub open spec fn opt_opt_view(o: Option<Option<String>>) -> Option<Option<Seq<char>>> {
    match o {
        Some(Some(s)) => Some(Some(s@)),
        Some(None) => Some(None),
        None => None,
    }
}

/// Reads a top-level setting with the `toml` crate: the document parsed as a
/// `toml::Table`, the entry found with `Table::get` and read with `Value::as_str`. The
/// result is named by `toml_top_setting`; nothing more is claimed of it.
#[verifier::external_body]
fn toml_top_entry(document: &str, key: &str) -> (r: Option<Option<String>>)
    ensures
        opt_opt_view(r) == toml_top_setting(document@, key@),
{
    let doc = document.parse::<toml::Table>().ok()?;
    doc.get(key).map(|v| v.as_str().map(|s| s.to_owned()))
}

/// Reads a setting of a table with the `toml` crate: the document parsed as a
/// `toml::Table`, the table found with `Table::get` and `Value::as_table`, the entry with
/// `Table::get`, read with `Value::as_str`. The result is named by `toml_table_setting`;
/// nothing more is claimed of it.
#[verifier::external_body]
fn toml_table_entry(document: &str, table: &str, key: &str) -> (r: Option<Option<String>>)
    ensures
        opt_opt_view(r) == toml_table_setting(document@, table@, key@),
{
    let doc = document.parse::<toml::Table>().ok()?;
    doc.get(table)?.as_table()?.get(key).map(|v| v.as_str().map(|s| s.to_owned()))
}

/// The agent panel order that Herdr's configuration document sets: `ui.agent_panel_sort`,
/// or else a top-level `agent_panel_sort`, when that entry is text; `spaces` otherwise.
pub open spec fn panel_sort_of(document: Seq<char>) -> Seq<char> {
    let chosen = match toml_table_setting(document, "ui"@, "agent_panel_sort"@) {
        Some(v) => Some(v),
        None => toml_top_setting(document, "agent_panel_sort"@),
    };
    match chosen {
        Some(Some(s)) => s,
        _ => "spaces"@,
    }
}

/// The agent panel order set by Herdr's configuration document (see `panel_sort_of`).
pub fn herdr_agent_panel_sort(document: &str) -> (r: String)
    ensures
        r@ == panel_sort_of(document@),
{
    let chosen = match toml_table_entry(document, "ui", "agent_panel_sort") {
        Some(v) => Some(v),
        None => toml_top_entry(document, "agent_panel_sort"),
    };
    match chosen {
        Some(Some(s)) => s,
        _ => "spaces".to_owned(),
    }
}

} // verus!
