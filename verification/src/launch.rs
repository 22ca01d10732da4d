//! Launching the Picker: the popup request and the side Picker's open, focus or close
//! decision.
use vstd::prelude::*;
use crate::json::{array_of, bool_of, field, field_of, member_from, str_field, Json};
use crate::text::{chars_of, push_usize, string_of};

verus! {

/// The label of the side Picker's Pane.
pub const SIDE_PANE_LABEL: &'static str = "Helm Side";

/// What launching the side Picker does: open it, focus it, or close it.
#[derive(Debug)]
pub enum SideDecision {
    Open,
    Focus(String),
    Close(String),
}

/// The first Pane at or after `from` that is focused.
pub open spec fn first_focused(ps: Seq<Json>, from: int) -> Option<int>
    decreases ps.len() - from,
{
    if from < 0 || from >= ps.len() {
        None
    } else if bool_of(field(ps[from], "focused"@)) == Some(true) {
        Some(from)
    } else {
        first_focused(ps, from + 1)
    }
}

/// The first Pane at or after `from` with label `label` in Workspace `ws`.
pub open spec fn first_labelled(ps: Seq<Json>, label: Seq<char>, ws: Seq<char>, from: int) -> Option<int>
    decreases ps.len() - from,
{
    if from < 0 || from >= ps.len() {
        None
    } else if str_field(ps[from], "label"@) == Some(label) && str_field(ps[from], "workspace_id"@) == Some(ws) {
        Some(from)
    } else {
        first_labelled(ps, label, ws, from + 1)
    }
}

/// The focused Pane and the Pane labelled `label` in the focused Workspace, from a Pane
/// list reply.
pub open spec fn focused_and_labelled(v: Json, label: Seq<char>) -> Option<(Json, Json)> {
    match array_of(field_of(field(v, "result"@), "panes"@)) {
        Some(ps) => match first_focused(ps, 0) {
            Some(f) => match str_field(ps[f], "workspace_id"@) {
                Some(ws) => match first_labelled(ps, label, ws, 0) {
                    Some(t) => Some((ps[f], ps[t])),
                    None => None,
                },
                None => None,
            },
            None => None,
        },
        None => None,
    }
}

/// What the side Picker launch does: open a new one unless a side Picker Pane with an ID
/// is in the focused Workspace; then close it when it is focused, focus it otherwise.
pub open spec fn side_decision(v: Json) -> (bool, bool, Seq<char>) {
    match focused_and_labelled(v, SIDE_PANE_LABEL@) {
        Some((f, side)) => match str_field(side, "pane_id"@) {
            Some(id) => if str_field(f, "pane_id"@) == Some(id) {
                (false, true, id)
            } else {
                (false, false, id)
            },
            None => (true, false, seq![]),
        },
        None => (true, false, seq![]),
    }
}

/// The decision as (open, close, Pane ID).
pub open spec fn decision_view(d: SideDecision) -> (bool, bool, Seq<char>) {
    match d {
        SideDecision::Open => (true, false, seq![]),
        SideDecision::Close(id) => (false, true, id@),
        SideDecision::Focus(id) => (false, false, id@),
    }
}

fn focused_position(panes: &Vec<Json>) -> (r: Option<usize>)
    ensures
        match r {
            Some(k) => first_focused(panes@, 0) == Some(k as int) && k < panes@.len(),
            None => first_focused(panes@, 0) is None,
        },
{
    let mut i: usize = 0;
    while i < panes.len()
        invariant
            i <= panes@.len(),
            first_focused(panes@, 0) == first_focused(panes@, i as int),
        decreases panes.len() - i,
    {
        let focused = match panes[i].get("focused") {
            Some(x) => x.as_bool() == Some(true),
            None => false,
        };
        if focused {
            return Some(i);
        }
        i = i + 1;
    }
    None
}

/// The focused Pane and the Pane labelled `label` in the focused Workspace.
pub fn pane_in_focused_workspace<'a>(pane_json: &'a Json, label: &str) -> (r: Option<(&'a Json, &'a Json)>)
    ensures
        match r {
            Some((f, t)) => focused_and_labelled(*pane_json, label@) == Some((*f, *t)),
            None => focused_and_labelled(*pane_json, label@) is None,
        },
{
    let panes = match crate::json::get_opt(pane_json.get("result"), "panes") {
        Some(v) => match v.as_array() {
            Some(a) => a,
            None => {
                return None;
            },
        },
        None => {
            return None;
        },
    };
    let f = match focused_position(panes) {
        Some(k) => k,
        None => {
            return None;
        },
    };
    let ws = match crate::json::str_at(&panes[f], "workspace_id") {
        Some(w) => w,
        None => {
            return None;
        },
    };
    let mut j: usize = 0;
    while j < panes.len()
        invariant
            j <= panes@.len(),
            f < panes@.len(),
            array_of(field_of(field(*pane_json, "result"@), "panes"@)) == Some(panes@),
            first_focused(panes@, 0) == Some(f as int),
            str_field(panes@[f as int], "workspace_id"@) == Some(ws@),
            first_labelled(panes@, label@, ws@, 0) == first_labelled(panes@, label@, ws@, j as int),
        decreases panes.len() - j,
    {
        let p = &panes[j];
        let label_ok = match crate::json::str_at(p, "label") {
            Some(l) => crate::text::eq_str(l, label),
            None => false,
        };
        let ws_ok = match crate::json::str_at(p, "workspace_id") {
            Some(w) => crate::text::eq_str(w, ws),
            None => false,
        };
        if label_ok && ws_ok {
            return Some((&panes[f], p));
        }
        j = j + 1;
    }
    None
}

/// What launching the side Picker does, given the Pane list reply.
pub fn side_pane_decision(pane_json: &Json) -> (r: SideDecision)
    ensures
        decision_view(r) == side_decision(*pane_json),
{
    let (focused, side) = match pane_in_focused_workspace(pane_json, SIDE_PANE_LABEL) {
        Some(pair) => pair,
        None => {
            return SideDecision::Open;
        },
    };
    let id = match crate::json::str_at(side, "pane_id") {
        Some(i) => i,
        None => {
            return SideDecision::Open;
        },
    };
    let same = match crate::json::str_at(focused, "pane_id") {
        Some(x) => crate::text::eq_str(x, id),
        None => false,
    };
    if same {
        SideDecision::Close(id.to_owned())
    } else {
        SideDecision::Focus(id.to_owned())
    }
}

/// A percentage as Herdr takes it, such as `90%`.
pub open spec fn percent_text(p: u8) -> Seq<char> {
    crate::text::decimal(p as int) + "%"@
}

fn percent(p: u8) -> (r: String)
    ensures
        r@ == percent_text(p),
{
    let mut out: Vec<char> = Vec::new();
    push_usize(&mut out, p as usize);
    out.push('%');
    proof {
        reveal_strlit("%");
    }
    assert(out@ =~= percent_text(p));
    string_of(out.as_slice())
}

fn member(name: &str, value: Json) -> (r: (String, Json))
    ensures
        r.0@ == name@,
        r.1 == value,
{
    (name.to_owned(), value)
}

fn text(s: &str) -> (r: Json)
    ensures
        r matches Json::Str(t) && t@ == s@,
{
    Json::Str(s.to_owned())
}

/// The socket request that opens the Picker as a popup.
pub open spec fn is_popup_request(r: Json, plugin_id: Seq<char>, entrypoint: Seq<char>, width: u8, height: u8, request_id: Seq<char>) -> bool {
    &&& crate::json::str_field(r, "id"@) == Some(request_id)
    &&& crate::json::str_field(r, "method"@) == Some("plugin.pane.open"@)
    &&& field(r, "params"@) matches Some(params) && {
        &&& str_field(params, "plugin_id"@) == Some(plugin_id)
        &&& str_field(params, "entrypoint"@) == Some(entrypoint)
        &&& str_field(params, "placement"@) == Some("popup"@)
        &&& str_field(params, "width"@) == Some(percent_text(width))
        &&& str_field(params, "height"@) == Some(percent_text(height))
    }
    &&& r matches Json::Object(m) && m@.len() == 3
}

/// The socket request that opens the Picker entrypoint as a popup of the given size.
pub fn popup_request(plugin_id: &str, entrypoint: &str, width: u8, height: u8, request_id: &str) -> (r: Json)
    ensures
        is_popup_request(r, plugin_id@, entrypoint@, width, height, request_id@),
{
    let mut params: Vec<(String, Json)> = Vec::new();
    params.push(member("plugin_id", text(plugin_id)));
    params.push(member("entrypoint", text(entrypoint)));
    params.push(member("placement", text("popup")));
    params.push(member("width", Json::Str(percent(width))));
    params.push(member("height", Json::Str(percent(height))));
    let mut top: Vec<(String, Json)> = Vec::new();
    top.push(member("id", text(request_id)));
    top.push(member("method", text("plugin.pane.open")));
    top.push(member("params", Json::Object(params)));
    let ghost pv = params@;
    let ghost tv = top@;
    let r = Json::Object(top);
    proof {
        reveal_strlit("id");
        reveal_strlit("method");
        reveal_strlit("params");
        reveal_strlit("plugin_id");
        reveal_strlit("entrypoint");
        reveal_strlit("placement");
        reveal_strlit("width");
        reveal_strlit("height");
        reveal_with_fuel(crate::json::member_from, 6);
        assert(tv.len() == 3);
        assert(field(r, "id"@) == Some(tv[0].1));
        assert(tv[0].0@ =~= "id"@);
        assert(tv[1].0@ =~= "method"@);
        assert(tv[2].0@ =~= "params"@);
        assert(tv[0].0@ != "method"@);
        assert(member_from(tv, "method"@, 0) == member_from(tv, "method"@, 1));
        assert(field(r, "method"@) == Some(tv[1].1));
        assert(tv[1].0@[0] != "params"@[0]);
        assert(member_from(tv, "params"@, 0) == member_from(tv, "params"@, 2));
        assert(field(r, "params"@) == Some(tv[2].1));
        assert(pv.len() == 5);
        assert(tv[2].1 == Json::Object(params));
        assert(pv[0].0@ =~= "plugin_id"@);
        assert(pv[1].0@ =~= "entrypoint"@);
        assert(pv[2].0@ =~= "placement"@);
        assert(pv[3].0@ =~= "width"@);
        assert(pv[4].0@ =~= "height"@);
        assert(pv[0].0@.len() != "width"@.len() && pv[1].0@.len() != "width"@.len() && pv[2].0@.len() != "width"@.len());
        assert(member_from(pv, "width"@, 0) == member_from(pv, "width"@, 3));
        assert(pv[3].0@.len() != "height"@.len());
        assert(field(tv[2].1, "plugin_id"@) == Some(pv[0].1));
        assert(pv[0].0@.len() != "entrypoint"@.len());
        assert(member_from(pv, "entrypoint"@, 0) == member_from(pv, "entrypoint"@, 1));
        assert(pv[0].0@[2] != "placement"@[2]);
        assert(pv[1].0@.len() != "placement"@.len());
        assert(member_from(pv, "placement"@, 0) == member_from(pv, "placement"@, 2));
        assert(field(tv[2].1, "width"@) == Some(pv[3].1));
        assert(member_from(pv, "height"@, 0) == member_from(pv, "height"@, 4));
        assert(field(tv[2].1, "height"@) == Some(pv[4].1));
    }
    r
}

} // verus!
