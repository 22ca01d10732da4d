//! Directory destinations: the Entry of a directory, and the directories that zoxide
//! lists.
use vstd::prelude::*;
use crate::agents::{basename, basename_of};
use crate::model::{entries_view, ActionModel, Entry, EntryAction, EntryModel, Source};
use crate::render::{lines, lines_of};
use crate::text::{blank, chars_of, is_blank, string_of};

verus! {

/// The Entry of a directory found by a Source: titled by the directory's name, showing
/// and opening its path (focusing or creating its Workspace).
pub open spec fn directory_entry_model(source: Source, path: Seq<char>) -> EntryModel {
    EntryModel {
        source,
        title: basename_of(path),
        subtitle: path,
        path,
        workspace_id: None,
        workspace_label: None,
        agent_target: None,
        project: None,
        action: ActionModel::FocusOrCreateDir,
        source_label: None,
        search_terms: seq![],
    }
}

/// The Entry of a directory found by `source`.
pub fn directory_entry(source: Source, path: &str) -> (r: Entry)
    ensures
        r@ == directory_entry_model(source, path@),
{
    let r = Entry {
        source,
        title: basename(path),
        subtitle: path.to_owned(),
        path: path.to_owned(),
        workspace_id: None,
        workspace_label: None,
        agent_target: None,
        project: None,
        action: EntryAction::FocusOrCreateDir,
        source_label: None,
        search_terms: Vec::new(),
    };
    assert(crate::text::strings_view(r.search_terms@) =~= seq![]);
    r
}

/// The zoxide Entries of the listed lines, skipping blank ones.
pub open spec fn zoxide_models(ls: Seq<Seq<char>>) -> Seq<EntryModel>
    decreases ls.len(),
{
    if ls.len() == 0 {
        seq![]
    } else {
        let before = zoxide_models(ls.drop_last());
        if is_blank(ls.last()) {
            before
        } else {
            before.push(directory_entry_model(Source::Zoxide, ls.last()))
        }
    }
}

/// The directories of `zoxide query -l` output: one zoxide Entry per non-blank line.
pub fn zoxide_entries(output: &str) -> (r: Vec<Entry>)
    ensures
        entries_view(r@) == zoxide_models(lines_of(output@)),
{
    let cs = crate::text::chars_of(output);
    let ls = lines(cs.as_slice());
    let ghost lv = ls@.map_values(|l: Vec<char>| l@);
    let mut out: Vec<Entry> = Vec::new();
    let mut i: usize = 0;
    while i < ls.len()
        invariant
            i <= ls@.len(),
            lv == ls@.map_values(|l: Vec<char>| l@),
            lv == lines_of(output@),
            entries_view(out@) == zoxide_models(lv.take(i as int)),
        decreases ls.len() - i,
    {
        assert(lv.take(i + 1).drop_last() =~= lv.take(i as int));
        assert(lv.take(i + 1).last() == ls@[i as int]@);
        if !blank(ls[i].as_slice()) {
            let line = string_of(ls[i].as_slice());
            let ghost before = entries_view(out@);
            out.push(directory_entry(Source::Zoxide, line.as_str()));
            assert(entries_view(out@) =~= before.push(directory_entry_model(Source::Zoxide, line@)));
        }
        i = i + 1;
    }
    assert(lv.take(ls.len() as int) =~= lv);
    out
}


/// What walking a directory of a root does, `depth` levels still allowed: nothing at depth
/// zero or for what is not a directory; otherwise it is listed as a Root when it holds a
/// `.git`, `package.json` or `Cargo.toml` marker, and its children are walked one level
/// deeper.
pub struct RootVisit {
    pub list: bool,
    pub descend: bool,
}

/// The walk's decision for one directory (see `RootVisit`).
pub fn root_visit(depth: usize, is_dir: bool, has_marker: bool) -> (r: RootVisit)
    ensures
        r.list == (depth > 0 && is_dir && has_marker),
        r.descend == (depth > 0 && is_dir),
{
    let go = depth > 0 && is_dir;
    RootVisit { list: go && has_marker, descend: go }
}

/// A child directory is walked unless its name starts with a dot.
pub fn walks_into(child: &str) -> (r: bool)
    ensures
        r == !(basename_of(child@).len() > 0 && basename_of(child@)[0] == '.'),
{
    let name = chars_of(&basename(child));
    !(name.len() > 0 && name[0] == '.')
}

} // verus!
