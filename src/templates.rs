//! Workspace templates and plugin lists.
use vstd::prelude::*;
use crate::platform::{Platform, join, join_path};
use crate::text::{chars_of, opt_view, push_char, same_text, trim_to_string, trimmed, views};

verus! {

/// `existing` with each of `required` appended, in order, unless already there.
pub open spec fn merged_plugins(existing: Seq<Seq<char>>, required: Seq<Seq<char>>) -> Seq<Seq<char>>
    decreases required.len(),
{
    if required.len() == 0 {
        existing
    } else {
        let next = if existing.contains(required[0]) {
            existing
        } else {
            existing.push(required[0])
        };
        merged_plugins(next, required.drop_first())
    }
}

/// Whether `v` holds an entry equal to `s`.
fn holds_text(v: &Vec<String>, s: &str) -> (r: bool)
    ensures
        r == views(v@).contains(s@),
{
    let mut k: usize = 0;
    while k < v.len()
        invariant
            k <= v@.len(),
            forall|j: int| 0 <= j < k ==> v@[j]@ != s@,
        decreases v@.len() - k,
    {
        if same_text(v[k].as_str(), s) {
            assert(views(v@)[k as int] == s@);
            return true;
        }
        k = k + 1;
    }
    assert forall|j: int| 0 <= j < views(v@).len() implies views(v@)[j] != s@ by {
        assert(v@[j]@ != s@);
    }
    false
}

/// Adds each required plugin that the list lacks, keeping the order of both.
pub fn merge_plugins(existing: Vec<String>, required: &[&str]) -> (r: Vec<String>)
    ensures
        views(r@) == merged_plugins(views(existing@), required@.map_values(|s: &str| s@)),
{
    let ghost req = required@.map_values(|s: &str| s@);
    let mut out = existing;
    let mut i: usize = 0;
    assert(req.skip(0) =~= req);
    while i < required.len()
        invariant
            i <= required@.len(),
            req == required@.map_values(|s: &str| s@),
            merged_plugins(views(existing@), req) == merged_plugins(views(out@), req.skip(i as int)),
        decreases required@.len() - i,
    {
        let plugin = required[i];
        let ghost before = views(out@);
        assert(req.skip(i as int)[0] == plugin@);
        assert(req.skip(i as int).drop_first() =~= req.skip(i + 1));
        if !holds_text(&out, plugin) {
            out.push(String::from_str(plugin));
            assert(views(out@) =~= before.push(plugin@));
        }
        i = i + 1;
    }
    assert(req.skip(i as int) =~= Seq::<Seq<char>>::empty());
    out
}

/// The characters kept in a template identifier.
pub open spec fn is_id_char(c: char) -> bool {
    ('a' <= c && c <= 'z') || ('A' <= c && c <= 'Z') || ('0' <= c && c <= '9') || c == '_' || c == '-'
}

/// A template identifier made safe for a file name: the trimmed text with
/// every other character dropped; nothing when no character is left.
pub open spec fn template_id_of(raw: Seq<char>) -> Option<Seq<char>> {
    let kept = trimmed(raw).filter(|c: char| is_id_char(c));
    if kept.len() == 0 {
        None
    } else {
        Some(kept)
    }
}

/// Cleans a template identifier for use as a file name.
pub fn sanitize_template_id(raw: &str) -> (r: Option<String>)
    ensures
        opt_view(r) == template_id_of(raw@),
{
    let t = trim_to_string(raw);
    let v = chars_of(t.as_str());
    let ghost keep = |c: char| is_id_char(c);
    let mut out = String::new();
    let mut i: usize = 0;
    while i < v.len()
        invariant
            v@ == t@,
            i <= v@.len(),
            keep == (|c: char| is_id_char(c)),
            out@ == v@.take(i as int).filter(keep),
        decreases v@.len() - i,
    {
        let c = v[i];
        proof {
            reveal(Seq::filter);
            assert(v@.take(i + 1).drop_last() =~= v@.take(i as int));
            assert(v@.take(i + 1).last() == c);
        }
        if ('a' <= c && c <= 'z') || ('A' <= c && c <= 'Z') || ('0' <= c && c <= '9') || c == '_' || c == '-' {
            push_char(&mut out, c);
        }
        i = i + 1;
    }
    assert(v@.take(i as int) =~= v@);
    if out.as_str().unicode_len() == 0 {
        None
    } else {
        Some(out)
    }
}

/// Where the template with identifier `id` is stored in a workspace.
pub open spec fn template_path(p: Platform, workspace_path: Seq<char>, id: Seq<char>) -> Seq<char> {
    join(p, join(p, join(p, workspace_path, ".openwork"@), "templates"@), id + ".json"@)
}

/// The file of the template named `template_id`, when the identifier keeps
/// any character once cleaned.
pub fn template_file_path(p: Platform, workspace_path: &str, template_id: &str) -> (r: Option<String>)
    ensures
        match template_id_of(template_id@) {
            Some(id) => r is Some && r->0@ == template_path(p, workspace_path@, id),
            None => r is None,
        },
{
    match sanitize_template_id(template_id) {
        None => None,
        Some(id) => {
            let dir = join_path(p, workspace_path, ".openwork");
            let templates = join_path(p, dir.as_str(), "templates");
            let file = id.concat(".json");
            Some(join_path(p, templates.as_str(), file.as_str()))
        },
    }
}

/// The plugins that a workspace preset needs.
pub open spec fn preset_plugins(preset: Seq<char>) -> Seq<Seq<char>> {
    if preset == "starter"@ || preset == "automation"@ {
        seq!["opencode-scheduler"@]
    } else {
        Seq::empty()
    }
}

/// The plugins that a workspace preset needs.
pub fn required_plugins(preset: &str) -> (r: Vec<String>)
    ensures
        views(r@) == preset_plugins(preset@),
{
    let mut out: Vec<String> = Vec::new();
    if same_text(preset, "starter") || same_text(preset, "automation") {
        out.push(String::from_str("opencode-scheduler"));
    }
    assert(views(out@) =~= preset_plugins(preset@));
    out
}

} // verus!
