//! Candidate data and configuration directories under the home directory.
use vstd::prelude::*;
use crate::discovery::{PathProbe, probed_file};
use crate::discovery::probe_is_file;
use crate::platform::{Platform, join, join_path};
use crate::text::{opt_str_view, opt_view, trim_to_string, trimmed, views};

verus! {

/// Where data directories may sit under `home`, most preferred first.
pub open spec fn xdg_data_dirs(p: Platform, home: Option<Seq<char>>) -> Seq<Seq<char>> {
    match home {
        None => Seq::empty(),
        Some(h) => {
            let common = seq![join(p, join(p, h, ".local"@), "share"@), join(p, h, ".config"@)];
            if p is MacOs {
                common.push(join(p, h, "Library/Application Support"@))
            } else {
                common
            }
        },
    }
}

/// Where configuration directories may sit under `home`, most preferred first.
pub open spec fn xdg_config_dirs(p: Platform, home: Option<Seq<char>>) -> Seq<Seq<char>> {
    match home {
        None => Seq::empty(),
        Some(h) => {
            let common = seq![join(p, h, ".config"@)];
            if p is MacOs {
                common.push(join(p, h, "Library/Application Support"@))
            } else {
                common
            }
        },
    }
}

/// Candidate data directories; none without a home directory.
pub fn candidate_xdg_data_dirs(p: Platform, home: Option<&str>) -> (r: Vec<String>)
    ensures
        views(r@) == xdg_data_dirs(p, opt_str_view(home)),
{
    let mut out: Vec<String> = Vec::new();
    if let Some(h) = home {
        let local = join_path(p, h, ".local");
        out.push(join_path(p, local.as_str(), "share"));
        out.push(join_path(p, h, ".config"));
        if p == Platform::MacOs {
            out.push(join_path(p, h, "Library/Application Support"));
        }
    }
    assert(views(out@) =~= xdg_data_dirs(p, opt_str_view(home)));
    out
}

/// Candidate configuration directories; none without a home directory.
pub fn candidate_xdg_config_dirs(p: Platform, home: Option<&str>) -> (r: Vec<String>)
    ensures
        views(r@) == xdg_config_dirs(p, opt_str_view(home)),
{
    let mut out: Vec<String> = Vec::new();
    if let Some(h) = home {
        out.push(join_path(p, h, ".config"));
        if p == Platform::MacOs {
            out.push(join_path(p, h, "Library/Application Support"));
        }
    }
    assert(views(out@) =~= xdg_config_dirs(p, opt_str_view(home)));
    out
}

/// Index of the first base at or after `i` under which `marker` probes as a
/// regular file, or `bases.len()`.
pub open spec fn first_marked(
    p: Platform,
    bases: Seq<Seq<char>>,
    marker: Seq<char>,
    probes: Seq<PathProbe>,
    i: int,
) -> int
    decreases bases.len() - i,
{
    if i < 0 || i >= bases.len() {
        bases.len() as int
    } else if probed_file(probes, join(p, bases[i], marker)) {
        i
    } else {
        first_marked(p, bases, marker, probes, i + 1)
    }
}

/// The inferred value of an XDG variable: nothing when the variable is already
/// set to a non-blank value, else the first candidate base that holds
/// `marker`.
pub open spec fn inferred_xdg_home(
    p: Platform,
    current: Option<Seq<char>>,
    bases: Seq<Seq<char>>,
    marker: Seq<char>,
    probes: Seq<PathProbe>,
) -> Option<Seq<char>> {
    let set = match current {
        Some(v) => trimmed(v).len() > 0,
        None => false,
    };
    let k = first_marked(p, bases, marker, probes, 0);
    if set || k >= bases.len() {
        None
    } else {
        Some(bases[k])
    }
}

/// Infers a value for an unset XDG variable from the first candidate base that
/// holds `relative_marker`.
pub fn maybe_infer_xdg_home(
    p: Platform,
    current: Option<&str>,
    candidates: &Vec<String>,
    relative_marker: &str,
    probes: &Vec<PathProbe>,
) -> (r: Option<String>)
    ensures
        opt_view(r) == inferred_xdg_home(p, opt_str_view(current), views(candidates@), relative_marker@, probes@),
{
    if let Some(v) = current {
        let t = trim_to_string(v);
        if t.as_str().unicode_len() > 0 {
            return None;
        }
    }
    let ghost bases = views(candidates@);
    let mut i: usize = 0;
    while i < candidates.len()
        invariant
            i <= candidates@.len(),
            bases == views(candidates@),
            !(match current {
                Some(v) => trimmed(v@).len() > 0,
                None => false,
            }),
            first_marked(p, bases, relative_marker@, probes@, 0) == first_marked(
                p,
                bases,
                relative_marker@,
                probes@,
                i as int,
            ),
        decreases candidates@.len() - i,
    {
        let marked = join_path(p, candidates[i].as_str(), relative_marker);
        assert(bases[i as int] == candidates@[i as int]@);
        if probe_is_file(probes, &marked) {
            assert(first_marked(p, bases, relative_marker@, probes@, i as int) == i);
            return Some(candidates[i].clone());
        }
        i = i + 1;
    }
    None
}

} // verus!
