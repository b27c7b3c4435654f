//! Resetting caches and state, and reading the bot's pairing-code reply.
use vstd::prelude::*;
use crate::platform::{Platform, join, join_path};
use crate::text::{opt_str_view, opt_view, same_text, trim_to_string, trimmed, views};

verus! {

/// What a cache reset did, path by path.
pub struct CacheResetResult {
    pub removed: Vec<String>,
    pub missing: Vec<String>,
    pub errors: Vec<String>,
}

/// A directory variable's value, trimmed, when it is set and not blank.
pub open spec fn set_dir(v: Option<Seq<char>>) -> Option<Seq<char>> {
    match v {
        Some(x) => if trimmed(x).len() > 0 {
            Some(trimmed(x))
        } else {
            None
        },
        None => None,
    }
}

pub open spec fn as_list(o: Option<Seq<char>>) -> Seq<Seq<char>> {
    match o {
        Some(x) => seq![x],
        None => Seq::empty(),
    }
}

/// The engine's cache directories in order of preference, before duplicates
/// are dropped.
pub open spec fn cache_dirs_listed(
    p: Platform,
    xdg_cache_home: Option<Seq<char>>,
    home: Option<Seq<char>>,
    local_app_data: Option<Seq<char>>,
    app_data: Option<Seq<char>>,
) -> Seq<Seq<char>> {
    let xdg = match set_dir(xdg_cache_home) {
        Some(d) => seq![join(p, d, "opencode"@)],
        None => Seq::empty(),
    };
    let under_home = match home {
        Some(h) => {
            let common = seq![join(p, join(p, h, ".cache"@), "opencode"@)];
            if p is MacOs {
                common.push(join(p, join(p, join(p, h, "Library"@), "Caches"@), "opencode"@))
            } else {
                common
            }
        },
        None => Seq::empty(),
    };
    let windows = if p is Windows {
        let local = match set_dir(local_app_data) {
            Some(d) => seq![join(p, d, "opencode"@)],
            None => Seq::empty(),
        };
        let roaming = match set_dir(app_data) {
            Some(d) => seq![join(p, d, "opencode"@)],
            None => Seq::empty(),
        };
        local + roaming
    } else {
        Seq::empty()
    };
    xdg + under_home + windows
}

/// `s` with every repeated entry after its first occurrence dropped.
pub open spec fn first_occurrences(s: Seq<Seq<char>>) -> Seq<Seq<char>>
    decreases s.len(),
{
    if s.len() == 0 {
        s
    } else {
        let d = first_occurrences(s.drop_last());
        if d.contains(s.last()) {
            d
        } else {
            d.push(s.last())
        }
    }
}

fn trimmed_dir(v: Option<&str>) -> (r: Option<String>)
    ensures
        match r {
            Some(s) => set_dir(opt_str_view(v)) == Some(s@),
            None => set_dir(opt_str_view(v)) is None,
        },
{
    match v {
        Some(x) => {
            let t = trim_to_string(x);
            if t.as_str().unicode_len() > 0 {
                Some(t)
            } else {
                None
            }
        },
        None => None,
    }
}

fn holds(v: &Vec<String>, s: &String) -> (r: bool)
    ensures
        r == views(v@).contains(s@),
{
    let mut k: usize = 0;
    while k < v.len()
        invariant
            k <= v@.len(),
            forall|j: int| 0 <= j < k ==> v@[j]@ != s@,
        decreases v@.len() - k,
    {
        if same_text(v[k].as_str(), s.as_str()) {
            assert(views(v@)[k as int] == s@);
            return true;
        }
        k = k + 1;
    }
    assert forall|j: int| 0 <= j < views(v@).len() implies views(v@)[j] != s@ by {
        assert(v@[j]@ != s@);
    }
    false
}

/// The engine's cache directories, most preferred first, each listed once.
pub fn opencode_cache_candidates(
    p: Platform,
    xdg_cache_home: Option<&str>,
    home: Option<&str>,
    local_app_data: Option<&str>,
    app_data: Option<&str>,
) -> (r: Vec<String>)
    ensures
        views(r@) == first_occurrences(
            cache_dirs_listed(p, opt_str_view(xdg_cache_home), opt_str_view(home), opt_str_view(local_app_data), opt_str_view(app_data)),
        ),
{
    let mut listed: Vec<String> = Vec::new();
    if let Some(d) = trimmed_dir(xdg_cache_home) {
        listed.push(join_path(p, d.as_str(), "opencode"));
    }
    if let Some(h) = home {
        let cache = join_path(p, h, ".cache");
        listed.push(join_path(p, cache.as_str(), "opencode"));
        if p == Platform::MacOs {
            let library = join_path(p, h, "Library");
            let caches = join_path(p, library.as_str(), "Caches");
            listed.push(join_path(p, caches.as_str(), "opencode"));
        }
    }
    if p == Platform::Windows {
        if let Some(d) = trimmed_dir(local_app_data) {
            listed.push(join_path(p, d.as_str(), "opencode"));
        }
        if let Some(d) = trimmed_dir(app_data) {
            listed.push(join_path(p, d.as_str(), "opencode"));
        }
    }
    let ghost all = cache_dirs_listed(p, opt_str_view(xdg_cache_home), opt_str_view(home), opt_str_view(local_app_data), opt_str_view(app_data));
    assert(views(listed@) =~= all);
    let mut out: Vec<String> = Vec::new();
    let mut i: usize = 0;
    while i < listed.len()
        invariant
            i <= listed@.len(),
            views(listed@) == all,
            views(out@) == first_occurrences(all.take(i as int)),
        decreases listed@.len() - i,
    {
        let ghost before = views(out@);
        assert(all.take(i + 1).drop_last() =~= all.take(i as int));
        assert(all.take(i + 1).last() == listed@[i as int]@);
        if !holds(&out, &listed[i]) {
            out.push(listed[i].clone());
            assert(views(out@) =~= before.push(listed@[i as int]@));
        }
        i = i + 1;
    }
    assert(all.take(i as int) =~= all);
    out
}

/// How much of the host's state a reset removes.
#[derive(Clone, Copy, Debug, PartialEq, Eq, Structural)]
pub enum ResetMode {
    /// The cache only, so onboarding runs again.
    Onboarding,
    /// The cache and all stored data.
    All,
}

/// The reset mode named by `mode`, after trimming.
pub open spec fn reset_mode_of(mode: Seq<char>) -> Result<ResetMode, Seq<char>> {
    let t = trimmed(mode);
    if t == "onboarding"@ {
        Ok(ResetMode::Onboarding)
    } else if t == "all"@ {
        Ok(ResetMode::All)
    } else {
        Err("mode must be 'onboarding' or 'all'"@)
    }
}

/// Reads the mode of a state reset.
pub fn parse_reset_mode(mode: &str) -> (r: Result<ResetMode, String>)
    ensures
        match r {
            Ok(m) => reset_mode_of(mode@) == Ok::<ResetMode, Seq<char>>(m),
            Err(e) => reset_mode_of(mode@) == Err::<ResetMode, Seq<char>>(e@),
        },
{
    let t = trim_to_string(mode);
    if same_text(t.as_str(), "onboarding") {
        Ok(ResetMode::Onboarding)
    } else if same_text(t.as_str(), "all") {
        Ok(ResetMode::All)
    } else {
        Err(String::from_str("mode must be 'onboarding' or 'all'"))
    }
}

/// The outcome of a pairing-code request: the reply's error when it has one,
/// else its code, else a complaint that none came.
pub open spec fn qr_outcome_of(qr: Option<Seq<char>>, error: Option<Seq<char>>) -> Result<Seq<char>, Seq<char>> {
    match error {
        Some(e) => Err(e),
        None => match qr {
            Some(q) => Ok(q),
            None => Err("No QR code returned"@),
        },
    }
}

/// Reads the bot's reply to a pairing-code request.
pub fn qr_outcome(qr: Option<String>, error: Option<String>) -> (r: Result<String, String>)
    ensures
        match r {
            Ok(q) => qr_outcome_of(opt_view(qr), opt_view(error)) == Ok::<Seq<char>, Seq<char>>(q@),
            Err(e) => qr_outcome_of(opt_view(qr), opt_view(error)) == Err::<Seq<char>, Seq<char>>(e@),
        },
{
    match error {
        Some(e) => Err(e),
        None => match qr {
            Some(q) => Ok(q),
            None => Err(String::from_str("No QR code returned")),
        },
    }
}

} // verus!
