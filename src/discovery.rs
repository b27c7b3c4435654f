//! Locating the engine executable: a bundled copy, an override variable, the
//! directories of PATH, then well-known install locations, in that order.
//!
//! Discovery reads the disk only through a table of probes that the caller
//! fills for the paths of `engine_probe_paths`; a path without a probe counts
//! as absent.
use vstd::prelude::*;
use crate::platform::{Platform, join, join_path};
use crate::text::{concat_str, clone_opt, opt_str_view, opt_view, trim_to_string, trimmed, views};

verus! {

/// What a look at one path on disk found.
pub struct PathProbe {
    /// The path that was examined.
    pub path: String,
    /// Whether the path names a regular file.
    pub is_file: bool,
    /// The path with its symbolic links resolved, when that names a regular file.
    pub resolved: Option<String>,
}

/// The environment values that discovery reads.
pub struct EngineEnv {
    /// The explicit override variable, as set.
    pub bin_path_override: Option<String>,
    /// The directories of PATH, in listed order.
    pub path_dirs: Vec<String>,
    /// The user's home directory.
    pub home: Option<String>,
    /// The roaming application-data directory (Windows).
    pub app_data: Option<String>,
    /// The local application-data directory (Windows).
    pub local_app_data: Option<String>,
}

/// Index of the first probe of `p` at or after `i`, or `probes.len()`.
pub open spec fn probe_index(probes: Seq<PathProbe>, p: Seq<char>, i: int) -> int
    decreases probes.len() - i,
{
    if i >= probes.len() {
        probes.len() as int
    } else if probes[i].path@ == p {
        i
    } else {
        probe_index(probes, p, i + 1)
    }
}

/// Whether the probes report `p` as a regular file.
pub open spec fn probed_file(probes: Seq<PathProbe>, p: Seq<char>) -> bool {
    let k = probe_index(probes, p, 0);
    0 <= k < probes.len() && probes[k].is_file
}

/// The resolved form of `p` that the probes report, when it names a regular file.
pub open spec fn probed_resolved(probes: Seq<PathProbe>, p: Seq<char>) -> Option<Seq<char>> {
    let k = probe_index(probes, p, 0);
    if 0 <= k < probes.len() {
        opt_view(probes[k].resolved)
    } else {
        None
    }
}

proof fn lemma_probe_index_bounds(probes: Seq<PathProbe>, p: Seq<char>, i: int)
    requires
        0 <= i <= probes.len(),
    ensures
        i <= probe_index(probes, p, i) <= probes.len(),
        probe_index(probes, p, i) < probes.len() ==> probes[probe_index(probes, p, i)].path@ == p,
    decreases probes.len() - i,
{
    if i < probes.len() && probes[i].path@ != p {
        lemma_probe_index_bounds(probes, p, i + 1);
    }
}

/// The position of the first probe of `p`.
fn find_probe(probes: &Vec<PathProbe>, p: &String) -> (r: usize)
    ensures
        r as int == probe_index(probes@, p@, 0),
        r <= probes@.len(),
{
    proof {
        lemma_probe_index_bounds(probes@, p@, 0);
    }
    let mut k: usize = 0;
    while k < probes.len() && !(probes[k].path == *p)
        invariant
            k <= probes@.len(),
            probe_index(probes@, p@, 0) == probe_index(probes@, p@, k as int),
        decreases probes@.len() - k,
    {
        k = k + 1;
    }
    k
}

/// Whether `p` was found to be a regular file.
pub fn probe_is_file(probes: &Vec<PathProbe>, p: &String) -> (r: bool)
    ensures
        r == probed_file(probes@, p@),
{
    let k = find_probe(probes, p);
    k < probes.len() && probes[k].is_file
}

/// The canonical form of `candidate` when it names a regular file; a candidate
/// that does not resolve is passed over, not reported as a fault.
pub fn resolve_executable_candidate(probes: &Vec<PathProbe>, candidate: &String) -> (r: Option<String>)
    ensures
        opt_view(r) == probed_resolved(probes@, candidate@),
{
    let k = find_probe(probes, candidate);
    if k < probes.len() {
        clone_opt(&probes[k].resolved)
    } else {
        None
    }
}

/// The engine's executable file name on `p`.
pub open spec fn exe_name(p: Platform) -> Seq<char> {
    if p is Windows {
        "opencode.exe"@
    } else {
        "opencode"@
    }
}

/// The name of the engine's command shim on Windows.
pub open spec fn cmd_name() -> Seq<char> {
    "opencode.cmd"@
}

/// The engine's executable file name on `p`.
pub fn opencode_executable_name(p: Platform) -> (r: &'static str)
    ensures
        r@ == exe_name(p),
{
    if p == Platform::Windows {
        "opencode.exe"
    } else {
        "opencode"
    }
}

/// The places a bundled copy may sit, most preferred first: beside the running
/// executable, under the resource directory's `sidecars`, in the resource
/// directory itself, and in the development tree.
pub open spec fn sidecar_candidates(
    p: Platform,
    resource_dir: Option<Seq<char>>,
    bin_dir: Option<Seq<char>>,
) -> Seq<Seq<char>> {
    let n = exe_name(p);
    let from_bin = match bin_dir {
        Some(b) => seq![join(p, b, n)],
        None => Seq::empty(),
    };
    let from_resources = match resource_dir {
        Some(r) => seq![join(p, join(p, r, "sidecars"@), n), join(p, r, n)],
        None => Seq::empty(),
    };
    from_bin + from_resources + seq![join(p, "src-tauri/sidecars"@, n)]
}

/// The places a bundled copy may sit, most preferred first.
pub fn sidecar_candidate_paths(p: Platform, resource_dir: Option<&str>, current_bin_dir: Option<&str>) -> (r: Vec<String>)
    ensures
        views(r@) == sidecar_candidates(p, opt_str_view(resource_dir), opt_str_view(current_bin_dir)),
{
    let name = opencode_executable_name(p);
    let mut out: Vec<String> = Vec::new();
    if let Some(b) = current_bin_dir {
        out.push(join_path(p, b, name));
    }
    if let Some(r) = resource_dir {
        let sidecars = join_path(p, r, "sidecars");
        out.push(join_path(p, sidecars.as_str(), name));
        out.push(join_path(p, r, name));
    }
    out.push(join_path(p, "src-tauri/sidecars", name));
    assert(views(out@) =~= sidecar_candidates(p, opt_str_view(resource_dir), opt_str_view(current_bin_dir)));
    out
}

/// Index of the first candidate at or after `i` that probes as a regular file,
/// or `cands.len()`.
pub open spec fn first_file(cands: Seq<Seq<char>>, probes: Seq<PathProbe>, i: int) -> int
    decreases cands.len() - i,
{
    if i >= cands.len() {
        cands.len() as int
    } else if probed_file(probes, cands[i]) {
        i
    } else {
        first_file(cands, probes, i + 1)
    }
}

proof fn lemma_first_file_bounds(cands: Seq<Seq<char>>, probes: Seq<PathProbe>, i: int)
    requires
        0 <= i <= cands.len(),
    ensures
        i <= first_file(cands, probes, i) <= cands.len(),
        first_file(cands, probes, i) < cands.len() ==> probed_file(probes, cands[first_file(cands, probes, i)]),
        forall|j: int| i <= j < first_file(cands, probes, i) ==> !probed_file(probes, #[trigger] cands[j]),
    decreases cands.len() - i,
{
    if i < cands.len() && !probed_file(probes, cands[i]) {
        lemma_first_file_bounds(cands, probes, i + 1);
    }
}

/// One note for each bundled location that held nothing.
pub open spec fn sidecar_missing_notes(cands: Seq<Seq<char>>) -> Seq<Seq<char>> {
    cands.map_values(|c: Seq<char>| "Sidecar missing: "@ + c)
}

/// The bundled copy chosen, with the notes of the search; nothing is searched
/// unless bundled copies are preferred.
pub open spec fn sidecar_resolution(
    prefer_sidecar: bool,
    p: Platform,
    resource_dir: Option<Seq<char>>,
    bin_dir: Option<Seq<char>>,
    probes: Seq<PathProbe>,
) -> (Option<Seq<char>>, Seq<Seq<char>>) {
    if !prefer_sidecar {
        (None, Seq::empty())
    } else {
        let cands = sidecar_candidates(p, resource_dir, bin_dir);
        let h = first_file(cands, probes, 0);
        if h < cands.len() {
            (Some(cands[h]), sidecar_missing_notes(cands.take(h)).push("Using bundled sidecar: "@ + cands[h]))
        } else {
            (None, sidecar_missing_notes(cands))
        }
    }
}

/// Looks for a bundled copy of the engine, when preferred: the first candidate
/// location that holds a regular file wins.
pub fn resolve_sidecar_candidate(
    prefer_sidecar: bool,
    p: Platform,
    resource_dir: Option<&str>,
    current_bin_dir: Option<&str>,
    probes: &Vec<PathProbe>,
) -> (r: (Option<String>, Vec<String>))
    ensures
        (opt_view(r.0), views(r.1@)) == sidecar_resolution(
            prefer_sidecar,
            p,
            opt_str_view(resource_dir),
            opt_str_view(current_bin_dir),
            probes@,
        ),
{
    let mut notes: Vec<String> = Vec::new();
    if !prefer_sidecar {
        assert(views(notes@) =~= Seq::<Seq<char>>::empty());
        return (None, notes);
    }
    let candidates = sidecar_candidate_paths(p, resource_dir, current_bin_dir);
    let ghost cands = views(candidates@);
    proof {
        lemma_first_file_bounds(cands, probes@, 0);
    }
    let mut i: usize = 0;
    while i < candidates.len()
        invariant
            i <= candidates@.len(),
            cands == views(candidates@),
            cands == sidecar_candidates(p, opt_str_view(resource_dir), opt_str_view(current_bin_dir)),
            prefer_sidecar,
            cands.len() == candidates@.len(),
            first_file(cands, probes@, 0) == first_file(cands, probes@, i as int),
            views(notes@) == sidecar_missing_notes(cands.take(i as int)),
        decreases candidates@.len() - i,
    {
        let c = &candidates[i];
        assert(cands[i as int] == c@);
        let ghost prev = notes@;
        if probe_is_file(probes, c) {
            let note = concat_str("Using bundled sidecar: ", c.as_str());
            notes.push(note);
            proof {
                assert(views(notes@) =~= views(prev).push(note@));
                assert(first_file(cands, probes@, i as int) == i);
            }
            let found = c.clone();
            assert(found@ == cands[i as int]);
            return (Some(found), notes);
        }
        let note = concat_str("Sidecar missing: ", c.as_str());
        notes.push(note);
        i = i + 1;
        proof {
            assert(views(notes@) =~= views(prev).push(note@));
            assert(cands.take(i as int) =~= cands.take(i - 1).push(cands[i - 1]));
            assert(sidecar_missing_notes(cands.take(i as int)) =~= sidecar_missing_notes(cands.take(i - 1)).push(
                "Sidecar missing: "@ + cands[i - 1],
            ));
        }
    }
    assert(cands.take(i as int) =~= cands);
    (None, notes)
}

/// Well-known install locations, most preferred first: the engine's own install
/// under the home directory, then the package-manager directories of `p`.
pub open spec fn well_known_paths(
    p: Platform,
    home: Option<Seq<char>>,
    app_data: Option<Seq<char>>,
    local_app_data: Option<Seq<char>>,
) -> Seq<Seq<char>> {
    let n = exe_name(p);
    let c = cmd_name();
    let own = match home {
        Some(h) => seq![join(p, join(p, join(p, h, ".opencode"@), "bin"@), n)],
        None => Seq::empty(),
    };
    if p is Windows {
        let roaming = match app_data {
            Some(a) => seq![join(p, join(p, a, "npm"@), n), join(p, join(p, a, "npm"@), c)],
            None => Seq::empty(),
        };
        let local = match local_app_data {
            Some(l) => seq![
                join(p, join(p, l, "npm"@), n),
                join(p, join(p, l, "npm"@), c),
                join(p, join(p, l, "OpenCode"@), n),
            ],
            None => Seq::empty(),
        };
        let scoop = match home {
            Some(h) => seq![
                join(p, join(p, join(p, h, "scoop"@), "shims"@), n),
                join(p, join(p, join(p, h, "scoop"@), "shims"@), c),
            ],
            None => Seq::empty(),
        };
        let choco = seq![
            join(p, "C:\\ProgramData\\chocolatey\\bin"@, n),
            join(p, "C:\\ProgramData\\chocolatey\\bin"@, c),
        ];
        own + roaming + local + scoop + choco
    } else {
        own + seq![
            join(p, "/opt/homebrew/bin"@, n),
            join(p, "/usr/local/bin"@, n),
            join(p, "/usr/bin"@, n),
            join(p, "/usr/local/bin"@, n),
        ]
    }
}

/// Well-known install locations of the engine, most preferred first.
pub fn candidate_opencode_paths(p: Platform, env: &EngineEnv) -> (r: Vec<String>)
    ensures
        views(r@) == well_known_paths(p, opt_view(env.home), opt_view(env.app_data), opt_view(env.local_app_data)),
{
    let n = opencode_executable_name(p);
    let mut out: Vec<String> = Vec::new();
    if let Some(h) = &env.home {
        let base = join_path(p, h.as_str(), ".opencode");
        let bin = join_path(p, base.as_str(), "bin");
        out.push(join_path(p, bin.as_str(), n));
    }
    if p == Platform::Windows {
        let c = "opencode.cmd";
        if let Some(a) = &env.app_data {
            let npm = join_path(p, a.as_str(), "npm");
            out.push(join_path(p, npm.as_str(), n));
            out.push(join_path(p, npm.as_str(), c));
        }
        if let Some(l) = &env.local_app_data {
            let npm = join_path(p, l.as_str(), "npm");
            out.push(join_path(p, npm.as_str(), n));
            out.push(join_path(p, npm.as_str(), c));
            let own = join_path(p, l.as_str(), "OpenCode");
            out.push(join_path(p, own.as_str(), n));
        }
        if let Some(h) = &env.home {
            let scoop = join_path(p, h.as_str(), "scoop");
            let shims = join_path(p, scoop.as_str(), "shims");
            out.push(join_path(p, shims.as_str(), n));
            out.push(join_path(p, shims.as_str(), c));
        }
        out.push(join_path(p, "C:\\ProgramData\\chocolatey\\bin", n));
        out.push(join_path(p, "C:\\ProgramData\\chocolatey\\bin", c));
    } else {
        out.push(join_path(p, "/opt/homebrew/bin", n));
        out.push(join_path(p, "/usr/local/bin", n));
        out.push(join_path(p, "/usr/bin", n));
        out.push(join_path(p, "/usr/local/bin", n));
    }
    assert(views(out@) =~= well_known_paths(
        p,
        opt_view(env.home),
        opt_view(env.app_data),
        opt_view(env.local_app_data),
    ));
    out
}

/// The first `dirs[j]/name`, for `j` at or after `i`, that probes as a regular file.
pub open spec fn path_hit(
    p: Platform,
    dirs: Seq<Seq<char>>,
    name: Seq<char>,
    probes: Seq<PathProbe>,
    i: int,
) -> Option<Seq<char>>
    decreases dirs.len() - i,
{
    if i < 0 || i >= dirs.len() {
        None
    } else if probed_file(probes, join(p, dirs[i], name)) {
        Some(join(p, dirs[i], name))
    } else {
        path_hit(p, dirs, name, probes, i + 1)
    }
}

/// Searches the directories of PATH in listed order for `name`; the first
/// directory that holds it as a regular file wins.
pub fn resolve_in_path(p: Platform, dirs: &Vec<String>, name: &str, probes: &Vec<PathProbe>) -> (r: Option<String>)
    ensures
        opt_view(r) == path_hit(p, views(dirs@), name@, probes@, 0),
{
    let ghost ds = views(dirs@);
    let mut i: usize = 0;
    while i < dirs.len()
        invariant
            i <= dirs@.len(),
            ds == views(dirs@),
            path_hit(p, ds, name@, probes@, 0) == path_hit(p, ds, name@, probes@, i as int),
        decreases dirs@.len() - i,
    {
        let candidate = join_path(p, dirs[i].as_str(), name);
        assert(ds[i as int] == dirs@[i as int]@);
        if probe_is_file(probes, &candidate) {
            return Some(candidate);
        }
        i = i + 1;
    }
    None
}

/// The override value, trimmed, when it is set and not blank.
pub open spec fn override_candidate(raw: Option<Seq<char>>) -> Option<Seq<char>> {
    match raw {
        Some(v) => if trimmed(v).len() > 0 {
            Some(trimmed(v))
        } else {
            None
        },
        None => None,
    }
}

/// The path named by the override variable, trimmed, when it is set and not blank.
pub fn override_path(env: &EngineEnv) -> (r: Option<String>)
    ensures
        opt_view(r) == override_candidate(opt_view(env.bin_path_override)),
{
    match &env.bin_path_override {
        Some(raw) => {
            let t = trim_to_string(raw.as_str());
            if t.as_str().unicode_len() > 0 {
                Some(t)
            } else {
                None
            }
        },
        None => None,
    }
}

/// The outcome of one discovery stage: the executable found, and the notes written.
pub type StageOutcome = (Option<Seq<char>>, Seq<Seq<char>>);

/// The override stage: the override path wins when it resolves to a regular file.
pub open spec fn override_stage(raw: Option<Seq<char>>, probes: Seq<PathProbe>) -> StageOutcome {
    match override_candidate(raw) {
        None => (None, Seq::empty()),
        Some(c) => match probed_resolved(probes, c) {
            Some(r) => (Some(r), seq!["Using OPENCODE_BIN_PATH: "@ + r]),
            None => (None, seq!["OPENCODE_BIN_PATH set but missing: "@ + c]),
        },
    }
}

/// A PATH stage for one file name: the first PATH hit wins when it resolves.
pub open spec fn path_stage(
    p: Platform,
    dirs: Seq<Seq<char>>,
    name: Seq<char>,
    probes: Seq<PathProbe>,
) -> StageOutcome {
    match path_hit(p, dirs, name, probes, 0) {
        None => (None, Seq::empty()),
        Some(c) => match probed_resolved(probes, c) {
            Some(r) => (Some(r), seq!["Found in PATH: "@ + r]),
            None => (None, seq!["Found in PATH but missing: "@ + c]),
        },
    }
}

/// Index of the first candidate at or after `i` that resolves to a regular file,
/// or `cands.len()`.
pub open spec fn first_resolved(cands: Seq<Seq<char>>, probes: Seq<PathProbe>, i: int) -> int
    decreases cands.len() - i,
{
    if i >= cands.len() {
        cands.len() as int
    } else if probed_resolved(probes, cands[i]) is Some {
        i
    } else {
        first_resolved(cands, probes, i + 1)
    }
}

/// One note for each well-known location that held nothing.
pub open spec fn missing_notes(cands: Seq<Seq<char>>) -> Seq<Seq<char>> {
    cands.map_values(|c: Seq<char>| "Missing: "@ + c)
}

/// The well-known stage: the first location that resolves wins.
pub open spec fn well_known_stage(cands: Seq<Seq<char>>, probes: Seq<PathProbe>) -> StageOutcome {
    let h = first_resolved(cands, probes, 0);
    if 0 <= h < cands.len() {
        let r = probed_resolved(probes, cands[h])->0;
        (Some(r), missing_notes(cands.take(h)).push("Found at "@ + r))
    } else {
        (None, missing_notes(cands))
    }
}

/// The engine found without a bundled copy: the executable, whether it came
/// from PATH, and the notes of every stage tried.
pub open spec fn opencode_resolution(p: Platform, env: EngineEnv, probes: Seq<PathProbe>) -> (
    Option<Seq<char>>,
    bool,
    Seq<Seq<char>>,
) {
    let o = override_stage(opt_view(env.bin_path_override), probes);
    let dirs = views(env.path_dirs@);
    let a = path_stage(p, dirs, exe_name(p), probes);
    let b = if p is Windows {
        path_stage(p, dirs, cmd_name(), probes)
    } else {
        (None, Seq::empty())
    };
    let cands = well_known_paths(p, opt_view(env.home), opt_view(env.app_data), opt_view(env.local_app_data));
    let w = well_known_stage(cands, probes);
    if o.0 is Some {
        (o.0, false, o.1)
    } else if a.0 is Some {
        (a.0, true, o.1 + a.1)
    } else if b.0 is Some {
        (b.0, true, o.1 + a.1 + b.1)
    } else {
        (w.0, false, o.1 + a.1 + b.1 + seq!["Not found on PATH"@] + w.1)
    }
}

/// The override stage.
fn try_override(env: &EngineEnv, probes: &Vec<PathProbe>) -> (r: (Option<String>, Vec<String>))
    ensures
        (opt_view(r.0), views(r.1@)) == override_stage(opt_view(env.bin_path_override), probes@),
{
    let mut notes: Vec<String> = Vec::new();
    match override_path(env) {
        None => {
            assert(views(notes@) =~= Seq::<Seq<char>>::empty());
            (None, notes)
        },
        Some(candidate) => match resolve_executable_candidate(probes, &candidate) {
            Some(resolved) => {
                notes.push(concat_str("Using OPENCODE_BIN_PATH: ", resolved.as_str()));
                assert(views(notes@) =~= seq!["Using OPENCODE_BIN_PATH: "@ + resolved@]);
                (Some(resolved), notes)
            },
            None => {
                notes.push(concat_str("OPENCODE_BIN_PATH set but missing: ", candidate.as_str()));
                assert(views(notes@) =~= seq!["OPENCODE_BIN_PATH set but missing: "@ + candidate@]);
                (None, notes)
            },
        },
    }
}

/// A PATH stage for the file name `name`.
fn try_path(p: Platform, dirs: &Vec<String>, name: &str, probes: &Vec<PathProbe>) -> (r: (Option<String>, Vec<String>))
    ensures
        (opt_view(r.0), views(r.1@)) == path_stage(p, views(dirs@), name@, probes@),
{
    let mut notes: Vec<String> = Vec::new();
    match resolve_in_path(p, dirs, name, probes) {
        None => {
            assert(views(notes@) =~= Seq::<Seq<char>>::empty());
            (None, notes)
        },
        Some(hit) => match resolve_executable_candidate(probes, &hit) {
            Some(resolved) => {
                notes.push(concat_str("Found in PATH: ", resolved.as_str()));
                assert(views(notes@) =~= seq!["Found in PATH: "@ + resolved@]);
                (Some(resolved), notes)
            },
            None => {
                notes.push(concat_str("Found in PATH but missing: ", hit.as_str()));
                assert(views(notes@) =~= seq!["Found in PATH but missing: "@ + hit@]);
                (None, notes)
            },
        },
    }
}

proof fn lemma_first_resolved_bounds(cands: Seq<Seq<char>>, probes: Seq<PathProbe>, i: int)
    requires
        0 <= i <= cands.len(),
    ensures
        i <= first_resolved(cands, probes, i) <= cands.len(),
    decreases cands.len() - i,
{
    if i < cands.len() && !(probed_resolved(probes, cands[i]) is Some) {
        lemma_first_resolved_bounds(cands, probes, i + 1);
    }
}

/// The well-known stage.
fn try_well_known(p: Platform, env: &EngineEnv, probes: &Vec<PathProbe>) -> (r: (Option<String>, Vec<String>))
    ensures
        (opt_view(r.0), views(r.1@)) == well_known_stage(
            well_known_paths(p, opt_view(env.home), opt_view(env.app_data), opt_view(env.local_app_data)),
            probes@,
        ),
{
    let candidates = candidate_opencode_paths(p, env);
    let ghost cands = views(candidates@);
    proof {
        lemma_first_resolved_bounds(cands, probes@, 0);
    }
    let mut notes: Vec<String> = Vec::new();
    let mut i: usize = 0;
    while i < candidates.len()
        invariant
            i <= candidates@.len(),
            cands == views(candidates@),
            cands == well_known_paths(p, opt_view(env.home), opt_view(env.app_data), opt_view(env.local_app_data)),
            cands.len() == candidates@.len(),
            first_resolved(cands, probes@, 0) == first_resolved(cands, probes@, i as int),
            views(notes@) == missing_notes(cands.take(i as int)),
        decreases candidates@.len() - i,
    {
        let c = &candidates[i];
        assert(cands[i as int] == c@);
        let ghost prev = notes@;
        match resolve_executable_candidate(probes, c) {
            Some(resolved) => {
                let note = concat_str("Found at ", resolved.as_str());
                notes.push(note);
                proof {
                    assert(views(notes@) =~= views(prev).push(note@));
                    assert(first_resolved(cands, probes@, i as int) == i);
                }
                return (Some(resolved), notes);
            },
            None => {
                let note = concat_str("Missing: ", c.as_str());
                notes.push(note);
                i = i + 1;
                proof {
                    assert(views(notes@) =~= views(prev).push(note@));
                    assert(cands.take(i as int) =~= cands.take(i - 1).push(cands[i - 1]));
                    assert(missing_notes(cands.take(i as int)) =~= missing_notes(cands.take(i - 1)).push(
                        "Missing: "@ + cands[i - 1],
                    ));
                }
            },
        }
    }
    assert(cands.take(i as int) =~= cands);
    (None, notes)
}

/// Appends the strings of `more` to `v`.
fn append_all(v: &mut Vec<String>, more: Vec<String>)
    ensures
        views(final(v)@) == views(old(v)@) + views(more@),
{
    let ghost start = views(v@);
    let mut i: usize = 0;
    while i < more.len()
        invariant
            i <= more@.len(),
            views(v@) == start + views(more@).take(i as int),
        decreases more@.len() - i,
    {
        let ghost prev = views(v@);
        v.push(more[i].clone());
        i = i + 1;
        assert(views(v@) =~= prev.push(more@[i - 1]@));
        assert(views(more@).take(i as int) =~= views(more@).take(i - 1).push(more@[i - 1]@));
        assert(views(v@) =~= start + views(more@).take(i as int));
    }
    assert(views(more@).take(i as int) =~= views(more@));
}

/// Looks for the engine without a bundled copy: the override variable, then
/// PATH, then the well-known install locations. Returns the executable found,
/// whether it came from PATH, and a note for every step tried.
pub fn resolve_opencode_executable(p: Platform, env: &EngineEnv, probes: &Vec<PathProbe>) -> (r: (
    Option<String>,
    bool,
    Vec<String>,
))
    ensures
        (opt_view(r.0), r.1, views(r.2@)) == opencode_resolution(p, *env, probes@),
{
    let (found, mut notes) = try_override(env, probes);
    if found.is_some() {
        return (found, false, notes);
    }
    let (found, more) = try_path(p, &env.path_dirs, opencode_executable_name(p), probes);
    append_all(&mut notes, more);
    if found.is_some() {
        return (found, true, notes);
    }
    if p == Platform::Windows {
        let (found, more) = try_path(p, &env.path_dirs, "opencode.cmd", probes);
        append_all(&mut notes, more);
        if found.is_some() {
            return (found, true, notes);
        }
    } else {
        assert(views(notes@) =~= views(notes@) + Seq::<Seq<char>>::empty());
    }
    let ghost before = views(notes@);
    notes.push(String::from_str("Not found on PATH"));
    assert(views(notes@) =~= before + seq!["Not found on PATH"@]);
    let (found, more) = try_well_known(p, env, probes);
    append_all(&mut notes, more);
    (found, false, notes)
}

/// The engine found: a bundled copy when preferred and present, else the
/// result of the override, PATH and well-known search; the notes of all
/// stages tried, in order.
pub open spec fn engine_resolution(
    prefer_sidecar: bool,
    p: Platform,
    resource_dir: Option<Seq<char>>,
    bin_dir: Option<Seq<char>>,
    env: EngineEnv,
    probes: Seq<PathProbe>,
) -> (Option<Seq<char>>, bool, Seq<Seq<char>>) {
    let s = sidecar_resolution(prefer_sidecar, p, resource_dir, bin_dir, probes);
    if s.0 is Some {
        (s.0, false, s.1)
    } else {
        let o = opencode_resolution(p, env, probes);
        (o.0, o.1, s.1 + o.2)
    }
}

/// Resolves the engine executable: the path found (if any), whether it came
/// from PATH, and the provenance notes of the search. Not finding the engine
/// is an ordinary outcome, reported as `None` with the notes.
pub fn resolve_engine_path(
    prefer_sidecar: bool,
    p: Platform,
    resource_dir: Option<&str>,
    current_bin_dir: Option<&str>,
    env: &EngineEnv,
    probes: &Vec<PathProbe>,
) -> (r: (Option<String>, bool, Vec<String>))
    ensures
        (opt_view(r.0), r.1, views(r.2@)) == engine_resolution(
            prefer_sidecar,
            p,
            opt_str_view(resource_dir),
            opt_str_view(current_bin_dir),
            *env,
            probes@,
        ),
{
    let (sidecar, mut notes) = resolve_sidecar_candidate(prefer_sidecar, p, resource_dir, current_bin_dir, probes);
    match sidecar {
        Some(path) => (Some(path), false, notes),
        None => {
            let (resolved, in_path, more) = resolve_opencode_executable(p, env, probes);
            append_all(&mut notes, more);
            (resolved, in_path, notes)
        },
    }
}

/// `name` in each of `dirs`, in order.
pub open spec fn path_candidates(p: Platform, dirs: Seq<Seq<char>>, name: Seq<char>) -> Seq<Seq<char>> {
    dirs.map_values(|d: Seq<char>| join(p, d, name))
}

/// Every path that discovery may examine, in the order it examines them.
pub open spec fn probe_plan(
    prefer_sidecar: bool,
    p: Platform,
    resource_dir: Option<Seq<char>>,
    bin_dir: Option<Seq<char>>,
    env: EngineEnv,
) -> Seq<Seq<char>> {
    let dirs = views(env.path_dirs@);
    let sidecars = if prefer_sidecar {
        sidecar_candidates(p, resource_dir, bin_dir)
    } else {
        Seq::empty()
    };
    let custom = match override_candidate(opt_view(env.bin_path_override)) {
        Some(c) => seq![c],
        None => Seq::empty(),
    };
    let cmds = if p is Windows {
        path_candidates(p, dirs, cmd_name())
    } else {
        Seq::empty()
    };
    sidecars + custom + path_candidates(p, dirs, exe_name(p)) + cmds + well_known_paths(
        p,
        opt_view(env.home),
        opt_view(env.app_data),
        opt_view(env.local_app_data),
    )
}

/// `name` joined onto each of `dirs`, appended to `out`.
fn push_path_candidates(out: &mut Vec<String>, p: Platform, dirs: &Vec<String>, name: &str)
    ensures
        views(final(out)@) == views(old(out)@) + path_candidates(p, views(dirs@), name@),
{
    let ghost start = views(out@);
    let mut i: usize = 0;
    while i < dirs.len()
        invariant
            i <= dirs@.len(),
            views(out@) == start + path_candidates(p, views(dirs@), name@).take(i as int),
        decreases dirs@.len() - i,
    {
        let ghost prev = views(out@);
        let c = join_path(p, dirs[i].as_str(), name);
        out.push(c);
        i = i + 1;
        assert(views(out@) =~= prev.push(c@));
        assert(path_candidates(p, views(dirs@), name@).take(i as int) =~= path_candidates(
            p,
            views(dirs@),
            name@,
        ).take(i - 1).push(c@));
    }
    assert(path_candidates(p, views(dirs@), name@).take(i as int) =~= path_candidates(
        p,
        views(dirs@),
        name@,
    ));
}

/// Every path that discovery may examine; the caller probes each of them.
pub fn engine_probe_paths(
    prefer_sidecar: bool,
    p: Platform,
    resource_dir: Option<&str>,
    current_bin_dir: Option<&str>,
    env: &EngineEnv,
) -> (r: Vec<String>)
    ensures
        views(r@) == probe_plan(prefer_sidecar, p, opt_str_view(resource_dir), opt_str_view(current_bin_dir), *env),
{
    let mut out: Vec<String> = Vec::new();
    if prefer_sidecar {
        let sidecars = sidecar_candidate_paths(p, resource_dir, current_bin_dir);
        append_all(&mut out, sidecars);
    }
    let ghost a = views(out@);
    if let Some(c) = override_path(env) {
        out.push(c);
    }
    let ghost b = views(out@);
    push_path_candidates(&mut out, p, &env.path_dirs, opencode_executable_name(p));
    let ghost c = views(out@);
    if p == Platform::Windows {
        push_path_candidates(&mut out, p, &env.path_dirs, "opencode.cmd");
    }
    let ghost d = views(out@);
    let known = candidate_opencode_paths(p, env);
    append_all(&mut out, known);
    assert(views(out@) =~= probe_plan(
        prefer_sidecar,
        p,
        opt_str_view(resource_dir),
        opt_str_view(current_bin_dir),
        *env,
    ));
    out
}

/// A bundled copy short-circuits discovery: when bundled copies are preferred
/// and one is present, the first present one is the result, it is not reported
/// as coming from PATH, and nothing else in the environment (PATH included)
/// changes the outcome.
pub proof fn lemma_bundled_copy_wins(
    p: Platform,
    resource_dir: Option<Seq<char>>,
    bin_dir: Option<Seq<char>>,
    env: EngineEnv,
    other_env: EngineEnv,
    probes: Seq<PathProbe>,
    i: int,
)
    requires
        0 <= i < sidecar_candidates(p, resource_dir, bin_dir).len(),
        probed_file(probes, sidecar_candidates(p, resource_dir, bin_dir)[i]),
    ensures
        ({
            let cands = sidecar_candidates(p, resource_dir, bin_dir);
            let r = engine_resolution(true, p, resource_dir, bin_dir, env, probes);
            &&& r.0 == Some(cands[first_file(cands, probes, 0)])
            &&& first_file(cands, probes, 0) <= i
            &&& !r.1
            &&& r == engine_resolution(true, p, resource_dir, bin_dir, other_env, probes)
        }),
{
    let cands = sidecar_candidates(p, resource_dir, bin_dir);
    lemma_first_file_bounds(cands, probes, 0);
}

/// Discovery is a function of its inputs: the same platform, locations,
/// environment values and probes give the same candidates, in the same order,
/// and the same result with the same notes.
pub proof fn lemma_discovery_deterministic(
    prefer_sidecar: bool,
    p: Platform,
    resource_dir: Option<Seq<char>>,
    bin_dir: Option<Seq<char>>,
    env: EngineEnv,
    again: EngineEnv,
    probes: Seq<PathProbe>,
)
    requires
        opt_view(env.bin_path_override) == opt_view(again.bin_path_override),
        views(env.path_dirs@) == views(again.path_dirs@),
        opt_view(env.home) == opt_view(again.home),
        opt_view(env.app_data) == opt_view(again.app_data),
        opt_view(env.local_app_data) == opt_view(again.local_app_data),
    ensures
        probe_plan(prefer_sidecar, p, resource_dir, bin_dir, env) == probe_plan(
            prefer_sidecar,
            p,
            resource_dir,
            bin_dir,
            again,
        ),
        engine_resolution(prefer_sidecar, p, resource_dir, bin_dir, env, probes) == engine_resolution(
            prefer_sidecar,
            p,
            resource_dir,
            bin_dir,
            again,
            probes,
        ),
{
}

/// Two probe tables report the same about `x`.
pub open spec fn same_probe(a: Seq<PathProbe>, b: Seq<PathProbe>, x: Seq<char>) -> bool {
    probed_file(a, x) == probed_file(b, x) && probed_resolved(a, x) == probed_resolved(b, x)
}

/// Two probe tables report the same about every path of `paths`.
pub open spec fn agree_on(a: Seq<PathProbe>, b: Seq<PathProbe>, paths: Seq<Seq<char>>) -> bool {
    forall|k: int| 0 <= k < paths.len() ==> same_probe(a, b, #[trigger] paths[k])
}

proof fn lemma_agree_split(a: Seq<PathProbe>, b: Seq<PathProbe>, x: Seq<Seq<char>>, y: Seq<Seq<char>>)
    requires
        agree_on(a, b, x + y),
    ensures
        agree_on(a, b, x),
        agree_on(a, b, y),
{
    assert forall|k: int| 0 <= k < x.len() implies same_probe(a, b, #[trigger] x[k]) by {
        assert((x + y)[k] == x[k]);
    }
    assert forall|k: int| 0 <= k < y.len() implies same_probe(a, b, #[trigger] y[k]) by {
        assert((x + y)[x.len() + k] == y[k]);
    }
}

proof fn lemma_first_file_agree(cands: Seq<Seq<char>>, a: Seq<PathProbe>, b: Seq<PathProbe>, i: int)
    requires
        agree_on(a, b, cands),
        0 <= i <= cands.len(),
    ensures
        first_file(cands, a, i) == first_file(cands, b, i),
    decreases cands.len() - i,
{
    if i < cands.len() {
        assert(same_probe(a, b, cands[i]));
        lemma_first_file_agree(cands, a, b, i + 1);
    }
}

proof fn lemma_first_resolved_agree(cands: Seq<Seq<char>>, a: Seq<PathProbe>, b: Seq<PathProbe>, i: int)
    requires
        agree_on(a, b, cands),
        0 <= i <= cands.len(),
    ensures
        first_resolved(cands, a, i) == first_resolved(cands, b, i),
    decreases cands.len() - i,
{
    if i < cands.len() {
        assert(same_probe(a, b, cands[i]));
        lemma_first_resolved_agree(cands, a, b, i + 1);
    }
}

proof fn lemma_path_hit_agree(
    p: Platform,
    dirs: Seq<Seq<char>>,
    name: Seq<char>,
    a: Seq<PathProbe>,
    b: Seq<PathProbe>,
    i: int,
)
    requires
        agree_on(a, b, path_candidates(p, dirs, name)),
        0 <= i,
    ensures
        path_hit(p, dirs, name, a, i) == path_hit(p, dirs, name, b, i),
        path_hit(p, dirs, name, a, i) is Some ==> same_probe(a, b, path_hit(p, dirs, name, a, i)->0),
    decreases dirs.len() - i,
{
    if i < dirs.len() {
        assert(path_candidates(p, dirs, name)[i] == join(p, dirs[i], name));
        assert(same_probe(a, b, join(p, dirs[i], name)));
        lemma_path_hit_agree(p, dirs, name, a, b, i + 1);
    }
}

proof fn lemma_path_stage_agree(p: Platform, dirs: Seq<Seq<char>>, name: Seq<char>, a: Seq<PathProbe>, b: Seq<PathProbe>)
    requires
        agree_on(a, b, path_candidates(p, dirs, name)),
    ensures
        path_stage(p, dirs, name, a) == path_stage(p, dirs, name, b),
{
    lemma_path_hit_agree(p, dirs, name, a, b, 0);
}

proof fn lemma_well_known_agree(cands: Seq<Seq<char>>, a: Seq<PathProbe>, b: Seq<PathProbe>)
    requires
        agree_on(a, b, cands),
    ensures
        well_known_stage(cands, a) == well_known_stage(cands, b),
{
    lemma_first_resolved_agree(cands, a, b, 0);
    lemma_first_resolved_bounds(cands, a, 0);
    let h = first_resolved(cands, a, 0);
    if 0 <= h < cands.len() {
        assert(same_probe(a, b, cands[h]));
    }
}

/// Probing the planned paths is enough: two probe tables that report the same
/// about every path of `probe_plan` give the same discovery result.
pub proof fn lemma_plan_covers_discovery(
    prefer_sidecar: bool,
    p: Platform,
    resource_dir: Option<Seq<char>>,
    bin_dir: Option<Seq<char>>,
    env: EngineEnv,
    a: Seq<PathProbe>,
    b: Seq<PathProbe>,
)
    requires
        agree_on(a, b, probe_plan(prefer_sidecar, p, resource_dir, bin_dir, env)),
    ensures
        engine_resolution(prefer_sidecar, p, resource_dir, bin_dir, env, a) == engine_resolution(
            prefer_sidecar,
            p,
            resource_dir,
            bin_dir,
            env,
            b,
        ),
{
    let dirs = views(env.path_dirs@);
    let sidecars = if prefer_sidecar {
        sidecar_candidates(p, resource_dir, bin_dir)
    } else {
        Seq::empty()
    };
    let custom = match override_candidate(opt_view(env.bin_path_override)) {
        Some(c) => seq![c],
        None => Seq::empty(),
    };
    let exes = path_candidates(p, dirs, exe_name(p));
    let cmds = if p is Windows {
        path_candidates(p, dirs, cmd_name())
    } else {
        Seq::empty()
    };
    let known = well_known_paths(p, opt_view(env.home), opt_view(env.app_data), opt_view(env.local_app_data));
    lemma_agree_split(a, b, sidecars + custom + exes + cmds, known);
    lemma_agree_split(a, b, sidecars + custom + exes, cmds);
    lemma_agree_split(a, b, sidecars + custom, exes);
    lemma_agree_split(a, b, sidecars, custom);
    if prefer_sidecar {
        lemma_first_file_agree(sidecars, a, b, 0);
    }
    if let Some(c) = override_candidate(opt_view(env.bin_path_override)) {
        assert(custom[0] == c);
        assert(same_probe(a, b, c));
    }
    lemma_path_stage_agree(p, dirs, exe_name(p), a, b);
    if p is Windows {
        lemma_path_stage_agree(p, dirs, cmd_name(), a, b);
    }
    lemma_well_known_agree(known, a, b);
}

} // verus!
