//! Workspace records, their stable identifiers, and the versioned state that
//! holds them.
use vstd::prelude::*;
use std::hash::BuildHasher;
use crate::text::{concat_str, digit_char, opt_str_view, digits_in, push_digits, trim_to_string, trimmed};

verus! {

/// The schema version that this library writes.
pub const WORKSPACE_STATE_VERSION: u32 = 2;

/// Where a workspace lives.
#[derive(Clone, Copy, Debug, PartialEq, Eq, Structural)]
pub enum WorkspaceType {
    Local,
    Remote,
}

/// One registered workspace.
pub struct WorkspaceInfo {
    pub id: String,
    pub name: String,
    pub path: String,
    pub preset: String,
    pub workspace_type: WorkspaceType,
    pub base_url: Option<String>,
    pub directory: Option<String>,
    pub display_name: Option<String>,
}

/// The stored list of workspaces, with the schema version it was written at.
pub struct WorkspaceState {
    pub version: u32,
    pub workspaces: Vec<WorkspaceInfo>,
}

/// The value that std's `DefaultHasher`, created by `new`, gives for a `str`.
pub uninterp spec fn str_hash(s: Seq<char>) -> u64;

/// Relies on `BuildHasher::hash_one` over `BuildHasherDefault<DefaultHasher>`:
/// the hasher starts from fixed keys, so the value depends on the characters alone.
#[verifier::external_body]
fn hash_str(s: &str) -> (r: u64)
    ensures
        r == str_hash(s@),
{
    std::hash::BuildHasherDefault::<std::collections::hash_map::DefaultHasher>::default().hash_one(s)
}

/// The identifier derived from `key`: `ws-` and the hash of `key` in lower-case hex.
pub open spec fn workspace_id(key: Seq<char>) -> Seq<char> {
    "ws-"@ + digits_in(str_hash(key) as nat, 16)
}

/// The identifier of the workspace at `path`.
pub fn stable_workspace_id(path: &str) -> (r: String)
    ensures
        r@ == workspace_id(path@),
{
    let h = hash_str(path);
    let mut id = String::from_str("ws-");
    push_digits(&mut id, h, 16);
    id
}

/// The key that names a remote workspace: its base URL, and its directory
/// when one is given and not blank.
pub open spec fn remote_key(base_url: Seq<char>, directory: Option<Seq<char>>) -> Seq<char> {
    let head = "remote::"@ + base_url;
    match directory {
        Some(d) => if trimmed(d).len() > 0 {
            head + "::"@ + trimmed(d)
        } else {
            head
        },
        None => head,
    }
}

/// The identifier of the remote workspace at `base_url`, optionally narrowed
/// to `directory`.
pub fn stable_workspace_id_for_remote(base_url: &str, directory: Option<&str>) -> (r: String)
    ensures
        r@ == workspace_id(remote_key(base_url@, opt_str_view(directory))),
{
    let mut key = concat_str("remote::", base_url);
    if let Some(dir) = directory {
        let d = trim_to_string(dir);
        if d.as_str().unicode_len() > 0 {
            key.append("::");
            key.append(d.as_str());
        }
    }
    stable_workspace_id(key.as_str())
}

/// The record of the starter workspace created in `starter_dir`.
pub fn starter_workspace(starter_dir: &str) -> (r: WorkspaceInfo)
    ensures
        r.id@ == workspace_id(starter_dir@),
        r.name@ == "Starter"@,
        r.path@ == starter_dir@,
        r.preset@ == "starter"@,
        r.workspace_type == WorkspaceType::Local,
        r.base_url is None,
        r.directory is None,
        r.display_name is None,
{
    WorkspaceInfo {
        id: stable_workspace_id(starter_dir),
        name: String::from_str("Starter"),
        path: String::from_str(starter_dir),
        preset: String::from_str("starter"),
        workspace_type: WorkspaceType::Local,
        base_url: None,
        directory: None,
        display_name: None,
    }
}

impl WorkspaceState {
    /// An empty state at the current schema version.
    pub fn empty() -> (r: Self)
        ensures
            r.version == WORKSPACE_STATE_VERSION,
            r.workspaces@.len() == 0,
    {
        WorkspaceState { version: WORKSPACE_STATE_VERSION, workspaces: Vec::new() }
    }
}

impl Default for WorkspaceState {
    fn default() -> (r: Self)
        ensures
            r.version == WORKSPACE_STATE_VERSION,
            r.workspaces@.len() == 0,
    {
        WorkspaceState::empty()
    }
}

/// The schema version after loading a state stored at `stored`: stale versions
/// are raised to the current one, newer ones are kept.
pub open spec fn migrated_version(stored: u32) -> u32 {
    if stored < WORKSPACE_STATE_VERSION {
        WORKSPACE_STATE_VERSION
    } else {
        stored
    }
}

/// Brings a state read from storage up to the current schema, in memory; the
/// records are kept as they are.
pub fn migrate_workspace_state(state: WorkspaceState) -> (r: WorkspaceState)
    ensures
        r.version == migrated_version(state.version),
        r.workspaces == state.workspaces,
{
    let mut state = state;
    if state.version < WORKSPACE_STATE_VERSION {
        state.version = WORKSPACE_STATE_VERSION;
    }
    state
}

/// The state a load yields: a fresh state when nothing is stored, else the
/// stored state brought up to the current schema.
pub fn state_after_load(stored: Option<WorkspaceState>) -> (r: WorkspaceState)
    ensures
        match stored {
            None => r.version == WORKSPACE_STATE_VERSION && r.workspaces@.len() == 0,
            Some(s) => r.version == migrated_version(s.version) && r.workspaces == s.workspaces,
        },
{
    match stored {
        None => WorkspaceState::empty(),
        Some(s) => migrate_workspace_state(s),
    }
}

proof fn lemma_digits_nonempty(n: nat, radix: nat)
    ensures
        digits_in(n, radix).len() >= 1,
    decreases n,
{
    if !(radix < 2 || n < radix) {
        assert(n / radix < n) by (nonlinear_arith)
            requires
                n >= radix,
                radix >= 2,
        ;
        lemma_digits_nonempty(n / radix, radix);
    }
}

proof fn lemma_hex_digits_injective(a: nat, b: nat)
    requires
        digits_in(a, 16) == digits_in(b, 16),
    ensures
        a == b,
    decreases a,
{
    if a < 16 && b < 16 {
        assert(digits_in(a, 16)[0] == digit_char(a));
        assert(digits_in(b, 16)[0] == digit_char(b));
    } else if a < 16 {
        lemma_digits_nonempty(b / 16, 16);
        assert(digits_in(b, 16).len() >= 2);
    } else if b < 16 {
        lemma_digits_nonempty(a / 16, 16);
        assert(digits_in(a, 16).len() >= 2);
    } else {
        let da = digits_in(a, 16);
        let db = digits_in(b, 16);
        assert(da.drop_last() =~= digits_in(a / 16, 16));
        assert(db.drop_last() =~= digits_in(b / 16, 16));
        assert(da.last() == digit_char(a % 16));
        assert(db.last() == digit_char(b % 16));
        assert(a / 16 < a);
        lemma_hex_digits_injective(a / 16, b / 16);
        assert(a % 16 == b % 16);
        assert(a == 16 * (a / 16) + a % 16);
        assert(b == 16 * (b / 16) + b % 16);
    }
}

/// Identifiers are deterministic: one key always gives the same identifier, and
/// two keys give different identifiers exactly when their hashes differ.
pub proof fn lemma_workspace_id_deterministic(p: Seq<char>, q: Seq<char>)
    ensures
        p == q ==> workspace_id(p) == workspace_id(q),
        (workspace_id(p) == workspace_id(q)) <==> (str_hash(p) == str_hash(q)),
{
    if workspace_id(p) == workspace_id(q) {
        let n = "ws-"@.len() as int;
        assert(digits_in(str_hash(p) as nat, 16) =~= workspace_id(p).subrange(n, workspace_id(p).len() as int));
        assert(digits_in(str_hash(q) as nat, 16) =~= workspace_id(q).subrange(n, workspace_id(q).len() as int));
        lemma_hex_digits_injective(str_hash(p) as nat, str_hash(q) as nat);
    }
}

/// The version a load yields: a version older than the current one becomes the
/// current one, a current or newer one is kept, so versions never go down.
pub proof fn lemma_migration(stored_version: u32)
    ensures
        stored_version < WORKSPACE_STATE_VERSION ==> migrated_version(stored_version) == WORKSPACE_STATE_VERSION,
        stored_version >= WORKSPACE_STATE_VERSION ==> migrated_version(stored_version) == stored_version,
        migrated_version(stored_version) >= WORKSPACE_STATE_VERSION,
{
}

} // verus!
