//! Launch arguments of the engine server.
use vstd::prelude::*;
use crate::text::{decimal, decimal_string, views};

verus! {

/// The port the engine server asks for first.
pub const DEFAULT_OPENWORK_PORT: u16 = 8787;

/// The arguments that start the engine server: host, port, the two
/// authentication tokens, the workspace, and the allowed front-end origins.
pub open spec fn openwork_args(
    host: Seq<char>,
    port: u16,
    workspace_path: Seq<char>,
    token: Seq<char>,
    host_token: Seq<char>,
) -> Seq<Seq<char>> {
    seq![
        "--host"@, host,
        "--port"@, decimal(port as int),
        "--token"@, token,
        "--host-token"@, host_token,
        "--workspace"@, workspace_path,
        "--cors"@, "http://localhost:5173"@,
        "--cors"@, "tauri://localhost"@,
        "--cors"@, "http://tauri.localhost"@,
    ]
}

/// The command-line arguments of the engine server.
pub fn build_openwork_args(host: &str, port: u16, workspace_path: &str, token: &str, host_token: &str) -> (r: Vec<String>)
    ensures
        views(r@) == openwork_args(host@, port, workspace_path@, token@, host_token@),
{
    let r = vec![
        String::from_str("--host"),
        String::from_str(host),
        String::from_str("--port"),
        decimal_string(port as i64),
        String::from_str("--token"),
        String::from_str(token),
        String::from_str("--host-token"),
        String::from_str(host_token),
        String::from_str("--workspace"),
        String::from_str(workspace_path),
        String::from_str("--cors"),
        String::from_str("http://localhost:5173"),
        String::from_str("--cors"),
        String::from_str("tauri://localhost"),
        String::from_str("--cors"),
        String::from_str("http://tauri.localhost"),
    ];
    assert(views(r@) =~= openwork_args(host@, port, workspace_path@, token@, host_token@));
    r
}

} // verus!
