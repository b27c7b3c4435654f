//! Engine discovery, version gating, process supervision and workspace state
//! for the desktop host, with each decision stated as a contract.

pub mod discovery;
pub mod http;
pub mod maintenance;
pub mod platform;
pub mod server;
pub mod skills;
pub mod supervisor;
pub mod templates;
pub mod text;
pub mod workspace;
pub mod xdg;
pub mod version;
