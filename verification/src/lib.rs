//! Synctus: two people keep each other working.

pub mod admin;
pub mod bridge;
pub mod client;
pub mod clock;
pub mod config;
pub mod conn;
pub mod crypto;
pub mod dates;
pub mod debug;
pub mod desktop;
pub mod focus;
pub mod hub;
pub mod limiter;
pub mod manage;
pub mod model;
pub mod notify;
pub mod overlay;
pub mod panel;
pub mod proto;
pub mod sensors;
pub mod server_config;
pub mod service;
pub mod sharing;
pub mod sorting;
pub mod store;
pub mod table;
pub mod text;
pub mod tray;
pub mod undelivered;
pub mod update;
pub mod web;

use vstd::prelude::*;

verus! {

/// Wire protocol version. Bumped on any incompatible frame change; peers with a
/// different version are rejected by the relay.
pub const PROTOCOL_VERSION: u16 = 1;

/// Largest frame we are willing to read. Status snapshots are ~1 KiB, so this
/// leaves plenty of headroom while bounding memory per connection.
pub const MAX_FRAME_LEN: usize = 65536;

/// Version of this build.
pub const VERSION: &'static str = "0.1.0";

}
