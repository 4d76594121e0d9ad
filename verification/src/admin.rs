//! The admin socket: how `synctus` talks to a running relay.
//!
//! A Unix socket in the runtime directory, one JSON request per line, one JSON
//! response back. Deliberately minimal:
//!
//! * **Unix socket, not TCP.** Filesystem permissions are the authorisation
//!   model. A TCP admin port would need its own authentication, and getting that
//!   wrong on a public interface is far worse than the convenience is worth.
//! * **Read-only.** The socket reports state; it never changes configuration or
//!   stops anything. Restarts go through the service manager, which is what
//!   actually owns the process lifecycle. That way there is no second, weaker
//!   path to controlling the daemon.

use vstd::prelude::*;

use crate::text::{decimal, decimal_text};

verus! {

/// Where the socket lives.
///
/// Under `/run` because the socket is runtime state that should vanish on reboot;
/// systemd's `RuntimeDirectory=` creates and cleans it up automatically.
pub const DEFAULT_SOCKET: &'static str = "/run/synctus/admin.sock";

/// What the management tool asks for.
#[derive(Debug, Clone, Copy, PartialEq, Eq, Structural)]
pub enum Request {
    /// Version, uptime, room and device counts.
    Status,
    /// One line per connected device, for the "who is connected" view.
    Rooms,
    /// Everything at once, grouped by user.
    Snapshot,
}

/// What the daemon answers.
#[derive(Debug)]
pub enum Response {
    Status(Status),
    Rooms { rooms: Vec<RoomInfo> },
    Snapshot(Snapshot),
    /// The request could not be served.
    Error { message: String },
}

#[derive(Debug)]
pub struct Status {
    pub version: String,
    /// Seconds since the daemon started.
    pub uptime_secs: u64,
    pub bind: String,
    pub tls: bool,
    pub rooms: usize,
    pub devices: usize,
    /// Connections accepted since start, and how many were rejected during the
    /// handshake. A high rejection count usually means a mismatched invite code.
    pub accepted: u64,
    pub rejected: u64,
}

/// A connected device, as it described itself.
#[derive(Debug)]
pub struct DeviceInfo {
    pub id: String,
    pub name: String,
    /// Nickname of the person; empty when unassigned.
    pub user: String,
    pub connected_secs: u64,
}

impl Clone for DeviceInfo {
    fn clone(&self) -> (r: DeviceInfo)
        ensures
            r == *self,
    {
        DeviceInfo {
            id: self.id.clone(),
            name: self.name.clone(),
            user: self.user.clone(),
            connected_secs: self.connected_secs,
        }
    }
}

/// What is said of a device.
pub struct InfoText {
    pub id: Seq<char>,
    pub name: Seq<char>,
    pub user: Seq<char>,
    pub connected_secs: u64,
}

impl View for DeviceInfo {
    type V = InfoText;

    open spec fn view(&self) -> InfoText {
        InfoText {
            id: self.id@,
            name: self.name@,
            user: self.user@,
            connected_secs: self.connected_secs,
        }
    }
}

/// A room, described without revealing anything the relay should not know.
///
/// The room id is truncated: logging or displaying it in full would record which
/// rooms exist on this server, and the operator does not need that to answer
/// "is my peer connected".
#[derive(Debug)]
pub struct RoomInfo {
    /// First 8 hex characters of the room id.
    pub room: String,
    pub devices: Vec<DeviceInfo>,
    /// Seconds since the room's most recent activity.
    pub idle_secs: u64,
}

/// The devices of one person.
#[derive(Debug)]
pub struct UserGroup {
    pub user: String,
    pub devices: Vec<DeviceInfo>,
}

/// Everything the web page shows.
#[derive(Debug)]
pub struct Snapshot {
    pub status: Status,
    pub users: Vec<UserGroup>,
    pub rooms: Vec<RoomInfo>,
}

/// A length of time as a short human string: `3d 4h`, `12m`, `45s`.
pub open spec fn duration_text(s: nat) -> Seq<char> {
    if s < 60 {
        decimal(s) + "s"@
    } else if s < 3600 {
        decimal(s / 60) + "m"@
    } else if s < 86_400 {
        decimal(s / 3600) + "h "@ + decimal(s % 3600 / 60) + "m"@
    } else {
        decimal(s / 86_400) + "d "@ + decimal(s % 86_400 / 3600) + "h"@
    }
}

/// A length of time as a short human string.
pub fn duration(s: u64) -> (r: String)
    ensures
        r@ == duration_text(s as nat),
{
    if s < 60 {
        decimal_text(s).concat("s")
    } else if s < 3600 {
        decimal_text(s / 60).concat("m")
    } else if s < 86_400 {
        decimal_text(s / 3600).concat("h ").concat(decimal_text(s % 3600 / 60).as_str()).concat(
            "m",
        )
    } else {
        decimal_text(s / 86_400).concat("d ").concat(
            decimal_text(s % 86_400 / 3600).as_str(),
        ).concat("h")
    }
}

impl Status {
    /// Uptime as a short human string: `3d 4h`, `12m`, `45s`.
    pub fn uptime_text(&self) -> (r: String)
        ensures
            r@ == duration_text(self.uptime_secs as nat),
    {
        duration(self.uptime_secs)
    }
}

/// A length of time is told by its two largest units, rounded down: what is left out
/// is less than the smaller of them.
pub proof fn durations_are_rounded_down(s: nat) -> (r: (nat, nat))
    ensures
        s < 60 ==> duration_text(s) == decimal(s) + "s"@,
        60 <= s < 3600 ==> duration_text(s) == decimal(r.0) + "m"@ && 60 * r.0 <= s < 60 * r.0 + 60,
        3600 <= s < 86_400 ==> duration_text(s) == decimal(r.0) + "h "@ + decimal(r.1) + "m"@ && r.1
            < 60 && 3600 * r.0 + 60 * r.1 <= s < 3600 * r.0 + 60 * r.1 + 60,
        s >= 86_400 ==> duration_text(s) == decimal(r.0) + "d "@ + decimal(r.1) + "h"@ && r.1 < 24
            && 86_400 * r.0 + 3600 * r.1 <= s < 86_400 * r.0 + 3600 * r.1 + 3600,
{
    if s < 3600 {
        (s / 60, 0)
    } else if s < 86_400 {
        (s / 3600, s % 3600 / 60)
    } else {
        (s / 86_400, s % 86_400 / 3600)
    }
}

}
