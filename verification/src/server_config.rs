//! Server configuration.

use vstd::prelude::*;

use crate::text::{clone_option, parse_u64, unsigned};

verus! {

#[derive(Debug)]
pub struct ServerConfig {
    /// Listen address.
    pub bind: String,
    /// PEM certificate chain. When both this and `key_path` are set the relay
    /// terminates TLS itself; leave empty when running behind a TLS-terminating
    /// reverse proxy.
    pub cert_path: Option<String>,
    pub key_path: Option<String>,
    /// Devices allowed in one room. Two is the intended case, but a person may
    /// run a PC and a phone, so the default leaves headroom.
    pub max_devices_per_room: usize,
    /// Total rooms held in memory. Bounds the memory a stranger can make the
    /// relay allocate by connecting with random room ids.
    pub max_rooms: usize,
    /// Seconds without a frame before a connection is dropped.
    pub idle_timeout_secs: u64,
    /// Heartbeat interval advertised to clients.
    pub heartbeat_secs: u32,
    /// Relayed frames per device per second, token-bucket. Status updates are
    /// event-driven, so a healthy client sends far fewer than this.
    pub rate_limit_per_sec: u32,
    /// Burst allowance on top of the steady rate.
    pub rate_limit_burst: u32,
    /// Seconds a client has to finish the handshake.
    pub handshake_timeout_secs: u64,
    /// Listen address of the web panel; none means that there is no panel.
    pub web_bind: Option<String>,
    /// Password of the web panel.
    pub web_password: Option<String>,
}

/// Values of the `SYNCTUS_*` environment variables, those that are set.
#[derive(Debug)]
pub struct Overrides {
    pub bind: Option<String>,
    pub cert: Option<String>,
    pub key: Option<String>,
    pub max_rooms: Option<String>,
    pub rate_limit: Option<String>,
    pub idle_timeout: Option<String>,
}

impl Default for ServerConfig {
    fn default() -> (r: ServerConfig)
        ensures
            r.bind@ == "0.0.0.0:8787"@,
            r.cert_path is None,
            r.key_path is None,
            r.max_devices_per_room == 8,
            r.max_rooms == 10_000,
            r.idle_timeout_secs == 90,
            r.heartbeat_secs == 25,
            r.rate_limit_per_sec == 10,
            r.rate_limit_burst == 30,
            r.handshake_timeout_secs == 10,
            r.web_bind is None,
            r.web_password is None,
    {
        ServerConfig {
            bind: "0.0.0.0:8787".to_string(),
            cert_path: None,
            key_path: None,
            max_devices_per_room: 8,
            max_rooms: 10_000,
            idle_timeout_secs: 90,
            heartbeat_secs: 25,
            rate_limit_per_sec: 10,
            rate_limit_burst: 30,
            handshake_timeout_secs: 10,
            web_bind: None,
            web_password: None,
        }
    }
}

impl Clone for ServerConfig {
    fn clone(&self) -> (r: ServerConfig)
        ensures
            r == *self,
    {
        ServerConfig {
            bind: self.bind.clone(),
            cert_path: clone_option(&self.cert_path),
            key_path: clone_option(&self.key_path),
            max_devices_per_room: self.max_devices_per_room,
            max_rooms: self.max_rooms,
            idle_timeout_secs: self.idle_timeout_secs,
            heartbeat_secs: self.heartbeat_secs,
            rate_limit_per_sec: self.rate_limit_per_sec,
            rate_limit_burst: self.rate_limit_burst,
            handshake_timeout_secs: self.handshake_timeout_secs,
            web_bind: clone_option(&self.web_bind),
            web_password: clone_option(&self.web_password),
        }
    }
}

/// A path that is set to nothing is not set.
pub open spec fn path_or_none(v: String) -> Option<String> {
    if v@.len() == 0 {
        None
    } else {
        Some(v)
    }
}

/// A path that is set to nothing is not set.
pub fn non_empty(v: String) -> (r: Option<String>)
    ensures
        r == path_or_none(v),
{
    if v.as_str().is_empty() {
        None
    } else {
        Some(v)
    }
}

/// The number that a variable holds; one that holds none counts as unset.
pub open spec fn number_in(v: Option<String>) -> Option<int> {
    match v {
        Some(text) => unsigned(text@, u64::MAX as int),
        None => None,
    }
}

fn env_num(v: &Option<String>) -> (r: Option<u64>)
    ensures
        match r {
            Some(n) => number_in(*v) == Some(n as int),
            None => number_in(*v) is None,
        },
{
    match v {
        Some(text) => parse_u64(text.as_str()),
        None => None,
    }
}

/// `n`, or the least that is allowed.
pub open spec fn at_least(n: u64, least: u64) -> u64 {
    if n < least {
        least
    } else {
        n
    }
}

impl ServerConfig {
    /// The settings under these variables.
    pub open spec fn overlaid(self, env: Overrides) -> ServerConfig {
        ServerConfig {
            bind: match env.bind {
                Some(v) => v,
                None => self.bind,
            },
            cert_path: match env.cert {
                Some(v) => path_or_none(v),
                None => self.cert_path,
            },
            key_path: match env.key {
                Some(v) => path_or_none(v),
                None => self.key_path,
            },
            max_rooms: match number_in(env.max_rooms) {
                Some(n) => (n as u64) as usize,
                None => self.max_rooms,
            },
            rate_limit_per_sec: match number_in(env.rate_limit) {
                Some(n) => (n as u64) as u32,
                None => self.rate_limit_per_sec,
            },
            idle_timeout_secs: match number_in(env.idle_timeout) {
                Some(n) => n as u64,
                None => self.idle_timeout_secs,
            },
            ..self
        }
    }

    /// Overlays `SYNCTUS_*` environment variables, which is how the container
    /// deployment is configured.
    pub fn apply_env(&mut self, env: Overrides)
        ensures
            *final(self) == old(self).overlaid(env),
    {
        let rooms = env_num(&env.max_rooms);
        let rate = env_num(&env.rate_limit);
        let idle = env_num(&env.idle_timeout);
        if let Some(v) = env.bind {
            self.bind = v;
        }
        if let Some(v) = env.cert {
            self.cert_path = non_empty(v);
        }
        if let Some(v) = env.key {
            self.key_path = non_empty(v);
        }
        if let Some(v) = rooms {
            self.max_rooms = #[verifier::truncate]
            (v as usize);
        }
        if let Some(v) = rate {
            self.rate_limit_per_sec = #[verifier::truncate]
            (v as u32);
        }
        if let Some(v) = idle {
            self.idle_timeout_secs = v;
        }
    }

    /// TLS is enabled only when both halves of the keypair are configured.
    pub fn tls_enabled(&self) -> (r: bool)
        ensures
            r == (self.cert_path is Some && self.key_path is Some),
    {
        self.cert_path.is_some() && self.key_path.is_some()
    }

    /// Seconds that a handshake may take, one at least.
    pub fn handshake_secs(&self) -> (r: u64)
        ensures
            r == at_least(self.handshake_timeout_secs, 1),
    {
        if self.handshake_timeout_secs < 1 {
            1
        } else {
            self.handshake_timeout_secs
        }
    }

    /// Seconds that a connection may be silent, five at least.
    pub fn idle_secs(&self) -> (r: u64)
        ensures
            r == at_least(self.idle_timeout_secs, 5),
    {
        if self.idle_timeout_secs < 5 {
            5
        } else {
            self.idle_timeout_secs
        }
    }
}

/// A variable that is set decides, one that is not leaves the setting alone, and so
/// does one that should hold a number and does not. A path that is set to nothing is
/// taken back.
pub proof fn variables_override_settings(cfg: ServerConfig, env: Overrides)
    ensures
        ({
            let r = cfg.overlaid(env);
            &&& env.bind matches Some(v) ==> r.bind == v
            &&& env.bind is None ==> r.bind == cfg.bind
            &&& env.cert matches Some(v) ==> (v@.len() > 0 ==> r.cert_path == Some(v)) && (v@.len()
                == 0 ==> r.cert_path is None)
            &&& env.cert is None ==> r.cert_path == cfg.cert_path
            &&& env.key matches Some(v) ==> (v@.len() > 0 ==> r.key_path == Some(v)) && (v@.len()
                == 0 ==> r.key_path is None)
            &&& env.key is None ==> r.key_path == cfg.key_path
            &&& number_in(env.max_rooms) is None ==> r.max_rooms == cfg.max_rooms
            &&& number_in(env.max_rooms) matches Some(n) ==> (0 <= n <= u32::MAX ==> r.max_rooms
                == n)
            &&& number_in(env.rate_limit) is None ==> r.rate_limit_per_sec == cfg.rate_limit_per_sec
            &&& number_in(env.rate_limit) matches Some(n) ==> (0 <= n <= u32::MAX
                ==> r.rate_limit_per_sec == n)
            &&& number_in(env.idle_timeout) is None ==> r.idle_timeout_secs == cfg.idle_timeout_secs
            &&& number_in(env.idle_timeout) matches Some(n) ==> (0 <= n <= u64::MAX
                ==> r.idle_timeout_secs == n)
            &&& r.heartbeat_secs == cfg.heartbeat_secs
            &&& r.max_devices_per_room == cfg.max_devices_per_room
            &&& r.rate_limit_burst == cfg.rate_limit_burst
            &&& r.handshake_timeout_secs == cfg.handshake_timeout_secs
            &&& r.web_bind == cfg.web_bind
            &&& r.web_password == cfg.web_password
        }),
{
}

/// A limit is kept as it is configured, unless it is below the least that makes sense.
pub proof fn limits_have_a_floor(n: u64, least: u64)
    ensures
        at_least(n, least) >= least,
        at_least(n, least) >= n,
        at_least(n, least) == n || at_least(n, least) == least,
{
}

}
