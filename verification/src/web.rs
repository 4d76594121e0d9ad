//! The web panel: a small, read-mostly admin dashboard for the relay.
//!
//! The admin socket is Unix-only and guarded by file permissions; a web server is
//! reachable over the network, so it needs a password instead. And it is
//! *read-mostly*: the only mutating action is disconnecting a device, which the
//! relay can do itself.
//!
//! Auth is HTTP Basic, checked against the password from the config file. There
//! is deliberately no user model: this is a two-person relay and one admin
//! password is the right amount of ceremony.

use vstd::prelude::*;
use vstd::utf8::*;

use crate::hub::{ct_eq, Hub};
use crate::proto::{base64_reads_back, base64_text, unb64};
use crate::text::{after_prefix, chars_of, same, strip_prefix, text_of};

verus! {

/// What `String::from_utf8_lossy` makes of some bytes.
pub uninterp spec fn utf8_lossy(bytes: Seq<u8>) -> Seq<char>;

/// `String::from_utf8_lossy`: a text for any bytes, and the very text that they
/// encode where they encode one. What stands in for the bytes that encode nothing
/// is left to the standard library.
#[verifier::external_body]
fn from_utf8_lossy(bytes: &[u8]) -> (r: String)
    ensures
        r@ == utf8_lossy(bytes@),
        valid_utf8(bytes@) ==> r@ == decode_utf8(bytes@),
{
    String::from_utf8_lossy(bytes).into_owned()
}

/// Credentials end in a colon and the password.
pub open spec fn ends_in(decoded: Seq<char>, password: Seq<char>) -> bool {
    let at = decoded.len() - password.len();
    at > 0 && decoded[at - 1] == ':' && decoded.skip(at) == password
}

/// The text that a header hands over in Basic credentials, as bytes.
pub open spec fn credentials(header: Seq<char>, bytes: Seq<u8>) -> bool {
    after_prefix(header, "Basic "@) == Some(base64_text(bytes))
}

/// Comparison that looks at every byte whatever it finds, so that its duration
/// says nothing about where two texts differ.
pub fn constant_time_eq(a: &[u8], b: &[u8]) -> (r: bool)
    ensures
        r == (a@ == b@),
{
    ct_eq(a, b)
}

/// Whether decoded credentials end in the password. The user name before the colon
/// is ignored: there is one admin password and no user model.
pub fn knows_password(decoded: &str, password: &str) -> (r: bool)
    ensures
        r == ends_in(decoded@, password@),
{
    let cs = chars_of(decoded);
    let n: usize = cs.len();
    let m: usize = chars_of(password).len();
    if n <= m || cs[n - m - 1] != ':' {
        return false;
    }
    let provided = text_of(cs.as_slice(), n - m, n);
    assert(provided@ == decoded@.skip(n - m));
    proof {
        encode_utf8_decode_utf8(provided@);
        encode_utf8_decode_utf8(password@);
    }
    constant_time_eq(provided.as_str().as_bytes(), password.as_bytes())
}

/// Whether an `Authorization` header, if there is one, carries the password:
/// `Basic` and the base64 form of a name, a colon and the password.
pub fn authorized(header: Option<&str>, password: &str) -> (r: bool)
    ensures
        header is None ==> !r,
        header matches Some(h) ==> r == exists|bytes: Seq<u8>| #[trigger]
            credentials(h@, bytes) && ends_in(utf8_lossy(bytes), password@),
        header matches Some(h) ==> forall|bytes: Seq<u8>| #[trigger]
            credentials(h@, bytes) && valid_utf8(bytes) ==> r == ends_in(
                decode_utf8(bytes),
                password@,
            ),
{
    let value = match header {
        Some(h) => h,
        None => {
            return false;
        },
    };
    let encoded = match strip_prefix(value, "Basic ") {
        Some(e) => e,
        None => {
            return false;
        },
    };
    match unb64(encoded.as_str()) {
        Ok(bytes) => {
            proof {
                assert(credentials(value@, bytes@));
                assert forall|other: Seq<u8>| #[trigger] credentials(value@, other) implies other
                    == bytes@ by {
                    base64_reads_back(other, bytes@);
                }
            }
            let decoded = from_utf8_lossy(bytes.as_slice());
            knows_password(decoded.as_str(), password)
        },
        Err(_) => false,
    }
}

/// The header that a browser sends for a name and a password.
pub open spec fn basic(user: Seq<char>, password: Seq<char>) -> Seq<char> {
    "Basic "@ + base64_text(encode_utf8(user + ":"@ + password))
}

/// Whatever name goes with it, [`authorized`] takes what a browser sends for the
/// password. Where neither that password nor the one that is given has a colon in it,
/// it takes nothing that is sent for another one.
pub proof fn the_password_is_what_counts(user: Seq<char>, given: Seq<char>, password: Seq<char>)
    ensures
        ({
            let bytes = encode_utf8(user + ":"@ + given);
            &&& credentials(basic(user, given), bytes)
            &&& valid_utf8(bytes)
            &&& given == password ==> ends_in(decode_utf8(bytes), password)
            &&& !given.contains(':') && !password.contains(':') && ends_in(
                decode_utf8(bytes),
                password,
            ) ==> given == password
        }),
{
    let text = user + ":"@ + given;
    reveal_strlit(":");
    encode_utf8_valid_utf8(text);
    encode_utf8_decode_utf8(text);
    let header = basic(user, given);
    assert(header.skip("Basic "@.len() as int) == base64_text(encode_utf8(text)));
    let at = user.len() as int;
    assert(text[at] == ':');
    assert(text.skip(at + 1) == given);
    if ends_in(text, password) && !given.contains(':') && !password.contains(':') {
        let from = text.len() - password.len();
        if from - 1 > at {
            assert(given[from - 1 - at - 1] == ':');
        }
        if from - 1 < at {
            assert(text.skip(from)[at - from] == ':');
        }
        assert(from == at + 1);
    }
}

/// For a password without a colon, what stands behind the last colon of the
/// credentials decides.
pub proof fn the_last_colon_decides(decoded: Seq<char>, password: Seq<char>)
    requires
        !password.contains(':'),
    ensures
        ends_in(decoded, password) <==> (decoded.index_of_last(':') matches Some(i)
            && decoded.skip(i + 1) == password),
{
    decoded.index_of_last_ensures(':');
    if ends_in(decoded, password) {
        let at = decoded.len() - password.len();
        assert(decoded.contains(':'));
        let i = decoded.index_of_last(':')->0;
        if i > at - 1 {
            assert(decoded.skip(at)[i - at] == ':');
        }
        if i < at - 1 {
            assert(decoded[at - 1] != ':');
        }
    }
}

/// What a request asks for.
#[derive(Debug, Clone, Copy, PartialEq, Eq, Structural)]
pub enum Route {
    /// The password is missing or wrong.
    Unauthorized,
    Page,
    Status,
    Kick,
    NotFound,
}

/// What a request with the password asks for.
pub open spec fn route_of(method: Seq<char>, url: Seq<char>) -> Route {
    if method == "GET"@ && url == "/"@ {
        Route::Page
    } else if method == "GET"@ && url == "/api/status"@ {
        Route::Status
    } else if method == "POST"@ && url == "/api/kick"@ {
        Route::Kick
    } else {
        Route::NotFound
    }
}

/// What a request leads to.
pub open spec fn routed(authorized: bool, method: Seq<char>, url: Seq<char>) -> Route {
    if !authorized {
        Route::Unauthorized
    } else {
        route_of(method, url)
    }
}

/// What a request asks for. Everything is behind the password, including the page
/// itself: the browser prompts for credentials when it first sees a 401.
pub fn route(authorized: bool, method: &str, url: &str) -> (r: Route)
    ensures
        r == routed(authorized, method@, url@),
{
    if !authorized {
        return Route::Unauthorized;
    }
    if same(method, "GET") && same(url, "/") {
        Route::Page
    } else if same(method, "GET") && same(url, "/api/status") {
        Route::Status
    } else if same(method, "POST") && same(url, "/api/kick") {
        Route::Kick
    } else {
        Route::NotFound
    }
}

impl Route {
    pub open spec fn status_code(self) -> u16 {
        match self {
            Route::Unauthorized => 401u16,
            Route::NotFound => 404u16,
            _ => 200u16,
        }
    }

    /// Status code of the answer.
    pub fn status(self) -> (r: u16)
        ensures
            r == self.status_code(),
    {
        match self {
            Route::Unauthorized => 401,
            Route::NotFound => 404,
            _ => 200,
        }
    }

    /// Content type of the answer.
    pub fn content_type(self) -> (r: &'static str)
        ensures
            r@ == match self {
                Route::Page => "text/html; charset=utf-8"@,
                Route::Status => "application/json"@,
                Route::Kick => "application/json"@,
                _ => "text/plain; charset=utf-8"@,
            },
    {
        match self {
            Route::Page => "text/html; charset=utf-8",
            Route::Status => "application/json",
            Route::Kick => "application/json",
            _ => "text/plain; charset=utf-8",
        }
    }
}

/// What someone without the password is told.
pub const NEEDS_PASSWORD: &'static str = "需要管理员密码\n";

/// What someone is told who asked for something else.
pub const NOT_FOUND: &'static str = "not found\n";

/// Makes the browser show its own prompt.
pub const CHALLENGE: &'static str = "Basic realm=\"synctus\"";

/// Disconnects a device by its name; whether there was one. A request without a
/// name disconnects nothing.
pub fn kick(hub: &mut Hub, device: &str, now: u64) -> (r: bool)
    requires
        old(hub).wf(),
    ensures
        final(hub).wf(),
        final(hub).same_setup(old(hub)),
        r == (device@.len() > 0 && exists|room: Seq<char>| #[trigger]
            old(hub)@.holds(room, device@)),
        !r ==> final(hub)@ == old(hub)@,
        r ==> exists|room: Seq<char>| #[trigger]
            old(hub)@.holds(room, device@) && final(hub)@ == old(hub)@.kicked(room, device@, now),
{
    if device.is_empty() {
        false
    } else {
        hub.kick(device, now)
    }
}

/// The single page, self-contained: the browser polls the status and does the
/// rest.
pub const INDEX: &'static str = "<!doctype html>
<html lang=\"zh\">
<head><meta charset=\"utf-8\"><title>Synctus</title></head>
<body>
<h1>Synctus 中继服务器</h1>
<p id=\"status\"></p>
<ul id=\"users\"></ul>
<script>
const item = (text) => { const li = document.createElement('li'); li.textContent = text; return li; };
async function kick(device) {
  await fetch('api/kick', { method: 'POST', body: JSON.stringify({ device }) });
  refresh();
}
async function refresh() {
  const s = await (await fetch('api/status')).json();
  document.getElementById('status').textContent =
    `${s.status.version}　房间 ${s.status.rooms}　设备 ${s.status.devices}`;
  const quiet = {};
  for (const r of s.rooms) for (const d of r.devices) quiet[d.id] = r.idle_secs;
  const list = document.getElementById('users');
  list.replaceChildren();
  for (const u of s.users) for (const d of u.devices) {
    const li = item(`[${u.user || '未分组'}] ${d.name || d.id}　已连接 ${d.connected_secs} 秒　${quiet[d.id]} 秒没动静 `);
    const button = document.createElement('button');
    button.textContent = '断开';
    button.onclick = () => kick(d.id);
    li.append(button);
    list.append(li);
  }
}
refresh();
setInterval(refresh, 5000);
</script>
</body>
</html>
";

/// The single page.
pub fn index_html() -> (r: String)
    ensures
        r@ == INDEX@,
{
    INDEX.to_string()
}

/// Nothing is served without the password. With it the page and the status can be
/// read, and a device can be disconnected only by posting: a mere look disconnects
/// nobody.
pub proof fn everything_is_behind_the_password(method: Seq<char>, url: Seq<char>)
    ensures
        routed(false, method, url) == Route::Unauthorized,
        routed(false, method, url).status_code() == 401,
        routed(true, method, url) != Route::Unauthorized,
        routed(true, "GET"@, "/"@) == Route::Page,
        routed(true, "GET"@, "/api/status"@) == Route::Status,
        routed(true, "POST"@, "/api/kick"@) == Route::Kick,
        routed(true, method, url) == Route::Kick ==> method == "POST"@ && url == "/api/kick"@,
        routed(true, method, url) == Route::Page ==> method == "GET"@ && url == "/"@,
        routed(true, method, url) == Route::Status ==> method == "GET"@ && url == "/api/status"@,
        url != "/"@ && url != "/api/status"@ && url != "/api/kick"@ ==> routed(true, method, url)
            == Route::NotFound,
        routed(true, method, url).status_code() == 404 <==> routed(true, method, url)
            == Route::NotFound,
        routed(true, method, url).status_code() == 200 || routed(true, method, url).status_code()
            == 404,
{
    reveal_strlit("GET");
    reveal_strlit("POST");
    reveal_strlit("/");
    reveal_strlit("/api/status");
    reveal_strlit("/api/kick");
    assert("GET"@.len() != "POST"@.len());
    assert("/"@.len() != "/api/status"@.len());
}

}
