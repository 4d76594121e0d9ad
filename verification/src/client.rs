//! The reconnecting client engine shared by desktop and Android.
//!
//! The UI never touches sockets. It sends [`Command`]s in and reads [`Event`]s
//! out. What the engine decides on the way stands here, as functions from what
//! just happened to what to do next; the loop that owns the socket performs it.
//!
//! Reconnection uses exponential backoff with jitter. On every successful
//! connect the last local status is republished so a peer that was waiting sees
//! us immediately, and the relay's retained state gives us theirs.

use vstd::prelude::*;
use vstd::utf8::*;

use crate::config::ClientConfig;
use crate::crypto::{
    auth_tag, hex, is_code_char, keys_of, normalised, opened, CryptoError, RoomKeys,
};
use crate::model::{
    clone_todos, Nudge, NudgeText, PeerMessage, StatusSnapshot, StatusText, Todo,
};
use crate::debug::{frame_text, show_frame};
use crate::proto::{
    b64, base64_text, not_base64, unb64, Auth, Frame, Hello, Presence, Relay, Welcome,
};
use crate::text::{decimal, decimal_text};
use crate::{PROTOCOL_VERSION, VERSION};

verus! {

/// Connection state, surfaced so the UI can show a badge.
#[derive(Debug, PartialEq, Eq)]
pub enum ConnState {
    Connecting,
    Online,
    /// Disconnected with a human-readable reason.
    Offline(String),
    /// Terminal: the invite code or protocol version is wrong, so retrying is
    /// pointless until the user changes something.
    Rejected(String),
}

impl Clone for ConnState {
    fn clone(&self) -> (r: ConnState)
        ensures
            r == *self,
    {
        match self {
            ConnState::Connecting => ConnState::Connecting,
            ConnState::Online => ConnState::Online,
            ConnState::Offline(why) => ConnState::Offline(why.clone()),
            ConnState::Rejected(why) => ConnState::Rejected(why.clone()),
        }
    }
}

/// Things the UI asks the engine to do.
#[derive(Debug)]
pub enum Command {
    /// Publish a new local status snapshot.
    Publish(StatusSnapshot),
    /// Publish the local to-do list.
    PublishTodos(Vec<Todo>),
    /// Send an interaction to the peer.
    Nudge(Nudge),
    /// Re-read config and reconnect. Used after the user edits settings.
    Reconnect(Box<ClientConfig>),
    /// Stop the engine.
    Shutdown,
}

/// What a command asks for.
pub enum Order {
    Publish(StatusText),
    PublishTodos(Seq<Todo>),
    Nudge(NudgeText),
    Reconnect(ClientConfig),
    Shutdown,
}

impl View for Command {
    type V = Order;

    open spec fn view(&self) -> Order {
        match *self {
            Command::Publish(s) => Order::Publish(s@),
            Command::PublishTodos(items) => Order::PublishTodos(items@),
            Command::Nudge(n) => Order::Nudge(n@),
            Command::Reconnect(cfg) => Order::Reconnect(*cfg),
            Command::Shutdown => Order::Shutdown,
        }
    }
}

/// Things the engine tells the UI.
#[derive(Debug)]
pub enum Event {
    State(ConnState),
    /// A peer's status arrived and decrypted successfully.
    PeerStatus(StatusSnapshot),
    PeerTodos { device_id: String, items: Vec<Todo> },
    /// A peer poked us.
    Nudge(Nudge),
    /// A peer device connected or disconnected, per the relay.
    PeerPresence { device_id: String, online: bool },
    /// Non-fatal problem worth showing in the log pane.
    Warning(String),
}

/// How a session ended of its own accord.
#[derive(Debug, Clone, Copy, PartialEq, Eq, Structural)]
pub enum SessionEnd {
    /// Peer or relay closed the socket.
    Closed,
    /// Config changed, reconnect immediately.
    Reconnect,
    Shutdown,
}

/// Why a session broke.
#[derive(Debug)]
pub enum SessionError {
    /// Retryable.
    Transport(String),
    /// Not retryable without user action.
    Rejected(String),
}

/// What a session does about what just happened.
#[derive(Debug)]
pub enum Step {
    Idle,
    /// Tell the UI.
    Emit(Event),
    /// Seal a message for the peer and send it.
    Send(PeerMessage),
    /// Answer the relay.
    Reply(Frame),
    /// Parse a payload that has been decrypted, and dispatch it.
    Payload(Vec<u8>),
    End(SessionEnd),
    Fail(SessionError),
}

/// What the engine does between two sessions.
#[derive(Debug, Clone, Copy, PartialEq, Eq, Structural)]
pub enum Next {
    Stop,
    /// Connect again straight away.
    Again,
    /// Wait for the user to change something.
    Await,
    /// Sleep for so many milliseconds, responsive to commands, then connect.
    Sleep(u64),
}

/// What a command does to an engine that waits or sleeps.
#[derive(Debug)]
pub enum Wake {
    /// Keep waiting.
    Wait,
    Reconnect(Box<ClientConfig>),
    Shutdown,
}

/// Why an engine could not be built.
#[derive(Debug, Clone, Copy, PartialEq, Eq, Structural)]
pub enum ClientError {
    NotPaired,
    Keys(CryptoError),
}

impl ClientError {
    pub fn message(&self) -> (r: &'static str)
        ensures
            r@ == match *self {
                ClientError::NotPaired => "尚未设置配对码"@,
                ClientError::Keys(e) => e.text(),
            },
    {
        match self {
            ClientError::NotPaired => "尚未设置配对码",
            ClientError::Keys(e) => e.message(),
        }
    }
}

// ---------------------------------------------------------------------------
// Backoff
// ---------------------------------------------------------------------------

/// Backoff schedule for reconnects, in milliseconds.
pub const BACKOFF_START_MS: u64 = 1_000;

pub const BACKOFF_MAX_MS: u64 = 30_000;

/// Twice a delay, capped.
pub open spec fn doubled(current: u64) -> int {
    if 2 * current > BACKOFF_MAX_MS {
        BACKOFF_MAX_MS as int
    } else {
        2 * current
    }
}

/// `rand::random`: any number; nothing is promised of it.
#[verifier::external_body]
fn random_u64() -> (r: u64) {
    rand::random()
}

/// The next delay for a given random number: double, cap, then add up to a
/// quarter as jitter.
pub fn backoff_with(current: u64, random: u64) -> (r: u64)
    ensures
        r == doubled(current) + random as int % (doubled(current) / 4 + 1),
        doubled(current) <= r <= doubled(current) + doubled(current) / 4,
{
    let base: u64 = if current > BACKOFF_MAX_MS / 2 {
        BACKOFF_MAX_MS
    } else {
        current * 2
    };
    base + random % (base / 4 + 1)
}

/// Computes the next delay: double, cap, then add up to 25% jitter so two peers
/// restarted together do not hammer the relay in lockstep.
pub fn next_backoff(current: u64) -> (r: u64)
    ensures
        doubled(current) <= r <= doubled(current) + doubled(current) / 4,
{
    backoff_with(current, random_u64())
}

/// The delay `n` failures in a row lead to, at least.
pub open spec fn delay_after(start: u64, n: nat) -> int
    decreases n,
{
    if n == 0 {
        start as int
    } else if 2 * delay_after(start, (n - 1) as nat) > BACKOFF_MAX_MS {
        BACKOFF_MAX_MS as int
    } else {
        2 * delay_after(start, (n - 1) as nat)
    }
}

/// Whatever the jitter, the delays of a run of failures grow to the cap, and
/// stay within a quarter above it.
pub proof fn delays_stay_within_bounds(delays: Seq<u64>)
    requires
        delays.len() > 0,
        delays[0] == BACKOFF_START_MS,
        forall|i: int|
            0 <= i && #[trigger] (i + 1) < delays.len() ==> doubled(delays[i]) <= delays[i + 1]
                <= doubled(delays[i]) + doubled(delays[i]) / 4,
    ensures
        forall|i: int|
            0 <= i < delays.len() ==> delay_after(BACKOFF_START_MS, i as nat) <= #[trigger] delays[i]
                <= BACKOFF_MAX_MS + BACKOFF_MAX_MS / 4,
        forall|i: int| 5 <= i < delays.len() ==> #[trigger] delays[i] >= BACKOFF_MAX_MS,
{
    assert forall|i: int| 0 <= i < delays.len() implies delay_after(BACKOFF_START_MS, i as nat)
        <= #[trigger] delays[i] <= BACKOFF_MAX_MS + BACKOFF_MAX_MS / 4 by {
        delay_bound(delays, i);
    }
    assert forall|i: int| 5 <= i < delays.len() implies #[trigger] delays[i] >= BACKOFF_MAX_MS by {
        delay_bound(delays, i);
        delay_reaches_the_cap(i as nat);
    }
}

proof fn delay_bound(delays: Seq<u64>, i: int)
    requires
        delays.len() > 0,
        delays[0] == BACKOFF_START_MS,
        forall|i: int|
            0 <= i && #[trigger] (i + 1) < delays.len() ==> doubled(delays[i]) <= delays[i + 1]
                <= doubled(delays[i]) + doubled(delays[i]) / 4,
        0 <= i < delays.len(),
    ensures
        delay_after(BACKOFF_START_MS, i as nat) <= delays[i] <= BACKOFF_MAX_MS + BACKOFF_MAX_MS / 4,
    decreases i,
{
    if i > 0 {
        delay_bound(delays, i - 1);
        assert((i - 1) + 1 < delays.len());
    }
}

proof fn delay_reaches_the_cap(n: nat)
    requires
        n >= 5,
    ensures
        delay_after(BACKOFF_START_MS, n) == BACKOFF_MAX_MS,
    decreases n,
{
    if n == 5 {
        reveal_with_fuel(delay_after, 6);
    } else {
        delay_reaches_the_cap((n - 1) as nat);
    }
}

// ---------------------------------------------------------------------------
// The engine
// ---------------------------------------------------------------------------

/// The engine's state.
pub struct Client {
    pub cfg: ClientConfig,
    pub keys: RoomKeys,
    /// Last published status, replayed after a reconnect.
    pub last_status: Option<StatusSnapshot>,
    pub last_todos: Option<Vec<Todo>>,
    /// Delay before the next attempt, should this one fail.
    pub backoff: u64,
}

/// Counting the characters of a code that matter is normalising it.
pub proof fn paired_codes_are_long_enough(code: Seq<char>)
    ensures
        code.filter(|c: char| is_code_char(c)).len() == normalised(code).len(),
    decreases code.len(),
{
    reveal(Seq::filter);
    if code.len() > 0 {
        paired_codes_are_long_enough(code.drop_last());
    }
}

/// `code: message`.
fn colon(code: &str, message: &str) -> (r: String)
    ensures
        r@ == code@ + ": "@ + message@,
{
    code.to_string().concat(": ").concat(message)
}

/// The two clocks are this far apart.
pub open spec fn skew(now: int, server_time: int) -> int {
    if now >= server_time {
        now - server_time
    } else {
        server_time - now
    }
}

/// A message with the whole to-do list of a device.
pub open spec fn is_todos_message(
    msg: PeerMessage,
    device_id: String,
    items: Seq<Todo>,
    at: i64,
) -> bool {
    msg matches PeerMessage::Todos { device_id: id, items: list, at: t } && id == device_id
        && list@ == items && t == at
}

/// What the answer to our authentication means: who is there, and whether the clocks
/// are too far apart.
pub open spec fn welcomed(
    frame: Option<Frame>,
    now: int,
    outcome: Result<Vec<Event>, SessionError>,
) -> bool {
    match frame {
        Some(Frame::Welcome(w)) => {
            let peers = w.peers@;
            let apart = skew(now, w.server_time as int);
            &&& outcome matches Ok(events)
            &&& events@.len() == peers.len() + (if apart > 60_000 {
                1int
            } else {
                0
            })
            &&& forall|i: int|
                0 <= i < peers.len() ==> #[trigger] events@[i] == (Event::PeerPresence {
                    device_id: peers[i],
                    online: true,
                })
            &&& apart > 60_000 ==> (events@.last() matches Event::Warning(text) && text@
                == "本机时间与服务器相差 "@ + decimal((apart / 1000) as nat)
                + " 秒，番茄钟与状态时间可能不准"@)
        },
        Some(Frame::Error(e)) => outcome matches Err(x) && is_rejected(
            x,
            e.code@ + ": "@ + e.message@,
        ),
        Some(other) => outcome matches Err(x) && is_transport(
            x,
            "认证后收到意外帧: "@ + frame_text(other),
        ),
        None => outcome matches Err(x) && is_transport(x, "认证后连接被关闭"@),
    }
}

/// What a command does to an engine that was rejected.
pub open spec fn wakes(command: Option<Command>) -> Wake {
    match command {
        Some(Command::Reconnect(cfg)) => Wake::Reconnect(cfg),
        Some(Command::Shutdown) => Wake::Shutdown,
        None => Wake::Shutdown,
        Some(_) => Wake::Wait,
    }
}

/// What a message of a peer leads to.
pub open spec fn dispatched(msg: PeerMessage, step: Step) -> bool {
    match msg {
        PeerMessage::Status(s) => step == Step::Emit(Event::PeerStatus(s)),
        PeerMessage::Todos { device_id, items, at } => step == Step::Emit(
            Event::PeerTodos { device_id, items },
        ),
        PeerMessage::Nudge(n) => step == Step::Emit(Event::Nudge(n)),
        PeerMessage::Ping { at } => step == Step::Send(PeerMessage::Pong { at }),
        PeerMessage::Pong { at } => step is Idle,
    }
}

/// What is said of a code that gives no keys.
pub open spec fn refused_code(code: Seq<char>) -> Seq<char> {
    if normalised(code).len() < 8 {
        CryptoError::CodeTooShort.text()
    } else {
        CryptoError::Derive.text()
    }
}

/// The error is retryable, and says this.
pub open spec fn is_transport(e: SessionError, text: Seq<char>) -> bool {
    e matches SessionError::Transport(why) && why@ == text
}

/// The error is final, and says this.
pub open spec fn is_rejected(e: SessionError, text: Seq<char>) -> bool {
    e matches SessionError::Rejected(why) && why@ == text
}

impl Client {
    /// The keys belong to the configured code.
    pub open spec fn wf(&self) -> bool {
        self.keys@ == keys_of(self.cfg.invite_code@)
    }

    /// The status that is replayed once a configuration is taken on: none, if that
    /// one allows less to be told than the status was made under.
    pub open spec fn kept_status(self, cfg: ClientConfig) -> Option<StatusSnapshot> {
        if self.cfg.privacy.within(cfg.privacy) {
            self.last_status
        } else {
            None
        }
    }

    /// The list that is replayed once a configuration is taken on: none that is not
    /// to be shared any more.
    pub open spec fn kept_todos(self, cfg: ClientConfig) -> Option<Vec<Todo>> {
        if cfg.privacy.share_todos {
            self.last_todos
        } else {
            None
        }
    }

    /// What a command of the UI does during a session.
    pub open spec fn obeys(
        self,
        command: Option<Command>,
        now: i64,
        after: Client,
        step: Step,
    ) -> bool {
        match command {
            Some(Command::Publish(status)) => {
                &&& step == Step::Send(PeerMessage::Status(status))
                &&& after.last_status == Some(status)
                &&& after.last_todos == self.last_todos
                &&& after.cfg == self.cfg
            },
            Some(Command::PublishTodos(items)) => {
                &&& step matches Step::Send(msg) && is_todos_message(
                    msg,
                    self.cfg.device_id,
                    items@,
                    now,
                )
                &&& after.last_todos == Some(items)
                &&& after.last_status == self.last_status
                &&& after.cfg == self.cfg
            },
            Some(Command::Nudge(nudge)) => {
                &&& step == Step::Send(PeerMessage::Nudge(nudge))
                &&& after == self
            },
            Some(Command::Reconnect(cfg)) => {
                if 8 <= normalised(cfg.invite_code@).len() <= 0xffff_ffff {
                    &&& step == Step::End(SessionEnd::Reconnect)
                    &&& after.cfg == *cfg
                    &&& after.last_status == self.kept_status(*cfg)
                    &&& after.last_todos == self.kept_todos(*cfg)
                } else {
                    (step matches Step::Fail(e) && is_rejected(e, refused_code(cfg.invite_code@)))
                        && after == self
                }
            },
            Some(Command::Shutdown) => step == Step::End(SessionEnd::Shutdown) && after
                == self,
            None => step == Step::End(SessionEnd::Shutdown) && after == self,
        }
    }

    /// What follows a session that is over.
    pub open spec fn parts(
        self,
        end: Result<SessionEnd, SessionError>,
        after: Client,
        done: (Option<Event>, Next),
    ) -> bool {
        match end {
            Ok(SessionEnd::Shutdown) => done == (None::<Event>, Next::Stop) && after.backoff
                == self.backoff,
            Ok(SessionEnd::Reconnect) => done == (None::<Event>, Next::Again) && after.backoff == BACKOFF_START_MS,
            Err(SessionError::Rejected(why)) => done == (
                Some(Event::State(ConnState::Rejected(why))),
                Next::Await,
            ) && after.backoff == self.backoff,
            Ok(SessionEnd::Closed) => {
                &&& done.0 matches Some(Event::State(ConnState::Offline(text))) && text@
                    == "连接已关闭"@
                &&& done.1 == Next::Sleep(self.backoff)
                &&& doubled(self.backoff) <= after.backoff <= doubled(
                    self.backoff,
                ) + doubled(self.backoff) / 4
            },
            Err(SessionError::Transport(why)) => {
                &&& done.0 == Some(Event::State(ConnState::Offline(why)))
                &&& done.1 == Next::Sleep(self.backoff)
                &&& doubled(self.backoff) <= after.backoff <= doubled(
                    self.backoff,
                ) + doubled(self.backoff) / 4
            },
        }
    }

    /// What a command of the UI does while the engine sleeps.
    pub open spec fn dozes(self, command: Option<Command>, after: Client, wake: Wake) -> bool {
        &&& match command {
            Some(Command::Reconnect(cfg)) => wake == Wake::Reconnect(cfg),
            Some(Command::Shutdown) => wake is Shutdown,
            None => wake is Shutdown,
            Some(_) => wake is Wait,
        }
        &&& after.last_status == match command {
            Some(Command::Publish(s)) => Some(s),
            _ => self.last_status,
        }
        &&& after.last_todos == match command {
            Some(Command::PublishTodos(t)) => Some(t),
            _ => self.last_todos,
        }
    }

    /// What is published again on a new connection.
    pub open spec fn republishes(self, now: i64, out: Seq<PeerMessage>) -> bool {
        &&& out.len() == (if self.last_status is Some {
            1int
        } else {
            0
        }) + (if self.last_todos is Some {
            1int
        } else {
            0
        })
        &&& self.last_status matches Some(s) ==> out[0] == PeerMessage::Status(s)
        &&& self.last_todos matches Some(items) ==> is_todos_message(
            out.last(),
            self.cfg.device_id,
            items@,
            now,
        )
    }

    /// Builds the engine.
    ///
    /// Key derivation runs here, so this is a good place for the UI to show a
    /// brief "pairing" state: Argon2id takes ~100 ms.
    pub fn spawn(cfg: ClientConfig) -> (r: Result<Client, ClientError>)
        ensures
            r == Err::<Client, _>(ClientError::NotPaired) <==> normalised(cfg.invite_code@).len()
                < 8,
            r is Ok <==> 8 <= normalised(cfg.invite_code@).len() <= 0xffff_ffff,
            r matches Err(e) ==> e == ClientError::NotPaired || e == ClientError::Keys(
                CryptoError::Derive,
            ),
            r matches Ok(client) ==> {
                &&& client.wf()
                &&& client.cfg == cfg
                &&& client.last_status is None
                &&& client.last_todos is None
                &&& client.backoff == BACKOFF_START_MS
            },
    {
        proof {
            paired_codes_are_long_enough(cfg.invite_code@);
        }
        if !cfg.is_paired() {
            return Err(ClientError::NotPaired);
        }
        match RoomKeys::derive(cfg.invite_code.as_str()) {
            Ok(keys) => Ok(
                Client {
                    cfg,
                    keys,
                    last_status: None,
                    last_todos: None,
                    backoff: BACKOFF_START_MS,
                },
            ),
            Err(e) => Err(ClientError::Keys(e)),
        }
    }

    /// Takes on an edited configuration, and forgets what it does not allow to be
    /// told; a code that gives no keys changes nothing.
    pub fn reconfigure(&mut self, cfg: Box<ClientConfig>) -> (r: Result<(), CryptoError>)
        requires
            old(self).wf(),
        ensures
            final(self).wf(),
            r is Ok <==> 8 <= normalised(cfg.invite_code@).len() <= 0xffff_ffff,
            r matches Err(e) ==> e == (if normalised(cfg.invite_code@).len() < 8 {
                CryptoError::CodeTooShort
            } else {
                CryptoError::Derive
            }) && *final(self) == *old(self),
            r is Ok ==> {
                &&& final(self).cfg == *cfg
                &&& final(self).last_status == old(self).kept_status(*cfg)
                &&& final(self).last_todos == old(self).kept_todos(*cfg)
                &&& final(self).backoff == old(self).backoff
            },
    {
        match RoomKeys::derive(cfg.invite_code.as_str()) {
            Ok(keys) => {
                if !self.cfg.privacy.is_within(&cfg.privacy) {
                    self.last_status = None;
                }
                if !cfg.privacy.share_todos {
                    self.last_todos = None;
                }
                self.keys = keys;
                self.cfg = *cfg;
                Ok(())
            },
            Err(e) => Err(e),
        }
    }

    // --- handshake ----------------------------------------------------------

    /// The frame that opens a session.
    pub fn hello(&self) -> (r: Frame)
        ensures
            r matches Frame::Hello(h) && {
                &&& h.proto == PROTOCOL_VERSION
                &&& h.room@ == hex(self.keys@.room_id)
                &&& h.device_id == self.cfg.device_id
                &&& h.version@ == VERSION@
                &&& h.user == self.cfg.user
                &&& h.name == self.cfg.device_name
            },
    {
        Frame::Hello(
            Hello {
                proto: PROTOCOL_VERSION,
                room: self.keys.room_id_hex(),
                device_id: self.cfg.device_id.clone(),
                version: VERSION.to_string(),
                user: self.cfg.user.clone(),
                name: self.cfg.device_name.clone(),
            },
        )
    }

    /// The relay's answer to the opening frame: a challenge is answered, anything
    /// else ends the attempt.
    pub fn on_challenge(&self, frame: Option<Frame>) -> (r: Result<Frame, SessionError>)
        ensures
            match frame {
                Some(Frame::Challenge(c)) => {
                    &&& r is Ok <==> exists|d: Seq<u8>| #[trigger] base64_text(d) == c.nonce@
                    &&& forall|d: Seq<u8>| #[trigger]
                        base64_text(d) == c.nonce@ ==> (r matches Ok(Frame::Auth(a)) && a.mac@
                            == base64_text(auth_tag(self.keys@, d)))
                    &&& r matches Err(e) ==> is_transport(e, not_base64(c.nonce@))
                },
                Some(Frame::Error(e)) => r matches Err(x) && is_rejected(
                    x,
                    e.code@ + ": "@ + e.message@,
                ),
                Some(other) => r matches Err(x) && is_transport(
                    x,
                    "握手时收到意外帧: "@ + frame_text(other),
                ),
                None => r matches Err(x) && is_transport(x, "服务器在握手时关闭连接"@),
            },
    {
        match frame {
            Some(Frame::Challenge(c)) => match unb64(c.nonce.as_str()) {
                Ok(nonce) => {
                    let mac = self.keys.auth_response(nonce.as_slice());
                    let reply = Frame::Auth(Auth { mac: b64(mac.as_slice()) });
                    proof {
                        assert forall|d: Seq<u8>| #[trigger] base64_text(d) == c.nonce@ implies d
                            == nonce@ by {
                            crate::proto::base64_reads_back(d, nonce@);
                        }
                    }
                    Ok(reply)
                },
                Err(e) => Err(SessionError::Transport(e.message())),
            },
            Some(Frame::Error(e)) => Err(
                SessionError::Rejected(colon(e.code.as_str(), e.message.as_str())),
            ),
            Some(other) => Err(
                SessionError::Transport("握手时收到意外帧: ".to_string().concat(
                    show_frame(&other).as_str(),
                )),
            ),
            None => Err(SessionError::Transport("服务器在握手时关闭连接".to_string())),
        }
    }

    /// The relay's answer to the authentication: what the UI learns from a
    /// welcome, or why the attempt ends.
    ///
    /// A large clock skew breaks pomodoro deadlines and staleness, so it gets a
    /// warning.
    pub fn on_welcome(&self, frame: Option<Frame>, now: i64) -> (r: Result<
        Vec<Event>,
        SessionError,
    >)
        ensures
            welcomed(frame, now as int, r),
    {
        match frame {
            Some(Frame::Welcome(w)) => {
                let mut events: Vec<Event> = Vec::new();
                for i in 0..w.peers.len()
                    invariant
                        events@.len() == i,
                        forall|j: int|
                            0 <= j < i ==> #[trigger] events@[j] == (Event::PeerPresence {
                                device_id: w.peers@[j],
                                online: true,
                            }),
                {
                    events.push(
                        Event::PeerPresence { device_id: w.peers[i].clone(), online: true },
                    );
                }
                let wide: i128 = now as i128 - w.server_time as i128;
                let apart: u64 = if wide >= 0 {
                    wide as u64
                } else {
                    (-wide) as u64
                };
                if apart > 60_000 {
                    events.push(
                        Event::Warning(
                            "本机时间与服务器相差 ".to_string().concat(
                                decimal_text(apart / 1000).as_str(),
                            ).concat(" 秒，番茄钟与状态时间可能不准"),
                        ),
                    );
                }
                Ok(events)
            },
            Some(Frame::Error(e)) => Err(
                SessionError::Rejected(colon(e.code.as_str(), e.message.as_str())),
            ),
            Some(other) => Err(
                SessionError::Transport("认证后收到意外帧: ".to_string().concat(
                    show_frame(&other).as_str(),
                )),
            ),
            None => Err(SessionError::Transport("认证后连接被关闭".to_string())),
        }
    }

    /// What is sent right after the handshake, so the peer sees us without waiting
    /// for the next poll.
    pub fn republish(&self, now: i64) -> (r: Vec<PeerMessage>)
        ensures
            self.republishes(now, r@),
    {
        let mut out: Vec<PeerMessage> = Vec::new();
        if let Some(s) = &self.last_status {
            out.push(PeerMessage::Status(s.clone()));
        }
        if let Some(items) = &self.last_todos {
            out.push(
                PeerMessage::Todos {
                    device_id: self.cfg.device_id.clone(),
                    items: clone_todos(items),
                    at: now,
                },
            );
        }
        out
    }

    // --- session ------------------------------------------------------------

    /// A command during a session. `None` means the handle was dropped.
    pub fn on_command(&mut self, command: Option<Command>, now: i64) -> (r: Step)
        requires
            old(self).wf(),
        ensures
            final(self).wf(),
            final(self).backoff == old(self).backoff,
            old(self).obeys(command, now, *final(self), r),
    {
        match command {
            Some(Command::Publish(status)) => {
                self.last_status = Some(status.clone());
                Step::Send(PeerMessage::Status(status))
            },
            Some(Command::PublishTodos(items)) => {
                let msg = PeerMessage::Todos {
                    device_id: self.cfg.device_id.clone(),
                    items: clone_todos(&items),
                    at: now,
                };
                self.last_todos = Some(items);
                Step::Send(msg)
            },
            Some(Command::Nudge(nudge)) => Step::Send(PeerMessage::Nudge(nudge)),
            Some(Command::Reconnect(cfg)) => match self.reconfigure(cfg) {
                Ok(()) => Step::End(SessionEnd::Reconnect),
                Err(e) => Step::Fail(SessionError::Rejected(e.message().to_string())),
            },
            Some(Command::Shutdown) => Step::End(SessionEnd::Shutdown),
            None => Step::End(SessionEnd::Shutdown),
        }
    }

    /// What a relayed payload holds: base64 of a box sealed by the device that
    /// the relay names as its sender.
    ///
    /// The sender's device id is the AEAD `aad`, so a peer inside the room cannot
    /// re-attribute someone else's sealed message to a different device.
    pub open spec fn payload(self, relay: Relay, sealed: Seq<u8>) -> Option<Seq<u8>> {
        if base64_text(sealed) == relay.body@ {
            opened(self.keys@, sealed, encode_utf8(relay.from@))
        } else {
            None
        }
    }

    /// What is said of a payload that cannot be read: it is not base64, too short
    /// for a box, or not sealed with these keys by that sender.
    pub open spec fn why_unreadable(self, relay: Relay, why: Seq<char>) -> bool {
        &&& (forall|sealed: Seq<u8>| #[trigger] base64_text(sealed) != relay.body@) ==> why
            == not_base64(relay.body@)
        &&& forall|sealed: Seq<u8>| #[trigger]
            base64_text(sealed) == relay.body@ ==> why == (if sealed.len() < 40 {
                CryptoError::TooShort.text()
            } else {
                CryptoError::Decrypt.text()
            })
    }

    /// Decrypts a relayed payload.
    pub fn decrypt_peer(&self, relay: &Relay) -> (r: Result<Vec<u8>, String>)
        ensures
            r matches Ok(plain) ==> exists|sealed: Seq<u8>| #[trigger]
                self.payload(*relay, sealed) == Some(plain@),
            forall|sealed: Seq<u8>|
                (#[trigger] self.payload(*relay, sealed)) matches Some(p) ==> (r matches Ok(plain)
                    && plain@ == p),
            r matches Err(why) ==> self.why_unreadable(*relay, why@),
    {
        match unb64(relay.body.as_str()) {
            Ok(sealed) => {
                proof {
                    assert forall|other: Seq<u8>| #[trigger]
                        base64_text(other) == relay.body@ implies other == sealed@ by {
                        crate::proto::base64_reads_back(other, sealed@);
                    }
                    assert forall|other: Seq<u8>| (#[trigger] self.payload(*relay, other)) is Some
                        implies other == sealed@ by {
                        assert(base64_text(other) == relay.body@);
                    }
                }
                match self.keys.open(sealed.as_slice(), relay.from.as_str().as_bytes()) {
                    Ok(plain) => {
                        assert(self.payload(*relay, sealed@) == Some(plain@));
                        Ok(plain)
                    },
                    Err(e) => Err(e.message().to_string()),
                }
            },
            Err(e) => Err(e.message()),
        }
    }

    /// What is to be done about a frame during a session.
    pub open spec fn frame_step(self, frame: Frame, step: Step) -> bool {
        match frame {
            // Our own echo, which happens if the relay ever fans out to the whole
            // room including the sender, is ignored. A payload that cannot be read
            // is reported rather than tearing the session down: almost always the
            // invite codes differ.
            Frame::Relay(relay) => if relay.from@ == self.cfg.device_id@ {
                step is Idle
            } else if exists|sealed: Seq<u8>| #[trigger] self.payload(relay, sealed) is Some {
                step matches Step::Payload(plain) && exists|sealed: Seq<u8>| #[trigger]
                    self.payload(relay, sealed) == Some(plain@)
            } else {
                step matches Step::Emit(Event::Warning(text)) && exists|why: Seq<char>| #[trigger]
                    self.why_unreadable(relay, why) && text@ == "无法解密对方消息: "@ + why
            },
            Frame::Presence(p) => step == Step::Emit(
                Event::PeerPresence { device_id: p.device_id, online: p.online },
            ),
            Frame::Ping => step == Step::Reply(Frame::Pong),
            Frame::Pong => step is Idle,
            Frame::Error(e) => step matches Step::Emit(Event::Warning(text)) && text@
                == "服务器错误 "@ + e.code@ + ": "@ + e.message@,
            // Handshake frames after the handshake mean the peer or relay is
            // confused; a protocol error, after which to reconnect.
            other => step matches Step::Fail(x) && is_transport(
                x,
                "会话中收到意外帧: "@ + frame_text(other),
            ),
        }
    }

    /// A frame from the relay during a session.
    pub fn handle_frame(&self, frame: Frame) -> (r: Step)
        ensures
            self.frame_step(frame, r),
    {
        match frame {
            Frame::Relay(relay) => {
                if relay.from == self.cfg.device_id {
                    return Step::Idle;
                }
                match self.decrypt_peer(&relay) {
                    Ok(plain) => Step::Payload(plain),
                    Err(why) => {
                        assert(self.why_unreadable(relay, why@));
                        Step::Emit(
                            Event::Warning("无法解密对方消息: ".to_string().concat(why.as_str())),
                        )
                    },
                }
            },
            Frame::Presence(p) => Step::Emit(
                Event::PeerPresence { device_id: p.device_id, online: p.online },
            ),
            Frame::Ping => Step::Reply(Frame::Pong),
            Frame::Pong => Step::Idle,
            Frame::Error(e) => Step::Emit(
                Event::Warning(
                    "服务器错误 ".to_string().concat(e.code.as_str()).concat(": ").concat(
                        e.message.as_str(),
                    ),
                ),
            ),
            other => Step::Fail(
                SessionError::Transport("会话中收到意外帧: ".to_string().concat(
                    show_frame(&other).as_str(),
                )),
            ),
        }
    }

    /// What was read during a session: a frame, or the end of the stream.
    pub fn on_read(&self, frame: Option<Frame>) -> (r: Step)
        ensures
            match frame {
                Some(f) => self.frame_step(f, r),
                None => r == Step::End(SessionEnd::Closed),
            },
    {
        match frame {
            Some(f) => self.handle_frame(f),
            None => Step::End(SessionEnd::Closed),
        }
    }

    /// A payload has one reading only.
    pub proof fn payload_is_unique(self, relay: Relay, a: Seq<u8>, b: Seq<u8>)
        requires
            self.payload(relay, a) is Some,
            self.payload(relay, b) is Some,
        ensures
            a == b,
            self.payload(relay, a) == self.payload(relay, b),
    {
        crate::proto::base64_reads_back(a, b);
    }

    /// A message from the peer, decrypted and parsed.
    pub fn dispatch_peer(msg: PeerMessage) -> (r: Step)
        ensures
            dispatched(msg, r),
    {
        match msg {
            PeerMessage::Status(s) => Step::Emit(Event::PeerStatus(s)),
            PeerMessage::Todos { device_id, items, .. } => Step::Emit(
                Event::PeerTodos { device_id, items },
            ),
            PeerMessage::Nudge(n) => Step::Emit(Event::Nudge(n)),
            PeerMessage::Ping { at } => Step::Send(PeerMessage::Pong { at }),
            PeerMessage::Pong { .. } => Step::Idle,
        }
    }

    /// Seals a serialised message for the peer. The frame names this device as the
    /// sender, and a client with the same code reads the payload back.
    pub fn send_peer(&self, payload: &[u8], slot: Option<&'static str>) -> (r: Result<
        Frame,
        CryptoError,
    >)
        requires
            (payload@.len() + 42) / 3 * 4 <= isize::MAX,
        ensures
            r is Ok <==> payload@.len() <= crate::crypto::MAX_PLAINTEXT,
            r matches Err(e) ==> e == CryptoError::Encrypt,
            r matches Ok(frame) ==> (frame matches Frame::Relay(relay) && {
                &&& relay.from == self.cfg.device_id
                &&& match slot {
                    Some(s) => relay.retain matches Some(name) && name@ == s@,
                    None => relay.retain is None,
                }
                &&& exists|sealed: Seq<u8>| #[trigger]
                    self.payload(relay, sealed) == Some(payload@)
            }),
    {
        match self.keys.seal(payload, self.cfg.device_id.as_str().as_bytes()) {
            Ok(sealed) => {
                let relay = Relay {
                    from: self.cfg.device_id.clone(),
                    body: b64(sealed.as_slice()),
                    retain: match slot {
                        Some(s) => Some(s.to_string()),
                        None => None,
                    },
                };
                assert(self.payload(relay, sealed@) == Some(payload@));
                Ok(Frame::Relay(relay))
            },
            Err(e) => Err(e),
        }
    }

    // --- between sessions ---------------------------------------------------

    /// What follows the end of a session: what the UI is told, and when to try
    /// again. How much jitter the delay after this one gets depends on chance.
    pub fn after_session(&mut self, end: Result<SessionEnd, SessionError>) -> (r: (
        Option<Event>,
        Next,
    ))
        ensures
            final(self).cfg == old(self).cfg,
            final(self).keys == old(self).keys,
            final(self).last_status == old(self).last_status,
            final(self).last_todos == old(self).last_todos,
            old(self).parts(end, *final(self), r),
    {
        match end {
            Ok(SessionEnd::Shutdown) => (None, Next::Stop),
            Ok(SessionEnd::Reconnect) => {
                // Config changed: connect again straight away.
                self.backoff = BACKOFF_START_MS;
                (None, Next::Again)
            },
            Ok(SessionEnd::Closed) => {
                let delay: u64 = self.backoff;
                self.backoff = next_backoff(delay);
                (
                    Some(Event::State(ConnState::Offline("连接已关闭".to_string()))),
                    Next::Sleep(delay),
                )
            },
            // Wrong code or protocol: stop retrying and wait for the user to change
            // something.
            Err(SessionError::Rejected(why)) => (
                Some(Event::State(ConnState::Rejected(why))),
                Next::Await,
            ),
            Err(SessionError::Transport(why)) => {
                let delay: u64 = self.backoff;
                self.backoff = next_backoff(delay);
                (Some(Event::State(ConnState::Offline(why))), Next::Sleep(delay))
            },
        }
    }

    /// A command after a terminal rejection: everything but a reconnect or a
    /// shutdown is ignored.
    pub fn on_command_rejected(command: Option<Command>) -> (r: Wake)
        ensures
            r == wakes(command),
    {
        match command {
            Some(Command::Reconnect(cfg)) => Wake::Reconnect(cfg),
            Some(Command::Shutdown) | None => Wake::Shutdown,
            Some(_) => Wake::Wait,
        }
    }

    /// A command while the engine sleeps. Offline edits are remembered so they are
    /// published on connect. Nudges are dropped rather than queued: a poke that
    /// arrives ten minutes late is worse than none.
    pub fn on_command_asleep(&mut self, command: Option<Command>) -> (r: Wake)
        ensures
            final(self).cfg == old(self).cfg,
            final(self).keys == old(self).keys,
            final(self).backoff == old(self).backoff,
            old(self).dozes(command, *final(self), r),
    {
        match command {
            Some(Command::Reconnect(cfg)) => Wake::Reconnect(cfg),
            Some(Command::Shutdown) | None => Wake::Shutdown,
            Some(Command::Publish(s)) => {
                self.last_status = Some(s);
                Wake::Wait
            },
            Some(Command::PublishTodos(t)) => {
                self.last_todos = Some(t);
                Wake::Wait
            },
            Some(Command::Nudge(_)) => Wake::Wait,
        }
    }

    /// A reconnect that the user asked for: the new configuration if it has keys,
    /// else the old one with a warning; either way the backoff starts afresh.
    pub fn wake_with(&mut self, cfg: Box<ClientConfig>) -> (r: Option<Event>)
        requires
            old(self).wf(),
        ensures
            final(self).wf(),
            final(self).backoff == BACKOFF_START_MS,
            if 8 <= normalised(cfg.invite_code@).len() <= 0xffff_ffff {
                &&& r is None
                &&& final(self).cfg == *cfg
                &&& final(self).last_status == old(self).kept_status(*cfg)
                &&& final(self).last_todos == old(self).kept_todos(*cfg)
            } else {
                &&& r matches Some(Event::Warning(text)) && text@ == refused_code(cfg.invite_code@)
                &&& final(self).cfg == old(self).cfg
                &&& final(self).last_status == old(self).last_status
                &&& final(self).last_todos == old(self).last_todos
            },
    {
        let warning = match self.reconfigure(cfg) {
            Ok(()) => None,
            Err(e) => Some(Event::Warning(e.message().to_string())),
        };
        self.backoff = BACKOFF_START_MS;
        warning
    }
}

/// What was made under other settings is not replayed under ones that allow less:
/// no list once lists are not shared, and no status once anything that could be told
/// may not be told any more. Where nothing is taken back, both are replayed.
pub proof fn unshared_is_not_replayed(c: Client, cfg: ClientConfig)
    ensures
        !cfg.privacy.share_todos ==> c.kept_todos(cfg) is None,
        !c.cfg.privacy.within(cfg.privacy) ==> c.kept_status(cfg) is None,
        c.cfg.privacy.within(cfg.privacy) ==> c.kept_status(cfg) == c.last_status,
        cfg.privacy.share_todos ==> c.kept_todos(cfg) == c.last_todos,
{
}

/// What a client sends, every client with the same invite code reads, however the
/// code was typed.
pub proof fn same_code_reads_the_payload(a: Client, b: Client, relay: Relay, sealed: Seq<u8>)
    requires
        a.wf(),
        b.wf(),
        normalised(a.cfg.invite_code@) == normalised(b.cfg.invite_code@),
    ensures
        b.payload(relay, sealed) == a.payload(relay, sealed),
{
}

/// Each failure doubles the delay, up to half a minute; the jitter adds a quarter at
/// most. A delay that was short enough grows, and none falls below the cap again.
pub proof fn delays_double_up_to_the_cap(current: u64)
    ensures
        current <= 15_000 ==> doubled(current) == 2 * current,
        current >= 15_000 ==> doubled(current) == 30_000,
{
}

/// What was published last, during a session or while the engine slept, is what a new
/// connection publishes again; a nudge is not.
pub proof fn the_last_word_is_published_again(
    c: Client,
    mid: Client,
    status: StatusSnapshot,
    items: Vec<Todo>,
    nudge: Nudge,
    now: i64,
    later: i64,
    step: Step,
    wake: Wake,
    out: Seq<PeerMessage>,
)
    requires
        mid.republishes(later, out),
    ensures
        c.obeys(Some(Command::Publish(status)), now, mid, step) || c.dozes(
            Some(Command::Publish(status)),
            mid,
            wake,
        ) ==> out.len() >= 1 && out[0] == PeerMessage::Status(status) && mid.last_todos
            == c.last_todos,
        c.obeys(Some(Command::PublishTodos(items)), now, mid, step) || c.dozes(
            Some(Command::PublishTodos(items)),
            mid,
            wake,
        ) ==> out.len() >= 1 && (out.last() matches PeerMessage::Todos { items: list, .. } && list@
            == items@) && mid.last_status == c.last_status,
        c.obeys(Some(Command::Nudge(nudge)), now, mid, step) || c.dozes(
            Some(Command::Nudge(nudge)),
            mid,
            wake,
        ) ==> mid.last_status == c.last_status && mid.last_todos == c.last_todos,
{
}

/// During a session what the user publishes and sends goes to the peer, in the name
/// of the device.
pub proof fn commands_reach_the_peer(
    c: Client,
    after: Client,
    status: StatusSnapshot,
    items: Vec<Todo>,
    nudge: Nudge,
    now: i64,
    step: Step,
)
    ensures
        c.obeys(Some(Command::Publish(status)), now, after, step) ==> step == Step::Send(
            PeerMessage::Status(status),
        ),
        c.obeys(Some(Command::PublishTodos(items)), now, after, step) ==> (step matches Step::Send(
            PeerMessage::Todos { device_id, items: list, at },
        ) && device_id == c.cfg.device_id && list@ == items@ && at == now),
        c.obeys(Some(Command::Nudge(nudge)), now, after, step) ==> step == Step::Send(
            PeerMessage::Nudge(nudge),
        ),
        c.obeys(Some(Command::Shutdown), now, after, step) || c.obeys(None, now, after, step)
            ==> step == Step::End(SessionEnd::Shutdown) && after == c,
{
}

/// A new configuration with a usable code ends the session for another; one without
/// leaves everything as it was and is refused.
pub proof fn usable_configurations_are_taken(
    c: Client,
    after: Client,
    cfg: Box<ClientConfig>,
    now: i64,
    step: Step,
)
    requires
        c.obeys(Some(Command::Reconnect(cfg)), now, after, step),
        normalised(cfg.invite_code@).len() <= 0xffff_ffff,
    ensures
        normalised(cfg.invite_code@).len() >= 8 ==> after.cfg == *cfg && step == Step::End(
            SessionEnd::Reconnect,
        ),
        normalised(cfg.invite_code@).len() < 8 ==> after == c && step is Fail,
{
}

/// Each broken session is retried after the delay that was reached, and doubles it
/// for the next time, up to half a minute, give or take the jitter. A session that
/// was ended on purpose is not: it stops the engine, or starts the next one at once
/// with the shortest delay in reserve. One that was rejected waits for the user.
pub proof fn failures_back_off(
    c: Client,
    after: Client,
    end: Result<SessionEnd, SessionError>,
    done: (Option<Event>, Next),
)
    requires
        c.parts(end, after, done),
    ensures
        end == Ok::<SessionEnd, SessionError>(SessionEnd::Closed) || end is Err
            && end->Err_0 is Transport ==> {
            &&& done.1 == Next::Sleep(c.backoff)
            &&& done.0 is Some && done.0->0 is State && done.0->0->State_0 is Offline
            &&& c.backoff <= 15_000 ==> 2 * c.backoff <= after.backoff && 4 * after.backoff <= 10
                * c.backoff
            &&& c.backoff > 15_000 ==> 30_000 <= after.backoff <= 37_500
        },
        end == Ok::<SessionEnd, SessionError>(SessionEnd::Shutdown) ==> done.1 == Next::Stop
            && done.0 is None,
        end == Ok::<SessionEnd, SessionError>(SessionEnd::Reconnect) ==> done.1 == Next::Again
            && done.0 is None && after.backoff == 1_000,
        end is Err && end->Err_0 is Rejected ==> done.1 == Next::Await && done.0 == Some(
            Event::State(ConnState::Rejected(end->Err_0->Rejected_0)),
        ),
{
}

/// While the engine sleeps only a new configuration or the end wakes it.
pub proof fn only_changes_wake_the_engine(
    c: Client,
    after: Client,
    command: Option<Command>,
    wake: Wake,
)
    requires
        c.dozes(command, after, wake),
    ensures
        wake is Shutdown <==> command is None || command->0 is Shutdown,
        wake is Reconnect <==> command is Some && command->0 is Reconnect,
        wake matches Wake::Reconnect(cfg) ==> command == Some(Command::Reconnect(cfg)),
{
}

/// Those who were there before are announced one by one, and the user is warned when
/// the clocks are more than a minute apart, in either direction, and not otherwise.
pub proof fn newcomers_learn_who_is_there(
    w: Welcome,
    now: i64,
    outcome: Result<Vec<Event>, SessionError>,
    i: int,
)
    requires
        welcomed(Some(Frame::Welcome(w)), now as int, outcome),
    ensures
        outcome is Ok,
        ({
            let events = outcome->Ok_0@;
            let warned = now - w.server_time > 60_000 || w.server_time - now > 60_000;
            &&& events.len() == w.peers@.len() + if warned {
                1int
            } else {
                0
            }
            &&& 0 <= i < w.peers@.len() ==> events[i] == (Event::PeerPresence {
                device_id: w.peers@[i],
                online: true,
            })
            &&& warned ==> events.last() is Warning
        }),
{
}

/// A refusal by the relay is final; a lost connection, or a frame out of place, is
/// tried again.
pub proof fn only_refusals_are_final(
    frame: Option<Frame>,
    now: i64,
    outcome: Result<Vec<Event>, SessionError>,
)
    requires
        welcomed(frame, now as int, outcome),
    ensures
        outcome is Ok <==> frame is Some && frame->0 is Welcome,
        outcome is Err ==> (outcome->Err_0 is Rejected <==> frame is Some && frame->0 is Error),
{
}

/// What a peer says is handed on as it is, and a ping is answered with its own time.
pub proof fn peers_are_heard(
    status: StatusSnapshot,
    nudge: Nudge,
    device_id: String,
    items: Vec<Todo>,
    at: i64,
    step: Step,
)
    ensures
        dispatched(PeerMessage::Status(status), step) ==> step == Step::Emit(
            Event::PeerStatus(status),
        ),
        dispatched(PeerMessage::Nudge(nudge), step) ==> step == Step::Emit(Event::Nudge(nudge)),
        dispatched(PeerMessage::Todos { device_id, items, at }, step) ==> step == Step::Emit(
            Event::PeerTodos { device_id, items },
        ),
        dispatched(PeerMessage::Ping { at }, step) ==> step == Step::Send(PeerMessage::Pong { at }),
        dispatched(PeerMessage::Pong { at }, step) ==> step is Idle,
{
}

/// Frames of the relay are answered, told or ignored by what they are; our own words
/// never come back to us.
pub proof fn frames_are_sorted(c: Client, relay: Relay, p: Presence, frame: Frame, step: Step)
    ensures
        c.frame_step(Frame::Ping, step) ==> step == Step::Reply(Frame::Pong),
        c.frame_step(Frame::Pong, step) ==> step is Idle,
        c.frame_step(Frame::Presence(p), step) ==> step == Step::Emit(
            Event::PeerPresence { device_id: p.device_id, online: p.online },
        ),
        c.frame_step(Frame::Relay(relay), step) ==> {
            &&& relay.from@ == c.cfg.device_id@ ==> step is Idle
            &&& relay.from@ != c.cfg.device_id@ ==> step is Payload || (step is Emit
                && step->Emit_0 is Warning)
        },
        c.frame_step(frame, step) && (frame is Hello || frame is Challenge || frame is Auth
            || frame is Welcome) ==> step is Fail && step->Fail_0 is Transport,
{
}

/// A payload that opens with our keys under its sender's name is handed on, decrypted.
pub proof fn readable_payloads_are_read(
    c: Client,
    relay: Relay,
    sealed: Seq<u8>,
    plain: Seq<u8>,
    step: Step,
)
    requires
        relay.from@ != c.cfg.device_id@,
        c.payload(relay, sealed) == Some(plain),
        c.frame_step(Frame::Relay(relay), step),
    ensures
        step is Payload,
        step->Payload_0@ == plain,
{
    let other = choose|other: Seq<u8>| #[trigger]
        c.payload(relay, other) == Some(step->Payload_0@);
    c.payload_is_unique(relay, sealed, other);
}

/// An engine that was rejected waits for other settings or for its end, whatever else
/// it is asked.
pub proof fn rejected_engines_wait_for_settings(
    cfg: Box<ClientConfig>,
    status: StatusSnapshot,
    items: Vec<Todo>,
    nudge: Nudge,
)
    ensures
        wakes(Some(Command::Reconnect(cfg))) == Wake::Reconnect(cfg),
        wakes(Some(Command::Shutdown)) == Wake::Shutdown,
        wakes(None) == Wake::Shutdown,
        wakes(Some(Command::Publish(status))) == Wake::Wait,
        wakes(Some(Command::PublishTodos(items))) == Wake::Wait,
        wakes(Some(Command::Nudge(nudge))) == Wake::Wait,
{
}

}
