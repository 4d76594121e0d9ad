//! A relay and its clients, joined without a network in between.

use synctus::client::{Client, Command, ConnState, Event, Next, SessionEnd, SessionError, Step};
use synctus::config::ClientConfig;
use synctus::conn::{self, Session};
use synctus::hub::{Hub, Outbox};
use synctus::limiter::RateLimiter;
use synctus::model::{
    Battery, Nudge, NudgeKind, PeerMessage, Platform, Presence, StatusSnapshot, Todo,
};
use synctus::proto::{frame_len, Frame, ProtoError};

const NOW: i64 = 1_700_000_000_000;

/// A client on its connection. Messages travel as their number in `sent`, since
/// the library leaves their format to its callers.
struct Peer {
    client: Client,
    session: Session,
    limiter: RateLimiter,
    /// Frames that were written at the handshake and not yet read.
    inbox: Vec<Frame>,
}

struct World {
    hub: Hub,
    sent: Vec<PeerMessage>,
}

fn client(code: &str, device: &str) -> Client {
    let cfg = ClientConfig {
        server: "127.0.0.1:1".into(),
        tls: false,
        invite_code: code.into(),
        device_id: device.into(),
        device_name: format!("device-{device}"),
        ..ClientConfig::default()
    };
    match Client::spawn(cfg) {
        Ok(c) => c,
        Err(e) => panic!("{}", e.message()),
    }
}

fn copy(msg: &PeerMessage) -> PeerMessage {
    match msg {
        PeerMessage::Status(s) => PeerMessage::Status(s.clone()),
        PeerMessage::Nudge(n) => PeerMessage::Nudge(n.clone()),
        other => panic!("unexpected: {other:?}"),
    }
}

impl World {
    fn new() -> World {
        World { hub: Hub::new(8, 100, "127.0.0.1:1", false, 0), sent: Vec::new() }
    }

    /// Goes through the handshake; the events that it causes.
    fn connect(&mut self, client: Client) -> (Peer, Vec<Event>) {
        let (hello, challenge) =
            conn::greet(&mut self.hub, Some(client.hello()), 0).ok().expect("greeted");
        let auth = client.on_challenge(Some(challenge)).ok().expect("answered");
        let (session, mut frames) =
            conn::let_in(&mut self.hub, hello, Some(auth), 0, NOW, 25).ok().expect("let in");
        let welcome = frames.remove(0);
        let events = client.on_welcome(Some(welcome), NOW).ok().expect("welcomed");
        let limiter = RateLimiter::new(10, 30, 0);
        (Peer { client, session, limiter, inbox: frames }, events)
    }

    /// Carries out a command of a client's user.
    fn command(&mut self, peer: &mut Peer, command: Command) {
        match peer.client.on_command(Some(command), NOW) {
            Step::Send(msg) => self.send(peer, msg),
            other => panic!("unexpected: {other:?}"),
        }
    }

    fn send(&mut self, peer: &mut Peer, msg: PeerMessage) {
        let slot = msg.retain_slot();
        let payload = [self.sent.len() as u8];
        self.sent.push(msg);
        let frame = peer.client.send_peer(&payload, slot).expect("sealed");
        let reply =
            conn::handle(frame, &peer.session, &mut self.hub, &mut peer.limiter, 0).unwrap();
        assert!(reply.open && reply.frame.is_none());
    }

    /// Everything that has arrived for a client.
    fn receive(&mut self, peer: &mut Peer) -> Vec<Event> {
        let s = &peer.session;
        while let Outbox::Frame(f) = self.hub.try_recv(&s.room, &s.device, s.rx) {
            peer.inbox.push(f);
        }
        let mut events = Vec::new();
        for frame in peer.inbox.drain(..) {
            let step = match peer.client.on_read(Some(frame)) {
                Step::Payload(plain) => {
                    Client::dispatch_peer(copy(&self.sent[plain[0] as usize]))
                }
                step => step,
            };
            match step {
                Step::Emit(event) => events.push(event),
                Step::Idle => {}
                other => panic!("unexpected: {other:?}"),
            }
        }
        events
    }
}

/// The headline path: two devices with the same code exchange status and pokes.
#[test]
fn two_peers_exchange_status_and_nudges() {
    let mut world = World::new();
    let code = "TEST-CODE-ABCD-1234";
    let (mut alice, _) = world.connect(client(code, "alice"));
    let (mut bob, events) = world.connect(client(code, "bob"));
    assert!(matches!(
        &events[..],
        [Event::PeerPresence { device_id, online: true }] if device_id == "alice"
    ));

    // Alice publishes a status; Bob must receive the decrypted snapshot.
    let mut snapshot = StatusSnapshot::new("alice", "Alice PC", Platform::Linux);
    snapshot.presence = Presence::Resting;
    snapshot.battery = Some(Battery { percent: 73, charging: true, minutes_left: None });
    world.command(&mut alice, Command::Publish(snapshot));

    let events = world.receive(&mut bob);
    let [Event::PeerStatus(received)] = &events[..] else {
        panic!("unexpected: {events:?}");
    };
    assert_eq!(received.device_id, "alice");
    assert_eq!(received.name, "Alice PC");
    assert_eq!(received.presence, Presence::Resting);
    assert_eq!(received.battery.map(|b| b.percent), Some(73));

    // Bob pokes Alice.
    world.command(&mut bob, Command::Nudge(Nudge::new(NudgeKind::Knock, "Bob")));
    let events = world.receive(&mut alice);
    let Some(Event::Nudge(nudge)) = events.last() else {
        panic!("unexpected: {events:?}");
    };
    assert_eq!(nudge.kind, NudgeKind::Knock);
    assert_eq!(nudge.from_name, "Bob");
}

/// A device that connects later must immediately receive the retained status.
#[test]
fn late_joiner_receives_retained_status() {
    let mut world = World::new();
    let code = "RETAIN-CODE-9876";
    let (mut alice, _) = world.connect(client(code, "alice"));
    let mut snapshot = StatusSnapshot::new("alice", "Alice PC", Platform::Linux);
    snapshot.presence = Presence::Busy;
    world.command(&mut alice, Command::Publish(snapshot));

    // Bob starts only now and must still see Alice without waiting for her next
    // update.
    let (mut bob, _) = world.connect(client(code, "bob"));
    let events = world.receive(&mut bob);
    let [Event::PeerStatus(received)] = &events[..] else {
        panic!("unexpected: {events:?}");
    };
    assert_eq!(received.presence, Presence::Busy);
}

/// Two different invite codes must be completely isolated, even on the same
/// relay.
#[test]
fn different_invite_codes_are_isolated() {
    let mut world = World::new();
    let (mut alice, _) = world.connect(client("ROOM-CODE-AAAA-1111", "alice"));
    let (mut mallory, events) = world.connect(client("ROOM-CODE-AAAA-2222", "mallory"));
    assert!(events.is_empty());

    let mut snapshot = StatusSnapshot::new("alice", "Alice PC", Platform::Linux);
    snapshot.presence = Presence::Active;
    world.command(&mut alice, Command::Publish(snapshot));

    // Mallory is in a different room, so nothing arrives.
    assert!(
        world.receive(&mut mallory).is_empty(),
        "a different invite code must not receive the peer's status"
    );
}

/// The client must recover on its own when the relay goes away and comes back.
#[test]
fn client_reconnects_after_the_server_restarts() {
    let mut world = World::new();
    let code = "RECONNECT-CODE-42";
    let (mut alice, _) = world.connect(client(code, "alice"));
    let snapshot = StatusSnapshot::new("alice", "Alice PC", Platform::Linux);
    world.command(&mut alice, Command::Publish(snapshot));

    // The relay goes away; the client reports the drop and waits a second.
    let end = match alice.client.on_read(None) {
        Step::End(end) => end,
        other => panic!("unexpected: {other:?}"),
    };
    assert!(matches!(end, SessionEnd::Closed));
    let (event, next) = alice.client.after_session(Ok(end));
    assert!(matches!(event, Some(Event::State(ConnState::Offline(_)))));
    assert!(matches!(next, Next::Sleep(1_000)));
    // Nobody listens yet; the next wait is longer.
    let refused = SessionError::Transport("refused".into());
    let (_, next) = alice.client.after_session(Err(refused));
    assert!(matches!(next, Next::Sleep(ms) if (2_000..=2_500).contains(&ms)));

    // A relay is back, without anything that the old one knew.
    let mut world = World::new();
    let (mut alice, _) = world.connect(alice.client);
    let messages = alice.client.republish(NOW);
    assert_eq!(messages.len(), 1);
    for msg in messages {
        world.send(&mut alice, msg);
    }
    let (mut bob, _) = world.connect(client(code, "bob"));
    assert!(matches!(&world.receive(&mut bob)[..], [Event::PeerStatus(_)]));
}

/// What is not shared any more is not sent again after a reconnect.
#[test]
fn a_list_is_forgotten_with_its_sharing() {
    let mut alice = client("RECONNECT-CODE-42", "alice");
    alice.on_command(Some(Command::PublishTodos(vec![Todo::new("x", NOW)])), NOW);
    let status = StatusSnapshot::new("alice", "Alice PC", Platform::Linux);
    alice.on_command(Some(Command::Publish(status)), NOW);
    assert_eq!(alice.republish(NOW).len(), 2);

    let same = Box::new(alice.cfg.clone());
    alice.on_command(Some(Command::Reconnect(same)), NOW);
    assert_eq!(alice.republish(NOW).len(), 2, "nothing changed about sharing");

    let mut wider = Box::new(alice.cfg.clone());
    wider.privacy.share_window_title = true;
    alice.on_command(Some(Command::Reconnect(wider)), NOW);
    assert_eq!(alice.republish(NOW).len(), 2, "nothing was taken back");

    let mut shut = Box::new(alice.cfg.clone());
    shut.privacy.share_todos = false;
    assert!(matches!(
        alice.on_command(Some(Command::Reconnect(shut)), NOW),
        Step::End(SessionEnd::Reconnect)
    ));
    assert!(alice.republish(NOW).is_empty());
}

#[test]
fn oversized_length_is_rejected_without_allocating() {
    assert!(matches!(frame_len(u32::MAX.to_be_bytes()), Err(ProtoError::Oversized(_))));
}
