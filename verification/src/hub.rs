//! Room registry and message fan-out.
//!
//! # How the relay gates a room without knowing the secret
//!
//! The relay never learns the invite code, so it cannot verify a client's HMAC
//! on its own. Instead it acts as a *witness*: every room gets one random
//! challenge, and every device in that room must answer it with the same MAC.
//! The first device to join defines the expected answer; later joiners are
//! compared against it.
//!
//! ```text
//! room created --> random 32-byte challenge (kept until the room empties)
//!   device A --> mac_A --> accepted, expected := mac_A
//!   device B --> mac_B --> accepted only if mac_B == mac_A
//! ```
//!
//! Consequences, stated plainly:
//!
//! * Someone who knows a room id but not the invite code cannot join an
//!   occupied room, and cannot read anything even if they could, because
//!   payloads are end-to-end encrypted.
//! * Someone who knows a room id *can* occupy an empty room first and set a
//!   bogus expected MAC, locking the real users out until the room empties.
//!   Room ids are HKDF output over an 80-bit invite code, so guessing one is
//!   the hard part; this is a denial-of-service risk, not a confidentiality
//!   one.
//! * A captured MAC can be replayed while the room stays occupied. The
//!   client-to-relay hop is TLS, so capturing one requires already being on the
//!   inside of that hop.
//!
//! Times are milliseconds of a clock that only runs forward.

use vstd::prelude::*;

use crate::crypto::random_challenge;
use crate::proto::{Frame, Presence, Relay};
use crate::table::Table;
use crate::text::same;
use crate::undelivered::Undelivered;

verus! {

/// Per-device outbound queue depth. Frames are small and the writer task drains
/// continuously; a device that fills this is not reading its socket.
pub const DEVICE_QUEUE: usize = 64;

/// A device in a room.
#[derive(Debug)]
pub struct Device {
    /// Frames that its connection has not collected yet, first come first.
    pub queue: Vec<Frame>,
    /// The connection that it is on.
    pub ticket: u64,
    /// User nickname this device belongs to, from the handshake.
    pub user: String,
    /// Device display name, from the handshake.
    pub name: String,
    /// When the device connected, for the admin view.
    pub connected_at: u64,
}

/// What a device is.
pub struct DeviceState {
    pub queue: Seq<Frame>,
    pub ticket: u64,
    pub user: String,
    pub name: String,
    pub connected_at: u64,
}

impl View for Device {
    type V = DeviceState;

    open spec fn view(&self) -> DeviceState {
        DeviceState {
            queue: self.queue@,
            ticket: self.ticket,
            user: self.user,
            name: self.name,
            connected_at: self.connected_at,
        }
    }
}

#[derive(Debug)]
pub struct Room {
    /// Fixed for the lifetime of the room, see the module docs.
    pub challenge: [u8; 32],
    /// Answer the first device gave, which later devices must match.
    pub expected_mac: Option<Vec<u8>>,
    pub devices: Table<Device>,
    /// Latest retained payload per device and slot (`status`, `todos`), replayed to
    /// joiners so a device that starts later sees the peer immediately.
    pub retained: Table<Relay>,
    /// Last time anything happened in this room, for the admin view.
    pub last_active: u64,
}

/// What a room is.
pub struct RoomState {
    pub challenge: Seq<u8>,
    pub expected_mac: Option<Seq<u8>>,
    pub devices: Map<Seq<char>, DeviceState>,
    pub retained: Map<Seq<char>, Relay>,
    pub last_active: u64,
}

/// The devices of a table, by what they are.
pub open spec fn device_states(devices: Table<Device>) -> Map<Seq<char>, DeviceState> {
    devices@.map_values(|d: Device| d@)
}

impl View for Room {
    type V = RoomState;

    open spec fn view(&self) -> RoomState {
        RoomState {
            challenge: self.challenge@,
            expected_mac: match self.expected_mac {
                Some(mac) => Some(mac@),
                None => None,
            },
            devices: device_states(self.devices),
            retained: self.retained@,
            last_active: self.last_active,
        }
    }
}

/// Why a device is not let in.
#[derive(Debug, Clone, Copy, PartialEq, Eq, Structural)]
pub enum HubError {
    RoomsFull,
    /// The room is gone: every device left between the challenge and the auth
    /// frame.
    RoomExpired,
    MacMismatch,
    DevicesFull,
    NoRoom,
}

impl HubError {
    pub open spec fn text(self) -> Seq<char> {
        match self {
            HubError::RoomsFull => "服务器房间数已达上限"@,
            HubError::RoomExpired => "房间状态已过期，请重新连接"@,
            HubError::MacMismatch => "配对码不匹配"@,
            HubError::DevicesFull => "房间设备数已达上限"@,
            HubError::NoRoom => "房间不存在"@,
        }
    }

    pub fn message(&self) -> (r: &'static str)
        ensures
            r@ == self.text(),
    {
        match self {
            HubError::RoomsFull => "服务器房间数已达上限",
            HubError::RoomExpired => "房间状态已过期，请重新连接",
            HubError::MacMismatch => "配对码不匹配",
            HubError::DevicesFull => "房间设备数已达上限",
            HubError::NoRoom => "房间不存在",
        }
    }
}

/// What a joining device needs to bootstrap its view.
#[derive(Debug)]
pub struct Joined {
    pub peers: Vec<String>,
    pub retained: Vec<Relay>,
    /// Names the connection when it collects its frames.
    pub rx: u64,
}

/// Constant-time byte comparison, so a wrong MAC leaks no timing information.
pub fn ct_eq(a: &[u8], b: &[u8]) -> (r: bool)
    ensures
        r == (a@ == b@),
{
    if a.len() != b.len() {
        return false;
    }
    let mut diff: u8 = 0;
    let mut i: usize = 0;
    assert(a@.take(0) =~= b@.take(0));
    while i < a.len()
        invariant
            a@.len() == b@.len(),
            i <= a@.len(),
            diff == 0 <==> a@.take(i as int) == b@.take(i as int),
        decreases a@.len() - i,
    {
        let x: u8 = a[i];
        let y: u8 = b[i];
        let before: u8 = diff;
        diff = before | (x ^ y);
        assert((before | (x ^ y)) == 0 <==> before == 0 && x == y) by (bit_vector);
        proof {
            let s = a@.take(i as int);
            let t = b@.take(i as int);
            assert(a@.take(i + 1) == s.push(x));
            assert(b@.take(i + 1) == t.push(y));
            if s.push(x) == t.push(y) {
                assert(s.push(x).drop_last() == s);
                assert(t.push(y).drop_last() == t);
                assert(s.push(x).last() == t.push(y).last());
            }
        }
        i = i + 1;
    }
    assert(a@.take(a@.len() as int) == a@);
    assert(b@.take(b@.len() as int) == b@);
    diff == 0
}

/// A frame that announces that a device came or went.
pub open spec fn announces(frame: Frame, device_id: Seq<char>, online: bool) -> bool {
    frame matches Frame::Presence(p) && p.device_id@ == device_id && p.online == online
        && p.platform_hint is None
}

fn announcement(device_id: &str, online: bool) -> (r: Frame)
    ensures
        announces(r, device_id@, online),
{
    Frame::Presence(Presence { device_id: device_id.to_string(), online, platform_hint: None })
}

/// The devices after a frame went to all of them but one. A full queue means the
/// device is not draining its socket; cutting it loose is better than letting the
/// room's memory grow. It will reconnect and pick up the retained state.
pub open spec fn fanned(
    devices: Map<Seq<char>, DeviceState>,
    exclude: Seq<char>,
    frame: Frame,
) -> Map<Seq<char>, DeviceState> {
    Map::new(
        |k: Seq<char>|
            devices.contains_key(k) && (k == exclude || devices[k].queue.len() < DEVICE_QUEUE),
        |k: Seq<char>|
            if k == exclude {
                devices[k]
            } else {
                DeviceState { queue: devices[k].queue.push(frame), ..devices[k] }
            },
    )
}

/// A device does not keep up with a frame that goes to all of them but one.
pub open spec fn falls_behind(
    devices: Map<Seq<char>, DeviceState>,
    exclude: Seq<char>,
    k: Seq<char>,
) -> bool {
    devices.contains_key(k) && k != exclude && devices[k].queue.len() >= DEVICE_QUEUE
}

/// The connections that such a frame cuts off, with what they have not collected.
pub open spec fn cut_off(
    devices: Map<Seq<char>, DeviceState>,
    exclude: Seq<char>,
) -> Map<u64, Seq<Frame>> {
    Map::new(
        |t: u64|
            exists|k: Seq<char>| #[trigger]
                falls_behind(devices, exclude, k) && devices[k].ticket == t,
        |t: u64|
            devices[choose|k: Seq<char>| #[trigger]
                falls_behind(devices, exclude, k) && devices[k].ticket == t].queue,
    )
}

/// What the connection of a device has not collected.
pub open spec fn uncollected(
    devices: Map<Seq<char>, DeviceState>,
    k: Seq<char>,
) -> Map<u64, Seq<Frame>> {
    if devices.contains_key(k) {
        map![devices[k].ticket => devices[k].queue]
    } else {
        Map::empty()
    }
}

/// No two devices are on one connection.
pub open spec fn apart(devices: Map<Seq<char>, DeviceState>) -> bool {
    forall|a: Seq<char>, b: Seq<char>| #[trigger]
        devices.contains_key(a) && #[trigger] devices.contains_key(b) && devices[a].ticket
            == devices[b].ticket ==> a == b
}

/// What was queued for a device that falls behind is still there for its
/// connection.
pub proof fn cut_off_keeps_the_queue(
    devices: Map<Seq<char>, DeviceState>,
    exclude: Seq<char>,
    k: Seq<char>,
)
    requires
        apart(devices),
        falls_behind(devices, exclude, k),
    ensures
        cut_off(devices, exclude).contains_key(devices[k].ticket),
        cut_off(devices, exclude)[devices[k].ticket] == devices[k].queue,
{
    let t = devices[k].ticket;
    let other = choose|o: Seq<char>| #[trigger]
        falls_behind(devices, exclude, o) && devices[o].ticket == t;
    assert(falls_behind(devices, exclude, other) && devices[other].ticket == t);
    assert(devices.contains_key(k) && devices.contains_key(other));
}

/// Where a payload is retained: by device *and* slot, so two devices of the same
/// person do not overwrite each other's status.
pub open spec fn retain_key(from: Seq<char>, slot: Seq<char>) -> Seq<char> {
    from + "/"@ + slot
}

/// The payload under the name of the connection that it came on.
pub open spec fn attributed(sent: Relay, from: Seq<char>, relay: Relay) -> bool {
    &&& relay.from@ == from
    &&& relay.body == sent.body
    &&& relay.retain == sent.retain
}

impl RoomState {
    /// A room that nobody has joined.
    pub open spec fn fresh(challenge: Seq<u8>, now: u64) -> RoomState {
        RoomState {
            challenge,
            expected_mac: None,
            devices: Map::empty(),
            retained: Map::empty(),
            last_active: now,
        }
    }

    /// A device is let in under this answer to the challenge.
    pub open spec fn accepts(self, device_id: Seq<char>, mac: Seq<u8>, max_devices: int) -> Option<
        HubError,
    > {
        if self.expected_mac matches Some(expected) && expected != mac {
            Some(HubError::MacMismatch)
        } else if self.devices.dom().len() >= max_devices && !self.devices.contains_key(device_id) {
            Some(HubError::DevicesFull)
        } else {
            None
        }
    }

    /// The room after a device joined; the others hear of it.
    pub open spec fn joined(
        self,
        device_id: Seq<char>,
        mac: Seq<u8>,
        device: DeviceState,
        announcement: Frame,
        now: u64,
    ) -> RoomState {
        RoomState {
            expected_mac: Some(mac),
            devices: fanned(self.devices.insert(device_id, device), device_id, announcement),
            last_active: now,
            ..self
        }
    }

    /// The room with another queue for a device.
    pub open spec fn with_queue(self, device_id: Seq<char>, queue: Seq<Frame>) -> RoomState {
        RoomState {
            devices: self.devices.insert(
                device_id,
                DeviceState { queue, ..self.devices[device_id] },
            ),
            ..self
        }
    }

    /// The room after a device left; the others hear of it.
    pub open spec fn left(self, device_id: Seq<char>, announcement: Frame) -> RoomState {
        RoomState {
            devices: fanned(self.devices.remove(device_id), device_id, announcement),
            ..self
        }
    }

    /// The room after a payload went to everyone but its sender, and was retained
    /// if it asks for it.
    pub open spec fn relayed(self, from: Seq<char>, relay: Relay, now: u64) -> RoomState {
        RoomState {
            devices: fanned(self.devices, from, Frame::Relay(relay)),
            retained: match relay.retain {
                Some(slot) => self.retained.insert(retain_key(from, slot@), relay),
                None => self.retained,
            },
            last_active: now,
            ..self
        }
    }
}

impl Room {
    /// Tables are sound, queues are bounded, and an occupied room has an expected
    /// answer.
    pub open spec fn wf(&self) -> bool {
        &&& self.devices.wf()
        &&& self.retained.wf()
        &&& forall|k: Seq<char>| #[trigger]
            self.devices@.contains_key(k) ==> self.devices@[k].queue@.len() <= DEVICE_QUEUE
        &&& self.devices.order().len() > 0 ==> self.expected_mac is Some
    }

    fn new(challenge: [u8; 32], now: u64) -> (r: Room)
        ensures
            r.wf(),
            r@ == RoomState::fresh(challenge@, now),
    {
        let r = Room {
            challenge,
            expected_mac: None,
            devices: Table::new(),
            retained: Table::new(),
            last_active: now,
        };
        assert(r@.devices =~= Map::<Seq<char>, DeviceState>::empty());
        r
    }

    /// Sends to every device except `exclude`, dropping any that cannot keep up.
    fn fan_out(&mut self, exclude: &str, frame: &Frame, kept: &mut Undelivered)
        requires
            old(self).wf(),
            apart(old(self)@.devices),
            !(frame is Welcome),
        ensures
            final(self).wf(),
            final(self)@ == (RoomState {
                devices: fanned(old(self)@.devices, exclude@, *frame),
                ..old(self)@
            }),
            final(kept)@ == old(kept)@.union_prefer_right(
                cut_off(old(self)@.devices, exclude@),
            ),
    {
        let ghost before = *self;
        let ghost all = self@.devices;
        let mut rest: Table<Device> = Table::new();
        std::mem::swap(&mut rest, &mut self.devices);
        proof {
            self.devices.empty_holds_nothing();
        }
        let mut going = true;
        while going
            invariant
                !(frame is Welcome),
                before.wf(),
                all == before@.devices,
                apart(all),
                rest.wf(),
                self.wf(),
                self.challenge == before.challenge,
                self.expected_mac == before.expected_mac,
                self.retained == before.retained,
                self.last_active == before.last_active,
                before.devices.order().len() == 0 ==> self.devices.order().len() == 0,
                forall|k: Seq<char>| #[trigger]
                    rest@.contains_key(k) ==> before.devices@.contains_key(k) && rest@[k]
                        == before.devices@[k],
                forall|k: Seq<char>| #[trigger]
                    self.devices@.contains_key(k) <==> before.devices@.contains_key(k)
                        && !rest@.contains_key(k) && (k == exclude@
                        || before.devices@[k].queue@.len() < DEVICE_QUEUE),
                forall|k: Seq<char>|
                    #![trigger self.devices@[k]]
                    self.devices@.contains_key(k) ==> self.devices@[k]@ == (if k == exclude@ {
                        before.devices@[k]@
                    } else {
                        DeviceState {
                            queue: before.devices@[k].queue@.push(*frame),
                            ..before.devices@[k]@
                        }
                    }),
                forall|k: Seq<char>| #[trigger]
                    falls_behind(all, exclude@, k) && !rest@.contains_key(k) ==> kept@.contains_key(
                        all[k].ticket,
                    ) && kept@[all[k].ticket] == all[k].queue,
                forall|t: u64| #[trigger]
                    kept@.contains_key(t) ==> old(kept)@.contains_key(t) || exists|k: Seq<char>|
                     #[trigger]
                        falls_behind(all, exclude@, k) && all[k].ticket == t,
                forall|t: u64| #[trigger]
                    old(kept)@.contains_key(t) ==> kept@.contains_key(t) && (kept@[t]
                        == old(kept)@[t] || exists|k: Seq<char>| #[trigger]
                        falls_behind(all, exclude@, k) && all[k].ticket == t),
                !going ==> rest.order().len() == 0,
            decreases rest.order().len(), going as int,
        {
            let ghost waiting = rest@;
            let ghost was = kept@;
            match rest.pop_first() {
                Some((id, device)) => {
                    if same(id.as_str(), exclude) {
                        self.devices.insert(id, device);
                    } else if device.queue.len() < DEVICE_QUEUE {
                        let mut device = device;
                        device.queue.push(frame.clone());
                        self.devices.insert(id, device);
                    } else {
                        assert(all[id@] == device@);
                        assert(falls_behind(all, exclude@, id@));
                        kept.keep(device.ticket, device.queue);
                        proof {
                            assert forall|k: Seq<char>| #[trigger]
                                falls_behind(all, exclude@, k) && !rest@.contains_key(
                                    k,
                                ) implies kept@.contains_key(all[k].ticket)
                                && kept@[all[k].ticket] == all[k].queue by {
                                if k != id@ {
                                    assert(!waiting.contains_key(k));
                                    assert(all.contains_key(k) && all.contains_key(id@));
                                    assert(all[k].ticket != all[id@].ticket);
                                }
                            }
                        }
                    }
                },
                None => {
                    going = false;
                },
            }
        }
        proof {
            rest.empty_holds_nothing();
            let want = fanned(before@.devices, exclude@, *frame);
            assert(self@.devices =~= want);
            let cut = cut_off(all, exclude@);
            assert forall|k: Seq<char>| #[trigger] falls_behind(all, exclude@, k) implies
                cut.contains_key(all[k].ticket) && cut[all[k].ticket] == all[k].queue
                && kept@[all[k].ticket] == all[k].queue by {
                cut_off_keeps_the_queue(all, exclude@, k);
            }
            assert(kept@ =~= old(kept)@.union_prefer_right(cut));
        }
    }

    /// The ids of the devices, in the order in which they came.
    pub fn device_ids(&self) -> (r: Vec<String>)
        requires
            self.wf(),
        ensures
            ids_of(r@, self@.devices),
            r@.len() == self.devices.order().len(),
            forall|j: int| 0 <= j < r@.len() ==> (#[trigger] r@[j])@ == self.devices.order()[j],
    {
        let n: usize = self.devices.len();
        let mut out: Vec<String> = Vec::new();
        for i in 0..n
            invariant
                self.wf(),
                n == self.devices.order().len(),
                out@.len() == i,
                forall|j: int| 0 <= j < i ==> (#[trigger] out@[j])@ == self.devices.order()[j],
        {
            out.push(self.devices.key(i).clone());
        }
        proof {
            assert forall|i: int| 0 <= i < out@.len() implies self@.devices.contains_key(
                (#[trigger] out@[i])@,
            ) by {
                self.devices.at_position(i);
            }
            assert forall|k: Seq<char>| #[trigger] self@.devices.contains_key(k) implies exists|
                i: int,
            |
                0 <= i < out@.len() && (#[trigger] out@[i])@ == k by {
                let j = self.devices.position_of(k);
                assert(out@[j]@ == k);
            }
        }
        out
    }

    /// The retained payloads of the other devices.
    fn retained_for(&self, device_id: &str) -> (r: Vec<Relay>)
        requires
            self.wf(),
        ensures
            replayed(r@, self@.retained, device_id@),
    {
        let n: usize = self.retained.len();
        let mut out: Vec<Relay> = Vec::new();
        let ghost mut keys: Seq<Seq<char>> = Seq::empty();
        let ghost order = self.retained.order();
        for i in 0..n
            invariant
                self.wf(),
                order == self.retained.order(),
                n == order.len(),
                keys.len() == out@.len(),
                keys.no_duplicates(),
                forall|m: int|
                    0 <= m < keys.len() ==> {
                        &&& order.take(i as int).contains(#[trigger] keys[m])
                        &&& self@.retained.contains_key(keys[m])
                        &&& self@.retained[keys[m]] == out@[m]
                        &&& out@[m].from@ != device_id@
                    },
                forall|j: int|
                    #![trigger order[j]]
                    0 <= j < i && self@.retained[order[j]].from@ != device_id@ ==> keys.contains(
                        order[j],
                    ),
        {
            let entry = self.retained.value(i);
            let ghost was = keys;
            let ghost key = order[i as int];
            proof {
                self.retained.at_position(i as int);
                assert forall|k: Seq<char>| order.take(i as int).contains(k) implies order.take(
                    i + 1,
                ).contains(k) && k != key by {
                    let j = order.take(i as int).index_of(k);
                    assert(order.take(i + 1)[j] == k);
                }
                assert(order.take(i + 1)[i as int] == key);
            }
            if !same(entry.from.as_str(), device_id) {
                out.push(entry.clone());
                proof {
                    keys = keys.push(key);
                    assert(keys[was.len() as int] == key);
                    assert forall|k: Seq<char>| was.contains(k) implies keys.contains(k) by {
                        let m = was.index_of(k);
                        assert(keys[m] == k);
                    }
                }
            }
            proof {
                assert forall|m: int| 0 <= m < keys.len() implies {
                    &&& order.take(i + 1).contains(#[trigger] keys[m])
                    &&& self@.retained.contains_key(keys[m])
                    &&& self@.retained[keys[m]] == out@[m]
                    &&& out@[m].from@ != device_id@
                } by {
                    if m < was.len() {
                        assert(order.take(i as int).contains(was[m]));
                    }
                }
            }
        }
        proof {
            assert forall|k: Seq<char>|
                self@.retained.contains_key(k) && (#[trigger] self@.retained[k]).from@
                    != device_id@ implies keys.contains(k) by {
                let j = self.retained.position_of(k);
                assert(order[j] == k);
            }
            assert(replays(out@, self@.retained, device_id@, keys));
        }
        out
    }

    /// Verifies the MAC and registers the device.
    fn join(
        &mut self,
        device_id: &str,
        mac: &[u8],
        user: String,
        name: String,
        ticket: u64,
        now: u64,
        max_devices: usize,
        kept: &mut Undelivered,
    ) -> (r: Result<Joined, HubError>)
        requires
            old(self).wf(),
            apart(old(self)@.devices),
            forall|k: Seq<char>| #[trigger]
                old(self)@.devices.contains_key(k) ==> old(self)@.devices[k].ticket != ticket,
            max_devices >= 1,
        ensures
            final(self).wf(),
            match old(self)@.accepts(device_id@, mac@, max_devices as int) {
                Some(e) => r == Err::<Joined, _>(e) && *final(self) == *old(self) && final(kept)@
                    == old(kept)@,
                None => {
                    &&& final(kept)@ == old(kept)@.union_prefer_right(
                        uncollected(old(self)@.devices, device_id@),
                    ).union_prefer_right(cut_off(old(self)@.devices, device_id@))
                    &&& r matches Ok(j) && welcomes(j, old(self)@, device_id@, ticket)
                    &&& exists|a: Frame| #[trigger]
                        announces(a, device_id@, true) && final(self)@ == old(self)@.joined(
                            device_id@,
                            mac@,
                            arrival(ticket, user, name, now),
                            a,
                            now,
                        )
                },
            },
            final(self).devices.order().len() <= old(self).devices.order().len() || final(self).devices.order().len() <= max_devices,
    {
        proof {
            self.devices.size();
            assert(self@.devices.dom() =~= self.devices@.dom());
        }
        if let Some(expected) = &self.expected_mac {
            if !ct_eq(expected.as_slice(), mac) {
                return Err(HubError::MacMismatch);
            }
        }
        if self.devices.len() >= max_devices && !self.devices.contains(device_id) {
            return Err(HubError::DevicesFull);
        }
        let ghost before = self@;
        let peers = self.device_ids();
        let retained = self.retained_for(device_id);
        let mut copy: Vec<u8> = Vec::new();
        copy.extend_from_slice(mac);
        assert(copy@ =~= mac@);
        self.expected_mac = Some(copy);
        // Reconnect of the same device id replaces the old entry, which ends its
        // connection.
        if let Some(replaced) = self.devices.remove(device_id) {
            assert(before.devices[device_id@] == replaced@);
            kept.keep(replaced.ticket, replaced.queue);
        }
        assert(kept@ =~= old(kept)@.union_prefer_right(uncollected(before.devices, device_id@)));
        self.devices.insert(
            device_id.to_string(),
            Device { queue: Vec::new(), ticket, user, name, connected_at: now },
        );
        self.last_active = now;
        let ghost arrived = arrival(ticket, user, name, now);
        proof {
            assert(self@.devices =~= before.devices.insert(device_id@, arrived));
        }
        // Announce the arrival to everyone else.
        let announce = announcement(device_id, true);
        proof {
            excluded_does_not_count(before.devices, device_id@, Some(arrived));
        }
        self.fan_out(device_id, &announce, kept);
        proof {
            assert(self@ == before.joined(device_id@, mac@, arrived, announce, now));
            self.devices.size();
            assert(self@.devices.dom() =~= self.devices@.dom());
            let all = before.devices.insert(device_id@, arrived);
            assert(self@.devices.dom().subset_of(all.dom()));
            vstd::set_lib::lemma_len_subset(self@.devices.dom(), all.dom());
        }
        Ok(Joined { peers, retained, rx: ticket })
    }

    /// Deregisters a device and tells the others.
    fn leave(&mut self, device_id: &str, kept: &mut Undelivered)
        requires
            old(self).wf(),
            apart(old(self)@.devices),
        ensures
            final(self).wf(),
            final(kept)@ == old(kept)@.union_prefer_right(
                uncollected(old(self)@.devices, device_id@),
            ).union_prefer_right(cut_off(old(self)@.devices, device_id@)),
            exists|a: Frame| #[trigger]
                announces(a, device_id@, false) && final(self)@ == old(self)@.left(device_id@, a),
            final(self).devices.order().len() <= old(self).devices.order().len(),
    {
        let ghost before = *self;
        if let Some(gone) = self.devices.remove(device_id) {
            assert(before@.devices[device_id@] == gone@);
            kept.keep(gone.ticket, gone.queue);
        }
        proof {
            assert(kept@ =~= old(kept)@.union_prefer_right(
                uncollected(before@.devices, device_id@),
            ));
            assert(self@.devices =~= before@.devices.remove(device_id@));
            assert(self.wf());
            excluded_does_not_count(before@.devices, device_id@, None);
        }
        let announce = announcement(device_id, false);
        self.fan_out(device_id, &announce, kept);
        proof {
            self.devices.size();
            before.devices.size();
            assert(self@.devices.dom().subset_of(before@.devices.dom()));
            assert(self@.devices.dom() =~= self.devices@.dom());
            assert(before@.devices.dom() =~= before.devices@.dom());
            vstd::set_lib::lemma_len_subset(self@.devices.dom(), before@.devices.dom());
            assert(self@ == before@.left(device_id@, announce));
        }
    }

    /// Forwards an encrypted payload to the other devices in the room.
    fn relay(&mut self, from: &str, relay: Relay, now: u64, kept: &mut Undelivered)
        requires
            old(self).wf(),
            apart(old(self)@.devices),
        ensures
            final(self).wf(),
            final(kept)@ == old(kept)@.union_prefer_right(cut_off(old(self)@.devices, from@)),
            exists|m: Relay| #[trigger]
                attributed(relay, from@, m) && final(self)@ == old(self)@.relayed(from@, m, now),
            final(self).devices.order().len() <= old(self).devices.order().len(),
    {
        let ghost before = *self;
        let ghost sent = relay;
        let relay = Relay { from: from.to_string(), body: relay.body, retain: relay.retain };
        self.last_active = now;
        if let Some(slot) = &relay.retain {
            let key = from.to_string().concat("/").concat(slot.as_str());
            self.retained.insert(key, relay.clone());
        }
        let frame = Frame::Relay(relay);
        self.fan_out(from, &frame, kept);
        proof {
            self.devices.size();
            before.devices.size();
            assert(self@.devices.dom().subset_of(before@.devices.dom()));
            assert(self@.devices.dom() =~= self.devices@.dom());
            assert(before@.devices.dom() =~= before.devices@.dom());
            vstd::set_lib::lemma_len_subset(self@.devices.dom(), before@.devices.dom());
            assert(attributed(sent, from@, relay));
            assert(self@ == before@.relayed(from@, relay, now));
        }
    }
}

/// Whether the excluded device is there, and which, makes no difference to who is
/// cut off.
proof fn excluded_does_not_count(
    devices: Map<Seq<char>, DeviceState>,
    exclude: Seq<char>,
    instead: Option<DeviceState>,
)
    requires
        apart(devices),
        instead matches Some(d) ==> forall|k: Seq<char>| #[trigger]
            devices.contains_key(k) ==> devices[k].ticket != d.ticket,
    ensures
        ({
            let after = match instead {
                Some(d) => devices.insert(exclude, d),
                None => devices.remove(exclude),
            };
            &&& apart(after)
            &&& cut_off(after, exclude) == cut_off(devices, exclude)
        }),
{
    let after = match instead {
        Some(d) => devices.insert(exclude, d),
        None => devices.remove(exclude),
    };
    assert forall|k: Seq<char>| k != exclude implies after.contains_key(k) == devices.contains_key(k)
        && (devices.contains_key(k) ==> #[trigger] after[k] == devices[k]) by {}
    assert forall|a: Seq<char>, b: Seq<char>| #[trigger]
        after.contains_key(a) && #[trigger] after.contains_key(b) && after[a].ticket
            == after[b].ticket implies a == b by {
        assert(a != exclude ==> devices.contains_key(a));
        assert(b != exclude ==> devices.contains_key(b));
    }
    assert forall|k: Seq<char>| #[trigger] falls_behind(after, exclude, k) implies falls_behind(
        devices,
        exclude,
        k,
    ) && cut_off(after, exclude).contains_key(after[k].ticket) && cut_off(
        after,
        exclude,
    )[after[k].ticket] == cut_off(devices, exclude)[after[k].ticket] by {
        assert(after[k] == devices[k]);
        cut_off_keeps_the_queue(after, exclude, k);
        cut_off_keeps_the_queue(devices, exclude, k);
    }
    assert forall|k: Seq<char>| #[trigger] falls_behind(devices, exclude, k) implies falls_behind(
        after,
        exclude,
        k,
    ) && after[k] == devices[k] by {}
    let x = cut_off(after, exclude);
    let y = cut_off(devices, exclude);
    assert forall|t: u64| #[trigger] x.contains_key(t) implies y.contains_key(t) && x[t] == y[t] by {
        let k = choose|k: Seq<char>| #[trigger]
            falls_behind(after, exclude, k) && after[k].ticket == t;
        assert(falls_behind(devices, exclude, k) && devices[k].ticket == t);
    }
    assert forall|t: u64| #[trigger] y.contains_key(t) implies x.contains_key(t) by {
        let k = choose|k: Seq<char>| #[trigger]
            falls_behind(devices, exclude, k) && devices[k].ticket == t;
        assert(falls_behind(after, exclude, k) && after[k].ticket == t);
    }
    assert(x =~= y);
}

/// A device that just connected.
pub open spec fn arrival(ticket: u64, user: String, name: String, now: u64) -> DeviceState {
    DeviceState { queue: Seq::empty(), ticket, user, name, connected_at: now }
}

/// What a device is told when it joins: who was in the room, and what they last
/// published.
pub open spec fn welcomes(j: Joined, room: RoomState, device_id: Seq<char>, ticket: u64) -> bool {
    &&& ids_of(j.peers@, room.devices)
    &&& replayed(j.retained@, room.retained, device_id)
    &&& j.rx == ticket
}

/// A list names each device of a room once, and nothing else.
pub open spec fn ids_of(ids: Seq<String>, devices: Map<Seq<char>, DeviceState>) -> bool {
    &&& forall|i: int| 0 <= i < ids.len() ==> devices.contains_key((#[trigger] ids[i])@)
    &&& forall|i: int, j: int|
        0 <= i < j < ids.len() ==> (#[trigger] ids[i])@ != (#[trigger] ids[j])@
    &&& forall|k: Seq<char>| #[trigger]
        devices.contains_key(k) ==> exists|i: int| 0 <= i < ids.len() && (#[trigger] ids[i])@ == k
}

/// A list holds each retained payload once, but for those of the device itself:
/// a device is never handed its own state back.
pub open spec fn replayed(
    list: Seq<Relay>,
    retained: Map<Seq<char>, Relay>,
    device_id: Seq<char>,
) -> bool {
    exists|keys: Seq<Seq<char>>| #[trigger] replays(list, retained, device_id, keys)
}

/// The payloads of a list are retained under these keys, in this order.
pub open spec fn replays(
    list: Seq<Relay>,
    retained: Map<Seq<char>, Relay>,
    device_id: Seq<char>,
    keys: Seq<Seq<char>>,
) -> bool {
    &&& keys.len() == list.len()
    &&& keys.no_duplicates()
    &&& forall|m: int|
        0 <= m < list.len() ==> {
            &&& retained.contains_key(#[trigger] keys[m])
            &&& retained[keys[m]] == list[m]
            &&& list[m].from@ != device_id
        }
    &&& forall|k: Seq<char>|
        retained.contains_key(k) && (#[trigger] retained[k]).from@ != device_id ==> keys.contains(
            k,
        )
}

#[derive(Debug, Clone, Copy, PartialEq, Eq, Structural)]
pub struct Stats {
    pub rooms: usize,
    pub devices: usize,
    /// Connections that completed the handshake since start.
    pub accepted: u64,
    /// Connections rejected during the handshake. Mostly a mismatched invite
    /// code, which is the first thing to check when pairing does not work.
    pub rejected: u64,
}

/// What a connection finds when it collects a frame.
#[derive(Debug)]
pub enum Outbox {
    Frame(Frame),
    /// Nothing yet.
    Empty,
    /// The device was dropped, or came back on another connection, and nothing is
    /// left to collect.
    Closed,
}

/// Shared state for all connections.
#[derive(Debug)]
pub struct Hub {
    pub rooms: Table<Room>,
    pub max_devices_per_room: usize,
    pub max_rooms: usize,
    /// Relay listen address, reported in the admin snapshot.
    pub bind: String,
    /// Whether TLS is enabled, reported in the admin snapshot.
    pub tls: bool,
    pub accepted: u64,
    pub rejected: u64,
    pub started: u64,
    /// Number of the next connection.
    pub next_ticket: u64,
    /// What connections that were cut off have not collected.
    pub undelivered: Undelivered,
}

/// What a hub holds.
pub struct HubState {
    pub rooms: Map<Seq<char>, RoomState>,
    pub undelivered: Map<u64, Seq<Frame>>,
    pub accepted: u64,
    pub rejected: u64,
    pub next_ticket: u64,
    pub max_devices_per_room: usize,
    pub max_rooms: usize,
    pub bind: String,
    pub tls: bool,
    pub started: u64,
}

/// The rooms of a table, by what they are.
pub open spec fn room_states(rooms: Table<Room>) -> Map<Seq<char>, RoomState> {
    rooms@.map_values(|r: Room| r@)
}

impl View for Hub {
    type V = HubState;

    open spec fn view(&self) -> HubState {
        HubState {
            rooms: room_states(self.rooms),
            undelivered: self.undelivered@,
            accepted: self.accepted,
            rejected: self.rejected,
            next_ticket: self.next_ticket,
            max_devices_per_room: self.max_devices_per_room,
            max_rooms: self.max_rooms,
            bind: self.bind,
            tls: self.tls,
            started: self.started,
        }
    }
}

pub open spec fn plus_one(n: u64) -> u64 {
    if n == u64::MAX {
        0
    } else {
        (n + 1) as u64
    }
}

/// A limit, or the least that makes sense.
pub open spec fn no_less_than(limit: usize, least: usize) -> usize {
    if limit < least {
        least
    } else {
        limit
    }
}

/// Whole seconds between two readings of the clock.
pub open spec fn secs_since(then: u64, now: u64) -> u64 {
    if now < then {
        0
    } else {
        ((now - then) / 1000) as u64
    }
}

pub fn elapsed_secs(then: u64, now: u64) -> (r: u64)
    ensures
        r == secs_since(then, now),
{
    if now < then {
        0
    } else {
        (now - then) / 1000
    }
}

impl Hub {
    /// Tables are sound and the limits are kept.
    pub open spec fn wf(&self) -> bool {
        &&& self.rooms.wf()
        &&& forall|k: Seq<char>| #[trigger]
            self.rooms@.contains_key(k) ==> self.rooms@[k].wf()
                && self.rooms@[k].devices.order().len() <= self.max_devices_per_room
        &&& self.max_devices_per_room >= 2
        &&& self.max_rooms >= 1
        &&& self.rooms.order().len() <= self.max_rooms
        &&& self@.sound()
    }

    /// The settings that nothing changes.
    pub open spec fn same_setup(&self, other: &Hub) -> bool {
        &&& self.max_devices_per_room == other.max_devices_per_room
        &&& self.max_rooms == other.max_rooms
        &&& self.bind == other.bind
        &&& self.tls == other.tls
        &&& self.started == other.started
    }

    pub fn new(
        max_devices_per_room: usize,
        max_rooms: usize,
        bind: &str,
        tls: bool,
        now: u64,
    ) -> (r: Hub)
        ensures
            r.wf(),
            r@.rooms == Map::<Seq<char>, RoomState>::empty(),
            r@.undelivered == Map::<u64, Seq<Frame>>::empty(),
            r@.accepted == 0,
            r@.rejected == 0,
            r@.next_ticket == 0,
            r.max_devices_per_room == no_less_than(max_devices_per_room, 2),
            r.max_rooms == no_less_than(max_rooms, 1),
            r.bind@ == bind@,
            r.tls == tls,
            r.started == now,
    {
        let r = Hub {
            rooms: Table::new(),
            max_devices_per_room: if max_devices_per_room < 2 {
                2
            } else {
                max_devices_per_room
            },
            max_rooms: if max_rooms < 1 {
                1
            } else {
                max_rooms
            },
            bind: bind.to_string(),
            tls,
            accepted: 0,
            rejected: 0,
            started: now,
            next_ticket: 0,
            undelivered: Undelivered::new(),
        };
        assert(r@.rooms =~= Map::<Seq<char>, RoomState>::empty());
        r
    }

    /// Seconds since the hub was created, i.e. daemon uptime.
    pub fn uptime_secs(&self, now: u64) -> (r: u64)
        ensures
            r == secs_since(self.started, now),
    {
        elapsed_secs(self.started, now)
    }

    /// Records a connection that failed to authenticate.
    pub fn note_rejected(&mut self)
        requires
            old(self).wf(),
        ensures
            final(self).wf(),
            final(self)@ == (HubState { rejected: plus_one(old(self)@.rejected), ..old(self)@ }),
            final(self).same_setup(old(self)),
    {
        let ghost before = self@;
        self.rejected = self.rejected.wrapping_add(1);
        proof {
            before.less_undelivered_is_sound(self@);
        }
    }

    /// A new room would be one too many.
    pub open spec fn refuses_room(&self, room_id: Seq<char>) -> bool {
        !self@.rooms.contains_key(room_id) && self@.rooms.dom().len() >= self.max_rooms
    }

    /// Challenge for `room_id`, creating the room if needed, with a challenge that
    /// depends on chance.
    ///
    /// Creating the room here, before authentication, is what makes the challenge
    /// stable across the members of a room. `max_rooms` is the bound that keeps
    /// this from being an unbounded allocation primitive.
    pub fn challenge_for(&mut self, room_id: &str, now: u64) -> (r: Result<[u8; 32], HubError>)
        requires
            old(self).wf(),
        ensures
            final(self).wf(),
            final(self).same_setup(old(self)),
            r is Err <==> old(self).refuses_room(room_id@),
            r matches Err(e) ==> e == HubError::RoomsFull && *final(self) == *old(self),
            r matches Ok(challenge) ==> {
                &&& old(self)@.rooms.contains_key(room_id@) ==> challenge@
                    == old(self)@.rooms[room_id@].challenge && *final(self) == *old(self)
                &&& !old(self)@.rooms.contains_key(room_id@) ==> final(self)@ == (HubState {
                    rooms: old(self)@.rooms.insert(
                        room_id@,
                        RoomState::fresh(challenge@, now),
                    ),
                    ..old(self)@
                })
            },
    {
        self.challenge_with(room_id, random_challenge(), now)
    }

    /// [`Hub::challenge_for`], with the challenge that a new room is to get.
    pub fn challenge_with(&mut self, room_id: &str, fresh: [u8; 32], now: u64) -> (r: Result<
        [u8; 32],
        HubError,
    >)
        requires
            old(self).wf(),
        ensures
            final(self).wf(),
            final(self).same_setup(old(self)),
            r is Err <==> old(self).refuses_room(room_id@),
            r matches Err(e) ==> e == HubError::RoomsFull && *final(self) == *old(self),
            r matches Ok(challenge) ==> {
                &&& old(self)@.rooms.contains_key(room_id@) ==> challenge@
                    == old(self)@.rooms[room_id@].challenge && *final(self) == *old(self)
                &&& !old(self)@.rooms.contains_key(room_id@) ==> challenge == fresh && final(self)@
                    == (HubState {
                    rooms: old(self)@.rooms.insert(room_id@, RoomState::fresh(fresh@, now)),
                    ..old(self)@
                })
            },
    {
        proof {
            self.rooms.size();
            assert(self@.rooms.dom() =~= self.rooms@.dom());
        }
        if let Some(i) = self.rooms.position(room_id) {
            return Ok(self.rooms.value(i).challenge);
        }
        if self.rooms.len() >= self.max_rooms {
            return Err(HubError::RoomsFull);
        }
        let ghost before = *self;
        self.rooms.insert(room_id.to_string(), Room::new(fresh, now));
        proof {
            assert(self@.rooms =~= before@.rooms.insert(room_id@, RoomState::fresh(fresh@, now)));
            assert forall|r: Seq<char>, k: Seq<char>| #[trigger]
                self@.holds(r, k) implies before@.holds(r, k) && self@.ticket(r, k)
                == before@.ticket(r, k) by {}
            before@.shrinking_is_sound(self@);
        }
        Ok(fresh)
    }

    /// Verifies the MAC and registers the device.
    ///
    /// `user` and `name` come from the unauthenticated handshake, so they are
    /// treated as self-reported display metadata for the admin view, never for
    /// authorisation.
    pub fn join(
        &mut self,
        room_id: &str,
        device_id: &str,
        mac: &[u8],
        user: String,
        name: String,
        now: u64,
    ) -> (r: Result<Joined, HubError>)
        requires
            old(self).wf(),
            old(self).next_ticket < u64::MAX,
        ensures
            final(self).wf(),
            final(self).same_setup(old(self)),
            match old(self).refuses_device(room_id@, device_id@, mac@) {
                Some(e) => r == Err::<Joined, _>(e) && final(self)@ == old(self)@,
                None => {
                    let ticket = old(self)@.next_ticket;
                    &&& r matches Ok(j) && welcomes(
                        j,
                        old(self)@.rooms[room_id@],
                        device_id@,
                        ticket,
                    )
                    &&& exists|a: Frame| #[trigger]
                        announces(a, device_id@, true) && final(self)@ == old(self)@.joins(
                            room_id@,
                            device_id@,
                            mac@,
                            arrival(ticket, user, name, now),
                            a,
                            now,
                        )
                },
            },
    {
        let i: usize = match self.rooms.position(room_id) {
            Some(i) => i,
            // Every device left between the challenge and the auth frame. Tell the
            // client to retry rather than guessing.
            None => {
                return Err(HubError::RoomExpired);
            },
        };
        let ghost before = *self;
        let ticket: u64 = self.next_ticket;
        let limit: usize = self.max_devices_per_room;
        proof {
            self.rooms.at_position(i as int);
            self@.rooms_are_apart(room_id@);
            assert forall|k: Seq<char>| #[trigger]
                self@.rooms[room_id@].devices.contains_key(
                    k,
                ) implies self@.rooms[room_id@].devices[k].ticket != ticket by {
                assert(self@.holds(room_id@, k));
            }
        }
        let joined = self.rooms.value_mut(i).join(
            device_id,
            mac,
            user,
            name,
            ticket,
            now,
            limit,
            &mut self.undelivered,
        );
        proof {
            self.rooms.changed_at(before.rooms, i as int);
            assert(self@.rooms =~= before@.rooms.insert(room_id@, self.rooms.values()[i as int]@));
            assert(before@.rooms.insert(room_id@, before@.rooms[room_id@]) =~= before@.rooms);
        }
        match joined {
            Ok(j) => {
                self.accepted = self.accepted.wrapping_add(1);
                self.next_ticket = ticket + 1;
                proof {
                    let arrived = arrival(ticket, user, name, now);
                    let a = choose|a: Frame| #[trigger]
                        announces(a, device_id@, true) && self.rooms.values()[i as int]@
                            == before@.rooms[room_id@].joined(
                            device_id@,
                            mac@,
                            arrived,
                            a,
                            now,
                        );
                    assert(self@ == before@.joins(room_id@, device_id@, mac@, arrived, a, now));
                    before@.joining_is_sound(room_id@, device_id@, mac@, arrived, a, now);
                }
                Ok(j)
            },
            Err(e) => Err(e),
        }
    }

    /// Why a device may not join, if it may not.
    pub open spec fn refuses_device(
        &self,
        room_id: Seq<char>,
        device_id: Seq<char>,
        mac: Seq<u8>,
    ) -> Option<HubError> {
        if !self@.rooms.contains_key(room_id) {
            Some(HubError::RoomExpired)
        } else {
            self@.rooms[room_id].accepts(device_id, mac, self.max_devices_per_room as int)
        }
    }

    /// Deregisters a device and tells the room. Removes the room once empty,
    /// which also rotates the challenge for whoever comes next.
    pub fn leave(&mut self, room_id: &str, device_id: &str)
        requires
            old(self).wf(),
        ensures
            final(self).wf(),
            final(self).same_setup(old(self)),
            !old(self)@.rooms.contains_key(room_id@) ==> *final(self) == *old(self),
            old(self)@.rooms.contains_key(room_id@) ==> exists|a: Frame| #[trigger]
                announces(a, device_id@, false) && final(self)@ == old(self)@.leaves(
                    room_id@,
                    device_id@,
                    a,
                ),
    {
        let i: usize = match self.rooms.position(room_id) {
            Some(i) => i,
            None => {
                return;
            },
        };
        let ghost before = *self;
        proof {
            self.rooms.at_position(i as int);
            self@.rooms_are_apart(room_id@);
        }
        self.rooms.value_mut(i).leave(device_id, &mut self.undelivered);
        let ghost room = self.rooms.values()[i as int];
        proof {
            self.rooms.changed_at(before.rooms, i as int);
            assert(self@.rooms =~= before@.rooms.insert(room_id@, room@));
            room.devices.size();
            assert(room@.devices.dom() =~= room.devices@.dom());
        }
        if self.rooms.value(i).devices.len() == 0 {
            let _ = self.rooms.remove(room_id);
            proof {
                assert(self@.rooms =~= before@.rooms.remove(room_id@));
            }
        }
        proof {
            let a = choose|a: Frame| #[trigger]
                announces(a, device_id@, false) && room@ == before@.rooms[room_id@].left(
                    device_id@,
                    a,
                );
            assert(self@ == before@.leaves(room_id@, device_id@, a));
            before@.leaving_is_sound(room_id@, device_id@, a);
        }
    }

    /// [`Hub::leave`] for a connection that ended. A device that came back on
    /// another connection meanwhile stays.
    pub fn leave_from(&mut self, room_id: &str, device_id: &str, ticket: u64)
        requires
            old(self).wf(),
        ensures
            final(self).wf(),
            final(self).same_setup(old(self)),
            old(self)@.moved_on(room_id@, device_id@, ticket) || !old(self)@.rooms.contains_key(
                room_id@,
            ) ==> *final(self) == *old(self),
            !old(self)@.moved_on(room_id@, device_id@, ticket) && old(self)@.rooms.contains_key(
                room_id@,
            ) ==> exists|a: Frame| #[trigger]
                announces(a, device_id@, false) && final(self)@ == old(self)@.leaves(
                    room_id@,
                    device_id@,
                    a,
                ),
    {
        if let Some(room) = self.rooms.get(room_id) {
            if let Some(device) = room.devices.get(device_id) {
                if device.ticket != ticket {
                    return;
                }
            }
        }
        self.leave(room_id, device_id);
    }

    /// Forwards an encrypted payload to the other devices in the room.
    ///
    /// `from` is taken from the authenticated connection, not from the frame, so
    /// a device cannot claim to be another one.
    pub fn relay(&mut self, room_id: &str, from: &str, relay: Relay, now: u64) -> (r: Result<
        (),
        HubError,
    >)
        requires
            old(self).wf(),
        ensures
            final(self).wf(),
            final(self).same_setup(old(self)),
            r is Ok <==> old(self)@.rooms.contains_key(room_id@),
            r matches Err(e) ==> e == HubError::NoRoom && *final(self) == *old(self),
            r is Ok ==> exists|m: Relay| #[trigger]
                attributed(relay, from@, m) && final(self)@ == old(self)@.relays(
                    room_id@,
                    from@,
                    m,
                    now,
                ),
    {
        let i: usize = match self.rooms.position(room_id) {
            Some(i) => i,
            None => {
                return Err(HubError::NoRoom);
            },
        };
        let ghost before = *self;
        proof {
            self.rooms.at_position(i as int);
            self@.rooms_are_apart(room_id@);
        }
        self.rooms.value_mut(i).relay(from, relay, now, &mut self.undelivered);
        proof {
            let room = self.rooms.values()[i as int];
            self.rooms.changed_at(before.rooms, i as int);
            assert(self@.rooms =~= before@.rooms.insert(room_id@, room@));
            let m = choose|m: Relay| #[trigger]
                attributed(relay, from@, m) && room@ == before@.rooms[room_id@].relayed(
                    from@,
                    m,
                    now,
                );
            assert(self@ == before@.relays(room_id@, from@, m, now));
            before@.relaying_is_sound(room_id@, from@, m, now);
        }
        Ok(())
    }

    /// The next frame for a connection.
    pub fn try_recv(&mut self, room_id: &str, device_id: &str, ticket: u64) -> (r: Outbox)
        requires
            old(self).wf(),
        ensures
            final(self).wf(),
            final(self).same_setup(old(self)),
            old(self)@.collects(room_id@, device_id@, ticket, r, final(self)@),
            r is Empty ==> *final(self) == *old(self),
    {
        let i: usize = match self.rooms.position(room_id) {
            Some(i) => i,
            None => {
                return self.collect(ticket);
            },
        };
        let j: usize = match self.rooms.value(i).devices.position(device_id) {
            Some(j) => j,
            None => {
                return self.collect(ticket);
            },
        };
        if self.rooms.value(i).devices.value(j).ticket != ticket {
            return self.collect(ticket);
        }
        if self.rooms.value(i).devices.value(j).queue.len() == 0 {
            return Outbox::Empty;
        }
        let ghost before = *self;
        let ghost room = before.rooms.values()[i as int];
        let ghost device = room.devices.values()[j as int];
        let frame = self.rooms.value_mut(i).devices.value_mut(j).queue.remove(0);
        proof {
            let now_room = self.rooms.values()[i as int];
            let now_device = now_room.devices.values()[j as int];
            assert(now_device.queue@ =~= device.queue@.drop_first());
            now_room.devices.changed_at(room.devices, j as int);
            self.rooms.changed_at(before.rooms, i as int);
            assert(now_room@.devices =~= room@.devices.insert(device_id@, now_device@));
            assert(self@.rooms =~= before@.rooms.insert(room_id@, now_room@));
            assert(before@.holds(room_id@, device_id@));
            assert(self@.rooms == before@.rooms.insert(
                room_id@,
                before@.rooms[room_id@].with_queue(device_id@, device.queue@.drop_first()),
            ));
            before@.collecting_is_sound(self@, room_id@, device_id@);
        }
        Outbox::Frame(frame)
    }

    /// The next frame for a connection that was cut off.
    fn collect(&mut self, ticket: u64) -> (r: Outbox)
        requires
            old(self).wf(),
        ensures
            final(self).wf(),
            final(self).same_setup(old(self)),
            if old(self)@.undelivered.contains_key(ticket) && old(self)@.undelivered[ticket].len()
                > 0 {
                let queue = old(self)@.undelivered[ticket];
                &&& r == Outbox::Frame(queue[0])
                &&& final(self)@ == (HubState {
                    undelivered: old(self)@.undelivered.insert(ticket, queue.drop_first()),
                    ..old(self)@
                })
            } else {
                r is Closed && final(self)@ == old(self)@
            },
    {
        let ghost before = self@;
        match self.undelivered.pop(ticket) {
            Some(frame) => {
                proof {
                    before.less_undelivered_is_sound(self@);
                }
                Outbox::Frame(frame)
            },
            None => Outbox::Closed,
        }
    }

    /// A connection is gone: what it has not collected is forgotten.
    pub fn hang_up(&mut self, ticket: u64)
        requires
            old(self).wf(),
        ensures
            final(self).wf(),
            final(self).same_setup(old(self)),
            final(self)@ == (HubState {
                undelivered: old(self)@.undelivered.remove(ticket),
                ..old(self)@
            }),
    {
        let ghost before = self@;
        self.undelivered.forget(ticket);
        proof {
            before.less_undelivered_is_sound(self@);
        }
    }

    /// Drops a device wherever it is connected, ending its connection. Which room
    /// that is stays open when the id is in several.
    ///
    /// Used by the web page's "disconnect" action. Returns whether the device was
    /// found at all.
    pub fn kick(&mut self, device_id: &str, now: u64) -> (r: bool)
        requires
            old(self).wf(),
        ensures
            final(self).wf(),
            final(self).same_setup(old(self)),
            r <==> exists|k: Seq<char>| #[trigger] old(self)@.holds(k, device_id@),
            !r ==> *final(self) == *old(self),
            r ==> exists|k: Seq<char>| #[trigger]
                old(self)@.holds(k, device_id@) && final(self)@ == old(self)@.kicked(
                    k,
                    device_id@,
                    now,
                ),
    {
        let n: usize = self.rooms.len();
        let mut i: usize = 0;
        while i < n
            invariant
                *self == *old(self),
                self.wf(),
                n == self.rooms.order().len(),
                i <= n,
                forall|j: int|
                    0 <= j < i ==> !self@.holds(#[trigger] self.rooms.order()[j], device_id@),
            decreases n - i,
        {
            proof {
                self.rooms.at_position(i as int);
            }
            if self.rooms.value(i).devices.contains(device_id) {
                let ghost before = *self;
                let ghost room = before.rooms.values()[i as int];
                let ghost key = before.rooms.order()[i as int];
                let target = self.rooms.value_mut(i);
                let removed = target.devices.remove(device_id);
                target.last_active = now;
                if let Some(gone) = removed {
                    assert(room@.devices[device_id@] == gone@);
                    self.undelivered.keep(gone.ticket, gone.queue);
                }
                proof {
                    assert(self.undelivered@ =~= before.undelivered@.union_prefer_right(
                        uncollected(room@.devices, device_id@),
                    ));
                    let now_room = self.rooms.values()[i as int];
                    assert(before@.holds(key, device_id@));
                    self.rooms.changed_at(before.rooms, i as int);
                    assert(now_room@.devices =~= room@.devices.remove(device_id@));
                    assert(self@.rooms =~= before@.rooms.insert(key, now_room@));
                    assert(self@ == before@.kicked(key, device_id@, now));
                    before@.kicking_is_sound(key, device_id@, now);
                }
                return true;
            }
            i = i + 1;
        }
        proof {
            assert forall|k: Seq<char>| !#[trigger] self@.holds(k, device_id@) by {
                if self@.holds(k, device_id@) {
                    let j = self.rooms.position_of(k);
                    assert(self.rooms.order()[j] == k);
                }
            }
        }
        false
    }
}

impl HubState {
    /// A device is in a room.
    pub open spec fn holds(self, room_id: Seq<char>, device_id: Seq<char>) -> bool {
        self.rooms.contains_key(room_id) && self.rooms[room_id].devices.contains_key(device_id)
    }

    /// The connection that a device is on.
    pub open spec fn ticket(self, room_id: Seq<char>, device_id: Seq<char>) -> u64 {
        self.rooms[room_id].devices[device_id].ticket
    }

    /// A device is in a room, on another connection than this one.
    pub open spec fn moved_on(self, room_id: Seq<char>, device_id: Seq<char>, ticket: u64) -> bool {
        self.holds(room_id, device_id) && self.ticket(room_id, device_id) != ticket
    }

    /// Each device has a connection of its own, which is not one that was cut off;
    /// the next one is new.
    pub open spec fn sound(self) -> bool {
        &&& forall|r: Seq<char>, k: Seq<char>| #[trigger]
            self.holds(r, k) ==> self.ticket(r, k) < self.next_ticket
                && !self.undelivered.contains_key(self.ticket(r, k))
        &&& forall|r: Seq<char>, k: Seq<char>, q: Seq<char>, l: Seq<char>| #[trigger]
            self.holds(r, k) && #[trigger] self.holds(q, l) && self.ticket(r, k) == self.ticket(q, l)
                ==> r == q && k == l
        &&& forall|t: u64| #[trigger] self.undelivered.contains_key(t) ==> t < self.next_ticket
    }

    /// A device joined a room. Where it was in the room already, its old
    /// connection is cut off.
    pub open spec fn joins(
        self,
        room_id: Seq<char>,
        device_id: Seq<char>,
        mac: Seq<u8>,
        device: DeviceState,
        announcement: Frame,
        now: u64,
    ) -> HubState {
        let room = self.rooms[room_id];
        HubState {
            rooms: self.rooms.insert(
                room_id,
                room.joined(device_id, mac, device, announcement, now),
            ),
            undelivered: self.undelivered.union_prefer_right(
                uncollected(room.devices, device_id),
            ).union_prefer_right(cut_off(room.devices, device_id)),
            accepted: plus_one(self.accepted),
            next_ticket: plus_one(self.next_ticket),
            ..self
        }
    }

    /// A device left a room, which goes with its last device.
    pub open spec fn leaves(
        self,
        room_id: Seq<char>,
        device_id: Seq<char>,
        announcement: Frame,
    ) -> HubState {
        let room = self.rooms[room_id];
        let after = room.left(device_id, announcement);
        HubState {
            rooms: if after.devices.dom().len() == 0 {
                self.rooms.remove(room_id)
            } else {
                self.rooms.insert(room_id, after)
            },
            undelivered: self.undelivered.union_prefer_right(
                uncollected(room.devices, device_id),
            ).union_prefer_right(cut_off(room.devices, device_id)),
            ..self
        }
    }

    /// A payload went to everyone in a room but its sender.
    pub open spec fn relays(
        self,
        room_id: Seq<char>,
        from: Seq<char>,
        relay: Relay,
        now: u64,
    ) -> HubState {
        let room = self.rooms[room_id];
        HubState {
            rooms: self.rooms.insert(room_id, room.relayed(from, relay, now)),
            undelivered: self.undelivered.union_prefer_right(cut_off(room.devices, from)),
            ..self
        }
    }

    /// A device of a room was disconnected.
    pub open spec fn kicked(self, room_id: Seq<char>, device_id: Seq<char>, now: u64) -> HubState {
        let room = self.rooms[room_id];
        HubState {
            rooms: self.rooms.insert(
                room_id,
                RoomState { devices: room.devices.remove(device_id), last_active: now, ..room },
            ),
            undelivered: self.undelivered.union_prefer_right(uncollected(room.devices, device_id)),
            ..self
        }
    }

    proof fn rooms_are_apart(self, room_id: Seq<char>)
        requires
            self.sound(),
            self.rooms.contains_key(room_id),
        ensures
            apart(self.rooms[room_id].devices),
    {
        let devices = self.rooms[room_id].devices;
        assert forall|a: Seq<char>, b: Seq<char>| #[trigger]
            devices.contains_key(a) && #[trigger] devices.contains_key(b) && devices[a].ticket
                == devices[b].ticket implies a == b by {
            assert(self.holds(room_id, a) && self.holds(room_id, b));
        }
    }

    /// A hub stays sound when devices stay on their connections or go, and what is
    /// kept comes from connections of devices that went.
    proof fn shrinking_is_sound(self, after: HubState)
        requires
            self.sound(),
            after.next_ticket == self.next_ticket,
            forall|r: Seq<char>, k: Seq<char>| #[trigger]
                after.holds(r, k) ==> self.holds(r, k) && after.ticket(r, k) == self.ticket(r, k),
            forall|t: u64| #[trigger]
                after.undelivered.contains_key(t) ==> self.undelivered.contains_key(t) || exists|
                    r: Seq<char>,
                    k: Seq<char>,
                | #[trigger]
                    self.holds(r, k) && !after.holds(r, k) && self.ticket(r, k) == t,
        ensures
            after.sound(),
    {
        assert forall|r: Seq<char>, k: Seq<char>| #[trigger] after.holds(r, k) implies after.ticket(
            r,
            k,
        ) < after.next_ticket && !after.undelivered.contains_key(after.ticket(r, k)) by {
            let t = after.ticket(r, k);
            assert(self.holds(r, k));
            if after.undelivered.contains_key(t) {
                let (q, l) = choose|q: Seq<char>, l: Seq<char>| #[trigger]
                    self.holds(q, l) && !after.holds(q, l) && self.ticket(q, l) == t;
                assert(self.holds(q, l));
            }
        }
        assert forall|t: u64| #[trigger] after.undelivered.contains_key(t) implies t
            < after.next_ticket by {
            if !self.undelivered.contains_key(t) {
                let (q, l) = choose|q: Seq<char>, l: Seq<char>| #[trigger]
                    self.holds(q, l) && !after.holds(q, l) && self.ticket(q, l) == t;
                assert(self.holds(q, l));
            }
        }
    }

    proof fn less_undelivered_is_sound(self, after: HubState)
        requires
            self.sound(),
            after.next_ticket == self.next_ticket,
            after.rooms == self.rooms,
            after.undelivered.dom().subset_of(self.undelivered.dom()),
        ensures
            after.sound(),
    {
        assert forall|r: Seq<char>, k: Seq<char>| #[trigger] after.holds(r, k) implies self.holds(
            r,
            k,
        ) && after.ticket(r, k) == self.ticket(r, k) by {}
        assert forall|t: u64| #[trigger]
            after.undelivered.contains_key(t) implies self.undelivered.contains_key(t) by {
            assert(self.undelivered.dom().contains(t));
        }
        self.shrinking_is_sound(after);
    }

    proof fn collecting_is_sound(self, after: HubState, room_id: Seq<char>, device_id: Seq<char>)
        requires
            self.sound(),
            self.holds(room_id, device_id),
            after.next_ticket == self.next_ticket,
            after.undelivered == self.undelivered,
            exists|queue: Seq<Frame>|
                after.rooms == #[trigger] self.rooms.insert(
                    room_id,
                    self.rooms[room_id].with_queue(device_id, queue),
                ),
        ensures
            after.sound(),
    {
        assert forall|r: Seq<char>, k: Seq<char>| #[trigger] after.holds(r, k) implies self.holds(
            r,
            k,
        ) && after.ticket(r, k) == self.ticket(r, k) by {}
        self.shrinking_is_sound(after);
    }

    proof fn relaying_is_sound(self, room_id: Seq<char>, from: Seq<char>, relay: Relay, now: u64)
        requires
            self.sound(),
            self.rooms.contains_key(room_id),
        ensures
            self.relays(room_id, from, relay, now).sound(),
    {
        let after = self.relays(room_id, from, relay, now);
        let devices = self.rooms[room_id].devices;
        assert forall|t: u64| #[trigger]
            after.undelivered.contains_key(t) implies self.undelivered.contains_key(t) || exists|
            r: Seq<char>,
            k: Seq<char>,
        | #[trigger] self.holds(r, k) && !after.holds(r, k) && self.ticket(r, k) == t by {
            if !self.undelivered.contains_key(t) {
                let k = choose|k: Seq<char>| #[trigger]
                    falls_behind(devices, from, k) && devices[k].ticket == t;
                assert(self.holds(room_id, k) && !after.holds(room_id, k));
            }
        }
        self.shrinking_is_sound(after);
    }

    proof fn leaving_is_sound(self, room_id: Seq<char>, device_id: Seq<char>, announcement: Frame)
        requires
            self.sound(),
            self.rooms.contains_key(room_id),
        ensures
            self.leaves(room_id, device_id, announcement).sound(),
    {
        let after = self.leaves(room_id, device_id, announcement);
        let devices = self.rooms[room_id].devices;
        assert forall|t: u64| #[trigger]
            after.undelivered.contains_key(t) implies self.undelivered.contains_key(t) || exists|
            r: Seq<char>,
            k: Seq<char>,
        | #[trigger] self.holds(r, k) && !after.holds(r, k) && self.ticket(r, k) == t by {
            if cut_off(devices, device_id).contains_key(t) {
                let k = choose|k: Seq<char>| #[trigger]
                    falls_behind(devices, device_id, k) && devices[k].ticket == t;
                assert(self.holds(room_id, k) && !after.holds(room_id, k));
            } else if !self.undelivered.contains_key(t) {
                assert(self.holds(room_id, device_id) && !after.holds(room_id, device_id));
            }
        }
        self.shrinking_is_sound(after);
    }

    proof fn kicking_is_sound(self, room_id: Seq<char>, device_id: Seq<char>, now: u64)
        requires
            self.sound(),
            self.holds(room_id, device_id),
        ensures
            self.kicked(room_id, device_id, now).sound(),
    {
        let after = self.kicked(room_id, device_id, now);
        assert(self.holds(room_id, device_id) && !after.holds(room_id, device_id));
        self.shrinking_is_sound(after);
    }

    proof fn joining_is_sound(
        self,
        room_id: Seq<char>,
        device_id: Seq<char>,
        mac: Seq<u8>,
        device: DeviceState,
        announcement: Frame,
        now: u64,
    )
        requires
            self.sound(),
            self.rooms.contains_key(room_id),
            device.ticket == self.next_ticket,
            self.next_ticket < u64::MAX,
        ensures
            self.joins(room_id, device_id, mac, device, announcement, now).sound(),
    {
        let after = self.joins(room_id, device_id, mac, device, announcement, now);
        let devices = self.rooms[room_id].devices;
        assert forall|r: Seq<char>, k: Seq<char>| #[trigger] after.holds(r, k) implies (r == room_id
            && k == device_id && after.ticket(r, k) == self.next_ticket) || (!(r == room_id && k
            == device_id) && self.holds(r, k) && after.ticket(r, k) == self.ticket(r, k)) by {}
        assert forall|t: u64| #[trigger]
            after.undelivered.contains_key(t) implies self.undelivered.contains_key(t) || exists|
            r: Seq<char>,
            k: Seq<char>,
        | #[trigger]
            self.holds(r, k) && (!after.holds(r, k) || (r == room_id && k == device_id))
                && self.ticket(r, k) == t by {
            if cut_off(devices, device_id).contains_key(t) {
                let k = choose|k: Seq<char>| #[trigger]
                    falls_behind(devices, device_id, k) && devices[k].ticket == t;
                assert(self.holds(room_id, k) && !after.holds(room_id, k));
            } else if !self.undelivered.contains_key(t) {
                assert(self.holds(room_id, device_id));
            }
        }
        assert forall|t: u64| #[trigger] after.undelivered.contains_key(t) implies t
            < self.next_ticket by {
            if !self.undelivered.contains_key(t) {
                let (q, l) = choose|q: Seq<char>, l: Seq<char>| #[trigger]
                    self.holds(q, l) && (!after.holds(q, l) || (q == room_id && l == device_id))
                        && self.ticket(q, l) == t;
                assert(self.holds(q, l));
            }
        }
        assert forall|r: Seq<char>, k: Seq<char>| #[trigger] after.holds(r, k) implies after.ticket(
            r,
            k,
        ) < after.next_ticket && !after.undelivered.contains_key(after.ticket(r, k)) by {
            let t = after.ticket(r, k);
            if after.undelivered.contains_key(t) {
                assert(self.holds(r, k));
                let (q, l) = choose|q: Seq<char>, l: Seq<char>| #[trigger]
                    self.holds(q, l) && (!after.holds(q, l) || (q == room_id && l == device_id))
                        && self.ticket(q, l) == t;
                assert(self.holds(q, l));
            }
        }
        assert forall|r: Seq<char>, k: Seq<char>, q: Seq<char>, l: Seq<char>| #[trigger]
            after.holds(r, k) && #[trigger] after.holds(q, l) && after.ticket(r, k) == after.ticket(
                q,
                l,
            ) implies r == q && k == l by {
            if !(r == room_id && k == device_id) {
                assert(self.holds(r, k));
            }
            if !(q == room_id && l == device_id) {
                assert(self.holds(q, l));
            }
        }
    }

    /// The device that is on a connection.
    pub open spec fn on_connection(
        self,
        room_id: Seq<char>,
        device_id: Seq<char>,
        ticket: u64,
    ) -> Option<DeviceState> {
        if self.holds(room_id, device_id) && self.rooms[room_id].devices[device_id].ticket
            == ticket {
            Some(self.rooms[room_id].devices[device_id])
        } else {
            None
        }
    }

    /// What the connection of a device finds when it collects a frame, and what is
    /// held after that.
    pub open spec fn collects(
        self,
        room_id: Seq<char>,
        device_id: Seq<char>,
        ticket: u64,
        found: Outbox,
        after: HubState,
    ) -> bool {
        match self.on_connection(room_id, device_id, ticket) {
            // Cut off: what is left is collected first.
            None => if self.undelivered.contains_key(ticket) && self.undelivered[ticket].len() > 0 {
                let queue = self.undelivered[ticket];
                &&& found == Outbox::Frame(queue[0])
                &&& after == (HubState {
                    undelivered: self.undelivered.insert(ticket, queue.drop_first()),
                    ..self
                })
            } else {
                found is Closed && after == self
            },
            Some(d) => if d.queue.len() == 0 {
                found is Empty && after == self
            } else {
                &&& found == Outbox::Frame(d.queue[0])
                &&& after == (HubState {
                    rooms: self.rooms.insert(
                        room_id,
                        self.rooms[room_id].with_queue(device_id, d.queue.drop_first()),
                    ),
                    ..self
                })
            },
        }
    }
}

// ---------------------------------------------------------------------------
// What holds of a room
// ---------------------------------------------------------------------------

/// A room keeps its challenge for as long as it lives.
pub proof fn challenge_is_stable(
    room: RoomState,
    device_id: Seq<char>,
    mac: Seq<u8>,
    device: DeviceState,
    frame: Frame,
    relay: Relay,
    now: u64,
)
    ensures
        room.joined(device_id, mac, device, frame, now).challenge == room.challenge,
        room.left(device_id, frame).challenge == room.challenge,
        room.relayed(device_id, relay, now).challenge == room.challenge,
{
}

/// The first device sets the expected answer; from then on a device gets in only
/// with the same one.
pub proof fn later_devices_must_answer_alike(
    room: RoomState,
    first: Seq<char>,
    mac: Seq<u8>,
    device: DeviceState,
    frame: Frame,
    now: u64,
    later: Seq<char>,
    other: Seq<u8>,
    max_devices: int,
)
    ensures
        ({
            let after = room.joined(first, mac, device, frame, now);
            &&& other != mac ==> after.accepts(later, other, max_devices) == Some(
                HubError::MacMismatch,
            )
            &&& after.accepts(later, mac, max_devices) != Some(HubError::MacMismatch)
        }),
{
}

/// A payload reaches every other device that keeps up, at the end of its queue,
/// and never comes back to its sender.
pub proof fn relay_reaches_the_others(
    room: RoomState,
    from: Seq<char>,
    relay: Relay,
    now: u64,
    k: Seq<char>,
)
    requires
        room.devices.contains_key(k),
    ensures
        ({
            let after = room.relayed(from, relay, now);
            &&& k == from ==> after.devices.contains_key(k) && after.devices[k] == room.devices[k]
            &&& k != from && room.devices[k].queue.len() < DEVICE_QUEUE
                ==> after.devices.contains_key(k) && after.devices[k].queue
                == room.devices[k].queue.push(Frame::Relay(relay))
        }),
{
}

/// No queue outgrows its bound.
pub proof fn queues_stay_bounded(
    devices: Map<Seq<char>, DeviceState>,
    exclude: Seq<char>,
    frame: Frame,
    k: Seq<char>,
)
    requires
        devices.contains_key(k) ==> devices[k].queue.len() <= DEVICE_QUEUE,
    ensures
        fanned(devices, exclude, frame).contains_key(k) ==> fanned(
            devices,
            exclude,
            frame,
        )[k].queue.len() <= DEVICE_QUEUE,
{
}

/// What a device asks to be retained, every other device gets when it joins.
pub proof fn retained_state_is_replayed(
    room: RoomState,
    from: Seq<char>,
    relay: Relay,
    now: u64,
    joiner: Seq<char>,
    list: Seq<Relay>,
)
    requires
        relay.from@ == from,
        relay.retain is Some,
        joiner != from,
        replayed(list, room.relayed(from, relay, now).retained, joiner),
    ensures
        list.contains(relay),
{
    let after = room.relayed(from, relay, now).retained;
    let key = retain_key(from, relay.retain->0@);
    assert(after[key] == relay);
    let keys = choose|keys: Seq<Seq<char>>| #[trigger] replays(list, after, joiner, keys);
    assert(keys.contains(key));
    let m = keys.index_of(key);
    assert(keys[m] == key);
    assert(list[m] == relay);
}

/// A device is never handed its own retained state back.
pub proof fn own_state_is_not_replayed(
    retained: Map<Seq<char>, Relay>,
    device_id: Seq<char>,
    list: Seq<Relay>,
    i: int,
)
    requires
        replayed(list, retained, device_id),
        0 <= i < list.len(),
    ensures
        list[i].from@ != device_id,
{
    let keys = choose|keys: Seq<Seq<char>>| #[trigger] replays(list, retained, device_id, keys);
    assert(retained.contains_key(keys[i]));
}

/// Two devices retain their states apart, and so do two slots of one device, as
/// long as no slot has a slash in its name.
pub proof fn retained_states_do_not_collide(
    a: Seq<char>,
    s: Seq<char>,
    b: Seq<char>,
    t: Seq<char>,
)
    requires
        !s.contains('/'),
        !t.contains('/'),
        retain_key(a, s) == retain_key(b, t),
    ensures
        a == b,
        s == t,
{
    reveal_strlit("/");
    assert("/"@ =~= seq!['/']);
    let x = a + seq!['/'] + s;
    let y = b + seq!['/'] + t;
    assert(x == retain_key(a, s) && y == retain_key(b, t));
    assert(x.len() == a.len() + 1 + s.len() && y.len() == b.len() + 1 + t.len());
    assert(x[a.len() as int] == '/');
    assert(y[b.len() as int] == '/');
    if a.len() < b.len() {
        assert(x[b.len() as int] == s[b.len() - a.len() - 1]);
        assert(s.contains('/'));
    }
    if b.len() < a.len() {
        assert(y[a.len() as int] == t[a.len() - b.len() - 1]);
        assert(t.contains('/'));
    }
    assert(a =~= x.take(a.len() as int));
    assert(b =~= y.take(b.len() as int));
    assert(s =~= x.skip(a.len() as int + 1));
    assert(t =~= y.skip(b.len() as int + 1));
}

/// The room goes with its last device.
pub proof fn last_device_takes_the_room(room: RoomState, device_id: Seq<char>, frame: Frame)
    requires
        forall|k: Seq<char>| #[trigger] room.devices.contains_key(k) ==> k == device_id,
    ensures
        room.left(device_id, frame).devices.dom().len() == 0,
{
    assert(room.left(device_id, frame).devices.dom() =~= Set::empty());
}

/// A device that came back on another connection is not disturbed by the end of the
/// one before: that one is not the device's any more.
pub proof fn replaced_connections_do_not_disturb(
    s: HubState,
    room_id: Seq<char>,
    device_id: Seq<char>,
    mac: Seq<u8>,
    device: DeviceState,
    announcement: Frame,
    now: u64,
    ticket: u64,
)
    requires
        s.rooms.contains_key(room_id),
        s.next_ticket < u64::MAX,
        device.ticket == s.next_ticket,
        ticket < s.next_ticket,
    ensures
        s.joins(room_id, device_id, mac, device, announcement, now).moved_on(
            room_id,
            device_id,
            ticket,
        ),
{
}

/// Leaving is heard by everyone who stays and keeps up.
pub proof fn leaving_is_announced(
    room: RoomState,
    device_id: Seq<char>,
    frame: Frame,
    k: Seq<char>,
)
    requires
        room.devices.contains_key(k),
        k != device_id,
        room.devices[k].queue.len() < DEVICE_QUEUE,
    ensures
        !room.left(device_id, frame).devices.contains_key(device_id),
        room.left(device_id, frame).devices.contains_key(k),
        room.left(device_id, frame).devices[k].queue == room.devices[k].queue.push(frame),
{
}

/// However a device loses its place (it is kicked, leaves, comes back on another
/// connection or does not keep up), what was queued for it stays there for its old
/// connection to collect.
pub proof fn queued_frames_are_not_lost(
    hub: HubState,
    room_id: Seq<char>,
    device_id: Seq<char>,
    mac: Seq<u8>,
    device: DeviceState,
    frame: Frame,
    from: Seq<char>,
    relay: Relay,
    now: u64,
)
    requires
        hub.sound(),
        hub.holds(room_id, device_id),
    ensures
        ({
            let old = hub.rooms[room_id].devices[device_id];
            let kept = map![old.ticket => old.queue];
            &&& kept.submap_of(hub.kicked(room_id, device_id, now).undelivered)
            &&& kept.submap_of(hub.leaves(room_id, device_id, frame).undelivered)
            &&& kept.submap_of(
                hub.joins(room_id, device_id, mac, device, frame, now).undelivered,
            )
            &&& from != device_id && old.queue.len() >= DEVICE_QUEUE ==> kept.submap_of(
                hub.relays(room_id, from, relay, now).undelivered,
            )
        }),
{
    let devices = hub.rooms[room_id].devices;
    let ticket = devices[device_id].ticket;
    hub.rooms_are_apart(room_id);
    assert(!cut_off(devices, device_id).contains_key(ticket)) by {
        if cut_off(devices, device_id).contains_key(ticket) {
            let k = choose|k: Seq<char>| #[trigger]
                falls_behind(devices, device_id, k) && devices[k].ticket == ticket;
            assert(devices.contains_key(k) && devices.contains_key(device_id));
        }
    }
    if from != device_id && devices[device_id].queue.len() >= DEVICE_QUEUE {
        assert(falls_behind(devices, from, device_id));
        cut_off_keeps_the_queue(devices, from, device_id);
    }
}

/// A device that is in one room at most is gone after it was kicked.
pub proof fn kicking_once_is_enough(
    hub: HubState,
    room_id: Seq<char>,
    device_id: Seq<char>,
    now: u64,
)
    requires
        hub.holds(room_id, device_id),
        forall|k: Seq<char>| #[trigger] hub.holds(k, device_id) ==> k == room_id,
    ensures
        forall|k: Seq<char>| !#[trigger] hub.kicked(room_id, device_id, now).holds(k, device_id),
{
    let after = hub.kicked(room_id, device_id, now);
    assert forall|k: Seq<char>| !#[trigger] after.holds(k, device_id) by {
        if k != room_id {
            assert(!hub.holds(k, device_id));
        }
    }
}

/// A device is refused for its answer exactly when the room expects another one, and
/// for want of space exactly when the room is full and the device is not in it yet.
pub proof fn who_is_let_in(room: RoomState, device_id: Seq<char>, mac: Seq<u8>, max_devices: int)
    ensures
        ({
            let wrong = room.expected_mac is Some && room.expected_mac->0 != mac;
            let full = room.devices.dom().len() >= max_devices && !room.devices.contains_key(
                device_id,
            );
            &&& room.accepts(device_id, mac, max_devices) == Some(HubError::MacMismatch) <==> wrong
            &&& room.accepts(device_id, mac, max_devices) == Some(HubError::DevicesFull) <==> !wrong
                && full
            &&& room.accepts(device_id, mac, max_devices) is None <==> !wrong && !full
        }),
{
}

/// An empty room takes the first device whatever it answers.
pub proof fn the_first_device_gets_in(
    challenge: Seq<u8>,
    device_id: Seq<char>,
    mac: Seq<u8>,
    max_devices: int,
    now: u64,
)
    requires
        max_devices >= 1,
    ensures
        RoomState::fresh(challenge, now).accepts(device_id, mac, max_devices) is None,
{
}

/// A frame goes to the end of every queue but that of the one left out. A device
/// with sixty-four frames waiting is dropped, and no other.
pub proof fn frames_reach_who_keeps_up(
    devices: Map<Seq<char>, DeviceState>,
    exclude: Seq<char>,
    frame: Frame,
    k: Seq<char>,
)
    ensures
        ({
            let after = fanned(devices, exclude, frame);
            let stays = devices.contains_key(k) && (k == exclude || devices[k].queue.len() < 64);
            &&& after.contains_key(k) <==> stays
            &&& stays && k == exclude ==> after[k] == devices[k]
            &&& stays && k != exclude ==> after[k] == (DeviceState {
                queue: devices[k].queue.push(frame),
                ..devices[k]
            })
        }),
{
}

/// A device that joined is in the room with what it came with, and hears nothing of
/// itself. The others hear of it. What was retained stays, and the answer is the
/// expected one from then on.
pub proof fn joining_takes_a_place(
    hub: HubState,
    room_id: Seq<char>,
    device_id: Seq<char>,
    mac: Seq<u8>,
    device: DeviceState,
    frame: Frame,
    now: u64,
    k: Seq<char>,
)
    requires
        hub.rooms.contains_key(room_id),
        hub.accepted < u64::MAX,
        hub.next_ticket < u64::MAX,
    ensures
        ({
            let room = hub.rooms[room_id];
            let after = hub.joins(room_id, device_id, mac, device, frame, now);
            let now_in = after.rooms[room_id];
            &&& after.holds(room_id, device_id)
            &&& now_in.devices[device_id] == device
            &&& now_in.expected_mac == Some(mac)
            &&& now_in.retained == room.retained
            &&& now_in.challenge == room.challenge
            &&& now_in.last_active == now
            &&& k != device_id && room.devices.contains_key(k) && room.devices[k].queue.len() < 64
                ==> after.holds(room_id, k) && now_in.devices[k].queue
                == room.devices[k].queue.push(frame) && now_in.devices[k].ticket
                == room.devices[k].ticket
            &&& k != device_id && after.holds(room_id, k) ==> hub.holds(room_id, k)
            &&& after.accepted == hub.accepted + 1
            &&& after.next_ticket == hub.next_ticket + 1
            &&& after.rejected == hub.rejected
        }),
{
}

/// What happens in a room leaves every other room alone.
pub proof fn rooms_do_not_mix(
    hub: HubState,
    room_id: Seq<char>,
    device_id: Seq<char>,
    mac: Seq<u8>,
    device: DeviceState,
    frame: Frame,
    relay: Relay,
    now: u64,
    other: Seq<char>,
)
    requires
        other != room_id,
    ensures
        ({
            let joined = hub.joins(room_id, device_id, mac, device, frame, now);
            let left = hub.leaves(room_id, device_id, frame);
            let relayed = hub.relays(room_id, device_id, relay, now);
            let kicked = hub.kicked(room_id, device_id, now);
            &&& hub.rooms.contains_key(other) <==> joined.rooms.contains_key(other)
            &&& hub.rooms.contains_key(other) <==> left.rooms.contains_key(other)
            &&& hub.rooms.contains_key(other) <==> relayed.rooms.contains_key(other)
            &&& hub.rooms.contains_key(other) <==> kicked.rooms.contains_key(other)
            &&& hub.rooms.contains_key(other) ==> joined.rooms[other] == hub.rooms[other]
                && left.rooms[other] == hub.rooms[other] && relayed.rooms[other]
                == hub.rooms[other] && kicked.rooms[other] == hub.rooms[other]
        }),
{
}

/// A payload that asks to be retained replaces the one of the same device and slot,
/// and no other; one that does not ask changes nothing of what is retained.
pub proof fn the_latest_state_is_retained(
    room: RoomState,
    from: Seq<char>,
    relay: Relay,
    now: u64,
    key: Seq<char>,
)
    ensures
        ({
            let after = room.relayed(from, relay, now);
            &&& relay.retain is None ==> after.retained == room.retained
            &&& relay.retain matches Some(slot) ==> {
                let own = from + "/"@ + slot@;
                &&& after.retained.contains_key(own)
                &&& after.retained[own] == relay
                &&& key != own ==> (after.retained.contains_key(key)
                    <==> room.retained.contains_key(key))
                &&& key != own && room.retained.contains_key(key) ==> after.retained[key]
                    == room.retained[key]
            }
            &&& after.expected_mac == room.expected_mac
            &&& after.last_active == now
        }),
{
}

/// A room lives exactly as long as someone is in it, and what they published with it.
pub proof fn rooms_live_while_occupied(
    hub: HubState,
    room_id: Seq<char>,
    device_id: Seq<char>,
    frame: Frame,
    k: Seq<char>,
)
    requires
        hub.rooms.contains_key(room_id),
        hub.rooms[room_id].devices.dom().finite(),
    ensures
        ({
            let room = hub.rooms[room_id];
            let after = hub.leaves(room_id, device_id, frame);
            &&& !after.holds(room_id, device_id)
            &&& k != device_id && room.devices.contains_key(k) && room.devices[k].queue.len() < 64
                ==> after.rooms.contains_key(room_id) && after.holds(room_id, k)
                && after.rooms[room_id].retained == room.retained
                && after.rooms[room_id].expected_mac == room.expected_mac
                && after.rooms[room_id].challenge == room.challenge
                && after.rooms[room_id].devices[k].queue == room.devices[k].queue.push(frame)
            &&& (forall|o: Seq<char>| #[trigger] room.devices.contains_key(o) ==> o == device_id)
                ==> !after.rooms.contains_key(room_id)
            &&& after.accepted == hub.accepted && after.rejected == hub.rejected
        }),
{
    let room = hub.rooms[room_id];
    let left = room.left(device_id, frame);
    assert(left.devices.dom().subset_of(room.devices.dom()));
    vstd::set_lib::lemma_len_subset(left.devices.dom(), room.devices.dom());
    if k != device_id && room.devices.contains_key(k) && room.devices[k].queue.len() < 64 {
        assert(left.devices.contains_key(k));
        if left.devices.dom().len() == 0 {
            assert(left.devices.dom().contains(k));
            assert(false);
        }
    }
    if forall|o: Seq<char>| #[trigger] room.devices.contains_key(o) ==> o == device_id {
        last_device_takes_the_room(room, device_id, frame);
    }
}

/// A kicked device is gone from its room, which stays as it was but for that.
pub proof fn kicking_takes_the_device_only(
    hub: HubState,
    room_id: Seq<char>,
    device_id: Seq<char>,
    now: u64,
    k: Seq<char>,
)
    requires
        hub.holds(room_id, device_id),
    ensures
        ({
            let room = hub.rooms[room_id];
            let after = hub.kicked(room_id, device_id, now);
            &&& after.rooms.contains_key(room_id)
            &&& !after.holds(room_id, device_id)
            &&& k != device_id ==> (after.holds(room_id, k) <==> hub.holds(room_id, k))
            &&& k != device_id && hub.holds(room_id, k) ==> after.rooms[room_id].devices[k]
                == room.devices[k]
            &&& after.rooms[room_id].retained == room.retained
            &&& after.rooms[room_id].expected_mac == room.expected_mac
            &&& after.rooms[room_id].challenge == room.challenge
            &&& after.rooms[room_id].last_active == now
        }),
{
}

/// A connection collects the frames of its device in the order in which they came,
/// each once, also after it was cut off; then it finds the device idle, or itself
/// closed.
pub proof fn frames_are_collected_in_order(
    hub: HubState,
    room_id: Seq<char>,
    device_id: Seq<char>,
    ticket: u64,
    found: Outbox,
    after: HubState,
)
    requires
        hub.collects(room_id, device_id, ticket, found, after),
    ensures
        ({
            let current = hub.holds(room_id, device_id) && hub.ticket(room_id, device_id) == ticket;
            let queue = if current {
                hub.rooms[room_id].devices[device_id].queue
            } else if hub.undelivered.contains_key(ticket) {
                hub.undelivered[ticket]
            } else {
                Seq::empty()
            };
            &&& queue.len() > 0 ==> found == Outbox::Frame(queue.first())
            &&& queue.len() == 0 && current ==> found is Empty
            &&& queue.len() == 0 && !current ==> found is Closed
            &&& queue.len() == 0 ==> after == hub
            &&& queue.len() > 0 && current ==> after.holds(room_id, device_id) && after.ticket(
                room_id,
                device_id,
            ) == ticket && after.rooms[room_id].devices[device_id].queue == queue.skip(1)
                && after.undelivered == hub.undelivered
            &&& queue.len() > 0 && !current ==> after.undelivered[ticket] == queue.skip(1)
                && after.rooms == hub.rooms
        }),
{
    let queue = hub.rooms[room_id].devices[device_id].queue;
    if queue.len() > 0 {
        assert(queue.drop_first() =~= queue.skip(1));
    }
    let rest = hub.undelivered[ticket];
    if rest.len() > 0 {
        assert(rest.drop_first() =~= rest.skip(1));
    }
}

/// What is relayed to a device that waits is the next thing that it collects.
pub proof fn relayed_is_collected(
    hub: HubState,
    room_id: Seq<char>,
    from: Seq<char>,
    to: Seq<char>,
    relay: Relay,
    now: u64,
    found: Outbox,
    after: HubState,
)
    requires
        hub.holds(room_id, to),
        from != to,
        hub.rooms[room_id].devices[to].queue.len() == 0,
        hub.relays(room_id, from, relay, now).collects(
            room_id,
            to,
            hub.ticket(room_id, to),
            found,
            after,
        ),
    ensures
        found == Outbox::Frame(Frame::Relay(relay)),
{
}

/// A room that exists is never refused; a new one exactly when there are as many as
/// there may be.
pub proof fn rooms_are_limited(hub: Hub, room_id: Seq<char>)
    ensures
        hub@.rooms.contains_key(room_id) ==> !hub.refuses_room(room_id),
        !hub@.rooms.contains_key(room_id) ==> (hub.refuses_room(room_id)
            <==> hub@.rooms.dom().len() >= hub.max_rooms),
        !hub@.rooms.contains_key(room_id) ==> hub.refuses_device(
            room_id,
            Seq::empty(),
            Seq::empty(),
        ) == Some(HubError::RoomExpired),
{
}

/// Elapsed time is told in whole seconds; a clock that ran backward tells none.
pub proof fn whole_seconds_are_told(then: u64, now: u64)
    ensures
        then <= now ==> 1000 * secs_since(then, now) <= now - then < 1000 * secs_since(then, now)
            + 1000,
        now < then ==> secs_since(then, now) == 0,
{
}

/// Limits are as configured, unless they are below the least that makes sense.
pub proof fn limits_make_sense(limit: usize, least: usize)
    ensures
        limit >= least ==> no_less_than(limit, least) == limit,
        limit < least ==> no_less_than(limit, least) == least,
{
}

/// A newcomer is told of everyone who was there, each once, and of nobody else, and is
/// given what the others published and nothing of its own.
pub proof fn newcomers_are_told_of_everyone(
    j: Joined,
    room: RoomState,
    device_id: Seq<char>,
    ticket: u64,
    k: Seq<char>,
    a: int,
    b: int,
)
    requires
        welcomes(j, room, device_id, ticket),
    ensures
        j.rx == ticket,
        room.devices.contains_key(k) <==> exists|i: int|
            0 <= i < j.peers@.len() && (#[trigger] j.peers@[i])@ == k,
        0 <= a < b < j.peers@.len() ==> j.peers@[a]@ != j.peers@[b]@,
        0 <= a < j.retained@.len() ==> j.retained@[a].from@ != device_id,
        room.retained.contains_key(k) && room.retained[k].from@ != device_id
            ==> j.retained@.contains(room.retained[k]),
{
    let keys = choose|keys: Seq<Seq<char>>| #[trigger]
        replays(j.retained@, room.retained, device_id, keys);
    if 0 <= a < j.retained@.len() {
        assert(room.retained.contains_key(keys[a]));
    }
    if room.retained.contains_key(k) && room.retained[k].from@ != device_id {
        assert(keys.contains(k));
        let m = keys.index_of(k);
        assert(keys[m] == k);
        assert(j.retained@[m] == room.retained[k]);
    }
}

/// An announcement names one device, and says one thing of it.
pub proof fn announcements_say_one_thing(
    frame: Frame,
    a: Seq<char>,
    b: Seq<char>,
    x: bool,
    y: bool,
)
    requires
        announces(frame, a, x),
        announces(frame, b, y),
    ensures
        a == b,
        x == y,
        frame is Presence,
        frame->Presence_0.device_id@ == a,
        frame->Presence_0.online == x,
{
}

/// A device that just connected has nothing waiting, and is on the connection that it
/// came on since that very time.
pub proof fn arrivals_have_nothing_waiting(ticket: u64, user: String, name: String, now: u64)
    ensures
        arrival(ticket, user, name, now).queue.len() == 0,
        arrival(ticket, user, name, now).ticket == ticket,
        arrival(ticket, user, name, now).user == user,
        arrival(ticket, user, name, now).name == name,
        arrival(ticket, user, name, now).connected_at == now,
{
}

/// A payload keeps its contents and its slot, and bears the name of the connection that
/// it came on.
pub proof fn payloads_bear_the_name_of_their_connection(
    sent: Relay,
    from: Seq<char>,
    relay: Relay,
)
    requires
        attributed(sent, from, relay),
    ensures
        relay.from@ == from,
        relay.body@ == sent.body@,
        relay.retain == sent.retain,
{
}

}
