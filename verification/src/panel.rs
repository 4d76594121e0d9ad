//! What the operator sees of the relay: counters, rooms and people.

use vstd::prelude::*;

use crate::admin::{DeviceInfo, InfoText, RoomInfo, Snapshot, Status, UserGroup};
use crate::hub::{elapsed_secs, secs_since, Device, DeviceState, Hub, Room, RoomState, Stats};
use crate::sorting::{
    is_sorting, lex_antisymmetric, lex_le, lex_transitive, sorted_order, sorting_is_onto,
};
use crate::text::{chars_of, same, text_of};

verus! {

/// What the operator sees of a device.
pub open spec fn info_of(id: Seq<char>, d: DeviceState, now: u64) -> InfoText {
    InfoText {
        id,
        name: d.name@,
        user: d.user@,
        connected_secs: secs_since(d.connected_at, now),
    }
}

/// What a list says of its devices.
pub open spec fn info_texts(list: Seq<DeviceInfo>) -> Seq<InfoText> {
    list.map_values(|d: DeviceInfo| d@)
}

/// First 8 characters of a room id: the operator needs to answer "is my peer
/// connected", not to obtain a list of which rooms exist on the server.
pub open spec fn first_eight(room_id: Seq<char>) -> Seq<char> {
    if room_id.len() > 8 {
        room_id.take(8)
    } else {
        room_id
    }
}

/// First 8 characters of a room id.
pub fn short(room: &str) -> (r: String)
    ensures
        r@ == first_eight(room@),
{
    let cs = chars_of(room);
    let keep: usize = if cs.len() > 8 {
        8
    } else {
        cs.len()
    };
    let r = text_of(cs.as_slice(), 0, keep);
    assert(r@ =~= first_eight(room@));
    r
}

/// A list tells each device of a room once, by id.
pub open spec fn lists_devices(
    list: Seq<DeviceInfo>,
    devices: Map<Seq<char>, DeviceState>,
    now: u64,
) -> bool {
    &&& forall|i: int|
        0 <= i < list.len() ==> {
            &&& devices.contains_key((#[trigger] list[i]).id@)
            &&& list[i]@ == info_of(list[i].id@, devices[list[i].id@], now)
        }
    &&& forall|k: Seq<char>| #[trigger]
        devices.contains_key(k) ==> exists|i: int|
            0 <= i < list.len() && (#[trigger] list[i]).id@ == k
    &&& forall|i: int, j: int|
        0 <= i < j < list.len() ==> lex_le((#[trigger] list[i]).id@, (#[trigger] list[j]).id@)
            && list[i].id@ != list[j].id@
}

/// What the operator sees of a room.
pub open spec fn describes_room(info: RoomInfo, room_id: Seq<char>, room: RoomState, now: u64) -> bool {
    &&& info.room@ == first_eight(room_id)
    &&& lists_devices(info.devices@, room.devices, now)
    &&& info.idle_secs == secs_since(room.last_active, now)
}

/// A list tells each room once, in the order of these ids.
pub open spec fn lists_rooms(
    list: Seq<RoomInfo>,
    rooms: Map<Seq<char>, RoomState>,
    now: u64,
    ids: Seq<Seq<char>>,
) -> bool {
    &&& ids.len() == list.len()
    &&& ids.no_duplicates()
    &&& forall|i: int|
        0 <= i < list.len() ==> {
            &&& rooms.contains_key(#[trigger] ids[i])
            &&& describes_room(list[i], ids[i], rooms[ids[i]], now)
        }
    &&& forall|k: Seq<char>| #[trigger] rooms.contains_key(k) ==> ids.contains(k)
}

/// The devices of a room, in the order in which they came.
pub open spec fn room_listing(room: Room, now: u64) -> Seq<InfoText> {
    Seq::new(
        room.devices.order().len(),
        |i: int| info_of(room.devices.order()[i], room.devices.values()[i]@, now),
    )
}

/// The devices of all rooms, room by room.
pub open spec fn listing(rooms: Seq<Room>, now: u64) -> Seq<InfoText>
    decreases rooms.len(),
{
    if rooms.len() == 0 {
        Seq::empty()
    } else {
        listing(rooms.drop_last(), now) + room_listing(rooms.last(), now)
    }
}

/// How many devices there are.
pub open spec fn device_total(rooms: Seq<Room>) -> int
    decreases rooms.len(),
{
    if rooms.len() == 0 {
        0
    } else {
        device_total(rooms.drop_last()) + rooms.last().devices.order().len()
    }
}

pub open spec fn capped(n: int) -> usize {
    if n > usize::MAX {
        usize::MAX
    } else {
        n as usize
    }
}

/// A list holds the devices of one person out of all, by id: those at these
/// positions.
pub open spec fn picks(
    list: Seq<DeviceInfo>,
    all: Seq<InfoText>,
    user: Seq<char>,
    pos: Seq<int>,
) -> bool {
    &&& pos.len() == list.len()
    &&& pos.no_duplicates()
    &&& forall|m: int|
        0 <= m < pos.len() ==> {
            &&& 0 <= #[trigger] pos[m] < all.len()
            &&& all[pos[m]] == list[m]@
            &&& all[pos[m]].user == user
        }
    &&& forall|p: int|
        0 <= p < all.len() && (#[trigger] all[p]).user == user ==> pos.contains(p)
    &&& forall|i: int, j: int|
        0 <= i < j < list.len() ==> lex_le((#[trigger] list[i]).id@, (#[trigger] list[j]).id@)
}

/// A group holds all devices of one person, at least one.
pub open spec fn is_group(group: UserGroup, all: Seq<InfoText>) -> bool {
    &&& group.devices@.len() > 0
    &&& exists|pos: Seq<int>| #[trigger] picks(group.devices@, all, group.user@, pos)
}

/// The devices grouped by person, the groups by name: each person who has a device
/// has one group, with all their devices in it.
pub open spec fn grouped_by_user(
    groups: Seq<UserGroup>,
    all: Seq<InfoText>,
) -> bool {
    &&& forall|g: int| 0 <= g < groups.len() ==> is_group(#[trigger] groups[g], all)
    &&& forall|a: int, b: int|
        0 <= a < b < groups.len() ==> lex_le(
            (#[trigger] groups[a]).user@,
            (#[trigger] groups[b]).user@,
        ) && groups[a].user@ != groups[b].user@
    &&& forall|p: int|
        0 <= p < all.len() ==> exists|g: int|
            0 <= g < groups.len() && (#[trigger] groups[g]).user@ == (#[trigger] all[p]).user
}

/// The devices in a room, sorted by id for a stable display.
fn room_devices(room: &Room, now: u64) -> (r: Vec<DeviceInfo>)
    requires
        room.wf(),
    ensures
        lists_devices(r@, room@.devices, now),
{
    let ids = room.device_ids();
    let order = sorted_order(&ids);
    let mut out: Vec<DeviceInfo> = Vec::new();
    for i in 0..order.len()
        invariant
            room.wf(),
            is_sorting(order@, ids@),
            ids@.len() == room.devices.order().len(),
            forall|j: int| 0 <= j < ids@.len() ==> (#[trigger] ids@[j])@ == room.devices.order()[j],
            out@.len() == i,
            forall|j: int|
                0 <= j < i ==> (#[trigger] out@[j])@ == info_of(
                    room.devices.order()[order@[j] as int],
                    room.devices.values()[order@[j] as int]@,
                    now,
                ),
    {
        let p: usize = order[i];
        out.push(device_info(ids[p].as_str(), room.devices.value(p), now));
    }
    proof {
        assert forall|i: int| 0 <= i < out@.len() implies {
            &&& room@.devices.contains_key((#[trigger] out@[i]).id@)
            &&& out@[i]@ == info_of(out@[i].id@, room@.devices[out@[i].id@], now)
        } by {
            room.devices.at_position(order@[i] as int);
            assert(out@[i]@.id == out@[i].id@);
        }
        assert forall|k: Seq<char>| #[trigger] room@.devices.contains_key(k) implies exists|i: int|
            0 <= i < out@.len() && (#[trigger] out@[i]).id@ == k by {
            let p = room.devices.position_of(k);
            sorting_is_onto(order@, ids@, p);
            let i = choose|i: int| 0 <= i < order@.len() && #[trigger] order@[i] == p;
            assert(out@[i]@.id == out@[i].id@);
            assert(out@[i].id@ == k);
        }
        assert forall|i: int, j: int| 0 <= i < j < out@.len() implies lex_le(
            (#[trigger] out@[i]).id@,
            (#[trigger] out@[j]).id@,
        ) && out@[i].id@ != out@[j].id@ by {
            assert(out@[i]@.id == out@[i].id@);
            assert(out@[j]@.id == out@[j].id@);
            assert(order@[i] != order@[j]);
            assert(lex_le(ids@[order@[i] as int]@, ids@[order@[j] as int]@));
        }
    }
    out
}

fn device_info(id: &str, device: &Device, now: u64) -> (r: DeviceInfo)
    ensures
        r@ == info_of(id@, device@, now),
{
    DeviceInfo {
        id: id.to_string(),
        name: device.name.clone(),
        user: device.user.clone(),
        connected_secs: elapsed_secs(device.connected_at, now),
    }
}

impl Hub {
    /// A status describes the hub.
    pub open spec fn described(&self, s: Status, now: u64) -> bool {
        &&& s.version@ == crate::VERSION@
        &&& s.uptime_secs == secs_since(self.started, now)
        &&& s.bind == self.bind
        &&& s.tls == self.tls
        &&& s.rooms == self@.rooms.dom().len()
        &&& s.devices == capped(device_total(self.rooms.values()))
        &&& s.accepted == self.accepted
        &&& s.rejected == self.rejected
    }

    /// A list tells each room of the hub once, ordered by what is shown of its id.
    pub open spec fn tells_rooms(&self, list: Seq<RoomInfo>, now: u64) -> bool {
        &&& exists|ids: Seq<Seq<char>>| #[trigger] lists_rooms(list, self@.rooms, now, ids)
        &&& forall|i: int, j: int|
            0 <= i < j < list.len() ==> lex_le(
                (#[trigger] list[i]).room@,
                (#[trigger] list[j]).room@,
            )
    }

    /// A snapshot shows the hub: its status, its devices by user, its rooms.
    pub open spec fn pictured(&self, s: Snapshot, now: u64) -> bool {
        &&& self.described(s.status, now)
        &&& grouped_by_user(s.users@, listing(self.rooms.values(), now))
        &&& lists_rooms(s.rooms@, self@.rooms, now, self.rooms.order())
    }

    /// What the operator sees of the room at a position.
    fn info_at(&self, i: usize, now: u64) -> (r: RoomInfo)
        requires
            self.wf(),
            i < self.rooms.order().len(),
        ensures
            describes_room(
                r,
                self.rooms.order()[i as int],
                self@.rooms[self.rooms.order()[i as int]],
                now,
            ),
    {
        proof {
            self.rooms.at_position(i as int);
        }
        let room = self.rooms.value(i);
        RoomInfo {
            room: short(self.rooms.key(i).as_str()),
            devices: room_devices(room, now),
            idle_secs: elapsed_secs(room.last_active, now),
        }
    }

    pub fn stats(&self) -> (r: Stats)
        requires
            self.wf(),
        ensures
            r == (Stats {
                rooms: self.rooms.order().len() as usize,
                devices: capped(device_total(self.rooms.values())),
                accepted: self.accepted,
                rejected: self.rejected,
            }),
            r.rooms == self@.rooms.dom().len(),
    {
        proof {
            self.rooms.size();
            assert(self@.rooms.dom() =~= self.rooms@.dom());
        }
        Stats {
            rooms: self.rooms.len(),
            devices: self.count_devices(),
            accepted: self.accepted,
            rejected: self.rejected,
        }
    }

    fn count_devices(&self) -> (r: usize)
        requires
            self.wf(),
        ensures
            r == capped(device_total(self.rooms.values())),
    {
        let n: usize = self.rooms.len();
        let mut total: usize = 0;
        let ghost rooms = self.rooms.values();
        for i in 0..n
            invariant
                self.wf(),
                n == rooms.len(),
                rooms == self.rooms.values(),
                total == capped(device_total(rooms.take(i as int))),
                device_total(rooms.take(i as int)) >= 0,
        {
            proof {
                self.rooms.at_position(i as int);
                assert(rooms.take(i + 1).drop_last() == rooms.take(i as int));
                assert(rooms.take(i + 1).last() == rooms[i as int]);
            }
            total = total.saturating_add(self.rooms.value(i).devices.len());
        }
        assert(rooms.take(n as int) == rooms);
        total
    }

    /// Per-room detail for the admin socket, sorted by what is shown of the room's
    /// id.
    pub fn room_info(&self, now: u64) -> (r: Vec<RoomInfo>)
        requires
            self.wf(),
        ensures
            self.tells_rooms(r@, now),
    {
        let n: usize = self.rooms.len();
        let mut names: Vec<String> = Vec::new();
        for i in 0..n
            invariant
                self.wf(),
                n == self.rooms.order().len(),
                names@.len() == i,
                forall|j: int|
                    0 <= j < i ==> (#[trigger] names@[j])@ == first_eight(self.rooms.order()[j]),
        {
            names.push(short(self.rooms.key(i).as_str()));
        }
        let order = sorted_order(&names);
        let mut out: Vec<RoomInfo> = Vec::new();
        for i in 0..order.len()
            invariant
                self.wf(),
                n == self.rooms.order().len(),
                names@.len() == n,
                is_sorting(order@, names@),
                out@.len() == i,
                forall|j: int|
                    0 <= j < i ==> describes_room(
                        #[trigger] out@[j],
                        self.rooms.order()[order@[j] as int],
                        self@.rooms[self.rooms.order()[order@[j] as int]],
                        now,
                    ),
        {
            out.push(self.info_at(order[i], now));
        }
        proof {
            let ids = Seq::new(order@.len(), |i: int| self.rooms.order()[order@[i] as int]);
            assert forall|i: int| 0 <= i < out@.len() implies {
                &&& self@.rooms.contains_key(#[trigger] ids[i])
                &&& describes_room(out@[i], ids[i], self@.rooms[ids[i]], now)
            } by {
                self.rooms.at_position(order@[i] as int);
                assert(describes_room(
                    out@[i],
                    self.rooms.order()[order@[i] as int],
                    self@.rooms[self.rooms.order()[order@[i] as int]],
                    now,
                ));
            }
            assert(ids.no_duplicates()) by {
                assert forall|a: int, b: int|
                    0 <= a < ids.len() && 0 <= b < ids.len() && a != b implies ids[a]
                    != ids[b] by {
                    assert(order@[a] != order@[b]);
                }
            }
            assert forall|k: Seq<char>| #[trigger] self@.rooms.contains_key(k) implies ids.contains(
                k,
            ) by {
                let p = self.rooms.position_of(k);
                sorting_is_onto(order@, names@, p);
                let i = choose|i: int| 0 <= i < order@.len() && #[trigger] order@[i] == p;
                assert(ids[i] == k);
            }
            assert(lists_rooms(out@, self@.rooms, now, ids));
            assert forall|i: int, j: int| 0 <= i < j < out@.len() implies lex_le(
                (#[trigger] out@[i]).room@,
                (#[trigger] out@[j]).room@,
            ) by {
                assert(lex_le(names@[order@[i] as int]@, names@[order@[j] as int]@));
            }
        }
        out
    }

    /// All devices, room by room.
    fn all_devices(&self, now: u64) -> (r: Vec<DeviceInfo>)
        requires
            self.wf(),
        ensures
            info_texts(r@) == listing(self.rooms.values(), now),
    {
        let n: usize = self.rooms.len();
        let mut out: Vec<DeviceInfo> = Vec::new();
        let ghost rooms = self.rooms.values();
        assert(info_texts(out@) =~= listing(rooms.take(0), now));
        for i in 0..n
            invariant
                self.wf(),
                n == rooms.len(),
                rooms == self.rooms.values(),
                info_texts(out@) == listing(rooms.take(i as int), now),
        {
            proof {
                self.rooms.at_position(i as int);
                assert(rooms.take(i + 1).drop_last() == rooms.take(i as int));
                assert(rooms.take(i + 1).last() == rooms[i as int]);
            }
            let room = self.rooms.value(i);
            let ghost before = info_texts(out@);
            let ghost part = room_listing(*room, now);
            let m: usize = room.devices.len();
            assert(before + part.take(0) =~= before);
            for j in 0..m
                invariant
                    room.wf(),
                    m == room.devices.order().len(),
                    part == room_listing(*room, now),
                    info_texts(out@) == before + part.take(j as int),
            {
                let ghost was = out@;
                out.push(
                    device_info(room.devices.key(j).as_str(), room.devices.value(j), now),
                );
                proof {
                    assert(part.take(j + 1) =~= part.take(j as int).push(part[j as int]));
                    assert(info_texts(out@) =~= info_texts(was).push(out@.last()@));
                    assert(info_texts(out@) =~= before + part.take(j + 1));
                }
            }
            assert(part.take(m as int) =~= part);
        }
        assert(rooms.take(n as int) == rooms);
        out
    }

    /// Devices grouped by their user nickname, plus the aggregate counters: the
    /// one structure the web page needs.
    pub fn snapshot(&self, now: u64) -> (r: Snapshot)
        requires
            self.wf(),
        ensures
            self.pictured(r, now),
    {
        let all = self.all_devices(now);
        let users = group_by_user(&all);
        let n: usize = self.rooms.len();
        let mut rooms: Vec<RoomInfo> = Vec::new();
        for i in 0..n
            invariant
                self.wf(),
                n == self.rooms.order().len(),
                rooms@.len() == i,
                forall|j: int|
                    0 <= j < i ==> describes_room(
                        #[trigger] rooms@[j],
                        self.rooms.order()[j],
                        self@.rooms[self.rooms.order()[j]],
                        now,
                    ),
        {
            rooms.push(self.info_at(i, now));
        }
        proof {
            self.rooms.size();
            assert(self@.rooms.dom() =~= self.rooms@.dom());
            let ids = self.rooms.order();
            assert forall|i: int| 0 <= i < rooms@.len() implies {
                &&& self@.rooms.contains_key(#[trigger] ids[i])
                &&& describes_room(rooms@[i], ids[i], self@.rooms[ids[i]], now)
            } by {
                self.rooms.at_position(i);
                assert(describes_room(rooms@[i], ids[i], self@.rooms[ids[i]], now));
            }
        }
        Snapshot { status: self.status(now), users, rooms }
    }

    /// Version, uptime, room and device counts.
    pub fn status(&self, now: u64) -> (r: Status)
        requires
            self.wf(),
        ensures
            self.described(r, now),
    {
        let stats = self.stats();
        Status {
            version: crate::VERSION.to_string(),
            uptime_secs: self.uptime_secs(now),
            bind: self.bind.clone(),
            tls: self.tls,
            rooms: stats.rooms,
            devices: stats.devices,
            accepted: stats.accepted,
            rejected: stats.rejected,
        }
    }
}

/// The devices of one person, by id.
fn devices_of(all: &Vec<DeviceInfo>, ids: &Vec<String>, order: &Vec<usize>, user: &str) -> (r: Vec<
    DeviceInfo,
>)
    requires
        is_sorting(order@, ids@),
        ids@.len() == all@.len(),
        forall|i: int| 0 <= i < all@.len() ==> #[trigger] ids@[i] == all@[i].id,
    ensures
        exists|pos: Seq<int>| #[trigger]
            picks(r@, info_texts(all@), user@, pos),
{
    let ghost texts = info_texts(all@);
    let mut out: Vec<DeviceInfo> = Vec::new();
    let ghost mut pos: Seq<int> = Seq::empty();
    let ghost mut idx: Seq<int> = Seq::empty();
    for t in 0..order.len()
        invariant
            is_sorting(order@, ids@),
            ids@.len() == all@.len(),
            forall|i: int| 0 <= i < all@.len() ==> #[trigger] ids@[i] == all@[i].id,
            texts == info_texts(all@),
            pos.len() == out@.len(),
            idx.len() == out@.len(),
            forall|m: int|
                #![trigger idx[m]]
                #![trigger pos[m]]
                0 <= m < idx.len() ==> {
                    &&& 0 <= idx[m] < t
                    &&& pos[m] == order@[idx[m]]
                    &&& out@[m] == all@[pos[m]]
                    &&& all@[pos[m]].user@ == user@
                },
            forall|a: int, b: int| 0 <= a < b < idx.len() ==> #[trigger] idx[a] < #[trigger] idx[b],
            forall|x: int|
                0 <= x < t && all@[(#[trigger] order@[x]) as int].user@ == user@ ==> idx.contains(
                    x,
                ),
    {
        let p: usize = order[t];
        let ghost was = idx;
        if same(all[p].user.as_str(), user) {
            out.push(all[p].clone());
            proof {
                pos = pos.push(p as int);
                idx = idx.push(t as int);
                assert(idx[was.len() as int] == t);
                assert forall|x: int| was.contains(x) implies idx.contains(x) by {
                    let m = was.index_of(x);
                    assert(idx[m] == x);
                }
            }
        }
    }
    proof {
        assert forall|m: int| 0 <= m < pos.len() implies {
            &&& 0 <= #[trigger] pos[m] < texts.len()
            &&& texts[pos[m]] == out@[m]@
            &&& texts[pos[m]].user == user@
        } by {
            assert(0 <= idx[m] < order@.len());
        }
        assert(pos.no_duplicates()) by {
            assert forall|a: int, b: int|
                0 <= a < pos.len() && 0 <= b < pos.len() && a != b implies pos[a] != pos[b] by {
                assert(pos[a] == order@[idx[a]]);
                assert(pos[b] == order@[idx[b]]);
                assert(idx[a] != idx[b]) by {
                    if a < b {
                        assert(idx[a] < idx[b]);
                    } else {
                        assert(idx[b] < idx[a]);
                    }
                }
            }
        }
        assert forall|p: int|
            0 <= p < texts.len() && (#[trigger] texts[p]).user == user@ implies pos.contains(p) by {
            sorting_is_onto(order@, ids@, p);
            let x = choose|x: int| 0 <= x < order@.len() && #[trigger] order@[x] == p;
            assert(all@[order@[x] as int].user@ == user@);
            assert(idx.contains(x));
            let m = idx.index_of(x);
            assert(idx[m] == x);
            assert(pos[m] == p);
        }
        assert forall|i: int, j: int| 0 <= i < j < out@.len() implies lex_le(
            (#[trigger] out@[i]).id@,
            (#[trigger] out@[j]).id@,
        ) by {
            assert(idx[i] < idx[j]);
            assert(lex_le(ids@[order@[idx[i]] as int]@, ids@[order@[idx[j]] as int]@));
            assert(ids@[pos[i]] == all@[pos[i]].id);
            assert(ids@[pos[j]] == all@[pos[j]].id);
        }
        assert(picks(out@, texts, user@, pos));
    }
    out
}

/// Groups devices by person.
fn group_by_user(all: &Vec<DeviceInfo>) -> (r: Vec<UserGroup>)
    ensures
        grouped_by_user(r@, info_texts(all@)),
{
    let ghost texts = info_texts(all@);
    let mut ids: Vec<String> = Vec::new();
    let mut users: Vec<String> = Vec::new();
    for i in 0..all.len()
        invariant
            ids@.len() == i,
            users@.len() == i,
            forall|j: int| 0 <= j < i ==> #[trigger] ids@[j] == all@[j].id,
            forall|j: int| 0 <= j < i ==> #[trigger] users@[j] == all@[j].user,
    {
        ids.push(all[i].id.clone());
        users.push(all[i].user.clone());
    }
    let by_id = sorted_order(&ids);
    let by_user = sorted_order(&users);
    let mut groups: Vec<UserGroup> = Vec::new();
    for t in 0..by_user.len()
        invariant
            is_sorting(by_id@, ids@),
            is_sorting(by_user@, users@),
            ids@.len() == all@.len(),
            users@.len() == all@.len(),
            forall|j: int| 0 <= j < all@.len() ==> #[trigger] ids@[j] == all@[j].id,
            forall|j: int| 0 <= j < all@.len() ==> #[trigger] users@[j] == all@[j].user,
            texts == info_texts(all@),
            t > 0 ==> groups@.len() > 0 && groups@.last().user@ == users@[by_user@[t - 1] as int]@,
            t == 0 ==> groups@.len() == 0,
            forall|g: int| 0 <= g < groups@.len() ==> is_group(#[trigger] groups@[g], texts),
            forall|a: int, b: int|
                0 <= a < b < groups@.len() ==> lex_le(
                    (#[trigger] groups@[a]).user@,
                    (#[trigger] groups@[b]).user@,
                ) && groups@[a].user@ != groups@[b].user@,
            forall|x: int|
                0 <= x < t ==> exists|g: int|
                    0 <= g < groups@.len() && (#[trigger] groups@[g]).user@
                        == users@[(#[trigger] by_user@[x]) as int]@,
    {
        let p: usize = by_user[t];
        let ghost was = groups@;
        let fresh = t == 0 || !same(users[by_user[t - 1]].as_str(), users[p].as_str());
        if fresh {
            let devices = devices_of(all, &ids, &by_id, users[p].as_str());
            let ghost pos = choose|pos: Seq<int>| #[trigger]
                picks(devices@, texts, users@[p as int]@, pos);
            proof {
                assert(texts[p as int].user == users@[p as int]@);
                assert(pos.contains(p as int));
                assert(pos.len() > 0);
                assert(devices@.len() > 0);
            }
            groups.push(UserGroup { user: users[p].clone(), devices });
            proof {
                let new = users@[p as int]@;
                assert(groups@[was.len() as int].user@ == new);
                let added = groups@[was.len() as int];
                assert(added.devices@ == devices@);
                assert(picks(added.devices@, texts, added.user@, pos));
                assert(is_group(added, texts));
                assert forall|g: int| 0 <= g < groups@.len() implies is_group(
                    #[trigger] groups@[g],
                    texts,
                ) by {
                    if g < was.len() {
                        assert(groups@[g] == was[g]);
                    }
                }
                if t > 0 {
                    let last = was.last().user@;
                    assert(lex_le(last, new));
                    assert forall|a: int| 0 <= a < was.len() implies lex_le(
                        (#[trigger] was[a]).user@,
                        new,
                    ) && was[a].user@ != new by {
                        if a < was.len() - 1 {
                            assert(lex_le(was[a].user@, was[was.len() - 1].user@));
                            lex_transitive(was[a].user@, last, new);
                            if was[a].user@ == new {
                                lex_antisymmetric(last, new);
                            }
                        }
                    }
                }
            }
        }
        proof {
            assert forall|x: int| 0 <= x < t + 1 implies exists|g: int|
                0 <= g < groups@.len() && (#[trigger] groups@[g]).user@
                    == users@[(#[trigger] by_user@[x]) as int]@ by {
                if x < t {
                    let g = choose|g: int|
                        0 <= g < was.len() && (#[trigger] was[g]).user@
                            == users@[by_user@[x] as int]@;
                    assert(groups@[g] == was[g]);
                } else {
                    assert(groups@[groups@.len() - 1].user@ == users@[p as int]@);
                }
            }
        }
    }
    proof {
        assert forall|p: int| 0 <= p < texts.len() implies exists|g: int|
            0 <= g < groups@.len() && (#[trigger] groups@[g]).user@ == (#[trigger] texts[p]).user by {
            sorting_is_onto(by_user@, users@, p);
            let x = choose|x: int| 0 <= x < by_user@.len() && #[trigger] by_user@[x] == p;
            let g = choose|g: int|
                0 <= g < groups@.len() && (#[trigger] groups@[g]).user@
                    == users@[by_user@[x] as int]@;
            assert(groups@[g].user@ == texts[p].user);
        }
    }
    groups
}

/// A room is shown by the first eight characters of its id, and by no more.
pub proof fn rooms_are_shown_in_short(room_id: Seq<char>)
    ensures
        first_eight(room_id).is_prefix_of(room_id),
        room_id.len() >= 8 ==> first_eight(room_id).len() == 8,
        room_id.len() < 8 ==> first_eight(room_id) == room_id,
{
}

/// Every device of every room is counted, and listed.
pub proof fn every_device_is_counted(rooms: Seq<Room>, room: Room, now: u64)
    ensures
        device_total(Seq::empty()) == 0,
        device_total(rooms.push(room)) == device_total(rooms) + room.devices.order().len(),
        device_total(rooms) <= usize::MAX ==> capped(device_total(rooms)) == device_total(rooms),
        listing(rooms.push(room), now) == listing(rooms, now) + room_listing(room, now),
        listing(rooms, now).len() == device_total(rooms),
    decreases rooms.len(),
{
    assert(rooms.push(room).drop_last() =~= rooms);
    assert(rooms.push(room).last() == room);
    if rooms.len() > 0 {
        let init = rooms.drop_last();
        every_device_is_counted(init, rooms.last(), now);
        assert(init.push(rooms.last()) =~= rooms);
    }
}

/// The operator sees a device by its id, its name and its user, with the whole seconds
/// since it connected.
pub proof fn devices_are_shown_as_they_are(id: Seq<char>, d: DeviceState, now: u64)
    requires
        d.connected_at <= now,
    ensures
        ({
            let t = info_of(id, d, now);
            &&& t.id == id && t.name == d.name@ && t.user == d.user@
            &&& 1000 * t.connected_secs <= now - d.connected_at < 1000 * t.connected_secs + 1000
        }),
{
}

/// Every device stands in the group of its user, and every user has one group.
pub proof fn every_device_is_in_its_group(
    groups: Seq<UserGroup>,
    all: Seq<InfoText>,
    p: int,
    a: int,
    b: int,
)
    requires
        grouped_by_user(groups, all),
        0 <= p < all.len(),
    ensures
        exists|g: int, m: int|
            0 <= g < groups.len() && groups[g].user@ == all[p].user && 0 <= m
                < groups[g].devices@.len() && #[trigger] groups[g].devices@[m]@ == all[p],
        0 <= a < b < groups.len() ==> groups[a].user@ != groups[b].user@ && lex_le(
            groups[a].user@,
            groups[b].user@,
        ),
        0 <= a < groups.len() ==> groups[a].devices@.len() > 0,
        0 <= a < groups.len() && 0 <= b < groups[a].devices@.len() ==> groups[a].devices@[b].user@
            == groups[a].user@,
{
    let g = choose|g: int|
        0 <= g < groups.len() && (#[trigger] groups[g]).user@ == all[p].user;
    assert(is_group(groups[g], all));
    let pos = choose|pos: Seq<int>| #[trigger]
        picks(groups[g].devices@, all, groups[g].user@, pos);
    assert(pos.contains(p));
    let m = pos.index_of(p);
    assert(pos[m] == p);
    assert(groups[g].devices@[m]@ == all[p]);
    if 0 <= a < groups.len() {
        assert(is_group(groups[a], all));
        let at = choose|at: Seq<int>| #[trigger]
            picks(groups[a].devices@, all, groups[a].user@, at);
        if 0 <= b < groups[a].devices@.len() {
            assert(0 <= at[b] < all.len());
            assert(all[at[b]] == groups[a].devices@[b]@);
        }
    }
}

/// Every room is told once, by the start of its id, with its devices and the time since
/// something happened in it.
pub proof fn every_room_is_told(
    list: Seq<RoomInfo>,
    rooms: Map<Seq<char>, RoomState>,
    now: u64,
    ids: Seq<Seq<char>>,
    k: Seq<char>,
)
    requires
        lists_rooms(list, rooms, now, ids),
        rooms.contains_key(k),
    ensures
        exists|i: int|
            0 <= i < list.len() && (#[trigger] list[i]).room@ == first_eight(k) && lists_devices(
                list[i].devices@,
                rooms[k].devices,
                now,
            ) && list[i].idle_secs == secs_since(rooms[k].last_active, now),
        ids.no_duplicates(),
        ids.len() == list.len(),
{
    assert(ids.contains(k));
    let i = ids.index_of(k);
    assert(ids[i] == k);
    assert(describes_room(list[i], ids[i], rooms[ids[i]], now));
}

/// Every device of a room is told once, in the order of the ids, and none that is not
/// in it.
pub proof fn every_device_of_a_room_is_told(
    list: Seq<DeviceInfo>,
    devices: Map<Seq<char>, DeviceState>,
    now: u64,
    k: Seq<char>,
    a: int,
    b: int,
)
    requires
        lists_devices(list, devices, now),
    ensures
        devices.contains_key(k) <==> exists|i: int|
            0 <= i < list.len() && (#[trigger] list[i]).id@ == k,
        0 <= a < list.len() ==> list[a].name@ == devices[list[a].id@].name@ && list[a].user@
            == devices[list[a].id@].user@,
        0 <= a < b < list.len() ==> lex_le(list[a].id@, list[b].id@) && list[a].id@ != list[b].id@,
{
    if 0 <= a < list.len() {
        assert(devices.contains_key(list[a].id@));
        assert(list[a]@ == info_of(list[a].id@, devices[list[a].id@], now));
        assert(list[a]@.name == list[a].name@);
    }
}

/// The status tells the hub's own numbers.
pub proof fn the_status_tells_the_numbers(hub: Hub, s: Status, now: u64)
    requires
        hub.described(s, now),
        hub.started <= now,
    ensures
        s.rooms == hub@.rooms.dom().len(),
        s.accepted == hub.accepted,
        s.rejected == hub.rejected,
        s.bind == hub.bind,
        s.tls == hub.tls,
        1000 * s.uptime_secs <= now - hub.started < 1000 * s.uptime_secs + 1000,
        device_total(hub.rooms.values()) <= usize::MAX ==> s.devices == device_total(
            hub.rooms.values(),
        ),
        s.version@ == crate::VERSION@,
{
    totals_are_not_negative(hub.rooms.values());
}

proof fn totals_are_not_negative(rooms: Seq<Room>)
    ensures
        device_total(rooms) >= 0,
    decreases rooms.len(),
{
    if rooms.len() > 0 {
        totals_are_not_negative(rooms.drop_last());
    }
}

}
