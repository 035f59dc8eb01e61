//! The decisions a browser connection makes about rooms and users.
use vstd::prelude::*;
use vstd::string::*;
use crate::exchange::{get_ws_id, get_ws_url, ws_id, ws_url};
use crate::rooms::{members_view, Hub, RoomUsersRegistry, UserStatusRegistry};
use crate::text::{decimal, i64_decimal, split_char, split_on, views};

verus! {

broadcast use vstd::std_specs::hash::group_hash_axioms;

/// A browser connection, known by the user id it was given.
pub struct Server {
    pub id: u32,
}

/// How a websocket connection was closed, as the peer reported it.
#[derive(Debug, Clone, Copy, PartialEq, Eq, Structural)]
pub enum CloseCode {
    Normal,
    Away,
    Protocol,
    Unsupported,
    Status,
    Abnormal,
    Invalid,
    Policy,
    Size,
    Extension,
    Error,
    Restart,
    Again,
    Tls,
    Empty,
    Other(u16),
}

/// What opening a browser connection led to.
pub enum OpenOutcome {
    /// The path names no broker, pair and interval: the connection is closed.
    Rejected,
    /// The user joined the room of the stream the path names.
    Accepted {
        broker: String,
        pair: String,
        interval: String,
        url: String,
        room_id: String,
        room_nb: u32,
        creates_room: bool,
    },
}

/// A room's counter after `update_room_count`: kept if present, else 0.
pub open spec fn counter_after(counter: Map<Seq<char>, u8>, room_id: Seq<char>) -> Map<Seq<char>, u8> {
    counter.insert(room_id, if counter.contains_key(room_id) { counter[room_id] } else { 0 })
}

/// The number `set_room_nb` gives a room: its own if it has one, else the next.
pub open spec fn room_nb_choice(nbs: Map<Seq<char>, u32>, room_count: u32, room_id: Seq<char>) -> u32 {
    if nbs.contains_key(room_id) {
        nbs[room_id]
    } else {
        (room_count + 1) as u32
    }
}

/// The room numbers after `set_room_nb`: a room without a number gets the
/// next one, stored under `key`.
pub open spec fn nbs_after(
    nbs: Map<Seq<char>, u32>,
    room_count: u32,
    room_id: Seq<char>,
    key: Seq<char>,
) -> Map<Seq<char>, u32> {
    if nbs.contains_key(room_id) {
        nbs
    } else {
        nbs.insert(key, (room_count + 1) as u32)
    }
}

/// The count of numbered rooms after `set_room_nb`.
pub open spec fn room_count_after(nbs: Map<Seq<char>, u32>, room_count: u32, room_id: Seq<char>) -> u32 {
    if nbs.contains_key(room_id) {
        room_count
    } else {
        (room_count + 1) as u32
    }
}

/// Statuses after a user is marked as gone: only a known user is marked.
pub open spec fn disconnected(statuses: Map<u32, bool>, id: u32) -> Map<u32, bool> {
    if statuses.contains_key(id) {
        statuses.insert(id, false)
    } else {
        statuses
    }
}

/// A user joins a room: (whether the room is created by this join, the
/// registry after it).
pub open spec fn join_room(rooms: Option<Map<u32, Seq<u32>>>, room_nb: u32, id: u32) -> (
    bool,
    Option<Map<u32, Seq<u32>>>,
) {
    match rooms {
        Some(m) => if m.contains_key(room_nb) {
            (false, Some(m.insert(room_nb, m[room_nb].push(id))))
        } else {
            (true, Some(m.insert(room_nb, seq![id])))
        },
        None => (true, None),
    }
}

/// The segments of a request path.
pub open spec fn segments(path: Seq<char>) -> Seq<Seq<char>> {
    split_char(path, '/')
}

/// The reply to a message from the browser.
pub open spec fn user_reply(id: u32, count: u32) -> Seq<char> {
    "You are user "@ + decimal(id as int) + " on Cell { value: "@ + decimal(count as int) + " }"@
}

/// Whether a close code makes the server mark the user as gone and close.
pub open spec fn closes_user(code: CloseCode) -> bool {
    code is Away || code is Status
}

impl Server {
    /// Makes sure the room has a counter, keeping the one it has.
    pub fn update_room_count(&self, hub: &mut Hub, room_id: String)
        requires
            old(hub).wf(),
        ensures
            final(hub).wf(),
            final(hub).room_counter@ == counter_after(old(hub).room_counter@, room_id@),
            final(hub).room_nbs == old(hub).room_nbs,
            final(hub).count == old(hub).count,
            final(hub).room_count == old(hub).room_count,
    {
        let co: u8 = match hub.room_counter.get(room_id.as_str()) {
            Some(rc) => rc,
            None => 0,
        };
        hub.room_counter.insert(room_id, co);
    }

    /// The number of a room, if it has one.
    pub fn get_room_nb_by_id(&self, hub: &Hub, room_id: String) -> (r: Option<u32>)
        requires
            hub.wf(),
        ensures
            r == (if hub.room_nbs@.contains_key(room_id@) {
                Some(hub.room_nbs@[room_id@])
            } else {
                None::<u32>
            }),
    {
        hub.room_nbs.get(room_id.as_str())
    }

    /// Records the number of a room.
    pub fn set_room_nb_by_id(&self, hub: &mut Hub, room_id: String, room_nb: u32)
        requires
            old(hub).room_nbs.wf(),
        ensures
            final(hub).room_nbs.wf(),
            final(hub).room_nbs@ == old(hub).room_nbs@.insert(room_id@, room_nb),
            final(hub).room_counter == old(hub).room_counter,
            final(hub).count == old(hub).count,
            final(hub).room_count == old(hub).room_count,
    {
        hub.room_nbs.insert(room_id, room_nb);
    }

    /// Marks this user as connected.
    pub fn update_user_isconnected(&self, users: &mut UserStatusRegistry)
        ensures
            final(users)@ == old(users)@.insert(self.id, true),
    {
        users.statuses.insert(self.id, true);
    }

    /// Marks this user as gone, if the user is known.
    pub fn update_user_setnotconnected(&self, users: &mut UserStatusRegistry)
        ensures
            final(users)@ == disconnected(old(users)@, self.id),
    {
        let mut exists = false;
        if let Some(_aaa) = users.statuses.get(&self.id) {
            exists = true;
        }
        if exists {
            users.statuses.insert(self.id, false);
        }
    }

    /// Adds this user to a room, creating the room if it has no member list.
    /// Returns whether the room was created (also when the registry is
    /// unavailable, in which case nothing is recorded).
    pub fn update_room_users(&self, room_users: &mut RoomUsersRegistry, room_nb: u32) -> (created: bool)
        ensures
            (created, final(room_users)@) == join_room(old(room_users)@, room_nb, self.id),
    {
        let mut exists = false;
        match &mut room_users.rooms {
            Some(q) => {
                let ghost q0 = q@;
                match q.remove(&room_nb) {
                    Some(mut qq) => {
                        exists = true;
                        qq.push(self.id);
                        let ghost list = qq@;
                        q.insert(room_nb, qq);
                        proof {
                            assert(members_view(q@) =~= members_view(q0).insert(room_nb, list));
                        }
                    },
                    None => {
                        exists = false;
                        let mut list: Vec<u32> = Vec::new();
                        list.push(self.id);
                        q.insert(room_nb, list);
                        proof {
                            assert(members_view(q@) =~= members_view(q0).insert(
                                room_nb,
                                seq![self.id],
                            ));
                        }
                    },
                }
            },
            None => {},
        }
        !exists
    }

    /// The number of the room: its own if it has one, else the next number,
    /// recorded under the room identifier of `broker`, `pair` and `interval`.
    pub fn set_room_nb(
        &self,
        hub: &mut Hub,
        broker: String,
        pair: String,
        interval: String,
        room_id: String,
    ) -> (room_nb: u32)
        requires
            old(hub).wf(),
            !old(hub).room_nbs@.contains_key(room_id@) ==> old(hub).room_count < u32::MAX,
        ensures
            final(hub).wf(),
            room_nb == room_nb_choice(old(hub).room_nbs@, old(hub).room_count, room_id@),
            final(hub).room_nbs@ == nbs_after(
                old(hub).room_nbs@,
                old(hub).room_count,
                room_id@,
                ws_id(broker@, pair@, interval@),
            ),
            final(hub).room_count == room_count_after(
                old(hub).room_nbs@,
                old(hub).room_count,
                room_id@,
            ),
            final(hub).room_counter == old(hub).room_counter,
            final(hub).count == old(hub).count,
    {
        let room_nb_opt = self.get_room_nb_by_id(hub, room_id);
        let room_nb: u32;
        if let Some(room_nb_) = room_nb_opt {
            room_nb = room_nb_;
        } else {
            hub.room_count = hub.room_count + 1;
            room_nb = hub.room_count;
            let room_id = get_ws_id(broker.as_str(), pair.as_str(), interval.as_str());
            self.set_room_nb_by_id(hub, room_id, room_nb);
        }
        proof {
            crate::laws::law_numbering_preserved(
                old(hub).room_nbs@,
                old(hub).room_count,
                room_id@,
                ws_id(broker@, pair@, interval@),
            );
        }
        room_nb
    }

    /// The reply to any message the browser sends.
    pub fn on_message(&self, count: u32) -> (reply: String)
        ensures
            reply@ == user_reply(self.id, count),
    {
        let mut s = "You are user ".to_string();
        let id = i64_decimal(self.id as i64);
        s.append(id.as_str());
        s.append(" on Cell { value: ");
        let c = i64_decimal(count as i64);
        s.append(c.as_str());
        s.append(" }");
        s
    }

    /// A closing connection: on `Away` and `Status` the user is marked as
    /// gone and the connection is closed; other codes change nothing.
    pub fn on_close(&self, users: &mut UserStatusRegistry, code: CloseCode) -> (closes: bool)
        ensures
            closes == closes_user(code),
            final(users)@ == (if closes {
                disconnected(old(users)@, self.id)
            } else {
                old(users)@
            }),
    {
        match code {
            CloseCode::Away => {
                self.update_user_setnotconnected(users);
                true
            },
            CloseCode::Status => {
                self.update_user_setnotconnected(users);
                true
            },
            _ => false,
        }
    }

    /// Opens a browser connection on `path` = `/broker/pair/interval`: the user
    /// is marked connected and joins the room of that stream, which gets a
    /// counter and a number; the connection count grows by one. A path with
    /// fewer than three segments is rejected with nothing changed.
    pub fn on_open(
        &self,
        hub: &mut Hub,
        users: &mut UserStatusRegistry,
        room_users: &mut RoomUsersRegistry,
        path: &str,
    ) -> (outcome: OpenOutcome)
        requires
            old(hub).wf(),
            segments(path@).len() != 3,
            segments(path@).len() > 3 ==> old(hub).count < u32::MAX,
            segments(path@).len() > 3 && !old(hub).room_nbs@.contains_key(
                ws_id(segments(path@)[1], segments(path@)[2], segments(path@)[3]),
            ) ==> old(hub).room_count < u32::MAX,
        ensures
            final(hub).wf(),
            segments(path@).len() < 3 ==> outcome is Rejected && *final(hub) == *old(hub)
                && *final(users) == *old(users) && *final(room_users) == *old(room_users),
            segments(path@).len() > 3 ==> {
                let seg = segments(path@);
                let rid = ws_id(seg[1], seg[2], seg[3]);
                let nb = room_nb_choice(old(hub).room_nbs@, old(hub).room_count, rid);
                &&& outcome matches OpenOutcome::Accepted {
                    broker,
                    pair,
                    interval,
                    url,
                    room_id,
                    room_nb,
                    creates_room,
                } && broker@ == seg[1] && pair@ == seg[2] && interval@ == seg[3] && url@ == ws_url(
                    seg[1],
                    seg[2],
                    seg[3],
                ) && room_id@ == rid && room_nb == nb && (creates_room, final(room_users)@)
                    == join_room(old(room_users)@, nb, self.id)
                &&& final(hub).room_counter@ == counter_after(old(hub).room_counter@, rid)
                &&& final(hub).room_nbs@ == nbs_after(
                    old(hub).room_nbs@,
                    old(hub).room_count,
                    rid,
                    rid,
                )
                &&& final(hub).room_count == room_count_after(
                    old(hub).room_nbs@,
                    old(hub).room_count,
                    rid,
                )
                &&& final(hub).count == old(hub).count + 1
                &&& final(users)@ == old(users)@.insert(self.id, true)
            },
    {
        let pathsplit = split_on(path, '/');
        proof {
            assert(views(pathsplit@).len() == pathsplit@.len());
        }
        if pathsplit.len() < 3 {
            OpenOutcome::Rejected
        } else {
            proof {
                assert(views(pathsplit@)[1] == pathsplit@[1]@);
                assert(views(pathsplit@)[2] == pathsplit@[2]@);
                assert(views(pathsplit@)[3] == pathsplit@[3]@);
            }
            let broker = pathsplit[1].clone();
            let pair = pathsplit[2].clone();
            let interval = pathsplit[3].clone();
            let url = get_ws_url(broker.as_str(), pair.as_str(), interval.as_str());
            let room_id = get_ws_id(broker.as_str(), pair.as_str(), interval.as_str());
            self.update_room_count(hub, room_id.clone());
            self.update_user_isconnected(users);
            let room_nb = self.set_room_nb(
                hub,
                broker.clone(),
                pair.clone(),
                interval.clone(),
                room_id.clone(),
            );
            let creates_room = self.update_room_users(room_users, room_nb);
            hub.count = hub.count + 1;
            OpenOutcome::Accepted { broker, pair, interval, url, room_id, room_nb, creates_room }
        }
    }
}

} // verus!
