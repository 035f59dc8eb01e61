//! Who is connected, which rooms exist and who listens in each room.
use std::collections::HashMap;
use vstd::prelude::*;
use crate::strmap::StrMap;

verus! {

broadcast use vstd::std_specs::hash::group_hash_axioms;

/// Whether each user is still connected, by user id.
pub struct UserStatusRegistry {
    pub statuses: HashMap<u32, bool>,
}

impl View for UserStatusRegistry {
    type V = Map<u32, bool>;

    open spec fn view(&self) -> Map<u32, bool> {
        self.statuses@
    }
}

impl UserStatusRegistry {
    /// No user known yet.
    pub fn new() -> (r: Self)
        ensures
            r@ == Map::<u32, bool>::empty(),
    {
        UserStatusRegistry { statuses: HashMap::new() }
    }

    /// The recorded status of a user.
    pub fn status(&self, id: u32) -> (r: Option<bool>)
        ensures
            r == (if self@.contains_key(id) {
                Some(self@[id])
            } else {
                None::<bool>
            }),
    {
        match self.statuses.get(&id) {
            Some(b) => Some(*b),
            None => None,
        }
    }
}

/// The members of every room, by room number, in the order they joined.
/// `None` stands for a registry that is unavailable.
pub struct RoomUsersRegistry {
    pub rooms: Option<HashMap<u32, Vec<u32>>>,
}

pub open spec fn members_view(m: Map<u32, Vec<u32>>) -> Map<u32, Seq<u32>> {
    m.map_values(|v: Vec<u32>| v@)
}

impl View for RoomUsersRegistry {
    type V = Option<Map<u32, Seq<u32>>>;

    open spec fn view(&self) -> Option<Map<u32, Seq<u32>>> {
        match self.rooms {
            Some(m) => Some(members_view(m@)),
            None => None,
        }
    }
}

/// What becomes of one room member when a candle is relayed.
#[derive(Debug, Clone, Copy, PartialEq, Eq, Structural)]
pub enum Delivery {
    /// Connected: the message is sent and the member stays.
    Send,
    /// Known to have left: nothing is sent and the member is removed.
    Drop,
    /// No status recorded: nothing is sent and the member stays.
    Keep,
}

/// The delivery decision for a user, given the recorded statuses.
pub open spec fn delivery(statuses: Map<u32, bool>, id: u32) -> Delivery {
    if !statuses.contains_key(id) {
        Delivery::Keep
    } else if statuses[id] {
        Delivery::Send
    } else {
        Delivery::Drop
    }
}

/// The members that stay in a room after a relay: all but those known to
/// have left, in their order.
pub open spec fn kept_members(list: Seq<u32>, statuses: Map<u32, bool>) -> Seq<u32>
    decreases list.len(),
{
    if list.len() == 0 {
        Seq::<u32>::empty()
    } else {
        let init = kept_members(list.drop_last(), statuses);
        if delivery(statuses, list.last()) is Drop {
            init
        } else {
            init.push(list.last())
        }
    }
}

/// The members a relayed message is sent to, in their order.
pub open spec fn recipients_of(list: Seq<u32>, statuses: Map<u32, bool>) -> Seq<u32>
    decreases list.len(),
{
    if list.len() == 0 {
        Seq::<u32>::empty()
    } else {
        let init = recipients_of(list.drop_last(), statuses);
        if delivery(statuses, list.last()) is Send {
            init.push(list.last())
        } else {
            init
        }
    }
}

/// Decides what happens to one room member when a candle is relayed: the
/// message goes to connected users, users known to have left are dropped
/// from the room, users without a status stay without being sent anything.
pub fn send_msg_to_user(users: &UserStatusRegistry, id: u32) -> (d: Delivery)
    ensures
        d == delivery(users@, id),
{
    match users.status(id) {
        Some(sta) => {
            if sta {
                Delivery::Send
            } else {
                Delivery::Drop
            }
        },
        None => Delivery::Keep,
    }
}

/// The registry after a relay to room `room_nb`.
pub open spec fn rooms_after_relay(
    rooms: Option<Map<u32, Seq<u32>>>,
    room_nb: u32,
    statuses: Map<u32, bool>,
) -> Option<Map<u32, Seq<u32>>> {
    match rooms {
        Some(m) => if m.contains_key(room_nb) {
            Some(m.insert(room_nb, kept_members(m[room_nb], statuses)))
        } else {
            Some(m)
        },
        None => None,
    }
}

/// The users a relay to room `room_nb` reaches.
pub open spec fn relay_recipients(
    rooms: Option<Map<u32, Seq<u32>>>,
    room_nb: u32,
    statuses: Map<u32, bool>,
) -> Seq<u32> {
    match rooms {
        Some(m) => if m.contains_key(room_nb) {
            recipients_of(m[room_nb], statuses)
        } else {
            Seq::<u32>::empty()
        },
        None => Seq::<u32>::empty(),
    }
}

impl RoomUsersRegistry {
    /// An available registry with no room.
    pub fn new() -> (r: Self)
        ensures
            r@ == Some(Map::<u32, Seq<u32>>::empty()),
    {
        let r = RoomUsersRegistry { rooms: Some(HashMap::new()) };
        assert(members_view(Map::<u32, Vec<u32>>::empty()) =~= Map::<u32, Seq<u32>>::empty());
        r
    }

    /// Relays to room `room_nb`: keeps the members that have not left and
    /// returns those to send the message to.
    pub fn retain_connected(&mut self, room_nb: u32, users: &UserStatusRegistry) -> (recipients: Vec<u32>)
        ensures
            final(self)@ == rooms_after_relay(old(self)@, room_nb, users@),
            recipients@ == relay_recipients(old(self)@, room_nb, users@),
    {
        match &mut self.rooms {
            Some(q) => {
                let ghost q0 = q@;
                match q.remove(&room_nb) {
                    Some(list) => {
                        let mut kept: Vec<u32> = Vec::new();
                        let mut recipients: Vec<u32> = Vec::new();
                        let mut i: usize = 0;
                        while i < list.len()
                            invariant
                                i <= list@.len(),
                                kept@ == kept_members(list@.take(i as int), users@),
                                recipients@ == recipients_of(list@.take(i as int), users@),
                            decreases list@.len() - i,
                        {
                            let id = list[i];
                            proof {
                                assert(list@.take(i + 1).drop_last() =~= list@.take(i as int));
                            }
                            match send_msg_to_user(users, id) {
                                Delivery::Send => {
                                    kept.push(id);
                                    recipients.push(id);
                                },
                                Delivery::Drop => {},
                                Delivery::Keep => {
                                    kept.push(id);
                                },
                            }
                            i = i + 1;
                        }
                        proof {
                            assert(list@.take(list@.len() as int) =~= list@);
                        }
                        q.insert(room_nb, kept);
                        proof {
                            assert(members_view(q@) =~= members_view(q0).insert(
                                room_nb,
                                kept_members(list@, users@),
                            ));
                        }
                        recipients
                    },
                    None => {
                        proof {
                            assert(q@ =~= q0);
                        }
                        Vec::new()
                    },
                }
            },
            None => Vec::new(),
        }
    }
}

/// The directory of rooms shared by all browser connections: how many
/// connections were opened, how many rooms were numbered, a counter per room
/// identifier, and the number of each room.
pub struct Hub {
    pub count: u32,
    pub room_count: u32,
    pub room_counter: StrMap<u8>,
    pub room_nbs: StrMap<u32>,
}

/// Room numbers run from 1 to `room_count` and no two rooms share one.
pub open spec fn numbered(nbs: Map<Seq<char>, u32>, room_count: u32) -> bool {
    &&& forall|k: Seq<char>| #[trigger] nbs.contains_key(k) ==> 1 <= nbs[k] <= room_count
    &&& forall|k1: Seq<char>, k2: Seq<char>|
        #[trigger] nbs.contains_key(k1) && #[trigger] nbs.contains_key(k2) && k1 != k2 ==> nbs[k1]
            != nbs[k2]
}

impl Hub {
    pub open spec fn wf(&self) -> bool {
        &&& self.room_counter.wf()
        &&& self.room_nbs.wf()
        &&& numbered(self.room_nbs@, self.room_count)
    }

    /// No connection and no room yet.
    pub fn new() -> (h: Self)
        ensures
            h.wf(),
            h.count == 0,
            h.room_count == 0,
            h.room_counter@ == Map::<Seq<char>, u8>::empty(),
            h.room_nbs@ == Map::<Seq<char>, u32>::empty(),
    {
        Hub { count: 0, room_count: 0, room_counter: StrMap::new(), room_nbs: StrMap::new() }
    }
}

} // verus!
