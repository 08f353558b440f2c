//! The rules of the server: who may join, what id a newcomer gets, who hears
//! of it, and where each chat message goes.
use vstd::prelude::*;

use tokio::sync::mpsc::Sender;

use crate::error::{describe_spec, WireError};
use crate::network::{next_counter, ServerState};
use crate::text::{decimal, trim, trim_str, u64_to_decimal};
use crate::types::{Client, ClientInfo, ClientRequest, InboxEntry, Room, ServerEvent};

verus! {

broadcast use vstd::std_specs::hash::group_hash_axioms;

/// The name a newcomer announces in its first line: the line trimmed of white
/// space, refused as `InvalidName` when nothing is left.
pub open spec fn handshake_username_spec(line: Seq<char>) -> Result<Seq<char>, WireError> {
    if trim(line).len() == 0 {
        Err(WireError::InvalidName)
    } else {
        Ok(trim(line))
    }
}

/// Reads the name from a newcomer's first line.
pub fn handshake_username(line: &str) -> (r: Result<String, WireError>)
    ensures
        match (r, handshake_username_spec(line@)) {
            (Ok(s), Ok(t)) => s@ == t,
            (Err(e), Err(f)) => e == f,
            _ => false,
        },
{
    let name = trim_str(line);
    if name.as_str().is_empty() {
        Err(WireError::InvalidName)
    } else {
        Ok(name)
    }
}

/// The server's answer to a handshake: the newcomer's id in decimal, on a
/// line of its own, since the client reads its id as its first line.
pub fn handshake_reply(id: u64) -> (r: String)
    ensures
        r@ == decimal(id as nat).push('\n'),
{
    proof {
        reveal_strlit("\n");
    }
    let r = u64_to_decimal(id).concat("\n");
    assert(r@ =~= decimal(id as nat).push('\n'));
    r
}

/// The event that tells a client about an error on its connection.
pub fn error_event(e: &WireError) -> (r: ServerEvent)
    ensures
        r matches ServerEvent::Error(s) && s@ == describe_spec(*e),
{
    ServerEvent::Error(e.describe())
}

/// The connected members of room `room_id`; nobody when there is no such
/// room.
pub open spec fn room_recipients_spec(s: ServerState, room_id: u64) -> Set<u64> {
    if s.rooms@.contains_key(room_id) {
        s.rooms@[room_id].members@.filter(|m: u64| s.clients@.contains_key(m))
    } else {
        Set::empty()
    }
}

/// Who hears a chat message: the addressed client if it is connected, or the
/// connected members of the addressed room.
pub open spec fn chat_recipients_spec(s: ServerState, entry: InboxEntry) -> Set<u64> {
    if entry.cli_or_room {
        if s.clients@.contains_key(entry.to) {
            set![entry.to]
        } else {
            Set::empty()
        }
    } else {
        room_recipients_spec(s, entry.to)
    }
}

/// Who hears of a request, in the state the server is in once it has acted
/// on it: the recipients of a chat message; every connected client with a
/// writer for a new room; the connected members of the room for a join.
pub open spec fn request_recipients_spec(s: ServerState, req: ClientRequest) -> Set<u64> {
    match req {
        ClientRequest::ChatMessage(entry) => chat_recipients_spec(s, entry),
        ClientRequest::CreateRoom { .. } => peer_joined_recipients_spec(s),
        ClientRequest::JoinRoom { room_id, .. } => room_recipients_spec(s, room_id),
    }
}

/// Who is told that a client joined: every connected client with a writer.
pub open spec fn peer_joined_recipients_spec(s: ServerState) -> Set<u64> {
    s.clients@.dom().filter(|id: u64| s.clients@[id].writer is Some)
}

impl ServerState {
    /// Takes in a newcomer that passed the handshake: gives it the next id,
    /// records it with `writer` as the channel to its writer task, and
    /// returns what peers may know of it.
    pub fn accept_newcomer(&mut self, username: String, ip: String, port: u16, writer: Sender<ServerEvent>) -> (r:
        ClientInfo)
        ensures
            r.id == old(self).next_id,
            r.username == username,
            r.ip == ip,
            r.port == port,
            final(self).next_id == next_counter(old(self).next_id),
            final(self).next_room_id == old(self).next_room_id,
            final(self).rooms@ == old(self).rooms@,
            final(self).clients@.contains_key(r.id),
            final(self).clients@[r.id].id == r.id,
            final(self).clients@[r.id].username == username,
            final(self).clients@[r.id].ip == ip,
            final(self).clients@[r.id].port == port,
            final(self).clients@[r.id].cmd_tx is None,
            final(self).clients@[r.id].writer == Some(writer),
            final(self).clients@.remove(r.id) == old(self).clients@.remove(r.id),
    {
        let id = self.next_id();
        let info = ClientInfo::new(id, username.clone(), ip.clone(), port);
        let client = Client::new(id, username, None, Some(writer), ip, port);
        self.register(client);
        proof {
            assert(self.clients@.remove(id) =~= old(self).clients@.remove(id));
        }
        info
    }

    /// The clients to tell that a peer joined.
    pub fn peer_joined_recipients(&self) -> (r: Vec<u64>)
        ensures
            r@.to_set() == peer_joined_recipients_spec(*self),
            r@.no_duplicates(),
    {
        let mut r: Vec<u64> = Vec::new();
        let ghost all = vstd::std_specs::iter::IteratorSpec::remaining(
            &vstd::std_specs::hash::spec_hash_map_iter(&self.clients),
        );
        for kv in it: self.clients.iter()
            invariant
                it.seq() == all,
                all.no_duplicates(),
                all.len() == self.clients@.dom().len(),
                forall|i: int|
                    #![trigger all[i]]
                    0 <= i < all.len() ==> self.clients@.contains_key(*all[i].0) && self.clients@[*all[i].0]
                        == *all[i].1,
                forall|k: u64| #[trigger]
                    self.clients@.contains_key(k) ==> all.contains((&k, &self.clients@[k])),
                r@.no_duplicates(),
                forall|id: u64|
                    #![trigger r@.contains(id)]
                    r@.contains(id) <==> exists|j: int|
                        0 <= j < it.index() && *all[j].0 == id && all[j].1.writer is Some,
        {
            let ghost i = it.index();
            let ghost r0 = r@;
            let (id, c) = kv;
            assert(*all[i].0 == *id && *all[i].1 == *c);
            if c.writer.is_some() {
                proof {
                    assert forall|j: int| 0 <= j < i implies *all[j].0 != *id by {
                        if *all[j].0 == *id {
                            assert(all[j] == all[i]);
                        }
                    }
                }
                r.push(*id);
                proof {
                    assert(!r0.contains(*id));
                    assert forall|a: int, b: int| 0 <= a < b < r@.len() implies r@[a] != r@[b] by {
                        if b == r0.len() {
                            assert(r0.contains(r@[a]));
                        } else {
                            assert(r@[a] == r0[a] && r@[b] == r0[b]);
                        }
                    }
                }
            }
            proof {
                assert forall|x: u64| #![trigger r@.contains(x)]
                    r@.contains(x) <==> exists|j: int|
                        0 <= j < i + 1 && *all[j].0 == x && all[j].1.writer is Some by {
                    if r0.contains(x) {
                        let k = choose|k: int| 0 <= k < r0.len() && r0[k] == x;
                        assert(r@[k] == x);
                    }
                    if exists|j: int| 0 <= j < i + 1 && *all[j].0 == x && all[j].1.writer is Some {
                        let j = choose|j: int|
                            0 <= j < i + 1 && *all[j].0 == x && all[j].1.writer is Some;
                        if j == i {
                            assert(r@[r@.len() - 1] == x);
                        } else {
                            assert(r0.contains(x));
                        }
                    }
                    if r@.contains(x) && !r0.contains(x) {
                        let k = choose|k: int| 0 <= k < r@.len() && r@[k] == x;
                        if k < r0.len() {
                            assert(r0[k] == x);
                        }
                        assert(*all[i].0 == x);
                    }
                }
            }
        }
        proof {
            assert forall|id: u64| r@.to_set().contains(id) <==> peer_joined_recipients_spec(
                *self,
            ).contains(id) by {
                if peer_joined_recipients_spec(*self).contains(id) {
                    assert(all.contains((&id, &self.clients@[id])));
                    let j = choose|j: int| 0 <= j < all.len() && all[j] == (&id, &self.clients@[id]);
                    assert(r@.contains(id));
                }
                if r@.contains(id) {
                    let j = choose|j: int| 0 <= j < all.len() && *all[j].0 == id && all[j].1.writer is Some;
                }
            }
            assert(r@.to_set() =~= peer_joined_recipients_spec(*self));
        }
        r
    }

    /// The clients to pass a chat message on to.
    pub fn chat_recipients(&self, entry: &InboxEntry) -> (r: Vec<u64>)
        ensures
            r@.to_set() == chat_recipients_spec(*self, *entry),
            r@.no_duplicates(),
    {
        let mut r: Vec<u64> = Vec::new();
        if entry.cli_or_room {
            if self.clients.contains_key(&entry.to) {
                r.push(entry.to);
                assert(r@[0] == entry.to);
            }
            assert forall|x: u64| r@.to_set().contains(x) <==> chat_recipients_spec(
                *self,
                *entry,
            ).contains(x) by {
                if r@.contains(x) {
                    let k = choose|k: int| 0 <= k < r@.len() && r@[k] == x;
                }
            }
            assert(r@.to_set() =~= chat_recipients_spec(*self, *entry));
            return r;
        }
        self.room_recipients(entry.to)
    }

    /// The connected members of room `room_id`.
    pub fn room_recipients(&self, room_id: u64) -> (r: Vec<u64>)
        ensures
            r@.to_set() == room_recipients_spec(*self, room_id),
            r@.no_duplicates(),
    {
        let mut r: Vec<u64> = Vec::new();
        let room = match self.rooms.get(&room_id) {
            Some(room) => room,
            None => {
                assert(r@.to_set() =~= room_recipients_spec(*self, room_id));
                return r;
            },
        };
        let ghost all = vstd::std_specs::iter::IteratorSpec::remaining(
            &vstd::std_specs::hash::spec_hash_keys_iter(&room.members),
        );
        for m in it: room.members.iter()
            invariant
                it.seq() == all,
                all.unref().to_set() == room.members@,
                all.no_duplicates(),
                r@.no_duplicates(),
                forall|id: u64|
                    #![trigger r@.contains(id)]
                    r@.contains(id) <==> exists|j: int|
                        0 <= j < it.index() && *all[j] == id && self.clients@.contains_key(id),
        {
            let ghost i = it.index();
            let ghost r0 = r@;
            assert(*all[i] == *m);
            if self.clients.contains_key(m) {
                proof {
                    assert forall|j: int| 0 <= j < i implies *all[j] != *m by {
                        if *all[j] == *m {
                            assert(all[j] == all[i]);
                        }
                    }
                }
                r.push(*m);
                proof {
                    assert(!r0.contains(*m));
                    assert forall|a: int, b: int| 0 <= a < b < r@.len() implies r@[a] != r@[b] by {
                        if b == r0.len() {
                            assert(r0.contains(r@[a]));
                        } else {
                            assert(r@[a] == r0[a] && r@[b] == r0[b]);
                        }
                    }
                }
            }
            proof {
                assert forall|x: u64| #![trigger r@.contains(x)]
                    r@.contains(x) <==> exists|j: int|
                        0 <= j < i + 1 && *all[j] == x && self.clients@.contains_key(x) by {
                    if r0.contains(x) {
                        let k = choose|k: int| 0 <= k < r0.len() && r0[k] == x;
                        assert(r@[k] == x);
                    }
                    if exists|j: int| 0 <= j < i + 1 && *all[j] == x && self.clients@.contains_key(x) {
                        let j = choose|j: int|
                            0 <= j < i + 1 && *all[j] == x && self.clients@.contains_key(x);
                        if j == i {
                            assert(r@[r@.len() - 1] == x);
                        } else {
                            assert(r0.contains(x));
                        }
                    }
                    if r@.contains(x) && !r0.contains(x) {
                        let k = choose|k: int| 0 <= k < r@.len() && r@[k] == x;
                        if k < r0.len() {
                            assert(r0[k] == x);
                        }
                        assert(*all[i] == x);
                    }
                }
            }
        }
        proof {
            let want = room_recipients_spec(*self, room_id);
            assert forall|id: u64| r@.to_set().contains(id) <==> want.contains(id) by {
                if want.contains(id) {
                    assert(all.unref().contains(id));
                    let j = choose|j: int| 0 <= j < all.unref().len() && all.unref()[j] == id;
                    assert(*all[j] == id);
                    assert(r@.contains(id));
                }
                if r@.contains(id) {
                    let j = choose|j: int|
                        0 <= j < all.len() && *all[j] == id && self.clients@.contains_key(id);
                    assert(all.unref()[j] == id);
                    assert(all.unref().to_set().contains(id));
                }
            }
            assert(r@.to_set() =~= want);
        }
        r
    }

    /// The clients to pass a request on to.
    pub fn route_request(&self, req: &ClientRequest) -> (r: Vec<u64>)
        ensures
            r@.to_set() == request_recipients_spec(*self, *req),
            r@.no_duplicates(),
    {
        match req {
            ClientRequest::ChatMessage(entry) => self.chat_recipients(entry),
            ClientRequest::CreateRoom { .. } => self.peer_joined_recipients(),
            ClientRequest::JoinRoom { room_id, .. } => self.room_recipients(*room_id),
        }
    }
}

/// `f` is `o` with a room opened by `creator` under the name `name`: the
/// next room id, with `creator` as its only member; the counter moves on and
/// nothing else changes.
pub open spec fn room_opened(o: ServerState, f: ServerState, name: String, creator: u64) -> bool {
    let id = o.next_room_id;
    &&& f.rooms@.contains_key(id)
    &&& f.rooms@[id].id == id
    &&& f.rooms@[id].username == name
    &&& f.rooms@[id].members@ == set![creator]
    &&& f.rooms@.remove(id) == o.rooms@.remove(id)
    &&& f.next_room_id == next_counter(o.next_room_id)
    &&& f.next_id == o.next_id
    &&& f.clients@ == o.clients@
}

/// `f` is `o` with `client_id` added to the members of room `room_id`,
/// which `o` has; nothing else changes.
pub open spec fn room_entered(o: ServerState, f: ServerState, client_id: u64, room_id: u64) -> bool {
    &&& o.rooms@.contains_key(room_id)
    &&& f.rooms@.contains_key(room_id)
    &&& f.rooms@[room_id].id == o.rooms@[room_id].id
    &&& f.rooms@[room_id].username == o.rooms@[room_id].username
    &&& f.rooms@[room_id].members@ == o.rooms@[room_id].members@.insert(client_id)
    &&& f.rooms@.remove(room_id) == o.rooms@.remove(room_id)
    &&& f.next_room_id == o.next_room_id
    &&& f.next_id == o.next_id
    &&& f.clients@ == o.clients@
}

/// `ev` tells of room `id` named `name` with the members `members`: as a
/// new room when `created`, else as a room just joined.
pub open spec fn announces_room(
    ev: Option<ServerEvent>,
    created: bool,
    id: u64,
    name: String,
    members: Set<u64>,
) -> bool {
    match ev {
        Some(ServerEvent::RoomCreated(room)) => created && room.id == id && room.username == name
            && room.members@ == members,
        Some(ServerEvent::RoomJoined(room)) => !created && room.id == id && room.username == name
            && room.members@ == members,
        _ => false,
    }
}

impl ServerState {
    /// Opens a room named `name` with `creator` as its first member, under
    /// the next room id, and returns that id.
    pub fn open_room(&mut self, name: String, creator: u64) -> (r: u64)
        ensures
            r == old(self).next_room_id,
            room_opened(*old(self), *final(self), name, creator),
    {
        let id = self.next_room_id();
        let mut room = Room::new(id, name);
        room.add_member(creator);
        self.rooms.insert(id, room);
        proof {
            assert(self.rooms@[id].members@ =~= set![creator]);
            assert(self.rooms@.remove(id) =~= old(self).rooms@.remove(id));
        }
        id
    }

    /// Adds `client_id` to the members of room `room_id`; `false`, with
    /// nothing changed, when there is no such room.
    pub fn enter_room(&mut self, client_id: u64, room_id: u64) -> (r: bool)
        ensures
            r == old(self).rooms@.contains_key(room_id),
            r ==> room_entered(*old(self), *final(self), client_id, room_id),
            !r ==> *final(self) == *old(self),
    {
        if !self.rooms.contains_key(&room_id) {
            return false;
        }
        match self.rooms.remove(&room_id) {
            Some(mut room) => {
                room.add_member(client_id);
                self.rooms.insert(room_id, room);
                proof {
                    assert(self.rooms@.remove(room_id) =~= old(self).rooms@.remove(room_id));
                }
                true
            },
            None => false,
        }
    }

    /// Acts on request `req` from client `from` and says what to tell whom:
    /// a chat message changes nothing and goes to its recipients; a new room
    /// is opened with `from` as its first member and announced to every
    /// connected client with a writer; a join adds the member and is
    /// announced to the connected members of the room. A join to a room that
    /// does not exist changes nothing and is told to nobody.
    pub fn handle_request(&mut self, from: u64, req: ClientRequest) -> (r: (Option<ServerEvent>, Vec<u64>))
        ensures
            r.1@.no_duplicates(),
            match req {
                ClientRequest::ChatMessage(entry) => {
                    &&& *final(self) == *old(self)
                    &&& r.0 == Some(ServerEvent::ChatMessage(entry))
                    &&& r.1@.to_set() == chat_recipients_spec(*old(self), entry)
                },
                ClientRequest::CreateRoom { username } => {
                    &&& room_opened(*old(self), *final(self), username, from)
                    &&& announces_room(r.0, true, old(self).next_room_id, username, set![from])
                    &&& r.1@.to_set() == peer_joined_recipients_spec(*final(self))
                },
                ClientRequest::JoinRoom { client_id, room_id } => if old(self).rooms@.contains_key(room_id) {
                    &&& room_entered(*old(self), *final(self), client_id, room_id)
                    &&& announces_room(
                        r.0,
                        false,
                        old(self).rooms@[room_id].id,
                        old(self).rooms@[room_id].username,
                        old(self).rooms@[room_id].members@.insert(client_id),
                    )
                    &&& r.1@.to_set() == room_recipients_spec(*final(self), room_id)
                } else {
                    &&& *final(self) == *old(self)
                    &&& r.0 is None
                    &&& r.1@.len() == 0
                },
            },
    {
        match req {
            ClientRequest::ChatMessage(entry) => {
                let to = self.chat_recipients(&entry);
                (Some(ServerEvent::ChatMessage(entry)), to)
            },
            ClientRequest::CreateRoom { username } => {
                let id = self.open_room(username, from);
                let room = match self.rooms.get(&id) {
                    Some(room) => room.duplicate(),
                    None => vstd::pervasive::unreached(),
                };
                let to = self.peer_joined_recipients();
                (Some(ServerEvent::RoomCreated(room)), to)
            },
            ClientRequest::JoinRoom { client_id, room_id } => {
                if self.enter_room(client_id, room_id) {
                    let room = match self.rooms.get(&room_id) {
                        Some(room) => room.duplicate(),
                        None => vstd::pervasive::unreached(),
                    };
                    let to = self.room_recipients(room_id);
                    (Some(ServerEvent::RoomJoined(room)), to)
                } else {
                    (None, Vec::new())
                }
            },
        }
    }
}

/// Messages to a room reach its creator from the moment it is opened, while
/// the creator is connected, and reach nobody else yet.
pub proof fn law_creator_hears_new_room(o: ServerState, f: ServerState, name: String, creator: u64)
    requires
        room_opened(o, f, name, creator),
    ensures
        room_recipients_spec(f, o.next_room_id) == if f.clients@.contains_key(creator) {
            set![creator]
        } else {
            Set::<u64>::empty()
        },
{
    let want = if f.clients@.contains_key(creator) {
        set![creator]
    } else {
        Set::<u64>::empty()
    };
    assert(room_recipients_spec(f, o.next_room_id) =~= want);
}

/// Once a connected client joins a room, messages to the room reach it, and
/// they still reach every member they reached before.
pub proof fn law_joined_member_hears_room(o: ServerState, f: ServerState, client_id: u64, room_id: u64)
    requires
        room_entered(o, f, client_id, room_id),
        o.clients@.contains_key(client_id),
    ensures
        room_recipients_spec(f, room_id) == room_recipients_spec(o, room_id).insert(client_id),
{
    assert(room_recipients_spec(f, room_id) =~= room_recipients_spec(o, room_id).insert(client_id));
}

/// A message to a client reaches exactly that client while it is connected,
/// and nobody otherwise; a message to a room reaches exactly the members of
/// the room that are connected, and nobody when there is no such room.
pub proof fn law_chat_reaches_addressees(s: ServerState, entry: InboxEntry, id: u64)
    ensures
        entry.cli_or_room ==> (chat_recipients_spec(s, entry).contains(id) <==> (id == entry.to
            && s.clients@.contains_key(id))),
        !entry.cli_or_room ==> (chat_recipients_spec(s, entry).contains(id) <==> (s.rooms@.contains_key(
            entry.to,
        ) && s.rooms@[entry.to].members@.contains(id) && s.clients@.contains_key(id))),
{
}

} // verus!
