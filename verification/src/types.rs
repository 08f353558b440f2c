//! The values that travel between clients and the server.
use vstd::prelude::*;

use std::collections::HashSet;
use tokio::sync::mpsc::Sender;


verus! {

broadcast use vstd::std_specs::hash::group_hash_axioms;

/// What every peer knows of a connected client.
#[derive(Debug, Clone)]
pub struct ClientInfo {
    pub id: u64,
    pub username: String,
    pub ip: String,
    pub port: u16,
}

impl ClientInfo {
    pub fn new(id: u64, username: String, ip: String, port: u16) -> (r: Self)
        ensures
            r.id == id,
            r.username == username,
            r.ip == ip,
            r.port == port,
    {
        ClientInfo { id, username, ip, port }
    }

    /// A field-by-field copy.
    pub fn duplicate(&self) -> (r: Self)
        ensures
            r == *self,
    {
        ClientInfo {
            id: self.id,
            username: self.username.clone(),
            ip: self.ip.clone(),
            port: self.port,
        }
    }
}

/// A request that a client sends to the server.
#[derive(Debug, Clone)]
pub enum ClientRequest {
    CreateRoom { username: String },
    JoinRoom { client_id: u64, room_id: u64 },
    ChatMessage(InboxEntry),
}

/// An event that the server sends to a client.
#[derive(Debug)]
pub enum ServerEvent {
    Welcome { id: usize },
    Roster(Vec<ClientInfo>),
    PeerJoined(ClientInfo),
    ClientDisconnected(u64),
    PeerLeft(usize),
    ChatMessage(InboxEntry),
    RoomCreated(Room),
    RoomJoined(Room),
    Error(String),
}

/// One chat message.
///
/// `time` is the moment it was written, in nanoseconds since the Unix epoch.
/// `cli_or_room` is `true` when `to` names a client and `false` when it names
/// a room.
#[derive(Debug, Clone, PartialEq)]
pub struct InboxEntry {
    pub time: u128,
    pub msg: String,
    pub from: u64,
    pub to: u64,
    pub cli_or_room: bool,
}

impl InboxEntry {
    pub fn new(time: u128, msg: String, from: u64, to: u64, cli_or_room: bool) -> (r: Self)
        ensures
            r.time == time,
            r.msg == msg,
            r.from == from,
            r.to == to,
            r.cli_or_room == cli_or_room,
    {
        InboxEntry { time, msg, from, to, cli_or_room }
    }

    /// The text an entry is shown as: its message.
    pub fn display_text(&self) -> (r: String)
        ensures
            r@ == self.msg@,
    {
        self.msg.clone()
    }

    /// A field-by-field copy.
    pub fn duplicate(&self) -> (r: Self)
        ensures
            r == *self,
    {
        InboxEntry {
            time: self.time,
            msg: self.msg.clone(),
            from: self.from,
            to: self.to,
            cli_or_room: self.cli_or_room,
        }
    }
}

/// A connected client as the registries hold it: its identity and the
/// channels that reach its tasks.
#[derive(Debug, Clone)]
pub struct Client {
    pub id: u64,
    pub username: String,
    pub cmd_tx: Option<Sender<ClientRequest>>,
    pub writer: Option<Sender<ServerEvent>>,
    pub ip: String,
    pub port: u16,
}

impl Client {
    pub fn new(
        id: u64,
        username: String,
        cmd_tx: Option<Sender<ClientRequest>>,
        writer: Option<Sender<ServerEvent>>,
        ip: String,
        port: u16,
    ) -> (r: Self)
        ensures
            r.id == id,
            r.username == username,
            r.cmd_tx == cmd_tx,
            r.writer == writer,
            r.ip == ip,
            r.port == port,
    {
        Client { id, username, cmd_tx, writer, ip, port }
    }

    /// A copy whose channels are new handles on the same channels.
    pub fn duplicate(&self) -> (r: Self)
        ensures
            r == *self,
    {
        let cmd_tx = match &self.cmd_tx {
            Some(tx) => Some(tx.clone()),
            None => None,
        };
        let writer = match &self.writer {
            Some(tx) => Some(tx.clone()),
            None => None,
        };
        Client {
            id: self.id,
            username: self.username.clone(),
            cmd_tx,
            writer,
            ip: self.ip.clone(),
            port: self.port,
        }
    }

    /// What every peer may know of this client.
    pub fn info(&self) -> (r: ClientInfo)
        ensures
            r.id == self.id,
            r.username == self.username,
            r.ip == self.ip,
            r.port == self.port,
    {
        ClientInfo::new(self.id, self.username.clone(), self.ip.clone(), self.port)
    }
}

/// A chat room: its id, the name it was created under, and its members.
#[derive(Debug)]
pub struct Room {
    pub id: u64,
    pub username: String,
    pub members: HashSet<u64>,
}

impl Room {
    /// A room with no members.
    pub fn new(id: u64, username: String) -> (r: Self)
        ensures
            r.id == id,
            r.username == username,
            r.members@ == Set::<u64>::empty(),
    {
        Room { id, username, members: HashSet::new() }
    }

    /// A copy with the same id, name and members.
    pub fn duplicate(&self) -> (r: Self)
        ensures
            r.id == self.id,
            r.username == self.username,
            r.members@ == self.members@,
    {
        let mut members: HashSet<u64> = HashSet::new();
        let ghost all = vstd::std_specs::iter::IteratorSpec::remaining(&vstd::std_specs::hash::spec_hash_keys_iter(&self.members));
        for m in it: self.members.iter()
            invariant
                it.seq() == all,
                all.unref().to_set() == self.members@,
                forall|k: u64|
                    #![trigger members@.contains(k)]
                    members@.contains(k) <==> exists|j: int| 0 <= j < it.index() && *all[j] == k,
        {
            let ghost i = it.index();
            members.insert(*m);
            proof {
                assert forall|k: u64| #![trigger members@.contains(k)]
                    members@.contains(k) implies exists|j: int| 0 <= j < i + 1 && *all[j] == k by {
                    if k == *m {
                        assert(*all[i] == k);
                    }
                }
            }
        }
        assert forall|k: u64| members@.contains(k) <==> self.members@.contains(k) by {
            if self.members@.contains(k) {
                assert(all.unref().contains(k));
                let j = choose|j: int| 0 <= j < all.unref().len() && all.unref()[j] == k;
                assert(*all[j] == k);
            }
            if members@.contains(k) {
                let j = choose|j: int| 0 <= j < all.len() && *all[j] == k;
                assert(all.unref()[j] == k);
            }
        }
        assert(members@ =~= self.members@);
        Room { id: self.id, username: self.username.clone(), members }
    }

    /// Whether `id` is a member of the room.
    pub fn is_member(&self, id: u64) -> (r: bool)
        ensures
            r == self.members@.contains(id),
    {
        self.members.contains(&id)
    }

    /// Adds `id` to the members; a member already there stays once.
    pub fn add_member(&mut self, id: u64)
        ensures
            final(self).id == old(self).id,
            final(self).username == old(self).username,
            final(self).members@ == old(self).members@.insert(id),
    {
        self.members.insert(id);
    }
}

/// Whether `a` and `b` record the same room: id, name and members.
pub open spec fn same_room(a: Room, b: Room) -> bool {
    a.id == b.id && a.username == b.username && a.members@ == b.members@
}

/// Whether `a` and `b` are the same event, rooms compared by what they
/// record.
pub open spec fn same_event(a: ServerEvent, b: ServerEvent) -> bool {
    match (a, b) {
        (ServerEvent::RoomCreated(x), ServerEvent::RoomCreated(y)) => same_room(x, y),
        (ServerEvent::RoomJoined(x), ServerEvent::RoomJoined(y)) => same_room(x, y),
        (ServerEvent::Roster(x), ServerEvent::Roster(y)) => x@ == y@,
        _ => a == b,
    }
}

impl ServerEvent {
    /// A copy of the event, for one more recipient.
    pub fn duplicate(&self) -> (r: Self)
        ensures
            same_event(*self, r),
    {
        match self {
            ServerEvent::Welcome { id } => ServerEvent::Welcome { id: *id },
            ServerEvent::Roster(clients) => {
                let mut copy: Vec<ClientInfo> = Vec::new();
                let mut i: usize = 0;
                while i < clients.len()
                    invariant
                        i <= clients@.len(),
                        copy@ == clients@.subrange(0, i as int),
                    decreases clients@.len() - i,
                {
                    copy.push(clients[i].duplicate());
                    i = i + 1;
                    assert(copy@ =~= clients@.subrange(0, i as int));
                }
                assert(clients@.subrange(0, clients@.len() as int) =~= clients@);
                ServerEvent::Roster(copy)
            },
            ServerEvent::PeerJoined(info) => ServerEvent::PeerJoined(info.duplicate()),
            ServerEvent::ClientDisconnected(id) => ServerEvent::ClientDisconnected(*id),
            ServerEvent::PeerLeft(id) => ServerEvent::PeerLeft(*id),
            ServerEvent::ChatMessage(entry) => ServerEvent::ChatMessage(entry.duplicate()),
            ServerEvent::RoomCreated(room) => ServerEvent::RoomCreated(room.duplicate()),
            ServerEvent::RoomJoined(room) => ServerEvent::RoomJoined(room.duplicate()),
            ServerEvent::Error(text) => ServerEvent::Error(text.clone()),
        }
    }
}

/// Adding a member that is already in the room leaves the members as they were.
pub proof fn law_add_member_idempotent(members: Set<u64>, id: u64)
    requires
        members.contains(id),
    ensures
        members.insert(id) == members,
{
    assert(members.insert(id) =~= members);
}

/// After a member is added, the room reports it as a member, and every other
/// id keeps the answer it had.
pub proof fn law_add_member_then_is_member(members: Set<u64>, id: u64, other: u64)
    ensures
        members.insert(id).contains(id),
        other != id ==> (members.insert(id).contains(other) == members.contains(other)),
{
}

} // verus!
