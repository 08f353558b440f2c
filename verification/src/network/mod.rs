//! The network engine: commands from the interface, events back to it, and
//! the registries that the server and each client keep.
use vstd::prelude::*;

pub mod channel;
pub mod client_side;
pub mod framing;
pub mod server_side;

use std::collections::HashMap;
use tokio::sync::mpsc::Sender;

use crate::error::WireError;
pub use crate::network::channel::NetworkHandle;
use crate::types::{Client, ClientInfo, ClientRequest, InboxEntry, Room, ServerEvent};

verus! {

broadcast use vstd::std_specs::hash::group_hash_axioms;

/// What the interface asks of the network engine.
#[derive(Debug)]
pub enum NetworkCommand {
    SpawnClient { username: String },
    CreateRoom { username: String },
    SendMessage { data: InboxEntry },
    JoinRoom { client_id: u64, room_id: u64 },
}

/// What the network engine reports to the interface.
#[derive(Debug)]
pub enum NetworkEvent {
    ClientConnected(ClientInfo),
    ClientDisconnected { id: u64 },
    RoomCreated { room: Room },
    JoinedRoom { client_id: u64, room_id: u64 },
    MessageReceived(InboxEntry),
    ErrorOccurred(WireError),
}

/// The result of offering a command: `Ok` when the channel took it, else
/// the error that the refused command is reported as.
pub open spec fn send_result_spec(sent: bool, refusal: WireError) -> Result<(), WireError> {
    if sent {
        Ok(())
    } else {
        Err(refusal)
    }
}

/// Turns whether the channel took a command into the caller's result.
pub fn send_result(sent: bool, refusal: WireError) -> (r: Result<(), WireError>)
    ensures
        r == send_result_spec(sent, refusal),
{
    if sent {
        Ok(())
    } else {
        Err(refusal)
    }
}

/// `after` is `before` with one more offer, of the command `cmd`.
pub open spec fn offered(
    before: Seq<(NetworkCommand, bool)>,
    after: Seq<(NetworkCommand, bool)>,
    cmd: NetworkCommand,
) -> bool {
    &&& after.len() == before.len() + 1
    &&& after.drop_last() == before
    &&& after.last().0 == cmd
}

proof fn lemma_offered(before: Seq<(NetworkCommand, bool)>, cmd: NetworkCommand, sent: bool)
    ensures
        offered(before, before.push((cmd, sent)), cmd),
{
    assert(before.push((cmd, sent)).drop_last() =~= before);
}

impl NetworkHandle {
    /// Asks for a new client named `name`. A refused request is reported as
    /// `PortNotAvailable`.
    pub fn spawn_client(&mut self, name: String) -> (r: Result<(), WireError>)
        ensures
            final(self).channel() == old(self).channel(),
            offered(old(self).offers(), final(self).offers(), (NetworkCommand::SpawnClient { username: name })),
            r == send_result_spec(final(self).offers().last().1, WireError::PortNotAvailable),
    {
        let ghost before = self.offers();
        let ghost cmd = NetworkCommand::SpawnClient { username: name };
        let sent = self.offer(NetworkCommand::SpawnClient { username: name });
        proof {
            lemma_offered(before, cmd, sent);
        }
        send_result(sent, WireError::PortNotAvailable)
    }

    /// Asks to send a chat message. A refused request is reported as
    /// `ChannelFailure`.
    pub fn send_message(&mut self, data: InboxEntry) -> (r: Result<(), WireError>)
        ensures
            final(self).channel() == old(self).channel(),
            offered(old(self).offers(), final(self).offers(), (NetworkCommand::SendMessage { data })),
            r == send_result_spec(final(self).offers().last().1, WireError::ChannelFailure),
    {
        let ghost before = self.offers();
        let ghost cmd = NetworkCommand::SendMessage { data };
        let sent = self.offer(NetworkCommand::SendMessage { data });
        proof {
            lemma_offered(before, cmd, sent);
        }
        send_result(sent, WireError::ChannelFailure)
    }

    /// Asks for a new room named `name`. A refused request is reported as
    /// `ChannelFailure`.
    pub fn create_room(&mut self, name: String) -> (r: Result<(), WireError>)
        ensures
            final(self).channel() == old(self).channel(),
            offered(old(self).offers(), final(self).offers(), (NetworkCommand::CreateRoom { username: name })),
            r == send_result_spec(final(self).offers().last().1, WireError::ChannelFailure),
    {
        let ghost before = self.offers();
        let ghost cmd = NetworkCommand::CreateRoom { username: name };
        let sent = self.offer(NetworkCommand::CreateRoom { username: name });
        proof {
            lemma_offered(before, cmd, sent);
        }
        send_result(sent, WireError::ChannelFailure)
    }

    /// Asks for client `client_id` to join room `room_id`. A refused request
    /// is reported as `ChannelFailure`.
    pub fn join_room(&mut self, client_id: u64, room_id: u64) -> (r: Result<(), WireError>)
        ensures
            final(self).channel() == old(self).channel(),
            offered(old(self).offers(), final(self).offers(), (NetworkCommand::JoinRoom { client_id, room_id })),
            r == send_result_spec(final(self).offers().last().1, WireError::ChannelFailure),
    {
        let ghost before = self.offers();
        let ghost cmd = NetworkCommand::JoinRoom { client_id, room_id };
        let sent = self.offer(NetworkCommand::JoinRoom { client_id, room_id });
        proof {
            lemma_offered(before, cmd, sent);
        }
        send_result(sent, WireError::ChannelFailure)
    }
}

/// The counter value after one more id was handed out: the next value, or
/// zero after the largest, as an atomic `fetch_add` of one wraps.
pub open spec fn next_counter(c: u64) -> u64 {
    if c == u64::MAX {
        0
    } else {
        (c + 1) as u64
    }
}

/// The id handed out by the `i`-th call from a counter at `start`.
pub open spec fn nth_id(start: u64, i: nat) -> u64 {
    ((start + i) % 0x1_0000_0000_0000_0000) as u64
}

/// What the server keeps: the connected clients and the rooms, each by id,
/// and the next ids to hand out.
pub struct ServerState {
    pub clients: HashMap<u64, Client>,
    pub rooms: HashMap<u64, Room>,
    pub next_id: u64,
    pub next_room_id: u64,
}

impl ServerState {
    /// No clients, no rooms, both counters at zero.
    pub fn new() -> (r: Self)
        ensures
            r.clients@ == Map::<u64, Client>::empty(),
            r.rooms@ == Map::<u64, Room>::empty(),
            r.next_id == 0,
            r.next_room_id == 0,
    {
        ServerState {
            clients: HashMap::new(),
            rooms: HashMap::new(),
            next_id: 0,
            next_room_id: 0,
        }
    }

    /// Records `client` under its id, replacing any client with that id.
    pub fn register(&mut self, client: Client)
        ensures
            final(self).clients@ == old(self).clients@.insert(client.id, client),
            final(self).rooms@ == old(self).rooms@,
            final(self).next_id == old(self).next_id,
            final(self).next_room_id == old(self).next_room_id,
    {
        self.clients.insert(client.id, client);
    }

    /// Forgets the client with id `id`, if there is one.
    pub fn remove(&mut self, id: u64)
        ensures
            final(self).clients@ == old(self).clients@.remove(id),
            final(self).rooms@ == old(self).rooms@,
            final(self).next_id == old(self).next_id,
            final(self).next_room_id == old(self).next_room_id,
    {
        self.clients.remove(&id);
    }

    /// A copy of the client with id `id`, if there is one.
    pub fn get(&self, id: u64) -> (r: Option<Client>)
        ensures
            r is Some <==> self.clients@.contains_key(id),
            r matches Some(c) ==> c == self.clients@[id],
    {
        match self.clients.get(&id) {
            Some(c) => Some(c.duplicate()),
            None => None,
        }
    }

    /// Hands out the next client id.
    pub fn next_id(&mut self) -> (r: u64)
        ensures
            r == old(self).next_id,
            final(self).next_id == next_counter(old(self).next_id),
            final(self).next_room_id == old(self).next_room_id,
            final(self).clients@ == old(self).clients@,
            final(self).rooms@ == old(self).rooms@,
    {
        let r = self.next_id;
        self.next_id = self.next_id.wrapping_add(1);
        r
    }

    /// Hands out the next room id.
    pub fn next_room_id(&mut self) -> (r: u64)
        ensures
            r == old(self).next_room_id,
            final(self).next_room_id == next_counter(old(self).next_room_id),
            final(self).next_id == old(self).next_id,
            final(self).clients@ == old(self).clients@,
            final(self).rooms@ == old(self).rooms@,
    {
        let r = self.next_room_id;
        self.next_room_id = self.next_room_id.wrapping_add(1);
        r
    }
}

/// A registered client is found again under its id, with the identity it was
/// registered with, until it is removed.
pub proof fn law_register_then_get(clients: Map<u64, Client>, c: Client, other: u64)
    ensures
        clients.insert(c.id, c).contains_key(c.id),
        clients.insert(c.id, c)[c.id] == c,
        other != c.id ==> (clients.insert(c.id, c).contains_key(other) == clients.contains_key(
            other,
        )),
        !clients.insert(c.id, c).remove(c.id).contains_key(c.id),
{
}

/// The counter after one call stands where the second call's id is taken
/// from, so the `i`-th call hands out `nth_id(start, i)`.
pub proof fn law_counter_steps(start: u64, i: nat)
    ensures
        nth_id(start, 0) == start,
        nth_id(next_counter(start), i) == nth_id(start, i + 1),
{
    assert(nth_id(start, 0) == start);
    if start == u64::MAX {
        assert(((start + (i + 1)) % 0x1_0000_0000_0000_0000) == i % 0x1_0000_0000_0000_0000);
    }
}

/// Ids handed out by fewer than 2^64 consecutive calls are all different.
pub proof fn law_ids_distinct(start: u64, i: nat, j: nat)
    requires
        i < j < 0x1_0000_0000_0000_0000,
    ensures
        nth_id(start, i) != nth_id(start, j),
{
}

/// What one client keeps: itself, the peers and rooms it knows of, and the
/// channel to the interface.
pub struct ClientState {
    pub client: Client,
    pub clients: HashMap<u64, ClientInfo>,
    pub rooms: HashMap<u64, Room>,
    pub event_tx: Sender<NetworkEvent>,
}

impl ClientState {
    pub fn new(
        id: u64,
        username: String,
        cmd_tx: Option<Sender<ClientRequest>>,
        event_tx: Sender<NetworkEvent>,
        writer: Option<Sender<ServerEvent>>,
        ip: String,
        port: u16,
    ) -> (r: Self)
        ensures
            r.client.id == id,
            r.client.username == username,
            r.client.cmd_tx == cmd_tx,
            r.client.writer == writer,
            r.client.ip == ip,
            r.client.port == port,
            r.clients@ == Map::<u64, ClientInfo>::empty(),
            r.rooms@ == Map::<u64, Room>::empty(),
            r.event_tx == event_tx,
    {
        ClientState {
            client: Client::new(id, username, cmd_tx, writer, ip, port),
            clients: HashMap::new(),
            rooms: HashMap::new(),
            event_tx,
        }
    }

    /// A state for a client not yet known: id zero, empty name and address,
    /// no channels to tasks.
    pub fn default(event_tx: Sender<NetworkEvent>) -> (r: Self)
        ensures
            r.client.id == 0,
            r.client.username@ == Seq::<char>::empty(),
            r.client.cmd_tx is None,
            r.client.writer is None,
            r.client.ip@ == Seq::<char>::empty(),
            r.client.port == 0,
            r.clients@ == Map::<u64, ClientInfo>::empty(),
            r.rooms@ == Map::<u64, Room>::empty(),
            r.event_tx == event_tx,
    {
        Self::new(0, String::new(), None, event_tx, None, String::new(), 0)
    }

    /// Records `client` under its id, replacing any peer with that id.
    pub fn register(&mut self, client: ClientInfo)
        ensures
            final(self).clients@ == old(self).clients@.insert(client.id, client),
            final(self).client == old(self).client,
            final(self).rooms@ == old(self).rooms@,
            final(self).event_tx == old(self).event_tx,
    {
        self.clients.insert(client.id, client);
    }

    /// Forgets the peer with id `id`, if there is one.
    pub fn remove(&mut self, id: u64)
        ensures
            final(self).clients@ == old(self).clients@.remove(id),
            final(self).client == old(self).client,
            final(self).rooms@ == old(self).rooms@,
            final(self).event_tx == old(self).event_tx,
    {
        self.clients.remove(&id);
    }

    /// A copy of the peer with id `id`, if there is one.
    pub fn get(&self, id: u64) -> (r: Option<ClientInfo>)
        ensures
            r is Some <==> self.clients@.contains_key(id),
            r matches Some(c) ==> c == self.clients@[id],
    {
        match self.clients.get(&id) {
            Some(c) => Some(c.duplicate()),
            None => None,
        }
    }
}

} // verus!
