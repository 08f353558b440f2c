//! The rules of a client: what each interface command becomes, how the
//! handshake reads and writes, and which server events reach the interface.
use vstd::prelude::*;

use tokio::sync::mpsc::Sender;

use crate::error::WireError;
use crate::network::{ClientState, NetworkCommand, NetworkEvent};
use crate::network::server_side::handshake_username_spec;
use crate::text::{
    all_digits, decimal, is_ws, law_decimal_roundtrip, lemma_decimal_digits, parse_u64, parse_u64_spec,
    trim, trim_end, trim_start, trim_str,
};
use crate::types::{Client, ClientInfo, ClientRequest, InboxEntry, ServerEvent};

verus! {

broadcast use vstd::std_specs::hash::group_hash_axioms;

/// What the engine does with one command from the interface.
#[derive(Debug)]
pub enum CommandOutcome {
    /// Start a new client task under this name.
    Spawn { username: String },
    /// Pass this request to the client's writer task.
    Forward(ClientRequest),
    /// Report this error to the interface.
    Fail(WireError),
}

/// The request that a forwarded command becomes.
pub open spec fn forwarded_request(cmd: NetworkCommand) -> Option<ClientRequest> {
    match cmd {
        NetworkCommand::SpawnClient { .. } => None,
        NetworkCommand::SendMessage { data } => Some(ClientRequest::ChatMessage(data)),
        NetworkCommand::CreateRoom { username } => Some(ClientRequest::CreateRoom { username }),
        NetworkCommand::JoinRoom { client_id, room_id } => Some(
            ClientRequest::JoinRoom { client_id, room_id },
        ),
    }
}

/// What a command becomes: a spawn for `SpawnClient`; for the others, the
/// matching request when the client has a channel to its writer task, and
/// `ChannelNotFound` when it has none.
pub open spec fn dispatch_spec(has_channel: bool, cmd: NetworkCommand) -> CommandOutcome {
    match cmd {
        NetworkCommand::SpawnClient { username } => CommandOutcome::Spawn { username },
        _ => if has_channel {
            CommandOutcome::Forward(forwarded_request(cmd)->Some_0)
        } else {
            CommandOutcome::Fail(WireError::ChannelNotFound)
        },
    }
}

/// Decides what the engine does with a command for `client`.
pub fn dispatch_command(client: &Client, cmd: NetworkCommand) -> (r: CommandOutcome)
    ensures
        r == dispatch_spec(client.cmd_tx is Some, cmd),
{
    let has_channel = client.cmd_tx.is_some();
    match cmd {
        NetworkCommand::SpawnClient { username } => CommandOutcome::Spawn { username },
        NetworkCommand::SendMessage { data } => if has_channel {
            CommandOutcome::Forward(ClientRequest::ChatMessage(data))
        } else {
            CommandOutcome::Fail(WireError::ChannelNotFound)
        },
        NetworkCommand::CreateRoom { username } => if has_channel {
            CommandOutcome::Forward(ClientRequest::CreateRoom { username })
        } else {
            CommandOutcome::Fail(WireError::ChannelNotFound)
        },
        NetworkCommand::JoinRoom { client_id, room_id } => if has_channel {
            CommandOutcome::Forward(ClientRequest::JoinRoom { client_id, room_id })
        } else {
            CommandOutcome::Fail(WireError::ChannelNotFound)
        },
    }
}

/// The first line a client writes: its name and a newline.
pub fn handshake_line(username: &str) -> (r: String)
    ensures
        r@ == username@.push('\n'),
{
    proof {
        reveal_strlit("\n");
    }
    let r = String::from_str(username).concat("\n");
    assert(r@ =~= username@.push('\n'));
    r
}

/// The id the server answered with: its first line, trimmed of white space,
/// read as a decimal number.
pub fn parse_client_id(line: &str) -> (r: Option<u64>)
    ensures
        r == parse_u64_spec(trim(line@)),
{
    let t = trim_str(line);
    parse_u64(t.as_str())
}

/// The events that one server event raises on the interface: a received
/// message, one connection for each client announced, a disconnection, or a
/// new room. Events the interface does not show raise nothing.
pub open spec fn events_for_spec(ev: ServerEvent) -> Seq<NetworkEvent> {
    match ev {
        ServerEvent::ChatMessage(entry) => seq![NetworkEvent::MessageReceived(entry)],
        ServerEvent::PeerJoined(info) => seq![NetworkEvent::ClientConnected(info)],
        ServerEvent::Roster(clients) => clients@.map_values(
            |c| NetworkEvent::ClientConnected(c),
        ),
        ServerEvent::ClientDisconnected(id) => seq![NetworkEvent::ClientDisconnected { id }],
        ServerEvent::RoomCreated(room) => seq![NetworkEvent::RoomCreated { room }],
        _ => Seq::empty(),
    }
}

/// The interface events that one server event raises.
pub fn server_event_to_network_events(ev: ServerEvent) -> (r: Vec<NetworkEvent>)
    ensures
        r@ == events_for_spec(ev),
{
    let mut r: Vec<NetworkEvent> = Vec::new();
    match ev {
        ServerEvent::ChatMessage(entry) => {
            r.push(NetworkEvent::MessageReceived(entry));
        },
        ServerEvent::PeerJoined(info) => {
            r.push(NetworkEvent::ClientConnected(info));
        },
        ServerEvent::Roster(clients) => {
            let mut i: usize = 0;
            while i < clients.len()
                invariant
                    i <= clients@.len(),
                    r@ == clients@.subrange(0, i as int).map_values(
                        |c| NetworkEvent::ClientConnected(c),
                    ),
                decreases clients@.len() - i,
            {
                r.push(NetworkEvent::ClientConnected(clients[i].duplicate()));
                i = i + 1;
                assert(r@ =~= clients@.subrange(0, i as int).map_values(
                    |c| NetworkEvent::ClientConnected(c),
                ));
            }
            assert(clients@.subrange(0, clients@.len() as int) =~= clients@);
        },
        ServerEvent::ClientDisconnected(id) => {
            r.push(NetworkEvent::ClientDisconnected { id });
        },
        ServerEvent::RoomCreated(room) => {
            r.push(NetworkEvent::RoomCreated { room });
        },
        _ => {},
    }
    assert(r@ =~= events_for_spec(ev));
    r
}

/// The client reads back exactly the id that the server wrote in its
/// handshake reply.
pub proof fn law_handshake_id_roundtrip(id: u64)
    ensures
        parse_u64_spec(trim(decimal(id as nat).push('\n'))) == Some(id),
{
    let d = decimal(id as nat);
    let line = d.push('\n');
    lemma_decimal_digits(id as nat);
    assert(!is_ws(d[0]));
    assert(line[0] == d[0]);
    assert(!is_ws(d.last())) by {
        assert(all_digits(d));
        assert(d.last() == d[d.len() - 1]);
    }
    assert(trim_start(line) == line);
    assert(line.drop_last() =~= d);
    assert(trim_end(d) == d);
    assert(trim_end(line) == d);
    law_decimal_roundtrip(id);
}

/// The server reads back exactly the name a client wrote in its handshake
/// line, whenever the name is not empty and neither starts nor ends with
/// white space.
pub proof fn law_handshake_name_roundtrip(name: Seq<char>)
    requires
        name.len() > 0,
        !is_ws(name[0]),
        !is_ws(name.last()),
    ensures
        handshake_username_spec(name.push('\n')) == Ok::<Seq<char>, WireError>(name),
{
    let line = name.push('\n');
    assert(line[0] == name[0]);
    assert(trim_start(line) == line);
    assert(line.drop_last() =~= name);
    assert(is_ws(line.last()));
    assert(trim_end(line) == trim_end(name));
    assert(trim_end(name) == name);
}

impl ClientState {
    /// The client for the id the server answered with, once the handshake is
    /// done: the known peer with that id, with `cmd_tx` as the channel to its
    /// writer task, or `ClientNotFound` when no peer has that id.
    pub fn assign_client(&self, client_id: u64, cmd_tx: Sender<ClientRequest>) -> (r: Result<
        Client,
        WireError,
    >)
        ensures
            self.clients@.contains_key(client_id) <==> r is Ok,
            r matches Err(e) ==> e == WireError::ClientNotFound,
            r matches Ok(c) ==> {
                &&& c.id == self.clients@[client_id].id
                &&& c.username == self.clients@[client_id].username
                &&& c.ip == self.clients@[client_id].ip
                &&& c.port == self.clients@[client_id].port
                &&& c.cmd_tx == Some(cmd_tx)
                &&& c.writer is None
            },
    {
        match self.clients.get(&client_id) {
            Some(info) => Ok(
                Client::new(
                    info.id,
                    info.username.clone(),
                    Some(cmd_tx),
                    None,
                    info.ip.clone(),
                    info.port,
                ),
            ),
            None => Err(WireError::ClientNotFound),
        }
    }

    /// Takes up the identity the server gave this client in the handshake:
    /// records it among the known peers under `client_id`, with the name it
    /// connected under and the address it connects from, and makes it the
    /// client this process speaks through, with `cmd_tx` as the channel to
    /// its writer task.
    pub fn adopt_identity(
        &mut self,
        client_id: u64,
        username: String,
        ip: String,
        port: u16,
        cmd_tx: Sender<ClientRequest>,
    ) -> (r: Client)
        ensures
            final(self).clients@.contains_key(client_id),
            final(self).clients@[client_id].id == client_id,
            final(self).clients@[client_id].username == username,
            final(self).clients@[client_id].ip == ip,
            final(self).clients@[client_id].port == port,
            final(self).clients@.remove(client_id) == old(self).clients@.remove(client_id),
            r.id == client_id,
            r.username == username,
            r.ip == ip,
            r.port == port,
            r.cmd_tx == Some(cmd_tx),
            r.writer is None,
            final(self).client == r,
            final(self).rooms@ == old(self).rooms@,
            final(self).event_tx == old(self).event_tx,
    {
        let info = ClientInfo::new(client_id, username, ip, port);
        self.register(info);
        let client = match self.assign_client(client_id, cmd_tx) {
            Ok(c) => c,
            Err(_) => vstd::pervasive::unreached(),
        };
        self.client = client.duplicate();
        proof {
            assert(self.clients@.remove(client_id) =~= old(self).clients@.remove(client_id));
        }
        client
    }
}

/// What the server says reaches the interface unaltered: a chat message
/// raises exactly one received message, the very entry sent (same sender,
/// receiver, text, time and kind); a peer that joined raises exactly its own
/// connection; a disconnection raises exactly the disconnection of that id;
/// a roster raises one connection per client listed, in order.
pub proof fn law_server_events_passed_on(entry: InboxEntry, info: ClientInfo, id: u64, roster: Vec<ClientInfo>)
    ensures
        events_for_spec(ServerEvent::ChatMessage(entry)).len() == 1,
        events_for_spec(ServerEvent::ChatMessage(entry))[0] == NetworkEvent::MessageReceived(entry),
        events_for_spec(ServerEvent::PeerJoined(info)) == seq![NetworkEvent::ClientConnected(info)],
        events_for_spec(ServerEvent::ClientDisconnected(id)) == seq![(NetworkEvent::ClientDisconnected { id })],
        events_for_spec(ServerEvent::Roster(roster)).len() == roster@.len(),
        forall|i: int|
            0 <= i < roster@.len() ==> #[trigger] events_for_spec(ServerEvent::Roster(roster))[i]
                == NetworkEvent::ClientConnected(roster@[i]),
{
}

/// A command from the interface reaches the server as asked: with a channel
/// to the writer task, a message goes as the very entry given (same
/// receiver, kind, sender, text and time), and a room or a join as the name
/// or the ids given; without a channel each of them fails as
/// `ChannelNotFound`. A spawn always starts a client under the name given.
pub proof fn law_commands_forwarded_unchanged(
    data: InboxEntry,
    name: String,
    client_id: u64,
    room_id: u64,
    has_channel: bool,
)
    ensures
        dispatch_spec(true, (NetworkCommand::SendMessage { data })) == CommandOutcome::Forward(
            ClientRequest::ChatMessage(data),
        ),
        dispatch_spec(true, (NetworkCommand::CreateRoom { username: name })) == CommandOutcome::Forward(
            (ClientRequest::CreateRoom { username: name }),
        ),
        dispatch_spec(true, (NetworkCommand::JoinRoom { client_id, room_id })) == CommandOutcome::Forward(
            (ClientRequest::JoinRoom { client_id, room_id }),
        ),
        dispatch_spec(false, (NetworkCommand::SendMessage { data })) == CommandOutcome::Fail(
            WireError::ChannelNotFound,
        ),
        dispatch_spec(false, (NetworkCommand::CreateRoom { username: name })) == CommandOutcome::Fail(
            WireError::ChannelNotFound,
        ),
        dispatch_spec(false, (NetworkCommand::JoinRoom { client_id, room_id })) == CommandOutcome::Fail(
            WireError::ChannelNotFound,
        ),
        dispatch_spec(has_channel, (NetworkCommand::SpawnClient { username: name })) == (
        CommandOutcome::Spawn { username: name }),
{
}

} // verus!
