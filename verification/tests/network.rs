use alyson::network::client_side::{
    dispatch_command, handshake_line, parse_client_id, server_event_to_network_events,
    CommandOutcome,
};
use alyson::network::server_side::{error_event, handshake_reply, handshake_username};
use alyson::network::{ClientState, NetworkCommand, NetworkEvent, NetworkHandle, ServerState};
use alyson::types::{Client, ClientInfo, ClientRequest, InboxEntry, Room, ServerEvent};
use alyson::WireError;

fn entry(from: u64, to: u64, to_client: bool) -> InboxEntry {
    InboxEntry::new(1, "m".to_string(), from, to, to_client)
}

#[test]
fn handle_maps_refusals_to_errors() {
    let (tx, mut rx) = tokio::sync::mpsc::channel::<NetworkCommand>(1);
    let mut h = NetworkHandle::new(tx);
    assert_eq!(h.spawn_client("a".to_string()), Ok(()));
    // The channel holds one command: the next ones are refused.
    assert_eq!(h.spawn_client("b".to_string()), Err(WireError::PortNotAvailable));
    assert_eq!(h.create_room("r".to_string()), Err(WireError::ChannelFailure));
    assert_eq!(h.join_room(1, 2), Err(WireError::ChannelFailure));
    assert_eq!(h.send_message(entry(1, 2, true)), Err(WireError::ChannelFailure));
    match rx.try_recv() {
        Ok(NetworkCommand::SpawnClient { username }) => assert_eq!(username, "a"),
        other => panic!("unexpected {:?}", other),
    }
    assert_eq!(h.join_room(3, 4), Ok(()));
    match rx.try_recv() {
        Ok(NetworkCommand::JoinRoom { client_id, room_id }) => assert_eq!((client_id, room_id), (3, 4)),
        other => panic!("unexpected {:?}", other),
    }
    drop(rx);
    assert_eq!(h.create_room("r".to_string()), Err(WireError::ChannelFailure));
}

#[test]
fn server_hands_out_increasing_ids() {
    let mut s = ServerState::new();
    assert_eq!(s.next_id(), 0);
    assert_eq!(s.next_id(), 1);
    assert_eq!(s.next_room_id(), 0);
    assert_eq!(s.next_id, 2);
    s.next_id = u64::MAX;
    assert_eq!(s.next_id(), u64::MAX);
    assert_eq!(s.next_id(), 0);
}

#[test]
fn server_register_get_remove() {
    let mut s = ServerState::new();
    let c = Client::new(5, "bob".to_string(), None, None, "1.2.3.4".to_string(), 99);
    s.register(c);
    let got = s.get(5).unwrap();
    assert_eq!(got.username, "bob");
    assert_eq!(got.port, 99);
    assert!(s.get(6).is_none());
    s.remove(5);
    assert!(s.get(5).is_none());
}

#[test]
fn newcomers_get_ids_and_are_announced() {
    let mut s = ServerState::new();
    let (tx, _rx) = tokio::sync::mpsc::channel::<ServerEvent>(4);
    let a = s.accept_newcomer("alice".to_string(), "10.0.0.1".to_string(), 1, tx.clone());
    let b = s.accept_newcomer("bob".to_string(), "10.0.0.2".to_string(), 2, tx);
    assert_eq!((a.id, b.id), (0, 1));
    assert_eq!(a.username, "alice");
    s.register(Client::new(7, "quiet".to_string(), None, None, String::new(), 0));
    let mut told = s.peer_joined_recipients();
    told.sort();
    assert_eq!(told, vec![0, 1]);
    assert!(s.get(1).unwrap().writer.is_some());
}

#[test]
fn chat_goes_to_the_addressed_client_or_room() {
    let mut s = ServerState::new();
    for id in [1u64, 2, 3] {
        s.register(Client::new(id, format!("c{}", id), None, None, String::new(), 0));
    }
    assert_eq!(s.chat_recipients(&entry(1, 2, true)), vec![2]);
    assert_eq!(s.chat_recipients(&entry(1, 9, true)), Vec::<u64>::new());
    let mut room = Room::new(40, "r".to_string());
    room.add_member(1);
    room.add_member(3);
    room.add_member(8);
    s.rooms.insert(40, room);
    let mut to_room = s.chat_recipients(&entry(1, 40, false));
    to_room.sort();
    assert_eq!(to_room, vec![1, 3]);
    assert_eq!(s.chat_recipients(&entry(1, 41, false)), Vec::<u64>::new());
    let req = ClientRequest::ChatMessage(entry(3, 1, true));
    assert_eq!(s.route_request(&req), vec![1]);
    let other = ClientRequest::CreateRoom { username: "x".to_string() };
    assert_eq!(s.route_request(&other), Vec::<u64>::new());
}

#[test]
fn handshake_name_is_trimmed_and_required() {
    assert_eq!(handshake_username("  alice \n"), Ok("alice".to_string()));
    assert_eq!(handshake_username(" \t\n"), Err(WireError::InvalidName));
    assert_eq!(handshake_username(""), Err(WireError::InvalidName));
}

#[test]
fn handshake_roundtrip() {
    let line = handshake_line("carol");
    assert_eq!(line, "carol\n");
    assert_eq!(handshake_username(&line), Ok("carol".to_string()));
    let reply = handshake_reply(1234);
    assert_eq!(reply, "1234\n");
    assert_eq!(parse_client_id(&reply), Some(1234));
    assert_eq!(parse_client_id(" 12\r\n"), Some(12));
    assert_eq!(parse_client_id("abc"), None);
}

#[test]
fn error_event_carries_the_text() {
    match error_event(&WireError::PayloadTooLarge) {
        ServerEvent::Error(s) => assert_eq!(s, "payload too large"),
        other => panic!("unexpected {:?}", other),
    }
}

#[test]
fn commands_become_requests_only_with_a_channel() {
    let (tx, _rx) = tokio::sync::mpsc::channel::<ClientRequest>(1);
    let with = Client::new(1, "a".to_string(), Some(tx), None, String::new(), 0);
    let without = Client::new(1, "a".to_string(), None, None, String::new(), 0);
    match dispatch_command(&without, NetworkCommand::SpawnClient { username: "n".to_string() }) {
        CommandOutcome::Spawn { username } => assert_eq!(username, "n"),
        other => panic!("unexpected {:?}", other),
    }
    match dispatch_command(&with, NetworkCommand::JoinRoom { client_id: 1, room_id: 2 }) {
        CommandOutcome::Forward(ClientRequest::JoinRoom { client_id, room_id }) => {
            assert_eq!((client_id, room_id), (1, 2))
        }
        other => panic!("unexpected {:?}", other),
    }
    match dispatch_command(&with, NetworkCommand::CreateRoom { username: "r".to_string() }) {
        CommandOutcome::Forward(ClientRequest::CreateRoom { username }) => assert_eq!(username, "r"),
        other => panic!("unexpected {:?}", other),
    }
    match dispatch_command(&with, NetworkCommand::SendMessage { data: entry(1, 2, true) }) {
        CommandOutcome::Forward(ClientRequest::ChatMessage(e)) => assert_eq!(e.to, 2),
        other => panic!("unexpected {:?}", other),
    }
    match dispatch_command(&without, NetworkCommand::SendMessage { data: entry(1, 2, true) }) {
        CommandOutcome::Fail(e) => assert_eq!(e, WireError::ChannelNotFound),
        other => panic!("unexpected {:?}", other),
    }
}

#[test]
fn server_events_reach_the_interface() {
    let info = |id: u64| ClientInfo::new(id, format!("c{}", id), String::new(), 0);
    let evs = server_event_to_network_events(ServerEvent::Roster(vec![info(1), info(2)]));
    assert_eq!(evs.len(), 2);
    match &evs[1] {
        NetworkEvent::ClientConnected(c) => assert_eq!(c.id, 2),
        other => panic!("unexpected {:?}", other),
    }
    let evs = server_event_to_network_events(ServerEvent::ClientDisconnected(4));
    assert!(matches!(evs.as_slice(), [NetworkEvent::ClientDisconnected { id: 4 }]));
    let evs = server_event_to_network_events(ServerEvent::ChatMessage(entry(1, 2, true)));
    assert!(matches!(evs.as_slice(), [NetworkEvent::MessageReceived(_)]));
    let evs = server_event_to_network_events(ServerEvent::PeerJoined(info(3)));
    assert!(matches!(evs.as_slice(), [NetworkEvent::ClientConnected(_)]));
    assert!(server_event_to_network_events(ServerEvent::Welcome { id: 1 }).is_empty());
    assert!(server_event_to_network_events(ServerEvent::Error("e".to_string())).is_empty());
}

#[test]
fn client_state_assigns_known_clients_only() {
    let (etx, _erx) = tokio::sync::mpsc::channel::<NetworkEvent>(1);
    let mut st = ClientState::default(etx);
    assert_eq!(st.client.id, 0);
    assert!(st.client.cmd_tx.is_none());
    let (ctx, _crx) = tokio::sync::mpsc::channel::<ClientRequest>(1);
    assert!(matches!(st.assign_client(3, ctx.clone()), Err(WireError::ClientNotFound)));
    st.register(ClientInfo::new(3, "dan".to_string(), "h".to_string(), 5));
    assert_eq!(st.get(3).unwrap().username, "dan");
    let c = st.assign_client(3, ctx).unwrap();
    assert_eq!((c.id, c.port), (3, 5));
    assert!(c.cmd_tx.is_some() && c.writer.is_none());
    st.remove(3);
    assert!(st.get(3).is_none());
}

#[test]
fn adopting_an_identity_records_and_selects_it() {
    let (etx, _erx) = tokio::sync::mpsc::channel::<NetworkEvent>(1);
    let mut st = ClientState::default(etx);
    st.register(ClientInfo::new(1, "old".to_string(), "h".to_string(), 1));
    let (ctx, _crx) = tokio::sync::mpsc::channel::<ClientRequest>(1);
    let c = st.adopt_identity(7, "eve".to_string(), "127.0.0.1".to_string(), 4000, ctx);
    assert_eq!((c.id, c.username.as_str(), c.ip.as_str(), c.port), (7, "eve", "127.0.0.1", 4000));
    assert!(c.cmd_tx.is_some() && c.writer.is_none());
    let own = st.get(7).unwrap();
    assert_eq!((own.id, own.username.as_str(), own.ip.as_str(), own.port), (7, "eve", "127.0.0.1", 4000));
    assert_eq!(st.get(1).unwrap().username, "old");
    assert_eq!(st.client.id, 7);
    assert!(st.client.cmd_tx.is_some());
}

#[test]
fn server_get_hands_back_the_same_channel() {
    let mut s = ServerState::new();
    let (tx, _rx) = tokio::sync::mpsc::channel::<ServerEvent>(1);
    s.register(Client::new(5, "bob".to_string(), None, Some(tx.clone()), String::new(), 0));
    let (other, _orx) = tokio::sync::mpsc::channel::<ServerEvent>(1);
    s.register(Client::new(6, "eve".to_string(), None, Some(other), String::new(), 0));
    let got = s.get(5).unwrap();
    assert!(got.writer.unwrap().same_channel(&tx));
    assert!(!s.get(6).unwrap().writer.unwrap().same_channel(&tx));
}

#[test]
fn rooms_are_opened_joined_and_announced() {
    let mut s = ServerState::new();
    let (tx, _rx) = tokio::sync::mpsc::channel::<ServerEvent>(8);
    let a = s.accept_newcomer("alice".to_string(), "h".to_string(), 1, tx.clone());
    let b = s.accept_newcomer("bob".to_string(), "h".to_string(), 2, tx);
    s.register(Client::new(9, "quiet".to_string(), None, None, String::new(), 0));
    let (ev, mut to) = s.handle_request(a.id, ClientRequest::CreateRoom { username: "lobby".to_string() });
    to.sort();
    assert_eq!(to, vec![a.id, b.id]);
    let room_id = match ev {
        Some(ServerEvent::RoomCreated(room)) => {
            assert_eq!(room.username, "lobby");
            assert!(room.is_member(a.id) && !room.is_member(b.id));
            room.id
        }
        other => panic!("unexpected {:?}", other),
    };
    assert_eq!(room_id, 0);
    assert_eq!(s.next_room_id, 1);
    let mut to_room = s.chat_recipients(&entry(b.id, room_id, false));
    to_room.sort();
    assert_eq!(to_room, vec![a.id]);

    let (ev, mut to) = s.handle_request(b.id, ClientRequest::JoinRoom { client_id: b.id, room_id });
    to.sort();
    assert_eq!(to, vec![a.id, b.id]);
    match ev {
        Some(ServerEvent::RoomJoined(room)) => {
            assert_eq!(room.id, room_id);
            assert!(room.is_member(a.id) && room.is_member(b.id));
        }
        other => panic!("unexpected {:?}", other),
    }
    let mut to_room = s.chat_recipients(&entry(a.id, room_id, false));
    to_room.sort();
    assert_eq!(to_room, vec![a.id, b.id]);

    let (ev, to) = s.handle_request(b.id, ClientRequest::JoinRoom { client_id: b.id, room_id: 77 });
    assert!(ev.is_none() && to.is_empty());
    assert!(!s.enter_room(b.id, 77));

    let (ev, to) = s.handle_request(a.id, ClientRequest::ChatMessage(entry(a.id, b.id, true)));
    assert!(matches!(ev, Some(ServerEvent::ChatMessage(_))));
    assert_eq!(to, vec![b.id]);
    assert_eq!(s.open_room("second".to_string(), 9), 1);
}

#[test]
fn a_new_room_reaches_the_interface() {
    let evs = server_event_to_network_events(ServerEvent::RoomCreated(Room::new(3, "r".to_string())));
    match evs.as_slice() {
        [NetworkEvent::RoomCreated { room }] => assert_eq!((room.id, room.username.as_str()), (3, "r")),
        other => panic!("unexpected {:?}", other),
    }
    assert!(server_event_to_network_events(ServerEvent::RoomJoined(Room::new(3, "r".to_string()))).is_empty());
}

#[test]
fn events_are_copied_whole() {
    let mut room = Room::new(4, "r".to_string());
    room.add_member(2);
    match ServerEvent::RoomJoined(room).duplicate() {
        ServerEvent::RoomJoined(r) => assert!(r.id == 4 && r.username == "r" && r.is_member(2) && !r.is_member(3)),
        other => panic!("unexpected {:?}", other),
    }
    let info = ClientInfo::new(1, "a".to_string(), "h".to_string(), 5);
    match ServerEvent::Roster(vec![info]).duplicate() {
        ServerEvent::Roster(v) => assert_eq!((v.len(), v[0].id, v[0].port), (1, 1, 5)),
        other => panic!("unexpected {:?}", other),
    }
    match ServerEvent::ChatMessage(entry(1, 2, true)).duplicate() {
        ServerEvent::ChatMessage(e) => assert_eq!(e, entry(1, 2, true)),
        other => panic!("unexpected {:?}", other),
    }
}
