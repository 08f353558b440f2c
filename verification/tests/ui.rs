use alyson::network::{NetworkCommand, NetworkEvent, NetworkHandle};
use alyson::types::{ClientInfo, InboxEntry, Room};
use alyson::ui::app::{
    ActionState, App, ClientSummary, CurrentWindow, DashBoardView, Focus, InputMode, Key,
    LoopControl, Screen, SubmitOutcome,
};
use alyson::ui::dashboard::{bubble_rows, wrap_text};
use alyson::ui::handle_basic_inputting;
use alyson::ui::ui::toast_area;
use alyson::ui::InputResult;
use alyson::WireError;

fn summary(id: usize, name: &str) -> ClientSummary {
    ClientSummary { id, name: name.to_string(), ip: "127.0.0.1".to_string(), port: 1000 + id as u16 }
}

fn handle() -> (NetworkHandle, tokio::sync::mpsc::Receiver<NetworkCommand>) {
    let (tx, rx) = tokio::sync::mpsc::channel(8);
    (NetworkHandle::new(tx), rx)
}

#[test]
fn app_starts_on_home() {
    let a = App::new();
    assert_eq!(a.screen, Screen::Home);
    assert_eq!(a.focus, Focus::NoFocus);
    assert_eq!(a.input_mode, InputMode::Selecting);
    assert_eq!(a.action_state, ActionState::NoAction);
    assert_eq!(a.selected.option_selected, 0);
    assert!(a.clients.is_empty() && a.errors.is_empty() && a.inboxes.is_empty());
}

#[test]
fn home_keys() {
    let (mut h, _rx) = handle();
    let mut a = App::new();
    assert_eq!(a.handle_key(Key::Up, &mut h, 0), Ok(LoopControl::Proceed));
    assert_eq!(a.selected.option_selected, 0);
    a.handle_key(Key::Down, &mut h, 0).unwrap();
    a.handle_key(Key::Down, &mut h, 0).unwrap();
    assert_eq!(a.selected.option_selected, 1);
    assert_eq!(a.handle_key(Key::Enter, &mut h, 0), Ok(LoopControl::Quit));
    a.handle_key(Key::Up, &mut h, 0).unwrap();
    assert_eq!(a.handle_key(Key::Char('e'), &mut h, 42), Ok(LoopControl::Proceed));
    assert_eq!(a.errors, vec![(42, WireError::HandshakeFailed("test error".to_string()))]);
    assert_eq!(a.handle_key(Key::Enter, &mut h, 0), Ok(LoopControl::Proceed));
    assert_eq!(a.screen, Screen::Dashboard);
    assert_eq!(a.focus, Focus::ClientList);
    assert_eq!(a.handle_key(Key::Char('q'), &mut h, 0), Ok(LoopControl::Quit));
}

#[test]
fn client_list_navigation() {
    let mut a = App::new();
    a.screen = Screen::Dashboard;
    a.focus = Focus::ClientList;
    a.clients = vec![summary(10, "a"), summary(11, "b")];
    a.handle_dashboard_events(Key::Down);
    assert_eq!(a.selected.client_selected, Some(1));
    a.handle_dashboard_events(Key::Enter);
    assert_eq!(a.dashboard_view, DashBoardView::ClientView(11, CurrentWindow::ActionList));
    a.handle_dashboard_events(Key::Up);
    assert_eq!(a.selected.client_selected, Some(0));
    a.handle_dashboard_events(Key::Up);
    assert_eq!(a.selected.client_selected, Some(0));
    a.handle_dashboard_events(Key::Down);
    a.handle_dashboard_events(Key::Down);
    assert_eq!(a.focus, Focus::ClientOption);
    assert_eq!(a.selected.client_selected, None);
    assert_eq!(a.selected.cli_opt_selected, Some(0));
    a.handle_dashboard_events(Key::Down);
    assert_eq!(a.selected.cli_opt_selected, Some(1));
    a.handle_dashboard_events(Key::Down);
    assert_eq!(a.selected.cli_opt_selected, Some(1));
    a.handle_dashboard_events(Key::Up);
    a.handle_dashboard_events(Key::Up);
    assert_eq!(a.focus, Focus::ClientList);
    assert_eq!(a.selected.client_selected, Some(1));
}

#[test]
fn new_client_option_starts_typing() {
    let mut a = App::new();
    a.focus = Focus::ClientOption;
    a.selected.cli_opt_selected = Some(0);
    a.buf.new_client_name = "old".to_string();
    a.handle_dashboard_events(Key::Enter);
    assert_eq!(a.input_mode, InputMode::Typing);
    assert_eq!(a.buf.new_client_name, "");
}

#[test]
fn actions_open_the_inbox() {
    let mut a = App::new();
    a.focus = Focus::ClientList;
    a.dashboard_view = DashBoardView::ClientView(3, CurrentWindow::ActionList);
    a.selected.client_selected = Some(0);
    a.handle_dashboard_events(Key::Right);
    assert_eq!(a.focus, Focus::ActionList);
    assert_eq!(a.selected.action_selected, Some(0));
    assert_eq!(a.selected.client_selected, None);
    a.handle_dashboard_events(Key::Down);
    a.handle_dashboard_events(Key::Down);
    a.handle_dashboard_events(Key::Down);
    assert_eq!(a.selected.action_selected, Some(2));
    a.handle_dashboard_events(Key::Up);
    a.handle_dashboard_events(Key::Up);
    a.handle_dashboard_events(Key::Enter);
    assert_eq!(a.action_state, ActionState::SendMessage);
    assert_eq!(a.focus, Focus::InboxCli);
    assert_eq!(a.dashboard_view, DashBoardView::ClientView(3, CurrentWindow::Inbox));
    assert_eq!(a.selected.inbox_cli_selected, Some(0));
    a.handle_dashboard_events(Key::Left);
    assert_eq!(a.focus, Focus::ClientList);
    assert_eq!(a.selected.client_selected, Some(0));
    assert_eq!(a.selected.inbox_cli_selected, None);
}

#[test]
fn basic_inputting() {
    let mut s = "ab".to_string();
    assert_eq!(handle_basic_inputting(&mut s, Key::Char('c')), InputResult::Continue);
    assert_eq!(s, "abc");
    assert_eq!(handle_basic_inputting(&mut s, Key::Backspace), InputResult::Continue);
    assert_eq!(s, "ab");
    assert_eq!(handle_basic_inputting(&mut s, Key::Enter), InputResult::Submitted);
    assert_eq!(s, "ab");
    assert_eq!(handle_basic_inputting(&mut s, Key::Left), InputResult::Continue);
    assert_eq!(handle_basic_inputting(&mut s, Key::Esc), InputResult::Cancelled);
    assert_eq!(s, "");
    assert_eq!(handle_basic_inputting(&mut s, Key::Backspace), InputResult::Continue);
    assert_eq!(s, "");
}

#[test]
fn typing_a_client_name_spawns_it() {
    let (mut h, mut rx) = handle();
    let mut a = App::new();
    a.input_mode = InputMode::Typing;
    for c in "  eve ".chars() {
        assert_eq!(a.handle_key(Key::Char(c), &mut h, 0), Ok(LoopControl::NextRound));
    }
    assert_eq!(a.buf.new_client_name, "  eve ");
    assert_eq!(a.handle_key(Key::Enter, &mut h, 0), Ok(LoopControl::NextRound));
    assert_eq!(a.input_mode, InputMode::Selecting);
    assert_eq!(a.buf.new_client_name, "");
    match rx.try_recv() {
        Ok(NetworkCommand::SpawnClient { username }) => assert_eq!(username, "eve"),
        other => panic!("unexpected {:?}", other),
    }
}

#[test]
fn escape_cancels_typing() {
    let (mut h, _rx) = handle();
    let mut a = App::new();
    a.input_mode = InputMode::Typing;
    a.action_state = ActionState::CreateChatRoom;
    a.handle_key(Key::Char('r'), &mut h, 0).unwrap();
    assert_eq!(a.buf.new_room_name, "r");
    a.handle_key(Key::Esc, &mut h, 0).unwrap();
    assert_eq!(a.buf.new_room_name, "");
    assert_eq!(a.action_state, ActionState::NoAction);
    assert_eq!(a.input_mode, InputMode::Selecting);
}

#[test]
fn a_refused_spawn_keeps_the_name() {
    let (tx, rx) = tokio::sync::mpsc::channel::<NetworkCommand>(1);
    drop(rx);
    let mut h = NetworkHandle::new(tx);
    let mut a = App::new();
    a.buf.new_client_name = "zed".to_string();
    assert_eq!(a.advance_action(&mut h, 0), Err(WireError::PortNotAvailable));
    assert_eq!(a.buf.new_client_name, "zed");
    assert_eq!(a.input_mode, InputMode::Selecting);
}

#[test]
fn sending_a_message() {
    let (mut h, mut rx) = handle();
    let mut a = App::new();
    a.action_state = ActionState::SendMessage;
    a.buf.msg_to_client = " hi ".to_string();
    a.messages_scroll = 4;
    assert_eq!(a.advance_action(&mut h, 7), Ok(()));
    assert_eq!(a.errors, vec![(7, WireError::SenderNotFound)]);
    assert_eq!(a.buf.msg_to_client, " hi ");
    a.current_clients = (Some(1), None);
    a.advance_action(&mut h, 8).unwrap();
    assert_eq!(a.errors[1], (8, WireError::ReceiverNotFound));
    a.current_clients = (Some(1), Some(2));
    a.advance_action(&mut h, 9).unwrap();
    assert_eq!(a.errors.len(), 2);
    assert_eq!(a.messages_scroll, 0);
    assert_eq!(a.buf.msg_to_client, "");
    match rx.try_recv() {
        Ok(NetworkCommand::SendMessage { data }) => {
            assert_eq!(data, InboxEntry::new(9, "hi".to_string(), 1, 2, true));
        }
        other => panic!("unexpected {:?}", other),
    }
    a.action_state = ActionState::SendMessageToRoom;
    a.current_room = Some(30);
    a.buf.msg_to_client = "all".to_string();
    a.advance_action(&mut h, 10).unwrap();
    match rx.try_recv() {
        Ok(NetworkCommand::SendMessage { data }) => {
            assert_eq!(data, InboxEntry::new(10, "all".to_string(), 1, 30, false));
        }
        other => panic!("unexpected {:?}", other),
    }
}

#[test]
fn input_targets() {
    let mut a = App::new();
    a.current_input_mut().unwrap().push('x');
    assert_eq!(a.buf.new_client_name, "x");
    a.action_state = ActionState::SendMessageToRoom;
    a.current_input_mut().unwrap().push('y');
    assert_eq!(a.buf.msg_to_client, "y");
    a.action_state = ActionState::CreateChatRoom;
    a.current_input_mut().unwrap().push('z');
    assert_eq!(a.buf.new_room_name, "z");
    a.action_state = ActionState::JoinChatRoom;
    assert!(a.current_input_mut().is_none());
}

#[test]
fn verify_client_by_name() {
    let mut a = App::new();
    a.clients = vec![summary(4, "amy"), summary(5, "ben"), summary(6, "amy")];
    assert_eq!(a.verify_client("amy".to_string()), Ok(4));
    assert_eq!(a.verify_client("ben".to_string()), Ok(5));
    assert_eq!(a.verify_client("cat".to_string()), Err(WireError::InvalidName));
    assert_eq!(a.verify_client(String::new()), Err(WireError::InvalidName));
}

#[test]
fn room_membership_of_the_sender() {
    let mut a = App::new();
    let mut r = alyson::types::Room::new(2, "r".to_string());
    r.add_member(7);
    a.rooms.push(r);
    assert!(!a.verify_current_room_member());
    a.current_room = Some(2);
    assert!(!a.verify_current_room_member());
    a.current_clients = (Some(7), None);
    assert!(a.verify_current_room_member());
    a.current_clients = (Some(8), None);
    assert!(!a.verify_current_room_member());
}

#[test]
fn network_events_update_the_screen() {
    let mut a = App::new();
    a.apply_network_event(NetworkEvent::ClientConnected(ClientInfo::new(1, "a".to_string(), "h".to_string(), 9)), 0);
    a.apply_network_event(NetworkEvent::ClientConnected(ClientInfo::new(2, "b".to_string(), "h".to_string(), 9)), 0);
    assert_eq!(a.clients.len(), 2);
    assert_eq!(a.clients[1].name, "b");
    a.dashboard_view = DashBoardView::ClientView(1, CurrentWindow::ActionList);
    a.apply_network_event(NetworkEvent::ClientDisconnected { id: 1 }, 0);
    assert_eq!(a.clients.len(), 1);
    assert_eq!(a.clients[0].id, 2);
    assert_eq!(a.dashboard_view, DashBoardView::Idle);
    a.apply_network_event(NetworkEvent::MessageReceived(InboxEntry::new(1, "m".to_string(), 1, 2, true)), 0);
    assert_eq!(a.inboxes.len(), 1);
    a.apply_network_event(NetworkEvent::ErrorOccurred(WireError::Disconnected), 55);
    assert_eq!(a.errors, vec![(55, WireError::Disconnected)]);
    a.apply_network_event(NetworkEvent::JoinedRoom { client_id: 1, room_id: 2 }, 0);
    assert_eq!(a.clients.len(), 1);
}

#[test]
fn old_errors_are_pruned() {
    let mut a = App::new();
    a.errors = vec![(0, WireError::Disconnected), (3_000_000_000, WireError::InvalidName), (9_000_000_000, WireError::InvalidArgs)];
    a.prune_errors(6_000_000_000);
    assert_eq!(a.errors, vec![(3_000_000_000, WireError::InvalidName), (9_000_000_000, WireError::InvalidArgs)]);
    a.prune_errors(7_999_999_999);
    assert_eq!(a.errors.len(), 2);
    a.prune_errors(8_000_000_000);
    assert_eq!(a.errors, vec![(9_000_000_000, WireError::InvalidArgs)]);
}

#[test]
fn conversation_in_time_order() {
    let mut a = App::new();
    a.inboxes = vec![
        InboxEntry::new(30, "c".to_string(), 1, 2, true),
        InboxEntry::new(10, "a".to_string(), 2, 1, true),
        InboxEntry::new(20, "x".to_string(), 1, 3, true),
        InboxEntry::new(10, "b".to_string(), 1, 2, true),
    ];
    assert_eq!(a.conversation(1, 2), vec![1, 3, 0]);
    assert_eq!(a.conversation(3, 1), vec![2]);
    assert_eq!(a.conversation(4, 5), Vec::<usize>::new());
}

#[test]
fn scroll_window_is_clamped() {
    let mut a = App::new();
    assert_eq!(a.scroll_window(10, 4), (6, 10));
    a.messages_scroll = 3;
    assert_eq!(a.scroll_window(10, 4), (3, 7));
    a.messages_scroll = 100;
    assert_eq!(a.scroll_window(10, 4), (0, 4));
    assert_eq!(a.messages_scroll, 6);
    assert_eq!(a.scroll_window(2, 4), (0, 2));
    assert_eq!(a.messages_scroll, 0);
}

#[test]
fn inbox_receiver_skips_the_sender() {
    let mut a = App::new();
    a.clients = vec![summary(1, "a"), summary(2, "b"), summary(3, "c")];
    a.current_clients = (Some(2), None);
    a.selected.inbox_cli_selected = Some(1);
    a.select_inbox_receiver();
    assert_eq!(a.current_clients, (Some(2), Some(3)));
    a.selected.inbox_cli_selected = Some(2);
    a.select_inbox_receiver();
    assert_eq!(a.current_clients, (Some(2), Some(3)));
}

#[test]
fn wrap_text_greedy() {
    assert_eq!(wrap_text("the quick brown fox", 9), vec!["the quick", "brown fox"]);
    assert_eq!(wrap_text("  spaced   out  ", 40), vec!["spaced out"]);
    assert_eq!(wrap_text("", 5), vec![""]);
    assert_eq!(wrap_text("   ", 5), vec![""]);
    assert_eq!(wrap_text("abcdefgh ij", 4), vec!["abcdefgh", "ij"]);
    assert_eq!(wrap_text("é é", 4), vec!["é", "é"]);
    assert_eq!(wrap_text("é é", 5), vec!["é é"]);
}

#[test]
fn bubble_rows_frame_the_text() {
    let rows = bubble_rows("hi there", 5);
    assert_eq!(
        rows,
        vec![
            "┌───────┐".to_string(),
            "│ hi    │".to_string(),
            "│ there │".to_string(),
            "└───────┘".to_string(),
        ]
    );
    let rows = bubble_rows("", 10);
    assert_eq!(rows, vec!["┌──┐".to_string(), "│  │".to_string(), "└──┘".to_string()]);
}

#[test]
fn toast_sits_top_right() {
    let t = toast_area(100);
    assert_eq!((t.x, t.y, t.width, t.height), (60, 0, 40, 3));
    let t = toast_area(30);
    assert_eq!((t.x, t.y, t.width, t.height), (0, 0, 30, 3));
}

#[test]
fn wrapping_keeps_the_words_and_the_width() {
    let text = "  lorem ipsum dolor\tsit amet, consectetur   adipiscing elit supercalifragilistic ";
    for max in [0usize, 3, 8, 12, 30, 200] {
        let lines = wrap_text(text, max);
        let words: Vec<&str> = text.split_whitespace().collect();
        assert_eq!(lines.join(" "), words.join(" "));
        for l in &lines {
            assert!(l.len() <= max || words.contains(&l.as_str()), "{:?} at {}", l, max);
        }
    }
}

#[test]
fn submit_outcome_names_the_request() {
    let mut a = App::new();
    a.buf.new_client_name = "  Bob ".to_string();
    match a.submit_outcome(0) {
        SubmitOutcome::Offer(NetworkCommand::SpawnClient { username }) => assert_eq!(username, "Bob"),
        other => panic!("unexpected {:?}", other),
    }
    a.action_state = ActionState::CreateChatRoom;
    a.buf.new_room_name = " lobby ".to_string();
    match a.submit_outcome(0) {
        SubmitOutcome::Offer(NetworkCommand::CreateRoom { username }) => assert_eq!(username, "lobby"),
        other => panic!("unexpected {:?}", other),
    }
    a.buf.new_room_name = "   ".to_string();
    assert!(matches!(a.submit_outcome(0), SubmitOutcome::Clear));
    a.action_state = ActionState::SendMessageToRoom;
    a.buf.msg_to_client = "x".to_string();
    assert!(matches!(a.submit_outcome(0), SubmitOutcome::Report(WireError::SenderNotFound)));
    a.current_clients = (Some(3), Some(4));
    assert!(matches!(a.submit_outcome(0), SubmitOutcome::Report(WireError::ReceiverNotFound)));
    a.current_room = Some(9);
    match a.submit_outcome(5) {
        SubmitOutcome::Offer(NetworkCommand::SendMessage { data }) => {
            assert_eq!(data, InboxEntry::new(5, "x".to_string(), 3, 9, false));
        }
        other => panic!("unexpected {:?}", other),
    }
    a.action_state = ActionState::JoinChatRoom;
    assert!(matches!(a.submit_outcome(0), SubmitOutcome::Idle));
}

#[test]
fn creating_a_room_offers_the_trimmed_name() {
    let (mut h, mut rx) = handle();
    let mut a = App::new();
    a.action_state = ActionState::CreateChatRoom;
    a.buf.new_room_name = " lobby ".to_string();
    assert_eq!(a.advance_action(&mut h, 0), Ok(()));
    match rx.try_recv() {
        Ok(NetworkCommand::CreateRoom { username }) => assert_eq!(username, "lobby"),
        other => panic!("unexpected {:?}", other),
    }
    assert!(rx.try_recv().is_err());
    assert_eq!(a.buf.new_room_name, "");
    assert_eq!(a.input_mode, InputMode::Selecting);
    assert!(a.errors.is_empty());
}

#[test]
fn nothing_is_offered_for_an_empty_line_or_a_join() {
    let (mut h, mut rx) = handle();
    let mut a = App::new();
    a.buf.new_client_name = "   ".to_string();
    assert_eq!(a.advance_action(&mut h, 0), Ok(()));
    a.action_state = ActionState::SendMessage;
    a.buf.msg_to_client = " ".to_string();
    assert_eq!(a.advance_action(&mut h, 0), Ok(()));
    a.action_state = ActionState::JoinChatRoom;
    assert_eq!(a.advance_action(&mut h, 0), Ok(()));
    a.action_state = ActionState::NoAction;
    assert_eq!(a.handle_key(Key::Char('q'), &mut h, 0), Ok(LoopControl::Quit));
    assert!(rx.try_recv().is_err());
    assert!(a.errors.is_empty());
}

#[test]
fn a_refused_message_is_recorded() {
    let (tx, rx) = tokio::sync::mpsc::channel::<NetworkCommand>(1);
    drop(rx);
    let mut h = NetworkHandle::new(tx);
    let mut a = App::new();
    a.action_state = ActionState::SendMessage;
    a.current_clients = (Some(1), Some(2));
    a.buf.msg_to_client = "hi".to_string();
    a.messages_scroll = 3;
    assert_eq!(a.advance_action(&mut h, 11), Ok(()));
    assert_eq!(a.errors, vec![(11, WireError::ChannelFailure)]);
    assert_eq!(a.buf.msg_to_client, "");
    assert_eq!(a.messages_scroll, 0);
    assert_eq!(a.input_mode, InputMode::Selecting);
}

#[test]
fn record_send_result_records_only_refusals() {
    let mut a = App::new();
    a.record_send_result(Ok(()), 1);
    assert!(a.errors.is_empty());
    a.record_send_result(Err(WireError::ChannelFailure), 2);
    assert_eq!(a.errors, vec![(2, WireError::ChannelFailure)]);
}

#[test]
fn wrapped_lines_are_not_empty_and_cannot_merge() {
    let text = "  lorem ipsum dolor\tsit amet, consectetur   adipiscing elit supercalifragilistic ";
    for max in [0usize, 3, 8, 12, 30, 200] {
        let lines = wrap_text(text, max);
        assert!(!lines.is_empty());
        for l in &lines {
            assert!(!l.is_empty());
        }
        for pair in lines.windows(2) {
            let first = pair[1].split(' ').next().unwrap();
            assert!(words_of_text(text).contains(&first));
            assert!(pair[0].len() + 1 + first.len() > max, "{:?} at {}", pair, max);
        }
    }
    assert_eq!(wrap_text(" \t ", 10), vec![""]);
}

fn words_of_text(text: &str) -> Vec<&str> {
    text.split_whitespace().collect()
}

#[test]
fn a_new_room_is_listed() {
    let mut a = App::new();
    a.apply_network_event(NetworkEvent::RoomCreated { room: Room::new(5, "lobby".to_string()) }, 0);
    assert_eq!(a.rooms.len(), 1);
    assert_eq!((a.rooms[0].id, a.rooms[0].username.as_str()), (5, "lobby"));
    a.apply_network_event(NetworkEvent::JoinedRoom { client_id: 1, room_id: 5 }, 0);
    assert_eq!(a.rooms.len(), 1);
    assert!(!a.rooms[0].is_member(1));
}
