//! The state of the terminal interface and the rules by which keys and
//! network events change it.
use vstd::prelude::*;

use crate::error::WireError;
use crate::network::{NetworkCommand, NetworkHandle};
use crate::text::{trim, trim_str};
use crate::types::{InboxEntry, Room};

verus! {

/// A client as the sidebar lists it.
#[derive(Debug, Clone)]
pub struct ClientSummary {
    pub id: usize,
    pub name: String,
    pub ip: String,
    pub port: u16,
}

impl ClientSummary {
    /// A field-by-field copy.
    pub fn duplicate(&self) -> (r: Self)
        ensures
            r == *self,
    {
        ClientSummary {
            id: self.id,
            name: self.name.clone(),
            ip: self.ip.clone(),
            port: self.port,
        }
    }
}

/// What one key did to the line being typed.
#[derive(Debug, Clone, Copy, PartialEq, Eq, Structural)]
pub enum InputResult {
    Continue,
    Cancelled,
    Submitted,
}

/// The screen on show.
#[derive(Debug, Clone, Copy, PartialEq, Eq, Structural)]
pub enum Screen {
    Home,
    Dashboard,
    ClientView(usize),
}

/// Whether keys move the selection or type text.
#[derive(Debug, Clone, Copy, PartialEq, Eq, Structural)]
pub enum InputMode {
    Selecting,
    Typing,
}

/// What the main pane of the dashboard shows.
#[derive(Debug, Clone, Copy, PartialEq, Eq, Structural)]
pub enum DashBoardView {
    Idle,
    ClientView(usize, CurrentWindow),
}

/// Which window of a client's view is open.
#[derive(Debug, Clone, Copy, PartialEq, Eq, Structural)]
pub enum CurrentWindow {
    NoWindow,
    ActionList,
    Inbox,
    Room,
}

/// The action that the text being typed is for.
#[derive(Debug, Clone, Copy, PartialEq, Eq, Structural)]
pub enum ActionState {
    SendMessage,
    JoinChatRoom,
    CreateChatRoom,
    SendMessageToRoom,
    NoAction,
}

/// The part of the dashboard that arrow keys move in.
#[derive(Debug, Clone, Copy, PartialEq, Eq, Structural)]
pub enum Focus {
    Main,
    ClientList,
    ClientOption,
    ActionList,
    InboxCli,
    InboxWindow,
    RoomboxWindow,
    RoomInterface,
    NoFocus,
}

/// Whether this interface speaks for any client or for one fixed client.
#[derive(Debug, Clone, Copy, PartialEq, Eq, Structural)]
pub enum IdentityMode {
    Default,
    Fixed(usize),
}

/// A key as the interface reads it.
#[derive(Debug, Clone, Copy, PartialEq, Eq, Structural)]
pub enum Key {
    Char(char),
    Backspace,
    Enter,
    Esc,
    Up,
    Down,
    Left,
    Right,
    Other,
}

/// What the event loop does after a key.
#[derive(Debug, Clone, Copy, PartialEq, Eq, Structural)]
pub enum LoopControl {
    /// Go on to the network events of this round.
    Proceed,
    /// Start the next round at once, as after a typed key.
    NextRound,
    /// Leave the interface.
    Quit,
}

/// The lines being typed.
pub struct AppBuf {
    pub new_client_name: String,
    pub to_client: String,
    pub msg_to_client: String,
    pub new_room_name: String,
}

impl AppBuf {
    /// All four lines empty.
    pub fn new() -> (r: Self)
        ensures
            r.new_client_name@ == Seq::<char>::empty(),
            r.to_client@ == Seq::<char>::empty(),
            r.msg_to_client@ == Seq::<char>::empty(),
            r.new_room_name@ == Seq::<char>::empty(),
    {
        AppBuf {
            new_client_name: String::new(),
            to_client: String::new(),
            msg_to_client: String::new(),
            new_room_name: String::new(),
        }
    }
}

/// Which entry of each list is highlighted.
#[derive(Debug, Clone, Copy, PartialEq, Eq, Structural)]
pub struct Selection {
    pub client_selected: Option<usize>,
    pub cli_opt_selected: Option<usize>,
    pub action_selected: Option<usize>,
    pub inbox_cli_selected: Option<usize>,
    pub room_list_selected: Option<usize>,
    pub inbox_selected: bool,
    pub roombox_selected: bool,
    pub option_selected: usize,
}

/// Nothing highlighted but the first option of the home screen.
pub open spec fn initial_selection() -> Selection {
    Selection {
        client_selected: None,
        cli_opt_selected: None,
        action_selected: None,
        inbox_cli_selected: None,
        room_list_selected: None,
        inbox_selected: false,
        roombox_selected: false,
        option_selected: 0,
    }
}

impl Selection {
    /// Nothing highlighted but the first option of the home screen.
    pub fn new() -> (r: Self)
        ensures
            r == initial_selection(),
    {
        Selection {
            client_selected: None,
            cli_opt_selected: None,
            action_selected: None,
            inbox_cli_selected: None,
            room_list_selected: None,
            inbox_selected: false,
            roombox_selected: false,
            option_selected: 0,
        }
    }
}

/// The whole state of the interface.
///
/// Each error carries the moment it was raised, in nanoseconds on the clock
/// that the event loop reads.
pub struct App {
    pub screen: Screen,
    pub selected: Selection,
    pub input_mode: InputMode,
    pub dashboard_view: DashBoardView,
    pub clients: Vec<ClientSummary>,
    pub action_state: ActionState,
    pub buf: AppBuf,
    pub focus: Focus,
    pub errors: Vec<(u128, WireError)>,
    pub inboxes: Vec<InboxEntry>,
    pub current_clients: (Option<usize>, Option<usize>),
    pub current_room: Option<usize>,
    pub messages_scroll: usize,
    pub rooms: Vec<Room>,
    pub identity_mode: IdentityMode,
}

impl App {
    /// The interface as it opens: the home screen, nothing selected, no
    /// clients, messages, errors or rooms.
    pub fn new() -> (r: Self)
        ensures
            r.screen == Screen::Home,
            r.selected == initial_selection(),
            r.input_mode == InputMode::Selecting,
            r.dashboard_view == DashBoardView::Idle,
            r.clients@ == Seq::<ClientSummary>::empty(),
            r.action_state == ActionState::NoAction,
            r.buf.new_client_name@ == Seq::<char>::empty(),
            r.buf.to_client@ == Seq::<char>::empty(),
            r.buf.msg_to_client@ == Seq::<char>::empty(),
            r.buf.new_room_name@ == Seq::<char>::empty(),
            r.focus == Focus::NoFocus,
            r.errors@ == Seq::<(u128, WireError)>::empty(),
            r.inboxes@ == Seq::<InboxEntry>::empty(),
            r.current_clients == (None::<usize>, None::<usize>),
            r.current_room is None,
            r.messages_scroll == 0,
            r.rooms@ == Seq::<Room>::empty(),
            r.identity_mode == IdentityMode::Default,
    {
        App {
            screen: Screen::Home,
            selected: Selection::new(),
            input_mode: InputMode::Selecting,
            dashboard_view: DashBoardView::Idle,
            clients: Vec::new(),
            action_state: ActionState::NoAction,
            buf: AppBuf::new(),
            focus: Focus::NoFocus,
            errors: Vec::new(),
            inboxes: Vec::new(),
            current_clients: (None, None),
            current_room: None,
            messages_scroll: 0,
            rooms: Vec::new(),
            identity_mode: IdentityMode::Default,
        }
    }

    /// The line that typed text goes to for the pending action: the new
    /// client's name when no action is pending, the message for either kind
    /// of message, the room name for a new room, and none for joining a room.
    pub fn current_input_mut(&mut self) -> (r: Option<&mut String>)
        ensures
            match old(self).action_state {
                ActionState::NoAction => r matches Some(b) && *b == old(self).buf.new_client_name
                    && *final(self) == (App {
                    buf: AppBuf { new_client_name: *final(b), ..old(self).buf },
                    ..*old(self)
                }),
                ActionState::SendMessage | ActionState::SendMessageToRoom => r matches Some(b) && *b
                    == old(self).buf.msg_to_client && *final(self) == (App {
                    buf: AppBuf { msg_to_client: *final(b), ..old(self).buf },
                    ..*old(self)
                }),
                ActionState::CreateChatRoom => r matches Some(b) && *b == old(self).buf.new_room_name
                    && *final(self) == (App {
                    buf: AppBuf { new_room_name: *final(b), ..old(self).buf },
                    ..*old(self)
                }),
                ActionState::JoinChatRoom => r is None && *final(self) == *old(self),
            },
    {
        match self.action_state {
            ActionState::NoAction => Some(&mut self.buf.new_client_name),
            ActionState::SendMessage | ActionState::SendMessageToRoom => Some(
                &mut self.buf.msg_to_client,
            ),
            ActionState::CreateChatRoom => Some(&mut self.buf.new_room_name),
            _ => None,
        }
    }
}

/// Whether the current sender is a member of the current room: the first
/// room with the current room's id must list the sender.
pub open spec fn current_member_spec(a: App) -> bool {
    match (a.current_room, a.current_clients.0) {
        (Some(room_id), Some(cli)) => exists|k: int|
            0 <= k < a.rooms@.len() && #[trigger] a.rooms@[k].id as usize == room_id && (forall|j: int|
                0 <= j < k ==> a.rooms@[j].id as usize != room_id) && a.rooms@[k].members@.contains(
                cli as u64,
            ),
        _ => false,
    }
}

/// The id of the first listed client named `name`; `InvalidName` for an
/// empty name or a name no client has.
pub open spec fn verify_client_spec(clients: Seq<ClientSummary>, name: Seq<char>) -> Result<
    usize,
    WireError,
> {
    if name.len() == 0 {
        Err(WireError::InvalidName)
    } else if exists|k: int| 0 <= k < clients.len() && #[trigger] clients[k].name@ == name {
        let k = choose|k: int|
            0 <= k < clients.len() && #[trigger] clients[k].name@ == name && (forall|j: int|
                0 <= j < k ==> clients[j].name@ != name);
        Ok(clients[k].id)
    } else {
        Err(WireError::InvalidName)
    }
}

/// The message that `msg` becomes at `now`: from the current sender, to the
/// current receiver for a message to a client or to the current room for a
/// message to a room. `SenderNotFound` or `ReceiverNotFound` when one is
/// missing.
pub open spec fn outgoing_spec(a: App, msg: Seq<char>, now: u128) -> Result<
    (u128, Seq<char>, u64, u64, bool),
    WireError,
> {
    match a.current_clients.0 {
        None => Err(WireError::SenderNotFound),
        Some(sender) => {
            let to_client = a.action_state == ActionState::SendMessage;
            let receiver = if to_client {
                a.current_clients.1
            } else {
                a.current_room
            };
            match receiver {
                None => Err(WireError::ReceiverNotFound),
                Some(receiver) => Ok((now, msg, sender as u64, receiver as u64, to_client)),
            }
        },
    }
}

/// What submitting the typed line comes to, before anything is offered.
#[derive(Debug)]
pub enum SubmitOutcome {
    /// The pending action takes no typed line.
    Idle,
    /// The trimmed line is empty: it is cleared and nothing is offered.
    Clear,
    /// The command to offer to the network engine.
    Offer(NetworkCommand),
    /// The error to record instead of a message.
    Report(WireError),
}

/// What submitting the typed line comes to: with no action pending, a
/// request for a client named by the trimmed line; for a new room, a request
/// for the room; for a message, the message that the trimmed line becomes,
/// or the error of a missing sender or receiver. An empty trimmed line comes
/// to nothing but clearing it.
pub open spec fn submit_outcome_spec(a: App, now: u128, out: SubmitOutcome) -> bool {
    match a.action_state {
        ActionState::NoAction => {
            let name = trim(a.buf.new_client_name@);
            if name.len() == 0 {
                out is Clear
            } else {
                out matches SubmitOutcome::Offer(NetworkCommand::SpawnClient { username })
                    && username@ == name
            }
        },
        ActionState::CreateChatRoom => {
            let name = trim(a.buf.new_room_name@);
            if name.len() == 0 {
                out is Clear
            } else {
                out matches SubmitOutcome::Offer(NetworkCommand::CreateRoom { username })
                    && username@ == name
            }
        },
        ActionState::SendMessage | ActionState::SendMessageToRoom => {
            let msg = trim(a.buf.msg_to_client@);
            if msg.len() == 0 {
                out is Clear
            } else {
                match outgoing_spec(a, msg, now) {
                    Err(e) => out == SubmitOutcome::Report(e),
                    Ok(t) => out matches SubmitOutcome::Offer(NetworkCommand::SendMessage { data })
                        && (data.time, data.msg@, data.from, data.to, data.cli_or_room) == t,
                }
            }
        },
        ActionState::JoinChatRoom => out is Idle,
    }
}

/// `after` is `before` with one more offer, of the command that submitting
/// `o`'s line comes to.
pub open spec fn offers_submitted(
    o: App,
    now: u128,
    before: Seq<(NetworkCommand, bool)>,
    after: Seq<(NetworkCommand, bool)>,
) -> bool {
    &&& after.len() == before.len() + 1
    &&& after.drop_last() == before
    &&& submit_outcome_spec(o, now, SubmitOutcome::Offer(after.last().0))
}

/// What submitting the typed line does, and what it returns; `before` and
/// `after` are the offers made to the engine before and after.
///
/// With no action pending, a non-empty trimmed line asks for a new client;
/// for a new room, it asks for the room. A refused request returns its error
/// and keeps the line; otherwise the line is cleared. A message is built and
/// offered when the trimmed line is not empty; a missing sender or receiver
/// is recorded as an error, keeps the line and offers nothing; a refused
/// message is recorded as `ChannelFailure`, and the scroll returns to the
/// newest message. An empty trimmed line offers nothing. Typing always ends.
pub open spec fn advance_post(
    o: App,
    f: App,
    r: Result<(), WireError>,
    now: u128,
    before: Seq<(NetworkCommand, bool)>,
    after: Seq<(NetworkCommand, bool)>,
) -> bool {
    match o.action_state {
        ActionState::NoAction => {
            &&& f == (App {
                input_mode: InputMode::Selecting,
                buf: AppBuf { new_client_name: f.buf.new_client_name, ..o.buf },
                ..o
            })
            &&& if trim(o.buf.new_client_name@).len() == 0 {
                &&& r is Ok
                &&& f.buf.new_client_name@ == Seq::<char>::empty()
                &&& after == before
            } else {
                &&& offers_submitted(o, now, before, after)
                &&& if after.last().1 {
                    r is Ok && f.buf.new_client_name@ == Seq::<char>::empty()
                } else {
                    r == Err::<(), WireError>(WireError::PortNotAvailable)
                        && f.buf.new_client_name == o.buf.new_client_name
                }
            }
        },
        ActionState::CreateChatRoom => {
            &&& f == (App {
                input_mode: InputMode::Selecting,
                buf: AppBuf { new_room_name: f.buf.new_room_name, ..o.buf },
                ..o
            })
            &&& if trim(o.buf.new_room_name@).len() == 0 {
                &&& r is Ok
                &&& f.buf.new_room_name@ == Seq::<char>::empty()
                &&& after == before
            } else {
                &&& offers_submitted(o, now, before, after)
                &&& if after.last().1 {
                    r is Ok && f.buf.new_room_name@ == Seq::<char>::empty()
                } else {
                    r == Err::<(), WireError>(WireError::ChannelFailure)
                        && f.buf.new_room_name == o.buf.new_room_name
                }
            }
        },
        ActionState::SendMessage | ActionState::SendMessageToRoom => {
            let msg = trim(o.buf.msg_to_client@);
            &&& r is Ok
            &&& if msg.len() == 0 {
                &&& f == (App {
                    input_mode: InputMode::Selecting,
                    buf: AppBuf { msg_to_client: f.buf.msg_to_client, ..o.buf },
                    ..o
                })
                &&& f.buf.msg_to_client@ == Seq::<char>::empty()
                &&& after == before
            } else {
                match outgoing_spec(o, msg, now) {
                    Err(e) => {
                        &&& f == (App { input_mode: InputMode::Selecting, errors: f.errors, ..o })
                        &&& f.errors@ == o.errors@.push((now, e))
                        &&& after == before
                    },
                    Ok(_) => {
                        &&& f == (App {
                            input_mode: InputMode::Selecting,
                            messages_scroll: 0,
                            errors: f.errors,
                            buf: AppBuf { msg_to_client: f.buf.msg_to_client, ..o.buf },
                            ..o
                        })
                        &&& f.buf.msg_to_client@ == Seq::<char>::empty()
                        &&& offers_submitted(o, now, before, after)
                        &&& f.errors@ == if after.last().1 {
                            o.errors@
                        } else {
                            o.errors@.push((now, WireError::ChannelFailure))
                        }
                    },
                }
            }
        },
        ActionState::JoinChatRoom => r is Ok && f == o && after == before,
    }
}

impl App {
    /// Whether the current sender is a member of the current room.
    pub fn verify_current_room_member(&mut self) -> (r: bool)
        ensures
            r == current_member_spec(*old(self)),
            *final(self) == *old(self),
    {
        if let Some(room_id) = self.current_room {
            let mut k: usize = 0;
            while k < self.rooms.len()
                invariant
                    k <= self.rooms@.len(),
                    self.current_room == Some(room_id),
                    forall|j: int| 0 <= j < k ==> self.rooms@[j].id as usize != room_id,
                decreases self.rooms@.len() - k,
            {
                if self.rooms[k].id as usize == room_id {
                    if let Some(cli_id) = self.current_clients.0 {
                        if self.rooms[k].is_member(cli_id as u64) {
                            return true;
                        }
                    }
                    proof {
                        if current_member_spec(*self) {
                            let k2 = choose|k2: int|
                                0 <= k2 < self.rooms@.len() && #[trigger] self.rooms@[k2].id as usize
                                    == room_id && (forall|j: int|
                                    0 <= j < k2 ==> self.rooms@[j].id as usize != room_id)
                                    && self.rooms@[k2].members@.contains(
                                    self.current_clients.0->Some_0 as u64,
                                );
                            assert(k2 == k);
                        }
                    }
                    return false;
                }
                k = k + 1;
            }
        }
        false
    }

    /// The id of the client named `name`.
    pub fn verify_client(&mut self, name: String) -> (r: Result<usize, WireError>)
        ensures
            r == verify_client_spec(old(self).clients@, name@),
            *final(self) == *old(self),
    {
        if name.as_str().is_empty() {
            return Err(WireError::InvalidName);
        }
        let mut k: usize = 0;
        while k < self.clients.len()
            invariant
                k <= self.clients@.len(),
                name@.len() > 0,
                forall|j: int| 0 <= j < k ==> self.clients@[j].name@ != name@,
            decreases self.clients@.len() - k,
        {
            if name == self.clients[k].name {
                proof {
                    let k2 = choose|k2: int|
                        0 <= k2 < self.clients@.len() && #[trigger] self.clients@[k2].name@ == name@
                            && (forall|j: int| 0 <= j < k2 ==> self.clients@[j].name@ != name@);
                    assert(k2 == k) by {
                        if k2 < k {
                        } else if k2 > k {
                            assert(self.clients@[k as int].name@ == name@);
                        }
                    }
                }
                return Ok(self.clients[k].id);
            }
            k = k + 1;
        }
        Err(WireError::InvalidName)
    }

    /// The message that `msg` becomes at `now`.
    pub fn outgoing_message(&self, msg: String, now: u128) -> (r: Result<InboxEntry, WireError>)
        ensures
            match (r, outgoing_spec(*self, msg@, now)) {
                (Ok(e), Ok(t)) => (e.time, e.msg@, e.from, e.to, e.cli_or_room) == t,
                (Err(e), Err(f)) => e == f,
                _ => false,
            },
    {
        let sender = match self.current_clients.0 {
            Some(id) => id,
            None => {
                return Err(WireError::SenderNotFound);
            },
        };
        let to_client = self.action_state == ActionState::SendMessage;
        let receiver = if to_client {
            self.current_clients.1
        } else {
            self.current_room
        };
        match receiver {
            Some(receiver) => Ok(
                InboxEntry::new(now, msg, sender as u64, receiver as u64, to_client),
            ),
            None => Err(WireError::ReceiverNotFound),
        }
    }

    /// What submitting the typed line comes to.
    pub fn submit_outcome(&self, now: u128) -> (out: SubmitOutcome)
        ensures
            submit_outcome_spec(*self, now, out),
    {
        match self.action_state {
            ActionState::NoAction => {
                let name = trim_str(self.buf.new_client_name.as_str());
                if name.as_str().is_empty() {
                    SubmitOutcome::Clear
                } else {
                    SubmitOutcome::Offer(NetworkCommand::SpawnClient { username: name })
                }
            },
            ActionState::CreateChatRoom => {
                let name = trim_str(self.buf.new_room_name.as_str());
                if name.as_str().is_empty() {
                    SubmitOutcome::Clear
                } else {
                    SubmitOutcome::Offer(NetworkCommand::CreateRoom { username: name })
                }
            },
            ActionState::SendMessage | ActionState::SendMessageToRoom => {
                let msg = trim_str(self.buf.msg_to_client.as_str());
                if msg.as_str().is_empty() {
                    SubmitOutcome::Clear
                } else {
                    match self.outgoing_message(msg, now) {
                        Err(e) => SubmitOutcome::Report(e),
                        Ok(data) => SubmitOutcome::Offer(NetworkCommand::SendMessage { data }),
                    }
                }
            },
            ActionState::JoinChatRoom => SubmitOutcome::Idle,
        }
    }

    /// Records at `now` the error of a refused send; a send that went
    /// through changes nothing.
    pub fn record_send_result(&mut self, res: Result<(), WireError>, now: u128)
        ensures
            match res {
                Ok(_) => *final(self) == *old(self),
                Err(e) => {
                    &&& *final(self) == (App { errors: final(self).errors, ..*old(self) })
                    &&& final(self).errors@ == old(self).errors@.push((now, e))
                },
            },
    {
        if let Err(e) = res {
            self.errors.push((now, e));
        }
    }

    /// Submits the typed line for the pending action.
    pub fn advance_action(&mut self, net_handle: &mut NetworkHandle, now: u128) -> (r: Result<
        (),
        WireError,
    >)
        ensures
            advance_post(*old(self), *final(self), r, now, old(net_handle).offers(), final(net_handle).offers()),
            final(net_handle).channel() == old(net_handle).channel(),
    {
        let outcome = self.submit_outcome(now);
        match self.action_state {
            ActionState::NoAction => {
                self.input_mode = InputMode::Selecting;
                if let SubmitOutcome::Offer(NetworkCommand::SpawnClient { username }) = outcome {
                    net_handle.spawn_client(username)?;
                }
                self.buf.new_client_name = String::new();
            },
            ActionState::CreateChatRoom => {
                self.input_mode = InputMode::Selecting;
                if let SubmitOutcome::Offer(NetworkCommand::CreateRoom { username }) = outcome {
                    net_handle.create_room(username)?;
                }
                self.buf.new_room_name = String::new();
            },
            ActionState::SendMessage | ActionState::SendMessageToRoom => {
                match outcome {
                    SubmitOutcome::Report(e) => {
                        self.input_mode = InputMode::Selecting;
                        self.errors.push((now, e));
                        return Ok(());
                    },
                    SubmitOutcome::Offer(NetworkCommand::SendMessage { data }) => {
                        let res = net_handle.send_message(data);
                        self.record_send_result(res, now);
                        self.messages_scroll = 0;
                    },
                    _ => {},
                }
                self.input_mode = InputMode::Selecting;
                self.buf.msg_to_client = String::new();
            },
            ActionState::JoinChatRoom => {},
        }
        Ok(())
    }
}

} // verus!
