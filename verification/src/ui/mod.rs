//! The terminal interface: how keys move through the dashboard, how typed
//! text becomes requests, and how network events reach the screen.
use vstd::prelude::*;

pub mod app;
pub mod dashboard;
pub mod ui;

pub use app::{App, DashBoardView, Focus, InputResult};

use app::{
    advance_post, ActionState, AppBuf, ClientSummary, CurrentWindow, InputMode, Key, LoopControl,
    Screen, Selection,
};

use crate::error::WireError;
use crate::network::{NetworkCommand, NetworkEvent, NetworkHandle};
use crate::text::{pop_char, push_char};

verus! {

/// The index held, or zero when nothing is held.
pub open spec fn or_zero(o: Option<usize>) -> usize {
    match o {
        Some(n) => n,
        None => 0,
    }
}

/// The index of the last of `n` entries, or zero when there are none.
pub open spec fn last_index(n: nat) -> usize {
    if n == 0 {
        0
    } else {
        (n - 1) as usize
    }
}

/// The navigation state of the dashboard: the highlighted entries, the
/// focus, the main pane, the input mode, the pending action, and whether the
/// new-client name is cleared.
pub type Nav = (Selection, Focus, DashBoardView, InputMode, ActionState, bool);

/// The navigation state as it stands.
pub open spec fn nav_of(o: App) -> Nav {
    (o.selected, o.focus, o.dashboard_view, o.input_mode, o.action_state, false)
}

/// `Right` from the client list or its options: into the open window of the
/// client's view, and nothing highlighted on the left.
pub open spec fn nav_right(o: App) -> Nav {
    let s = o.selected;
    let base = Selection { cli_opt_selected: None, client_selected: None, ..s };
    let n = nav_of(o);
    match o.dashboard_view {
        DashBoardView::ClientView(_, CurrentWindow::ActionList) => (
            Selection { action_selected: Some(0), inbox_cli_selected: None, ..base },
            Focus::ActionList,
            n.2,
            n.3,
            n.4,
            false,
        ),
        DashBoardView::ClientView(_, CurrentWindow::Inbox) => (
            Selection { action_selected: None, inbox_cli_selected: Some(0), ..base },
            Focus::InboxCli,
            n.2,
            n.3,
            n.4,
            false,
        ),
        _ => (base, n.1, n.2, n.3, n.4, false),
    }
}

/// The navigation state after `key` on the dashboard.
pub open spec fn dashboard_next(o: App, key: Key) -> Nav {
    let s = o.selected;
    let n = nav_of(o);
    match o.focus {
        Focus::ClientList => match key {
            Key::Up => {
                let cli = or_zero(s.client_selected);
                if cli > 0 {
                    (Selection { client_selected: Some((cli - 1) as usize), ..s }, n.1, n.2, n.3, n.4, false)
                } else {
                    n
                }
            },
            Key::Down => {
                let cli = or_zero(s.client_selected);
                let last = last_index(o.clients@.len());
                if cli == last {
                    (
                        Selection { client_selected: None, cli_opt_selected: Some(0), ..s },
                        Focus::ClientOption,
                        n.2,
                        n.3,
                        n.4,
                        false,
                    )
                } else if cli < last {
                    (Selection { client_selected: Some((cli + 1) as usize), ..s }, n.1, n.2, n.3, n.4, false)
                } else {
                    n
                }
            },
            Key::Enter => match s.client_selected {
                Some(i) => if i < o.clients@.len() {
                    (
                        s,
                        n.1,
                        DashBoardView::ClientView(o.clients@[i as int].id, CurrentWindow::ActionList),
                        n.3,
                        n.4,
                        false,
                    )
                } else {
                    n
                },
                None => n,
            },
            Key::Right => nav_right(o),
            _ => n,
        },
        Focus::ClientOption => match key {
            Key::Up => {
                if s.cli_opt_selected == Some(0usize) {
                    (
                        Selection {
                            cli_opt_selected: None,
                            client_selected: Some(last_index(o.clients@.len())),
                            ..s
                        },
                        Focus::ClientList,
                        n.2,
                        n.3,
                        n.4,
                        false,
                    )
                } else {
                    let opt = or_zero(s.cli_opt_selected);
                    if opt > 0 {
                        (Selection { cli_opt_selected: Some((opt - 1) as usize), ..s }, n.1, n.2, n.3, n.4, false)
                    } else {
                        n
                    }
                }
            },
            Key::Down => {
                let opt = or_zero(s.cli_opt_selected);
                if opt < 1 {
                    (Selection { cli_opt_selected: Some((opt + 1) as usize), ..s }, n.1, n.2, n.3, n.4, false)
                } else {
                    n
                }
            },
            Key::Enter => if s.cli_opt_selected == Some(0usize) {
                (s, n.1, n.2, InputMode::Typing, n.4, true)
            } else {
                n
            },
            Key::Right => nav_right(o),
            _ => n,
        },
        Focus::ActionList => match key {
            Key::Up => {
                let a = or_zero(s.action_selected);
                if a > 0 {
                    (Selection { action_selected: Some((a - 1) as usize), ..s }, n.1, n.2, n.3, n.4, false)
                } else {
                    n
                }
            },
            Key::Down => {
                let a = or_zero(s.action_selected);
                if a < 2 {
                    (Selection { action_selected: Some((a + 1) as usize), ..s }, n.1, n.2, n.3, n.4, false)
                } else {
                    n
                }
            },
            Key::Left => (
                Selection { action_selected: None, client_selected: Some(0), ..s },
                Focus::ClientList,
                n.2,
                n.3,
                n.4,
                false,
            ),
            Key::Enter => if s.action_selected == Some(0usize) {
                match o.dashboard_view {
                    DashBoardView::ClientView(id, CurrentWindow::ActionList) => (
                        Selection { action_selected: None, inbox_cli_selected: Some(0), ..s },
                        Focus::InboxCli,
                        DashBoardView::ClientView(id, CurrentWindow::Inbox),
                        n.3,
                        ActionState::SendMessage,
                        false,
                    ),
                    _ => n,
                }
            } else {
                n
            },
            _ => n,
        },
        Focus::InboxCli => match key {
            Key::Up => {
                let c = or_zero(s.inbox_cli_selected);
                if c > 0 {
                    (Selection { inbox_cli_selected: Some((c - 1) as usize), ..s }, n.1, n.2, n.3, n.4, false)
                } else {
                    n
                }
            },
            Key::Down => {
                let c = or_zero(s.inbox_cli_selected);
                if c < last_index(o.clients@.len()) {
                    (Selection { inbox_cli_selected: Some((c + 1) as usize), ..s }, n.1, n.2, n.3, n.4, false)
                } else {
                    n
                }
            },
            Key::Left => (
                Selection {
                    action_selected: None,
                    client_selected: Some(0),
                    inbox_cli_selected: None,
                    ..s
                },
                Focus::ClientList,
                n.2,
                n.3,
                n.4,
                false,
            ),
            _ => n,
        },
        _ => n,
    }
}

/// Whether `f` holds the same records as `o`: clients, errors, messages,
/// rooms, the current sender, receiver and room, the scroll position, the
/// identity, and the three lines other than the new-client name.
pub open spec fn keeps_records(o: App, f: App) -> bool {
    &&& f.clients == o.clients
    &&& f.errors == o.errors
    &&& f.inboxes == o.inboxes
    &&& f.rooms == o.rooms
    &&& f.current_clients == o.current_clients
    &&& f.current_room == o.current_room
    &&& f.messages_scroll == o.messages_scroll
    &&& f.identity_mode == o.identity_mode
    &&& f.buf.to_client == o.buf.to_client
    &&& f.buf.msg_to_client == o.buf.msg_to_client
    &&& f.buf.new_room_name == o.buf.new_room_name
}

/// Whether `f` is `o` with the navigation state `n`.
pub open spec fn has_nav(o: App, f: App, n: Nav) -> bool {
    &&& f.selected == n.0
    &&& f.focus == n.1
    &&& f.dashboard_view == n.2
    &&& f.input_mode == n.3
    &&& f.action_state == n.4
    &&& n.5 ==> f.buf.new_client_name@ == Seq::<char>::empty()
    &&& !n.5 ==> f.buf.new_client_name == o.buf.new_client_name
}

impl App {
    /// Moves through the dashboard on `key`.
    pub fn handle_dashboard_events(&mut self, key: Key)
        ensures
            has_nav(*old(self), *final(self), dashboard_next(*old(self), key)),
            keeps_records(*old(self), *final(self)),
            final(self).screen == old(self).screen,
    {
        match self.focus {
            Focus::ClientList => match key {
                Key::Up => {
                    let cli = match self.selected.client_selected {
                        Some(n) => n,
                        None => 0,
                    };
                    if cli > 0 {
                        self.selected.client_selected = Some(cli - 1);
                    }
                },
                Key::Down => {
                    let cli = match self.selected.client_selected {
                        Some(n) => n,
                        None => 0,
                    };
                    let last_index = self.clients.len().saturating_sub(1);
                    if cli == last_index {
                        self.focus = Focus::ClientOption;
                        self.selected.client_selected = None;
                        self.selected.cli_opt_selected = Some(0);
                        return ;
                    }
                    if cli < last_index {
                        self.selected.client_selected = Some(cli + 1);
                    }
                },
                Key::Enter => match self.selected.client_selected {
                    Some(n) => {
                        if n < self.clients.len() {
                            self.dashboard_view = DashBoardView::ClientView(
                                self.clients[n].id,
                                CurrentWindow::ActionList,
                            );
                        }
                    },
                    None => {},
                },
                Key::Right => {
                    self.move_right();
                },
                _ => {},
            },
            Focus::ClientOption => match key {
                Key::Up => {
                    if self.selected.cli_opt_selected == Some(0) {
                        self.selected.cli_opt_selected = None;
                        let last_index = self.clients.len().saturating_sub(1);
                        self.selected.client_selected = Some(last_index);
                        self.focus = Focus::ClientList;
                        return ;
                    }
                    let cli_opt = match self.selected.cli_opt_selected {
                        Some(n) => n,
                        None => 0,
                    };
                    if cli_opt > 0 {
                        self.selected.cli_opt_selected = Some(cli_opt - 1);
                    }
                },
                Key::Down => {
                    let cli_opt = match self.selected.cli_opt_selected {
                        Some(n) => n,
                        None => 0,
                    };
                    if cli_opt < 1 {
                        self.selected.cli_opt_selected = Some(cli_opt + 1);
                    }
                },
                Key::Enter => {
                    if self.selected.cli_opt_selected == Some(0) {
                        self.input_mode = InputMode::Typing;
                        self.buf.new_client_name = String::new();
                    }
                },
                Key::Right => {
                    self.move_right();
                },
                _ => {},
            },
            Focus::ActionList => match key {
                Key::Up => {
                    let action = match self.selected.action_selected {
                        Some(n) => n,
                        None => 0,
                    };
                    if action > 0 {
                        self.selected.action_selected = Some(action - 1);
                    }
                },
                Key::Down => {
                    let action = match self.selected.action_selected {
                        Some(n) => n,
                        None => 0,
                    };
                    if action < 2 {
                        self.selected.action_selected = Some(action + 1);
                    }
                },
                Key::Left => {
                    self.focus = Focus::ClientList;
                    self.selected.action_selected = None;
                    self.selected.client_selected = Some(0);
                },
                Key::Enter => {
                    if self.selected.action_selected == Some(0) {
                        if let DashBoardView::ClientView(id, CurrentWindow::ActionList) =
                            self.dashboard_view
                        {
                            self.action_state = ActionState::SendMessage;
                            self.selected.action_selected = None;
                            self.selected.inbox_cli_selected = Some(0);
                            self.focus = Focus::InboxCli;
                            self.dashboard_view = DashBoardView::ClientView(
                                id,
                                CurrentWindow::Inbox,
                            );
                        }
                    }
                },
                _ => {},
            },
            Focus::InboxCli => match key {
                Key::Up => {
                    let cli = match self.selected.inbox_cli_selected {
                        Some(n) => n,
                        None => 0,
                    };
                    if cli > 0 {
                        self.selected.inbox_cli_selected = Some(cli - 1);
                    }
                },
                Key::Down => {
                    let cli = match self.selected.inbox_cli_selected {
                        Some(n) => n,
                        None => 0,
                    };
                    let last_index = self.clients.len().saturating_sub(1);
                    if cli < last_index {
                        self.selected.inbox_cli_selected = Some(cli + 1);
                    }
                },
                Key::Left => {
                    self.focus = Focus::ClientList;
                    self.selected.action_selected = None;
                    self.selected.client_selected = Some(0);
                    self.selected.inbox_cli_selected = None;
                },
                _ => {},
            },
            _ => {},
        }
    }

    /// `Right` from the client list or its options.
    fn move_right(&mut self)
        ensures
            has_nav(*old(self), *final(self), nav_right(*old(self))),
            keeps_records(*old(self), *final(self)),
            final(self).screen == old(self).screen,
            final(self).buf.new_client_name == old(self).buf.new_client_name,
    {
        match self.dashboard_view {
            DashBoardView::ClientView(_, CurrentWindow::ActionList) => {
                self.focus = Focus::ActionList;
                self.selected.action_selected = Some(0);
                self.selected.inbox_cli_selected = None;
            },
            DashBoardView::ClientView(_, CurrentWindow::Inbox) => {
                self.focus = Focus::InboxCli;
                self.selected.action_selected = None;
                self.selected.inbox_cli_selected = Some(0);
            },
            _ => {},
        }
        self.selected.cli_opt_selected = None;
        self.selected.client_selected = None;
    }
}

/// What one key does to the line being typed: a character is appended,
/// `Backspace` removes the last character, `Enter` submits, `Esc` clears and
/// cancels, and any other key changes nothing.
pub open spec fn input_step(line: Seq<char>, key: Key) -> (Seq<char>, InputResult) {
    match key {
        Key::Char(c) => (line.push(c), InputResult::Continue),
        Key::Backspace => (
            if line.len() > 0 {
                line.drop_last()
            } else {
                line
            },
            InputResult::Continue,
        ),
        Key::Enter => (line, InputResult::Submitted),
        Key::Esc => (Seq::empty(), InputResult::Cancelled),
        _ => (line, InputResult::Continue),
    }
}

/// Applies one key to the line being typed.
pub fn handle_basic_inputting(buf: &mut String, key: Key) -> (r: InputResult)
    ensures
        (final(buf)@, r) == input_step(old(buf)@, key),
{
    match key {
        Key::Char(c) => {
            push_char(buf, c);
            InputResult::Continue
        },
        Key::Backspace => {
            pop_char(buf);
            InputResult::Continue
        },
        Key::Enter => InputResult::Submitted,
        Key::Esc => {
            *buf = String::new();
            InputResult::Cancelled
        },
        _ => InputResult::Continue,
    }
}

/// Typing a character and erasing it gives back the line as it was.
pub proof fn law_type_then_erase(line: Seq<char>, c: char)
    ensures
        input_step(input_step(line, Key::Char(c)).0, Key::Backspace).0 == line,
{
    assert(line.push(c).drop_last() =~= line);
}

/// `Esc` always leaves an empty line and cancels.
pub proof fn law_escape_clears(line: Seq<char>)
    ensures
        input_step(line, Key::Esc) == (Seq::<char>::empty(), InputResult::Cancelled),
{
}

/// The line that typed text goes to for the pending action, if any.
pub open spec fn input_line(a: App) -> Option<Seq<char>> {
    match a.action_state {
        ActionState::NoAction => Some(a.buf.new_client_name@),
        ActionState::SendMessage | ActionState::SendMessageToRoom => Some(a.buf.msg_to_client@),
        ActionState::CreateChatRoom => Some(a.buf.new_room_name@),
        ActionState::JoinChatRoom => None,
    }
}

/// `f` is `o` with the typed line replaced by `line`.
pub open spec fn with_input_line(o: App, f: App, line: Seq<char>) -> bool {
    match o.action_state {
        ActionState::NoAction => f == (App {
            buf: AppBuf { new_client_name: f.buf.new_client_name, ..o.buf },
            ..o
        }) && f.buf.new_client_name@ == line,
        ActionState::SendMessage | ActionState::SendMessageToRoom => f == (App {
            buf: AppBuf { msg_to_client: f.buf.msg_to_client, ..o.buf },
            ..o
        }) && f.buf.msg_to_client@ == line,
        ActionState::CreateChatRoom => f == (App {
            buf: AppBuf { new_room_name: f.buf.new_room_name, ..o.buf },
            ..o
        }) && f.buf.new_room_name@ == line,
        ActionState::JoinChatRoom => f == o,
    }
}

/// What a key does while typing: it edits the line of the pending action;
/// `Esc` also drops the action and ends typing; `Enter` submits as
/// [`advance_post`] says. With no line to type into, nothing changes. Only
/// a submit offers anything to the engine: `before` and `after` are its
/// offers before and after.
pub open spec fn input_post(
    o: App,
    f: App,
    key: Key,
    r: Result<(), WireError>,
    now: u128,
    before: Seq<(NetworkCommand, bool)>,
    after: Seq<(NetworkCommand, bool)>,
) -> bool {
    match input_line(o) {
        None => f == o && r is Ok && after == before,
        Some(line) => {
            let (next, res) = input_step(line, key);
            match res {
                InputResult::Continue => r is Ok && with_input_line(o, f, next) && after == before,
                InputResult::Cancelled => r is Ok && after == before && exists|mid: App|
                    with_input_line(o, mid, next) && f == (App {
                        action_state: ActionState::NoAction,
                        input_mode: InputMode::Selecting,
                        ..mid
                    }),
                InputResult::Submitted => advance_post(o, f, r, now, before, after),
            }
        },
    }
}

/// What a key does on the home screen: `e` raises a test error, the arrows
/// move between the two options, and `Enter` opens the dashboard on the
/// first option or quits on the second. Other keys change nothing.
pub open spec fn home_post(o: App, f: App, key: Key, r: LoopControl, now: u128) -> bool {
    let s = o.selected;
    match key {
        Key::Char('e') => {
            &&& r == LoopControl::Proceed
            &&& f == (App { errors: f.errors, ..o })
            &&& f.errors@.len() == o.errors@.len() + 1
            &&& f.errors@.drop_last() == o.errors@
            &&& f.errors@.last().0 == now
            &&& f.errors@.last().1 matches WireError::HandshakeFailed(m) && m@ == "test error"@
        },
        Key::Up => r == LoopControl::Proceed && if s.option_selected > 0 {
            f == (App {
                selected: Selection { option_selected: (s.option_selected - 1) as usize, ..s },
                ..o
            })
        } else {
            f == o
        },
        Key::Down => r == LoopControl::Proceed && if s.option_selected < 1 {
            f == (App {
                selected: Selection { option_selected: (s.option_selected + 1) as usize, ..s },
                ..o
            })
        } else {
            f == o
        },
        Key::Enter => if s.option_selected == 1 {
            r == LoopControl::Quit && f == o
        } else if o.screen != Screen::Dashboard {
            r == LoopControl::Proceed && f == (App {
                screen: Screen::Dashboard,
                focus: Focus::ClientList,
                ..o
            })
        } else {
            r == LoopControl::Proceed && f == o
        },
        _ => r == LoopControl::Proceed && f == o,
    }
}

/// What one key does to the interface: while typing it edits the line as
/// [`input_post`] says and the round ends at once; otherwise `q` quits, and
/// the key acts on the home screen or the dashboard. Only a key typed into
/// a line can offer anything to the engine: `before` and `after` are its
/// offers before and after.
pub open spec fn key_post(
    o: App,
    f: App,
    key: Key,
    r: Result<LoopControl, WireError>,
    now: u128,
    before: Seq<(NetworkCommand, bool)>,
    after: Seq<(NetworkCommand, bool)>,
) -> bool {
    if o.input_mode == InputMode::Typing {
        match r {
            Ok(c) => c == LoopControl::NextRound && input_post(o, f, key, Ok(()), now, before, after),
            Err(e) => input_post(o, f, key, Err(e), now, before, after),
        }
    } else {
        &&& after == before
        &&& if key == Key::Char('q') {
            r == Ok::<LoopControl, WireError>(LoopControl::Quit) && f == o
        } else {
            match o.screen {
                Screen::Home => r matches Ok(c) && home_post(o, f, key, c, now),
                Screen::Dashboard => {
                    &&& r == Ok::<LoopControl, WireError>(LoopControl::Proceed)
                    &&& has_nav(o, f, dashboard_next(o, key))
                    &&& keeps_records(o, f)
                    &&& f.screen == o.screen
                },
                Screen::ClientView(_) => r == Ok::<LoopControl, WireError>(LoopControl::Proceed) && f == o,
            }
        }
    }
}

impl App {
    /// Applies a key while typing.
    pub fn handle_input(&mut self, key: Key, net_handle: &mut NetworkHandle, now: u128) -> (r: Result<
        (),
        WireError,
    >)
        ensures
            input_post(*old(self), *final(self), key, r, now, old(net_handle).offers(), final(net_handle).offers()),
            final(net_handle).channel() == old(net_handle).channel(),
    {
        let ghost o = *self;
        if self.action_state != ActionState::JoinChatRoom && key == Key::Enter {
            return self.advance_action(net_handle, now);
        }
        let result = match self.current_input_mut() {
            Some(buf) => handle_basic_inputting(buf, key),
            None => {
                return Ok(());
            },
        };
        match result {
            InputResult::Continue => {},
            InputResult::Cancelled => {
                let ghost mid = *self;
                self.action_state = ActionState::NoAction;
                self.input_mode = InputMode::Selecting;
                assert(with_input_line(o, mid, input_step(input_line(o)->Some_0, key).0));
            },
            InputResult::Submitted => {},
        }
        Ok(())
    }

    /// Applies a key on the home screen.
    pub fn handle_home_key(&mut self, key: Key, now: u128) -> (r: LoopControl)
        ensures
            home_post(*old(self), *final(self), key, r, now),
    {
        match key {
            Key::Char('e') => {
                proof {
                    reveal_strlit("test error");
                }
                self.errors.push((now, WireError::HandshakeFailed(String::from_str("test error"))));
                assert(self.errors@.drop_last() =~= old(self).errors@);
            },
            Key::Up => {
                if self.selected.option_selected > 0 {
                    self.selected.option_selected -= 1;
                }
            },
            Key::Down => {
                if self.selected.option_selected < 1 {
                    self.selected.option_selected += 1;
                }
            },
            Key::Enter => {
                if self.selected.option_selected == 1 {
                    return LoopControl::Quit;
                }
                if self.screen != Screen::Dashboard {
                    self.screen = Screen::Dashboard;
                    self.focus = Focus::ClientList;
                }
            },
            _ => {},
        }
        LoopControl::Proceed
    }

    /// Applies one key read by the event loop.
    pub fn handle_key(&mut self, key: Key, net_handle: &mut NetworkHandle, now: u128) -> (r: Result<
        LoopControl,
        WireError,
    >)
        ensures
            key_post(*old(self), *final(self), key, r, now, old(net_handle).offers(), final(net_handle).offers()),
            final(net_handle).channel() == old(net_handle).channel(),
    {
        if self.input_mode == InputMode::Typing {
            self.handle_input(key, net_handle, now)?;
            return Ok(LoopControl::NextRound);
        }
        if key == Key::Char('q') {
            return Ok(LoopControl::Quit);
        }
        match self.screen {
            Screen::Home => Ok(self.handle_home_key(key, now)),
            Screen::Dashboard => {
                self.handle_dashboard_events(key);
                Ok(LoopControl::Proceed)
            },
            Screen::ClientView(_) => Ok(LoopControl::Proceed),
        }
    }
}

/// How long an error stays on screen: five seconds, in nanoseconds.
pub const ERROR_LIFETIME_NS: u128 = 5000000000;

/// Whether an error raised at `t` is still shown at `now`: less than the
/// lifetime has passed, counting a moment after `now` as no time at all.
pub open spec fn is_fresh(now: u128, t: u128) -> bool {
    (if now >= t {
        now - t
    } else {
        0
    }) < ERROR_LIFETIME_NS
}

/// The errors still shown at `now`, in the order they were raised.
pub open spec fn fresh_errors(errors: Seq<(u128, WireError)>, now: u128) -> Seq<(u128, WireError)> {
    errors.filter(|e: (u128, WireError)| is_fresh(now, e.0))
}

/// The clients left after `id` disconnects, in their order.
pub open spec fn without_client(clients: Seq<ClientSummary>, id: usize) -> Seq<ClientSummary> {
    clients.filter(|c: ClientSummary| c.id != id)
}

/// What a network event does to the interface: a connection lists the
/// client; a disconnection unlists it and closes its action list if that was
/// open; a message is kept; an error is shown from `now`; a new room is
/// listed. A join of a room changes nothing.
pub open spec fn network_post(o: App, f: App, ev: NetworkEvent, now: u128) -> bool {
    match ev {
        NetworkEvent::ClientConnected(info) => {
            &&& f == (App { clients: f.clients, ..o })
            &&& f.clients@.len() == o.clients@.len() + 1
            &&& f.clients@.drop_last() == o.clients@
            &&& f.clients@.last().id == info.id as usize
            &&& f.clients@.last().name == info.username
            &&& f.clients@.last().ip == info.ip
            &&& f.clients@.last().port == info.port
        },
        NetworkEvent::ClientDisconnected { id } => {
            &&& f == (App { clients: f.clients, dashboard_view: f.dashboard_view, ..o })
            &&& f.clients@ == without_client(o.clients@, id as usize)
            &&& f.dashboard_view == if o.dashboard_view == DashBoardView::ClientView(
                id as usize,
                CurrentWindow::ActionList,
            ) {
                DashBoardView::Idle
            } else {
                o.dashboard_view
            }
        },
        NetworkEvent::MessageReceived(entry) => f == (App { inboxes: f.inboxes, ..o })
            && f.inboxes@ == o.inboxes@.push(entry),
        NetworkEvent::ErrorOccurred(err) => f == (App { errors: f.errors, ..o }) && f.errors@
            == o.errors@.push((now, err)),
        NetworkEvent::RoomCreated { room } => f == (App { rooms: f.rooms, ..o }) && f.rooms@
            == o.rooms@.push(room),
        _ => f == o,
    }
}

impl App {
    /// Drops the errors that have been shown for the whole lifetime.
    pub fn prune_errors(&mut self, now: u128)
        ensures
            *final(self) == (App { errors: final(self).errors, ..*old(self) }),
            final(self).errors@ == fresh_errors(old(self).errors@, now),
    {
        let ghost o = self.errors@;
        let mut kept: Vec<(u128, WireError)> = Vec::new();
        let mut i: usize = 0;
        while i < self.errors.len()
            invariant
                self.errors@ == o,
                i <= o.len(),
                kept@ == fresh_errors(o.subrange(0, i as int), now),
            decreases o.len() - i,
        {
            let t = self.errors[i].0;
            let elapsed = if now >= t {
                now - t
            } else {
                0
            };
            proof {
                reveal_with_fuel(Seq::<(u128, WireError)>::filter, 1);
                assert(o.subrange(0, i + 1).drop_last() =~= o.subrange(0, i as int));
            }
            if elapsed < ERROR_LIFETIME_NS {
                kept.push((t, self.errors[i].1.duplicate()));
            }
            i = i + 1;
        }
        assert(o.subrange(0, o.len() as int) =~= o);
        self.errors = kept;
    }

    /// Applies one event from the network engine.
    pub fn apply_network_event(&mut self, ev: NetworkEvent, now: u128)
        ensures
            network_post(*old(self), *final(self), ev, now),
    {
        match ev {
            NetworkEvent::ClientConnected(info) => {
                self.clients.push(
                    ClientSummary {
                        id: info.id as usize,
                        name: info.username,
                        ip: info.ip,
                        port: info.port,
                    },
                );
                assert(self.clients@.drop_last() =~= old(self).clients@);
            },
            NetworkEvent::ClientDisconnected { id } => {
                let gone = id as usize;
                let ghost o = self.clients@;
                let mut kept: Vec<ClientSummary> = Vec::new();
                let mut i: usize = 0;
                while i < self.clients.len()
                    invariant
                        self.clients@ == o,
                        i <= o.len(),
                        kept@ == without_client(o.subrange(0, i as int), gone),
                    decreases o.len() - i,
                {
                    proof {
                        reveal_with_fuel(Seq::<ClientSummary>::filter, 1);
                        assert(o.subrange(0, i + 1).drop_last() =~= o.subrange(0, i as int));
                    }
                    if self.clients[i].id != gone {
                        kept.push(self.clients[i].duplicate());
                    }
                    i = i + 1;
                }
                assert(o.subrange(0, o.len() as int) =~= o);
                self.clients = kept;
                if let DashBoardView::ClientView(v_id, CurrentWindow::ActionList) =
                    self.dashboard_view
                {
                    if v_id == gone {
                        self.dashboard_view = DashBoardView::Idle;
                    }
                }
            },
            NetworkEvent::MessageReceived(entry) => {
                self.inboxes.push(entry);
            },
            NetworkEvent::ErrorOccurred(err) => {
                self.errors.push((now, err));
            },
            NetworkEvent::RoomCreated { room } => {
                self.rooms.push(room);
            },
            _ => {},
        }
    }
}

/// Every error still shown was raised less than the lifetime ago, and an
/// error raised at `now` is still shown.
pub proof fn law_prune_keeps_fresh(errors: Seq<(u128, WireError)>, now: u128, e: WireError)
    ensures
        forall|k: int|
            0 <= k < fresh_errors(errors, now).len() ==> is_fresh(now, #[trigger] fresh_errors(
                errors,
                now,
            )[k].0),
        fresh_errors(errors.push((now, e)), now).last() == (now, e),
{
    let p = |x: (u128, WireError)| is_fresh(now, x.0);
    errors.lemma_filter_len(p);
    assert forall|k: int|
        0 <= k < fresh_errors(errors, now).len() implies is_fresh(now, #[trigger] fresh_errors(
        errors,
        now,
    )[k].0) by {
        errors.filter_lemma(p);
        assert(fresh_errors(errors, now).contains(fresh_errors(errors, now)[k]));
    }
    reveal_with_fuel(Seq::<(u128, WireError)>::filter, 1);
    assert(errors.push((now, e)).drop_last() =~= errors);
}

/// A disconnection closes only the action list of the client that left:
/// any other open view, including another client's action list, stays as it
/// was. The client that left is no longer listed, and every other client
/// listed before still is.
pub proof fn law_disconnect_closes_only_its_view(o: App, f: App, id: u64, now: u128)
    requires
        network_post(o, f, NetworkEvent::ClientDisconnected { id }, now),
    ensures
        o.dashboard_view == DashBoardView::ClientView(id as usize, CurrentWindow::ActionList) ==> f.dashboard_view
            == DashBoardView::Idle,
        o.dashboard_view != DashBoardView::ClientView(id as usize, CurrentWindow::ActionList) ==> f.dashboard_view
            == o.dashboard_view,
        forall|c: ClientSummary| #[trigger]
            f.clients@.contains(c) <==> (o.clients@.contains(c) && c.id != id as usize),
{
    broadcast use vstd::seq_lib::group_filter_ensures;

    let gone = id as usize;
    let p = |c: ClientSummary| c.id != gone;
    assert(f.clients@ == o.clients@.filter(p));
    assert forall|c: ClientSummary| #[trigger]
        f.clients@.contains(c) <==> (o.clients@.contains(c) && c.id != gone) by {
        if o.clients@.contains(c) && c.id != gone {
            let k = choose|k: int| 0 <= k < o.clients@.len() && o.clients@[k] == c;
            o.clients@.lemma_filter_contains(p, k);
        }
        if f.clients@.contains(c) {
            o.clients@.lemma_filter_contains_rev(p, c);
        }
    }
}

/// `Left` from the action list always goes back to the client list: the
/// first client highlighted, no action highlighted, and the open view, the
/// mode, the pending action and the other highlights as they were.
pub proof fn law_left_leaves_action_list(o: App, f: App)
    requires
        o.focus == Focus::ActionList,
        has_nav(o, f, dashboard_next(o, Key::Left)),
    ensures
        f.focus == Focus::ClientList,
        f.selected.action_selected is None,
        f.selected.client_selected == Some(0usize),
        f.selected.cli_opt_selected == o.selected.cli_opt_selected,
        f.selected.inbox_cli_selected == o.selected.inbox_cli_selected,
        f.selected.room_list_selected == o.selected.room_list_selected,
        f.dashboard_view == o.dashboard_view,
        f.input_mode == o.input_mode,
        f.action_state == o.action_state,
{
}

/// On the client list, `Enter` opens the action list of the highlighted
/// client, `Up` and `Down` move the highlight by one within the list, and
/// `Down` from the last client moves to the first client option. None of
/// them changes the focus otherwise, the mode or the pending action.
pub proof fn law_client_list_keys(o: App, f: App, key: Key)
    requires
        o.focus == Focus::ClientList,
        has_nav(o, f, dashboard_next(o, key)),
    ensures
        key == Key::Enter && o.selected.client_selected is Some && o.selected.client_selected->Some_0
            < o.clients@.len() ==> f.dashboard_view == DashBoardView::ClientView(
            o.clients@[o.selected.client_selected->Some_0 as int].id,
            CurrentWindow::ActionList,
        ),
        key == Key::Up && o.selected.client_selected is Some && o.selected.client_selected->Some_0 > 0 ==> f.selected.client_selected
            == Some((o.selected.client_selected->Some_0 - 1) as usize) && f.focus == Focus::ClientList,
        key == Key::Down && o.clients@.len() > 0 && o.selected.client_selected == Some(
            (o.clients@.len() - 1) as usize,
        ) ==> f.focus == Focus::ClientOption && f.selected.cli_opt_selected == Some(0usize)
            && f.selected.client_selected is None,
        key == Key::Down && o.selected.client_selected is Some && o.selected.client_selected->Some_0 + 1
            < o.clients@.len() ==> f.selected.client_selected == Some((o.selected.client_selected->Some_0 + 1) as usize)
            && f.focus == Focus::ClientList,
        key != Key::Right ==> f.input_mode == o.input_mode && f.action_state == o.action_state,
{
    assert(o.clients@.len() == o.clients.len());
}

/// What each network event records, and nothing more: a connection lists
/// exactly that client after the others; a message is kept after the
/// others; an error is shown from `now` after the others; a new room is
/// listed after the others. The screen, the selection, the focus, the mode
/// and the pending action never change.
pub proof fn law_network_events_recorded(o: App, f: App, ev: NetworkEvent, now: u128)
    requires
        network_post(o, f, ev, now),
    ensures
        f.screen == o.screen,
        f.selected == o.selected,
        f.focus == o.focus,
        f.input_mode == o.input_mode,
        f.action_state == o.action_state,
        ev matches NetworkEvent::ClientConnected(info) ==> {
            &&& f.clients@.drop_last() == o.clients@
            &&& f.clients@.len() == o.clients@.len() + 1
            &&& f.clients@.last().id == info.id as usize
            &&& f.clients@.last().name == info.username
            &&& f.clients@.last().ip == info.ip
            &&& f.clients@.last().port == info.port
            &&& f.inboxes == o.inboxes && f.errors == o.errors && f.dashboard_view == o.dashboard_view
        },
        ev matches NetworkEvent::MessageReceived(e) ==> f.inboxes@ == o.inboxes@.push(e) && f.clients
            == o.clients && f.errors == o.errors,
        ev matches NetworkEvent::ErrorOccurred(e) ==> f.errors@ == o.errors@.push((now, e)) && f.clients
            == o.clients && f.inboxes == o.inboxes,
        ev matches NetworkEvent::RoomCreated { room } ==> f.rooms@ == o.rooms@.push(room) && f.clients
            == o.clients && f.inboxes == o.inboxes,
{
}

} // verus!
