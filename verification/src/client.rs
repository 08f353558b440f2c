//! The first shape of the client-side types, with machine-word ids, kept for
//! callers written against it.
use vstd::prelude::*;

use tokio::sync::mpsc::Sender;

verus! {

/// One chat message addressed by machine-word ids.
///
/// `time` is the moment it was written, in nanoseconds since the Unix epoch.
#[derive(Debug, Clone, PartialEq)]
pub struct InboxEntry {
    pub time: u128,
    pub msg: String,
    pub from: usize,
    pub to: usize,
    pub cli_or_room: bool,
}

impl InboxEntry {
    pub fn new(time: u128, msg: String, from: usize, to: usize, cli_or_room: bool) -> (r: Self)
        ensures
            r.time == time,
            r.msg == msg,
            r.from == from,
            r.to == to,
            r.cli_or_room == cli_or_room,
    {
        InboxEntry { time, msg, from, to, cli_or_room }
    }

    /// The text an entry is shown as: its message.
    pub fn display_text(&self) -> (r: String)
        ensures
            r@ == self.msg@,
    {
        self.msg.clone()
    }
}

/// A connected client with the channels that reach its tasks.
#[derive(Debug, Clone)]
pub struct Client {
    pub id: usize,
    pub username: String,
    pub cmd_tx: Option<Sender<InboxEntry>>,
    pub writer: Sender<InboxEntry>,
    pub ip: String,
    pub port: u16,
}

impl Client {
    pub fn new(
        id: usize,
        username: String,
        cmd_tx: Option<Sender<InboxEntry>>,
        writer: Sender<InboxEntry>,
        ip: String,
        port: u16,
    ) -> (r: Self)
        ensures
            r.id == id,
            r.username == username,
            r.cmd_tx == cmd_tx,
            r.writer == writer,
            r.ip == ip,
            r.port == port,
    {
        Self { id, username, cmd_tx, writer, ip, port }
    }
}

} // verus!
