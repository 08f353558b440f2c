//! The bounded channels of the async runtime, as the library sees them, and
//! the interface's handle on the channel of the network engine.
use vstd::prelude::*;

use tokio::sync::mpsc::Sender;

use crate::network::NetworkCommand;

verus! {

/// The sending half of a bounded channel of the async runtime, held opaque.
#[verifier::external_type_specification]
#[verifier::external_body]
#[verifier::reject_recursive_types(T)]
pub struct ExSender<T>(Sender<T>);

/// `Sender::clone` gives another handle on the same channel: the runtime
/// clones the shared reference to the channel, so the new handle is the same
/// handle as far as the library can tell.
pub assume_specification<T>[ <Sender<T> as Clone>::clone ](tx: &Sender<T>) -> (r: Sender<T>)
    ensures
        r == *tx,
;

/// The interface's handle on the network engine: the sending half of the
/// engine's command channel, and the record of every command handed to it.
#[derive(Clone)]
pub struct NetworkHandle {
    cmd_tx: Sender<NetworkCommand>,
    offers: Ghost<Seq<(NetworkCommand, bool)>>,
}

impl NetworkHandle {
    /// Every command handed to the engine's channel through this handle, in
    /// order, each with whether the channel took it.
    pub closed spec fn offers(&self) -> Seq<(NetworkCommand, bool)> {
        self.offers@
    }

    /// The engine's command channel.
    pub closed spec fn channel(&self) -> Sender<NetworkCommand> {
        self.cmd_tx
    }

    /// A handle on `cmd_tx` that has handed nothing over yet.
    pub fn new(cmd_tx: Sender<NetworkCommand>) -> (r: Self)
        ensures
            r.channel() == cmd_tx,
            r.offers() == Seq::<(NetworkCommand, bool)>::empty(),
    {
        NetworkHandle { cmd_tx, offers: Ghost(Seq::empty()) }
    }

    /// Hands `cmd` to the engine's channel without waiting.
    ///
    /// Calls `Sender::try_send` with `cmd`, which queues it when the channel
    /// is open and has room and refuses it when the channel is full or
    /// closed. The contract records that call: `cmd` is what was handed
    /// over, and `sent` is whether the channel took it. Which of the two
    /// happens depends on the receiver and on what else is queued, so
    /// nothing more is stated of `sent`.
    #[verifier::external_body]
    pub(crate) fn offer(&mut self, cmd: NetworkCommand) -> (sent: bool)
        ensures
            final(self).channel() == old(self).channel(),
            final(self).offers() == old(self).offers().push((cmd, sent)),
    {
        self.cmd_tx.try_send(cmd).is_ok()
    }
}

} // verus!
