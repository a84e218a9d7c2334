//! The single way the quota tracker reaches its messenger: every message that
//! goes out is also appended to a record of what was sent.

use vstd::prelude::*;

use crate::limit_tracker::Messenger;

verus! {

/// A messenger together with the sequence of messages sent to it through
/// this outbox, oldest first.
pub struct Outbox<'a, T: Messenger> {
    messenger: &'a T,
    log: Ghost<Seq<Seq<char>>>,
}

impl<'a, T: Messenger> Outbox<'a, T> {
    /// The messenger that the messages go to.
    pub closed spec fn target(&self) -> &'a T {
        self.messenger
    }

    /// The messages sent through this outbox so far, oldest first.
    pub closed spec fn sent(&self) -> Seq<Seq<char>> {
        self.log@
    }

    /// An outbox for `messenger` that has sent nothing yet.
    pub fn new(messenger: &'a T) -> (o: Outbox<'a, T>)
        ensures
            o.target() == messenger,
            o.sent() == Seq::<Seq<char>>::empty(),
    {
        Outbox { messenger, log: Ghost(Seq::empty()) }
    }

    /// Sends `msg` to the messenger, once, and records it.
    pub fn deliver(&mut self, msg: &str)
        ensures
            final(self).target() == old(self).target(),
            final(self).sent() == old(self).sent().push(msg@),
            old(self).target().delivered(msg@),
    {
        self.messenger.send(msg);
        self.log = Ghost(self.log@.push(msg@));
    }
}

} // verus!
