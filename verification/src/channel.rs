//! A one-shot handoff cell: one message may be sent once and received once.

use vstd::prelude::*;

verus! {

/// Abstract state of a one-shot channel.
pub struct ChannelState<T> {
    /// The message slot: `Some` between send and receive.
    pub message: Option<T>,
    /// Set once a send has claimed the channel; never cleared.
    pub in_use: bool,
    /// True exactly while a sent message waits to be received.
    pub ready: bool,
}

/// A cell through which exactly one message can be handed over.
pub struct Channel<T> {
    message: Option<T>,
    in_use: bool,
    ready: bool,
}

impl<T> View for Channel<T> {
    type V = ChannelState<T>;

    closed spec fn view(&self) -> ChannelState<T> {
        ChannelState { message: self.message, in_use: self.in_use, ready: self.ready }
    }
}

impl<T> Channel<T> {
    /// A ready channel always holds a message.
    pub open spec fn wf(&self) -> bool {
        self@.ready ==> self@.message is Some
    }

    /// An empty channel: no message, never used, not ready.
    pub fn new() -> (c: Channel<T>)
        ensures
            c@ == (ChannelState::<T> { message: None, in_use: false, ready: false }),
            c.wf(),
    {
        Channel { message: None, in_use: false, ready: false }
    }

    /// Deposits the one message. A second send on the same channel is a
    /// caller error (the runtime-checked variant panics on it), so a send
    /// demands a channel that was never used.
    pub fn send(&mut self, message: T)
        requires
            !old(self)@.in_use,
        ensures
            final(self)@ == (ChannelState::<T> { message: Some(message), in_use: true, ready: true }),
            final(self).wf(),
    {
        self.in_use = true;
        self.message = Some(message);
        self.ready = true;
    }

    /// Whether a message waits to be received.
    pub fn is_ready(&self) -> (b: bool)
        ensures
            b == self@.ready,
    {
        self.ready
    }

    /// Takes the message out. Receiving from a channel that is not ready is a
    /// caller error (the runtime-checked variant panics on it), so a receive
    /// demands a ready channel.
    pub fn receive(&mut self) -> (m: T)
        requires
            old(self).wf(),
            old(self)@.ready,
        ensures
            old(self)@.message == Some(m),
            final(self)@.message is None,
            !final(self)@.ready,
            final(self)@.in_use == old(self)@.in_use,
            final(self).wf(),
    {
        self.ready = false;
        match self.message.take() {
            Some(m) => m,
            None => vstd::pervasive::unreached(),
        }
    }
}

} // verus!
