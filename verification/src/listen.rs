//! The parts of the change notification graph: listeners, the notifiers that
//! hold them, and gates.
//!
//! A notifier belongs to one publisher and knows its listeners only as
//! mailbox numbers, so listening keeps no consumer alive. A gate belongs to
//! one subscriber and names the publisher it follows by handle only, so a
//! chain of subscriptions owns nothing and cannot form a cycle of ownership.

use crate::universe::BlockDefRef;
use crate::universe::SpaceRef;
use vstd::prelude::*;

verus! {

/// A consumer of change notifications: the number of a mailbox of a
/// [`Universe`](crate::universe::Universe).
#[derive(Clone, Copy, Debug, PartialEq, Eq, Hash, Structural)]
pub struct Listener {
    pub mailbox: usize,
}

/// The receiving end of a mailbox, from which its owner reads what arrived.
#[derive(Clone, Copy, Debug, PartialEq, Eq, Hash, Structural)]
pub struct Sink {
    pub mailbox: usize,
}

impl Sink {
    /// A listener that delivers into this sink's mailbox.
    pub fn listener(&self) -> (listener: Listener)
        ensures
            listener.mailbox == self.mailbox,
    {
        Listener { mailbox: self.mailbox }
    }
}

/// The publisher that a [`Gate`] follows.
#[derive(Clone, Copy, Debug, PartialEq, Eq, Hash, Structural)]
pub enum Upstream {
    /// The notifier of a block definition.
    Definition(BlockDefRef),
    /// The block changes of a space.
    Space(SpaceRef),
}

/// A live, revocable subscription of one subscriber to at most one
/// publisher. Replacing a gate ends what it forwarded before and touches no
/// other listener of the publisher.
#[derive(Clone, Copy, Debug, PartialEq, Eq, Hash, Structural)]
pub struct Gate {
    pub upstream: Option<Upstream>,
}

impl Gate {
    /// A gate that forwards nothing.
    pub fn closed() -> (gate: Gate)
        ensures
            gate.upstream is None,
    {
        Gate { upstream: None }
    }

    /// A gate that forwards what `upstream` publishes.
    pub fn following(upstream: Upstream) -> (gate: Gate)
        ensures
            gate.upstream == Some(upstream),
    {
        Gate { upstream: Some(upstream) }
    }
}

/// The listeners of one publisher, in the order in which they subscribed.
#[derive(Debug)]
pub struct Notifier {
    listeners: Vec<Listener>,
}

impl View for Notifier {
    type V = Seq<Listener>;

    closed spec fn view(&self) -> Seq<Listener> {
        self.listeners@
    }
}

impl Notifier {
    /// A notifier without listeners.
    pub fn new() -> (notifier: Notifier)
        ensures
            notifier@ == Seq::<Listener>::empty(),
    {
        Notifier { listeners: Vec::new() }
    }

    /// Adds a listener. One that listens twice is notified twice.
    pub fn listen(&mut self, listener: Listener)
        ensures
            final(self)@ == old(self)@.push(listener),
    {
        self.listeners.push(listener);
    }

    /// The listeners, in the order in which they subscribed.
    pub fn listeners(&self) -> (listeners: &Vec<Listener>)
        ensures
            listeners@ == self@,
    {
        &self.listeners
    }
}

} // verus!
