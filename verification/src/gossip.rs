//! The per-guest gossip capability.
//!
//! Each guest owns two bounded channels: an outbound one its broadcasts
//! queue into, and an inbound one the overlay bridge fills.  Both are FIFO:
//! on each tick the supervisor drains the inbox and hands the messages to
//! the guest in exactly the order they were enqueued.  Enqueueing into a
//! full channel fails fast with [`ChannelFull`] and drops nothing that is
//! already queued; on the inbound side that means the newest message is the
//! one dropped.

use vstd::prelude::*;
use core::mem;
use crate::json::JVal;

verus! {

/// Capacity of each gossip channel of one guest.
pub const GOSSIP_CHANNEL_CAPACITY: usize = 1000;

/// Capacity of a supervisor's command mailbox.
pub const COMMAND_CHANNEL_CAPACITY: usize = 100;

/// A message arriving from the overlay for the guest.
#[derive(Debug, PartialEq, Eq)]
pub struct InboundGossipMsg {
    pub topic: String,
    pub content: JVal,
}

/// A message the guest asks to broadcast.
#[derive(Debug, PartialEq, Eq)]
pub struct OutboundGossipMsg {
    pub topic: String,
    pub content: JVal,
}

/// The error of enqueueing into a full channel.
#[derive(Debug, Clone, Copy, PartialEq, Eq, Structural)]
pub struct ChannelFull;

/// A bounded FIFO queue with its capacity fixed at creation.
pub struct Mailbox<T> {
    items: Vec<T>,
    capacity: usize,
}

impl<T> Mailbox<T> {
    /// The queued items, oldest first.
    pub closed spec fn spec_items(&self) -> Seq<T> {
        self.items@
    }

    /// The fixed capacity.
    pub closed spec fn spec_capacity(&self) -> usize {
        self.capacity
    }

    #[verifier::type_invariant]
    spec fn wf(&self) -> bool {
        self.items@.len() <= self.capacity
    }

    /// An empty mailbox with the given capacity.
    pub fn new(capacity: usize) -> (r: Mailbox<T>)
        ensures
            r.spec_items().len() == 0,
            r.spec_capacity() == capacity,
    {
        Mailbox { items: Vec::new(), capacity }
    }

    /// How many items are queued.
    pub fn len(&self) -> (r: usize)
        ensures
            r == self.spec_items().len(),
    {
        self.items.len()
    }

    /// Enqueue an item without waiting.  Succeeds exactly when the mailbox
    /// is not full; a failure changes nothing, so the item that could not
    /// be queued is the one lost.
    pub fn try_send(&mut self, item: T) -> (r: Result<(), ChannelFull>)
        ensures
            r is Ok <==> old(self).spec_items().len() < old(self).spec_capacity(),
            r is Ok ==> final(self).spec_items() == old(self).spec_items().push(item),
            r is Err ==> final(self).spec_items() == old(self).spec_items(),
            final(self).spec_capacity() == old(self).spec_capacity(),
    {
        proof {
            use_type_invariant(&*self);
        }
        if self.items.len() < self.capacity {
            let mut items: Vec<T> = Vec::new();
            mem::swap(&mut items, &mut self.items);
            items.push(item);
            mem::swap(&mut items, &mut self.items);
            Ok(())
        } else {
            Err(ChannelFull)
        }
    }

    /// Dequeue the oldest item, if any.
    pub fn recv(&mut self) -> (r: Option<T>)
        ensures
            old(self).spec_items().len() > 0 ==> r == Option::Some(old(self).spec_items()[0])
                && final(self).spec_items() == old(self).spec_items().drop_first(),
            old(self).spec_items().len() == 0 ==> r is None && final(self).spec_items() == old(
                self,
            ).spec_items(),
            final(self).spec_capacity() == old(self).spec_capacity(),
    {
        proof {
            use_type_invariant(&*self);
        }
        if self.items.len() > 0 {
            let mut items: Vec<T> = Vec::new();
            mem::swap(&mut items, &mut self.items);
            let item = items.remove(0);
            mem::swap(&mut items, &mut self.items);
            proof {
                assert(final(self).spec_items() =~= old(self).spec_items().drop_first());
            }
            Option::Some(item)
        } else {
            Option::None
        }
    }

    /// Dequeue everything, in the order it was enqueued.
    pub fn drain(&mut self) -> (r: Vec<T>)
        ensures
            r@ == old(self).spec_items(),
            final(self).spec_items().len() == 0,
            final(self).spec_capacity() == old(self).spec_capacity(),
    {
        proof {
            use_type_invariant(&*self);
        }
        let mut items: Vec<T> = Vec::new();
        mem::swap(&mut items, &mut self.items);
        items
    }
}

/// The gossip bridge of one guest: the outbound channel its broadcasts
/// queue into and the inbound mailbox the overlay fills.
pub struct GuestGossip {
    pub outbound: Mailbox<OutboundGossipMsg>,
    pub inbound: Mailbox<InboundGossipMsg>,
}

impl GuestGossip {
    /// A fresh bridge with empty channels at the standard capacity.
    pub fn new() -> (r: GuestGossip)
        ensures
            r.outbound.spec_items().len() == 0,
            r.inbound.spec_items().len() == 0,
            r.outbound.spec_capacity() == GOSSIP_CHANNEL_CAPACITY,
            r.inbound.spec_capacity() == GOSSIP_CHANNEL_CAPACITY,
    {
        GuestGossip {
            outbound: Mailbox::new(GOSSIP_CHANNEL_CAPACITY),
            inbound: Mailbox::new(GOSSIP_CHANNEL_CAPACITY),
        }
    }

    /// Queue a broadcast from the guest.  With the outbound channel full
    /// the call fails fast with [`ChannelFull`]; retrying is the guest's
    /// responsibility.
    pub fn broadcast_msg(&mut self, msg: OutboundGossipMsg) -> (r: Result<(), ChannelFull>)
        ensures
            r is Ok <==> old(self).outbound.spec_items().len() < old(
                self,
            ).outbound.spec_capacity(),
            r is Ok ==> final(self).outbound.spec_items() == old(self).outbound.spec_items().push(
                msg,
            ),
            r is Err ==> final(self).outbound.spec_items() == old(self).outbound.spec_items(),
            final(self).inbound == old(self).inbound,
            final(self).outbound.spec_capacity() == old(self).outbound.spec_capacity(),
    {
        self.outbound.try_send(msg)
    }

    /// Queue a message that arrived from the overlay.  With the inbox full
    /// the newest message — this one — is dropped.
    pub fn accept_inbound(&mut self, msg: InboundGossipMsg) -> (r: Result<(), ChannelFull>)
        ensures
            r is Ok <==> old(self).inbound.spec_items().len() < old(self).inbound.spec_capacity(),
            r is Ok ==> final(self).inbound.spec_items() == old(self).inbound.spec_items().push(
                msg,
            ),
            r is Err ==> final(self).inbound.spec_items() == old(self).inbound.spec_items(),
            final(self).outbound == old(self).outbound,
            final(self).inbound.spec_capacity() == old(self).inbound.spec_capacity(),
    {
        self.inbound.try_send(msg)
    }

    /// Take every pending inbound message, in arrival order: the exact
    /// sequence the supervisor hands to the guest's message handler on a
    /// tick, one call per message.
    pub fn drain_inbox(&mut self) -> (r: Vec<InboundGossipMsg>)
        ensures
            r@ == old(self).inbound.spec_items(),
            final(self).inbound.spec_items().len() == 0,
            final(self).outbound == old(self).outbound,
            final(self).inbound.spec_capacity() == old(self).inbound.spec_capacity(),
    {
        self.inbound.drain()
    }
}

} // verus!
