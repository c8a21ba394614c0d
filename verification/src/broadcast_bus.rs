//! The bus on which one sender broadcasts to any number of subscribers.
//!
//! The channel itself is that of the `bus` crate: a ring of a fixed number of
//! seats, from which every subscriber takes its own copy of every message
//! broadcast after it subscribed. [`BroadcastBus`] keeps, beside the channel,
//! a record of what has been handed to it and of how many subscriptions were
//! made, and every [`Subscriber`] keeps count of where in that record it
//! joined and of how many messages it has taken since. So the functions that
//! broadcast can say what they broadcast and in which order, and a subscriber
//! can say how far it has come. Which message the channel hands out at a
//! place is the channel's matter: nothing is claimed of it here.

use vstd::prelude::*;

verus! {

#[verifier::external_type_specification]
#[verifier::external_body]
#[verifier::reject_recursive_types(T)]
pub struct ExChannel<T>(::bus::Bus<T>);

#[verifier::external_type_specification]
#[verifier::external_body]
#[verifier::reject_recursive_types(T)]
pub struct ExChannelReader<T>(::bus::BusReader<T>);

/// Calls `bus::Bus::new`, which makes a channel with room for `capacity`
/// messages that not every subscriber has taken yet.
///
/// Trusted: nothing is claimed of the channel. `Bus::new` adds one seat to
/// `capacity`, so `usize::MAX` is kept out; the seats are allocated as a
/// vector of that length is. A channel made for no message at all would have
/// that one seat only and could hand nothing out, so `0` is kept out too.
#[verifier::external_body]
fn channel_new<T>(capacity: usize) -> ::bus::Bus<T>
    requires
        1 <= capacity < usize::MAX,
{
    ::bus::Bus::new(capacity)
}

/// Calls `bus::Bus::add_rx` on the ring of `channel`, which adds a consumer
/// that will see the broadcasts made from now on.
///
/// Trusted: nothing is claimed of the consumer, and the call leaves the
/// number of seats alone.
#[verifier::external_body]
fn channel_add_rx<T>(channel: &mut Channel<T>) -> (reader: ::bus::BusReader<T>)
    ensures
        final(channel).seats == old(channel).seats,
{
    channel.ring.add_rx()
}

/// Calls `bus::Bus::broadcast` on the ring of `channel`, which puts `message`
/// on it for every consumer. While the ring is full, that is while some
/// consumer has not taken the oldest message, the call waits; a ring with at
/// least one seat for messages, as every `Channel` has, is freed again by the
/// consumer that takes that message or leaves.
///
/// Trusted: nothing is claimed of what the consumers get, and the call leaves
/// the number of seats alone.
#[verifier::external_body]
fn channel_broadcast<T: Clone + Sync>(channel: &mut Channel<T>, message: T)
    ensures
        final(channel).seats == old(channel).seats,
{
    channel.ring.broadcast(message)
}

/// Calls `bus::BusReader::try_recv`, which returns the next message that the
/// consumer has not taken yet, without waiting for one.
///
/// Trusted: nothing is claimed of the result, which depends on what the
/// sender has done meanwhile. `None` stands for both of the channel's errors:
/// that nothing is there, and that the sender is gone.
#[verifier::external_body]
fn reader_try_recv<T: Clone + Sync>(reader: &mut ::bus::BusReader<T>) -> Option<T> {
    reader.try_recv().ok()
}

/// A ring of the `bus` crate together with the number of messages that it was
/// made for, which is at least one.
#[verifier::reject_recursive_types(T)]
struct Channel<T> {
    ring: ::bus::Bus<T>,
    seats: usize,
}

impl<T> Channel<T> {
    #[verifier::type_invariant]
    spec fn has_a_seat(&self) -> bool {
        1 <= self.seats < usize::MAX
    }

    /// Makes a ring for `capacity` messages.
    fn new(capacity: usize) -> (channel: Self)
        requires
            1 <= capacity < usize::MAX,
        ensures
            channel.seats == capacity,
    {
        Channel { ring: channel_new(capacity), seats: capacity }
    }
}

/// The sending end of a bus for messages of the type `T`.
#[verifier::reject_recursive_types(T)]
pub struct BroadcastBus<T: View> {
    channel: Channel<T>,
    sent: Ghost<Seq<T::V>>,
    subscriptions: Ghost<nat>,
}

/// The receiving end of one subscriber.
#[verifier::reject_recursive_types(T)]
pub struct Subscriber<T> {
    reader: ::bus::BusReader<T>,
    joined_at: Ghost<nat>,
    taken: Ghost<nat>,
}

impl<T: View + Clone + Sync> BroadcastBus<T> {
    /// The messages that have been broadcast on this bus, oldest first.
    pub closed spec fn sent(&self) -> Seq<T::V> {
        self.sent@
    }

    /// The number of messages that the bus holds for its slowest subscriber.
    pub closed spec fn capacity(&self) -> usize {
        self.channel.seats
    }

    /// The number of subscriptions that have been made on this bus.
    pub closed spec fn subscriptions(&self) -> nat {
        self.subscriptions@
    }

    /// Makes a bus that holds up to `capacity` messages for its subscribers.
    /// A bus must hold at least one message, or it could hand none on.
    pub fn new(capacity: usize) -> (bus: Self)
        requires
            1 <= capacity < usize::MAX,
        ensures
            bus.sent() == Seq::<T::V>::empty(),
            bus.capacity() == capacity,
            bus.subscriptions() == 0,
    {
        BroadcastBus {
            channel: Channel::new(capacity),
            sent: Ghost(Seq::empty()),
            subscriptions: Ghost(0),
        }
    }

    /// The number of messages that the bus holds for its slowest subscriber,
    /// which is at least one.
    pub fn seats(&self) -> (seats: usize)
        ensures
            seats == self.capacity(),
            1 <= seats < usize::MAX,
    {
        proof {
            use_type_invariant(&self.channel);
        }
        self.channel.seats
    }

    /// Adds a subscriber. It joins behind everything that has been broadcast
    /// so far and has taken nothing yet: it is handed the messages that are
    /// broadcast from now on, and none of those broadcast before.
    pub fn subscribe(&mut self) -> (subscriber: Subscriber<T>)
        ensures
            final(self).sent() == old(self).sent(),
            final(self).capacity() == old(self).capacity(),
            final(self).subscriptions() == old(self).subscriptions() + 1,
            subscriber.joined_at() == old(self).sent().len(),
            subscriber.taken() == 0,
    {
        proof {
            use_type_invariant(&self.channel);
            self.subscriptions@ = self.subscriptions@ + 1;
        }
        Subscriber {
            reader: channel_add_rx(&mut self.channel),
            joined_at: Ghost(self.sent@.len()),
            taken: Ghost(0),
        }
    }

    /// Broadcasts `message` to every subscriber. The call waits while a
    /// subscriber has `capacity` messages that it has not taken; a bus without
    /// subscribers takes the message and drops it.
    pub fn broadcast(&mut self, message: T)
        ensures
            final(self).sent() == old(self).sent().push(message@),
            final(self).capacity() == old(self).capacity(),
            final(self).subscriptions() == old(self).subscriptions(),
    {
        proof {
            use_type_invariant(&self.channel);
            self.sent@ = self.sent@.push(message@);
        }
        channel_broadcast(&mut self.channel, message);
    }
}

impl<T: Clone + Sync> Subscriber<T> {
    /// The number of messages that had been broadcast on the bus when this
    /// subscriber joined it. None of them is for this subscriber.
    pub closed spec fn joined_at(&self) -> nat {
        self.joined_at@
    }

    /// The number of messages that this subscriber has taken.
    pub closed spec fn taken(&self) -> nat {
        self.taken@
    }

    /// The place, in what the bus has broadcast, of the message that this
    /// subscriber is to be handed next.
    pub open spec fn next(&self) -> nat {
        self.joined_at() + self.taken()
    }

    /// Takes the oldest message that this subscriber has not taken yet, if
    /// there is one, without waiting for one. A message that is returned is
    /// taken: the subscriber moves on by one. When none is returned the
    /// subscriber stays where it is.
    pub fn try_recv(&mut self) -> (message: Option<T>)
        ensures
            final(self).joined_at() == old(self).joined_at(),
            final(self).taken() == old(self).taken() + if message is Some {
                1nat
            } else {
                0nat
            },
    {
        let message = reader_try_recv(&mut self.reader);
        proof {
            if message is Some {
                self.taken@ = self.taken@ + 1;
            }
        }
        message
    }
}

} // verus!
