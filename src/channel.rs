//! The broadcast channel that joins the source chain to every sink: a
//! bounded, ordered, many-reader queue of frames, provided by the `bus`
//! crate.
use vstd::prelude::*;
use crate::frame::Frame;
use bus::{Bus, BusReader};

verus! {

/// The number of frames a channel holds unless told otherwise.
pub const CHANNEL_CAPACITY: usize = 1000;

#[verifier::external_type_specification]
#[verifier::external_body]
#[verifier::reject_recursive_types(T)]
pub struct ExBus<T>(Bus<T>);

#[verifier::external_type_specification]
#[verifier::external_body]
#[verifier::reject_recursive_types(T)]
pub struct ExBusReader<T>(BusReader<T>);

/// The payloads a bus has accepted, in the order they were written into its
/// ring as its tail advanced.
pub uninterp spec fn broadcasts(b: Bus<Frame>) -> Seq<Seq<u8>>;

/// Relies on `bus::Bus::new`, which adds one padding slot to `capacity` and
/// starts with no value written.
#[verifier::external_body]
fn bus_new(capacity: usize) -> (r: Bus<Frame>)
    requires
        capacity < usize::MAX,
    ensures
        broadcasts(r) == Seq::<Seq<u8>>::empty(),
{
    Bus::new(capacity)
}

/// Relies on `bus::Bus::add_rx`: a reader of every later broadcast; it
/// writes nothing into the ring.
#[verifier::external_body]
fn bus_add_rx(bus: &mut Bus<Frame>) -> (r: BusReader<Frame>)
    ensures
        broadcasts(*final(bus)) == broadcasts(*old(bus)),
{
    bus.add_rx()
}

/// Relies on `bus::Bus::broadcast`, which blocks while the bus is full and
/// then writes `f` into the next seat.
#[verifier::external_body]
fn bus_broadcast(bus: &mut Bus<Frame>, f: Frame)
    ensures
        broadcasts(*final(bus)) == broadcasts(*old(bus)).push(f@),
{
    bus.broadcast(f)
}

/// Relies on `bus::Bus::try_broadcast`, which writes `f` into the next
/// seat when one is free, and otherwise writes nothing and hands the value
/// back unchanged.
#[verifier::external_body]
fn bus_try_broadcast(bus: &mut Bus<Frame>, f: Frame) -> (r: Option<Frame>)
    ensures
        r matches Some(g) ==> g == f,
        r is Some ==> broadcasts(*final(bus)) == broadcasts(*old(bus)),
        r is None ==> broadcasts(*final(bus)) == broadcasts(*old(bus)).push(f@),
{
    bus.try_broadcast(f).err()
}

/// Relies on `bus::BusReader::recv`, which blocks until a frame comes and
/// fails once the bus is gone and drained.
#[verifier::external_body]
fn reader_recv(reader: &mut BusReader<Frame>) -> Option<Frame> {
    reader.recv().ok()
}

/// What a cursor found without waiting.
pub enum Polled {
    /// The next frame.
    Frame(Frame),
    /// Nothing yet.
    Empty,
    /// The channel is closed and drained.
    Closed,
}

/// Relies on `bus::BusReader::try_recv`, which does not block.
#[verifier::external_body]
fn reader_try_recv(reader: &mut BusReader<Frame>) -> Polled {
    match reader.try_recv() {
        Ok(f) => Polled::Frame(f),
        Err(std::sync::mpsc::TryRecvError::Empty) => Polled::Empty,
        Err(std::sync::mpsc::TryRecvError::Disconnected) => Polled::Closed,
    }
}

/// The producing end of a broadcast channel.
pub struct Channel {
    bus: Bus<Frame>,
    capacity: usize,
    subscribers: usize,
}

/// A consumer's position in a channel.
pub struct Cursor {
    reader: BusReader<Frame>,
}

impl Channel {
    /// The number of frames the channel holds for its slowest reader.
    pub closed spec fn spec_capacity(&self) -> nat {
        self.capacity as nat
    }

    /// The number of cursors handed out.
    pub closed spec fn spec_subscribers(&self) -> nat {
        self.subscribers as nat
    }

    /// The payloads published so far, in order.
    pub closed spec fn published(&self) -> Seq<Seq<u8>> {
        broadcasts(self.bus)
    }

    /// A channel that holds up to `capacity` frames, with no cursor yet and
    /// nothing published.
    pub fn new(capacity: usize) -> (c: Channel)
        requires
            capacity < usize::MAX,
        ensures
            c.spec_capacity() == capacity,
            c.spec_subscribers() == 0,
            c.published() == Seq::<Seq<u8>>::empty(),
    {
        Channel { bus: bus_new(capacity), capacity, subscribers: 0 }
    }

    /// The number of frames the channel holds for its slowest reader.
    pub fn capacity(&self) -> (r: usize)
        ensures
            r == self.spec_capacity(),
    {
        self.capacity
    }

    /// The number of cursors handed out.
    pub fn subscribers(&self) -> (r: usize)
        ensures
            r == self.spec_subscribers(),
    {
        self.subscribers
    }

    /// A new cursor, which sees every frame published after this call.
    pub fn subscribe(&mut self) -> (r: Cursor)
        requires
            old(self).spec_subscribers() < usize::MAX,
        ensures
            final(self).spec_capacity() == old(self).spec_capacity(),
            final(self).spec_subscribers() == old(self).spec_subscribers() + 1,
            final(self).published() == old(self).published(),
    {
        let reader = bus_add_rx(&mut self.bus);
        self.subscribers = self.subscribers + 1;
        Cursor { reader }
    }

    /// Publishes `f` to every cursor, waiting while the slowest one is a
    /// full channel behind.
    pub fn publish(&mut self, f: Frame)
        ensures
            final(self).spec_capacity() == old(self).spec_capacity(),
            final(self).spec_subscribers() == old(self).spec_subscribers(),
            final(self).published() == old(self).published().push(f@),
    {
        bus_broadcast(&mut self.bus, f);
    }

    /// Publishes `f` if there is room now; otherwise gives it back.
    pub fn try_publish(&mut self, f: Frame) -> (r: Result<(), Frame>)
        ensures
            final(self).spec_capacity() == old(self).spec_capacity(),
            final(self).spec_subscribers() == old(self).spec_subscribers(),
            r matches Err(g) ==> g@ == f@,
            r is Ok ==> final(self).published() == old(self).published().push(f@),
            r is Err ==> final(self).published() == old(self).published(),
    {
        match bus_try_broadcast(&mut self.bus, f) {
            None => Ok(()),
            Some(g) => Err(g),
        }
    }
}

impl Cursor {
    /// The next frame, waiting for one; `None` once the channel is closed
    /// and drained.
    pub fn next(&mut self) -> Option<Frame> {
        reader_recv(&mut self.reader)
    }

    /// The next frame if one is there, without waiting.
    pub fn try_next(&mut self) -> Polled {
        reader_try_recv(&mut self.reader)
    }
}

} // verus!
