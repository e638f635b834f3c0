use vstd::prelude::*;
use std::sync::mpsc::{Receiver, Sender, TryRecvError};
use crate::event::Event;

verus! {

#[verifier::external_type_specification]
#[verifier::external_body]
#[verifier::reject_recursive_types(T)]
pub struct ExSender<T>(Sender<T>);

#[verifier::external_type_specification]
#[verifier::external_body]
#[verifier::reject_recursive_types(T)]
pub struct ExReceiver<T>(Receiver<T>);

/// Outcome of one non-blocking poll of a channel.
#[derive(Debug)]
pub enum Poll<T> {
    /// A queued value.
    Ready(T),
    /// Nothing queued right now.
    Empty,
    /// Every sender is gone: nothing will ever arrive.
    Disconnected,
}

/// Relies on std::sync::mpsc::channel: a fresh unbounded channel, as its
/// two connected halves.
#[verifier::external_body]
pub(crate) fn channel<T>() -> (Sender<T>, Receiver<T>) {
    std::sync::mpsc::channel()
}

/// One sending half, with a record of every value handed to it and whether
/// the channel took it.
#[verifier::reject_recursive_types(T)]
pub struct Destination<T> {
    sender: Sender<T>,
    handed: Ghost<Seq<(T, bool)>>,
}

impl<T> Destination<T> {
    pub closed spec fn sender(&self) -> Sender<T> {
        self.sender
    }

    /// What was handed to this destination, in order, each with whether the
    /// channel took it.
    pub closed spec fn handed(&self) -> Seq<(T, bool)> {
        self.handed@
    }

    pub fn new(sender: Sender<T>) -> (r: Destination<T>)
        ensures
            r.sender() == sender,
            r.handed() == Seq::<(T, bool)>::empty(),
    {
        Destination { sender, handed: Ghost(Seq::empty()) }
    }
}

/// Relies on std::sync::mpsc::Sender::send: queues `value` without blocking;
/// `false` when the receiving half has been dropped. The record of the
/// destination gains the value handed and that outcome.
#[verifier::external_body]
fn deliver<T>(d: &mut Destination<T>, value: T) -> (r: bool)
    ensures
        final(d).sender() == old(d).sender(),
        final(d).handed() == old(d).handed().push((value, r)),
{
    d.sender.send(value).is_ok()
}

/// Each destination's record gained exactly one entry, carrying `v`.
pub open spec fn handed_once<T>(
    before: Seq<Seq<(T, bool)>>,
    after: Seq<Seq<(T, bool)>>,
    v: T,
) -> bool {
    &&& after.len() == before.len()
    &&& forall|i: int|
        0 <= i < after.len() ==> (#[trigger] after[i]).len() == before[i].len() + 1
            && after[i].drop_last() == before[i] && after[i].last().0 == v
}

/// How many records end in a value that the channel took.
pub open spec fn taken_count<T>(records: Seq<Seq<(T, bool)>>) -> nat
    decreases records.len(),
{
    if records.len() == 0 {
        0
    } else {
        taken_count(records.drop_last()) + if records.last().last().1 {
            1nat
        } else {
            0nat
        }
    }
}

pub open spec fn records_of<T>(ds: Seq<Destination<T>>) -> Seq<Seq<(T, bool)>> {
    ds.map_values(|d: Destination<T>| d.handed())
}

pub open spec fn senders_of<T>(ds: Seq<Destination<T>>) -> Seq<Sender<T>> {
    ds.map_values(|d: Destination<T>| d.sender())
}

/// Hands a copy of `v` to every destination, in order; returns how many
/// channels took it. A channel whose receiver is gone is passed over.
pub fn hand_to_all<T: Copy>(ds: &mut Vec<Destination<T>>, v: T) -> (r: usize)
    ensures
        senders_of(final(ds)@) == senders_of(old(ds)@),
        handed_once(records_of(old(ds)@), records_of(final(ds)@), v),
        r == taken_count(records_of(final(ds)@)),
{
    let ghost start = ds@;
    let mut delivered: usize = 0;
    let mut i: usize = 0;
    while i < ds.len()
        invariant
            ds@.len() == start.len(),
            i <= ds@.len(),
            delivered <= i,
            delivered == taken_count(records_of(ds@).take(i as int)),
            forall|j: int| i <= j < ds@.len() ==> #[trigger] ds@[j] == start[j],
            forall|j: int|
                0 <= j < i ==> (#[trigger] ds@[j]).sender() == start[j].sender() && ds@[j].handed()
                    == start[j].handed().push((v, ds@[j].handed().last().1)),
        decreases ds@.len() - i,
    {
        let ghost before = ds@;
        let ok = deliver(&mut ds[i], v);
        proof {
            assert(records_of(ds@).take(i + 1).drop_last() =~= records_of(before).take(i as int));
        }
        if ok {
            delivered = delivered + 1;
        }
        i = i + 1;
    }
    assert(records_of(ds@).take(i as int) =~= records_of(ds@));
    assert(senders_of(ds@) =~= senders_of(start));
    assert forall|j: int| 0 <= j < ds@.len() implies (#[trigger] records_of(ds@)[j]).len()
        == records_of(start)[j].len() + 1 && records_of(ds@)[j].drop_last() == records_of(start)[j]
        && records_of(ds@)[j].last().0 == v by {
        assert(ds@[j].handed().drop_last() =~= start[j].handed());
    }
    delivered
}

/// Relies on std::sync::mpsc::Receiver::try_recv: a queued value, `Empty`,
/// or `Disconnected` once every sender is dropped; it never blocks.
#[verifier::external_body]
fn try_take<T>(receiver: &Receiver<T>) -> Poll<T> {
    match receiver.try_recv() {
        Ok(v) => Poll::Ready(v),
        Err(TryRecvError::Empty) => Poll::Empty,
        Err(TryRecvError::Disconnected) => Poll::Disconnected,
    }
}

/// A multicast output: every sent event is copied to each registered
/// destination, in registration order.
pub struct OutputPort {
    senders: Vec<Destination<Event>>,
}

impl View for OutputPort {
    /// For each destination, in registration order, what it was handed.
    type V = Seq<Seq<(Event, bool)>>;

    closed spec fn view(&self) -> Seq<Seq<(Event, bool)>> {
        records_of(self.senders@)
    }
}

impl OutputPort {
    /// The registered senders, in registration order.
    pub closed spec fn destinations(&self) -> Seq<Sender<Event>> {
        senders_of(self.senders@)
    }

    pub fn new() -> (r: OutputPort)
        ensures
            r@ == Seq::<Seq<(Event, bool)>>::empty(),
            r.destinations() == Seq::<Sender<Event>>::empty(),
    {
        let r = OutputPort { senders: Vec::new() };
        assert(r@ =~= Seq::<Seq<(Event, bool)>>::empty());
        assert(r.destinations() =~= Seq::<Sender<Event>>::empty());
        r
    }

    /// Registers one more destination, after the others.
    pub fn add_sender(&mut self, sender: Sender<Event>)
        ensures
            final(self).destinations() == old(self).destinations().push(sender),
            final(self)@ == old(self)@.push(Seq::<(Event, bool)>::empty()),
    {
        self.senders.push(Destination::new(sender));
        assert(self.destinations() =~= old(self).destinations().push(sender));
        assert(self@ =~= old(self)@.push(Seq::<(Event, bool)>::empty()));
    }

    /// The number of registered destinations.
    pub fn fan_out(&self) -> (r: usize)
        ensures
            r == self@.len(),
    {
        self.senders.len()
    }

    /// Hands a copy of `event` to every destination, in registration order,
    /// without blocking. A destination whose receiver is gone is passed over.
    /// Returns how many destinations took the event.
    pub fn send(&mut self, event: Event) -> (r: usize)
        ensures
            final(self).destinations() == old(self).destinations(),
            handed_once(old(self)@, final(self)@, event),
            r == taken_count(final(self)@),
    {
        hand_to_all(&mut self.senders, event)
    }
}

/// An input: holds at most one bound receiving half.
#[verifier::reject_recursive_types(T)]
pub struct InputPort<T> {
    receiver: Option<Receiver<T>>,
}

/// Binding a receiver onto an input that already has one.
#[derive(Clone, Copy, Debug, PartialEq, Eq, Structural)]
pub enum PortError {
    AlreadyBound,
}

impl<T> View for InputPort<T> {
    /// Whether a receiver is bound.
    type V = bool;

    closed spec fn view(&self) -> bool {
        self.receiver.is_some()
    }
}

impl<T> InputPort<T> {
    pub fn new() -> (r: InputPort<T>)
        ensures
            !r@,
            r.receiver() is None,
    {
        InputPort { receiver: None }
    }

    pub fn is_bound(&self) -> (r: bool)
        ensures
            r == self@,
    {
        self.receiver.is_some()
    }

    /// The bound receiving half, if any.
    pub closed spec fn receiver(&self) -> Option<Receiver<T>> {
        self.receiver
    }

    /// Binds the inbound channel; refused when one is bound already, in which
    /// case the port is left as it was.
    pub fn set_receiver(&mut self, receiver: Receiver<T>) -> (r: Result<(), PortError>)
        ensures
            r is Ok <==> !old(self)@,
            r is Ok ==> final(self).receiver() == Some(receiver),
            r is Err ==> r == Err::<(), PortError>(PortError::AlreadyBound) && final(self).receiver()
                == old(self).receiver(),
            final(self)@,
    {
        if self.receiver.is_some() {
            Err(PortError::AlreadyBound)
        } else {
            self.receiver = Some(receiver);
            Ok(())
        }
    }

    /// Non-blocking poll. An unbound port reads as `Disconnected`.
    pub fn receive(&self) -> (r: Poll<T>)
        ensures
            !self@ ==> r is Disconnected,
    {
        match &self.receiver {
            Some(receiver) => try_take(receiver),
            None => Poll::Disconnected,
        }
    }
}

} // verus!
