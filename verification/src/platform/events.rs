//! The event bus: an append-only, ordered, replayable event log.
//!
//! Delivery to live subscribers is left to the host, which asks
//! [`subscriber_accepts`] which subscriber wants an event.

use vstd::prelude::*;
use crate::sys::now_unix_nanos;
use crate::text::starts_with;

verus! {

/// Monotonic event identifier.
pub type EventId = u64;

/// Payload of an event.
#[derive(Debug, PartialEq)]
pub enum EventPayload {
    /// Text payload (e.g. an id).
    Text(String),
    /// Binary payload.
    Bytes(Vec<u8>),
    /// No payload.
    Empty,
}

/// The payload as values.
pub enum PayloadView {
    Text(Seq<char>),
    Bytes(Seq<u8>),
    Empty,
}

impl View for EventPayload {
    type V = PayloadView;

    open spec fn view(&self) -> PayloadView {
        match self {
            EventPayload::Text(s) => PayloadView::Text(s@),
            EventPayload::Bytes(b) => PayloadView::Bytes(b@),
            EventPayload::Empty => PayloadView::Empty,
        }
    }
}

impl Default for EventPayload {
    fn default() -> (p: EventPayload)
        ensures
            p == EventPayload::Empty,
    {
        EventPayload::Empty
    }
}

/// One event of the log.
#[derive(Debug, PartialEq)]
pub struct Event {
    /// Monotonic id.
    pub id: EventId,
    /// Event name (e.g. `module.installed`).
    pub name: String,
    /// Payload.
    pub payload: EventPayload,
    /// Publication time (unix nanoseconds).
    pub timestamp: i64,
}

/// An event as values.
pub struct EventView {
    pub id: EventId,
    pub name: Seq<char>,
    pub payload: PayloadView,
    pub timestamp: i64,
}

impl View for Event {
    type V = EventView;

    open spec fn view(&self) -> EventView {
        EventView { id: self.id, name: self.name@, payload: self.payload@, timestamp: self.timestamp }
    }
}

impl EventPayload {
    /// An independent copy.
    pub fn duplicate(&self) -> (p: EventPayload)
        ensures
            p@ == self@,
    {
        match self {
            EventPayload::Text(s) => EventPayload::Text(s.clone()),
            EventPayload::Bytes(b) => {
                let mut out: Vec<u8> = Vec::new();
                let mut i: usize = 0;
                while i < b.len()
                    invariant
                        i <= b@.len(),
                        out@ == b@.subrange(0, i as int),
                    decreases b@.len() - i,
                {
                    out.push(b[i]);
                    assert(out@ =~= b@.subrange(0, i + 1));
                    i = i + 1;
                }
                assert(out@ =~= b@);
                EventPayload::Bytes(out)
            },
            EventPayload::Empty => EventPayload::Empty,
        }
    }
}

impl Event {
    /// An independent copy.
    pub fn duplicate(&self) -> (e: Event)
        ensures
            e@ == self@,
    {
        Event {
            id: self.id,
            name: self.name.clone(),
            payload: self.payload.duplicate(),
            timestamp: self.timestamp,
        }
    }
}

/// The views of a sequence of events.
pub open spec fn event_views(s: Seq<Event>) -> Seq<EventView> {
    s.map_values(|e: Event| e@)
}

/// Whether `name` begins with `prefix`.
pub open spec fn has_prefix(name: Seq<char>, prefix: Seq<char>) -> bool {
    prefix.len() <= name.len() && name.subrange(0, prefix.len() as int) == prefix
}

/// Whether a subscriber with this name filter wants an event of this name:
/// an empty filter wants everything, otherwise the name must begin with it.
pub open spec fn accepts(filter: Seq<char>, name: Seq<char>) -> bool {
    filter.len() == 0 || has_prefix(name, filter)
}

/// Whether a subscriber with `filter` wants an event named `name`.
pub fn subscriber_accepts(filter: &str, name: &str) -> (b: bool)
    ensures
        b == accepts(filter@, name@),
{
    filter.unicode_len() == 0 || starts_with(name, filter)
}

/// The event log.
#[derive(Debug)]
pub struct EventBus {
    log: Vec<Event>,
    next_id: EventId,
    capacity: usize,
    published: u64,
}

impl Default for EventBus {
    fn default() -> (b: EventBus)
        ensures
            b.wf(),
            b.events() == Seq::<EventView>::empty(),
            b.capacity() == 1024,
    {
        EventBus::new()
    }
}

impl EventBus {
    /// The events of the log, in publication order.
    pub closed spec fn events(&self) -> Seq<EventView> {
        event_views(self.log@)
    }

    /// The capacity announced to live subscribers.
    pub closed spec fn capacity(&self) -> usize {
        self.capacity
    }

    /// Well-formedness: event `i` of the log has id `i + 1`, and the
    /// published count is the length of the log.
    pub closed spec fn wf(&self) -> bool {
        &&& self.published == self.log@.len()
        &&& self.next_id == self.published + 1
        &&& forall|i: int| 0 <= i < self.log@.len() ==> #[trigger] self.log@[i].id == i + 1
    }

    /// A fresh bus announcing capacity 1024 to subscribers.
    pub fn new() -> (b: EventBus)
        ensures
            b.wf(),
            b.events() == Seq::<EventView>::empty(),
            b.capacity() == 1024,
    {
        EventBus::with_capacity(1024)
    }

    /// A fresh bus announcing this capacity to subscribers.
    pub fn with_capacity(capacity: usize) -> (b: EventBus)
        ensures
            b.wf(),
            b.events() == Seq::<EventView>::empty(),
            b.capacity() == capacity,
    {
        let b = EventBus { log: Vec::new(), next_id: 1, capacity, published: 0 };
        assert(b.events() =~= Seq::<EventView>::empty());
        b
    }

    /// The capacity announced to live subscribers.
    pub fn subscriber_capacity(&self) -> (c: usize)
        ensures
            c == self.capacity(),
    {
        self.capacity
    }

    /// Number of events ever published.
    pub fn published_count(&self) -> (n: u64)
        requires
            self.wf(),
        ensures
            n == self.events().len(),
    {
        self.published
    }

    /// Number of events in the log.
    pub fn log_len(&self) -> (n: usize)
        ensures
            n == self.events().len(),
    {
        self.log.len()
    }

    /// Publish an event with a text payload; returns its id.
    pub fn publish(&mut self, name: &str, payload: &str) -> (id: EventId)
        requires
            old(self).wf(),
            old(self).events().len() < u64::MAX - 1,
        ensures
            final(self).wf(),
            final(self).capacity() == old(self).capacity(),
            id == old(self).events().len() + 1,
            final(self).events().len() == old(self).events().len() + 1,
            final(self).events().drop_last() == old(self).events(),
            final(self).events().last().id == id,
            final(self).events().last().name == name@,
            final(self).events().last().payload == PayloadView::Text(payload@),
    {
        self.publish_event(name.to_owned(), EventPayload::Text(payload.to_owned()))
    }

    /// Publish an event with the given payload; returns its id.
    pub fn publish_event(&mut self, name: String, payload: EventPayload) -> (id: EventId)
        requires
            old(self).wf(),
            old(self).events().len() < u64::MAX - 1,
        ensures
            final(self).wf(),
            final(self).capacity() == old(self).capacity(),
            id == old(self).events().len() + 1,
            final(self).events().len() == old(self).events().len() + 1,
            final(self).events().drop_last() == old(self).events(),
            final(self).events().last().id == id,
            final(self).events().last().name == name@,
            final(self).events().last().payload == payload@,
    {
        let id = self.next_id;
        self.next_id = self.next_id + 1;
        let event = Event { id, name, payload, timestamp: now_unix_nanos() };
        let ghost prev = self.events();
        let ghost ev = event@;
        self.log.push(event);
        self.published = self.published + 1;
        assert(self.events() =~= prev.push(ev));
        assert(self.events().drop_last() =~= prev);
        id
    }

    /// The events with id at least `from_id`, in order.
    pub fn replay(&self, from_id: EventId) -> (r: Vec<Event>)
        ensures
            event_views(r@) == self.events().filter(|e: EventView| e.id >= from_id),
    {
        let empty = "";
        proof {
            reveal_strlit("");
            assert(empty@.len() == 0);
            let p1 = |e: EventView| e.id >= from_id && has_prefix(e.name, empty@);
            let p2 = |e: EventView| e.id >= from_id;
            assert forall|e: EventView| #[trigger] p1(e) == p2(e) by {
                assert(e.name.subrange(0, 0) =~= empty@);
            }
            assert(p1 =~= p2);
        }
        self.replay_filtered(from_id, empty)
    }

    /// The events with id at least `from_id` whose name begins with
    /// `prefix`, in order.
    pub fn replay_filtered(&self, from_id: EventId, prefix: &str) -> (r: Vec<Event>)
        ensures
            event_views(r@) == self.events().filter(
                |e: EventView| e.id >= from_id && has_prefix(e.name, prefix@),
            ),
    {
        let ghost all = self.events();
        let ghost p = |e: EventView| e.id >= from_id && has_prefix(e.name, prefix@);
        let mut out: Vec<Event> = Vec::new();
        let mut i: usize = 0;
        proof {
            crate::seq_facts::lemma_filter_take_zero(all, p);
        }
        while i < self.log.len()
            invariant
                i <= self.log@.len(),
                all == self.events(),
                p == (|e: EventView| e.id >= from_id && has_prefix(e.name, prefix@)),
                event_views(out@) == all.take(i as int).filter(p),
            decreases self.log@.len() - i,
        {
            proof {
                crate::seq_facts::lemma_filter_take_step(all, p, i as int);
            }
            if self.log[i].id >= from_id && starts_with(self.log[i].name.as_str(), prefix) {
                let e = self.log[i].duplicate();
                let ghost prev = event_views(out@);
                let ghost ev = e@;
                out.push(e);
                assert(event_views(out@) =~= prev.push(ev));
            }
            i = i + 1;
        }
        proof {
            crate::seq_facts::lemma_take_full(all);
        }
        out
    }

    /// The event with this id.
    pub fn get(&self, id: EventId) -> (r: Option<Event>)
        requires
            self.wf(),
        ensures
            match r {
                Some(e) => 1 <= id <= self.events().len() && e@ == self.events()[id - 1],
                None => !(1 <= id <= self.events().len()),
            },
    {
        if id >= 1 && id <= self.log.len() as u64 {
            Some(self.log[(id - 1) as usize].duplicate())
        } else {
            None
        }
    }

    /// A copy of the whole log.
    pub fn snapshot(&self) -> (r: Vec<Event>)
        ensures
            event_views(r@) == self.events(),
    {
        let mut out: Vec<Event> = Vec::new();
        let mut i: usize = 0;
        while i < self.log.len()
            invariant
                i <= self.log@.len(),
                event_views(out@) == self.events().take(i as int),
            decreases self.log@.len() - i,
        {
            let e = self.log[i].duplicate();
            let ghost prev = event_views(out@);
            let ghost ev = e@;
            out.push(e);
            assert(event_views(out@) =~= prev.push(ev));
            assert(self.events().take(i + 1) =~= self.events().take(i as int).push(ev));
            i = i + 1;
        }
        assert(self.events().take(self.log@.len() as int) =~= self.events());
        out
    }
}

/// What publishing `name` with a text payload does to an optional bus:
/// nothing without a bus or once the id space is used up, otherwise one
/// event is appended.
pub open spec fn emitted(old_bus: Option<EventBus>, new_bus: Option<EventBus>, name: Seq<char>, payload: Seq<char>) -> bool {
    match (old_bus, new_bus) {
        (Some(o), Some(n)) => {
            &&& n.wf()
            &&& n.capacity() == o.capacity()
            &&& if o.events().len() < u64::MAX - 1 {
                &&& n.events().len() == o.events().len() + 1
                &&& n.events().drop_last() == o.events()
                &&& n.events().last().name == name
                &&& n.events().last().payload == PayloadView::Text(payload)
            } else {
                n.events() == o.events()
            }
        },
        (None, None) => true,
        _ => false,
    }
}

/// An absent bus, or a well-formed one.
pub open spec fn bus_wf(bus: Option<EventBus>) -> bool {
    match bus {
        Some(b) => b.wf(),
        None => true,
    }
}

/// Publish `name` with a text payload on the bus, if there is one and its
/// ids are not used up.
pub fn emit_on(bus: &mut Option<EventBus>, name: &str, payload: &str)
    requires
        bus_wf(*old(bus)),
    ensures
        emitted(*old(bus), *final(bus), name@, payload@),
{
    match bus {
        Some(b) => {
            if b.published_count() < u64::MAX - 1 {
                b.publish(name, payload);
            }
        },
        None => {},
    }
}

/// Ids in the log increase strictly with publication order: an event
/// published later has a larger id.
pub proof fn lemma_event_ids_increase(bus: EventBus, i: int, j: int)
    requires
        bus.wf(),
        0 <= i < j < bus.events().len(),
    ensures
        bus.events()[i].id < bus.events()[j].id,
{
    assert(bus.events()[i].id == bus.log@[i].id);
    assert(bus.events()[j].id == bus.log@[j].id);
}

} // verus!
