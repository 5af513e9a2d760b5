//! The buffer that a poll fills with events.
use vstd::prelude::*;

use crate::event::Event;

verus! {

/// A buffer for events to get placed into, passed to `Poll::poll`.
///
/// This structure is normally re-used on each turn of the event loop.
#[derive(Debug)]
pub struct Events {
    inner: Vec<Event>,
    capacity: usize,
}

/// Walks over the events of a buffer.
pub struct EventsIter<'a> {
    inner: &'a Events,
    pos: usize,
}

impl View for Events {
    type V = Seq<Event>;

    closed spec fn view(&self) -> Seq<Event> {
        self.inner@
    }
}

impl Events {
    /// How many events the buffer was made for.
    pub closed spec fn room(&self) -> usize {
        self.capacity
    }

    /// A blank set of events, made for up to `capacity` events.
    ///
    /// The parameter is an indicator of how many events can be returned each
    /// turn of the event loop. It is not a hard limit.
    pub fn with_capacity(capacity: usize) -> (r: Events)
        ensures
            r@ == Seq::<Event>::empty(),
            r.room() == capacity,
    {
        Events { inner: Vec::new(), capacity }
    }

    /// How many events the buffer was made for.
    pub fn capacity(&self) -> (r: usize)
        ensures
            r == self.room(),
    {
        self.capacity
    }

    /// The `idx`-th event, or `None` if the buffer holds no such event.
    pub fn get(&self, idx: usize) -> (r: Option<Event>)
        ensures
            r == if idx < self@.len() {
                Some(self@[idx as int])
            } else {
                None
            },
    {
        if idx < self.inner.len() {
            Some(self.inner[idx])
        } else {
            None
        }
    }

    /// How many events the buffer contains.
    pub fn len(&self) -> (r: usize)
        ensures
            r == self@.len(),
    {
        self.inner.len()
    }

    /// Whether the buffer contains no events.
    pub fn is_empty(&self) -> (r: bool)
        ensures
            r == (self@.len() == 0),
    {
        self.inner.len() == 0
    }

    /// Adds an event at the end.
    pub fn push_event(&mut self, event: Event)
        ensures
            final(self)@ == old(self)@.push(event),
            final(self).room() == old(self).room(),
    {
        self.inner.push(event);
    }

    /// Takes all events out.
    pub fn clear(&mut self)
        ensures
            final(self)@ == Seq::<Event>::empty(),
            final(self).room() == old(self).room(),
    {
        self.inner.clear();
    }

    /// A walk over the events, from the first on.
    pub fn iter(&self) -> (r: EventsIter<'_>)
        ensures
            r.events() == self@,
            r.at() == 0,
    {
        EventsIter { inner: self, pos: 0 }
    }
}

impl<'a> EventsIter<'a> {
    /// The events that are walked over.
    pub closed spec fn events(&self) -> Seq<Event> {
        self.inner@
    }

    /// How many steps the walk has made.
    pub closed spec fn at(&self) -> usize {
        self.pos
    }

    /// The next event, or `None` once all events have been given.
    pub fn next(&mut self) -> (r: Option<Event>)
        requires
            old(self).at() < usize::MAX,
        ensures
            r == if old(self).at() < old(self).events().len() {
                Some(old(self).events()[old(self).at() as int])
            } else {
                None
            },
            final(self).events() == old(self).events(),
            final(self).at() == old(self).at() + 1,
    {
        let ret = self.inner.get(self.pos);
        self.pos = self.pos + 1;
        ret
    }
}

} // verus!
