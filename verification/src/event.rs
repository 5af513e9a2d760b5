//! Tokens, readiness sets, poll options and events.
use vstd::prelude::*;

verus! {

/// Identifies a registration in the events that it causes.
#[derive(Debug, Clone, Copy, PartialEq, Eq, Structural)]
pub struct Token(pub usize);

/// A set of readiness kinds.
#[derive(Debug, Clone, Copy, PartialEq, Eq, Structural)]
pub struct Ready {
    pub readable: bool,
    pub writable: bool,
    pub error: bool,
    pub hup: bool,
}

/// A set of options for how a registration is polled.
#[derive(Debug, Clone, Copy, PartialEq, Eq, Structural)]
pub struct PollOpt {
    pub edge: bool,
    pub level: bool,
    pub oneshot: bool,
    pub urgent: bool,
}

/// Says that the registration with token `token` has become ready.
#[derive(Debug, Clone, Copy, PartialEq, Eq, Structural)]
pub struct Event {
    pub kind: Ready,
    pub token: Token,
}

/// The value of four flags read as a binary number, `b0` the lowest digit.
pub open spec fn nibble(b0: bool, b1: bool, b2: bool, b3: bool) -> nat {
    ((if b0 { 1nat } else { 0nat }) + (if b1 { 2nat } else { 0nat }) + (if b2 { 4nat } else { 0nat })
        + (if b3 { 8nat } else { 0nat }))
}

/// Whether binary digit `i` of `v` is set, for the four lowest digits.
#[verifier::opaque]
pub open spec fn digit(v: nat, i: nat) -> bool {
    if i == 0 {
        v % 2 == 1
    } else if i == 1 {
        v / 2 % 2 == 1
    } else if i == 2 {
        v / 4 % 2 == 1
    } else {
        v / 8 % 2 == 1
    }
}

impl Ready {
    /// The set that holds no kind.
    pub open spec fn nothing() -> Ready {
        Ready { readable: false, writable: false, error: false, hup: false }
    }

    /// The number that stands for this set.
    pub open spec fn bits(self) -> nat {
        nibble(self.readable, self.writable, self.error, self.hup)
    }

    /// The set that the four lowest binary digits of `v` stand for.
    pub open spec fn of_bits(v: nat) -> Ready {
        Ready { readable: digit(v, 0), writable: digit(v, 1), error: digit(v, 2), hup: digit(v, 3) }
    }

    /// Whether some kind is in the set.
    pub open spec fn some(self) -> bool {
        self.readable || self.writable || self.error || self.hup
    }

    /// The kinds that are in both sets.
    pub open spec fn both(self, other: Ready) -> Ready {
        Ready {
            readable: self.readable && other.readable,
            writable: self.writable && other.writable,
            error: self.error && other.error,
            hup: self.hup && other.hup,
        }
    }

    /// The kinds that are in either set.
    pub open spec fn either(self, other: Ready) -> Ready {
        Ready {
            readable: self.readable || other.readable,
            writable: self.writable || other.writable,
            error: self.error || other.error,
            hup: self.hup || other.hup,
        }
    }

    /// The empty set.
    pub fn none() -> (r: Ready)
        ensures
            r == Ready::nothing(),
            !r.readable && !r.writable && !r.error && !r.hup,
    {
        Ready { readable: false, writable: false, error: false, hup: false }
    }

    /// Ready to be read from.
    pub fn readable() -> (r: Ready)
        ensures
            r == (Ready { readable: true, writable: false, error: false, hup: false }),
    {
        Ready { readable: true, writable: false, error: false, hup: false }
    }

    /// Ready to be written to.
    pub fn writable() -> (r: Ready)
        ensures
            r == (Ready { readable: false, writable: true, error: false, hup: false }),
    {
        Ready { readable: false, writable: true, error: false, hup: false }
    }

    /// An error has occurred.
    pub fn error() -> (r: Ready)
        ensures
            r == (Ready { readable: false, writable: false, error: true, hup: false }),
    {
        Ready { readable: false, writable: false, error: true, hup: false }
    }

    /// The other side has hung up.
    pub fn hup() -> (r: Ready)
        ensures
            r == (Ready { readable: false, writable: false, error: false, hup: true }),
    {
        Ready { readable: false, writable: false, error: false, hup: true }
    }

    /// Every kind.
    pub fn all() -> (r: Ready)
        ensures
            r == (Ready { readable: true, writable: true, error: true, hup: true }),
    {
        Ready { readable: true, writable: true, error: true, hup: true }
    }

    /// Whether the set is empty.
    pub fn is_none(&self) -> (r: bool)
        ensures
            r == !self.some(),
            r == (!self.readable && !self.writable && !self.error && !self.hup),
    {
        !self.is_some()
    }

    /// Whether the set holds some kind.
    pub fn is_some(&self) -> (r: bool)
        ensures
            r == self.some(),
            r == (self.readable || self.writable || self.error || self.hup),
    {
        self.readable || self.writable || self.error || self.hup
    }

    /// Whether the set holds the readable kind.
    pub fn is_readable(&self) -> (r: bool)
        ensures
            r == self.readable,
    {
        self.readable
    }

    /// Whether the set holds the writable kind.
    pub fn is_writable(&self) -> (r: bool)
        ensures
            r == self.writable,
    {
        self.writable
    }

    /// The kinds that are in both sets.
    pub fn intersection(self, other: Ready) -> (r: Ready)
        ensures
            r == self.both(other),
            r.readable == (self.readable && other.readable),
            r.writable == (self.writable && other.writable),
            r.error == (self.error && other.error),
            r.hup == (self.hup && other.hup),
    {
        Ready {
            readable: self.readable && other.readable,
            writable: self.writable && other.writable,
            error: self.error && other.error,
            hup: self.hup && other.hup,
        }
    }

    /// The kinds that are in either set.
    pub fn union(self, other: Ready) -> (r: Ready)
        ensures
            r == self.either(other),
            r.readable == (self.readable || other.readable),
            r.writable == (self.writable || other.writable),
            r.error == (self.error || other.error),
            r.hup == (self.hup || other.hup),
    {
        Ready {
            readable: self.readable || other.readable,
            writable: self.writable || other.writable,
            error: self.error || other.error,
            hup: self.hup || other.hup,
        }
    }
}

impl PollOpt {
    /// The set that holds no option.
    pub open spec fn nothing() -> PollOpt {
        PollOpt { edge: false, level: false, oneshot: false, urgent: false }
    }

    /// The number that stands for this set.
    pub open spec fn bits(self) -> nat {
        nibble(self.edge, self.level, self.oneshot, self.urgent)
    }

    /// The set that the four lowest binary digits of `v` stand for.
    pub open spec fn of_bits(v: nat) -> PollOpt {
        PollOpt { edge: digit(v, 0), level: digit(v, 1), oneshot: digit(v, 2), urgent: digit(v, 3) }
    }

    /// The options that are in either set.
    pub open spec fn either(self, other: PollOpt) -> PollOpt {
        PollOpt {
            edge: self.edge || other.edge,
            level: self.level || other.level,
            oneshot: self.oneshot || other.oneshot,
            urgent: self.urgent || other.urgent,
        }
    }

    /// No options.
    pub fn empty() -> (r: PollOpt)
        ensures
            r == PollOpt::nothing(),
            !r.edge && !r.level && !r.oneshot && !r.urgent,
    {
        PollOpt { edge: false, level: false, oneshot: false, urgent: false }
    }

    /// Edge-triggered notifications.
    pub fn edge() -> (r: PollOpt)
        ensures
            r == (PollOpt { edge: true, level: false, oneshot: false, urgent: false }),
    {
        PollOpt { edge: true, level: false, oneshot: false, urgent: false }
    }

    /// Level-triggered notifications.
    pub fn level() -> (r: PollOpt)
        ensures
            r == (PollOpt { edge: false, level: true, oneshot: false, urgent: false }),
    {
        PollOpt { edge: false, level: true, oneshot: false, urgent: false }
    }

    /// A single notification, after which the registration is disarmed.
    pub fn oneshot() -> (r: PollOpt)
        ensures
            r == (PollOpt { edge: false, level: false, oneshot: true, urgent: false }),
    {
        PollOpt { edge: false, level: false, oneshot: true, urgent: false }
    }

    /// Whether the set holds the edge-triggered option.
    pub fn is_edge(&self) -> (r: bool)
        ensures
            r == self.edge,
    {
        self.edge
    }

    /// Whether the set holds the oneshot option.
    pub fn is_oneshot(&self) -> (r: bool)
        ensures
            r == self.oneshot,
    {
        self.oneshot
    }

    /// The options that are in either set.
    pub fn union(self, other: PollOpt) -> (r: PollOpt)
        ensures
            r == self.either(other),
            r.edge == (self.edge || other.edge),
            r.level == (self.level || other.level),
            r.oneshot == (self.oneshot || other.oneshot),
            r.urgent == (self.urgent || other.urgent),
    {
        PollOpt {
            edge: self.edge || other.edge,
            level: self.level || other.level,
            oneshot: self.oneshot || other.oneshot,
            urgent: self.urgent || other.urgent,
        }
    }
}

impl Event {
    /// An event for the registration with token `token`.
    pub fn new(kind: Ready, token: Token) -> (r: Event)
        ensures
            r == (Event { kind, token }),
    {
        Event { kind, token }
    }
}

/// Four flags as a number below sixteen, `b0` the lowest binary digit.
fn nibble_as_usize(b0: bool, b1: bool, b2: bool, b3: bool) -> (r: usize)
    ensures
        r == nibble(b0, b1, b2, b3),
        r <= 15,
{
    let d0: usize = if b0 { 1 } else { 0 };
    let d1: usize = if b1 { 2 } else { 0 };
    let d2: usize = if b2 { 4 } else { 0 };
    let d3: usize = if b3 { 8 } else { 0 };
    d0 + d1 + d2 + d3
}

/// The number that stands for a readiness set.
pub fn ready_as_usize(events: Ready) -> (r: usize)
    ensures
        r == events.bits(),
        r <= 15,
        events.readable == (r % 2 == 1),
        events.writable == (r / 2 % 2 == 1),
        events.error == (r / 4 % 2 == 1),
        events.hup == (r / 8 % 2 == 1),
{
    nibble_as_usize(events.readable, events.writable, events.error, events.hup)
}

/// The number that stands for a set of poll options.
pub fn opt_as_usize(opt: PollOpt) -> (r: usize)
    ensures
        r == opt.bits(),
        r <= 15,
        opt.edge == (r % 2 == 1),
        opt.level == (r / 2 % 2 == 1),
        opt.oneshot == (r / 4 % 2 == 1),
        opt.urgent == (r / 8 % 2 == 1),
{
    nibble_as_usize(opt.edge, opt.level, opt.oneshot, opt.urgent)
}

/// The readiness set that the four lowest binary digits of `val` stand for.
pub fn ready_from_usize(val: usize) -> (r: Ready)
    ensures
        r == Ready::of_bits(val as nat),
        r.readable == (val % 2 == 1),
        r.writable == (val / 2 % 2 == 1),
        r.error == (val / 4 % 2 == 1),
        r.hup == (val / 8 % 2 == 1),
{
    proof {
        reveal(digit);
    }
    Ready {
        readable: val % 2 == 1,
        writable: val / 2 % 2 == 1,
        error: val / 4 % 2 == 1,
        hup: val / 8 % 2 == 1,
    }
}

/// The poll options that the four lowest binary digits of `val` stand for.
pub fn opt_from_usize(val: usize) -> (r: PollOpt)
    ensures
        r == PollOpt::of_bits(val as nat),
        r.edge == (val % 2 == 1),
        r.level == (val / 2 % 2 == 1),
        r.oneshot == (val / 4 % 2 == 1),
        r.urgent == (val / 8 % 2 == 1),
{
    proof {
        reveal(digit);
    }
    PollOpt {
        edge: val % 2 == 1,
        level: val / 2 % 2 == 1,
        oneshot: val / 4 % 2 == 1,
        urgent: val / 8 % 2 == 1,
    }
}

/// A readiness set is the one that its number stands for, and a number below
/// sixteen is that of the set it stands for.
pub proof fn ready_bits_round_trip(r: Ready, v: nat)
    requires
        v < 16,
    ensures
        Ready::of_bits(r.bits()) == r,
        Ready::of_bits(v).bits() == v,
        r.bits() < 16,
{
    reveal(digit);
}

/// A set of poll options is the one that its number stands for, and a number
/// below sixteen is that of the set it stands for.
pub proof fn opt_bits_round_trip(o: PollOpt, v: nat)
    requires
        v < 16,
    ensures
        PollOpt::of_bits(o.bits()) == o,
        PollOpt::of_bits(v).bits() == v,
        o.bits() < 16,
{
    reveal(digit);
}

} // verus!
