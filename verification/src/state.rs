//! The word in which a node packs its whole state.
use vstd::prelude::*;

use crate::event::{
    opt_as_usize, opt_from_usize, ready_as_usize, ready_from_usize, PollOpt, Ready,
};

verus! {

pub const MASK_2: usize = 4 - 1;

pub const MASK_4: usize = 16 - 1;

pub const INTEREST_SHIFT: usize = 4;

pub const POLL_OPT_SHIFT: usize = 8;

pub const POLL_TOKEN_SHIFT: usize = 12;

pub const REGISTRATION_TOKEN_SHIFT: usize = 14;

pub const QUEUED_SHIFT: usize = 16;

pub const DROPPED_SHIFT: usize = 17;

pub const QUEUED_MASK: usize = 1 << QUEUED_SHIFT;

pub const DROPPED_MASK: usize = 1 << DROPPED_SHIFT;

/// The packed state of a node.
///
/// Ready:      4 bits
/// Interest:   4 bits
/// PollOpts:   4 bits
/// PollToken:  2 bits
/// RegToken:   2 bits
/// Enqueued:   1 bit
/// Dropped:    1 bit
#[derive(Debug, Copy, Clone, Eq, PartialEq, Structural)]
pub struct ReadinessState(pub usize);

/// What a packed state says.
pub struct StateModel {
    /// What the node is ready for.
    pub readiness: Ready,
    /// What the registration wants to hear of.
    pub interest: Ready,
    /// How the registration is polled.
    pub opts: PollOpt,
    /// The token slot that the polling side reads.
    pub poll_token: nat,
    /// The token slot that holds the registration's current token.
    pub registration_token: nat,
    /// Whether the right to push the node into the readiness queue is taken.
    pub queued: bool,
    /// Whether the last handle of one kind is gone.
    pub dropped: bool,
    /// The bits above the packed fields.
    pub spare: nat,
}

impl StateModel {
    /// A state with the given interest and options, ready for nothing, whose
    /// registration has written its first token slot.
    pub open spec fn fresh(interest: Ready, opts: PollOpt) -> StateModel {
        StateModel {
            readiness: Ready::nothing(),
            interest,
            opts,
            poll_token: 0,
            registration_token: 0,
            queued: false,
            dropped: false,
            spare: 0,
        }
    }

    /// The word that says this.
    pub open spec fn word(self) -> nat {
        (self.readiness.bits() + 16 * self.interest.bits() + 256 * self.opts.bits() + 4096
            * self.poll_token + 16384 * self.registration_token + (if self.queued {
            65536nat
        } else {
            0nat
        }) + (if self.dropped {
            131072nat
        } else {
            0nat
        }) + 262144 * self.spare)
    }
}

/// What the word `w` says.
#[verifier::opaque]
pub open spec fn fields_of(w: nat) -> StateModel {
    StateModel {
        readiness: Ready::of_bits(w % 16),
        interest: Ready::of_bits(w / 16 % 16),
        opts: PollOpt::of_bits(w / 256 % 16),
        poll_token: w / 4096 % 4,
        registration_token: w / 16384 % 4,
        queued: w / 65536 % 2 == 1,
        dropped: w / 131072 % 2 == 1,
        spare: w / 262144,
    }
}

impl View for ReadinessState {
    type V = StateModel;

    open spec fn view(&self) -> StateModel {
        fields_of(self.0 as nat)
    }
}

/// A packed state is the word that its fields say: no two states have the same
/// fields.
pub proof fn state_is_its_fields(s: ReadinessState)
    ensures
        s.0 == s@.word(),
{
    reveal(fields_of);
    let w = s.0 as nat;
    word_is_sum(s.0);
    crate::event::ready_bits_round_trip(s@.readiness, w % 16);
    crate::event::ready_bits_round_trip(s@.interest, w / 16 % 16);
    crate::event::opt_bits_round_trip(s@.opts, w / 256 % 16);
}

/// What writing a four-bit number over the readiness field does.
proof fn readiness_written(x: usize, v: usize)
    by (bit_vector)
    requires
        v <= 15,
    ensures
        ((x & !15usize) | v) % 16 == v,
        ((x & !15usize) | v) / 16 % 16 == x / 16 % 16,
        ((x & !15usize) | v) / 256 % 16 == x / 256 % 16,
        ((x & !15usize) | v) / 4096 % 4 == x / 4096 % 4,
        ((x & !15usize) | v) / 16384 % 4 == x / 16384 % 4,
        ((x & !15usize) | v) / 65536 % 2 == x / 65536 % 2,
        ((x & !15usize) | v) / 131072 % 2 == x / 131072 % 2,
        ((x & !15usize) | v) / 262144 == x / 262144,
{
}

/// What writing a four-bit number over the interest field does.
proof fn interest_written(x: usize, v: usize)
    by (bit_vector)
    requires
        v <= 15,
    ensures
        ((x & !(15usize << 4usize)) | (v << 4usize)) % 16 == x % 16,
        ((x & !(15usize << 4usize)) | (v << 4usize)) / 16 % 16 == v,
        ((x & !(15usize << 4usize)) | (v << 4usize)) / 256 % 16 == x / 256 % 16,
        ((x & !(15usize << 4usize)) | (v << 4usize)) / 4096 % 4 == x / 4096 % 4,
        ((x & !(15usize << 4usize)) | (v << 4usize)) / 16384 % 4 == x / 16384 % 4,
        ((x & !(15usize << 4usize)) | (v << 4usize)) / 65536 % 2 == x / 65536 % 2,
        ((x & !(15usize << 4usize)) | (v << 4usize)) / 131072 % 2 == x / 131072 % 2,
        ((x & !(15usize << 4usize)) | (v << 4usize)) / 262144 == x / 262144,
{
}

/// What writing a four-bit number over the options field does.
proof fn opts_written(x: usize, v: usize)
    by (bit_vector)
    requires
        v <= 15,
    ensures
        ((x & !(15usize << 8usize)) | (v << 8usize)) % 16 == x % 16,
        ((x & !(15usize << 8usize)) | (v << 8usize)) / 16 % 16 == x / 16 % 16,
        ((x & !(15usize << 8usize)) | (v << 8usize)) / 256 % 16 == v,
        ((x & !(15usize << 8usize)) | (v << 8usize)) / 4096 % 4 == x / 4096 % 4,
        ((x & !(15usize << 8usize)) | (v << 8usize)) / 16384 % 4 == x / 16384 % 4,
        ((x & !(15usize << 8usize)) | (v << 8usize)) / 65536 % 2 == x / 65536 % 2,
        ((x & !(15usize << 8usize)) | (v << 8usize)) / 131072 % 2 == x / 131072 % 2,
        ((x & !(15usize << 8usize)) | (v << 8usize)) / 262144 == x / 262144,
{
}

/// What writing a two-bit number over the polling side's slot does.
proof fn poll_token_written(x: usize, v: usize)
    by (bit_vector)
    requires
        v <= 3,
    ensures
        ((x & !(3usize << 12usize)) | (v << 12usize)) % 16 == x % 16,
        ((x & !(3usize << 12usize)) | (v << 12usize)) / 16 % 16 == x / 16 % 16,
        ((x & !(3usize << 12usize)) | (v << 12usize)) / 256 % 16 == x / 256 % 16,
        ((x & !(3usize << 12usize)) | (v << 12usize)) / 4096 % 4 == v,
        ((x & !(3usize << 12usize)) | (v << 12usize)) / 16384 % 4 == x / 16384 % 4,
        ((x & !(3usize << 12usize)) | (v << 12usize)) / 65536 % 2 == x / 65536 % 2,
        ((x & !(3usize << 12usize)) | (v << 12usize)) / 131072 % 2 == x / 131072 % 2,
        ((x & !(3usize << 12usize)) | (v << 12usize)) / 262144 == x / 262144,
{
}

/// What writing a two-bit number over the registration's slot does.
proof fn registration_token_written(x: usize, v: usize)
    by (bit_vector)
    requires
        v <= 3,
    ensures
        ((x & !(3usize << 14usize)) | (v << 14usize)) % 16 == x % 16,
        ((x & !(3usize << 14usize)) | (v << 14usize)) / 16 % 16 == x / 16 % 16,
        ((x & !(3usize << 14usize)) | (v << 14usize)) / 256 % 16 == x / 256 % 16,
        ((x & !(3usize << 14usize)) | (v << 14usize)) / 4096 % 4 == x / 4096 % 4,
        ((x & !(3usize << 14usize)) | (v << 14usize)) / 16384 % 4 == v,
        ((x & !(3usize << 14usize)) | (v << 14usize)) / 65536 % 2 == x / 65536 % 2,
        ((x & !(3usize << 14usize)) | (v << 14usize)) / 131072 % 2 == x / 131072 % 2,
        ((x & !(3usize << 14usize)) | (v << 14usize)) / 262144 == x / 262144,
{
}

/// What setting the queued bit does.
proof fn queued_written(x: usize)
    by (bit_vector)
    ensures
        (x | (1usize << 16usize)) % 16 == x % 16,
        (x | (1usize << 16usize)) / 16 % 16 == x / 16 % 16,
        (x | (1usize << 16usize)) / 256 % 16 == x / 256 % 16,
        (x | (1usize << 16usize)) / 4096 % 4 == x / 4096 % 4,
        (x | (1usize << 16usize)) / 16384 % 4 == x / 16384 % 4,
        (x | (1usize << 16usize)) / 65536 % 2 == 1,
        (x | (1usize << 16usize)) / 131072 % 2 == x / 131072 % 2,
        (x | (1usize << 16usize)) / 262144 == x / 262144,
{
}

/// What clearing the queued bit does.
proof fn queued_cleared(x: usize)
    by (bit_vector)
    ensures
        (x & !(1usize << 16usize)) % 16 == x % 16,
        (x & !(1usize << 16usize)) / 16 % 16 == x / 16 % 16,
        (x & !(1usize << 16usize)) / 256 % 16 == x / 256 % 16,
        (x & !(1usize << 16usize)) / 4096 % 4 == x / 4096 % 4,
        (x & !(1usize << 16usize)) / 16384 % 4 == x / 16384 % 4,
        (x & !(1usize << 16usize)) / 65536 % 2 == 0,
        (x & !(1usize << 16usize)) / 131072 % 2 == x / 131072 % 2,
        (x & !(1usize << 16usize)) / 262144 == x / 262144,
{
}

/// What setting the dropped bit does.
proof fn dropped_written(x: usize)
    by (bit_vector)
    ensures
        (x | (1usize << 17usize)) % 16 == x % 16,
        (x | (1usize << 17usize)) / 16 % 16 == x / 16 % 16,
        (x | (1usize << 17usize)) / 256 % 16 == x / 256 % 16,
        (x | (1usize << 17usize)) / 4096 % 4 == x / 4096 % 4,
        (x | (1usize << 17usize)) / 16384 % 4 == x / 16384 % 4,
        (x | (1usize << 17usize)) / 65536 % 2 == x / 65536 % 2,
        (x | (1usize << 17usize)) / 131072 % 2 == 1,
        (x | (1usize << 17usize)) / 262144 == x / 262144,
{
}

/// The fields of a fresh word.
proof fn fresh_word(a: usize, b: usize)
    by (bit_vector)
    requires
        a <= 15,
        b <= 15,
    ensures
        (a << 4usize) | (b << 8usize) == 16 * a + 256 * b,
        ((a << 4usize) | (b << 8usize)) % 16 == 0,
        ((a << 4usize) | (b << 8usize)) / 16 % 16 == a,
        ((a << 4usize) | (b << 8usize)) / 256 % 16 == b,
        ((a << 4usize) | (b << 8usize)) / 4096 % 4 == 0,
        ((a << 4usize) | (b << 8usize)) / 16384 % 4 == 0,
        ((a << 4usize) | (b << 8usize)) / 65536 % 2 == 0,
        ((a << 4usize) | (b << 8usize)) / 131072 % 2 == 0,
        ((a << 4usize) | (b << 8usize)) / 262144 == 0,
{
}

/// What shifting and masking the word reads.
proof fn fields_read(x: usize)
    by (bit_vector)
    ensures
        x & 15usize == x % 16,
        (x >> 4usize) & 15usize == x / 16 % 16,
        (x >> 8usize) & 15usize == x / 256 % 16,
        (x >> 12usize) & 3usize == x / 4096 % 4,
        (x >> 14usize) & 3usize == x / 16384 % 4,
        (x & (1usize << 16usize) == (1usize << 16usize)) == (x / 65536 % 2 == 1),
        (x & (1usize << 17usize) == (1usize << 17usize)) == (x / 131072 % 2 == 1),
{
}

/// A word is the sum of its fields at their places.
proof fn word_is_sum(x: usize)
    by (bit_vector)
    ensures
        x == x % 16 + 16 * (x / 16 % 16) + 256 * (x / 256 % 16) + 4096 * (x / 4096 % 4) + 16384 * (x
            / 16384 % 4) + 65536 * (x / 65536 % 2) + 131072 * (x / 131072 % 2) + 262144 * (x
            / 262144),
{
}

impl ReadinessState {
    /// A state with the given interest and options, ready for nothing.
    pub fn new(interest: Ready, opt: PollOpt) -> (r: ReadinessState)
        ensures
            r.0 == 16 * interest.bits() + 256 * opt.bits(),
            r@ == StateModel::fresh(interest, opt),
            r@.interest == interest,
            r@.opts == opt,
            r@.readiness == (Ready { readable: false, writable: false, error: false, hup: false }),
            r@.poll_token == 0 && r@.registration_token == 0,
            !r@.queued && !r@.dropped,
    {
        let interest_bits: usize = ready_as_usize(interest);
        let opt_bits: usize = opt_as_usize(opt);

        let mut val: usize = interest_bits << INTEREST_SHIFT;
        val = val | (opt_bits << POLL_OPT_SHIFT);
        proof {
            reveal(fields_of);
            fresh_word(interest_bits, opt_bits);
            crate::event::ready_bits_round_trip(interest, 0);
            crate::event::ready_bits_round_trip(Ready::nothing(), 0);
            crate::event::opt_bits_round_trip(opt, 0);
        }
        ReadinessState(val)
    }

    /// What the node is ready for.
    pub fn readiness(&self) -> (r: Ready)
        ensures
            r == self@.readiness,
    {
        proof {
            reveal(fields_of);
            fields_read(self.0);
        }
        ready_from_usize(self.0 & MASK_4)
    }

    /// Sets what the node is ready for.
    pub fn set_readiness(&mut self, v: Ready)
        ensures
            final(self)@ == (StateModel { readiness: v, ..old(self)@ }),
    {
        let bits: usize = ready_as_usize(v);
        proof {
            reveal(fields_of);
            readiness_written(self.0, bits);
            crate::event::ready_bits_round_trip(v, 0);
        }
        self.0 = (self.0 & !MASK_4) | bits;
    }

    /// What the registration wants to hear of.
    pub fn interest(&self) -> (r: Ready)
        ensures
            r == self@.interest,
    {
        proof {
            reveal(fields_of);
            fields_read(self.0);
        }
        let v: usize = self.0 >> INTEREST_SHIFT;
        ready_from_usize(v & MASK_4)
    }

    /// Sets what the registration wants to hear of.
    pub fn set_interest(&mut self, v: Ready)
        ensures
            final(self)@ == (StateModel { interest: v, ..old(self)@ }),
    {
        let bits: usize = ready_as_usize(v);
        proof {
            reveal(fields_of);
            interest_written(self.0, bits);
            crate::event::ready_bits_round_trip(v, 0);
        }
        self.0 = (self.0 & !(MASK_4 << INTEREST_SHIFT)) | (bits << INTEREST_SHIFT);
    }

    /// How the registration is polled.
    pub fn poll_opt(&self) -> (r: PollOpt)
        ensures
            r == self@.opts,
    {
        proof {
            reveal(fields_of);
            fields_read(self.0);
        }
        let v: usize = self.0 >> POLL_OPT_SHIFT;
        opt_from_usize(v & MASK_4)
    }

    /// Sets how the registration is polled.
    pub fn set_poll_opt(&mut self, v: PollOpt)
        ensures
            final(self)@ == (StateModel { opts: v, ..old(self)@ }),
    {
        let bits: usize = opt_as_usize(v);
        proof {
            reveal(fields_of);
            opts_written(self.0, bits);
            crate::event::opt_bits_round_trip(v, 0);
        }
        self.0 = (self.0 & !(MASK_4 << POLL_OPT_SHIFT)) | (bits << POLL_OPT_SHIFT);
    }

    /// The token slot that the polling side reads.
    pub fn poll_token(&self) -> (r: usize)
        ensures
            r == self@.poll_token,
            r <= MASK_2,
    {
        proof {
            reveal(fields_of);
            fields_read(self.0);
        }
        let v: usize = self.0 >> POLL_TOKEN_SHIFT;
        v & MASK_2
    }

    /// Sets the token slot that the polling side reads.
    pub fn set_poll_token(&mut self, v: usize)
        requires
            v <= MASK_2,
        ensures
            final(self)@ == (StateModel { poll_token: v as nat, ..old(self)@ }),
    {
        proof {
            reveal(fields_of);
            poll_token_written(self.0, v);
        }
        self.0 = (self.0 & !(MASK_2 << POLL_TOKEN_SHIFT)) | (v << POLL_TOKEN_SHIFT);
    }

    /// The token slot that holds the registration's current token.
    pub fn registration_token(&self) -> (r: usize)
        ensures
            r == self@.registration_token,
            r <= MASK_2,
    {
        proof {
            reveal(fields_of);
            fields_read(self.0);
        }
        let v: usize = self.0 >> REGISTRATION_TOKEN_SHIFT;
        v & MASK_2
    }

    /// Sets the token slot that holds the registration's current token.
    pub fn set_registration_token(&mut self, v: usize)
        requires
            v <= MASK_2,
        ensures
            final(self)@ == (StateModel { registration_token: v as nat, ..old(self)@ }),
    {
        proof {
            reveal(fields_of);
            registration_token_written(self.0, v);
        }
        self.0 = (self.0 & !(MASK_2 << REGISTRATION_TOKEN_SHIFT)) | (v << REGISTRATION_TOKEN_SHIFT);
    }

    /// Whether the queued flag is set.
    pub fn is_queued(&mut self) -> (r: bool)
        ensures
            r == old(self)@.queued,
            *final(self) == *old(self),
    {
        proof {
            reveal(fields_of);
            fields_read(self.0);
        }
        self.0 & QUEUED_MASK == QUEUED_MASK
    }

    /// Sets the queued flag, returns true if it was not set before.
    pub fn set_queued(&mut self) -> (r: bool)
        ensures
            r == !old(self)@.queued,
            final(self)@ == (StateModel { queued: true, ..old(self)@ }),
    {
        let ret = !self.is_queued();
        proof {
            reveal(fields_of);
            queued_written(self.0);
        }
        self.0 = self.0 | QUEUED_MASK;
        ret
    }

    /// Clears the queued flag.
    pub fn clear_queued(&mut self)
        ensures
            final(self)@ == (StateModel { queued: false, ..old(self)@ }),
    {
        proof {
            reveal(fields_of);
            queued_cleared(self.0);
        }
        self.0 = self.0 & !QUEUED_MASK;
    }

    /// Whether the dropped flag is set.
    pub fn is_dropped(&self) -> (r: bool)
        ensures
            r == self@.dropped,
    {
        proof {
            reveal(fields_of);
            fields_read(self.0);
        }
        self.0 & DROPPED_MASK == DROPPED_MASK
    }

    /// Sets the dropped flag.
    pub fn set_dropped(&mut self)
        ensures
            final(self)@ == (StateModel { dropped: true, ..old(self)@ }),
    {
        proof {
            reveal(fields_of);
            dropped_written(self.0);
        }
        self.0 = self.0 | DROPPED_MASK;
    }
}

impl From<ReadinessState> for usize {
    fn from(src: ReadinessState) -> (r: usize) {
        src.0
    }
}

impl vstd::std_specs::convert::FromSpecImpl<ReadinessState> for usize {
    open spec fn obeys_from_spec() -> bool {
        true
    }

    open spec fn from_spec(v: ReadinessState) -> usize {
        v.0
    }
}

impl From<usize> for ReadinessState {
    fn from(src: usize) -> (r: ReadinessState) {
        ReadinessState(src)
    }
}

impl vstd::std_specs::convert::FromSpecImpl<usize> for ReadinessState {
    open spec fn obeys_from_spec() -> bool {
        true
    }

    open spec fn from_spec(v: usize) -> ReadinessState {
        ReadinessState(v)
    }
}

/// The cell that holds a node's packed state.
///
/// A load and a compare-and-swap are the two accesses that it offers, and each
/// of them is one step: what happens between two steps of one handle is the
/// steps of the others.
#[derive(Debug, Copy, Clone, Eq, PartialEq, Structural)]
pub struct AtomicState {
    inner: usize,
}

impl AtomicState {
    /// The state that the cell holds.
    pub closed spec fn state(self) -> ReadinessState {
        ReadinessState(self.inner)
    }

    /// A cell that holds a fresh state with the given interest and options.
    pub fn new(interest: Ready, opt: PollOpt) -> (r: AtomicState)
        ensures
            r.state()@ == StateModel::fresh(interest, opt),
            r.state()@.interest == interest,
            r.state()@.opts == opt,
            r.state()@.readiness == (Ready { readable: false, writable: false, error: false, hup: false }),
            r.state()@.poll_token == 0 && r.state()@.registration_token == 0,
            !r.state()@.queued && !r.state()@.dropped,
    {
        let state = ReadinessState::new(interest, opt);

        AtomicState { inner: usize::from(state) }
    }

    /// Loads the current state.
    pub fn load(&self) -> (r: ReadinessState)
        ensures
            r == self.state(),
    {
        ReadinessState::from(self.inner)
    }

    /// Stores `new` if the current state is `current`. Returns the state that
    /// the cell held before, which is `current` exactly if `new` was stored.
    pub fn compare_and_swap(&mut self, current: ReadinessState, new: ReadinessState) -> (r:
        ReadinessState)
        ensures
            r == old(self).state(),
            final(self).state() == if old(self).state() == current {
                new
            } else {
                old(self).state()
            },
    {
        let actual: usize = self.inner;
        if actual == usize::from(current) {
            self.inner = usize::from(new);
        }
        ReadinessState::from(actual)
    }
}

} // verus!
