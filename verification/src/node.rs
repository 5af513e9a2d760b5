//! A registration's node: its packed state, its token slots and its counts.
use vstd::prelude::*;

use crate::event::{PollOpt, Ready, Token};
use crate::state::{AtomicState, ReadinessState};
#[allow(unused_imports)]
use crate::state::StateModel;

verus! {

/// The largest reference count from which another handle may be made.
pub const MAX_REFCOUNT: usize = isize::MAX as usize;

/// What the readiness queue keeps for one registration.
#[derive(Copy, Clone)]
pub struct ReadinessNode {
    /// Node state, see [`ReadinessState`].
    pub state: AtomicState,
    /// Three slots for setting tokens.
    pub token_0: Token,
    pub token_1: Token,
    pub token_2: Token,
    /// The node behind this one in the readiness queue, once the push of that
    /// node has got as far as saying so.
    pub next_readiness: Option<u64>,
    /// Update lock.
    pub update_lock: bool,
    /// Number of outstanding `SetReadiness` handles.
    pub num_set_readiness: usize,
    /// Number of outstanding `Registration` handles.
    pub num_registration: usize,
    /// Number of references to the node: one for each handle and one for the
    /// queue.
    pub ref_count: usize,
    /// Number of references that no handle is counted for, and that are not the
    /// queue's: those about to be released, and those of handles in the making.
    pub loose: Ghost<nat>,
    /// Number of threads that have dropped the last handle of one kind and are
    /// about to flag the node for it.
    pub flags_due: Ghost<nat>,
    /// Whether the queue has let go of the node.
    pub detached: Ghost<bool>,
}

/// What a node says, apart from its place in the queue.
#[verifier::ext_equal]
pub struct NodeModel {
    pub state: StateModel,
    pub tokens: Seq<Token>,
    pub update_lock: bool,
    pub num_set_readiness: nat,
    pub num_registration: nat,
    pub ref_count: nat,
    pub loose: nat,
    pub flags_due: nat,
    pub detached: bool,
}

impl View for ReadinessNode {
    type V = NodeModel;

    open spec fn view(&self) -> NodeModel {
        NodeModel {
            state: self.state.state()@,
            tokens: seq![self.token_0, self.token_1, self.token_2],
            update_lock: self.update_lock,
            num_set_readiness: self.num_set_readiness as nat,
            num_registration: self.num_registration as nat,
            ref_count: self.ref_count as nat,
            loose: self.loose@,
            flags_due: self.flags_due@,
            detached: self.detached@,
        }
    }
}

/// The first token slot that neither the polling side reads nor the
/// registration's current token is in.
pub open spec fn free_slot(poll_token: nat, registration_token: nat) -> nat {
    if poll_token != 0 && registration_token != 0 {
        0
    } else if poll_token != 1 && registration_token != 1 {
        1
    } else {
        2
    }
}

impl StateModel {
    /// The state once the readiness is set to `ready`: a readiness that is not
    /// blank also takes the right to push the node.
    pub open spec fn made_ready(self, ready: Ready) -> StateModel {
        StateModel { readiness: ready, queued: self.queued || ready.some(), ..self }
    }

    /// The state once the node is flagged as dropped, which also takes the
    /// right to push the node.
    pub open spec fn made_dropped(self) -> StateModel {
        StateModel { dropped: true, queued: true, ..self }
    }

    /// What the registration is told of: the readiness that it has an interest in.
    pub open spec fn pending(self) -> Ready {
        self.readiness.both(self.interest)
    }

    /// Whether polling leaves the node queued: it is not edge-triggered and
    /// there is something to tell.
    pub open spec fn stays_queued(self) -> bool {
        !self.opts.edge && self.pending().some()
    }

    /// Whether polling disarms the node: it is oneshot and there is something
    /// to tell.
    pub open spec fn disarms(self) -> bool {
        self.opts.oneshot && self.pending().some()
    }

    /// The state once the polling side has processed the node, which is not
    /// flagged as dropped.
    pub open spec fn polled(self) -> StateModel {
        StateModel {
            interest: if self.disarms() {
                Ready::nothing()
            } else {
                self.interest
            },
            opts: if self.disarms() {
                PollOpt::nothing()
            } else {
                self.opts
            },
            poll_token: self.registration_token,
            queued: self.stays_queued(),
            ..self
        }
    }

    /// The state once the registration has been updated: its token is in slot
    /// `slot`, and a node that is ready takes the right to be pushed.
    pub open spec fn updated(self, slot: nat, interest: Ready, opts: PollOpt) -> StateModel {
        StateModel {
            registration_token: slot,
            interest,
            opts,
            queued: self.queued || self.readiness.some(),
            ..self
        }
    }
}

impl NodeModel {
    /// The node of a registration whose two handles have just been made: only
    /// the first token slot is set, and the three references are those of the
    /// two handles and of the queue.
    pub open spec fn fresh(token: Token, interest: Ready, opts: PollOpt) -> NodeModel {
        NodeModel {
            state: StateModel::fresh(interest, opts),
            tokens: seq![token, Token(0), Token(0)],
            update_lock: false,
            num_set_readiness: 1,
            num_registration: 1,
            ref_count: 3,
            loose: 0,
            flags_due: 0,
            detached: false,
        }
    }

    /// A node that stands for no registration.
    pub open spec fn marker() -> NodeModel {
        NodeModel {
            state: StateModel::fresh(Ready::nothing(), PollOpt::nothing()),
            tokens: seq![Token(0), Token(0), Token(0)],
            update_lock: false,
            num_set_readiness: 0,
            num_registration: 0,
            ref_count: 0,
            loose: 0,
            flags_due: 0,
            detached: false,
        }
    }

    /// The registration's current token.
    pub open spec fn token(self) -> Token {
        self.tokens[self.state.registration_token as int]
    }

    /// The slot that an update to token `token` leaves the registration with:
    /// the one it has, if that holds `token`, and a free one otherwise.
    pub open spec fn slot_for(self, token: Token) -> nat {
        if self.token() == token {
            self.state.registration_token
        } else {
            free_slot(self.state.poll_token, self.state.registration_token)
        }
    }

    /// Whether an update to token `token` may write slot `slot`: neither the
    /// polling side reads it nor the registration's current token is in it, or
    /// that token is `token` anyway.
    pub open spec fn spares(self, slot: nat, token: Token) -> bool {
        &&& slot < 3
        &&& if slot == self.state.registration_token {
            self.token() == token
        } else {
            slot != self.state.poll_token
        }
    }

    /// The node once its registration has been updated.
    pub open spec fn updated(self, token: Token, interest: Ready, opts: PollOpt) -> NodeModel {
        NodeModel {
            state: self.state.updated(self.slot_for(token), interest, opts),
            tokens: self.tokens.update(self.slot_for(token) as int, token),
            ..self
        }
    }

    /// What holds of a registration's node at all times, `held` telling whether
    /// it is in the queue or some thread holds the right to push it.
    pub open spec fn inv(self, held: bool) -> bool {
        // The state has no bit above its fields, and its slots are slots.
        &&& self.state.spare == 0
        &&& self.state.poll_token < 3
        &&& self.state.registration_token < 3
        &&& self.tokens.len() == 3
        // Each handle holds one reference, the queue holds one until it lets go,
        // and the rest are on their way.
        &&& self.ref_count == self.num_set_readiness + self.num_registration + (if self.detached {
            0nat
        } else {
            1nat
        }) + self.loose
        &&& self.ref_count > 0
        // Once the handles of one kind are gone the node is flagged, or some
        // thread is about to flag it, before it releases its reference.
        &&& (self.num_set_readiness == 0 || self.num_registration == 0) <==> (self.state.dropped
            || self.flags_due > 0)
        &&& self.flags_due <= self.loose
        // A node that is flagged is queued, and stays so.
        &&& self.state.dropped ==> self.state.queued
        // The queue lets go only of flagged nodes, and only of nodes that
        // nobody will push.
        &&& if self.detached {
            self.state.dropped && !held
        } else {
            self.state.queued <==> held
        }
    }

    // ---- Steps ----

    /// A `Registration` handle not counted any more. Where it was the last one,
    /// the node is to be flagged.
    pub open spec fn registration_uncounted(self) -> NodeModel {
        NodeModel {
            num_registration: (self.num_registration - 1) as nat,
            loose: self.loose + 1,
            flags_due: self.flags_due + (if self.num_registration == 1 {
                1nat
            } else {
                0nat
            }),
            ..self
        }
    }

    /// A `SetReadiness` handle not counted any more. Where it was the last one,
    /// the node is to be flagged.
    pub open spec fn set_readiness_uncounted(self) -> NodeModel {
        NodeModel {
            num_set_readiness: (self.num_set_readiness - 1) as nat,
            loose: self.loose + 1,
            flags_due: self.flags_due + (if self.num_set_readiness == 1 {
                1nat
            } else {
                0nat
            }),
            ..self
        }
    }

    /// The node flagged as dropped.
    pub open spec fn flagged(self) -> NodeModel {
        NodeModel {
            state: self.state.made_dropped(),
            flags_due: (self.flags_due - 1) as nat,
            ..self
        }
    }

    /// One reference released.
    pub open spec fn released(self) -> NodeModel {
        NodeModel {
            ref_count: (self.ref_count - 1) as nat,
            loose: (self.loose - 1) as nat,
            ..self
        }
    }

    /// One reference taken, for a handle in the making.
    pub open spec fn retained(self) -> NodeModel {
        NodeModel { ref_count: self.ref_count + 1, loose: self.loose + 1, ..self }
    }

    /// A `SetReadiness` handle counted.
    pub open spec fn set_readiness_counted(self) -> NodeModel {
        NodeModel {
            num_set_readiness: self.num_set_readiness + 1,
            loose: (self.loose - 1) as nat,
            ..self
        }
    }

    /// The node that the queue has let go of: its reference is to be released.
    pub open spec fn let_go(self) -> NodeModel {
        NodeModel { detached: true, loose: self.loose + 1, ..self }
    }

    /// The token written to slot `slot`.
    pub open spec fn token_written(self, slot: nat, token: Token) -> NodeModel {
        NodeModel { tokens: self.tokens.update(slot as int, token), ..self }
    }

    /// The state stored by which the token in slot `slot`, the interest and the
    /// options take effect.
    pub open spec fn update_stored(self, slot: nat, interest: Ready, opts: PollOpt) -> NodeModel {
        NodeModel { state: self.state.updated(slot, interest, opts), ..self }
    }
}

/// The first token slot that is neither `poll_token` nor `registration_token`.
fn pick_free_slot(poll_token: usize, registration_token: usize) -> (r: usize)
    ensures
        r == free_slot(poll_token as nat, registration_token as nat),
        r < 3,
{
    if poll_token != 0 && registration_token != 0 {
        0
    } else if poll_token != 1 && registration_token != 1 {
        1
    } else {
        2
    }
}

/// What setting the readiness to `ready` makes of the state `curr`: the state
/// to store, and whether storing it wins the right to push the node.
pub fn propose_readiness(curr: ReadinessState, ready: Ready) -> (r: (ReadinessState, bool))
    ensures
        r.0@ == curr@.made_ready(ready),
        r.1 == (ready.some() && !curr@.queued),
        r.0@.readiness == ready,
        r.0@.queued == (curr@.queued || ready.readable || ready.writable || ready.error || ready.hup),
        r.0@.interest == curr@.interest,
        r.0@.opts == curr@.opts,
        r.0@.poll_token == curr@.poll_token,
        r.0@.registration_token == curr@.registration_token,
        r.0@.dropped == curr@.dropped,
        r.0@.spare == curr@.spare,
        r.1 == ((ready.readable || ready.writable || ready.error || ready.hup) && !curr@.queued),
{
    let mut next = curr;
    let mut queue = false;

    next.set_readiness(ready);

    if ready.is_some() {
        queue = next.set_queued();
    }
    (next, queue)
}

/// What flagging the node as dropped makes of the state `curr`: the state to
/// store, and whether storing it wins the right to push the node.
pub fn propose_dropped(curr: ReadinessState) -> (r: (ReadinessState, bool))
    ensures
        r.0@ == curr@.made_dropped(),
        r.1 == !curr@.queued,
        r.0@.dropped && r.0@.queued,
        r.0@.readiness == curr@.readiness,
        r.0@.interest == curr@.interest,
        r.0@.opts == curr@.opts,
        r.0@.poll_token == curr@.poll_token,
        r.0@.registration_token == curr@.registration_token,
        r.0@.spare == curr@.spare,
{
    let mut next = curr;

    next.set_dropped();
    let queue = next.set_queued();
    (next, queue)
}

/// What processing a node on the polling side makes of the state `curr`: the
/// state to store, and what the registration is to be told of.
pub fn propose_polled(curr: ReadinessState) -> (r: (ReadinessState, Ready))
    ensures
        r.0@ == curr@.polled(),
        r.1 == curr@.pending(),
        r.1.readable == (curr@.readiness.readable && curr@.interest.readable),
        r.1.writable == (curr@.readiness.writable && curr@.interest.writable),
        r.1.error == (curr@.readiness.error && curr@.interest.error),
        r.1.hup == (curr@.readiness.hup && curr@.interest.hup),
        r.0@.queued == (!curr@.opts.edge && (r.1.readable || r.1.writable || r.1.error || r.1.hup)),
        // Only a oneshot registration is disarmed, and only where it is told of.
        if curr@.opts.oneshot && (r.1.readable || r.1.writable || r.1.error || r.1.hup) {
            &&& r.0@.interest == (Ready {
                readable: false,
                writable: false,
                error: false,
                hup: false,
            })
            &&& r.0@.opts == (PollOpt { edge: false, level: false, oneshot: false, urgent: false })
        } else {
            r.0@.interest == curr@.interest && r.0@.opts == curr@.opts
        },
        r.0@.poll_token == curr@.registration_token,
        r.0@.readiness == curr@.readiness,
        r.0@.registration_token == curr@.registration_token,
        r.0@.dropped == curr@.dropped,
        r.0@.spare == curr@.spare,
{
    let mut next = curr;
    let events = curr.readiness().intersection(curr.interest());
    let opts = curr.poll_opt();
    let slot: usize = curr.registration_token();

    next.set_poll_token(slot);

    if opts.is_edge() || events.is_none() {
        next.clear_queued();
    } else {
        next.set_queued();
    }

    if events.is_some() && opts.is_oneshot() {
        next.set_interest(Ready::none());
        next.set_poll_opt(PollOpt::empty());
    }
    (next, events)
}

/// What updating the registration makes of the state `curr`, the token being in
/// slot `slot`: the state to store, and whether storing it wins the right to
/// push the node.
pub fn propose_update(curr: ReadinessState, slot: usize, interest: Ready, opts: PollOpt) -> (r: (
    ReadinessState,
    bool,
))
    requires
        slot < 3,
    ensures
        r.0@ == curr@.updated(slot as nat, interest, opts),
        r.1 == (curr@.readiness.some() && !curr@.queued),
        r.0@.registration_token == slot,
        r.0@.interest == interest,
        r.0@.opts == opts,
        r.0@.queued == (curr@.queued || curr@.readiness.readable || curr@.readiness.writable
            || curr@.readiness.error || curr@.readiness.hup),
        r.1 == (r.0@.queued && !curr@.queued),
        r.0@.readiness == curr@.readiness,
        r.0@.poll_token == curr@.poll_token,
        r.0@.dropped == curr@.dropped,
        r.0@.spare == curr@.spare,
{
    let mut next = curr;
    let mut queue = false;

    next.set_registration_token(slot);
    next.set_interest(interest);
    next.set_poll_opt(opts);

    if curr.readiness().is_some() {
        queue = next.set_queued();
    }
    (next, queue)
}

impl ReadinessNode {
    /// A new node, initialized with a reference count of three.
    pub fn new(token: Token, interest: Ready, opt: PollOpt) -> (r: ReadinessNode)
        ensures
            r@ == NodeModel::fresh(token, interest, opt),
            r.next_readiness is None,
            r.token_0 == token && r.token_1 == Token(0) && r.token_2 == Token(0),
            r.state.state()@.interest == interest,
            r.state.state()@.opts == opt,
            r.state.state()@.readiness == (Ready {
                readable: false,
                writable: false,
                error: false,
                hup: false,
            }),
            r.state.state()@.registration_token == 0 && r.state.state()@.poll_token == 0,
            !r.state.state()@.queued && !r.state.state()@.dropped && !r.update_lock,
            r.num_set_readiness == 1 && r.num_registration == 1 && r.ref_count == 3,
    {
        ReadinessNode {
            state: AtomicState::new(interest, opt),
            // Only the first token is set, the others are initialized to 0
            token_0: token,
            token_1: Token(0),
            token_2: Token(0),
            next_readiness: None,
            update_lock: false,
            num_set_readiness: 1,
            num_registration: 1,
            ref_count: 3,
            loose: Ghost(0),
            flags_due: Ghost(0),
            detached: Ghost(false),
        }
    }

    /// A node that stands for no registration.
    pub fn marker() -> (r: ReadinessNode)
        ensures
            r@ == NodeModel::marker(),
            r.next_readiness is None,
            r.token_0 == Token(0) && r.token_1 == Token(0) && r.token_2 == Token(0),
            !r.state.state()@.queued && !r.state.state()@.dropped && !r.update_lock,
            r.num_set_readiness == 0 && r.num_registration == 0 && r.ref_count == 0,
    {
        ReadinessNode {
            state: AtomicState::new(Ready::none(), PollOpt::empty()),
            token_0: Token(0),
            token_1: Token(0),
            token_2: Token(0),
            next_readiness: None,
            update_lock: false,
            num_set_readiness: 0,
            num_registration: 0,
            ref_count: 0,
            loose: Ghost(0),
            flags_due: Ghost(0),
            detached: Ghost(false),
        }
    }

    /// The token in slot `slot`.
    pub fn token_at(&self, slot: usize) -> (r: Token)
        requires
            slot < 3,
        ensures
            r == self@.tokens[slot as int],
            r == if slot == 0 {
                self.token_0
            } else if slot == 1 {
                self.token_1
            } else {
                self.token_2
            },
    {
        if slot == 0 {
            self.token_0
        } else if slot == 1 {
            self.token_1
        } else {
            self.token_2
        }
    }

    /// Writes `token` to slot `slot`.
    pub fn set_token_at(&mut self, slot: usize, token: Token)
        requires
            slot < 3,
        ensures
            final(self)@ == (NodeModel {
                tokens: old(self)@.tokens.update(slot as int, token),
                ..old(self)@
            }),
            final(self).next_readiness == old(self).next_readiness,
            final(self).state == old(self).state,
    {
        if slot == 0 {
            self.token_0 = token;
        } else if slot == 1 {
            self.token_1 = token;
        } else {
            self.token_2 = token;
        }
        assert(self@.tokens =~= old(self)@.tokens.update(slot as int, token));
    }

    /// The slot for token `token`: the one that the registration's current token
    /// is in, if it is the same, and otherwise one that neither the polling side
    /// reads nor the current token is in.
    pub fn slot_for(&self, token: Token) -> (r: usize)
        requires
            self@.state.registration_token < 3,
        ensures
            r == self@.slot_for(token),
            r < 3,
    {
        let curr = self.state.load();
        let curr_slot: usize = curr.registration_token();
        if self.token_at(curr_slot) == token {
            curr_slot
        } else {
            pick_free_slot(curr.poll_token(), curr_slot)
        }
    }
}

} // verus!
