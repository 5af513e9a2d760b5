//! The two handles of a registration: the one that owns it and the one that sets
//! its readiness.
use vstd::prelude::*;

use crate::event::{PollOpt, Ready, Token};
use crate::model::QueueModel;
use crate::node::MAX_REFCOUNT;
use crate::poll::{Error, Poll};
use crate::queue::ReadinessQueue;

verus! {

/// Handle to a Poll registration. Used for registering custom types for event
/// notifications.
pub struct Registration {
    inner: RegistrationInner,
}

/// Used to update readiness for an associated `Registration`.
pub struct SetReadiness {
    inner: RegistrationInner,
}

/// What both handles know: the queue and the node in it.
pub struct RegistrationInner {
    source: Ghost<int>,
    queue: u64,
    node: u64,
}

impl RegistrationInner {
    /// Where the number of the queue comes from.
    pub closed spec fn source(&self) -> int {
        self.source@
    }

    /// The number of the queue.
    pub closed spec fn queue_id(&self) -> u64 {
        self.queue
    }

    /// The name of the node.
    pub closed spec fn node_id(&self) -> u64 {
        self.node
    }

    /// Whether the node is a live node of the queue `m`.
    pub open spec fn belongs_to(&self, m: QueueModel) -> bool {
        self.source() == m.source && self.queue_id() == m.id && m.live(self.node_id())
    }

    /// The registration's readiness.
    fn readiness(&self, queue: &ReadinessQueue) -> (r: Ready)
        requires
            self.belongs_to(queue@),
        ensures
            r == queue@.nodes[self.node_id()].state.readiness,
    {
        queue.readiness(self.node)
    }

    /// Sets the registration's readiness. Returns true if `Poll` needs to be
    /// woken up.
    fn set_readiness(&self, queue: &mut ReadinessQueue, ready: Ready) -> (r: bool)
        requires
            old(queue).wf(),
            self.belongs_to(old(queue)@),
        ensures
            final(queue).wf(),
            final(queue)@ == old(queue)@.readied(self.node_id(), ready),
            r == (old(queue)@.ready_wins(self.node_id(), ready) && old(queue)@.asleep()),
            final(queue)@.nodes[self.node_id()].state.readiness == ready,
            r == ((ready.readable || ready.writable || ready.error || ready.hup)
                && !old(queue)@.nodes[self.node_id()].state.queued && old(queue)@.order.last() == 1),
    {
        queue.set_readiness(self.node, ready)
    }

    /// Updates the registration, if it was made with `queue`.
    fn update(&self, queue: &mut ReadinessQueue, token: Token, interest: Ready, opts: PollOpt) -> (r:
        Result<(), Error>)
        requires
            old(queue).wf(),
            self.source() == old(queue)@.source,
            self.queue_id() == old(queue)@.id ==> self.belongs_to(old(queue)@),
        ensures
            final(queue).wf(),
            r == if self.queue_id() == old(queue)@.id {
                Ok::<(), Error>(())
            } else {
                Err(Error::OtherPoll)
            },
            final(queue)@ == if self.queue_id() == old(queue)@.id
                && !old(queue)@.nodes[self.node_id()].update_lock {
                old(queue)@.updated(self.node_id(), token, interest, opts)
            } else {
                old(queue)@
            },
    {
        if self.queue != queue.id() {
            return Err(Error::OtherPoll);
        }
        // No wakeup is due to anyone: the caller has the poll handle in hand, so that
        // nobody waits in it. Should the queue sleep all the same, the next turn finds
        // the node in it and does not wait.
        queue.update(self.node, token, interest, opts);
        Ok(())
    }
}

impl Registration {
    /// Where the number of the queue comes from.
    pub closed spec fn source(&self) -> int {
        self.inner.source()
    }

    /// The number of the queue.
    pub closed spec fn queue_id(&self) -> u64 {
        self.inner.queue_id()
    }

    /// The name of the node.
    pub closed spec fn node_id(&self) -> u64 {
        self.inner.node_id()
    }

    /// Whether the queue `m` holds the registration and counts this handle.
    pub open spec fn belongs_to(&self, m: QueueModel) -> bool {
        &&& self.source() == m.source
        &&& self.queue_id() == m.id
        &&& m.live(self.node_id())
        &&& m.nodes[self.node_id()].num_registration > 0
    }

    /// A new registration with the given poll handle, and the handle that sets
    /// its readiness.
    pub fn new<S>(poll: &mut Poll<S>, token: Token, interest: Ready, opt: PollOpt) -> (r: (
        Registration,
        SetReadiness,
    ))
        requires
            old(poll).readiness_queue.wf(),
            old(poll).readiness_queue@.next_id < u64::MAX,
        ensures
            final(poll).readiness_queue.wf(),
            final(poll).readiness_queue@ == old(poll).readiness_queue@.registered(
                token,
                interest,
                opt,
            ),
            final(poll).selector == old(poll).selector,
            r.0.node_id() == old(poll).readiness_queue@.next_id,
            r.1.node_id() == old(poll).readiness_queue@.next_id,
            final(poll).readiness_queue@.nodes[r.0.node_id()].tokens[0] == token,
            final(poll).readiness_queue@.nodes[r.0.node_id()].state.registration_token == 0,
            final(poll).readiness_queue@.nodes[r.0.node_id()].state.interest == interest,
            final(poll).readiness_queue@.nodes[r.0.node_id()].state.opts == opt,
            final(poll).readiness_queue@.order == old(poll).readiness_queue@.order,
            r.0.belongs_to(final(poll).readiness_queue@),
            r.1.belongs_to(final(poll).readiness_queue@),
    {
        let ghost source = poll.readiness_queue@.source;
        let queue: u64 = poll.readiness_queue.id();
        let node: u64 = poll.readiness_queue.register(token, interest, opt);

        let registration = Registration {
            inner: RegistrationInner { source: Ghost(source), queue, node },
        };
        let set_readiness = SetReadiness {
            inner: RegistrationInner { source: Ghost(source), queue, node },
        };
        (registration, set_readiness)
    }

    /// Updates the token, the interest and the options of the registration,
    /// unless another update of it is under way. Refused if the registration was
    /// made with another poll handle, which has to be numbered from the same source
    /// as `poll`.
    pub fn update<S>(&self, poll: &mut Poll<S>, token: Token, interest: Ready, opts: PollOpt) -> (r:
        Result<(), Error>)
        requires
            old(poll).readiness_queue.wf(),
            self.source() == old(poll).readiness_queue@.source,
            self.queue_id() == old(poll).readiness_queue@.id ==> self.belongs_to(
                old(poll).readiness_queue@,
            ),
        ensures
            final(poll).readiness_queue.wf(),
            final(poll).selector == old(poll).selector,
            r == if self.queue_id() == old(poll).readiness_queue@.id {
                Ok::<(), Error>(())
            } else {
                Err(Error::OtherPoll)
            },
            final(poll).readiness_queue@ == if self.queue_id() == old(poll).readiness_queue@.id
                && !old(poll).readiness_queue@.nodes[self.node_id()].update_lock {
                old(poll).readiness_queue@.updated(self.node_id(), token, interest, opts)
            } else {
                old(poll).readiness_queue@
            },
            r is Ok && !old(poll).readiness_queue@.nodes[self.node_id()].update_lock ==> ({
                let node = final(poll).readiness_queue@.nodes[self.node_id()];
                &&& node.tokens[node.state.registration_token as int] == token
                &&& node.state.interest == interest
                &&& node.state.opts == opts
                &&& node.state.readiness
                    == old(poll).readiness_queue@.nodes[self.node_id()].state.readiness
            }),
    {
        self.inner.update(&mut poll.readiness_queue, token, interest, opts)
    }

    /// Makes the registration ask for nothing. Refused as an update is.
    pub fn deregister<S>(&self, poll: &mut Poll<S>) -> (r: Result<(), Error>)
        requires
            old(poll).readiness_queue.wf(),
            self.source() == old(poll).readiness_queue@.source,
            self.queue_id() == old(poll).readiness_queue@.id ==> self.belongs_to(
                old(poll).readiness_queue@,
            ),
        ensures
            final(poll).readiness_queue.wf(),
            final(poll).selector == old(poll).selector,
            r == if self.queue_id() == old(poll).readiness_queue@.id {
                Ok::<(), Error>(())
            } else {
                Err(Error::OtherPoll)
            },
            final(poll).readiness_queue@ == if self.queue_id() == old(poll).readiness_queue@.id
                && !old(poll).readiness_queue@.nodes[self.node_id()].update_lock {
                old(poll).readiness_queue@.updated(
                    self.node_id(),
                    Token(0),
                    Ready::nothing(),
                    PollOpt::nothing(),
                )
            } else {
                old(poll).readiness_queue@
            },
            r is Ok && !old(poll).readiness_queue@.nodes[self.node_id()].update_lock ==> ({
                let node = final(poll).readiness_queue@.nodes[self.node_id()];
                &&& !node.state.interest.readable && !node.state.interest.writable
                &&& !node.state.interest.error && !node.state.interest.hup
            }),
    {
        self.inner.update(&mut poll.readiness_queue, Token(0), Ready::none(), PollOpt::empty())
    }

    /// Drops the handle. Returns true if `Poll` needs to be woken up.
    pub fn drop(self, queue: &mut ReadinessQueue) -> (r: bool)
        requires
            old(queue).wf(),
            self.belongs_to(old(queue)@),
        ensures
            final(queue).wf(),
            final(queue)@ == old(queue)@.registration_dropped(self.node_id()),
            r == (old(queue)@.nodes[self.node_id()].num_registration == 1
                && !old(queue)@.nodes[self.node_id()].state.queued && old(queue)@.asleep()),
    {
        queue.drop_registration(self.inner.node)
    }
}

impl SetReadiness {
    /// Where the number of the queue comes from.
    pub closed spec fn source(&self) -> int {
        self.inner.source()
    }

    /// The number of the queue.
    pub closed spec fn queue_id(&self) -> u64 {
        self.inner.queue_id()
    }

    /// The name of the node.
    pub closed spec fn node_id(&self) -> u64 {
        self.inner.node_id()
    }

    /// Whether the queue `m` holds the registration and counts this handle.
    pub open spec fn belongs_to(&self, m: QueueModel) -> bool {
        &&& self.source() == m.source
        &&& self.queue_id() == m.id
        &&& m.live(self.node_id())
        &&& m.nodes[self.node_id()].num_set_readiness > 0
    }

    /// The registration's readiness.
    pub fn readiness(&self, queue: &ReadinessQueue) -> (r: Ready)
        requires
            self.belongs_to(queue@),
        ensures
            r == queue@.nodes[self.node_id()].state.readiness,
    {
        self.inner.readiness(queue)
    }

    /// Sets the registration's readiness. Returns true if `Poll` needs to be
    /// woken up.
    pub fn set_readiness(&self, queue: &mut ReadinessQueue, ready: Ready) -> (r: bool)
        requires
            old(queue).wf(),
            self.belongs_to(old(queue)@),
        ensures
            final(queue).wf(),
            final(queue)@ == old(queue)@.readied(self.node_id(), ready),
            r == (old(queue)@.ready_wins(self.node_id(), ready) && old(queue)@.asleep()),
            final(queue)@.nodes[self.node_id()].state.readiness == ready,
            r == ((ready.readable || ready.writable || ready.error || ready.hup)
                && !old(queue)@.nodes[self.node_id()].state.queued && old(queue)@.order.last() == 1),
    {
        self.inner.set_readiness(queue, ready)
    }

    /// Whether another handle can be made.
    pub fn can_clone(&self, queue: &ReadinessQueue) -> (r: bool)
        requires
            self.belongs_to(queue@),
        ensures
            r == (queue@.nodes[self.node_id()].ref_count <= MAX_REFCOUNT),
    {
        queue.can_clone(self.inner.node)
    }

    /// Another handle to the same registration.
    pub fn clone(&self, queue: &mut ReadinessQueue) -> (r: SetReadiness)
        requires
            old(queue).wf(),
            self.belongs_to(old(queue)@),
            old(queue)@.nodes[self.node_id()].ref_count <= MAX_REFCOUNT,
        ensures
            final(queue).wf(),
            final(queue)@ == old(queue)@.with_node(
                self.node_id(),
                old(queue)@.nodes[self.node_id()].after_clone(),
            ),
            r.source() == self.source(),
            r.queue_id() == self.queue_id(),
            r.node_id() == self.node_id(),
    {
        queue.clone_set_readiness(self.inner.node);
        SetReadiness {
            inner: RegistrationInner {
                source: self.inner.source,
                queue: self.inner.queue,
                node: self.inner.node,
            },
        }
    }

    /// Drops the handle. Returns true if `Poll` needs to be woken up.
    pub fn drop(self, queue: &mut ReadinessQueue) -> (r: bool)
        requires
            old(queue).wf(),
            self.belongs_to(old(queue)@),
        ensures
            final(queue).wf(),
            final(queue)@ == old(queue)@.set_readiness_dropped(self.node_id()),
            r == (old(queue)@.nodes[self.node_id()].num_set_readiness == 1
                && !old(queue)@.nodes[self.node_id()].state.queued && old(queue)@.asleep()),
    {
        queue.drop_set_readiness(self.inner.node)
    }
}

} // verus!
