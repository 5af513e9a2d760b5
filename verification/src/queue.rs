//! The readiness queue: an intrusive queue of nodes to which any number of
//! handles push and from which one poll takes.
//!
//! A push is two steps, a swap of the newest entry and the write of the link to
//! it, and so is a rotation, which puts the end marker behind all entries. Apart
//! from these, what the poll does to the front of the queue is seen by no other
//! handle. A node's state changes by compare-and-swap, a handle is made and dropped
//! by changes of the node's counts, one after the other, and an update is made
//! under the node's update lock. Each of these steps is a function here and keeps
//! the queue in order, whatever other handles do between two of them. The
//! functions that do a whole operation are made of them.
use std::collections::HashMap;

use vstd::prelude::*;

use crate::event::{Event, PollOpt, Ready, Token};
use crate::events::Events;
use crate::model::{QueueModel, END_MARKER, SLEEP_MARKER};
use crate::node::{
    propose_dropped, propose_polled, propose_readiness, propose_update, NodeModel, ReadinessNode,
    MAX_REFCOUNT,
};
use crate::state::ReadinessState;

verus! {

broadcast use vstd::std_specs::hash::group_hash_axioms;

/// What an attempt to take a node out of the queue has come to.
#[derive(Debug, Copy, Clone, PartialEq, Eq, Structural)]
pub enum Dequeue {
    /// The node that was taken out.
    Data(u64),
    /// No node is in the queue.
    Empty,
    /// The node in front is being pushed at this moment, or the one behind it is.
    Inconsistent,
}

/// What storing the state that polling makes of a node has come to.
#[derive(Debug, Copy, Clone, PartialEq, Eq, Structural)]
pub enum Polled {
    /// The node is flagged as dropped: the queue's reference is to be released.
    LetGo,
    /// The node has caused this event and is to be put back.
    Kept(Event),
    /// The node is out of the queue, and has caused this event, if any.
    Done(Option<Event>),
}

/// Gives out the numbers by which queues are told apart, each of them once. A
/// process has one of these, from which all its queues are made.
pub struct QueueIds {
    next: u64,
    source: Ghost<int>,
}

impl QueueIds {
    /// Which source this is. Nothing else is known of it, so that queues can be
    /// shown to have their numbers from one source only where they do.
    pub closed spec fn source(&self) -> int {
        self.source@
    }

    /// The number that is given out next: all smaller ones have been given out,
    /// and no others.
    pub closed spec fn upcoming(&self) -> u64 {
        self.next
    }

    /// A source that has given out nothing.
    pub fn new() -> (r: QueueIds)
        ensures
            r.upcoming() == 0,
    {
        QueueIds { next: 0, source: Ghost(arbitrary()) }
    }

    /// Whether a number is left to be given out.
    pub fn can_give(&self) -> (r: bool)
        ensures
            r == (self.upcoming() < u64::MAX),
    {
        self.next < u64::MAX
    }

    /// Gives out a number.
    fn give(&mut self) -> (id: u64)
        requires
            old(self).upcoming() < u64::MAX,
        ensures
            id == old(self).upcoming(),
            final(self).upcoming() == id + 1,
            final(self).source() == old(self).source(),
    {
        let id: u64 = self.next;
        self.next = id + 1;
        id
    }
}

/// The readiness queue and the nodes of its registrations.
pub struct ReadinessQueue {
    /// Where the number of this queue comes from.
    source: Ghost<int>,
    /// The number of this queue.
    id: u64,
    /// The live nodes, by name.
    nodes: HashMap<u64, ReadinessNode>,
    /// The name that the next node gets.
    next_id: u64,
    /// The newest entry, where nodes are pushed.
    head_readiness: u64,
    /// The oldest entry, where nodes are taken.
    tail_readiness: u64,
    /// The entries, the oldest first.
    order: Ghost<Seq<u64>>,
    /// The nodes outside the queue that some thread has the right to push.
    claimed: Ghost<Set<u64>>,
}

impl View for ReadinessQueue {
    type V = QueueModel;

    closed spec fn view(&self) -> QueueModel {
        QueueModel {
            source: self.source@,
            id: self.id,
            nodes: self.nodes@.map_values(|n: ReadinessNode| n@),
            order: self.order@,
            unlinked: Set::new(
                |k: u64|
                    self.order@.contains(k) && k != self.order@.last()
                        && self.nodes@[k].next_readiness is None,
            ),
            claimed: self.claimed@,
            next_id: self.next_id,
        }
    }
}

impl ReadinessQueue {
    /// The links and the two ends say what the order of the entries is.
    pub closed spec fn links_wf(&self) -> bool {
        let order = self.order@;
        let nodes = self.nodes@;
        &&& order.len() > 0
        &&& order.no_duplicates()
        &&& forall|k: u64| #[trigger] order.contains(k) ==> nodes.contains_key(k)
        &&& self.head_readiness == order.last()
        &&& self.tail_readiness == order[0]
        &&& forall|i: int|
            0 <= i < order.len() - 1 ==> ((#[trigger] nodes[order[i]]).next_readiness is None
                || nodes[order[i]].next_readiness == Some(order[i + 1]))
        &&& nodes[order.last()].next_readiness is None
        &&& forall|k: u64| #[trigger]
            nodes.contains_key(k) && !order.contains(k) ==> nodes[k].next_readiness is None
    }

    /// The queue is in order.
    pub open spec fn wf(&self) -> bool {
        self.links_wf() && self@.inv()
    }

    /// Node `k`.
    fn node(&self, k: u64) -> (r: ReadinessNode)
        requires
            self@.nodes.contains_key(k),
        ensures
            r == self.nodes@[k],
            r@ == self@.nodes[k],
    {
        match self.nodes.get(&k) {
            Some(n) => *n,
            None => {
                assert(false);
                ReadinessNode::marker()
            },
        }
    }

    /// Replaces node `k` by `n`, which has the same link.
    fn put(&mut self, k: u64, n: ReadinessNode)
        requires
            old(self).links_wf(),
            old(self)@.nodes.contains_key(k),
            n.next_readiness == old(self).nodes@[k].next_readiness,
        ensures
            final(self).links_wf(),
            final(self)@ == old(self)@.with_node(k, n@),
            final(self).nodes@ == old(self).nodes@.insert(k, n),
    {
        self.nodes.insert(k, n);
        proof {
            assert(self@ =~= old(self)@.with_node(k, n@)) by {
                assert(self@.nodes =~= old(self)@.nodes.insert(k, n@));
                assert(self@.unlinked =~= old(self)@.unlinked);
            }
        }
    }

    /// An empty queue, with a number that no other queue made from `ids` has.
    pub fn new(ids: &mut QueueIds) -> (r: ReadinessQueue)
        requires
            old(ids).upcoming() < u64::MAX,
        ensures
            r.wf(),
            r@ == QueueModel::initial(old(ids).source(), old(ids).upcoming()),
            final(ids).upcoming() == old(ids).upcoming() + 1,
            final(ids).source() == old(ids).source(),
    {
        let id: u64 = ids.give();
        let mut nodes: HashMap<u64, ReadinessNode> = HashMap::new();
        nodes.insert(END_MARKER, ReadinessNode::marker());
        nodes.insert(SLEEP_MARKER, ReadinessNode::marker());

        let r = ReadinessQueue {
            source: Ghost(ids.source()),
            id,
            nodes,
            next_id: 2,
            head_readiness: END_MARKER,
            tail_readiness: END_MARKER,
            order: Ghost(Seq::empty().push(END_MARKER)),
            claimed: Ghost(Set::empty()),
        };
        proof {
            crate::model::initial_inv(ids.source(), id);
            assert(r.order@ =~= seq![END_MARKER]);
            assert(r@ =~= QueueModel::initial(ids.source(), id)) by {
                assert(r@.nodes =~= QueueModel::initial(ids.source(), id).nodes);
                assert(r@.unlinked =~= Set::empty());
            }
        }
        r
    }

    /// Makes `n` the newest entry. Returns the entry that was the newest before.
    fn swap_head(&mut self, n: u64) -> (prev: u64)
        requires
            old(self).links_wf(),
            old(self)@.nodes.contains_key(n),
            !old(self)@.order.contains(n),
        ensures
            final(self).links_wf(),
            prev == old(self)@.order.last(),
            final(self)@ == old(self)@.swapped(n),
    {
        let prev: u64 = self.head_readiness;
        self.head_readiness = n;
        proof {
            crate::model::push_contains(self.order@, n);
            self.order@ = self.order@.push(n);
            self.claimed@ = self.claimed@.remove(n);
            assert(self@ =~= old(self)@.swapped(n)) by {
                assert(old(self).order@.contains(old(self).order@.last())) by {
                    assert(old(self).order@[old(self).order@.len() - 1] == prev);
                }
                assert(self@.unlinked =~= old(self)@.unlinked.insert(prev));
            }
            assert forall|i: int| 0 <= i < self.order@.len() - 1 implies ((
            #[trigger] self.nodes@[self.order@[i]]).next_readiness is None
                || self.nodes@[self.order@[i]].next_readiness == Some(self.order@[i + 1])) by {
                assert(self.order@[i] == old(self).order@[i]);
                if i < old(self).order@.len() - 1 {
                    assert(self.order@[i + 1] == old(self).order@[i + 1]);
                }
            }
        }
        prev
    }

    /// Writes to the entry `prev` that `n` follows it.
    fn write_link(&mut self, prev: u64, n: u64)
        requires
            old(self).links_wf(),
            old(self)@.link_due(prev, n),
        ensures
            final(self).links_wf(),
            final(self)@ == old(self)@.linked(prev),
    {
        let ghost i = choose|i: int|
            0 <= i < self.order@.len() - 1 && #[trigger] self.order@[i] == prev && self.order@[i
                + 1] == n;
        assert(self.order@.contains(prev));
        let mut node = self.node(prev);
        node.next_readiness = Some(n);
        self.nodes.insert(prev, node);
        proof {
            assert(self@ =~= old(self)@.linked(prev)) by {
                assert(self@.nodes =~= old(self)@.nodes);
                assert(self@.unlinked =~= old(self)@.unlinked.remove(prev));
            }
        }
    }

    /// Takes the oldest entry, which another follows and has the link to it, out
    /// of the queue.
    fn pop(&mut self) -> (k: u64)
        requires
            old(self).links_wf(),
            old(self)@.order.len() > 1,
            !old(self)@.unlinked.contains(old(self)@.order[0]),
        ensures
            final(self).links_wf(),
            k == old(self)@.order[0],
            final(self)@ == (QueueModel { order: old(self)@.order.drop_first(), ..old(self)@ }),
    {
        let tail: u64 = self.tail_readiness;
        assert(self.order@.contains(tail));
        let mut node = self.node(tail);
        let ghost after = self.order@[1];
        assert(self.nodes@[self.order@[0]].next_readiness == Some(after));
        if let Some(next) = node.next_readiness {
            self.tail_readiness = next;
        }
        node.next_readiness = None;
        self.nodes.insert(tail, node);
        proof {
            let order = old(self).order@;
            crate::model::drop_first_contains(order);
            self.order@ = order.drop_first();
            assert(self.order@.last() == order.last());
            assert(self@ =~= (QueueModel { order: order.drop_first(), ..old(self)@ })) by {
                assert(self@.nodes =~= old(self)@.nodes);
                assert(self@.unlinked =~= old(self)@.unlinked);
            }
            assert forall|i: int| 0 <= i < self.order@.len() - 1 implies ((
            #[trigger] self.nodes@[self.order@[i]]).next_readiness is None
                || self.nodes@[self.order@[i]].next_readiness == Some(self.order@[i + 1])) by {
                assert(self.order@[i] == order[i + 1]);
                assert(self.order@[i + 1] == order[i + 1 + 1]);
                assert(self.order@[i] != tail);
                let _ = old(self).nodes@[order[i + 1]];
            }
        }
        tail
    }

    /// Replaces node `k` by `n`, which is in order, and takes the right to push
    /// it, if `taken`.
    fn change(&mut self, k: u64, n: ReadinessNode, taken: bool)
        requires
            old(self).wf(),
            old(self)@.live(k),
            n.next_readiness == old(self).nodes@[k].next_readiness,
            taken ==> !old(self)@.held(k),
            n@.inv(old(self)@.held(k) || taken),
        ensures
            final(self).wf(),
            final(self)@ == old(self)@.with_node(k, n@).with_claim(k, taken),
    {
        self.put(k, n);
        proof {
            crate::model::node_change_inv(old(self)@, k, n@, taken);
            if taken {
                self.claimed@ = self.claimed@.insert(k);
            }
            assert(self@ =~= old(self)@.with_node(k, n@).with_claim(k, taken));
        }
    }

    /// Releases one reference to node `k`, for which no handle is counted any
    /// more and no flag is due, and frees the node if that was the last one.
    /// Returns whether it was.
    pub fn release_node(&mut self, k: u64) -> (r: bool)
        requires
            old(self).wf(),
            old(self)@.live(k),
            old(self)@.nodes[k].loose > old(self)@.nodes[k].flags_due,
        ensures
            final(self).wf(),
            final(self)@ == old(self)@.released(k),
            r == (old(self)@.nodes[k].ref_count == 1),
            r == !final(self)@.live(k),
    {
        proof {
            crate::model::released_inv(self@, k);
        }
        let mut node = self.node(k);
        if node.ref_count != 1 {
            node.ref_count = node.ref_count - 1;
            proof {
                node.loose@ = (node.loose@ - 1) as nat;
                assert(node@ =~= old(self)@.nodes[k].released());
            }
            self.put(k, node);
            return false;
        }
        self.nodes.remove(&k);
        proof {
            assert(self@.nodes =~= old(self)@.nodes.remove(k));
            assert(self@.unlinked =~= old(self)@.unlinked);
        }
        true
    }

    /// The marker that punctuates the end of what one poll processes.
    pub fn end_marker(&self) -> (r: u64)
        ensures
            r == END_MARKER,
    {
        END_MARKER
    }

    /// The marker that signals that `Poll` has gone to sleep.
    pub fn sleep_marker(&self) -> (r: u64)
        ensures
            r == SLEEP_MARKER,
    {
        SLEEP_MARKER
    }

    /// Whether this is the same queue as `other`. Both have to be made from one
    /// source of numbers.
    pub fn identical(&self, other: &ReadinessQueue) -> (r: bool)
        requires
            self@.source == other@.source,
        ensures
            r == self@.same_queue(other@),
    {
        self.id == other.id
    }

    /// The number of this queue.
    pub fn id(&self) -> (r: u64)
        ensures
            r == self@.id,
    {
        self.id
    }

    /// Whether no node is in the queue.
    pub fn is_empty(&self) -> (r: bool)
        requires
            self.wf(),
        ensures
            r == (self@.order.len() == 1),
    {
        self.head_readiness == self.tail_readiness
    }

    /// The number of live nodes.
    pub fn node_count(&self) -> (r: usize)
        requires
            self.wf(),
        ensures
            r == self@.nodes.dom().len() - 2,
    {
        proof {
            assert(self@.nodes.dom() =~= self.nodes@.dom());
            let d = self.nodes@.dom();
            assert(d.remove(END_MARKER).contains(SLEEP_MARKER));
            assert(d.remove(END_MARKER).remove(SLEEP_MARKER).len() + 2 == d.len());
        }
        self.nodes.len() - 2
    }

    /// Whether there is a name left for another node.
    pub fn can_register(&self) -> (r: bool)
        ensures
            r == (self@.next_id < u64::MAX),
    {
        self.next_id < u64::MAX
    }

    /// Makes a node for a registration. Returns the node's name.
    pub fn register(&mut self, token: Token, interest: Ready, opt: PollOpt) -> (k: u64)
        requires
            old(self).wf(),
            old(self)@.next_id < u64::MAX,
        ensures
            final(self).wf(),
            k == old(self)@.next_id,
            !old(self)@.nodes.contains_key(k),
            final(self)@.nodes[k].tokens[final(self)@.nodes[k].state.registration_token as int]
                == token,
            final(self)@.nodes[k].state.interest == interest,
            final(self)@.nodes[k].state.opts == opt,
            final(self)@ == old(self)@.registered(token, interest, opt),
    {
        let k: u64 = self.next_id;
        proof {
            crate::model::registered_inv(self@, token, interest, opt);
            assert(!self@.order.contains(k));
        }
        self.nodes.insert(k, ReadinessNode::new(token, interest, opt));
        self.next_id = k + 1;
        proof {
            assert(self@ =~= old(self)@.registered(token, interest, opt)) by {
                assert(self@.nodes =~= old(self)@.registered(token, interest, opt).nodes);
                assert(self@.unlinked =~= old(self)@.unlinked);
            }
        }
        k
    }

    /// Attempts to go to sleep, by putting the sleep marker in the place of the
    /// end marker. Returns true if `Poll` can sleep.
    pub fn prepare_for_sleep(&mut self) -> (r: bool)
        requires
            old(self).wf(),
        ensures
            final(self).wf(),
            r == (old(self)@.order.len() == 1),
            final(self)@ == old(self)@.put_to_sleep(),
            r ==> final(self)@.asleep(),
    {
        proof {
            crate::model::put_to_sleep_inv(self@);
            assert(self@.order.contains(self@.order[0]));
        }
        if self.tail_readiness == SLEEP_MARKER {
            // The queue already has the sleep marker in front.
            return self.head_readiness == SLEEP_MARKER;
        }
        if self.tail_readiness != END_MARKER || self.head_readiness != END_MARKER {
            return false;
        }
        self.head_readiness = SLEEP_MARKER;
        self.tail_readiness = SLEEP_MARKER;
        proof {
            assert(self.order@ =~= seq![END_MARKER]);
            self.order@ = seq![SLEEP_MARKER];
            assert(self.order@.contains(SLEEP_MARKER)) by {
                assert(self.order@[0] == SLEEP_MARKER);
            }
            assert(!old(self).order@.contains(SLEEP_MARKER));
            assert(self@ =~= old(self)@.put_to_sleep()) by {
                assert(self@.unlinked =~= old(self)@.unlinked);
            }
        }
        true
    }

    /// The first step of the push of a node, by a thread that has the right to
    /// push it: makes the node the newest entry. Returns the entry that was the
    /// newest before, which the second step needs.
    pub fn begin_enqueue(&mut self, node: u64) -> (prev: u64)
        requires
            old(self).wf(),
            old(self)@.claimed.contains(node),
        ensures
            final(self).wf(),
            prev == old(self)@.order.last(),
            final(self)@ == old(self)@.swapped(node),
            final(self)@.link_due(prev, node),
    {
        proof {
            crate::model::swapped_inv(self@, node);
            assert(self@.live(node));
        }
        self.swap_head(node)
    }

    /// The second step of the push of a node: links it to the entry before it.
    /// Returns true if `Poll` needs to be woken up.
    pub fn finish_enqueue(&mut self, prev: u64, node: u64) -> (r: bool)
        requires
            old(self).wf(),
            old(self)@.link_due(prev, node),
        ensures
            final(self).wf(),
            final(self)@ == old(self)@.linked(prev),
            r == (prev == SLEEP_MARKER),
    {
        proof {
            crate::model::linked_inv(self@, prev);
        }
        self.write_link(prev, node);
        prev == self.sleep_marker()
    }

    /// Pushes a node, by a thread that has the right to push it. Returns true if
    /// `Poll` needs to be woken up.
    pub fn enqueue_node(&mut self, node: u64) -> (r: bool)
        requires
            old(self).wf(),
            old(self)@.claimed.contains(node),
        ensures
            final(self).wf(),
            final(self)@ == old(self)@.pushed(node),
            r == old(self)@.asleep(),
    {
        proof {
            crate::model::pushed_inv(self@, node);
        }
        let prev: u64 = self.begin_enqueue(node);
        self.finish_enqueue(prev, node)
    }

    /// The first step of a rotation: takes the marker in front, where there is one
    /// that can be taken, and makes the end marker the newest entry. Returns the
    /// entry that was the newest before, which [`finish_enqueue`] has to link to
    /// the end marker, unless nothing was in the queue or nothing is done.
    ///
    /// [`finish_enqueue`]: ReadinessQueue::finish_enqueue
    pub fn begin_rotate(&mut self) -> (r: Option<u64>)
        requires
            old(self).wf(),
        ensures
            final(self).wf(),
            final(self)@ == old(self)@.rotate_swapped(),
            r == old(self)@.rotation_link(),
            r matches Some(prev) ==> final(self)@.link_due(prev, END_MARKER),
    {
        proof {
            crate::model::rotate_swapped_inv(self@);
            assert(self@.order.contains(self@.order[0]));
            crate::model::drop_first_contains(self@.order);
        }
        let tail: u64 = self.tail_readiness;
        if tail != END_MARKER && tail != SLEEP_MARKER {
            return None;
        }
        if self.head_readiness == tail {
            self.head_readiness = END_MARKER;
            self.tail_readiness = END_MARKER;
            proof {
                self.order@ = self.order@.drop_first().push(END_MARKER);
                assert(self.order@ =~= seq![END_MARKER]);
                assert(self.order@.contains(END_MARKER)) by {
                    assert(self.order@[0] == END_MARKER);
                }
                assert(self@ =~= old(self)@.rotate_swapped()) by {
                    assert(old(self)@.unlinked =~= Set::empty());
                    assert(self@.unlinked =~= Set::empty());
                }
            }
            return None;
        }
        if self.node(tail).next_readiness.is_none() {
            assert(self@.unlinked.contains(tail));
            return None;
        }
        assert(!self@.unlinked.contains(tail));
        self.pop();
        let prev: u64 = self.swap_head(END_MARKER);
        proof {
            assert(self@.claimed =~= old(self)@.claimed) by {
                if old(self)@.claimed.contains(END_MARKER) {
                    assert(old(self)@.live(END_MARKER));
                }
            }
            assert(self@ =~= old(self)@.rotate_swapped());
        }
        Some(prev)
    }

    /// Puts the end marker behind all entries, where a marker is in front that
    /// can be taken.
    fn rotate(&mut self)
        requires
            old(self).wf(),
        ensures
            final(self).wf(),
            final(self)@ == old(self)@.rotated(),
    {
        proof {
            crate::model::rotated_inv(self@);
        }
        if let Some(prev) = self.begin_rotate() {
            self.finish_enqueue(prev, END_MARKER);
        }
    }

    /// Takes the oldest node out of the queue, with the right to push it.
    pub fn dequeue_node(&mut self) -> (r: Dequeue)
        requires
            old(self).wf(),
        ensures
            final(self).wf(),
            r == old(self)@.next_node(),
            final(self)@ == match r {
                Dequeue::Data(_) => old(self)@.rotated().taken(),
                _ => old(self)@.rotated(),
            },
    {
        let empty = self.is_empty();
        proof {
            let order = self@.order;
            assert(order.contains(order[0]));
            crate::model::drop_first_contains(order);
            if order.len() > 1 {
                assert(order.contains(order[1]));
                assert(self@.rotated().order[0] == order[1] || self@.rotated().order[0] == order[0]);
            }
        }
        self.rotate();
        if empty {
            return Dequeue::Empty;
        }
        let tail: u64 = self.tail_readiness;
        assert(self@.order.contains(tail));
        if self.node(tail).next_readiness.is_none() {
            assert(self@.unlinked.contains(tail));
            return Dequeue::Inconsistent;
        }
        proof {
            assert(!self@.unlinked.contains(tail));
            crate::model::taken_inv(self@);
        }
        let node: u64 = self.pop();
        proof {
            self.claimed@ = self.claimed@.insert(node);
            assert(self@ =~= old(self)@.rotated().taken());
        }
        Dequeue::Data(node)
    }

    /// The state of a node.
    pub fn load_state(&self, node: u64) -> (r: ReadinessState)
        requires
            self@.live(node),
        ensures
            r@ == self@.nodes[node].state,
    {
        self.node(node).state.load()
    }

    /// The readiness of a node.
    pub fn readiness(&self, node: u64) -> (r: Ready)
        requires
            self@.live(node),
        ensures
            r == self@.nodes[node].state.readiness,
    {
        self.load_state(node).readiness()
    }

    /// One attempt to set the readiness of a node, by a thread that has seen the
    /// state `curr`. It succeeds if the state is still that one, and then tells
    /// whether the thread has won the right to push the node. Otherwise it
    /// changes nothing and returns the state as it is.
    pub fn try_set_readiness(&mut self, node: u64, curr: ReadinessState, ready: Ready) -> (r: Result<
        bool,
        ReadinessState,
    >)
        requires
            old(self).wf(),
            old(self)@.live(node),
        ensures
            final(self).wf(),
            match r {
                Ok(queue) => {
                    &&& curr@ == old(self)@.nodes[node].state
                    &&& queue == old(self)@.ready_wins(node, ready)
                    &&& final(self)@ == old(self)@.ready_stored(node, ready)
                },
                Err(actual) => {
                    &&& curr@ != old(self)@.nodes[node].state
                    &&& actual@ == old(self)@.nodes[node].state
                    &&& final(self)@ == old(self)@
                },
            },
    {
        let (next, queue) = propose_readiness(curr, ready);
        let mut n = self.node(node);
        let actual = n.state.compare_and_swap(curr, next);
        proof {
            crate::state::state_is_its_fields(actual);
            crate::state::state_is_its_fields(curr);
        }
        if curr != actual {
            return Err(actual);
        }
        assert(n@ =~= NodeModel {
            state: self@.nodes[node].state.made_ready(ready),
            ..self@.nodes[node]
        });
        self.change(node, n, queue);
        Ok(queue)
    }

    /// Sets the readiness of a node, and pushes the node if it is not blank and
    /// the node is not queued yet. Returns true if `Poll` needs to be woken up.
    pub fn set_readiness(&mut self, node: u64, ready: Ready) -> (r: bool)
        requires
            old(self).wf(),
            old(self)@.live(node),
        ensures
            final(self).wf(),
            final(self)@ == old(self)@.readied(node, ready),
            r == (old(self)@.ready_wins(node, ready) && old(self)@.asleep()),
    {
        let mut curr = self.load_state(node);
        let mut queue = false;

        // An attempt fails only if another handle has changed the state since it
        // was seen. This handle has the queue to itself here.
        loop
            invariant_except_break
                self.wf(),
                self@ == old(self)@,
                self@.live(node),
                curr@ == self@.nodes[node].state,
            ensures
                self.wf(),
                self@ == old(self)@.ready_stored(node, ready),
                queue == old(self)@.ready_wins(node, ready),
            decreases 0int,
        {
            match self.try_set_readiness(node, curr, ready) {
                Ok(won) => {
                    queue = won;
                    break;
                },
                Err(actual) => {
                    curr = actual;
                },
            }
        }

        if queue {
            self.enqueue_node(node)
        } else {
            false
        }
    }

    /// Takes the update lock of a node. Returns false if another update holds it.
    pub fn begin_update(&mut self, node: u64) -> (r: bool)
        requires
            old(self).wf(),
            old(self)@.live(node),
        ensures
            final(self).wf(),
            r == !old(self)@.nodes[node].update_lock,
            final(self)@ == old(self)@.with_node(
                node,
                NodeModel { update_lock: true, ..old(self)@.nodes[node] },
            ),
    {
        let mut n = self.node(node);
        let won = !n.update_lock;
        n.update_lock = true;
        assert(n@ =~= NodeModel { update_lock: true, ..old(self)@.nodes[node] });
        self.change(node, n, false);
        won
    }

    /// The slot for the token of an update, by the thread that holds the update
    /// lock. It stays free until the thread writes it.
    pub fn pick_slot(&self, node: u64, token: Token) -> (slot: usize)
        requires
            self.wf(),
            self@.live(node),
            self@.nodes[node].update_lock,
        ensures
            slot == self@.nodes[node].slot_for(token),
            self@.nodes[node].spares(slot as nat, token),
    {
        self.node(node).slot_for(token)
    }

    /// Writes the token of an update to a slot that is free for it, by the thread
    /// that holds the update lock.
    pub fn write_token(&mut self, node: u64, slot: usize, token: Token)
        requires
            old(self).wf(),
            old(self)@.live(node),
            old(self)@.nodes[node].update_lock,
            old(self)@.nodes[node].spares(slot as nat, token),
        ensures
            final(self).wf(),
            final(self)@ == old(self)@.with_node(
                node,
                old(self)@.nodes[node].token_written(slot as nat, token),
            ),
    {
        let mut n = self.node(node);
        n.set_token_at(slot, token);
        self.change(node, n, false);
    }

    /// Stores the state by which the token in slot `slot`, the interest and the
    /// options take effect, by the thread that holds the update lock. Tells
    /// whether the thread has won the right to push the node, which it has if the
    /// node is ready and not queued yet.
    pub fn store_update(&mut self, node: u64, slot: usize, interest: Ready, opts: PollOpt) -> (r: bool)
        requires
            old(self).wf(),
            old(self)@.live(node),
            old(self)@.nodes[node].update_lock,
            slot < 3,
        ensures
            final(self).wf(),
            final(self)@ == old(self)@.update_stored(node, slot as nat, interest, opts),
            r == old(self)@.update_wins(node),
    {
        let mut n = self.node(node);
        let curr = n.state.load();
        let (next, queue) = propose_update(curr, slot, interest, opts);
        n.state.compare_and_swap(curr, next);
        assert(n@ =~= old(self)@.nodes[node].update_stored(slot as nat, interest, opts));
        self.change(node, n, queue);
        queue
    }

    /// Releases the update lock of a node.
    pub fn end_update(&mut self, node: u64)
        requires
            old(self).wf(),
            old(self)@.live(node),
            old(self)@.nodes[node].update_lock,
        ensures
            final(self).wf(),
            final(self)@ == old(self)@.with_node(
                node,
                NodeModel { update_lock: false, ..old(self)@.nodes[node] },
            ),
    {
        let mut n = self.node(node);
        n.update_lock = false;
        assert(n@ =~= NodeModel { update_lock: false, ..old(self)@.nodes[node] });
        self.change(node, n, false);
    }

    /// Updates the registration of a node, unless another update is under way,
    /// in which case this one is discarded. If the node is ready it is pushed,
    /// unless it is queued already. Returns true if `Poll` needs to be woken up.
    pub fn update(&mut self, node: u64, token: Token, interest: Ready, opts: PollOpt) -> (r: bool)
        requires
            old(self).wf(),
            old(self)@.live(node),
        ensures
            final(self).wf(),
            final(self)@ == if old(self)@.nodes[node].update_lock {
                old(self)@
            } else {
                old(self)@.updated(node, token, interest, opts)
            },
            r == (!old(self)@.nodes[node].update_lock && old(self)@.update_wins(node)
                && old(self)@.asleep()),
    {
        if !self.begin_update(node) {
            proof {
                assert(self@.nodes[node] =~= old(self)@.nodes[node]);
                assert(self@.nodes =~= old(self)@.nodes);
                assert(self@ =~= old(self)@);
            }
            return false;
        }
        let slot: usize = self.pick_slot(node, token);
        self.write_token(node, slot, token);
        let queue = self.store_update(node, slot, interest, opts);
        self.end_update(node);
        proof {
            let m = old(self)@;
            let after = m.nodes[node].updated(token, interest, opts);
            assert(self@.nodes[node] =~= after);
            assert(self@.nodes =~= m.nodes.insert(node, after));
            assert(self@ =~= m.with_node(node, after).with_claim(node, queue));
        }
        if queue {
            self.enqueue_node(node)
        } else {
            false
        }
    }

    /// Whether one more handle of a node can be counted.
    pub fn can_clone(&self, node: u64) -> (r: bool)
        requires
            self@.live(node),
        ensures
            r == (self@.nodes[node].ref_count <= MAX_REFCOUNT),
    {
        let count: usize = self.node(node).ref_count;
        proof {
            all_bits(usize::MAX);
            below_the_highest_bit(count, MAX_REFCOUNT);
        }
        count & !MAX_REFCOUNT == 0
    }

    /// Takes one more reference to a node, for a `SetReadiness` handle to be made
    /// of another.
    pub fn retain_node(&mut self, node: u64)
        requires
            old(self).wf(),
            old(self)@.live(node),
            old(self)@.nodes[node].num_set_readiness > 0,
            old(self)@.nodes[node].ref_count <= MAX_REFCOUNT,
        ensures
            final(self).wf(),
            final(self)@ == old(self)@.with_node(node, old(self)@.nodes[node].retained()),
    {
        let mut n = self.node(node);
        n.ref_count = n.ref_count + 1;
        proof {
            n.loose@ = n.loose@ + 1;
            assert(n@ =~= old(self)@.nodes[node].retained());
        }
        self.change(node, n, false);
    }

    /// Counts one more `SetReadiness` handle of a node, for which a reference has
    /// been taken.
    pub fn count_set_readiness(&mut self, node: u64)
        requires
            old(self).wf(),
            old(self)@.live(node),
            old(self)@.nodes[node].num_set_readiness > 0,
            old(self)@.nodes[node].loose > old(self)@.nodes[node].flags_due,
        ensures
            final(self).wf(),
            final(self)@ == old(self)@.with_node(
                node,
                old(self)@.nodes[node].set_readiness_counted(),
            ),
    {
        let mut n = self.node(node);
        n.num_set_readiness = n.num_set_readiness + 1;
        proof {
            n.loose@ = (n.loose@ - 1) as nat;
            assert(n@ =~= old(self)@.nodes[node].set_readiness_counted());
        }
        self.change(node, n, false);
    }

    /// Makes one more `SetReadiness` handle of a node.
    pub fn clone_set_readiness(&mut self, node: u64)
        requires
            old(self).wf(),
            old(self)@.live(node),
            old(self)@.nodes[node].num_set_readiness > 0,
            old(self)@.nodes[node].ref_count <= MAX_REFCOUNT,
        ensures
            final(self).wf(),
            final(self)@ == old(self)@.with_node(node, old(self)@.nodes[node].after_clone()),
    {
        self.retain_node(node);
        self.count_set_readiness(node);
        proof {
            let m = old(self)@;
            assert(self@.nodes[node] =~= m.nodes[node].after_clone());
            assert(self@.nodes =~= m.nodes.insert(node, m.nodes[node].after_clone()));
            assert(self@ =~= m.with_node(node, m.nodes[node].after_clone()));
        }
    }

    /// Counts one `Registration` handle of a node less. Returns whether it was
    /// the last one, in which case the node is to be flagged.
    pub fn uncount_registration(&mut self, node: u64) -> (r: bool)
        requires
            old(self).wf(),
            old(self)@.live(node),
            old(self)@.nodes[node].num_registration > 0,
        ensures
            final(self).wf(),
            final(self)@ == old(self)@.with_node(
                node,
                old(self)@.nodes[node].registration_uncounted(),
            ),
            r == (old(self)@.nodes[node].num_registration == 1),
    {
        let mut n = self.node(node);
        let last = n.num_registration == 1;
        n.num_registration = n.num_registration - 1;
        proof {
            n.loose@ = n.loose@ + 1;
            if last {
                n.flags_due@ = n.flags_due@ + 1;
            }
            assert(n@ =~= old(self)@.nodes[node].registration_uncounted());
        }
        self.change(node, n, false);
        last
    }

    /// Counts one `SetReadiness` handle of a node less. Returns whether it was
    /// the last one, in which case the node is to be flagged.
    pub fn uncount_set_readiness(&mut self, node: u64) -> (r: bool)
        requires
            old(self).wf(),
            old(self)@.live(node),
            old(self)@.nodes[node].num_set_readiness > 0,
        ensures
            final(self).wf(),
            final(self)@ == old(self)@.with_node(
                node,
                old(self)@.nodes[node].set_readiness_uncounted(),
            ),
            r == (old(self)@.nodes[node].num_set_readiness == 1),
    {
        let mut n = self.node(node);
        let last = n.num_set_readiness == 1;
        n.num_set_readiness = n.num_set_readiness - 1;
        proof {
            n.loose@ = n.loose@ + 1;
            if last {
                n.flags_due@ = n.flags_due@ + 1;
            }
            assert(n@ =~= old(self)@.nodes[node].set_readiness_uncounted());
        }
        self.change(node, n, false);
        last
    }

    /// Flags a node as dropped, by a thread that has dropped the last handle of
    /// one kind. Tells whether the thread has won the right to push the node.
    pub fn flag_dropped(&mut self, node: u64) -> (r: bool)
        requires
            old(self).wf(),
            old(self)@.live(node),
            old(self)@.nodes[node].flags_due > 0,
        ensures
            final(self).wf(),
            final(self)@ == old(self)@.flagged(node),
            r == !old(self)@.nodes[node].state.queued,
    {
        let mut n = self.node(node);
        let curr = n.state.load();
        let (next, queue) = propose_dropped(curr);
        n.state.compare_and_swap(curr, next);
        proof {
            n.flags_due@ = (n.flags_due@ - 1) as nat;
            assert(n@ =~= old(self)@.nodes[node].flagged());
        }
        self.change(node, n, queue);
        queue
    }

    /// Drops a `Registration` handle of a node. The last one flags the node as
    /// dropped and has it processed once more. Returns true if `Poll` needs to be
    /// woken up.
    pub fn drop_registration(&mut self, node: u64) -> (r: bool)
        requires
            old(self).wf(),
            old(self)@.live(node),
            old(self)@.nodes[node].num_registration > 0,
        ensures
            final(self).wf(),
            final(self)@ == old(self)@.registration_dropped(node),
            r == (old(self)@.nodes[node].num_registration == 1
                && !old(self)@.nodes[node].state.queued && old(self)@.asleep()),
    {
        let mut woken = false;
        if self.uncount_registration(node) {
            if self.flag_dropped(node) {
                woken = self.enqueue_node(node);
            }
        }
        let ghost p = self@;
        self.release_node(node);
        proof {
            let m = old(self)@;
            assert(p.nodes[node].released() =~= m.nodes[node].after_registration_drop());
            assert(self@.nodes =~= m.registration_dropped(node).nodes);
            assert(self@ =~= m.registration_dropped(node));
        }
        woken
    }

    /// Drops a `SetReadiness` handle of a node. The last one flags the node as
    /// dropped and has it processed once more. Returns true if `Poll` needs to be
    /// woken up.
    pub fn drop_set_readiness(&mut self, node: u64) -> (r: bool)
        requires
            old(self).wf(),
            old(self)@.live(node),
            old(self)@.nodes[node].num_set_readiness > 0,
        ensures
            final(self).wf(),
            final(self)@ == old(self)@.set_readiness_dropped(node),
            r == (old(self)@.nodes[node].num_set_readiness == 1
                && !old(self)@.nodes[node].state.queued && old(self)@.asleep()),
    {
        let mut woken = false;
        if self.uncount_set_readiness(node) {
            if self.flag_dropped(node) {
                woken = self.enqueue_node(node);
            }
        }
        let ghost p = self@;
        self.release_node(node);
        proof {
            let m = old(self)@;
            assert(p.nodes[node].released() =~= m.nodes[node].after_set_readiness_drop());
            assert(self@.nodes =~= m.set_readiness_dropped(node).nodes);
            assert(self@ =~= m.set_readiness_dropped(node));
        }
        woken
    }

    /// Stores the state that polling makes of a node that has been taken out of
    /// the queue. The right to push the node is kept exactly if the node is to be
    /// put back: it is not edge-triggered and there is something to tell. A node
    /// that is flagged as dropped is let go of instead.
    pub fn store_polled(&mut self, node: u64) -> (r: Polled)
        requires
            old(self).wf(),
            old(self)@.claimed.contains(node),
        ensures
            final(self).wf(),
            final(self)@ == old(self)@.polled_stored(node),
            r == if old(self)@.nodes[node].state.dropped {
                Polled::LetGo
            } else if old(self)@.nodes[node].is_kept() {
                Polled::Kept(old(self)@.nodes[node].event())
            } else if old(self)@.nodes[node].tells() {
                Polled::Done(Some(old(self)@.nodes[node].event()))
            } else {
                Polled::Done(None)
            },
    {
        proof {
            crate::model::polled_stored_inv(self@, node);
        }
        let mut n = self.node(node);
        let curr = n.state.load();

        if curr.is_dropped() {
            proof {
                n.detached@ = true;
                n.loose@ = n.loose@ + 1;
                assert(n@ =~= old(self)@.nodes[node].let_go());
            }
            self.put(node, n);
            proof {
                self.claimed@ = self.claimed@.remove(node);
                assert(self@ =~= old(self)@.polled_stored(node));
            }
            return Polled::LetGo;
        }

        let (next, events) = propose_polled(curr);
        n.state.compare_and_swap(curr, next);
        assert(n@ =~= old(self)@.nodes[node].after_poll());
        self.put(node, n);

        let mut after = next;
        let kept = after.is_queued();
        proof {
            if !kept {
                self.claimed@ = self.claimed@.remove(node);
            }
            assert(self@ =~= old(self)@.polled_stored(node));
        }

        if events.is_none() {
            return Polled::Done(None);
        }
        let event = Event::new(events, n.token_at(next.poll_token()));
        if kept {
            Polled::Kept(event)
        } else {
            Polled::Done(Some(event))
        }
    }

    /// Processes a node that has been taken out of the queue: tells what it is
    /// ready for, if the registration has an interest in that, and puts the node
    /// back unless it is edge-triggered or there is nothing to tell. A node that
    /// is flagged as dropped is let go of instead.
    pub fn process_node(&mut self, node: u64) -> (r: Option<Event>)
        requires
            old(self).wf(),
            old(self)@.claimed.contains(node),
        ensures
            final(self).wf(),
            final(self)@ == old(self)@.processed(node),
            r == if old(self)@.nodes[node].tells() {
                Some(old(self)@.nodes[node].event())
            } else {
                None
            },
            r == ({
                let n = old(self)@.nodes[node];
                if !n.state.dropped && crate::effects::meet(n.state.readiness, n.state.interest) {
                    Some(Event {
                        kind: Ready {
                            readable: n.state.readiness.readable && n.state.interest.readable,
                            writable: n.state.readiness.writable && n.state.interest.writable,
                            error: n.state.readiness.error && n.state.interest.error,
                            hup: n.state.readiness.hup && n.state.interest.hup,
                        },
                        token: n.tokens[n.state.registration_token as int],
                    })
                } else {
                    None
                }
            }),
    {
        proof {
            crate::model::processed_inv(self@, node);
        }
        match self.store_polled(node) {
            Polled::LetGo => {
                self.release_node(node);
                None
            },
            Polled::Kept(event) => {
                self.enqueue_node(node);
                Some(event)
            },
            Polled::Done(told) => told,
        }
    }

    /// Processes the nodes that are in the queue at this moment, up to the first
    /// whose push is under way, and adds the events that they cause to `dst`.
    pub fn poll(&mut self, dst: &mut Events)
        requires
            old(self).wf(),
        ensures
            final(self).wf(),
            final(self)@ == old(self)@.polled(),
            final(dst)@ == old(dst)@ + crate::model::told(old(self)@.nodes, old(self)@.due()),
            final(dst).room() == old(dst).room(),
    {
        self.rotate();
        let ghost r = self@;
        let ghost b = crate::model::batch(r.order, r.unlinked) as int;
        let ghost mut i = 0int;
        proof {
            crate::model::batch_ends(r.order, r.unlinked);
            assert(r.order.take(0) =~= Seq::empty());
            reveal(Seq::filter);
            assert(crate::model::told(r.nodes, r.order.take(0)) =~= Seq::empty());
            assert(crate::model::kept(r.nodes, r.order.take(0)) =~= Seq::empty());
            assert(r.polled_first(0) =~= r) by {
                assert(r.polled_first(0).order =~= r.order);
                assert(r.polled_first(0).nodes =~= r.nodes);
            }
            assert(dst@ =~= old(dst)@ + crate::model::told(r.nodes, r.order.take(0)));
        }
        while self.tail_readiness != END_MARKER
            invariant
                self.wf(),
                r.inv(),
                r.order[0] == SLEEP_MARKER ==> r.unlinked.contains(SLEEP_MARKER),
                b == crate::model::batch(r.order, r.unlinked),
                0 <= i <= b < r.order.len(),
                forall|j: int|
                    0 <= j < b ==> !crate::model::is_marker(#[trigger] r.order[j]) && !r.unlinked.contains(
                        r.order[j],
                    ),
                crate::model::is_marker(r.order[b]) || r.unlinked.contains(r.order[b]),
                self@ == r.polled_first(i),
                dst@ == old(dst)@ + crate::model::told(r.nodes, r.order.take(i)),
                dst.room() == old(dst).room(),
            ensures
                i == b,
            decreases b - i,
        {
            assert(self@.order[0] == r.order[i]);
            match self.dequeue_node() {
                Dequeue::Data(node) => {
                    proof {
                        crate::model::polled_one_more(r, i);
                    }
                    if let Some(event) = self.process_node(node) {
                        dst.push_event(event);
                    }
                    proof {
                        i = i + 1;
                    }
                },
                _ => {
                    break;
                },
            }
        }
    }
}

/// No number is larger than the one with all bits set.
proof fn all_bits(x: usize)
    by (bit_vector)
    ensures
        x <= !0usize,
{
}

/// A number has no bit but those below the highest exactly if it is at most the
/// number `half` that has them all.
proof fn below_the_highest_bit(x: usize, half: usize)
    by (bit_vector)
    requires
        half * 2 + 1 == !0usize,
    ensures
        (x & !half == 0) == (x <= half),
{
}

impl QueueModel {
    /// What an attempt to take a node comes to.
    pub open spec fn next_node(self) -> Dequeue {
        let r = self.rotated();
        if self.order.len() == 1 {
            Dequeue::Empty
        } else if r.unlinked.contains(r.order[0]) {
            Dequeue::Inconsistent
        } else {
            Dequeue::Data(r.order[0])
        }
    }
}

} // verus!
