//! The mathematical model of the readiness queue: what it holds, the steps that
//! change it, and what every step keeps.
use vstd::prelude::*;

use crate::event::{Event, PollOpt, Ready, Token};
#[allow(unused_imports)]
use crate::node::NodeModel;

verus! {

/// Punctuates the end of what one poll processes.
pub const END_MARKER: u64 = 0;

/// Signals to producers that `Poll` has gone to sleep and must be woken up.
pub const SLEEP_MARKER: u64 = 1;

/// The readiness queue at one moment between two steps.
#[verifier::ext_equal]
pub struct QueueModel {
    /// Where the number of this queue comes from.
    pub source: int,
    /// The number of this queue, which tells it from others whose number comes
    /// from the same source.
    pub id: u64,
    /// The live nodes, the two markers included.
    pub nodes: Map<u64, NodeModel>,
    /// The queue, the oldest entry first.
    pub order: Seq<u64>,
    /// The entries whose successor has been put in place by a push that has not
    /// yet said so in the entry.
    pub unlinked: Set<u64>,
    /// The nodes outside the queue that some thread has the right to push.
    pub claimed: Set<u64>,
    /// The least name that no node has had yet.
    pub next_id: u64,
}

/// Whether `k` names one of the two markers.
pub open spec fn is_marker(k: u64) -> bool {
    k == END_MARKER || k == SLEEP_MARKER
}

impl NodeModel {
    /// Whether a poll that comes to this node tells of it.
    pub open spec fn tells(self) -> bool {
        !self.state.dropped && self.state.pending().some()
    }

    /// The event by which a poll tells of this node.
    pub open spec fn event(self) -> Event {
        Event { kind: self.state.pending(), token: self.token() }
    }

    /// Whether a poll that comes to this node puts it back at the end.
    pub open spec fn is_kept(self) -> bool {
        !self.state.dropped && self.state.stays_queued()
    }

    /// Whether a poll that comes to this node frees it.
    pub open spec fn is_freed(self) -> bool {
        self.state.dropped && self.ref_count == 1
    }

    /// The node once a poll has come to it: if it is flagged as dropped, the
    /// queue gives up its reference.
    pub open spec fn after_poll(self) -> NodeModel {
        if self.state.dropped {
            NodeModel { ref_count: (self.ref_count - 1) as nat, detached: true, ..self }
        } else {
            NodeModel { state: self.state.polled(), ..self }
        }
    }

    /// The node once one more `SetReadiness` handle has been made.
    pub open spec fn after_clone(self) -> NodeModel {
        NodeModel {
            num_set_readiness: self.num_set_readiness + 1,
            ref_count: self.ref_count + 1,
            ..self
        }
    }

    /// The node once a `Registration` handle has been dropped. The last one
    /// flags the node.
    pub open spec fn after_registration_drop(self) -> NodeModel {
        NodeModel {
            state: if self.num_registration == 1 {
                self.state.made_dropped()
            } else {
                self.state
            },
            num_registration: (self.num_registration - 1) as nat,
            ref_count: (self.ref_count - 1) as nat,
            ..self
        }
    }

    /// The node once a `SetReadiness` handle has been dropped. The last one
    /// flags the node.
    pub open spec fn after_set_readiness_drop(self) -> NodeModel {
        NodeModel {
            state: if self.num_set_readiness == 1 {
                self.state.made_dropped()
            } else {
                self.state
            },
            num_set_readiness: (self.num_set_readiness - 1) as nat,
            ref_count: (self.ref_count - 1) as nat,
            ..self
        }
    }
}

/// The events by which a poll that comes to the nodes `ids`, in this order,
/// tells of them.
pub open spec fn told(nodes: Map<u64, NodeModel>, ids: Seq<u64>) -> Seq<Event> {
    ids.filter(|k: u64| nodes[k].tells()).map_values(|k: u64| nodes[k].event())
}

/// Those of the nodes `ids` that a poll puts back, in the same order.
pub open spec fn kept(nodes: Map<u64, NodeModel>, ids: Seq<u64>) -> Seq<u64> {
    ids.filter(|k: u64| nodes[k].is_kept())
}

/// The nodes once a poll has come to the nodes `ids`.
pub open spec fn nodes_polled(nodes: Map<u64, NodeModel>, ids: Seq<u64>) -> Map<u64, NodeModel> {
    Map::new(
        |k: u64| nodes.contains_key(k) && !(ids.contains(k) && nodes[k].is_freed()),
        |k: u64|
            if ids.contains(k) {
                nodes[k].after_poll()
            } else {
                nodes[k]
            },
    )
}

/// How many entries from the front can be taken one after the other: those
/// before the first that is a marker or whose successor is not yet linked.
pub open spec fn batch(order: Seq<u64>, unlinked: Set<u64>) -> nat
    decreases order.len(),
{
    if order.len() == 0 || is_marker(order[0]) || unlinked.contains(order[0]) {
        0
    } else {
        1 + batch(order.drop_first(), unlinked)
    }
}

impl QueueModel {
    /// A queue in which nothing has happened yet.
    pub open spec fn initial(source: int, id: u64) -> QueueModel {
        QueueModel {
            source,
            id,
            nodes: map![END_MARKER => NodeModel::marker(), SLEEP_MARKER => NodeModel::marker()],
            order: seq![END_MARKER],
            unlinked: Set::empty(),
            claimed: Set::empty(),
            next_id: 2,
        }
    }

    /// Whether this and `other` are the same queue, at two moments perhaps.
    pub open spec fn same_queue(self, other: QueueModel) -> bool {
        self.source == other.source && self.id == other.id
    }

    /// Whether the right to push `k` is taken: it is in the queue, or some
    /// thread is about to push it.
    pub open spec fn held(self, k: u64) -> bool {
        self.order.contains(k) || self.claimed.contains(k)
    }

    /// Whether `k` names a live node of a registration.
    pub open spec fn live(self, k: u64) -> bool {
        self.nodes.contains_key(k) && !is_marker(k)
    }

    /// What holds of the name `k` between any two steps.
    pub open spec fn inv_at(self, k: u64) -> bool {
        // Names are given out in turn.
        &&& self.nodes.contains_key(k) ==> k < self.next_id
        // The queue holds live nodes.
        &&& self.order.contains(k) ==> self.nodes.contains_key(k)
        // The newest entry has no successor that it could lack the link to.
        &&& self.unlinked.contains(k) ==> self.order.contains(k) && k != self.order.last()
        // What may be pushed is live and outside the queue.
        &&& self.claimed.contains(k) ==> self.live(k) && !self.order.contains(k)
        // The node itself is in order.
        &&& self.live(k) ==> self.nodes[k].inv(self.held(k))
    }

    /// What holds between any two steps.
    pub open spec fn inv(self) -> bool {
        &&& self.next_id >= 2
        &&& self.nodes.dom().finite()
        &&& self.nodes.contains_key(END_MARKER)
        &&& self.nodes.contains_key(SLEEP_MARKER)
        // No node is in the queue twice.
        &&& self.order.no_duplicates()
        // One of the two markers is in the queue, the sleep marker only in front.
        &&& self.order.contains(END_MARKER) != self.order.contains(SLEEP_MARKER)
        &&& self.order.contains(SLEEP_MARKER) ==> self.order[0] == SLEEP_MARKER
        &&& forall|k: u64|
            #![trigger self.nodes.contains_key(k)]
            #![trigger self.live(k)]
            #![trigger self.order.contains(k)]
            #![trigger self.unlinked.contains(k)]
            #![trigger self.claimed.contains(k)]
            #![trigger self.inv_at(k)]
            self.inv_at(k)
    }

    /// Whether no push is under way, no node is being processed, no handle is
    /// half made or half dropped, and no poll has been cut short by a push under
    /// way.
    pub open spec fn settled(self) -> bool {
        &&& self.unlinked =~= Set::empty()
        &&& self.claimed =~= Set::empty()
        &&& is_marker(self.order[0])
        &&& forall|k: u64|
            #![trigger self.live(k)]
            #![trigger self.nodes[k]]
            self.live(k) ==> self.nodes[k].loose == 0
    }

    /// Whether the queue sleeps: nothing is in it but the sleep marker.
    pub open spec fn asleep(self) -> bool {
        self.order.last() == SLEEP_MARKER
    }

    /// The push of `n` behind `prev` has put `n` in place, but has not said so
    /// in `prev` yet.
    pub open spec fn link_due(self, prev: u64, n: u64) -> bool {
        &&& self.unlinked.contains(prev)
        &&& exists|i: int|
            0 <= i < self.order.len() - 1 && #[trigger] self.order[i] == prev && self.order[i + 1] == n
    }

    /// Node `k` replaced by `node`.
    pub open spec fn with_node(self, k: u64, node: NodeModel) -> QueueModel {
        QueueModel { nodes: self.nodes.insert(k, node), ..self }
    }

    /// The right to push `k` taken, if `taken`.
    pub open spec fn with_claim(self, k: u64, taken: bool) -> QueueModel {
        QueueModel {
            claimed: if taken {
                self.claimed.insert(k)
            } else {
                self.claimed
            },
            ..self
        }
    }

    /// The first step of the push of `n`: it becomes the newest entry.
    pub open spec fn swapped(self, n: u64) -> QueueModel {
        QueueModel {
            order: self.order.push(n),
            unlinked: self.unlinked.insert(self.order.last()),
            claimed: self.claimed.remove(n),
            ..self
        }
    }

    /// The second step of a push behind `prev`: the entry says who follows it.
    pub open spec fn linked(self, prev: u64) -> QueueModel {
        QueueModel { unlinked: self.unlinked.remove(prev), ..self }
    }

    /// Both steps of the push of `n`.
    pub open spec fn pushed(self, n: u64) -> QueueModel {
        QueueModel { order: self.order.push(n), claimed: self.claimed.remove(n), ..self }
    }

    /// `n` pushed, if `yes`.
    pub open spec fn pushed_if(self, n: u64, yes: bool) -> QueueModel {
        if yes {
            self.pushed(n)
        } else {
            self
        }
    }

    /// The first step of a rotation: the marker in front, where there is one that
    /// can be taken, is taken, and the end marker becomes the newest entry.
    pub open spec fn rotate_swapped(self) -> QueueModel {
        if is_marker(self.order[0]) && !self.unlinked.contains(self.order[0]) {
            QueueModel {
                order: self.order.drop_first().push(END_MARKER),
                unlinked: if self.order.len() > 1 {
                    self.unlinked.insert(self.order.last())
                } else {
                    self.unlinked
                },
                ..self
            }
        } else {
            self
        }
    }

    /// The entry that the second step of a rotation, which begins now, has to link
    /// to the end marker, if there is one.
    pub open spec fn rotation_link(self) -> Option<u64> {
        if is_marker(self.order[0]) && !self.unlinked.contains(self.order[0]) && self.order.len()
            > 1 {
            Some(self.order.last())
        } else {
            None
        }
    }

    /// Both steps of a rotation: the end marker put behind all entries, where it is
    /// in front now or the sleep marker is, and the entry in front can be taken.
    pub open spec fn rotated(self) -> QueueModel {
        if is_marker(self.order[0]) && !self.unlinked.contains(self.order[0]) {
            QueueModel { order: self.order.drop_first().push(END_MARKER), ..self }
        } else {
            self
        }
    }

    /// The oldest entry taken out of the queue, with the right to push it.
    pub open spec fn taken(self) -> QueueModel {
        QueueModel {
            order: self.order.drop_first(),
            claimed: self.claimed.insert(self.order[0]),
            ..self
        }
    }

    /// Gone to sleep, where nothing but the end marker is in the queue.
    pub open spec fn put_to_sleep(self) -> QueueModel {
        if self.order =~= seq![END_MARKER] {
            QueueModel { order: seq![SLEEP_MARKER], ..self }
        } else {
            self
        }
    }

    /// A registration made.
    pub open spec fn registered(self, token: Token, interest: Ready, opts: PollOpt) -> QueueModel {
        QueueModel {
            nodes: self.nodes.insert(self.next_id, NodeModel::fresh(token, interest, opts)),
            next_id: (self.next_id + 1) as u64,
            ..self
        }
    }

    /// Whether setting the readiness of node `k` to `ready` wins the right to
    /// push the node.
    pub open spec fn ready_wins(self, k: u64, ready: Ready) -> bool {
        ready.some() && !self.nodes[k].state.queued
    }

    /// The readiness of node `k` stored, and the right to push the node taken
    /// where that wins it.
    pub open spec fn ready_stored(self, k: u64, ready: Ready) -> QueueModel {
        self.with_node(
            k,
            NodeModel { state: self.nodes[k].state.made_ready(ready), ..self.nodes[k] },
        ).with_claim(k, self.ready_wins(k, ready))
    }

    /// The readiness of node `k` set.
    pub open spec fn readied(self, k: u64, ready: Ready) -> QueueModel {
        self.ready_stored(k, ready).pushed_if(k, self.ready_wins(k, ready))
    }

    /// Whether updating node `k` wins the right to push the node.
    pub open spec fn update_wins(self, k: u64) -> bool {
        self.nodes[k].state.readiness.some() && !self.nodes[k].state.queued
    }

    /// The registration of node `k` updated.
    pub open spec fn updated(self, k: u64, token: Token, interest: Ready, opts: PollOpt) -> QueueModel {
        self.with_node(k, self.nodes[k].updated(token, interest, opts)).with_claim(
            k,
            self.update_wins(k),
        ).pushed_if(k, self.update_wins(k))
    }

    /// Node `k` replaced by `node`, or freed where that has no reference left.
    pub open spec fn settle(self, k: u64, node: NodeModel) -> QueueModel {
        if node.ref_count == 0 {
            QueueModel { nodes: self.nodes.remove(k), ..self }
        } else {
            self.with_node(k, node)
        }
    }

    /// A `Registration` of node `k` dropped.
    pub open spec fn registration_dropped(self, k: u64) -> QueueModel {
        let wins = self.nodes[k].num_registration == 1 && !self.nodes[k].state.queued;
        self.settle(k, self.nodes[k].after_registration_drop()).with_claim(k, wins).pushed_if(
            k,
            wins,
        )
    }

    /// A `SetReadiness` of node `k` dropped.
    pub open spec fn set_readiness_dropped(self, k: u64) -> QueueModel {
        let wins = self.nodes[k].num_set_readiness == 1 && !self.nodes[k].state.queued;
        self.settle(k, self.nodes[k].after_set_readiness_drop()).with_claim(k, wins).pushed_if(
            k,
            wins,
        )
    }

    /// Node `k`, which has been taken out of the queue, processed.
    pub open spec fn processed(self, k: u64) -> QueueModel {
        let node = self.nodes[k];
        QueueModel {
            claimed: self.claimed.remove(k),
            ..self.settle(k, node.after_poll()).pushed_if(k, node.is_kept())
        }
    }

    /// The state that polling makes of node `k` stored, by the thread that has
    /// the right to push the node. It keeps that right exactly if the node is to
    /// be put back. A node that is flagged as dropped is let go of instead.
    pub open spec fn polled_stored(self, k: u64) -> QueueModel {
        let node = self.nodes[k];
        QueueModel {
            claimed: if node.is_kept() {
                self.claimed
            } else {
                self.claimed.remove(k)
            },
            ..self.with_node(
                k,
                if node.state.dropped {
                    node.let_go()
                } else {
                    node.after_poll()
                },
            )
        }
    }

    /// Node `k` flagged as dropped, and the right to push it taken where that
    /// wins it.
    pub open spec fn flagged(self, k: u64) -> QueueModel {
        self.with_node(k, self.nodes[k].flagged()).with_claim(k, !self.nodes[k].state.queued)
    }

    /// One reference to node `k` released, and the node freed if it was the last.
    pub open spec fn released(self, k: u64) -> QueueModel {
        self.settle(k, self.nodes[k].released())
    }

    /// The state of an update of node `k` stored, and the right to push the node
    /// taken where that wins it.
    pub open spec fn update_stored(self, k: u64, slot: nat, interest: Ready, opts: PollOpt) -> QueueModel {
        self.with_node(k, self.nodes[k].update_stored(slot, interest, opts)).with_claim(
            k,
            self.update_wins(k),
        )
    }

    /// The first `i` entries taken and processed, one after the other.
    pub open spec fn polled_first(self, i: int) -> QueueModel {
        QueueModel {
            nodes: nodes_polled(self.nodes, self.order.take(i)),
            order: self.order.skip(i) + kept(self.nodes, self.order.take(i)),
            ..self
        }
    }

    /// The entries that a poll processes.
    pub open spec fn due(self) -> Seq<u64> {
        let r = self.rotated();
        r.order.take(batch(r.order, r.unlinked) as int)
    }

    /// The queue once it has been polled.
    pub open spec fn polled(self) -> QueueModel {
        let r = self.rotated();
        r.polled_first(batch(r.order, r.unlinked) as int)
    }
}

/// Pushing adds one element.
pub proof fn push_contains(s: Seq<u64>, a: u64)
    ensures
        forall|x: u64| #[trigger] s.push(a).contains(x) <==> s.contains(x) || x == a,
{
    assert forall|x: u64| #[trigger] s.push(a).contains(x) <==> s.contains(x) || x == a by {
        if s.contains(x) {
            let i = choose|i: int| 0 <= i < s.len() && s[i] == x;
            assert(s.push(a)[i] == x);
        }
        if x == a {
            assert(s.push(a)[s.len() as int] == x);
        }
    }
}

/// Dropping the first of distinct elements takes that element away.
pub proof fn drop_first_contains(s: Seq<u64>)
    requires
        s.len() > 0,
        s.no_duplicates(),
    ensures
        s.drop_first().no_duplicates(),
        forall|x: u64| #[trigger] s.drop_first().contains(x) <==> s.contains(x) && x != s[0],
{
    assert forall|x: u64| #[trigger]
        s.drop_first().contains(x) <==> s.contains(x) && x != s[0] by {
        if s.contains(x) && x != s[0] {
            let i = choose|i: int| 0 <= i < s.len() && s[i] == x;
            assert(s.drop_first()[i - 1] == x);
        }
        if s.drop_first().contains(x) {
            let i = choose|i: int| 0 <= i < s.drop_first().len() && s.drop_first()[i] == x;
            assert(s[i + 1] == x);
        }
    }
}

/// A queue in which nothing has happened yet is in order.
pub proof fn initial_inv(source: int, id: u64)
    ensures
        QueueModel::initial(source, id).inv(),
        QueueModel::initial(source, id).settled(),
{
    let m = QueueModel::initial(source, id);
    assert(m.order[0] == END_MARKER);
    assert(m.order.contains(END_MARKER));
}

/// Replacing a node by one that is in order, and taking the right to push it,
/// keeps the queue in order.
pub proof fn node_change_inv(m: QueueModel, k: u64, node: NodeModel, taken: bool)
    requires
        m.inv(),
        m.live(k),
        taken ==> !m.held(k),
        node.inv(m.held(k) || taken),
    ensures
        m.with_node(k, node).with_claim(k, taken).inv(),
{
}

/// Freeing a node that nobody will push keeps the queue in order.
pub proof fn node_freed_inv(m: QueueModel, k: u64)
    requires
        m.inv(),
        m.live(k),
        !m.held(k),
    ensures
        (QueueModel { nodes: m.nodes.remove(k), ..m }).inv(),
{
}

/// A registration keeps the queue in order.
pub proof fn registered_inv(m: QueueModel, token: Token, interest: Ready, opts: PollOpt)
    requires
        m.inv(),
        m.next_id < u64::MAX,
    ensures
        m.registered(token, interest, opts).inv(),
        m.registered(token, interest, opts).live(m.next_id),
        !m.nodes.contains_key(m.next_id),
{
    assert(!m.nodes.contains_key(m.next_id));
    assert(!m.order.contains(m.next_id));
    assert(!m.claimed.contains(m.next_id)) by {
        if m.claimed.contains(m.next_id) {
            assert(m.live(m.next_id));
        }
    }
}

/// The first step of a push keeps the queue in order, and leaves the second due.
pub proof fn swapped_inv(m: QueueModel, n: u64)
    requires
        m.inv(),
        m.claimed.contains(n),
    ensures
        m.swapped(n).inv(),
        m.swapped(n).link_due(m.order.last(), n),
{
    let p = m.swapped(n);
    push_contains(m.order, n);
    assert(m.live(n));
    assert(m.order.len() > 0);
    assert(p.order[0] == m.order[0]);
    assert(p.order.no_duplicates());
    assert(m.order.contains(m.order.last())) by {
        assert(m.order[m.order.len() - 1] == m.order.last());
    }
    assert(p.order[m.order.len() - 1] == m.order.last());
    assert(p.order[m.order.len() - 1 + 1] == n);
}

/// The second step of a push keeps the queue in order.
pub proof fn linked_inv(m: QueueModel, prev: u64)
    requires
        m.inv(),
    ensures
        m.linked(prev).inv(),
{
}

/// The two steps of a push, one right after the other, are the push, which
/// keeps the queue in order.
pub proof fn pushed_inv(m: QueueModel, n: u64)
    requires
        m.inv(),
        m.claimed.contains(n),
    ensures
        m.pushed(n).inv(),
        m.pushed(n) == m.swapped(n).linked(m.order.last()),
{
    swapped_inv(m, n);
    linked_inv(m.swapped(n), m.order.last());
    assert(!m.unlinked.contains(m.order.last()));
    assert(m.pushed(n) =~= m.swapped(n).linked(m.order.last())) by {
        assert(m.unlinked.insert(m.order.last()).remove(m.order.last()) =~= m.unlinked);
    }
}

/// The first step of a rotation keeps the queue in order, and leaves the second
/// due.
pub proof fn rotate_swapped_inv(m: QueueModel)
    requires
        m.inv(),
    ensures
        m.rotate_swapped().inv(),
        m.rotation_link() matches Some(prev) ==> m.rotate_swapped().link_due(prev, END_MARKER),
{
    let p = m.rotate_swapped();
    if is_marker(m.order[0]) && !m.unlinked.contains(m.order[0]) {
        assert(m.order.len() > 0);
        assert(m.order.contains(m.order[0]));
        drop_first_contains(m.order);
        push_contains(m.order.drop_first(), END_MARKER);
        assert(!m.order.drop_first().contains(END_MARKER));
        assert(!m.order.drop_first().contains(SLEEP_MARKER));
        assert(p.order.no_duplicates());
        if m.order.len() > 1 {
            let i = m.order.len() - 2;
            assert(p.order[i] == m.order.last());
            assert(p.order[i + 1] == END_MARKER);
            assert(p.order.contains(m.order.last()));
        }
    }
}

/// The two steps of a rotation, one right after the other, are the rotation,
/// which keeps the queue in order.
pub proof fn rotated_inv(m: QueueModel)
    requires
        m.inv(),
    ensures
        m.rotated().inv(),
        m.rotated() == match m.rotation_link() {
            Some(prev) => m.rotate_swapped().linked(prev),
            None => m.rotate_swapped(),
        },
{
    rotate_swapped_inv(m);
    if let Some(prev) = m.rotation_link() {
        linked_inv(m.rotate_swapped(), prev);
        assert(!m.unlinked.contains(prev));
        assert(m.unlinked.insert(prev).remove(prev) =~= m.unlinked);
        assert(m.rotated() =~= m.rotate_swapped().linked(prev));
    }
}

/// Taking the oldest entry keeps the queue in order, and leaves at least one
/// entry behind.
pub proof fn taken_inv(m: QueueModel)
    requires
        m.inv(),
        !is_marker(m.order[0]),
        !m.unlinked.contains(m.order[0]),
    ensures
        m.order.len() > 1,
        m.taken().inv(),
        m.taken().live(m.order[0]),
{
    let p = m.taken();
    let n = m.order[0];
    assert(m.order.len() > 0);
    assert(m.order.contains(n));
    assert(m.live(n));
    assert(m.held(n));
    drop_first_contains(m.order);
    assert(!m.order.contains(SLEEP_MARKER));
    assert(m.order.contains(END_MARKER));
    assert(m.order.drop_first().contains(END_MARKER));
    assert(p.order.last() == m.order.last());
}

/// Going to sleep keeps the queue in order.
pub proof fn put_to_sleep_inv(m: QueueModel)
    requires
        m.inv(),
    ensures
        m.put_to_sleep().inv(),
{
    let p = m.put_to_sleep();
    if m.order =~= seq![END_MARKER] {
        assert(p.order[0] == SLEEP_MARKER);
        assert(p.order.contains(SLEEP_MARKER));
        assert(m.order[0] == END_MARKER);
        assert(m.order.contains(END_MARKER));
    }
}

/// Letting go of the right to push a node, with the node in order for that,
/// keeps the queue in order.
pub proof fn let_go_inv(m: QueueModel, k: u64, node: NodeModel)
    requires
        m.inv(),
        m.claimed.contains(k),
        node.inv(false),
    ensures
        (QueueModel { claimed: m.claimed.remove(k), ..m.with_node(k, node) }).inv(),
{
    assert(m.live(k));
}

/// Storing the state that polling makes of a node keeps the queue in order.
pub proof fn polled_stored_inv(m: QueueModel, k: u64)
    requires
        m.inv(),
        m.claimed.contains(k),
    ensures
        m.polled_stored(k).inv(),
        m.live(k),
        !m.nodes[k].detached,
{
    let node = m.nodes[k];
    assert(m.live(k));
    assert(m.held(k));
    if node.is_kept() {
        node_change_inv(m, k, node.after_poll(), false);
        assert(m.polled_stored(k) =~= m.with_node(k, node.after_poll()).with_claim(k, false));
    } else if node.state.dropped {
        let_go_inv(m, k, node.let_go());
    } else {
        let_go_inv(m, k, node.after_poll());
    }
}

/// Releasing a reference, after any flag that is due for it, keeps the queue in
/// order.
pub proof fn released_inv(m: QueueModel, k: u64)
    requires
        m.inv(),
        m.live(k),
        m.nodes[k].loose > m.nodes[k].flags_due,
    ensures
        m.released(k).inv(),
        m.nodes[k].ref_count == 1 ==> !m.held(k),
{
    let node = m.nodes[k];
    if node.ref_count == 1 {
        node_freed_inv(m, k);
    } else {
        node_change_inv(m, k, node.released(), false);
        assert(m.released(k) =~= m.with_node(k, node.released()).with_claim(k, false));
    }
}

/// Processing a node is storing its state, and then pushing it or releasing the
/// queue's reference where that is due. It keeps the queue in order.
pub proof fn processed_inv(m: QueueModel, k: u64)
    requires
        m.inv(),
        m.claimed.contains(k),
    ensures
        m.processed(k).inv(),
        m.live(k),
        m.processed(k) == if m.nodes[k].state.dropped {
            m.polled_stored(k).released(k)
        } else {
            m.polled_stored(k).pushed_if(k, m.nodes[k].is_kept())
        },
{
    polled_stored_inv(m, k);
    let node = m.nodes[k];
    let stored = m.polled_stored(k);
    if node.state.dropped {
        assert(stored.live(k));
        released_inv(stored, k);
        assert(stored.nodes[k].released() =~= node.after_poll());
        assert(stored.released(k).nodes =~= m.processed(k).nodes);
        assert(stored.released(k) =~= m.processed(k));
    } else if node.is_kept() {
        pushed_inv(stored, k);
        assert(stored.pushed(k) =~= m.processed(k));
    } else {
        assert(stored =~= m.processed(k));
    }
}

/// Where the entries that can be taken end: at a marker, or at an entry whose
/// successor is not yet linked.
pub proof fn batch_ends(order: Seq<u64>, unlinked: Set<u64>)
    requires
        order.contains(END_MARKER) || order.contains(SLEEP_MARKER),
    ensures
        batch(order, unlinked) < order.len(),
        forall|j: int|
            0 <= j < batch(order, unlinked) ==> !is_marker(#[trigger] order[j])
                && !unlinked.contains(order[j]),
        is_marker(order[batch(order, unlinked) as int]) || unlinked.contains(
            order[batch(order, unlinked) as int],
        ),
    decreases order.len(),
{
    let x = if order.contains(END_MARKER) {
        END_MARKER
    } else {
        SLEEP_MARKER
    };
    let i = choose|i: int| 0 <= i < order.len() && order[i] == x;
    if !(is_marker(order[0]) || unlinked.contains(order[0])) {
        let rest = order.drop_first();
        assert(rest[i - 1] == x);
        assert(rest.contains(x));
        batch_ends(rest, unlinked);
        assert forall|j: int| 0 <= j < batch(order, unlinked) implies !is_marker(
            #[trigger] order[j],
        ) && !unlinked.contains(order[j]) by {
            if j > 0 {
                assert(order[j] == rest[j - 1]);
            }
        }
    }
}

/// Taking and processing one more entry.
pub proof fn polled_one_more(m: QueueModel, i: int)
    requires
        m.inv(),
        0 <= i < batch(m.order, m.unlinked),
    ensures
        m.polled_first(i).order.len() > 0,
        m.polled_first(i).order[0] == m.order[i],
        m.polled_first(i).nodes.contains_key(m.order[i]),
        m.polled_first(i).nodes[m.order[i]] == m.nodes[m.order[i]],
        m.polled_first(i).taken().processed(m.order[i]) == m.polled_first(i + 1),
        told(m.nodes, m.order.take(i + 1)) == if m.nodes[m.order[i]].tells() {
            told(m.nodes, m.order.take(i)).push(m.nodes[m.order[i]].event())
        } else {
            told(m.nodes, m.order.take(i))
        },
{
    batch_ends(m.order, m.unlinked);
    let n = m.order[i];
    let node = m.nodes[n];
    let ids = m.order.take(i);
    let more = m.order.take(i + 1);
    assert(more =~= ids.push(n));
    assert(more.drop_last() =~= ids);
    push_contains(ids, n);
    assert(m.order.contains(n));
    assert(m.live(n));
    assert(m.held(n));
    assert(!ids.contains(n));
    let f = |k: u64| m.nodes[k].tells();
    let g = |k: u64| m.nodes[k].is_kept();
    let e = |k: u64| m.nodes[k].event();
    reveal(Seq::filter);
    assert(ids.push(n).filter(f) == if f(n) {
        ids.filter(f).push(n)
    } else {
        ids.filter(f)
    });
    assert(ids.push(n).filter(g) == if g(n) {
        ids.filter(g).push(n)
    } else {
        ids.filter(g)
    });
    assert(ids.filter(f).push(n).map_values(e) =~= ids.filter(f).map_values(e).push(e(n)));
    let p = m.polled_first(i);
    let q = p.taken().processed(n);
    let r = m.polled_first(i + 1);
    assert(p.nodes[n] == node);
    assert(p.order.drop_first() =~= m.order.skip(i + 1) + kept(m.nodes, ids));
    assert(q.order =~= r.order);
    assert(q.claimed =~= r.claimed) by {
        if m.claimed.contains(n) {
            assert(!m.order.contains(n));
        }
    }
    assert(q.nodes =~= r.nodes);
    assert(q =~= r);
}

/// Those that a poll puts back are those that it comes to and keeps.
pub proof fn kept_members(nodes: Map<u64, NodeModel>, ids: Seq<u64>)
    ensures
        forall|k: u64| #[trigger]
            kept(nodes, ids).contains(k) <==> ids.contains(k) && nodes[k].is_kept(),
{
    let f = |k: u64| nodes[k].is_kept();
    assert forall|k: u64| #[trigger] kept(nodes, ids).contains(k) <==> ids.contains(k)
        && nodes[k].is_kept() by {
        if kept(nodes, ids).contains(k) {
            ids.lemma_filter_contains_rev(f, k);
            let i = choose|i: int| 0 <= i < ids.filter(f).len() && ids.filter(f)[i] == k;
            assert(f(ids.filter(f)[i]));
        }
        if ids.contains(k) && nodes[k].is_kept() {
            let i = choose|i: int| 0 <= i < ids.len() && ids[i] == k;
            assert(f(ids[i]));
        }
    }
}

/// What a poll comes to when nothing is under way: all nodes in the queue, in
/// their order.
pub proof fn settled_due(m: QueueModel)
    requires
        m.inv(),
        m.settled(),
    ensures
        m.due() == m.order.drop_first(),
        m.polled().order == seq![END_MARKER] + kept(m.nodes, m.order.drop_first()),
        m.polled().nodes == nodes_polled(m.nodes, m.order.drop_first()),
        forall|k: u64| #[trigger]
            m.order.drop_first().contains(k) <==> m.order.contains(k) && !is_marker(k),
{
    rotated_inv(m);
    let r = m.rotated();
    assert(m.order.len() > 0);
    assert(m.order.contains(m.order[0]));
    drop_first_contains(m.order);
    batch_ends(r.order, r.unlinked);
    let b = batch(r.order, r.unlinked) as int;
    let rest = m.order.drop_first();
    if b < rest.len() {
        assert(r.order[b] == rest[b]);
        assert(rest.contains(rest[b]));
    }
    assert(b == rest.len());
    assert(r.order.take(b) =~= rest);
    assert(r.order.skip(b) =~= seq![END_MARKER]);
}

/// A poll keeps the queue in order.
pub proof fn polled_inv(m: QueueModel)
    requires
        m.inv(),
    ensures
        m.polled().inv(),
{
    rotated_inv(m);
    let r = m.rotated();
    batch_ends(r.order, r.unlinked);
    polled_first_inv(r, batch(r.order, r.unlinked) as int);
}

/// Taking and processing entries, one after the other, keeps the queue in order.
pub proof fn polled_first_inv(m: QueueModel, i: int)
    requires
        m.inv(),
        0 <= i <= batch(m.order, m.unlinked),
    ensures
        m.polled_first(i).inv(),
    decreases i,
{
    batch_ends(m.order, m.unlinked);
    if i == 0 {
        reveal(Seq::filter);
        assert(m.order.take(0) =~= Seq::empty());
        assert(kept(m.nodes, m.order.take(0)) =~= Seq::empty());
        assert(m.polled_first(0).nodes =~= m.nodes);
        assert(m.polled_first(0).order =~= m.order);
        assert(m.polled_first(0) =~= m);
    } else {
        polled_first_inv(m, i - 1);
        polled_one_more(m, i - 1);
        let p = m.polled_first(i - 1);
        taken_inv(p);
        processed_inv(p.taken(), m.order[i - 1]);
    }
}

} // verus!
