//! What holds of the library as a whole.
use vstd::prelude::*;

use crate::event::{PollOpt, Ready, Token};
use crate::model::{QueueModel, END_MARKER, SLEEP_MARKER};
use crate::node::NodeModel;
use crate::queue::Dequeue;
use crate::state::ReadinessState;

verus! {

/// A word taken as a state is the word that the state is taken as, and the other
/// way round.
pub proof fn words_and_states_round_trip(w: usize, s: ReadinessState)
    ensures
        <usize as vstd::std_specs::convert::FromSpec<ReadinessState>>::from_spec(
            <ReadinessState as vstd::std_specs::convert::FromSpec<usize>>::from_spec(w),
        ) == w,
        <ReadinessState as vstd::std_specs::convert::FromSpec<usize>>::from_spec(
            <usize as vstd::std_specs::convert::FromSpec<ReadinessState>>::from_spec(s),
        ) == s,
{
}

/// The fields of a state can be told from its word alone: two states that say
/// the same are the same.
pub proof fn states_that_say_the_same_are_the_same(s: ReadinessState, t: ReadinessState)
    requires
        s@ == t@,
    ensures
        s == t,
{
    crate::state::state_is_its_fields(s);
    crate::state::state_is_its_fields(t);
}

// ---- Registering ----

/// A new registration disturbs nothing: its node is one that no other
/// registration has, even if the token is the same, the nodes of the others stay
/// as they are, and nothing is put in the queue, so that nothing is woken up.
pub proof fn a_registration_disturbs_nothing(
    m: QueueModel,
    token: Token,
    interest: Ready,
    opts: PollOpt,
)
    requires
        m.inv(),
        m.next_id < u64::MAX,
    ensures
        !m.nodes.contains_key(m.next_id),
        m.registered(token, interest, opts).live(m.next_id),
        m.registered(token, interest, opts).nodes[m.next_id] == NodeModel::fresh(
            token,
            interest,
            opts,
        ),
        m.registered(token, interest, opts).nodes.remove(m.next_id) == m.nodes,
        m.registered(token, interest, opts).order == m.order,
        m.registered(token, interest, opts).unlinked == m.unlinked,
        m.registered(token, interest, opts).claimed == m.claimed,
        !m.registered(token, interest, opts).held(m.next_id),
{
    crate::model::registered_inv(m, token, interest, opts);
    assert(m.registered(token, interest, opts).nodes.remove(m.next_id) =~= m.nodes);
}

// ---- Setting readiness ----

/// The readiness that is read is the one that was set last, and setting that of
/// one registration leaves the others as they are.
pub proof fn readiness_reads_back(m: QueueModel, k: u64, ready: Ready)
    requires
        m.inv(),
        m.live(k),
    ensures
        m.readied(k, ready).live(k),
        m.readied(k, ready).nodes[k].state.readiness == ready,
        forall|j: u64| #[trigger]
            m.nodes.contains_key(j) && j != k ==> m.readied(k, ready).nodes.contains_key(j)
                && m.readied(k, ready).nodes[j] == m.nodes[j],
{
}

/// Of any number of threads that set the readiness of one node, at most one has
/// the right to push it: who comes after the winner does not win.
pub proof fn one_setter_wins(m: QueueModel, k: u64, first: Ready, second: Ready)
    requires
        m.inv(),
        m.live(k),
        m.ready_wins(k, first),
    ensures
        m.ready_stored(k, first).claimed.contains(k),
        !m.ready_stored(k, first).ready_wins(k, second),
        !m.ready_stored(k, first).update_wins(k),
        !m.readied(k, first).ready_wins(k, second),
        !m.readied(k, first).update_wins(k),
{
}

/// A readiness that is not blank leads to the node being processed: once it is
/// set, the node is in the queue, or some thread is about to push it, unless the
/// node has been flagged as dropped.
pub proof fn ready_node_gets_queued(m: QueueModel, k: u64, ready: Ready)
    requires
        m.inv(),
        m.live(k),
        ready.some(),
        !m.nodes[k].state.dropped,
    ensures
        m.readied(k, ready).held(k),
{
    if m.ready_wins(k, ready) {
        crate::model::push_contains(m.order, k);
    }
}

// ---- The queue ----

/// A node is in the queue at most once, and not while some thread holds the
/// right to push it.
pub proof fn no_node_is_queued_twice(m: QueueModel, i: int, j: int)
    requires
        m.inv(),
        0 <= i < j < m.order.len(),
    ensures
        m.order[i] != m.order[j],
        !m.claimed.contains(m.order[i]),
{
    assert(m.order.contains(m.order[i]));
    if m.claimed.contains(m.order[i]) {
        assert(!m.order.contains(m.order[i]));
    }
}

/// While the queue sleeps, no node is in it.
pub proof fn sleep_means_empty(m: QueueModel)
    requires
        m.inv(),
        m.asleep(),
    ensures
        m.order =~= seq![SLEEP_MARKER],
{
    assert(m.order.len() > 0);
    assert(m.order[m.order.len() - 1] == SLEEP_MARKER);
    assert(m.order.contains(SLEEP_MARKER));
    assert(m.order[0] == SLEEP_MARKER);
}

/// The nodes `ids` pushed, one after the other.
pub open spec fn pushed_all(m: QueueModel, ids: Seq<u64>) -> QueueModel
    decreases ids.len(),
{
    if ids.len() == 0 {
        m
    } else {
        pushed_all(m, ids.drop_last()).pushed(ids.last())
    }
}

/// `n` nodes taken out, one after the other.
pub open spec fn dequeued(m: QueueModel, n: nat) -> QueueModel
    decreases n,
{
    if n == 0 {
        m
    } else {
        dequeued(m, (n - 1) as nat).rotated().taken()
    }
}

/// Pushes are put behind what is in the queue, in their order, and lose no node.
pub proof fn pushes_are_put_behind(m: QueueModel, ids: Seq<u64>)
    requires
        m.inv(),
        ids.no_duplicates(),
        forall|i: int| 0 <= i < ids.len() ==> m.claimed.contains(#[trigger] ids[i]),
    ensures
        pushed_all(m, ids).inv(),
        pushed_all(m, ids) == (QueueModel {
            order: m.order + ids,
            claimed: m.claimed.difference(ids.to_set()),
            ..m
        }),
    decreases ids.len(),
{
    let p = pushed_all(m, ids);
    let q = QueueModel { order: m.order + ids, claimed: m.claimed.difference(ids.to_set()), ..m };
    if ids.len() == 0 {
        assert(m.claimed.difference(ids.to_set()) =~= m.claimed);
        assert(p =~= q);
    } else {
        let first = ids.drop_last();
        pushes_are_put_behind(m, first);
        assert(m.claimed.contains(ids[ids.len() - 1]));
        assert(!first.to_set().contains(ids.last()));
        crate::model::pushed_inv(pushed_all(m, first), ids.last());
        assert(ids =~= first.push(ids.last()));
        crate::model::push_contains(first, ids.last());
        assert(p.claimed =~= q.claimed);
        assert(p.order =~= q.order);
        assert(p =~= q);
    }
}

/// First in, first out: nodes that are pushed onto a queue with nothing in it are
/// taken out in the order in which they were pushed, each once, and then no node
/// is left. A poll comes to them in that order.
pub proof fn pushes_come_out_in_their_order(m: QueueModel, ids: Seq<u64>, n: nat)
    requires
        m.inv(),
        m.order == seq![END_MARKER],
        ids.no_duplicates(),
        forall|i: int| 0 <= i < ids.len() ==> m.claimed.contains(#[trigger] ids[i]),
        n <= ids.len(),
    ensures
        pushed_all(m, ids).order == seq![END_MARKER] + ids,
        pushed_all(m, ids).unlinked == Set::<u64>::empty(),
        pushed_all(m, ids).due() == ids,
        dequeued(pushed_all(m, ids), n).next_node() == if n < ids.len() {
            Dequeue::Data(ids[n as int])
        } else {
            Dequeue::Empty
        },
        dequeued(pushed_all(m, ids), n).rotated().order == ids.skip(n as int).push(END_MARKER),
    decreases n,
{
    let p = pushed_all(m, ids);
    pushes_are_put_behind(m, ids);
    assert(m.unlinked =~= Set::empty()) by {
        assert forall|k: u64| !m.unlinked.contains(k) by {
            if m.unlinked.contains(k) {
                assert(m.order.contains(k));
            }
        }
    }
    assert forall|i: int| 0 <= i < ids.len() implies !crate::model::is_marker(
        #[trigger] ids[i],
    ) by {
        assert(m.claimed.contains(ids[i]));
        assert(m.live(ids[i]));
    }
    let r = p.rotated();
    assert(r.order =~= ids.push(END_MARKER));
    assert(r.order.contains(END_MARKER)) by {
        assert(r.order[ids.len() as int] == END_MARKER);
    }
    crate::model::batch_ends(r.order, r.unlinked);
    let b = crate::model::batch(r.order, r.unlinked) as int;
    assert(b == ids.len()) by {
        if b < ids.len() {
            assert(r.order[b] == ids[b]);
        }
    }
    assert(p.due() =~= ids);
    if n > 0 {
        pushes_come_out_in_their_order(m, ids, (n - 1) as nat);
        let before = dequeued(p, (n - 1) as nat).rotated();
        assert(before.order[0] == ids[n - 1]);
        assert(before.order.drop_first() =~= ids.skip(n as int).push(END_MARKER));
        taking_links_nothing(p, n);
        let q = dequeued(p, n);
        if n < ids.len() {
            assert(q.order[0] == ids[n as int]);
        } else {
            assert(q.order =~= seq![END_MARKER]);
        }
        assert(q.rotated().order =~= ids.skip(n as int).push(END_MARKER));
    } else {
        assert(ids.skip(0) =~= ids);
    }
}

/// Taking nodes out leaves the links as they are.
proof fn taking_links_nothing(m: QueueModel, n: nat)
    ensures
        dequeued(m, n).unlinked == m.unlinked,
    decreases n,
{
    if n > 0 {
        taking_links_nothing(m, (n - 1) as nat);
    }
}

/// One wakeup for each sleep: of any number of nodes that are pushed onto a queue
/// that sleeps, one after the other, the first is the one whose push has to wake
/// `Poll` up, and it alone.
pub proof fn one_wakeup_per_sleep(m: QueueModel, ids: Seq<u64>, n: int)
    requires
        m.inv(),
        m.asleep(),
        ids.no_duplicates(),
        forall|i: int| 0 <= i < ids.len() ==> m.claimed.contains(#[trigger] ids[i]),
        0 <= n <= ids.len(),
    ensures
        pushed_all(m, ids.take(n)).asleep() <==> n == 0,
{
    let first = ids.take(n);
    assert forall|i: int| 0 <= i < first.len() implies m.claimed.contains(#[trigger] first[i]) by {
        assert(m.claimed.contains(ids[i]));
    }
    pushes_are_put_behind(m, first);
    if n > 0 {
        assert(m.claimed.contains(ids[n - 1]));
        assert(m.live(ids[n - 1]));
        assert(pushed_all(m, first).order.last() == ids[n - 1]);
    } else {
        assert(first =~= Seq::empty());
    }
}

/// The push that finds the queue asleep is the one that has to wake `Poll` up,
/// and it alone: after it the queue does not sleep, until `Poll` goes to sleep
/// anew, which it cannot do before it has taken what is in the queue.
pub proof fn sleeper_is_woken_once(m: QueueModel, n: u64)
    requires
        m.inv(),
        m.claimed.contains(n),
    ensures
        !m.swapped(n).asleep(),
        !m.pushed(n).asleep(),
        m.swapped(n).put_to_sleep() == m.swapped(n),
        m.pushed(n).put_to_sleep() == m.pushed(n),
{
    assert(m.live(n));
    assert(m.order.len() > 0);
}

/// A poll leaves the queue awake: no push is told to wake up a `Poll` that is not
/// waiting.
pub proof fn poll_leaves_the_queue_awake(m: QueueModel)
    requires
        m.inv(),
    ensures
        m.polled().order.len() > 0,
        !m.polled().asleep(),
{
    crate::model::rotated_inv(m);
    let r = m.rotated();
    crate::model::batch_ends(r.order, r.unlinked);
    let b = crate::model::batch(r.order, r.unlinked) as int;
    let back = crate::model::kept(r.nodes, r.order.take(b));
    let p = m.polled();
    assert(p.order =~= r.order.skip(b) + back);
    assert(m.order.contains(m.order[0]));
    if back.len() > 0 {
        crate::model::kept_members(r.nodes, r.order.take(b));
        assert(back.contains(back.last()));
        assert(r.order.take(b).contains(back.last()));
        let i = choose|i: int| 0 <= i < b && r.order.take(b)[i] == back.last();
        assert(r.order[i] == back.last());
    } else {
        assert(p.order.last() == r.order.last());
        if r.order.last() == SLEEP_MARKER {
            sleep_means_empty(r);
            assert(r.order[0] == SLEEP_MARKER);
        }
    }
}

// ---- Polling ----

/// A poll with nothing under way comes to all nodes in the queue, in the order
/// in which they were pushed, and leaves in the queue those that it puts back.
pub proof fn poll_comes_to_every_queued_node(m: QueueModel)
    requires
        m.inv(),
        m.settled(),
    ensures
        m.due() == m.order.drop_first(),
        forall|k: u64| #[trigger] m.due().contains(k) <==> m.live(k) && m.order.contains(k),
        m.polled().order == seq![END_MARKER] + crate::model::kept(m.nodes, m.due()),
{
    crate::model::settled_due(m);
}

/// An edge-triggered registration is told of once: the poll that comes to its
/// node takes the node out of the queue, and the next poll does not come to it
/// unless its readiness is set anew.
pub proof fn edge_is_told_once(m: QueueModel, k: u64)
    requires
        m.inv(),
        m.settled(),
        m.due().contains(k),
        !m.nodes[k].state.dropped,
        m.nodes[k].state.opts.edge,
    ensures
        m.polled().live(k),
        !m.polled().held(k),
        !m.polled().nodes[k].state.queued,
        !m.polled().due().contains(k),
{
    crate::model::settled_due(m);
    crate::model::kept_members(m.nodes, m.due());
    poll_keeps_settled(m);
    crate::model::settled_due(m.polled());
    assert(m.order.contains(k));
    assert(m.live(k));
    let p = m.polled();
    assert(!p.order.contains(k)) by {
        if p.order.contains(k) {
            let i = choose|i: int| 0 <= i < p.order.len() && p.order[i] == k;
            if i > 0 {
                assert(crate::model::kept(m.nodes, m.due())[i - 1] == k);
            }
        }
    }
}

/// A level-triggered registration is told of at each poll for as long as it is
/// ready, unless it is oneshot: the poll puts its node back, and the next poll
/// tells the same of it.
pub proof fn level_is_told_again(m: QueueModel, k: u64)
    requires
        m.inv(),
        m.settled(),
        m.due().contains(k),
        m.nodes[k].tells(),
        !m.nodes[k].state.opts.edge,
        !m.nodes[k].state.opts.oneshot,
    ensures
        m.polled().live(k),
        m.polled().due().contains(k),
        m.polled().nodes[k].tells(),
        m.polled().nodes[k].event() == m.nodes[k].event(),
{
    crate::model::settled_due(m);
    crate::model::kept_members(m.nodes, m.due());
    poll_keeps_settled(m);
    crate::model::settled_due(m.polled());
    assert(m.order.contains(k));
    assert(m.live(k));
    let p = m.polled();
    let back = crate::model::kept(m.nodes, m.due());
    assert(back.contains(k));
    let i = choose|i: int| 0 <= i < back.len() && back[i] == k;
    assert(p.order[i + 1] == k);
    assert(p.order.contains(k));
}

/// A oneshot registration is disarmed by the poll that tells of it: it is not
/// told of again before it is updated, whatever its readiness is set to.
pub proof fn oneshot_is_disarmed(m: QueueModel, k: u64, ready: Ready)
    requires
        m.inv(),
        m.settled(),
        m.due().contains(k),
        m.nodes[k].tells(),
        m.nodes[k].state.opts.oneshot,
    ensures
        m.polled().live(k),
        !m.polled().nodes[k].tells(),
        !m.polled().readied(k, ready).nodes[k].tells(),
{
    crate::model::settled_due(m);
    assert(m.order.contains(k));
    assert(m.live(k));
}

/// A node that a poll comes to and that has something to tell causes an event,
/// with the registration's current token and the readiness that it has an
/// interest in.
pub proof fn a_node_that_tells_causes_an_event(m: QueueModel, k: u64)
    requires
        m.inv(),
        m.due().contains(k),
        m.nodes[k].tells(),
    ensures
        crate::model::told(m.nodes, m.due()).contains(m.nodes[k].event()),
{
    let f = |j: u64| m.nodes[j].tells();
    let e = |j: u64| m.nodes[j].event();
    let ids = m.due();
    let i = choose|i: int| 0 <= i < ids.len() && ids[i] == k;
    assert(f(ids[i]));
    assert(ids.filter(f).contains(ids[i]));
    let j = choose|j: int| 0 <= j < ids.filter(f).len() && ids.filter(f)[j] == k;
    assert(crate::model::told(m.nodes, ids)[j] == e(k));
}

/// Each event is caused by a node that the poll comes to and that has something
/// to tell: there is no other event, and not more of them than nodes.
pub proof fn an_event_is_caused_by_a_node_that_tells(m: QueueModel, i: int)
    requires
        m.inv(),
        0 <= i < crate::model::told(m.nodes, m.due()).len(),
    ensures
        exists|k: u64| #[trigger]
            m.due().contains(k) && m.nodes[k].tells() && crate::model::told(m.nodes, m.due())[i]
                == m.nodes[k].event(),
        crate::model::told(m.nodes, m.due()).len() <= m.due().len(),
{
    let f = |j: u64| m.nodes[j].tells();
    let ids = m.due();
    let k = ids.filter(f)[i];
    assert(f(ids.filter(f)[i]));
    assert(ids.filter(f).contains(k));
    ids.lemma_filter_contains_rev(f, k);
}

// ---- Updating ----

/// An update takes effect: the registration has the new token, interest and
/// options, and its readiness is left as it was.
pub proof fn update_takes_effect(m: QueueModel, k: u64, token: Token, interest: Ready, opts: PollOpt)
    requires
        m.inv(),
        m.live(k),
    ensures
        m.updated(k, token, interest, opts).live(k),
        m.updated(k, token, interest, opts).nodes[k].token() == token,
        m.updated(k, token, interest, opts).nodes[k].state.interest == interest,
        m.updated(k, token, interest, opts).nodes[k].state.opts == opts,
        m.updated(k, token, interest, opts).nodes[k].state.readiness
            == m.nodes[k].state.readiness,
{
}

/// An update does not write the token slot that the polling side reads.
pub proof fn update_spares_the_slot_being_read(node: NodeModel, token: Token, interest: Ready, opts: PollOpt)
    requires
        node.tokens.len() == 3,
        node.state.poll_token < 3,
        node.state.registration_token < 3,
    ensures
        node.updated(token, interest, opts).state.poll_token == node.state.poll_token,
        node.updated(token, interest, opts).tokens[node.state.poll_token as int]
            == node.tokens[node.state.poll_token as int],
        node.updated(token, interest, opts).tokens[node.state.registration_token as int]
            == node.tokens[node.state.registration_token as int],
{
}

/// An update of a node that is ready has it processed: the node is in the queue
/// afterwards, or some thread is about to push it, unless it has been flagged as
/// dropped.
pub proof fn update_requeues_a_ready_node(
    m: QueueModel,
    k: u64,
    token: Token,
    interest: Ready,
    opts: PollOpt,
)
    requires
        m.inv(),
        m.live(k),
        m.nodes[k].state.readiness.some(),
        !m.nodes[k].state.dropped,
    ensures
        m.updated(k, token, interest, opts).held(k),
{
    if m.update_wins(k) {
        crate::model::push_contains(m.order, k);
    }
}

/// A registration that has been made to ask for nothing is not told of, whatever
/// its readiness is set to.
pub proof fn deregistered_is_not_told(m: QueueModel, k: u64, ready: Ready)
    requires
        m.inv(),
        m.live(k),
    ensures
        !m.updated(k, Token(0), Ready::nothing(), PollOpt::nothing()).nodes[k].tells(),
        !m.updated(k, Token(0), Ready::nothing(), PollOpt::nothing()).readied(
            k,
            ready,
        ).nodes[k].tells(),
{
}

// ---- Handles and references ----

/// A live node has one reference for each of its handles, and one more for as
/// long as the queue may come to it. There are others only while handles are
/// being made or dropped.
pub proof fn references_are_counted(m: QueueModel, k: u64)
    requires
        m.inv(),
        m.live(k),
    ensures
        m.nodes[k].ref_count >= m.nodes[k].num_set_readiness + m.nodes[k].num_registration,
        m.held(k) ==> m.nodes[k].ref_count >= m.nodes[k].num_set_readiness
            + m.nodes[k].num_registration + 1,
        m.settled() && m.held(k) ==> m.nodes[k].ref_count == m.nodes[k].num_set_readiness
            + m.nodes[k].num_registration + 1,
        m.nodes[k].ref_count > 0,
{
}

/// What is in the queue, or about to be pushed, is live: no node is freed while
/// the queue may come to it.
pub proof fn queued_nodes_are_live(m: QueueModel, k: u64)
    requires
        m.inv(),
        m.held(k),
    ensures
        m.nodes.contains_key(k),
{
    if m.claimed.contains(k) {
        assert(m.live(k));
    }
}

/// A poll frees no node that a handle is counted for, and leaves the counts as
/// they are.
pub proof fn a_poll_keeps_the_nodes_of_handles(m: QueueModel, k: u64)
    requires
        m.inv(),
        m.live(k),
        m.nodes[k].num_set_readiness > 0 || m.nodes[k].num_registration > 0,
    ensures
        m.polled().live(k),
        m.polled().nodes[k].num_set_readiness == m.nodes[k].num_set_readiness,
        m.polled().nodes[k].num_registration == m.nodes[k].num_registration,
{
    crate::model::rotated_inv(m);
    let r = m.rotated();
    crate::model::batch_ends(r.order, r.unlinked);
    if m.due().contains(k) {
        let i = choose|i: int| 0 <= i < m.due().len() && m.due()[i] == k;
        assert(r.order[i] == k);
        assert(r.order.contains(k));
        assert(r.live(k));
        assert(r.held(k));
    }
}

/// Dropping a handle frees no node that another handle is counted for, and leaves
/// the count of the other kind as it is.
pub proof fn a_drop_keeps_the_nodes_of_other_handles(m: QueueModel, k: u64)
    requires
        m.inv(),
        m.live(k),
    ensures
        m.nodes[k].num_registration > 0 && m.nodes[k].num_set_readiness > 0
            ==> m.registration_dropped(k).live(k)
            && m.registration_dropped(k).nodes[k].num_set_readiness
            == m.nodes[k].num_set_readiness,
        m.nodes[k].num_registration > 0 && m.nodes[k].num_set_readiness > 0
            ==> m.set_readiness_dropped(k).live(k)
            && m.set_readiness_dropped(k).nodes[k].num_registration == m.nodes[k].num_registration,
        m.nodes[k].num_set_readiness > 1 ==> m.set_readiness_dropped(k).live(k)
            && m.set_readiness_dropped(k).nodes[k].num_set_readiness
            == m.nodes[k].num_set_readiness - 1,
        forall|j: u64| #[trigger]
            m.nodes.contains_key(j) && j != k ==> m.registration_dropped(k).nodes.contains_key(j)
                && m.registration_dropped(k).nodes[j] == m.nodes[j]
                && m.set_readiness_dropped(k).nodes.contains_key(j)
                && m.set_readiness_dropped(k).nodes[j] == m.nodes[j],
{
}

/// Making a handle and dropping it again leaves the queue as it was.
pub proof fn clone_then_drop_changes_nothing(m: QueueModel, k: u64)
    requires
        m.inv(),
        m.live(k),
        m.nodes[k].num_set_readiness > 0,
    ensures
        m.with_node(k, m.nodes[k].after_clone()).set_readiness_dropped(k) == m,
{
    let c = m.with_node(k, m.nodes[k].after_clone());
    assert(c.nodes[k].after_set_readiness_drop() =~= m.nodes[k]);
    assert(c.nodes.insert(k, m.nodes[k]) =~= m.nodes);
    assert(c.set_readiness_dropped(k) =~= m);
}

/// A node that is flagged as dropped is never queued again: neither setting its
/// readiness nor updating it wins the right to push it.
pub proof fn dropped_is_never_queued_again(m: QueueModel, k: u64, ready: Ready)
    requires
        m.inv(),
        m.live(k),
        m.nodes[k].state.dropped,
    ensures
        !m.ready_wins(k, ready),
        !m.update_wins(k),
        m.readied(k, ready).order == m.order,
        m.readied(k, ready).nodes[k].state.dropped,
{
}

/// Dropping the last handle of one kind flags the node, as long as the queue has
/// not let go of it, and leaves it where a poll comes to it.
pub proof fn last_drop_flags_the_node(m: QueueModel, k: u64)
    requires
        m.inv(),
        m.live(k),
        !m.nodes[k].detached,
    ensures
        m.nodes[k].num_registration == 1 ==> m.registration_dropped(k).live(k)
            && m.registration_dropped(k).nodes[k].state.dropped && m.registration_dropped(k).held(k),
        m.nodes[k].num_set_readiness == 1 ==> m.set_readiness_dropped(k).live(k)
            && m.set_readiness_dropped(k).nodes[k].state.dropped && m.set_readiness_dropped(
            k,
        ).held(k),
{
    crate::model::push_contains(m.order, k);
}

/// Nodes do not leak: once all handles are gone, a poll frees every node, and
/// tells of none.
pub proof fn nodes_do_not_leak(m: QueueModel)
    requires
        m.inv(),
        m.settled(),
        forall|k: u64| #[trigger]
            m.live(k) ==> m.nodes[k].num_set_readiness == 0 && m.nodes[k].num_registration == 0,
    ensures
        m.polled().nodes.dom() == set![END_MARKER, SLEEP_MARKER],
        m.polled().nodes.dom().len() == 2,
        m.polled().order == seq![END_MARKER],
        crate::model::told(m.nodes, m.due()) == Seq::<crate::event::Event>::empty(),
{
    crate::model::settled_due(m);
    let ids = m.due();
    assert forall|k: u64| ids.contains(k) implies m.live(k) && m.nodes[k].is_freed() by {
        assert(m.order.contains(k));
        assert(m.live(k));
    }
    assert(m.polled().nodes.dom() =~= set![END_MARKER, SLEEP_MARKER]) by {
        assert forall|k: u64| m.polled().nodes.dom().contains(k) implies set![
            END_MARKER,
            SLEEP_MARKER,
        ].contains(k) by {
            if m.live(k) {
                assert(m.held(k));
                assert(ids.contains(k));
            }
        }
        assert(!ids.contains(END_MARKER) && !ids.contains(SLEEP_MARKER));
    }
    crate::model::kept_members(m.nodes, ids);
    let back = crate::model::kept(m.nodes, ids);
    if back.len() > 0 {
        assert(back.contains(back[0]));
    }
    assert(m.polled().order =~= seq![END_MARKER]);
    let f = |k: u64| m.nodes[k].tells();
    if ids.filter(f).len() > 0 {
        let x = ids.filter(f)[0];
        assert(f(x));
        ids.lemma_filter_contains_rev(f, x);
    }
    assert(crate::model::told(m.nodes, ids) =~= Seq::empty());
}

// ---- What steps leave alone ----

/// Whole operations leave nothing under way.
pub proof fn whole_operations_keep_settled(
    m: QueueModel,
    k: u64,
    ready: Ready,
    token: Token,
    opts: PollOpt,
)
    requires
        m.inv(),
        m.settled(),
        m.live(k),
    ensures
        m.registered(token, ready, opts).settled(),
        m.readied(k, ready).settled(),
        m.updated(k, token, ready, opts).settled(),
        m.with_node(k, m.nodes[k].after_clone()).settled(),
        m.registration_dropped(k).settled(),
        m.set_readiness_dropped(k).settled(),
        m.put_to_sleep().settled(),
        m.polled().settled(),
{
    assert(m.order.len() > 0);
    poll_keeps_settled(m);
}

/// A poll with nothing under way leaves nothing under way.
proof fn poll_keeps_settled(m: QueueModel)
    requires
        m.inv(),
        m.settled(),
    ensures
        m.polled().settled(),
        m.polled().inv(),
{
    crate::model::settled_due(m);
    crate::model::polled_inv(m);
}

} // verus!
