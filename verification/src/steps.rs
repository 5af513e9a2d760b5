//! The steps that threads take on the readiness queue, in whatever order they
//! come, and what no order of them can break.
use vstd::prelude::*;

use crate::event::{PollOpt, Ready, Token};
use crate::model::QueueModel;
use crate::node::NodeModel;

verus! {

/// One step of one thread. Each is what the function of [`ReadinessQueue`] that
/// is named with it does.
///
/// [`ReadinessQueue`]: crate::queue::ReadinessQueue
pub enum Step {
    /// A registration is made: `register`.
    Register(Token, Ready, PollOpt),
    /// A readiness is stored, by a compare-and-swap that succeeds:
    /// `try_set_readiness`.
    StoreReadiness(u64, Ready),
    /// An update lock is asked for: `begin_update`.
    LockUpdate(u64),
    /// A token is written to a slot that is free for it, under the update lock:
    /// `write_token`.
    WriteToken(u64, nat, Token),
    /// The state of an update is stored, under the update lock: `store_update`.
    StoreUpdate(u64, nat, Ready, PollOpt),
    /// An update lock is given back: `end_update`.
    UnlockUpdate(u64),
    /// A reference is taken, for a `SetReadiness` handle in the making:
    /// `retain_node`.
    Retain(u64),
    /// A `SetReadiness` handle that has its reference is counted:
    /// `count_set_readiness`.
    Count(u64),
    /// A `Registration` handle is not counted any more: `uncount_registration`.
    UncountRegistration(u64),
    /// A `SetReadiness` handle is not counted any more: `uncount_set_readiness`.
    UncountSetReadiness(u64),
    /// A node is flagged as dropped, the last handle of one kind being gone:
    /// `flag_dropped`.
    Flag(u64),
    /// A reference is released, and the node freed if it was the last:
    /// `release_node`.
    Release(u64),
    /// A node becomes the newest entry: `begin_enqueue`.
    Swap(u64),
    /// The entry before a pushed node, or before the end marker, is linked to it:
    /// `finish_enqueue`.
    Link(u64, u64),
    /// A marker in front is taken and the end marker becomes the newest entry:
    /// `begin_rotate`. The link to it follows as after a push.
    Rotate,
    /// The oldest entry is taken, which `dequeue_node` ends with.
    Take,
    /// The state that polling makes of a node is stored: `store_polled`.
    StorePolled(u64),
    /// The queue is put to sleep: `prepare_for_sleep`.
    Sleep,
}

impl QueueModel {
    /// Whether a thread may take the step `s` now.
    pub open spec fn allows(self, s: Step) -> bool {
        match s {
            Step::Register(_, _, _) => self.next_id < u64::MAX,
            Step::StoreReadiness(k, _) => self.live(k),
            Step::LockUpdate(k) => self.live(k),
            Step::WriteToken(k, slot, token) => self.live(k) && self.nodes[k].update_lock
                && self.nodes[k].spares(slot, token),
            Step::StoreUpdate(k, slot, _, _) => self.live(k) && self.nodes[k].update_lock && slot
                < 3,
            Step::UnlockUpdate(k) => self.live(k) && self.nodes[k].update_lock,
            Step::Retain(k) => self.live(k) && self.nodes[k].num_set_readiness > 0,
            Step::Count(k) => self.live(k) && self.nodes[k].num_set_readiness > 0
                && self.nodes[k].loose > self.nodes[k].flags_due,
            Step::UncountRegistration(k) => self.live(k) && self.nodes[k].num_registration > 0,
            Step::UncountSetReadiness(k) => self.live(k) && self.nodes[k].num_set_readiness > 0,
            Step::Flag(k) => self.live(k) && self.nodes[k].flags_due > 0,
            Step::Release(k) => self.live(k) && self.nodes[k].loose > self.nodes[k].flags_due,
            Step::Swap(n) => self.claimed.contains(n),
            Step::Link(prev, n) => self.link_due(prev, n),
            Step::Rotate => true,
            Step::Take => !crate::model::is_marker(self.order[0]) && !self.unlinked.contains(
                self.order[0],
            ),
            Step::StorePolled(n) => self.claimed.contains(n),
            Step::Sleep => true,
        }
    }

    /// The queue once the step `s` has been taken.
    pub open spec fn after(self, s: Step) -> QueueModel {
        match s {
            Step::Register(token, interest, opts) => self.registered(token, interest, opts),
            Step::StoreReadiness(k, ready) => self.ready_stored(k, ready),
            Step::LockUpdate(k) => self.with_node(
                k,
                NodeModel { update_lock: true, ..self.nodes[k] },
            ),
            Step::WriteToken(k, slot, token) => self.with_node(
                k,
                self.nodes[k].token_written(slot, token),
            ),
            Step::StoreUpdate(k, slot, interest, opts) => self.update_stored(
                k,
                slot,
                interest,
                opts,
            ),
            Step::UnlockUpdate(k) => self.with_node(
                k,
                NodeModel { update_lock: false, ..self.nodes[k] },
            ),
            Step::Retain(k) => self.with_node(k, self.nodes[k].retained()),
            Step::Count(k) => self.with_node(k, self.nodes[k].set_readiness_counted()),
            Step::UncountRegistration(k) => self.with_node(
                k,
                self.nodes[k].registration_uncounted(),
            ),
            Step::UncountSetReadiness(k) => self.with_node(
                k,
                self.nodes[k].set_readiness_uncounted(),
            ),
            Step::Flag(k) => self.flagged(k),
            Step::Release(k) => self.released(k),
            Step::Swap(n) => self.swapped(n),
            Step::Link(prev, _) => self.linked(prev),
            Step::Rotate => self.rotate_swapped(),
            Step::Take => self.taken(),
            Step::StorePolled(n) => self.polled_stored(n),
            Step::Sleep => self.put_to_sleep(),
        }
    }

    /// Whether the steps `run` may be taken one after the other.
    pub open spec fn allows_run(self, run: Seq<Step>) -> bool
        decreases run.len(),
    {
        run.len() > 0 ==> self.allows(run[0]) && self.after(run[0]).allows_run(run.drop_first())
    }

    /// The queue once the steps `run` have been taken.
    pub open spec fn after_run(self, run: Seq<Step>) -> QueueModel
        decreases run.len(),
    {
        if run.len() == 0 {
            self
        } else {
            self.after(run[0]).after_run(run.drop_first())
        }
    }
}

/// Every step keeps the queue in order, whichever thread takes it and whatever
/// the other threads are in the middle of.
pub proof fn every_step_keeps_the_queue_in_order(m: QueueModel, s: Step)
    requires
        m.inv(),
        m.allows(s),
    ensures
        m.after(s).inv(),
{
    match s {
        Step::Register(token, interest, opts) => {
            crate::model::registered_inv(m, token, interest, opts);
        },
        Step::StoreReadiness(k, ready) => {
            crate::model::node_change_inv(m, k, m.after(s).nodes[k], m.ready_wins(k, ready));
        },
        Step::StoreUpdate(k, _, _, _) => {
            crate::model::node_change_inv(m, k, m.after(s).nodes[k], m.update_wins(k));
        },
        Step::Flag(k) => {
            crate::model::node_change_inv(m, k, m.after(s).nodes[k], !m.nodes[k].state.queued);
        },
        Step::LockUpdate(k)
        | Step::WriteToken(k, _, _)
        | Step::UnlockUpdate(k)
        | Step::Retain(k)
        | Step::Count(k)
        | Step::UncountRegistration(k)
        | Step::UncountSetReadiness(k) => {
            let node = m.after(s).nodes[k];
            crate::model::node_change_inv(m, k, node, false);
            assert(m.after(s) =~= m.with_node(k, node).with_claim(k, false));
        },
        Step::Release(k) => {
            crate::model::released_inv(m, k);
        },
        Step::Swap(n) => {
            crate::model::swapped_inv(m, n);
        },
        Step::Link(prev, _) => {
            crate::model::linked_inv(m, prev);
        },
        Step::Rotate => {
            crate::model::rotate_swapped_inv(m);
        },
        Step::Take => {
            crate::model::taken_inv(m);
        },
        Step::StorePolled(n) => {
            crate::model::polled_stored_inv(m, n);
        },
        Step::Sleep => {
            crate::model::put_to_sleep_inv(m);
        },
    }
}

/// However the steps of any number of threads are interleaved, the queue stays
/// in order.
pub proof fn any_interleaving_keeps_the_queue_in_order(m: QueueModel, run: Seq<Step>)
    requires
        m.inv(),
        m.allows_run(run),
    ensures
        m.after_run(run).inv(),
    decreases run.len(),
{
    if run.len() > 0 {
        every_step_keeps_the_queue_in_order(m, run[0]);
        any_interleaving_keeps_the_queue_in_order(m.after(run[0]), run.drop_first());
    }
}

/// The right to push a node stays with the thread that has won it: no step of
/// another thread takes it away.
pub proof fn a_claim_stays(m: QueueModel, s: Step, n: u64)
    requires
        m.inv(),
        m.allows(s),
        m.claimed.contains(n),
        s != Step::Swap(n),
        s != Step::StorePolled(n),
    ensures
        m.after(s).claimed.contains(n),
{
}

/// A link that is due stays due until it is written: no step of another thread
/// takes either of the two entries away, or puts anything between them.
pub proof fn a_due_link_stays_due(m: QueueModel, s: Step, prev: u64, n: u64)
    requires
        m.inv(),
        m.allows(s),
        m.link_due(prev, n),
        s != Step::Link(prev, n),
    ensures
        m.after(s).link_due(prev, n),
{
    let i = choose|i: int|
        0 <= i < m.order.len() - 1 && #[trigger] m.order[i] == prev && m.order[i + 1] == n;
    let p = m.after(s);
    match s {
        Step::Swap(k) => {
            assert(p.order[i] == prev && p.order[i + 1] == n);
        },
        Step::Link(prev2, n2) => {
            let j = choose|j: int|
                0 <= j < m.order.len() - 1 && #[trigger] m.order[j] == prev2 && m.order[j + 1]
                    == n2;
            assert(prev2 != prev);
            assert(p.order[i] == prev && p.order[i + 1] == n);
        },
        Step::Rotate => {
            if crate::model::is_marker(m.order[0]) && !m.unlinked.contains(m.order[0]) {
                assert(i > 0);
                assert(p.order[i - 1] == prev && p.order[i - 1 + 1] == n);
            }
        },
        Step::Take => {
            assert(i > 0);
            assert(p.order[i - 1] == prev && p.order[i - 1 + 1] == n);
        },
        _ => {
            assert(p.order[i] == prev && p.order[i + 1] == n);
        },
    }
}

/// A run that is one run and then another.
pub proof fn runs_join(m: QueueModel, first: Seq<Step>, second: Seq<Step>)
    ensures
        m.allows_run(first + second) <==> m.allows_run(first) && m.after_run(first).allows_run(
            second,
        ),
        m.after_run(first + second) == m.after_run(first).after_run(second),
    decreases first.len(),
{
    if first.len() == 0 {
        assert(first + second =~= second);
    } else {
        assert((first + second).drop_first() =~= first.drop_first() + second);
        runs_join(m.after(first[0]), first.drop_first(), second);
    }
}

/// A run of one step.
pub proof fn single_step(m: QueueModel, s: Step)
    ensures
        m.allows_run(seq![s]) <==> m.allows(s),
        m.after_run(seq![s]) == m.after(s),
{
    reveal_with_fuel(QueueModel::allows_run, 2);
    reveal_with_fuel(QueueModel::after_run, 2);
}

/// A run of two steps.
pub proof fn two_steps(m: QueueModel, s: Step, t: Step)
    ensures
        m.allows_run(seq![s, t]) <==> m.allows(s) && m.after(s).allows(t),
        m.after_run(seq![s, t]) == m.after(s).after(t),
{
    assert(seq![s, t] =~= seq![s] + seq![t]);
    runs_join(m, seq![s], seq![t]);
    single_step(m, s);
    single_step(m.after(s), t);
}

// ---- Whole operations as runs of steps ----

/// The push of `k` behind `last`, where `wins`.
pub open spec fn push_run(last: u64, k: u64, wins: bool) -> Seq<Step> {
    if wins {
        seq![Step::Swap(k), Step::Link(last, k)]
    } else {
        Seq::empty()
    }
}

/// The two steps of a push are the push.
proof fn pushing_is_a_run(m: QueueModel, k: u64, wins: bool)
    requires
        m.inv(),
        wins ==> m.claimed.contains(k),
    ensures
        m.allows_run(push_run(m.order.last(), k, wins)),
        m.after_run(push_run(m.order.last(), k, wins)) == m.pushed_if(k, wins),
{
    if wins {
        two_steps(m, Step::Swap(k), Step::Link(m.order.last(), k));
        crate::model::swapped_inv(m, k);
        crate::model::pushed_inv(m, k);
    }
}

/// The run of a rotation.
pub open spec fn rotate_run(m: QueueModel) -> Seq<Step> {
    match m.rotation_link() {
        Some(prev) => seq![Step::Rotate, Step::Link(prev, crate::model::END_MARKER)],
        None => seq![Step::Rotate],
    }
}

/// The two steps of a rotation are the rotation.
proof fn rotating_is_a_run(m: QueueModel)
    requires
        m.inv(),
    ensures
        m.allows_run(rotate_run(m)),
        m.after_run(rotate_run(m)) == m.rotated(),
{
    crate::model::rotate_swapped_inv(m);
    crate::model::rotated_inv(m);
    if let Some(prev) = m.rotation_link() {
        two_steps(m, Step::Rotate, Step::Link(prev, crate::model::END_MARKER));
    } else {
        single_step(m, Step::Rotate);
    }
}

/// An attempt to take a node is a rotation, and then the taking of the node where
/// there is one that can be taken. Other threads may take their steps in between.
pub proof fn dequeuing_is_a_run(m: QueueModel)
    requires
        m.inv(),
    ensures
        if m.next_node() is Data {
            &&& m.allows_run(rotate_run(m) + seq![Step::Take])
            &&& m.after_run(rotate_run(m) + seq![Step::Take]) == m.rotated().taken()
        } else {
            &&& m.allows_run(rotate_run(m))
            &&& m.after_run(rotate_run(m)) == m.rotated()
        },
{
    rotating_is_a_run(m);
    if m.next_node() is Data {
        let r = m.rotated();
        crate::model::rotated_inv(m);
        assert(m.order.len() > 1);
        assert(m.order.contains(m.order[0]));
        assert(m.order.contains(m.order[1]));
        assert(!crate::model::is_marker(r.order[0]));
        single_step(r, Step::Take);
        runs_join(m, rotate_run(m), seq![Step::Take]);
    }
}

/// Setting the readiness of a node is storing it, and pushing the node where
/// that wins the right to. Other threads may take their steps in between.
pub proof fn setting_readiness_is_a_run(m: QueueModel, k: u64, ready: Ready)
    requires
        m.inv(),
        m.live(k),
    ensures
        ({
            let run = seq![Step::StoreReadiness(k, ready)] + push_run(
                m.order.last(),
                k,
                m.ready_wins(k, ready),
            );
            m.allows_run(run) && m.after_run(run) == m.readied(k, ready)
        }),
{
    let s = Step::StoreReadiness(k, ready);
    every_step_keeps_the_queue_in_order(m, s);
    single_step(m, s);
    pushing_is_a_run(m.after(s), k, m.ready_wins(k, ready));
    runs_join(m, seq![s], push_run(m.order.last(), k, m.ready_wins(k, ready)));
}

/// Processing a node is storing the state that polling makes of it, and then
/// releasing the queue's reference to a node that is flagged as dropped, or
/// pushing a node that is put back.
pub proof fn processing_is_a_run(m: QueueModel, k: u64)
    requires
        m.inv(),
        m.claimed.contains(k),
    ensures
        ({
            let run = seq![Step::StorePolled(k)] + if m.nodes[k].state.dropped {
                seq![Step::Release(k)]
            } else {
                push_run(m.order.last(), k, m.nodes[k].is_kept())
            };
            m.allows_run(run) && m.after_run(run) == m.processed(k)
        }),
{
    let s = Step::StorePolled(k);
    let stored = m.after(s);
    every_step_keeps_the_queue_in_order(m, s);
    crate::model::processed_inv(m, k);
    single_step(m, s);
    if m.nodes[k].state.dropped {
        assert(stored.live(k));
        single_step(stored, Step::Release(k));
        runs_join(m, seq![s], seq![Step::Release(k)]);
    } else {
        pushing_is_a_run(stored, k, m.nodes[k].is_kept());
        runs_join(m, seq![s], push_run(m.order.last(), k, m.nodes[k].is_kept()));
    }
}

/// Updating a registration whose lock is free is taking the lock, writing the
/// token, storing the state and giving the lock back, and then pushing the node
/// where that wins the right to.
pub proof fn updating_is_a_run(
    m: QueueModel,
    k: u64,
    token: Token,
    interest: Ready,
    opts: PollOpt,
)
    requires
        m.inv(),
        m.live(k),
        !m.nodes[k].update_lock,
    ensures
        ({
            let slot = m.nodes[k].slot_for(token);
            let run = seq![Step::LockUpdate(k), Step::WriteToken(k, slot, token)] + seq![
                Step::StoreUpdate(k, slot, interest, opts),
                Step::UnlockUpdate(k),
            ] + push_run(m.order.last(), k, m.update_wins(k));
            m.allows_run(run) && m.after_run(run) == m.updated(k, token, interest, opts)
        }),
{
    let slot = m.nodes[k].slot_for(token);
    let first = seq![Step::LockUpdate(k), Step::WriteToken(k, slot, token)];
    let second = seq![Step::StoreUpdate(k, slot, interest, opts), Step::UnlockUpdate(k)];
    let push = push_run(m.order.last(), k, m.update_wins(k));
    two_steps(m, first[0], first[1]);
    let written = m.after_run(first);
    two_steps(written, second[0], second[1]);
    let stored = written.after_run(second);
    runs_join(m, first, second);
    assert(m.after(first[0]).nodes[k].spares(slot, token));
    any_interleaving_keeps_the_queue_in_order(m, first + second);
    let node = m.nodes[k].updated(token, interest, opts);
    assert(stored.nodes[k] =~= node);
    assert(stored.nodes =~= m.nodes.insert(k, node));
    assert(stored =~= m.with_node(k, node).with_claim(k, m.update_wins(k)));
    pushing_is_a_run(stored, k, m.update_wins(k));
    runs_join(m, first + second, push);
}

/// Making another `SetReadiness` handle is taking a reference and then counting
/// the handle.
pub proof fn cloning_is_a_run(m: QueueModel, k: u64)
    requires
        m.inv(),
        m.live(k),
        m.nodes[k].num_set_readiness > 0,
    ensures
        m.allows_run(seq![Step::Retain(k), Step::Count(k)]),
        m.after_run(seq![Step::Retain(k), Step::Count(k)]) == m.with_node(
            k,
            m.nodes[k].after_clone(),
        ),
{
    two_steps(m, Step::Retain(k), Step::Count(k));
    let p = m.after(Step::Retain(k)).after(Step::Count(k));
    assert(p.nodes[k] =~= m.nodes[k].after_clone());
    assert(p.nodes =~= m.nodes.insert(k, m.nodes[k].after_clone()));
}

/// What is left to do for a handle of node `k` that is not counted any more: the
/// node is flagged where it was the last of its kind, and pushed where that wins
/// the right to, and its reference is released.
pub open spec fn give_up_run(m: QueueModel, k: u64, last: bool) -> Seq<Step> {
    (if last {
        seq![Step::Flag(k)] + push_run(m.order.last(), k, !m.nodes[k].state.queued)
    } else {
        Seq::empty()
    }) + seq![Step::Release(k)]
}

/// Flagging, pushing and releasing, one after the other.
proof fn giving_up_is_a_run(m: QueueModel, k: u64, last: bool)
    requires
        m.inv(),
        m.live(k),
        if last {
            m.nodes[k].flags_due > 0
        } else {
            m.nodes[k].loose > m.nodes[k].flags_due
        },
    ensures
        m.allows_run(give_up_run(m, k, last)),
        m.after_run(give_up_run(m, k, last)) == if last {
            m.flagged(k).pushed_if(k, !m.nodes[k].state.queued).released(k)
        } else {
            m.released(k)
        },
{
    let wins = !m.nodes[k].state.queued;
    let push = push_run(m.order.last(), k, wins);
    if last {
        single_step(m, Step::Flag(k));
        every_step_keeps_the_queue_in_order(m, Step::Flag(k));
        let flagged = m.flagged(k);
        pushing_is_a_run(flagged, k, wins);
        runs_join(m, seq![Step::Flag(k)], push);
        let pushed = flagged.pushed_if(k, wins);
        assert(pushed.live(k));
        single_step(pushed, Step::Release(k));
        runs_join(m, seq![Step::Flag(k)] + push, seq![Step::Release(k)]);
    } else {
        single_step(m, Step::Release(k));
        runs_join(m, Seq::empty(), seq![Step::Release(k)]);
    }
}

/// Dropping a `Registration` is to count it no more, and then to flag the node,
/// to push it and to release the reference, as far as that is due. Other threads
/// may take their steps in between.
pub proof fn dropping_a_registration_is_a_run(m: QueueModel, k: u64)
    requires
        m.inv(),
        m.live(k),
        m.nodes[k].num_registration > 0,
    ensures
        ({
            let run = seq![Step::UncountRegistration(k)] + give_up_run(
                m,
                k,
                m.nodes[k].num_registration == 1,
            );
            m.allows_run(run) && m.after_run(run) == m.registration_dropped(k)
        }),
{
    let s = Step::UncountRegistration(k);
    let last = m.nodes[k].num_registration == 1;
    let uncounted = m.after(s);
    every_step_keeps_the_queue_in_order(m, s);
    single_step(m, s);
    giving_up_is_a_run(uncounted, k, last);
    runs_join(m, seq![s], give_up_run(m, k, last));
    assert(give_up_run(uncounted, k, last) == give_up_run(m, k, last));
    let p = m.after_run(seq![s] + give_up_run(m, k, last));
    let node = m.nodes[k].after_registration_drop();
    assert((if last {
        uncounted.nodes[k].flagged().released()
    } else {
        uncounted.nodes[k].released()
    }) =~= node);
    assert(p.nodes =~= m.registration_dropped(k).nodes);
    assert(p.order =~= m.registration_dropped(k).order);
    assert(p =~= m.registration_dropped(k));
}

/// Dropping a `SetReadiness` is the same with the other kind of handle.
pub proof fn dropping_a_set_readiness_is_a_run(m: QueueModel, k: u64)
    requires
        m.inv(),
        m.live(k),
        m.nodes[k].num_set_readiness > 0,
    ensures
        ({
            let run = seq![Step::UncountSetReadiness(k)] + give_up_run(
                m,
                k,
                m.nodes[k].num_set_readiness == 1,
            );
            m.allows_run(run) && m.after_run(run) == m.set_readiness_dropped(k)
        }),
{
    let s = Step::UncountSetReadiness(k);
    let last = m.nodes[k].num_set_readiness == 1;
    let uncounted = m.after(s);
    every_step_keeps_the_queue_in_order(m, s);
    single_step(m, s);
    giving_up_is_a_run(uncounted, k, last);
    runs_join(m, seq![s], give_up_run(m, k, last));
    assert(give_up_run(uncounted, k, last) == give_up_run(m, k, last));
    let p = m.after_run(seq![s] + give_up_run(m, k, last));
    let node = m.nodes[k].after_set_readiness_drop();
    assert((if last {
        uncounted.nodes[k].flagged().released()
    } else {
        uncounted.nodes[k].released()
    }) =~= node);
    assert(p.nodes =~= m.set_readiness_dropped(k).nodes);
    assert(p.order =~= m.set_readiness_dropped(k).order);
    assert(p =~= m.set_readiness_dropped(k));
}

// ---- Sleep ----

/// No wakeup is lost: a queue that sleeps goes on sleeping until a node is
/// pushed, by a push that finds the sleep marker before it, or until it is
/// polled.
pub proof fn sleep_ends_by_a_push_that_wakes_or_by_a_poll(m: QueueModel, s: Step)
    requires
        m.inv(),
        m.allows(s),
        m.asleep(),
    ensures
        match s {
            Step::Swap(n) => m.after(s).link_due(crate::model::SLEEP_MARKER, n),
            Step::Rotate => true,
            _ => m.after(s).asleep(),
        },
{
    crate::laws::sleep_means_empty(m);
    assert(m.order[0] == crate::model::SLEEP_MARKER);
    if let Step::Swap(n) = s {
        crate::model::swapped_inv(m, n);
    }
    if let Step::Link(prev, n) = s {
        assert(m.order.len() > 1);
    }
}

} // verus!
