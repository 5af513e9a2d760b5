//! What comes of the steps of any number of threads, however they are
//! interleaved.
use vstd::prelude::*;

use crate::event::{PollOpt, Ready, Token};
use crate::model::QueueModel;
use crate::node::NodeModel;
use crate::state::StateModel;
use crate::steps::Step;

verus! {

/// How many of the steps `run` are of the kind `like`.
pub open spec fn how_many(run: Seq<Step>, like: spec_fn(Step) -> bool) -> nat
    decreases run.len(),
{
    if run.len() == 0 {
        0
    } else {
        (if like(run[0]) {
            1nat
        } else {
            0nat
        }) + how_many(run.drop_first(), like)
    }
}

/// One more step at the end.
proof fn how_many_push(run: Seq<Step>, s: Step, like: spec_fn(Step) -> bool)
    ensures
        how_many(run.push(s), like) == how_many(run, like) + (if like(s) {
            1nat
        } else {
            0nat
        }),
    decreases run.len(),
{
    if run.len() == 0 {
        assert(run.push(s).drop_first() =~= run);
    } else {
        assert(run.push(s).drop_first() =~= run.drop_first().push(s));
        how_many_push(run.drop_first(), s, like);
    }
}

/// Whether no step of `run` is of the kind `like`.
pub open spec fn without(run: Seq<Step>, like: spec_fn(Step) -> bool) -> bool {
    forall|i: int| 0 <= i < run.len() ==> !like(#[trigger] run[i])
}

/// What the rest of a run is without.
proof fn rest_without(run: Seq<Step>, like: spec_fn(Step) -> bool)
    requires
        run.len() > 0,
        without(run, like),
    ensures
        !like(run[0]),
        without(run.drop_first(), like),
{
    let rest = run.drop_first();
    assert forall|i: int| 0 <= i < rest.len() implies !like(#[trigger] rest[i]) by {
        assert(!like(run[i + 1]));
    }
}

impl Step {
    /// Whether the step accesses node `k` itself.
    pub open spec fn accesses(self, k: u64) -> bool {
        match self {
            Step::StoreReadiness(j, _) => j == k,
            Step::LockUpdate(j) => j == k,
            Step::WriteToken(j, _, _) => j == k,
            Step::StoreUpdate(j, _, _, _) => j == k,
            Step::UnlockUpdate(j) => j == k,
            Step::Retain(j) => j == k,
            Step::Count(j) => j == k,
            Step::UncountRegistration(j) => j == k,
            Step::UncountSetReadiness(j) => j == k,
            Step::Flag(j) => j == k,
            Step::Release(j) => j == k,
            Step::Swap(j) => j == k,
            Step::Link(j, _) => j == k,
            Step::StorePolled(j) => j == k,
            _ => false,
        }
    }
}

/// The steps that access node `k` itself.
pub open spec fn accessing(k: u64) -> spec_fn(Step) -> bool {
    |s: Step| s.accesses(k)
}

/// The steps that take a reference to node `k`.
pub open spec fn retaining(k: u64) -> spec_fn(Step) -> bool {
    |s: Step| s == Step::Retain(k)
}

/// The steps that release a reference to node `k`.
pub open spec fn releasing(k: u64) -> spec_fn(Step) -> bool {
    |s: Step| s == Step::Release(k)
}

/// The steps that set the readiness of node `k`.
pub open spec fn setting(k: u64) -> spec_fn(Step) -> bool {
    |s: Step| s matches Step::StoreReadiness(j, _) && j == k
}

/// The steps that put node `k` in the queue.
pub open spec fn pushing(k: u64) -> spec_fn(Step) -> bool {
    |s: Step| s == Step::Swap(k)
}

/// The steps that ask for the update lock of node `k`.
pub open spec fn locking(k: u64) -> spec_fn(Step) -> bool {
    |s: Step| s == Step::LockUpdate(k)
}

/// The steps that give back the update lock of node `k`.
pub open spec fn unlocking(k: u64) -> spec_fn(Step) -> bool {
    |s: Step| s == Step::UnlockUpdate(k)
}

/// The steps that write a token of node `k`.
pub open spec fn writing(k: u64) -> spec_fn(Step) -> bool {
    |s: Step| s matches Step::WriteToken(j, _, _) && j == k
}

/// The steps that store the state of an update of node `k`.
pub open spec fn updating(k: u64) -> spec_fn(Step) -> bool {
    |s: Step| s matches Step::StoreUpdate(j, _, _, _) && j == k
}

/// The steps that store what polling makes of node `k`.
pub open spec fn polling(k: u64) -> spec_fn(Step) -> bool {
    |s: Step| s == Step::StorePolled(k)
}

/// The steps that set the readiness of node `k` to a blank one.
pub open spec fn blanking(k: u64) -> spec_fn(Step) -> bool {
    |s: Step| s matches Step::StoreReadiness(j, ready) && j == k && !ready.some()
}

// ---- Names ----

/// A node that has been freed does not come back, and a name is not given out
/// twice.
pub proof fn a_freed_node_stays_freed(m: QueueModel, run: Seq<Step>, k: u64)
    requires
        m.inv(),
        m.allows_run(run),
        k < m.next_id,
        !m.live(k),
        !crate::model::is_marker(k),
    ensures
        !m.after_run(run).live(k),
        without(run, accessing(k)),
    decreases run.len(),
{
    if run.len() > 0 {
        let p = m.after(run[0]);
        crate::steps::every_step_keeps_the_queue_in_order(m, run[0]);
        if let Step::Link(prev, _) = run[0] {
            assert(m.order.contains(prev));
        }
        assert(!p.live(k));
        a_freed_node_stays_freed(p, run.drop_first(), k);
        let like = accessing(k);
        assert forall|i: int| 0 <= i < run.len() implies !like(#[trigger] run[i]) by {
            if i > 0 {
                assert(!like(run.drop_first()[i - 1]));
            }
        }
    }
}

/// A node that is live after a run was live after its first step.
proof fn live_after_the_first(m: QueueModel, run: Seq<Step>, k: u64)
    requires
        m.inv(),
        m.allows_run(run),
        run.len() > 0,
        m.live(k),
        m.after_run(run).live(k),
    ensures
        m.after(run[0]).live(k),
        m.after(run[0]).inv(),
{
    crate::steps::every_step_keeps_the_queue_in_order(m, run[0]);
    if !m.after(run[0]).live(k) {
        assert(k < m.after(run[0]).next_id);
        a_freed_node_stays_freed(m.after(run[0]), run.drop_first(), k);
    }
}

/// A step leaves every node that it does not access as it is.
pub proof fn a_step_leaves_other_nodes_alone(m: QueueModel, s: Step, k: u64)
    requires
        m.inv(),
        m.allows(s),
        m.live(k),
        !s.accesses(k),
    ensures
        m.after(s).live(k),
        m.after(s).nodes[k] == m.nodes[k],
{
}

// ---- References ----

/// Of `n` releases of a node with `n` references, of which no more are taken,
/// exactly the last frees the node, and every access to the node comes before
/// it.
pub proof fn the_last_release_frees(m: QueueModel, run: Seq<Step>, k: u64, i: int)
    requires
        m.inv(),
        m.allows_run(run),
        m.live(k),
        without(run, retaining(k)),
        0 <= i <= run.len(),
    ensures
        ({
            let done = how_many(run.take(i), releasing(k));
            let p = m.after_run(run.take(i));
            &&& done <= m.nodes[k].ref_count
            &&& p.live(k) <==> done < m.nodes[k].ref_count
            &&& p.live(k) ==> p.nodes[k].ref_count == m.nodes[k].ref_count - done
            &&& i < run.len() && run[i].accesses(k) ==> done < m.nodes[k].ref_count
        }),
    decreases i,
{
    if i == 0 {
        assert(run.take(0) =~= Seq::empty());
    } else {
        the_last_release_frees(m, run, k, i - 1);
        let s = run[i - 1];
        let before = m.after_run(run.take(i - 1));
        assert(run.take(i) =~= run.take(i - 1).push(s));
        assert(run.take(i) =~= run.take(i - 1) + seq![s]);
        how_many_push(run.take(i - 1), s, releasing(k));
        assert(run =~= run.take(i) + run.skip(i));
        crate::steps::runs_join(m, run.take(i), run.skip(i));
        crate::steps::runs_join(m, run.take(i - 1), seq![s]);
        crate::steps::single_step(before, s);
        crate::steps::any_interleaving_keeps_the_queue_in_order(m, run.take(i - 1));
        crate::steps::every_step_keeps_the_queue_in_order(before, s);
        assert(!retaining(k)(run[i - 1]));
        names_grow(m, run.take(i - 1));
        if !before.live(k) {
            a_freed_node_stays_freed(before, seq![s], k);
        }
    }
    if i < run.len() {
        let p = m.after_run(run.take(i));
        assert(run =~= run.take(i) + run.skip(i));
        crate::steps::runs_join(m, run.take(i), run.skip(i));
        crate::steps::any_interleaving_keeps_the_queue_in_order(m, run.take(i));
        names_grow(m, run.take(i));
        if !p.live(k) {
            a_freed_node_stays_freed(p, run.skip(i), k);
            assert(!accessing(k)(run.skip(i)[0]));
        }
    }
}

/// A handle that is counted keeps its node from being freed: no step but the one
/// that counts such a handle less leaves the node without one, and no such step
/// frees it.
pub proof fn a_counted_handle_keeps_its_node(m: QueueModel, s: Step, k: u64)
    requires
        m.inv(),
        m.allows(s),
        m.live(k),
    ensures
        m.nodes[k].num_set_readiness > 0 && s != Step::UncountSetReadiness(k) ==> m.after(s).live(k)
            && m.after(s).nodes[k].num_set_readiness >= m.nodes[k].num_set_readiness,
        m.nodes[k].num_registration > 0 && s != Step::UncountRegistration(k) ==> m.after(s).live(k)
            && m.after(s).nodes[k].num_registration == m.nodes[k].num_registration,
{
}

/// The steps that count a `SetReadiness` handle of node `k` less.
pub open spec fn uncounting_set_readiness(k: u64) -> spec_fn(Step) -> bool {
    |s: Step| s == Step::UncountSetReadiness(k)
}

/// The steps that count a `Registration` handle of node `k` less.
pub open spec fn uncounting_registration(k: u64) -> spec_fn(Step) -> bool {
    |s: Step| s == Step::UncountRegistration(k)
}

/// An outstanding `SetReadiness` handle keeps its node: whatever any number of
/// threads do, as long as fewer of these handles are dropped than there are, the
/// node is live and counts those that are left.
pub proof fn an_outstanding_set_readiness_keeps_its_node(m: QueueModel, run: Seq<Step>, k: u64)
    requires
        m.inv(),
        m.allows_run(run),
        m.live(k),
        how_many(run, uncounting_set_readiness(k)) < m.nodes[k].num_set_readiness,
    ensures
        m.after_run(run).live(k),
        m.after_run(run).nodes[k].num_set_readiness >= m.nodes[k].num_set_readiness - how_many(
            run,
            uncounting_set_readiness(k),
        ),
    decreases run.len(),
{
    if run.len() > 0 {
        crate::steps::every_step_keeps_the_queue_in_order(m, run[0]);
        a_counted_handle_keeps_its_node(m, run[0], k);
        an_outstanding_set_readiness_keeps_its_node(m.after(run[0]), run.drop_first(), k);
    }
}

/// The same of an outstanding `Registration` handle, of which no more are made.
pub proof fn an_outstanding_registration_keeps_its_node(m: QueueModel, run: Seq<Step>, k: u64)
    requires
        m.inv(),
        m.allows_run(run),
        m.live(k),
        how_many(run, uncounting_registration(k)) < m.nodes[k].num_registration,
    ensures
        m.after_run(run).live(k),
        m.after_run(run).nodes[k].num_registration == m.nodes[k].num_registration - how_many(
            run,
            uncounting_registration(k),
        ),
    decreases run.len(),
{
    if run.len() > 0 {
        crate::steps::every_step_keeps_the_queue_in_order(m, run[0]);
        a_counted_handle_keeps_its_node(m, run[0], k);
        an_outstanding_registration_keeps_its_node(m.after(run[0]), run.drop_first(), k);
    }
}

/// Names are not taken back.
proof fn names_grow(m: QueueModel, run: Seq<Step>)
    requires
        m.allows_run(run),
    ensures
        m.next_id <= m.after_run(run).next_id,
    decreases run.len(),
{
    if run.len() > 0 {
        names_grow(m.after(run[0]), run.drop_first());
    }
}

// ---- Setting readiness ----

/// The steps that do something to the state of node `k` other than to set a
/// readiness that is not blank, and those that take entries out of the queue.
pub open spec fn disturbing(k: u64) -> spec_fn(Step) -> bool {
    |s: Step|
        match s {
            Step::StoreReadiness(j, ready) => j == k && !ready.some(),
            Step::StoreUpdate(j, _, _, _) => j == k,
            Step::Flag(j) => j == k,
            Step::StorePolled(j) => j == k,
            Step::Take => true,
            _ => false,
        }
}

/// The readiness that node `k` is set to last, `ready` where it is not set.
pub open spec fn last_set(run: Seq<Step>, k: u64, ready: Ready) -> Ready
    decreases run.len(),
{
    if run.len() == 0 {
        ready
    } else {
        last_set(
            run.drop_first(),
            k,
            match run[0] {
                Step::StoreReadiness(j, set) => if j == k {
                    set
                } else {
                    ready
                },
                _ => ready,
            },
        )
    }
}

/// How many of the steps `run`, taken one after the other, set the readiness of
/// node `k` and win the right to push the node by that.
pub open spec fn wins(m: QueueModel, run: Seq<Step>, k: u64) -> nat
    decreases run.len(),
{
    if run.len() == 0 {
        0
    } else {
        (if run[0] matches Step::StoreReadiness(j, ready) && j == k && m.ready_wins(k, ready) {
            1nat
        } else {
            0nat
        }) + wins(m.after(run[0]), run.drop_first(), k)
    }
}

/// What is set last is what the node was ready for, or what some step sets.
proof fn last_set_is_set(run: Seq<Step>, k: u64, ready: Ready)
    ensures
        how_many(run, setting(k)) == 0 ==> last_set(run, k, ready) == ready,
        how_many(run, setting(k)) > 0 ==> exists|i: int|
            0 <= i < run.len() && #[trigger] run[i] == Step::StoreReadiness(
                k,
                last_set(run, k, ready),
            ),
    decreases run.len(),
{
    if run.len() > 0 {
        let rest = run.drop_first();
        let next = match run[0] {
            Step::StoreReadiness(j, set) => if j == k {
                set
            } else {
                ready
            },
            _ => ready,
        };
        last_set_is_set(rest, k, next);
        if how_many(rest, setting(k)) > 0 {
            let i = choose|i: int|
                0 <= i < rest.len() && #[trigger] rest[i] == Step::StoreReadiness(
                    k,
                    last_set(rest, k, next),
                );
            assert(run[i + 1] == rest[i]);
        }
    }
}

/// What one step does to the state of a node and to the right to push it, where
/// it does not disturb the setters of the node.
proof fn setter_step(m: QueueModel, s: Step, k: u64)
    requires
        m.inv(),
        m.allows(s),
        m.live(k),
        m.after(s).live(k),
        !disturbing(k)(s),
    ensures
        m.after(s).nodes[k].state == match s {
            Step::StoreReadiness(j, ready) => if j == k {
                m.nodes[k].state.made_ready(ready)
            } else {
                m.nodes[k].state
            },
            _ => m.nodes[k].state,
        },
        m.after(s).nodes[k].detached == m.nodes[k].detached,
        m.after(s).claimed.contains(k) <==> (m.claimed.contains(k) && s != Step::Swap(k)) || (s
            matches Step::StoreReadiness(j, ready) && j == k && m.ready_wins(k, ready)),
        s == Step::Swap(k) ==> m.claimed.contains(k),
        m.claimed.contains(k) ==> m.nodes[k].state.queued,
{
    if m.claimed.contains(k) {
        assert(m.held(k));
    }
}

/// Where the setters of a node, whatever it is like now, leave it.
proof fn setters_leave(m: QueueModel, run: Seq<Step>, k: u64)
    requires
        m.inv(),
        m.allows_run(run),
        m.live(k),
        m.after_run(run).live(k),
        without(run, disturbing(k)),
    ensures
        ({
            let p = m.after_run(run);
            let set = how_many(run, setting(k)) > 0;
            &&& p.nodes[k].state == StateModel {
                readiness: last_set(run, k, m.nodes[k].state.readiness),
                queued: m.nodes[k].state.queued || set,
                ..m.nodes[k].state
            }
            &&& p.nodes[k].detached == m.nodes[k].detached
            &&& wins(m, run, k) == if set && !m.nodes[k].state.queued {
                1nat
            } else {
                0nat
            }
            &&& how_many(run, pushing(k)) + (if p.claimed.contains(k) {
                1nat
            } else {
                0nat
            }) == wins(m, run, k) + (if m.claimed.contains(k) {
                1nat
            } else {
                0nat
            })
        }),
    decreases run.len(),
{
    if run.len() > 0 {
        live_after_the_first(m, run, k);
        rest_without(run, disturbing(k));
        setter_step(m, run[0], k);
        setters_leave(m.after(run[0]), run.drop_first(), k);
    }
}

/// Of any number of threads that set the readiness of a node that is not queued,
/// while nothing is taken out of the queue, the readiness of one is set as a
/// whole, exactly one wins the right to push the node, and the node is put in
/// the queue exactly once: by the end, or by the winner that is about to. What
/// else the state says stays as it is.
pub proof fn of_many_setters_one_pushes(m: QueueModel, run: Seq<Step>, k: u64)
    requires
        m.inv(),
        m.allows_run(run),
        m.live(k),
        !m.nodes[k].state.queued,
        m.after_run(run).live(k),
        without(run, disturbing(k)),
        how_many(run, setting(k)) > 0,
    ensures
        ({
            let p = m.after_run(run);
            let ready = p.nodes[k].state.readiness;
            &&& exists|i: int|
                0 <= i < run.len() && #[trigger] run[i] == Step::StoreReadiness(k, ready)
            &&& p.nodes[k].state == StateModel {
                readiness: ready,
                queued: true,
                ..m.nodes[k].state
            }
            &&& wins(m, run, k) == 1
            &&& how_many(run, pushing(k)) == if p.claimed.contains(k) {
                0nat
            } else {
                1nat
            }
            &&& p.order.contains(k) <==> !p.claimed.contains(k)
        }),
{
    setters_leave(m, run, k);
    last_set_is_set(run, k, m.nodes[k].state.readiness);
    crate::steps::any_interleaving_keeps_the_queue_in_order(m, run);
    assert(!m.held(k));
    let p = m.after_run(run);
    assert(p.held(k));
}

// ---- Updating ----

/// What a registration is updated to.
pub struct Update {
    pub token: Token,
    pub interest: Ready,
    pub opts: PollOpt,
}

impl NodeModel {
    /// What the registration was last updated to.
    pub open spec fn in_effect(self) -> Update {
        Update {
            token: self.token(),
            interest: self.state.interest,
            opts: self.state.opts,
        }
    }
}

/// How far the update has got that holds the update lock.
pub enum Progress {
    /// No update holds the lock.
    Free,
    /// The lock is held.
    Locked,
    /// The token is in this slot.
    Written(nat),
    /// The state is stored.
    Stored,
}

impl Progress {
    /// How far the update has got once the step `s` has been taken.
    pub open spec fn after(self, s: Step, k: u64) -> Progress {
        match s {
            Step::LockUpdate(j) => if j == k && self is Free {
                Progress::Locked
            } else {
                self
            },
            Step::WriteToken(j, slot, _) => if j == k {
                Progress::Written(slot)
            } else {
                self
            },
            Step::StoreUpdate(j, _, _, _) => if j == k {
                Progress::Stored
            } else {
                self
            },
            Step::UnlockUpdate(j) => if j == k {
                Progress::Free
            } else {
                self
            },
            _ => self,
        }
    }

    /// Whether the update that holds the lock, `call`, takes the step `s` of node
    /// `k` in its turn, having got this far: it writes its token, stores its state
    /// and gives the lock back. Other steps may come at any time, but for a poll
    /// that disarms the node.
    pub open spec fn admits(self, m: QueueModel, s: Step, k: u64, call: Update) -> bool {
        match s {
            Step::WriteToken(j, _, token) => j == k ==> self is Locked && token == call.token,
            Step::StoreUpdate(j, slot, interest, opts) => j == k ==> self == Progress::Written(slot)
                && interest == call.interest && opts == call.opts,
            Step::UnlockUpdate(j) => j == k ==> self is Stored,
            Step::StorePolled(j) => j == k ==> m.nodes[k].state.dropped
                || !m.nodes[k].state.disarms(),
            _ => true,
        }
    }

    /// What holds of node `k`, where `call`, if any, holds the lock and has got
    /// this far.
    spec fn shows(self, node: NodeModel, call: Update) -> bool {
        &&& node.update_lock <==> !(self is Free)
        &&& self matches Progress::Written(slot) ==> slot < 3 && node.tokens[slot as int]
            == call.token
        &&& self is Stored ==> node.in_effect() == call
    }
}

/// Whether the steps `run` update node `k` as [`update`] does: who finds the lock
/// free takes it, writes its token, stores its state and gives the lock back, who
/// finds it held does nothing more. `calls` are the updates that find it free, in
/// turn, and the first of them has got as far as `progress` says. The steps of
/// other threads may come anywhere in between, but for a poll that disarms the
/// node.
///
/// [`update`]: crate::queue::ReadinessQueue::update
pub open spec fn updates_in_turn(
    m: QueueModel,
    run: Seq<Step>,
    k: u64,
    progress: Progress,
    calls: Seq<Update>,
) -> bool
    decreases run.len(),
{
    if run.len() == 0 {
        true
    } else {
        &&& run[0] == Step::LockUpdate(k) ==> calls.len() > 0
        &&& progress.admits(m, run[0], k, calls[0])
        &&& updates_in_turn(
            m.after(run[0]),
            run.drop_first(),
            k,
            progress.after(run[0], k),
            if run[0] == Step::UnlockUpdate(k) {
                calls.drop_first()
            } else {
                calls
            },
        )
    }
}

/// How many of the steps `run`, taken one after the other, ask for the update
/// lock of node `k` and find it free.
pub open spec fn locks_won(m: QueueModel, run: Seq<Step>, k: u64) -> nat
    decreases run.len(),
{
    if run.len() == 0 {
        0
    } else {
        (if run[0] == Step::LockUpdate(k) && !m.nodes[k].update_lock {
            1nat
        } else {
            0nat
        }) + locks_won(m.after(run[0]), run.drop_first(), k)
    }
}

/// What one step makes of a node, as far as updates go.
spec fn node_after(node: NodeModel, s: Step, k: u64) -> NodeModel {
    match s {
        Step::StoreReadiness(j, ready) if j == k => NodeModel {
            state: node.state.made_ready(ready),
            ..node
        },
        Step::LockUpdate(j) if j == k => NodeModel { update_lock: true, ..node },
        Step::WriteToken(j, slot, token) if j == k => node.token_written(slot, token),
        Step::StoreUpdate(j, slot, interest, opts) if j == k => node.update_stored(
            slot,
            interest,
            opts,
        ),
        Step::UnlockUpdate(j) if j == k => NodeModel { update_lock: false, ..node },
        Step::Flag(j) if j == k => NodeModel { state: node.state.made_dropped(), ..node },
        Step::StorePolled(j) if j == k && !node.state.dropped => NodeModel {
            state: node.state.polled(),
            ..node
        },
        _ => node,
    }
}

/// What one step does to the state, the tokens and the update lock of a node.
proof fn node_step(m: QueueModel, s: Step, k: u64)
    requires
        m.inv(),
        m.allows(s),
        m.live(k),
        m.after(s).live(k),
    ensures
        m.after(s).nodes[k].state == node_after(m.nodes[k], s, k).state,
        m.after(s).nodes[k].tokens == node_after(m.nodes[k], s, k).tokens,
        m.after(s).nodes[k].update_lock == node_after(m.nodes[k], s, k).update_lock,
        s matches Step::WriteToken(j, slot, token) ==> j == k ==> m.nodes[k].spares(slot, token),
        m.nodes[k].tokens.len() == 3,
        m.nodes[k].state.registration_token < 3,
{
}

/// What one step does to a node that is being updated.
proof fn update_step(m: QueueModel, s: Step, k: u64, progress: Progress, call: Update)
    requires
        m.inv(),
        m.allows(s),
        m.live(k),
        m.after(s).live(k),
        progress.admits(m, s, k, call),
        progress.shows(m.nodes[k], call),
    ensures
        progress.after(s, k).shows(m.after(s).nodes[k], call),
        !updating(k)(s) ==> m.after(s).nodes[k].in_effect() == m.nodes[k].in_effect(),
        updating(k)(s) ==> !(progress is Stored) && m.after(s).nodes[k].in_effect() == call,
{
    node_step(m, s, k);
    update_node_step(m, s, k, progress, call, m.nodes[k], m.after(s).nodes[k]);
}

/// The same, of the node alone.
proof fn update_node_step(
    m: QueueModel,
    s: Step,
    k: u64,
    progress: Progress,
    call: Update,
    node: NodeModel,
    next: NodeModel,
)
    requires
        node == m.nodes[k],
        next.state == node_after(node, s, k).state,
        next.tokens == node_after(node, s, k).tokens,
        next.update_lock == node_after(node, s, k).update_lock,
        s matches Step::WriteToken(j, slot, token) ==> j == k ==> node.spares(slot, token),
        node.tokens.len() == 3,
        node.state.registration_token < 3,
        progress.admits(m, s, k, call),
        progress.shows(node, call),
    ensures
        progress.after(s, k).shows(next, call),
        !updating(k)(s) ==> next.in_effect() == node.in_effect(),
        updating(k)(s) ==> !(progress is Stored) && next.in_effect() == call,
{
}

/// Where the updates of a node leave it, the first of `calls` having got as far
/// as `progress` says.
proof fn updates_leave(
    m: QueueModel,
    run: Seq<Step>,
    k: u64,
    progress: Progress,
    calls: Seq<Update>,
)
    requires
        m.inv(),
        m.allows_run(run),
        m.live(k),
        m.after_run(run).live(k),
        updates_in_turn(m, run, k, progress, calls),
        progress is Free || calls.len() > 0,
        progress.shows(m.nodes[k], calls[0]),
    ensures
        ({
            let p = m.after_run(run);
            let stored = how_many(run, updating(k)) + (if progress is Stored {
                1nat
            } else {
                0nat
            });
            let won = locks_won(m, run, k) + (if progress is Free {
                0nat
            } else {
                1nat
            });
            &&& stored <= won <= calls.len()
            &&& won <= stored + 1
            &&& !p.nodes[k].update_lock ==> stored == won
            &&& p.nodes[k].in_effect() == if stored == 0 {
                m.nodes[k].in_effect()
            } else {
                calls[stored - 1]
            }
        }),
    decreases run.len(),
{
    if run.len() > 0 {
        let s = run[0];
        live_after_the_first(m, run, k);
        update_step(m, s, k, progress, calls[0]);
        let left = if s == Step::UnlockUpdate(k) {
            calls.drop_first()
        } else {
            calls
        };
        updates_leave(m.after(s), run.drop_first(), k, progress.after(s, k), left);
    }
}

/// Of any number of concurrent updates of a node, those that find the lock free
/// take effect as a whole, one after the other, and the others are discarded: at
/// every moment the registration has the token, the interest and the options of
/// the update that was stored last, all three, and never a mix. Once no update
/// is under way, that is the last one that found the lock free. Where only one
/// found it free, its values are in effect.
pub proof fn updates_take_effect_as_a_whole(
    m: QueueModel,
    run: Seq<Step>,
    k: u64,
    calls: Seq<Update>,
)
    requires
        m.inv(),
        m.allows_run(run),
        m.live(k),
        !m.nodes[k].update_lock,
        m.after_run(run).live(k),
        updates_in_turn(m, run, k, Progress::Free, calls),
    ensures
        ({
            let p = m.after_run(run);
            let stored = how_many(run, updating(k));
            let won = locks_won(m, run, k);
            &&& stored <= won <= calls.len()
            &&& won <= stored + 1
            &&& p.nodes[k].in_effect() == if stored == 0 {
                m.nodes[k].in_effect()
            } else {
                calls[stored - 1]
            }
            &&& !p.nodes[k].update_lock ==> stored == won
            &&& !p.nodes[k].update_lock && won == 1 ==> p.nodes[k].in_effect() == calls[0]
        }),
{
    updates_leave(m, run, k, Progress::Free, calls);
}

/// An update lock that is held stays so until it is given back: whoever asks for
/// it meanwhile is refused, and changes nothing by asking.
pub proof fn a_held_lock_refuses(m: QueueModel, run: Seq<Step>, k: u64)
    requires
        m.inv(),
        m.allows_run(run),
        m.live(k),
        m.nodes[k].update_lock,
        m.after_run(run).live(k),
        without(run, unlocking(k)),
    ensures
        m.after(Step::LockUpdate(k)) == m,
        m.after_run(run).nodes[k].update_lock,
        locks_won(m, run, k) == 0,
    decreases run.len(),
{
    assert(m.nodes.insert(k, NodeModel { update_lock: true, ..m.nodes[k] }) =~= m.nodes);
    if run.len() > 0 {
        live_after_the_first(m, run, k);
        rest_without(run, unlocking(k));
        a_held_lock_refuses(m.after(run[0]), run.drop_first(), k);
    }
}

/// The locks won in a run that is one run and then another.
proof fn locks_won_join(m: QueueModel, first: Seq<Step>, second: Seq<Step>, k: u64)
    ensures
        locks_won(m, first + second, k) == locks_won(m, first, k) + locks_won(
            m.after_run(first),
            second,
            k,
        ),
    decreases first.len(),
{
    if first.len() == 0 {
        assert(first + second =~= second);
    } else {
        assert((first + second).drop_first() =~= first.drop_first() + second);
        locks_won_join(m.after(first[0]), first.drop_first(), second, k);
    }
}

/// Of two concurrent updates of a node, `one` and `other`, exactly one takes
/// effect, as a whole, and the other is discarded: between the step by which the
/// one takes the lock and the step by which it gives the lock back, the other
/// asks for the lock, and is refused.
pub proof fn of_two_updates_one_takes_effect(
    m: QueueModel,
    during: Seq<Step>,
    k: u64,
    one: Update,
    other: Update,
    calls: Seq<Update>,
)
    requires
        m.inv(),
        m.live(k),
        !m.nodes[k].update_lock,
        without(during, unlocking(k)),
        how_many(during, locking(k)) == 1,
        m.allows_run(seq![Step::LockUpdate(k)] + during + seq![Step::UnlockUpdate(k)]),
        updates_in_turn(
            m,
            seq![Step::LockUpdate(k)] + during + seq![Step::UnlockUpdate(k)],
            k,
            Progress::Free,
            calls,
        ),
        calls[0] == one || calls[0] == other,
    ensures
        ({
            let run = seq![Step::LockUpdate(k)] + during + seq![Step::UnlockUpdate(k)];
            let p = m.after_run(run);
            &&& how_many(run, locking(k)) == 2
            &&& locks_won(m, run, k) == 1
            &&& how_many(run, updating(k)) == 1
            &&& p.live(k)
            &&& p.nodes[k].in_effect() == calls[0]
            &&& p.nodes[k].in_effect() == one || p.nodes[k].in_effect() == other
        }),
{
    let lock = seq![Step::LockUpdate(k)];
    let unlock = seq![Step::UnlockUpdate(k)];
    let run = lock + during + unlock;
    let locked = m.after(lock[0]);
    let done = locked.after_run(during);
    crate::steps::single_step(m, lock[0]);
    crate::steps::every_step_keeps_the_queue_in_order(m, lock[0]);
    crate::steps::runs_join(m, lock, during);
    crate::steps::runs_join(m, lock + during, unlock);
    crate::steps::single_step(done, unlock[0]);
    a_held_lock_refuses(locked, during, k);
    locks_won_join(m, lock + during, unlock, k);
    locks_won_join(m, lock, during, k);
    reveal_with_fuel(locks_won, 3);
    assert(lock.drop_first() =~= Seq::empty());
    assert(unlock.drop_first() =~= Seq::empty());
    updates_take_effect_as_a_whole(m, run, k, calls);
    assert(run =~= (lock + during).push(unlock[0]));
    how_many_push(lock + during, unlock[0], locking(k));
    assert((lock + during).drop_first() =~= during);
}

/// A slot that is free for the token of an update stays so, whatever other
/// threads do meanwhile, polls included, until the token is written or the state
/// of the update stored: the polling side never reads a slot that is being
/// written.
pub proof fn a_picked_slot_stays_free(
    m: QueueModel,
    run: Seq<Step>,
    k: u64,
    slot: nat,
    token: Token,
)
    requires
        m.inv(),
        m.allows_run(run),
        m.live(k),
        m.nodes[k].spares(slot, token),
        m.after_run(run).live(k),
        without(run, updating(k)),
        without(run, writing(k)),
    ensures
        m.after_run(run).nodes[k].spares(slot, token),
    decreases run.len(),
{
    if run.len() > 0 {
        live_after_the_first(m, run, k);
        rest_without(run, updating(k));
        rest_without(run, writing(k));
        a_picked_slot_stays_free(m.after(run[0]), run.drop_first(), k, slot, token);
    }
}

/// Writing a token leaves the slot that the polling side reads as it is, and the
/// registration's current token too.
pub proof fn writing_a_token_spares_the_slots_in_use(m: QueueModel, k: u64, slot: nat, token: Token)
    requires
        m.inv(),
        m.allows(Step::WriteToken(k, slot, token)),
    ensures
        ({
            let node = m.nodes[k];
            let written = m.after(Step::WriteToken(k, slot, token)).nodes[k];
            &&& written.tokens[slot as int] == token
            &&& written.tokens[node.state.poll_token as int]
                == node.tokens[node.state.poll_token as int]
            &&& written.token() == node.token()
            &&& written.state == node.state
        }),
{
}

/// A node stays queued until a poll stores what it makes of it.
proof fn queued_stays(m: QueueModel, run: Seq<Step>, k: u64)
    requires
        m.inv(),
        m.allows_run(run),
        m.live(k),
        m.nodes[k].state.queued,
        m.after_run(run).live(k),
        without(run, polling(k)),
    ensures
        m.after_run(run).nodes[k].state.queued,
    decreases run.len(),
{
    if run.len() > 0 {
        live_after_the_first(m, run, k);
        rest_without(run, polling(k));
        queued_stays(m.after(run[0]), run.drop_first(), k);
    }
}

/// A node stays ready until its readiness is set to a blank one.
proof fn readiness_stays(m: QueueModel, run: Seq<Step>, k: u64)
    requires
        m.inv(),
        m.allows_run(run),
        m.live(k),
        m.nodes[k].state.readiness.some(),
        m.after_run(run).live(k),
        without(run, blanking(k)),
    ensures
        m.after_run(run).nodes[k].state.readiness.some(),
    decreases run.len(),
{
    if run.len() > 0 {
        live_after_the_first(m, run, k);
        rest_without(run, blanking(k));
        readiness_stays(m.after(run[0]), run.drop_first(), k);
    }
}

/// Whichever of the two comes first, an update and a readiness that is not blank
/// leave the node queued, whatever other threads do in between and afterwards,
/// polls in between included, as long as nobody makes the readiness blank again
/// in between and no poll comes to the node afterwards. Then the node is in the
/// queue or some thread is about to push it, unless the queue has let go of it.
pub proof fn an_update_and_a_setter_leave_the_node_queued(
    m: QueueModel,
    k: u64,
    first: Step,
    between: Seq<Step>,
    second: Step,
    afterwards: Seq<Step>,
)
    requires
        m.inv(),
        m.live(k),
        m.allows_run(seq![first] + between + seq![second] + afterwards),
        m.after_run(seq![first] + between + seq![second] + afterwards).live(k),
        setting(k)(first) && updating(k)(second) || updating(k)(first) && setting(k)(second),
        !blanking(k)(first) && !blanking(k)(second),
        without(between, blanking(k)),
        without(afterwards, polling(k)),
    ensures
        ({
            let p = m.after_run(seq![first] + between + seq![second] + afterwards);
            p.nodes[k].state.queued && (p.held(k) || p.nodes[k].detached)
        }),
{
    let start = seq![first] + between;
    let most = start + seq![second];
    let a = m.after(first);
    let b = m.after_run(start);
    let c = m.after_run(most);
    crate::steps::single_step(m, first);
    crate::steps::runs_join(m, seq![first], between);
    crate::steps::runs_join(m, start, seq![second]);
    crate::steps::single_step(b, second);
    crate::steps::runs_join(m, most, afterwards);
    crate::steps::any_interleaving_keeps_the_queue_in_order(m, seq![first]);
    crate::steps::any_interleaving_keeps_the_queue_in_order(m, start);
    crate::steps::any_interleaving_keeps_the_queue_in_order(m, most);
    crate::steps::any_interleaving_keeps_the_queue_in_order(m, most + afterwards);
    names_grow(m, most);
    if !c.live(k) {
        a_freed_node_stays_freed(c, afterwards, k);
    }
    if setting(k)(first) {
        readiness_stays(a, between, k);
    }
    queued_stays(c, afterwards, k);
}

/// The readiness of a node is the one that was set last, whatever else happens:
/// polls, updates and drops leave it as it is.
pub proof fn the_readiness_is_the_one_set_last(m: QueueModel, run: Seq<Step>, k: u64)
    requires
        m.inv(),
        m.allows_run(run),
        m.live(k),
        m.after_run(run).live(k),
    ensures
        m.after_run(run).nodes[k].state.readiness == last_set(
            run,
            k,
            m.nodes[k].state.readiness,
        ),
        how_many(run, setting(k)) == 0 ==> m.after_run(run).nodes[k].state.readiness
            == m.nodes[k].state.readiness,
    decreases run.len(),
{
    last_set_is_set(run, k, m.nodes[k].state.readiness);
    if run.len() > 0 {
        live_after_the_first(m, run, k);
        node_step(m, run[0], k);
        the_readiness_is_the_one_set_last(m.after(run[0]), run.drop_first(), k);
    }
}

/// What a registration asks for stays as it is until an update of it is stored,
/// polls included, unless its options include oneshot.
pub proof fn without_oneshot_a_registration_stays_as_asked_for(
    m: QueueModel,
    run: Seq<Step>,
    k: u64,
)
    requires
        m.inv(),
        m.allows_run(run),
        m.live(k),
        m.after_run(run).live(k),
        without(run, updating(k)),
        !m.nodes[k].state.opts.oneshot,
    ensures
        ({
            let node = m.nodes[k];
            let p = m.after_run(run).nodes[k];
            &&& p.state.interest == node.state.interest
            &&& p.state.opts == node.state.opts
            &&& p.tokens[p.state.registration_token as int]
                == node.tokens[node.state.registration_token as int]
        }),
    decreases run.len(),
{
    if run.len() > 0 {
        live_after_the_first(m, run, k);
        rest_without(run, updating(k));
        node_step(m, run[0], k);
        without_oneshot_a_registration_stays_as_asked_for(m.after(run[0]), run.drop_first(), k);
    }
}

// ---- Waking up ----

/// How many of the steps `run`, taken one after the other, put a node in the
/// queue while it sleeps. The threads that take them have to wake `Poll` up.
pub open spec fn wakeups(m: QueueModel, run: Seq<Step>) -> nat
    decreases run.len(),
{
    if run.len() == 0 {
        0
    } else {
        (if run[0] is Swap && m.asleep() {
            1nat
        } else {
            0nat
        }) + wakeups(m.after(run[0]), run.drop_first())
    }
}

/// The steps that put a node in the queue.
pub open spec fn pushing_any() -> spec_fn(Step) -> bool {
    |s: Step| s is Swap
}

/// The steps that take a marker out of the front of the queue.
pub open spec fn rotating() -> spec_fn(Step) -> bool {
    |s: Step| s is Rotate
}

/// Behind the sleep marker nobody is told to wake `Poll` up.
proof fn no_more_wakeups(m: QueueModel, run: Seq<Step>)
    requires
        m.inv(),
        m.allows_run(run),
        m.order.len() > 1,
        m.order[0] == crate::model::SLEEP_MARKER,
        without(run, rotating()),
    ensures
        wakeups(m, run) == 0,
    decreases run.len(),
{
    if run.len() > 0 {
        crate::steps::every_step_keeps_the_queue_in_order(m, run[0]);
        rest_without(run, rotating());
        no_more_wakeups(m.after(run[0]), run.drop_first());
    }
}

/// However many threads push nodes onto a queue that sleeps, exactly one of them
/// has to wake `Poll` up, the first, until `Poll` takes what is in the queue.
pub proof fn of_many_pushes_one_wakes(m: QueueModel, run: Seq<Step>)
    requires
        m.inv(),
        m.allows_run(run),
        m.asleep(),
        without(run, rotating()),
    ensures
        wakeups(m, run) == if how_many(run, pushing_any()) > 0 {
            1nat
        } else {
            0nat
        },
    decreases run.len(),
{
    if run.len() > 0 {
        let p = m.after(run[0]);
        crate::laws::sleep_means_empty(m);
        crate::steps::every_step_keeps_the_queue_in_order(m, run[0]);
        crate::steps::sleep_ends_by_a_push_that_wakes_or_by_a_poll(m, run[0]);
        rest_without(run, rotating());
        if run[0] is Swap {
            assert(p.order[0] == m.order[0]);
            no_more_wakeups(p, run.drop_first());
        } else {
            of_many_pushes_one_wakes(p, run.drop_first());
        }
    }
}

} // verus!
