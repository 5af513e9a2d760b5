//! What each operation comes to, told by the flags, tokens, counts and entries
//! that it is given and that it leaves.
use vstd::prelude::*;

use crate::event::{Event, PollOpt, Ready, Token};
use crate::model::QueueModel;
use crate::node::NodeModel;
use crate::queue::Dequeue;
use crate::state::{ReadinessState, StateModel};
use crate::steps::Step;

verus! {

/// Whether some kind is in both sets.
pub open spec fn meet(a: Ready, b: Ready) -> bool {
    ||| a.readable && b.readable
    ||| a.writable && b.writable
    ||| a.error && b.error
    ||| a.hup && b.hup
}

/// Whether `kind` holds a kind exactly if both `a` and `b` do.
pub open spec fn is_meet(kind: Ready, a: Ready, b: Ready) -> bool {
    &&& kind.readable <==> a.readable && b.readable
    &&& kind.writable <==> a.writable && b.writable
    &&& kind.error <==> a.error && b.error
    &&& kind.hup <==> a.hup && b.hup
}

/// Whether no kind is in the set.
pub open spec fn blank(r: Ready) -> bool {
    !r.readable && !r.writable && !r.error && !r.hup
}

/// Whether no option is in the set.
pub open spec fn no_option(o: PollOpt) -> bool {
    !o.edge && !o.level && !o.oneshot && !o.urgent
}

// ---- Sets ----

/// What two readiness sets have in common and hold together, kind by kind.
pub proof fn readiness_sets_go_by_kind(a: Ready, b: Ready)
    ensures
        a.some() <==> a.readable || a.writable || a.error || a.hup,
        blank(Ready::nothing()),
        is_meet(a.both(b), a, b),
        a.either(b).readable <==> a.readable || b.readable,
        a.either(b).writable <==> a.writable || b.writable,
        a.either(b).error <==> a.error || b.error,
        a.either(b).hup <==> a.hup || b.hup,
{
}

/// What two sets of options hold together, option by option.
pub proof fn option_sets_go_by_option(a: PollOpt, b: PollOpt)
    ensures
        no_option(PollOpt::nothing()),
        a.either(b).edge <==> a.edge || b.edge,
        a.either(b).level <==> a.level || b.level,
        a.either(b).oneshot <==> a.oneshot || b.oneshot,
        a.either(b).urgent <==> a.urgent || b.urgent,
{
}

/// The number that stands for a set has one binary digit for each member.
pub proof fn set_numbers_have_a_digit_for_each_member(r: Ready, o: PollOpt, v: nat)
    ensures
        r.readable <==> r.bits() % 2 == 1,
        r.writable <==> r.bits() / 2 % 2 == 1,
        r.error <==> r.bits() / 4 % 2 == 1,
        r.hup <==> r.bits() / 8 % 2 == 1,
        r.bits() < 16,
        o.edge <==> o.bits() % 2 == 1,
        o.level <==> o.bits() / 2 % 2 == 1,
        o.oneshot <==> o.bits() / 4 % 2 == 1,
        o.urgent <==> o.bits() / 8 % 2 == 1,
        o.bits() < 16,
        Ready::of_bits(v).readable <==> v % 2 == 1,
        Ready::of_bits(v).writable <==> v / 2 % 2 == 1,
        Ready::of_bits(v).error <==> v / 4 % 2 == 1,
        Ready::of_bits(v).hup <==> v / 8 % 2 == 1,
        PollOpt::of_bits(v).edge <==> v % 2 == 1,
        PollOpt::of_bits(v).level <==> v / 2 % 2 == 1,
        PollOpt::of_bits(v).oneshot <==> v / 4 % 2 == 1,
        PollOpt::of_bits(v).urgent <==> v / 8 % 2 == 1,
{
    reveal(crate::event::digit);
}

/// The digits of a field, found in the word.
proof fn digits_of_fields(x: usize)
    by (bit_vector)
    ensures
        x % 16 % 2 == x % 2,
        x % 16 / 2 % 2 == x / 2 % 2,
        x % 16 / 4 % 2 == x / 4 % 2,
        x % 16 / 8 % 2 == x / 8 % 2,
        x / 16 % 16 % 2 == x / 16 % 2,
        x / 16 % 16 / 2 % 2 == x / 32 % 2,
        x / 16 % 16 / 4 % 2 == x / 64 % 2,
        x / 16 % 16 / 8 % 2 == x / 128 % 2,
        x / 256 % 16 % 2 == x / 256 % 2,
        x / 256 % 16 / 2 % 2 == x / 512 % 2,
        x / 256 % 16 / 4 % 2 == x / 1024 % 2,
        x / 256 % 16 / 8 % 2 == x / 2048 % 2,
{
}

/// A state's word has four digits for the readiness, four for the interest, four
/// for the options, two for each of the two token slots and one for each of the
/// two flags, from the lowest on.
pub proof fn a_word_has_its_fields_at_their_places(s: ReadinessState)
    ensures
        s@.readiness.readable <==> s.0 % 2 == 1,
        s@.readiness.writable <==> s.0 / 2 % 2 == 1,
        s@.readiness.error <==> s.0 / 4 % 2 == 1,
        s@.readiness.hup <==> s.0 / 8 % 2 == 1,
        s@.interest.readable <==> s.0 / 16 % 2 == 1,
        s@.interest.writable <==> s.0 / 32 % 2 == 1,
        s@.interest.error <==> s.0 / 64 % 2 == 1,
        s@.interest.hup <==> s.0 / 128 % 2 == 1,
        s@.opts.edge <==> s.0 / 256 % 2 == 1,
        s@.opts.level <==> s.0 / 512 % 2 == 1,
        s@.opts.oneshot <==> s.0 / 1024 % 2 == 1,
        s@.opts.urgent <==> s.0 / 2048 % 2 == 1,
        s@.poll_token == s.0 / 4096 % 4,
        s@.registration_token == s.0 / 16384 % 4,
        s@.queued <==> s.0 / 65536 % 2 == 1,
        s@.dropped <==> s.0 / 131072 % 2 == 1,
{
    reveal(crate::state::fields_of);
    let w = s.0 as nat;
    digits_of_fields(s.0);
    set_numbers_have_a_digit_for_each_member(s@.readiness, s@.opts, w % 16);
    set_numbers_have_a_digit_for_each_member(s@.interest, s@.opts, w / 16 % 16);
    set_numbers_have_a_digit_for_each_member(s@.interest, s@.opts, w / 256 % 16);
}

// ---- The state of a node ----

/// Setting a readiness stores that readiness and nothing else, except that a
/// readiness that is not blank marks the node as queued.
pub proof fn setting_stores_the_readiness_alone(st: StateModel, ready: Ready)
    ensures
        ({
            let next = st.made_ready(ready);
            &&& next.readiness == ready
            &&& next.interest == st.interest
            &&& next.opts == st.opts
            &&& next.poll_token == st.poll_token
            &&& next.registration_token == st.registration_token
            &&& next.dropped == st.dropped
            &&& next.spare == st.spare
            &&& next.queued <==> st.queued || !blank(ready)
        }),
{
}

/// Flagging a node as dropped marks it as dropped and queued, and changes nothing
/// else.
pub proof fn flagging_marks_the_node_alone(st: StateModel)
    ensures
        ({
            let next = st.made_dropped();
            &&& next.dropped && next.queued
            &&& next.readiness == st.readiness
            &&& next.interest == st.interest
            &&& next.opts == st.opts
            &&& next.poll_token == st.poll_token
            &&& next.registration_token == st.registration_token
            &&& next.spare == st.spare
        }),
{
}

/// An update stores the interest, the options and the slot that were asked for,
/// leaves the readiness alone, and marks a node that is ready as queued.
pub proof fn updating_stores_what_was_asked_for(
    st: StateModel,
    slot: nat,
    interest: Ready,
    opts: PollOpt,
)
    ensures
        ({
            let next = st.updated(slot, interest, opts);
            &&& next.interest == interest
            &&& next.opts == opts
            &&& next.registration_token == slot
            &&& next.readiness == st.readiness
            &&& next.poll_token == st.poll_token
            &&& next.dropped == st.dropped
            &&& next.spare == st.spare
            &&& next.queued <==> st.queued || !blank(st.readiness)
        }),
{
}

/// What a poll makes of the state of a node that is not dropped. The readiness is
/// never touched. The interest and the options are cleared exactly if the options
/// include oneshot and some kind is both ready and of interest. The node stays
/// queued exactly if it is not edge-triggered and there is such a kind.
pub proof fn polling_disarms_only_a_oneshot_that_is_told(st: StateModel)
    ensures
        ({
            let next = st.polled();
            let told = meet(st.readiness, st.interest);
            &&& next.readiness == st.readiness
            &&& !(st.opts.oneshot && told) ==> next.interest == st.interest && next.opts == st.opts
            &&& st.opts.oneshot && told ==> blank(next.interest) && no_option(next.opts)
            &&& next.queued <==> !st.opts.edge && told
            &&& next.poll_token == st.registration_token
            &&& next.registration_token == st.registration_token
            &&& next.dropped == st.dropped
            &&& next.spare == st.spare
        }),
{
}

/// What a poll that comes to a node tells: something, exactly if the node is not
/// dropped and some kind is both ready and of interest, and then every such kind
/// and no other, under the token that is in the registration's slot. Such a node
/// is put back exactly if it is not edge-triggered.
pub proof fn a_node_tells_what_is_ready_and_of_interest(node: NodeModel)
    ensures
        node.tells() <==> !node.state.dropped && meet(node.state.readiness, node.state.interest),
        is_meet(node.event().kind, node.state.readiness, node.state.interest),
        is_meet(node.state.pending(), node.state.readiness, node.state.interest),
        node.event().token == node.tokens[node.state.registration_token as int],
        node.is_kept() <==> !node.state.dropped && !node.state.opts.edge && meet(
            node.state.readiness,
            node.state.interest,
        ),
        node.is_freed() <==> node.state.dropped && node.ref_count == 1,
{
}

/// The slot for the token of an update is one of three. It is the registration's
/// own exactly if that holds the token already, and never one that the polling
/// side reads for another token.
pub proof fn the_slot_for_a_token_is_free_or_holds_it(node: NodeModel, token: Token)
    requires
        node.tokens.len() == 3,
        node.state.poll_token < 3,
        node.state.registration_token < 3,
    ensures
        node.slot_for(token) < 3,
        node.slot_for(token) == node.state.registration_token
            <==> node.tokens[node.state.registration_token as int] == token,
        node.tokens[node.state.registration_token as int] != token ==> node.slot_for(token)
            != node.state.poll_token,
{
}

// ---- Counts ----

/// What each change of a node's counts does, count by count. None of them but the
/// flag touches the state, and none touches the tokens or the update lock.
pub proof fn counts_change_by_one(node: NodeModel)
    requires
        node.num_registration > 0,
        node.num_set_readiness > 0,
        node.ref_count > 0,
    ensures
        ({
            let n = node.registration_uncounted();
            &&& n.num_registration + 1 == node.num_registration
            &&& n.num_set_readiness == node.num_set_readiness
            &&& n.ref_count == node.ref_count
            &&& n.state == node.state
            &&& n.tokens == node.tokens
            &&& n.update_lock == node.update_lock
        }),
        ({
            let n = node.set_readiness_uncounted();
            &&& n.num_set_readiness + 1 == node.num_set_readiness
            &&& n.num_registration == node.num_registration
            &&& n.ref_count == node.ref_count
            &&& n.state == node.state
            &&& n.tokens == node.tokens
            &&& n.update_lock == node.update_lock
        }),
        ({
            let n = node.retained();
            &&& n.ref_count == node.ref_count + 1
            &&& n.num_set_readiness == node.num_set_readiness
            &&& n.num_registration == node.num_registration
            &&& n.state == node.state
            &&& n.tokens == node.tokens
            &&& n.update_lock == node.update_lock
        }),
        ({
            let n = node.set_readiness_counted();
            &&& n.num_set_readiness == node.num_set_readiness + 1
            &&& n.num_registration == node.num_registration
            &&& n.ref_count == node.ref_count
            &&& n.state == node.state
            &&& n.tokens == node.tokens
            &&& n.update_lock == node.update_lock
        }),
        ({
            let n = node.released();
            &&& n.ref_count + 1 == node.ref_count
            &&& n.num_set_readiness == node.num_set_readiness
            &&& n.num_registration == node.num_registration
            &&& n.state == node.state
            &&& n.tokens == node.tokens
            &&& n.update_lock == node.update_lock
        }),
        ({
            let n = node.let_go();
            &&& n.detached
            &&& n.ref_count == node.ref_count
            &&& n.num_set_readiness == node.num_set_readiness
            &&& n.num_registration == node.num_registration
            &&& n.state == node.state
            &&& n.tokens == node.tokens
            &&& n.update_lock == node.update_lock
        }),
        ({
            let n = node.flagged();
            &&& n.state.dropped && n.state.queued
            &&& n.state.readiness == node.state.readiness
            &&& n.ref_count == node.ref_count
            &&& n.num_set_readiness == node.num_set_readiness
            &&& n.num_registration == node.num_registration
            &&& n.tokens == node.tokens
            &&& n.update_lock == node.update_lock
        }),
        ({
            let n = node.after_clone();
            &&& n.num_set_readiness == node.num_set_readiness + 1
            &&& n.ref_count == node.ref_count + 1
            &&& n.num_registration == node.num_registration
            &&& n.state == node.state
            &&& n.tokens == node.tokens
            &&& n.update_lock == node.update_lock
        }),
{
}

/// Writing a token changes the one slot, and storing an update only the state.
pub proof fn the_steps_of_an_update_change_one_thing_each(
    node: NodeModel,
    slot: nat,
    token: Token,
    interest: Ready,
    opts: PollOpt,
)
    requires
        slot < node.tokens.len(),
    ensures
        ({
            let n = node.token_written(slot, token);
            &&& n.tokens.len() == node.tokens.len()
            &&& n.tokens[slot as int] == token
            &&& forall|i: int|
                0 <= i < node.tokens.len() && i != slot ==> #[trigger] n.tokens[i]
                    == node.tokens[i]
            &&& n.state == node.state
            &&& n.update_lock == node.update_lock
            &&& n.ref_count == node.ref_count
            &&& n.num_set_readiness == node.num_set_readiness
            &&& n.num_registration == node.num_registration
        }),
        ({
            let n = node.update_stored(slot, interest, opts);
            &&& n.state.registration_token == slot
            &&& n.state.interest == interest
            &&& n.state.opts == opts
            &&& n.state.readiness == node.state.readiness
            &&& n.state.dropped == node.state.dropped
            &&& n.state.poll_token == node.state.poll_token
            &&& n.state.queued <==> node.state.queued || !blank(node.state.readiness)
            &&& n.tokens == node.tokens
            &&& n.update_lock == node.update_lock
            &&& n.ref_count == node.ref_count
            &&& n.num_set_readiness == node.num_set_readiness
            &&& n.num_registration == node.num_registration
        }),
{
}

// ---- Names and entries ----

/// What names a registration's node, and when the right to push it is taken.
pub proof fn names_and_rights(m: QueueModel, other: QueueModel, k: u64)
    ensures
        m.live(k) <==> m.nodes.contains_key(k) && k != 0 && k != 1,
        m.held(k) <==> m.order.contains(k) || m.claimed.contains(k),
        m.same_queue(other) <==> m.source == other.source && m.id == other.id,
        crate::model::is_marker(k) <==> k == 0 || k == 1,
        crate::node::MAX_REFCOUNT == isize::MAX,
        crate::poll::AWAKEN == usize::MAX,
{
}

/// Replacing a node replaces that node alone, and taking the right to push one
/// takes that right alone.
pub proof fn one_node_is_replaced(m: QueueModel, k: u64, node: NodeModel, taken: bool)
    ensures
        m.with_node(k, node).nodes == m.nodes.insert(k, node),
        m.with_node(k, node).order == m.order,
        m.with_node(k, node).unlinked == m.unlinked,
        m.with_node(k, node).claimed == m.claimed,
        m.with_node(k, node).next_id == m.next_id,
        m.with_node(k, node).same_queue(m),
        m.with_claim(k, taken).claimed == if taken {
            m.claimed.insert(k)
        } else {
            m.claimed
        },
        m.with_claim(k, taken).nodes == m.nodes,
        m.with_claim(k, taken).order == m.order,
        m.with_claim(k, taken).unlinked == m.unlinked,
        m.with_claim(k, taken).next_id == m.next_id,
        m.with_claim(k, taken).same_queue(m),
{
}

/// A queue in which nothing has happened holds the end marker alone, no node, and
/// does not sleep.
pub proof fn a_new_queue_is_empty(source: int, id: u64, k: u64)
    ensures
        ({
            let m = QueueModel::initial(source, id);
            &&& m.source == source
            &&& m.id == id
            &&& m.order == seq![0u64]
            &&& m.unlinked == Set::<u64>::empty()
            &&& m.claimed == Set::<u64>::empty()
            &&& m.nodes.contains_key(k) <==> k == 0 || k == 1
            &&& !m.asleep()
        }),
{
}

/// The node of a new registration has exactly the token, the interest and the
/// options that were asked for, is ready for nothing and not queued, has one
/// handle of each kind and three references. Nothing else changes.
pub proof fn a_new_registration_is_as_asked_for(
    m: QueueModel,
    token: Token,
    interest: Ready,
    opts: PollOpt,
)
    requires
        m.inv(),
        m.next_id < u64::MAX,
    ensures
        ({
            let p = m.registered(token, interest, opts);
            let node = p.nodes[m.next_id];
            &&& p.nodes.contains_key(m.next_id)
            &&& node.tokens[node.state.registration_token as int] == token
            &&& node.tokens == seq![token, Token(0), Token(0)]
            &&& node.state.interest == interest
            &&& node.state.opts == opts
            &&& blank(node.state.readiness)
            &&& !node.state.queued
            &&& !node.state.dropped
            &&& !node.update_lock
            &&& node.num_registration == 1
            &&& node.num_set_readiness == 1
            &&& node.ref_count == 3
            &&& p.nodes.remove(m.next_id) == m.nodes
            &&& p.next_id == m.next_id + 1
            &&& p.order == m.order
            &&& p.unlinked == m.unlinked
            &&& p.claimed == m.claimed
            &&& p.id == m.id
            &&& p.source == m.source
        }),
{
    crate::model::registered_inv(m, token, interest, opts);
    assert(m.registered(token, interest, opts).nodes.remove(m.next_id) =~= m.nodes);
}

/// Setting the readiness of a registration stores it, and puts the node behind
/// all entries exactly if the readiness is not blank and the node is not queued.
/// Nothing else changes.
pub proof fn setting_queues_a_node_that_becomes_ready(m: QueueModel, k: u64, ready: Ready)
    requires
        m.inv(),
        m.live(k),
    ensures
        m.ready_wins(k, ready) <==> !blank(ready) && !m.nodes[k].state.queued,
        ({
            let p = m.readied(k, ready);
            &&& p.nodes[k].state.readiness == ready
            &&& p.nodes[k].state.interest == m.nodes[k].state.interest
            &&& p.nodes[k].state.opts == m.nodes[k].state.opts
            &&& p.nodes[k].state.dropped == m.nodes[k].state.dropped
            &&& p.nodes[k].state.poll_token == m.nodes[k].state.poll_token
            &&& p.nodes[k].state.registration_token == m.nodes[k].state.registration_token
            &&& p.nodes[k].state.queued <==> m.nodes[k].state.queued || !blank(ready)
            &&& p.nodes[k] == (NodeModel { state: p.nodes[k].state, ..m.nodes[k] })
            &&& p.nodes == m.nodes.insert(k, p.nodes[k])
            &&& p.order == if !blank(ready) && !m.nodes[k].state.queued {
                m.order.push(k)
            } else {
                m.order
            }
            &&& p.unlinked == m.unlinked
            &&& p.claimed == m.claimed
            &&& p.next_id == m.next_id
            &&& p.id == m.id
            &&& p.source == m.source
        }),
        ({
            let p = m.ready_stored(k, ready);
            &&& p.nodes == m.readied(k, ready).nodes
            &&& p.order == m.order
            &&& p.unlinked == m.unlinked
            &&& p.claimed == if !blank(ready) && !m.nodes[k].state.queued {
                m.claimed.insert(k)
            } else {
                m.claimed
            }
            &&& p.next_id == m.next_id
        }),
{
    if m.ready_wins(k, ready) {
        assert(!m.held(k));
        assert(m.claimed.insert(k).remove(k) =~= m.claimed);
    }
}

/// An update gives the registration the token, the interest and the options that
/// were asked for, leaves its readiness alone, and puts the node behind all
/// entries exactly if it is ready and not queued. Nothing else changes.
pub proof fn updating_gives_what_was_asked_for(
    m: QueueModel,
    k: u64,
    token: Token,
    interest: Ready,
    opts: PollOpt,
    slot: nat,
)
    requires
        m.inv(),
        m.live(k),
    ensures
        m.update_wins(k) <==> !blank(m.nodes[k].state.readiness) && !m.nodes[k].state.queued,
        ({
            let p = m.updated(k, token, interest, opts);
            let node = p.nodes[k];
            &&& node.tokens[node.state.registration_token as int] == token
            &&& node.state.interest == interest
            &&& node.state.opts == opts
            &&& node.state.readiness == m.nodes[k].state.readiness
            &&& node.state.dropped == m.nodes[k].state.dropped
            &&& node.state.poll_token == m.nodes[k].state.poll_token
            &&& node.tokens[node.state.poll_token as int]
                == m.nodes[k].tokens[node.state.poll_token as int]
            &&& node.state.queued <==> m.nodes[k].state.queued || !blank(
                m.nodes[k].state.readiness,
            )
            &&& node == (NodeModel { state: node.state, tokens: node.tokens, ..m.nodes[k] })
            &&& p.nodes == m.nodes.insert(k, node)
            &&& p.order == if !blank(m.nodes[k].state.readiness) && !m.nodes[k].state.queued {
                m.order.push(k)
            } else {
                m.order
            }
            &&& p.unlinked == m.unlinked
            &&& p.claimed == m.claimed
            &&& p.next_id == m.next_id
            &&& p.id == m.id
            &&& p.source == m.source
        }),
        ({
            let p = m.update_stored(k, slot, interest, opts);
            &&& p.nodes[k].state.registration_token == slot
            &&& p.nodes[k].state.interest == interest
            &&& p.nodes[k].state.opts == opts
            &&& p.nodes[k].state.readiness == m.nodes[k].state.readiness
            &&& p.nodes[k] == (NodeModel { state: p.nodes[k].state, ..m.nodes[k] })
            &&& p.nodes == m.nodes.insert(k, p.nodes[k])
            &&& p.next_id == m.next_id
            &&& p.order == m.order
            &&& p.unlinked == m.unlinked
            &&& p.claimed == if !blank(m.nodes[k].state.readiness) && !m.nodes[k].state.queued {
                m.claimed.insert(k)
            } else {
                m.claimed
            }
        }),
{
    if m.update_wins(k) {
        assert(!m.held(k));
        assert(m.claimed.insert(k).remove(k) =~= m.claimed);
    }
}

/// Dropping a handle counts it less and releases its reference. The last of its
/// kind flags the node, and puts it behind all entries if it is not queued. The
/// node is gone exactly if that was the last reference. Nothing else changes.
pub proof fn dropping_a_handle(m: QueueModel, k: u64)
    requires
        m.inv(),
        m.live(k),
    ensures
        m.nodes[k].num_registration > 0 ==> ({
            let p = m.registration_dropped(k);
            let last = m.nodes[k].num_registration == 1;
            &&& p.nodes.contains_key(k) <==> m.nodes[k].ref_count > 1
            &&& p.nodes.remove(k) == m.nodes.remove(k)
            &&& p.nodes.contains_key(k) ==> ({
                let node = p.nodes[k];
                &&& node.num_registration + 1 == m.nodes[k].num_registration
                &&& node.ref_count + 1 == m.nodes[k].ref_count
                &&& node.num_set_readiness == m.nodes[k].num_set_readiness
                &&& node.state.dropped <==> last || m.nodes[k].state.dropped
                &&& node.state.queued <==> last || m.nodes[k].state.queued
                &&& node.state == (StateModel {
                    dropped: node.state.dropped,
                    queued: node.state.queued,
                    ..m.nodes[k].state
                })
                &&& node.tokens == m.nodes[k].tokens
                &&& node.update_lock == m.nodes[k].update_lock
            })
            &&& p.order == if last && !m.nodes[k].state.queued {
                m.order.push(k)
            } else {
                m.order
            }
            &&& p.unlinked == m.unlinked
            &&& p.claimed == m.claimed
            &&& p.next_id == m.next_id
            &&& p.id == m.id
            &&& p.source == m.source
        }),
        m.nodes[k].num_set_readiness > 0 ==> ({
            let p = m.set_readiness_dropped(k);
            let last = m.nodes[k].num_set_readiness == 1;
            &&& p.nodes.contains_key(k) <==> m.nodes[k].ref_count > 1
            &&& p.nodes.remove(k) == m.nodes.remove(k)
            &&& p.nodes.contains_key(k) ==> ({
                let node = p.nodes[k];
                &&& node.num_set_readiness + 1 == m.nodes[k].num_set_readiness
                &&& node.ref_count + 1 == m.nodes[k].ref_count
                &&& node.num_registration == m.nodes[k].num_registration
                &&& node.state.dropped <==> last || m.nodes[k].state.dropped
                &&& node.state.queued <==> last || m.nodes[k].state.queued
                &&& node.state == (StateModel {
                    dropped: node.state.dropped,
                    queued: node.state.queued,
                    ..m.nodes[k].state
                })
                &&& node.tokens == m.nodes[k].tokens
                &&& node.update_lock == m.nodes[k].update_lock
            })
            &&& p.order == if last && !m.nodes[k].state.queued {
                m.order.push(k)
            } else {
                m.order
            }
            &&& p.unlinked == m.unlinked
            &&& p.claimed == m.claimed
            &&& p.next_id == m.next_id
            &&& p.id == m.id
            &&& p.source == m.source
        }),
        ({
            let p = m.released(k);
            &&& p.nodes.contains_key(k) <==> m.nodes[k].ref_count > 1
            &&& p.nodes.remove(k) == m.nodes.remove(k)
            &&& p.nodes.contains_key(k) ==> p.nodes[k].ref_count + 1 == m.nodes[k].ref_count
                && p.nodes[k].state == m.nodes[k].state && p.nodes[k].tokens == m.nodes[k].tokens
                && p.nodes[k].num_registration == m.nodes[k].num_registration
                && p.nodes[k].num_set_readiness == m.nodes[k].num_set_readiness
                && p.nodes[k].update_lock == m.nodes[k].update_lock
            &&& p.order == m.order
            &&& p.claimed == m.claimed
            &&& p.unlinked == m.unlinked
        }),
        ({
            let p = m.flagged(k);
            &&& p.nodes == m.nodes.insert(k, p.nodes[k])
            &&& p.nodes[k].state.dropped && p.nodes[k].state.queued
            &&& p.nodes[k].state == (StateModel {
                dropped: true,
                queued: true,
                ..m.nodes[k].state
            })
            &&& p.nodes[k].ref_count == m.nodes[k].ref_count
            &&& p.nodes[k].tokens == m.nodes[k].tokens
            &&& p.order == m.order
            &&& p.unlinked == m.unlinked
            &&& p.claimed == if m.nodes[k].state.queued {
                m.claimed
            } else {
                m.claimed.insert(k)
            }
        }),
{
    assert(m.nodes[k].inv(m.held(k)));
    if m.nodes[k].num_registration > 0 {
        let p = m.registration_dropped(k);
        assert(p.nodes.remove(k) =~= m.nodes.remove(k));
        assert(p.claimed =~= m.claimed);
    }
    if m.nodes[k].num_set_readiness > 0 {
        let p = m.set_readiness_dropped(k);
        assert(p.nodes.remove(k) =~= m.nodes.remove(k));
        assert(p.claimed =~= m.claimed);
    }
    assert(m.released(k).nodes.remove(k) =~= m.nodes.remove(k));
}

// ---- The queue ----

/// What pushing, taking and going to sleep do to the entries. They touch no node.
pub proof fn entries_move_one_at_a_time(m: QueueModel, n: u64)
    requires
        m.inv(),
    ensures
        m.swapped(n).order == m.order.push(n),
        m.swapped(n).unlinked == m.unlinked.insert(m.order.last()),
        m.swapped(n).claimed == m.claimed.remove(n),
        m.swapped(n).nodes == m.nodes,
        m.swapped(n).next_id == m.next_id,
        m.linked(n).order == m.order,
        m.linked(n).unlinked == m.unlinked.remove(n),
        m.linked(n).claimed == m.claimed,
        m.linked(n).nodes == m.nodes,
        m.linked(n).next_id == m.next_id,
        m.pushed(n).order == m.order.push(n),
        m.pushed(n).unlinked == m.unlinked,
        m.pushed(n).claimed == m.claimed.remove(n),
        m.pushed(n).nodes == m.nodes,
        m.pushed(n).next_id == m.next_id,
        m.taken().order == m.order.drop_first(),
        m.taken().unlinked == m.unlinked,
        m.taken().claimed == m.claimed.insert(m.order[0]),
        m.taken().nodes == m.nodes,
        m.taken().next_id == m.next_id,
        m.put_to_sleep().order == if m.order == seq![0u64] {
            seq![1u64]
        } else {
            m.order
        },
        m.put_to_sleep().unlinked == m.unlinked,
        m.put_to_sleep().claimed == m.claimed,
        m.put_to_sleep().nodes == m.nodes,
        m.put_to_sleep().next_id == m.next_id,
        m.asleep() <==> m.order == seq![1u64],
        m.order.len() == 1 ==> m.put_to_sleep().asleep(),
        m.order.len() > 1 ==> m.put_to_sleep() == m && !m.asleep(),
{
    if m.asleep() {
        crate::laws::sleep_means_empty(m);
    }
    if m.order.len() == 1 {
        assert(m.order.contains(m.order[0]));
        assert(m.order =~= seq![m.order[0]]);
        if m.order.contains(0) {
            assert(m.order =~= seq![0u64]);
        } else {
            assert(m.order.contains(1));
            assert(m.order =~= seq![1u64]);
        }
    }
}

/// The entries once a marker in front that is linked to what follows has been put
/// behind all others, as the end marker.
pub open spec fn marker_behind(m: QueueModel) -> Seq<u64> {
    if (m.order[0] == 0 || m.order[0] == 1) && !m.unlinked.contains(m.order[0]) {
        m.order.drop_first().push(0)
    } else {
        m.order
    }
}

/// What an attempt to take a node comes to, and what it leaves: the oldest node is
/// taken, unless there is none or its link to what follows is not written yet.
pub proof fn an_attempt_takes_the_oldest_node(m: QueueModel)
    requires
        m.inv(),
    ensures
        m.rotated().order == marker_behind(m),
        m.rotated().unlinked == m.unlinked,
        m.rotated().claimed == m.claimed,
        m.rotated().nodes == m.nodes,
        m.rotated().next_id == m.next_id,
        m.rotate_swapped().order == marker_behind(m),
        m.rotate_swapped().claimed == m.claimed,
        m.rotate_swapped().nodes == m.nodes,
        m.rotate_swapped().unlinked == if (m.order[0] == 0 || m.order[0] == 1)
            && !m.unlinked.contains(m.order[0]) && m.order.len() > 1 {
            m.unlinked.insert(m.order.last())
        } else {
            m.unlinked
        },
        m.rotation_link() == if (m.order[0] == 0 || m.order[0] == 1) && !m.unlinked.contains(
            m.order[0],
        ) && m.order.len() > 1 {
            Some(m.order.last())
        } else {
            None
        },
        m.next_node() == if m.order.len() == 1 {
            Dequeue::Empty
        } else if m.unlinked.contains(marker_behind(m)[0]) {
            Dequeue::Inconsistent
        } else {
            Dequeue::Data(marker_behind(m)[0])
        },
        m.next_node() matches Dequeue::Data(k) ==> m.order.contains(k) && k != 0 && k != 1,
{
    if m.order.len() > 1 {
        assert(m.order.contains(m.order[0]));
        assert(m.order.contains(m.order[1]));
        crate::model::drop_first_contains(m.order);
        if m.order[0] == 0 || m.order[0] == 1 {
            assert(marker_behind(m)[0] == m.order[1] || m.unlinked.contains(m.order[0]));
        }
    }
}

/// What a poll comes to: all nodes from the front on, behind a marker that can be
/// put behind all others, up to the first entry that is a marker or whose link to
/// what follows is not written yet. With nothing under way that is every node in
/// the queue.
pub proof fn a_poll_comes_to_all_it_can_take(m: QueueModel)
    requires
        m.inv(),
    ensures
        ({
            let o = marker_behind(m);
            let n = m.due().len() as int;
            &&& n < o.len()
            &&& m.due() == o.take(n)
            &&& forall|j: int|
                0 <= j < n ==> #[trigger] o[j] != 0 && o[j] != 1 && !m.unlinked.contains(o[j])
            &&& o[n] == 0 || o[n] == 1 || m.unlinked.contains(o[n])
            &&& m.polled().order == o.skip(n) + crate::model::kept(m.nodes, m.due())
            &&& m.polled().unlinked == m.unlinked
            &&& m.polled().claimed == m.claimed
            &&& m.polled().next_id == m.next_id
            &&& m.polled().id == m.id
            &&& m.polled().source == m.source
        }),
        m.unlinked == Set::<u64>::empty() && (m.order[0] == 0 || m.order[0] == 1) ==> m.due()
            == m.order.drop_first(),
{
    crate::model::rotated_inv(m);
    let r = m.rotated();
    crate::model::batch_ends(r.order, r.unlinked);
    let n = crate::model::batch(r.order, r.unlinked) as int;
    assert(r.order.take(n).len() == n);
    if m.unlinked == Set::<u64>::empty() && (m.order[0] == 0 || m.order[0] == 1) {
        let rest = m.order.drop_first();
        assert(m.order.len() > 0);
        assert(m.order.contains(m.order[0]));
        crate::model::drop_first_contains(m.order);
        if n < rest.len() {
            assert(r.order[n] == rest[n]);
            assert(rest.contains(rest[n]));
        }
        assert(r.order.take(n) =~= rest);
    }
}

/// The events of a poll, node by node: the next node that it comes to adds one
/// event at the end, exactly if it is not dropped and some kind is both ready and
/// of interest. The event has the registration's token and every such kind. The
/// node is put back, behind those put back before, exactly if it is not
/// edge-triggered besides.
pub proof fn a_poll_tells_node_by_node(nodes: Map<u64, NodeModel>, ids: Seq<u64>, k: u64)
    ensures
        crate::model::told(nodes, Seq::empty()) == Seq::<Event>::empty(),
        crate::model::kept(nodes, Seq::empty()) == Seq::<u64>::empty(),
        ({
            let st = nodes[k].state;
            let tells = !st.dropped && meet(st.readiness, st.interest);
            &&& crate::model::told(nodes, ids.push(k)) == if tells {
                crate::model::told(nodes, ids).push(
                    Event {
                        kind: Ready {
                            readable: st.readiness.readable && st.interest.readable,
                            writable: st.readiness.writable && st.interest.writable,
                            error: st.readiness.error && st.interest.error,
                            hup: st.readiness.hup && st.interest.hup,
                        },
                        token: nodes[k].tokens[st.registration_token as int],
                    },
                )
            } else {
                crate::model::told(nodes, ids)
            }
            &&& crate::model::kept(nodes, ids.push(k)) == if tells && !st.opts.edge {
                crate::model::kept(nodes, ids).push(k)
            } else {
                crate::model::kept(nodes, ids)
            }
        }),
{
    reveal(Seq::filter);
    let f = |j: u64| nodes[j].tells();
    let g = |j: u64| nodes[j].is_kept();
    let e = |j: u64| nodes[j].event();
    assert(crate::model::told(nodes, Seq::empty()) =~= Seq::empty());
    assert(crate::model::kept(nodes, Seq::empty()) =~= Seq::empty());
    assert(ids.push(k).drop_last() =~= ids);
    assert(ids.push(k).filter(f) == if f(k) {
        ids.filter(f).push(k)
    } else {
        ids.filter(f)
    });
    assert(ids.push(k).filter(g) == if g(k) {
        ids.filter(g).push(k)
    } else {
        ids.filter(g)
    });
    assert(ids.filter(f).push(k).map_values(e) =~= ids.filter(f).map_values(e).push(e(k)));
}

/// What a poll makes of each registration. Its readiness and its token stay as
/// they are. Its interest and its options stay as they are, unless the options
/// include oneshot and the poll tells of it, and then they are cleared. It is
/// queued afterwards, if the poll comes to it, exactly if it is not edge-triggered
/// and the poll tells of it. A node that is dropped loses the queue's reference,
/// and is gone exactly if there is no other.
pub proof fn a_poll_changes_only_what_it_comes_to(m: QueueModel, k: u64)
    requires
        m.inv(),
        m.live(k),
    ensures
        ({
            let p = m.polled();
            let before = m.nodes[k];
            let came = m.due().contains(k);
            let told = came && !before.state.dropped && meet(before.state.readiness, before.state.interest);
            &&& p.nodes.contains_key(k) <==> !(came && before.state.dropped && before.ref_count == 1)
            &&& p.nodes.contains_key(k) ==> ({
                let node = p.nodes[k];
                &&& node.state.readiness == before.state.readiness
                &&& !(told && before.state.opts.oneshot) ==> node.state.interest == before.state.interest
                    && node.state.opts == before.state.opts
                &&& told && before.state.opts.oneshot ==> blank(node.state.interest) && no_option(
                    node.state.opts,
                )
                &&& node.tokens == before.tokens
                &&& node.state.registration_token == before.state.registration_token
                &&& node.state.dropped == before.state.dropped
                &&& node.state.queued <==> if came && !before.state.dropped {
                    told && !before.state.opts.edge
                } else {
                    before.state.queued
                }
                &&& node.state.poll_token == if came && !before.state.dropped {
                    before.state.registration_token
                } else {
                    before.state.poll_token
                }
                &&& node.update_lock == before.update_lock
                &&& node.num_registration == before.num_registration
                &&& node.num_set_readiness == before.num_set_readiness
                &&& node.ref_count == if came && before.state.dropped {
                    before.ref_count - 1
                } else {
                    before.ref_count as int
                }
            })
        }),
        forall|j: u64| #[trigger]
            m.polled().nodes.contains_key(j) ==> m.nodes.contains_key(j),
{
    crate::model::rotated_inv(m);
}

/// What processing one node does, whether as a whole or only by storing its state:
/// the same to the node as a poll does, and nothing to any other. The node is put
/// behind all entries exactly if it is not dropped, not edge-triggered and told
/// of.
pub proof fn processing_a_node_is_polling_it(m: QueueModel, k: u64)
    requires
        m.inv(),
        m.claimed.contains(k),
    ensures
        ({
            let before = m.nodes[k];
            let told = !before.state.dropped && meet(before.state.readiness, before.state.interest);
            let p = m.processed(k);
            let stored = m.polled_stored(k);
            &&& p.nodes.remove(k) == m.nodes.remove(k)
            &&& stored.nodes.remove(k) == m.nodes.remove(k)
            &&& p.nodes.contains_key(k) <==> !(before.state.dropped && before.ref_count == 1)
            &&& stored.nodes.contains_key(k)
            &&& p.nodes.contains_key(k) ==> p.nodes[k].state == stored.nodes[k].state
                && p.nodes[k].tokens == before.tokens && p.nodes[k].num_registration
                == before.num_registration && p.nodes[k].num_set_readiness == before.num_set_readiness
                && p.nodes[k].update_lock == before.update_lock
            &&& p.nodes.contains_key(k) ==> p.nodes[k].ref_count == if before.state.dropped {
                before.ref_count - 1
            } else {
                before.ref_count as int
            }
            &&& stored.nodes[k].ref_count == before.ref_count
            &&& stored.nodes[k].tokens == before.tokens
            &&& stored.nodes[k].num_registration == before.num_registration
            &&& stored.nodes[k].num_set_readiness == before.num_set_readiness
            &&& stored.nodes[k].update_lock == before.update_lock
            &&& stored.nodes[k].state.poll_token == if before.state.dropped {
                before.state.poll_token
            } else {
                before.state.registration_token
            }
            &&& before.state.dropped ==> stored.nodes[k].state == before.state
            &&& stored.next_id == m.next_id
            &&& p.next_id == m.next_id
            &&& stored.nodes[k].state.readiness == before.state.readiness
            &&& stored.nodes[k].state.dropped == before.state.dropped
            &&& stored.nodes[k].state.registration_token == before.state.registration_token
            &&& !(told && before.state.opts.oneshot) ==> stored.nodes[k].state.interest
                == before.state.interest && stored.nodes[k].state.opts == before.state.opts
            &&& told && before.state.opts.oneshot ==> blank(stored.nodes[k].state.interest)
                && no_option(stored.nodes[k].state.opts)
            &&& !before.state.dropped ==> (stored.nodes[k].state.queued <==> told
                && !before.state.opts.edge)
            &&& p.order == if told && !before.state.opts.edge {
                m.order.push(k)
            } else {
                m.order
            }
            &&& stored.order == m.order
            &&& p.unlinked == m.unlinked
            &&& stored.unlinked == m.unlinked
            &&& p.claimed == m.claimed.remove(k)
            &&& stored.claimed == if told && !before.state.opts.edge {
                m.claimed
            } else {
                m.claimed.remove(k)
            }
        }),
{
    assert(m.live(k));
    assert(m.held(k));
    assert(m.processed(k).nodes.remove(k) =~= m.nodes.remove(k));
    assert(m.polled_stored(k).nodes.remove(k) =~= m.nodes.remove(k));
    assert(m.processed(k).claimed =~= m.claimed.remove(k));
}

// ---- From one call to the next ----

/// Nothing is under way: every link is written, nobody is about to push a node,
/// and a marker is in front.
pub open spec fn quiet(m: QueueModel) -> bool {
    &&& m.inv()
    &&& m.unlinked == Set::<u64>::empty()
    &&& m.claimed == Set::<u64>::empty()
    &&& m.order[0] == 0 || m.order[0] == 1
}

/// Whether one of `events` has the token `token` and every kind that is in both
/// `a` and `b`, and no other.
pub open spec fn has_event(events: Seq<Event>, token: Token, a: Ready, b: Ready) -> bool {
    exists|i: int|
        0 <= i < events.len() && (#[trigger] events[i]).token == token && is_meet(
            events[i].kind,
            a,
            b,
        )
}

/// A poll leaves nothing under way.
pub proof fn a_poll_leaves_the_queue_quiet(m: QueueModel)
    requires
        quiet(m),
    ensures
        quiet(m.polled()),
{
    crate::model::polled_inv(m);
    a_poll_comes_to_all_it_can_take(m);
    let o = marker_behind(m);
    let n = m.due().len() as int;
    assert(m.polled().order[0] == o[n]);
}

/// A node in a quiet queue that is marked as queued, and not dropped, is one that
/// the next poll comes to, and one that tells causes its event.
proof fn queued_is_told(m: QueueModel, k: u64)
    requires
        quiet(m),
        m.live(k),
        m.nodes[k].state.queued,
        !m.nodes[k].state.dropped,
    ensures
        m.due().contains(k),
        meet(m.nodes[k].state.readiness, m.nodes[k].state.interest) ==> has_event(
            crate::model::told(m.nodes, m.due()),
            m.nodes[k].tokens[m.nodes[k].state.registration_token as int],
            m.nodes[k].state.readiness,
            m.nodes[k].state.interest,
        ),
{
    a_poll_comes_to_all_it_can_take(m);
    assert(m.held(k));
    assert(m.order.contains(k));
    crate::model::drop_first_contains(m.order);
    let node = m.nodes[k];
    a_node_tells_what_is_ready_and_of_interest(node);
    if node.tells() {
        crate::laws::a_node_that_tells_causes_an_event(m, k);
        let events = crate::model::told(m.nodes, m.due());
        let i = choose|i: int| 0 <= i < events.len() && events[i] == node.event();
        assert(events[i].token == node.event().token);
    }
}

/// A node that is dropped, or that is ready for nothing that is of interest, adds
/// nothing to the events.
pub proof fn a_silent_node_adds_nothing(nodes: Map<u64, NodeModel>, ids: Seq<u64>, k: u64)
    requires
        nodes[k].state.dropped || !meet(nodes[k].state.readiness, nodes[k].state.interest),
    ensures
        crate::model::told(nodes, ids) == crate::model::told(nodes, ids.filter(|j: u64| j != k)),
    decreases ids.len(),
{
    reveal(Seq::filter);
    let other = |j: u64| j != k;
    if ids.len() > 0 {
        let first = ids.drop_last();
        let last = ids.last();
        assert(ids =~= first.push(last));
        a_silent_node_adds_nothing(nodes, first, k);
        a_poll_tells_node_by_node(nodes, first, last);
        a_poll_tells_node_by_node(nodes, first.filter(other), last);
        assert(ids.filter(other) == if other(last) {
            first.filter(other).push(last)
        } else {
            first.filter(other)
        });
    } else {
        assert(ids.filter(other) =~= ids);
    }
}

/// A readiness that is set is told of at the next poll: every kind of it that the
/// registration has an interest in, and no other. Where there is no such kind the
/// registration is not told of.
pub proof fn what_is_set_is_told(m: QueueModel, k: u64, ready: Ready)
    requires
        quiet(m),
        m.live(k),
        !m.nodes[k].state.dropped,
    ensures
        ({
            let q = m.readied(k, ready);
            let node = m.nodes[k];
            let events = crate::model::told(q.nodes, q.due());
            &&& quiet(q)
            &&& if meet(ready, node.state.interest) {
                has_event(
                    events,
                    node.tokens[node.state.registration_token as int],
                    ready,
                    node.state.interest,
                )
            } else {
                events == crate::model::told(q.nodes, q.due().filter(|j: u64| j != k))
            }
        }),
{
    let q = m.readied(k, ready);
    let run = seq![Step::StoreReadiness(k, ready)] + crate::steps::push_run(
        m.order.last(),
        k,
        m.ready_wins(k, ready),
    );
    crate::steps::setting_readiness_is_a_run(m, k, ready);
    crate::steps::any_interleaving_keeps_the_queue_in_order(m, run);
    setting_queues_a_node_that_becomes_ready(m, k, ready);
    assert(m.order.len() > 0);
    assert(q.order[0] == m.order[0]);
    if meet(ready, m.nodes[k].state.interest) {
        queued_is_told(q, k);
    } else {
        a_silent_node_adds_nothing(q.nodes, q.due(), k);
    }
}

/// A registration is told of under the token, and by the interest, that it was
/// made with.
pub proof fn a_new_registration_is_told_as_asked_for(
    m: QueueModel,
    token: Token,
    interest: Ready,
    opts: PollOpt,
    ready: Ready,
)
    requires
        quiet(m),
        m.next_id < u64::MAX,
    ensures
        ({
            let q = m.registered(token, interest, opts).readied(m.next_id, ready);
            let events = crate::model::told(q.nodes, q.due());
            if meet(ready, interest) {
                has_event(events, token, ready, interest)
            } else {
                events == crate::model::told(q.nodes, q.due().filter(|j: u64| j != m.next_id))
            }
        }),
{
    let p = m.registered(token, interest, opts);
    crate::model::registered_inv(m, token, interest, opts);
    a_new_registration_is_as_asked_for(m, token, interest, opts);
    what_is_set_is_told(p, m.next_id, ready);
}

/// An update of a registration that is ready is told of at the next poll, under
/// the new token and by the new interest.
pub proof fn what_is_updated_is_told(
    m: QueueModel,
    k: u64,
    token: Token,
    interest: Ready,
    opts: PollOpt,
)
    requires
        quiet(m),
        m.live(k),
        !m.nodes[k].update_lock,
        !m.nodes[k].state.dropped,
    ensures
        ({
            let q = m.updated(k, token, interest, opts);
            let events = crate::model::told(q.nodes, q.due());
            &&& quiet(q)
            &&& if meet(m.nodes[k].state.readiness, interest) {
                has_event(events, token, m.nodes[k].state.readiness, interest)
            } else {
                events == crate::model::told(q.nodes, q.due().filter(|j: u64| j != k))
            }
        }),
{
    let q = m.updated(k, token, interest, opts);
    let slot = m.nodes[k].slot_for(token);
    let run = seq![Step::LockUpdate(k), Step::WriteToken(k, slot, token)] + seq![
        Step::StoreUpdate(k, slot, interest, opts),
        Step::UnlockUpdate(k),
    ] + crate::steps::push_run(m.order.last(), k, m.update_wins(k));
    crate::steps::updating_is_a_run(m, k, token, interest, opts);
    crate::steps::any_interleaving_keeps_the_queue_in_order(m, run);
    updating_gives_what_was_asked_for(m, k, token, interest, opts, slot);
    assert(m.order.len() > 0);
    assert(q.order[0] == m.order[0]);
    if meet(m.nodes[k].state.readiness, interest) {
        queued_is_told(q, k);
    } else {
        a_silent_node_adds_nothing(q.nodes, q.due(), k);
    }
}

/// A registration without oneshot that is made ready again after a poll, whatever
/// that poll found, is told of at the next: only a oneshot is disarmed.
pub proof fn a_registration_without_oneshot_is_told_again(m: QueueModel, k: u64, ready: Ready)
    requires
        quiet(m),
        m.live(k),
        !m.nodes[k].state.dropped,
        !m.nodes[k].state.opts.oneshot,
        meet(ready, m.nodes[k].state.interest),
    ensures
        ({
            let q = m.polled().readied(k, ready);
            has_event(
                crate::model::told(q.nodes, q.due()),
                m.nodes[k].tokens[m.nodes[k].state.registration_token as int],
                ready,
                m.nodes[k].state.interest,
            )
        }),
{
    a_poll_leaves_the_queue_quiet(m);
    a_poll_changes_only_what_it_comes_to(m, k);
    what_is_set_is_told(m.polled(), k, ready);
}

/// A oneshot registration that a poll did not tell of is not disarmed: made ready
/// for a kind of interest, it is told of at the next poll.
pub proof fn a_oneshot_that_was_not_told_stays_armed(m: QueueModel, k: u64, ready: Ready)
    requires
        quiet(m),
        m.live(k),
        !m.nodes[k].state.dropped,
        !m.due().contains(k) || !meet(m.nodes[k].state.readiness, m.nodes[k].state.interest),
        meet(ready, m.nodes[k].state.interest),
    ensures
        ({
            let q = m.polled().readied(k, ready);
            has_event(
                crate::model::told(q.nodes, q.due()),
                m.nodes[k].tokens[m.nodes[k].state.registration_token as int],
                ready,
                m.nodes[k].state.interest,
            )
        }),
{
    a_poll_leaves_the_queue_quiet(m);
    a_poll_changes_only_what_it_comes_to(m, k);
    what_is_set_is_told(m.polled(), k, ready);
}

/// A oneshot registration that a poll has told of is not told of at the next one,
/// whatever its readiness is set to in between. Once it is updated, it is told of
/// again, by the readiness that was set.
pub proof fn a_oneshot_is_told_once_until_it_is_updated(
    m: QueueModel,
    k: u64,
    ready: Ready,
    token: Token,
    interest: Ready,
    opts: PollOpt,
)
    requires
        quiet(m),
        m.live(k),
        m.due().contains(k),
        !m.nodes[k].state.dropped,
        !m.nodes[k].update_lock,
        m.nodes[k].state.opts.oneshot,
        meet(m.nodes[k].state.readiness, m.nodes[k].state.interest),
    ensures
        ({
            let q = m.polled().readied(k, ready);
            crate::model::told(q.nodes, q.due()) == crate::model::told(
                q.nodes,
                q.due().filter(|j: u64| j != k),
            )
        }),
        ({
            let q = m.polled().updated(k, token, interest, opts);
            meet(m.nodes[k].state.readiness, interest) ==> has_event(
                crate::model::told(q.nodes, q.due()),
                token,
                m.nodes[k].state.readiness,
                interest,
            )
        }),
{
    a_poll_leaves_the_queue_quiet(m);
    a_poll_changes_only_what_it_comes_to(m, k);
    what_is_set_is_told(m.polled(), k, ready);
    what_is_updated_is_told(m.polled(), k, token, interest, opts);
}

/// After a poll that comes to it, a registration is in the queue exactly if the
/// poll told of it and it is not edge-triggered. The next poll tells such a one
/// again, unless it is oneshot, and does not come to any other.
pub proof fn level_is_told_again_and_edge_is_not(m: QueueModel, k: u64)
    requires
        quiet(m),
        m.live(k),
        m.due().contains(k),
        !m.nodes[k].state.dropped,
    ensures
        ({
            let p = m.polled();
            let node = m.nodes[k];
            let told = meet(node.state.readiness, node.state.interest);
            &&& p.order.contains(k) <==> told && !node.state.opts.edge
            &&& p.due().contains(k) <==> told && !node.state.opts.edge
            &&& told && !node.state.opts.edge && !node.state.opts.oneshot ==> has_event(
                crate::model::told(p.nodes, p.due()),
                node.tokens[node.state.registration_token as int],
                node.state.readiness,
                node.state.interest,
            )
        }),
{
    let p = m.polled();
    a_poll_leaves_the_queue_quiet(m);
    a_poll_changes_only_what_it_comes_to(m, k);
    a_poll_comes_to_all_it_can_take(p);
    crate::model::drop_first_contains(p.order);
    assert(p.live(k));
    assert(p.nodes[k].inv(p.held(k)));
    if p.nodes[k].state.queued {
        queued_is_told(p, k);
    }
}

/// A push onto a queue that was put to sleep is the one that has to wake `Poll`
/// up, whether by a readiness, an update or a drop: then the queue was asleep, and
/// it is not afterwards.
pub proof fn the_first_to_queue_a_node_wakes(m: QueueModel, k: u64, ready: Ready)
    requires
        quiet(m),
        m.order.len() == 1,
        m.live(k),
        !m.nodes[k].state.dropped,
    ensures
        m.put_to_sleep().asleep(),
        !m.nodes[k].state.queued,
        !blank(ready) ==> m.put_to_sleep().ready_wins(k, ready) && !m.put_to_sleep().readied(
            k,
            ready,
        ).asleep(),
{
    entries_move_one_at_a_time(m, k);
    assert(m.order.len() == 1);
    if m.nodes[k].state.queued {
        assert(m.held(k));
        assert(m.order.contains(k));
        let i = choose|i: int| 0 <= i < m.order.len() && m.order[i] == k;
        assert(m.order[0] == k);
    }
}

} // verus!
