use mio::event::{Event, PollOpt, Ready, Token};
use mio::events::Events;
use mio::node::{propose_update, ReadinessNode};
use mio::queue::{Dequeue, Polled, QueueIds, ReadinessQueue};

fn new_queue() -> ReadinessQueue {
    ReadinessQueue::new(&mut QueueIds::new())
}

fn told(queue: &mut ReadinessQueue) -> Vec<Event> {
    let mut events = Events::with_capacity(16);
    queue.poll(&mut events);
    let mut out = Vec::new();
    let mut iter = events.iter();
    while let Some(e) = iter.next() {
        out.push(e);
    }
    out
}

#[test]
fn a_new_node_sets_only_its_first_token() {
    let node = ReadinessNode::new(Token(7), Ready::readable(), PollOpt::edge());
    assert_eq!(node.token_0, Token(7));
    assert_eq!(node.token_1, Token(0));
    assert_eq!(node.token_2, Token(0));
    assert_eq!(node.ref_count, 3);
    assert_eq!(node.num_set_readiness, 1);
    assert_eq!(node.num_registration, 1);
    assert_eq!(node.next_readiness, None);
    assert!(!node.update_lock);

    let marker = ReadinessNode::marker();
    assert_eq!(marker.token_0, Token(0));
    assert_eq!(marker.ref_count, 0);
    assert_eq!(marker.num_set_readiness, 0);
    assert_eq!(marker.num_registration, 0);
}

#[test]
fn a_new_queue_is_empty() {
    let mut queue = new_queue();
    assert!(queue.is_empty());
    assert_eq!(queue.node_count(), 0);
    assert_eq!(queue.dequeue_node(), Dequeue::Empty);
    assert_eq!(queue.end_marker(), 0);
    assert_eq!(queue.sleep_marker(), 1);
}

#[test]
fn queues_of_one_source_are_told_apart() {
    let mut ids = QueueIds::new();
    assert!(ids.can_give());
    let a = ReadinessQueue::new(&mut ids);
    let b = ReadinessQueue::new(&mut ids);
    let c = ReadinessQueue::new(&mut ids);
    assert_eq!((a.id(), b.id(), c.id()), (0, 1, 2));
    assert!(a.identical(&a));
    assert!(!a.identical(&b));
    assert!(!b.identical(&a));
    assert!(!b.identical(&c));
    assert!(ids.can_give());
}

#[test]
fn nodes_come_out_in_the_order_in_which_they_were_pushed() {
    let mut queue = new_queue();
    let a = queue.register(Token(1), Ready::readable(), PollOpt::edge());
    let b = queue.register(Token(2), Ready::readable(), PollOpt::edge());
    let c = queue.register(Token(3), Ready::readable(), PollOpt::edge());
    for n in [b, c, a] {
        assert!(!queue.set_readiness(n, Ready::readable()));
        // Setting it again does not push it again.
        assert!(!queue.set_readiness(n, Ready::readable()));
    }
    assert!(!queue.is_empty());
    assert_eq!(queue.dequeue_node(), Dequeue::Data(b));
    assert_eq!(queue.dequeue_node(), Dequeue::Data(c));
    assert_eq!(queue.dequeue_node(), Dequeue::Data(a));
    assert_eq!(queue.dequeue_node(), Dequeue::Empty);
}

#[test]
fn a_lost_compare_and_swap_is_tried_again() {
    let mut queue = new_queue();
    let n = queue.register(Token(1), Ready::all(), PollOpt::edge());

    // Two threads have seen the same state; the second finds it changed.
    let seen = queue.load_state(n);
    assert_eq!(queue.try_set_readiness(n, seen, Ready::readable()), Ok(true));
    let actual = queue.load_state(n);
    assert_eq!(queue.try_set_readiness(n, seen, Ready::writable()), Err(actual));
    assert_eq!(queue.readiness(n), Ready::readable());
    assert_eq!(queue.try_set_readiness(n, actual, Ready::writable()), Ok(false));
    assert_eq!(queue.readiness(n), Ready::writable());

    // Only the winner pushes.
    assert!(queue.is_empty());
    assert!(!queue.enqueue_node(n));
    assert_eq!(told(&mut queue), vec![Event::new(Ready::writable(), Token(1))]);
}

#[test]
fn a_push_under_way_holds_up_what_comes_behind_it() {
    let mut queue = new_queue();
    let a = queue.register(Token(1), Ready::all(), PollOpt::edge());
    let b = queue.register(Token(2), Ready::all(), PollOpt::edge());
    let seen = queue.load_state(a);
    assert_eq!(queue.try_set_readiness(a, seen, Ready::readable()), Ok(true));
    let prev = queue.begin_enqueue(a);
    assert_eq!(prev, queue.end_marker());
    queue.set_readiness(b, Ready::readable());

    assert!(!queue.is_empty());
    assert!(!queue.prepare_for_sleep());
    assert_eq!(queue.dequeue_node(), Dequeue::Inconsistent);
    assert_eq!(told(&mut queue), vec![]);

    assert!(!queue.finish_enqueue(prev, a));
    assert_eq!(
        told(&mut queue),
        vec![
            Event::new(Ready::readable(), Token(1)),
            Event::new(Ready::readable(), Token(2))
        ]
    );
    assert!(queue.is_empty());
}

#[test]
fn a_poll_cut_short_is_taken_up_again() {
    let mut queue = new_queue();
    let a = queue.register(Token(1), Ready::all(), PollOpt::edge());
    let b = queue.register(Token(2), Ready::all(), PollOpt::edge());
    queue.set_readiness(a, Ready::readable());
    let seen = queue.load_state(b);
    assert_eq!(queue.try_set_readiness(b, seen, Ready::hup()), Ok(true));
    let prev = queue.begin_enqueue(b);
    assert_eq!(prev, a);
    // The link from the first node to the second is not written yet.
    assert_eq!(told(&mut queue), vec![]);
    assert!(!queue.finish_enqueue(prev, b));
    assert_eq!(told(&mut queue).len(), 2);
    assert_eq!(told(&mut queue), vec![]);
}

#[test]
fn the_push_onto_a_sleeping_queue_wakes() {
    let mut queue = new_queue();
    let a = queue.register(Token(1), Ready::all(), PollOpt::edge());
    let b = queue.register(Token(2), Ready::all(), PollOpt::edge());
    assert!(queue.prepare_for_sleep());
    // Already asleep.
    assert!(queue.prepare_for_sleep());
    assert!(queue.is_empty());
    assert!(queue.set_readiness(a, Ready::readable()));
    assert!(!queue.set_readiness(b, Ready::readable()));
    assert!(!queue.prepare_for_sleep());
    assert_eq!(told(&mut queue).len(), 2);
    // The poll has cleared the sleep marker.
    assert!(!queue.set_readiness(a, Ready::readable()));
}

#[test]
fn a_poll_of_a_sleeping_queue_wakes_it() {
    let mut queue = new_queue();
    let a = queue.register(Token(1), Ready::all(), PollOpt::edge());
    assert!(queue.prepare_for_sleep());
    assert_eq!(told(&mut queue), vec![]);
    assert!(!queue.set_readiness(a, Ready::readable()));
}

#[test]
fn edge_is_told_once() {
    let mut queue = new_queue();
    let n = queue.register(Token(9), Ready::readable(), PollOpt::edge());
    queue.set_readiness(n, Ready::all());
    assert_eq!(told(&mut queue), vec![Event::new(Ready::readable(), Token(9))]);
    assert_eq!(told(&mut queue), vec![]);
    queue.set_readiness(n, Ready::all());
    assert_eq!(told(&mut queue), vec![Event::new(Ready::readable(), Token(9))]);
}

#[test]
fn level_is_told_until_the_readiness_is_gone() {
    let mut queue = new_queue();
    let n = queue.register(Token(9), Ready::readable(), PollOpt::level());
    queue.set_readiness(n, Ready::readable());
    for _ in 0..3 {
        assert_eq!(told(&mut queue), vec![Event::new(Ready::readable(), Token(9))]);
        assert!(!queue.is_empty());
    }
    queue.set_readiness(n, Ready::none());
    assert_eq!(told(&mut queue), vec![]);
    assert!(queue.is_empty());
}

#[test]
fn oneshot_is_disarmed() {
    let mut queue = new_queue();
    let opts = PollOpt::level().union(PollOpt::oneshot());
    let n = queue.register(Token(9), Ready::readable(), opts);
    queue.set_readiness(n, Ready::readable());
    assert_eq!(told(&mut queue), vec![Event::new(Ready::readable(), Token(9))]);
    assert_eq!(told(&mut queue), vec![]);
    queue.set_readiness(n, Ready::readable());
    assert_eq!(told(&mut queue), vec![]);
    queue.update(n, Token(10), Ready::readable(), opts);
    assert_eq!(told(&mut queue), vec![Event::new(Ready::readable(), Token(10))]);
}

#[test]
fn readiness_without_interest_is_not_told() {
    let mut queue = new_queue();
    let n = queue.register(Token(9), Ready::readable(), PollOpt::level());
    queue.set_readiness(n, Ready::writable());
    assert!(!queue.is_empty());
    assert_eq!(told(&mut queue), vec![]);
    assert!(queue.is_empty());
    // The readiness is still there for the next update.
    queue.update(n, Token(9), Ready::writable(), PollOpt::level());
    assert_eq!(told(&mut queue), vec![Event::new(Ready::writable(), Token(9))]);
}

#[test]
fn only_one_update_wins() {
    let mut queue = new_queue();
    let n = queue.register(Token(1), Ready::readable(), PollOpt::edge());
    queue.set_readiness(n, Ready::readable());
    assert!(queue.begin_update(n));
    assert!(!queue.begin_update(n));
    queue.update(n, Token(2), Ready::readable(), PollOpt::edge());
    let slot = queue.pick_slot(n, Token(3));
    assert_eq!(slot, 1);
    queue.write_token(n, slot, Token(3));
    // Meanwhile others are refused, and a setter goes on.
    assert!(!queue.begin_update(n));
    queue.set_readiness(n, Ready::all());
    assert!(!queue.store_update(n, slot, Ready::writable(), PollOpt::level()));
    assert!(!queue.begin_update(n));
    queue.end_update(n);
    // All of the one update, and nothing of the others.
    assert_eq!(told(&mut queue), vec![Event::new(Ready::writable(), Token(3))]);
    assert!(!queue.is_empty());
    assert!(queue.begin_update(n));
}

#[test]
fn updates_use_the_token_slots_in_turn() {
    let mut queue = new_queue();
    let n = queue.register(Token(1), Ready::readable(), PollOpt::edge());
    for t in 2..9 {
        queue.update(n, Token(t), Ready::readable(), PollOpt::edge());
        queue.update(n, Token(t + 100), Ready::readable(), PollOpt::edge());
        queue.set_readiness(n, Ready::readable());
        assert_eq!(
            told(&mut queue),
            vec![Event::new(Ready::readable(), Token(t + 100))]
        );
    }
}

#[test]
fn the_last_reference_frees_the_node() {
    let mut queue = new_queue();
    let n = queue.register(Token(1), Ready::all(), PollOpt::level());
    queue.clone_set_readiness(n);
    queue.set_readiness(n, Ready::readable());
    queue.drop_registration(n);
    // The node is flagged, and not told of any more.
    assert_eq!(told(&mut queue), vec![]);
    assert_eq!(queue.node_count(), 1);
    // It is never queued again.
    assert!(!queue.set_readiness(n, Ready::writable()));
    assert_eq!(queue.readiness(n), Ready::writable());
    assert!(queue.is_empty());
    queue.drop_set_readiness(n);
    assert_eq!(queue.node_count(), 1);
    queue.drop_set_readiness(n);
    assert_eq!(queue.node_count(), 0);
}

#[test]
fn a_drop_wakes_a_sleeping_poll() {
    let mut queue = new_queue();
    let n = queue.register(Token(1), Ready::all(), PollOpt::level());
    assert!(queue.prepare_for_sleep());
    assert!(queue.drop_set_readiness(n));
    assert!(!queue.drop_registration(n));
    assert_eq!(queue.node_count(), 1);
    assert_eq!(told(&mut queue), vec![]);
    assert_eq!(queue.node_count(), 0);
}

#[test]
fn overlapping_pushes_can_be_linked_in_any_order() {
    let mut queue = new_queue();
    let a = queue.register(Token(1), Ready::all(), PollOpt::edge());
    let b = queue.register(Token(2), Ready::all(), PollOpt::edge());
    for n in [a, b] {
        let seen = queue.load_state(n);
        assert_eq!(queue.try_set_readiness(n, seen, Ready::readable()), Ok(true));
    }
    assert!(queue.prepare_for_sleep());
    let before_a = queue.begin_enqueue(a);
    let before_b = queue.begin_enqueue(b);
    assert_eq!(before_a, queue.sleep_marker());
    assert_eq!(before_b, a);
    assert!(!queue.finish_enqueue(before_b, b));
    assert_eq!(queue.dequeue_node(), Dequeue::Inconsistent);
    // The link stays due while the others go on.
    assert_eq!(told(&mut queue), vec![]);
    assert!(queue.finish_enqueue(before_a, a));
    assert_eq!(queue.dequeue_node(), Dequeue::Data(a));
    assert_eq!(queue.dequeue_node(), Dequeue::Data(b));
    assert_eq!(
        queue.process_node(b),
        Some(Event::new(Ready::readable(), Token(2)))
    );
    assert_eq!(
        queue.process_node(a),
        Some(Event::new(Ready::readable(), Token(1)))
    );
    assert_eq!(queue.dequeue_node(), Dequeue::Empty);
}

#[test]
fn a_claim_stays_while_others_go_on() {
    let mut queue = new_queue();
    let a = queue.register(Token(1), Ready::all(), PollOpt::edge());
    let b = queue.register(Token(2), Ready::all(), PollOpt::edge());
    let seen = queue.load_state(a);
    assert_eq!(queue.try_set_readiness(a, seen, Ready::readable()), Ok(true));
    assert!(!queue.set_readiness(b, Ready::readable()));
    assert_eq!(told(&mut queue), vec![Event::new(Ready::readable(), Token(2))]);
    assert!(!queue.set_readiness(a, Ready::hup()));
    assert!(!queue.drop_registration(a));
    assert!(queue.is_empty());
    assert!(!queue.enqueue_node(a));
    // Meanwhile flagged, the node is let go of.
    assert_eq!(told(&mut queue), vec![]);
    assert_eq!(queue.node_count(), 2);
    queue.drop_set_readiness(a);
    assert_eq!(queue.node_count(), 1);
}

fn update(node: &mut ReadinessNode, token: Token, interest: Ready, opts: PollOpt) -> usize {
    let slot = node.slot_for(token);
    node.set_token_at(slot, token);
    let curr = node.state.load();
    let (next, queue) = propose_update(curr, slot, interest, opts);
    assert!(!queue);
    assert_eq!(node.state.compare_and_swap(curr, next), curr);
    slot
}

#[test]
fn an_update_spares_the_slots_in_use() {
    let mut node = ReadinessNode::new(Token(7), Ready::readable(), PollOpt::edge());
    assert_eq!(update(&mut node, Token(8), Ready::all(), PollOpt::level()), 1);
    assert_eq!((node.token_0, node.token_1, node.token_2), (Token(7), Token(8), Token(0)));
    assert_eq!(node.state.load().registration_token(), 1);
    assert_eq!(node.state.load().poll_token(), 0);
    // The polling side still reads the first slot, so the third one is free.
    assert_eq!(update(&mut node, Token(9), Ready::all(), PollOpt::level()), 2);
    assert_eq!((node.token_0, node.token_1, node.token_2), (Token(7), Token(8), Token(9)));
    // The same token stays where it is.
    assert_eq!(update(&mut node, Token(9), Ready::hup(), PollOpt::edge()), 2);
    assert_eq!(node.state.load().registration_token(), 2);
    assert_eq!(node.token_at(2), Token(9));
    assert_eq!(node.state.load().interest(), Ready::hup());
}

#[test]
fn of_many_setters_one_pushes() {
    let mut queue = new_queue();
    let n = queue.register(Token(4), Ready::all(), PollOpt::edge());
    let mut won = 0;
    for ready in [Ready::readable(), Ready::hup(), Ready::writable(), Ready::error()] {
        let seen = queue.load_state(n);
        if queue.try_set_readiness(n, seen, ready) == Ok(true) {
            won += 1;
        }
    }
    assert_eq!(won, 1);
    assert_eq!(queue.readiness(n), Ready::error());
    assert_eq!(queue.load_state(n).interest(), Ready::all());
    assert!(queue.load_state(n).is_queued());
    assert!(!queue.enqueue_node(n));
    assert_eq!(queue.dequeue_node(), Dequeue::Data(n));
    assert_eq!(queue.dequeue_node(), Dequeue::Empty);
}

#[test]
fn the_last_release_frees() {
    let mut queue = new_queue();
    let n = queue.register(Token(1), Ready::all(), PollOpt::edge());
    // Three handles and the queue, all of which give up before any is done.
    queue.retain_node(n);
    queue.count_set_readiness(n);
    assert!(!queue.uncount_set_readiness(n));
    assert!(queue.uncount_registration(n));
    assert!(queue.uncount_set_readiness(n));
    assert!(queue.flag_dropped(n));
    assert!(!queue.flag_dropped(n));
    assert!(!queue.enqueue_node(n));
    assert_eq!(queue.dequeue_node(), Dequeue::Data(n));
    assert_eq!(queue.store_polled(n), Polled::LetGo);
    for _ in 0..3 {
        assert!(!queue.release_node(n));
        assert_eq!(queue.node_count(), 1);
    }
    assert!(queue.release_node(n));
    assert_eq!(queue.node_count(), 0);
}

#[test]
fn a_release_may_come_after_the_poll_that_lets_go() {
    let mut queue = new_queue();
    let n = queue.register(Token(1), Ready::all(), PollOpt::edge());
    assert!(!queue.drop_set_readiness(n));
    // Not counted any more, but not released yet.
    assert!(queue.uncount_registration(n));
    assert_eq!(told(&mut queue), vec![]);
    assert_eq!(queue.node_count(), 1);
    assert!(!queue.flag_dropped(n));
    assert!(queue.is_empty());
    assert!(queue.release_node(n));
    assert_eq!(queue.node_count(), 0);
}

#[test]
fn polling_a_node_step_by_step() {
    let mut queue = new_queue();
    let n = queue.register(Token(3), Ready::readable(), PollOpt::level());
    queue.set_readiness(n, Ready::all());
    assert_eq!(queue.dequeue_node(), Dequeue::Data(n));
    let event = Event::new(Ready::readable(), Token(3));
    assert_eq!(queue.store_polled(n), Polled::Kept(event));
    assert!(!queue.enqueue_node(n));
    queue.update(n, Token(3), Ready::readable(), PollOpt::edge());
    assert_eq!(queue.dequeue_node(), Dequeue::Data(n));
    assert_eq!(queue.store_polled(n), Polled::Done(Some(event)));
    assert_eq!(queue.dequeue_node(), Dequeue::Empty);
    queue.set_readiness(n, Ready::writable());
    assert_eq!(queue.dequeue_node(), Dequeue::Data(n));
    assert_eq!(queue.store_polled(n), Polled::Done(None));
}

#[test]
fn one_wakeup_per_sleep() {
    let mut queue = new_queue();
    let nodes: Vec<u64> = (0..5)
        .map(|t| queue.register(Token(t), Ready::all(), PollOpt::edge()))
        .collect();
    for _ in 0..3 {
        assert!(queue.prepare_for_sleep());
        let woken: Vec<bool> = nodes
            .iter()
            .map(|n| queue.set_readiness(*n, Ready::readable()))
            .collect();
        assert_eq!(woken, vec![true, false, false, false, false]);
        let tokens: Vec<Token> = told(&mut queue).iter().map(|e| e.token).collect();
        assert_eq!(tokens, (0..5).map(Token).collect::<Vec<Token>>());
    }
}

#[test]
fn a_registration_disturbs_nothing() {
    let mut queue = new_queue();
    let a = queue.register(Token(1), Ready::all(), PollOpt::edge());
    queue.set_readiness(a, Ready::readable());
    let before = queue.load_state(a);
    let b = queue.register(Token(1), Ready::all(), PollOpt::edge());
    assert_ne!(a, b);
    assert_eq!(queue.load_state(a), before);
    assert_eq!(queue.readiness(b), Ready::none());
    assert_eq!(queue.dequeue_node(), Dequeue::Data(a));
    assert_eq!(queue.dequeue_node(), Dequeue::Empty);
}

#[test]
fn an_update_after_a_setter_queues_the_node() {
    let mut queue = new_queue();
    let n = queue.register(Token(1), Ready::readable(), PollOpt::edge());
    assert!(queue.begin_update(n));
    queue.set_readiness(n, Ready::writable());
    let slot = queue.pick_slot(n, Token(2));
    // A poll in between finds nothing to tell, and leaves the slot free.
    assert_eq!(told(&mut queue), vec![]);
    queue.write_token(n, slot, Token(2));
    assert!(queue.store_update(n, slot, Ready::writable(), PollOpt::edge()));
    queue.end_update(n);
    assert!(!queue.enqueue_node(n));
    assert_eq!(told(&mut queue), vec![Event::new(Ready::writable(), Token(2))]);
}

#[test]
fn a_rotation_under_way_holds_up_what_comes_behind_it() {
    let mut queue = new_queue();
    let a = queue.register(Token(1), Ready::all(), PollOpt::edge());
    let b = queue.register(Token(2), Ready::all(), PollOpt::edge());
    // Nothing in the queue: there is nothing to link.
    assert_eq!(queue.begin_rotate(), None);
    queue.set_readiness(a, Ready::readable());
    assert_eq!(queue.begin_rotate(), Some(a));
    // A push in between goes behind the end marker.
    assert!(!queue.set_readiness(b, Ready::readable()));
    assert_eq!(queue.dequeue_node(), Dequeue::Inconsistent);
    let end = queue.end_marker();
    assert!(!queue.finish_enqueue(a, end));
    // No marker is in front now.
    assert_eq!(queue.begin_rotate(), None);
    assert_eq!(queue.dequeue_node(), Dequeue::Data(a));
    assert_eq!(queue.dequeue_node(), Dequeue::Data(b));
    assert_eq!(queue.dequeue_node(), Dequeue::Empty);
}

#[test]
fn a_handle_keeps_its_node() {
    let mut queue = new_queue();
    let n = queue.register(Token(1), Ready::all(), PollOpt::edge());
    queue.clone_set_readiness(n);
    queue.drop_registration(n);
    for _ in 0..3 {
        assert_eq!(told(&mut queue), vec![]);
        assert_eq!(queue.node_count(), 1);
    }
    queue.drop_set_readiness(n);
    assert_eq!(queue.readiness(n), Ready::none());
    assert_eq!(queue.node_count(), 1);
    queue.drop_set_readiness(n);
    assert_eq!(queue.node_count(), 0);
}

#[test]
fn there_is_room_for_more() {
    let mut queue = new_queue();
    assert!(queue.can_register());
    let n = queue.register(Token(1), Ready::all(), PollOpt::edge());
    assert!(queue.can_clone(n));
}
