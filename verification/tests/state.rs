use mio::event::{
    opt_as_usize, opt_from_usize, ready_as_usize, ready_from_usize, PollOpt, Ready,
};
use mio::node::{propose_dropped, propose_polled, propose_readiness, propose_update};
use mio::state::{AtomicState, ReadinessState};

#[test]
fn readiness_sets_have_their_bits() {
    assert_eq!(ready_as_usize(Ready::none()), 0);
    assert_eq!(ready_as_usize(Ready::readable()), 1);
    assert_eq!(ready_as_usize(Ready::writable()), 2);
    assert_eq!(ready_as_usize(Ready::error()), 4);
    assert_eq!(ready_as_usize(Ready::hup()), 8);
    assert_eq!(ready_as_usize(Ready::all()), 15);
    for v in 0..16 {
        assert_eq!(ready_as_usize(ready_from_usize(v)), v);
        assert_eq!(ready_from_usize(v + 16), ready_from_usize(v));
    }
}

#[test]
fn poll_options_have_their_bits() {
    assert_eq!(opt_as_usize(PollOpt::empty()), 0);
    assert_eq!(opt_as_usize(PollOpt::edge()), 1);
    assert_eq!(opt_as_usize(PollOpt::level()), 2);
    assert_eq!(opt_as_usize(PollOpt::oneshot()), 4);
    for v in 0..16 {
        assert_eq!(opt_as_usize(opt_from_usize(v)), v);
    }
    let both = PollOpt::edge().union(PollOpt::oneshot());
    assert!(both.is_edge() && both.is_oneshot());
    assert!(!PollOpt::level().is_edge() && !PollOpt::level().is_oneshot());
}

#[test]
fn readiness_sets_combine() {
    let rw = Ready::readable().union(Ready::writable());
    assert!(rw.is_readable() && rw.is_writable() && rw.is_some());
    assert_eq!(rw.intersection(Ready::readable()), Ready::readable());
    assert_eq!(rw.intersection(Ready::hup()), Ready::none());
    assert!(Ready::none().is_none());
    assert!(!Ready::none().is_some());
}

#[test]
fn a_fresh_state_packs_interest_and_options() {
    let s = ReadinessState::new(Ready::readable(), PollOpt::edge());
    assert_eq!(usize::from(s), 0x110);
    assert_eq!(s.readiness(), Ready::none());
    assert_eq!(s.interest(), Ready::readable());
    assert_eq!(s.poll_opt(), PollOpt::edge());
    let all = ReadinessState::new(Ready::all(), opt_from_usize(15));
    assert_eq!(usize::from(all), 0xff0);
}

#[test]
fn fields_do_not_disturb_each_other() {
    let mut s = ReadinessState::new(Ready::writable(), PollOpt::level());
    s.set_readiness(Ready::all());
    assert!(s.set_queued());
    assert!(!s.set_queued());
    s.set_dropped();
    s.set_poll_token(2);
    s.set_registration_token(1);
    assert_eq!(usize::from(s), 0x3622f);
    // The options are read without the bits above them.
    assert_eq!(s.poll_opt(), PollOpt::level());
    assert_eq!(s.interest(), Ready::writable());
    assert_eq!(s.readiness(), Ready::all());
    assert_eq!(s.poll_token(), 2);
    assert_eq!(s.registration_token(), 1);
    assert!(s.is_queued());
    assert!(s.is_dropped());

    s.set_interest(Ready::hup());
    s.set_poll_opt(PollOpt::oneshot());
    s.clear_queued();
    assert_eq!(usize::from(s), 0x2648f);
    assert!(!s.is_queued());
    s.set_readiness(Ready::none());
    assert_eq!(usize::from(s), 0x26480);
}

#[test]
fn words_and_states_round_trip() {
    for w in [0usize, 1, 0x10000, 0x3ffff, usize::MAX] {
        assert_eq!(usize::from(ReadinessState::from(w)), w);
    }
}

#[test]
fn compare_and_swap_stores_only_over_the_expected_state() {
    let mut cell = AtomicState::new(Ready::readable(), PollOpt::edge());
    let first = cell.load();
    assert_eq!(first, ReadinessState::from(0x110));
    let second = ReadinessState::from(0x111);
    let third = ReadinessState::from(0x112);

    assert_eq!(cell.compare_and_swap(first, second), first);
    assert_eq!(cell.load(), second);
    assert_eq!(cell.compare_and_swap(first, third), second);
    assert_eq!(cell.load(), second);
}

#[test]
fn proposals() {
    let fresh = ReadinessState::new(Ready::readable(), PollOpt::edge());
    let (mut ready, won) = propose_readiness(fresh, Ready::all());
    assert!(won);
    assert!(ready.is_queued());
    assert_eq!(ready.readiness(), Ready::all());

    // Blank readiness wins nothing, and leaves the queued flag as it is.
    let (blank, won) = propose_readiness(fresh, Ready::none());
    assert!(!won);
    assert_eq!(blank, fresh);
    let (mut blank, won) = propose_readiness(ready, Ready::none());
    assert!(!won);
    assert!(blank.is_queued());

    // Only the interest is told; an edge-triggered node is taken out.
    let (mut polled, told) = propose_polled(ready);
    assert_eq!(told, Ready::readable());
    assert!(!polled.is_queued());
    assert_eq!(polled.readiness(), Ready::all());

    let (mut dropped, won) = propose_dropped(fresh);
    assert!(won && dropped.is_dropped() && dropped.is_queued());
    let (_, won) = propose_dropped(ready);
    assert!(!won);

    let (mut updated, won) = propose_update(polled, 2, Ready::hup(), PollOpt::level());
    assert!(won && updated.is_queued());
    assert_eq!(updated.registration_token(), 2);
    assert_eq!(updated.interest(), Ready::hup());
    assert_eq!(updated.poll_opt(), PollOpt::level());
    let (mut updated, won) = propose_update(fresh, 0, Ready::hup(), PollOpt::level());
    assert!(!won && !updated.is_queued());
}
