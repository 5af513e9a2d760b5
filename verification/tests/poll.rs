use std::cell::RefCell;
use std::io;
use std::time::Duration;

use mio::event::{Event, PollOpt, Ready, Token};
use mio::events::Events;
use mio::poll::{answer, cleanup_due, selector, validate_args, Error, Evented, Poll, AWAKEN};
use mio::queue::QueueIds;
use mio::registration::{Registration, SetReadiness};

/// Remembers what it was asked for, and fails if it is told to.
struct Handle {
    asked: RefCell<Vec<(&'static str, Token, Ready, PollOpt)>>,
    fails: bool,
}

impl Handle {
    fn new(fails: bool) -> Handle {
        Handle { asked: RefCell::new(Vec::new()), fails }
    }

    fn ask(
        &self,
        what: &'static str,
        token: Token,
        interest: Ready,
        opts: PollOpt,
    ) -> Result<(), io::Error> {
        self.asked.borrow_mut().push((what, token, interest, opts));
        if self.fails {
            Err(io::Error::new(io::ErrorKind::Other, "no"))
        } else {
            Ok(())
        }
    }
}

impl Evented<u8> for Handle {
    fn register(
        &self,
        poll: &mut Poll<u8>,
        token: Token,
        interest: Ready,
        opts: PollOpt,
    ) -> Result<(), io::Error> {
        assert_eq!(*selector(poll), 7);
        self.ask("register", token, interest, opts)
    }

    fn reregister(
        &self,
        _poll: &mut Poll<u8>,
        token: Token,
        interest: Ready,
        opts: PollOpt,
    ) -> Result<(), io::Error> {
        self.ask("reregister", token, interest, opts)
    }

    fn deregister(&self, _poll: &mut Poll<u8>) -> Result<(), io::Error> {
        self.ask("deregister", Token(0), Ready::none(), PollOpt::empty())
    }
}

fn new_poll() -> Poll<u8> {
    Poll::new(&mut QueueIds::new(), 7, &Handle::new(false)).unwrap()
}

fn ensure_send<T: Send>(_: &T) {}
fn ensure_sync<T: Sync>(_: &T) {}

fn readiness_node_count(poll: &Poll<u8>) -> usize {
    poll.readiness_queue.node_count()
}

#[test]
fn test_nodes_do_not_leak() {
    let mut poll = new_poll();
    let mut events = Events::with_capacity(1024);
    let mut registrations = Vec::with_capacity(1_000);

    for _ in 0..3 {
        registrations.push(Registration::new(
            &mut poll,
            Token(0),
            Ready::readable(),
            PollOpt::edge(),
        ));
    }
    assert_eq!(3, readiness_node_count(&poll));

    for (registration, set_readiness) in registrations {
        registration.drop(&mut poll.readiness_queue);
        set_readiness.drop(&mut poll.readiness_queue);
    }

    // Poll
    poll.poll_timeout(Some(Duration::from_millis(300)));
    let num = poll.poll(&mut events, Ok(false)).unwrap();

    assert_eq!(0, num);
    assert_eq!(0, readiness_node_count(&poll));
}

#[test]
fn handles_can_be_sent_and_shared() {
    let mut poll = new_poll();
    let (r, s) = Registration::new(&mut poll, Token(0), Ready::readable(), PollOpt::edge());
    ensure_send(&poll);
    ensure_send(&r);
    ensure_send(&s);
    ensure_sync(&s);
}

#[test]
fn a_new_poll_registers_its_awakener() {
    let awakener = Handle::new(false);
    let mut ids = QueueIds::new();
    let earlier = Poll::new(&mut ids, 7, &Handle::new(false)).unwrap();
    let poll = Poll::new(&mut ids, 7, &awakener).unwrap();
    assert_eq!(
        *awakener.asked.borrow(),
        vec![("register", Token(usize::MAX), Ready::readable(), PollOpt::edge())]
    );
    assert_eq!(earlier.readiness_queue.id(), 0);
    assert_eq!(poll.readiness_queue.id(), 1);
    assert!(!poll.readiness_queue.identical(&earlier.readiness_queue));
    assert!(poll.readiness_queue.is_empty());
    assert_eq!(readiness_node_count(&poll), 0);
}

#[test]
fn a_new_poll_fails_with_its_awakener() {
    let mut ids = QueueIds::new();
    assert!(Poll::new(&mut ids, 7, &Handle::new(true)).is_err());
    // The number is used up all the same.
    let poll = Poll::new(&mut ids, 7, &Handle::new(false)).unwrap();
    assert_eq!(poll.readiness_queue.id(), 1);
}

#[test]
fn arguments_are_validated() {
    assert!(validate_args(Token(0), Ready::readable()).is_ok());
    assert!(validate_args(Token(0), Ready::writable()).is_ok());
    assert!(validate_args(Token(AWAKEN - 1), Ready::all()).is_ok());
    assert!(matches!(
        validate_args(Token(usize::MAX), Ready::readable()),
        Err(Error::InvalidToken)
    ));
    // The token is looked at first.
    assert!(matches!(
        validate_args(Token(usize::MAX), Ready::none()),
        Err(Error::InvalidToken)
    ));
    for interest in [Ready::none(), Ready::error(), Ready::hup()] {
        assert!(matches!(
            validate_args(Token(1), interest),
            Err(Error::InvalidInterest)
        ));
    }
}

#[test]
fn refusals_have_their_messages() {
    assert_eq!(Error::InvalidToken.message(), Some("invalid token"));
    assert_eq!(
        Error::InvalidInterest.message(),
        Some("interest must include readable or writable")
    );
    assert_eq!(
        Error::OtherPoll.message(),
        Some("registration registered with another instance of Poll")
    );
    let e = Error::Io(io::Error::new(io::ErrorKind::Other, "x"));
    assert_eq!(e.message(), None);
}

#[test]
fn handles_are_registered_with_what_was_asked_for() {
    let mut poll = new_poll();
    let io = Handle::new(false);
    assert!(poll.register(&io, Token(1), Ready::readable(), PollOpt::edge()).is_ok());
    assert!(poll.reregister(&io, Token(2), Ready::all(), PollOpt::level()).is_ok());
    assert!(poll.deregister(&io).is_ok());
    assert_eq!(
        *io.asked.borrow(),
        vec![
            ("register", Token(1), Ready::readable(), PollOpt::edge()),
            ("reregister", Token(2), Ready::all(), PollOpt::level()),
            ("deregister", Token(0), Ready::none(), PollOpt::empty()),
        ]
    );
}

#[test]
fn refused_registrations_do_not_reach_the_handle() {
    let mut poll = new_poll();
    let io = Handle::new(false);
    assert!(matches!(
        poll.register(&io, Token(usize::MAX), Ready::readable(), PollOpt::edge()),
        Err(Error::InvalidToken)
    ));
    assert!(matches!(
        poll.reregister(&io, Token(1), Ready::hup(), PollOpt::edge()),
        Err(Error::InvalidInterest)
    ));
    assert!(io.asked.borrow().is_empty());
}

#[test]
fn the_failure_of_a_handle_is_handed_on() {
    let mut poll = new_poll();
    let io = Handle::new(true);
    assert!(matches!(
        poll.register(&io, Token(1), Ready::readable(), PollOpt::edge()),
        Err(Error::Io(_))
    ));
    assert!(matches!(
        poll.reregister(&io, Token(1), Ready::readable(), PollOpt::edge()),
        Err(Error::Io(_))
    ));
    assert!(matches!(poll.deregister(&io), Err(Error::Io(_))));
    assert_eq!(io.asked.borrow().len(), 3);
    assert!(answer(Ok(())).is_ok());
}

/// A custom type that makes its registration when it is registered.
struct Custom {
    made: RefCell<Option<(Registration, SetReadiness)>>,
}

impl Evented<u8> for Custom {
    fn register(
        &self,
        poll: &mut Poll<u8>,
        token: Token,
        interest: Ready,
        opts: PollOpt,
    ) -> Result<(), io::Error> {
        assert!(poll.readiness_queue.can_register());
        *self.made.borrow_mut() = Some(Registration::new(poll, token, interest, opts));
        Ok(())
    }

    fn reregister(
        &self,
        poll: &mut Poll<u8>,
        token: Token,
        interest: Ready,
        opts: PollOpt,
    ) -> Result<(), io::Error> {
        let made = self.made.borrow();
        let (r, _) = made.as_ref().unwrap();
        r.update(poll, token, interest, opts).map_err(|_| io::Error::from(io::ErrorKind::Other))
    }

    fn deregister(&self, poll: &mut Poll<u8>) -> Result<(), io::Error> {
        let made = self.made.borrow();
        let (r, _) = made.as_ref().unwrap();
        r.deregister(poll).map_err(|_| io::Error::from(io::ErrorKind::Other))
    }
}

#[test]
fn a_custom_type_makes_its_registration_when_it_is_registered() {
    let mut poll = new_poll();
    let mut events = Events::with_capacity(4);
    let io = Custom { made: RefCell::new(None) };
    assert!(poll.register(&io, Token(usize::MAX), Ready::readable(), PollOpt::edge()).is_err());
    assert!(io.made.borrow().is_none());
    assert_eq!(readiness_node_count(&poll), 0);

    assert!(poll.register(&io, Token(1), Ready::readable(), PollOpt::level()).is_ok());
    assert_eq!(readiness_node_count(&poll), 1);
    io.made.borrow().as_ref().unwrap().1.set_readiness(&mut poll.readiness_queue, Ready::all());
    assert_eq!(poll.poll(&mut events, Ok(false)).unwrap(), 1);
    assert_eq!(events.get(0), Some(Event::new(Ready::readable(), Token(1))));

    assert!(poll.reregister(&io, Token(2), Ready::writable(), PollOpt::level()).is_ok());
    events.clear();
    assert_eq!(poll.poll(&mut events, Ok(false)).unwrap(), 1);
    assert_eq!(events.get(0), Some(Event::new(Ready::writable(), Token(2))));

    assert!(poll.deregister(&io).is_ok());
    events.clear();
    assert_eq!(poll.poll(&mut events, Ok(false)).unwrap(), 0);
}

#[test]
fn a_cleanup_is_due_exactly_after_a_wakeup() {
    assert!(cleanup_due(&Ok(true)));
    assert!(!cleanup_due(&Ok(false)));
    assert!(!cleanup_due(&Err(io::Error::new(io::ErrorKind::Other, "no"))));
}

#[test]
fn the_selector_waits_only_if_the_queue_is_empty() {
    let long = Some(Duration::from_millis(300));
    let mut poll = new_poll();
    assert_eq!(poll.poll_timeout(long), long);
    assert_eq!(poll.poll_timeout(None), None);

    let (_r, s) = Registration::new(&mut poll, Token(0), Ready::readable(), PollOpt::edge());
    // The queue sleeps, so that the first push has to wake it up.
    assert!(s.set_readiness(&mut poll.readiness_queue, Ready::readable()));
    assert_eq!(poll.poll_timeout(long), Some(Duration::from_millis(0)));
    assert_eq!(poll.poll_timeout(None), Some(Duration::from_millis(0)));
    let short = Duration::from_millis(2);
    assert_eq!(poll.wait_limit(short, None), Some(short));
}

#[test]
fn a_poll_adds_to_the_events_of_the_selector() {
    let mut poll = new_poll();
    let mut events = Events::with_capacity(4);
    events.push_event(Event::new(Ready::hup(), Token(40)));
    let (_r, s) = Registration::new(&mut poll, Token(5), Ready::readable(), PollOpt::edge());
    s.set_readiness(&mut poll.readiness_queue, Ready::all());
    assert_eq!(poll.poll(&mut events, Ok(true)).unwrap(), 2);
    assert_eq!(events.len(), 2);
    assert!(!events.is_empty());
    assert_eq!(events.get(0), Some(Event::new(Ready::hup(), Token(40))));
    assert_eq!(events.get(1), Some(Event::new(Ready::readable(), Token(5))));
    assert_eq!(events.get(2), None);

    let mut iter = events.iter();
    assert_eq!(iter.next(), Some(Event::new(Ready::hup(), Token(40))));
    assert_eq!(iter.next(), Some(Event::new(Ready::readable(), Token(5))));
    assert_eq!(iter.next(), None);
    assert_eq!(iter.next(), None);
}

#[test]
fn a_poll_fails_with_the_selector() {
    let mut poll = new_poll();
    let mut events = Events::with_capacity(4);
    let (_r, s) = Registration::new(&mut poll, Token(5), Ready::readable(), PollOpt::edge());
    s.set_readiness(&mut poll.readiness_queue, Ready::all());
    let failed = poll.poll(&mut events, Err(io::Error::new(io::ErrorKind::Other, "no")));
    assert_eq!(failed.unwrap_err().to_string(), "no");
    assert!(events.is_empty());
    assert_eq!(poll.poll(&mut events, Ok(false)).unwrap(), 1);
}

#[test]
fn an_events_buffer_starts_blank() {
    let mut events = Events::with_capacity(1024);
    assert_eq!(events.capacity(), 1024);
    assert_eq!(events.len(), 0);
    assert!(events.is_empty());
    assert_eq!(events.get(0), None);
    events.push_event(Event::new(Ready::hup(), Token(1)));
    events.clear();
    assert!(events.is_empty());
    assert_eq!(events.capacity(), 1024);
}

#[test]
fn readiness_reads_back() {
    let mut poll = new_poll();
    let (_r, s) = Registration::new(&mut poll, Token(5), Ready::readable(), PollOpt::edge());
    assert_eq!(s.readiness(&poll.readiness_queue), Ready::none());
    for ready in [Ready::readable(), Ready::all(), Ready::none(), Ready::hup()] {
        s.set_readiness(&mut poll.readiness_queue, ready);
        assert_eq!(s.readiness(&poll.readiness_queue), ready);
    }
}

#[test]
fn updates_and_deregistrations() {
    let mut poll = new_poll();
    let mut events = Events::with_capacity(4);
    let (r, s) = Registration::new(&mut poll, Token(5), Ready::readable(), PollOpt::level());
    s.set_readiness(&mut poll.readiness_queue, Ready::all());
    assert!(r.update(&mut poll, Token(6), Ready::writable(), PollOpt::level()).is_ok());
    assert_eq!(poll.poll(&mut events, Ok(false)).unwrap(), 1);
    assert_eq!(events.get(0), Some(Event::new(Ready::writable(), Token(6))));

    assert!(r.deregister(&mut poll).is_ok());
    events.clear();
    assert_eq!(poll.poll(&mut events, Ok(false)).unwrap(), 0);
    s.set_readiness(&mut poll.readiness_queue, Ready::all());
    assert_eq!(poll.poll(&mut events, Ok(false)).unwrap(), 0);
}

#[test]
fn a_registration_knows_its_poll() {
    let mut ids = QueueIds::new();
    let mut poll = Poll::new(&mut ids, 7, &Handle::new(false)).unwrap();
    let mut other = Poll::new(&mut ids, 7, &Handle::new(false)).unwrap();
    let (r, _s) = Registration::new(&mut poll, Token(5), Ready::readable(), PollOpt::level());
    assert!(matches!(
        r.update(&mut other, Token(6), Ready::writable(), PollOpt::level()),
        Err(Error::OtherPoll)
    ));
    assert!(matches!(r.deregister(&mut other), Err(Error::OtherPoll)));
}

#[test]
fn a_node_lives_as_long_as_a_set_readiness_handle() {
    let mut poll = new_poll();
    let mut events = Events::with_capacity(4);
    let (r, s) = Registration::new(&mut poll, Token(5), Ready::readable(), PollOpt::level());
    assert!(s.can_clone(&poll.readiness_queue));
    let t: SetReadiness = s.clone(&mut poll.readiness_queue);
    assert!(!s.drop(&mut poll.readiness_queue));
    // One of two is left: the node is not flagged.
    t.set_readiness(&mut poll.readiness_queue, Ready::readable());
    assert_eq!(poll.poll(&mut events, Ok(false)).unwrap(), 1);
    assert!(!t.drop(&mut poll.readiness_queue));
    events.clear();
    assert_eq!(poll.poll(&mut events, Ok(false)).unwrap(), 0);
    assert_eq!(readiness_node_count(&poll), 1);
    assert!(!r.drop(&mut poll.readiness_queue));
    assert_eq!(readiness_node_count(&poll), 0);
}
