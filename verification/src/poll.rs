//! The `Poll` handle: registration of handles, and the turns of the event loop.
use std::time::Duration;

use vstd::prelude::*;

use crate::event::{PollOpt, Ready, Token};
use crate::events::Events;
use crate::model::QueueModel;
use crate::queue::{QueueIds, ReadinessQueue};

verus! {

/// The number of the token that the poll handle keeps for itself, to be woken
/// up by.
pub const AWAKEN: usize = usize::MAX;

/// `std::io::Error`, by which a handle says why it has failed. It is carried
/// along and never looked into.
#[verifier::external_type_specification]
#[verifier::external_body]
pub struct ExIoError(std::io::Error);

/// The duration that `std::time::Duration::from_millis` makes of a number of
/// milliseconds.
pub uninterp spec fn duration_of_millis(millis: u64) -> Duration;

/// `std::time::Duration::from_millis` makes the same duration of the same
/// number of milliseconds.
pub assume_specification[ std::time::Duration::from_millis ](millis: u64) -> (r: Duration)
    ensures
        r == duration_of_millis(millis),
;

/// Why a request was refused.
#[derive(Debug)]
pub enum Error {
    /// The token is the one that the poll handle keeps for itself.
    InvalidToken,
    /// The interest includes neither readable nor writable.
    InvalidInterest,
    /// The registration was made with another poll handle.
    OtherPoll,
    /// The handle to be registered has failed.
    Io(std::io::Error),
}

impl Error {
    /// What the library has to say of a refusal of its own, `None` for the
    /// failure of a handle.
    pub fn message(&self) -> (r: Option<&'static str>)
        ensures
            match self {
                Error::InvalidToken => r == Some("invalid token"),
                Error::InvalidInterest => r == Some("interest must include readable or writable"),
                Error::OtherPoll => r == Some("registration registered with another instance of Poll"),
                Error::Io(_) => r is None,
            },
    {
        match self {
            Error::InvalidToken => Some("invalid token"),
            Error::InvalidInterest => Some("interest must include readable or writable"),
            Error::OtherPoll => Some("registration registered with another instance of Poll"),
            Error::Io(_) => None,
        }
    }
}

/// What a handle's own registration has come to, as an answer to the request.
pub fn answer(outcome: Result<(), std::io::Error>) -> (r: Result<(), Error>)
    ensures
        r == match outcome {
            Ok(done) => Ok::<(), Error>(done),
            Err(e) => Err(Error::Io(e)),
        },
{
    match outcome {
        Ok(done) => Ok(done),
        Err(e) => Err(Error::Io(e)),
    }
}

/// Why a registration with this token and this interest is refused, if it is.
pub open spec fn refusal(token: Token, interest: Ready) -> Option<Error> {
    if token.0 == AWAKEN {
        Some(Error::InvalidToken)
    } else if !interest.readable && !interest.writable {
        Some(Error::InvalidInterest)
    } else {
        None
    }
}

/// A request is refused exactly if its token is the largest number or its interest
/// holds neither the readable nor the writable kind, for the token where it is for
/// both.
pub proof fn a_request_is_refused_by_its_token_or_its_interest(token: Token, interest: Ready)
    ensures
        refusal(token, interest) is None <==> token.0 != usize::MAX && (interest.readable
            || interest.writable),
        refusal(token, interest) == Some(Error::InvalidToken) <==> token.0 == usize::MAX,
        refusal(token, interest) == Some(Error::InvalidInterest) <==> token.0 != usize::MAX
            && !interest.readable && !interest.writable,
{
}

/// Refuses the token that the poll handle keeps for itself, and an interest that
/// includes neither readable nor writable.
pub fn validate_args(token: Token, interest: Ready) -> (r: Result<(), Error>)
    ensures
        r == match refusal(token, interest) {
            Some(e) => Err::<(), Error>(e),
            None => Ok(()),
        },
        r is Err <==> token.0 == usize::MAX || (!interest.readable && !interest.writable),
        r == Err::<(), Error>(Error::InvalidToken) <==> token.0 == usize::MAX,
        r == Err::<(), Error>(Error::InvalidInterest) <==> token.0 != usize::MAX
            && !interest.readable && !interest.writable,
{
    if token.0 == AWAKEN {
        return Err(Error::InvalidToken);
    }
    if !interest.is_readable() && !interest.is_writable() {
        return Err(Error::InvalidInterest);
    }
    Ok(())
}

/// The interest with which a poll handle registers what wakes it up.
pub open spec fn awakener_interest() -> Ready {
    Ready { readable: true, writable: false, error: false, hup: false }
}

/// The options with which a poll handle registers what wakes it up.
pub open spec fn awakener_opts() -> PollOpt {
    PollOpt { edge: true, level: false, oneshot: false, urgent: false }
}

/// A handle that can be registered with a [`Poll`] whose selector is an `S`.
///
/// It may make, update and drop registrations of its own with the poll handle, and
/// leaves the readiness queue in order.
pub trait Evented<S> {
    /// Whether `register` may turn `before` into `after` and come to `outcome`. A handle
    /// that says nothing of it may do anything.
    open spec fn registers(
        &self,
        before: Poll<S>,
        token: Token,
        interest: Ready,
        opts: PollOpt,
        after: Poll<S>,
        outcome: Result<(), std::io::Error>,
    ) -> bool {
        true
    }

    /// Whether `reregister` may turn `before` into `after` and come to `outcome`.
    open spec fn reregisters(
        &self,
        before: Poll<S>,
        token: Token,
        interest: Ready,
        opts: PollOpt,
        after: Poll<S>,
        outcome: Result<(), std::io::Error>,
    ) -> bool {
        true
    }

    /// Whether `deregister` may turn `before` into `after` and come to `outcome`.
    open spec fn deregisters(
        &self,
        before: Poll<S>,
        after: Poll<S>,
        outcome: Result<(), std::io::Error>,
    ) -> bool {
        true
    }

    /// Registers the handle with `poll`.
    fn register(&self, poll: &mut Poll<S>, token: Token, interest: Ready, opts: PollOpt) -> (r: Result<
        (),
        std::io::Error,
    >)
        requires
            old(poll).readiness_queue.wf(),
        ensures
            self.registers(*old(poll), token, interest, opts, *final(poll), r),
            final(poll).readiness_queue.wf(),
            final(poll).readiness_queue@.same_queue(old(poll).readiness_queue@),
    ;

    /// Registers the handle with `poll` anew.
    fn reregister(&self, poll: &mut Poll<S>, token: Token, interest: Ready, opts: PollOpt) -> (r:
        Result<(), std::io::Error>)
        requires
            old(poll).readiness_queue.wf(),
        ensures
            self.reregisters(*old(poll), token, interest, opts, *final(poll), r),
            final(poll).readiness_queue.wf(),
            final(poll).readiness_queue@.same_queue(old(poll).readiness_queue@),
    ;

    /// Takes back the registration of the handle with `poll`.
    fn deregister(&self, poll: &mut Poll<S>) -> (r: Result<(), std::io::Error>)
        requires
            old(poll).readiness_queue.wf(),
        ensures
            self.deregisters(*old(poll), *final(poll), r),
            final(poll).readiness_queue.wf(),
            final(poll).readiness_queue@.same_queue(old(poll).readiness_queue@),
    ;
}

/// Polls for readiness events on all registered values.
///
/// The selector is what waits for the operating system's events. It is carried
/// along for the handles that register with it.
pub struct Poll<S> {
    pub selector: S,
    pub readiness_queue: ReadinessQueue,
}

/// The selector of a poll handle.
pub fn selector<S>(poll: &Poll<S>) -> (r: &S)
    ensures
        *r == poll.selector,
{
    &poll.selector
}

/// Whether the awakener has to be cleaned up after the selector has returned:
/// it has, exactly if the selector was awoken.
pub fn cleanup_due(selected: &Result<bool, std::io::Error>) -> (r: bool)
    ensures
        r == (selected matches Ok(awoken) && *awoken),
{
    match selected {
        Ok(awoken) => *awoken,
        Err(_) => false,
    }
}

impl<S> Poll<S> {
    /// A poll handle with which nothing has happened yet.
    pub open spec fn is_new(&self, source: int, id: u64, selector: S) -> bool {
        &&& self.selector == selector
        &&& self.readiness_queue.wf()
        &&& self.readiness_queue@ == QueueModel::initial(source, id)
    }

    /// What the registration of `awakener`, which has come to `outcome`, leaves of
    /// a poll handle with which nothing else has happened yet. It is asked for
    /// readiness to be read, edge-triggered, under the poll handle's own token.
    pub open spec fn is_made<A: Evented<S>>(
        self,
        source: int,
        id: u64,
        selector: S,
        awakener: A,
        outcome: Result<(), std::io::Error>,
    ) -> bool {
        exists|fresh: Poll<S>| #[trigger]
            fresh.is_new(source, id, selector) && awakener.registers(
                fresh,
                Token(AWAKEN),
                awakener_interest(),
                awakener_opts(),
                self,
                outcome,
            )
    }

    /// A new poll handle, with an empty queue numbered from `ids`, once the handle
    /// that wakes it up is registered with it.
    pub fn new<A: Evented<S>>(ids: &mut QueueIds, selector: S, awakener: &A) -> (r: Result<
        Poll<S>,
        std::io::Error,
    >)
        requires
            old(ids).upcoming() < u64::MAX,
        ensures
            final(ids).upcoming() == old(ids).upcoming() + 1,
            final(ids).source() == old(ids).source(),
            match r {
                Ok(poll) => {
                    &&& poll.readiness_queue.wf()
                    &&& poll.readiness_queue@.source == old(ids).source()
                    &&& poll.readiness_queue@.id == old(ids).upcoming()
                    &&& poll.is_made(
                        old(ids).source(),
                        old(ids).upcoming(),
                        selector,
                        *awakener,
                        Ok(()),
                    )
                },
                Err(e) => exists|poll: Poll<S>| #[trigger]
                    poll.is_made(
                        old(ids).source(),
                        old(ids).upcoming(),
                        selector,
                        *awakener,
                        Err(e),
                    ),
            },
    {
        let mut poll = Poll { selector, readiness_queue: ReadinessQueue::new(ids) };
        assert(poll.is_new(old(ids).source(), old(ids).upcoming(), selector));

        // Register the handle that wakes up
        let outcome = awakener.register(
            &mut poll,
            Token(AWAKEN),
            Ready::readable(),
            PollOpt::edge(),
        );
        assert(poll.is_made(
            old(ids).source(),
            old(ids).upcoming(),
            selector,
            *awakener,
            outcome,
        ));
        match outcome {
            Ok(done) => {
                assert(done == ());
                Ok(poll)
            },
            Err(e) => {
                let failed: Result<Poll<S>, std::io::Error> = Err(e);
                assert(poll.is_made(
                    old(ids).source(),
                    old(ids).upcoming(),
                    selector,
                    *awakener,
                    Err(failed->Err_0),
                ));
                failed
            },
        }
    }

    /// Registers a handle. A request that is refused does not reach the handle.
    pub fn register<E: Evented<S> + ?Sized>(
        &mut self,
        io: &E,
        token: Token,
        interest: Ready,
        opts: PollOpt,
    ) -> (r: Result<(), Error>)
        requires
            old(self).readiness_queue.wf(),
        ensures
            final(self).readiness_queue.wf(),
            final(self).readiness_queue@.same_queue(old(self).readiness_queue@),
            match refusal(token, interest) {
                Some(e) => r == Err::<(), Error>(e) && *final(self) == *old(self),
                None => match r {
                    Ok(done) => io.registers(
                        *old(self),
                        token,
                        interest,
                        opts,
                        *final(self),
                        Ok(done),
                    ),
                    Err(Error::Io(e)) => io.registers(
                        *old(self),
                        token,
                        interest,
                        opts,
                        *final(self),
                        Err(e),
                    ),
                    Err(_) => false,
                },
            },
            token.0 == usize::MAX ==> r == Err::<(), Error>(Error::InvalidToken) && *final(self)
                == *old(self),
            token.0 != usize::MAX && !interest.readable && !interest.writable ==> r == Err::<
                (),
                Error,
            >(Error::InvalidInterest) && *final(self) == *old(self),
            token.0 != usize::MAX && (interest.readable || interest.writable) ==> match r {
                Ok(done) => io.registers(*old(self), token, interest, opts, *final(self), Ok(done)),
                Err(Error::Io(e)) => io.registers(
                    *old(self),
                    token,
                    interest,
                    opts,
                    *final(self),
                    Err(e),
                ),
                Err(_) => false,
            },
    {
        match validate_args(token, interest) {
            Err(e) => Err(e),
            Ok(()) => answer(io.register(self, token, interest, opts)),
        }
    }

    /// Registers a handle anew. A request that is refused does not reach the handle.
    pub fn reregister<E: Evented<S> + ?Sized>(
        &mut self,
        io: &E,
        token: Token,
        interest: Ready,
        opts: PollOpt,
    ) -> (r: Result<(), Error>)
        requires
            old(self).readiness_queue.wf(),
        ensures
            final(self).readiness_queue.wf(),
            final(self).readiness_queue@.same_queue(old(self).readiness_queue@),
            match refusal(token, interest) {
                Some(e) => r == Err::<(), Error>(e) && *final(self) == *old(self),
                None => match r {
                    Ok(done) => io.reregisters(
                        *old(self),
                        token,
                        interest,
                        opts,
                        *final(self),
                        Ok(done),
                    ),
                    Err(Error::Io(e)) => io.reregisters(
                        *old(self),
                        token,
                        interest,
                        opts,
                        *final(self),
                        Err(e),
                    ),
                    Err(_) => false,
                },
            },
            token.0 == usize::MAX ==> r == Err::<(), Error>(Error::InvalidToken) && *final(self)
                == *old(self),
            token.0 != usize::MAX && !interest.readable && !interest.writable ==> r == Err::<
                (),
                Error,
            >(Error::InvalidInterest) && *final(self) == *old(self),
            token.0 != usize::MAX && (interest.readable || interest.writable) ==> match r {
                Ok(done) => io.reregisters(*old(self), token, interest, opts, *final(self), Ok(done)),
                Err(Error::Io(e)) => io.reregisters(
                    *old(self),
                    token,
                    interest,
                    opts,
                    *final(self),
                    Err(e),
                ),
                Err(_) => false,
            },
    {
        match validate_args(token, interest) {
            Err(e) => Err(e),
            Ok(()) => answer(io.reregister(self, token, interest, opts)),
        }
    }

    /// Takes back the registration of a handle.
    pub fn deregister<E: Evented<S> + ?Sized>(&mut self, io: &E) -> (r: Result<(), Error>)
        requires
            old(self).readiness_queue.wf(),
        ensures
            final(self).readiness_queue.wf(),
            final(self).readiness_queue@.same_queue(old(self).readiness_queue@),
            match r {
                Ok(done) => io.deregisters(*old(self), *final(self), Ok(done)),
                Err(Error::Io(e)) => io.deregisters(*old(self), *final(self), Err(e)),
                Err(_) => false,
            },
    {
        answer(io.deregister(self))
    }

    /// How long the selector may wait in the turn that begins, `timeout` being
    /// how long the caller is willing to, and `at_once` what the selector is told
    /// in order not to wait: it does not wait if nodes are in the readiness
    /// queue. Where it may wait, the queue has gone to sleep.
    pub fn wait_limit(&mut self, at_once: Duration, timeout: Option<Duration>) -> (r: Option<
        Duration,
    >)
        requires
            old(self).readiness_queue.wf(),
        ensures
            final(self).readiness_queue.wf(),
            final(self).readiness_queue@ == old(self).readiness_queue@.put_to_sleep(),
            old(self).readiness_queue@.order.len() == 1 ==> final(self).readiness_queue@.asleep(),
            final(self).selector == old(self).selector,
            r == if old(self).readiness_queue@.order.len() > 1 {
                Some(at_once)
            } else {
                timeout
            },
    {
        if !self.readiness_queue.is_empty() {
            // Never block if the readiness queue has pending events
            Some(at_once)
        } else if !self.readiness_queue.prepare_for_sleep() {
            Some(at_once)
        } else {
            timeout
        }
    }

    /// How long the selector may wait in the turn that begins, `timeout` being
    /// how long the caller is willing to: no time at all if nodes are in the
    /// readiness queue.
    pub fn poll_timeout(&mut self, timeout: Option<Duration>) -> (r: Option<Duration>)
        requires
            old(self).readiness_queue.wf(),
        ensures
            final(self).readiness_queue.wf(),
            final(self).readiness_queue@ == old(self).readiness_queue@.put_to_sleep(),
            old(self).readiness_queue@.order.len() == 1 ==> final(self).readiness_queue@.asleep(),
            final(self).selector == old(self).selector,
            r == if old(self).readiness_queue@.order.len() > 1 {
                Some(duration_of_millis(0))
            } else {
                timeout
            },
    {
        self.wait_limit(Duration::from_millis(0), timeout)
    }

    /// Ends a turn, of which the selector has put its events in `events`, unless
    /// it has failed: adds the events of the readiness queue, and returns how
    /// many there are. The outcome of the selector is whether the turn was cut
    /// short by a wakeup, which has been cleaned up after.
    pub fn poll(&mut self, events: &mut Events, selected: Result<bool, std::io::Error>) -> (r: Result<
        usize,
        std::io::Error,
    >)
        requires
            old(self).readiness_queue.wf(),
        ensures
            final(self).readiness_queue.wf(),
            final(self).selector == old(self).selector,
            final(events).room() == old(events).room(),
            match selected {
                Ok(_) => {
                    &&& r == Ok::<usize, std::io::Error>(final(events)@.len() as usize)
                    &&& final(events)@.len() <= usize::MAX
                    &&& final(events)@ == old(events)@ + crate::model::told(
                        old(self).readiness_queue@.nodes,
                        old(self).readiness_queue@.due(),
                    )
                    &&& final(self).readiness_queue@ == old(self).readiness_queue@.polled()
                },
                Err(e) => {
                    &&& r == Err::<usize, std::io::Error>(e)
                    &&& final(events)@ == old(events)@
                    &&& final(self).readiness_queue@ == old(self).readiness_queue@
                },
            },
    {
        match selected {
            Err(e) => Err(e),
            Ok(_) => {
                // Poll custom event queue
                self.readiness_queue.poll(events);

                // Return number of polled events
                Ok(events.len())
            },
        }
    }
}

/// The handle that wakes a poll handle up is registered once, with a poll handle
/// whose queue is empty, under the largest token, for readiness to be read, and
/// edge-triggered.
pub proof fn the_awakener_is_registered_for_reading_by_edge<S, A: Evented<S>>(
    poll: Poll<S>,
    source: int,
    id: u64,
    selector: S,
    awakener: A,
    outcome: Result<(), std::io::Error>,
)
    ensures
        poll.is_made(source, id, selector, awakener, outcome) ==> exists|fresh: Poll<S>|
            {
                &&& fresh.selector == selector
                &&& fresh.readiness_queue@.order == seq![0u64]
                &&& fresh.readiness_queue@.id == id
                &&& fresh.readiness_queue@.source == source
                &&& #[trigger] awakener.registers(
                    fresh,
                    Token(usize::MAX),
                    Ready { readable: true, writable: false, error: false, hup: false },
                    PollOpt { edge: true, level: false, oneshot: false, urgent: false },
                    poll,
                    outcome,
                )
            },
{
    if poll.is_made(source, id, selector, awakener, outcome) {
        let fresh = choose|fresh: Poll<S>| #[trigger]
            fresh.is_new(source, id, selector) && awakener.registers(
                fresh,
                Token(AWAKEN),
                awakener_interest(),
                awakener_opts(),
                poll,
                outcome,
            );
        assert(awakener.registers(
            fresh,
            Token(usize::MAX),
            Ready { readable: true, writable: false, error: false, hup: false },
            PollOpt { edge: true, level: false, oneshot: false, urgent: false },
            poll,
            outcome,
        ));
    }
}

} // verus!
