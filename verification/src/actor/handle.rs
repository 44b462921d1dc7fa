//! What a handle of an actor decides: identity, how full the mailbox is, and which error a caller
//! gets.

use vstd::prelude::*;
use vstd::std_specs::cmp::PartialEqSpec;
use crate::actor::runtime::deadline_after;
use crate::error::{ActorError, AskError, SendError, TrySendError};
use crate::time::{Duration, Instant};
use crate::types::{ActorId, ActorStatus, LaneChange, StopLane, StopReason};

verus! {

/// The plain part of a handle that callers use to communicate with an actor.
///
/// Two handles are equal if they are handles of the same actor: one with the same ID in the same
/// system. A child that was restarted is the same actor, although its channels are new.
#[derive(Debug)]
pub struct ActorHandle {
    id: ActorId,
    system_name: String,
    mailbox_capacity: usize,
    stop_lane: StopLane,
}

/// What an [`ActorHandle`] holds. The ID and the name of the system identify the actor.
pub struct HandleView {
    /// The actor's ID.
    pub id: Seq<char>,
    /// The name of the system that the actor is registered in.
    pub system_name: Seq<char>,
    /// How many messages the actor's mailbox can hold.
    pub mailbox_capacity: usize,
    /// The actor's stop lane.
    pub stop_lane: StopLane,
}

impl View for ActorHandle {
    type V = HandleView;

    closed spec fn view(&self) -> HandleView {
        HandleView {
            id: self.id@,
            system_name: self.system_name@,
            mailbox_capacity: self.mailbox_capacity,
            stop_lane: self.stop_lane,
        }
    }
}

impl Clone for ActorHandle {
    fn clone(&self) -> (copy: Self)
        ensures
            copy@ == self@,
    {
        ActorHandle {
            id: self.id.clone(),
            system_name: self.system_name.clone(),
            mailbox_capacity: self.mailbox_capacity,
            stop_lane: self.stop_lane.clone(),
        }
    }
}

impl PartialEq for ActorHandle {
    fn eq(&self, other: &Self) -> (same: bool) {
        self.id == other.id && self.system_name == other.system_name
    }
}

impl vstd::std_specs::cmp::PartialEqSpecImpl for ActorHandle {
    open spec fn obeys_eq_spec() -> bool {
        true
    }

    open spec fn eq_spec(&self, other: &Self) -> bool {
        self@.id == other@.id && self@.system_name == other@.system_name
    }
}

impl Eq for ActorHandle {
}

impl ActorHandle {
    /// The handle of an actor.
    pub fn new(id: ActorId, system_name: String, mailbox_capacity: usize, stop_lane: StopLane) -> (handle:
        Self)
        ensures
            handle@ == (HandleView {
                id: id@,
                system_name: system_name@,
                mailbox_capacity,
                stop_lane,
            }),
    {
        ActorHandle { id, system_name, mailbox_capacity, stop_lane }
    }

    /// Returns the unique identifier of the actor.
    pub fn id(&self) -> (id: &ActorId)
        ensures
            id@ == self@.id,
    {
        &self.id
    }

    /// Returns the name of the system that the actor is registered in.
    pub fn system_name(&self) -> (name: &str)
        ensures
            name@ == self@.system_name,
    {
        self.system_name.as_str()
    }

    /// Returns a sender of the actor's stop lane.
    pub fn stop_lane(&self) -> (lane: StopLane)
        ensures
            lane == self@.stop_lane,
    {
        self.stop_lane.clone()
    }

    /// Returns the total capacity of the actor's mailbox.
    pub fn mailbox_capacity(&self) -> (capacity: usize)
        ensures
            capacity == self@.mailbox_capacity,
    {
        self.mailbox_capacity
    }

    /// Returns the number of messages in the mailbox, where `available` slots are free.
    pub fn mailbox_len(&self, available: usize) -> (len: usize)
        requires
            available <= self@.mailbox_capacity,
        ensures
            len + available == self@.mailbox_capacity,
    {
        self.mailbox_capacity - available
    }

    /// Signals the actor to stop: the request is raised on its stop lane, unless the actor has
    /// finished its message loop. Whether it has, and which request its lane holds already, others
    /// decide: see [`stop_outcome`] for the answer, and [`stop_request`] for what is raised.
    pub fn stop(&self, reason: StopReason) -> (outcome: Result<(), SendError>)
        ensures
            outcome is Ok || outcome == Err::<(), SendError>(SendError::Closed),
            outcome is Ok ==> exists|change: LaneChange| #[trigger]
                self@.stop_lane.made(change) && change.after == change.before.raised(reason),
    {
        let closed: bool = self.stop_lane.is_closed();
        if let Some(request) = stop_request(closed, reason) {
            let change: LaneChange = self.stop_lane.raise(request);
            assert(self@.stop_lane.made(change));
        }
        stop_outcome(closed)
    }
}

/// What is raised on the stop lane for a request to stop, by whether the actor has finished its
/// message loop.
pub fn stop_request(closed: bool, reason: StopReason) -> (request: Option<StopReason>)
    ensures
        request == if closed {
            None
        } else {
            Some(reason)
        },
{
    if closed {
        None
    } else {
        Some(reason)
    }
}

/// The answer to a request to stop, by whether the actor has finished its message loop.
pub fn stop_outcome(closed: bool) -> (outcome: Result<(), SendError>)
    ensures
        outcome == if closed {
            Err::<(), SendError>(SendError::Closed)
        } else {
            Ok::<(), SendError>(())
        },
{
    if closed {
        Err(SendError::Closed)
    } else {
        Ok(())
    }
}

/// Whether an actor counts as stopped for whoever waits for that: its status says so, or nobody is
/// left who could say so.
pub fn counts_as_stopped(status: ActorStatus, sender_gone: bool) -> (stopped: bool)
    ensures
        stopped == (status == ActorStatus::Stopped || sender_gone),
{
    status == ActorStatus::Stopped || sender_gone
}

// ---------------------------------------------------------------------------
// Requests
// ---------------------------------------------------------------------------

/// Two handles are the same exactly if they are handles of one ID in one system, whatever their
/// mailboxes and lanes are.
pub proof fn handles_are_equal_by_their_actor(one: ActorHandle, other: ActorHandle)
    ensures
        one.eq_spec(&other) <==> one@.id == other@.id && one@.system_name == other@.system_name,
{
}

/// What became of a message that was put into a mailbox.
#[derive(Debug, Clone, Copy, PartialEq, Eq, Structural)]
pub enum EnqueueOutcome {
    /// The mailbox took it.
    Accepted,
    /// The mailbox is full.
    Full,
    /// The mailbox is closed.
    Closed,
    /// The mailbox had no room for it until the deadline.
    TimedOut,
}

/// What became of the reply to a request.
#[derive(Debug)]
pub enum ReplyOutcome<R> {
    /// The handler returned.
    Replied(Result<R, ActorError>),
    /// The actor stopped without a reply.
    Dropped,
    /// There was no reply until the deadline.
    TimedOut,
}

/// What a caller that sends a message, and waits for room, gets to know.
pub open spec fn told(outcome: EnqueueOutcome) -> Result<(), SendError> {
    if outcome == EnqueueOutcome::Accepted {
        Ok(())
    } else {
        Err(SendError::Closed)
    }
}

/// What a caller that sends a message without waiting for room gets to know.
pub open spec fn told_at_once(outcome: EnqueueOutcome) -> Result<(), TrySendError> {
    match outcome {
        EnqueueOutcome::Accepted => Ok(()),
        EnqueueOutcome::Closed => Err(TrySendError::Closed),
        _ => Err(TrySendError::Full),
    }
}

/// What a caller that sends a message, and waits for room, gets to know.
pub fn notify_outcome(outcome: EnqueueOutcome) -> (result: Result<(), SendError>)
    ensures
        result == told(outcome),
{
    match outcome {
        EnqueueOutcome::Accepted => Ok(()),
        _ => Err(SendError::Closed),
    }
}

/// What a caller that sends a message without waiting for room gets to know.
pub fn try_notify_outcome(outcome: EnqueueOutcome) -> (result: Result<(), TrySendError>)
    ensures
        result == told_at_once(outcome),
{
    match outcome {
        EnqueueOutcome::Accepted => Ok(()),
        EnqueueOutcome::Full | EnqueueOutcome::TimedOut => Err(TrySendError::Full),
        EnqueueOutcome::Closed => Err(TrySendError::Closed),
    }
}

/// What the caller of a request gets, by what became of the request and of its reply. Only a
/// request that the mailbox took can get a reply.
pub open spec fn asked_for<R>(enqueued: EnqueueOutcome, reply: ReplyOutcome<R>) -> Result<
    R,
    AskError,
> {
    match enqueued {
        EnqueueOutcome::Accepted => match reply {
            ReplyOutcome::Replied(Ok(response)) => Ok(response),
            ReplyOutcome::Replied(Err(err)) => Err(AskError::Actor(err)),
            ReplyOutcome::Dropped => Err(AskError::ResponseDropped),
            ReplyOutcome::TimedOut => Err(AskError::Timeout { enqueued: true }),
        },
        EnqueueOutcome::Closed => Err(AskError::Closed),
        _ => Err(AskError::Timeout { enqueued: false }),
    }
}

/// What the caller of a request gets where the mailbox did not take it; nothing yet where it did.
pub open spec fn refused_with(outcome: EnqueueOutcome) -> Option<AskError> {
    match outcome {
        EnqueueOutcome::Accepted => None,
        EnqueueOutcome::Closed => Some(AskError::Closed),
        _ => Some(AskError::Timeout { enqueued: false }),
    }
}

/// What the caller of a request gets where the mailbox did not take it; nothing yet where it did.
pub fn enqueue_error(outcome: EnqueueOutcome) -> (err: Option<AskError>)
    ensures
        err == refused_with(outcome),
{
    match outcome {
        EnqueueOutcome::Accepted => None,
        EnqueueOutcome::Closed => Some(AskError::Closed),
        EnqueueOutcome::Full | EnqueueOutcome::TimedOut => Some(
            AskError::Timeout { enqueued: false },
        ),
    }
}

/// What the caller of a request gets that the mailbox took.
pub fn ask_outcome<R>(reply: ReplyOutcome<R>) -> (result: Result<R, AskError>)
    ensures
        result == asked_for(EnqueueOutcome::Accepted, reply),
{
    match reply {
        ReplyOutcome::Replied(Ok(response)) => Ok(response),
        ReplyOutcome::Replied(Err(err)) => Err(AskError::Actor(err)),
        ReplyOutcome::Dropped => Err(AskError::ResponseDropped),
        ReplyOutcome::TimedOut => Err(AskError::Timeout { enqueued: true }),
    }
}

/// How long it takes from `now` until a deadline; nothing where it has passed.
pub open spec fn until(deadline: Instant, now: Instant) -> Duration {
    if now.nanos <= deadline.nanos {
        Duration { nanos: (deadline.nanos - now.nanos) as u128 }
    } else {
        Duration { nanos: 0 }
    }
}

/// How long a request may still take until its deadline.
pub fn time_left(deadline: Instant, now: Instant) -> (left: Duration)
    ensures
        left == until(deadline, now),
{
    deadline.saturating_duration_since(now)
}

/// One deadline holds for the whole of a request: as long as the clock reaches, the time that is left
/// and the time that has passed add up to the time that the request may take, and nothing is left
/// once that has passed.
pub proof fn one_deadline_spans_the_request(start: Instant, timeout: Duration, now: Instant)
    requires
        start.nanos <= now.nanos,
        start.nanos + timeout.nanos <= u128::MAX,
    ensures
        ({
            let left = until(deadline_after(start, timeout), now);
            let passed = now.nanos - start.nanos;
            &&& passed <= timeout.nanos ==> left.nanos + passed == timeout.nanos
            &&& passed >= timeout.nanos <==> left.nanos == 0
        }),
{
}

/// A reply is handed on as it is. Of a request that the mailbox took, the caller gets the response
/// exactly if the handler's reply is that response, the actor's error exactly if the reply is that
/// error, whatever error it is, `ResponseDropped` exactly if the actor stopped without a reply, and a
/// timeout exactly if the deadline came first.
pub proof fn replies_are_handed_on<R>(
    reply: ReplyOutcome<R>,
    response: R,
    err: ActorError,
)
    ensures
        ({
            let result = asked_for(EnqueueOutcome::Accepted, reply);
            &&& result == Ok::<R, AskError>(response) <==> reply == ReplyOutcome::Replied(
                Ok::<R, ActorError>(response),
            )
            &&& result == Err::<R, AskError>(AskError::Actor(err)) <==> reply
                == ReplyOutcome::Replied(Err::<R, ActorError>(err))
            &&& result == Err::<R, AskError>(AskError::ResponseDropped) <==> reply
                == ReplyOutcome::<R>::Dropped
            &&& result == Err::<R, AskError>(AskError::Timeout { enqueued: true }) <==> reply
                == ReplyOutcome::<R>::TimedOut
        }),
{
}

/// A request that the mailbox did not take gets no reply: the caller is told that the mailbox is
/// closed exactly if it is, and that there was no room in time otherwise, whatever else happens.
pub proof fn refusals_are_told_as_they_are<R>(enqueued: EnqueueOutcome, reply: ReplyOutcome<R>)
    ensures
        enqueued == EnqueueOutcome::Closed <==> asked_for(enqueued, reply) == Err::<R, AskError>(
            AskError::Closed,
        ),
        enqueued == EnqueueOutcome::TimedOut ==> asked_for(enqueued, reply) == Err::<R, AskError>(
            AskError::Timeout { enqueued: false },
        ),
        enqueued != EnqueueOutcome::Accepted ==> asked_for(enqueued, reply) == Err::<R, AskError>(
            refused_with(enqueued)->0,
        ),
        refused_with(enqueued) is None <==> enqueued == EnqueueOutcome::Accepted,
        told(enqueued) is Ok <==> enqueued == EnqueueOutcome::Accepted,
        told(enqueued) is Err ==> told(enqueued)->Err_0 == SendError::Closed,
        told_at_once(enqueued) is Ok <==> enqueued == EnqueueOutcome::Accepted,
        told_at_once(enqueued) == Err::<(), TrySendError>(TrySendError::Closed) <==> enqueued
            == EnqueueOutcome::Closed,
        enqueued == EnqueueOutcome::Full ==> told_at_once(enqueued) == Err::<(), TrySendError>(
            TrySendError::Full,
        ),
{
}

/// A request that was refused before it entered the mailbox is told apart from one that may have
/// been processed: `Closed`, and `Timeout` while `enqueued` is false, come only where the mailbox
/// did not take the request, and nothing else does.
pub proof fn refused_requests_are_told_apart<R>(enqueued: EnqueueOutcome, reply: ReplyOutcome<R>)
    ensures
        enqueued != EnqueueOutcome::Accepted <==> {
            let result = asked_for(enqueued, reply);
            result is Err && (result->Err_0 is Closed || result->Err_0 == (AskError::Timeout {
                enqueued: false,
            }))
        },
{
}

// ---------------------------------------------------------------------------
// Dispatch
// ---------------------------------------------------------------------------

/// How the handler of a message ended.
#[derive(Debug)]
pub enum HandlerOutcome<R> {
    /// It returned a response.
    Returned(R),
    /// It returned an error.
    Failed(ActorError),
    /// It panicked with the given message.
    Panicked(String),
}

/// What is done after a message was handled.
#[derive(Debug)]
pub struct Dispatched<R> {
    /// What the caller gets, if one waits for a reply.
    pub reply: Option<Result<R, ActorError>>,
    /// Why the actor stops, if it does.
    pub stop: Option<StopReason>,
}

/// The error that a handler ended with, if any.
pub open spec fn handler_error<R>(outcome: HandlerOutcome<R>) -> Option<ActorError> {
    match outcome {
        HandlerOutcome::Returned(_) => None,
        HandlerOutcome::Failed(err) => Some(err),
        HandlerOutcome::Panicked(message) => Some(ActorError::Panic(message)),
    }
}

/// What is done after a message was handled, by how its handler ended and whether a caller waits.
pub open spec fn dispatched<R>(outcome: HandlerOutcome<R>, wants_reply: bool) -> Dispatched<R> {
    Dispatched {
        reply: if !wants_reply {
            None
        } else {
            match outcome {
                HandlerOutcome::Returned(response) => Some(Ok(response)),
                _ => Some(Err(handler_error(outcome)->0)),
            }
        },
        stop: match handler_error(outcome) {
            Some(err) => Some(StopReason::Failure(err)),
            None => None,
        },
    }
}

/// What is done after a message was handled. An error, returned or by a panic, stops the actor in
/// the same way whether a caller waits for a reply or not; a caller that waits gets it.
pub fn dispatch<R>(outcome: HandlerOutcome<R>, wants_reply: bool) -> (done: Dispatched<R>)
    ensures
        done == dispatched(outcome, wants_reply),
{
    let err: ActorError = match outcome {
        HandlerOutcome::Returned(response) => {
            return Dispatched {
                reply: if wants_reply {
                    Some(Ok(response))
                } else {
                    None
                },
                stop: None,
            };
        },
        HandlerOutcome::Failed(err) => err,
        HandlerOutcome::Panicked(message) => ActorError::Panic(message),
    };
    let reply: Option<Result<R, ActorError>> = if wants_reply {
        Some(Err(err.clone()))
    } else {
        None
    };
    Dispatched { reply, stop: Some(StopReason::Failure(err)) }
}

/// A handler that returns lets the actor go on; one that fails or panics stops it as failed, with
/// that error or that panic, whether a caller waits for a reply or not.
pub proof fn errors_stop_the_actor_on_both_paths<R>(
    response: R,
    err: ActorError,
    message: String,
    wants_reply: bool,
)
    ensures
        dispatched(HandlerOutcome::Returned(response), wants_reply).stop is None,
        dispatched(HandlerOutcome::<R>::Failed(err), wants_reply).stop == Some(
            StopReason::Failure(err),
        ),
        dispatched(HandlerOutcome::<R>::Panicked(message), wants_reply).stop == Some(
            StopReason::Failure(ActorError::Panic(message)),
        ),
        forall|outcome: HandlerOutcome<R>|
            (#[trigger] dispatched(outcome, wants_reply)).reply is Some == wants_reply,
        forall|outcome: HandlerOutcome<R>|
            (#[trigger] dispatched(outcome, wants_reply)).stop == dispatched(
                outcome,
                !wants_reply,
            ).stop,
{
}

/// From the handler to the caller: a caller that waits gets what the handler returned, the error that
/// it failed with, or its panic.
pub proof fn callers_get_what_the_handler_gave<R>(response: R, err: ActorError, message: String)
    ensures
        answered(HandlerOutcome::Returned(response)) == Ok::<R, AskError>(response),
        answered(HandlerOutcome::<R>::Failed(err)) == Err::<R, AskError>(AskError::Actor(err)),
        answered(HandlerOutcome::<R>::Panicked(message)) == Err::<R, AskError>(
            AskError::Actor(ActorError::Panic(message)),
        ),
{
}

/// What the caller of a request gets that was handled as given.
pub open spec fn answered<R>(outcome: HandlerOutcome<R>) -> Result<R, AskError> {
    asked_for(
        EnqueueOutcome::Accepted,
        ReplyOutcome::Replied(dispatched(outcome, true).reply->0),
    )
}

} // verus!
