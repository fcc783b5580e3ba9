//! The correlator: what one call decides while it waits for its response.
//!
//! A call that was sent looks into the registry whenever it is woken, and at
//! its deadline. It ends with the first of: its response is there; the
//! registry is closed; the deadline has passed. Until then it goes on
//! waiting.

use crate::command::CommandResponse;
use crate::error::DeviceError;
use crate::registry::{time_after, Responses, ResponsesView};
use vstd::prelude::*;

verus! {

/// Where one call stands.
#[derive(Clone, Copy, PartialEq, Eq, Structural, Debug)]
pub enum CallState {
    /// The request was not handed out for sending yet.
    Idle,
    /// The request was handed out, and the call waits for its response.
    Sent,
    /// The call ended with its response.
    Matched,
    /// The call ended because its deadline passed.
    TimedOut,
    /// The call ended because the connection is closed.
    Closed,
}

/// A call that was sent and waits for its response.
#[derive(Clone, Copy, PartialEq, Eq, Structural, Debug)]
pub struct PendingCall {
    /// The identifier of the request.
    pub id: i32,
    /// The time at which the call gives up.
    pub deadline: u64,
}

/// What a call does after it looked into the registry.
#[derive(PartialEq, Eq, Debug)]
pub enum WaitStep {
    /// The response is there: the call ends with it.
    Matched(CommandResponse),
    /// The deadline has passed: the call ends with a timeout.
    TimedOut,
    /// The connection is closed: the call ends with that.
    Closed,
    /// Nothing yet: the call waits for a change of the registry, for this
    /// many milliseconds at most, and looks again.
    Wait(u64),
}

/// Where a call for `id` with the given deadline stands after it looked into
/// the registry at `now`. A response that is there is taken, whatever else
/// holds; a closed connection comes before a deadline that has passed.
pub open spec fn decided(registry: ResponsesView, id: i32, deadline: u64, now: u64) -> CallState {
    if registry.entries.contains_key(id) {
        CallState::Matched
    } else if registry.closed is Some {
        CallState::Closed
    } else if now >= deadline {
        CallState::TimedOut
    } else {
        CallState::Sent
    }
}

/// The registry after a call for `id` looked into it and came to `state`:
/// a call that ends is forgotten, and its response, where it got one, is
/// taken out.
pub open spec fn settled(registry: ResponsesView, id: i32, state: CallState) -> ResponsesView {
    match state {
        CallState::Matched => registry.without(id).forgetting(id),
        CallState::TimedOut | CallState::Closed => registry.forgetting(id),
        _ => registry,
    }
}

impl CallState {
    /// Whether the call has ended.
    pub open spec fn is_final(self) -> bool {
        self is Matched || self is TimedOut || self is Closed
    }

    /// Whether the call has ended.
    pub fn ended(&self) -> (ended: bool)
        ensures
            ended == self.is_final(),
    {
        match self {
            CallState::Matched | CallState::TimedOut | CallState::Closed => true,
            _ => false,
        }
    }
}

impl WaitStep {
    /// Where the call stands after this step.
    pub open spec fn state(self) -> CallState {
        match self {
            WaitStep::Matched(_) => CallState::Matched,
            WaitStep::TimedOut => CallState::TimedOut,
            WaitStep::Closed => CallState::Closed,
            WaitStep::Wait(_) => CallState::Sent,
        }
    }

    /// Where the call stands after this step.
    pub fn call_state(&self) -> (state: CallState)
        ensures
            state == self.state(),
    {
        match self {
            WaitStep::Matched(_) => CallState::Matched,
            WaitStep::TimedOut => CallState::TimedOut,
            WaitStep::Closed => CallState::Closed,
            WaitStep::Wait(_) => CallState::Sent,
        }
    }

    /// What the caller gets where the call has ended: the response, a
    /// timeout, or a closed connection. `None` while the call waits.
    pub fn into_result(self) -> (result: Option<Result<CommandResponse, DeviceError>>)
        ensures
            match self {
                WaitStep::Matched(response) => result == Some(
                    Result::<CommandResponse, DeviceError>::Ok(response),
                ),
                WaitStep::TimedOut => result == Some(
                    Result::<CommandResponse, DeviceError>::Err(DeviceError::Timeout),
                ),
                WaitStep::Closed => result == Some(
                    Result::<CommandResponse, DeviceError>::Err(DeviceError::ConnectionClosed),
                ),
                WaitStep::Wait(_) => result is None,
            },
    {
        match self {
            WaitStep::Matched(response) => Some(Ok(response)),
            WaitStep::TimedOut => Some(Err(DeviceError::Timeout)),
            WaitStep::Closed => Some(Err(DeviceError::ConnectionClosed)),
            WaitStep::Wait(_) => None,
        }
    }
}

impl PendingCall {
    /// Begins to wait at `now` for the response to the request `id`, for
    /// `timeout` milliseconds at most.
    pub fn begin(registry: &mut Responses, id: i32, now: u64, timeout: u64) -> (call: PendingCall)
        ensures
            call.id == id,
            call.deadline == time_after(now, timeout),
            final(registry)@ == old(registry)@.expecting(id, call.deadline),
    {
        let deadline = now.saturating_add(timeout);
        registry.expect(id, deadline);
        PendingCall { id, deadline }
    }

    /// Looks into the registry at `now`.
    pub fn poll(&self, registry: &mut Responses, now: u64) -> (step: WaitStep)
        ensures
            step.state() == decided(old(registry)@, self.id, self.deadline, now),
            final(registry)@ == settled(old(registry)@, self.id, step.state()),
            step matches WaitStep::Matched(response) ==> response.id == self.id
                && old(registry)@.entries[self.id] == response@,
            step matches WaitStep::Wait(remaining) ==> remaining == self.deadline - now,
    {
        match registry.consume(self.id) {
            Some(response) => {
                registry.forget(self.id);
                WaitStep::Matched(response)
            },
            None => {
                proof {
                    let before = old(registry)@;
                    assert(before.without(self.id) == before) by {
                        assert(before.without(self.id).entries =~= before.entries);
                        assert(before.without(self.id).kept_until =~= before.kept_until) by {
                            old(registry).lemma_well_formed();
                        }
                    }
                }
                if registry.terminal_error().is_some() {
                    registry.forget(self.id);
                    WaitStep::Closed
                } else if now >= self.deadline {
                    registry.forget(self.id);
                    WaitStep::TimedOut
                } else {
                    WaitStep::Wait(self.deadline - now)
                }
            },
        }
    }
}

/// A response that is in the registry when its call looks is delivered,
/// whether or not the call has waited yet, whatever the time is and whether
/// or not the connection is closed. No wake-up can be missed.
pub proof fn lemma_present_response_is_delivered(
    registry: ResponsesView,
    id: i32,
    deadline: u64,
    now: u64,
)
    requires
        registry.entries.contains_key(id),
    ensures
        decided(registry, id, deadline, now) == CallState::Matched,
{
}

/// A call ends with a timeout exactly when its response is not there, the
/// connection is open and the deadline has passed; and with a closed
/// connection exactly when its response is not there and the connection is
/// closed, deadline or not.
pub proof fn lemma_when_a_call_fails(registry: ResponsesView, id: i32, deadline: u64, now: u64)
    ensures
        decided(registry, id, deadline, now) == CallState::TimedOut <==> !registry.entries.contains_key(
            id,
        ) && registry.closed is None && now >= deadline,
        decided(registry, id, deadline, now) == CallState::Closed <==> !registry.entries.contains_key(
            id,
        ) && registry.closed is Some,
        decided(registry, id, deadline, now) != CallState::Idle,
{
}

/// What happens to one identifier leaves every other alone: a response that
/// arrives for `other`, and a call for `other` that ends, change neither
/// what a call for `id` finds nor where it stands.
pub proof fn lemma_calls_do_not_interfere(
    registry: ResponsesView,
    id: i32,
    other: CommandResponse,
    state: CallState,
    deadline: u64,
    arrival: u64,
    now: u64,
)
    requires
        other.id != id,
    ensures
        registry.added(other@, arrival).entries.get(id) == registry.entries.get(id),
        settled(registry, other.id, state).entries.get(id) == registry.entries.get(id),
        decided(registry.added(other@, arrival), id, deadline, now) == decided(
            registry,
            id,
            deadline,
            now,
        ),
        decided(settled(registry, other.id, state), id, deadline, now) == decided(
            registry,
            id,
            deadline,
            now,
        ),
{
}

/// A stored response is handed to one call at most: once a call has ended,
/// nothing is stored under its identifier.
pub proof fn lemma_taken_once(registry: ResponsesView, id: i32, deadline: u64, now: u64)
    ensures
        decided(registry, id, deadline, now).is_final() ==> !settled(
            registry,
            id,
            decided(registry, id, deadline, now),
        ).entries.contains_key(id),
{
}

/// A response that arrives for a call that has given up does not stay: it
/// is kept for the grace period from its arrival and is gone after the first
/// eviction from then on.
pub proof fn lemma_late_response_is_evicted(
    registry: ResponsesView,
    response: CommandResponse,
    arrival: u64,
    now: u64,
)
    requires
        !registry.waiting.contains_key(response.id),
        now >= time_after(arrival, registry.grace),
    ensures
        !registry.added(response@, arrival).evicted(now).entries.contains_key(response.id),
{
}

/// However a response came in, an eviction leaves only what is still to be
/// kept, and a response for a waiting call is kept at least until the grace
/// period after the call's deadline.
pub proof fn lemma_retention_is_bounded(
    registry: ResponsesView,
    response: CommandResponse,
    arrival: u64,
    now: u64,
)
    ensures
        forall|id: i32| #[trigger]
            registry.evicted(now).entries.contains_key(id) ==> registry.kept_until[id] > now,
        registry.waiting.contains_key(response.id) && arrival <= registry.waiting[response.id]
            && now < time_after(registry.waiting[response.id], registry.grace)
            ==> registry.added(response@, arrival).evicted(now).entries.contains_key(response.id),
        now >= time_after(arrival, registry.grace) && (registry.waiting.contains_key(response.id)
            ==> now >= time_after(registry.waiting[response.id], registry.grace))
            ==> !registry.added(response@, arrival).evicted(now).entries.contains_key(response.id),
{
}

} // verus!
