//! Starting the proxy: listen first, then start the handler.
//!
//! The handler talks to the control API as soon as it runs, so the proxy's
//! listener must be up before the handler exists. [`Launch`] orders the two
//! steps: it asks for the bind, and asks for the spawn only once the bind has
//! succeeded. Whoever runs it performs each [`LaunchAction`] and reports the
//! outcome as a [`LaunchEvent`]. The server and handler handles and the
//! errors are carried through unchanged, whatever their types.

use vstd::prelude::*;

use crate::command::HandlerCommand;
use crate::proxy::LaunchPlan;

verus! {

/// A proxy that listens and whose handler has been started.
#[derive(Debug, PartialEq, Eq)]
pub struct RunningProxy<S, C> {
    /// The listening server, not yet serving requests.
    pub server: S,
    /// The handler process.
    pub handler: C,
}

/// Why a launch failed.
#[derive(Debug, PartialEq, Eq)]
pub enum LaunchError<E> {
    /// The listener could not be bound; the handler was not started.
    Bind(E),
    /// The handler could not be started.
    Spawn(E),
}

/// What happened when an action was performed.
#[derive(Debug, PartialEq, Eq)]
pub enum LaunchEvent<S, C, E> {
    /// The listener is bound and accepting.
    Bound(S),
    /// Binding failed.
    BindFailed(E),
    /// The handler process was started.
    Spawned(C),
    /// Starting the handler failed.
    SpawnFailed(E),
}

/// What to do next.
#[derive(Debug, PartialEq, Eq)]
pub enum LaunchAction<S, C, E> {
    /// Bind the listener on `127.0.0.1` at this port.
    Bind(u16),
    /// Start the handler process.
    Spawn(HandlerCommand),
    /// The launch is complete.
    Ready(RunningProxy<S, C>),
    /// The launch failed.
    Fail(LaunchError<E>),
    /// Nothing: the event did not answer the pending action.
    Idle,
}

/// Where a launch stands.
#[derive(Debug, PartialEq, Eq)]
pub enum Launch<S> {
    /// The bind was asked for; the handler waits to be started.
    AwaitingBind(HandlerCommand),
    /// The listener is bound; the spawn was asked for.
    AwaitingSpawn(S),
    /// The launch completed or failed.
    Finished,
}

/// One step of a launch: the next state and the action to perform.
pub open spec fn launch_next<S, C, E>(state: Launch<S>, event: LaunchEvent<S, C, E>) -> (
    Launch<S>,
    LaunchAction<S, C, E>,
) {
    match (state, event) {
        (Launch::AwaitingBind(cmd), LaunchEvent::Bound(server)) => (
            Launch::AwaitingSpawn(server),
            LaunchAction::Spawn(cmd),
        ),
        (Launch::AwaitingBind(_), LaunchEvent::BindFailed(e)) => (
            Launch::Finished,
            LaunchAction::Fail(LaunchError::Bind(e)),
        ),
        (Launch::AwaitingSpawn(server), LaunchEvent::Spawned(handler)) => (
            Launch::Finished,
            LaunchAction::Ready(RunningProxy { server, handler }),
        ),
        (Launch::AwaitingSpawn(_), LaunchEvent::SpawnFailed(e)) => (
            Launch::Finished,
            LaunchAction::Fail(LaunchError::Spawn(e)),
        ),
        (s, _) => (s, LaunchAction::Idle),
    }
}

/// The actions that a launch in `state` answers `events` with, one per event.
pub open spec fn launch_trace<S, C, E>(state: Launch<S>, events: Seq<LaunchEvent<S, C, E>>) -> Seq<
    LaunchAction<S, C, E>,
>
    decreases events.len(),
{
    if events.len() == 0 {
        Seq::empty()
    } else {
        let (next, action) = launch_next(state, events[0]);
        seq![action] + launch_trace(next, events.drop_first())
    }
}

/// A trace holds one action per event.
pub proof fn lemma_launch_trace_len<S, C, E>(state: Launch<S>, events: Seq<LaunchEvent<S, C, E>>)
    ensures
        launch_trace(state, events).len() == events.len(),
    decreases events.len(),
{
    if events.len() > 0 {
        let (next, action) = launch_next(state, events[0]);
        lemma_launch_trace_len(next, events.drop_first());
    }
}

impl<S> Launch<S> {
    /// Begins a launch: asks to bind the plan's port and holds the handler
    /// command until the bind succeeds.
    pub fn start<C, E>(plan: LaunchPlan) -> (r: (Self, LaunchAction<S, C, E>))
        ensures
            r.0 == Launch::<S>::AwaitingBind(plan.command),
            r.1 == LaunchAction::<S, C, E>::Bind(plan.port),
    {
        (Launch::AwaitingBind(plan.command), LaunchAction::Bind(plan.port))
    }

    /// Takes the outcome of the pending action and says what to do next.
    pub fn step<C, E>(self, event: LaunchEvent<S, C, E>) -> (r: (Self, LaunchAction<S, C, E>))
        ensures
            r == launch_next(self, event),
    {
        match (self, event) {
            (Launch::AwaitingBind(cmd), LaunchEvent::Bound(server)) => (
                Launch::AwaitingSpawn(server),
                LaunchAction::Spawn(cmd),
            ),
            (Launch::AwaitingBind(_), LaunchEvent::BindFailed(e)) => (
                Launch::Finished,
                LaunchAction::Fail(LaunchError::Bind(e)),
            ),
            (Launch::AwaitingSpawn(server), LaunchEvent::Spawned(handler)) => (
                Launch::Finished,
                LaunchAction::Ready(RunningProxy { server, handler }),
            ),
            (Launch::AwaitingSpawn(_), LaunchEvent::SpawnFailed(e)) => (
                Launch::Finished,
                LaunchAction::Fail(LaunchError::Spawn(e)),
            ),
            (s, _) => (s, LaunchAction::Idle),
        }
    }
}

/// In every run, the handler is started only in answer to a successful bind.
pub proof fn lemma_spawn_answers_bind<S, C, E>(
    state: Launch<S>,
    events: Seq<LaunchEvent<S, C, E>>,
    i: int,
)
    requires
        0 <= i < events.len(),
        launch_trace(state, events)[i] is Spawn,
    ensures
        events[i] is Bound,
    decreases events.len(),
{
    let (next, action) = launch_next(state, events[0]);
    lemma_launch_trace_len(next, events.drop_first());
    assert(launch_trace(state, events) == seq![action] + launch_trace(next, events.drop_first()));
    if i > 0 {
        lemma_spawn_answers_bind(next, events.drop_first(), i - 1);
    }
}

/// A launch that completes hands back a server that an earlier event
/// reported bound, or that was already bound when the run began.
proof fn lemma_ready_server_was_bound<S, C, E>(
    state: Launch<S>,
    events: Seq<LaunchEvent<S, C, E>>,
    i: int,
)
    requires
        0 <= i < events.len(),
        launch_trace(state, events)[i] is Ready,
    ensures
        events[i] is Spawned,
        state == Launch::<S>::AwaitingSpawn(launch_trace(state, events)[i]->Ready_0.server) || exists|j: int|
            0 <= j < i && events[j] == LaunchEvent::<S, C, E>::Bound(
                launch_trace(state, events)[i]->Ready_0.server,
            ),
    decreases events.len(),
{
    let (next, action) = launch_next(state, events[0]);
    let rest = events.drop_first();
    lemma_launch_trace_len(next, rest);
    assert(launch_trace(state, events) == seq![action] + launch_trace(next, rest));
    if i > 0 {
        lemma_ready_server_was_bound(next, rest, i - 1);
        let server = launch_trace(state, events)[i]->Ready_0.server;
        assert(launch_trace(next, rest)[i - 1] == launch_trace(state, events)[i]);
        if next == Launch::<S>::AwaitingSpawn(server) {
            if state != Launch::<S>::AwaitingSpawn(server) {
                assert(events[0] == LaunchEvent::<S, C, E>::Bound(server));
            }
        } else {
            let j = choose|j: int|
                0 <= j < i - 1 && rest[j] == LaunchEvent::<S, C, E>::Bound(server);
            assert(events[j + 1] == rest[j]);
        }
    }
}

/// A fresh launch completes only after the handler was started, and the
/// server it hands back is one that an earlier event reported bound: the
/// proxy listens before the handler runs.
pub proof fn lemma_ready_after_bind<S, C, E>(
    cmd: HandlerCommand,
    events: Seq<LaunchEvent<S, C, E>>,
    i: int,
)
    requires
        0 <= i < events.len(),
        launch_trace(Launch::<S>::AwaitingBind(cmd), events)[i] is Ready,
    ensures
        events[i] is Spawned,
        exists|j: int|
            0 <= j < i && events[j] == LaunchEvent::<S, C, E>::Bound(
                launch_trace(Launch::<S>::AwaitingBind(cmd), events)[i]->Ready_0.server,
            ),
{
    lemma_ready_server_was_bound(Launch::<S>::AwaitingBind(cmd), events, i);
}

/// A finished launch does nothing more.
proof fn lemma_finished_is_idle<S, C, E>(events: Seq<LaunchEvent<S, C, E>>, i: int)
    requires
        0 <= i < events.len(),
    ensures
        launch_trace(Launch::<S>::Finished, events)[i] is Idle,
    decreases events.len(),
{
    let (next, action) = launch_next(Launch::<S>::Finished, events[0]);
    lemma_launch_trace_len(next, events.drop_first());
    assert(launch_trace(Launch::<S>::Finished, events) == seq![action] + launch_trace(
        next,
        events.drop_first(),
    ));
    if i > 0 {
        lemma_finished_is_idle(events.drop_first(), i - 1);
    }
}

/// When the bind fails, the launch fails with that error and the handler is
/// never started, whatever happens afterwards.
pub proof fn lemma_failed_bind_starts_nothing<S, C, E>(
    cmd: HandlerCommand,
    events: Seq<LaunchEvent<S, C, E>>,
)
    requires
        events.len() > 0,
        events[0] is BindFailed,
    ensures
        launch_trace(Launch::<S>::AwaitingBind(cmd), events)[0] == LaunchAction::<S, C, E>::Fail(
            LaunchError::Bind(events[0]->BindFailed_0),
        ),
        forall|i: int|
            0 <= i < events.len() ==> !(#[trigger] launch_trace(
                Launch::<S>::AwaitingBind(cmd),
                events,
            )[i] is Spawn) && !(launch_trace(Launch::<S>::AwaitingBind(cmd), events)[i] is Ready),
{
    let trace = launch_trace(Launch::<S>::AwaitingBind(cmd), events);
    let rest = events.drop_first();
    lemma_launch_trace_len(Launch::<S>::Finished, rest);
    assert(trace == seq![trace[0]] + launch_trace(Launch::<S>::Finished, rest));
    assert forall|i: int| 0 <= i < events.len() implies !(#[trigger] trace[i] is Spawn) && !(
    trace[i] is Ready) by {
        if i > 0 {
            lemma_finished_is_idle::<S, C, E>(rest, i - 1);
            assert(trace[i] == launch_trace(Launch::<S>::Finished, rest)[i - 1]);
        }
    }
}

} // verus!
