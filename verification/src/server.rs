//! The life of the listener: unbound, bound, serving.
//!
//! What is decided here is what to do next, given what just happened. Binding
//! the socket, logging and serving connections are done by whoever drives
//! these decisions.

use vstd::prelude::*;
use crate::address::{address_of, listen_addr};
use crate::config::Config;

verus! {

/// Where the listener stands.
#[derive(Clone, Copy, Debug, PartialEq, Eq, Structural)]
pub enum Phase {
    /// No socket yet.
    Unbound,
    /// The socket is bound, and nothing is served yet.
    Bound,
    /// Connections are accepted and served. There is no way out of this phase.
    Serving,
    /// Binding failed: startup is over, and nothing will be served.
    Failed,
}

/// What just happened.
#[derive(Clone, Copy, Debug, PartialEq, Eq, Structural)]
pub enum Event {
    /// The socket was bound.
    BindSucceeded,
    /// The socket could not be bound: the port is taken, not permitted or
    /// not valid.
    BindFailed,
    /// The startup line was logged.
    Announced,
    /// One connection broke while it was served.
    ConnectionFailed,
}

/// What to do next.
#[derive(Clone, Copy, Debug, PartialEq, Eq, Structural)]
pub enum Action {
    /// Log the startup line with the bound address.
    Announce,
    /// Enter the accept loop.
    Serve,
    /// Give up and hand the bind error to the operator.
    Abort,
    /// Go on serving the other connections.
    KeepServing,
    /// Nothing: the event has no meaning in this phase.
    Ignore,
}

/// Why startup was refused before any socket was touched.
#[derive(Clone, Copy, Debug, PartialEq, Eq, Structural)]
pub enum StartError {
    /// Port 0 is no port to listen on.
    InvalidPort,
}

/// The phase after an event, and what to do then.
pub open spec fn next_of(phase: Phase, event: Event) -> (Phase, Action) {
    match (phase, event) {
        (Phase::Unbound, Event::BindSucceeded) => (Phase::Bound, Action::Announce),
        (Phase::Unbound, Event::BindFailed) => (Phase::Failed, Action::Abort),
        (Phase::Bound, Event::Announced) => (Phase::Serving, Action::Serve),
        (Phase::Serving, Event::ConnectionFailed) => (Phase::Serving, Action::KeepServing),
        _ => (phase, Action::Ignore),
    }
}

/// The phase after a run of events, and the actions taken on the way.
pub open spec fn run_of(phase: Phase, events: Seq<Event>) -> (Phase, Seq<Action>)
    decreases events.len(),
{
    if events.len() == 0 {
        (phase, Seq::empty())
    } else {
        let (then, action) = next_of(phase, events[0]);
        let (last, actions) = run_of(then, events.drop_first());
        (last, seq![action] + actions)
    }
}

/// How often an action occurs in a run.
pub open spec fn count_of(actions: Seq<Action>, action: Action) -> nat
    decreases actions.len(),
{
    if actions.len() == 0 {
        0
    } else {
        count_of(actions.drop_first(), action) + if actions[0] == action {
            1nat
        } else {
            0nat
        }
    }
}

/// The address to bind for a configuration; a port of 0 is refused.
pub fn bind_target(config: &Config) -> (target: Result<String, StartError>)
    ensures
        match target {
            Ok(addr) => config.valid() && addr@ == address_of(config.port),
            Err(e) => !config.valid() && e == StartError::InvalidPort,
        },
{
    if config.is_valid() {
        Ok(listen_addr(config))
    } else {
        Err(StartError::InvalidPort)
    }
}

/// The phase after `event`, and what to do now.
pub fn step(phase: Phase, event: Event) -> (next: (Phase, Action))
    ensures
        next == next_of(phase, event),
{
    match (phase, event) {
        (Phase::Unbound, Event::BindSucceeded) => (Phase::Bound, Action::Announce),
        (Phase::Unbound, Event::BindFailed) => (Phase::Failed, Action::Abort),
        (Phase::Bound, Event::Announced) => (Phase::Serving, Action::Serve),
        (Phase::Serving, Event::ConnectionFailed) => (Phase::Serving, Action::KeepServing),
        _ => (phase, Action::Ignore),
    }
}

/// How often an action can still come up from a phase on: what `Announce`,
/// `Serve` and `Abort` have in common is that each belongs to one step of
/// startup.
pub open spec fn still_due(phase: Phase, action: Action) -> nat {
    match (phase, action) {
        (Phase::Unbound, Action::Announce) => 1,
        (Phase::Unbound, Action::Serve) => 1,
        (Phase::Unbound, Action::Abort) => 1,
        (Phase::Bound, Action::Serve) => 1,
        _ => 0,
    }
}

/// Once serving, the listener goes on serving whatever happens: a broken
/// connection is no reason to stop, and nothing aborts.
pub proof fn serving_never_ends(events: Seq<Event>)
    ensures
        run_of(Phase::Serving, events).0 == Phase::Serving,
        count_of(run_of(Phase::Serving, events).1, Action::Abort) == 0,
    decreases events.len(),
{
    if events.len() > 0 {
        serving_never_ends(events.drop_first());
        let (then, action) = next_of(Phase::Serving, events[0]);
        let rest = run_of(then, events.drop_first()).1;
        assert((seq![action] + rest).drop_first() =~= rest);
    }
}

/// A failed bind ends startup for good: nothing is announced and nothing is
/// served afterwards.
pub proof fn bind_failure_is_final(events: Seq<Event>)
    ensures
        next_of(Phase::Unbound, Event::BindFailed) == (Phase::Failed, Action::Abort),
        run_of(Phase::Failed, events).0 == Phase::Failed,
        count_of(run_of(Phase::Failed, events).1, Action::Serve) == 0,
        count_of(run_of(Phase::Failed, events).1, Action::Announce) == 0,
    decreases events.len(),
{
    if events.len() > 0 {
        bind_failure_is_final(events.drop_first());
        let (then, action) = next_of(Phase::Failed, events[0]);
        let rest = run_of(then, events.drop_first()).1;
        assert((seq![action] + rest).drop_first() =~= rest);
    }
}

/// In no run does a startup action come up more often than it is due, and a
/// run that ends in a later phase has taken every action that lies between.
pub proof fn startup_actions_are_counted(phase: Phase, events: Seq<Event>, action: Action)
    requires
        action == Action::Announce || action == Action::Serve || action == Action::Abort,
    ensures
        count_of(run_of(phase, events).1, action) + still_due(run_of(phase, events).0, action)
            <= still_due(phase, action),
        run_of(phase, events).0 != Phase::Failed && action != Action::Abort ==> count_of(
            run_of(phase, events).1,
            action,
        ) + still_due(run_of(phase, events).0, action) == still_due(phase, action),
    decreases events.len(),
{
    if events.len() > 0 {
        let (then, first) = next_of(phase, events[0]);
        startup_actions_are_counted(then, events.drop_first(), action);
        let rest = run_of(then, events.drop_first()).1;
        assert((seq![first] + rest).drop_first() =~= rest);
        if then == Phase::Failed {
            bind_failure_is_final(events.drop_first());
        }
    }
}

/// A listener that has come to serve has been announced exactly once and has
/// entered the accept loop exactly once, and never gave up.
pub proof fn serving_was_announced_once(events: Seq<Event>)
    requires
        run_of(Phase::Unbound, events).0 == Phase::Serving,
    ensures
        count_of(run_of(Phase::Unbound, events).1, Action::Announce) == 1,
        count_of(run_of(Phase::Unbound, events).1, Action::Serve) == 1,
        count_of(run_of(Phase::Unbound, events).1, Action::Abort) == 0,
{
    startup_actions_are_counted(Phase::Unbound, events, Action::Announce);
    startup_actions_are_counted(Phase::Unbound, events, Action::Serve);
    never_aborted_unless_failed(Phase::Unbound, events);
}

/// A run aborts only on its way into the failed phase.
pub proof fn never_aborted_unless_failed(phase: Phase, events: Seq<Event>)
    requires
        run_of(phase, events).0 != Phase::Failed,
    ensures
        count_of(run_of(phase, events).1, Action::Abort) == 0,
    decreases events.len(),
{
    if events.len() > 0 {
        let (then, first) = next_of(phase, events[0]);
        let rest = run_of(then, events.drop_first()).1;
        assert((seq![first] + rest).drop_first() =~= rest);
        if then == Phase::Failed {
            bind_failure_is_final(events.drop_first());
        } else {
            never_aborted_unless_failed(then, events.drop_first());
        }
    }
}

/// A run takes one action for each event.
pub proof fn one_action_per_event(phase: Phase, events: Seq<Event>)
    ensures
        run_of(phase, events).1.len() == events.len(),
        events.len() > 0 ==> run_of(phase, events).1[0] == next_of(phase, events[0]).1,
        forall|k: int|
            1 <= k < events.len() ==> run_of(phase, events).1[k] == run_of(
                next_of(phase, events[0]).0,
                events.drop_first(),
            ).1[k - 1],
    decreases events.len(),
{
    if events.len() > 0 {
        one_action_per_event(next_of(phase, events[0]).0, events.drop_first());
    }
}

/// The accept loop is entered only after the startup line was logged:
/// wherever a run from the start serves, it has announced before.
pub proof fn announce_precedes_serve(events: Seq<Event>, at: int)
    requires
        0 <= at < events.len(),
        run_of(Phase::Unbound, events).1[at] == Action::Serve,
    ensures
        exists|before: int|
            0 <= before < at && run_of(Phase::Unbound, events).1[before] == Action::Announce,
    decreases events.len(),
{
    let (then, first) = next_of(Phase::Unbound, events[0]);
    let rest = events.drop_first();
    one_action_per_event(Phase::Unbound, events);
    if at == 0 {
        assert(first != Action::Serve);
    } else if then == Phase::Unbound {
        announce_precedes_serve(rest, at - 1);
        let before = choose|before: int|
            0 <= before < at - 1 && run_of(Phase::Unbound, rest).1[before] == Action::Announce;
        assert(run_of(Phase::Unbound, events).1[before + 1] == Action::Announce);
    } else if then == Phase::Bound {
        assert(run_of(Phase::Unbound, events).1[0] == Action::Announce);
    } else {
        bind_failure_is_final(rest);
        never_counted_never_taken(run_of(Phase::Failed, rest).1, Action::Serve, at - 1);
    }
}

/// An action that a run counts no times stands at none of its places.
proof fn never_counted_never_taken(actions: Seq<Action>, action: Action, at: int)
    requires
        count_of(actions, action) == 0,
        0 <= at < actions.len(),
    ensures
        actions[at] != action,
    decreases actions.len(),
{
    if at > 0 {
        never_counted_never_taken(actions.drop_first(), action, at - 1);
    }
}

} // verus!
