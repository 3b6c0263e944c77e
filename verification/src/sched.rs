//! The scheduling discipline: ticks, reloads, cancellation.
//!
//! One loop drives the watcher. On every tick it starts a fresh run,
//! first cancelling a run still live, so that two runs never execute
//! concurrently. A reload adopts the new configuration only where loading
//! succeeded, and never stops the loop. An explicit cancel signals the
//! live run, and is a no-op without one. The loop itself performs the
//! actions; the decisions are all here.

use vstd::prelude::*;

verus! {

/// What the loop observed: a control signal, a timer tick, or the end of
/// the live run.
#[derive(Debug, Clone, Copy, PartialEq, Eq, Structural)]
pub enum SchedEvent {
    /// The scheduling interval elapsed.
    Tick,
    /// A reload was requested and the new configuration loaded cleanly.
    ReloadOk,
    /// A reload was requested but the new configuration would not load.
    ReloadFailed,
    /// A cancellation of the current run was requested.
    CancelRequested,
    /// The live run completed, well or badly.
    RunFinished,
}

/// What the loop must do next, in order.
#[derive(Debug, Clone, Copy, PartialEq, Eq, Structural)]
pub enum SchedAction {
    /// Signal cancellation to the live run.
    CancelRun,
    /// Start a new run with a fresh cancellation signal, and keep its
    /// handle as the live one.
    StartRun,
    /// Replace the configuration with the freshly loaded one.
    AdoptNewConfig,
    /// Keep the previous configuration in effect.
    KeepConfig,
}

/// The loop's own state: whether a run handle is held as live.
#[derive(Debug, Clone, Copy, PartialEq, Eq, Structural)]
pub struct SchedState {
    pub run_live: bool,
}

/// The transition of the scheduling loop. A tick supersedes a live run by
/// cancelling it before starting the next, so at most one run is ever
/// live; a failed reload keeps the old configuration and the loop alive;
/// a cancel without a live run does nothing.
pub open spec fn spec_sched_step(s: SchedState, e: SchedEvent) -> (SchedState, Seq<SchedAction>) {
    match e {
        SchedEvent::Tick => {
            if s.run_live {
                (SchedState { run_live: true }, seq![SchedAction::CancelRun, SchedAction::StartRun])
            } else {
                (SchedState { run_live: true }, seq![SchedAction::StartRun])
            }
        },
        SchedEvent::ReloadOk => (s, seq![SchedAction::AdoptNewConfig]),
        SchedEvent::ReloadFailed => (s, seq![SchedAction::KeepConfig]),
        SchedEvent::CancelRequested => {
            if s.run_live {
                (SchedState { run_live: false }, seq![SchedAction::CancelRun])
            } else {
                (s, Seq::empty())
            }
        },
        SchedEvent::RunFinished => (SchedState { run_live: false }, Seq::empty()),
    }
}

/// Runs never overlap: whenever a new run is started, every previously
/// live run has been signalled to cancel first, in the same step; and no
/// event but a tick ever starts a run.
pub proof fn lemma_runs_never_overlap(s: SchedState, e: SchedEvent)
    ensures
        spec_sched_step(s, e).1.contains(SchedAction::StartRun) ==> e == SchedEvent::Tick,
        s.run_live && spec_sched_step(s, e).1.contains(SchedAction::StartRun) ==> {
            let actions = spec_sched_step(s, e).1;
            exists|i: int, j: int|
                0 <= i < j < actions.len() && actions[i] == SchedAction::CancelRun && actions[j]
                    == SchedAction::StartRun
        },
{
    let actions = spec_sched_step(s, e).1;
    if s.run_live && e == SchedEvent::Tick {
        assert(actions[0] == SchedAction::CancelRun);
        assert(actions[1] == SchedAction::StartRun);
    }
    if actions.contains(SchedAction::StartRun) && e != SchedEvent::Tick {
        assert(forall|i: int| 0 <= i < actions.len() ==> actions[i] != SchedAction::StartRun);
    }
}

/// A reload never stops the loop and never touches the live run: the
/// state is unchanged, and the only action is to adopt or keep the
/// configuration.
pub proof fn lemma_reload_is_harmless(s: SchedState)
    ensures
        spec_sched_step(s, SchedEvent::ReloadOk) == (s, seq![SchedAction::AdoptNewConfig]),
        spec_sched_step(s, SchedEvent::ReloadFailed) == (s, seq![SchedAction::KeepConfig]),
{
}

/// Decides the loop's next actions for an observed event.
pub fn sched_step(s: SchedState, e: SchedEvent) -> (r: (SchedState, Vec<SchedAction>))
    ensures
        r.0 == spec_sched_step(s, e).0,
        r.1@ == spec_sched_step(s, e).1,
{
    let mut actions: Vec<SchedAction> = Vec::new();
    let next = match e {
        SchedEvent::Tick => {
            if s.run_live {
                actions.push(SchedAction::CancelRun);
            }
            actions.push(SchedAction::StartRun);
            SchedState { run_live: true }
        },
        SchedEvent::ReloadOk => {
            actions.push(SchedAction::AdoptNewConfig);
            s
        },
        SchedEvent::ReloadFailed => {
            actions.push(SchedAction::KeepConfig);
            s
        },
        SchedEvent::CancelRequested => {
            if s.run_live {
                actions.push(SchedAction::CancelRun);
                SchedState { run_live: false }
            } else {
                s
            }
        },
        SchedEvent::RunFinished => SchedState { run_live: false },
    };
    proof {
        assert(actions@ =~= spec_sched_step(s, e).1);
    }
    (next, actions)
}

} // verus!
