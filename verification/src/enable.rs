//! The enable procedure: unmask the four power targets in order, then
//! remove the logind drop-in file, then restart the login manager.
//!
//! Like disabling, the procedure is a state machine driven from outside.
//! An unmasking failure aborts the run with exit code 1 and no rollback.
//! Removal of the drop-in file is best effort (the file may not exist),
//! and a failed restart only degrades the final state to a warning while
//! the exit code stays 0.

use vstd::prelude::*;

use crate::targets::TARGET_COUNT;

verus! {

/// An external command the enable procedure asks the driver to run.
#[derive(Clone, Copy, Debug, PartialEq, Eq, Structural)]
pub enum EnableAction {
    /// Unmask the power target at this position of the fixed list.
    UnmaskTarget { index: usize },
    /// Remove the drop-in file (outcome ignored).
    RemoveConfig,
    /// Restart the login-manager service.
    RestartLoginManager,
}

/// Where the enable procedure stands.
#[derive(Clone, Copy, Debug, PartialEq, Eq, Structural)]
pub enum EnableState {
    /// About to unmask the target at this position.
    Unmasking { index: usize },
    /// All targets unmasked; about to remove the drop-in file.
    RemovingConfig,
    /// File removal attempted; about to restart the login manager.
    Restarting,
    /// Finished; `restart_ok` records whether the restart succeeded.
    Done { restart_ok: bool },
    /// Unmasking the target at this position failed; the run stopped there.
    UnmaskFailed { index: usize },
}

impl EnableState {
    /// A reachable state never names a target position past the list.
    pub open spec fn wf(self) -> bool {
        match self {
            EnableState::Unmasking { index } => index < TARGET_COUNT,
            EnableState::UnmaskFailed { index } => index < TARGET_COUNT,
            _ => true,
        }
    }

    /// The command to run next, or `None` when the run is over.
    pub open spec fn spec_next_action(self) -> Option<EnableAction> {
        match self {
            EnableState::Unmasking { index } => Some(EnableAction::UnmaskTarget { index }),
            EnableState::RemovingConfig => Some(EnableAction::RemoveConfig),
            EnableState::Restarting => Some(EnableAction::RestartLoginManager),
            EnableState::Done { .. } => None,
            EnableState::UnmaskFailed { .. } => None,
        }
    }

    /// The state after the pending command reported `ok`.
    pub open spec fn spec_step(self, ok: bool) -> EnableState {
        match self {
            EnableState::Unmasking { index } => if !ok {
                EnableState::UnmaskFailed { index }
            } else if index < TARGET_COUNT - 1 {
                EnableState::Unmasking { index: (index + 1) as usize }
            } else {
                EnableState::RemovingConfig
            },
            EnableState::RemovingConfig => EnableState::Restarting,
            EnableState::Restarting => EnableState::Done { restart_ok: ok },
            _ => self,
        }
    }

    /// The process exit code the state calls for: 0 after a completed run
    /// (a failed restart is only a warning), 1 after an aborted one.
    pub open spec fn spec_exit_code(self) -> i32 {
        match self {
            EnableState::Done { .. } => 0,
            _ => 1,
        }
    }

    /// The state the procedure starts in: unmasking the first target.
    pub fn initial() -> (s: Self)
        ensures
            s == (EnableState::Unmasking { index: 0usize }),
            s.wf(),
    {
        EnableState::Unmasking { index: 0 }
    }

    /// The command to run next, or `None` when the run is over.
    pub fn next_action(&self) -> (a: Option<EnableAction>)
        ensures
            a == self.spec_next_action(),
    {
        match self {
            EnableState::Unmasking { index } => Some(EnableAction::UnmaskTarget { index: *index }),
            EnableState::RemovingConfig => Some(EnableAction::RemoveConfig),
            EnableState::Restarting => Some(EnableAction::RestartLoginManager),
            EnableState::Done { .. } => None,
            EnableState::UnmaskFailed { .. } => None,
        }
    }

    /// Consume the outcome of the pending command.
    pub fn step(&self, ok: bool) -> (s: Self)
        requires
            self.wf(),
        ensures
            s == self.spec_step(ok),
            s.wf(),
    {
        match self {
            EnableState::Unmasking { index } => if !ok {
                EnableState::UnmaskFailed { index: *index }
            } else if *index < TARGET_COUNT - 1 {
                EnableState::Unmasking { index: *index + 1 }
            } else {
                EnableState::RemovingConfig
            },
            EnableState::RemovingConfig => EnableState::Restarting,
            EnableState::Restarting => EnableState::Done { restart_ok: ok },
            _ => *self,
        }
    }

    /// Exit code for the state the run ended in.
    pub fn exit_code(&self) -> (c: i32)
        ensures
            c == self.spec_exit_code(),
    {
        match self {
            EnableState::Done { .. } => 0,
            _ => 1,
        }
    }
}

/// The actions a run issues from state `s` when the commands report the
/// outcomes in `events`, one outcome per action, in order.
pub open spec fn enable_trace(s: EnableState, events: Seq<bool>) -> Seq<EnableAction>
    decreases events.len(),
{
    match s.spec_next_action() {
        None => Seq::empty(),
        Some(a) => if events.len() == 0 {
            Seq::empty()
        } else {
            seq![a] + enable_trace(s.spec_step(events[0]), events.drop_first())
        },
    }
}

/// The state a run reaches from `s` under the outcomes in `events`.
pub open spec fn enable_run(s: EnableState, events: Seq<bool>) -> EnableState
    decreases events.len(),
{
    match s.spec_next_action() {
        None => s,
        Some(a) => if events.len() == 0 {
            s
        } else {
            enable_run(s.spec_step(events[0]), events.drop_first())
        },
    }
}

/// Once the unmasking phase is over, no state of the run ever asks to
/// unmask a target again.
proof fn lemma_enable_no_unmask_after_unmasking(s: EnableState, events: Seq<bool>)
    requires
        !(s is Unmasking),
    ensures
        forall|j: int|
            0 <= j < enable_trace(s, events).len() ==> !(enable_trace(s, events)[j]
                is UnmaskTarget),
    decreases events.len(),
{
    match s.spec_next_action() {
        None => {},
        Some(a) => {
            if events.len() > 0 {
                lemma_enable_no_unmask_after_unmasking(s.spec_step(events[0]), events.drop_first());
            }
        },
    }
}

/// Enabling unmasks each of the four targets exactly once, in the fixed
/// order of the list, before any other step: whatever the later outcomes,
/// the first four actions are the four unmask commands in order, and no
/// action after them unmasks anything. In particular the file-deletion
/// step does not begin before the unmasking phase is complete.
pub proof fn lemma_enable_unmasks_in_order(events: Seq<bool>)
    requires
        events.len() >= TARGET_COUNT,
        forall|i: int| 0 <= i < TARGET_COUNT ==> events[i],
    ensures
        enable_trace(EnableState::Unmasking { index: 0usize }, events).len() >= TARGET_COUNT,
        forall|i: int|
            0 <= i < TARGET_COUNT ==> enable_trace(EnableState::Unmasking { index: 0usize }, events)[i]
                == (EnableAction::UnmaskTarget { index: i as usize }),
        forall|j: int|
            TARGET_COUNT <= j < enable_trace(EnableState::Unmasking { index: 0usize }, events).len()
                ==> !(enable_trace(EnableState::Unmasking { index: 0usize }, events)[j]
                is UnmaskTarget),
{
    let s0 = EnableState::Unmasking { index: 0usize };
    let e0 = events;
    let s1 = s0.spec_step(e0[0]);
    let e1 = e0.drop_first();
    let s2 = s1.spec_step(e1[0]);
    let e2 = e1.drop_first();
    let s3 = s2.spec_step(e2[0]);
    let e3 = e2.drop_first();
    let s4 = s3.spec_step(e3[0]);
    let e4 = e3.drop_first();
    assert(e1[0] == events[1] && e2[0] == events[2] && e3[0] == events[3]);
    assert(s1 == (EnableState::Unmasking { index: 1usize }));
    assert(s2 == (EnableState::Unmasking { index: 2usize }));
    assert(s3 == (EnableState::Unmasking { index: 3usize }));
    assert(s4 == EnableState::RemovingConfig);
    assert(enable_trace(s0, e0) == seq![EnableAction::UnmaskTarget { index: 0usize }]
        + enable_trace(s1, e1));
    assert(enable_trace(s1, e1) == seq![EnableAction::UnmaskTarget { index: 1usize }]
        + enable_trace(s2, e2));
    assert(enable_trace(s2, e2) == seq![EnableAction::UnmaskTarget { index: 2usize }]
        + enable_trace(s3, e3));
    assert(enable_trace(s3, e3) == seq![EnableAction::UnmaskTarget { index: 3usize }]
        + enable_trace(s4, e4));
    lemma_enable_no_unmask_after_unmasking(s4, e4);
}

/// Fail fast: if unmasking the target at position `k` fails while every
/// earlier one succeeded, the run issues exactly the first `k + 1` unmask
/// commands and nothing else - no later target is touched, neither file
/// deletion nor restart is attempted - and the run ends in `UnmaskFailed`
/// with exit code 1.
pub proof fn lemma_enable_fail_fast(events: Seq<bool>, k: int)
    requires
        0 <= k < TARGET_COUNT,
        k < events.len(),
        forall|i: int| 0 <= i < k ==> events[i],
        !events[k],
    ensures
        enable_trace(EnableState::Unmasking { index: 0usize }, events).len() == k + 1,
        forall|i: int|
            0 <= i <= k ==> enable_trace(EnableState::Unmasking { index: 0usize }, events)[i]
                == (EnableAction::UnmaskTarget { index: i as usize }),
        enable_run(EnableState::Unmasking { index: 0usize }, events) == (EnableState::UnmaskFailed {
            index: k as usize,
        }),
        enable_run(EnableState::Unmasking { index: 0usize }, events).spec_exit_code() == 1,
{
    lemma_enable_fail_fast_from(0, events, k);
}

/// Helper for the fail-fast law, generalised over the starting position.
proof fn lemma_enable_fail_fast_from(m: int, events: Seq<bool>, k: int)
    requires
        0 <= m <= k < TARGET_COUNT,
        k - m < events.len(),
        forall|i: int| 0 <= i < k - m ==> events[i],
        !events[k - m],
    ensures
        enable_trace(EnableState::Unmasking { index: m as usize }, events).len() == k - m + 1,
        forall|i: int|
            0 <= i <= k - m ==> #[trigger] enable_trace(
                EnableState::Unmasking { index: m as usize },
                events,
            )[i] == (EnableAction::UnmaskTarget { index: (m + i) as usize }),
        enable_run(EnableState::Unmasking { index: m as usize }, events)
            == (EnableState::UnmaskFailed { index: k as usize }),
    decreases k - m,
{
    let s = EnableState::Unmasking { index: m as usize };
    if m == k {
        let s1 = s.spec_step(events[0]);
        assert(s1 == (EnableState::UnmaskFailed { index: k as usize }));
        assert(enable_trace(s, events) == seq![EnableAction::UnmaskTarget { index: m as usize }]
            + enable_trace(s1, events.drop_first()));
        assert(enable_trace(s1, events.drop_first()) =~= Seq::<EnableAction>::empty());
    } else {
        let s1 = s.spec_step(events[0]);
        assert(s1 == (EnableState::Unmasking { index: (m + 1) as usize }));
        let e1 = events.drop_first();
        assert(forall|i: int| 0 <= i < k - m - 1 ==> e1[i] == events[i + 1]);
        assert(!e1[k - m - 1]);
        lemma_enable_fail_fast_from(m + 1, e1, k);
        assert(enable_trace(s, events) == seq![EnableAction::UnmaskTarget { index: m as usize }]
            + enable_trace(s1, e1));
    }
}

/// A fully successful enable run - every unmask succeeds - issues exactly
/// the four unmask commands in order, then the removal of the drop-in
/// file and the restart, and ends in `Done` with exit code 0; the removal
/// and restart outcomes are never fatal.
pub proof fn lemma_enable_success_run(events: Seq<bool>)
    requires
        events.len() == 6,
        events[0] && events[1] && events[2] && events[3],
    ensures
        enable_trace(EnableState::Unmasking { index: 0usize }, events) == seq![
            EnableAction::UnmaskTarget { index: 0usize },
            EnableAction::UnmaskTarget { index: 1usize },
            EnableAction::UnmaskTarget { index: 2usize },
            EnableAction::UnmaskTarget { index: 3usize },
            EnableAction::RemoveConfig,
            EnableAction::RestartLoginManager,
        ],
        enable_run(EnableState::Unmasking { index: 0usize }, events) == (EnableState::Done {
            restart_ok: events[5],
        }),
        enable_run(EnableState::Unmasking { index: 0usize }, events).spec_exit_code() == 0,
{
    let s0 = EnableState::Unmasking { index: 0usize };
    let e0 = events;
    let s1 = s0.spec_step(e0[0]);
    let e1 = e0.drop_first();
    let s2 = s1.spec_step(e1[0]);
    let e2 = e1.drop_first();
    let s3 = s2.spec_step(e2[0]);
    let e3 = e2.drop_first();
    let s4 = s3.spec_step(e3[0]);
    let e4 = e3.drop_first();
    let s5 = s4.spec_step(e4[0]);
    let e5 = e4.drop_first();
    let s6 = s5.spec_step(e5[0]);
    let e6 = e5.drop_first();
    assert(e1[0] == events[1] && e2[0] == events[2] && e3[0] == events[3]);
    assert(e5[0] == events[5]);
    assert(s1 == (EnableState::Unmasking { index: 1usize }));
    assert(s2 == (EnableState::Unmasking { index: 2usize }));
    assert(s3 == (EnableState::Unmasking { index: 3usize }));
    assert(s4 == EnableState::RemovingConfig);
    assert(s5 == EnableState::Restarting);
    assert(s6 == (EnableState::Done { restart_ok: events[5] }));
    assert(e6.len() == 0);
    assert(enable_trace(s0, e0) == seq![EnableAction::UnmaskTarget { index: 0usize }]
        + enable_trace(s1, e1));
    assert(enable_trace(s1, e1) == seq![EnableAction::UnmaskTarget { index: 1usize }]
        + enable_trace(s2, e2));
    assert(enable_trace(s2, e2) == seq![EnableAction::UnmaskTarget { index: 2usize }]
        + enable_trace(s3, e3));
    assert(enable_trace(s3, e3) == seq![EnableAction::UnmaskTarget { index: 3usize }]
        + enable_trace(s4, e4));
    assert(enable_trace(s4, e4) == seq![EnableAction::RemoveConfig] + enable_trace(s5, e5));
    assert(enable_trace(s5, e5) == seq![EnableAction::RestartLoginManager]
        + enable_trace(s6, e6));
    assert(enable_trace(s6, e6) =~= Seq::<EnableAction>::empty());
    assert(enable_run(s0, e0) == enable_run(s1, e1));
    assert(enable_run(s1, e1) == enable_run(s2, e2));
    assert(enable_run(s2, e2) == enable_run(s3, e3));
    assert(enable_run(s3, e3) == enable_run(s4, e4));
    assert(enable_run(s4, e4) == enable_run(s5, e5));
    assert(enable_run(s5, e5) == enable_run(s6, e6));
    assert(enable_run(s6, e6) == s6);
    assert(enable_trace(s0, e0) =~= seq![
        EnableAction::UnmaskTarget { index: 0usize },
        EnableAction::UnmaskTarget { index: 1usize },
        EnableAction::UnmaskTarget { index: 2usize },
        EnableAction::UnmaskTarget { index: 3usize },
        EnableAction::RemoveConfig,
        EnableAction::RestartLoginManager,
    ]);
}

/// Enabling twice is the same as enabling once: two successful runs issue
/// the identical sequence of external commands, so the second run leaves
/// the system exactly as the first did (all targets unmasked, the drop-in
/// file absent).
pub proof fn lemma_enable_idempotent(first: Seq<bool>, second: Seq<bool>)
    requires
        first.len() == 6,
        second.len() == 6,
        first[0] && first[1] && first[2] && first[3],
        second[0] && second[1] && second[2] && second[3],
    ensures
        enable_trace(EnableState::Unmasking { index: 0usize }, second) == enable_trace(
            EnableState::Unmasking { index: 0usize },
            first,
        ),
        enable_run(EnableState::Unmasking { index: 0usize }, first) is Done,
        enable_run(EnableState::Unmasking { index: 0usize }, second) is Done,
{
    lemma_enable_success_run(first);
    lemma_enable_success_run(second);
}

} // verus!
