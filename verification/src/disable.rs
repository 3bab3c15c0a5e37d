//! The disable procedure: mask the four power targets in order, then write
//! the logind drop-in file, then restart the login manager.
//!
//! The procedure is a state machine. `next_action` names the external
//! command the driver must run next; `step` consumes that command's
//! outcome (`true` for success). A masking failure or a failed write of
//! the drop-in file aborts the run with exit code 1 and no rollback;
//! directory creation is best effort, and a failed restart only degrades
//! the final state to a warning while the exit code stays 0.

use vstd::prelude::*;

use crate::targets::TARGET_COUNT;

verus! {

/// An external command the disable procedure asks the driver to run.
#[derive(Clone, Copy, Debug, PartialEq, Eq, Structural)]
pub enum DisableAction {
    /// Mask the power target at this position of the fixed list.
    MaskTarget { index: usize },
    /// Create the drop-in directory (outcome ignored).
    EnsureConfigDir,
    /// Write the fixed drop-in content to the fixed path.
    WriteConfig,
    /// Restart the login-manager service.
    RestartLoginManager,
}

/// Where the disable procedure stands.
#[derive(Clone, Copy, Debug, PartialEq, Eq, Structural)]
pub enum DisableState {
    /// About to mask the target at this position.
    Masking { index: usize },
    /// All targets masked; about to create the drop-in directory.
    MakingDir,
    /// About to write the drop-in file.
    WritingConfig,
    /// File written; about to restart the login manager.
    Restarting,
    /// Finished; `restart_ok` records whether the restart succeeded.
    Done { restart_ok: bool },
    /// Masking the target at this position failed; the run stopped there.
    MaskFailed { index: usize },
    /// Writing the drop-in file failed; the run stopped there.
    WriteFailed,
}

impl DisableState {
    /// A reachable state never names a target position past the list.
    pub open spec fn wf(self) -> bool {
        match self {
            DisableState::Masking { index } => index < TARGET_COUNT,
            DisableState::MaskFailed { index } => index < TARGET_COUNT,
            _ => true,
        }
    }

    /// The command to run next, or `None` when the run is over.
    pub open spec fn spec_next_action(self) -> Option<DisableAction> {
        match self {
            DisableState::Masking { index } => Some(DisableAction::MaskTarget { index }),
            DisableState::MakingDir => Some(DisableAction::EnsureConfigDir),
            DisableState::WritingConfig => Some(DisableAction::WriteConfig),
            DisableState::Restarting => Some(DisableAction::RestartLoginManager),
            DisableState::Done { .. } => None,
            DisableState::MaskFailed { .. } => None,
            DisableState::WriteFailed => None,
        }
    }

    /// The state after the pending command reported `ok`.
    pub open spec fn spec_step(self, ok: bool) -> DisableState {
        match self {
            DisableState::Masking { index } => if !ok {
                DisableState::MaskFailed { index }
            } else if index < TARGET_COUNT - 1 {
                DisableState::Masking { index: (index + 1) as usize }
            } else {
                DisableState::MakingDir
            },
            DisableState::MakingDir => DisableState::WritingConfig,
            DisableState::WritingConfig => if ok {
                DisableState::Restarting
            } else {
                DisableState::WriteFailed
            },
            DisableState::Restarting => DisableState::Done { restart_ok: ok },
            _ => self,
        }
    }

    /// The process exit code the state calls for: 0 after a completed run
    /// (a failed restart is only a warning), 1 after an aborted one.
    pub open spec fn spec_exit_code(self) -> i32 {
        match self {
            DisableState::Done { .. } => 0,
            _ => 1,
        }
    }

    /// The state the procedure starts in: masking the first target.
    pub fn initial() -> (s: Self)
        ensures
            s == (DisableState::Masking { index: 0usize }),
            s.wf(),
    {
        DisableState::Masking { index: 0 }
    }

    /// The command to run next, or `None` when the run is over.
    pub fn next_action(&self) -> (a: Option<DisableAction>)
        ensures
            a == self.spec_next_action(),
    {
        match self {
            DisableState::Masking { index } => Some(DisableAction::MaskTarget { index: *index }),
            DisableState::MakingDir => Some(DisableAction::EnsureConfigDir),
            DisableState::WritingConfig => Some(DisableAction::WriteConfig),
            DisableState::Restarting => Some(DisableAction::RestartLoginManager),
            DisableState::Done { .. } => None,
            DisableState::MaskFailed { .. } => None,
            DisableState::WriteFailed => None,
        }
    }

    /// Consume the outcome of the pending command.
    pub fn step(&self, ok: bool) -> (s: Self)
        requires
            self.wf(),
        ensures
            s == self.spec_step(ok),
            s.wf(),
    {
        match self {
            DisableState::Masking { index } => if !ok {
                DisableState::MaskFailed { index: *index }
            } else if *index < TARGET_COUNT - 1 {
                DisableState::Masking { index: *index + 1 }
            } else {
                DisableState::MakingDir
            },
            DisableState::MakingDir => DisableState::WritingConfig,
            DisableState::WritingConfig => if ok {
                DisableState::Restarting
            } else {
                DisableState::WriteFailed
            },
            DisableState::Restarting => DisableState::Done { restart_ok: ok },
            _ => *self,
        }
    }

    /// Exit code for the state the run ended in.
    pub fn exit_code(&self) -> (c: i32)
        ensures
            c == self.spec_exit_code(),
    {
        match self {
            DisableState::Done { .. } => 0,
            _ => 1,
        }
    }
}

/// The actions a run issues from state `s` when the commands report the
/// outcomes in `events`, one outcome per action, in order.
pub open spec fn disable_trace(s: DisableState, events: Seq<bool>) -> Seq<DisableAction>
    decreases events.len(),
{
    match s.spec_next_action() {
        None => Seq::empty(),
        Some(a) => if events.len() == 0 {
            Seq::empty()
        } else {
            seq![a] + disable_trace(s.spec_step(events[0]), events.drop_first())
        },
    }
}

/// The state a run reaches from `s` under the outcomes in `events`.
pub open spec fn disable_run(s: DisableState, events: Seq<bool>) -> DisableState
    decreases events.len(),
{
    match s.spec_next_action() {
        None => s,
        Some(a) => if events.len() == 0 {
            s
        } else {
            disable_run(s.spec_step(events[0]), events.drop_first())
        },
    }
}

/// Once the masking phase is over, no state of the run ever asks to mask
/// a target again.
proof fn lemma_disable_no_mask_after_masking(s: DisableState, events: Seq<bool>)
    requires
        !(s is Masking),
    ensures
        forall|j: int|
            0 <= j < disable_trace(s, events).len() ==> !(disable_trace(s, events)[j]
                is MaskTarget),
    decreases events.len(),
{
    match s.spec_next_action() {
        None => {},
        Some(a) => {
            if events.len() > 0 {
                lemma_disable_no_mask_after_masking(s.spec_step(events[0]), events.drop_first());
            }
        },
    }
}

/// Disabling masks each of the four targets exactly once, in the fixed
/// order of the list, before any other step: whatever the later outcomes,
/// the first four actions are the four mask commands in order, and no
/// action after them masks anything. In particular no file-write step
/// begins before the masking phase is complete.
pub proof fn lemma_disable_masks_in_order(events: Seq<bool>)
    requires
        events.len() >= TARGET_COUNT,
        forall|i: int| 0 <= i < TARGET_COUNT ==> events[i],
    ensures
        disable_trace(DisableState::Masking { index: 0usize }, events).len() >= TARGET_COUNT,
        forall|i: int|
            0 <= i < TARGET_COUNT ==> disable_trace(DisableState::Masking { index: 0usize }, events)[i]
                == (DisableAction::MaskTarget { index: i as usize }),
        forall|j: int|
            TARGET_COUNT <= j < disable_trace(DisableState::Masking { index: 0usize }, events).len()
                ==> !(disable_trace(DisableState::Masking { index: 0usize }, events)[j]
                is MaskTarget),
{
    let s0 = DisableState::Masking { index: 0usize };
    let e0 = events;
    let s1 = s0.spec_step(e0[0]);
    let e1 = e0.drop_first();
    let s2 = s1.spec_step(e1[0]);
    let e2 = e1.drop_first();
    let s3 = s2.spec_step(e2[0]);
    let e3 = e2.drop_first();
    let s4 = s3.spec_step(e3[0]);
    let e4 = e3.drop_first();
    assert(e1[0] == events[1] && e2[0] == events[2] && e3[0] == events[3]);
    assert(s1 == (DisableState::Masking { index: 1usize }));
    assert(s2 == (DisableState::Masking { index: 2usize }));
    assert(s3 == (DisableState::Masking { index: 3usize }));
    assert(s4 == DisableState::MakingDir);
    assert(disable_trace(s0, e0) == seq![DisableAction::MaskTarget { index: 0usize }]
        + disable_trace(s1, e1));
    assert(disable_trace(s1, e1) == seq![DisableAction::MaskTarget { index: 1usize }]
        + disable_trace(s2, e2));
    assert(disable_trace(s2, e2) == seq![DisableAction::MaskTarget { index: 2usize }]
        + disable_trace(s3, e3));
    assert(disable_trace(s3, e3) == seq![DisableAction::MaskTarget { index: 3usize }]
        + disable_trace(s4, e4));
    lemma_disable_no_mask_after_masking(s4, e4);
}

/// Fail fast: if masking the target at position `k` fails while every
/// earlier one succeeded, the run issues exactly the first `k + 1` mask
/// commands and nothing else - no later target is touched, neither
/// directory, file nor restart step is attempted - and the run ends in
/// `MaskFailed` with exit code 1.
pub proof fn lemma_disable_fail_fast(events: Seq<bool>, k: int)
    requires
        0 <= k < TARGET_COUNT,
        k < events.len(),
        forall|i: int| 0 <= i < k ==> events[i],
        !events[k],
    ensures
        disable_trace(DisableState::Masking { index: 0usize }, events).len() == k + 1,
        forall|i: int|
            0 <= i <= k ==> disable_trace(DisableState::Masking { index: 0usize }, events)[i]
                == (DisableAction::MaskTarget { index: i as usize }),
        disable_run(DisableState::Masking { index: 0usize }, events) == (DisableState::MaskFailed {
            index: k as usize,
        }),
        disable_run(DisableState::Masking { index: 0usize }, events).spec_exit_code() == 1,
{
    lemma_disable_fail_fast_from(0, events, k);
}

/// Helper for the fail-fast law, generalised over the starting position.
proof fn lemma_disable_fail_fast_from(m: int, events: Seq<bool>, k: int)
    requires
        0 <= m <= k < TARGET_COUNT,
        k - m < events.len(),
        forall|i: int| 0 <= i < k - m ==> events[i],
        !events[k - m],
    ensures
        disable_trace(DisableState::Masking { index: m as usize }, events).len() == k - m + 1,
        forall|i: int|
            0 <= i <= k - m ==> #[trigger] disable_trace(
                DisableState::Masking { index: m as usize },
                events,
            )[i] == (DisableAction::MaskTarget { index: (m + i) as usize }),
        disable_run(DisableState::Masking { index: m as usize }, events)
            == (DisableState::MaskFailed { index: k as usize }),
    decreases k - m,
{
    let s = DisableState::Masking { index: m as usize };
    if m == k {
        let s1 = s.spec_step(events[0]);
        assert(s1 == (DisableState::MaskFailed { index: k as usize }));
        assert(disable_trace(s, events) == seq![DisableAction::MaskTarget { index: m as usize }]
            + disable_trace(s1, events.drop_first()));
        assert(disable_trace(s1, events.drop_first()) =~= Seq::<DisableAction>::empty());
    } else {
        let s1 = s.spec_step(events[0]);
        assert(s1 == (DisableState::Masking { index: (m + 1) as usize }));
        let e1 = events.drop_first();
        assert(forall|i: int| 0 <= i < k - m - 1 ==> e1[i] == events[i + 1]);
        assert(!e1[k - m - 1]);
        lemma_disable_fail_fast_from(m + 1, e1, k);
        assert(disable_trace(s, events) == seq![DisableAction::MaskTarget { index: m as usize }]
            + disable_trace(s1, e1));
    }
}

/// A fully successful disable run - every mask succeeds and the file
/// write succeeds - issues exactly the four mask commands in order, then
/// the directory step, the file write and the restart, and ends in `Done`
/// with exit code 0; the restart outcome is only recorded, never fatal.
pub proof fn lemma_disable_success_run(events: Seq<bool>)
    requires
        events.len() == 7,
        events[0] && events[1] && events[2] && events[3],
        events[5],
    ensures
        disable_trace(DisableState::Masking { index: 0usize }, events) == seq![
            DisableAction::MaskTarget { index: 0usize },
            DisableAction::MaskTarget { index: 1usize },
            DisableAction::MaskTarget { index: 2usize },
            DisableAction::MaskTarget { index: 3usize },
            DisableAction::EnsureConfigDir,
            DisableAction::WriteConfig,
            DisableAction::RestartLoginManager,
        ],
        disable_run(DisableState::Masking { index: 0usize }, events) == (DisableState::Done {
            restart_ok: events[6],
        }),
        disable_run(DisableState::Masking { index: 0usize }, events).spec_exit_code() == 0,
{
    let s0 = DisableState::Masking { index: 0usize };
    let e0 = events;
    let s1 = s0.spec_step(e0[0]);
    let e1 = e0.drop_first();
    let s2 = s1.spec_step(e1[0]);
    let e2 = e1.drop_first();
    let s3 = s2.spec_step(e2[0]);
    let e3 = e2.drop_first();
    let s4 = s3.spec_step(e3[0]);
    let e4 = e3.drop_first();
    let s5 = s4.spec_step(e4[0]);
    let e5 = e4.drop_first();
    let s6 = s5.spec_step(e5[0]);
    let e6 = e5.drop_first();
    let s7 = s6.spec_step(e6[0]);
    let e7 = e6.drop_first();
    assert(e1[0] == events[1] && e2[0] == events[2] && e3[0] == events[3]);
    assert(e5[0] == events[5] && e6[0] == events[6]);
    assert(s1 == (DisableState::Masking { index: 1usize }));
    assert(s2 == (DisableState::Masking { index: 2usize }));
    assert(s3 == (DisableState::Masking { index: 3usize }));
    assert(s4 == DisableState::MakingDir);
    assert(s5 == DisableState::WritingConfig);
    assert(s6 == DisableState::Restarting);
    assert(s7 == (DisableState::Done { restart_ok: events[6] }));
    assert(e7.len() == 0);
    assert(disable_trace(s0, e0) == seq![DisableAction::MaskTarget { index: 0usize }]
        + disable_trace(s1, e1));
    assert(disable_trace(s1, e1) == seq![DisableAction::MaskTarget { index: 1usize }]
        + disable_trace(s2, e2));
    assert(disable_trace(s2, e2) == seq![DisableAction::MaskTarget { index: 2usize }]
        + disable_trace(s3, e3));
    assert(disable_trace(s3, e3) == seq![DisableAction::MaskTarget { index: 3usize }]
        + disable_trace(s4, e4));
    assert(disable_trace(s4, e4) == seq![DisableAction::EnsureConfigDir] + disable_trace(s5, e5));
    assert(disable_trace(s5, e5) == seq![DisableAction::WriteConfig] + disable_trace(s6, e6));
    assert(disable_trace(s6, e6) == seq![DisableAction::RestartLoginManager]
        + disable_trace(s7, e7));
    assert(disable_trace(s7, e7) =~= Seq::<DisableAction>::empty());
    assert(disable_run(s0, e0) == disable_run(s1, e1));
    assert(disable_run(s1, e1) == disable_run(s2, e2));
    assert(disable_run(s2, e2) == disable_run(s3, e3));
    assert(disable_run(s3, e3) == disable_run(s4, e4));
    assert(disable_run(s4, e4) == disable_run(s5, e5));
    assert(disable_run(s5, e5) == disable_run(s6, e6));
    assert(disable_run(s6, e6) == disable_run(s7, e7));
    assert(disable_run(s7, e7) == s7);
    assert(disable_trace(s0, e0) =~= seq![
        DisableAction::MaskTarget { index: 0usize },
        DisableAction::MaskTarget { index: 1usize },
        DisableAction::MaskTarget { index: 2usize },
        DisableAction::MaskTarget { index: 3usize },
        DisableAction::EnsureConfigDir,
        DisableAction::WriteConfig,
        DisableAction::RestartLoginManager,
    ]);
}

/// Disabling twice is the same as disabling once: two successful runs
/// issue the identical sequence of external commands, so the second run
/// leaves the system exactly as the first did (all targets masked, the
/// drop-in file present with the fixed content).
pub proof fn lemma_disable_idempotent(first: Seq<bool>, second: Seq<bool>)
    requires
        first.len() == 7,
        second.len() == 7,
        first[0] && first[1] && first[2] && first[3] && first[5],
        second[0] && second[1] && second[2] && second[3] && second[5],
    ensures
        disable_trace(DisableState::Masking { index: 0usize }, second) == disable_trace(
            DisableState::Masking { index: 0usize },
            first,
        ),
        disable_run(DisableState::Masking { index: 0usize }, first) is Done,
        disable_run(DisableState::Masking { index: 0usize }, second) is Done,
{
    lemma_disable_success_run(first);
    lemma_disable_success_run(second);
}

} // verus!
