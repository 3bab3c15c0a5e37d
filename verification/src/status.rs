//! The status procedure: classify each target's queried enablement state
//! and report whether the drop-in configuration file is present.
//!
//! The driver runs one query per target and hands in the answers; queries
//! that could not be run at all degrade to an unknown indicator instead of
//! failing the report. The report always carries one line per target, in
//! the fixed order, and the configuration flag is passed through
//! independently of the query outcomes. Status never mutates anything.

use vstd::prelude::*;

verus! {

/// The substring `"masked"` occurs in `s` at position `i`.
pub open spec fn masked_at(s: Seq<char>, i: int) -> bool {
    &&& 0 <= i
    &&& i + 6 <= s.len()
    &&& s[i] == 'm'
    &&& s[i + 1] == 'a'
    &&& s[i + 2] == 's'
    &&& s[i + 3] == 'k'
    &&& s[i + 4] == 'e'
    &&& s[i + 5] == 'd'
}

/// The substring `"masked"` occurs somewhere in `s`. This is how a queried
/// enablement state (such as `masked` or `masked-runtime`) is recognised
/// as masked.
pub open spec fn spec_contains_masked(s: Seq<char>) -> bool {
    exists|i: int| masked_at(s, i)
}

/// The outcome of querying one target's enablement state.
#[derive(Debug)]
pub enum TargetQuery {
    /// The query ran; `state` is its (trimmed) output, whatever the query's
    /// exit code was.
    Answered { state: String },
    /// The query could not be run at all.
    Unanswered,
}

/// What the status line shows for one target.
#[derive(Clone, Copy, Debug, PartialEq, Eq, Structural)]
pub enum MaskIndicator {
    /// The queried state contains `"masked"`.
    Masked,
    /// The query answered with a state not containing `"masked"`.
    NotMasked,
    /// The query could not be run.
    Unknown,
}

/// One line of the status report: the target at position `index` of the
/// fixed list, with its indicator.
#[derive(Clone, Copy, Debug, PartialEq, Eq, Structural)]
pub struct StatusLine {
    pub index: usize,
    pub indicator: MaskIndicator,
}

/// The whole status report: one line per target, plus whether the drop-in
/// configuration file is present.
#[derive(Debug)]
pub struct StatusReport {
    pub lines: Vec<StatusLine>,
    pub config_active: bool,
}

/// The indicator a query outcome maps to.
pub open spec fn spec_indicator(q: TargetQuery) -> MaskIndicator {
    match q {
        TargetQuery::Answered { state } => if spec_contains_masked(state@) {
            MaskIndicator::Masked
        } else {
            MaskIndicator::NotMasked
        },
        TargetQuery::Unanswered => MaskIndicator::Unknown,
    }
}

/// The substring `"masked"` occurs in `s` at position `i`.
fn masked_at_exec(s: &str, i: usize) -> (r: bool)
    requires
        i + 6 <= s@.len(),
        s@.len() <= usize::MAX,
    ensures
        r == masked_at(s@, i as int),
{
    s.get_char(i) == 'm' && s.get_char(i + 1) == 'a' && s.get_char(i + 2) == 's' && s.get_char(
        i + 3,
    ) == 'k' && s.get_char(i + 4) == 'e' && s.get_char(i + 5) == 'd'
}

/// Whether `s` contains the substring `"masked"`.
pub fn contains_masked(s: &str) -> (r: bool)
    ensures
        r == spec_contains_masked(s@),
{
    let n = s.unicode_len();
    if n < 6 {
        proof {
            assert(forall|i: int| !masked_at(s@, i));
        }
        return false;
    }
    let mut i: usize = 0;
    while i <= n - 6
        invariant
            6 <= n,
            n == s@.len(),
            i <= n - 5,
            forall|k: int| 0 <= k < i ==> !masked_at(s@, k),
        decreases n - i,
    {
        if masked_at_exec(s, i) {
            proof {
                assert(spec_contains_masked(s@));
            }
            return true;
        }
        i = i + 1;
    }
    proof {
        assert(forall|k: int| masked_at(s@, k) ==> 0 <= k < i);
        assert(!spec_contains_masked(s@));
    }
    false
}

/// Build the status report from the query outcomes, one per target in the
/// fixed order, and the presence of the drop-in file. Every query gets a
/// line whether it was answered or not, and the configuration flag is
/// reported independently of the query outcomes.
pub fn status_report(queries: &Vec<TargetQuery>, config_present: bool) -> (r: StatusReport)
    ensures
        r.lines@.len() == queries@.len(),
        forall|k: int| 0 <= k < queries@.len() ==> (#[trigger] r.lines@[k]).index == k as usize,
        forall|k: int|
            0 <= k < queries@.len() ==> (#[trigger] r.lines@[k]).indicator == spec_indicator(
                queries@[k],
            ),
        r.config_active == config_present,
{
    let mut lines: Vec<StatusLine> = Vec::new();
    let mut i: usize = 0;
    while i < queries.len()
        invariant
            i <= queries@.len(),
            lines@.len() == i as int,
            forall|k: int| 0 <= k < i ==> (#[trigger] lines@[k]).index == k as usize,
            forall|k: int|
                0 <= k < i ==> (#[trigger] lines@[k]).indicator == spec_indicator(queries@[k]),
        decreases queries@.len() - i,
    {
        let indicator = match &queries[i] {
            TargetQuery::Answered { state } => if contains_masked(state.as_str()) {
                MaskIndicator::Masked
            } else {
                MaskIndicator::NotMasked
            },
            TargetQuery::Unanswered => MaskIndicator::Unknown,
        };
        lines.push(StatusLine { index: i, indicator });
        i = i + 1;
    }
    StatusReport { lines, config_active: config_present }
}

} // verus!
