//! The two progress marks of a pruner and the arithmetic of one pruning step.

use vstd::prelude::*;

verus! {

/// Ordinal of a point in the ledger's history.
pub type Version = u64;

/// A half-open range of versions, `start` included and `end` excluded.
#[derive(Clone, Copy, Debug, PartialEq, Eq, Structural)]
pub struct VersionRange {
    pub start: Version,
    pub end: Version,
}

impl VersionRange {
    /// Number of versions in the range.
    pub open spec fn len(self) -> nat {
        if self.start <= self.end {
            (self.end - self.start) as nat
        } else {
            0
        }
    }
}

/// The progress marks of one pruner.
#[derive(Clone, Copy, Debug, PartialEq, Eq, Structural)]
pub struct PrunerState {
    /// Versions below this one are no longer guaranteed readable.
    pub least_readable_version: Version,
    /// The version the pruner works toward and never passes.
    pub target_version: Version,
}

/// One call of a pruner's step: the largest number of versions it may cover,
/// and whether the batch of deletions was committed to the store.
pub struct PruneCall {
    pub max_versions: Version,
    pub committed: bool,
}

impl PrunerState {
    /// The least readable version never lies above the target version.
    pub open spec fn wf(self) -> bool {
        self.least_readable_version <= self.target_version
    }

    /// Nothing is left to prune.
    pub open spec fn is_idle(self) -> bool {
        self.least_readable_version == self.target_version
    }

    /// Versions are left to prune: a step of a positive size does real work.
    pub open spec fn is_active(self) -> bool {
        self.least_readable_version < self.target_version
    }

    /// Where the next step ends: `max_versions` past the least readable
    /// version, but never past the target version.
    pub open spec fn batch_target(self, max_versions: Version) -> Version {
        vstd::math::min(
            self.least_readable_version + max_versions,
            self.target_version as int,
        ) as Version
    }

    /// The versions that the next step removes.
    pub open spec fn batch_range(self, max_versions: Version) -> VersionRange {
        VersionRange { start: self.least_readable_version, end: self.batch_target(max_versions) }
    }

    /// The marks of a pruner that starts over a store whose readable versions
    /// begin at `version`: nothing is left to prune until a target is set.
    pub open spec fn starting_at(version: Version) -> PrunerState {
        PrunerState { least_readable_version: version, target_version: version }
    }

    /// The marks once `version` has been recorded as least readable.
    pub open spec fn advanced_to(self, version: Version) -> PrunerState {
        PrunerState { least_readable_version: version, target_version: self.target_version }
    }

    /// The marks with a new target version.
    pub open spec fn retargeted(self, target_version: Version) -> PrunerState {
        PrunerState { least_readable_version: self.least_readable_version, target_version }
    }

    /// The marks after one call: advanced to the batch target if the batch
    /// was committed, unchanged if it was not.
    pub open spec fn step(self, call: PruneCall) -> PrunerState {
        if call.committed {
            self.advanced_to(self.batch_target(call.max_versions))
        } else {
            self
        }
    }

    /// The marks after a sequence of calls, first call first.
    pub open spec fn run(self, calls: Seq<PruneCall>) -> PrunerState
        decreases calls.len(),
    {
        if calls.len() == 0 {
            self
        } else {
            self.run(calls.drop_last()).step(calls.last())
        }
    }
}

/// Computes where a step of at most `max_versions` versions ends.
pub fn current_batch_target(
    least_readable_version: Version,
    target_version: Version,
    max_versions: Version,
) -> (end: Version)
    ensures
        end == (PrunerState { least_readable_version, target_version }).batch_target(max_versions),
{
    if target_version <= least_readable_version || max_versions >= target_version
        - least_readable_version {
        target_version
    } else {
        least_readable_version + max_versions
    }
}

/// What the progress gauge shows for `version`: the same 64 bits read as a
/// signed number.
pub open spec fn gauge_reading(version: Version) -> i64 {
    if version <= i64::MAX {
        version as i64
    } else {
        (version - 0x1_0000_0000_0000_0000) as i64
    }
}

/// Computes the gauge reading for `version`.
pub fn progress_gauge_reading(version: Version) -> (reading: i64)
    ensures
        reading == gauge_reading(version),
{
    if version <= 0x7fff_ffff_ffff_ffff {
        version as i64
    } else {
        let above: u64 = version - 0x8000_0000_0000_0000;
        i64::MIN + (above as i64)
    }
}

/// The version that recovery yields for the first entry of a primary schema:
/// 0 where there is no entry, the entry's version where there is one, and the
/// failure where the entry could not be read.
pub open spec fn lowest_version<E>(first_entry: Option<Result<Version, E>>) -> Result<Version, E> {
    match first_entry {
        None => Ok(0),
        Some(Ok(version)) => Ok(version),
        Some(Err(failure)) => Err(failure),
    }
}

/// Computes the version that recovery yields for the first entry of a
/// primary schema.
pub fn first_version<E>(first_entry: Option<Result<Version, E>>) -> (result: Result<Version, E>)
    ensures
        result == lowest_version(first_entry),
{
    match first_entry {
        None => Ok(0),
        Some(Ok(version)) => Ok(version),
        Some(Err(failure)) => Err(failure),
    }
}

/// A step never lowers the least readable version, never moves it more than
/// `max_versions`, never moves it past the target version, and leaves the
/// target version alone.
pub proof fn lemma_step_is_bounded(state: PrunerState, call: PruneCall)
    requires
        state.wf(),
    ensures
        state.step(call).wf(),
        state.step(call).target_version == state.target_version,
        state.least_readable_version <= state.step(call).least_readable_version,
        state.step(call).least_readable_version - state.least_readable_version
            <= call.max_versions,
        state.step(call).least_readable_version <= state.target_version,
{
}

/// Whatever calls are made, committed or not, the marks stay well formed and
/// the target version stays where it was.
pub proof fn lemma_run_keeps_target(state: PrunerState, calls: Seq<PruneCall>)
    requires
        state.wf(),
    ensures
        state.run(calls).wf(),
        state.run(calls).target_version == state.target_version,
        state.least_readable_version <= state.run(calls).least_readable_version,
    decreases calls.len(),
{
    if calls.len() > 0 {
        lemma_run_keeps_target(state, calls.drop_last());
        lemma_step_is_bounded(state.run(calls.drop_last()), calls.last());
    }
}

/// Over any sequence of calls the least readable version is non-decreasing:
/// after the first `later` calls it is at least what it was after the first
/// `earlier` calls.
pub proof fn lemma_least_readable_version_is_monotonic(
    state: PrunerState,
    calls: Seq<PruneCall>,
    earlier: int,
    later: int,
)
    requires
        state.wf(),
        0 <= earlier <= later <= calls.len(),
    ensures
        state.run(calls.take(earlier)).least_readable_version <= state.run(
            calls.take(later),
        ).least_readable_version,
    decreases later - earlier,
{
    if earlier < later {
        let shorter = calls.take(later - 1);
        assert(calls.take(later).drop_last() =~= shorter);
        lemma_least_readable_version_is_monotonic(state, calls, earlier, later - 1);
        lemma_run_keeps_target(state, shorter);
        lemma_step_is_bounded(state.run(shorter), calls[later - 1]);
    }
}

/// Well-formed marks are either idle or active. A committed step of a
/// positive size from active marks gains at least one version, so it either
/// reaches the target version or leaves the marks active with less to do.
pub proof fn lemma_committed_step_makes_progress(state: PrunerState, call: PruneCall)
    requires
        state.wf(),
        call.committed,
        call.max_versions > 0,
    ensures
        state.is_idle() != state.is_active(),
        state.is_active() ==> state.step(call).least_readable_version
            > state.least_readable_version,
        state.step(call).is_idle() || state.step(call).least_readable_version
            > state.least_readable_version,
{
}

/// Running two sequences of calls one after the other is running their
/// concatenation.
pub proof fn lemma_run_concat(state: PrunerState, calls: Seq<PruneCall>, further: Seq<PruneCall>)
    ensures
        state.run(calls + further) == state.run(calls).run(further),
    decreases further.len(),
{
    if further.len() > 0 {
        assert((calls + further).drop_last() =~= calls + further.drop_last());
        lemma_run_concat(state, calls, further.drop_last());
    }
}

/// With a fixed target version, committed steps of any positive sizes reach
/// it after finitely many calls: as many calls as there are versions between
/// the two marks always suffice. Whatever calls follow, committed or not and
/// of any size, the least readable version stays at the target version.
pub proof fn lemma_run_converges(
    state: PrunerState,
    calls: Seq<PruneCall>,
    further: Seq<PruneCall>,
)
    requires
        state.wf(),
        forall|i: int|
            0 <= i < calls.len() ==> (#[trigger] calls[i]).committed && calls[i].max_versions > 0,
        calls.len() >= state.target_version - state.least_readable_version,
    ensures
        state.run(calls).least_readable_version == state.target_version,
        state.run(calls).is_idle(),
        state.run(calls + further) == state.run(calls),
{
    lemma_run_gains_a_version_per_call(state, calls);
    lemma_run_keeps_target(state, calls);
    lemma_run_concat(state, calls, further);
    lemma_idle_run_changes_nothing(state.run(calls), further);
}

/// After `n` committed calls of positive sizes the least readable version has
/// reached the target version or has risen by at least `n`.
pub proof fn lemma_run_gains_a_version_per_call(state: PrunerState, calls: Seq<PruneCall>)
    requires
        state.wf(),
        forall|i: int|
            0 <= i < calls.len() ==> (#[trigger] calls[i]).committed && calls[i].max_versions > 0,
    ensures
        state.run(calls).least_readable_version == state.target_version || state.run(
            calls,
        ).least_readable_version >= state.least_readable_version + calls.len(),
    decreases calls.len(),
{
    if calls.len() > 0 {
        let before = calls.drop_last();
        lemma_run_gains_a_version_per_call(state, before);
        lemma_run_keeps_target(state, before);
        lemma_committed_step_makes_progress(state.run(before), calls.last());
        lemma_step_is_bounded(state.run(before), calls.last());
    }
}

/// At rest a step changes nothing: its range is empty and the marks stay as
/// they are, whether or not the empty batch was committed.
pub proof fn lemma_idle_step_changes_nothing(state: PrunerState, call: PruneCall)
    requires
        state.is_idle(),
    ensures
        state.batch_target(call.max_versions) == state.least_readable_version,
        state.batch_range(call.max_versions).len() == 0,
        state.step(call) == state,
{
}

/// Once the target version is reached, further calls leave the marks there.
pub proof fn lemma_idle_run_changes_nothing(state: PrunerState, calls: Seq<PruneCall>)
    requires
        state.is_idle(),
    ensures
        state.run(calls) == state,
    decreases calls.len(),
{
    if calls.len() > 0 {
        lemma_idle_run_changes_nothing(state, calls.drop_last());
        lemma_idle_step_changes_nothing(state, calls.last());
    }
}

/// Successive batches follow one another: after a committed step the next
/// batch starts where that step's batch ended, and after a step that was not
/// committed it starts where that step's batch started.
pub proof fn lemma_batches_follow_one_another(
    state: PrunerState,
    call: PruneCall,
    next_max_versions: Version,
)
    requires
        state.wf(),
    ensures
        call.committed ==> state.step(call).batch_range(next_max_versions).start
            == state.batch_range(call.max_versions).end,
        !call.committed ==> state.step(call).batch_range(next_max_versions).start
            == state.batch_range(call.max_versions).start,
        !call.committed && call.max_versions <= next_max_versions ==> state.batch_range(
            call.max_versions,
        ).end <= state.step(call).batch_range(next_max_versions).end,
{
}

/// A call whose batch was not committed leaves the marks exactly as they were.
pub proof fn lemma_failed_step_changes_nothing(state: PrunerState, call: PruneCall)
    requires
        !call.committed,
    ensures
        state.step(call) == state,
{
}

} // verus!
