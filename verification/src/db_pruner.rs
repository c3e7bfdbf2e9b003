//! The contract that every pruner offers to the driver that calls it.

use crate::progress::current_batch_target;
use crate::progress::first_version;
use crate::progress::gauge_reading;
use crate::progress::lowest_version;
use crate::progress::progress_gauge_reading;
use crate::progress::PruneCall;
use crate::progress::PrunerState;
use crate::progress::Version;
use vstd::prelude::*;

verus! {

/// A pruner of one data domain. Its view is its pair of progress marks, which
/// are well formed at all times.
pub trait DBPruner: View<V = PrunerState> + Sized {
    /// The pruner's fixed name, under which its progress is published.
    fn name(&self) -> (name: &'static str);

    /// Ends a step of at most `max_versions` versions, given how the work on
    /// the store went: reading what the step needs, enqueueing its deletions
    /// and committing them as one batch. The work is that of the batch
    /// prepared for the same `max_versions` from the marks as they are now.
    /// After success the least readable version is the batch target, which
    /// is returned; at rest that is the version it already was. After a
    /// failure nothing is recorded and the failure is returned as it came.
    fn prune<E>(&mut self, max_versions: Version, outcome: Result<(), E>) -> (result: Result<
        Version,
        E,
    >)
        ensures
            final(self)@ == old(self)@.step(
                PruneCall { max_versions, committed: outcome is Ok },
            ),
            match outcome {
                Ok(_) => result == Ok::<Version, E>(old(self)@.batch_target(max_versions)),
                Err(failure) => result == Err::<Version, E>(failure) && final(self)@ == old(self)@,
            },
            result matches Ok(version) ==> final(self)@.least_readable_version == version,
            final(self)@.wf(),
            final(self)@.target_version == old(self)@.target_version,
            old(self)@.least_readable_version <= final(self)@.least_readable_version,
            final(self)@.least_readable_version - old(self)@.least_readable_version
                <= max_versions,
            old(self)@.is_idle() ==> final(self)@ == old(self)@,
            old(self)@.is_idle() && outcome is Ok ==> result == Ok::<Version, E>(
                old(self)@.least_readable_version,
            ),
    {
        let current_target_version = self.get_current_batch_target(max_versions);
        match outcome {
            Ok(_) => {
                self.record_progress(current_target_version);
                Ok(current_target_version)
            },
            Err(failure) => Err(failure),
        }
    }

    /// Finds the least readable version of a store after a restart from the
    /// first entry of the pruner's primary schema, given as the version in
    /// its key: version 0 for a schema without entries, and the failure as it
    /// came if the entry could not be read.
    fn initialize_least_readable_version<E>(
        &self,
        first_entry: Option<Result<Version, E>>,
    ) -> (result: Result<Version, E>)
        ensures
            result == lowest_version(first_entry),
    {
        first_version(first_entry)
    }

    /// The version below which data is no longer guaranteed readable.
    fn least_readable_version(&self) -> (version: Version)
        ensures
            version == self@.least_readable_version,
            version <= self@.target_version,
    ;

    /// Sets the version to work toward. It may not lie below the least
    /// readable version.
    fn set_target_version(&mut self, target_version: Version)
        requires
            old(self)@.least_readable_version <= target_version,
        ensures
            final(self)@ == old(self)@.retargeted(target_version),
            final(self)@.wf(),
    ;

    /// The version the pruner works toward.
    fn target_version(&self) -> (version: Version)
        ensures
            version == self@.target_version,
            self@.least_readable_version <= version,
    ;

    /// Records `least_readable_version` as reached. It lies between the two
    /// marks: progress is never taken back and never passes the target.
    fn record_progress(&mut self, least_readable_version: Version)
        requires
            old(self)@.least_readable_version <= least_readable_version <= old(
                self,
            )@.target_version,
        ensures
            final(self)@ == old(self)@.advanced_to(least_readable_version),
            final(self)@.wf(),
    ;

    /// The reading to set on the progress gauge under the label `name()`: the
    /// least readable version as a signed 64-bit number.
    fn progress_gauge(&self) -> (reading: i64)
        ensures
            reading == gauge_reading(self@.least_readable_version),
    {
        progress_gauge_reading(self.least_readable_version())
    }

    /// Where a step of at most `max_versions` versions ends.
    fn get_current_batch_target(&self, max_versions: Version) -> (end: Version)
        ensures
            end == self@.batch_target(max_versions),
            self@.least_readable_version <= end <= self@.target_version,
            end - self@.least_readable_version <= max_versions,
    {
        current_batch_target(self.least_readable_version(), self.target_version(), max_versions)
    }
}

} // verus!
