//! The pruner of the write-set log, which is keyed by version alone and has
//! no index to reconcile.

use crate::db_pruner::DBPruner;
use crate::progress::first_version;
use crate::progress::lowest_version;
use crate::progress::PrunerState;
use crate::progress::Version;
use crate::progress::VersionRange;
use vstd::prelude::*;

verus! {

pub const TRANSACTION_STORE_PRUNER_NAME: &'static str = "transaction store pruner";

/// Prunes the write-set log in bounded steps.
pub struct WriteSetPruner {
    state: PrunerState,
}

impl View for WriteSetPruner {
    type V = PrunerState;

    closed spec fn view(&self) -> PrunerState {
        self.state
    }
}

impl WriteSetPruner {
    #[verifier::type_invariant]
    spec fn marks_in_order(self) -> bool {
        self.state.wf()
    }

    /// Builds the pruner of a store from the first entry of the write-set log, given
    /// as the version that is its key. The least readable version is recovered from
    /// it: version 0 for a log without entries, the entry's version otherwise.
    /// The target version starts at the same version, so nothing is pruned
    /// until the driver sets a target. If the entry could not be read, no
    /// pruner is built and the failure is returned as it came.
    pub fn new<E>(first_entry: Option<Result<Version, E>>) -> (result: Result<Self, E>)
        ensures
            match lowest_version(first_entry) {
                Ok(version) => result matches Ok(pruner) && pruner@ == PrunerState::starting_at(
                    version,
                ),
                Err(failure) => result matches Err(e) && e == failure,
            },
            result matches Ok(pruner) ==> pruner@.wf() && pruner@.is_idle(),
    {
        match first_version(first_entry) {
            Ok(version) => Ok(
                WriteSetPruner {
                    state: PrunerState { least_readable_version: version, target_version: version },
                },
            ),
            Err(failure) => Err(failure),
        }
    }

    /// The one deletion of a step of at most `max_versions` versions: the
    /// write sets at these versions. The caller enqueues it into a write batch
    /// and commits the batch. At rest the range is empty.
    pub fn prepare_batch(&self, max_versions: Version) -> (versions: VersionRange)
        ensures
            versions == self@.batch_range(max_versions),
            versions.start <= versions.end,
            versions.len() <= max_versions,
            self@.is_idle() ==> versions.len() == 0,
    {
        proof {
            use_type_invariant(self);
        }
        VersionRange {
            start: self.state.least_readable_version,
            end: self.get_current_batch_target(max_versions),
        }
    }
}

impl DBPruner for WriteSetPruner {
    fn name(&self) -> (name: &'static str)
        ensures
            name@ == TRANSACTION_STORE_PRUNER_NAME@,
    {
        TRANSACTION_STORE_PRUNER_NAME
    }

    fn least_readable_version(&self) -> (version: Version) {
        proof {
            use_type_invariant(self);
        }
        self.state.least_readable_version
    }

    fn set_target_version(&mut self, target_version: Version) {
        self.state.target_version = target_version;
    }

    fn target_version(&self) -> (version: Version) {
        proof {
            use_type_invariant(self);
        }
        self.state.target_version
    }

    fn record_progress(&mut self, least_readable_version: Version) {
        self.state.least_readable_version = least_readable_version;
    }
}

} // verus!
