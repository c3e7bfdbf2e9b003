//! The pruner of the event log and of the three structures that must stay
//! consistent with it: the per-key index, the accumulator and the
//! version-keyed schema index.

use crate::candidates::all_read;
use crate::candidates::collect_events;
use crate::candidates::event_keys;
use crate::candidates::flatten_ok;
use crate::candidates::flattened;
use crate::candidates::is_candidates_of;
use crate::candidates::lemma_collected_candidates;
use crate::candidates::is_sequence_range;
use crate::candidates::key_set;
use crate::candidates::sequence_range_by_event_keys;
use crate::candidates::CandidateEvent;
use crate::candidates::EventKey;
use crate::db_pruner::DBPruner;
use crate::progress::first_version;
use crate::progress::lowest_version;
use crate::progress::PrunerState;
use crate::progress::Version;
use crate::progress::VersionRange;
use std::collections::HashMap;
use std::collections::HashSet;
use vstd::prelude::*;

verus! {

pub const EVENT_STORE_PRUNER_NAME: &'static str = "event store pruner";

/// The deletions of one step of the event store pruner. The caller enqueues
/// them into one write batch, in this order, and commits the batch as a whole:
/// from the event log, the events of `event_keys` at the versions of
/// `versions`; from the per-key index, for each key of
/// `sequence_range_by_event_keys`, the entries from the first to the second
/// sequence number of its pair, both included; from the accumulator, the
/// entries at the versions of `versions`; from the schema index, the entries
/// at the versions of `versions`.
pub struct EventPruneBatch {
    pub versions: VersionRange,
    pub event_keys: HashSet<EventKey>,
    pub sequence_range_by_event_keys: HashMap<EventKey, (u64, u64)>,
}

impl EventPruneBatch {
    /// The batch covers no version and names no key: committing it changes
    /// nothing in the store.
    pub open spec fn is_empty_effect(self) -> bool {
        &&& self.versions.len() == 0
        &&& self.event_keys@ == Set::<EventKey>::empty()
        &&& self.sequence_range_by_event_keys@.dom() == Set::<EventKey>::empty()
    }

    /// The batch is the one that belongs to a step of at most `max_versions`
    /// versions from `state`, given the candidate events of that step.
    pub open spec fn is_batch_of(
        self,
        state: PrunerState,
        max_versions: Version,
        candidates: Seq<CandidateEvent>,
    ) -> bool {
        &&& self.versions == state.batch_range(max_versions)
        &&& self.event_keys@ == key_set(candidates)
        &&& self.sequence_range_by_event_keys@.dom() == key_set(candidates)
        &&& forall|key: EventKey| #[trigger]
            self.sequence_range_by_event_keys@.contains_key(key) ==> is_sequence_range(
                candidates,
                key,
                self.sequence_range_by_event_keys@[key],
            )
    }
}

/// Prunes the event log in bounded steps.
pub struct EventStorePruner {
    state: PrunerState,
}

impl View for EventStorePruner {
    type V = PrunerState;

    closed spec fn view(&self) -> PrunerState {
        self.state
    }
}

impl EventStorePruner {
    #[verifier::type_invariant]
    spec fn marks_in_order(self) -> bool {
        self.state.wf()
    }

    /// Builds the pruner of a store from the first entry of the event log, given
    /// as the version in its key. The least readable version is recovered from
    /// it: version 0 for a log without entries, the entry's version otherwise.
    /// The target version starts at the same version, so nothing is pruned
    /// until the driver sets a target. If the entry could not be read, no
    /// pruner is built and the failure is returned as it came.
    pub fn new<E>(first_entry: Option<Result<Version, E>>) -> (result: Result<Self, E>)
        ensures
            match lowest_version(first_entry) {
                Ok(version) => result matches Ok(pruner) && pruner@ == PrunerState::starting_at(
                    version,
                ),
                Err(failure) => result matches Err(e) && e == failure,
            },
            result matches Ok(pruner) ==> pruner@.wf() && pruner@.is_idle(),
    {
        match first_version(first_entry) {
            Ok(version) => Ok(
                EventStorePruner {
                    state: PrunerState { least_readable_version: version, target_version: version },
                },
            ),
            Err(failure) => Err(failure),
        }
    }

    /// The versions whose events a step of at most `max_versions` versions
    /// has to read from the event log, in version order, as its candidates.
    pub fn candidate_range(&self, max_versions: Version) -> (range: VersionRange)
        ensures
            range == self@.batch_range(max_versions),
            range.start <= range.end,
            range.len() <= max_versions,
    {
        proof {
            use_type_invariant(self);
        }
        VersionRange {
            start: self.state.least_readable_version,
            end: self.get_current_batch_target(max_versions),
        }
    }

    /// Turns what a scan of the event log over `candidate_range` yielded, one
    /// result per version in version order, into the candidate events of the
    /// step. A scan that failed anywhere yields its first failure, as it
    /// came, and no events.
    pub fn get_pruning_candidate_events<E>(
        &self,
        scanned: Vec<Result<Vec<CandidateEvent>, E>>,
    ) -> (result: Result<Vec<CandidateEvent>, E>)
        ensures
            is_candidates_of(scanned@, result),
            result is Ok <==> all_read(scanned@),
            result matches Ok(events) ==> events@ == flattened(scanned@),
    {
        let items = flatten_ok(scanned);
        let result = collect_events(items);
        proof {
            lemma_collected_candidates(scanned@, result);
        }
        result
    }

    /// Derives the deletions of a step of at most `max_versions` versions
    /// from its candidate events: the version range, the keys touched, and for
    /// each key the least and greatest sequence number seen under it. With no
    /// candidates the batch names no key and still covers the range.
    pub fn prepare_batch(&self, max_versions: Version, candidates: &Vec<CandidateEvent>) -> (batch:
        EventPruneBatch)
        ensures
            batch.is_batch_of(self@, max_versions, candidates@),
            batch.versions.start == self@.least_readable_version,
            batch.versions.end == self@.batch_target(max_versions),
            candidates@.len() == 0 ==> batch.event_keys@ == Set::<EventKey>::empty()
                && batch.sequence_range_by_event_keys@.dom() == Set::<EventKey>::empty(),
            self@.is_idle() && candidates@.len() == 0 ==> batch.is_empty_effect(),
    {
        let versions = self.candidate_range(max_versions);
        let event_keys = event_keys(candidates);
        let sequence_range_by_event_keys = sequence_range_by_event_keys(candidates);
        proof {
            if candidates@.len() == 0 {
                assert(key_set(candidates@) =~= Set::<EventKey>::empty());
            }
        }
        EventPruneBatch { versions, event_keys, sequence_range_by_event_keys }
    }
}

impl DBPruner for EventStorePruner {
    fn name(&self) -> (name: &'static str)
        ensures
            name@ == EVENT_STORE_PRUNER_NAME@,
    {
        EVENT_STORE_PRUNER_NAME
    }

    fn least_readable_version(&self) -> (version: Version) {
        proof {
            use_type_invariant(self);
        }
        self.state.least_readable_version
    }

    fn set_target_version(&mut self, target_version: Version) {
        self.state.target_version = target_version;
    }

    fn target_version(&self) -> (version: Version) {
        proof {
            use_type_invariant(self);
        }
        self.state.target_version
    }

    fn record_progress(&mut self, least_readable_version: Version) {
        self.state.least_readable_version = least_readable_version;
    }
}

} // verus!
