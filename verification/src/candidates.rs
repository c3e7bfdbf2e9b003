//! Candidate events of one batch, and what must leave the per-key index with
//! them: the set of keys they touch and, for each key, the span of sequence
//! numbers seen under it.

use itertools::Itertools;
use std::collections::HashMap;
use std::collections::HashSet;
use vstd::prelude::*;

verus! {

/// The number under which the caller knows an event key. The key enters the
/// pruning logic only to be compared and looked up.
pub type EventKey = u64;

/// What pruning reads of an event whose version lies in the batch.
#[derive(Clone, Copy, Debug, PartialEq, Eq, Structural)]
pub struct CandidateEvent {
    pub key: EventKey,
    pub sequence_number: u64,
}

/// Every per-version list was read.
pub open spec fn all_read<E>(scanned: Seq<Result<Vec<CandidateEvent>, E>>) -> bool {
    forall|i: int| 0 <= i < scanned.len() ==> (#[trigger] scanned[i]) is Ok
}

/// `index` is where the first read failure stands.
pub open spec fn is_first_failure<E>(
    scanned: Seq<Result<Vec<CandidateEvent>, E>>,
    index: int,
) -> bool {
    &&& 0 <= index < scanned.len()
    &&& scanned[index] is Err
    &&& forall|i: int| 0 <= i < index ==> (#[trigger] scanned[i]) is Ok
}

/// The events of the per-version lists in one sequence: lists in the order
/// given, each list's events in their own order.
pub open spec fn flattened<E>(scanned: Seq<Result<Vec<CandidateEvent>, E>>) -> Seq<
    CandidateEvent,
>
    decreases scanned.len(),
{
    if scanned.len() == 0 {
        Seq::empty()
    } else {
        flattened(scanned.drop_last()) + match scanned.last() {
            Ok(events) => events@,
            Err(_) => Seq::empty(),
        }
    }
}

/// Some event in `events` carries `key`.
pub open spec fn touches(events: Seq<CandidateEvent>, key: EventKey) -> bool {
    exists|i: int| 0 <= i < events.len() && (#[trigger] events[i]).key == key
}

/// The distinct keys that `events` touch.
pub open spec fn key_set(events: Seq<CandidateEvent>) -> Set<EventKey> {
    Set::new(|key: EventKey| touches(events, key))
}

/// Some event in `events` carries `key` with this sequence number.
pub open spec fn has_sequence_number(
    events: Seq<CandidateEvent>,
    key: EventKey,
    sequence_number: u64,
) -> bool {
    exists|i: int|
        0 <= i < events.len() && (#[trigger] events[i]).key == key && events[i].sequence_number
            == sequence_number
}

/// `range` holds the least and the greatest sequence number among the events
/// of `events` that carry `key`.
pub open spec fn is_sequence_range(
    events: Seq<CandidateEvent>,
    key: EventKey,
    range: (u64, u64),
) -> bool {
    &&& has_sequence_number(events, key, range.0)
    &&& has_sequence_number(events, key, range.1)
    &&& forall|i: int|
        0 <= i < events.len() && (#[trigger] events[i]).key == key ==> range.0
            <= events[i].sequence_number <= range.1
}

/// `index` is where the first event that carries `key` stands.
pub open spec fn is_first_occurrence(events: Seq<CandidateEvent>, key: EventKey, index: int) -> bool {
    &&& 0 <= index < events.len()
    &&& events[index].key == key
    &&& forall|i: int| 0 <= i < index ==> (#[trigger] events[i]).key != key
}

/// `index` is where the last event that carries `key` stands.
pub open spec fn is_last_occurrence(events: Seq<CandidateEvent>, key: EventKey, index: int) -> bool {
    &&& 0 <= index < events.len()
    &&& events[index].key == key
    &&& forall|i: int| index < i < events.len() ==> (#[trigger] events[i]).key != key
}

/// Under each key the sequence numbers never fall from one event to a later
/// one.
pub open spec fn ordered_by_sequence_number(events: Seq<CandidateEvent>) -> bool {
    forall|i: int, j: int|
        0 <= i <= j < events.len() && (#[trigger] events[i]).key == (#[trigger] events[j]).key
            ==> events[i].sequence_number <= events[j].sequence_number
}

/// Where the events of each key come in the order of their sequence numbers,
/// the span under a key runs from the sequence number of its first event to
/// that of its last: nothing but those two events need be looked at.
pub proof fn lemma_ordered_span_is_first_to_last(
    events: Seq<CandidateEvent>,
    key: EventKey,
    first: int,
    last: int,
)
    requires
        ordered_by_sequence_number(events),
        is_first_occurrence(events, key, first),
        is_last_occurrence(events, key, last),
    ensures
        is_sequence_range(
            events,
            key,
            (events[first].sequence_number, events[last].sequence_number),
        ),
{
}

/// The span under a key is determined by the events: two pairs that both
/// hold its least and greatest sequence number are the same pair.
pub proof fn lemma_sequence_range_is_unique(
    events: Seq<CandidateEvent>,
    key: EventKey,
    range: (u64, u64),
    other: (u64, u64),
)
    requires
        is_sequence_range(events, key, range),
        is_sequence_range(events, key, other),
    ensures
        range == other,
{
}

/// What flattening makes of the per-version results: each event of a list
/// that was read, as a success of its own, and each failure as it stands, in
/// the order given.
pub open spec fn flattened_results<E>(scanned: Seq<Result<Vec<CandidateEvent>, E>>) -> Seq<
    Result<CandidateEvent, E>,
>
    decreases scanned.len(),
{
    if scanned.len() == 0 {
        Seq::empty()
    } else {
        flattened_results(scanned.drop_last()) + match scanned.last() {
            Ok(events) => Seq::new(
                events@.len(),
                |i: int| Ok::<CandidateEvent, E>(events@[i]),
            ),
            Err(failure) => seq![Err::<CandidateEvent, E>(failure)],
        }
    }
}

/// `index` is where the first failure among `items` stands.
pub open spec fn is_first_failed_item<E>(items: Seq<Result<CandidateEvent, E>>, index: int) -> bool {
    &&& 0 <= index < items.len()
    &&& items[index] is Err
    &&& forall|i: int| 0 <= i < index ==> (#[trigger] items[i]) is Ok
}

/// Calls `Itertools::flatten_ok` on the per-version results and gathers what
/// the adaptor yields. Not proved here: that it yields the events of each
/// list that was read, one success per event, and each failure unchanged, in
/// the order of the results.
#[verifier::external_body]
pub(crate) fn flatten_ok<E>(scanned: Vec<Result<Vec<CandidateEvent>, E>>) -> (items: Vec<
    Result<CandidateEvent, E>,
>)
    ensures
        items@ == flattened_results(scanned@),
{
    scanned.into_iter().flatten_ok().collect()
}

/// `result` is what gathering `items` up to the first failure gives: every
/// event where no item failed, and the first failure alone where one did.
pub open spec fn is_collected_from<E>(
    items: Seq<Result<CandidateEvent, E>>,
    result: Result<Vec<CandidateEvent>, E>,
) -> bool {
    match result {
        Ok(events) => {
            &&& events@.len() == items.len()
            &&& forall|i: int|
                0 <= i < items.len() ==> #[trigger] items[i] == Ok::<CandidateEvent, E>(events@[i])
        },
        Err(failure) => exists|i: int|
            is_first_failed_item(items, i) && #[trigger] items[i] == Err::<CandidateEvent, E>(
                failure,
            ),
    }
}

/// `result` is what the per-version results of a scan amount to: every
/// event, in order, where each list was read, and the first read failure
/// where one was not.
pub open spec fn is_candidates_of<E>(
    scanned: Seq<Result<Vec<CandidateEvent>, E>>,
    result: Result<Vec<CandidateEvent>, E>,
) -> bool {
    match result {
        Ok(events) => all_read(scanned) && events@ == flattened(scanned),
        Err(failure) => exists|i: int|
            is_first_failure(scanned, i) && #[trigger] scanned[i] == Err::<
                Vec<CandidateEvent>,
                E,
            >(failure),
    }
}

/// Gathers the events of `items` up to the first failure: all of them where
/// there is no failure, and the first failure alone where there is one.
pub fn collect_events<E>(items: Vec<Result<CandidateEvent, E>>) -> (result: Result<
    Vec<CandidateEvent>,
    E,
>)
    ensures
        is_collected_from(items@, result),
{
    let ghost all = items@;
    let mut events: Vec<CandidateEvent> = Vec::new();
    for item in it: items.into_iter()
        invariant
            it.seq() == all,
            events@.len() == it.index(),
            forall|i: int|
                0 <= i < it.index() ==> #[trigger] all[i] == Ok::<CandidateEvent, E>(events@[i]),
    {
        match item {
            Ok(event) => {
                events.push(event);
            },
            Err(failure) => {
                return Err(failure);
            },
        }
    }
    Ok(events)
}

/// Flattening and gathering agree with the per-version results: where every
/// list was read the items are the flattened events, each a success, and
/// where one was not, the first failed item is the first read failure.
pub proof fn lemma_flattened_results<E>(scanned: Seq<Result<Vec<CandidateEvent>, E>>)
    ensures
        all_read(scanned) ==> {
            &&& flattened_results(scanned).len() == flattened(scanned).len()
            &&& forall|i: int|
                0 <= i < flattened(scanned).len() ==> #[trigger] flattened_results(scanned)[i]
                    == Ok::<CandidateEvent, E>(flattened(scanned)[i])
        },
        !all_read(scanned) ==> exists|at: int, index: int|
            {
                &&& #[trigger] is_first_failure(scanned, at)
                &&& #[trigger] is_first_failed_item(flattened_results(scanned), index)
                &&& flattened_results(scanned)[index]->Err_0 == scanned[at]->Err_0
            },
    decreases scanned.len(),
{
    if scanned.len() > 0 {
        let before = scanned.drop_last();
        let items_before = flattened_results(before);
        let items = flattened_results(scanned);
        lemma_flattened_results(before);
        assert forall|i: int| 0 <= i < before.len() implies (#[trigger] scanned[i]) is Ok
            == before[i] is Ok by {
            assert(before[i] == scanned[i]);
        }
        if all_read(before) {
            if scanned.last() is Err {
                assert(is_first_failure(scanned, scanned.len() - 1));
                assert(is_first_failed_item(items, items_before.len() as int));
            }
        } else {
            let (at, index) = choose|at: int, index: int|
                {
                    &&& #[trigger] is_first_failure(before, at)
                    &&& #[trigger] is_first_failed_item(items_before, index)
                    &&& items_before[index]->Err_0 == before[at]->Err_0
                };
            assert(is_first_failure(scanned, at));
            assert(is_first_failed_item(items, index));
        }
    }
}

/// Gathering the flattened results of a scan gives what the scan amounts to.
pub proof fn lemma_collected_candidates<E>(
    scanned: Seq<Result<Vec<CandidateEvent>, E>>,
    result: Result<Vec<CandidateEvent>, E>,
)
    requires
        is_collected_from(flattened_results(scanned), result),
    ensures
        is_candidates_of(scanned, result),
        result is Ok <==> all_read(scanned),
{
    let items = flattened_results(scanned);
    lemma_flattened_results(scanned);
    if result is Ok && all_read(scanned) {
        let events = result->Ok_0;
        assert forall|i: int| 0 <= i < events@.len() implies events@[i] == flattened(scanned)[i] by {
            assert(items[i] == Ok::<CandidateEvent, E>(flattened(scanned)[i]));
        }
        assert(events@ =~= flattened(scanned));
    }
}

proof fn lemma_touches_push(events: Seq<CandidateEvent>, n: int, key: EventKey)
    requires
        0 <= n < events.len(),
    ensures
        touches(events.take(n + 1), key) <==> touches(events.take(n), key) || events[n].key == key,
{
    if events[n].key == key {
        assert(events.take(n + 1)[n].key == key);
    }
}

proof fn lemma_key_set_push(events: Seq<CandidateEvent>, n: int)
    requires
        0 <= n < events.len(),
    ensures
        key_set(events.take(n + 1)) == key_set(events.take(n)).insert(events[n].key),
{
    assert forall|key: EventKey|
        key_set(events.take(n + 1)).contains(key) <==> key_set(events.take(n)).insert(
            events[n].key,
        ).contains(key) by {
        lemma_touches_push(events, n, key);
    }
}

proof fn lemma_has_sequence_number_push(
    events: Seq<CandidateEvent>,
    n: int,
    key: EventKey,
    sequence_number: u64,
)
    requires
        0 <= n < events.len(),
        has_sequence_number(events.take(n), key, sequence_number) || (events[n].key == key
            && events[n].sequence_number == sequence_number),
    ensures
        has_sequence_number(events.take(n + 1), key, sequence_number),
{
    if !has_sequence_number(events.take(n), key, sequence_number) {
        let longer = events.take(n + 1);
        assert(longer[n].key == key && longer[n].sequence_number == sequence_number);
    }
}

/// How the span under `key` changes when the event at index `n` joins the
/// first `n` events.
proof fn lemma_sequence_range_push(
    events: Seq<CandidateEvent>,
    n: int,
    key: EventKey,
    range: (u64, u64),
    wider: (u64, u64),
)
    requires
        0 <= n < events.len(),
        events[n].key != key ==> is_sequence_range(events.take(n), key, range) && wider == range,
        events[n].key == key && !touches(events.take(n), key) ==> wider == (
            events[n].sequence_number,
            events[n].sequence_number,
        ),
        events[n].key == key && touches(events.take(n), key) ==> {
            &&& is_sequence_range(events.take(n), key, range)
            &&& wider.0 == vstd::math::min(range.0 as int, events[n].sequence_number as int)
            &&& wider.1 == vstd::math::max(range.1 as int, events[n].sequence_number as int)
        },
    ensures
        is_sequence_range(events.take(n + 1), key, wider),
{
    lemma_has_sequence_number_push(events, n, key, wider.0);
    lemma_has_sequence_number_push(events, n, key, wider.1);
}

/// Collects the distinct keys that the candidate events touch.
pub fn event_keys(events: &Vec<CandidateEvent>) -> (keys: HashSet<EventKey>)
    ensures
        keys@ == key_set(events@),
{
    let mut keys: HashSet<EventKey> = HashSet::new();
    let mut n: usize = 0;
    while n < events.len()
        invariant
            n <= events.len(),
            keys@ == key_set(events@.take(n as int)),
        decreases events.len() - n,
    {
        proof {
            lemma_key_set_push(events@, n as int);
        }
        keys.insert(events[n].key);
        n += 1;
    }
    assert(events@.take(n as int) =~= events@);
    keys
}

/// For each key that the candidate events touch, finds the least and the
/// greatest sequence number among the events that carry it.
pub fn sequence_range_by_event_keys(events: &Vec<CandidateEvent>) -> (ranges: HashMap<
    EventKey,
    (u64, u64),
>)
    ensures
        ranges@.dom() == key_set(events@),
        forall|key: EventKey| #[trigger]
            ranges@.contains_key(key) ==> is_sequence_range(events@, key, ranges@[key]),
{
    let mut ranges: HashMap<EventKey, (u64, u64)> = HashMap::new();
    let mut n: usize = 0;
    while n < events.len()
        invariant
            n <= events.len(),
            ranges@.dom() == key_set(events@.take(n as int)),
            forall|key: EventKey| #[trigger]
                ranges@.contains_key(key) ==> is_sequence_range(
                    events@.take(n as int),
                    key,
                    ranges@[key],
                ),
        decreases events.len() - n,
    {
        let event = events[n];
        let ghost before = ranges@;
        let seen: Option<(u64, u64)> = match ranges.get(&event.key) {
            Some(range) => Some(*range),
            None => None,
        };
        let wider: (u64, u64) = match seen {
            Some(range) => {
                let lowest: u64 = if event.sequence_number < range.0 {
                    event.sequence_number
                } else {
                    range.0
                };
                let highest: u64 = if event.sequence_number > range.1 {
                    event.sequence_number
                } else {
                    range.1
                };
                (lowest, highest)
            },
            None => (event.sequence_number, event.sequence_number),
        };
        ranges.insert(event.key, wider);
        proof {
            lemma_key_set_push(events@, n as int);
            assert forall|key: EventKey| #[trigger] ranges@.contains_key(key) implies is_sequence_range(
                events@.take(n + 1),
                key,
                ranges@[key],
            ) by {
                if key == event.key {
                    if before.contains_key(key) {
                        lemma_sequence_range_push(events@, n as int, key, before[key], wider);
                    } else {
                        lemma_sequence_range_push(events@, n as int, key, wider, wider);
                    }
                } else {
                    lemma_sequence_range_push(events@, n as int, key, before[key], before[key]);
                }
            }
        }
        n += 1;
    }
    assert(events@.take(n as int) =~= events@);
    ranges
}

} // verus!
