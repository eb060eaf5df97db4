//! One worker: it tries the ids of its chunk one after the other.
//!
//! The probe itself is made by the caller. A `Worker` says which hostname to
//! probe next and takes the outcome back; `worker_task` does the same for a
//! whole chunk whose outcomes are already known.

use crate::classify::{classify, classify_spec, Classification, ProbeOutcome};
use crate::country::CountryCode;
use crate::hostname::{get_vpn_string, hostname};
use crate::ipv4::Ipv4Addr;
use crate::models::{records, MatchRecord, SearchFilter, WorkerRequest, WorkerResponse};
use vstd::prelude::*;

verus! {

/// The record that a worker emits for the candidate `id` under `prefix`
/// whose probe gave `outcome`, when `target` is wanted: one for an exact or
/// a partial match, none otherwise.
pub open spec fn response_spec(
    prefix: Seq<char>,
    id: u32,
    outcome: ProbeOutcome,
    target: Ipv4Addr,
) -> Option<MatchRecord> {
    match outcome {
        ProbeOutcome::Unresolved => None,
        ProbeOutcome::Resolved(addr) => match classify_spec(outcome, target).match_type_spec() {
            None => None,
            Some(kind) => Some(
                MatchRecord { match_type: kind, host: hostname(prefix, id as nat), ip: addr },
            ),
        },
    }
}

/// The outcome of the probe at place `i` of `outcomes`; a probe of which
/// nothing is known counts as unresolved.
pub open spec fn outcome_at(outcomes: Seq<ProbeOutcome>, i: int) -> ProbeOutcome {
    if 0 <= i < outcomes.len() {
        outcomes[i]
    } else {
        ProbeOutcome::Unresolved
    }
}

/// The records emitted for the ids at the places `lo` up to `hi` of `ids`,
/// in that order, where `outcomes` holds the outcome of each id's probe at
/// the id's own place.
pub open spec fn scan_range(
    prefix: Seq<char>,
    ids: Seq<u32>,
    outcomes: Seq<ProbeOutcome>,
    target: Ipv4Addr,
    lo: int,
    hi: int,
) -> Seq<MatchRecord>
    decreases hi - lo,
{
    if hi <= lo {
        Seq::empty()
    } else {
        let before = scan_range(prefix, ids, outcomes, target, lo, hi - 1);
        match response_spec(prefix, ids[hi - 1], outcome_at(outcomes, hi - 1), target) {
            Some(record) => before.push(record),
            None => before,
        }
    }
}

/// The records emitted for all of `ids`, in the order of the ids.
pub open spec fn scan(
    prefix: Seq<char>,
    ids: Seq<u32>,
    outcomes: Seq<ProbeOutcome>,
    target: Ipv4Addr,
) -> Seq<MatchRecord> {
    scan_range(prefix, ids, outcomes, target, 0, ids.len() as int)
}

/// Judge one candidate: the record to emit for `item`, if its outcome
/// matches the wanted address.
pub fn worker_step(
    country_code: &CountryCode,
    item: u32,
    outcome: ProbeOutcome,
    filter: &SearchFilter,
) -> (response: Option<WorkerResponse>)
    ensures
        match response_spec(country_code.code_spec(), item, outcome, filter.ip) {
            Some(record) => response matches Some(found) && found@ == record,
            None => response is None,
        },
{
    match outcome {
        ProbeOutcome::Unresolved => None,
        ProbeOutcome::Resolved(addr) => match classify(outcome, filter.ip).match_type() {
            None => None,
            Some(kind) => Some(
                WorkerResponse {
                    match_type: kind,
                    host: get_vpn_string(country_code, &item),
                    ip: addr,
                },
            ),
        },
    }
}

/// Go through a chunk whose probes have been made: `outcomes` holds, at the
/// place of each id of `payload`, what its probe gave. Returns the matches,
/// in the order of the ids. An id without an outcome counts as unresolved.
pub fn worker_task(filter: &SearchFilter, payload: &WorkerRequest, outcomes: &Vec<ProbeOutcome>) -> (found:
    Vec<WorkerResponse>)
    ensures
        records(found@) == scan(
            payload.country_code.code_spec(),
            payload.data@,
            outcomes@,
            filter.ip,
        ),
{
    let ghost prefix = payload.country_code.code_spec();
    let mut found: Vec<WorkerResponse> = Vec::new();
    let mut i: usize = 0;
    assert(records(found@) =~= Seq::<MatchRecord>::empty());
    while i < payload.data.len()
        invariant
            i <= payload.data@.len(),
            prefix == payload.country_code.code_spec(),
            records(found@) == scan_range(
                prefix,
                payload.data@,
                outcomes@,
                filter.ip,
                0,
                i as int,
            ),
        decreases payload.data@.len() - i,
    {
        let outcome = if i < outcomes.len() {
            outcomes[i]
        } else {
            ProbeOutcome::Unresolved
        };
        let ghost before = found@;
        match worker_step(&payload.country_code, payload.data[i], outcome, filter) {
            Some(response) => {
                found.push(response);
                assert(records(found@) =~= records(before).push(response@));
            },
            None => {},
        }
        i += 1;
    }
    found
}

/// What a worker tells the progress display.
#[derive(Clone, Copy, Debug, PartialEq, Eq, Structural)]
pub enum ProgressEvent {
    /// The worker has dealt with one more candidate.
    Increment { worker_id: usize },
    /// The worker has gone through its whole chunk.
    Done { worker_id: usize },
}

/// What a worker wants done next.
#[derive(Debug, PartialEq, Eq)]
pub enum WorkerAction {
    /// Probe this hostname and hand the outcome to `record`.
    Probe(String),
    /// Nothing is left: signal completion.
    Finish(ProgressEvent),
}

/// What a worker emits after one probe.
#[derive(Debug, PartialEq, Eq)]
pub struct StepResult {
    /// The match to send to the coordinator, if the candidate matched.
    pub response: Option<WorkerResponse>,
    /// The progress to show, if a candidate was dealt with.
    pub progress: Option<ProgressEvent>,
}

/// A worker at some point of its chunk.
#[derive(Debug, PartialEq, Eq)]
pub struct Worker {
    pub worker_id: usize,
    pub filter: SearchFilter,
    pub payload: WorkerRequest,
    /// How many ids of the chunk have been dealt with.
    pub position: usize,
}

impl Worker {
    /// Whether ids are left to try.
    pub open spec fn pending(self) -> bool {
        self.position < self.payload.data@.len()
    }

    /// The prefix of this worker's hostnames.
    pub open spec fn prefix(self) -> Seq<char> {
        self.payload.country_code.code_spec()
    }

    /// A worker at the start of its chunk.
    pub fn new(worker_id: usize, filter: SearchFilter, payload: WorkerRequest) -> (worker: Worker)
        ensures
            worker.worker_id == worker_id,
            worker.filter == filter,
            worker.payload == payload,
            worker.position == 0,
    {
        Worker { worker_id, filter, payload, position: 0 }
    }

    /// What to do next: probe the hostname of the next id, or, when the
    /// chunk is exhausted, signal completion.
    pub fn next_action(&self) -> (action: WorkerAction)
        ensures
            self.pending() ==> (action matches WorkerAction::Probe(name) && name@ == hostname(
                self.prefix(),
                self.payload.data@[self.position as int] as nat,
            )),
            !self.pending() ==> (action matches WorkerAction::Finish(event) && event == (
            ProgressEvent::Done { worker_id: self.worker_id })),
    {
        if self.position < self.payload.data.len() {
            WorkerAction::Probe(
                get_vpn_string(&self.payload.country_code, &self.payload.data[self.position]),
            )
        } else {
            WorkerAction::Finish(ProgressEvent::Done { worker_id: self.worker_id })
        }
    }

    /// Take the outcome of the probe of the next id: emit its record if it
    /// matches, count one candidate of progress, and move on to the id after
    /// it. On an exhausted chunk nothing is emitted and nothing changes.
    pub fn record(&mut self, outcome: ProbeOutcome) -> (step: StepResult)
        ensures
            final(self).worker_id == old(self).worker_id,
            final(self).filter == old(self).filter,
            final(self).payload == old(self).payload,
            old(self).pending() ==> {
                &&& final(self).position == old(self).position + 1
                &&& step.progress == Some(ProgressEvent::Increment { worker_id: old(self).worker_id })
                &&& match response_spec(
                    old(self).prefix(),
                    old(self).payload.data@[old(self).position as int],
                    outcome,
                    old(self).filter.ip,
                ) {
                    Some(record) => step.response matches Some(found) && found@ == record,
                    None => step.response is None,
                }
            },
            !old(self).pending() ==> {
                &&& final(self).position == old(self).position
                &&& step.progress is None
                &&& step.response is None
            },
    {
        if self.position < self.payload.data.len() {
            let response = worker_step(
                &self.payload.country_code,
                self.payload.data[self.position],
                outcome,
                &self.filter,
            );
            self.position = self.position + 1;
            StepResult {
                response,
                progress: Some(ProgressEvent::Increment { worker_id: self.worker_id }),
            }
        } else {
            StepResult { response: None, progress: None }
        }
    }
}

/// The records of a stretch of ids are those of its first part followed by
/// those of the rest.
pub proof fn lemma_scan_range_split(
    prefix: Seq<char>,
    ids: Seq<u32>,
    outcomes: Seq<ProbeOutcome>,
    target: Ipv4Addr,
    lo: int,
    mid: int,
    hi: int,
)
    requires
        lo <= mid <= hi,
    ensures
        scan_range(prefix, ids, outcomes, target, lo, hi) == scan_range(
            prefix,
            ids,
            outcomes,
            target,
            lo,
            mid,
        ) + scan_range(prefix, ids, outcomes, target, mid, hi),
    decreases hi - mid,
{
    let left = scan_range(prefix, ids, outcomes, target, lo, mid);
    if hi == mid {
        assert(left + Seq::<MatchRecord>::empty() =~= left);
    } else {
        lemma_scan_range_split(prefix, ids, outcomes, target, lo, mid, hi - 1);
        let right = scan_range(prefix, ids, outcomes, target, mid, hi - 1);
        match response_spec(prefix, ids[hi - 1], outcome_at(outcomes, hi - 1), target) {
            Some(record) => {
                assert((left + right).push(record) =~= left + right.push(record));
            },
            None => {},
        }
    }
}

/// A chunk cut out of a list, with the outcomes cut out at the same places,
/// gives the records that the list gives on that stretch.
pub proof fn lemma_scan_of_chunk(
    prefix: Seq<char>,
    ids: Seq<u32>,
    outcomes: Seq<ProbeOutcome>,
    target: Ipv4Addr,
    lo: int,
    hi: int,
    part: Seq<u32>,
    part_outcomes: Seq<ProbeOutcome>,
    k: int,
)
    requires
        0 <= lo <= hi <= ids.len(),
        part == ids.subrange(lo, hi),
        0 <= k <= hi - lo,
        forall|j: int| 0 <= j < hi - lo ==> outcome_at(part_outcomes, j) == outcome_at(outcomes, lo + j),
    ensures
        scan_range(prefix, part, part_outcomes, target, 0, k) == scan_range(
            prefix,
            ids,
            outcomes,
            target,
            lo,
            lo + k,
        ),
    decreases k,
{
    if k > 0 {
        lemma_scan_of_chunk(prefix, ids, outcomes, target, lo, hi, part, part_outcomes, k - 1);
        assert(part[k - 1] == ids[lo + k - 1]);
        assert(outcome_at(part_outcomes, k - 1) == outcome_at(outcomes, lo + (k - 1)));
    }
}

/// No candidate is reported twice: a stretch of ids gives at most as many
/// records as it holds ids.
pub proof fn lemma_scan_range_len(
    prefix: Seq<char>,
    ids: Seq<u32>,
    outcomes: Seq<ProbeOutcome>,
    target: Ipv4Addr,
    lo: int,
    hi: int,
)
    requires
        lo <= hi,
    ensures
        scan_range(prefix, ids, outcomes, target, lo, hi).len() <= hi - lo,
    decreases hi - lo,
{
    if lo < hi {
        lemma_scan_range_len(prefix, ids, outcomes, target, lo, hi - 1);
    }
}

/// Where every probe of a stretch is classified as no match, the stretch
/// gives no record.
pub proof fn lemma_scan_range_without_match(
    prefix: Seq<char>,
    ids: Seq<u32>,
    outcomes: Seq<ProbeOutcome>,
    target: Ipv4Addr,
    lo: int,
    hi: int,
)
    requires
        forall|i: int|
            lo <= i < hi ==> classify_spec(#[trigger] outcome_at(outcomes, i), target)
                == Classification::NoMatch,
    ensures
        scan_range(prefix, ids, outcomes, target, lo, hi) == Seq::<MatchRecord>::empty(),
    decreases hi - lo,
{
    if lo < hi {
        lemma_scan_range_without_match(prefix, ids, outcomes, target, lo, hi - 1);
        assert(classify_spec(outcome_at(outcomes, hi - 1), target) == Classification::NoMatch);
    }
}

} // verus!
