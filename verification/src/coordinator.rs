//! The search as a whole: split the ids, let each worker go through its
//! chunk, and report on what they found.

use crate::classify::ProbeOutcome;
use crate::country::CountryCode;
use crate::error::ConfigurationError;
use crate::ipv4::{blacklisted, is_blacklisted, same_subnet, zero_address, Ipv4Addr};
use crate::models::{records, MatchRecord, MatchType, SearchFilter, WorkerResponse};
use crate::partition::{
    chunk, chunk_count, chunk_end, chunk_start, lemma_chunk_bounds, partition, IdRange,
};
use crate::report::{build_report, kind_is, of_kind, report_spec, Report, ReportView};
use crate::worker::{
    lemma_scan_of_chunk, lemma_scan_range_split, lemma_scan_range_without_match, outcome_at, scan,
    scan_range, worker_task,
};
use vstd::prelude::*;

verus! {

/// The outcomes of the probes at the places `lo` up to `lo + count` of
/// `outcomes`; a place that `outcomes` lacks counts as unresolved.
fn outcomes_of_chunk(outcomes: &Vec<ProbeOutcome>, lo: usize, count: usize) -> (part: Vec<
    ProbeOutcome,
>)
    requires
        lo + count <= usize::MAX,
    ensures
        part@.len() == count,
        forall|j: int| 0 <= j < count ==> part@[j] == outcome_at(outcomes@, lo + j),
{
    let mut part: Vec<ProbeOutcome> = Vec::new();
    let mut j: usize = 0;
    while j < count
        invariant
            j <= count,
            lo + count <= usize::MAX,
            part@.len() == j,
            forall|t: int| 0 <= t < j ==> part@[t] == outcome_at(outcomes@, lo + t),
        decreases count - j,
    {
        let outcome = if lo + j < outcomes.len() {
            outcomes[lo + j]
        } else {
            ProbeOutcome::Unresolved
        };
        part.push(outcome);
        j += 1;
    }
    part
}

/// What stands against a search for `match_ip` on `thread_count` workers,
/// if anything does: no worker at all, or, that aside, a wanted address that
/// no search may look for.
pub open spec fn configuration_fault(match_ip: Ipv4Addr, thread_count: usize) -> Option<
    ConfigurationError,
> {
    if thread_count == 0 {
        Some(ConfigurationError::NoWorkers)
    } else if blacklisted(match_ip) {
        Some(ConfigurationError::BlacklistedAddress)
    } else {
        None
    }
}

/// Check what a search was asked for, before any work starts.
pub fn check_configuration(match_ip: &Ipv4Addr, thread_count: usize) -> (r: Result<
    (),
    ConfigurationError,
>)
    ensures
        match configuration_fault(*match_ip, thread_count) {
            Some(fault) => r == Err::<(), ConfigurationError>(fault),
            None => r is Ok,
        },
{
    if thread_count == 0 {
        Err(ConfigurationError::NoWorkers)
    } else if is_blacklisted(match_ip) {
        Err(ConfigurationError::BlacklistedAddress)
    } else {
        Ok(())
    }
}

/// Run a search whose probes have been made.
///
/// The ids of `range` are split over `thread_count` workers of
/// `country_code`; each worker goes through its chunk and the coordinator
/// collects what they found, worker by worker, and reports on it.
/// `outcomes` holds what the probe of each id gave, at the id's place in the
/// range; an id without an outcome counts as unresolved.
///
/// A search on no worker, or for an address that no search may look for, is
/// refused. Otherwise the report is the one on the matches of the whole
/// range in the order of the ids: the number of workers does not change it.
pub fn run(
    country_code: CountryCode,
    match_ip: Ipv4Addr,
    range: IdRange,
    thread_count: usize,
    outcomes: &Vec<ProbeOutcome>,
) -> (r: Result<Report, ConfigurationError>)
    ensures
        match configuration_fault(match_ip, thread_count) {
            Some(fault) => r == Err::<Report, ConfigurationError>(fault),
            None => r matches Ok(report) && report@ == report_spec(
                scan(country_code.code_spec(), range.ids(), outcomes@, match_ip),
            ),
        },
{
    match check_configuration(&match_ip, thread_count) {
        Ok(_) => {},
        Err(e) => {
            return Err(e);
        },
    }
    let requests = match partition(country_code, range, thread_count) {
        Ok(requests) => requests,
        Err(e) => {
            return Err(e);
        },
    };
    let filter = SearchFilter { ip: match_ip };
    let ghost prefix = country_code.code_spec();
    let ghost ids = range.ids();
    let ghost workers = thread_count as nat;
    let ghost count = chunk_count(ids.len(), workers) as int;
    let mut found: Vec<WorkerResponse> = Vec::new();
    let mut k: usize = 0;
    let mut lo: usize = 0;
    assert(records(found@) =~= Seq::<MatchRecord>::empty());
    while k < requests.len()
        invariant
            workers >= 1,
            ids == range.ids(),
            ids.len() <= usize::MAX,
            prefix == country_code.code_spec(),
            filter.ip == match_ip,
            count == chunk_count(ids.len(), workers),
            requests@.len() == count,
            forall|i: int|
                0 <= i < requests@.len() ==> (#[trigger] requests@[i]).country_code
                    == country_code && requests@[i].data@ == chunk(ids, workers, i),
            k <= count,
            k < count ==> lo == chunk_start(ids.len(), workers, k as int),
            k == count ==> lo == ids.len(),
            records(found@) == scan_range(prefix, ids, outcomes@, match_ip, 0, lo as int),
        decreases count - k,
    {
        let request = &requests[k];
        let size = request.data.len();
        proof {
            lemma_chunk_bounds(ids.len(), workers, k as int);
            assert(request.data@ == chunk(ids, workers, k as int));
        }
        let ghost hi = chunk_end(ids.len(), workers, k as int);
        let part = outcomes_of_chunk(outcomes, lo, size);
        let mut got = worker_task(&filter, request, &part);
        proof {
            lemma_scan_of_chunk(
                prefix,
                ids,
                outcomes@,
                match_ip,
                lo as int,
                hi,
                request.data@,
                part@,
                size as int,
            );
            lemma_scan_range_split(prefix, ids, outcomes@, match_ip, 0, lo as int, hi);
        }
        let ghost before = found@;
        let ghost added = got@;
        found.append(&mut got);
        assert(records(found@) =~= records(before) + records(added));
        lo = lo + size;
        k += 1;
    }
    proof {
        if count == 0 {
            assert(ids.len() == 0);
        }
    }
    Ok(build_report(&found))
}

/// A search in which no probe resolves, or each resolves to 0.0.0.0, reports
/// that nothing matched, unless the wanted address is itself another address
/// of the subnet of 0.0.0.0.
pub proof fn lemma_nothing_resolved_reports_no_matches(
    prefix: Seq<char>,
    ids: Seq<u32>,
    outcomes: Seq<ProbeOutcome>,
    target: Ipv4Addr,
)
    requires
        forall|i: int|
            0 <= i < ids.len() ==> #[trigger] outcome_at(outcomes, i) == ProbeOutcome::Unresolved
                || outcome_at(outcomes, i) == ProbeOutcome::Resolved(zero_address()),
        !same_subnet(zero_address(), target) || target == zero_address(),
    ensures
        report_spec(scan(prefix, ids, outcomes, target)) == ReportView::NoMatches,
{
    lemma_scan_range_without_match(prefix, ids, outcomes, target, 0, ids.len() as int);
    let none = Seq::<MatchRecord>::empty();
    assert(of_kind(none, MatchType::Exact) =~= none) by {
        none.lemma_filter_len(kind_is(MatchType::Exact));
    }
    assert(of_kind(none, MatchType::Partial) =~= none) by {
        none.lemma_filter_len(kind_is(MatchType::Partial));
    }
}

} // verus!
