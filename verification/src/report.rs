//! The final report of a search.

use crate::decimal::{decimal, push_decimal};
use crate::ipv4::dotted;
use crate::models::{records, texts, MatchRecord, MatchType, WorkerResponse};
use vstd::prelude::*;

verus! {

/// What a search found. Exact matches take precedence: partial matches are
/// reported only where there is no exact one.
#[derive(Clone, Debug, PartialEq, Eq)]
pub enum Report {
    /// The exact matches, in the order in which they arrived. Never empty.
    Exact(Vec<WorkerResponse>),
    /// The partial matches, in the order in which they arrived. Never empty.
    Partial(Vec<WorkerResponse>),
    /// Nothing matched.
    NoMatches,
}

/// A report, over plain values.
pub enum ReportView {
    Exact(Seq<MatchRecord>),
    Partial(Seq<MatchRecord>),
    NoMatches,
}

impl View for Report {
    type V = ReportView;

    open spec fn view(&self) -> ReportView {
        match self {
            Report::Exact(found) => ReportView::Exact(records(found@)),
            Report::Partial(found) => ReportView::Partial(records(found@)),
            Report::NoMatches => ReportView::NoMatches,
        }
    }
}

/// The test "is a match of kind `kind`".
pub open spec fn kind_is(kind: MatchType) -> spec_fn(MatchRecord) -> bool {
    |r: MatchRecord| r.match_type == kind
}

/// The records of `found` that are of kind `kind`, in their order.
pub open spec fn of_kind(found: Seq<MatchRecord>, kind: MatchType) -> Seq<MatchRecord> {
    found.filter(kind_is(kind))
}

/// The report on the records `found`, given in the order of their arrival:
/// the exact matches if there is any, else the partial matches if there is
/// any, else that nothing matched.
pub open spec fn report_spec(found: Seq<MatchRecord>) -> ReportView {
    if of_kind(found, MatchType::Exact).len() > 0 {
        ReportView::Exact(of_kind(found, MatchType::Exact))
    } else if of_kind(found, MatchType::Partial).len() > 0 {
        ReportView::Partial(of_kind(found, MatchType::Partial))
    } else {
        ReportView::NoMatches
    }
}

/// Make the report on the records that arrived.
pub fn build_report(found: &Vec<WorkerResponse>) -> (report: Report)
    ensures
        report@ == report_spec(records(found@)),
{
    let ghost all = records(found@);
    let mut exact: Vec<WorkerResponse> = Vec::new();
    let mut partial: Vec<WorkerResponse> = Vec::new();
    let mut i: usize = 0;
    proof {
        assert(all.take(0) =~= Seq::<MatchRecord>::empty());
        assert(of_kind(all.take(0), MatchType::Exact) =~= Seq::<MatchRecord>::empty());
        assert(of_kind(all.take(0), MatchType::Partial) =~= Seq::<MatchRecord>::empty());
        assert(records(exact@) =~= Seq::<MatchRecord>::empty());
        assert(records(partial@) =~= Seq::<MatchRecord>::empty());
    }
    while i < found.len()
        invariant
            i <= found@.len(),
            all == records(found@),
            records(exact@) == of_kind(all.take(i as int), MatchType::Exact),
            records(partial@) == of_kind(all.take(i as int), MatchType::Partial),
        decreases found@.len() - i,
    {
        let ghost old_exact = exact@;
        let ghost old_partial = partial@;
        let copy = found[i].duplicate();
        proof {
            assert(all.take(i + 1) =~= all.take(i as int).push(copy@));
            all.take(i as int).lemma_filter_push(copy@, kind_is(MatchType::Exact));
            all.take(i as int).lemma_filter_push(copy@, kind_is(MatchType::Partial));
        }
        match copy.match_type {
            MatchType::Exact => {
                exact.push(copy);
                assert(records(exact@) =~= records(old_exact).push(copy@));
            },
            MatchType::Partial => {
                partial.push(copy);
                assert(records(partial@) =~= records(old_partial).push(copy@));
            },
        }
        i += 1;
    }
    assert(all.take(i as int) =~= all);
    if exact.len() > 0 {
        Report::Exact(exact)
    } else if partial.len() > 0 {
        Report::Partial(partial)
    } else {
        Report::NoMatches
    }
}

/// The line that reports one match: its kind in square brackets, a tab, and
/// the hostname and the address in square brackets.
pub open spec fn match_line(r: MatchRecord) -> Seq<char> {
    "["@ + r.match_type.label_spec() + "]\t[ "@ + r.host + ", "@ + dotted(r.ip) + "]"@
}

/// The line that reports that nothing matched.
pub open spec fn no_matches_line() -> Seq<char> {
    "No Matches"@
}

/// The line that reports one match.
pub fn format_match(response: &WorkerResponse) -> (line: String)
    ensures
        line@ == match_line(response@),
{
    let mut line = String::from_str("[");
    line.append(response.match_type.label());
    line.append("]\t[ ");
    line.append(response.host.as_str());
    line.append(", ");
    line.append(response.ip.to_text().as_str());
    line.append("]");
    line
}

/// The lines of a report: one for each match, or the one line that says
/// that nothing matched.
pub open spec fn report_lines_spec(report: ReportView) -> Seq<Seq<char>> {
    match report {
        ReportView::Exact(found) => found.map_values(|r: MatchRecord| match_line(r)),
        ReportView::Partial(found) => found.map_values(|r: MatchRecord| match_line(r)),
        ReportView::NoMatches => seq![no_matches_line()],
    }
}

/// The lines for the matches `found`, in their order.
pub fn match_lines(found: &Vec<WorkerResponse>) -> (lines: Vec<String>)
    ensures
        texts(lines@) == records(found@).map_values(|r: MatchRecord| match_line(r)),
{
    let mut lines: Vec<String> = Vec::new();
    let mut i: usize = 0;
    while i < found.len()
        invariant
            i <= found@.len(),
            lines@.len() == i,
            forall|k: int| 0 <= k < i ==> (#[trigger] lines@[k])@ == match_line(found@[k]@),
        decreases found@.len() - i,
    {
        lines.push(format_match(&found[i]));
        i += 1;
    }
    assert(texts(lines@) =~= records(found@).map_values(|r: MatchRecord| match_line(r)));
    lines
}

/// The lines of a report, in the order in which they are shown.
pub fn report_lines(report: &Report) -> (lines: Vec<String>)
    ensures
        texts(lines@) == report_lines_spec(report@),
{
    match report {
        Report::Exact(found) => match_lines(found),
        Report::Partial(found) => match_lines(found),
        Report::NoMatches => {
            let mut lines: Vec<String> = Vec::new();
            lines.push(String::from_str("No Matches"));
            assert(texts(lines@) =~= seq![no_matches_line()]);
            lines
        },
    }
}

/// How `indicatif` words a duration of `secs` whole seconds for a reader.
pub uninterp spec fn human_duration(secs: u64) -> Seq<char>;

/// Words a duration of `secs` whole seconds for a reader.
///
/// Calls the `Display` of `indicatif::HumanDuration` on a duration of `secs`
/// seconds. That formatter reads nothing but the whole seconds of the
/// duration, so its text is a function of `secs`; the contract gives that
/// text its name and claims nothing of what it holds.
#[verifier::external_body]
fn human_duration_text(secs: u64) -> (text: String)
    ensures
        text@ == human_duration(secs),
{
    format!("{}", indicatif::HumanDuration(std::time::Duration::from_secs(secs)))
}

/// The summary line for a search that took `millis` milliseconds, where
/// `human` is that time in words.
pub open spec fn elapsed_line(human: Seq<char>, millis: u64) -> Seq<char> {
    "\nElapsed Time: "@ + human + " ("@ + decimal(millis as nat) + "ms)\n"@
}

/// The summary line for a search that took `millis` milliseconds, where
/// `human` is that time in words.
pub fn elapsed_summary_with(human: &str, millis: u64) -> (line: String)
    ensures
        line@ == elapsed_line(human@, millis),
{
    let mut line = String::from_str("\nElapsed Time: ");
    line.append(human);
    line.append(" (");
    push_decimal(&mut line, millis);
    line.append("ms)\n");
    line
}

/// The summary line for a search that took `millis` milliseconds: the time
/// in words, as whole seconds, and the milliseconds in brackets.
pub fn elapsed_summary(millis: u64) -> (line: String)
    ensures
        line@ == elapsed_line(human_duration(millis / 1000), millis),
{
    let human = human_duration_text(millis / 1000);
    elapsed_summary_with(human.as_str(), millis)
}

} // verus!
