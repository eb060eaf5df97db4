//! Reading the answer of a probe.
//!
//! A probe pings one hostname once; the first line of what `ping` prints
//! holds the address that the hostname resolved to, in round brackets.

use crate::classify::ProbeOutcome;
use crate::ipv4::{find_char, first_at, lemma_first_at, parse_address, zero_address, Ipv4Addr};
use vstd::prelude::*;

verus! {

/// The address that the output `s` of a probe reports.
///
/// Only the first line counts. In it, the text between the first `(` and
/// the first `)` must write an address. `None` where the first line is
/// empty, lacks a bracket, has them in the wrong order, or holds no address
/// between them.
pub open spec fn reply_address(s: Seq<char>) -> Option<Ipv4Addr> {
    let line = s.subrange(0, first_at(s, '\n', 0));
    let open = first_at(line, '(', 0);
    let close = first_at(line, ')', 0);
    if open < close < line.len() {
        parse_address(line.subrange(open + 1, close))
    } else {
        None
    }
}

/// The outcome of a probe whose output is `s`.
pub open spec fn reply_outcome(s: Seq<char>) -> ProbeOutcome {
    match reply_address(s) {
        Some(ip) => ProbeOutcome::Resolved(ip),
        None => ProbeOutcome::Unresolved,
    }
}

/// Reads the address that the output of a probe reports.
pub fn read_reply(ping_data: &str) -> (r: Option<Ipv4Addr>)
    ensures
        r == reply_address(ping_data@),
{
    let end = find_char(ping_data, '\n', 0);
    let line = ping_data.substring_char(0, end);
    let n = line.unicode_len();
    let open = find_char(line, '(', 0);
    let close = find_char(line, ')', 0);
    if open < close && close < n {
        Ipv4Addr::parse(line.substring_char(open + 1, close))
    } else {
        None
    }
}

/// Parse the output of a probe: the address it reports, or 0.0.0.0 where it
/// reports none.
pub fn parse_ping_result(ping_data: String) -> (ip: Ipv4Addr)
    ensures
        ip == match reply_address(ping_data@) {
            Some(found) => found,
            None => zero_address(),
        },
{
    match read_reply(ping_data.as_str()) {
        Some(found) => found,
        None => Ipv4Addr::new(0, 0, 0, 0),
    }
}

/// The outcome of a probe from its output: resolved to the address that the
/// output reports, or unresolved where it reports none.
pub fn outcome_of_reply(ping_data: &str) -> (outcome: ProbeOutcome)
    ensures
        outcome == reply_outcome(ping_data@),
{
    match read_reply(ping_data) {
        Some(found) => ProbeOutcome::Resolved(found),
        None => ProbeOutcome::Unresolved,
    }
}

/// An empty output, or one whose first line is empty, reports no address.
pub proof fn lemma_empty_line_reports_nothing(s: Seq<char>)
    requires
        s.len() == 0 || s[0] == '\n',
    ensures
        reply_address(s) is None,
{
    lemma_first_at(s, '\n', 0);
}

} // verus!
