//! What the coordinator and its workers hand to each other.

use crate::country::CountryCode;
use crate::ipv4::Ipv4Addr;
use vstd::prelude::*;

verus! {

/// How a resolved address matches the wanted one.
#[derive(Clone, Copy, Debug, PartialEq, Eq, Structural)]
pub enum MatchType {
    /// The very address that is wanted.
    Exact,
    /// Another address of the wanted one's subnet.
    Partial,
}

impl MatchType {
    /// The label of this kind in a report line, padded to nine characters.
    pub open spec fn label_spec(self) -> Seq<char> {
        match self {
            MatchType::Exact => "  Exact  "@,
            MatchType::Partial => " Partial "@,
        }
    }

    /// The label of this kind in a report line.
    pub fn label(&self) -> (s: &'static str)
        ensures
            s@ == self.label_spec(),
    {
        match self {
            MatchType::Exact => "  Exact  ",
            MatchType::Partial => " Partial ",
        }
    }
}

/// The work of one worker: the ids it has to try, in order, and the country
/// whose prefix their hostnames carry.
#[derive(Debug, PartialEq, Eq)]
pub struct WorkerRequest {
    pub country_code: CountryCode,
    pub data: Vec<u32>,
}

impl WorkerRequest {
    /// The request to try the ids `data` under the prefix of `country_code`.
    pub fn new(country_code: CountryCode, data: Vec<u32>) -> (request: WorkerRequest)
        ensures
            request.country_code == country_code,
            request.data == data,
    {
        WorkerRequest { country_code: country_code, data: data }
    }
}

/// A candidate that matched: its hostname, the address it resolved to, and
/// how that address matches.
#[derive(Clone, Debug, PartialEq, Eq)]
pub struct WorkerResponse {
    pub match_type: MatchType,
    pub host: String,
    pub ip: Ipv4Addr,
}

/// A match, with its hostname as plain text.
pub struct MatchRecord {
    pub match_type: MatchType,
    pub host: Seq<char>,
    pub ip: Ipv4Addr,
}

impl View for WorkerResponse {
    type V = MatchRecord;

    open spec fn view(&self) -> MatchRecord {
        MatchRecord { match_type: self.match_type, host: self.host@, ip: self.ip }
    }
}

impl WorkerResponse {
    /// A copy of this record.
    pub fn duplicate(&self) -> (copy: WorkerResponse)
        ensures
            copy@ == self@,
    {
        WorkerResponse { match_type: self.match_type, host: self.host.clone(), ip: self.ip }
    }
}

/// The records of `v`, each as plain values.
pub open spec fn records(v: Seq<WorkerResponse>) -> Seq<MatchRecord> {
    v.map_values(|r: WorkerResponse| r@)
}

/// The text of each string of `lines`.
pub open spec fn texts(lines: Seq<String>) -> Seq<Seq<char>> {
    lines.map_values(|s: String| s@)
}

/// What a search looks for: the wanted address.
#[derive(Clone, Copy, Debug, PartialEq, Eq, Structural)]
pub struct SearchFilter {
    pub ip: Ipv4Addr,
}

} // verus!
