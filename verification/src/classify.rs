//! How the outcome of one probe compares with the wanted address.

use crate::ipv4::{is_in_same_subnet, is_same_ip, same_subnet, zero_address, Ipv4Addr};
use crate::models::MatchType;
use vstd::prelude::*;

verus! {

/// What a probe of one hostname gave.
#[derive(Clone, Copy, Debug, PartialEq, Eq, Structural)]
pub enum ProbeOutcome {
    /// The hostname resolved to this address.
    Resolved(Ipv4Addr),
    /// The hostname did not resolve, or the probe itself failed.
    Unresolved,
}

/// The verdict on one probe.
#[derive(Clone, Copy, Debug, PartialEq, Eq, Structural)]
pub enum Classification {
    NoMatch,
    PartialMatch,
    ExactMatch,
}

/// The verdict on `outcome` for the wanted address `target`.
///
/// An unresolved probe never matches. A resolved address is an exact match
/// where it is the wanted address and not 0.0.0.0; it is a partial match
/// where it is another address with the same first three octets; anything
/// else is no match.
pub open spec fn classify_spec(outcome: ProbeOutcome, target: Ipv4Addr) -> Classification {
    match outcome {
        ProbeOutcome::Unresolved => Classification::NoMatch,
        ProbeOutcome::Resolved(addr) => if addr == target && addr != zero_address() {
            Classification::ExactMatch
        } else if same_subnet(addr, target) && addr != target {
            Classification::PartialMatch
        } else {
            Classification::NoMatch
        },
    }
}

/// Classify the outcome of one probe against the wanted address.
pub fn classify(outcome: ProbeOutcome, target: Ipv4Addr) -> (verdict: Classification)
    ensures
        verdict == classify_spec(outcome, target),
{
    match outcome {
        ProbeOutcome::Unresolved => Classification::NoMatch,
        ProbeOutcome::Resolved(addr) => {
            if is_same_ip(&addr, &target) {
                Classification::ExactMatch
            } else if is_in_same_subnet(&addr, &target) && addr != target {
                Classification::PartialMatch
            } else {
                Classification::NoMatch
            }
        },
    }
}

impl Classification {
    /// The kind of match that this verdict reports, if it reports one.
    pub open spec fn match_type_spec(self) -> Option<MatchType> {
        match self {
            Classification::NoMatch => None,
            Classification::PartialMatch => Some(MatchType::Partial),
            Classification::ExactMatch => Some(MatchType::Exact),
        }
    }

    /// The kind of match that this verdict reports, if it reports one.
    pub fn match_type(&self) -> (kind: Option<MatchType>)
        ensures
            kind == self.match_type_spec(),
    {
        match self {
            Classification::NoMatch => None,
            Classification::PartialMatch => Some(MatchType::Partial),
            Classification::ExactMatch => Some(MatchType::Exact),
        }
    }
}

/// An unresolved probe matches no wanted address.
pub proof fn lemma_unresolved_is_no_match(target: Ipv4Addr)
    ensures
        classify_spec(ProbeOutcome::Unresolved, target) == Classification::NoMatch,
{
}

/// A resolved address is an exact match if and only if it is the wanted
/// address and is not 0.0.0.0.
pub proof fn lemma_exact_match(addr: Ipv4Addr, target: Ipv4Addr)
    ensures
        classify_spec(ProbeOutcome::Resolved(addr), target) == Classification::ExactMatch <==> (addr
            == target && addr != zero_address()),
{
}

/// A resolved address is a partial match if and only if it differs from the
/// wanted address and has the same first three octets.
pub proof fn lemma_partial_match(addr: Ipv4Addr, target: Ipv4Addr)
    ensures
        classify_spec(ProbeOutcome::Resolved(addr), target) == Classification::PartialMatch <==> (
        addr != target && same_subnet(addr, target)),
{
}

/// A resolved address is a partial match if and only if it differs from the
/// wanted address, is not 0.0.0.0 and has the same first three octets. This
/// holds of every pair but 0.0.0.0 against another address of its own subnet,
/// which is a partial match as any other address of that subnet is.
pub proof fn lemma_partial_match_is_nonzero(addr: Ipv4Addr, target: Ipv4Addr)
    requires
        !(addr == zero_address() && same_subnet(addr, target) && addr != target),
    ensures
        classify_spec(ProbeOutcome::Resolved(addr), target) == Classification::PartialMatch <==> (
        addr != target && addr != zero_address() && same_subnet(addr, target)),
{
}

/// 0.0.0.0 is never an exact match, whatever address is wanted.
pub proof fn lemma_zero_is_never_exact(target: Ipv4Addr)
    ensures
        classify_spec(ProbeOutcome::Resolved(zero_address()), target) != Classification::ExactMatch,
{
}

} // verus!
