//! The hostname of a candidate server.

use crate::country::CountryCode;
use crate::decimal::{decimal, lemma_decimal_injective, push_decimal};
use vstd::prelude::*;

verus! {

/// The domain under which every candidate lives.
pub open spec fn domain_suffix() -> Seq<char> {
    ".nordvpn.com"@
}

/// The hostname of the candidate `id` under the prefix `prefix`: the prefix,
/// the id in decimal, and the domain.
pub open spec fn hostname(prefix: Seq<char>, id: nat) -> Seq<char> {
    prefix + decimal(id) + domain_suffix()
}

/// Build the hostname of the server `num` of `country`.
pub fn get_vpn_string(country: &CountryCode, num: &u32) -> (name: String)
    ensures
        name@ == hostname(country.code_spec(), *num as nat),
{
    let mut name = String::from_str(country.code());
    push_decimal(&mut name, *num as u64);
    name.append(".nordvpn.com");
    name
}

/// Under one prefix, two candidates with the same hostname have the same id.
pub proof fn lemma_hostname_injective(prefix: Seq<char>, a: nat, b: nat)
    requires
        hostname(prefix, a) == hostname(prefix, b),
    ensures
        a == b,
{
    let ha = hostname(prefix, a);
    let hb = hostname(prefix, b);
    let p = prefix.len() as int;
    let s = domain_suffix().len() as int;
    assert(ha.len() == p + decimal(a).len() + s);
    assert(hb.len() == p + decimal(b).len() + s);
    assert(decimal(a).len() == decimal(b).len());
    let n = decimal(a).len() as int;
    assert(ha.subrange(p, p + n) =~= decimal(a));
    assert(hb.subrange(p, p + n) =~= decimal(b));
    lemma_decimal_injective(a, b);
}

} // verus!
