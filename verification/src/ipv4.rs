//! IPv4 addresses and their dotted text.

use crate::decimal::{
    all_digits, decimal, decimal_value, digit_value, is_digit, lemma_decimal_is_canonical,
    lemma_decimal_len, lemma_decimal_round_trip, push_decimal,
};
use crate::error::ConfigurationError;
use vstd::prelude::*;

verus! {

/// An IPv4 address, as its four octets from the most significant down.
#[derive(Clone, Copy, Debug, PartialEq, Eq, Structural)]
pub struct Ipv4Addr {
    pub a: u8,
    pub b: u8,
    pub c: u8,
    pub d: u8,
}

/// The address 0.0.0.0, which stands for "nothing was resolved".
pub open spec fn zero_address() -> Ipv4Addr {
    Ipv4Addr { a: 0, b: 0, c: 0, d: 0 }
}

/// The loopback address 127.0.0.1.
pub open spec fn loopback_address() -> Ipv4Addr {
    Ipv4Addr { a: 127, b: 0, c: 0, d: 1 }
}

/// Whether `source` and `target` agree in their first three octets.
pub open spec fn same_subnet(source: Ipv4Addr, target: Ipv4Addr) -> bool {
    source.a == target.a && source.b == target.b && source.c == target.c
}

/// Whether `source` is the address `target` and is not 0.0.0.0.
pub open spec fn same_ip(source: Ipv4Addr, target: Ipv4Addr) -> bool {
    source != zero_address() && source == target
}

/// The least index from `from` on at which `s` holds `c`, or the length of
/// `s` where there is none.
pub open spec fn first_at(s: Seq<char>, c: char, from: int) -> int
    decreases s.len() - from,
{
    if from < 0 || from >= s.len() {
        s.len() as int
    } else if s[from] == c {
        from
    } else {
        first_at(s, c, from + 1)
    }
}

/// Whether `s` writes one octet: one to three digits, no leading zero on a
/// longer text, and a value of at most 255.
pub open spec fn octet_text(s: Seq<char>) -> bool {
    &&& 1 <= s.len() <= 3
    &&& all_digits(s)
    &&& (s.len() > 1 ==> s[0] != '0')
    &&& decimal_value(s) <= 255
}

/// The address that `s` writes: four octet texts with a dot between each
/// two and nothing else. `None` where `s` is no such text.
pub open spec fn parse_address(s: Seq<char>) -> Option<Ipv4Addr> {
    let dot1 = first_at(s, '.', 0);
    let dot2 = first_at(s, '.', dot1 + 1);
    let dot3 = first_at(s, '.', dot2 + 1);
    let dot4 = first_at(s, '.', dot3 + 1);
    let n = s.len() as int;
    if dot3 < n && dot4 == n && octet_text(s.subrange(0, dot1)) && octet_text(s.subrange(dot1 + 1, dot2))
        && octet_text(s.subrange(dot2 + 1, dot3)) && octet_text(s.subrange(dot3 + 1, n)) {
        Some(
            Ipv4Addr {
                a: decimal_value(s.subrange(0, dot1)) as u8,
                b: decimal_value(s.subrange(dot1 + 1, dot2)) as u8,
                c: decimal_value(s.subrange(dot2 + 1, dot3)) as u8,
                d: decimal_value(s.subrange(dot3 + 1, n)) as u8,
            },
        )
    } else {
        None
    }
}

/// The dotted text of an address.
pub open spec fn dotted(ip: Ipv4Addr) -> Seq<char> {
    decimal(ip.a as nat) + seq!['.'] + decimal(ip.b as nat) + seq!['.'] + decimal(ip.c as nat)
        + seq!['.'] + decimal(ip.d as nat)
}

/// `first_at` stays within the text and finds `c` or the end.
pub proof fn lemma_first_at(s: Seq<char>, c: char, from: int)
    requires
        0 <= from <= s.len(),
    ensures
        from <= first_at(s, c, from) <= s.len(),
        first_at(s, c, from) < s.len() ==> s[first_at(s, c, from)] == c,
        forall|i: int| from <= i < first_at(s, c, from) ==> s[i] != c,
    decreases s.len() - from,
{
    if from < s.len() && s[from] != c {
        lemma_first_at(s, c, from + 1);
    }
}

/// The index of the first `c` in `s` from `from` on, or the length of `s`.
pub(crate) fn find_char(s: &str, c: char, from: usize) -> (at: usize)
    requires
        from <= s@.len(),
    ensures
        at == first_at(s@, c, from as int),
        from <= at <= s@.len(),
{
    let n = s.unicode_len();
    let mut i: usize = from;
    while i < n
        invariant
            n == s@.len(),
            from <= i <= n,
            first_at(s@, c, from as int) == first_at(s@, c, i as int),
        decreases n - i,
    {
        if s.get_char(i) == c {
            return i;
        }
        i += 1;
    }
    i
}

/// Reads the octet that `s` writes between `lo` and `hi`.
fn parse_octet(s: &str, lo: usize, hi: usize) -> (r: Option<u8>)
    requires
        lo <= hi <= s@.len(),
    ensures
        r is Some <==> octet_text(s@.subrange(lo as int, hi as int)),
        r matches Some(v) ==> v == decimal_value(s@.subrange(lo as int, hi as int)),
{
    let ghost t = s@.subrange(lo as int, hi as int);
    if hi - lo < 1 || hi - lo > 3 {
        return None;
    }
    let mut acc: u32 = 0;
    let mut i: usize = lo;
    while i < hi
        invariant
            lo <= i <= hi <= s@.len(),
            hi - lo <= 3,
            t == s@.subrange(lo as int, hi as int),
            acc == decimal_value(s@.subrange(lo as int, i as int)),
            acc <= 999,
            i - lo <= 2 ==> acc <= 99,
            i - lo <= 1 ==> acc <= 9,
            i == lo ==> acc == 0,
            forall|k: int| 0 <= k < i - lo ==> is_digit(#[trigger] t[k]),
        decreases hi - i,
    {
        let ch = s.get_char(i);
        assert(ch == t[i - lo]);
        if !(ch >= '0' && ch <= '9') {
            return None;
        }
        let v: u32 = ch as u32 - 48;
        proof {
            let next = s@.subrange(lo as int, i as int + 1);
            assert(next.drop_last() =~= s@.subrange(lo as int, i as int));
            assert(next.last() == ch);
            assert(v == digit_value(ch));
        }
        acc = acc * 10 + v;
        i += 1;
    }
    if hi - lo > 1 && s.get_char(lo) == '0' {
        assert(t[0] == '0');
        return None;
    }
    if acc > 255 {
        return None;
    }
    Some(acc as u8)
}

impl Ipv4Addr {
    /// The address with the four octets given.
    pub fn new(a: u8, b: u8, c: u8, d: u8) -> (ip: Ipv4Addr)
        ensures
            ip == (Ipv4Addr { a, b, c, d }),
    {
        Ipv4Addr { a, b, c, d }
    }

    /// The four octets, the most significant first.
    pub fn octets(&self) -> (o: [u8; 4])
        ensures
            o@ == seq![self.a, self.b, self.c, self.d],
    {
        let o = [self.a, self.b, self.c, self.d];
        assert(o@ =~= seq![self.a, self.b, self.c, self.d]);
        o
    }

    /// Reads an address from its dotted text: four octets in decimal, without
    /// leading zeros, with a dot between each two. Any other text is refused.
    pub fn parse(s: &str) -> (r: Option<Ipv4Addr>)
        ensures
            r == parse_address(s@),
            forall|ip: Ipv4Addr| r == Some(ip) <==> s@ == #[trigger] dotted(ip),
    {
        proof {
            assert forall|ip: Ipv4Addr| parse_address(s@) == Some(ip) <==> s@ == #[trigger] dotted(
                ip,
            ) by {
                lemma_parse_address_iff_dotted(s@, ip);
            }
        }
        let n = s.unicode_len();
        let dot1 = find_char(s, '.', 0);
        if dot1 >= n {
            proof {
                lemma_parse_address_needs_three_dots(s@);
            }
            return None;
        }
        let dot2 = find_char(s, '.', dot1 + 1);
        if dot2 >= n {
            proof {
                lemma_parse_address_needs_three_dots(s@);
            }
            return None;
        }
        let dot3 = find_char(s, '.', dot2 + 1);
        if dot3 >= n {
            return None;
        }
        let dot4 = find_char(s, '.', dot3 + 1);
        if dot4 < n {
            return None;
        }
        let a = parse_octet(s, 0, dot1);
        let b = parse_octet(s, dot1 + 1, dot2);
        let c = parse_octet(s, dot2 + 1, dot3);
        let d = parse_octet(s, dot3 + 1, n);
        match (a, b, c, d) {
            (Some(a), Some(b), Some(c), Some(d)) => Some(Ipv4Addr { a, b, c, d }),
            _ => None,
        }
    }

    /// The dotted text of this address.
    pub fn to_text(&self) -> (s: String)
        ensures
            s@ == dotted(*self),
    {
        let mut s = String::new();
        push_decimal(&mut s, self.a as u64);
        s.append(".");
        push_decimal(&mut s, self.b as u64);
        s.append(".");
        push_decimal(&mut s, self.c as u64);
        s.append(".");
        push_decimal(&mut s, self.d as u64);
        proof {
            reveal_strlit(".");
            assert("."@ =~= seq!['.']);
            assert(s@ =~= dotted(*self));
        }
        s
    }
}

impl core::str::FromStr for Ipv4Addr {
    type Err = ConfigurationError;

    /// Reads an address from its dotted text, as `Ipv4Addr::parse` does.
    fn from_str(s: &str) -> (r: Result<Ipv4Addr, ConfigurationError>)
        ensures
            r == match parse_address(s@) {
                Some(ip) => Ok::<Ipv4Addr, ConfigurationError>(ip),
                None => Err(ConfigurationError::InvalidAddress),
            },
    {
        match Ipv4Addr::parse(s) {
            Some(ip) => Ok(ip),
            None => Err(ConfigurationError::InvalidAddress),
        }
    }
}

/// Once the text runs out of dots, every later search for one ends at the
/// end of the text.
pub proof fn lemma_parse_address_needs_three_dots(s: Seq<char>)
    ensures
        first_at(s, '.', 0) >= s.len() ==> parse_address(s) is None,
        first_at(s, '.', first_at(s, '.', 0) + 1) >= s.len() ==> parse_address(s) is None,
{
    lemma_first_at(s, '.', 0);
    let dot1 = first_at(s, '.', 0);
    if dot1 < s.len() {
        lemma_first_at(s, '.', dot1 + 1);
    }
}

/// From a place before which `s` holds no `c`, the search for `c` goes on
/// as from that place.
pub proof fn lemma_first_at_skips(s: Seq<char>, c: char, from: int, to: int)
    requires
        0 <= from <= to <= s.len(),
        forall|i: int| from <= i < to ==> s[i] != c,
    ensures
        first_at(s, c, from) == first_at(s, c, to),
    decreases to - from,
{
    if from < to {
        lemma_first_at_skips(s, c, from + 1, to);
    }
}

/// The decimal text of an octet is an octet text, and writes that octet.
pub proof fn lemma_octet_decimal(v: u8)
    ensures
        octet_text(decimal(v as nat)),
        decimal_value(decimal(v as nat)) == v,
{
    lemma_decimal_round_trip(v as nat);
    lemma_decimal_len(v as nat);
}

/// The dotted text of an address is read back as that address.
pub proof fn lemma_parse_dotted(ip: Ipv4Addr)
    ensures
        parse_address(dotted(ip)) == Some(ip),
{
    let s = dotted(ip);
    let ta = decimal(ip.a as nat);
    let tb = decimal(ip.b as nat);
    let tc = decimal(ip.c as nat);
    let td = decimal(ip.d as nat);
    lemma_octet_decimal(ip.a);
    lemma_octet_decimal(ip.b);
    lemma_octet_decimal(ip.c);
    lemma_octet_decimal(ip.d);
    let dot1 = ta.len() as int;
    let dot2 = dot1 + 1 + tb.len();
    let dot3 = dot2 + 1 + tc.len();
    let n = dot3 + 1 + td.len();
    assert(s.len() == n);
    assert(s.subrange(0, dot1) =~= ta);
    assert(s.subrange(dot1 + 1, dot2) =~= tb);
    assert(s.subrange(dot2 + 1, dot3) =~= tc);
    assert(s.subrange(dot3 + 1, n) =~= td);
    assert(s[dot1] == '.' && s[dot2] == '.' && s[dot3] == '.');
    assert forall|i: int| 0 <= i < dot1 implies s[i] != '.' by {
        assert(s[i] == ta[i]);
    }
    assert forall|i: int| dot1 + 1 <= i < dot2 implies s[i] != '.' by {
        assert(s[i] == tb[i - dot1 - 1]);
    }
    assert forall|i: int| dot2 + 1 <= i < dot3 implies s[i] != '.' by {
        assert(s[i] == tc[i - dot2 - 1]);
    }
    assert forall|i: int| dot3 + 1 <= i < n implies s[i] != '.' by {
        assert(s[i] == td[i - dot3 - 1]);
    }
    lemma_first_at_skips(s, '.', 0, dot1);
    lemma_first_at_skips(s, '.', dot1 + 1, dot2);
    lemma_first_at_skips(s, '.', dot2 + 1, dot3);
    lemma_first_at_skips(s, '.', dot3 + 1, n);
    assert(first_at(s, '.', 0) == dot1);
    assert(first_at(s, '.', dot1 + 1) == dot2);
    assert(first_at(s, '.', dot2 + 1) == dot3);
    assert(first_at(s, '.', dot3 + 1) == n);
}

/// A text that is read as an address is the dotted text of that address:
/// every address has one text and no other.
pub proof fn lemma_parsed_is_dotted(s: Seq<char>, ip: Ipv4Addr)
    requires
        parse_address(s) == Some(ip),
    ensures
        s == dotted(ip),
{
    let dot1 = first_at(s, '.', 0);
    lemma_first_at(s, '.', 0);
    lemma_first_at(s, '.', dot1 + 1);
    let dot2 = first_at(s, '.', dot1 + 1);
    lemma_first_at(s, '.', dot2 + 1);
    let dot3 = first_at(s, '.', dot2 + 1);
    let n = s.len() as int;
    lemma_decimal_is_canonical(s.subrange(0, dot1));
    lemma_decimal_is_canonical(s.subrange(dot1 + 1, dot2));
    lemma_decimal_is_canonical(s.subrange(dot2 + 1, dot3));
    lemma_decimal_is_canonical(s.subrange(dot3 + 1, n));
    assert(s =~= s.subrange(0, dot1) + seq!['.'] + s.subrange(dot1 + 1, dot2) + seq!['.'] + s.subrange(
        dot2 + 1,
        dot3,
    ) + seq!['.'] + s.subrange(dot3 + 1, n));
}

/// A text is read as an address if and only if it is the dotted text of
/// that address.
pub proof fn lemma_parse_address_iff_dotted(s: Seq<char>, ip: Ipv4Addr)
    ensures
        parse_address(s) == Some(ip) <==> s == dotted(ip),
{
    if parse_address(s) == Some(ip) {
        lemma_parsed_is_dotted(s, ip);
    }
    if s == dotted(ip) {
        lemma_parse_dotted(ip);
    }
}

/// Check if both addresses are in the same subnet, as 1.2.3.100 and 1.2.3.200 are.
pub fn is_in_same_subnet(source: &Ipv4Addr, target: &Ipv4Addr) -> (r: bool)
    ensures
        r == same_subnet(*source, *target),
{
    let source_oct = source.octets();
    let target_oct = target.octets();
    source_oct[0] == target_oct[0] && source_oct[1] == target_oct[1] && source_oct[2]
        == target_oct[2]
}

/// Check if `source` is the same address as `target` and is not 0.0.0.0.
pub fn is_same_ip(source: &Ipv4Addr, target: &Ipv4Addr) -> (r: bool)
    ensures
        r == same_ip(*source, *target),
{
    let test_empty_ip_address = Ipv4Addr::new(0, 0, 0, 0);
    *source != test_empty_ip_address && *source == *target
}

/// Whether `ip` is an address that no search may look for: 0.0.0.0 or
/// 127.0.0.1.
pub open spec fn blacklisted(ip: Ipv4Addr) -> bool {
    ip == zero_address() || ip == loopback_address()
}

/// Whether `ip` is an address that no search may look for.
pub fn is_blacklisted(ip: &Ipv4Addr) -> (r: bool)
    ensures
        r == blacklisted(*ip),
{
    *ip == Ipv4Addr::new(0, 0, 0, 0) || *ip == Ipv4Addr::new(127, 0, 0, 1)
}

/// What `validate_target` answers on the text `s`.
pub open spec fn validate_target_spec(s: Seq<char>) -> Result<Ipv4Addr, ConfigurationError> {
    match parse_address(s) {
        None => Err(ConfigurationError::InvalidAddress),
        Some(ip) => if blacklisted(ip) {
            Err(ConfigurationError::BlacklistedAddress)
        } else {
            Ok(ip)
        },
    }
}

/// Reads the wanted address of a search from its text. The text must write
/// an address, and that address may be neither 0.0.0.0 nor 127.0.0.1.
pub fn validate_target(source_ip: &str) -> (r: Result<Ipv4Addr, ConfigurationError>)
    ensures
        r == validate_target_spec(source_ip@),
{
    match Ipv4Addr::parse(source_ip) {
        None => Err(ConfigurationError::InvalidAddress),
        Some(ip) => {
            if is_blacklisted(&ip) {
                Err(ConfigurationError::BlacklistedAddress)
            } else {
                Ok(ip)
            }
        },
    }
}

/// Accepts the text of a wanted address, or says in words why it is refused.
pub fn is_valid_ip(source_ip: &str) -> (r: Result<(), String>)
    ensures
        match validate_target_spec(source_ip@) {
            Ok(_) => r is Ok,
            Err(e) => r matches Err(m) && m@ == e.message_spec(),
        },
{
    match validate_target(source_ip) {
        Ok(_) => Ok(()),
        Err(e) => Err(e.message()),
    }
}

} // verus!
