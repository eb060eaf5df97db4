//! The countries whose servers can be searched, and the prefix that each
//! gives to a hostname.

use vstd::prelude::*;

verus! {

/// A country, by its two-letter code. `Empty` stands for no country and gives
/// a hostname no prefix.
#[derive(Clone, Copy, Debug, PartialEq, Eq, Structural)]
pub enum CountryCode {
    Empty,
    Al,
    Ar,
    Au,
    At,
    Be,
    Ba,
    Br,
    Bg,
    Ca,
    Cl,
    Cr,
    Hr,
    Cy,
    Cz,
    Dk,
    Ee,
    Fi,
    Fr,
    Ge,
    De,
    Gr,
    Hk,
    Hu,
    Is,
    In,
    Id,
    Ie,
    Il,
    It,
    Jp,
    Lv,
    Lu,
    My,
    Mx,
    Md,
    Nl,
    Nz,
    Mk,
    No,
    Pl,
    Pt,
    Ro,
    Rs,
    Sg,
    Sk,
    Si,
    Za,
    Kr,
    Es,
    Se,
    Ch,
    Tw,
    Th,
    Tr,
    Ua,
    Uk,
    Us,
    Vn,
}

/// The lower-case form of an ASCII letter; any other character is kept.
pub open spec fn lower(c: char) -> char {
    if 'A' <= c && c <= 'Z' {
        ((c as u32) + 32) as char
    } else {
        c
    }
}

/// The lower-case form of an ASCII letter; any other character is kept.
pub fn to_lower(c: char) -> (l: char)
    ensures
        l == lower(c),
{
    if c >= 'A' && c <= 'Z' {
        let v: u32 = c as u32 + 32;
        assert(v < 128);
        v as u8 as char
    } else {
        c
    }
}

impl CountryCode {
    /// The prefix that this country gives to a hostname: its code in lower
    /// case, or nothing for `Empty`.
    pub open spec fn code_spec(self) -> Seq<char> {
        match self {
            CountryCode::Empty => ""@,
            CountryCode::Al => "al"@,
            CountryCode::Ar => "ar"@,
            CountryCode::Au => "au"@,
            CountryCode::At => "at"@,
            CountryCode::Be => "be"@,
            CountryCode::Ba => "ba"@,
            CountryCode::Br => "br"@,
            CountryCode::Bg => "bg"@,
            CountryCode::Ca => "ca"@,
            CountryCode::Cl => "cl"@,
            CountryCode::Cr => "cr"@,
            CountryCode::Hr => "hr"@,
            CountryCode::Cy => "cy"@,
            CountryCode::Cz => "cz"@,
            CountryCode::Dk => "dk"@,
            CountryCode::Ee => "ee"@,
            CountryCode::Fi => "fi"@,
            CountryCode::Fr => "fr"@,
            CountryCode::Ge => "ge"@,
            CountryCode::De => "de"@,
            CountryCode::Gr => "gr"@,
            CountryCode::Hk => "hk"@,
            CountryCode::Hu => "hu"@,
            CountryCode::Is => "is"@,
            CountryCode::In => "in"@,
            CountryCode::Id => "id"@,
            CountryCode::Ie => "ie"@,
            CountryCode::Il => "il"@,
            CountryCode::It => "it"@,
            CountryCode::Jp => "jp"@,
            CountryCode::Lv => "lv"@,
            CountryCode::Lu => "lu"@,
            CountryCode::My => "my"@,
            CountryCode::Mx => "mx"@,
            CountryCode::Md => "md"@,
            CountryCode::Nl => "nl"@,
            CountryCode::Nz => "nz"@,
            CountryCode::Mk => "mk"@,
            CountryCode::No => "no"@,
            CountryCode::Pl => "pl"@,
            CountryCode::Pt => "pt"@,
            CountryCode::Ro => "ro"@,
            CountryCode::Rs => "rs"@,
            CountryCode::Sg => "sg"@,
            CountryCode::Sk => "sk"@,
            CountryCode::Si => "si"@,
            CountryCode::Za => "za"@,
            CountryCode::Kr => "kr"@,
            CountryCode::Es => "es"@,
            CountryCode::Se => "se"@,
            CountryCode::Ch => "ch"@,
            CountryCode::Tw => "tw"@,
            CountryCode::Th => "th"@,
            CountryCode::Tr => "tr"@,
            CountryCode::Ua => "ua"@,
            CountryCode::Uk => "uk"@,
            CountryCode::Us => "us"@,
            CountryCode::Vn => "vn"@,
        }
    }

    /// The prefix that this country gives to a hostname.
    pub fn code(&self) -> (s: &'static str)
        ensures
            s@ == self.code_spec(),
    {
        match self {
            CountryCode::Empty => "",
            CountryCode::Al => "al",
            CountryCode::Ar => "ar",
            CountryCode::Au => "au",
            CountryCode::At => "at",
            CountryCode::Be => "be",
            CountryCode::Ba => "ba",
            CountryCode::Br => "br",
            CountryCode::Bg => "bg",
            CountryCode::Ca => "ca",
            CountryCode::Cl => "cl",
            CountryCode::Cr => "cr",
            CountryCode::Hr => "hr",
            CountryCode::Cy => "cy",
            CountryCode::Cz => "cz",
            CountryCode::Dk => "dk",
            CountryCode::Ee => "ee",
            CountryCode::Fi => "fi",
            CountryCode::Fr => "fr",
            CountryCode::Ge => "ge",
            CountryCode::De => "de",
            CountryCode::Gr => "gr",
            CountryCode::Hk => "hk",
            CountryCode::Hu => "hu",
            CountryCode::Is => "is",
            CountryCode::In => "in",
            CountryCode::Id => "id",
            CountryCode::Ie => "ie",
            CountryCode::Il => "il",
            CountryCode::It => "it",
            CountryCode::Jp => "jp",
            CountryCode::Lv => "lv",
            CountryCode::Lu => "lu",
            CountryCode::My => "my",
            CountryCode::Mx => "mx",
            CountryCode::Md => "md",
            CountryCode::Nl => "nl",
            CountryCode::Nz => "nz",
            CountryCode::Mk => "mk",
            CountryCode::No => "no",
            CountryCode::Pl => "pl",
            CountryCode::Pt => "pt",
            CountryCode::Ro => "ro",
            CountryCode::Rs => "rs",
            CountryCode::Sg => "sg",
            CountryCode::Sk => "sk",
            CountryCode::Si => "si",
            CountryCode::Za => "za",
            CountryCode::Kr => "kr",
            CountryCode::Es => "es",
            CountryCode::Se => "se",
            CountryCode::Ch => "ch",
            CountryCode::Tw => "tw",
            CountryCode::Th => "th",
            CountryCode::Tr => "tr",
            CountryCode::Ua => "ua",
            CountryCode::Uk => "uk",
            CountryCode::Us => "us",
            CountryCode::Vn => "vn",
        }
    }

    /// The two letters of this country's code, in lower case. `Empty` has none.
    pub open spec fn letters(self) -> Option<(char, char)> {
        match self {
            CountryCode::Empty => None,
            CountryCode::Al => Some(('a', 'l')),
            CountryCode::Ar => Some(('a', 'r')),
            CountryCode::Au => Some(('a', 'u')),
            CountryCode::At => Some(('a', 't')),
            CountryCode::Be => Some(('b', 'e')),
            CountryCode::Ba => Some(('b', 'a')),
            CountryCode::Br => Some(('b', 'r')),
            CountryCode::Bg => Some(('b', 'g')),
            CountryCode::Ca => Some(('c', 'a')),
            CountryCode::Cl => Some(('c', 'l')),
            CountryCode::Cr => Some(('c', 'r')),
            CountryCode::Hr => Some(('h', 'r')),
            CountryCode::Cy => Some(('c', 'y')),
            CountryCode::Cz => Some(('c', 'z')),
            CountryCode::Dk => Some(('d', 'k')),
            CountryCode::Ee => Some(('e', 'e')),
            CountryCode::Fi => Some(('f', 'i')),
            CountryCode::Fr => Some(('f', 'r')),
            CountryCode::Ge => Some(('g', 'e')),
            CountryCode::De => Some(('d', 'e')),
            CountryCode::Gr => Some(('g', 'r')),
            CountryCode::Hk => Some(('h', 'k')),
            CountryCode::Hu => Some(('h', 'u')),
            CountryCode::Is => Some(('i', 's')),
            CountryCode::In => Some(('i', 'n')),
            CountryCode::Id => Some(('i', 'd')),
            CountryCode::Ie => Some(('i', 'e')),
            CountryCode::Il => Some(('i', 'l')),
            CountryCode::It => Some(('i', 't')),
            CountryCode::Jp => Some(('j', 'p')),
            CountryCode::Lv => Some(('l', 'v')),
            CountryCode::Lu => Some(('l', 'u')),
            CountryCode::My => Some(('m', 'y')),
            CountryCode::Mx => Some(('m', 'x')),
            CountryCode::Md => Some(('m', 'd')),
            CountryCode::Nl => Some(('n', 'l')),
            CountryCode::Nz => Some(('n', 'z')),
            CountryCode::Mk => Some(('m', 'k')),
            CountryCode::No => Some(('n', 'o')),
            CountryCode::Pl => Some(('p', 'l')),
            CountryCode::Pt => Some(('p', 't')),
            CountryCode::Ro => Some(('r', 'o')),
            CountryCode::Rs => Some(('r', 's')),
            CountryCode::Sg => Some(('s', 'g')),
            CountryCode::Sk => Some(('s', 'k')),
            CountryCode::Si => Some(('s', 'i')),
            CountryCode::Za => Some(('z', 'a')),
            CountryCode::Kr => Some(('k', 'r')),
            CountryCode::Es => Some(('e', 's')),
            CountryCode::Se => Some(('s', 'e')),
            CountryCode::Ch => Some(('c', 'h')),
            CountryCode::Tw => Some(('t', 'w')),
            CountryCode::Th => Some(('t', 'h')),
            CountryCode::Tr => Some(('t', 'r')),
            CountryCode::Ua => Some(('u', 'a')),
            CountryCode::Uk => Some(('u', 'k')),
            CountryCode::Us => Some(('u', 's')),
            CountryCode::Vn => Some(('v', 'n')),
        }
    }

    /// Whether the text `s` names this country: its two letters, in either case.
    pub open spec fn named_by(self, s: Seq<char>) -> bool {
        s.len() == 2 && self.letters() == Some((lower(s[0]), lower(s[1])))
    }

    /// The country that the text `s` names, if it names one.
    pub fn from_code(s: &str) -> (r: Option<CountryCode>)
        ensures
            r matches Some(c) ==> c.named_by(s@),
            r is None ==> forall|c: CountryCode| !c.named_by(s@),
    {
        if s.unicode_len() != 2 {
            return None;
        }
        let x = to_lower(s.get_char(0));
        let y = to_lower(s.get_char(1));
        match (x, y) {
            ('a', 'l') => Some(CountryCode::Al),
            ('a', 'r') => Some(CountryCode::Ar),
            ('a', 'u') => Some(CountryCode::Au),
            ('a', 't') => Some(CountryCode::At),
            ('b', 'e') => Some(CountryCode::Be),
            ('b', 'a') => Some(CountryCode::Ba),
            ('b', 'r') => Some(CountryCode::Br),
            ('b', 'g') => Some(CountryCode::Bg),
            ('c', 'a') => Some(CountryCode::Ca),
            ('c', 'l') => Some(CountryCode::Cl),
            ('c', 'r') => Some(CountryCode::Cr),
            ('h', 'r') => Some(CountryCode::Hr),
            ('c', 'y') => Some(CountryCode::Cy),
            ('c', 'z') => Some(CountryCode::Cz),
            ('d', 'k') => Some(CountryCode::Dk),
            ('e', 'e') => Some(CountryCode::Ee),
            ('f', 'i') => Some(CountryCode::Fi),
            ('f', 'r') => Some(CountryCode::Fr),
            ('g', 'e') => Some(CountryCode::Ge),
            ('d', 'e') => Some(CountryCode::De),
            ('g', 'r') => Some(CountryCode::Gr),
            ('h', 'k') => Some(CountryCode::Hk),
            ('h', 'u') => Some(CountryCode::Hu),
            ('i', 's') => Some(CountryCode::Is),
            ('i', 'n') => Some(CountryCode::In),
            ('i', 'd') => Some(CountryCode::Id),
            ('i', 'e') => Some(CountryCode::Ie),
            ('i', 'l') => Some(CountryCode::Il),
            ('i', 't') => Some(CountryCode::It),
            ('j', 'p') => Some(CountryCode::Jp),
            ('l', 'v') => Some(CountryCode::Lv),
            ('l', 'u') => Some(CountryCode::Lu),
            ('m', 'y') => Some(CountryCode::My),
            ('m', 'x') => Some(CountryCode::Mx),
            ('m', 'd') => Some(CountryCode::Md),
            ('n', 'l') => Some(CountryCode::Nl),
            ('n', 'z') => Some(CountryCode::Nz),
            ('m', 'k') => Some(CountryCode::Mk),
            ('n', 'o') => Some(CountryCode::No),
            ('p', 'l') => Some(CountryCode::Pl),
            ('p', 't') => Some(CountryCode::Pt),
            ('r', 'o') => Some(CountryCode::Ro),
            ('r', 's') => Some(CountryCode::Rs),
            ('s', 'g') => Some(CountryCode::Sg),
            ('s', 'k') => Some(CountryCode::Sk),
            ('s', 'i') => Some(CountryCode::Si),
            ('z', 'a') => Some(CountryCode::Za),
            ('k', 'r') => Some(CountryCode::Kr),
            ('e', 's') => Some(CountryCode::Es),
            ('s', 'e') => Some(CountryCode::Se),
            ('c', 'h') => Some(CountryCode::Ch),
            ('t', 'w') => Some(CountryCode::Tw),
            ('t', 'h') => Some(CountryCode::Th),
            ('t', 'r') => Some(CountryCode::Tr),
            ('u', 'a') => Some(CountryCode::Ua),
            ('u', 'k') => Some(CountryCode::Uk),
            ('u', 's') => Some(CountryCode::Us),
            ('v', 'n') => Some(CountryCode::Vn),
            _ => None,
        }
    }
}

/// A country's prefix is the two letters of its code.
pub proof fn lemma_code_is_letters(c: CountryCode)
    ensures
        match c.letters() {
            None => c.code_spec() == Seq::<char>::empty(),
            Some((x, y)) => c.code_spec() == seq![x, y],
        },
{
    reveal_strlit("");
    reveal_strlit("al");
    reveal_strlit("ar");
    reveal_strlit("au");
    reveal_strlit("at");
    reveal_strlit("be");
    reveal_strlit("ba");
    reveal_strlit("br");
    reveal_strlit("bg");
    reveal_strlit("ca");
    reveal_strlit("cl");
    reveal_strlit("cr");
    reveal_strlit("hr");
    reveal_strlit("cy");
    reveal_strlit("cz");
    reveal_strlit("dk");
    reveal_strlit("ee");
    reveal_strlit("fi");
    reveal_strlit("fr");
    reveal_strlit("ge");
    reveal_strlit("de");
    reveal_strlit("gr");
    reveal_strlit("hk");
    reveal_strlit("hu");
    reveal_strlit("is");
    reveal_strlit("in");
    reveal_strlit("id");
    reveal_strlit("ie");
    reveal_strlit("il");
    reveal_strlit("it");
    reveal_strlit("jp");
    reveal_strlit("lv");
    reveal_strlit("lu");
    reveal_strlit("my");
    reveal_strlit("mx");
    reveal_strlit("md");
    reveal_strlit("nl");
    reveal_strlit("nz");
    reveal_strlit("mk");
    reveal_strlit("no");
    reveal_strlit("pl");
    reveal_strlit("pt");
    reveal_strlit("ro");
    reveal_strlit("rs");
    reveal_strlit("sg");
    reveal_strlit("sk");
    reveal_strlit("si");
    reveal_strlit("za");
    reveal_strlit("kr");
    reveal_strlit("es");
    reveal_strlit("se");
    reveal_strlit("ch");
    reveal_strlit("tw");
    reveal_strlit("th");
    reveal_strlit("tr");
    reveal_strlit("ua");
    reveal_strlit("uk");
    reveal_strlit("us");
    reveal_strlit("vn");
    match c.letters() {
        None => {
            assert(c.code_spec() =~= Seq::<char>::empty());
        },
        Some((x, y)) => {
            assert(c.code_spec() =~= seq![x, y]);
        },
    }
}

} // verus!
