//! Semantic versions and dependency requirements for plugin manifests.
//!
//! A version is read as up to three dot-separated numeric parts, after
//! surrounding whitespace and any leading `v` letters are stripped; a
//! hyphen inside the third part starts the prerelease tag, which runs to
//! the next dot. A missing or unreadable minor or patch part counts as
//! zero; an unreadable major part makes the whole version unreadable.
//! Whitespace here means the ASCII whitespace characters.

use vstd::prelude::*;

use crate::text::{spec_all_digits, spec_dec_value};

verus! {

/// The mathematical model of a parsed version.
pub struct SemV {
    pub major: int,
    pub minor: int,
    pub patch: int,
    pub prerelease: Option<Seq<char>>,
}

/// A parsed semantic version.
#[derive(Debug, Clone, PartialEq, Eq)]
pub struct SemVer {
    pub major: u32,
    pub minor: u32,
    pub patch: u32,
    pub prerelease: Option<String>,
}

impl DeepView for SemVer {
    type V = SemV;

    open spec fn deep_view(&self) -> SemV {
        SemV {
            major: self.major as int,
            minor: self.minor as int,
            patch: self.patch as int,
            prerelease: match self.prerelease {
                Some(p) => Some(p@),
                None => None,
            },
        }
    }
}

/// An ASCII whitespace character, as the platform trim treats them.
pub open spec fn spec_is_ws(c: char) -> bool {
    c == ' ' || c == '\t' || c == '\n' || c == '\r' || c == '\u{b}' || c == '\u{c}'
}

/// The first position at or past `from` holding `c`, or the length.
pub open spec fn spec_find_from(s: Seq<char>, from: int, c: char) -> int
    decreases s.len() - from,
{
    if from < 0 || from >= s.len() {
        s.len() as int
    } else if s[from] == c {
        from
    } else {
        spec_find_from(s, from + 1, c)
    }
}

/// The text with leading `v` letters stripped.
pub open spec fn spec_strip_v(s: Seq<char>) -> Seq<char>
    decreases s.len(),
{
    if s.len() > 0 && s.first() == 'v' {
        spec_strip_v(s.drop_first())
    } else {
        s
    }
}

/// The version text after stripping surrounding whitespace, then leading
/// `v` letters; whitespace uncovered by the second stage stays.
pub open spec fn spec_clean(s: Seq<char>) -> Seq<char> {
    spec_strip_v(spec_trim_ws(s))
}

/// A numeric part, as `str::parse::<u32>` reads it: an optional plus sign,
/// then only digits, the value fitting the type.
pub open spec fn spec_part_u32(s: Seq<char>) -> Option<int> {
    let t = if s.len() > 0 && s[0] == '+' {
        s.drop_first()
    } else {
        s
    };
    if t.len() > 0 && spec_all_digits(t) && spec_dec_value(t) <= u32::MAX {
        Some(spec_dec_value(t) as int)
    } else {
        None
    }
}

/// A numeric part read leniently: zero when unreadable.
pub open spec fn spec_part_or_zero(s: Seq<char>) -> int {
    match spec_part_u32(s) {
        Some(v) => v,
        None => 0,
    }
}

/// The parse of a version text.
pub open spec fn spec_parse(version: Seq<char>) -> Option<SemV> {
    let clean = spec_clean(version);
    if clean.len() == 0 {
        None
    } else {
        let d1 = spec_find_from(clean, 0, '.');
        match spec_part_u32(clean.subrange(0, d1)) {
            None => None,
            Some(major) => {
                if d1 == clean.len() {
                    Some(SemV { major, minor: 0, patch: 0, prerelease: None })
                } else {
                    let d2 = spec_find_from(clean, d1 + 1, '.');
                    let minor = spec_part_or_zero(clean.subrange(d1 + 1, d2));
                    if d2 == clean.len() {
                        Some(SemV { major, minor, patch: 0, prerelease: None })
                    } else {
                        let d3 = spec_find_from(clean, d2 + 1, '.');
                        let h = spec_find_from(clean, d2 + 1, '-');
                        if h < d3 {
                            Some(
                                SemV {
                                    major,
                                    minor,
                                    patch: spec_part_or_zero(clean.subrange(d2 + 1, h)),
                                    prerelease: Some(clean.subrange(h + 1, d3)),
                                },
                            )
                        } else {
                            Some(
                                SemV {
                                    major,
                                    minor,
                                    patch: spec_part_or_zero(clean.subrange(d2 + 1, d3)),
                                    prerelease: None,
                                },
                            )
                        }
                    }
                }
            },
        }
    }
}

/// Lexicographic order on character sequences by code point, which matches
/// the platform's byte order on their UTF-8 forms: negative, zero or
/// positive as `a` sorts before, equal to or after `b`.
pub open spec fn spec_lex_cmp(a: Seq<char>, b: Seq<char>) -> int
    decreases a.len(),
{
    if a.len() == 0 && b.len() == 0 {
        0
    } else if a.len() == 0 {
        -1
    } else if b.len() == 0 {
        1
    } else if a.first() < b.first() {
        -1
    } else if a.first() > b.first() {
        1
    } else {
        spec_lex_cmp(a.drop_first(), b.drop_first())
    }
}

/// Version order: numeric parts first; a prerelease sorts before the plain
/// release of the same triple; two prereleases sort lexicographically.
pub open spec fn spec_cmp(a: SemV, b: SemV) -> int {
    if a.major != b.major {
        if a.major < b.major {
            -1
        } else {
            1
        }
    } else if a.minor != b.minor {
        if a.minor < b.minor {
            -1
        } else {
            1
        }
    } else if a.patch != b.patch {
        if a.patch < b.patch {
            -1
        } else {
            1
        }
    } else {
        match (a.prerelease, b.prerelease) {
            (None, None) => 0,
            (Some(_), None) => -1,
            (None, Some(_)) => 1,
            (Some(x), Some(y)) => spec_lex_cmp(x, y),
        }
    }
}

/// Whether the version satisfies a requirement text: a comparison operator
/// prefix, a caret or tilde range, or plain equality; an unreadable
/// requirement is never satisfied.
pub open spec fn spec_satisfies(v: SemV, requirement: Seq<char>) -> bool {
    let req = spec_trim_ws(requirement);
    if spec_starts(req, ">="@) {
        match spec_parse(req.skip(2)) {
            Some(t) => spec_cmp(v, t) >= 0,
            None => false,
        }
    } else if spec_starts(req, ">"@) {
        match spec_parse(req.skip(1)) {
            Some(t) => spec_cmp(v, t) > 0,
            None => false,
        }
    } else if spec_starts(req, "<="@) {
        match spec_parse(req.skip(2)) {
            Some(t) => spec_cmp(v, t) <= 0,
            None => false,
        }
    } else if spec_starts(req, "<"@) {
        match spec_parse(req.skip(1)) {
            Some(t) => spec_cmp(v, t) < 0,
            None => false,
        }
    } else if spec_starts(req, "="@) {
        match spec_parse(req.skip(1)) {
            Some(t) => spec_cmp(v, t) == 0,
            None => false,
        }
    } else if spec_starts(req, "^"@) {
        match spec_parse(req.skip(1)) {
            Some(t) => if spec_cmp(v, t) < 0 {
                false
            } else if t.major == 0 {
                if t.minor == 0 {
                    v.major == 0 && v.minor == 0 && v.patch == t.patch
                } else {
                    v.major == 0 && v.minor == t.minor
                }
            } else {
                v.major == t.major
            },
            None => false,
        }
    } else if spec_starts(req, "~"@) {
        match spec_parse(req.skip(1)) {
            Some(t) => spec_cmp(v, t) >= 0 && v.major == t.major && v.minor == t.minor,
            None => false,
        }
    } else {
        match spec_parse(req) {
            Some(t) => spec_cmp(v, t) == 0,
            None => false,
        }
    }
}

/// The text with surrounding ASCII whitespace stripped.
pub open spec fn spec_trim_ws(s: Seq<char>) -> Seq<char>
    decreases s.len(),
{
    if s.len() > 0 && spec_is_ws(s.first()) {
        spec_trim_ws(s.drop_first())
    } else if s.len() > 0 && spec_is_ws(s.last()) {
        spec_trim_ws(s.drop_last())
    } else {
        s
    }
}

/// Prefix test over character sequences.
pub open spec fn spec_starts(s: Seq<char>, prefix: Seq<char>) -> bool {
    crate::text::spec_starts_with(s, prefix)
}

/// Trims surrounding ASCII whitespace, returning the bounds inside `s`.
#[verifier::loop_isolation(false)]
pub fn trim_bounds(s: &str) -> (r: (usize, usize))
    ensures
        r.0 <= r.1 <= s@.len(),
        s@.subrange(r.0 as int, r.1 as int) == spec_trim_ws(s@),
{
    let n = s.unicode_len();
    let mut lo: usize = 0;
    let mut hi: usize = n;
    proof {
        assert(s@.subrange(0, n as int) =~= s@);
    }
    loop
        invariant
            0 <= lo <= hi <= n,
            n == s@.len(),
            spec_trim_ws(s@) == spec_trim_ws(s@.subrange(lo as int, hi as int)),
        decreases hi - lo,
    {
        if lo < hi {
            let c = s.get_char(lo);
            if c == ' ' || c == '\t' || c == '\n' || c == '\r' || c == '\u{b}' || c == '\u{c}' {
                proof {
                    assert(s@.subrange(lo as int, hi as int).drop_first() =~= s@.subrange(
                        lo + 1 as int,
                        hi as int,
                    ));
                }
                lo += 1;
                continue ;
            }
            let d = s.get_char(hi - 1);
            if d == ' ' || d == '\t' || d == '\n' || d == '\r' || d == '\u{b}' || d == '\u{c}' {
                proof {
                    assert(s@.subrange(lo as int, hi as int).drop_last() =~= s@.subrange(
                        lo as int,
                        hi - 1 as int,
                    ));
                }
                hi -= 1;
                continue ;
            }
            proof {
                let t = s@.subrange(lo as int, hi as int);
                assert(!spec_is_ws(t.first()) && !spec_is_ws(t.last()));
            }
            return (lo, hi);
        } else {
            proof {
                assert(s@.subrange(lo as int, hi as int) =~= Seq::<char>::empty());
            }
            return (lo, hi);
        }
    }
}

/// Reads one numeric part as `str::parse::<u32>` would.
fn part_u32(s: &str) -> (r: Option<u32>)
    ensures
        match r {
            Some(v) => spec_part_u32(s@) == Some(v as int),
            None => spec_part_u32(s@) is None,
        },
{
    let n = s.unicode_len();
    if n > 0 && s.get_char(0) == '+' {
        let rest = s.substring_char(1, n);
        assert(rest@ =~= s@.drop_first());
        crate::text::parse_u32(rest)
    } else {
        assert(!(s@.len() > 0 && s@[0] == '+'));
        crate::text::parse_u32(s)
    }
}

/// The first position at or past `from` holding `c`, or the length.
#[verifier::loop_isolation(false)]
fn find_from(s: &str, from: usize, c: char) -> (r: usize)
    requires
        from <= s@.len(),
    ensures
        r == spec_find_from(s@, from as int, c),
        from <= r <= s@.len(),
{
    let n = s.unicode_len();
    let mut i: usize = from;
    while i < n
        invariant
            from <= i <= n,
            n == s@.len(),
            spec_find_from(s@, from as int, c) == spec_find_from(s@, i as int, c),
        decreases n - i,
    {
        if s.get_char(i) == c {
            return i;
        }
        i += 1;
    }
    n
}

impl SemVer {
    /// Reads a version text; the major part must be numeric, missing or
    /// unreadable minor and patch parts count as zero, and a hyphen in the
    /// third part starts the prerelease tag.
    #[verifier::loop_isolation(false)]
    pub fn parse(version: &str) -> (r: Option<SemVer>)
        ensures
            match r {
                Some(v) => spec_parse(version@) == Some(v.deep_view()),
                None => spec_parse(version@) is None,
            },
    {
        let (mut lo, hi) = trim_bounds(version);
        while lo < hi && version.get_char(lo) == 'v'
            invariant
                lo <= hi <= version@.len(),
                spec_clean(version@) == spec_strip_v(version@.subrange(lo as int, hi as int)),
            decreases hi - lo,
        {
            proof {
                assert(version@.subrange(lo as int, hi as int).drop_first() =~= version@.subrange(
                    lo + 1 as int,
                    hi as int,
                ));
            }
            lo += 1;
        }
        let clean = version.substring_char(lo, hi);
        proof {
            let t = version@.subrange(lo as int, hi as int);
            assert(!(t.len() > 0 && t.first() == 'v'));
            assert(spec_clean(version@) == t);
            assert(clean@ == t);
        }
        let n = clean.unicode_len();
        if n == 0 {
            return None;
        }
        let d1 = find_from(clean, 0, '.');
        let part0 = clean.substring_char(0, d1);
        assert(part0@ =~= clean@.subrange(0, d1 as int));
        let major = match part_u32(part0) {
            Some(m) => m,
            None => {
                return None;
            },
        };
        if d1 == n {
            return Some(SemVer { major, minor: 0, patch: 0, prerelease: None });
        }
        let d2 = find_from(clean, d1 + 1, '.');
        let part1 = clean.substring_char(d1 + 1, d2);
        assert(part1@ =~= clean@.subrange(d1 + 1 as int, d2 as int));
        let minor = match part_u32(part1) {
            Some(m) => m,
            None => 0,
        };
        if d2 == n {
            return Some(SemVer { major, minor, patch: 0, prerelease: None });
        }
        let d3 = find_from(clean, d2 + 1, '.');
        let h = find_from(clean, d2 + 1, '-');
        if h < d3 {
            let partp = clean.substring_char(d2 + 1, h);
            assert(partp@ =~= clean@.subrange(d2 + 1 as int, h as int));
            let patch = match part_u32(partp) {
                Some(m) => m,
                None => 0,
            };
            let pre = clean.substring_char(h + 1, d3);
            assert(pre@ =~= clean@.subrange(h + 1 as int, d3 as int));
            Some(SemVer { major, minor, patch, prerelease: Some(pre.to_owned()) })
        } else {
            let partp = clean.substring_char(d2 + 1, d3);
            assert(partp@ =~= clean@.subrange(d2 + 1 as int, d3 as int));
            let patch = match part_u32(partp) {
                Some(m) => m,
                None => 0,
            };
            Some(SemVer { major, minor, patch, prerelease: None })
        }
    }

    /// Version order against another parsed version: negative, zero or
    /// positive.
    fn cmp_to(&self, other: &SemVer) -> (r: i8)
        ensures
            r == spec_cmp(self.deep_view(), other.deep_view()),
    {
        if self.major != other.major {
            return if self.major < other.major {
                -1
            } else {
                1
            };
        }
        if self.minor != other.minor {
            return if self.minor < other.minor {
                -1
            } else {
                1
            };
        }
        if self.patch != other.patch {
            return if self.patch < other.patch {
                -1
            } else {
                1
            };
        }
        match (&self.prerelease, &other.prerelease) {
            (None, None) => 0,
            (Some(_), None) => -1,
            (None, Some(_)) => 1,
            (Some(x), Some(y)) => lex_cmp(x.as_str(), y.as_str()),
        }
    }

    /// Whether this version satisfies the requirement text.
    pub fn satisfies(&self, requirement: &str) -> (r: bool)
        ensures
            r == spec_satisfies(self.deep_view(), requirement@),
    {
        let (lo, hi) = trim_bounds(requirement);
        let req = requirement.substring_char(lo, hi);
        assert(req@ == spec_trim_ws(requirement@));
        let n = req.unicode_len();
        proof {
            reveal_strlit(">=");
            reveal_strlit(">");
            reveal_strlit("<=");
            reveal_strlit("<");
            reveal_strlit("=");
            reveal_strlit("^");
            reveal_strlit("~");
        }
        if crate::text::starts_with_chars(req, ">=") {
            let rest = req.substring_char(2, n);
            assert(rest@ =~= req@.skip(2));
            match SemVer::parse(rest) {
                Some(t) => self.cmp_to(&t) >= 0,
                None => false,
            }
        } else if crate::text::starts_with_chars(req, ">") {
            let rest = req.substring_char(1, n);
            assert(rest@ =~= req@.skip(1));
            match SemVer::parse(rest) {
                Some(t) => self.cmp_to(&t) > 0,
                None => false,
            }
        } else if crate::text::starts_with_chars(req, "<=") {
            let rest = req.substring_char(2, n);
            assert(rest@ =~= req@.skip(2));
            match SemVer::parse(rest) {
                Some(t) => self.cmp_to(&t) <= 0,
                None => false,
            }
        } else if crate::text::starts_with_chars(req, "<") {
            let rest = req.substring_char(1, n);
            assert(rest@ =~= req@.skip(1));
            match SemVer::parse(rest) {
                Some(t) => self.cmp_to(&t) < 0,
                None => false,
            }
        } else if crate::text::starts_with_chars(req, "=") {
            let rest = req.substring_char(1, n);
            assert(rest@ =~= req@.skip(1));
            match SemVer::parse(rest) {
                Some(t) => self.cmp_to(&t) == 0,
                None => false,
            }
        } else if crate::text::starts_with_chars(req, "^") {
            let rest = req.substring_char(1, n);
            assert(rest@ =~= req@.skip(1));
            match SemVer::parse(rest) {
                Some(t) => {
                    if self.cmp_to(&t) < 0 {
                        false
                    } else if t.major == 0 {
                        if t.minor == 0 {
                            self.major == 0 && self.minor == 0 && self.patch == t.patch
                        } else {
                            self.major == 0 && self.minor == t.minor
                        }
                    } else {
                        self.major == t.major
                    }
                },
                None => false,
            }
        } else if crate::text::starts_with_chars(req, "~") {
            let rest = req.substring_char(1, n);
            assert(rest@ =~= req@.skip(1));
            match SemVer::parse(rest) {
                Some(t) => self.cmp_to(&t) >= 0 && self.major == t.major && self.minor
                    == t.minor,
                None => false,
            }
        } else {
            match SemVer::parse(req) {
                Some(t) => self.cmp_to(&t) == 0,
                None => false,
            }
        }
    }
}

/// Lexicographic comparison of two strings by character.
#[verifier::loop_isolation(false)]
fn lex_cmp(a: &str, b: &str) -> (r: i8)
    ensures
        r == spec_lex_cmp(a@, b@),
{
    let an = a.unicode_len();
    let bn = b.unicode_len();
    let mut i: usize = 0;
    proof {
        assert(a@.skip(0) =~= a@);
        assert(b@.skip(0) =~= b@);
    }
    loop
        invariant
            i <= an,
            i <= bn,
            an == a@.len(),
            bn == b@.len(),
            spec_lex_cmp(a@, b@) == spec_lex_cmp(a@.skip(i as int), b@.skip(i as int)),
        decreases an - i,
    {
        let a_done = i >= an;
        let b_done = i >= bn;
        if a_done && b_done {
            return 0;
        }
        if a_done {
            return -1;
        }
        if b_done {
            return 1;
        }
        let ca = a.get_char(i);
        let cb = b.get_char(i);
        if ca < cb {
            return -1;
        }
        if ca > cb {
            return 1;
        }
        proof {
            assert(a@.skip(i as int).drop_first() =~= a@.skip(i + 1 as int));
            assert(b@.skip(i as int).drop_first() =~= b@.skip(i + 1 as int));
        }
        i += 1;
    }
}

/// A dependency named by a plugin manifest: an identifier alone, or an
/// identifier with a version requirement.
#[derive(Debug, Clone, PartialEq, Eq)]
pub enum PluginDependency {
    Simple(String),
    WithVersion { id: String, version: Option<String> },
}

impl PluginDependency {
    /// The identifier of the required plugin.
    pub fn id(&self) -> (r: &str)
        ensures
            r@ == match self {
                PluginDependency::Simple(id) => id@,
                PluginDependency::WithVersion { id, .. } => id@,
            },
    {
        match self {
            PluginDependency::Simple(id) => id.as_str(),
            PluginDependency::WithVersion { id, .. } => id.as_str(),
        }
    }

    /// The version requirement, when one was given.
    pub fn version_requirement(&self) -> (r: Option<&str>)
        ensures
            match self {
                PluginDependency::Simple(_) => r is None,
                PluginDependency::WithVersion { version, .. } => match (r, version) {
                    (Some(rs), Some(vs)) => rs@ == vs@,
                    (None, None) => true,
                    _ => false,
                },
            },
    {
        match self {
            PluginDependency::Simple(_) => None,
            PluginDependency::WithVersion { version, .. } => match version {
                Some(v) => Some(v.as_str()),
                None => None,
            },
        }
    }

    /// Whether an installed version satisfies this dependency: a bare
    /// identifier accepts any version; a requirement accepts exactly the
    /// versions that parse and satisfy it.
    pub fn is_satisfied_by(&self, version: &str) -> (r: bool)
        ensures
            r == match self {
                PluginDependency::Simple(_) => true,
                PluginDependency::WithVersion { version: req, .. } => match req {
                    None => true,
                    Some(rq) => match spec_parse(version@) {
                        Some(v) => spec_satisfies(v, rq@),
                        None => false,
                    },
                },
            },
    {
        match self.version_requirement() {
            Some(req) => match SemVer::parse(version) {
                Some(ver) => ver.satisfies(req),
                None => false,
            },
            None => true,
        }
    }
}

} // verus!
