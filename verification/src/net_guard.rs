//! SSRF filter: classifies an outbound URL as unsafe before any request is
//! issued. A URL is unsafe when it does not parse, its scheme is not HTTP
//! or HTTPS, it has no host, its host is a loopback name, or its host is an
//! IPv4 literal in a loopback, private or link-style reserved range.
//!
//! Host names that merely resolve to private addresses are not caught here:
//! the guard never performs name resolution, a deliberate, known gap.

use vstd::prelude::*;

use crate::text::{lower_ascii, parse_u32, spec_all_digits, spec_dec_value, spec_lower, str_eq};

verus! {

/// Relies on `url::Url::parse`, `Url::scheme` and `Url::host_str`: the
/// parse outcome, the (lowercased) scheme and the host text are functions
/// of the input string alone.
pub uninterp spec fn url_parse(s: Seq<char>) -> Option<(Seq<char>, Option<Seq<char>>)>;

/// Relies on `url::Url::parse`: hands back the scheme and host of the URL,
/// or nothing when the string does not parse as an absolute URL.
#[verifier::external_body]
fn parse_url_parts(url: &str) -> (r: Option<(String, Option<String>)>)
    ensures
        match r {
            Some(p) => url_parse(url@) == Some::<(Seq<char>, Option<Seq<char>>)>(
                (
                    p.0@,
                    match p.1 {
                        Some(h) => Some(h@),
                        None => None,
                    },
                ),
            ),
            None => url_parse(url@) is None,
        },
{
    match url::Url::parse(url) {
        Ok(u) => Some((u.scheme().to_string(), u.host_str().map(|h| h.to_string()))),
        Err(_) => None,
    }
}

/// A decimal octet as the platform address parser accepts it: at least one
/// digit, no leading zero, value at most 255.
pub open spec fn spec_octet_ok(s: Seq<char>) -> bool {
    s.len() >= 1 && spec_all_digits(s) && (s.len() == 1 || s[0] != '0') && spec_dec_value(s)
        <= 255
}

/// Positions `a < b < c` carry the three dots of a well-formed dotted-quad
/// IPv4 literal, every piece between them a valid octet.
pub open spec fn spec_ipv4_shape(s: Seq<char>, a: int, b: int, c: int) -> bool {
    0 < a < b < c < s.len() && s[a] == '.' && s[b] == '.' && s[c] == '.' && spec_octet_ok(
        s.subrange(0, a),
    ) && spec_octet_ok(s.subrange(a + 1, b)) && spec_octet_ok(s.subrange(b + 1, c))
        && spec_octet_ok(s.subrange(c + 1, s.len() as int))
}

/// The four octet values of an IPv4 literal, or nothing when the string is
/// not one. The dot positions of a well-formed literal are unique, so the
/// chosen witness is determined.
pub open spec fn spec_ipv4(s: Seq<char>) -> Option<(nat, nat, nat, nat)> {
    if exists|t: (int, int, int)| spec_ipv4_shape(s, t.0, t.1, t.2) {
        let t = choose|t: (int, int, int)| spec_ipv4_shape(s, t.0, t.1, t.2);
        Some(
            (
                spec_dec_value(s.subrange(0, t.0)),
                spec_dec_value(s.subrange(t.0 + 1, t.1)),
                spec_dec_value(s.subrange(t.1 + 1, t.2)),
                spec_dec_value(s.subrange(t.2 + 1, s.len() as int)),
            ),
        )
    } else {
        None
    }
}

/// The host, ASCII-lowercased, is a loopback name or an IPv4 literal in
/// `127.0.0.0/8`, `10.0.0.0/8`, `172.16.0.0/12` or `192.168.0.0/16`.
pub open spec fn spec_host_unsafe(host: Seq<char>) -> bool {
    let h = spec_lower(host);
    h == "::1"@ || h == "[::1]"@ || h == "localhost"@ || (match spec_ipv4(h) {
        Some(o) => o.0 == 127 || o.0 == 10 || (o.0 == 172 && 16 <= o.1 <= 31) || (o.0 == 192
            && o.1 == 168),
        None => false,
    })
}

/// The classification the guard applies to every outbound URL.
pub open spec fn spec_url_unsafe(s: Seq<char>) -> bool {
    match url_parse(s) {
        None => true,
        Some(p) => !(p.0 == "http"@ || p.0 == "https"@) || (match p.1 {
            None => true,
            Some(h) => spec_host_unsafe(h),
        }),
    }
}

/// Two well-formed dot shapes over one string agree: every piece is
/// all-digit, so the only dots in the string are the three named ones.
proof fn lemma_ipv4_shape_unique(s: Seq<char>, a: int, b: int, c: int, x: int, y: int, z: int)
    requires
        spec_ipv4_shape(s, a, b, c),
        spec_ipv4_shape(s, x, y, z),
    ensures
        a == x && b == y && c == z,
{
    assert forall|i: int| 0 <= i < s.len() && s[i] == '.' implies i == a || i == b || i == c by {
        if i < a {
            assert(crate::text::spec_digit(s.subrange(0, a)[i]) < 10);
        } else if a < i < b {
            assert(crate::text::spec_digit(s.subrange(a + 1, b)[i - (a + 1)]) < 10);
        } else if b < i < c {
            assert(crate::text::spec_digit(s.subrange(b + 1, c)[i - (b + 1)]) < 10);
        } else if c < i {
            assert(crate::text::spec_digit(s.subrange(c + 1, s.len() as int)[i - (c + 1)]) < 10);
        }
    }
    assert forall|i: int| 0 <= i < s.len() && s[i] == '.' implies i == x || i == y || i == z by {
        if i < x {
            assert(crate::text::spec_digit(s.subrange(0, x)[i]) < 10);
        } else if x < i < y {
            assert(crate::text::spec_digit(s.subrange(x + 1, y)[i - (x + 1)]) < 10);
        } else if y < i < z {
            assert(crate::text::spec_digit(s.subrange(y + 1, z)[i - (y + 1)]) < 10);
        } else if z < i {
            assert(crate::text::spec_digit(s.subrange(z + 1, s.len() as int)[i - (z + 1)]) < 10);
        }
    }
}

/// Checks one piece of a dotted quad.
fn check_octet(piece: &str) -> (r: Option<u8>)
    ensures
        match r {
            Some(v) => spec_octet_ok(piece@) && v == spec_dec_value(piece@),
            None => !spec_octet_ok(piece@),
        },
{
    let n = piece.unicode_len();
    if n == 0 {
        return None;
    }
    if n > 1 && piece.get_char(0) == '0' {
        return None;
    }
    match parse_u32(piece) {
        Some(v) => {
            if v <= 255 {
                Some(v as u8)
            } else {
                None
            }
        },
        None => {
            proof {
                if spec_all_digits(piece@) && spec_dec_value(piece@) <= 255 {
                }
            }
            None
        },
    }
}

/// Parses an ASCII dotted-quad IPv4 literal, as the platform address type
/// does: four octets, no leading zeros.
#[verifier::loop_isolation(false)]
#[verifier::rlimit(100)]
pub fn parse_ipv4(host: &str) -> (r: Option<(u8, u8, u8, u8)>)
    ensures
        match r {
            Some(o) => spec_ipv4(host@) == Some::<(nat, nat, nat, nat)>(
                (o.0 as nat, o.1 as nat, o.2 as nat, o.3 as nat),
            ),
            None => spec_ipv4(host@) is None,
        },
{
    let n = host.unicode_len();
    let mut dots: Vec<usize> = Vec::new();
    let mut i: usize = 0;
    while i < n
        invariant
            i <= n,
            n == host@.len(),
            forall|k: int| 0 <= k < dots.len() ==> 0 <= #[trigger] dots[k] < i,
            forall|k: int| 0 <= k < dots.len() ==> host@[dots[k] as int] == '.',
            forall|j: int|
                0 <= j < i && host@[j] == '.' ==> exists|k: int|
                    0 <= k < dots.len() && dots[k] == j,
            forall|k1: int, k2: int| 0 <= k1 < k2 < dots.len() ==> dots[k1] < dots[k2],
        decreases n - i,
    {
        let ghost pre = dots@;
        if host.get_char(i) == '.' {
            dots.push(i);
        }
        i += 1;
        assert forall|j: int| 0 <= j < i && host@[j] == '.' implies exists|k: int|
            0 <= k < dots.len() && dots[k] == j by {
            if j < i - 1 {
                let k = choose|k: int| 0 <= k < pre.len() && pre[k] == j;
                assert(dots[k] == j);
            } else {
                assert(dots[dots.len() - 1] == j);
            }
        }
    }
    if dots.len() != 3 {
        proof {
            if exists|t: (int, int, int)| spec_ipv4_shape(host@, t.0, t.1, t.2) {
                let t = choose|t: (int, int, int)| spec_ipv4_shape(host@, t.0, t.1, t.2);
                assert(host@[t.0] == '.');
                assert(host@[t.1] == '.');
                assert(host@[t.2] == '.');
                let k0 = choose|k: int| 0 <= k < dots.len() && dots[k] == t.0;
                let k1 = choose|k: int| 0 <= k < dots.len() && dots[k] == t.1;
                let k2 = choose|k: int| 0 <= k < dots.len() && dots[k] == t.2;
                assert(k0 != k1 && k1 != k2 && k0 != k2);
                if dots.len() > 3 {
                    // A fourth dot would sit inside an all-digit octet.
                    let l0 = if k0 != 0 && k1 != 0 && k2 != 0 {
                        0
                    } else if k0 != 1 && k1 != 1 && k2 != 1 {
                        1
                    } else if k0 != 2 && k1 != 2 && k2 != 2 {
                        2
                    } else {
                        3
                    };
                    let p = dots[l0] as int;
                    assert(host@[p] == '.');
                    assert(p != t.0 && p != t.1 && p != t.2);
                    if p < t.0 {
                        assert(crate::text::spec_digit(host@.subrange(0, t.0)[p]) < 10);
                    } else if t.0 < p < t.1 {
                        assert(crate::text::spec_digit(
                            host@.subrange(t.0 + 1, t.1)[p - (t.0 + 1)],
                        ) < 10);
                    } else if t.1 < p < t.2 {
                        assert(crate::text::spec_digit(
                            host@.subrange(t.1 + 1, t.2)[p - (t.1 + 1)],
                        ) < 10);
                    } else {
                        assert(crate::text::spec_digit(
                            host@.subrange(t.2 + 1, host@.len() as int)[p - (t.2 + 1)],
                        ) < 10);
                    }
                }
            }
        }
        return None;
    }
    let a = dots[0];
    let b = dots[1];
    let c = dots[2];
    assert(host@[a as int] == '.' && host@[b as int] == '.' && host@[c as int] == '.');
    if a == 0 || c + 1 >= n {
        proof {
            lemma_no_shape_dot_mismatch(host@, dots@, a as int, b as int, c as int);
        }
        return None;
    }
    let p0 = host.substring_char(0, a);
    let p1 = host.substring_char(a + 1, b);
    let p2 = host.substring_char(b + 1, c);
    let p3 = host.substring_char(c + 1, n);
    let o0 = check_octet(p0);
    let o1 = check_octet(p1);
    let o2 = check_octet(p2);
    let o3 = check_octet(p3);
    match (o0, o1, o2, o3) {
        (Some(v0), Some(v1), Some(v2), Some(v3)) => {
            assert(spec_ipv4_shape(host@, a as int, b as int, c as int));
            proof {
                let w = (a as int, b as int, c as int);
                assert(spec_ipv4_shape(host@, w.0, w.1, w.2));
                let t = choose|t: (int, int, int)| spec_ipv4_shape(host@, t.0, t.1, t.2);
                lemma_ipv4_shape_unique(host@, t.0, t.1, t.2, a as int, b as int, c as int);
            }
            Some((v0, v1, v2, v3))
        },
        _ => {
            proof {
                lemma_no_shape_dot_mismatch(host@, dots@, a as int, b as int, c as int);
            }
            None
        },
    }
}

/// When the string's dots are exactly `a < b < c` and no well-formed quad
/// stands on them, no well-formed quad stands at all.
proof fn lemma_no_shape_dot_mismatch(s: Seq<char>, dots: Seq<usize>, a: int, b: int, c: int)
    requires
        dots.len() == 3,
        dots[0] == a && dots[1] == b && dots[2] == c,
        0 <= a < s.len() && 0 <= b < s.len() && 0 <= c < s.len(),
        s[a] == '.' && s[b] == '.' && s[c] == '.',
        a < b < c,
        forall|j: int| 0 <= j < s.len() && s[j] == '.' ==> j == a || j == b || j == c,
        !spec_ipv4_shape(s, a, b, c),
    ensures
        !exists|t: (int, int, int)| spec_ipv4_shape(s, t.0, t.1, t.2),
{
    if exists|t: (int, int, int)| spec_ipv4_shape(s, t.0, t.1, t.2) {
        let t = choose|t: (int, int, int)| spec_ipv4_shape(s, t.0, t.1, t.2);
        assert(s[t.0] == '.' && s[t.1] == '.' && s[t.2] == '.');
        assert(t.0 == a || t.0 == b || t.0 == c);
        assert(t.1 == a || t.1 == b || t.1 == c);
        assert(t.2 == a || t.2 == b || t.2 == c);
        assert(t.0 < t.1 < t.2);
        assert(spec_ipv4_shape(s, a, b, c));
    }
}

/// Whether the (already parsed) host is a loopback name or a reserved IPv4
/// literal.
fn host_is_unsafe(host: &str) -> (r: bool)
    ensures
        r == spec_host_unsafe(host@),
{
    let lowered = lower_ascii(host);
    proof {
        reveal_strlit("::1");
        reveal_strlit("[::1]");
        reveal_strlit("localhost");
    }
    if str_eq(lowered.as_str(), "::1") || str_eq(lowered.as_str(), "[::1]") || str_eq(
        lowered.as_str(),
        "localhost",
    ) {
        return true;
    }
    match parse_ipv4(lowered.as_str()) {
        Some(o) => o.0 == 127 || o.0 == 10 || (o.0 == 172 && o.1 >= 16 && o.1 <= 31) || (o.0
            == 192 && o.1 == 168),
        None => false,
    }
}

/// The SSRF gate run before every outbound request: true exactly when the
/// URL must be refused.
pub fn is_unsafe(url: &str) -> (r: bool)
    ensures
        r == spec_url_unsafe(url@),
{
    match parse_url_parts(url) {
        None => true,
        Some(parts) => {
            proof {
                reveal_strlit("http");
                reveal_strlit("https");
            }
            let scheme_ok = str_eq(parts.0.as_str(), "http") || str_eq(
                parts.0.as_str(),
                "https",
            );
            if !scheme_ok {
                return true;
            }
            match parts.1 {
                None => true,
                Some(h) => host_is_unsafe(h.as_str()),
            }
        },
    }
}

} // verus!
