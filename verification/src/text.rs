//! Character-level string utilities shared by the sandbox components:
//! prefix/suffix/equality tests, ASCII case folding, substring search and
//! decimal parsing, each with an exact specification.

use vstd::prelude::*;

verus! {

/// Relies on `String::push`: appends the character to the end of the string.
pub assume_specification[ String::push ](s: &mut String, c: char)
    ensures
        final(s)@ == old(s)@.push(c),
;

/// True when `s` begins with the characters of `prefix`.
pub open spec fn spec_starts_with(s: Seq<char>, prefix: Seq<char>) -> bool {
    prefix.len() <= s.len() && s.subrange(0, prefix.len() as int) == prefix
}

/// True when `s` ends with the characters of `suffix`.
pub open spec fn spec_ends_with(s: Seq<char>, suffix: Seq<char>) -> bool {
    suffix.len() <= s.len() && s.subrange(s.len() - suffix.len(), s.len() as int) == suffix
}

/// ASCII case folding of one character; all others are unchanged.
pub open spec fn spec_lower_char(c: char) -> char {
    if 'A' <= c && c <= 'Z' {
        ((c as u32) + 32) as char
    } else {
        c
    }
}

/// ASCII case folding of a character sequence.
pub open spec fn spec_lower(s: Seq<char>) -> Seq<char> {
    s.map_values(|c: char| spec_lower_char(c))
}

/// `needle` occurs in `haystack` starting at position `i`.
pub open spec fn spec_match_at(haystack: Seq<char>, needle: Seq<char>, i: int) -> bool {
    0 <= i && i + needle.len() <= haystack.len() && haystack.subrange(
        i,
        i + needle.len(),
    ) == needle
}

/// `needle` occurs somewhere in `haystack`.
pub open spec fn spec_contains(haystack: Seq<char>, needle: Seq<char>) -> bool {
    exists|i: int| spec_match_at(haystack, needle, i)
}

/// True when `s` begins with `prefix`, comparing character by character.
pub fn starts_with_chars(s: &str, prefix: &str) -> (r: bool)
    ensures
        r == spec_starts_with(s@, prefix@),
{
    let n = prefix.unicode_len();
    let sn = s.unicode_len();
    if n > sn {
        return false;
    }
    let mut i: usize = 0;
    while i < n
        invariant
            i <= n,
            n <= sn,
            n == prefix@.len(),
            sn == s@.len(),
            forall|j: int| 0 <= j < i ==> s@[j] == prefix@[j],
        decreases n - i,
    {
        if s.get_char(i) != prefix.get_char(i) {
            assert(s@.subrange(0, n as int)[i as int] != prefix@[i as int]);
            return false;
        }
        i += 1;
    }
    assert(s@.subrange(0, n as int) =~= prefix@);
    true
}

/// True when `s` ends with `suffix`, comparing character by character.
pub fn ends_with_chars(s: &str, suffix: &str) -> (r: bool)
    ensures
        r == spec_ends_with(s@, suffix@),
{
    let n = suffix.unicode_len();
    let sn = s.unicode_len();
    if n > sn {
        return false;
    }
    let off = sn - n;
    let mut i: usize = 0;
    while i < n
        invariant
            i <= n,
            n <= sn,
            off == sn - n,
            n == suffix@.len(),
            sn == s@.len(),
            forall|j: int| 0 <= j < i ==> s@[off + j] == suffix@[j],
        decreases n - i,
    {
        if s.get_char(off + i) != suffix.get_char(i) {
            assert(s@.subrange(sn - n, sn as int)[i as int] != suffix@[i as int]);
            return false;
        }
        i += 1;
    }
    assert(s@.subrange(sn - n, sn as int) =~= suffix@);
    true
}

/// Equality of string slices, compared character by character.
pub fn str_eq(a: &str, b: &str) -> (r: bool)
    ensures
        r == (a@ == b@),
{
    let an = a.unicode_len();
    let bn = b.unicode_len();
    if an != bn {
        return false;
    }
    let mut i: usize = 0;
    while i < an
        invariant
            i <= an,
            an == a@.len(),
            an == b@.len(),
            forall|j: int| 0 <= j < i ==> a@[j] == b@[j],
        decreases an - i,
    {
        if a.get_char(i) != b.get_char(i) {
            return false;
        }
        i += 1;
    }
    assert(a@ =~= b@);
    true
}

/// ASCII case folding of one character.
pub fn lower_char(c: char) -> (r: char)
    ensures
        r == spec_lower_char(c),
{
    let u = c as u32;
    if 65 <= u && u <= 90 {
        ((u + 32) as u8) as char
    } else {
        c
    }
}

/// The ASCII-lowercased copy of a string.
pub fn lower_ascii(s: &str) -> (r: String)
    ensures
        r@ == spec_lower(s@),
{
    let n = s.unicode_len();
    let mut out = String::new();
    let mut i: usize = 0;
    while i < n
        invariant
            i <= n,
            n == s@.len(),
            out@ =~= s@.subrange(0, i as int).map_values(|c: char| spec_lower_char(c)),
        decreases n - i,
    {
        out.push(lower_char(s.get_char(i)));
        assert(s@.subrange(0, i + 1 as int) =~= s@.subrange(0, i as int).push(s@[i as int]));
        i += 1;
    }
    assert(s@.subrange(0, n as int) =~= s@);
    out
}

/// Whether `needle` occurs in `haystack`, by naive search.
pub fn contains_sub(haystack: &str, needle: &str) -> (r: bool)
    ensures
        r == spec_contains(haystack@, needle@),
{
    let hn = haystack.unicode_len();
    let nn = needle.unicode_len();
    if nn > hn {
        return false;
    }
    if nn == 0 {
        assert(spec_match_at(haystack@, needle@, 0)) by {
            assert(haystack@.subrange(0, 0) =~= needle@);
        }
        return true;
    }
    let last_start = hn - nn;
    let mut i: usize = 0;
    while i <= last_start
        invariant
            0 < nn <= hn,
            last_start == hn - nn,
            i <= last_start + 1,
            hn == haystack@.len(),
            nn == needle@.len(),
            forall|k: int| 0 <= k < i ==> !spec_match_at(haystack@, needle@, k),
        decreases last_start + 1 - i,
    {
        let mut j: usize = 0;
        let mut matched = true;
        while j < nn
            invariant
                j <= nn,
                i <= last_start,
                last_start == hn - nn,
                nn <= hn,
                hn == haystack@.len(),
                nn == needle@.len(),
                matched ==> forall|k: int| 0 <= k < j ==> haystack@[i + k] == #[trigger] needle@[k],
                !matched ==> !spec_match_at(haystack@, needle@, i as int),
            ensures
                matched ==> forall|k: int| 0 <= k < nn ==> haystack@[i + k] == #[trigger] needle@[k],
                !matched ==> !spec_match_at(haystack@, needle@, i as int),
            decreases nn - j,
        {
            if haystack.get_char(i + j) != needle.get_char(j) {
                matched = false;
                assert(haystack@.subrange(i as int, i + nn as int)[j as int] != needle@[j as int]);
                assert(!spec_match_at(haystack@, needle@, i as int));
                break ;
            }
            j += 1;
        }
        if matched {
            assert forall|k: int| 0 <= k < nn implies haystack@.subrange(
                i as int,
                i + nn as int,
            )[k] == needle@[k] by {
                assert(haystack@[i + k] == needle@[k]);
            }
            assert(haystack@.subrange(i as int, i + nn as int) =~= needle@);
            assert(spec_match_at(haystack@, needle@, i as int));
            return true;
        }
        i += 1;
    }
    assert forall|k: int| !spec_match_at(haystack@, needle@, k) by {
        if 0 <= k && k + needle@.len() <= haystack@.len() {
            assert(k < i);
        }
    }
    false
}

/// The numeric value of a decimal digit character, or 10 for any other.
pub open spec fn spec_digit(c: char) -> nat {
    if '0' <= c && c <= '9' {
        ((c as u32) - 48) as nat
    } else {
        10
    }
}

/// All characters are decimal digits.
pub open spec fn spec_all_digits(s: Seq<char>) -> bool {
    forall|i: int| 0 <= i < s.len() ==> #[trigger] spec_digit(s[i]) < 10
}

/// The value of a digit sequence read in base ten.
pub open spec fn spec_dec_value(s: Seq<char>) -> nat
    decreases s.len(),
{
    if s.len() == 0 {
        0
    } else {
        spec_dec_value(s.drop_last()) * 10 + spec_digit(s.last())
    }
}

/// Parses a whole string as an unsigned decimal number, as `str::parse::<u32>`
/// without sign handling: it succeeds exactly on non-empty all-digit strings
/// whose value fits in the type.
pub fn parse_u32(s: &str) -> (r: Option<u32>)
    ensures
        match r {
            Some(v) => s@.len() > 0 && spec_all_digits(s@) && v == spec_dec_value(s@) && spec_dec_value(s@) <= u32::MAX,
            None => s@.len() == 0 || !spec_all_digits(s@) || spec_dec_value(s@) > u32::MAX,
        },
{
    let n = s.unicode_len();
    if n == 0 {
        return None;
    }
    let mut acc: u32 = 0;
    let mut i: usize = 0;
    while i < n
        invariant
            i <= n,
            n == s@.len(),
            n > 0,
            spec_all_digits(s@.subrange(0, i as int)),
            acc == spec_dec_value(s@.subrange(0, i as int)),
        decreases n - i,
    {
        let c = s.get_char(i);
        let u = c as u32;
        if u < 48 || u > 57 {
            assert(spec_digit(s@[i as int]) == 10);
            return None;
        }
        let d = u - 48;
        if acc > (u32::MAX - d) / 10 {
            proof {
                lemma_dec_value_grows(s@, i as int);
            }
            return None;
        }
        acc = acc * 10 + d;
        assert(s@.subrange(0, i + 1 as int).drop_last() =~= s@.subrange(0, i as int));
        i += 1;
    }
    assert(s@.subrange(0, n as int) =~= s@);
    Some(acc)
}

/// A longer digit prefix never shrinks the base-ten value: if the value up to
/// position `i` already forces an overflow at the next digit, the whole
/// string's value overflows too.
proof fn lemma_dec_value_grows(s: Seq<char>, i: int)
    requires
        0 <= i < s.len(),
        spec_dec_value(s.subrange(0, i)) * 10 + spec_digit(s[i]) > u32::MAX,
    ensures
        spec_dec_value(s) > u32::MAX,
    decreases s.len() - i,
{
    if i == s.len() - 1 {
        assert(s.subrange(0, s.len() as int) =~= s);
        assert(s.drop_last() =~= s.subrange(0, i));
    } else {
        assert(s.subrange(0, i + 1).drop_last() =~= s.subrange(0, i));
        assert(s.subrange(0, i + 1).last() == s[i]);
        assert(spec_dec_value(s.subrange(0, i + 1)) > u32::MAX);
        assert(spec_dec_value(s.subrange(0, i + 1)) * 10 + spec_digit(s[i + 1]) > u32::MAX) by (nonlinear_arith)
            requires
                spec_dec_value(s.subrange(0, i + 1)) > u32::MAX,
        ;
        lemma_dec_value_grows(s, i + 1);
    }
}

} // verus!
