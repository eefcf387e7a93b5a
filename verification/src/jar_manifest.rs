//! Reading the main class out of a jar manifest's text.
//!
//! A manifest is a run of `Key: Value` lines; a line starting with a space
//! continues the previous value, and a blank line ends an entry. The main
//! class is the first `Main-Class` entry, its key compared without ASCII
//! case, its value trimmed; an entry with a blank value does not count.
//! The host unpacks the archive and hands the text over.

use vstd::prelude::*;

use crate::semver::{spec_find_from, spec_is_ws, spec_trim_ws, trim_bounds};
use crate::text::{lower_ascii, spec_lower, str_eq};

verus! {

/// The line with a trailing carriage return dropped.
pub open spec fn spec_strip_cr(l: Seq<char>) -> Seq<char> {
    if l.len() > 0 && l.last() == '\r' {
        l.drop_last()
    } else {
        l
    }
}

/// The lines of the text from position `i` on, split at newlines, each
/// without its trailing carriage return; a trailing newline yields no
/// empty final line.
pub open spec fn spec_lines_from(s: Seq<char>, i: int) -> Seq<Seq<char>>
    decreases s.len() + 1 - i,
{
    if i < 0 || i >= s.len() {
        Seq::empty()
    } else {
        let j0 = spec_find_from(s, i, '\n');
        let j = if j0 < i {
            i
        } else if j0 > s.len() {
            s.len() as int
        } else {
            j0
        };
        seq![spec_strip_cr(s.subrange(i, j))] + spec_lines_from(s, j + 1)
    }
}

/// The text with leading ASCII whitespace stripped.
pub open spec fn spec_trim_start(s: Seq<char>) -> Seq<char>
    decreases s.len(),
{
    if s.len() > 0 && spec_is_ws(s.first()) {
        spec_trim_start(s.drop_first())
    } else {
        s
    }
}

/// What a finished entry yields: the trimmed value when the key is the
/// main-class key in any ASCII case and the value is not blank.
pub open spec fn spec_flush(key: Seq<char>, val: Seq<char>) -> Option<Seq<char>> {
    if spec_lower(key) == "main-class"@ && spec_trim_ws(val).len() > 0 {
        Some(spec_trim_ws(val))
    } else {
        None
    }
}

/// The scan over the lines from position `i`, carrying the entry under
/// construction.
pub open spec fn spec_mc_scan(
    lines: Seq<Seq<char>>,
    i: int,
    key: Seq<char>,
    val: Seq<char>,
) -> Option<Seq<char>>
    decreases lines.len() - i,
{
    if i < 0 || i >= lines.len() {
        spec_flush(key, val)
    } else {
        let line = lines[i];
        if line.len() == 0 {
            match spec_flush(key, val) {
                Some(v) => Some(v),
                None => spec_mc_scan(lines, i + 1, Seq::empty(), Seq::empty()),
            }
        } else if line[0] == ' ' {
            spec_mc_scan(lines, i + 1, key, val + spec_trim_start(line))
        } else {
            match spec_flush(key, val) {
                Some(v) => Some(v),
                None => {
                    let c = spec_find_from(line, 0, ':');
                    if c < line.len() {
                        spec_mc_scan(
                            lines,
                            i + 1,
                            spec_trim_ws(line.subrange(0, c)),
                            spec_trim_ws(line.subrange(c + 1, line.len() as int)),
                        )
                    } else {
                        spec_mc_scan(lines, i + 1, Seq::empty(), Seq::empty())
                    }
                },
            }
        }
    }
}

/// The main class a manifest text names, if any.
pub open spec fn spec_main_class(content: Seq<char>) -> Option<Seq<char>> {
    spec_mc_scan(spec_lines_from(content, 0), 0, Seq::empty(), Seq::empty())
}

/// Splits the text into lines.
#[verifier::loop_isolation(false)]
fn split_lines(s: &str) -> (r: Vec<String>)
    ensures
        r.deep_view() == spec_lines_from(s@, 0),
{
    let n = s.unicode_len();
    let mut out: Vec<String> = Vec::new();
    let mut i: usize = 0;
    while i < n
        invariant
            i <= n,
            n == s@.len(),
            spec_lines_from(s@, 0) =~= out.deep_view() + spec_lines_from(s@, i as int),
        decreases n - i,
    {
        let ghost pre = out.deep_view();
        let mut j: usize = i;
        while j < n
            invariant
                i <= j <= n,
                spec_find_from(s@, i as int, '\n') == spec_find_from(s@, j as int, '\n'),
            decreases n - j,
        {
            if s.get_char(j) == '\n' {
                break ;
            }
            j += 1;
        }
        proof {
            if j < n {
                assert(s@[j as int] == '\n');
                assert(spec_find_from(s@, j as int, '\n') == j);
            }
        }
        let mut piece_end = j;
        if piece_end > i && s.get_char(piece_end - 1) == '\r' {
            piece_end -= 1;
        }
        let piece = s.substring_char(i, piece_end);
        proof {
            let raw = s@.subrange(i as int, j as int);
            assert(piece@ =~= s@.subrange(i as int, piece_end as int));
            if j > i && s@[j - 1] == '\r' {
                assert(raw.last() == '\r');
                assert(spec_strip_cr(raw) =~= s@.subrange(i as int, j - 1));
            } else {
                assert(spec_strip_cr(raw) =~= raw);
            }
            assert(piece@ == spec_strip_cr(raw));
        }
        out.push(piece.to_owned());
        proof {
            assert(out.deep_view() =~= pre.push(spec_strip_cr(s@.subrange(i as int, j as int))));
            assert(spec_lines_from(s@, i as int) =~= seq![
                spec_strip_cr(s@.subrange(i as int, j as int)),
            ] + spec_lines_from(s@, j + 1 as int));
        }
        if j == n {
            proof {
                assert(spec_lines_from(s@, j + 1 as int) =~= Seq::<Seq<char>>::empty());
            }
            return out;
        }
        i = j + 1;
    }
    proof {
        assert(spec_lines_from(s@, i as int) =~= Seq::<Seq<char>>::empty());
        assert(out.deep_view() =~= out.deep_view() + Seq::<Seq<char>>::empty());
    }
    out
}

/// The text with leading ASCII whitespace stripped.
#[verifier::loop_isolation(false)]
fn trim_start_str(s: &str) -> (r: String)
    ensures
        r@ == spec_trim_start(s@),
{
    let n = s.unicode_len();
    let mut i: usize = 0;
    proof {
        assert(s@.subrange(0, n as int) =~= s@);
    }
    while i < n
        invariant
            i <= n,
            n == s@.len(),
            spec_trim_start(s@) == spec_trim_start(s@.subrange(i as int, n as int)),
        decreases n - i,
    {
        let c = s.get_char(i);
        if c == ' ' || c == '\t' || c == '\n' || c == '\r' || c == '\u{b}' || c == '\u{c}' {
            proof {
                assert(s@.subrange(i as int, n as int).drop_first() =~= s@.subrange(
                    i + 1 as int,
                    n as int,
                ));
            }
            i += 1;
        } else {
            break ;
        }
    }
    let r = s.substring_char(i, n);
    proof {
        let t = s@.subrange(i as int, n as int);
        assert(!(t.len() > 0 && spec_is_ws(t.first())));
        assert(r@ =~= t);
    }
    r.to_owned()
}

/// The trimmed copy of a string.
fn trim_str(s: &str) -> (r: String)
    ensures
        r@ == spec_trim_ws(s@),
{
    let (lo, hi) = trim_bounds(s);
    let r = s.substring_char(lo, hi);
    assert(r@ == spec_trim_ws(s@));
    r.to_owned()
}

/// What a finished entry yields.
fn flush_entry(key: &str, val: &str) -> (r: Option<String>)
    ensures
        match r {
            Some(v) => spec_flush(key@, val@) == Some(v@),
            None => spec_flush(key@, val@) is None,
        },
{
    let lowered = lower_ascii(key);
    if str_eq(lowered.as_str(), "main-class") {
        let trimmed = trim_str(val);
        if trimmed.as_str().unicode_len() > 0 {
            return Some(trimmed);
        }
    }
    None
}

/// Reads the first usable `Main-Class` entry out of a manifest text.
#[verifier::loop_isolation(false)]
#[verifier::rlimit(100)]
pub fn find_manifest_main_class(manifest_content: &str) -> (r: Option<String>)
    ensures
        match r {
            Some(v) => spec_main_class(manifest_content@) == Some(v@),
            None => spec_main_class(manifest_content@) is None,
        },
{
    let lines = split_lines(manifest_content);
    let ghost dlines = lines.deep_view();
    let mut key = String::new();
    let mut val = String::new();
    let mut i: usize = 0;
    while i < lines.len()
        invariant
            i <= lines.len(),
            dlines == lines.deep_view(),
            dlines.len() == lines.len(),
            spec_main_class(manifest_content@) == spec_mc_scan(dlines, i as int, key@, val@),
        decreases lines.len() - i,
    {
        let line = &lines[i];
        assert(dlines[i as int] == line@);
        let ln = line.as_str().unicode_len();
        if ln == 0 {
            match flush_entry(key.as_str(), val.as_str()) {
                Some(v) => {
                    return Some(v);
                },
                None => {
                    key = String::new();
                    val = String::new();
                },
            }
        } else if line.as_str().get_char(0) == ' ' {
            let cont = trim_start_str(line.as_str());
            val.append(cont.as_str());
        } else {
            match flush_entry(key.as_str(), val.as_str()) {
                Some(v) => {
                    return Some(v);
                },
                None => {
                    let c = find_colon(line.as_str());
                    if c < ln {
                        let left = line.as_str().substring_char(0, c);
                        let right = line.as_str().substring_char(c + 1, ln);
                        proof {
                            assert(left@ =~= line@.subrange(0, c as int));
                            assert(right@ =~= line@.subrange(c + 1 as int, ln as int));
                        }
                        key = trim_str(left);
                        val = trim_str(right);
                    } else {
                        key = String::new();
                        val = String::new();
                    }
                },
            }
        }
        i += 1;
    }
    flush_entry(key.as_str(), val.as_str())
}

/// The first position of a colon, or the length.
#[verifier::loop_isolation(false)]
fn find_colon(s: &str) -> (r: usize)
    ensures
        r == spec_find_from(s@, 0, ':'),
        r <= s@.len(),
{
    let n = s.unicode_len();
    let mut i: usize = 0;
    while i < n
        invariant
            i <= n,
            n == s@.len(),
            spec_find_from(s@, 0, ':') == spec_find_from(s@, i as int, ':'),
        decreases n - i,
    {
        if s.get_char(i) == ':' {
            return i;
        }
        i += 1;
    }
    n
}

} // verus!
