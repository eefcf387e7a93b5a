//! Pure helpers of the self-update flow: naming the downloaded file,
//! selecting a release asset for the platform, locating the pending-update
//! marker, and building the elevated-install command texts around
//! single-quote escaping. The host performs the downloads, file writes and
//! process spawns around these decisions.

use vstd::prelude::*;

use crate::jail::spec_push_part;
use crate::semver::{spec_find_from, spec_is_ws};
use crate::text::{ends_with_chars, lower_ascii, spec_ends_with, spec_lower};

verus! {

/// The file name a download URL yields: the characters after the last
/// slash, cut at the first question mark and the first hash; a blank
/// candidate falls back to a fixed name.
pub open spec fn spec_file_name_from_url(url: Seq<char>) -> Seq<char> {
    let c1 = spec_url_tail(url, url.len() as int);
    let c2 = c1.take(spec_find_from(c1, 0, '?'));
    let c3 = c2.take(spec_find_from(c2, 0, '#'));
    if spec_all_ws(c3) {
        "update"@
    } else {
        c3
    }
}

/// The characters after the last slash, scanning left from `i`.
pub open spec fn spec_url_tail(s: Seq<char>, i: int) -> Seq<char>
    decreases i,
{
    if i <= 0 {
        s.subrange(0, s.len() as int)
    } else if s[i - 1] == '/' {
        s.subrange(i, s.len() as int)
    } else {
        spec_url_tail(s, i - 1)
    }
}

/// Nothing but ASCII whitespace.
pub open spec fn spec_all_ws(s: Seq<char>) -> bool {
    forall|i: int| 0 <= i < s.len() ==> spec_is_ws(#[trigger] s[i])
}

/// A blank prefix extends blank exactly when the next character is also
/// whitespace.
proof fn lemma_all_ws_step(s: Seq<char>, i: int)
    requires
        0 <= i < s.len(),
    ensures
        spec_all_ws(s.take(i + 1)) == (spec_all_ws(s.take(i)) && spec_is_ws(s[i])),
{
    if spec_all_ws(s.take(i + 1)) {
        assert forall|j: int| 0 <= j < i implies spec_is_ws(#[trigger] s.take(i)[j]) by {
            assert(s.take(i + 1)[j] == s.take(i)[j]);
        }
        assert(s.take(i + 1)[i] == s[i]);
        assert(spec_is_ws(s[i]));
    }
    if spec_all_ws(s.take(i)) && spec_is_ws(s[i]) {
        assert forall|j: int| 0 <= j < i + 1 implies spec_is_ws(#[trigger] s.take(i + 1)[j]) by {
            if j < i {
                assert(s.take(i)[j] == s.take(i + 1)[j]);
            } else {
                assert(s.take(i + 1)[j] == s[i]);
            }
        }
    }
}

/// The file name a download URL yields.
#[verifier::loop_isolation(false)]
pub fn file_name_from_url(url: &str) -> (r: String)
    ensures
        r@ == spec_file_name_from_url(url@),
{
    let n = url.unicode_len();
    let mut start: usize = n;
    while start > 0
        invariant
            start <= n,
            n == url@.len(),
            spec_url_tail(url@, n as int) == spec_url_tail(url@, start as int),
        decreases start,
    {
        if url.get_char(start - 1) == '/' {
            break ;
        }
        start -= 1;
    }
    let ghost c1 = spec_url_tail(url@, n as int);
    let tail = url.substring_char(start, n);
    proof {
        if start > 0 {
            assert(tail@ =~= url@.subrange(start as int, n as int));
        } else {
            assert(tail@ =~= url@.subrange(0, n as int));
        }
        assert(tail@ == c1);
    }
    let q = find_char(tail, '?');
    let cut1 = tail.substring_char(0, q);
    proof {
        assert(cut1@ =~= tail@.take(spec_find_from(tail@, 0, '?')));
    }
    let h = find_char(cut1, '#');
    let cut2 = cut1.substring_char(0, h);
    proof {
        assert(cut2@ =~= cut1@.take(spec_find_from(cut1@, 0, '#')));
    }
    let m = cut2.unicode_len();
    let mut all_ws = true;
    let mut i: usize = 0;
    while i < m
        invariant
            i <= m,
            m == cut2@.len(),
            all_ws == spec_all_ws(cut2@.take(i as int)),
        decreases m - i,
    {
        let c = cut2.get_char(i);
        let ws = c == ' ' || c == '\t' || c == '\n' || c == '\r' || c == '\u{b}' || c == '\u{c}';
        proof {
            lemma_all_ws_step(cut2@, i as int);
        }
        if !ws {
            all_ws = false;
            assert(!spec_is_ws(cut2@[i as int]));
        }
        i += 1;
    }
    proof {
        assert(cut2@.take(m as int) =~= cut2@);
    }
    if all_ws {
        let r = String::from_str("update");
        r
    } else {
        cut2.to_owned()
    }
}

/// The first position of `c`, or the length.
#[verifier::loop_isolation(false)]
fn find_char(s: &str, c: char) -> (r: usize)
    ensures
        r == spec_find_from(s@, 0, c),
        r <= s@.len(),
{
    let n = s.unicode_len();
    let mut i: usize = 0;
    while i < n
        invariant
            i <= n,
            n == s@.len(),
            spec_find_from(s@, 0, c) == spec_find_from(s@, i as int, c),
        decreases n - i,
    {
        if s.get_char(i) == c {
            return i;
        }
        i += 1;
    }
    n
}

/// Doubling every single quote, as a single-quoted shell word requires.
pub open spec fn spec_psq(s: Seq<char>) -> Seq<char>
    decreases s.len(),
{
    if s.len() == 0 {
        Seq::empty()
    } else if s.last() == '\'' {
        spec_psq(s.drop_last()) + seq!['\'', '\'']
    } else {
        spec_psq(s.drop_last()).push(s.last())
    }
}

/// Escapes a value for a single-quoted shell word by doubling every
/// single quote.
#[verifier::loop_isolation(false)]
pub fn escape_powershell_single_quoted(value: &str) -> (r: String)
    ensures
        r@ == spec_psq(value@),
{
    let n = value.unicode_len();
    let mut out = String::new();
    let mut i: usize = 0;
    while i < n
        invariant
            i <= n,
            n == value@.len(),
            out@ == spec_psq(value@.take(i as int)),
        decreases n - i,
    {
        let c = value.get_char(i);
        proof {
            assert(value@.take(i + 1 as int).drop_last() =~= value@.take(i as int));
            assert(value@.take(i + 1 as int).last() == value@[i as int]);
        }
        if c == '\'' {
            out.push('\'');
            out.push('\'');
        } else {
            out.push(c);
        }
        i += 1;
    }
    proof {
        assert(value@.take(n as int) =~= value@);
    }
    out
}

/// An asset published with a release.
#[derive(Debug, Clone, PartialEq, Eq)]
pub struct ReleaseAsset {
    pub name: String,
    pub browser_download_url: String,
}

/// The asset name, lowercased, ends with the suffix.
pub open spec fn spec_asset_matches(name: Seq<char>, suffix: Seq<char>) -> bool {
    spec_ends_with(spec_lower(name), suffix)
}

/// The first asset whose name matches the suffix.
pub open spec fn spec_first_asset(names: Seq<Seq<char>>, suffix: Seq<char>) -> Option<int>
    decreases names.len(),
{
    if names.len() == 0 {
        None
    } else if spec_asset_matches(names[0], suffix) {
        Some(0)
    } else {
        match spec_first_asset(names.drop_first(), suffix) {
            Some(j) => Some(j + 1),
            None => None,
        }
    }
}

/// The asset names of a release.
pub open spec fn spec_asset_names(assets: Seq<ReleaseAsset>) -> Seq<Seq<char>> {
    Seq::new(
        assets.len(),
        |i: int|
            if 0 <= i < assets.len() {
                assets[i].name@
            } else {
                Seq::empty()
            },
    )
}

/// What the first matching position means.
proof fn lemma_first_asset(names: Seq<Seq<char>>, suffix: Seq<char>)
    ensures
        match spec_first_asset(names, suffix) {
            Some(j) => 0 <= j < names.len() && spec_asset_matches(names[j], suffix) && forall|
                i: int,
            |
                0 <= i < j ==> !spec_asset_matches(#[trigger] names[i], suffix),
            None => forall|i: int|
                0 <= i < names.len() ==> !spec_asset_matches(#[trigger] names[i], suffix),
        },
    decreases names.len(),
{
    if names.len() > 0 && !spec_asset_matches(names[0], suffix) {
        let sub = names.drop_first();
        lemma_first_asset(sub, suffix);
        assert forall|i: int| 0 <= i < sub.len() implies #[trigger] sub[i] == names[i + 1] by {}
        match spec_first_asset(sub, suffix) {
            Some(j) => {
                assert(sub[j] == names[j + 1]);
                assert forall|i: int| 0 <= i < j + 1 implies !spec_asset_matches(
                    #[trigger] names[i],
                    suffix,
                ) by {
                    if i >= 1 {
                        assert(sub[i - 1] == names[i]);
                    }
                }
            },
            None => {
                assert forall|i: int| 0 <= i < names.len() implies !spec_asset_matches(
                    #[trigger] names[i],
                    suffix,
                ) by {
                    if i >= 1 {
                        assert(sub[i - 1] == names[i]);
                    }
                }
            },
        }
    }
}

/// Scans the assets for the first whose lowercased name ends with the
/// suffix.
#[verifier::loop_isolation(false)]
fn first_asset_for(assets: &Vec<ReleaseAsset>, suffix: &str) -> (r: Option<usize>)
    ensures
        match r {
            Some(j) => j < assets.len() && spec_first_asset(spec_asset_names(assets@), suffix@)
                == Some(j as int),
            None => spec_first_asset(spec_asset_names(assets@), suffix@) is None,
        },
{
    let ghost names = spec_asset_names(assets@);
    proof {
        lemma_first_asset(names, suffix@);
    }
    let mut i: usize = 0;
    while i < assets.len()
        invariant
            i <= assets.len(),
            names == spec_asset_names(assets@),
            names.len() == assets.len(),
            forall|j: int| 0 <= j < i ==> !spec_asset_matches(#[trigger] names[j], suffix@),
        decreases assets.len() - i,
    {
        let lowered = lower_ascii(assets[i].name.as_str());
        if ends_with_chars(lowered.as_str(), suffix) {
            proof {
                assert(spec_asset_matches(names[i as int], suffix@));
                match spec_first_asset(names, suffix@) {
                    Some(j0) => {
                        if j0 < i {
                            assert(!spec_asset_matches(names[j0], suffix@));
                        } else if j0 > i {
                            assert(!spec_asset_matches(names[i as int], suffix@));
                        }
                    },
                    None => {
                        assert(!spec_asset_matches(names[i as int], suffix@));
                    },
                }
            }
            return Some(i);
        }
        assert(!spec_asset_matches(names[i as int], suffix@));
        i += 1;
    }
    None
}

/// The position of the first asset matching the earliest workable suffix,
/// suffixes tried in order from position `si`.
pub open spec fn spec_find_suitable(
    names: Seq<Seq<char>>,
    suffixes: Seq<Seq<char>>,
    si: int,
) -> Option<int>
    decreases suffixes.len() - si,
{
    if si < 0 || si >= suffixes.len() {
        None
    } else {
        match spec_first_asset(names, suffixes[si]) {
            Some(a) => Some(a),
            None => spec_find_suitable(names, suffixes, si + 1),
        }
    }
}

/// Picks the release asset for the platform: suffixes are tried in order
/// of preference and the first asset matching the earliest workable suffix
/// wins. The host supplies the platform's suffix list, most specific
/// first.
#[verifier::loop_isolation(false)]
pub fn find_suitable_asset<'a>(assets: &'a Vec<ReleaseAsset>, suffixes: &Vec<String>) -> (r:
    Option<&'a ReleaseAsset>)
    ensures
        match r {
            Some(a) => spec_find_suitable(
                spec_asset_names(assets@),
                suffixes@.map_values(|s: String| s@),
                0,
            ) matches Some(j) && *a == assets@[j],
            None => spec_find_suitable(
                spec_asset_names(assets@),
                suffixes@.map_values(|s: String| s@),
                0,
            ) is None,
        },
{
    let ghost names = spec_asset_names(assets@);
    let ghost sufs = suffixes@.map_values(|s: String| s@);
    let mut si: usize = 0;
    while si < suffixes.len()
        invariant
            si <= suffixes.len(),
            names == spec_asset_names(assets@),
            sufs == suffixes@.map_values(|s: String| s@),
            sufs.len() == suffixes.len(),
            spec_find_suitable(names, sufs, 0) == spec_find_suitable(names, sufs, si as int),
        decreases suffixes.len() - si,
    {
        match first_asset_for(assets, suffixes[si].as_str()) {
            Some(a) => {
                return Some(&assets[a]);
            },
            None => {},
        }
        si += 1;
    }
    None
}

/// The path of the pending-update marker under the platform cache
/// directory.
pub fn get_pending_update_file(cache_dir: &str) -> (r: String)
    ensures
        r@ == spec_push_part(
            spec_push_part(spec_push_part(cache_dir@, "com.fpsz.sea-lantern"@), "updates"@),
            "pending_update.json"@,
        ),
{
    let mut out = push_component(cache_dir.to_owned(), "com.fpsz.sea-lantern");
    out = push_component(out, "updates");
    out = push_component(out, "pending_update.json");
    out
}

/// Appends one component with a separator when one is needed.
fn push_component(base: String, part: &str) -> (r: String)
    ensures
        r@ == spec_push_part(base@, part@),
{
    let mut out = base;
    let n = out.as_str().unicode_len();
    if n == 0 {
        out.push('/');
    } else {
        let c = out.as_str().get_char(n - 1);
        if c != '/' && c != '\\' {
            out.push('/');
        }
    }
    out.append(part);
    out
}

} // verus!
