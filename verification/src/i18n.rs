//! The translation service the plugins see: the current locale, plugin
//! registered locales and translations, lookup with fallback to the key,
//! and placeholder interpolation. Locale-change callbacks are function
//! values the verifier refuses, so the host keeps the subscription slots
//! and re-invokes scripts itself.

use vstd::prelude::*;

use crate::semver::spec_find_from;
use crate::text::str_eq;

verus! {

/// A key/text pair list, last writer winning through replacement.
pub type KvV = Seq<(Seq<char>, Seq<char>)>;

/// The first position holding the key, if any.
pub open spec fn spec_kv_at(es: KvV, k: Seq<char>) -> Option<int>
    decreases es.len(),
{
    if es.len() == 0 {
        None
    } else if es[0].0 == k {
        Some(0)
    } else {
        match spec_kv_at(es.drop_first(), k) {
            Some(j) => Some(j + 1),
            None => None,
        }
    }
}

/// The text stored under the key, if any.
pub open spec fn spec_kv_get(es: KvV, k: Seq<char>) -> Option<Seq<char>> {
    match spec_kv_at(es, k) {
        Some(i) => Some(es[i].1),
        None => None,
    }
}

/// What the first matching position means.
proof fn lemma_kv_at(es: KvV, k: Seq<char>)
    ensures
        match spec_kv_at(es, k) {
            Some(j) => 0 <= j < es.len() && es[j].0 == k && forall|i: int|
                0 <= i < j ==> (#[trigger] es[i]).0 != k,
            None => forall|i: int| 0 <= i < es.len() ==> (#[trigger] es[i]).0 != k,
        },
    decreases es.len(),
{
    if es.len() > 0 && es[0].0 != k {
        let sub = es.drop_first();
        lemma_kv_at(sub, k);
        assert forall|i: int| 0 <= i < sub.len() implies #[trigger] sub[i] == es[i + 1] by {}
        match spec_kv_at(sub, k) {
            Some(j) => {
                assert(es[j + 1] == sub[j]);
                assert forall|i: int| 0 <= i < j + 1 implies (#[trigger] es[i]).0 != k by {
                    if i >= 1 {
                        assert(sub[i - 1] == es[i]);
                    }
                }
            },
            None => {
                assert forall|i: int| 0 <= i < es.len() implies (#[trigger] es[i]).0 != k by {
                    if i >= 1 {
                        assert(sub[i - 1] == es[i]);
                    }
                }
            },
        }
    }
}

/// The model of a pair vector.
pub open spec fn kv_model(s: Seq<(String, String)>) -> KvV {
    Seq::new(
        s.len(),
        |i: int|
            if 0 <= i < s.len() {
                (s[i].0@, s[i].1@)
            } else {
                (Seq::empty(), Seq::empty())
            },
    )
}

/// The executable scan for a key.
#[verifier::loop_isolation(false)]
fn kv_find(entries: &Vec<(String, String)>, key: &str) -> (r: Option<usize>)
    ensures
        match r {
            Some(j) => j < entries.len() && spec_kv_at(kv_model(entries@), key@) == Some(
                j as int,
            ),
            None => spec_kv_at(kv_model(entries@), key@) is None,
        },
{
    let ghost es = kv_model(entries@);
    proof {
        lemma_kv_at(es, key@);
    }
    let mut i: usize = 0;
    while i < entries.len()
        invariant
            i <= entries.len(),
            es == kv_model(entries@),
            es.len() == entries.len(),
            forall|j: int| 0 <= j < i ==> (#[trigger] es[j]).0 != key@,
        decreases entries.len() - i,
    {
        if str_eq(entries[i].0.as_str(), key) {
            proof {
                assert(es[i as int].0 == key@);
                match spec_kv_at(es, key@) {
                    Some(j0) => {
                        if j0 < i {
                            assert(es[j0].0 != key@);
                        } else if j0 > i {
                            assert(es[i as int].0 != key@);
                        }
                    },
                    None => {
                        assert(es[i as int].0 != key@);
                    },
                }
            }
            return Some(i);
        }
        assert(es[i as int].0 != key@);
        i += 1;
    }
    None
}

/// The interpolation of a template against options: every brace-enclosed
/// name with a known option is replaced by its text; an unknown name and
/// an unclosed brace stay as written.
pub open spec fn spec_interp(s: Seq<char>, opts: KvV) -> Seq<char>
    decreases s.len(),
{
    if s.len() == 0 {
        Seq::empty()
    } else if s[0] == '{' {
        let j0 = spec_find_from(s, 1, '}');
        let j = if j0 < 1 {
            1
        } else if j0 > s.len() {
            s.len() as int
        } else {
            j0
        };
        if j < s.len() {
            let name = s.subrange(1, j);
            match spec_kv_get(opts, name) {
                Some(v) => v + spec_interp(s.skip(j + 1), opts),
                None => s.subrange(0, j + 1) + spec_interp(s.skip(j + 1), opts),
            }
        } else {
            s
        }
    } else {
        seq![s[0]] + spec_interp(s.drop_first(), opts)
    }
}

/// Interpolates a translation against option pairs.
#[verifier::loop_isolation(false)]
#[verifier::rlimit(100)]
pub fn interpolate(template: &str, opts: &Vec<(String, String)>) -> (r: String)
    ensures
        r@ == spec_interp(template@, kv_model(opts@)),
{
    let ghost dopts = kv_model(opts@);
    let n = template.unicode_len();
    let mut out = String::new();
    let mut i: usize = 0;
    proof {
        assert(template@.skip(0) =~= template@);
    }
    while i < n
        invariant
            i <= n,
            n == template@.len(),
            dopts == kv_model(opts@),
            spec_interp(template@, dopts) == out@ + spec_interp(template@.skip(i as int), dopts),
        decreases n - i,
    {
        let ghost rest = template@.skip(i as int);
        let c = template.get_char(i);
        if c == '{' {
            let mut j: usize = i + 1;
            while j < n
                invariant
                    i + 1 <= j <= n,
                    n == template@.len(),
                    spec_find_from(template@, i + 1 as int, '}') == spec_find_from(
                        template@,
                        j as int,
                        '}',
                    ),
                decreases n - j,
            {
                if template.get_char(j) == '}' {
                    break ;
                }
                j += 1;
            }
            proof {
                if j < n {
                    assert(template@[j as int] == '}');
                    assert(spec_find_from(template@, j as int, '}') == j);
                }
                assert forall|t: int| 0 <= t < rest.len() implies #[trigger] rest[t]
                    == template@[i + t] by {}
                assert(spec_find_from(rest, 1, '}') == spec_find_from(
                    template@,
                    i + 1 as int,
                    '}',
                ) - i) by {
                    lemma_find_shift(template@, i as int, 1);
                }
            }
            if j >= n {
                let tail = template.substring_char(i, n);
                proof {
                    assert(tail@ =~= rest);
                    assert(spec_interp(rest, dopts) == rest);
                }
                out.append(tail);
                proof {
                    assert(template@.skip(n as int) =~= Seq::<char>::empty());
                    assert(spec_interp(template@.skip(n as int), dopts)
                        =~= Seq::<char>::empty());
                    assert(out@ =~= out@ + spec_interp(template@.skip(n as int), dopts));
                }
                i = n;
            } else {
                let name = template.substring_char(i + 1, j);
                proof {
                    assert(name@ =~= template@.subrange(i + 1 as int, j as int));
                    assert(rest.subrange(1, j - i as int) =~= name@);
                    assert(rest.skip(j - i + 1 as int) =~= template@.skip(j + 1 as int));
                    assert(rest.subrange(0, j - i + 1 as int) =~= template@.subrange(
                        i as int,
                        j + 1 as int,
                    ));
                    lemma_kv_at(dopts, name@);
                }
                match kv_find(opts, name) {
                    Some(oi) => {
                        out.append(opts[oi].1.as_str());
                    },
                    None => {
                        let literal = template.substring_char(i, j + 1);
                        proof {
                            assert(literal@ =~= template@.subrange(i as int, j + 1 as int));
                        }
                        out.append(literal);
                    },
                }
                i = j + 1;
            }
        } else {
            out.push(c);
            proof {
                assert(rest.drop_first() =~= template@.skip(i + 1 as int));
                assert(seq![rest[0]] =~= seq![template@[i as int]]);
            }
            i += 1;
        }
    }
    proof {
        assert(template@.skip(n as int) =~= Seq::<char>::empty());
        assert(spec_interp(template@.skip(n as int), dopts) =~= Seq::<char>::empty());
        assert(out@ =~= out@ + Seq::<char>::empty());
    }
    out
}

/// Finding a character in a suffix is finding it in the whole, shifted.
proof fn lemma_find_shift(s: Seq<char>, base: int, off: int)
    requires
        0 <= base,
        0 <= off,
        base + off <= s.len(),
    ensures
        spec_find_from(s.skip(base), off, '}') == spec_find_from(s, base + off, '}') - base,
    decreases s.len() - base - off,
{
    let sub = s.skip(base);
    if base + off < s.len() {
        assert(sub[off] == s[base + off]);
        if s[base + off] != '}' {
            lemma_find_shift(s, base, off + 1);
        }
    }
}

/// Translation lookup over one locale's table: the stored text, or the
/// key itself when nothing is stored — a missing translation shows its
/// key rather than failing.
pub fn lookup_translation(table: &Vec<(String, String)>, key: &str) -> (r: String)
    ensures
        r@ == match spec_kv_get(kv_model(table@), key@) {
            Some(t) => t,
            None => key@,
        },
{
    match kv_find(table, key) {
        Some(i) => table[i].1.clone(),
        None => key.to_owned(),
    }
}

/// Translation lookup with interpolation options applied to the found
/// text.
pub fn translate_with_options(
    table: &Vec<(String, String)>,
    key: &str,
    opts: &Vec<(String, String)>,
) -> (r: String)
    ensures
        r@ == spec_interp(
            match spec_kv_get(kv_model(table@), key@) {
                Some(t) => t,
                None => key@,
            },
            kv_model(opts@),
        ),
{
    let text = lookup_translation(table, key);
    interpolate(text.as_str(), opts)
}

} // verus!
