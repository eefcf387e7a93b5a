//! Path jailing: a caller-supplied relative path is validated against a
//! sandbox root so that the final target cannot escape it.
//!
//! The lexical stage rejects absolute paths and any parent-directory
//! component, then joins the path onto the root. Resolving symlinks and
//! walking up to the first existing ancestor require the filesystem, so the
//! host performs them and hands the canonical forms back to
//! [`rejoin_checked`], which proves that the final path stays under the
//! canonical root even for targets that do not exist yet.
//!
//! One lexical rule serves every platform: a path is treated as absolute
//! when it starts with a separator or its first component carries a
//! drive-like colon. This is deliberately at least as strict as any
//! platform's own rule; a jail may reject more, never less.

use vstd::prelude::*;

use crate::errors::SandboxError;

verus! {

/// A path separator on any supported platform.
pub open spec fn spec_is_sep(c: char) -> bool {
    c == '/' || c == '\\'
}

/// The path starts with a separator, or its first component (the characters
/// before the first separator) carries a colon.
pub open spec fn spec_absolute(s: Seq<char>) -> bool {
    s.len() > 0 && (spec_is_sep(s[0]) || exists|j: int|
        0 <= j < s.len() && s[j] == ':' && (forall|t: int| 0 <= t < j ==> !spec_is_sep(#[trigger] s[t])))
}

/// Position `i` starts a parent-directory component: two dots bounded by
/// separators or the ends of the path.
pub open spec fn spec_dotdot_at(s: Seq<char>, i: int) -> bool {
    0 <= i && i + 2 <= s.len() && s[i] == '.' && s[i + 1] == '.' && (i == 0 || spec_is_sep(
        s[i - 1],
    )) && (i + 2 == s.len() || spec_is_sep(s[i + 2]))
}

/// Some component of the path is a parent-directory component.
pub open spec fn spec_has_traversal(s: Seq<char>) -> bool {
    exists|i: int| spec_dotdot_at(s, i)
}

/// Joining a relative path onto a base, as the platform path join does for
/// a non-absolute right-hand side.
pub open spec fn spec_join(base: Seq<char>, rel: Seq<char>) -> Seq<char> {
    if base.len() == 0 {
        rel
    } else if spec_is_sep(base.last()) {
        base + rel
    } else {
        base.push('/') + rel
    }
}

/// Pushing one component onto a path, separator added when needed.
pub open spec fn spec_push_part(base: Seq<char>, part: Seq<char>) -> Seq<char> {
    if base.len() > 0 && spec_is_sep(base.last()) {
        base + part
    } else {
        base.push('/') + part
    }
}

/// Appending a run of components onto a path.
pub open spec fn spec_append_parts(base: Seq<char>, parts: Seq<Seq<char>>) -> Seq<char>
    decreases parts.len(),
{
    if parts.len() == 0 {
        base
    } else {
        spec_append_parts(spec_push_part(base, parts[0]), parts.drop_first())
    }
}

/// `path` lies at or under `base`, compared at component boundaries: equal,
/// or extending `base` across a separator.
pub open spec fn spec_contained(path: Seq<char>, base: Seq<char>) -> bool {
    base.len() <= path.len() && path.subrange(0, base.len() as int) == base && (path.len()
        == base.len() || (base.len() > 0 && spec_is_sep(base.last())) || spec_is_sep(
        path[base.len() as int],
    ))
}

/// A usable path component: non-empty and free of separators.
pub open spec fn spec_part_wf(part: Seq<char>) -> bool {
    part.len() > 0 && forall|i: int| 0 <= i < part.len() ==> !spec_is_sep(#[trigger] part[i])
}

/// The lexical stage of the jail: rejects absolute paths and any
/// parent-directory component, and otherwise joins the relative path onto
/// the root. The error is always the invalid-path class; escaping by
/// symlink is judged later against canonical forms.
#[verifier::loop_isolation(false)]
pub fn validate_lexical(root: &str, relative: &str) -> (r: Result<String, SandboxError>)
    ensures
        match r {
            Err(e) => e == SandboxError::InvalidPath && (spec_absolute(relative@)
                || spec_has_traversal(relative@)),
            Ok(j) => !spec_absolute(relative@) && !spec_has_traversal(relative@) && j@
                == spec_join(root@, relative@),
        },
{
    let n = relative.unicode_len();

    // Absolute-path rejection.
    if n > 0 {
        let c0 = relative.get_char(0);
        if c0 == '/' || c0 == '\\' {
            return Err(SandboxError::InvalidPath);
        }
        let mut j: usize = 0;
        while j < n
            invariant
                j <= n,
                forall|t: int| 0 <= t < j ==> !spec_is_sep(relative@[t]),
                forall|t: int| 0 <= t < j ==> relative@[t] != ':',
            decreases n - j,
        {
            let c = relative.get_char(j);
            if c == '/' || c == '\\' {
                break ;
            }
            if c == ':' {
                return Err(SandboxError::InvalidPath);
            }
            j += 1;
        }
        assert forall|jj: int|
            0 <= jj < relative@.len() && relative@[jj] == ':' implies !(forall|t: int|
            0 <= t < jj ==> !spec_is_sep(#[trigger] relative@[t])) by {
            if jj < j {
            } else {
                if j < n {
                    assert(spec_is_sep(relative@[j as int]));
                }
            }
        }
        assert(!spec_absolute(relative@));
    } else {
        assert(!spec_absolute(relative@));
    }

    // Parent-directory rejection.
    if n >= 2 {
        let mut i: usize = 0;
        while i <= n - 2
            invariant
                n >= 2,
                i <= n - 1,
                forall|k: int| 0 <= k < i ==> !spec_dotdot_at(relative@, k),
            decreases n - i,
        {
            let dot1 = relative.get_char(i) == '.';
            let dot2 = relative.get_char(i + 1) == '.';
            let left_ok = if i == 0 {
                true
            } else {
                let cb = relative.get_char(i - 1);
                cb == '/' || cb == '\\'
            };
            let right_ok = if i + 2 == n {
                true
            } else {
                let ca = relative.get_char(i + 2);
                ca == '/' || ca == '\\'
            };
            if dot1 && dot2 && left_ok && right_ok {
                assert(spec_dotdot_at(relative@, i as int));
                return Err(SandboxError::InvalidPath);
            }
            assert(!spec_dotdot_at(relative@, i as int));
            i += 1;
        }
        assert forall|k: int| !spec_dotdot_at(relative@, k) by {
            if 0 <= k && k + 2 <= n {
                assert(k < i);
            }
        }
    } else {
        assert forall|k: int| !spec_dotdot_at(relative@, k) by {}
    }

    // Join onto the root.
    let rl = root.unicode_len();
    if rl == 0 {
        return Ok(relative.to_owned());
    }
    let last = root.get_char(rl - 1);
    let mut out = root.to_owned();
    if last != '/' && last != '\\' {
        out.push('/');
    }
    out.append(relative);
    Ok(out)
}

/// Whether `path` lies at or under `base`, at component boundaries; both
/// sides are expected in canonical form.
pub fn is_contained(path: &str, base: &str) -> (r: bool)
    ensures
        r == spec_contained(path@, base@),
{
    let bl = base.unicode_len();
    let pl = path.unicode_len();
    if !crate::text::starts_with_chars(path, base) {
        return false;
    }
    if pl == bl {
        return true;
    }
    if bl > 0 {
        let lb = base.get_char(bl - 1);
        if lb == '/' || lb == '\\' {
            return true;
        }
    }
    let c = path.get_char(bl);
    c == '/' || c == '\\'
}

/// Containment steps across one well-formed appended component.
proof fn lemma_push_part_contained(base: Seq<char>, part: Seq<char>, root: Seq<char>)
    requires
        spec_contained(base, root),
        spec_part_wf(part),
    ensures
        spec_contained(spec_push_part(base, part), root),
{
    let j = spec_push_part(base, part);
    if base.len() > 0 && spec_is_sep(base.last()) {
        assert(j.subrange(0, root.len() as int) =~= base.subrange(0, root.len() as int));
        if j.len() > root.len() && !(root.len() > 0 && spec_is_sep(root.last())) && root.len()
            < base.len() {
            assert(j[root.len() as int] == base[root.len() as int]);
        }
    } else {
        assert(j.subrange(0, base.len() as int) =~= base);
        assert(j.subrange(0, root.len() as int) =~= base.subrange(0, root.len() as int));
        assert(j[base.len() as int] == '/');
        if j.len() > root.len() && !(root.len() > 0 && spec_is_sep(root.last())) && root.len()
            < base.len() {
            assert(j[root.len() as int] == base[root.len() as int]);
        }
    }
}

/// Re-appends the non-existent suffix components onto the canonical first
/// existing ancestor, after proving the ancestor is inside the canonical
/// root: the result is then contained in the root as well, which is the
/// guarantee the jail owes for targets that do not exist yet. Components are
/// taken deepest-last. A component that is empty or carries a separator is
/// refused; the host hands over file names, which never do.
#[verifier::loop_isolation(false)]
pub fn rejoin_checked(canon_root: &str, canon_ancestor: &str, suffix: &Vec<String>) -> (r: Result<
    String,
    SandboxError,
>)
    ensures
        match r {
            Err(e) => (e == SandboxError::EscapesSandbox && !spec_contained(
                canon_ancestor@,
                canon_root@,
            )) || (e == SandboxError::InvalidPath && exists|i: int|
                0 <= i < suffix.len() && !spec_part_wf(#[trigger] suffix[i]@)),
            Ok(j) => spec_contained(canon_ancestor@, canon_root@) && (forall|i: int|
                0 <= i < suffix.len() ==> spec_part_wf(#[trigger] suffix[i]@)) && j@
                == spec_append_parts(
                canon_ancestor@,
                suffix@.map_values(|p: String| p@),
            ) && spec_contained(j@, canon_root@),
        },
{
    if !is_contained(canon_ancestor, canon_root) {
        return Err(SandboxError::EscapesSandbox);
    }
    let ghost parts = suffix@.map_values(|p: String| p@);
    let mut out = canon_ancestor.to_owned();
    let mut i: usize = 0;
    while i < suffix.len()
        invariant
            i <= suffix.len(),
            parts == suffix@.map_values(|p: String| p@),
            forall|k: int| 0 <= k < i ==> spec_part_wf(#[trigger] suffix[k]@),
            out@ == spec_append_parts(canon_ancestor@, parts.take(i as int)),
            spec_contained(out@, canon_root@),
        decreases suffix.len() - i,
    {
        let part = &suffix[i];
        let pn = part.unicode_len();
        if pn == 0 {
            return Err(SandboxError::InvalidPath);
        }
        let mut k: usize = 0;
        while k < pn
            invariant
                k <= pn,
                pn == part@.len(),
                forall|t: int| 0 <= t < k ==> !spec_is_sep(part@[t]),
            decreases pn - k,
        {
            let c = part.get_char(k);
            if c == '/' || c == '\\' {
                return Err(SandboxError::InvalidPath);
            }
            k += 1;
        }
        assert(spec_part_wf(part@));
        proof {
            lemma_push_part_contained(out@, part@, canon_root@);
            lemma_append_parts_take(canon_ancestor@, parts, i as int);
        }
        let ol = out.unicode_len();
        if ol == 0 {
            out.push('/');
        } else {
            let lo = out.get_char(ol - 1);
            if lo != '/' && lo != '\\' {
                out.push('/');
            }
        }
        out.append(part.as_str());
        i += 1;
    }
    proof {
        assert(parts.take(suffix.len() as int) =~= parts);
    }
    Ok(out)
}

/// Unrolling the appended prefix by one component.
proof fn lemma_append_parts_take(base: Seq<char>, parts: Seq<Seq<char>>, i: int)
    requires
        0 <= i < parts.len(),
    ensures
        spec_append_parts(base, parts.take(i + 1)) == spec_push_part(
            spec_append_parts(base, parts.take(i)),
            parts[i],
        ),
    decreases i,
{
    if i == 0 {
        assert(parts.take(1).drop_first() =~= Seq::<Seq<char>>::empty());
        assert(parts.take(0) =~= Seq::<Seq<char>>::empty());
        assert(parts.take(1)[0] == parts[0]);
        assert(spec_append_parts(base, parts.take(1)) == spec_append_parts(
            spec_push_part(base, parts[0]),
            Seq::<Seq<char>>::empty(),
        ));
        assert(spec_append_parts(spec_push_part(base, parts[0]), Seq::<Seq<char>>::empty())
            == spec_push_part(base, parts[0]));
        assert(spec_append_parts(base, parts.take(0)) == base);
    } else {
        assert(parts.take(i + 1).drop_first() =~= parts.drop_first().take(i));
        assert(parts.take(i).drop_first() =~= parts.drop_first().take(i - 1));
        assert(parts.take(i + 1)[0] == parts[0]);
        assert(parts.take(i)[0] == parts[0]);
        assert(spec_append_parts(base, parts.take(i + 1)) == spec_append_parts(
            spec_push_part(base, parts[0]),
            parts.drop_first().take(i),
        ));
        assert(spec_append_parts(base, parts.take(i)) == spec_append_parts(
            spec_push_part(base, parts[0]),
            parts.drop_first().take(i - 1),
        ));
        lemma_append_parts_take(spec_push_part(base, parts[0]), parts.drop_first(), i - 1);
        assert(parts.drop_first()[i - 1] == parts[i]);
    }
}

} // verus!
