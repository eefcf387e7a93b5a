//! Picking the server jar out of a directory listing: well-known names
//! first, then a lone jar, then the first jar carrying a server-ish
//! keyword, then the first jar at all. The host lists the directory's
//! plain files and hands the names over.

use vstd::prelude::*;

use crate::text::{contains_sub, ends_with_chars, lower_ascii, spec_contains, spec_ends_with,
    spec_lower, str_eq};

verus! {

/// The name ends in the jar extension with something before the dot.
pub open spec fn spec_is_jar(name: Seq<char>) -> bool {
    name.len() > 4 && spec_ends_with(name, ".jar"@)
}

/// The lowercased name carries one of the server-ish keywords.
pub open spec fn spec_server_keyword(name: Seq<char>) -> bool {
    let l = spec_lower(name);
    spec_contains(l, "server"@) || spec_contains(l, "forge"@) || spec_contains(l, "fabric"@)
        || spec_contains(l, "mohist"@) || spec_contains(l, "paper"@) || spec_contains(
        l,
        "spigot"@,
    ) || spec_contains(l, "purpur"@) || spec_contains(l, "bukkit"@) || spec_contains(
        l,
        "catserver"@,
    ) || spec_contains(l, "arclight"@)
}

/// Some listed name equals the well-known name.
pub open spec fn spec_has_name(files: Seq<Seq<char>>, name: Seq<char>) -> bool {
    exists|i: int| 0 <= i < files.len() && files[i] == name
}

/// The first listed jar, if any.
pub open spec fn spec_first_jar(files: Seq<Seq<char>>) -> Option<int>
    decreases files.len(),
{
    if files.len() == 0 {
        None
    } else if spec_is_jar(files[0]) {
        Some(0)
    } else {
        match spec_first_jar(files.drop_first()) {
            Some(j) => Some(j + 1),
            None => None,
        }
    }
}

/// How many listed names are jars.
pub open spec fn spec_jar_count(files: Seq<Seq<char>>) -> int
    decreases files.len(),
{
    if files.len() == 0 {
        0
    } else {
        spec_jar_count(files.drop_last()) + if spec_is_jar(files.last()) {
            1int
        } else {
            0int
        }
    }
}

/// The first listed jar carrying a server-ish keyword, if any.
pub open spec fn spec_first_keyword_jar(files: Seq<Seq<char>>) -> Option<int>
    decreases files.len(),
{
    if files.len() == 0 {
        None
    } else if spec_is_jar(files[0]) && spec_server_keyword(files[0]) {
        Some(0)
    } else {
        match spec_first_keyword_jar(files.drop_first()) {
            Some(j) => Some(j + 1),
            None => None,
        }
    }
}

/// The jar the listing yields: a well-known name in preference order,
/// then a lone jar, then the first keyword-bearing jar, then the first
/// jar; nothing when no jar is listed.
pub open spec fn spec_pick_jar(files: Seq<Seq<char>>) -> Option<Seq<char>> {
    if spec_has_name(files, "server.jar"@) {
        Some("server.jar"@)
    } else if spec_has_name(files, "forge.jar"@) {
        Some("forge.jar"@)
    } else if spec_has_name(files, "fabric-server.jar"@) {
        Some("fabric-server.jar"@)
    } else if spec_has_name(files, "minecraft_server.jar"@) {
        Some("minecraft_server.jar"@)
    } else if spec_has_name(files, "paper.jar"@) {
        Some("paper.jar"@)
    } else if spec_has_name(files, "spigot.jar"@) {
        Some("spigot.jar"@)
    } else if spec_has_name(files, "purpur.jar"@) {
        Some("purpur.jar"@)
    } else {
        match spec_first_jar(files) {
            None => None,
            Some(first) => {
                if spec_jar_count(files) == 1 {
                    Some(files[first])
                } else {
                    match spec_first_keyword_jar(files) {
                        Some(k) => Some(files[k]),
                        None => Some(files[first]),
                    }
                }
            },
        }
    }
}

/// Whether the listing holds the exact name.
#[verifier::loop_isolation(false)]
fn has_name(files: &Vec<String>, name: &str) -> (r: bool)
    ensures
        r == spec_has_name(files@.map_values(|s: String| s@), name@),
{
    let ghost dn = files@.map_values(|s: String| s@);
    let mut i: usize = 0;
    while i < files.len()
        invariant
            i <= files.len(),
            dn == files@.map_values(|s: String| s@),
            dn.len() == files.len(),
            forall|j: int| 0 <= j < i ==> #[trigger] dn[j] != name@,
        decreases files.len() - i,
    {
        if str_eq(files[i].as_str(), name) {
            assert(dn[i as int] == name@);
            return true;
        }
        assert(dn[i as int] != name@);
        i += 1;
    }
    false
}

/// Whether the name is a jar, as the picker counts them.
fn is_jar_name(name: &str) -> (r: bool)
    ensures
        r == spec_is_jar(name@),
{
    name.unicode_len() > 4 && ends_with_chars(name, ".jar")
}

/// Whether the lowercased name carries a server-ish keyword.
fn has_server_keyword(name: &str) -> (r: bool)
    ensures
        r == spec_server_keyword(name@),
{
    let lowered = lower_ascii(name);
    let l = lowered.as_str();
    contains_sub(l, "server") || contains_sub(l, "forge") || contains_sub(l, "fabric")
        || contains_sub(l, "mohist") || contains_sub(l, "paper") || contains_sub(l, "spigot")
        || contains_sub(l, "purpur") || contains_sub(l, "bukkit") || contains_sub(
        l,
        "catserver",
    ) || contains_sub(l, "arclight")
}

/// What the first matching positions mean, spelled out for the scans.
proof fn lemma_jar_positions(files: Seq<Seq<char>>)
    ensures
        match spec_first_jar(files) {
            Some(j) => 0 <= j < files.len() && spec_is_jar(files[j]) && forall|i: int|
                0 <= i < j ==> !spec_is_jar(#[trigger] files[i]),
            None => forall|i: int| 0 <= i < files.len() ==> !spec_is_jar(#[trigger] files[i]),
        },
        match spec_first_keyword_jar(files) {
            Some(j) => 0 <= j < files.len() && spec_is_jar(files[j]) && spec_server_keyword(
                files[j],
            ) && forall|i: int|
                0 <= i < j ==> !(spec_is_jar(#[trigger] files[i]) && spec_server_keyword(
                    files[i],
                )),
            None => forall|i: int|
                0 <= i < files.len() ==> !(spec_is_jar(#[trigger] files[i])
                    && spec_server_keyword(files[i])),
        },
    decreases files.len(),
{
    if files.len() > 0 {
        let sub = files.drop_first();
        lemma_jar_positions(sub);
        assert forall|i: int| 0 <= i < sub.len() implies #[trigger] sub[i] == files[i + 1] by {}
        assert forall|i: int|
            1 <= i < files.len() implies #[trigger] files[i] == sub[i - 1] by {}
    }
}

/// Counting jars over a growing prefix.
proof fn lemma_jar_count_push(files: Seq<Seq<char>>, e: Seq<char>)
    ensures
        spec_jar_count(files.push(e)) == spec_jar_count(files) + if spec_is_jar(e) {
            1int
        } else {
            0int
        },
{
    assert(files.push(e).drop_last() =~= files);
    assert(files.push(e).last() == e);
}

/// Picks the server jar out of the listed plain-file names.
#[verifier::loop_isolation(false)]
#[verifier::rlimit(100)]
pub fn pick_server_jar(files: &Vec<String>) -> (r: Option<String>)
    ensures
        match r {
            Some(name) => spec_pick_jar(files@.map_values(|s: String| s@)) == Some(name@),
            None => spec_pick_jar(files@.map_values(|s: String| s@)) is None,
        },
{
    let ghost dn = files@.map_values(|s: String| s@);
    if has_name(files, "server.jar") {
        return Some(String::from_str("server.jar"));
    }
    if has_name(files, "forge.jar") {
        return Some(String::from_str("forge.jar"));
    }
    if has_name(files, "fabric-server.jar") {
        return Some(String::from_str("fabric-server.jar"));
    }
    if has_name(files, "minecraft_server.jar") {
        return Some(String::from_str("minecraft_server.jar"));
    }
    if has_name(files, "paper.jar") {
        return Some(String::from_str("paper.jar"));
    }
    if has_name(files, "spigot.jar") {
        return Some(String::from_str("spigot.jar"));
    }
    if has_name(files, "purpur.jar") {
        return Some(String::from_str("purpur.jar"));
    }
    proof {
        lemma_jar_positions(dn);
    }
    let mut first_jar: Option<usize> = None;
    let mut first_kw: Option<usize> = None;
    let mut count: usize = 0;
    let mut i: usize = 0;
    while i < files.len()
        invariant
            i <= files.len(),
            dn == files@.map_values(|s: String| s@),
            dn.len() == files.len(),
            count == spec_jar_count(dn.take(i as int)),
            count <= i,
            match first_jar {
                Some(j) => j < i && spec_first_jar(dn) == Some(j as int),
                None => forall|t: int| 0 <= t < i ==> !spec_is_jar(#[trigger] dn[t]),
            },
            match first_kw {
                Some(j) => j < i && spec_first_keyword_jar(dn) == Some(j as int),
                None => forall|t: int|
                    0 <= t < i ==> !(spec_is_jar(#[trigger] dn[t]) && spec_server_keyword(
                        dn[t],
                    )),
            },
        decreases files.len() - i,
    {
        proof {
            lemma_jar_count_push(dn.take(i as int), dn[i as int]);
            assert(dn.take(i + 1 as int) =~= dn.take(i as int).push(dn[i as int]));
        }
        let jar = is_jar_name(files[i].as_str());
        assert(jar == spec_is_jar(dn[i as int]));
        if jar {
            count += 1;
            if first_jar.is_none() {
                proof {
                    match spec_first_jar(dn) {
                        Some(j0) => {
                            if j0 < i {
                                assert(!spec_is_jar(dn[j0]));
                            } else if j0 > i {
                                assert(!spec_is_jar(dn[i as int]));
                            }
                        },
                        None => {
                            assert(!spec_is_jar(dn[i as int]));
                        },
                    }
                }
                first_jar = Some(i);
            }
            if first_kw.is_none() {
                let kw = has_server_keyword(files[i].as_str());
                assert(kw == spec_server_keyword(dn[i as int]));
                if kw {
                    proof {
                        match spec_first_keyword_jar(dn) {
                            Some(j0) => {
                                if j0 < i {
                                    assert(!(spec_is_jar(dn[j0]) && spec_server_keyword(
                                        dn[j0],
                                    )));
                                } else if j0 > i {
                                    assert(!(spec_is_jar(dn[i as int]) && spec_server_keyword(
                                        dn[i as int],
                                    )));
                                }
                            },
                            None => {
                                assert(!(spec_is_jar(dn[i as int]) && spec_server_keyword(
                                    dn[i as int],
                                )));
                            },
                        }
                    }
                    first_kw = Some(i);
                }
            }
        }
        i += 1;
    }
    proof {
        assert(dn.take(dn.len() as int) =~= dn);
    }
    match first_jar {
        None => None,
        Some(fj) => {
            if count == 1 {
                Some(files[fj].clone())
            } else {
                match first_kw {
                    Some(k) => Some(files[k].clone()),
                    None => Some(files[fj].clone()),
                }
            }
        },
    }
}

} // verus!
