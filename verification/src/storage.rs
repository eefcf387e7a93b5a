//! The per-plugin key/value store: a JSON object held in memory, mutated
//! under quota checks, and handed back to the host as the exact bytes to
//! persist. The host reads and writes the backing file and parses it; this
//! module owns every decision about its contents.
//!
//! Quotas: a key at most 256 bytes, a value's JSON form at most 1 MiB, the
//! whole record's JSON form at most 10 MiB. A failed `set` leaves the
//! record exactly as it was.

use vstd::prelude::*;
use vstd::string::StringSliceAdditionalSpecFns;
use vstd::utf8::encode_utf8;

use crate::errors::SandboxError;
use crate::json_out::{json_bytes, json_encode, json_encode_obj};
use crate::text::str_eq;
use crate::value::{clone_tree, pairs_deep, TreeV, TreeValue};

verus! {

/// The largest key, in bytes of its UTF-8 form.
pub const MAX_KEY_BYTES: usize = 256;

/// The largest JSON form of one value, in bytes.
pub const MAX_VALUE_BYTES: usize = 1048576;

/// The largest JSON form of the whole record, in bytes.
pub const MAX_RECORD_BYTES: usize = 10485760;

/// The first position holding the key, if any.
pub open spec fn spec_key_at(es: Seq<(Seq<char>, TreeV)>, k: Seq<char>) -> Option<int>
    decreases es.len(),
{
    if es.len() == 0 {
        None
    } else if es[0].0 == k {
        Some(0)
    } else {
        match spec_key_at(es.drop_first(), k) {
            Some(j) => Some(j + 1),
            None => None,
        }
    }
}

/// The value stored under the key, if any.
pub open spec fn spec_get(es: Seq<(Seq<char>, TreeV)>, k: Seq<char>) -> Option<TreeV> {
    match spec_key_at(es, k) {
        Some(i) => Some(es[i].1),
        None => None,
    }
}

/// The record after storing `v` under `k`: the first entry with that key is
/// replaced, or a new entry is appended.
pub open spec fn spec_upsert(es: Seq<(Seq<char>, TreeV)>, k: Seq<char>, v: TreeV) -> Seq<
    (Seq<char>, TreeV),
> {
    match spec_key_at(es, k) {
        Some(i) => es.update(i, (k, v)),
        None => es.push((k, v)),
    }
}

/// The record after removing the key: the first entry with it disappears.
pub open spec fn spec_remove(es: Seq<(Seq<char>, TreeV)>, k: Seq<char>) -> Seq<
    (Seq<char>, TreeV),
> {
    match spec_key_at(es, k) {
        Some(i) => es.remove(i),
        None => es,
    }
}

/// No key occurs twice.
pub open spec fn spec_record_wf(es: Seq<(Seq<char>, TreeV)>) -> bool {
    forall|i: int, j: int| 0 <= i < j < es.len() ==> (#[trigger] es[i]).0 != (#[trigger] es[j]).0
}

/// The bytes the record persists as: one JSON object.
pub open spec fn record_bytes(es: Seq<(Seq<char>, TreeV)>) -> Seq<u8> {
    json_bytes(TreeV::Obj(es))
}

/// The record a pair run loads as: each pair stored in turn, a later
/// occurrence of a key overwriting the earlier one, as a JSON parser
/// reads duplicate keys.
pub open spec fn spec_load(ps: Seq<(Seq<char>, TreeV)>) -> Seq<(Seq<char>, TreeV)>
    decreases ps.len(),
{
    if ps.len() == 0 {
        Seq::empty()
    } else {
        spec_upsert(spec_load(ps.drop_last()), ps.last().0, ps.last().1)
    }
}

/// What the first matching position means.
proof fn lemma_key_at(es: Seq<(Seq<char>, TreeV)>, k: Seq<char>)
    ensures
        match spec_key_at(es, k) {
            Some(j) => 0 <= j < es.len() && es[j].0 == k && forall|i: int|
                0 <= i < j ==> (#[trigger] es[i]).0 != k,
            None => forall|i: int| 0 <= i < es.len() ==> (#[trigger] es[i]).0 != k,
        },
    decreases es.len(),
{
    if es.len() > 0 && es[0].0 != k {
        let sub = es.drop_first();
        lemma_key_at(sub, k);
        assert forall|i: int| 0 <= i < sub.len() implies #[trigger] sub[i] == es[i + 1] by {}
        match spec_key_at(sub, k) {
            Some(j) => {
                assert(es[j + 1] == sub[j]);
                assert forall|i: int| 0 <= i < j + 1 implies (#[trigger] es[i]).0 != k by {
                    if i >= 1 {
                        assert(sub[i - 1] == es[i]);
                    }
                }
            },
            None => {
                assert forall|i: int| 0 <= i < es.len() implies (#[trigger] es[i]).0 != k by {
                    if i >= 1 {
                        assert(sub[i - 1] == es[i]);
                    }
                }
            },
        }
    }
}

/// Storing a value and reading the same key back yields that value.
pub proof fn lemma_get_after_set(es: Seq<(Seq<char>, TreeV)>, k: Seq<char>, v: TreeV)
    ensures
        spec_get(spec_upsert(es, k, v), k) == Some(v),
{
    lemma_key_at(es, k);
    let es2 = spec_upsert(es, k, v);
    lemma_key_at(es2, k);
    match spec_key_at(es, k) {
        Some(i) => {
            assert(es2[i].0 == k);
            match spec_key_at(es2, k) {
                Some(j) => {
                    if j < i {
                        assert(es2[j].0 == es[j].0);
                    }
                    assert(j == i);
                },
                None => {
                    assert(es2[i].0 == k);
                },
            }
        },
        None => {
            match spec_key_at(es2, k) {
                Some(j) => {
                    if j < es.len() {
                        assert(es2[j].0 == es[j].0);
                    }
                    assert(j == es.len());
                },
                None => {
                    assert(es2[es.len() as int].0 == k);
                },
            }
        },
    }
}

/// Removing a key from a well-formed record leaves nothing stored under it.
pub proof fn lemma_get_after_remove(es: Seq<(Seq<char>, TreeV)>, k: Seq<char>)
    requires
        spec_record_wf(es),
    ensures
        spec_get(spec_remove(es, k), k) is None,
{
    lemma_key_at(es, k);
    let es2 = spec_remove(es, k);
    lemma_key_at(es2, k);
    match spec_key_at(es, k) {
        Some(i) => {
            match spec_key_at(es2, k) {
                Some(j) => {
                    if j < i {
                        assert(es2[j] == es[j]);
                    } else {
                        assert(es2[j] == es[j + 1]);
                    }
                },
                None => {},
            }
        },
        None => {
            match spec_key_at(es2, k) {
                Some(j) => {
                    assert(es2[j].0 != k);
                },
                None => {},
            }
        },
    }
}

/// The executable scan for the first entry holding the key.
#[verifier::loop_isolation(false)]
pub(crate) fn find_key(entries: &Vec<(String, TreeValue)>, key: &str) -> (r: Option<usize>)
    ensures
        match r {
            Some(j) => j < entries.len() && spec_key_at(pairs_deep(entries@), key@) == Some(
                j as int,
            ),
            None => spec_key_at(pairs_deep(entries@), key@) is None,
        },
{
    let ghost es = pairs_deep(entries@);
    proof {
        lemma_key_at(es, key@);
    }
    let mut i: usize = 0;
    while i < entries.len()
        invariant
            i <= entries.len(),
            es == pairs_deep(entries@),
            es.len() == entries.len(),
            forall|j: int| 0 <= j < i ==> (#[trigger] es[j]).0 != key@,
        decreases entries.len() - i,
    {
        if str_eq(entries[i].0.as_str(), key) {
            proof {
                assert(es[i as int].0 == key@);
                match spec_key_at(es, key@) {
                    Some(j0) => {
                        if j0 < i {
                            assert(es[j0].0 != key@);
                        } else if j0 > i {
                            assert(es[i as int].0 != key@);
                        }
                    },
                    None => {
                        assert(es[i as int].0 != key@);
                    },
                }
            }
            return Some(i);
        }
        assert(es[i as int].0 != key@);
        i += 1;
    }
    None
}

/// Replaces the first entry with the key or appends a new one; no quota is
/// checked here.
#[verifier::loop_isolation(false)]
fn upsert_entries(entries: &mut Vec<(String, TreeValue)>, key: String, value: TreeValue)
    ensures
        pairs_deep(final(entries)@) == spec_upsert(
            pairs_deep(old(entries)@),
            key@,
            value.deep_view(),
        ),
        spec_record_wf(pairs_deep(old(entries)@)) ==> spec_record_wf(pairs_deep(final(entries)@)),
{
    let ghost es = pairs_deep(entries@);
    proof {
        lemma_key_at(es, key@);
    }
    match find_key(entries, key.as_str()) {
        Some(i) => {
            entries.set(i, (key, value));
            proof {
                assert(pairs_deep(entries@) =~= spec_upsert(es, key@, value.deep_view()));
                if spec_record_wf(es) {
                    let es2 = pairs_deep(entries@);
                    assert forall|a: int, b: int|
                        0 <= a < b < es2.len() implies (#[trigger] es2[a]).0 != (
                    #[trigger] es2[b]).0 by {
                        if a != i && b != i {
                            assert(es2[a].0 == es[a].0 && es2[b].0 == es[b].0);
                        } else if a == i {
                            assert(es2[a].0 == key@ && es2[b].0 == es[b].0 && es[i as int].0
                                == key@);
                        } else {
                            assert(es2[b].0 == key@ && es2[a].0 == es[a].0 && es[i as int].0
                                == key@);
                        }
                    }
                }
            }
        },
        None => {
            entries.push((key, value));
            proof {
                assert(pairs_deep(entries@) =~= spec_upsert(es, key@, value.deep_view()));
                if spec_record_wf(es) {
                    let es2 = pairs_deep(entries@);
                    assert forall|a: int, b: int|
                        0 <= a < b < es2.len() implies (#[trigger] es2[a]).0 != (
                    #[trigger] es2[b]).0 by {
                        if b < es.len() {
                            assert(es2[a] == es[a] && es2[b] == es[b]);
                        } else {
                            assert(es2[a] == es[a]);
                            assert(es[a].0 != key@);
                        }
                    }
                }
            }
        },
    }
}

/// Copies the entry vector, models preserved.
#[verifier::loop_isolation(false)]
fn clone_entries(entries: &Vec<(String, TreeValue)>) -> (r: Vec<(String, TreeValue)>)
    ensures
        pairs_deep(r@) == pairs_deep(entries@),
{
    let mut out: Vec<(String, TreeValue)> = Vec::new();
    let mut i: usize = 0;
    while i < entries.len()
        invariant
            i <= entries.len(),
            out.len() == i,
            forall|j: int| 0 <= j < i ==> #[trigger] pairs_deep(out@)[j] == pairs_deep(
                entries@,
            )[j],
        decreases entries.len() - i,
    {
        let ghost old_out = out@;
        let v = clone_tree(&entries[i].1);
        out.push((entries[i].0.clone(), v));
        proof {
            assert forall|j: int| 0 <= j < i + 1 implies #[trigger] pairs_deep(out@)[j]
                == pairs_deep(entries@)[j] by {
                if j < i {
                    assert(out@[j] == old_out[j]);
                    assert(pairs_deep(old_out)[j] == (old_out[j].0@, old_out[j].1.deep_view()));
                }
            }
        }
        i += 1;
    }
    proof {
        assert(pairs_deep(out@) =~= pairs_deep(entries@));
    }
    out
}

/// The in-memory record of one plugin's store, keys unique, pairs in
/// insertion order.
pub struct StorageStore {
    entries: Vec<(String, TreeValue)>,
}

impl StorageStore {
    /// The mathematical record.
    pub closed spec fn view_entries(&self) -> Seq<(Seq<char>, TreeV)> {
        pairs_deep(self.entries@)
    }

    /// Every key occurs once.
    pub open spec fn wf(&self) -> bool {
        spec_record_wf(self.view_entries())
    }

    /// An empty record, used when the backing file is absent or corrupt.
    pub fn new() -> (r: StorageStore)
        ensures
            r.view_entries() == Seq::<(Seq<char>, TreeV)>::empty(),
            r.wf(),
    {
        let r = StorageStore { entries: Vec::new() };
        proof {
            assert(pairs_deep(r.entries@) =~= Seq::<(Seq<char>, TreeV)>::empty());
        }
        r
    }

    /// Builds the record from parsed pairs, later occurrences of a key
    /// overwriting earlier ones, as a JSON parser does.
    #[verifier::loop_isolation(false)]
    pub fn from_entries(pairs: Vec<(String, TreeValue)>) -> (r: StorageStore)
        ensures
            r.view_entries() == spec_load(pairs_deep(pairs@)),
            r.wf(),
    {
        let ghost dpairs = pairs_deep(pairs@);
        let mut r = StorageStore::new();
        let mut i: usize = 0;
        while i < pairs.len()
            invariant
                i <= pairs.len(),
                dpairs == pairs_deep(pairs@),
                dpairs.len() == pairs.len(),
                r.view_entries() == spec_load(dpairs.take(i as int)),
                r.wf(),
            decreases pairs.len() - i,
        {
            let v = clone_tree(&pairs[i].1);
            proof {
                assert(dpairs.take(i + 1 as int).drop_last() =~= dpairs.take(i as int));
                assert(dpairs.take(i + 1 as int).last() == dpairs[i as int]);
                assert(dpairs[i as int] == (pairs@[i as int].0@, pairs@[i as int].1.deep_view()));
            }
            upsert_entries(&mut r.entries, pairs[i].0.clone(), v);
            i += 1;
        }
        proof {
            assert(dpairs.take(dpairs.len() as int) =~= dpairs);
        }
        r
    }


    /// Reads the value stored under the key, as a copy.
    pub fn get(&self, key: &str) -> (r: Option<TreeValue>)
        ensures
            match r {
                Some(v) => spec_get(self.view_entries(), key@) == Some(v.deep_view()),
                None => spec_get(self.view_entries(), key@) is None,
            },
    {
        match find_key(&self.entries, key) {
            Some(i) => Some(clone_tree(&self.entries[i].1)),
            None => None,
        }
    }

    /// The stored keys, in record order.
    pub fn keys(&self) -> (r: Vec<String>)
        ensures
            r@.map_values(|s: String| s@) =~= self.view_entries().map_values(
                |e: (Seq<char>, TreeV)| e.0,
            ),
    {
        let mut out: Vec<String> = Vec::new();
        let mut i: usize = 0;
        while i < self.entries.len()
            invariant
                i <= self.entries.len(),
                out.len() == i,
                forall|j: int| 0 <= j < i ==> #[trigger] out@[j]@ == self.view_entries()[j].0,
            decreases self.entries.len() - i,
        {
            out.push(self.entries[i].0.clone());
            i += 1;
        }
        proof {
            assert(out@.map_values(|s: String| s@) =~= self.view_entries().map_values(
                |e: (Seq<char>, TreeV)| e.0,
            ));
        }
        out
    }

    /// Stores a value under a key, enforcing the three quotas; on any
    /// failure the record is untouched. On success the new record and the
    /// exact bytes to persist are returned.
    pub fn set(&mut self, key: &str, value: TreeValue) -> (r: Result<Vec<u8>, SandboxError>)
        ensures
            match r {
                Err(e) => e == SandboxError::SizeLimitExceeded && *final(self) == *old(self) && (
                encode_utf8(key@).len() > MAX_KEY_BYTES || json_bytes(value.deep_view()).len()
                    > MAX_VALUE_BYTES || record_bytes(
                    spec_upsert(old(self).view_entries(), key@, value.deep_view()),
                ).len() > MAX_RECORD_BYTES),
                Ok(bytes) => encode_utf8(key@).len() <= MAX_KEY_BYTES && json_bytes(
                    value.deep_view(),
                ).len() <= MAX_VALUE_BYTES && final(self).view_entries() == spec_upsert(
                    old(self).view_entries(),
                    key@,
                    value.deep_view(),
                ) && bytes@ == record_bytes(final(self).view_entries()) && bytes@.len()
                    <= MAX_RECORD_BYTES,
            },
            old(self).wf() ==> final(self).wf(),
    {
        let key_bytes = key.as_bytes();
        assert(key_bytes@ == encode_utf8(key@));
        if key_bytes.len() > MAX_KEY_BYTES {
            return Err(SandboxError::SizeLimitExceeded);
        }
        let value_bytes = json_encode(&value);
        if value_bytes.len() > MAX_VALUE_BYTES {
            return Err(SandboxError::SizeLimitExceeded);
        }
        // Build the candidate record aside, so a failed total check leaves
        // the record untouched.
        let mut cand = clone_entries(&self.entries);
        upsert_entries(&mut cand, key.to_owned(), value);
        let total = json_encode_obj(&cand);
        if total.len() > MAX_RECORD_BYTES {
            return Err(SandboxError::SizeLimitExceeded);
        }
        self.entries = cand;
        Ok(total)
    }

    /// Removes the key, if present, and returns the exact bytes to persist
    /// for the new record.
    pub fn remove(&mut self, key: &str) -> (r: Vec<u8>)
        ensures
            final(self).view_entries() == spec_remove(old(self).view_entries(), key@),
            r@ == record_bytes(final(self).view_entries()),
            old(self).wf() ==> final(self).wf(),
    {
        let ghost es = self.view_entries();
        match find_key(&self.entries, key) {
            Some(i) => {
                self.entries.remove(i);
                proof {
                    assert(self.view_entries() =~= spec_remove(es, key@));
                    if spec_record_wf(es) {
                        let es2 = self.view_entries();
                        assert forall|a: int, b: int|
                            0 <= a < b < es2.len() implies (#[trigger] es2[a]).0 != (
                        #[trigger] es2[b]).0 by {
                            let a0 = if a < i {
                                a
                            } else {
                                a + 1
                            };
                            let b0 = if b < i {
                                b
                            } else {
                                b + 1
                            };
                            assert(es2[a] == es[a0] && es2[b] == es[b0]);
                        }
                    }
                }
            },
            None => {},
        }
        json_encode_obj(&self.entries)
    }
}

} // verus!
