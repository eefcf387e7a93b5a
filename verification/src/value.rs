//! Bidirectional, depth-bounded conversion between the script engine's
//! dynamic value model and the structured tree model.
//!
//! A table is treated as an array exactly when every key is a positive
//! integer; the largest key `n` then yields `n` slots, missing keys becoming
//! null. Any other table is emitted as an object from its string keys alone.
//! Both directions fail above a nesting depth of 64. A non-integer number
//! is carried as the text of its JSON rendering and never interpreted
//! arithmetically; the host renders and parses the floating value at the
//! engine boundary, where a value with no finite rendering becomes nil
//! before it ever reaches these conversions.

use vstd::prelude::*;

use crate::errors::SandboxError;

verus! {

broadcast use vstd::std_specs::vec::group_vec_axioms;

/// The deepest nesting either conversion will follow.
pub const MAX_RECURSION_DEPTH: usize = 64;

/// A key of a dynamic table: a (script) integer, a string, or any other
/// script value, which neither the array heuristic nor the object branch
/// can use.
#[derive(Debug, PartialEq, Eq)]
pub enum DynKey {
    Int(i64),
    Str(String),
    Other,
}

/// A value of the script engine's dynamic model. A non-integer number is
/// held as the text of its JSON rendering.
#[derive(Debug, PartialEq, Eq)]
pub enum DynValue {
    Nil,
    Bool(bool),
    Int(i64),
    Num(String),
    Str(String),
    Table(Vec<(DynKey, DynValue)>),
}

/// A node of the structured tree model. `Obj` keeps its pairs in insertion
/// order. A non-integer number is held as the text of its JSON rendering.
#[derive(Debug, PartialEq, Eq)]
pub enum TreeValue {
    Null,
    Bool(bool),
    Int(i64),
    Num(String),
    Str(String),
    Arr(Vec<TreeValue>),
    Obj(Vec<(String, TreeValue)>),
}

/// The mathematical model of a table key.
pub enum KeyV {
    Int(int),
    Str(Seq<char>),
    Other,
}

/// The mathematical model of a dynamic value.
pub enum DynV {
    Nil,
    Bool(bool),
    Int(int),
    Num(Seq<char>),
    Str(Seq<char>),
    Table(Seq<(KeyV, DynV)>),
}

/// The mathematical model of a tree node.
pub enum TreeV {
    Null,
    Bool(bool),
    Int(int),
    Num(Seq<char>),
    Str(Seq<char>),
    Arr(Seq<TreeV>),
    Obj(Seq<(Seq<char>, TreeV)>),
}

impl DeepView for DynKey {
    type V = KeyV;

    open spec fn deep_view(&self) -> KeyV {
        match self {
            DynKey::Int(i) => KeyV::Int(*i as int),
            DynKey::Str(s) => KeyV::Str(s@),
            DynKey::Other => KeyV::Other,
        }
    }
}

/// The model of a table's entry sequence.
pub open spec fn entries_deep(s: Seq<(DynKey, DynValue)>) -> Seq<(KeyV, DynV)>
    decreases s,
{
    Seq::new(
        s.len(),
        |i: int|
            if 0 <= i < s.len() {
                (s[i].0.deep_view(), s[i].1.deep_view())
            } else {
                (KeyV::Other, DynV::Nil)
            },
    )
}

impl DeepView for DynValue {
    type V = DynV;

    open spec fn deep_view(&self) -> DynV
        decreases self,
    {
        match self {
            DynValue::Nil => DynV::Nil,
            DynValue::Bool(b) => DynV::Bool(*b),
            DynValue::Int(i) => DynV::Int(*i as int),
            DynValue::Num(t) => DynV::Num(t@),
            DynValue::Str(s) => DynV::Str(s@),
            DynValue::Table(entries) => DynV::Table(entries_deep(entries@)),
        }
    }
}

/// The model of an array's item sequence.
pub open spec fn items_deep(s: Seq<TreeValue>) -> Seq<TreeV>
    decreases s,
{
    Seq::new(
        s.len(),
        |i: int|
            if 0 <= i < s.len() {
                s[i].deep_view()
            } else {
                TreeV::Null
            },
    )
}

/// The model of an object's pair sequence.
pub open spec fn pairs_deep(s: Seq<(String, TreeValue)>) -> Seq<(Seq<char>, TreeV)>
    decreases s,
{
    Seq::new(
        s.len(),
        |i: int|
            if 0 <= i < s.len() {
                (s[i].0@, s[i].1.deep_view())
            } else {
                (Seq::empty(), TreeV::Null)
            },
    )
}

impl DeepView for TreeValue {
    type V = TreeV;

    open spec fn deep_view(&self) -> TreeV
        decreases self,
    {
        match self {
            TreeValue::Null => TreeV::Null,
            TreeValue::Bool(b) => TreeV::Bool(*b),
            TreeValue::Int(i) => TreeV::Int(*i as int),
            TreeValue::Num(t) => TreeV::Num(t@),
            TreeValue::Str(s) => TreeV::Str(s@),
            TreeValue::Arr(items) => TreeV::Arr(items_deep(items@)),
            TreeValue::Obj(pairs) => TreeV::Obj(pairs_deep(pairs@)),
        }
    }
}

/// The key is a positive script integer.
pub open spec fn key_is_pos_int(k: KeyV) -> bool {
    match k {
        KeyV::Int(i) => i > 0,
        _ => false,
    }
}

/// The integer carried by a key, or zero.
pub open spec fn key_int_val(k: KeyV) -> int {
    match k {
        KeyV::Int(i) => i,
        _ => 0,
    }
}

/// Every key is a positive integer: the table is treated as an array.
pub open spec fn arrayish(entries: Seq<(KeyV, DynV)>) -> bool {
    forall|i: int| 0 <= i < entries.len() ==> key_is_pos_int(#[trigger] entries[i].0)
}

/// The largest integer key of the table, or zero when there is none.
pub open spec fn max_index(entries: Seq<(KeyV, DynV)>) -> int
    decreases entries.len(),
{
    if entries.len() == 0 {
        0
    } else {
        let rest = max_index(entries.drop_last());
        let k = key_int_val(entries.last().0);
        if k > rest {
            k
        } else {
            rest
        }
    }
}

/// The position of the first entry keyed by the integer `key`.
pub open spec fn lookup_index(entries: Seq<(KeyV, DynV)>, key: int) -> Option<int>
    decreases entries.len(),
{
    if entries.len() == 0 {
        None
    } else if entries[0].0 == KeyV::Int(key) {
        Some(0)
    } else {
        match lookup_index(entries.drop_first(), key) {
            Some(j) => Some(j + 1),
            None => None,
        }
    }
}

/// Every conversion in the sequence succeeded.
pub open spec fn results_all_ok(rs: Seq<Result<TreeV, SandboxError>>) -> bool {
    forall|i: int| 0 <= i < rs.len() ==> (#[trigger] rs[i]) is Ok
}

/// The converted values, assuming every conversion succeeded.
pub open spec fn result_vals(rs: Seq<Result<TreeV, SandboxError>>) -> Seq<TreeV> {
    rs.map_values(
        |r: Result<TreeV, SandboxError>|
            match r {
                Ok(t) => t,
                Err(_) => TreeV::Null,
            },
    )
}

/// The array slots of a table read as an array: slot `i` holds the converted
/// value at key `i + 1`, or null when that key is absent.
pub open spec fn arr_slots(
    entries: Seq<(KeyV, DynV)>,
    conv: Seq<Result<TreeV, SandboxError>>,
    n: int,
) -> Seq<Result<TreeV, SandboxError>> {
    Seq::new(
        n as nat,
        |i: int|
            match lookup_index(entries, i + 1) {
                Some(j) => conv[j],
                None => Ok(TreeV::Null),
            },
    )
}

/// The string-keyed pairs of a table read as an object, each with its
/// converted value, in table order.
pub open spec fn obj_pairs(
    entries: Seq<(KeyV, DynV)>,
    conv: Seq<Result<TreeV, SandboxError>>,
) -> Seq<(Seq<char>, Result<TreeV, SandboxError>)>
    decreases entries.len(),
{
    if entries.len() == 0 {
        Seq::empty()
    } else {
        let rest = obj_pairs(entries.drop_last(), conv);
        match entries.last().0 {
            KeyV::Str(s) => rest.push((s, conv[entries.len() - 1])),
            _ => rest,
        }
    }
}

/// Every object pair's conversion succeeded.
pub open spec fn pairs_all_ok(ps: Seq<(Seq<char>, Result<TreeV, SandboxError>)>) -> bool {
    forall|i: int| 0 <= i < ps.len() ==> (#[trigger] ps[i]).1 is Ok
}

/// The object pairs with their conversion results unwrapped.
pub open spec fn pairs_vals(
    ps: Seq<(Seq<char>, Result<TreeV, SandboxError>)>,
) -> Seq<(Seq<char>, TreeV)> {
    ps.map_values(
        |p: (Seq<char>, Result<TreeV, SandboxError>)|
            (
                p.0,
                match p.1 {
                    Ok(t) => t,
                    Err(_) => TreeV::Null,
                },
            ),
    )
}

/// Assembles a converted table from the per-entry conversion results `conv`,
/// which hold the conversion of each entry's value at depth `d + 1`.
pub open spec fn table_to_tree(
    entries: Seq<(KeyV, DynV)>,
    conv: Seq<Result<TreeV, SandboxError>>,
    d: nat,
) -> Result<TreeV, SandboxError> {
    let maxi = max_index(entries);
    if arrayish(entries) && maxi > 0 {
        if d + 1 > MAX_RECURSION_DEPTH {
            Err(SandboxError::RecursionLimitExceeded)
        } else {
            let slots = arr_slots(entries, conv, maxi);
            if results_all_ok(slots) {
                Ok(TreeV::Arr(result_vals(slots)))
            } else {
                Err(SandboxError::RecursionLimitExceeded)
            }
        }
    } else {
        let pairs = obj_pairs(entries, conv);
        if pairs.len() > 0 && d + 1 > MAX_RECURSION_DEPTH {
            Err(SandboxError::RecursionLimitExceeded)
        } else if pairs_all_ok(pairs) {
            Ok(TreeV::Obj(pairs_vals(pairs)))
        } else {
            Err(SandboxError::RecursionLimitExceeded)
        }
    }
}

/// The conversion of each table entry's value, one level deeper.
pub open spec fn children_conv(entries: Seq<(KeyV, DynV)>, d: nat) -> Seq<
    Result<TreeV, SandboxError>,
>
    decreases entries,
{
    Seq::new(
        entries.len(),
        |i: int|
            if 0 <= i < entries.len() {
                to_tree(entries[i].1, (d + 1) as nat)
            } else {
                Err(SandboxError::RecursionLimitExceeded)
            },
    )
}

/// Conversion of a dynamic value into the structured model, failing exactly
/// where the nesting reaches a depth greater than the recursion limit.
pub open spec fn to_tree(v: DynV, d: nat) -> Result<TreeV, SandboxError>
    decreases v,
{
    if d > MAX_RECURSION_DEPTH {
        Err(SandboxError::RecursionLimitExceeded)
    } else {
        match v {
            DynV::Nil => Ok(TreeV::Null),
            DynV::Bool(b) => Ok(TreeV::Bool(b)),
            DynV::Int(i) => Ok(TreeV::Int(i)),
            DynV::Num(t) => Ok(TreeV::Num(t)),
            DynV::Str(s) => Ok(TreeV::Str(s)),
            DynV::Table(entries) => table_to_tree(entries, children_conv(entries, d), d),
        }
    }
}

/// Every failure of the conversion is the recursion-limit error: the
/// assembly never passes a child's error through as another class.
pub proof fn lemma_to_tree_err(v: DynV, d: nat)
    ensures
        to_tree(v, d) is Err ==> to_tree(v, d) == Err::<TreeV, SandboxError>(
            SandboxError::RecursionLimitExceeded,
        ),
{
}

/// Unwrapping distributes over appending one pair.
proof fn lemma_pairs_vals_push(
    ps: Seq<(Seq<char>, Result<TreeV, SandboxError>)>,
    p: (Seq<char>, Result<TreeV, SandboxError>),
)
    ensures
        pairs_vals(ps.push(p)) == pairs_vals(ps).push(
            (
                p.0,
                match p.1 {
                    Ok(t) => t,
                    Err(_) => TreeV::Null,
                },
            ),
        ),
{
    assert(pairs_vals(ps.push(p)) =~= pairs_vals(ps).push(
        (
            p.0,
            match p.1 {
                Ok(t) => t,
                Err(_) => TreeV::Null,
            },
        ),
    ));
}

/// The model of a pair sequence distributes over appending one pair.
proof fn lemma_pairs_deep_push(s: Seq<(String, TreeValue)>, p: (String, TreeValue))
    ensures
        pairs_deep(s.push(p)) == pairs_deep(s).push((p.0@, p.1.deep_view())),
{
    assert(pairs_deep(s.push(p)) =~= pairs_deep(s).push((p.0@, p.1.deep_view())));
}

/// The object pairs of a prefix of the table are a prefix of the object
/// pairs of the whole table.
proof fn lemma_obj_pairs_prefix(
    entries: Seq<(KeyV, DynV)>,
    conv: Seq<Result<TreeV, SandboxError>>,
    n: int,
)
    requires
        0 <= n <= entries.len(),
    ensures
        obj_pairs(entries, conv).len() >= obj_pairs(entries.subrange(0, n), conv).len(),
        forall|t: int|
            0 <= t < obj_pairs(entries.subrange(0, n), conv).len() ==> #[trigger] obj_pairs(
                entries,
                conv,
            )[t] == obj_pairs(entries.subrange(0, n), conv)[t],
    decreases entries.len() - n,
{
    if n < entries.len() {
        lemma_obj_pairs_push(entries.subrange(0, n), conv, entries[n]);
        assert(entries.subrange(0, n + 1) =~= entries.subrange(0, n).push(entries[n]));
        lemma_obj_pairs_prefix(entries, conv, n + 1);
    } else {
        assert(entries.subrange(0, n) =~= entries);
    }
}

/// What the first matching position means, spelled out for the executable
/// linear scan.
proof fn lemma_lookup_index(entries: Seq<(KeyV, DynV)>, key: int)
    ensures
        match lookup_index(entries, key) {
            Some(j) => 0 <= j < entries.len() && entries[j].0 == KeyV::Int(key) && forall|i: int|
                0 <= i < j ==> (#[trigger] entries[i]).0 != KeyV::Int(key),
            None => forall|i: int|
                0 <= i < entries.len() ==> (#[trigger] entries[i]).0 != KeyV::Int(key),
        },
    decreases entries.len(),
{
    if entries.len() > 0 && entries[0].0 != KeyV::Int(key) {
        let sub = entries.drop_first();
        lemma_lookup_index(sub, key);
        assert forall|i: int| 0 <= i < sub.len() implies #[trigger] sub[i] == entries[i + 1] by {}
        match lookup_index(sub, key) {
            Some(j) => {
                assert(lookup_index(entries, key) == Some(j + 1));
                assert(sub[j] == entries[j + 1]);
                assert forall|i: int| 0 <= i < j + 1 implies (#[trigger] entries[i]).0
                    != KeyV::Int(key) by {
                    if i >= 1 {
                        assert(sub[i - 1] == entries[i]);
                    }
                }
            },
            None => {
                assert forall|i: int| 0 <= i < entries.len() implies (#[trigger] entries[i]).0
                    != KeyV::Int(key) by {
                    if i >= 1 {
                        assert(sub[i - 1] == entries[i]);
                    }
                }
            },
        }
    }
}

/// Extending the table by one entry extends `max_index` by taking the
/// larger of the old maximum and the new key.
proof fn lemma_max_index_push(entries: Seq<(KeyV, DynV)>, e: (KeyV, DynV))
    ensures
        max_index(entries.push(e)) == if key_int_val(e.0) > max_index(entries) {
            key_int_val(e.0)
        } else {
            max_index(entries)
        },
{
    assert(entries.push(e).drop_last() =~= entries);
    assert(entries.push(e).last() == e);
}

/// Extending the table by one entry appends at most one object pair.
proof fn lemma_obj_pairs_push(
    entries: Seq<(KeyV, DynV)>,
    conv: Seq<Result<TreeV, SandboxError>>,
    e: (KeyV, DynV),
)
    ensures
        obj_pairs(entries.push(e), conv) == match e.0 {
            KeyV::Str(s) => obj_pairs(entries, conv).push((s, conv[entries.len() as int])),
            _ => obj_pairs(entries, conv),
        },
{
    assert(entries.push(e).drop_last() =~= entries);
    assert(entries.push(e).last() == e);
}

/// A table whose prefix already yields an object pair yields one as a whole.
proof fn lemma_obj_pairs_prefix_len(
    entries: Seq<(KeyV, DynV)>,
    conv: Seq<Result<TreeV, SandboxError>>,
    n: int,
)
    requires
        0 <= n <= entries.len(),
        obj_pairs(entries.subrange(0, n), conv).len() > 0,
    ensures
        obj_pairs(entries, conv).len() > 0,
    decreases entries.len() - n,
{
    if n < entries.len() {
        lemma_obj_pairs_push(entries.subrange(0, n), conv, entries[n]);
        assert(entries.subrange(0, n + 1) =~= entries.subrange(0, n).push(entries[n]));
        lemma_obj_pairs_prefix_len(entries, conv, n + 1);
    } else {
        assert(entries.subrange(0, n) =~= entries);
    }
}

/// The executable scan for the first entry keyed by the integer `key`.
#[verifier::loop_isolation(false)]
fn find_int_key(entries: &Vec<(DynKey, DynValue)>, key: i64) -> (r: Option<usize>)
    ensures
        match r {
            Some(j) => j < entries.len() && lookup_index(entries_deep(entries@), key as int)
                == Some(j as int),
            None => lookup_index(entries_deep(entries@), key as int) is None,
        },
{
    let ghost dentries = entries_deep(entries@);
    proof {
        lemma_lookup_index(dentries, key as int);
    }
    let mut i: usize = 0;
    while i < entries.len()
        invariant
            i <= entries.len(),
            dentries == entries_deep(entries@),
            dentries.len() == entries.len(),
            forall|j: int| 0 <= j < i ==> (#[trigger] dentries[j]).0 != KeyV::Int(key as int),
        decreases entries.len() - i,
    {
        match &entries[i].0 {
            DynKey::Int(k) => {
                if *k == key {
                    proof {
                        assert(dentries[i as int].0 == KeyV::Int(key as int));
                        match lookup_index(dentries, key as int) {
                            Some(j0) => {
                                if j0 < i {
                                    assert(dentries[j0].0 != KeyV::Int(key as int));
                                } else if j0 > i {
                                    assert(dentries[i as int].0 != KeyV::Int(key as int));
                                }
                            },
                            None => {
                                assert(dentries[i as int].0 != KeyV::Int(key as int));
                            },
                        }
                    }
                    return Some(i);
                }
            },
            _ => {},
        }
        assert(dentries[i as int].0 != KeyV::Int(key as int));
        i += 1;
    }
    None
}

/// Converts a dynamic value into the structured model, with `depth` the
/// current nesting level; the caller at the boundary passes zero. Fails with
/// the recursion-limit error exactly when the value nests past the limit.
#[verifier::loop_isolation(false)]
#[verifier::rlimit(100)]
pub fn to_structured(v: &DynValue, depth: usize) -> (r: Result<TreeValue, SandboxError>)
    ensures
        match r {
            Ok(t) => to_tree(v.deep_view(), depth as nat) == Ok::<TreeV, SandboxError>(
                t.deep_view(),
            ),
            Err(e) => to_tree(v.deep_view(), depth as nat) == Err::<TreeV, SandboxError>(e),
        },
    decreases v,
{
    if depth > MAX_RECURSION_DEPTH {
        return Err(SandboxError::RecursionLimitExceeded);
    }
    match v {
        DynValue::Nil => Ok(TreeValue::Null),
        DynValue::Bool(b) => Ok(TreeValue::Bool(*b)),
        DynValue::Int(i) => Ok(TreeValue::Int(*i)),
        DynValue::Num(t) => Ok(TreeValue::Num(t.clone())),
        DynValue::Str(s) => Ok(TreeValue::Str(s.clone())),
        DynValue::Table(entries) => {
            let ghost dentries = entries_deep(entries@);
            let ghost conv = children_conv(dentries, depth as nat);
            assert(v.deep_view() == DynV::Table(dentries));

            // The array heuristic: every key a positive integer, and the
            // largest such key.
            let mut is_arr = true;
            let mut maxi: i64 = 0;
            let mut i: usize = 0;
            while i < entries.len() && is_arr
                invariant
                    i <= entries.len(),
                    dentries == entries_deep(entries@),
                    dentries.len() == entries.len(),
                    is_arr ==> arrayish(dentries.subrange(0, i as int)),
                    is_arr ==> maxi == max_index(dentries.subrange(0, i as int)),
                    !is_arr ==> !arrayish(dentries),
                    maxi >= 0,
                decreases entries.len() - i,
            {
                match &entries[i].0 {
                    DynKey::Int(k) => {
                        if *k > 0 {
                            proof {
                                lemma_max_index_push(
                                    dentries.subrange(0, i as int),
                                    dentries[i as int],
                                );
                                assert(dentries.subrange(0, i + 1 as int) =~= dentries.subrange(
                                    0,
                                    i as int,
                                ).push(dentries[i as int]));
                            }
                            if *k > maxi {
                                maxi = *k;
                            }
                        } else {
                            is_arr = false;
                            assert(!key_is_pos_int(dentries[i as int].0));
                        }
                    },
                    _ => {
                        is_arr = false;
                        assert(!key_is_pos_int(dentries[i as int].0));
                    },
                }
                i += 1;
            }
            proof {
                if is_arr {
                    assert(dentries.subrange(0, dentries.len() as int) =~= dentries);
                }
            }

            if is_arr && maxi > 0 {
                if depth + 1 > MAX_RECURSION_DEPTH {
                    return Err(SandboxError::RecursionLimitExceeded);
                }
                let ghost slots = arr_slots(dentries, conv, maxi as int);
                let mut out: Vec<TreeValue> = Vec::new();
                let mut slot: i64 = 0;
                while slot < maxi
                    invariant
                        0 <= slot <= maxi,
                        maxi >= 1,
                        depth + 1 <= MAX_RECURSION_DEPTH,
                        dentries == entries_deep(entries@),
                        dentries.len() == entries.len(),
                        conv == children_conv(dentries, depth as nat),
                        slots == arr_slots(dentries, conv, maxi as int),
                        out.len() == slot,
                        forall|s: int|
                            0 <= s < slot ==> #[trigger] slots[s] == Ok::<
                                TreeV,
                                SandboxError,
                            >(items_deep(out@)[s]),
                    decreases maxi - slot,
                {
                    let ghost old_out = out@;
                    let key = slot + 1;
                    match find_int_key(entries, key) {
                        Some(j) => {
                            assert(dentries[j as int].1 == entries@[j as int].1.deep_view());
                            assert(conv[j as int] == to_tree(
                                dentries[j as int].1,
                                (depth + 1) as nat,
                            ));
                            assert(slots[slot as int] == conv[j as int]);
                            proof {
                                assert(v->Table_0 == *entries);
                                assert(decreases_to!(*v => v->Table_0));
                                assert(decreases_to!(*entries => entries@));
                                assert(decreases_to!(entries@ => entries@[j as int]));
                                assert(decreases_to!(entries@[j as int] => entries@[j as int].1));
                            }
                            let child = match to_structured(&entries[j].1, depth + 1) {
                                Ok(c) => c,
                                Err(e) => {
                                    proof {
                                        assert(conv[j as int] == Err::<TreeV, SandboxError>(e));
                                        assert(!(slots[slot as int] is Ok));
                                        assert(!results_all_ok(slots));
                                        lemma_to_tree_err(
                                            dentries[j as int].1,
                                            (depth + 1) as nat,
                                        );
                                        assert(e == SandboxError::RecursionLimitExceeded);
                                        assert(max_index(dentries) == maxi as int);
                                        assert(table_to_tree(dentries, conv, depth as nat)
                                            == Err::<TreeV, SandboxError>(e));
                                        assert(to_tree(v.deep_view(), depth as nat) == Err::<
                                            TreeV,
                                            SandboxError,
                                        >(e));
                                    }
                                    return Err(e);
                                },
                            };
                            out.push(child);
                        },
                        None => {
                            assert(slots[slot as int] == Ok::<TreeV, SandboxError>(TreeV::Null));
                            out.push(TreeValue::Null);
                        },
                    }
                    assert forall|s: int| 0 <= s <= slot implies #[trigger] slots[s] == Ok::<
                        TreeV,
                        SandboxError,
                    >(items_deep(out@)[s]) by {
                        assert(items_deep(out@)[s] == out@[s].deep_view());
                        if s < slot {
                            assert(out@[s] == old_out[s]);
                            assert(items_deep(old_out)[s] == old_out[s].deep_view());
                        }
                    }
                    slot += 1;
                }
                proof {
                    assert(results_all_ok(slots));
                    assert(result_vals(slots) =~= items_deep(out@));
                }
                Ok(TreeValue::Arr(out))
            } else {
                // Object branch: only string keys are kept, in table order.
                let ghost pairs = obj_pairs(dentries, conv);
                if depth + 1 > MAX_RECURSION_DEPTH {
                    // Any string-keyed entry would convert its value one
                    // level deeper, past the limit.
                    let mut has_str = false;
                    let mut i: usize = 0;
                    while i < entries.len() && !has_str
                        invariant
                            i <= entries.len(),
                            dentries == entries_deep(entries@),
                            dentries.len() == entries.len(),
                            !has_str ==> obj_pairs(dentries.subrange(0, i as int), conv) =~= Seq::<
                                (Seq<char>, Result<TreeV, SandboxError>),
                            >::empty(),
                            has_str ==> obj_pairs(dentries, conv).len() > 0,
                        decreases entries.len() - i,
                    {
                        proof {
                            lemma_obj_pairs_push(
                                dentries.subrange(0, i as int),
                                conv,
                                dentries[i as int],
                            );
                            assert(dentries.subrange(0, i + 1 as int) =~= dentries.subrange(
                                0,
                                i as int,
                            ).push(dentries[i as int]));
                        }
                        match &entries[i].0 {
                            DynKey::Str(_) => {
                                has_str = true;
                                proof {
                                    lemma_obj_pairs_prefix_len(dentries, conv, i + 1 as int);
                                }
                            },
                            _ => {},
                        }
                        i += 1;
                    }
                    proof {
                        if !has_str {
                            assert(dentries.subrange(0, dentries.len() as int) =~= dentries);
                        }
                    }
                    if has_str {
                        return Err(SandboxError::RecursionLimitExceeded);
                    }
                    assert(pairs.len() == 0);
                    assert(pairs_vals(pairs) =~= Seq::<(Seq<char>, TreeV)>::empty());
                    let empty_obj: Vec<(String, TreeValue)> = Vec::new();
                    assert(pairs_deep(empty_obj@) =~= pairs_vals(pairs));
                    return Ok(TreeValue::Obj(empty_obj));
                }
                let mut out: Vec<(String, TreeValue)> = Vec::new();
                let mut i: usize = 0;
                while i < entries.len()
                    invariant
                        i <= entries.len(),
                        depth + 1 <= MAX_RECURSION_DEPTH,
                        dentries == entries_deep(entries@),
                        dentries.len() == entries.len(),
                        conv == children_conv(dentries, depth as nat),
                        pairs_all_ok(obj_pairs(dentries.subrange(0, i as int), conv)),
                        pairs_vals(obj_pairs(dentries.subrange(0, i as int), conv)) =~= pairs_deep(
                            out@,
                        ),
                    decreases entries.len() - i,
                {
                    let ghost old_out = out@;
                    let ghost prefix_pairs = obj_pairs(dentries.subrange(0, i as int), conv);
                    proof {
                        lemma_obj_pairs_push(
                            dentries.subrange(0, i as int),
                            conv,
                            dentries[i as int],
                        );
                        assert(dentries.subrange(0, i + 1 as int) =~= dentries.subrange(
                            0,
                            i as int,
                        ).push(dentries[i as int]));
                    }
                    match &entries[i].0 {
                        DynKey::Str(s) => {
                            assert(dentries[i as int].1 == entries@[i as int].1.deep_view());
                            assert(conv[i as int] == to_tree(
                                dentries[i as int].1,
                                (depth + 1) as nat,
                            ));
                            assert(dentries[i as int].0 == KeyV::Str(s@));
                            assert(obj_pairs(dentries.subrange(0, i + 1 as int), conv)
                                == prefix_pairs.push((s@, conv[i as int])));
                            proof {
                                assert(v->Table_0 == *entries);
                                assert(decreases_to!(*v => v->Table_0));
                                assert(decreases_to!(*entries => entries@));
                                assert(decreases_to!(entries@ => entries@[i as int]));
                                assert(decreases_to!(entries@[i as int] => entries@[i as int].1));
                            }
                            let child = match to_structured(&entries[i].1, depth + 1) {
                                Ok(c) => c,
                                Err(e) => {
                                    proof {
                                        lemma_obj_pairs_prefix(dentries, conv, i + 1 as int);
                                        let prefix = obj_pairs(
                                            dentries.subrange(0, i + 1 as int),
                                            conv,
                                        );
                                        let bad = prefix.len() - 1;
                                        assert(conv[i as int] == Err::<TreeV, SandboxError>(e));
                                        assert(prefix[bad] == (s@, conv[i as int]));
                                        assert(obj_pairs(dentries, conv)[bad] == prefix[bad]);
                                        assert(!(obj_pairs(dentries, conv)[bad].1 is Ok));
                                        assert(!pairs_all_ok(obj_pairs(dentries, conv)));
                                        lemma_to_tree_err(
                                            dentries[i as int].1,
                                            (depth + 1) as nat,
                                        );
                                        assert(e == SandboxError::RecursionLimitExceeded);
                                        assert(table_to_tree(dentries, conv, depth as nat)
                                            == Err::<TreeV, SandboxError>(e));
                                    }
                                    return Err(e);
                                },
                            };
                            out.push((s.clone(), child));
                            proof {
                                lemma_pairs_vals_push(prefix_pairs, (s@, conv[i as int]));
                                lemma_pairs_deep_push(old_out, (out@.last().0, out@.last().1));
                                assert(out@.drop_last() =~= old_out);
                                assert(out@ =~= old_out.push(out@.last()));
                            }
                            assert(pairs_vals(obj_pairs(dentries.subrange(0, i + 1 as int), conv))
                                =~= pairs_deep(out@));
                        },
                        _ => {
                            assert(obj_pairs(dentries.subrange(0, i + 1 as int), conv)
                                == prefix_pairs);
                        },
                    }
                    i += 1;
                }
                proof {
                    assert(dentries.subrange(0, dentries.len() as int) =~= dentries);
                }
                Ok(TreeValue::Obj(out))
            }
        },
    }
}

/// Every reverse conversion in the sequence succeeded.
pub open spec fn dyn_results_all_ok(rs: Seq<Result<DynV, SandboxError>>) -> bool {
    forall|i: int| 0 <= i < rs.len() ==> (#[trigger] rs[i]) is Ok
}

/// The reverse-converted value, or nil for a failure slot.
pub open spec fn dyn_result_val(r: Result<DynV, SandboxError>) -> DynV {
    match r {
        Ok(v) => v,
        Err(_) => DynV::Nil,
    }
}

/// The error of the first failed conversion in the sequence.
pub open spec fn first_err(rs: Seq<Result<DynV, SandboxError>>) -> SandboxError
    decreases rs.len(),
{
    if rs.len() == 0 {
        SandboxError::RecursionLimitExceeded
    } else {
        match rs[0] {
            Err(e) => e,
            Ok(_) => first_err(rs.drop_first()),
        }
    }
}

/// When every slot before `i` succeeded and slot `i` failed, the first
/// error is the error of slot `i`.
proof fn lemma_first_err(rs: Seq<Result<DynV, SandboxError>>, i: int)
    requires
        0 <= i < rs.len(),
        forall|s: int| 0 <= s < i ==> (#[trigger] rs[s]) is Ok,
        rs[i] is Err,
    ensures
        Err::<DynV, SandboxError>(first_err(rs)) == rs[i],
    decreases i,
{
    if i > 0 {
        let sub = rs.drop_first();
        assert forall|s: int| 0 <= s < i - 1 implies (#[trigger] sub[s]) is Ok by {
            assert(sub[s] == rs[s + 1]);
        }
        assert(sub[i - 1] == rs[i]);
        lemma_first_err(sub, i - 1);
    }
}

/// The reverse conversion of each array item, one level deeper.
pub open spec fn arr_children_dyn(items: Seq<TreeV>, d: nat) -> Seq<Result<DynV, SandboxError>>
    decreases items,
{
    Seq::new(
        items.len(),
        |i: int|
            if 0 <= i < items.len() {
                to_dyn(items[i], (d + 1) as nat)
            } else {
                Err(SandboxError::RecursionLimitExceeded)
            },
    )
}

/// The reverse conversion of each object value, one level deeper.
pub open spec fn obj_children_dyn(pairs: Seq<(Seq<char>, TreeV)>, d: nat) -> Seq<
    Result<DynV, SandboxError>,
>
    decreases pairs,
{
    Seq::new(
        pairs.len(),
        |i: int|
            if 0 <= i < pairs.len() {
                to_dyn(pairs[i].1, (d + 1) as nat)
            } else {
                Err(SandboxError::RecursionLimitExceeded)
            },
    )
}

/// Conversion of a structured value back into the dynamic model: an array
/// becomes a table keyed 1 to its length, an object a table with its string
/// keys in order. It fails exactly where the nesting passes the recursion
/// limit, or where an array is too long for its slots to be numbered by
/// script integers.
pub open spec fn to_dyn(t: TreeV, d: nat) -> Result<DynV, SandboxError>
    decreases t,
{
    if d > MAX_RECURSION_DEPTH {
        Err(SandboxError::RecursionLimitExceeded)
    } else {
        match t {
            TreeV::Null => Ok(DynV::Nil),
            TreeV::Bool(b) => Ok(DynV::Bool(b)),
            TreeV::Int(i) => Ok(DynV::Int(i)),
            TreeV::Num(t) => Ok(DynV::Num(t)),
            TreeV::Str(s) => Ok(DynV::Str(s)),
            TreeV::Arr(items) => {
                if items.len() > i64::MAX {
                    Err(SandboxError::SizeLimitExceeded)
                } else {
                    let conv = arr_children_dyn(items, d);
                    if dyn_results_all_ok(conv) {
                        Ok(
                            DynV::Table(
                                Seq::new(
                                    items.len(),
                                    |i: int| (KeyV::Int(i + 1), dyn_result_val(conv[i])),
                                ),
                            ),
                        )
                    } else {
                        Err(first_err(conv))
                    }
                }
            },
            TreeV::Obj(pairs) => {
                let conv = obj_children_dyn(pairs, d);
                if dyn_results_all_ok(conv) {
                    Ok(
                        DynV::Table(
                            Seq::new(
                                pairs.len(),
                                |i: int| (KeyV::Str(pairs[i].0), dyn_result_val(conv[i])),
                            ),
                        ),
                    )
                } else {
                    Err(first_err(conv))
                }
            },
        }
    }
}

/// Converts a structured value back into the dynamic model, with `depth`
/// the current nesting level; the caller at the boundary passes zero.
#[verifier::loop_isolation(false)]
#[verifier::rlimit(100)]
pub fn to_dynamic(t: &TreeValue, depth: usize) -> (r: Result<DynValue, SandboxError>)
    ensures
        match r {
            Ok(v) => to_dyn(t.deep_view(), depth as nat) == Ok::<DynV, SandboxError>(
                v.deep_view(),
            ),
            Err(e) => to_dyn(t.deep_view(), depth as nat) == Err::<DynV, SandboxError>(e),
        },
    decreases t,
{
    if depth > MAX_RECURSION_DEPTH {
        return Err(SandboxError::RecursionLimitExceeded);
    }
    match t {
        TreeValue::Null => Ok(DynValue::Nil),
        TreeValue::Bool(b) => Ok(DynValue::Bool(*b)),
        TreeValue::Int(i) => Ok(DynValue::Int(*i)),
        TreeValue::Num(t) => Ok(DynValue::Num(t.clone())),
        TreeValue::Str(s) => Ok(DynValue::Str(s.clone())),
        TreeValue::Arr(items) => {
            let ghost ditems = items_deep(items@);
            assert(t.deep_view() == TreeV::Arr(ditems));
            if (items.len() as u64) > (i64::MAX as u64) {
                return Err(SandboxError::SizeLimitExceeded);
            }
            let ghost conv = arr_children_dyn(ditems, depth as nat);
            let mut out: Vec<(DynKey, DynValue)> = Vec::new();
            let mut i: usize = 0;
            while i < items.len()
                invariant
                    i <= items.len(),
                    out.len() == i,
                    forall|s: int|
                        0 <= s < i ==> (#[trigger] conv[s]) is Ok && entries_deep(out@)[s] == (
                            KeyV::Int(s + 1),
                            dyn_result_val(conv[s]),
                        ),
                decreases items.len() - i,
            {
                let ghost old_out = out@;
                assert(ditems[i as int] == items@[i as int].deep_view());
                assert(conv[i as int] == to_dyn(ditems[i as int], (depth + 1) as nat));
                proof {
                    assert(t->Arr_0 == *items);
                    assert(decreases_to!(*t => t->Arr_0));
                    assert(decreases_to!(*items => items@));
                    assert(decreases_to!(items@ => items@[i as int]));
                }
                let child = match to_dynamic(&items[i], depth + 1) {
                    Ok(c) => c,
                    Err(e) => {
                        proof {
                            assert(!(conv[i as int] is Ok));
                            assert(!dyn_results_all_ok(conv));
                            lemma_first_err(conv, i as int);
                        }
                        return Err(e);
                    },
                };
                out.push((DynKey::Int((i as i64) + 1), child));
                assert forall|s: int|
                    0 <= s < i + 1 implies (#[trigger] conv[s]) is Ok && entries_deep(out@)[s]
                    == (KeyV::Int(s + 1), dyn_result_val(conv[s])) by {
                    assert(entries_deep(out@)[s] == (
                        out@[s].0.deep_view(),
                        out@[s].1.deep_view(),
                    ));
                    if s < i {
                        assert(out@[s] == old_out[s]);
                        assert(entries_deep(old_out)[s] == (
                            old_out[s].0.deep_view(),
                            old_out[s].1.deep_view(),
                        ));
                    }
                }
                i += 1;
            }
            proof {
                assert(dyn_results_all_ok(conv));
                assert(entries_deep(out@) =~= Seq::new(
                    ditems.len(),
                    |i: int| (KeyV::Int(i + 1), dyn_result_val(conv[i])),
                ));
            }
            Ok(DynValue::Table(out))
        },
        TreeValue::Obj(pairs) => {
            let ghost dpairs = pairs_deep(pairs@);
            assert(t.deep_view() == TreeV::Obj(dpairs));
            let ghost conv = obj_children_dyn(dpairs, depth as nat);
            let mut out: Vec<(DynKey, DynValue)> = Vec::new();
            let mut i: usize = 0;
            while i < pairs.len()
                invariant
                    i <= pairs.len(),
                    out.len() == i,
                    forall|s: int|
                        0 <= s < i ==> (#[trigger] conv[s]) is Ok && entries_deep(out@)[s] == (
                            KeyV::Str(dpairs[s].0),
                            dyn_result_val(conv[s]),
                        ),
                decreases pairs.len() - i,
            {
                let ghost old_out = out@;
                assert(dpairs[i as int] == (pairs@[i as int].0@, pairs@[i as int].1.deep_view()));
                assert(conv[i as int] == to_dyn(dpairs[i as int].1, (depth + 1) as nat));
                proof {
                    assert(t->Obj_0 == *pairs);
                    assert(decreases_to!(*t => t->Obj_0));
                    assert(decreases_to!(*pairs => pairs@));
                    assert(decreases_to!(pairs@ => pairs@[i as int]));
                    assert(decreases_to!(pairs@[i as int] => pairs@[i as int].1));
                }
                let child = match to_dynamic(&pairs[i].1, depth + 1) {
                    Ok(c) => c,
                    Err(e) => {
                        proof {
                            assert(!(conv[i as int] is Ok));
                            assert(!dyn_results_all_ok(conv));
                            lemma_first_err(conv, i as int);
                        }
                        return Err(e);
                    },
                };
                out.push((DynKey::Str(pairs[i].0.clone()), child));
                assert forall|s: int|
                    0 <= s < i + 1 implies (#[trigger] conv[s]) is Ok && entries_deep(out@)[s]
                    == (KeyV::Str(dpairs[s].0), dyn_result_val(conv[s])) by {
                    assert(entries_deep(out@)[s] == (
                        out@[s].0.deep_view(),
                        out@[s].1.deep_view(),
                    ));
                    if s < i {
                        assert(out@[s] == old_out[s]);
                        assert(entries_deep(old_out)[s] == (
                            old_out[s].0.deep_view(),
                            old_out[s].1.deep_view(),
                        ));
                    }
                }
                i += 1;
            }
            proof {
                assert(dyn_results_all_ok(conv));
                assert(entries_deep(out@) =~= Seq::new(
                    dpairs.len(),
                    |i: int| (KeyV::Str(dpairs[i].0), dyn_result_val(conv[i])),
                ));
            }
            Ok(DynValue::Table(out))
        },
    }
}

/// A structured value that survives the round trip through the dynamic
/// model unchanged: no empty arrays (an empty table reads back as an empty
/// object).
pub open spec fn tree_canonical(t: TreeV) -> bool
    decreases t,
{
    match t {
        TreeV::Null => true,
        TreeV::Bool(_) => true,
        TreeV::Int(_) => true,
        TreeV::Num(_) => true,
        TreeV::Str(_) => true,
        TreeV::Arr(items) => items.len() >= 1 && forall|i: int|
            0 <= i < items.len() ==> tree_canonical(#[trigger] items[i]),
        TreeV::Obj(pairs) => forall|i: int|
            0 <= i < pairs.len() ==> tree_canonical(#[trigger] pairs[i].1),
    }
}

/// A dynamic value that survives the round trip through the structured
/// model unchanged: each table either in array form, keyed exactly 1 to its
/// length in order, or in object form, with string keys only.
pub open spec fn dyn_canonical(v: DynV) -> bool
    decreases v,
{
    match v {
        DynV::Nil => true,
        DynV::Bool(_) => true,
        DynV::Int(_) => true,
        DynV::Num(_) => true,
        DynV::Str(_) => true,
        DynV::Table(entries) => {
            let array_form = entries.len() >= 1 && entries.len() <= i64::MAX && forall|i: int|
                0 <= i < entries.len() ==> (#[trigger] entries[i]).0 == KeyV::Int(i + 1)
                    && dyn_canonical(entries[i].1);
            let object_form = forall|i: int|
                0 <= i < entries.len() ==> (#[trigger] entries[i]).0 is Str && dyn_canonical(
                    entries[i].1,
                );
            array_form || object_form
        },
    }
}

/// A table keyed exactly 1 to its length has that length as its largest key.
proof fn lemma_max_index_range(entries: Seq<(KeyV, DynV)>)
    requires
        forall|i: int| 0 <= i < entries.len() ==> (#[trigger] entries[i]).0 == KeyV::Int(i + 1),
    ensures
        max_index(entries) == entries.len(),
    decreases entries.len(),
{
    if entries.len() > 0 {
        let sub = entries.drop_last();
        assert forall|i: int| 0 <= i < sub.len() implies (#[trigger] sub[i]).0 == KeyV::Int(
            i + 1,
        ) by {
            assert(sub[i] == entries[i]);
        }
        lemma_max_index_range(sub);
    }
}

/// In a table keyed exactly 1 to its length, key `k` is found at `k - 1`.
proof fn lemma_lookup_range(entries: Seq<(KeyV, DynV)>, k: int)
    requires
        forall|i: int| 0 <= i < entries.len() ==> (#[trigger] entries[i]).0 == KeyV::Int(i + 1),
        1 <= k <= entries.len(),
    ensures
        lookup_index(entries, k) == Some(k - 1),
{
    lemma_lookup_index(entries, k);
    assert(entries[k - 1].0 == KeyV::Int(k));
    match lookup_index(entries, k) {
        Some(j) => {
            assert(entries[j].0 == KeyV::Int(j + 1));
        },
        None => {},
    }
}

/// In a table with string keys only, the object pairs are exactly the
/// entries with their conversion results, in order.
proof fn lemma_obj_pairs_all_str(
    entries: Seq<(KeyV, DynV)>,
    conv: Seq<Result<TreeV, SandboxError>>,
)
    requires
        forall|i: int| 0 <= i < entries.len() ==> (#[trigger] entries[i]).0 is Str,
    ensures
        obj_pairs(entries, conv) == Seq::new(
            entries.len(),
            |i: int| (entries[i].0->Str_0, conv[i]),
        ),
    decreases entries.len(),
{
    if entries.len() > 0 {
        let sub = entries.drop_last();
        assert forall|i: int| 0 <= i < sub.len() implies (#[trigger] sub[i]).0 is Str by {
            assert(sub[i] == entries[i]);
        }
        lemma_obj_pairs_all_str(sub, conv);
        assert(sub.push(entries.last()) =~= entries);
        lemma_obj_pairs_push(sub, conv, entries.last());
        assert(obj_pairs(entries, conv) =~= Seq::new(
            entries.len(),
            |i: int| (entries[i].0->Str_0, conv[i]),
        ));
    } else {
        assert(obj_pairs(entries, conv) =~= Seq::new(
            entries.len(),
            |i: int| (entries[i].0->Str_0, conv[i]),
        ));
    }
}

/// Converting a canonical structured value to the dynamic model and back
/// returns it unchanged: the round trip is the identity wherever the
/// outward conversion succeeds.
pub proof fn lemma_tree_round_trip(t: TreeV, d: nat)
    requires
        tree_canonical(t),
        to_dyn(t, d) is Ok,
    ensures
        to_tree(to_dyn(t, d)->Ok_0, d) == Ok::<TreeV, SandboxError>(t),
    decreases t,
{
    assert(d <= MAX_RECURSION_DEPTH);
    match t {
        TreeV::Null => {},
        TreeV::Bool(_) => {},
        TreeV::Int(_) => {},
        TreeV::Num(_) => {},
        TreeV::Str(_) => {},
        TreeV::Arr(items) => {
            let n = items.len() as int;
            let conv = arr_children_dyn(items, d);
            assert(dyn_results_all_ok(conv));
            let tentries = Seq::new(
                items.len(),
                |i: int| (KeyV::Int(i + 1), dyn_result_val(conv[i])),
            );
            assert(to_dyn(t, d)->Ok_0 == DynV::Table(tentries));
            assert(arrayish(tentries));
            assert forall|i: int| 0 <= i < n implies (#[trigger] tentries[i]).0 == KeyV::Int(
                i + 1,
            ) by {}
            lemma_max_index_range(tentries);
            assert(max_index(tentries) == n);
            assert(n >= 1);
            assert(conv[0] is Ok);
            assert(conv[0] == to_dyn(items[0], (d + 1) as nat));
            assert(d + 1 <= MAX_RECURSION_DEPTH);
            let tconv = children_conv(tentries, d);
            let slots = arr_slots(tentries, tconv, n);
            assert forall|i: int| 0 <= i < n implies #[trigger] slots[i] == Ok::<
                TreeV,
                SandboxError,
            >(items[i]) by {
                lemma_lookup_range(tentries, i + 1);
                assert(slots[i] == tconv[i]);
                assert(tentries[i].1 == dyn_result_val(conv[i]));
                assert(tconv[i] == to_tree(dyn_result_val(conv[i]), (d + 1) as nat));
                assert(tree_canonical(items[i]));
                assert(conv[i] == to_dyn(items[i], (d + 1) as nat));
                lemma_tree_round_trip(items[i], (d + 1) as nat);
            }
            assert(results_all_ok(slots));
            assert(result_vals(slots) =~= items);
            assert(table_to_tree(tentries, tconv, d) == Ok::<TreeV, SandboxError>(t));
        },
        TreeV::Obj(pairs) => {
            let n = pairs.len() as int;
            let conv = obj_children_dyn(pairs, d);
            assert(dyn_results_all_ok(conv));
            let tentries = Seq::new(
                pairs.len(),
                |i: int| (KeyV::Str(pairs[i].0), dyn_result_val(conv[i])),
            );
            assert(to_dyn(t, d)->Ok_0 == DynV::Table(tentries));
            assert forall|i: int| 0 <= i < n implies (#[trigger] tentries[i]).0 is Str by {}
            let tconv = children_conv(tentries, d);
            lemma_obj_pairs_all_str(tentries, tconv);
            let tpairs = obj_pairs(tentries, tconv);
            assert(tpairs.len() == n);
            if n >= 1 {
                assert(!key_is_pos_int(tentries[0].0));
                assert(!arrayish(tentries));
                assert(conv[0] is Ok);
                assert(conv[0] == to_dyn(pairs[0].1, (d + 1) as nat));
                assert(d + 1 <= MAX_RECURSION_DEPTH);
            } else {
                assert(max_index(tentries) == 0);
            }
            assert forall|i: int| 0 <= i < n implies (#[trigger] tpairs[i]).1 == Ok::<
                TreeV,
                SandboxError,
            >(pairs[i].1) && tpairs[i].0 == pairs[i].0 by {
                assert(tpairs[i] == (tentries[i].0->Str_0, tconv[i]));
                assert(tentries[i].1 == dyn_result_val(conv[i]));
                assert(tconv[i] == to_tree(dyn_result_val(conv[i]), (d + 1) as nat));
                assert(tree_canonical(pairs[i].1));
                assert(conv[i] == to_dyn(pairs[i].1, (d + 1) as nat));
                lemma_tree_round_trip(pairs[i].1, (d + 1) as nat);
            }
            assert(pairs_all_ok(tpairs));
            assert(pairs_vals(tpairs) =~= pairs);
            assert(table_to_tree(tentries, tconv, d) == Ok::<TreeV, SandboxError>(t));
        },
    }
}

/// Converting a canonical dynamic value to the structured model and back
/// returns it unchanged: the round trip is the identity wherever the
/// inward conversion succeeds.
pub proof fn lemma_dyn_round_trip(v: DynV, d: nat)
    requires
        dyn_canonical(v),
        to_tree(v, d) is Ok,
    ensures
        to_dyn(to_tree(v, d)->Ok_0, d) == Ok::<DynV, SandboxError>(v),
    decreases v,
{
    assert(d <= MAX_RECURSION_DEPTH);
    match v {
        DynV::Nil => {},
        DynV::Bool(_) => {},
        DynV::Int(_) => {},
        DynV::Num(_) => {},
        DynV::Str(_) => {},
        DynV::Table(entries) => {
            let n = entries.len() as int;
            let conv = children_conv(entries, d);
            let array_form = entries.len() >= 1 && entries.len() <= i64::MAX && forall|i: int|
                0 <= i < entries.len() ==> (#[trigger] entries[i]).0 == KeyV::Int(i + 1)
                    && dyn_canonical(entries[i].1);
            if array_form {
                assert(arrayish(entries));
                lemma_max_index_range(entries);
                assert(max_index(entries) == n);
                assert(to_tree(v, d) == table_to_tree(entries, conv, d));
                assert(d + 1 <= MAX_RECURSION_DEPTH);
                let slots = arr_slots(entries, conv, n);
                assert(results_all_ok(slots));
                let items = result_vals(slots);
                assert(to_tree(v, d)->Ok_0 == TreeV::Arr(items));
                assert(items.len() == n);
                let dconv = arr_children_dyn(items, d);
                assert forall|i: int| 0 <= i < n implies #[trigger] dconv[i] == Ok::<
                    DynV,
                    SandboxError,
                >(entries[i].1) by {
                    lemma_lookup_range(entries, i + 1);
                    assert(slots[i] == conv[i]);
                    assert(slots[i] is Ok);
                    assert(items[i] == match slots[i] {
                        Ok(t) => t,
                        Err(_) => TreeV::Null,
                    });
                    assert(conv[i] == to_tree(entries[i].1, (d + 1) as nat));
                    assert(dyn_canonical(entries[i].1));
                    lemma_dyn_round_trip(entries[i].1, (d + 1) as nat);
                    assert(dconv[i] == to_dyn(items[i], (d + 1) as nat));
                }
                assert(dyn_results_all_ok(dconv));
                let back = Seq::new(items.len(), |i: int| (KeyV::Int(i + 1), dyn_result_val(dconv[i])));
                assert(back =~= entries);
            } else {
                assert(dyn_canonical(v));
                assert forall|i: int| 0 <= i < n implies (#[trigger] entries[i]).0 is Str
                    && dyn_canonical(entries[i].1) by {}
                if n >= 1 {
                    assert(!key_is_pos_int(entries[0].0));
                    assert(!arrayish(entries));
                } else {
                    assert(max_index(entries) == 0);
                }
                assert(to_tree(v, d) == table_to_tree(entries, conv, d));
                lemma_obj_pairs_all_str(entries, conv);
                let tpairs = obj_pairs(entries, conv);
                assert(tpairs.len() == n);
                assert(pairs_all_ok(tpairs));
                let opairs = pairs_vals(tpairs);
                assert(to_tree(v, d)->Ok_0 == TreeV::Obj(opairs));
                if n >= 1 {
                    assert(tpairs[0].1 == conv[0]);
                    assert(conv[0] is Ok);
                    assert(conv[0] == to_tree(entries[0].1, (d + 1) as nat));
                    assert(d + 1 <= MAX_RECURSION_DEPTH);
                }
                let dconv = obj_children_dyn(opairs, d);
                assert forall|i: int| 0 <= i < n implies #[trigger] dconv[i] == Ok::<
                    DynV,
                    SandboxError,
                >(entries[i].1) by {
                    assert(tpairs[i] == (entries[i].0->Str_0, conv[i]));
                    assert(opairs[i] == (
                        entries[i].0->Str_0,
                        match conv[i] {
                            Ok(t) => t,
                            Err(_) => TreeV::Null,
                        },
                    ));
                    assert(conv[i] is Ok);
                    assert(conv[i] == to_tree(entries[i].1, (d + 1) as nat));
                    assert(dyn_canonical(entries[i].1));
                    lemma_dyn_round_trip(entries[i].1, (d + 1) as nat);
                    assert(dconv[i] == to_dyn(opairs[i].1, (d + 1) as nat));
                }
                assert(dyn_results_all_ok(dconv));
                let back = Seq::new(opairs.len(), |i: int| (KeyV::Str(opairs[i].0), dyn_result_val(dconv[i])));
                assert forall|i: int| 0 <= i < n implies #[trigger] back[i] == entries[i] by {
                    assert(entries[i].0 is Str);
                    assert(entries[i] == (entries[i].0, entries[i].1));
                }
                assert(back =~= entries);
            }
        },
    }
}

/// An explicit deep copy; the model of the copy equals the model of the
/// original.
#[verifier::loop_isolation(false)]
pub fn clone_tree(t: &TreeValue) -> (r: TreeValue)
    ensures
        r.deep_view() == t.deep_view(),
    decreases t,
{
    match t {
        TreeValue::Null => TreeValue::Null,
        TreeValue::Bool(b) => TreeValue::Bool(*b),
        TreeValue::Int(i) => TreeValue::Int(*i),
        TreeValue::Num(txt) => TreeValue::Num(txt.clone()),
        TreeValue::Str(s) => TreeValue::Str(s.clone()),
        TreeValue::Arr(items) => {
            let mut out: Vec<TreeValue> = Vec::new();
            let mut i: usize = 0;
            while i < items.len()
                invariant
                    i <= items.len(),
                    out.len() == i,
                    forall|s: int| 0 <= s < i ==> items_deep(out@)[s] == items_deep(items@)[s],
                decreases items.len() - i,
            {
                let ghost old_out = out@;
                proof {
                    assert(t->Arr_0 == *items);
                    assert(decreases_to!(*t => t->Arr_0));
                    assert(decreases_to!(*items => items@));
                    assert(decreases_to!(items@ => items@[i as int]));
                }
                let c = clone_tree(&items[i]);
                out.push(c);
                assert forall|s: int| 0 <= s < i + 1 implies items_deep(out@)[s] == items_deep(
                    items@,
                )[s] by {
                    if s < i {
                        assert(out@[s] == old_out[s]);
                        assert(items_deep(old_out)[s] == old_out[s].deep_view());
                    }
                }
                i += 1;
            }
            assert(items_deep(out@) =~= items_deep(items@));
            TreeValue::Arr(out)
        },
        TreeValue::Obj(pairs) => {
            let mut out: Vec<(String, TreeValue)> = Vec::new();
            let mut i: usize = 0;
            while i < pairs.len()
                invariant
                    i <= pairs.len(),
                    out.len() == i,
                    forall|s: int| 0 <= s < i ==> pairs_deep(out@)[s] == pairs_deep(pairs@)[s],
                decreases pairs.len() - i,
            {
                let ghost old_out = out@;
                proof {
                    assert(t->Obj_0 == *pairs);
                    assert(decreases_to!(*t => t->Obj_0));
                    assert(decreases_to!(*pairs => pairs@));
                    assert(decreases_to!(pairs@ => pairs@[i as int]));
                    assert(decreases_to!(pairs@[i as int] => pairs@[i as int].1));
                }
                let c = clone_tree(&pairs[i].1);
                out.push((pairs[i].0.clone(), c));
                assert forall|s: int| 0 <= s < i + 1 implies pairs_deep(out@)[s] == pairs_deep(
                    pairs@,
                )[s] by {
                    if s < i {
                        assert(out@[s] == old_out[s]);
                        assert(pairs_deep(old_out)[s] == (old_out[s].0@, old_out[s].1.deep_view()));
                    }
                }
                i += 1;
            }
            assert(pairs_deep(out@) =~= pairs_deep(pairs@));
            TreeValue::Obj(out)
        },
    }
}

/// Some node of the value sits more than `k` container levels down: the
/// value itself when `k` is negative, or a child of an array or object
/// more than `k - 1` levels down.
pub open spec fn tree_nests_past(t: TreeV, k: int) -> bool
    decreases t,
{
    k < 0 || (match t {
        TreeV::Arr(items) => exists|i: int|
            0 <= i < items.len() && tree_nests_past(#[trigger] items[i], k - 1),
        TreeV::Obj(pairs) => exists|i: int|
            0 <= i < pairs.len() && tree_nests_past((#[trigger] pairs[i]).1, k - 1),
        _ => false,
    })
}

/// The depth bound in general: a structured value that nests past the
/// remaining budget never converts back to the dynamic model — the
/// conversion fails rather than building a partial result, whatever the
/// shape of the value.
pub proof fn lemma_to_dyn_deep_nesting(t: TreeV, d: nat)
    requires
        tree_nests_past(t, MAX_RECURSION_DEPTH - d),
    ensures
        to_dyn(t, d) is Err,
    decreases t,
{
    if d > MAX_RECURSION_DEPTH {
    } else {
        let k = MAX_RECURSION_DEPTH - d;
        match t {
            TreeV::Arr(items) => {
                if items.len() > i64::MAX {
                } else {
                    let i = choose|i: int|
                        0 <= i < items.len() && tree_nests_past(#[trigger] items[i], k - 1);
                    lemma_to_dyn_deep_nesting(items[i], (d + 1) as nat);
                    let conv = arr_children_dyn(items, d);
                    assert(conv[i] == to_dyn(items[i], (d + 1) as nat));
                    assert(!(conv[i] is Ok));
                    assert(!dyn_results_all_ok(conv));
                }
            },
            TreeV::Obj(pairs) => {
                let i = choose|i: int|
                    0 <= i < pairs.len() && tree_nests_past((#[trigger] pairs[i]).1, k - 1);
                lemma_to_dyn_deep_nesting(pairs[i].1, (d + 1) as nat);
                let conv = obj_children_dyn(pairs, d);
                assert(conv[i] == to_dyn(pairs[i].1, (d + 1) as nat));
                assert(!(conv[i] is Ok));
                assert(!dyn_results_all_ok(conv));
            },
            _ => {},
        }
    }
}

} // verus!
