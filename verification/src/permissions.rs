//! The capability grant evaluated before every namespaced call.
//!
//! A permission is a string token from a fixed vocabulary. The bare `fs`
//! grant is a superset that satisfies any scoped `fs.*` check.

use vstd::prelude::*;

use crate::text::{spec_starts_with, starts_with_chars, str_eq};

verus! {

/// A scoped filesystem permission: `fs.` followed by at least one character.
pub open spec fn is_scoped_fs(required: Seq<char>) -> bool {
    required.len() > 3 && spec_starts_with(required, "fs."@)
}

/// The grant `granted` satisfies the requirement `required`: either the
/// exact token was granted, or `required` is a scoped `fs.*` token and the
/// bare `fs` superset was granted.
pub open spec fn spec_satisfies(granted: Seq<char>, required: Seq<char>) -> bool {
    granted == required || (is_scoped_fs(required) && granted == "fs"@)
}

/// The permission set holds some grant satisfying `required`.
pub open spec fn spec_has_permission(perms: Seq<Seq<char>>, required: Seq<char>) -> bool {
    exists|i: int| 0 <= i < perms.len() && spec_satisfies(perms[i], required)
}

/// The immutable set of capability tokens granted to one plugin runtime,
/// fixed at load time from the plugin manifest.
pub struct PermissionSet {
    granted: Vec<String>,
}

impl View for PermissionSet {
    type V = Seq<Seq<char>>;

    closed spec fn view(&self) -> Seq<Seq<char>> {
        self.granted@.map_values(|g: String| g@)
    }
}

impl PermissionSet {
    /// Grants are taken as-is from the manifest; duplicates are harmless.
    pub fn new(granted: Vec<String>) -> (r: PermissionSet)
        ensures
            r@ == granted@.map_values(|g: String| g@),
    {
        PermissionSet { granted }
    }

    /// The central capability check: every namespaced call begins here.
    /// A scoped `fs.*` requirement is also satisfied by the bare `fs` grant.
    pub fn contains(&self, required: &str) -> (r: bool)
        ensures
            r == spec_has_permission(self@, required@),
    {
        let scoped = starts_with_chars(required, "fs.") && required.unicode_len() > 3;
        proof {
            reveal_strlit("fs.");
        }
        let mut i: usize = 0;
        while i < self.granted.len()
            invariant
                i <= self.granted.len(),
                scoped == is_scoped_fs(required@),
                forall|j: int| 0 <= j < i ==> !spec_satisfies(self@[j], required@),
            decreases self.granted.len() - i,
        {
            let g = &self.granted[i];
            if str_eq(g.as_str(), required) {
                assert(spec_satisfies(self@[i as int], required@));
                return true;
            }
            if scoped && str_eq(g.as_str(), "fs") {
                proof {
                    reveal_strlit("fs");
                    assert(spec_satisfies(self@[i as int], required@));
                }
                return true;
            }
            i += 1;
        }
        false
    }
}

} // verus!
