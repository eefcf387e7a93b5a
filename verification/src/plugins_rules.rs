//! The decision logic of the sibling-plugin namespace: read-only
//! introspection of other plugins' manifests and files, each access still
//! jailed — the sibling's identifier must be a plain directory name under
//! the shared plugins root, and every file path is validated against that
//! sibling's own directory. The host lists, reads and writes only on an
//! issued plan.

use vstd::prelude::*;

use crate::errors::SandboxError;
use crate::fs_rules::MAX_FILE_SIZE;
use crate::jail::{spec_absolute, spec_has_traversal, spec_join, validate_lexical};
use crate::storage::{find_key, spec_get};
use crate::value::{pairs_deep, TreeV, TreeValue};

verus! {

/// A path argument is absolute or traverses upward.
pub open spec fn spec_bad_path(p: Seq<char>) -> bool {
    spec_absolute(p) || spec_has_traversal(p)
}

/// The plan for reaching a sibling plugin's directory: its identifier is
/// validated like any jailed path and joined under the plugins root.
pub fn plan_plugin_dir(plugins_root: &str, target_id: &str) -> (r: Result<String, SandboxError>)
    ensures
        match r {
            Err(e) => e == SandboxError::InvalidPath && spec_bad_path(target_id@),
            Ok(p) => !spec_bad_path(target_id@) && p@ == spec_join(plugins_root@, target_id@),
        },
{
    validate_lexical(plugins_root, target_id)
}

/// The plan for one file under a sibling plugin: both hops through the
/// jail, the identifier against the plugins root and the relative path
/// against the sibling's directory.
pub fn plan_plugin_file(plugins_root: &str, target_id: &str, relative: &str) -> (r: Result<
    String,
    SandboxError,
>)
    ensures
        match r {
            Err(e) => e == SandboxError::InvalidPath && (spec_bad_path(target_id@)
                || spec_bad_path(relative@)),
            Ok(p) => !spec_bad_path(target_id@) && !spec_bad_path(relative@) && p@ == spec_join(
                spec_join(plugins_root@, target_id@),
                relative@,
            ),
        },
{
    let dir = validate_lexical(plugins_root, target_id)?;
    validate_lexical(dir.as_str(), relative)
}

/// The plan for writing a sibling plugin's file: the content quota first,
/// as the namespace checks it, then both jail hops.
pub fn plan_plugin_write(
    plugins_root: &str,
    target_id: &str,
    relative: &str,
    content_len: usize,
) -> (r: Result<String, SandboxError>)
    ensures
        match r {
            Err(e) => (e == SandboxError::SizeLimitExceeded && content_len > MAX_FILE_SIZE) || (
            e == SandboxError::InvalidPath && content_len <= MAX_FILE_SIZE && (spec_bad_path(
                target_id@,
            ) || spec_bad_path(relative@))),
            Ok(p) => content_len <= MAX_FILE_SIZE && !spec_bad_path(target_id@)
                && !spec_bad_path(relative@) && p@ == spec_join(
                spec_join(plugins_root@, target_id@),
                relative@,
            ),
        },
{
    if content_len as u64 > MAX_FILE_SIZE {
        return Err(SandboxError::SizeLimitExceeded);
    }
    plan_plugin_file(plugins_root, target_id, relative)
}

/// What a plugin listing shows of one manifest: identifier, name and
/// version, each present exactly when the manifest object stores it as a
/// string.
pub struct ManifestSummary {
    pub id: Option<String>,
    pub name: Option<String>,
    pub version: Option<String>,
}

/// The string stored under a key of the manifest object, if the manifest
/// is an object and the member a string.
pub open spec fn spec_manifest_str(m: TreeV, key: Seq<char>) -> Option<Seq<char>> {
    match m {
        TreeV::Obj(ps) => match spec_get(ps, key) {
            Some(TreeV::Str(s)) => Some(s),
            _ => None,
        },
        _ => None,
    }
}

/// Reads one string member of a manifest object.
fn manifest_str(m: &TreeValue, key: &str) -> (r: Option<String>)
    ensures
        match r {
            Some(s) => spec_manifest_str(m.deep_view(), key@) == Some(s@),
            None => spec_manifest_str(m.deep_view(), key@) is None,
        },
{
    match m {
        TreeValue::Obj(pairs) => {
            assert(m.deep_view() == TreeV::Obj(pairs_deep(pairs@)));
            match find_key(pairs, key) {
                Some(j) => match &pairs[j].1 {
                    TreeValue::Str(s) => {
                        assert(pairs_deep(pairs@)[j as int].1 == pairs@[j as int].1.deep_view());
                        Some(s.clone())
                    },
                    _ => {
                        assert(pairs_deep(pairs@)[j as int].1 == pairs@[j as int].1.deep_view());
                        None
                    },
                },
                None => None,
            }
        },
        _ => None,
    }
}

/// Projects what the listing shows out of a parsed manifest.
pub fn manifest_summary(manifest: &TreeValue) -> (r: ManifestSummary)
    ensures
        (match r.id {
            Some(s) => spec_manifest_str(manifest.deep_view(), "id"@) == Some(s@),
            None => spec_manifest_str(manifest.deep_view(), "id"@) is None,
        }),
        (match r.name {
            Some(s) => spec_manifest_str(manifest.deep_view(), "name"@) == Some(s@),
            None => spec_manifest_str(manifest.deep_view(), "name"@) is None,
        }),
        (match r.version {
            Some(s) => spec_manifest_str(manifest.deep_view(), "version"@) == Some(s@),
            None => spec_manifest_str(manifest.deep_view(), "version"@) is None,
        }),
{
    ManifestSummary {
        id: manifest_str(manifest, "id"),
        name: manifest_str(manifest, "name"),
        version: manifest_str(manifest, "version"),
    }
}

} // verus!
