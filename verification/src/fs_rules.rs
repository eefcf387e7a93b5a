//! The decision logic of the filesystem namespace: scope selection,
//! capability checks, the file size quota, and the lexical stage of the
//! path jail. The host performs the actual reads and writes only on a plan
//! this module has issued, so a missing grant or an invalid path can have
//! no side effect.

use vstd::prelude::*;

use crate::errors::SandboxError;
use crate::jail::{spec_absolute, spec_has_traversal, spec_join, validate_lexical};
use crate::permissions::{spec_has_permission, PermissionSet};
use crate::text::str_eq;

verus! {

/// The largest file the namespace reads or writes, in bytes.
pub const MAX_FILE_SIZE: u64 = 10485760;

/// Which sandbox root a call addresses.
#[derive(Debug, Clone, Copy, PartialEq, Eq, Structural)]
pub enum FsScope {
    /// The plugin's own data directory.
    Data,
    /// The managed server's directory.
    Server,
    /// The directory shared by all plugins.
    Global,
}

/// The scope a scope name denotes, if any.
pub open spec fn spec_scope_of(s: Seq<char>) -> Option<FsScope> {
    if s == "data"@ {
        Some(FsScope::Data)
    } else if s == "server"@ {
        Some(FsScope::Server)
    } else if s == "global"@ {
        Some(FsScope::Global)
    } else {
        None
    }
}

/// The scoped permission token of a scope.
pub open spec fn spec_scope_permission(scope: FsScope) -> Seq<char> {
    match scope {
        FsScope::Data => "fs.data"@,
        FsScope::Server => "fs.server"@,
        FsScope::Global => "fs.global"@,
    }
}

/// Reads a scope name; an unknown name is the invalid-scope error.
pub fn parse_scope(name: &str) -> (r: Result<FsScope, SandboxError>)
    ensures
        match r {
            Ok(s) => spec_scope_of(name@) == Some(s),
            Err(e) => e == SandboxError::InvalidScope && spec_scope_of(name@) is None,
        },
{
    if str_eq(name, "data") {
        Ok(FsScope::Data)
    } else if str_eq(name, "server") {
        Ok(FsScope::Server)
    } else if str_eq(name, "global") {
        Ok(FsScope::Global)
    } else {
        Err(SandboxError::InvalidScope)
    }
}

/// The scoped permission token of a scope.
pub fn scope_permission(scope: FsScope) -> (r: &'static str)
    ensures
        r@ == spec_scope_permission(scope),
{
    match scope {
        FsScope::Data => "fs.data",
        FsScope::Server => "fs.server",
        FsScope::Global => "fs.global",
    }
}

/// A call on the scope is authorized when its scoped token, or the bare
/// `fs` superset, was granted.
pub open spec fn spec_fs_authorized(perms: Seq<Seq<char>>, scope: FsScope) -> bool {
    spec_has_permission(perms, spec_scope_permission(scope))
}

/// The plan for one path-taking filesystem call: the scope-selected root
/// joined with the validated relative path. The host still finishes the
/// jail against canonical forms before touching the file.
pub fn plan_path_op(perms: &PermissionSet, scope: FsScope, root: &str, relative: &str) -> (r:
    Result<String, SandboxError>)
    ensures
        match r {
            Err(e) => (e == SandboxError::PermissionDenied && !spec_fs_authorized(
                perms@,
                scope,
            )) || (e == SandboxError::InvalidPath && spec_fs_authorized(perms@, scope) && (
            spec_absolute(relative@) || spec_has_traversal(relative@))),
            Ok(j) => spec_fs_authorized(perms@, scope) && !spec_absolute(relative@)
                && !spec_has_traversal(relative@) && j@ == spec_join(root@, relative@),
        },
{
    if !perms.contains(scope_permission(scope)) {
        return Err(SandboxError::PermissionDenied);
    }
    validate_lexical(root, relative)
}

/// The plan for a write: the capability first, then the content quota,
/// then the path, in that order; nothing may be created on any failure.
pub fn plan_write(
    perms: &PermissionSet,
    scope: FsScope,
    root: &str,
    relative: &str,
    content_len: usize,
) -> (r: Result<String, SandboxError>)
    ensures
        match r {
            Err(e) => (e == SandboxError::PermissionDenied && !spec_fs_authorized(
                perms@,
                scope,
            )) || (e == SandboxError::SizeLimitExceeded && spec_fs_authorized(perms@, scope)
                && content_len > MAX_FILE_SIZE) || (e == SandboxError::InvalidPath
                && spec_fs_authorized(perms@, scope) && content_len <= MAX_FILE_SIZE && (
            spec_absolute(relative@) || spec_has_traversal(relative@))),
            Ok(j) => spec_fs_authorized(perms@, scope) && content_len <= MAX_FILE_SIZE
                && !spec_absolute(relative@) && !spec_has_traversal(relative@) && j@
                == spec_join(root@, relative@),
        },
{
    if !perms.contains(scope_permission(scope)) {
        return Err(SandboxError::PermissionDenied);
    }
    if content_len as u64 > MAX_FILE_SIZE {
        return Err(SandboxError::SizeLimitExceeded);
    }
    validate_lexical(root, relative)
}

/// The read-side quota, checked against the file's metadata before the
/// host reads it.
pub fn check_read_size(file_len: u64) -> (r: Result<(), SandboxError>)
    ensures
        match r {
            Ok(_) => file_len <= MAX_FILE_SIZE,
            Err(e) => e == SandboxError::SizeLimitExceeded && file_len > MAX_FILE_SIZE,
        },
{
    if file_len > MAX_FILE_SIZE {
        Err(SandboxError::SizeLimitExceeded)
    } else {
        Ok(())
    }
}

/// The plan for `get_path`: the scope's root is revealed only under the
/// matching grant.
pub fn plan_get_path(perms: &PermissionSet, scope: FsScope, root: &str) -> (r: Result<
    String,
    SandboxError,
>)
    ensures
        match r {
            Err(e) => e == SandboxError::PermissionDenied && !spec_fs_authorized(perms@, scope),
            Ok(p) => spec_fs_authorized(perms@, scope) && p@ == root@,
        },
{
    if !perms.contains(scope_permission(scope)) {
        return Err(SandboxError::PermissionDenied);
    }
    Ok(root.to_owned())
}

/// A namespace gate with no path: the required token must be granted.
pub fn authorize_namespace(perms: &PermissionSet, required: &str) -> (r: Result<
    (),
    SandboxError,
>)
    ensures
        match r {
            Ok(_) => spec_has_permission(perms@, required@),
            Err(e) => e == SandboxError::PermissionDenied && !spec_has_permission(
                perms@,
                required@,
            ),
        },
{
    if perms.contains(required) {
        Ok(())
    } else {
        Err(SandboxError::PermissionDenied)
    }
}

/// The value of one base64 digit, as a character.
pub open spec fn spec_b64_char(n: int) -> char {
    if n < 26 {
        ((65 + n) as u32) as char
    } else if n < 52 {
        ((97 + (n - 26)) as u32) as char
    } else if n < 62 {
        ((48 + (n - 52)) as u32) as char
    } else if n == 62 {
        '+'
    } else {
        '/'
    }
}

/// The standard base64 form of a byte run, with padding.
pub open spec fn spec_base64(bs: Seq<u8>) -> Seq<char>
    decreases bs.len(),
{
    if bs.len() == 0 {
        Seq::empty()
    } else if bs.len() == 1 {
        let b0 = bs[0] as int;
        seq![spec_b64_char(b0 / 4), spec_b64_char((b0 % 4) * 16), '=', '=']
    } else if bs.len() == 2 {
        let b0 = bs[0] as int;
        let b1 = bs[1] as int;
        seq![
            spec_b64_char(b0 / 4),
            spec_b64_char((b0 % 4) * 16 + b1 / 16),
            spec_b64_char((b1 % 16) * 4),
            '=',
        ]
    } else {
        let b0 = bs[0] as int;
        let b1 = bs[1] as int;
        let b2 = bs[2] as int;
        seq![
            spec_b64_char(b0 / 4),
            spec_b64_char((b0 % 4) * 16 + b1 / 16),
            spec_b64_char((b1 % 16) * 4 + b2 / 64),
            spec_b64_char(b2 % 64),
        ] + spec_base64(bs.skip(3))
    }
}

/// Relies on `base64::engine::general_purpose::STANDARD` and
/// `base64::Engine::encode`: the standard alphabet with padding, three
/// bytes to four digits.
#[verifier::external_body]
pub fn encode_base64(bytes: &Vec<u8>) -> (r: String)
    ensures
        r@ == spec_base64(bytes@),
{
    base64::Engine::encode(&base64::engine::general_purpose::STANDARD, bytes)
}

} // verus!
