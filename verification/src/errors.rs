//! The sandbox error taxonomy. Security-boundary violations raise one of
//! these and abort the call; expected runtime failures (an unreachable host,
//! a missing UI element) are reported as sentinel values instead and never
//! use this type.

use vstd::prelude::*;

verus! {

/// One error class per security boundary.
#[derive(Clone, Copy, Debug, PartialEq, Eq, Structural)]
pub enum SandboxError {
    /// The capability required by the call was not granted.
    PermissionDenied,
    /// The path is absolute or contains a parent-directory component.
    InvalidPath,
    /// The path resolves outside the sandbox root.
    EscapesSandbox,
    /// The filesystem scope name is not `data`, `server` or `global`.
    InvalidScope,
    /// A file, response, key, value or record limit was exceeded.
    SizeLimitExceeded,
    /// Value conversion nested beyond the recursion limit.
    RecursionLimitExceeded,
    /// The outbound URL targets a non-HTTP scheme or a private address.
    SsrfRejected,
}

/// The stable label of each error class.
pub open spec fn spec_label(e: SandboxError) -> Seq<char> {
    match e {
        SandboxError::PermissionDenied => "PermissionDenied"@,
        SandboxError::InvalidPath => "InvalidPath"@,
        SandboxError::EscapesSandbox => "EscapesSandbox"@,
        SandboxError::InvalidScope => "InvalidScope"@,
        SandboxError::SizeLimitExceeded => "SizeLimitExceeded"@,
        SandboxError::RecursionLimitExceeded => "RecursionLimitExceeded"@,
        SandboxError::SsrfRejected => "SsrfRejected"@,
    }
}

impl SandboxError {
    /// A stable label for logs and script-visible error strings.
    pub fn label(&self) -> (r: &'static str)
        ensures
            r@ == spec_label(*self),
    {
        match self {
            SandboxError::PermissionDenied => "PermissionDenied",
            SandboxError::InvalidPath => "InvalidPath",
            SandboxError::EscapesSandbox => "EscapesSandbox",
            SandboxError::InvalidScope => "InvalidScope",
            SandboxError::SizeLimitExceeded => "SizeLimitExceeded",
            SandboxError::RecursionLimitExceeded => "RecursionLimitExceeded",
            SandboxError::SsrfRejected => "SsrfRejected",
        }
    }
}

} // verus!
