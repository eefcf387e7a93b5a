//! The logging namespace's one rule: debug output is a privilege, the
//! other severities are always available — informational, warning and
//! error lines are operationally necessary even for low-trust plugins.

use vstd::prelude::*;

use crate::permissions::{spec_has_permission, PermissionSet};

verus! {

/// A log severity of the namespace.
#[derive(Debug, Clone, Copy, PartialEq, Eq, Structural)]
pub enum LogLevel {
    Debug,
    Info,
    Warn,
    Error,
}

/// Whether a line of this severity is emitted: debug only under the `log`
/// grant, everything else always.
pub open spec fn spec_log_allowed(perms: Seq<Seq<char>>, level: LogLevel) -> bool {
    level != LogLevel::Debug || spec_has_permission(perms, "log"@)
}

/// Whether a line of this severity is emitted for this plugin.
pub fn log_allowed(perms: &PermissionSet, level: LogLevel) -> (r: bool)
    ensures
        r == spec_log_allowed(perms@, level),
{
    proof {
        reveal_strlit("log");
    }
    match level {
        LogLevel::Debug => perms.contains("log"),
        _ => true,
    }
}

} // verus!
