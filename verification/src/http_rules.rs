//! The decision logic of the network namespace: the capability gate, the
//! SSRF gate, option reading, body encoding and the response size quota.
//! The host builds and sends the actual request only from a plan issued
//! here, so a missing grant or a refused URL can cause no traffic.

use vstd::prelude::*;

use crate::errors::SandboxError;
use crate::json_out::{json_bytes, json_encode};
use crate::net_guard::{is_unsafe, spec_url_unsafe};
use crate::permissions::{spec_has_permission, PermissionSet};
use crate::text::{lower_ascii, spec_lower, str_eq};
use crate::value::{to_structured, to_tree, DynValue};

verus! {

/// The largest response body accepted, in bytes.
pub const MAX_RESPONSE_SIZE: u64 = 5242880;

/// The default request timeout, in seconds.
pub const DEFAULT_TIMEOUT_SECS: u64 = 30;

/// The body a script hands to a request call.
pub enum BodyArg {
    /// No body.
    Empty,
    /// A string sent as-is.
    Text(String),
    /// A table sent as JSON, tagging the content type unless the caller
    /// set one.
    Table(DynValue),
}

/// The timeout used for a request: the caller's value clamped into
/// `[1, 300]` seconds, the default when none was given.
pub open spec fn spec_clamp_timeout(t: Option<u64>) -> u64 {
    match t {
        Some(v) => if v < 1 {
            1
        } else if v > 300 {
            300
        } else {
            v
        },
        None => DEFAULT_TIMEOUT_SECS as u64,
    }
}

/// Some header name equals `content-type`, compared without case.
pub open spec fn spec_has_content_type(headers: Seq<(Seq<char>, Seq<char>)>) -> bool {
    exists|i: int| 0 <= i < headers.len() && spec_lower((#[trigger] headers[i]).0) == "content-type"@
}

/// The timeout used for a request.
pub fn clamp_timeout(t: Option<u64>) -> (r: u64)
    ensures
        r == spec_clamp_timeout(t),
{
    match t {
        Some(v) => if v < 1 {
            1
        } else if v > 300 {
            300
        } else {
            v
        },
        None => DEFAULT_TIMEOUT_SECS,
    }
}

/// Whether some header already names the content type.
#[verifier::loop_isolation(false)]
pub fn has_content_type(headers: &Vec<(String, String)>) -> (r: bool)
    ensures
        r == spec_has_content_type(headers.deep_view()),
{
    let ghost dh = headers.deep_view();
    let mut i: usize = 0;
    while i < headers.len()
        invariant
            i <= headers.len(),
            dh == headers.deep_view(),
            dh.len() == headers.len(),
            forall|j: int| 0 <= j < i ==> spec_lower((#[trigger] dh[j]).0) != "content-type"@,
        decreases headers.len() - i,
    {
        let lowered = lower_ascii(headers[i].0.as_str());
        assert(dh[i as int].0 == headers@[i as int].0@);
        if str_eq(lowered.as_str(), "content-type") {
            return true;
        }
        i += 1;
    }
    false
}

/// A fully decided outbound request.
pub struct HttpPlan {
    /// The already-screened URL.
    pub url: String,
    /// The headers to send, with the JSON content type appended when the
    /// body is a table and the caller set none.
    pub headers: Vec<(String, String)>,
    /// The timeout in seconds, clamped.
    pub timeout_secs: u64,
    /// The body bytes; empty for bodiless requests.
    pub body: Vec<u8>,
}

/// What the body bytes must be for each body argument, when conversion
/// succeeds.
pub open spec fn spec_body_bytes(body: BodyArg) -> Seq<u8> {
    match body {
        BodyArg::Empty => Seq::empty(),
        BodyArg::Text(s) => vstd::utf8::encode_utf8(s@),
        BodyArg::Table(v) => match to_tree(v.deep_view(), 0) {
            Ok(t) => json_bytes(t),
            Err(_) => Seq::empty(),
        },
    }
}

/// The table body failed to convert.
pub open spec fn spec_body_fails(body: BodyArg) -> bool {
    match body {
        BodyArg::Table(v) => to_tree(v.deep_view(), 0) is Err,
        _ => false,
    }
}

/// Decides one outbound request: the network capability, then the SSRF
/// gate, then options and body. On success every field of the plan is
/// pinned; on failure no request may be made.
pub fn plan_request(
    perms: &PermissionSet,
    url: &str,
    body: BodyArg,
    headers: Vec<(String, String)>,
    timeout: Option<u64>,
) -> (r: Result<HttpPlan, SandboxError>)
    ensures
        match r {
            Err(e) => (e == SandboxError::PermissionDenied && !spec_has_permission(
                perms@,
                "network"@,
            )) || (e == SandboxError::SsrfRejected && spec_has_permission(perms@, "network"@)
                && spec_url_unsafe(url@)) || (e == SandboxError::RecursionLimitExceeded
                && spec_has_permission(perms@, "network"@) && !spec_url_unsafe(url@)
                && spec_body_fails(body)),
            Ok(p) => spec_has_permission(perms@, "network"@) && !spec_url_unsafe(url@)
                && !spec_body_fails(body) && p.url@ == url@ && p.timeout_secs
                == spec_clamp_timeout(timeout) && p.body@ == spec_body_bytes(body) && (
            p.headers.deep_view() == if (body is Table && !spec_has_content_type(
                headers.deep_view(),
            )) {
                headers.deep_view().push(("Content-Type"@, "application/json"@))
            } else {
                headers.deep_view()
            }),
        },
{
    proof {
        reveal_strlit("network");
    }
    if !perms.contains("network") {
        return Err(SandboxError::PermissionDenied);
    }
    if is_unsafe(url) {
        return Err(SandboxError::SsrfRejected);
    }
    let is_table = match &body {
        BodyArg::Table(_) => true,
        _ => false,
    };
    let body_bytes: Vec<u8> = match &body {
        BodyArg::Empty => Vec::new(),
        BodyArg::Text(s) => s.as_str().as_bytes_vec(),
        BodyArg::Table(v) => {
            match to_structured(v, 0) {
                Ok(t) => json_encode(&t),
                Err(e) => {
                    assert(e == SandboxError::RecursionLimitExceeded) by {
                        crate::value::lemma_to_tree_err(v.deep_view(), 0);
                    }
                    return Err(e);
                },
            }
        },
    };
    proof {
        match &body {
            BodyArg::Empty => {
                assert(body_bytes@ =~= spec_body_bytes(body));
            },
            _ => {},
        }
    }
    let mut out_headers = headers;
    let ghost base_headers = out_headers.deep_view();
    if is_table && !has_content_type(&out_headers) {
        let ghost before = out_headers@;
        out_headers.push((String::from_str("Content-Type"), String::from_str(
            "application/json",
        )));
        proof {
            assert(out_headers.deep_view() =~= base_headers.push(
                ("Content-Type"@, "application/json"@),
            ));
        }
    }
    let timeout_secs = clamp_timeout(timeout);
    Ok(HttpPlan { url: url.to_owned(), headers: out_headers, timeout_secs, body: body_bytes })
}

/// The early response gate: a declared length over the quota is refused
/// before the body is read.
pub fn admit_content_length(content_length: Option<u64>) -> (r: Result<(), SandboxError>)
    ensures
        match r {
            Ok(_) => match content_length {
                Some(l) => l <= MAX_RESPONSE_SIZE,
                None => true,
            },
            Err(e) => e == SandboxError::SizeLimitExceeded && (content_length matches Some(l)
                && l > MAX_RESPONSE_SIZE),
        },
{
    match content_length {
        Some(l) => if l > MAX_RESPONSE_SIZE {
            Err(SandboxError::SizeLimitExceeded)
        } else {
            Ok(())
        },
        None => Ok(()),
    }
}

/// The late response gate: the received byte count is held to the quota.
pub fn admit_body_len(len: u64) -> (r: Result<(), SandboxError>)
    ensures
        match r {
            Ok(_) => len <= MAX_RESPONSE_SIZE,
            Err(e) => e == SandboxError::SizeLimitExceeded && len > MAX_RESPONSE_SIZE,
        },
{
    if len > MAX_RESPONSE_SIZE {
        Err(SandboxError::SizeLimitExceeded)
    } else {
        Ok(())
    }
}

} // verus!
