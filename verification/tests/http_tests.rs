use sea_lantern::errors::SandboxError;
use sea_lantern::http_rules::{
    admit_body_len, admit_content_length, clamp_timeout, plan_request, BodyArg,
};
use sea_lantern::permissions::PermissionSet;
use sea_lantern::value::{DynKey, DynValue};

fn net_perms() -> PermissionSet {
    PermissionSet::new(vec![String::from("network")])
}

#[test]
fn a_request_needs_the_network_grant() {
    let none = PermissionSet::new(vec![]);
    let r = plan_request(&none, "https://example.com/", BodyArg::Empty, vec![], None);
    assert!(matches!(r, Err(SandboxError::PermissionDenied)));
}

#[test]
fn unsafe_urls_are_refused_before_any_request() {
    let p = net_perms();
    for url in ["http://127.0.0.1/", "ftp://example.com/", "http://localhost/x"] {
        let r = plan_request(&p, url, BodyArg::Empty, vec![], None);
        assert!(matches!(r, Err(SandboxError::SsrfRejected)), "{}", url);
    }
}

#[test]
fn the_timeout_is_clamped_into_range() {
    assert_eq!(clamp_timeout(None), 30);
    assert_eq!(clamp_timeout(Some(0)), 1);
    assert_eq!(clamp_timeout(Some(301)), 300);
    assert_eq!(clamp_timeout(Some(300)), 300);
    assert_eq!(clamp_timeout(Some(1)), 1);
    let p = net_perms();
    let plan = plan_request(&p, "https://example.com/", BodyArg::Empty, vec![], Some(500))
        .unwrap();
    assert_eq!(plan.timeout_secs, 300);
}

#[test]
fn a_table_body_is_sent_as_json_and_tagged() {
    let p = net_perms();
    let body = BodyArg::Table(DynValue::Table(vec![(
        DynKey::Str(String::from("a")),
        DynValue::Int(1),
    )]));
    let plan = plan_request(&p, "https://example.com/", body, vec![], None).unwrap();
    assert_eq!(plan.body, b"{\"a\":1}".to_vec());
    assert_eq!(plan.headers, vec![(
        String::from("Content-Type"),
        String::from("application/json"),
    )]);
}

#[test]
fn a_caller_content_type_is_kept_whatever_its_case() {
    let p = net_perms();
    let body = BodyArg::Table(DynValue::Table(vec![]));
    let given = vec![(String::from("CONTENT-TYPE"), String::from("text/plain"))];
    let plan = plan_request(&p, "https://example.com/", body, given.clone(), None).unwrap();
    assert_eq!(plan.headers, given);
}

#[test]
fn a_text_body_is_sent_verbatim_and_untagged() {
    let p = net_perms();
    let plan = plan_request(
        &p,
        "https://example.com/",
        BodyArg::Text(String::from("raw=1&x=2")),
        vec![],
        None,
    )
    .unwrap();
    assert_eq!(plan.body, b"raw=1&x=2".to_vec());
    assert!(plan.headers.is_empty());
}

#[test]
fn the_response_quota_is_five_mib() {
    let limit: u64 = 5 * 1024 * 1024;
    assert_eq!(admit_content_length(Some(limit)), Ok(()));
    assert_eq!(admit_content_length(Some(limit + 1)), Err(SandboxError::SizeLimitExceeded));
    assert_eq!(admit_content_length(None), Ok(()));
    assert_eq!(admit_body_len(limit), Ok(()));
    assert_eq!(admit_body_len(limit + 1), Err(SandboxError::SizeLimitExceeded));
}
