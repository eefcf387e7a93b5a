use sea_lantern::errors::SandboxError;
use sea_lantern::jail::{is_contained, rejoin_checked, validate_lexical};

#[test]
fn parent_components_are_rejected_everywhere() {
    for p in [
        "..",
        "../x",
        "a/../b",
        "a/..",
        "a\\..\\b",
        "../../../../etc/passwd",
        "does/not/exist/../x",
    ] {
        assert_eq!(validate_lexical("/root", p), Err(SandboxError::InvalidPath), "{}", p);
    }
}

#[test]
fn dotted_names_are_not_traversal() {
    assert!(validate_lexical("/root", "..a").is_ok());
    assert!(validate_lexical("/root", "a..").is_ok());
    assert!(validate_lexical("/root", "a..b/c").is_ok());
    assert!(validate_lexical("/root", "...").is_ok());
}

#[test]
fn absolute_paths_are_rejected_for_any_root() {
    for p in ["/etc/passwd", "\\windows", "C:\\x", "C:", "/"] {
        assert_eq!(validate_lexical("/root", p), Err(SandboxError::InvalidPath), "{}", p);
        assert_eq!(validate_lexical("", p), Err(SandboxError::InvalidPath), "{}", p);
    }
}

#[test]
fn valid_paths_join_onto_the_root() {
    assert_eq!(validate_lexical("/root", "a/b.txt"), Ok(String::from("/root/a/b.txt")));
    assert_eq!(validate_lexical("/root/", "a"), Ok(String::from("/root/a")));
    assert_eq!(validate_lexical("", "a"), Ok(String::from("a")));
}

#[test]
fn containment_respects_component_boundaries() {
    assert!(is_contained("/root/a", "/root"));
    assert!(is_contained("/root", "/root"));
    assert!(is_contained("/root/a/b", "/root/a"));
    assert!(!is_contained("/rootx", "/root"));
    assert!(!is_contained("/roo", "/root"));
    assert!(is_contained("/a", "/"));
}

#[test]
fn rejoin_keeps_new_paths_under_the_root() {
    let suffix = vec![String::from("b"), String::from("c.txt")];
    let joined = rejoin_checked("/root", "/root/a", &suffix).unwrap();
    assert_eq!(joined, String::from("/root/a/b/c.txt"));
    assert!(is_contained(&joined, "/root"));
}

#[test]
fn rejoin_rejects_an_escaped_ancestor() {
    let suffix = vec![String::from("b")];
    assert_eq!(
        rejoin_checked("/root", "/elsewhere", &suffix),
        Err(SandboxError::EscapesSandbox)
    );
}

#[test]
fn rejoin_rejects_malformed_components() {
    assert_eq!(
        rejoin_checked("/root", "/root", &vec![String::from("a/b")]),
        Err(SandboxError::InvalidPath)
    );
    assert_eq!(
        rejoin_checked("/root", "/root", &vec![String::new()]),
        Err(SandboxError::InvalidPath)
    );
}
