use sea_lantern::semver::{PluginDependency, SemVer};

fn v(text: &str) -> SemVer {
    SemVer::parse(text).unwrap()
}

#[test]
fn plain_versions_parse() {
    let p = v("1.2.3");
    assert_eq!((p.major, p.minor, p.patch, p.prerelease), (1, 2, 3, None));
    let p = v("v2.0.1");
    assert_eq!((p.major, p.minor, p.patch), (2, 0, 1));
    let p = v("  1.4.0  ");
    assert_eq!((p.major, p.minor, p.patch), (1, 4, 0));
}

#[test]
fn short_versions_fill_with_zero() {
    let p = v("3");
    assert_eq!((p.major, p.minor, p.patch), (3, 0, 0));
    let p = v("3.9");
    assert_eq!((p.major, p.minor, p.patch), (3, 9, 0));
}

#[test]
fn a_prerelease_runs_to_the_next_dot() {
    let p = v("1.2.3-rc.1");
    assert_eq!((p.major, p.minor, p.patch), (1, 2, 3));
    assert_eq!(p.prerelease, Some(String::from("rc")));
}

#[test]
fn unreadable_versions_are_refused() {
    assert_eq!(SemVer::parse(""), None);
    assert_eq!(SemVer::parse("abc"), None);
    assert_eq!(SemVer::parse("v"), None);
    assert_eq!(SemVer::parse(".1.2"), None);
}

#[test]
fn comparison_requirements() {
    assert!(v("1.2.3").satisfies(">=1.2.0"));
    assert!(!v("1.1.9").satisfies(">=1.2.0"));
    assert!(v("1.2.1").satisfies(">1.2.0"));
    assert!(!v("1.2.0").satisfies(">1.2.0"));
    assert!(v("1.2.0").satisfies("<=1.2.0"));
    assert!(v("1.1.0").satisfies("<1.2.0"));
    assert!(v("1.2.0").satisfies("=1.2.0"));
    assert!(v("1.2.0").satisfies("1.2.0"));
    assert!(!v("1.2.1").satisfies("1.2.0"));
}

#[test]
fn caret_requirements_track_the_leading_nonzero_part() {
    assert!(v("1.9.9").satisfies("^1.2.3"));
    assert!(!v("2.0.0").satisfies("^1.2.3"));
    assert!(!v("1.2.2").satisfies("^1.2.3"));
    assert!(v("0.3.9").satisfies("^0.3.1"));
    assert!(!v("0.4.0").satisfies("^0.3.1"));
    assert!(v("0.0.5").satisfies("^0.0.5"));
    assert!(!v("0.0.6").satisfies("^0.0.5"));
}

#[test]
fn tilde_requirements_pin_major_and_minor() {
    assert!(v("1.2.9").satisfies("~1.2.3"));
    assert!(!v("1.3.0").satisfies("~1.2.3"));
    assert!(!v("1.2.2").satisfies("~1.2.3"));
}

#[test]
fn a_prerelease_sorts_before_its_release() {
    assert!(!v("1.0.0-alpha").satisfies(">=1.0.0"));
    assert!(v("1.0.0").satisfies(">1.0.0-alpha"));
}

#[test]
fn dependencies_accept_matching_installed_versions() {
    let bare = PluginDependency::Simple(String::from("core"));
    assert_eq!(bare.id(), "core");
    assert_eq!(bare.version_requirement(), None);
    assert!(bare.is_satisfied_by("whatever"));

    let pinned = PluginDependency::WithVersion {
        id: String::from("core"),
        version: Some(String::from(">=1.2.0")),
    };
    assert_eq!(pinned.id(), "core");
    assert_eq!(pinned.version_requirement(), Some(">=1.2.0"));
    assert!(pinned.is_satisfied_by("1.3.0"));
    assert!(!pinned.is_satisfied_by("1.1.0"));
    assert!(!pinned.is_satisfied_by("garbage"));

    let open = PluginDependency::WithVersion { id: String::from("core"), version: None };
    assert!(open.is_satisfied_by("0.0.1"));
}
