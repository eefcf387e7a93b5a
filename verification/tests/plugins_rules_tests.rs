use sea_lantern::errors::SandboxError;
use sea_lantern::plugins_rules::{
    manifest_summary, plan_plugin_dir, plan_plugin_file, plan_plugin_write,
};
use sea_lantern::value::TreeValue;

#[test]
fn sibling_identifiers_go_through_the_jail() {
    assert_eq!(
        plan_plugin_dir("/plugins", "demo"),
        Ok(String::from("/plugins/demo"))
    );
    assert_eq!(
        plan_plugin_dir("/plugins", "../outside"),
        Err(SandboxError::InvalidPath)
    );
    assert_eq!(plan_plugin_dir("/plugins", "/abs"), Err(SandboxError::InvalidPath));
}

#[test]
fn sibling_files_go_through_both_hops() {
    assert_eq!(
        plan_plugin_file("/plugins", "demo", "conf/a.txt"),
        Ok(String::from("/plugins/demo/conf/a.txt"))
    );
    assert_eq!(
        plan_plugin_file("/plugins", "demo", "../b"),
        Err(SandboxError::InvalidPath)
    );
    assert_eq!(
        plan_plugin_file("/plugins", "a/../b", "x"),
        Err(SandboxError::InvalidPath)
    );
}

#[test]
fn sibling_writes_respect_the_file_quota() {
    let eleven_mib: usize = 11 * 1024 * 1024;
    assert_eq!(
        plan_plugin_write("/plugins", "demo", "x", eleven_mib),
        Err(SandboxError::SizeLimitExceeded)
    );
    assert!(plan_plugin_write("/plugins", "demo", "x", 5).is_ok());
}

#[test]
fn the_listing_projects_string_members_only() {
    let manifest = TreeValue::Obj(vec![
        (String::from("id"), TreeValue::Str(String::from("demo"))),
        (String::from("name"), TreeValue::Str(String::from("Demo"))),
        (String::from("version"), TreeValue::Int(3)),
    ]);
    let s = manifest_summary(&manifest);
    assert_eq!(s.id, Some(String::from("demo")));
    assert_eq!(s.name, Some(String::from("Demo")));
    assert_eq!(s.version, None);

    let not_an_object = TreeValue::Str(String::from("nope"));
    let s = manifest_summary(&not_an_object);
    assert_eq!(s.id, None);
}
