use sea_lantern::errors::SandboxError;
use sea_lantern::fs_rules::{
    authorize_namespace, check_read_size, parse_scope, plan_get_path, plan_path_op, plan_write,
    FsScope,
};
use sea_lantern::permissions::PermissionSet;

fn perms(list: &[&str]) -> PermissionSet {
    PermissionSet::new(list.iter().map(|s| String::from(*s)).collect())
}

#[test]
fn test_fs_permission_denied() {
    let p = perms(&[]);
    assert_eq!(
        plan_write(&p, FsScope::Data, "/data", "test.txt", 7),
        Err(SandboxError::PermissionDenied)
    );
    assert_eq!(
        plan_path_op(&p, FsScope::Data, "/data", "test.txt"),
        Err(SandboxError::PermissionDenied)
    );
}

#[test]
fn test_fs_data_permission_only() {
    let p = perms(&["fs.data"]);
    assert!(plan_write(&p, FsScope::Data, "/data", "test.txt", 7).is_ok());
    assert_eq!(
        plan_write(&p, FsScope::Server, "/srv", "test.txt", 7),
        Err(SandboxError::PermissionDenied)
    );
}

#[test]
fn test_fs_server_permission() {
    let p = perms(&["fs.server"]);
    assert!(plan_write(&p, FsScope::Server, "/srv", "test.txt", 7).is_ok());
}

#[test]
fn test_fs_global_permission() {
    let p = perms(&["fs.global"]);
    assert!(plan_write(&p, FsScope::Global, "/global", "test.txt", 7).is_ok());
}

#[test]
fn test_fs_backward_compatibility() {
    let p = perms(&["fs"]);
    assert!(plan_write(&p, FsScope::Data, "/data", "test.txt", 25).is_ok());
    assert!(plan_write(&p, FsScope::Server, "/srv", "test.txt", 25).is_ok());
    assert!(plan_write(&p, FsScope::Global, "/global", "test.txt", 25).is_ok());
}

#[test]
fn test_fs_invalid_scope() {
    assert_eq!(parse_scope("invalid"), Err(SandboxError::InvalidScope));
    assert_eq!(parse_scope("data"), Ok(FsScope::Data));
    assert_eq!(parse_scope("server"), Ok(FsScope::Server));
    assert_eq!(parse_scope("global"), Ok(FsScope::Global));
}

#[test]
fn test_fs_get_path_data() {
    let p = perms(&["fs.data"]);
    assert_eq!(plan_get_path(&p, FsScope::Data, "/plugins/demo/data"), Ok(String::from(
        "/plugins/demo/data"
    )));
}

#[test]
fn test_fs_get_path_server() {
    let p = perms(&["fs.server"]);
    assert_eq!(plan_get_path(&p, FsScope::Server, "/servers/main"), Ok(String::from(
        "/servers/main"
    )));
    assert_eq!(
        plan_get_path(&perms(&["fs.data"]), FsScope::Server, "/servers/main"),
        Err(SandboxError::PermissionDenied)
    );
}

#[test]
fn test_fs_get_path_global() {
    let p = perms(&["fs.global"]);
    assert_eq!(plan_get_path(&p, FsScope::Global, "/global"), Ok(String::from("/global")));
}

#[test]
fn test_fs_write_large_file() {
    let p = perms(&["fs.data"]);
    let eleven_mib: usize = 11 * 1024 * 1024;
    assert_eq!(
        plan_write(&p, FsScope::Data, "/data", "large.txt", eleven_mib),
        Err(SandboxError::SizeLimitExceeded)
    );
    let ten_mib: usize = 10 * 1024 * 1024;
    assert!(plan_write(&p, FsScope::Data, "/data", "large.txt", ten_mib).is_ok());
}

#[test]
fn test_fs_read_large_file() {
    let eleven_mib: u64 = 11 * 1024 * 1024;
    assert_eq!(check_read_size(eleven_mib), Err(SandboxError::SizeLimitExceeded));
    assert_eq!(check_read_size(10 * 1024 * 1024), Ok(()));
}

#[test]
fn a_write_plan_never_leaves_the_jail() {
    let p = perms(&["fs.data"]);
    assert_eq!(
        plan_write(&p, FsScope::Data, "/data", "../escape.txt", 1),
        Err(SandboxError::InvalidPath)
    );
    assert_eq!(
        plan_write(&p, FsScope::Data, "/data", "/abs.txt", 1),
        Err(SandboxError::InvalidPath)
    );
    assert_eq!(
        plan_write(&p, FsScope::Data, "/data", "a/b.txt", 1),
        Ok(String::from("/data/a/b.txt"))
    );
}

#[test]
fn every_namespace_needs_its_grant() {
    let none = perms(&[]);
    for required in ["storage", "network", "execute_program", "ui", "element", "log"] {
        assert_eq!(
            authorize_namespace(&none, required),
            Err(SandboxError::PermissionDenied),
            "{}",
            required
        );
    }
    let granted = perms(&["storage"]);
    assert_eq!(authorize_namespace(&granted, "storage"), Ok(()));
}

#[test]
fn the_bare_fs_grant_covers_every_scope_but_nothing_else() {
    let p = perms(&["fs"]);
    assert!(plan_path_op(&p, FsScope::Data, "/d", "x").is_ok());
    assert!(plan_path_op(&p, FsScope::Server, "/s", "x").is_ok());
    assert!(plan_path_op(&p, FsScope::Global, "/g", "x").is_ok());
    assert_eq!(authorize_namespace(&p, "network"), Err(SandboxError::PermissionDenied));
}
