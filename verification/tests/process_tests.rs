use sea_lantern::errors::SandboxError;
use sea_lantern::permissions::PermissionSet;
use sea_lantern::process_rules::{plan_exec, ProcessRegistry};

#[test]
fn a_registered_process_is_visible_until_deregistered() {
    let mut reg = ProcessRegistry::new();
    reg.register(41, String::from("bin/tool"));
    reg.register(42, String::from("bin/other"));
    assert!(reg.contains(41));
    assert_eq!(reg.pids(), vec![41, 42]);
    assert_eq!(reg.program_of(42), Some(String::from("bin/other")));
    assert!(reg.deregister(41));
    assert!(!reg.contains(41));
    assert!(!reg.deregister(41));
    assert_eq!(reg.pids(), vec![42]);
}

#[test]
fn reusing_a_pid_replaces_the_stale_entry() {
    let mut reg = ProcessRegistry::new();
    reg.register(7, String::from("old"));
    reg.register(7, String::from("new"));
    assert_eq!(reg.pids(), vec![7]);
    assert_eq!(reg.program_of(7), Some(String::from("new")));
}

#[test]
fn output_is_buffered_and_drained_once() {
    let mut reg = ProcessRegistry::new();
    reg.register(9, String::from("p"));
    assert_eq!(reg.take_output(9, &vec![]), None);
    assert_eq!(reg.take_output(9, &b"hello".to_vec()), Some(b"hello".to_vec()));
    assert_eq!(reg.take_output(9, &vec![]), None);
    assert_eq!(reg.take_output(5, &b"x".to_vec()), None);
}

#[test]
fn teardown_clears_every_process() {
    let mut reg = ProcessRegistry::new();
    reg.register(1, String::from("a"));
    reg.register(2, String::from("b"));
    reg.clear();
    assert!(reg.pids().is_empty());
}

#[test]
fn spawning_needs_the_execute_grant() {
    let none = PermissionSet::new(vec![]);
    assert_eq!(
        plan_exec(&none, "/plugins/demo", "bin/tool", None),
        Err(SandboxError::PermissionDenied)
    );
}

#[test]
fn the_program_and_working_directory_stay_jailed() {
    let p = PermissionSet::new(vec![String::from("execute_program")]);
    assert_eq!(
        plan_exec(&p, "/plugins/demo", "../tool", None),
        Err(SandboxError::InvalidPath)
    );
    assert_eq!(
        plan_exec(&p, "/plugins/demo", "bin/tool", Some("../cwd")),
        Err(SandboxError::InvalidPath)
    );
    assert_eq!(
        plan_exec(&p, "/plugins/demo", "bin/tool", Some("work")),
        Ok((String::from("/plugins/demo/bin/tool"), Some(String::from("/plugins/demo/work"))))
    );
    assert_eq!(
        plan_exec(&p, "/plugins/demo", "bin/tool", None),
        Ok((String::from("/plugins/demo/bin/tool"), None))
    );
}
