use myterm::errors::SupervisorError;
use myterm::registry::{ProcessRegistry, process_key};
use myterm::supervise::{start_process, write_to_process};
use myterm::shutdown::stop_process;

#[test]
fn process_key_joins_path_and_name() {
    assert_eq!(process_key("/home/me/proj", "web"), "/home/me/proj::web");
}

#[test]
fn start_twice_on_same_identity_is_rejected() {
    let mut reg = ProcessRegistry::new();
    let first = start_process(&mut reg, "/p", "web");
    assert_eq!(first, Ok("/p::web".to_string()));
    let second = start_process(&mut reg, "/p", "web");
    assert_eq!(second, Err(SupervisorError::AlreadyRunning));
}

#[test]
fn start_of_distinct_identities_is_admitted() {
    let mut reg = ProcessRegistry::new();
    assert!(start_process(&mut reg, "/p", "web").is_ok());
    assert!(start_process(&mut reg, "/p", "worker").is_ok());
    assert!(start_process(&mut reg, "/q", "web").is_ok());
}

#[test]
fn identity_is_free_again_after_removal() {
    let mut reg = ProcessRegistry::new();
    let key = start_process(&mut reg, "/p", "web").unwrap();
    reg.remove(&key);
    assert!(start_process(&mut reg, "/p", "web").is_ok());
}

#[test]
fn stop_on_never_registered_identity_is_not_running() {
    let mut reg = ProcessRegistry::new();
    let r = stop_process(&mut reg, "/p", "ghost");
    assert_eq!(r.unwrap_err(), SupervisorError::NotRunning);
}

#[test]
fn write_on_never_started_identity_is_not_running() {
    let reg = ProcessRegistry::new();
    let r = write_to_process(&reg, "/p", "web");
    assert_eq!(r, Err(SupervisorError::NotRunning));
}

#[test]
fn write_on_registered_but_not_spawned_identity_is_stdin_unavailable() {
    let mut reg = ProcessRegistry::new();
    start_process(&mut reg, "/p", "web").unwrap();
    let r = write_to_process(&reg, "/p", "web");
    assert_eq!(r, Err(SupervisorError::StdinUnavailable));
}

#[test]
fn write_on_spawned_identity_is_allowed_until_stdin_clears() {
    let mut reg = ProcessRegistry::new();
    let key = start_process(&mut reg, "/p", "web").unwrap();
    reg.record_spawn(&key, 4242);
    assert_eq!(write_to_process(&reg, "/p", "web"), Ok(()));
    reg.clear_stdin(&key);
    assert_eq!(write_to_process(&reg, "/p", "web"), Err(SupervisorError::StdinUnavailable));
}

#[test]
fn record_spawn_populates_pid_and_stdin() {
    let mut reg = ProcessRegistry::new();
    let key = start_process(&mut reg, "/p", "web").unwrap();
    let before = reg.get(&key).unwrap();
    assert_eq!(before.pid, 0);
    assert!(!before.stdin_open);
    reg.record_spawn(&key, 777);
    let after = reg.get(&key).unwrap();
    assert_eq!(after.pid, 777);
    assert!(after.stdin_open);
}

#[test]
fn drain_all_flags_everyone_and_reports_live_groups() {
    let mut reg = ProcessRegistry::new();
    let a = start_process(&mut reg, "/p", "a").unwrap();
    let b = start_process(&mut reg, "/p", "b").unwrap();
    let c = start_process(&mut reg, "/p", "c").unwrap();
    let d = start_process(&mut reg, "/p", "d").unwrap();
    reg.record_spawn(&a, 11);
    reg.record_spawn(&b, 22);
    reg.record_spawn(&c, 33);
    // d never spawned: pid stays 0 and must not be reported.
    let pgids = reg.drain_all();
    assert_eq!(pgids.len(), 3);
    assert!(pgids.contains(&11));
    assert!(pgids.contains(&22));
    assert!(pgids.contains(&33));
    assert!(!pgids.contains(&0));
    for key in [&a, &b, &c, &d] {
        assert!(reg.get(key).unwrap().stop_requested);
    }
}
