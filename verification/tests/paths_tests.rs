use myterm::errors::SupervisorError;
use myterm::paths::{
    is_backup_bundle, has_app_extension, resolve_primary_app_bundle_path, backup_bundle_path,
    find_app_bundle_path,
};
use myterm::restart::{restart_target, restart_gate, RestartState};

#[test]
fn backup_bundles_are_recognised_by_their_suffix() {
    assert!(is_backup_bundle("/Applications/MyTerm.app.old"));
    assert!(!is_backup_bundle("/Applications/MyTerm.app"));
    assert!(!is_backup_bundle("/Applications/MyTerm.old"));
    assert!(!is_backup_bundle(""));
}

#[test]
fn app_extension_requires_a_stem() {
    assert!(has_app_extension("/Applications/MyTerm.app"));
    assert!(has_app_extension("MyTerm.app"));
    assert!(!has_app_extension("/Applications/.app"));
    assert!(!has_app_extension(".app"));
    assert!(!has_app_extension("/Applications/MyTerm.app.old"));
}

#[test]
fn primary_path_of_a_backup_loses_the_old_suffix() {
    assert_eq!(
        resolve_primary_app_bundle_path("/Applications/MyTerm.app.old"),
        "/Applications/MyTerm.app"
    );
    assert_eq!(
        resolve_primary_app_bundle_path("/Applications/MyTerm.app"),
        "/Applications/MyTerm.app"
    );
}

#[test]
fn backup_path_appends_the_old_suffix() {
    assert_eq!(backup_bundle_path("/Applications/MyTerm.app"), "/Applications/MyTerm.app.old");
}

#[test]
fn bundle_is_found_among_the_executable_ancestors() {
    let r = find_app_bundle_path("/Applications/MyTerm.app/Contents/MacOS/myterm");
    assert_eq!(r.unwrap(), "/Applications/MyTerm.app");
}

#[test]
fn backup_bundle_ancestor_is_found_too() {
    let r = find_app_bundle_path("/tmp/MyTerm.app.old/Contents/MacOS/myterm");
    assert_eq!(r.unwrap(), "/tmp/MyTerm.app.old");
}

#[test]
fn missing_bundle_is_reported() {
    let r = find_app_bundle_path("/usr/local/bin/myterm");
    assert_eq!(r.unwrap_err(), SupervisorError::BundleNotFound);
}

#[test]
fn restart_target_normalises_a_backup_launch() {
    let (app, backup) = restart_target("/tmp/MyTerm.app.old/Contents/MacOS/myterm").unwrap();
    assert_eq!(app, "/tmp/MyTerm.app");
    assert_eq!(backup, "/tmp/MyTerm.app.old");
    let (app, backup) = restart_target("/tmp/MyTerm.app/Contents/MacOS/myterm").unwrap();
    assert_eq!(app, "/tmp/MyTerm.app");
    assert_eq!(backup, "/tmp/MyTerm.app.old");
}

#[test]
fn restart_without_a_bundle_or_new_app_is_refused() {
    assert_eq!(
        restart_target("/usr/bin/whatever").unwrap_err(),
        SupervisorError::BundleNotFound
    );
    assert_eq!(restart_gate(false), Err(SupervisorError::BundleNotFound));
    assert_eq!(restart_gate(true), Ok(()));
}

#[test]
fn restart_flag_is_initially_clear_and_sticks_once_set() {
    let mut state = RestartState::new();
    assert!(!state.should_skip_cleanup());
    state.mark_update_restart();
    assert!(state.should_skip_cleanup());
}
