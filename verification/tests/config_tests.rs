use myterm::errors::SupervisorError;
use myterm::config::{
    config_path_candidates, find_existing_config_path, config_file_to_read, config_file_to_write,
    detect_project_name, parse_procfile, guess_processes,
    load_project_config, init_project_config, detect_package_manager, node_command, script_choice,
    PackageManager, ScriptKind, path_join,
};

#[test]
fn candidates_are_the_two_accepted_file_names_in_order() {
    let v = config_path_candidates("/home/me/proj");
    assert_eq!(v, vec!["/home/me/proj/myterm.yml", "/home/me/proj/myterm.yaml"]);
}

#[test]
fn path_join_handles_trailing_slashes_and_empty_dirs() {
    assert_eq!(path_join("/a/b", "f"), "/a/b/f");
    assert_eq!(path_join("/a/b/", "f"), "/a/b/f");
    assert_eq!(path_join("", "f"), "f");
}

#[test]
fn first_existing_candidate_wins() {
    assert_eq!(find_existing_config_path("/p", true, true), Some("/p/myterm.yml".to_string()));
    assert_eq!(find_existing_config_path("/p", false, true), Some("/p/myterm.yaml".to_string()));
    assert_eq!(find_existing_config_path("/p", false, false), None);
}

#[test]
fn read_target_fails_without_a_config_file() {
    assert_eq!(config_file_to_read("/p", false, false), Err(SupervisorError::ConfigMissing));
    assert_eq!(config_file_to_read("/p", false, true), Ok("/p/myterm.yaml".to_string()));
}

#[test]
fn write_target_defaults_to_the_yml_name() {
    assert_eq!(config_file_to_write("/p", false, false), "/p/myterm.yml");
    assert_eq!(config_file_to_write("/p", false, true), "/p/myterm.yaml");
    assert_eq!(config_file_to_write("/p", true, true), "/p/myterm.yml");
}

#[test]
fn project_name_is_the_last_path_component() {
    assert_eq!(detect_project_name("/home/me/proj"), "proj");
    assert_eq!(detect_project_name("/home/me/proj/"), "proj");
    assert_eq!(detect_project_name("proj"), "proj");
    assert_eq!(detect_project_name(""), "project");
    assert_eq!(detect_project_name("///"), "project");
}

#[test]
fn procfile_lines_become_processes() {
    let contents = "web: npm start\n# a comment\n\nworker:  run worker  \nbroken line\n: no name\nname-only:\n";
    let v = parse_procfile(contents);
    assert_eq!(v.len(), 2);
    assert_eq!(v[0].name, "web");
    assert_eq!(v[0].command, "npm start");
    assert!(!v[0].autostart);
    assert!(v[0].autorestart);
    assert_eq!(v[1].name, "worker");
    assert_eq!(v[1].command, "run worker");
}

#[test]
fn procfile_with_entries_wins_the_guess() {
    let v = guess_processes(Some("api: cargo run\n"), Some("{\"scripts\":{\"dev\":\"x\"}}"),
        false, false, false);
    assert_eq!(v.len(), 1);
    assert_eq!(v[0].name, "api");
    assert_eq!(v[0].command, "cargo run");
}

#[test]
fn manifest_dev_script_is_guessed_under_the_lock_files_manager() {
    let pj = "{\"scripts\": {\"dev\": \"vite\", \"start\": \"node .\"}}";
    let v = guess_processes(None, Some(pj), true, false, false);
    assert_eq!(v.len(), 1);
    assert_eq!(v[0].name, "dev");
    assert_eq!(v[0].command, "pnpm dev");
    assert!(v[0].autorestart);

    let v = guess_processes(None, Some(pj), false, true, false);
    assert_eq!(v[0].command, "yarn dev");
    let v = guess_processes(None, Some(pj), false, false, true);
    assert_eq!(v[0].command, "bun run dev");
    let v = guess_processes(None, Some(pj), false, false, false);
    assert_eq!(v[0].command, "npm run dev");
}

#[test]
fn manifest_with_only_start_uses_the_start_script() {
    let pj = "{\"scripts\": {\"start\": \"node server.js\"}}";
    let v = guess_processes(None, Some(pj), false, false, false);
    assert_eq!(v.len(), 1);
    assert_eq!(v[0].name, "start");
    assert_eq!(v[0].command, "npm start");
}

#[test]
fn nothing_to_guess_yields_the_placeholder() {
    let v = guess_processes(None, None, false, false, false);
    assert_eq!(v.len(), 1);
    assert_eq!(v[0].name, "dev");
    assert_eq!(v[0].command, "echo 'Edit myterm.yml to add processes' && sleep 2");
    assert!(!v[0].autostart);
    assert!(!v[0].autorestart);
    // An empty Procfile and a manifest without usable scripts fall back too.
    let v = guess_processes(Some("# nothing\n"), Some("{\"scripts\": {}}"), false, false, false);
    assert_eq!(v.len(), 1);
    assert_eq!(v[0].command, "echo 'Edit myterm.yml to add processes' && sleep 2");
}

#[test]
fn helper_choices_match_the_lock_priority() {
    assert_eq!(detect_package_manager(true, true, true), PackageManager::Pnpm);
    assert_eq!(detect_package_manager(false, true, true), PackageManager::Yarn);
    assert_eq!(detect_package_manager(false, false, true), PackageManager::Bun);
    assert_eq!(detect_package_manager(false, false, false), PackageManager::Npm);
    assert_eq!(script_choice(true, true), Some(ScriptKind::Dev));
    assert_eq!(script_choice(false, true), Some(ScriptKind::Start));
    assert_eq!(script_choice(false, false), None);
    assert_eq!(node_command(PackageManager::Npm, ScriptKind::Start), "npm start");
}

#[test]
fn config_with_one_process_loads_exactly_that_process() {
    let yaml = "name: demo\nprocesses:\n  - name: web\n    command: npm start\n";
    let cfg = load_project_config(Some(yaml), None).unwrap();
    assert_eq!(cfg.name, "demo");
    assert_eq!(cfg.processes.len(), 1);
    assert_eq!(cfg.processes[0].name, "web");
    assert_eq!(cfg.processes[0].command, "npm start");
    assert!(!cfg.processes[0].autostart);
    assert!(!cfg.processes[0].autorestart);
}

#[test]
fn missing_config_is_its_own_error() {
    assert_eq!(load_project_config(None, None), Err(SupervisorError::ConfigMissing));
}

#[test]
fn second_candidate_is_used_when_the_first_is_unreadable() {
    let yaml = "name: alt\nprocesses: []\n";
    let cfg = load_project_config(None, Some(yaml)).unwrap();
    assert_eq!(cfg.name, "alt");
    assert_eq!(cfg.processes.len(), 0);
}

#[test]
fn malformed_config_is_a_parse_error() {
    assert_eq!(load_project_config(Some(": ["), None), Err(SupervisorError::ConfigParseError));
    assert_eq!(
        load_project_config(Some("processes: []"), None),
        Err(SupervisorError::ConfigParseError)
    );
    assert_eq!(
        load_project_config(Some("name: x\nprocesses: 3"), None),
        Err(SupervisorError::ConfigParseError)
    );
    assert_eq!(
        load_project_config(Some("name: x\nprocesses:\n  - name: y\n"), None),
        Err(SupervisorError::ConfigParseError)
    );
    assert_eq!(
        load_project_config(Some("name: x\nprocesses:\n  - name: y\n    command: c\n    autostart: 7\n"), None),
        Err(SupervisorError::ConfigParseError)
    );
}

#[test]
fn optional_flags_are_read_when_present() {
    let yaml = "name: demo\nprocesses:\n  - name: web\n    command: c\n    autostart: true\n    autorestart: true\n";
    let cfg = load_project_config(Some(yaml), None).unwrap();
    assert!(cfg.processes[0].autostart);
    assert!(cfg.processes[0].autorestart);
}

#[test]
fn init_refuses_an_existing_config() {
    let r = init_project_config(true, "/p/demo", None, None, false, false, false);
    assert_eq!(r, Err(SupervisorError::ConfigExists));
}

#[test]
fn init_names_the_project_and_guesses_its_processes() {
    let cfg =
        init_project_config(false, "/home/me/demo", Some("web: npm start\n"), None, false, false,
        false).unwrap();
    assert_eq!(cfg.name, "demo");
    assert_eq!(cfg.processes.len(), 1);
    assert_eq!(cfg.processes[0].name, "web");
}
