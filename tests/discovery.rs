use openwork::discovery::{
    candidate_opencode_paths, engine_probe_paths, opencode_executable_name, resolve_engine_path,
    resolve_in_path, resolve_opencode_executable, resolve_sidecar_candidate, sidecar_candidate_paths,
    EngineEnv, PathProbe,
};
use openwork::platform::{join_path, Platform};

fn file(path: &str) -> PathProbe {
    PathProbe { path: path.to_string(), is_file: true, resolved: Some(path.to_string()) }
}

fn env_with_path(dirs: &[&str]) -> EngineEnv {
    EngineEnv {
        bin_path_override: None,
        path_dirs: dirs.iter().map(|d| d.to_string()).collect(),
        home: Some("/home/u".to_string()),
        app_data: None,
        local_app_data: None,
    }
}

#[test]
fn resolves_sidecar_from_current_binary_dir() {
    let dir = "/tmp/openwork-sidecar-test";
    let sidecar_path = join_path(Platform::Linux, dir, opencode_executable_name(Platform::Linux));
    let probes = vec![file(&sidecar_path)];
    let (resolved, notes) = resolve_sidecar_candidate(true, Platform::Linux, None, Some(dir), &probes);
    assert_eq!(resolved.as_ref(), Some(&sidecar_path));
    assert!(notes.iter().any(|note| note.contains("Using bundled sidecar")), "missing success note: {:?}", notes);
}

#[test]
fn resolve_engine_path_prefers_sidecar() {
    let dir = "/tmp/openwork-engine-path-test";
    let sidecar_path = join_path(Platform::Linux, dir, opencode_executable_name(Platform::Linux));
    let mut probes = vec![file(&sidecar_path)];
    probes.push(file("/usr/bin/opencode"));
    let env = env_with_path(&["/usr/bin"]);
    let (resolved, in_path, _notes) = resolve_engine_path(true, Platform::Linux, None, Some(dir), &env, &probes);
    assert_eq!(resolved.as_ref(), Some(&sidecar_path));
    assert!(!in_path);
}

#[test]
fn join_inserts_one_separator() {
    assert_eq!(join_path(Platform::Linux, "/a", "b"), "/a/b");
    assert_eq!(join_path(Platform::Linux, "/a/", "b"), "/a/b");
    assert_eq!(join_path(Platform::Linux, "", "b"), "b");
    assert_eq!(join_path(Platform::Windows, "C:\\x", "y.exe"), "C:\\x\\y.exe");
    assert_eq!(join_path(Platform::Windows, "C:/x/", "y"), "C:/x/y");
}

#[test]
fn executable_names_follow_platform() {
    assert_eq!(opencode_executable_name(Platform::Linux), "opencode");
    assert_eq!(opencode_executable_name(Platform::MacOs), "opencode");
    assert_eq!(opencode_executable_name(Platform::Windows), "opencode.exe");
}

#[test]
fn sidecar_candidates_in_preference_order() {
    let c = sidecar_candidate_paths(Platform::Linux, Some("/res"), Some("/bin-dir"));
    assert_eq!(
        c,
        vec![
            "/bin-dir/opencode".to_string(),
            "/res/sidecars/opencode".to_string(),
            "/res/opencode".to_string(),
            "src-tauri/sidecars/opencode".to_string(),
        ]
    );
}

#[test]
fn sidecar_search_skipped_when_not_preferred() {
    let probes = vec![file("/bin-dir/opencode")];
    let (resolved, notes) = resolve_sidecar_candidate(false, Platform::Linux, None, Some("/bin-dir"), &probes);
    assert_eq!(resolved, None);
    assert!(notes.is_empty());
}

#[test]
fn sidecar_missing_notes_then_hit() {
    let probes = vec![file("/res/opencode")];
    let (resolved, notes) = resolve_sidecar_candidate(true, Platform::Linux, Some("/res"), Some("/b"), &probes);
    assert_eq!(resolved, Some("/res/opencode".to_string()));
    assert_eq!(
        notes,
        vec![
            "Sidecar missing: /b/opencode".to_string(),
            "Sidecar missing: /res/sidecars/opencode".to_string(),
            "Using bundled sidecar: /res/opencode".to_string(),
        ]
    );
}

#[test]
fn bundled_copy_wins_regardless_of_path() {
    let probes = vec![file("/b/opencode"), file("/usr/bin/opencode")];
    let a = resolve_engine_path(true, Platform::Linux, None, Some("/b"), &env_with_path(&["/usr/bin"]), &probes);
    let b = resolve_engine_path(true, Platform::Linux, None, Some("/b"), &env_with_path(&[]), &probes);
    assert_eq!(a.0, Some("/b/opencode".to_string()));
    assert!(!a.1);
    assert_eq!(a, b);
}

#[test]
fn path_hit_is_tagged_from_path() {
    let probes = vec![PathProbe {
        path: "/usr/bin/opencode".to_string(),
        is_file: true,
        resolved: Some("/opt/real/opencode".to_string()),
    }];
    let env = env_with_path(&["/nope", "/usr/bin"]);
    let (resolved, in_path, notes) = resolve_engine_path(false, Platform::Linux, None, None, &env, &probes);
    assert_eq!(resolved, Some("/opt/real/opencode".to_string()));
    assert!(in_path);
    assert_eq!(notes, vec!["Found in PATH: /opt/real/opencode".to_string()]);
}

#[test]
fn first_path_directory_wins() {
    let probes = vec![file("/a/opencode"), file("/b/opencode")];
    let dirs = vec!["/b".to_string(), "/a".to_string()];
    assert_eq!(resolve_in_path(Platform::Linux, &dirs, "opencode", &probes), Some("/b/opencode".to_string()));
    assert_eq!(resolve_in_path(Platform::Linux, &dirs, "other", &probes), None);
}

#[test]
fn unresolvable_path_hit_falls_through_to_well_known() {
    let probes = vec![
        PathProbe { path: "/p/opencode".to_string(), is_file: true, resolved: None },
        file("/usr/local/bin/opencode"),
    ];
    let env = env_with_path(&["/p"]);
    let (resolved, in_path, notes) = resolve_opencode_executable(Platform::Linux, &env, &probes);
    assert_eq!(resolved, Some("/usr/local/bin/opencode".to_string()));
    assert!(!in_path);
    assert_eq!(
        notes,
        vec![
            "Found in PATH but missing: /p/opencode".to_string(),
            "Not found on PATH".to_string(),
            "Missing: /home/u/.opencode/bin/opencode".to_string(),
            "Missing: /opt/homebrew/bin/opencode".to_string(),
            "Found at /usr/local/bin/opencode".to_string(),
        ]
    );
}

#[test]
fn override_variable_wins_when_it_resolves() {
    let mut env = env_with_path(&["/usr/bin"]);
    env.bin_path_override = Some("  /custom/opencode  ".to_string());
    let probes = vec![file("/custom/opencode"), file("/usr/bin/opencode")];
    let (resolved, in_path, notes) = resolve_opencode_executable(Platform::Linux, &env, &probes);
    assert_eq!(resolved, Some("/custom/opencode".to_string()));
    assert!(!in_path);
    assert_eq!(notes, vec!["Using OPENCODE_BIN_PATH: /custom/opencode".to_string()]);
}

#[test]
fn missing_override_is_noted_and_search_goes_on() {
    let mut env = env_with_path(&["/usr/bin"]);
    env.bin_path_override = Some("/custom/opencode".to_string());
    let probes = vec![file("/usr/bin/opencode")];
    let (resolved, in_path, notes) = resolve_opencode_executable(Platform::Linux, &env, &probes);
    assert_eq!(resolved, Some("/usr/bin/opencode".to_string()));
    assert!(in_path);
    assert_eq!(notes[0], "OPENCODE_BIN_PATH set but missing: /custom/opencode");
    assert_eq!(notes[1], "Found in PATH: /usr/bin/opencode");
}

#[test]
fn blank_override_is_ignored() {
    let mut env = env_with_path(&[]);
    env.bin_path_override = Some("   ".to_string());
    let (resolved, _, notes) = resolve_opencode_executable(Platform::Linux, &env, &Vec::new());
    assert_eq!(resolved, None);
    assert_eq!(notes[0], "Not found on PATH");
}

#[test]
fn nothing_found_reports_every_step() {
    let env = env_with_path(&["/x"]);
    let (resolved, in_path, notes) = resolve_engine_path(true, Platform::Linux, None, None, &env, &Vec::new());
    assert_eq!(resolved, None);
    assert!(!in_path);
    assert_eq!(
        notes,
        vec![
            "Sidecar missing: src-tauri/sidecars/opencode".to_string(),
            "Not found on PATH".to_string(),
            "Missing: /home/u/.opencode/bin/opencode".to_string(),
            "Missing: /opt/homebrew/bin/opencode".to_string(),
            "Missing: /usr/local/bin/opencode".to_string(),
            "Missing: /usr/bin/opencode".to_string(),
            "Missing: /usr/local/bin/opencode".to_string(),
        ]
    );
}

#[test]
fn windows_checks_command_shim_on_path() {
    let env = EngineEnv {
        bin_path_override: None,
        path_dirs: vec!["C:\\tools".to_string()],
        home: None,
        app_data: None,
        local_app_data: None,
    };
    let probes = vec![file("C:\\tools\\opencode.cmd")];
    let (resolved, in_path, notes) = resolve_opencode_executable(Platform::Windows, &env, &probes);
    assert_eq!(resolved, Some("C:\\tools\\opencode.cmd".to_string()));
    assert!(in_path);
    assert_eq!(notes, vec!["Found in PATH: C:\\tools\\opencode.cmd".to_string()]);
}

#[test]
fn windows_well_known_locations() {
    let env = EngineEnv {
        bin_path_override: None,
        path_dirs: Vec::new(),
        home: Some("C:\\Users\\u".to_string()),
        app_data: Some("C:\\Roaming".to_string()),
        local_app_data: Some("C:\\Local".to_string()),
    };
    let c = candidate_opencode_paths(Platform::Windows, &env);
    assert_eq!(
        c,
        vec![
            "C:\\Users\\u\\.opencode\\bin\\opencode.exe",
            "C:\\Roaming\\npm\\opencode.exe",
            "C:\\Roaming\\npm\\opencode.cmd",
            "C:\\Local\\npm\\opencode.exe",
            "C:\\Local\\npm\\opencode.cmd",
            "C:\\Local\\OpenCode\\opencode.exe",
            "C:\\Users\\u\\scoop\\shims\\opencode.exe",
            "C:\\Users\\u\\scoop\\shims\\opencode.cmd",
            "C:\\ProgramData\\chocolatey\\bin\\opencode.exe",
            "C:\\ProgramData\\chocolatey\\bin\\opencode.cmd",
        ]
    );
}

#[test]
fn probe_plan_lists_every_examined_path_in_order() {
    let mut env = env_with_path(&["/p"]);
    env.bin_path_override = Some("/o".to_string());
    let plan = engine_probe_paths(true, Platform::Linux, None, Some("/b"), &env);
    assert_eq!(
        plan,
        vec![
            "/b/opencode",
            "src-tauri/sidecars/opencode",
            "/o",
            "/p/opencode",
            "/home/u/.opencode/bin/opencode",
            "/opt/homebrew/bin/opencode",
            "/usr/local/bin/opencode",
            "/usr/bin/opencode",
            "/usr/local/bin/opencode",
        ]
    );
    assert_eq!(plan, engine_probe_paths(true, Platform::Linux, None, Some("/b"), &env));
}

#[test]
fn discovery_is_repeatable() {
    let env = env_with_path(&["/p", "/q"]);
    let probes = vec![file("/q/opencode")];
    let first = resolve_engine_path(true, Platform::Linux, Some("/r"), Some("/b"), &env, &probes);
    let second = resolve_engine_path(true, Platform::Linux, Some("/r"), Some("/b"), &env, &probes);
    assert_eq!(first, second);
    assert_eq!(first.0, Some("/q/opencode".to_string()));
}
