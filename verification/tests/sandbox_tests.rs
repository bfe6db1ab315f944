use reussir_playground::config::SandboxConfig;
use reussir_playground::config::SandboxKind;
use reussir_playground::sandbox::bwrap_sys_candidates;
use reussir_playground::sandbox::existing_paths;
use reussir_playground::sandbox::landlock_sys_candidates;
use reussir_playground::sandbox::wrap;

#[test]
fn passthrough_runs_the_program_unconfined() {
    let cfg = SandboxConfig { kind: SandboxKind::Passthrough, bwrap_path: None };
    let cmd = wrap(
        &cfg,
        &"/bin/cc".to_string(),
        &vec!["-v".to_string()],
        &"/ws".to_string(),
        &vec![],
        &vec![],
    );
    assert_eq!(cmd.program, "/bin/cc");
    assert_eq!(cmd.args, vec!["-v".to_string()]);
    assert!(cmd.fs_rules.is_empty());
    assert!(cmd.env.is_empty());
    assert!(cmd.current_dir.is_none());
}

#[test]
fn bwrap_plan_is_the_exact_argument_vector() {
    let cfg = SandboxConfig { kind: SandboxKind::Bwrap, bwrap_path: None };
    let cmd = wrap(
        &cfg,
        &"/opt/cc".to_string(),
        &vec!["in.rr".to_string(), "-o".to_string(), "out.ll".to_string()],
        &"/ws".to_string(),
        &vec!["/opt/lib".to_string()],
        &vec!["/usr".to_string()],
    );
    assert_eq!(cmd.program, "bwrap");
    let expected: Vec<String> = [
        "--unshare-user",
        "--unshare-ipc",
        "--unshare-uts",
        "--ro-bind",
        "/usr",
        "/usr",
        "--proc",
        "/proc",
        "--dev",
        "/dev",
        "--tmpfs",
        "/tmp",
        "--bind",
        "/ws",
        "/ws",
        "--ro-bind",
        "/opt/lib",
        "/opt/lib",
        "--die-with-parent",
        "--",
        "/opt/cc",
        "in.rr",
        "-o",
        "out.ll",
    ]
    .iter()
    .map(|s| s.to_string())
    .collect();
    assert_eq!(cmd.args, expected);
    // Write access is granted to the work directory alone.
    let writable: Vec<usize> = cmd
        .args
        .iter()
        .enumerate()
        .filter(|(_, a)| a.as_str() == "--bind")
        .map(|(i, _)| i)
        .collect();
    assert_eq!(writable.len(), 1);
    assert_eq!(cmd.args[writable[0] + 1], "/ws");
}

#[test]
fn bwrap_path_override_is_used() {
    let cfg = SandboxConfig {
        kind: SandboxKind::Bwrap,
        bwrap_path: Some("/usr/local/bin/bwrap".to_string()),
    };
    let cmd = wrap(
        &cfg,
        &"/opt/cc".to_string(),
        &vec![],
        &"/ws".to_string(),
        &vec![],
        &vec![],
    );
    assert_eq!(cmd.program, "/usr/local/bin/bwrap");
}

#[test]
fn landlock_plan_grants_write_to_workspace_alone() {
    let cfg = SandboxConfig { kind: SandboxKind::Landlock, bwrap_path: None };
    let cmd = wrap(
        &cfg,
        &"/opt/cc".to_string(),
        &vec!["x".to_string()],
        &"/ws".to_string(),
        &vec!["/opt/lib".to_string()],
        &vec!["/usr".to_string(), "/etc".to_string()],
    );
    // The program runs directly; confinement is in the rule list.
    assert_eq!(cmd.program, "/opt/cc");
    assert_eq!(cmd.args, vec!["x".to_string()]);
    assert_eq!(cmd.fs_rules.len(), 4);
    for rule in cmd.fs_rules.iter() {
        assert_eq!(rule.write, rule.path == "/ws");
    }
    assert_eq!(cmd.fs_rules.iter().filter(|r| r.write).count(), 1);
    assert_eq!(cmd.fs_rules[3].path, "/ws");
}

#[test]
fn candidate_lists_are_the_documented_locations() {
    let b = bwrap_sys_candidates();
    assert_eq!(
        b,
        vec![
            "/usr".to_string(),
            "/bin".to_string(),
            "/sbin".to_string(),
            "/lib".to_string(),
            "/lib64".to_string(),
            "/lib32".to_string(),
            "/nix".to_string(),
            "/etc/ld.so.cache".to_string(),
            "/etc/ld.so.conf".to_string(),
            "/etc/alternatives".to_string(),
        ]
    );
    let l = landlock_sys_candidates();
    assert_eq!(l.len(), 8);
    assert_eq!(l[7], "/etc");
}

#[test]
fn existing_paths_keeps_only_what_is_on_the_host() {
    let probe = existing_paths(&vec![
        "/".to_string(),
        "/surely-not-a-real-path-here".to_string(),
    ]);
    assert_eq!(probe, vec!["/".to_string()]);
}
