use reussir_playground::compile::after_build;
use reussir_playground::compile::after_compiler;
use reussir_playground::compile::artifact_path;
use reussir_playground::compile::build_command;
use reussir_playground::compile::build_project_files;
use reussir_playground::compile::classify_request;
use reussir_playground::compile::join_path;
use reussir_playground::compile::missing_artifact_error;
use reussir_playground::compile::parent_dir;
use reussir_playground::compile::compiler_ro_paths;
use reussir_playground::compile::start_request;
use reussir_playground::compile::CompileError;
use reussir_playground::compile::CompileRequest;
use reussir_playground::compile::CompileResponse;
use reussir_playground::compile::Mode;
use reussir_playground::compile::ProcessOutcome;
use reussir_playground::compile::RequestStart;
use reussir_playground::config::cargo_target_dir;
use reussir_playground::config::cargo_timeout_secs;
use reussir_playground::config::compile_timeout_secs;
use reussir_playground::config::CompilerConfig;
use reussir_playground::config::SandboxConfig;
use reussir_playground::config::SandboxKind;

fn test_config() -> CompilerConfig {
    CompilerConfig {
        path: "/opt/reussir/bin/reussirc".to_string(),
        lib_path: Some("/opt/reussir/lib".to_string()),
        rt_path: "/opt/reussir/rt".to_string(),
        cargo_target_dir: "playground-target".to_string(),
        compile_timeout_secs: 30,
        cargo_timeout_secs: 180,
    }
}

fn passthrough() -> SandboxConfig {
    SandboxConfig { kind: SandboxKind::Passthrough, bwrap_path: None }
}

#[test]
fn defaults_match_documentation() {
    assert_eq!(cargo_target_dir(), "playground-target");
    assert_eq!(compile_timeout_secs(), 30);
    assert_eq!(cargo_timeout_secs(), 180);
    let s = SandboxConfig::default();
    assert!(matches!(s.kind, SandboxKind::Bwrap));
    assert!(s.bwrap_path.is_none());
}

#[test]
fn classify_accepts_the_four_modes() {
    let mk = |m: &str| CompileRequest {
        source: String::new(),
        driver: String::new(),
        mode: m.to_string(),
    };
    assert!(matches!(classify_request(&mk("llvm-ir")), Ok(Mode::LlvmIr)));
    assert!(matches!(classify_request(&mk("asm")), Ok(Mode::Asm)));
    assert!(matches!(classify_request(&mk("mlir")), Ok(Mode::Mlir)));
    assert!(matches!(classify_request(&mk("run")), Ok(Mode::Run)));
}

#[test]
fn bogus_mode_is_rejected_without_any_plan() {
    let req = CompileRequest {
        source: "pub fn f(n: u64) -> u64 { n }".to_string(),
        driver: String::new(),
        mode: "bogus".to_string(),
    };
    let cfg = test_config();
    let scfg = passthrough();
    let start = start_request(&req, &cfg, &scfg, "/tmp/ws", &vec![], &vec![]);
    match start {
        RequestStart::Reject(resp) => {
            assert!(!resp.success);
            assert_eq!(resp.error.as_deref(), Some("unknown mode: bogus"));
            assert!(resp.output.is_none());
            assert!(resp.wasm.is_none());
        },
        _ => panic!("a bogus mode must be rejected before any plan exists"),
    }
}

#[test]
fn text_mode_plans_the_compiler_invocation() {
    let req = CompileRequest {
        source: "pub fn f(n: u64) -> u64 { n }".to_string(),
        driver: String::new(),
        mode: "llvm-ir".to_string(),
    };
    let cfg = test_config();
    let scfg = passthrough();
    let start = start_request(&req, &cfg, &scfg, "/tmp/ws", &vec![], &vec![]);
    match start {
        RequestStart::Text(plan) => {
            assert_eq!(plan.source_file, "/tmp/ws/input.rr");
            assert_eq!(plan.output_file, "/tmp/ws/output.ll");
            assert_eq!(plan.timeout_secs, 30);
            assert_eq!(plan.command.program, "/opt/reussir/bin/reussirc");
            assert_eq!(
                plan.command.args,
                vec![
                    "/tmp/ws/input.rr".to_string(),
                    "-o".to_string(),
                    "/tmp/ws/output.ll".to_string(),
                    "-t".to_string(),
                    "llvm-ir".to_string(),
                ]
            );
        },
        _ => panic!("a text-mode request must yield a text plan"),
    }
}

#[test]
fn run_mode_with_unresolved_trampoline_is_rejected_before_any_spawn() {
    let source = format!(
        "{}{} \"C\" trampoline \"jump\" = gone;\n",
        "ext", "ern"
    );
    let req = CompileRequest {
        source,
        driver: String::new(),
        mode: "run".to_string(),
    };
    let cfg = test_config();
    let scfg = passthrough();
    let start = start_request(&req, &cfg, &scfg, "/tmp/ws", &vec![], &vec![]);
    match start {
        RequestStart::Reject(resp) => {
            assert!(!resp.success);
            assert_eq!(
                resp.error.as_deref(),
                Some("Function 'gone' referenced by trampoline 'jump' not found")
            );
        },
        _ => panic!("an unresolved trampoline must reject the request before any spawn"),
    }
}

#[test]
fn run_mode_plans_object_compile_and_carries_harness() {
    let req = CompileRequest {
        source: "fn f(n: u64) -> u64 { n }".to_string(),
        driver: String::new(),
        mode: "run".to_string(),
    };
    let cfg = test_config();
    let scfg = passthrough();
    let start = start_request(&req, &cfg, &scfg, "/tmp/ws", &vec![], &vec![]);
    match start {
        RequestStart::Run(plan, harness) => {
            assert_eq!(plan.output_file, "/tmp/ws/output.o");
            assert_eq!(
                plan.command.args,
                vec![
                    "/tmp/ws/input.rr".to_string(),
                    "-o".to_string(),
                    "/tmp/ws/output.o".to_string(),
                    "-t".to_string(),
                    "object".to_string(),
                    "--target-triple".to_string(),
                    "wasm32-wasip1".to_string(),
                ]
            );
            assert!(harness.contains(&format!("{}{} crate reussir_rt;", "ext", "ern")));
        },
        _ => panic!("a valid run-mode request must yield a run plan"),
    }
}

#[test]
fn timeout_is_distinct_from_exit_failure() {
    let timed_out = after_compiler(ProcessOutcome::TimedOut).unwrap_err();
    match &timed_out {
        CompileError::Timeout(m) => assert_eq!(m, "compiler timed out"),
        _ => panic!("a timeout must be a timeout-class error"),
    }
    let failed = after_compiler(ProcessOutcome::Finished {
        ok: false,
        stdout: "out".to_string(),
        stderr: "err".to_string(),
    })
    .unwrap_err();
    match &failed {
        CompileError::ExitFailure(m) => assert_eq!(m, "outerr"),
        _ => panic!("a nonzero exit must be an exit-status error"),
    }
    assert!(after_compiler(ProcessOutcome::Finished {
        ok: true,
        stdout: String::new(),
        stderr: String::new(),
    })
    .is_ok());
}

#[test]
fn build_timeout_and_failure_messages() {
    match after_build(ProcessOutcome::TimedOut).unwrap_err() {
        CompileError::Timeout(m) => assert_eq!(m, "cargo build timed out"),
        _ => panic!("a build timeout must be a timeout-class error"),
    }
    match after_build(ProcessOutcome::Finished {
        ok: false,
        stdout: "ignored".to_string(),
        stderr: "link failed".to_string(),
    })
    .unwrap_err()
    {
        CompileError::ExitFailure(m) => assert_eq!(m, "harness build failed:\nlink failed"),
        _ => panic!("a failed build must be an exit-status error"),
    }
}

#[test]
fn text_response_returns_output_verbatim() {
    let content = "define i64 @f(i64 %n) {\nentry:\n  ret i64 %n\n}\n".to_string();
    let resp = CompileResponse::text(content.clone());
    assert!(resp.success);
    assert_eq!(resp.output.as_deref(), Some(content.as_str()));
    assert!(resp.wasm.is_none());
    assert!(resp.error.is_none());
}

#[test]
fn artifact_response_encodes_bytes() {
    let resp = CompileResponse::wasm(vec![1u8, 2u8, 3u8]);
    assert!(resp.success);
    assert_eq!(resp.wasm.as_deref(), Some("AQID"));
    let empty = CompileResponse::wasm(Vec::new());
    assert_eq!(empty.wasm.as_deref(), Some(""));
}

#[test]
fn build_project_files_are_exact() {
    let files = build_project_files(
        &"/rt".to_string(),
        &"/ws/output.o".to_string(),
        "HARNESS".to_string(),
    );
    assert_eq!(files.len(), 3);
    assert_eq!(files[0].0, "Cargo.toml");
    assert_eq!(
        files[0].1,
        "[package]\nname = \"playground-run\"\nversion = \"0.1.0\"\nedition = \"2024\"\n\n[dependencies]\nreussir-rt = { path = \"/rt\" }\n\n[profile.release]\nopt-level = \"z\"\nlto = true\npanic = \"abort\"\nstrip = true\n"
    );
    assert_eq!(files[1].0, "build.rs");
    assert_eq!(
        files[1].1,
        "fn main() {\n    println!(\"cargo:rustc-link-arg=/ws/output.o\");\n}\n"
    );
    assert_eq!(files[2].0, "src/main.rs");
    assert_eq!(files[2].1, "HARNESS");
}

#[test]
fn build_command_and_artifact_path() {
    let cmd = build_command(&"cache".to_string(), &"/ws/harness".to_string());
    assert_eq!(cmd.program, "cargo");
    assert_eq!(
        cmd.args,
        vec![
            "build".to_string(),
            "--release".to_string(),
            "--target".to_string(),
            "wasm32-wasip1".to_string(),
        ]
    );
    assert_eq!(cmd.env, vec![("CARGO_TARGET_DIR".to_string(), "cache".to_string())]);
    assert_eq!(cmd.current_dir.as_deref(), Some("/ws/harness"));
    assert_eq!(
        artifact_path(&"cache".to_string()),
        "cache/wasm32-wasip1/release/playground-run.wasm"
    );
    match missing_artifact_error(&"p.wasm".to_string()) {
        CompileError::MissingArtifact(m) => assert_eq!(m, "wasm output not found at p.wasm"),
        _ => panic!("a missing artifact must carry its own error class"),
    }
}

#[test]
fn paths_and_parents() {
    assert_eq!(join_path("/a/b", "c.txt"), "/a/b/c.txt");
    assert_eq!(parent_dir(&"/opt/reussir/bin/reussirc".to_string()).as_deref(), Some("/opt/reussir/bin"));
    assert_eq!(parent_dir(&"/bin".to_string()).as_deref(), Some("/"));
    assert_eq!(parent_dir(&"reussirc".to_string()), None);
    let cfg = test_config();
    assert_eq!(
        compiler_ro_paths(&cfg),
        vec!["/opt/reussir/bin".to_string(), "/opt/reussir/lib".to_string()]
    );
}
