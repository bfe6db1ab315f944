//! The per-request compile pipeline, as decisions over plain data.
//!
//! A request travels a linear state machine: validate the mode (and, for
//! run mode, the harness) before anything is spawned; plan the sandboxed
//! compiler invocation; decide on its outcome; for run mode, assemble the
//! secondary build project, plan the build invocation, decide on its
//! outcome, and locate the artifact.  Every decision is a verified
//! function here; writing files, spawning processes and awaiting them is
//! the caller's job, and each outcome comes back as a [`ProcessOutcome`]
//! value.

use vstd::prelude::*;

use crate::config::CompilerConfig;
use crate::config::SandboxConfig;
use crate::harness::generate_harness;
use crate::harness::spec_gen_err;
use crate::harness::spec_gen_ok;
use crate::harness::spec_harness_text;
use crate::sandbox::CommandSpec;
use crate::sandbox::spec_bwrap_args;
use crate::sandbox::spec_bwrap_program;
use crate::sandbox::spec_landlock_rules;
use crate::sandbox::wrap;

verus! {

/// One compile request, exactly as submitted.
pub struct CompileRequest {
    pub source: String,
    pub driver: String,
    pub mode: String,
}

/// The response to one request.  Exactly one of `output`, `wasm` and
/// `error` is populated, matching `success` (see [`CompileResponse::wf`]).
pub struct CompileResponse {
    pub success: bool,
    /// Textual intermediate representation, for the text modes.
    pub output: Option<String>,
    /// The portable binary, encoded for transport, for run mode.
    pub wasm: Option<String>,
    /// The diagnostic, on failure.
    pub error: Option<String>,
}

/// What `base64`'s standard engine encodes the bytes to.
pub uninterp spec fn spec_base64(bytes: Seq<u8>) -> Seq<char>;

/// Relies on `base64::engine::Engine::encode` with the `STANDARD` engine:
/// the encoding is a pure function of the bytes alone.  The length bound
/// keeps the engine's output-size computation from overflowing.
#[verifier::external_body]
fn base64_encode(bytes: &Vec<u8>) -> (r: String)
    requires
        bytes@.len() <= usize::MAX as int / 2,
    ensures
        r@ == spec_base64(bytes@),
{
    base64::engine::Engine::encode(&base64::engine::general_purpose::STANDARD, bytes.as_slice())
}

impl CompileResponse {
    /// Exactly one field is populated, matching `success`.
    pub open spec fn wf(self) -> bool {
        if self.success {
            self.error is None && (self.output is Some <==> self.wasm is None)
        } else {
            self.error is Some && self.output is None && self.wasm is None
        }
    }

    /// A successful text-mode response: the compiler's output, verbatim.
    pub fn text(output: String) -> (r: Self)
        ensures
            r.success,
            r.output == Some(output),
            r.wasm is None,
            r.error is None,
            r.wf(),
    {
        CompileResponse { success: true, output: Some(output), wasm: None, error: None }
    }

    /// A successful run-mode response: the artifact bytes, encoded for
    /// transport.
    pub fn wasm(bytes: Vec<u8>) -> (r: Self)
        requires
            bytes@.len() <= usize::MAX as int / 2,
        ensures
            r.success,
            r.output is None,
            r.wasm matches Some(w) && w@ == spec_base64(bytes@),
            r.error is None,
            r.wf(),
    {
        let encoded = base64_encode(&bytes);
        CompileResponse { success: true, output: None, wasm: Some(encoded), error: None }
    }

    /// A failure response carrying the diagnostic.
    pub fn err(error: String) -> (r: Self)
        ensures
            !r.success,
            r.output is None,
            r.wasm is None,
            r.error == Some(error),
            r.wf(),
    {
        CompileResponse { success: false, output: None, wasm: None, error: Some(error) }
    }
}

/// The requested output kind.
pub enum Mode {
    LlvmIr,
    Asm,
    Mlir,
    Run,
}

/// The mode a request names, if any.
pub open spec fn spec_parse_mode(m: Seq<char>) -> Option<Mode> {
    if m == "llvm-ir"@ {
        Some(Mode::LlvmIr)
    } else if m == "asm"@ {
        Some(Mode::Asm)
    } else if m == "mlir"@ {
        Some(Mode::Mlir)
    } else if m == "run"@ {
        Some(Mode::Run)
    } else {
        None
    }
}

/// The output-file extension of a mode.
pub open spec fn spec_mode_ext(m: Mode) -> Seq<char> {
    match m {
        Mode::LlvmIr => "ll"@,
        Mode::Asm => "s"@,
        Mode::Mlir => "mlir"@,
        Mode::Run => "o"@,
    }
}

/// The value the compiler's output-kind flag carries for a mode.
pub open spec fn spec_mode_flag(m: Mode) -> Seq<char> {
    match m {
        Mode::LlvmIr => "llvm-ir"@,
        Mode::Asm => "asm"@,
        Mode::Mlir => "mlir"@,
        Mode::Run => "object"@,
    }
}

/// The request-level error taxonomy.  Timeouts are distinct from exit
/// failures, so a caller can tell "too slow" from "rejected"; a missing
/// artifact after a successful build is distinct from both, as an
/// internal-error signal.
pub enum CompileError {
    /// The request named no known mode.
    UnknownMode(String),
    /// A request-local filesystem or spawn failure.
    Io(String),
    /// An external process outlived its configured timeout.
    Timeout(String),
    /// An external process finished with a nonzero exit status.
    ExitFailure(String),
    /// A trampoline failed to resolve during harness generation.
    Harness(String),
    /// The build reported success but its artifact is missing.
    MissingArtifact(String),
}

/// The diagnostic text an error carries.
pub open spec fn spec_error_message(e: CompileError) -> Seq<char> {
    match e {
        CompileError::UnknownMode(m) => m@,
        CompileError::Io(m) => m@,
        CompileError::Timeout(m) => m@,
        CompileError::ExitFailure(m) => m@,
        CompileError::Harness(m) => m@,
        CompileError::MissingArtifact(m) => m@,
    }
}

impl CompileError {
    /// The diagnostic text, for the response.
    pub fn message(&self) -> (r: String)
        ensures
            r@ == spec_error_message(*self),
    {
        match self {
            CompileError::UnknownMode(m) => m.clone(),
            CompileError::Io(m) => m.clone(),
            CompileError::Timeout(m) => m.clone(),
            CompileError::ExitFailure(m) => m.clone(),
            CompileError::Harness(m) => m.clone(),
            CompileError::MissingArtifact(m) => m.clone(),
        }
    }

    /// The failure response for this error.
    pub fn into_response(self) -> (r: CompileResponse)
        ensures
            !r.success,
            r.error matches Some(m) && m@ == spec_error_message(self),
            r.output is None,
            r.wasm is None,
            r.wf(),
    {
        CompileResponse::err(self.message())
    }
}

/// What awaiting a spawned process produced: it finished with an exit
/// status and captured output, the timeout expired first, or it could not
/// be spawned at all.
pub enum ProcessOutcome {
    Finished { ok: bool, stdout: String, stderr: String },
    TimedOut,
    SpawnFailed,
}

/// `dir/name`, the simple textual path join the per-request workspace
/// uses (workspace paths carry no trailing separator).
pub fn join_path(dir: &str, name: &str) -> (r: String)
    ensures
        r@ == dir@ + "/"@ + name@,
{
    let mut p = dir.to_owned();
    p.append("/");
    p.append(name);
    p
}

/// Parse the request's mode, or reject the request: the unknown-mode
/// diagnostic names the mode given, and no process runs for such a
/// request.
pub fn classify_request(req: &CompileRequest) -> (r: Result<Mode, CompileError>)
    ensures
        spec_parse_mode(req.mode@) matches Some(m) ==> r == Ok::<Mode, CompileError>(m),
        spec_parse_mode(req.mode@) is None ==> (r matches Err(CompileError::UnknownMode(s)) && s@
            == "unknown mode: "@ + req.mode@),
{
    if crate::harness::str_eq_lit(&req.mode, "llvm-ir") {
        Ok(Mode::LlvmIr)
    } else if crate::harness::str_eq_lit(&req.mode, "asm") {
        Ok(Mode::Asm)
    } else if crate::harness::str_eq_lit(&req.mode, "mlir") {
        Ok(Mode::Mlir)
    } else if crate::harness::str_eq_lit(&req.mode, "run") {
        Ok(Mode::Run)
    } else {
        let mut s = "unknown mode: ".to_owned();
        s.append(req.mode.as_str());
        Err(CompileError::UnknownMode(s))
    }
}

/// The compiler argument vector for a request: the input file, the output
/// path, and the flag selecting the requested output kind; run mode also
/// pins the portable object target.
pub open spec fn spec_compiler_args(input: Seq<char>, output: Seq<char>, m: Mode) -> Seq<
    Seq<char>,
> {
    let base = seq![input, "-o"@, output, "-t"@, spec_mode_flag(m)];
    if m is Run {
        base + seq!["--target-triple"@, "wasm32-wasip1"@]
    } else {
        base
    }
}

fn compiler_args(input: &String, output: &String, m: &Mode) -> (r: Vec<String>)
    ensures
        r.deep_view() == spec_compiler_args(input@, output@, *m),
{
    let mut a: Vec<String> = Vec::new();
    a.push(input.clone());
    a.push("-o".to_owned());
    a.push(output.clone());
    a.push("-t".to_owned());
    match m {
        Mode::LlvmIr => a.push("llvm-ir".to_owned()),
        Mode::Asm => a.push("asm".to_owned()),
        Mode::Mlir => a.push("mlir".to_owned()),
        Mode::Run => a.push("object".to_owned()),
    }
    match m {
        Mode::Run => {
            a.push("--target-triple".to_owned());
            a.push("wasm32-wasip1".to_owned());
            proof {
                assert(a.deep_view() =~= spec_compiler_args(input@, output@, *m));
            }
        },
        _ => {
            proof {
                assert(a.deep_view() =~= spec_compiler_args(input@, output@, *m));
            }
        },
    }
    a
}

/// Index of the last separator strictly before position `j`.
pub open spec fn spec_last_slash(s: Seq<char>, j: int) -> Option<int>
    decreases j,
{
    if j <= 0 {
        None
    } else if s[j - 1] == '/' {
        Some(j - 1)
    } else {
        spec_last_slash(s, j - 1)
    }
}

/// The directory containing a path, textually: everything before the last
/// separator, the root for a path directly under it, nothing for a bare
/// name.
pub open spec fn spec_parent_dir(p: Seq<char>) -> Option<Seq<char>> {
    match spec_last_slash(p, p.len() as int) {
        Some(j) => {
            if j == 0 {
                Some("/"@)
            } else {
                Some(p.subrange(0, j))
            }
        },
        None => None,
    }
}

/// The directory containing a path, textually.
pub fn parent_dir(p: &String) -> (r: Option<String>)
    ensures
        r.deep_view() == spec_parent_dir(p@),
{
    let s = p.as_str();
    let n = s.unicode_len();
    let mut j = n;
    while j > 0 && s.get_char(j - 1) != '/'
        invariant
            0 <= j <= n,
            n as int == s@.len(),
            spec_last_slash(s@, n as int) == spec_last_slash(s@, j as int),
        decreases j,
    {
        j = j - 1;
    }
    if j == 0 {
        None
    } else if j == 1 {
        Some("/".to_owned())
    } else {
        Some(crate::scan::extract(s, 0, j - 1))
    }
}

/// The paths the compiler process needs read-only access to: the
/// directory holding the compiler binary, and the configured
/// shared-library directory if any.
pub open spec fn spec_compiler_ro_paths(cfg: CompilerConfig) -> Seq<Seq<char>> {
    let base: Seq<Seq<char>> = match spec_parent_dir(cfg.path@) {
        Some(d) => seq![d],
        None => Seq::empty(),
    };
    match cfg.lib_path {
        Some(l) => base + seq![l@],
        None => base,
    }
}

/// The paths the compiler process needs read-only access to.
pub fn compiler_ro_paths(cfg: &CompilerConfig) -> (r: Vec<String>)
    ensures
        r.deep_view() == spec_compiler_ro_paths(*cfg),
{
    let mut out: Vec<String> = Vec::new();
    match parent_dir(&cfg.path) {
        Some(d) => {
            out.push(d);
        },
        None => {},
    }
    match &cfg.lib_path {
        Some(l) => {
            out.push(l.clone());
            proof {
                assert(out.deep_view() =~= spec_compiler_ro_paths(*cfg));
            }
        },
        None => {
            proof {
                assert(out.deep_view() =~= spec_compiler_ro_paths(*cfg));
            }
        },
    }
    out
}

/// A planned external invocation: where to write the source, the command
/// to run, its timeout, and where its output will appear.
pub struct CompilePlan {
    /// Path the caller writes the submitted source to before running.
    pub source_file: String,
    /// Path the compiler writes its output to.
    pub output_file: String,
    /// The (possibly confined) invocation to run.
    pub command: CommandSpec,
    /// Whole-invocation timeout, in seconds.
    pub timeout_secs: u64,
}

/// Plan the sandboxed compiler invocation for a request.
///
/// `sys_ro_paths` and `extra_ro_paths` are the host-filtered read-only
/// grants (see `sandbox::existing_paths` and [`compiler_ro_paths`]); the
/// workspace is the request's own directory and becomes the plan's only
/// writable path.
pub fn plan_compile(
    ccfg: &CompilerConfig,
    scfg: &SandboxConfig,
    mode: &Mode,
    workspace: &str,
    extra_ro_paths: &Vec<String>,
    sys_ro_paths: &Vec<String>,
) -> (r: CompilePlan)
    ensures
        r.source_file@ == workspace@ + "/"@ + "input.rr"@,
        r.output_file@ == workspace@ + "/"@ + "output."@ + spec_mode_ext(*mode),
        r.timeout_secs == ccfg.compile_timeout_secs,
        scfg.kind is Passthrough ==> r.command.program@ == ccfg.path@
            && r.command.args.deep_view() == spec_compiler_args(
            r.source_file@,
            r.output_file@,
            *mode,
        ) && r.command.fs_rules@.len() == 0,
        scfg.kind is Bwrap ==> r.command.program@ == spec_bwrap_program(*scfg)
            && r.command.args.deep_view() == spec_bwrap_args(
            sys_ro_paths.deep_view(),
            workspace@,
            extra_ro_paths.deep_view(),
            ccfg.path@,
            spec_compiler_args(r.source_file@, r.output_file@, *mode),
        ) && r.command.fs_rules@.len() == 0,
        scfg.kind is Landlock ==> r.command.program@ == ccfg.path@
            && r.command.args.deep_view() == spec_compiler_args(
            r.source_file@,
            r.output_file@,
            *mode,
        ) && r.command.fs_rules.deep_view() == spec_landlock_rules(
            sys_ro_paths.deep_view(),
            workspace@,
            extra_ro_paths.deep_view(),
        ),
        r.command.env@.len() == 0,
        r.command.current_dir is None,
{
    let source_file = join_path(workspace, "input.rr");
    let mut out_name = "output.".to_owned();
    match mode {
        Mode::LlvmIr => out_name.append("ll"),
        Mode::Asm => out_name.append("s"),
        Mode::Mlir => out_name.append("mlir"),
        Mode::Run => out_name.append("o"),
    }
    let output_file = join_path(workspace, out_name.as_str());
    proof {
        assert(output_file@ == workspace@ + "/"@ + ("output."@ + spec_mode_ext(*mode)));
        assert(workspace@ + "/"@ + ("output."@ + spec_mode_ext(*mode)) =~= workspace@ + "/"@
            + "output."@ + spec_mode_ext(*mode));
    }
    let args = compiler_args(&source_file, &output_file, mode);
    let wd: String = workspace.to_owned();
    let command = wrap(scfg, &ccfg.path, &args, &wd, extra_ro_paths, sys_ro_paths);
    CompilePlan {
        source_file,
        output_file,
        command,
        timeout_secs: ccfg.compile_timeout_secs,
    }
}

/// Decide after the sandboxed compiler run.  A timeout is a
/// [`CompileError::Timeout`], never an exit failure; a nonzero exit
/// carries the captured stdout then stderr, verbatim and untruncated.
pub fn after_compiler(outcome: ProcessOutcome) -> (r: Result<(), CompileError>)
    ensures
        outcome matches ProcessOutcome::Finished { ok, stdout, stderr } ==> {
            &&& ok ==> r is Ok
            &&& !ok ==> (r matches Err(CompileError::ExitFailure(m)) && m@ == stdout@ + stderr@)
        },
        outcome is TimedOut ==> (r matches Err(CompileError::Timeout(m)) && m@
            == "compiler timed out"@),
        outcome is SpawnFailed ==> (r matches Err(CompileError::Io(m)) && m@
            == "failed to spawn compiler"@),
{
    match outcome {
        ProcessOutcome::Finished { ok, stdout, stderr } => {
            if ok {
                Ok(())
            } else {
                let mut m = stdout;
                m.append(stderr.as_str());
                Err(CompileError::ExitFailure(m))
            }
        },
        ProcessOutcome::TimedOut => Err(CompileError::Timeout("compiler timed out".to_owned())),
        ProcessOutcome::SpawnFailed => Err(
            CompileError::Io("failed to spawn compiler".to_owned()),
        ),
    }
}

/// Decide after the secondary build.  A timeout stays distinct from an
/// exit failure; a nonzero exit carries the build tool's stderr.
pub fn after_build(outcome: ProcessOutcome) -> (r: Result<(), CompileError>)
    ensures
        outcome matches ProcessOutcome::Finished { ok, stdout, stderr } ==> {
            &&& ok ==> r is Ok
            &&& !ok ==> (r matches Err(CompileError::ExitFailure(m)) && m@
                == "harness build failed:\n"@ + stderr@)
        },
        outcome is TimedOut ==> (r matches Err(CompileError::Timeout(m)) && m@
            == "cargo build timed out"@),
        outcome is SpawnFailed ==> (r matches Err(CompileError::Io(m)) && m@
            == "failed to spawn cargo"@),
{
    match outcome {
        ProcessOutcome::Finished { ok, stdout: _, stderr } => {
            if ok {
                Ok(())
            } else {
                let mut m = "harness build failed:\n".to_owned();
                m.append(stderr.as_str());
                Err(CompileError::ExitFailure(m))
            }
        },
        ProcessOutcome::TimedOut => Err(CompileError::Timeout("cargo build timed out".to_owned())),
        ProcessOutcome::SpawnFailed => Err(CompileError::Io("failed to spawn cargo".to_owned())),
    }
}

/// The manifest of the ephemeral build project: it depends on the trusted
/// runtime library, located by path, and builds a small stripped release
/// binary.
pub open spec fn spec_harness_manifest(rt: Seq<char>) -> Seq<char> {
    "[package]\nname = \"playground-run\"\nversion = \"0.1.0\"\nedition = \"2024\"\n\n[dependencies]\nreussir-rt = { path = \""@
        + rt
        + "\" }\n\n[profile.release]\nopt-level = \"z\"\nlto = true\npanic = \"abort\"\nstrip = true\n"@
}

/// The build script of the ephemeral project: it instructs the linker to
/// pull in the compiled object file.
pub open spec fn spec_build_script(obj: Seq<char>) -> Seq<char> {
    "fn main() {\n    println!(\"cargo:rustc-link-arg="@ + obj + "\");\n}\n"@
}

/// The files of the ephemeral build project, as relative-path/content
/// pairs: the manifest, the build script, and the generated harness as
/// the program entry point.
pub open spec fn spec_build_project(rt: Seq<char>, obj: Seq<char>, harness: Seq<char>) -> Seq<
    (Seq<char>, Seq<char>),
> {
    seq![
        ("Cargo.toml"@, spec_harness_manifest(rt)),
        ("build.rs"@, spec_build_script(obj)),
        ("src/main.rs"@, harness),
    ]
}

/// Assemble the ephemeral build project for a run-mode request.
///
/// `rt_path` locates the trusted runtime library; `object_path` is the
/// absolute path of the compiled object (already past the sandboxed
/// compiler, so the build itself is not sandboxed); `harness` is the
/// generated host program.
pub fn build_project_files(rt_path: &String, object_path: &String, harness: String) -> (r: Vec<
    (String, String),
>)
    ensures
        r.deep_view() == spec_build_project(rt_path@, object_path@, harness@),
{
    let mut manifest =
        "[package]\nname = \"playground-run\"\nversion = \"0.1.0\"\nedition = \"2024\"\n\n[dependencies]\nreussir-rt = { path = \"".to_owned();
    manifest.append(rt_path.as_str());
    manifest.append(
        "\" }\n\n[profile.release]\nopt-level = \"z\"\nlto = true\npanic = \"abort\"\nstrip = true\n",
    );
    let mut script = "fn main() {\n    println!(\"cargo:rustc-link-arg=".to_owned();
    script.append(object_path.as_str());
    script.append("\");\n}\n");
    let mut files: Vec<(String, String)> = Vec::new();
    files.push(("Cargo.toml".to_owned(), manifest));
    files.push(("build.rs".to_owned(), script));
    files.push(("src/main.rs".to_owned(), harness));
    proof {
        assert(files.deep_view() =~= spec_build_project(rt_path@, object_path@, harness@));
    }
    files
}

/// Plan the secondary build: the build tool, in the project directory,
/// with the shared cache directory in its environment.  The build is not
/// sandboxed — its inputs are the trusted runtime library and a
/// compiler-verified object — and the shared cache's concurrency safety
/// is the build tool's own lock discipline.
pub fn build_command(cargo_target_dir: &String, project_dir: &String) -> (r: CommandSpec)
    ensures
        r.program@ == "cargo"@,
        r.args.deep_view() == seq!["build"@, "--release"@, "--target"@, "wasm32-wasip1"@],
        r.env.deep_view() == seq![("CARGO_TARGET_DIR"@, cargo_target_dir@)],
        r.current_dir matches Some(d) && d@ == project_dir@,
        r.fs_rules@.len() == 0,
{
    let mut args: Vec<String> = Vec::new();
    args.push("build".to_owned());
    args.push("--release".to_owned());
    args.push("--target".to_owned());
    args.push("wasm32-wasip1".to_owned());
    let mut env: Vec<(String, String)> = Vec::new();
    env.push(("CARGO_TARGET_DIR".to_owned(), cargo_target_dir.clone()));
    proof {
        assert(args.deep_view() =~= seq!["build"@, "--release"@, "--target"@, "wasm32-wasip1"@]);
        assert(env.deep_view() =~= seq![("CARGO_TARGET_DIR"@, cargo_target_dir@)]);
    }
    CommandSpec {
        program: "cargo".to_owned(),
        args,
        env,
        current_dir: Some(project_dir.clone()),
        fs_rules: Vec::new(),
    }
}

/// The fixed, predictable path of the produced artifact under the shared
/// cache directory.
pub fn artifact_path(cargo_target_dir: &String) -> (r: String)
    ensures
        r@ == cargo_target_dir@ + "/wasm32-wasip1/release/playground-run.wasm"@,
{
    let mut p = cargo_target_dir.clone();
    p.append("/wasm32-wasip1/release/playground-run.wasm");
    p
}

/// The internal-error diagnostic for an artifact missing after a
/// reported-successful build: a bug signal, distinct from user error,
/// never silently retried.
pub fn missing_artifact_error(path: &String) -> (r: CompileError)
    ensures
        r matches CompileError::MissingArtifact(m) && m@ == "wasm output not found at "@ + path@,
{
    let mut m = "wasm output not found at ".to_owned();
    m.append(path.as_str());
    CompileError::MissingArtifact(m)
}

/// How a request starts: rejected outright, or with a planned compiler
/// invocation.
pub enum RequestStart {
    /// Respond immediately; no process may be spawned for this request.
    Reject(CompileResponse),
    /// A text mode: write the source, run the plan, read the output file.
    Text(CompilePlan),
    /// Run mode: write the source, run the plan; on success the
    /// already-validated harness text enters the secondary build.
    Run(CompilePlan, String),
}

/// What the compiler plan of a request must be: the fixed file names in
/// the workspace, the configured timeout, and the backend's confined
/// command exactly.
pub open spec fn spec_plan_ok(
    r: CompilePlan,
    ccfg: CompilerConfig,
    scfg: SandboxConfig,
    mode: Mode,
    workspace: Seq<char>,
    extra: Seq<Seq<char>>,
    sys: Seq<Seq<char>>,
) -> bool {
    &&& r.source_file@ == workspace + "/"@ + "input.rr"@
    &&& r.output_file@ == workspace + "/"@ + "output."@ + spec_mode_ext(mode)
    &&& r.timeout_secs == ccfg.compile_timeout_secs
    &&& (scfg.kind is Passthrough ==> r.command.program@ == ccfg.path@
        && r.command.args.deep_view() == spec_compiler_args(r.source_file@, r.output_file@, mode)
        && r.command.fs_rules@.len() == 0)
    &&& (scfg.kind is Bwrap ==> r.command.program@ == spec_bwrap_program(scfg)
        && r.command.args.deep_view() == spec_bwrap_args(
        sys,
        workspace,
        extra,
        ccfg.path@,
        spec_compiler_args(r.source_file@, r.output_file@, mode),
    ) && r.command.fs_rules@.len() == 0)
    &&& (scfg.kind is Landlock ==> r.command.program@ == ccfg.path@
        && r.command.args.deep_view() == spec_compiler_args(r.source_file@, r.output_file@, mode)
        && r.command.fs_rules.deep_view() == spec_landlock_rules(sys, workspace, extra))
    &&& r.command.env@.len() == 0
    &&& r.command.current_dir is None
}

/// Start one request: validate everything that needs no process, then
/// plan the compiler invocation.
///
/// An unknown mode is rejected with a diagnostic naming it; a run-mode
/// request whose harness does not generate is rejected with the
/// harness diagnostic.  Both rejections carry no command, so no process
/// is spawned for them — the cheap validation precedes the sandboxed
/// compile.
pub fn start_request(
    req: &CompileRequest,
    ccfg: &CompilerConfig,
    scfg: &SandboxConfig,
    workspace: &str,
    extra_ro_paths: &Vec<String>,
    sys_ro_paths: &Vec<String>,
) -> (r: RequestStart)
    ensures
        spec_parse_mode(req.mode@) is None ==> (r matches RequestStart::Reject(resp)
            && !resp.success && resp.wf() && (resp.error matches Some(m) && m@
            == "unknown mode: "@ + req.mode@)),
        spec_parse_mode(req.mode@) == Some(Mode::Run) && !spec_gen_ok(req.source@) ==> (r matches
        RequestStart::Reject(resp) && !resp.success && resp.wf() && (resp.error matches Some(m)
            && m@ == spec_gen_err(req.source@))),
        spec_parse_mode(req.mode@) matches Some(m) ==> (!(m is Run) ==> (r matches
        RequestStart::Text(plan) && spec_plan_ok(
            plan,
            *ccfg,
            *scfg,
            m,
            workspace@,
            extra_ro_paths.deep_view(),
            sys_ro_paths.deep_view(),
        ))),
        spec_parse_mode(req.mode@) == Some(Mode::Run) && spec_gen_ok(req.source@) ==> (r matches
        RequestStart::Run(plan, h) && spec_plan_ok(
            plan,
            *ccfg,
            *scfg,
            Mode::Run,
            workspace@,
            extra_ro_paths.deep_view(),
            sys_ro_paths.deep_view(),
        ) && h@ == spec_harness_text(req.source@, req.driver@)),
{
    match classify_request(req) {
        Err(e) => RequestStart::Reject(e.into_response()),
        Ok(mode) => match mode {
            Mode::Run => match generate_harness(req.source.as_str(), req.driver.as_str()) {
                Err(msg) => RequestStart::Reject(CompileError::Harness(msg).into_response()),
                Ok(harness) => {
                    let plan = plan_compile(
                        ccfg,
                        scfg,
                        &Mode::Run,
                        workspace,
                        extra_ro_paths,
                        sys_ro_paths,
                    );
                    RequestStart::Run(plan, harness)
                },
            },
            _ => {
                let plan = plan_compile(ccfg, scfg, &mode, workspace, extra_ro_paths, sys_ro_paths);
                RequestStart::Text(plan)
            },
        },
    }
}

} // verus!
