//! Compiler, build and sandbox settings.
//!
//! Settings are chosen once at process startup and are immutable
//! thereafter; every request reads the same values.  Paths are held as
//! plain text here — the process boundary that spawns the compiler
//! interprets them.

use vstd::prelude::*;

verus! {

/// Compiler and secondary-build settings.
pub struct CompilerConfig {
    /// Path to the compiler binary.
    pub path: String,
    /// Optional directory holding the compiler's shared libraries; granted
    /// read-only inside the sandbox.
    pub lib_path: Option<String>,
    /// Path to the trusted runtime-library project the secondary build
    /// links against.
    pub rt_path: String,
    /// Shared build-cache directory reused across requests.
    pub cargo_target_dir: String,
    /// Timeout for one compiler invocation, in seconds.
    pub compile_timeout_secs: u64,
    /// Timeout for one secondary build, in seconds.
    pub cargo_timeout_secs: u64,
}

/// Default shared build-cache directory.
pub fn cargo_target_dir() -> (r: String)
    ensures
        r@ == "playground-target"@,
{
    "playground-target".to_owned()
}

/// Default timeout for one compiler invocation, in seconds.
pub fn compile_timeout_secs() -> (r: u64)
    ensures
        r == 30,
{
    30
}

/// Default timeout for one secondary build, in seconds.
pub fn cargo_timeout_secs() -> (r: u64)
    ensures
        r == 180,
{
    180
}

/// The isolation backend a sandboxed invocation uses.
pub enum SandboxKind {
    /// Wrap the compiler in the bubblewrap helper binary.
    Bwrap,
    /// Apply Linux Landlock rules to the child process before it starts.
    Landlock,
    /// No isolation — development only.
    Passthrough,
}

/// Sandbox selection, fixed at startup.
pub struct SandboxConfig {
    pub kind: SandboxKind,
    /// Path to the bubblewrap helper binary; `None` means it is found on
    /// the search path under its usual name.
    pub bwrap_path: Option<String>,
}

impl Default for SandboxConfig {
    /// The default sandbox: bubblewrap, located via the search path.
    fn default() -> (r: Self)
        ensures
            r.kind is Bwrap,
            r.bwrap_path is None,
    {
        SandboxConfig { kind: SandboxKind::Bwrap, bwrap_path: None }
    }
}

} // verus!
