//! Sandbox planning: turn a program invocation into a confined invocation
//! under a selectable backend.
//!
//! The planner computes a ready-to-launch process description as plain
//! data.  For the namespace backend the description is a helper-binary
//! argument vector pinned exactly by [`spec_bwrap_args`]; for the LSM
//! backend it is the original invocation plus an access-rule list pinned by
//! [`spec_landlock_rules`].  Either way the access plan grants write access
//! to the work directory alone ([`lemma_confinement`]); enforcing the plan
//! is the backend's job, outside this crate.

use vstd::prelude::*;

use crate::config::SandboxConfig;
use crate::config::SandboxKind;

verus! {

/// Model of one filesystem access rule: a path and whether it is writable.
pub type FsRule = (Seq<char>, bool);

/// One filesystem access rule of an access plan.
pub struct PathRule {
    pub path: String,
    pub write: bool,
}

impl View for PathRule {
    type V = FsRule;

    open spec fn view(&self) -> FsRule {
        (self.path@, self.write)
    }
}

impl DeepView for PathRule {
    type V = FsRule;

    open spec fn deep_view(&self) -> FsRule {
        self.view()
    }
}

/// A ready-to-launch process description: program, arguments, extra
/// environment entries, optional working directory, and access rules to
/// apply to the child process before its program image starts (used by the
/// LSM backend only).
pub struct CommandSpec {
    pub program: String,
    pub args: Vec<String>,
    pub env: Vec<(String, String)>,
    pub current_dir: Option<String>,
    pub fs_rules: Vec<PathRule>,
}

/// Read-only rules over the given paths, in order.
pub open spec fn spec_ro_rules(paths: Seq<Seq<char>>) -> Seq<FsRule> {
    paths.map_values(|p: Seq<char>| (p, false))
}

/// The access plan of a namespace-backend invocation, in bind order:
/// system paths read-only, then the work directory read-write, then the
/// extra paths read-only.
pub open spec fn spec_bwrap_rules(sys: Seq<Seq<char>>, wd: Seq<char>, extra: Seq<Seq<char>>) -> Seq<
    FsRule,
> {
    spec_ro_rules(sys) + seq![(wd, true)] + spec_ro_rules(extra)
}

/// The access plan of an LSM-backend invocation: system paths and extra
/// paths read-only, the work directory read-write.
pub open spec fn spec_landlock_rules(
    sys: Seq<Seq<char>>,
    wd: Seq<char>,
    extra: Seq<Seq<char>>,
) -> Seq<FsRule> {
    spec_ro_rules(sys) + spec_ro_rules(extra) + seq![(wd, true)]
}

/// The helper-binary arguments that render an access rule: a bind flag
/// matching the rule's mode, then the path twice (source and destination).
pub open spec fn spec_rule_args(rules: Seq<FsRule>) -> Seq<Seq<char>>
    decreases rules.len(),
{
    if rules.len() == 0 {
        Seq::empty()
    } else {
        seq![
            if rules[0].1 {
                "--bind"@
            } else {
                "--ro-bind"@
            },
            rules[0].0,
            rules[0].0,
        ] + spec_rule_args(rules.drop_first())
    }
}

proof fn lemma_rule_args_push(rules: Seq<FsRule>, r: FsRule)
    ensures
        spec_rule_args(rules.push(r)) =~= spec_rule_args(rules) + seq![
            if r.1 {
                "--bind"@
            } else {
                "--ro-bind"@
            },
            r.0,
            r.0,
        ],
    decreases rules.len(),
{
    if rules.len() == 0 {
        assert(rules.push(r)[0] == r);
        assert(rules.push(r).drop_first() =~= Seq::<FsRule>::empty());
        assert(spec_rule_args(Seq::<FsRule>::empty()) == Seq::<Seq<char>>::empty());
    } else {
        lemma_rule_args_push(rules.drop_first(), r);
        assert(rules.push(r).drop_first() =~= rules.drop_first().push(r));
        assert(rules.push(r)[0] == rules[0]);
    }
}

/// The complete helper-binary argument vector of a namespace-backend
/// invocation: unshare the user, IPC and UTS namespaces; bind the system
/// paths read-only; mount fresh process, device and temporary filesystems;
/// bind the work directory read-write and the extra paths read-only; die
/// with the parent; then the program and its arguments.
pub open spec fn spec_bwrap_args(
    sys: Seq<Seq<char>>,
    wd: Seq<char>,
    extra: Seq<Seq<char>>,
    program: Seq<char>,
    args: Seq<Seq<char>>,
) -> Seq<Seq<char>> {
    seq!["--unshare-user"@, "--unshare-ipc"@, "--unshare-uts"@] + spec_rule_args(
        spec_ro_rules(sys),
    ) + seq!["--proc"@, "/proc"@, "--dev"@, "/dev"@, "--tmpfs"@, "/tmp"@] + spec_rule_args(
        seq![(wd, true)],
    ) + spec_rule_args(spec_ro_rules(extra)) + seq!["--die-with-parent"@, "--"@, program] + args
}

/// The helper binary a namespace-backend invocation runs: the configured
/// override, or the usual name found on the search path.
pub open spec fn spec_bwrap_program(cfg: SandboxConfig) -> Seq<char> {
    match cfg.bwrap_path {
        Some(p) => p@,
        None => "bwrap"@,
    }
}

/// Both backends' access plans grant write access to the work directory
/// alone: every writable rule names the work directory, exactly one rule
/// is writable, and every read-only rule names one of the given system or
/// extra paths.  What the child may touch is therefore pinned by the
/// arguments of the plan, never by the untrusted program under it.
pub proof fn lemma_confinement(sys: Seq<Seq<char>>, wd: Seq<char>, extra: Seq<Seq<char>>)
    ensures
        forall|q: int|
            0 <= q < spec_bwrap_rules(sys, wd, extra).len() && (#[trigger] spec_bwrap_rules(
                sys,
                wd,
                extra,
            )[q]).1 ==> spec_bwrap_rules(sys, wd, extra)[q].0 == wd,
        forall|q: int|
            0 <= q < spec_bwrap_rules(sys, wd, extra).len() && !(#[trigger] spec_bwrap_rules(
                sys,
                wd,
                extra,
            )[q]).1 ==> sys.contains(spec_bwrap_rules(sys, wd, extra)[q].0) || extra.contains(
                spec_bwrap_rules(sys, wd, extra)[q].0,
            ),
        spec_bwrap_rules(sys, wd, extra).filter(|r: FsRule| r.1) =~= seq![(wd, true)],
        forall|q: int|
            0 <= q < spec_landlock_rules(sys, wd, extra).len() && (#[trigger] spec_landlock_rules(
                sys,
                wd,
                extra,
            )[q]).1 ==> spec_landlock_rules(sys, wd, extra)[q].0 == wd,
        forall|q: int|
            0 <= q < spec_landlock_rules(sys, wd, extra).len() && !(#[trigger] spec_landlock_rules(
                sys,
                wd,
                extra,
            )[q]).1 ==> sys.contains(spec_landlock_rules(sys, wd, extra)[q].0) || extra.contains(
                spec_landlock_rules(sys, wd, extra)[q].0,
            ),
        spec_landlock_rules(sys, wd, extra).filter(|r: FsRule| r.1) =~= seq![(wd, true)],
{
    let b = spec_bwrap_rules(sys, wd, extra);
    let l = spec_landlock_rules(sys, wd, extra);
    assert forall|q: int| 0 <= q < b.len() implies (b[q].1 ==> b[q].0 == wd) && (!b[q].1 ==> (
    sys.contains(b[q].0) || extra.contains(b[q].0))) by {
        if q < sys.len() {
            assert(b[q] == (sys[q], false));
            assert(sys.contains(sys[q]));
        } else if q == sys.len() {
            assert(b[q] == (wd, true));
        } else {
            assert(b[q] == (extra[q - sys.len() - 1], false));
            assert(extra.contains(extra[q - sys.len() - 1]));
        }
    }
    assert forall|q: int| 0 <= q < l.len() implies (l[q].1 ==> l[q].0 == wd) && (!l[q].1 ==> (
    sys.contains(l[q].0) || extra.contains(l[q].0))) by {
        if q < sys.len() {
            assert(l[q] == (sys[q], false));
            assert(sys.contains(sys[q]));
        } else if q < sys.len() + extra.len() {
            assert(l[q] == (extra[q - sys.len()], false));
            assert(extra.contains(extra[q - sys.len()]));
        } else {
            assert(l[q] == (wd, true));
        }
    }
    lemma_single_write_filter(sys, wd, extra);
}

proof fn lemma_filter_ro(rules: Seq<FsRule>)
    requires
        forall|q: int| 0 <= q < rules.len() ==> !(#[trigger] rules[q]).1,
    ensures
        rules.filter(|r: FsRule| r.1) =~= Seq::<FsRule>::empty(),
    decreases rules.len(),
{
    reveal(Seq::filter);
    if rules.len() > 0 {
        assert(forall|q: int|
            0 <= q < rules.drop_last().len() ==> !(#[trigger] rules.drop_last()[q]).1);
        lemma_filter_ro(rules.drop_last());
    }
}

proof fn lemma_single_write_filter(sys: Seq<Seq<char>>, wd: Seq<char>, extra: Seq<Seq<char>>)
    ensures
        spec_bwrap_rules(sys, wd, extra).filter(|r: FsRule| r.1) =~= seq![(wd, true)],
        spec_landlock_rules(sys, wd, extra).filter(|r: FsRule| r.1) =~= seq![(wd, true)],
{
    let f = |r: FsRule| r.1;
    let rs = spec_ro_rules(sys);
    let re = spec_ro_rules(extra);
    let w: Seq<FsRule> = seq![(wd, true)];
    assert(forall|q: int| 0 <= q < rs.len() ==> !(#[trigger] rs[q]).1);
    assert(forall|q: int| 0 <= q < re.len() ==> !(#[trigger] re[q]).1);
    lemma_filter_ro(rs);
    lemma_filter_ro(re);
    reveal(Seq::filter);
    assert(w.filter(f) =~= w) by {
        assert(w.drop_last() =~= Seq::<FsRule>::empty());
        assert(w.last() == (wd, true));
    }
    Seq::<FsRule>::filter_distributes_over_add(rs, w, f);
    Seq::<FsRule>::filter_distributes_over_add(rs + w, re, f);
    Seq::<FsRule>::filter_distributes_over_add(rs, re, f);
    Seq::<FsRule>::filter_distributes_over_add(rs + re, w, f);
    assert((rs + w + re).filter(f) =~= seq![(wd, true)]);
    assert((rs + re + w).filter(f) =~= seq![(wd, true)]);
}

/// Relies on `std::path::Path::exists`: whether the path names an existing
/// filesystem object.  The answer depends on the host's disk state, so
/// nothing is promised of it; callers grant access for either outcome.
#[verifier::external_body]
fn path_exists(p: &String) -> bool {
    std::path::Path::new(p.as_str()).exists()
}

/// The standard locations the namespace backend offers read-only so a
/// dynamically linked binary can run: library and binary directories and
/// the dynamic-linker cache and configuration.
pub open spec fn spec_bwrap_sys_candidates() -> Seq<Seq<char>> {
    seq![
        "/usr"@,
        "/bin"@,
        "/sbin"@,
        "/lib"@,
        "/lib64"@,
        "/lib32"@,
        "/nix"@,
        "/etc/ld.so.cache"@,
        "/etc/ld.so.conf"@,
        "/etc/alternatives"@,
    ]
}

/// The standard locations the LSM backend grants read-only.
pub open spec fn spec_landlock_sys_candidates() -> Seq<Seq<char>> {
    seq!["/usr"@, "/bin"@, "/sbin"@, "/lib"@, "/lib64"@, "/lib32"@, "/nix"@, "/etc"@]
}

fn push_arg(args: &mut Vec<String>, a: &str)
    ensures
        final(args).deep_view() == old(args).deep_view().push(a@),
{
    let ghost old_dv = args.deep_view();
    args.push(a.to_owned());
    proof {
        assert(args.deep_view() =~= old_dv.push(a@));
    }
}

fn push_arg_string(args: &mut Vec<String>, a: &String)
    ensures
        final(args).deep_view() == old(args).deep_view().push(a@),
{
    let ghost old_dv = args.deep_view();
    args.push(a.clone());
    proof {
        assert(args.deep_view() =~= old_dv.push(a@));
    }
}

/// Append the helper-binary rendering of one access rule.
fn push_rule_args(args: &mut Vec<String>, path: &String, write: bool)
    ensures
        final(args).deep_view() == old(args).deep_view() + seq![
            if write {
                "--bind"@
            } else {
                "--ro-bind"@
            },
            path@,
            path@,
        ],
{
    let ghost old_dv = args.deep_view();
    if write {
        push_arg(args, "--bind");
    } else {
        push_arg(args, "--ro-bind");
    }
    push_arg_string(args, path);
    push_arg_string(args, path);
    proof {
        assert(args.deep_view() =~= old_dv + seq![
            if write {
                "--bind"@
            } else {
                "--ro-bind"@
            },
            path@,
            path@,
        ]);
    }
}

/// Executable copy of the namespace backend's standard locations.
pub fn bwrap_sys_candidates() -> (r: Vec<String>)
    ensures
        r.deep_view() == spec_bwrap_sys_candidates(),
{
    let mut v: Vec<String> = Vec::new();
    push_arg(&mut v, "/usr");
    push_arg(&mut v, "/bin");
    push_arg(&mut v, "/sbin");
    push_arg(&mut v, "/lib");
    push_arg(&mut v, "/lib64");
    push_arg(&mut v, "/lib32");
    push_arg(&mut v, "/nix");
    push_arg(&mut v, "/etc/ld.so.cache");
    push_arg(&mut v, "/etc/ld.so.conf");
    push_arg(&mut v, "/etc/alternatives");
    proof {
        assert(v.deep_view() =~= spec_bwrap_sys_candidates());
    }
    v
}

/// Executable copy of the LSM backend's standard locations.
pub fn landlock_sys_candidates() -> (r: Vec<String>)
    ensures
        r.deep_view() == spec_landlock_sys_candidates(),
{
    let mut v: Vec<String> = Vec::new();
    push_arg(&mut v, "/usr");
    push_arg(&mut v, "/bin");
    push_arg(&mut v, "/sbin");
    push_arg(&mut v, "/lib");
    push_arg(&mut v, "/lib64");
    push_arg(&mut v, "/lib32");
    push_arg(&mut v, "/nix");
    push_arg(&mut v, "/etc");
    proof {
        assert(v.deep_view() =~= spec_landlock_sys_candidates());
    }
    v
}

/// Keep the paths that exist on the host, in order; optional locations
/// absent from the host are silently skipped.
pub fn existing_paths(paths: &Vec<String>) -> (r: Vec<String>)
    ensures
        forall|q: int|
            0 <= q < r.deep_view().len() ==> paths.deep_view().contains(
                #[trigger] r.deep_view()[q],
            ),
{
    let mut out: Vec<String> = Vec::new();
    let mut k: usize = 0;
    while k < paths.len()
        invariant
            0 <= k <= paths.len(),
            forall|q: int|
                0 <= q < out.deep_view().len() ==> paths.deep_view().contains(
                    #[trigger] out.deep_view()[q],
                ),
        decreases paths.len() - k,
    {
        if path_exists(&paths[k]) {
            let ghost old_dv = out.deep_view();
            out.push(paths[k].clone());
            proof {
                assert(out.deep_view() =~= old_dv.push(paths@[k as int]@));
                assert(paths.deep_view()[k as int] == paths@[k as int]@);
                assert(paths.deep_view().contains(paths.deep_view()[k as int]));
            }
        }
        k = k + 1;
    }
    out
}

fn clone_strings(v: &Vec<String>) -> (r: Vec<String>)
    ensures
        r.deep_view() == v.deep_view(),
{
    let mut out: Vec<String> = Vec::new();
    let mut k: usize = 0;
    while k < v.len()
        invariant
            0 <= k <= v.len(),
            out.deep_view() =~= v.deep_view().take(k as int),
        decreases v.len() - k,
    {
        let ghost old_dv = out.deep_view();
        out.push(v[k].clone());
        proof {
            assert(out.deep_view() =~= old_dv.push(v@[k as int]@));
            assert(v.deep_view()[k as int] == v@[k as int]@);
            assert(out.deep_view() =~= v.deep_view().take(k as int + 1));
        }
        k = k + 1;
    }
    proof {
        assert(v.deep_view().take(v@.len() as int) =~= v.deep_view());
    }
    out
}

/// Append the rendering of read-only rules over all the given paths.
fn push_ro_rules(args: &mut Vec<String>, paths: &Vec<String>)
    ensures
        final(args).deep_view() == old(args).deep_view() + spec_rule_args(
            spec_ro_rules(paths.deep_view()),
        ),
{
    let ghost base = args.deep_view();
    let ghost pdv = paths.deep_view();
    let mut k: usize = 0;
    proof {
        assert(spec_ro_rules(pdv.take(0)) =~= Seq::<FsRule>::empty());
        assert(args.deep_view() =~= base + spec_rule_args(spec_ro_rules(pdv.take(0))));
    }
    while k < paths.len()
        invariant
            0 <= k <= paths.len(),
            pdv == paths.deep_view(),
            args.deep_view() == base + spec_rule_args(spec_ro_rules(pdv.take(k as int))),
        decreases paths.len() - k,
    {
        push_rule_args(args, &paths[k], false);
        proof {
            assert(pdv[k as int] == paths@[k as int]@);
            lemma_rule_args_push(spec_ro_rules(pdv.take(k as int)), (pdv[k as int], false));
            assert(spec_ro_rules(pdv.take(k as int + 1)) =~= spec_ro_rules(
                pdv.take(k as int),
            ).push((pdv[k as int], false)));
            assert(args.deep_view() =~= base + spec_rule_args(
                spec_ro_rules(pdv.take(k as int + 1)),
            ));
        }
        k = k + 1;
    }
    proof {
        assert(pdv.take(paths@.len() as int) =~= pdv);
    }
}

/// Plan a namespace-backend invocation: the helper binary with the
/// argument vector of [`spec_bwrap_args`].
fn bwrap_command(
    cfg: &SandboxConfig,
    program: &String,
    args: &Vec<String>,
    work_dir: &String,
    extra_ro_paths: &Vec<String>,
    sys_ro_paths: &Vec<String>,
) -> (r: CommandSpec)
    ensures
        r.program@ == spec_bwrap_program(*cfg),
        r.args.deep_view() == spec_bwrap_args(
            sys_ro_paths.deep_view(),
            work_dir@,
            extra_ro_paths.deep_view(),
            program@,
            args.deep_view(),
        ),
        r.env@.len() == 0,
        r.current_dir is None,
        r.fs_rules@.len() == 0,
{
    let mut a: Vec<String> = Vec::new();
    push_arg(&mut a, "--unshare-user");
    push_arg(&mut a, "--unshare-ipc");
    push_arg(&mut a, "--unshare-uts");
    let ghost s1 = seq!["--unshare-user"@, "--unshare-ipc"@, "--unshare-uts"@];
    proof {
        assert(a.deep_view() =~= s1);
    }
    push_ro_rules(&mut a, sys_ro_paths);
    let ghost s2 = spec_rule_args(spec_ro_rules(sys_ro_paths.deep_view()));
    push_arg(&mut a, "--proc");
    push_arg(&mut a, "/proc");
    push_arg(&mut a, "--dev");
    push_arg(&mut a, "/dev");
    push_arg(&mut a, "--tmpfs");
    push_arg(&mut a, "/tmp");
    let ghost s3 = seq!["--proc"@, "/proc"@, "--dev"@, "/dev"@, "--tmpfs"@, "/tmp"@];
    proof {
        assert(a.deep_view() =~= s1 + s2 + s3);
    }
    push_rule_args(&mut a, work_dir, true);
    let ghost s4 = spec_rule_args(seq![(work_dir@, true)]);
    proof {
        assert(seq![(work_dir@, true)].drop_first() =~= Seq::<FsRule>::empty());
        assert(seq![(work_dir@, true)][0] == (work_dir@, true));
        assert(spec_rule_args(Seq::<FsRule>::empty()) == Seq::<Seq<char>>::empty());
        assert(s4 =~= seq!["--bind"@, work_dir@, work_dir@]);
        assert(a.deep_view() =~= s1 + s2 + s3 + s4);
    }
    push_ro_rules(&mut a, extra_ro_paths);
    let ghost s5 = spec_rule_args(spec_ro_rules(extra_ro_paths.deep_view()));
    push_arg(&mut a, "--die-with-parent");
    push_arg(&mut a, "--");
    push_arg_string(&mut a, program);
    let ghost s6 = seq!["--die-with-parent"@, "--"@, program@];
    proof {
        assert(a.deep_view() =~= s1 + s2 + s3 + s4 + s5 + s6);
    }
    let ghost base = a.deep_view();
    let mut k: usize = 0;
    proof {
        assert(a.deep_view() =~= base + args.deep_view().take(0));
    }
    while k < args.len()
        invariant
            0 <= k <= args.len(),
            a.deep_view() == base + args.deep_view().take(k as int),
        decreases args.len() - k,
    {
        push_arg_string(&mut a, &args[k]);
        proof {
            assert(args.deep_view()[k as int] == args@[k as int]@);
            assert(a.deep_view() =~= base + args.deep_view().take(k as int + 1));
        }
        k = k + 1;
    }
    proof {
        assert(args.deep_view().take(args@.len() as int) =~= args.deep_view());
        assert(a.deep_view() =~= spec_bwrap_args(
            sys_ro_paths.deep_view(),
            work_dir@,
            extra_ro_paths.deep_view(),
            program@,
            args.deep_view(),
        ));
    }
    let prog: String = match &cfg.bwrap_path {
        Some(p) => p.clone(),
        None => "bwrap".to_owned(),
    };
    CommandSpec { program: prog, args: a, env: Vec::new(), current_dir: None, fs_rules: Vec::new() }
}

/// The LSM backend's access-rule list, in rule order.
fn landlock_rule_list(
    work_dir: &String,
    extra_ro_paths: &Vec<String>,
    sys_ro_paths: &Vec<String>,
) -> (r: Vec<PathRule>)
    ensures
        r.deep_view() == spec_landlock_rules(
            sys_ro_paths.deep_view(),
            work_dir@,
            extra_ro_paths.deep_view(),
        ),
{
    let mut rules: Vec<PathRule> = Vec::new();
    let ghost sdv = sys_ro_paths.deep_view();
    let ghost edv = extra_ro_paths.deep_view();
    let mut k: usize = 0;
    proof {
        assert(rules.deep_view() =~= spec_ro_rules(sdv.take(0)));
    }
    while k < sys_ro_paths.len()
        invariant
            0 <= k <= sys_ro_paths.len(),
            sdv == sys_ro_paths.deep_view(),
            rules.deep_view() == spec_ro_rules(sdv.take(k as int)),
        decreases sys_ro_paths.len() - k,
    {
        let ghost old_dv = rules.deep_view();
        rules.push(PathRule { path: sys_ro_paths[k].clone(), write: false });
        proof {
            assert(sdv[k as int] == sys_ro_paths@[k as int]@);
            assert(rules.deep_view() =~= old_dv.push((sdv[k as int], false)));
            assert(rules.deep_view() =~= spec_ro_rules(sdv.take(k as int + 1)));
        }
        k = k + 1;
    }
    proof {
        assert(sdv.take(sys_ro_paths@.len() as int) =~= sdv);
    }
    let mut k2: usize = 0;
    while k2 < extra_ro_paths.len()
        invariant
            0 <= k2 <= extra_ro_paths.len(),
            sdv == sys_ro_paths.deep_view(),
            edv == extra_ro_paths.deep_view(),
            rules.deep_view() == spec_ro_rules(sdv) + spec_ro_rules(edv.take(k2 as int)),
        decreases extra_ro_paths.len() - k2,
    {
        let ghost old_dv = rules.deep_view();
        rules.push(PathRule { path: extra_ro_paths[k2].clone(), write: false });
        proof {
            assert(edv[k2 as int] == extra_ro_paths@[k2 as int]@);
            assert(rules.deep_view() =~= old_dv.push((edv[k2 as int], false)));
            assert(rules.deep_view() =~= spec_ro_rules(sdv) + spec_ro_rules(
                edv.take(k2 as int + 1),
            ));
        }
        k2 = k2 + 1;
    }
    proof {
        assert(edv.take(extra_ro_paths@.len() as int) =~= edv);
    }
    let ghost old_dv = rules.deep_view();
    rules.push(PathRule { path: work_dir.clone(), write: true });
    proof {
        assert(rules.deep_view() =~= old_dv.push((work_dir@, true)));
        assert(rules.deep_view() =~= spec_landlock_rules(sdv, work_dir@, edv));
    }
    rules
}

/// Plan a confined invocation of `program args` under the configured
/// backend.
///
/// * `work_dir` — the per-request directory; the plan's only writable
///   path.
/// * `extra_ro_paths` / `sys_ro_paths` — paths granted read-only; the
///   caller passes what exists on the host (see [`existing_paths`]).
///
/// The passthrough backend runs the program unconfined; the namespace
/// backend yields the helper invocation of [`spec_bwrap_args`]; the LSM
/// backend yields the original invocation plus the access rules of
/// [`spec_landlock_rules`], applied to the child before its program image
/// starts.
pub fn wrap(
    cfg: &SandboxConfig,
    program: &String,
    args: &Vec<String>,
    work_dir: &String,
    extra_ro_paths: &Vec<String>,
    sys_ro_paths: &Vec<String>,
) -> (r: CommandSpec)
    ensures
        cfg.kind is Passthrough ==> r.program@ == program@ && r.args.deep_view()
            == args.deep_view() && r.fs_rules@.len() == 0,
        cfg.kind is Bwrap ==> r.program@ == spec_bwrap_program(*cfg) && r.args.deep_view()
            == spec_bwrap_args(
            sys_ro_paths.deep_view(),
            work_dir@,
            extra_ro_paths.deep_view(),
            program@,
            args.deep_view(),
        ) && r.fs_rules@.len() == 0,
        cfg.kind is Landlock ==> r.program@ == program@ && r.args.deep_view()
            == args.deep_view() && r.fs_rules.deep_view() == spec_landlock_rules(
            sys_ro_paths.deep_view(),
            work_dir@,
            extra_ro_paths.deep_view(),
        ),
        r.env@.len() == 0,
        r.current_dir is None,
{
    match cfg.kind {
        SandboxKind::Passthrough => CommandSpec {
            program: program.clone(),
            args: clone_strings(args),
            env: Vec::new(),
            current_dir: None,
            fs_rules: Vec::new(),
        },
        SandboxKind::Bwrap => bwrap_command(
            cfg,
            program,
            args,
            work_dir,
            extra_ro_paths,
            sys_ro_paths,
        ),
        SandboxKind::Landlock => CommandSpec {
            program: program.clone(),
            args: clone_strings(args),
            env: Vec::new(),
            current_dir: None,
            fs_rules: landlock_rule_list(work_dir, extra_ro_paths, sys_ro_paths),
        },
    }
}

} // verus!
