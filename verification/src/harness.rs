//! Harness generation: a narrow static analyzer that extracts
//! foreign-function bindings from submitted source text.
//!
//! The submitted source may declare *trampolines* — directives of the shape
//! `KW "C" trampoline "NAME" = func<ARGS>;`, where `KW` is the language's
//! foreign-linkage keyword — binding an exported symbol name to a function
//! defined in the same source.  The generator scans the source for
//! trampolines and for function signatures, resolves each trampoline against
//! exactly one signature, and emits a host program whose foreign
//! declarations mirror the resolved signatures and whose entry point runs a
//! caller-supplied driver snippet.
//!
//! The keyword fragments the scanner looks for, and those the emitter
//! writes, are assembled from halves (see [`spec_kw_foreign`]) so that this
//! file itself never contains a foreign-linkage declaration.

use vstd::prelude::*;

use crate::scan::angle_end;
use crate::scan::extract;
use crate::scan::find_char;
use crate::scan::lit_at;
use crate::scan::nonspace_end;
use crate::scan::skip_ws;
use crate::scan::spec_angle_end;
use crate::scan::spec_find_char;
use crate::scan::spec_lit_at;
use crate::scan::spec_nonspace_end;
use crate::scan::spec_skip_ws;
use crate::scan::spec_split_top;
use crate::scan::spec_trim;
use crate::scan::spec_word_end;
use crate::scan::split_top;
use crate::scan::trim;
use crate::scan::word_end;

verus! {

/// Model of a trampoline: exported name, target function name, type
/// arguments.
pub type TrampV = (Seq<char>, Seq<char>, Seq<Seq<char>>);

/// A trampoline declaration: bind exported symbol `ffi_name` to the function
/// `reussir_fn`, optionally instantiated with `type_args`.
pub struct Trampoline {
    pub ffi_name: String,
    pub reussir_fn: String,
    pub type_args: Vec<String>,
}

impl View for Trampoline {
    type V = TrampV;

    open spec fn view(&self) -> TrampV {
        (self.ffi_name@, self.reussir_fn@, self.type_args.deep_view())
    }
}

impl DeepView for Trampoline {
    type V = TrampV;

    open spec fn deep_view(&self) -> TrampV {
        self.view()
    }
}

/// The foreign-linkage keyword of the scanned language, assembled from two
/// halves so this file holds no foreign-linkage declaration of its own.
pub open spec fn spec_kw_foreign() -> Seq<char> {
    "ext"@ + "ern"@
}

/// Executable copy of the foreign-linkage keyword.
pub fn foreign_kw() -> (r: String)
    ensures
        r@ == spec_kw_foreign(),
{
    let mut s = "ext".to_owned();
    s.append("ern");
    s
}

/// The pieces of a comma-separated argument list, each trimmed.
pub open spec fn spec_args_of(content: Seq<char>) -> Seq<Seq<char>> {
    spec_split_top(content).map_values(|p: Seq<char>| spec_trim(p))
}

/// A trampoline declaration matched at position `h` onward, after the target
/// function name has been read: optional `<ARGS>`, then `;`.  Returns the
/// model and the position just past the `;`.
pub open spec fn spec_tramp_tail(
    s: Seq<char>,
    ffi: Seq<char>,
    target: Seq<char>,
    h: int,
) -> Option<(TrampV, int)> {
    if h < s.len() && s[h] == '<' {
        match spec_angle_end(s, h + 1, 0) {
            Some(k) => {
                if k == h + 1 {
                    None
                } else {
                    let m = spec_skip_ws(s, k + 1);
                    if m < s.len() && s[m] == ';' {
                        Some(((ffi, target, spec_args_of(s.subrange(h + 1, k))), m + 1))
                    } else {
                        None
                    }
                }
            },
            None => None,
        }
    } else if h < s.len() && s[h] == ';' {
        Some(((ffi, target, Seq::empty()), h + 1))
    } else {
        None
    }
}

/// A trampoline declaration matched starting exactly at position `i`: the
/// foreign-linkage keyword, whitespace, `"C"`, whitespace, `trampoline`,
/// whitespace, a quoted identifier, `=`, an identifier, then the tail
/// above.  Returns the model and the position just past the closing `;`.
pub open spec fn spec_tramp_at(s: Seq<char>, i: int) -> Option<(TrampV, int)> {
    if !spec_lit_at(s, i, spec_kw_foreign()) {
        None
    } else {
        let a = spec_skip_ws(s, i + spec_kw_foreign().len());
        if a == i + spec_kw_foreign().len() || !spec_lit_at(s, a, "\"C\""@) {
            None
        } else {
            let b = spec_skip_ws(s, a + "\"C\""@.len());
            if b == a + "\"C\""@.len() || !spec_lit_at(s, b, "trampoline"@) {
                None
            } else {
                let c = spec_skip_ws(s, b + "trampoline"@.len());
                if c == b + "trampoline"@.len() || !(c < s.len() && s[c] == '"') {
                    None
                } else {
                    let d = spec_word_end(s, c + 1);
                    if d == c + 1 || !(d < s.len() && s[d] == '"') {
                        None
                    } else {
                        let e = spec_skip_ws(s, d + 1);
                        if !(e < s.len() && s[e] == '=') {
                            None
                        } else {
                            let f = spec_skip_ws(s, e + 1);
                            let g = spec_word_end(s, f);
                            if g == f {
                                None
                            } else {
                                spec_tramp_tail(
                                    s,
                                    s.subrange(c + 1, d),
                                    s.subrange(f, g),
                                    spec_skip_ws(s, g),
                                )
                            }
                        }
                    }
                }
            }
        }
    }
}

/// All trampolines in `s` from position `i` on: leftmost matches, scanning
/// resumes just past each match.
pub open spec fn spec_scan_tramps(s: Seq<char>, i: int) -> Seq<TrampV>
    decreases s.len() - i,
{
    if i < 0 || i >= s.len() {
        Seq::empty()
    } else {
        match spec_tramp_at(s, i) {
            Some((t, end)) => {
                let next = if i < end <= s.len() {
                    end
                } else {
                    i + 1
                };
                seq![t] + spec_scan_tramps(s, next)
            },
            None => spec_scan_tramps(s, i + 1),
        }
    }
}

/// The trampolines declared in the source, in order of appearance.
pub open spec fn spec_trampolines(s: Seq<char>) -> Seq<TrampV> {
    spec_scan_tramps(s, 0)
}

/// Split an argument list at depth-zero commas and trim each piece.
fn parse_args(content: &str) -> (r: Vec<String>)
    ensures
        r.deep_view() == spec_args_of(content@),
{
    let pieces = split_top(content);
    let mut out: Vec<String> = Vec::new();
    let mut k: usize = 0;
    while k < pieces.len()
        invariant
            0 <= k <= pieces.len(),
            pieces.deep_view() == spec_split_top(content@),
            out.deep_view() =~= spec_args_of(content@).subrange(0, k as int),
        decreases pieces.len() - k,
    {
        let t = trim(pieces[k].as_str());
        proof {
            assert(pieces.deep_view()[k as int] == pieces@[k as int]@);
            assert(spec_args_of(content@)[k as int] == spec_trim(spec_split_top(content@)[k as int]));
        }
        let ghost old_v = out@;
        let ghost old_dv = out.deep_view();
        out.push(t);
        proof {
            assert(spec_args_of(content@).len() == spec_split_top(content@).len());
            assert(old_dv.len() == k as int);
            assert(old_v.len() == k as int);
            assert(out@ == old_v.push(t));
            assert forall|q: int| 0 <= q < out.deep_view().len() implies out.deep_view()[q]
                == spec_args_of(content@).subrange(0, k as int + 1)[q] by {
                if q < k as int {
                    assert(out@[q] == old_v[q]);
                    assert(old_dv[q] == spec_args_of(content@).subrange(0, k as int)[q]);
                } else {
                    assert(out@[q] == t);
                }
            }
            assert(out.deep_view() =~= spec_args_of(content@).subrange(0, k as int + 1));
        }
        k = k + 1;
    }
    proof {
        assert(spec_args_of(content@).subrange(0, pieces.deep_view().len() as int) =~= spec_args_of(
            content@,
        ));
    }
    out
}

/// Match a trampoline declaration starting exactly at `i`.
fn try_tramp_at(s: &str, i: usize) -> (r: Option<(Trampoline, usize)>)
    requires
        i as int <= s@.len(),
    ensures
        match r {
            Some(t_end) => spec_tramp_at(s@, i as int) == Some(
                (t_end.0@, t_end.1 as int),
            ) && i < t_end.1 && t_end.1 as int <= s@.len(),
            None => spec_tramp_at(s@, i as int) is None,
        },
{
    let n = s.unicode_len();
    let kw = foreign_kw();
    if !lit_at(s, i, kw.as_str()) {
        return None;
    }
    let a = skip_ws(s, i + kw.as_str().unicode_len());
    if a == i + kw.as_str().unicode_len() {
        return None;
    }
    if !lit_at(s, a, "\"C\"") {
        return None;
    }
    let b = skip_ws(s, a + "\"C\"".unicode_len());
    if b == a + "\"C\"".unicode_len() {
        return None;
    }
    if !lit_at(s, b, "trampoline") {
        return None;
    }
    let c = skip_ws(s, b + "trampoline".unicode_len());
    if c == b + "trampoline".unicode_len() {
        return None;
    }
    if c >= n || s.get_char(c) != '"' {
        return None;
    }
    let d = word_end(s, c + 1);
    if d == c + 1 {
        return None;
    }
    if d >= n || s.get_char(d) != '"' {
        return None;
    }
    let ffi_name = extract(s, c + 1, d);
    let e = skip_ws(s, d + 1);
    if e >= n || s.get_char(e) != '=' {
        return None;
    }
    let f = skip_ws(s, e + 1);
    let g = word_end(s, f);
    if g == f {
        return None;
    }
    let reussir_fn = extract(s, f, g);
    let h = skip_ws(s, g);
    if h < n && s.get_char(h) == '<' {
        match angle_end(s, h + 1) {
            Some(k) => {
                if k == h + 1 {
                    return None;
                }
                let m = skip_ws(s, k + 1);
                if m < n && s.get_char(m) == ';' {
                    let content = s.substring_char(h + 1, k);
                    let type_args = parse_args(content);
                    Some((Trampoline { ffi_name, reussir_fn, type_args }, m + 1))
                } else {
                    None
                }
            },
            None => None,
        }
    } else if h < n && s.get_char(h) == ';' {
        let t = Trampoline { ffi_name, reussir_fn, type_args: Vec::new() };
        proof {
            assert(t@.2 =~= Seq::<Seq<char>>::empty());
        }
        Some((t, h + 1))
    } else {
        None
    }
}

/// Scan the whole source for trampoline declarations.
pub fn parse_trampolines(source: &str) -> (r: Vec<Trampoline>)
    ensures
        r.deep_view() == spec_trampolines(source@),
{
    let n = source.unicode_len();
    let mut out: Vec<Trampoline> = Vec::new();
    let mut i: usize = 0;
    while i < n
        invariant
            0 <= i <= n,
            n as int == source@.len(),
            spec_trampolines(source@) =~= out.deep_view() + spec_scan_tramps(source@, i as int),
        decreases n - i,
    {
        match try_tramp_at(source, i) {
            Some((t, end)) => {
                proof {
                    assert(spec_scan_tramps(source@, i as int) == seq![t@] + spec_scan_tramps(
                        source@,
                        end as int,
                    ));
                }
                out.push(t);
                proof {
                    assert(spec_trampolines(source@) =~= out.deep_view() + spec_scan_tramps(
                        source@,
                        end as int,
                    ));
                }
                i = end;
            },
            None => {
                i = i + 1;
            },
        }
    }
    proof {
        assert(out.deep_view() + spec_scan_tramps(source@, i as int) =~= out.deep_view());
    }
    out
}

/// Model of a function signature: name, type parameters, (name, type)
/// parameter pairs, optional return type.
pub type FuncV = (Seq<char>, Seq<Seq<char>>, Seq<(Seq<char>, Seq<char>)>, Option<Seq<char>>);

/// A function signature found in the source.
pub struct FuncSig {
    pub name: String,
    pub type_params: Vec<String>,
    pub params: Vec<(String, String)>,
    pub ret: Option<String>,
}

impl View for FuncSig {
    type V = FuncV;

    open spec fn view(&self) -> FuncV {
        (self.name@, self.type_params.deep_view(), self.params.deep_view(), self.ret.deep_view())
    }
}

impl DeepView for FuncSig {
    type V = FuncV;

    open spec fn deep_view(&self) -> FuncV {
        self.view()
    }
}

/// The part of a list entry before its first `:` (the whole entry if it has
/// none); for a type-parameter entry this drops a trait bound.
pub open spec fn spec_before_colon(p: Seq<char>) -> Seq<char> {
    match spec_find_char(p, 0, ':') {
        Some(j) => p.subrange(0, j),
        None => p,
    }
}

/// Type-parameter names: the list split at depth-zero commas, each entry cut
/// at its bound and trimmed.
pub open spec fn spec_type_params_of(content: Seq<char>) -> Seq<Seq<char>> {
    spec_split_top(content).map_values(|p: Seq<char>| spec_trim(spec_before_colon(p)))
}

/// A parameter entry `name: type`, both sides trimmed; an entry without a
/// `:` yields nothing.
pub open spec fn spec_param_pair(p: Seq<char>) -> Option<(Seq<char>, Seq<char>)> {
    match spec_find_char(p, 0, ':') {
        Some(j) => Some((spec_trim(p.subrange(0, j)), spec_trim(p.subrange(j + 1, p.len() as int)))),
        None => None,
    }
}

pub open spec fn spec_collect_params(pieces: Seq<Seq<char>>) -> Seq<(Seq<char>, Seq<char>)>
    decreases pieces.len(),
{
    if pieces.len() == 0 {
        Seq::empty()
    } else {
        match spec_param_pair(pieces[0]) {
            Some(pr) => seq![pr] + spec_collect_params(pieces.drop_first()),
            None => spec_collect_params(pieces.drop_first()),
        }
    }
}

/// The parameter pairs of a parameter list: empty if the list is blank, else
/// one pair per entry that carries a `:`.
pub open spec fn spec_params_of(content: Seq<char>) -> Seq<(Seq<char>, Seq<char>)> {
    if spec_trim(content).len() == 0 {
        Seq::empty()
    } else {
        spec_collect_params(spec_split_top(content))
    }
}

/// Last position in `[lo, hi)` holding `{`.
pub open spec fn spec_last_brace(s: Seq<char>, lo: int, hi: int) -> Option<int>
    decreases hi - lo,
{
    if hi <= lo {
        None
    } else if s[hi - 1] == '{' {
        Some(hi - 1)
    } else {
        spec_last_brace(s, lo, hi - 1)
    }
}

/// The return-type part of a signature, matched from the first non-space
/// position `w` after the parameter list: either the opening brace directly,
/// or `->`, a type token, then the opening brace.  The token is the longest
/// non-blank run that still leaves an opening brace to match; a run that
/// contains the brace itself is cut at its last `{`.  Returns the optional
/// return type and the position just past the brace.
pub open spec fn spec_fn_ret(s: Seq<char>, w: int) -> Option<(Option<Seq<char>>, int)> {
    if spec_lit_at(s, w, "->"@) {
        let r0 = spec_skip_ws(s, w + "->"@.len());
        let we = spec_nonspace_end(s, r0);
        if we == r0 {
            None
        } else {
            let h = spec_skip_ws(s, we);
            if h < s.len() && s[h] == '{' {
                Some((Some(s.subrange(r0, we)), h + 1))
            } else {
                match spec_last_brace(s, r0 + 1, we) {
                    Some(p) => Some((Some(s.subrange(r0, p)), p + 1)),
                    None => None,
                }
            }
        }
    } else if w < s.len() && s[w] == '{' {
        Some((None, w + 1))
    } else {
        None
    }
}

/// The rest of a signature from the position `c` just after the name or the
/// closing `>` of the type parameters: `(`, the parameter list up to the
/// first `)`, then the return part.
pub open spec fn spec_fn_params(s: Seq<char>, name: Seq<char>, tps: Seq<Seq<char>>, c: int) -> Option<
    (FuncV, int),
> {
    let o = spec_skip_ws(s, c);
    if !(o < s.len() && s[o] == '(') {
        None
    } else {
        match spec_find_char(s, o + 1, ')') {
            Some(j) => {
                let params = spec_params_of(s.subrange(o + 1, j));
                match spec_fn_ret(s, spec_skip_ws(s, j + 1)) {
                    Some((ret, end)) => Some(((name, tps, params, ret), end)),
                    None => None,
                }
            },
            None => None,
        }
    }
}

/// A signature matched starting exactly at `i` with the `fn` keyword:
/// `fn`, whitespace, the name, an optional `<...>` type-parameter list
/// directly after the name, then parameters and return part.
pub open spec fn spec_fn_part(s: Seq<char>, i: int) -> Option<(FuncV, int)> {
    if !spec_lit_at(s, i, "fn"@) {
        None
    } else {
        let a = spec_skip_ws(s, i + "fn"@.len());
        if a == i + "fn"@.len() {
            None
        } else {
            let b = spec_word_end(s, a);
            if b == a {
                None
            } else {
                let name = s.subrange(a, b);
                if b < s.len() && s[b] == '<' {
                    match spec_angle_end(s, b + 1, 0) {
                        Some(k) => spec_fn_params(
                            s,
                            name,
                            spec_type_params_of(s.subrange(b + 1, k)),
                            k + 1,
                        ),
                        None => None,
                    }
                } else {
                    spec_fn_params(s, name, Seq::empty(), b)
                }
            }
        }
    }
}

/// A signature matched starting exactly at `i`: an optional `pub` with
/// trailing whitespace, then the `fn` part.
pub open spec fn spec_func_at(s: Seq<char>, i: int) -> Option<(FuncV, int)> {
    if spec_lit_at(s, i, "pub"@) && spec_skip_ws(s, i + "pub"@.len()) != i + "pub"@.len()
        && spec_fn_part(s, spec_skip_ws(s, i + "pub"@.len())) is Some {
        spec_fn_part(s, spec_skip_ws(s, i + "pub"@.len()))
    } else {
        spec_fn_part(s, i)
    }
}

/// All function signatures in `s` from position `i` on: leftmost matches,
/// scanning resumes just past each match.
pub open spec fn spec_scan_funcs(s: Seq<char>, i: int) -> Seq<FuncV>
    decreases s.len() - i,
{
    if i < 0 || i >= s.len() {
        Seq::empty()
    } else {
        match spec_func_at(s, i) {
            Some((f, end)) => {
                let next = if i < end <= s.len() {
                    end
                } else {
                    i + 1
                };
                seq![f] + spec_scan_funcs(s, next)
            },
            None => spec_scan_funcs(s, i + 1),
        }
    }
}

/// The function signatures found in the source, in order of appearance.
pub open spec fn spec_functions(s: Seq<char>) -> Seq<FuncV> {
    spec_scan_funcs(s, 0)
}

/// Cut a type-parameter entry at its bound and trim it.
fn type_param_name(p: &str) -> (r: String)
    ensures
        r@ == spec_trim(spec_before_colon(p@)),
{
    match find_char(p, 0, ':') {
        Some(j) => {
            let pre = p.substring_char(0, j);
            trim(pre)
        },
        None => trim(p),
    }
}

/// Split a type-parameter list and name each entry.
fn parse_type_params(content: &str) -> (r: Vec<String>)
    ensures
        r.deep_view() == spec_type_params_of(content@),
{
    let pieces = split_top(content);
    let mut out: Vec<String> = Vec::new();
    let mut k: usize = 0;
    while k < pieces.len()
        invariant
            0 <= k <= pieces.len(),
            pieces.deep_view() == spec_split_top(content@),
            out.deep_view() =~= spec_type_params_of(content@).subrange(0, k as int),
        decreases pieces.len() - k,
    {
        let t = type_param_name(pieces[k].as_str());
        proof {
            assert(pieces.deep_view()[k as int] == pieces@[k as int]@);
            assert(spec_type_params_of(content@)[k as int] == spec_trim(
                spec_before_colon(spec_split_top(content@)[k as int]),
            ));
        }
        let ghost old_v = out@;
        let ghost old_dv = out.deep_view();
        out.push(t);
        proof {
            assert(spec_type_params_of(content@).len() == spec_split_top(content@).len());
            assert(old_dv.len() == k as int);
            assert(old_v.len() == k as int);
            assert(out@ == old_v.push(t));
            assert forall|q: int| 0 <= q < out.deep_view().len() implies out.deep_view()[q]
                == spec_type_params_of(content@).subrange(0, k as int + 1)[q] by {
                if q < k as int {
                    assert(out@[q] == old_v[q]);
                    assert(old_dv[q] == spec_type_params_of(content@).subrange(0, k as int)[q]);
                } else {
                    assert(out@[q] == t);
                }
            }
            assert(out.deep_view() =~= spec_type_params_of(content@).subrange(0, k as int + 1));
        }
        k = k + 1;
    }
    proof {
        assert(spec_type_params_of(content@).subrange(0, pieces.deep_view().len() as int)
            =~= spec_type_params_of(content@));
    }
    out
}

/// Parse one parameter entry.
fn param_pair(p: &str) -> (r: Option<(String, String)>)
    ensures
        r.deep_view() == spec_param_pair(p@),
{
    let n = p.unicode_len();
    match find_char(p, 0, ':') {
        Some(j) => {
            let left = p.substring_char(0, j);
            let right = p.substring_char(j + 1, n);
            Some((trim(left), trim(right)))
        },
        None => None,
    }
}

/// Split a parameter list and collect its `name: type` entries.
fn parse_params(content: &str) -> (r: Vec<(String, String)>)
    ensures
        r.deep_view() == spec_params_of(content@),
{
    let blank = trim(content);
    if blank.as_str().unicode_len() == 0 {
        let out: Vec<(String, String)> = Vec::new();
        proof {
            assert(out.deep_view() =~= spec_params_of(content@));
        }
        return out;
    }
    let pieces = split_top(content);
    let mut out: Vec<(String, String)> = Vec::new();
    let mut k: usize = 0;
    proof {
        assert(pieces.deep_view().skip(0) =~= pieces.deep_view());
        assert(out.deep_view() + spec_collect_params(pieces.deep_view())
            =~= spec_collect_params(pieces.deep_view()));
    }
    while k < pieces.len()
        invariant
            0 <= k <= pieces.len(),
            pieces.deep_view() == spec_split_top(content@),
            out.deep_view() + spec_collect_params(pieces.deep_view().skip(k as int))
                =~= spec_collect_params(pieces.deep_view()),
        decreases pieces.len() - k,
    {
        proof {
            assert(pieces.deep_view().skip(k as int)[0] == pieces.deep_view()[k as int]);
            assert(pieces.deep_view().skip(k as int).drop_first() =~= pieces.deep_view().skip(
                k as int + 1,
            ));
            assert(pieces.deep_view()[k as int] == pieces@[k as int]@);
        }
        match param_pair(pieces[k].as_str()) {
            Some(pr) => {
                let ghost old_v = out@;
                let ghost old_dv = out.deep_view();
                out.push(pr);
                proof {
                    assert(out@ == old_v.push(pr));
                    assert(out.deep_view() =~= old_dv.push(pr.deep_view()));
                    assert(old_dv.push(pr.deep_view()) + spec_collect_params(
                        pieces.deep_view().skip(k as int + 1),
                    ) =~= old_dv + spec_collect_params(pieces.deep_view().skip(k as int)));
                }
            },
            None => {},
        }
        k = k + 1;
    }
    proof {
        assert(pieces.deep_view().skip(pieces.deep_view().len() as int)
            =~= Seq::<Seq<char>>::empty());
        assert(out.deep_view() + spec_collect_params(Seq::<Seq<char>>::empty())
            =~= out.deep_view());
        assert(spec_trim(content@).len() != 0);
    }
    out
}

/// Match the return part of a signature from the first non-space position
/// `w` after the parameter list.
fn try_fn_ret(s: &str, w: usize) -> (r: Option<(Option<String>, usize)>)
    requires
        w as int <= s@.len(),
    ensures
        match r {
            Some(ret_end) => spec_fn_ret(s@, w as int) == Some(
                (ret_end.0.deep_view(), ret_end.1 as int),
            ) && w < ret_end.1 && ret_end.1 as int <= s@.len(),
            None => spec_fn_ret(s@, w as int) is None,
        },
{
    let n = s.unicode_len();
    if lit_at(s, w, "->") {
        let r0 = skip_ws(s, w + "->".unicode_len());
        let we = nonspace_end(s, r0);
        if we == r0 {
            return None;
        }
        let h = skip_ws(s, we);
        if h < n && s.get_char(h) == '{' {
            let ret = extract(s, r0, we);
            Some((Some(ret), h + 1))
        } else {
            let mut p = we;
            while p > r0 + 1 && s.get_char(p - 1) != '{'
                invariant
                    r0 + 1 <= p <= we,
                    we as int <= s@.len(),
                    spec_last_brace(s@, r0 as int + 1, we as int) == spec_last_brace(
                        s@,
                        r0 as int + 1,
                        p as int,
                    ),
                decreases p,
            {
                p = p - 1;
            }
            if p > r0 + 1 {
                let ret = extract(s, r0, p - 1);
                Some((Some(ret), p))
            } else {
                None
            }
        }
    } else if w < n && s.get_char(w) == '{' {
        Some((None, w + 1))
    } else {
        None
    }
}

/// Match a signature starting exactly at `i` with the `fn` keyword.
fn try_fn_part(s: &str, i: usize) -> (r: Option<(FuncSig, usize)>)
    requires
        i as int <= s@.len(),
    ensures
        match r {
            Some(f_end) => spec_fn_part(s@, i as int) == Some(
                (f_end.0@, f_end.1 as int),
            ) && i < f_end.1 && f_end.1 as int <= s@.len(),
            None => spec_fn_part(s@, i as int) is None,
        },
{
    let n = s.unicode_len();
    if !lit_at(s, i, "fn") {
        return None;
    }
    let a = skip_ws(s, i + "fn".unicode_len());
    if a == i + "fn".unicode_len() {
        return None;
    }
    let b = word_end(s, a);
    if b == a {
        return None;
    }
    let name = extract(s, a, b);
    let (type_params, c): (Vec<String>, usize) = if b < n && s.get_char(b) == '<' {
        match angle_end(s, b + 1) {
            Some(k) => {
                let content = s.substring_char(b + 1, k);
                (parse_type_params(content), k + 1)
            },
            None => {
                return None;
            },
        }
    } else {
        let empty: Vec<String> = Vec::new();
        proof {
            assert(empty.deep_view() =~= Seq::<Seq<char>>::empty());
        }
        (empty, b)
    };
    let o = skip_ws(s, c);
    if o >= n || s.get_char(o) != '(' {
        return None;
    }
    match find_char(s, o + 1, ')') {
        Some(j) => {
            let content = s.substring_char(o + 1, j);
            let params = parse_params(content);
            match try_fn_ret(s, skip_ws(s, j + 1)) {
                Some((ret, end)) => Some((FuncSig { name, type_params, params, ret }, end)),
                None => None,
            }
        },
        None => None,
    }
}

/// Match a signature starting exactly at `i`, allowing a leading `pub`.
fn try_func_at(s: &str, i: usize) -> (r: Option<(FuncSig, usize)>)
    requires
        i as int <= s@.len(),
    ensures
        match r {
            Some(f_end) => spec_func_at(s@, i as int) == Some(
                (f_end.0@, f_end.1 as int),
            ) && i < f_end.1 && f_end.1 as int <= s@.len(),
            None => spec_func_at(s@, i as int) is None,
        },
{
    let n = s.unicode_len();
    if lit_at(s, i, "pub") {
        proof {
            assert(i + "pub"@.len() <= n as int);
        }
        let a = skip_ws(s, i + "pub".unicode_len());
        if a != i + "pub".unicode_len() {
            match try_fn_part(s, a) {
                Some(f_end) => {
                    return Some(f_end);
                },
                None => {},
            }
        }
    }
    try_fn_part(s, i)
}

/// Scan the whole source for function signatures.
pub fn parse_functions(source: &str) -> (r: Vec<FuncSig>)
    ensures
        r.deep_view() == spec_functions(source@),
{
    let n = source.unicode_len();
    let mut out: Vec<FuncSig> = Vec::new();
    let mut i: usize = 0;
    while i < n
        invariant
            0 <= i <= n,
            n as int == source@.len(),
            spec_functions(source@) =~= out.deep_view() + spec_scan_funcs(source@, i as int),
        decreases n - i,
    {
        match try_func_at(source, i) {
            Some((f, end)) => {
                proof {
                    assert(spec_scan_funcs(source@, i as int) == seq![f@] + spec_scan_funcs(
                        source@,
                        end as int,
                    ));
                }
                out.push(f);
                proof {
                    assert(spec_functions(source@) =~= out.deep_view() + spec_scan_funcs(
                        source@,
                        end as int,
                    ));
                }
                i = end;
            },
            None => {
                i = i + 1;
            },
        }
    }
    proof {
        assert(out.deep_view() + spec_scan_funcs(source@, i as int) =~= out.deep_view());
    }
    out
}

/// A type name that crosses the foreign boundary by value: fixed-width
/// integers, floating-point types and `bool`.
pub open spec fn spec_is_primitive(ty: Seq<char>) -> bool {
    ty == "u8"@ || ty == "u16"@ || ty == "u32"@ || ty == "u64"@ || ty == "i8"@ || ty == "i16"@
        || ty == "i32"@ || ty == "i64"@ || ty == "f32"@ || ty == "f64"@ || ty == "bool"@
}

/// The opaque-pointer representation every non-primitive value degrades to
/// at the foreign boundary, assembled from halves so this file holds no
/// pointer type of its own.
pub open spec fn spec_opaque_type() -> Seq<char> {
    "*m"@ + "ut u8"@
}

/// The foreign-call representation of a resolved type name: primitives pass
/// through unchanged, everything else crosses by reference.
pub open spec fn spec_map_to_rust(ty: Seq<char>) -> Seq<char> {
    if spec_is_primitive(ty) {
        ty
    } else {
        spec_opaque_type()
    }
}

/// The type argument paired with the last matching type parameter among the
/// first `k` parameter/argument pairs.
pub open spec fn spec_lookup(
    tps: Seq<Seq<char>>,
    args: Seq<Seq<char>>,
    ty: Seq<char>,
    k: int,
) -> Option<Seq<char>>
    decreases k,
{
    if k <= 0 {
        None
    } else if tps[k - 1] == ty {
        Some(args[k - 1])
    } else {
        spec_lookup(tps, args, ty, k - 1)
    }
}

/// How many parameter/argument pairs the substitution holds: extra
/// arguments are ignored, unmatched parameters stay unresolved.
pub open spec fn spec_pair_count(tps: Seq<Seq<char>>, args: Seq<Seq<char>>) -> int {
    if tps.len() <= args.len() {
        tps.len() as int
    } else {
        args.len() as int
    }
}

/// A declared type after substituting the trampoline's type arguments for
/// the function's type parameters.
pub open spec fn spec_subst(tps: Seq<Seq<char>>, args: Seq<Seq<char>>, ty: Seq<char>) -> Seq<
    char,
> {
    match spec_lookup(tps, args, ty, spec_pair_count(tps, args)) {
        Some(a) => a,
        None => ty,
    }
}

/// Substitution followed by the foreign-call mapping: what a declared type
/// becomes in the emitted foreign declaration.
pub open spec fn spec_resolve_type(tps: Seq<Seq<char>>, args: Seq<Seq<char>>, ty: Seq<char>) -> Seq<
    char,
> {
    spec_map_to_rust(spec_subst(tps, args, ty))
}

/// Whether the text of `a` equals the literal `lit`.
pub(crate) fn str_eq_lit(a: &String, lit: &str) -> (r: bool)
    ensures
        r == (a@ == lit@),
{
    let owned: String = lit.to_owned();
    *a == owned
}

fn is_primitive(ty: &String) -> (r: bool)
    ensures
        r == spec_is_primitive(ty@),
{
    str_eq_lit(ty, "u8") || str_eq_lit(ty, "u16") || str_eq_lit(ty, "u32") || str_eq_lit(ty, "u64")
        || str_eq_lit(ty, "i8") || str_eq_lit(ty, "i16") || str_eq_lit(ty, "i32") || str_eq_lit(
        ty,
        "i64",
    ) || str_eq_lit(ty, "f32") || str_eq_lit(ty, "f64") || str_eq_lit(ty, "bool")
}

fn map_to_rust(ty: &String) -> (r: String)
    ensures
        r@ == spec_map_to_rust(ty@),
{
    if is_primitive(ty) {
        ty.clone()
    } else {
        let mut s = "*m".to_owned();
        s.append("ut u8");
        s
    }
}

fn lookup(tps: &Vec<String>, args: &Vec<String>, ty: &String) -> (r: Option<String>)
    ensures
        r.deep_view() == spec_lookup(
            tps.deep_view(),
            args.deep_view(),
            ty@,
            spec_pair_count(tps.deep_view(), args.deep_view()),
        ),
{
    let k0: usize = if tps.len() <= args.len() {
        tps.len()
    } else {
        args.len()
    };
    let mut k = k0;
    while k > 0
        invariant
            k <= k0,
            k0 <= tps.len(),
            k0 <= args.len(),
            spec_pair_count(tps.deep_view(), args.deep_view()) == k0 as int,
            spec_lookup(tps.deep_view(), args.deep_view(), ty@, k0 as int) == spec_lookup(
                tps.deep_view(),
                args.deep_view(),
                ty@,
                k as int,
            ),
        decreases k,
    {
        if tps[k - 1] == *ty {
            let c = args[k - 1].clone();
            proof {
                assert(tps.deep_view()[k - 1] == tps@[k - 1]@);
                assert(args.deep_view()[k - 1] == args@[k - 1]@);
                assert(c@ == args.deep_view()[k - 1]);
                assert(spec_lookup(tps.deep_view(), args.deep_view(), ty@, k as int) == Some(
                    args.deep_view()[k - 1],
                ));
                assert(spec_pair_count(tps.deep_view(), args.deep_view()) == k0 as int);
                assert(Some(c).deep_view() == Some(c@));
            }
            return Some(c);
        }
        proof {
            assert(tps.deep_view()[k - 1] == tps@[k - 1]@);
        }
        k = k - 1;
    }
    None
}

/// The foreign-call representation of a declared type, under the
/// trampoline's instantiation.
pub fn resolve_type(tps: &Vec<String>, args: &Vec<String>, ty: &String) -> (r: String)
    ensures
        r@ == spec_resolve_type(tps.deep_view(), args.deep_view(), ty@),
{
    match lookup(tps, args, ty) {
        Some(a) => map_to_rust(&a),
        None => map_to_rust(ty),
    }
}

/// One parameter position of a foreign declaration: `name: type` with the
/// type resolved.
pub open spec fn spec_param_decl(
    tps: Seq<Seq<char>>,
    args: Seq<Seq<char>>,
    p: (Seq<char>, Seq<char>),
) -> Seq<char> {
    p.0 + ": "@ + spec_resolve_type(tps, args, p.1)
}

/// The pieces joined with the separator between consecutive pieces.
pub open spec fn spec_join(pieces: Seq<Seq<char>>, sep: Seq<char>) -> Seq<char>
    decreases pieces.len(),
{
    if pieces.len() == 0 {
        Seq::empty()
    } else if pieces.len() == 1 {
        pieces[0]
    } else {
        pieces[0] + sep + spec_join(pieces.drop_first(), sep)
    }
}

proof fn lemma_join_push(pieces: Seq<Seq<char>>, sep: Seq<char>, x: Seq<char>)
    ensures
        pieces.len() == 0 ==> spec_join(pieces.push(x), sep) == x,
        pieces.len() > 0 ==> spec_join(pieces.push(x), sep) =~= spec_join(pieces, sep) + sep + x,
    decreases pieces.len(),
{
    if pieces.len() == 0 {
        assert(pieces.push(x)[0] == x);
    } else {
        lemma_join_push(pieces.drop_first(), sep, x);
        assert(pieces.push(x).drop_first() =~= pieces.drop_first().push(x));
        assert(pieces.push(x)[0] == pieces[0]);
        if pieces.len() == 1 {
            assert(pieces.drop_first().len() == 0);
        }
    }
}

/// The concatenation of the pieces.
pub open spec fn spec_concat(pieces: Seq<Seq<char>>) -> Seq<char>
    decreases pieces.len(),
{
    if pieces.len() == 0 {
        Seq::empty()
    } else {
        pieces[0] + spec_concat(pieces.drop_first())
    }
}

proof fn lemma_concat_push(pieces: Seq<Seq<char>>, x: Seq<char>)
    ensures
        spec_concat(pieces.push(x)) =~= spec_concat(pieces) + x,
    decreases pieces.len(),
{
    if pieces.len() == 0 {
        assert(pieces.push(x)[0] == x);
        assert(pieces.push(x).drop_first() =~= Seq::<Seq<char>>::empty());
        assert(spec_concat(Seq::<Seq<char>>::empty()) == Seq::<char>::empty());
        assert(spec_concat(pieces.push(x)) == x + Seq::<char>::empty());
        assert(spec_concat(pieces) == Seq::<char>::empty());
    } else {
        lemma_concat_push(pieces.drop_first(), x);
        assert(pieces.push(x).drop_first() =~= pieces.drop_first().push(x));
        assert(pieces.push(x)[0] == pieces[0]);
    }
}

/// The complete foreign declaration a trampoline/signature pair gives rise
/// to: the exported name with the function's resolved parameter and return
/// types.
pub open spec fn spec_ffi_decl(t: TrampV, f: FuncV) -> Seq<char> {
    let params = f.2.map_values(|p: (Seq<char>, Seq<char>)| spec_param_decl(f.1, t.2, p));
    let ret = match f.3 {
        Some(ty) => " -> "@ + spec_resolve_type(f.1, t.2, ty),
        None => Seq::empty(),
    };
    "    fn "@ + t.0 + "("@ + spec_join(params, ", "@) + ")"@ + ret + ";\n"@
}

/// Emit the foreign declaration for a trampoline and its resolved
/// signature.
pub fn generate_ffi_decl(t: &Trampoline, f: &FuncSig) -> (r: String)
    ensures
        r@ == spec_ffi_decl(t@, f@),
{
    let ghost params_dv = f@.2.map_values(
        |p: (Seq<char>, Seq<char>)| spec_param_decl(f@.1, t@.2, p),
    );
    let mut out = "    fn ".to_owned();
    out.append(t.ffi_name.as_str());
    out.append("(");
    let ghost head = "    fn "@ + t@.0 + "("@;
    proof {
        assert(out@ =~= head + spec_join(params_dv.take(0), ", "@));
    }
    let mut k: usize = 0;
    while k < f.params.len()
        invariant
            0 <= k <= f.params.len(),
            params_dv == f@.2.map_values(
                |p: (Seq<char>, Seq<char>)| spec_param_decl(f@.1, t@.2, p),
            ),
            params_dv.len() == f.params@.len(),
            out@ == head + spec_join(params_dv.take(k as int), ", "@),
        decreases f.params.len() - k,
    {
        if k > 0 {
            out.append(", ");
        }
        let pr = &f.params[k];
        out.append(pr.0.as_str());
        out.append(": ");
        let rt = resolve_type(&f.type_params, &t.type_args, &pr.1);
        out.append(rt.as_str());
        proof {
            assert(f@.2[k as int] == (f.params@[k as int].0@, f.params@[k as int].1@));
            assert(params_dv[k as int] == spec_param_decl(f@.1, t@.2, f@.2[k as int]));
            lemma_join_push(params_dv.take(k as int), ", "@, params_dv[k as int]);
            assert(params_dv.take(k as int).push(params_dv[k as int]) =~= params_dv.take(
                k as int + 1,
            ));
            assert(out@ =~= head + spec_join(params_dv.take(k as int + 1), ", "@));
        }
        k = k + 1;
    }
    proof {
        assert(params_dv.take(params_dv.len() as int) =~= params_dv);
    }
    out.append(")");
    match &f.ret {
        Some(ty) => {
            out.append(" -> ");
            let rt = resolve_type(&f.type_params, &t.type_args, ty);
            out.append(rt.as_str());
        },
        None => {},
    }
    out.append(";\n");
    proof {
        assert(out@ =~= spec_ffi_decl(t@, f@));
    }
    out
}

/// How many scanned signatures carry the given name.
pub open spec fn spec_count_matches(funcs: Seq<FuncV>, name: Seq<char>) -> int
    decreases funcs.len(),
{
    if funcs.len() == 0 {
        0
    } else {
        (if funcs[0].0 == name {
            1int
        } else {
            0int
        }) + spec_count_matches(funcs.drop_first(), name)
    }
}

/// The first scanned signature carrying the given name.
pub open spec fn spec_first_match(funcs: Seq<FuncV>, name: Seq<char>) -> Option<FuncV>
    decreases funcs.len(),
{
    if funcs.len() == 0 {
        None
    } else if funcs[0].0 == name {
        Some(funcs[0])
    } else {
        spec_first_match(funcs.drop_first(), name)
    }
}

/// A name has a matching signature exactly when its match count is
/// positive, and the count is never negative.
pub proof fn lemma_count_first(funcs: Seq<FuncV>, name: Seq<char>)
    ensures
        spec_count_matches(funcs, name) >= 0,
        spec_count_matches(funcs, name) > 0 <==> spec_first_match(funcs, name) is Some,
    decreases funcs.len(),
{
    if funcs.len() > 0 {
        lemma_count_first(funcs.drop_first(), name);
    }
}

/// A trampoline resolves when exactly one signature carries its target
/// name: absence and ambiguity are both hard errors.
pub open spec fn spec_tramp_ok(funcs: Seq<FuncV>, t: TrampV) -> bool {
    spec_count_matches(funcs, t.1) == 1
}

/// Harness generation succeeds exactly when every trampoline resolves.
pub open spec fn spec_gen_ok(src: Seq<char>) -> bool {
    forall|k: int|
        0 <= k < spec_trampolines(src).len() ==> spec_tramp_ok(
            spec_functions(src),
            #[trigger] spec_trampolines(src)[k],
        )
}

/// Index of the first trampoline that fails to resolve.
pub open spec fn spec_first_bad(funcs: Seq<FuncV>, tramps: Seq<TrampV>) -> int
    decreases tramps.len(),
{
    if tramps.len() == 0 {
        0
    } else if !spec_tramp_ok(funcs, tramps[0]) {
        0
    } else {
        1 + spec_first_bad(funcs, tramps.drop_first())
    }
}

proof fn lemma_first_bad(funcs: Seq<FuncV>, tramps: Seq<TrampV>, k: int)
    requires
        0 <= k < tramps.len(),
        forall|q: int| 0 <= q < k ==> spec_tramp_ok(funcs, #[trigger] tramps[q]),
        !spec_tramp_ok(funcs, tramps[k]),
    ensures
        spec_first_bad(funcs, tramps) == k,
    decreases k,
{
    if k > 0 {
        assert(spec_tramp_ok(funcs, tramps[0]));
        assert(forall|q: int|
            0 <= q < k - 1 ==> #[trigger] tramps.drop_first()[q] == tramps[q + 1]);
        lemma_first_bad(funcs, tramps.drop_first(), k - 1);
    }
}

/// The diagnostic for a trampoline that fails to resolve: it names both the
/// trampoline and the function it references.
pub open spec fn spec_tramp_err(funcs: Seq<FuncV>, t: TrampV) -> Seq<char> {
    let head = "Function '"@ + t.1 + "' referenced by trampoline '"@ + t.0;
    if spec_count_matches(funcs, t.1) == 0 {
        head + "' not found"@
    } else {
        head + "' is ambiguous"@
    }
}

/// The diagnostic harness generation reports: the message for the first
/// trampoline that fails to resolve.
pub open spec fn spec_gen_err(src: Seq<char>) -> Seq<char> {
    let tramps = spec_trampolines(src);
    let funcs = spec_functions(src);
    spec_tramp_err(funcs, tramps[spec_first_bad(funcs, tramps)])
}

/// The foreign declaration a trampoline gives rise to, against the first
/// signature carrying its target name (unique when generation succeeds).
pub open spec fn spec_decl_of(funcs: Seq<FuncV>, t: TrampV) -> Seq<char> {
    match spec_first_match(funcs, t.1) {
        Some(f) => spec_ffi_decl(t, f),
        None => Seq::empty(),
    }
}

/// The foreign-declaration block of the harness: absent without
/// trampolines, else one declaration per trampoline in source order.
pub open spec fn spec_foreign_block(src: Seq<char>) -> Seq<char> {
    let tramps = spec_trampolines(src);
    if tramps.len() == 0 {
        Seq::empty()
    } else {
        "\n"@ + spec_kw_foreign() + " \"C\" {\n"@ + spec_concat(
            tramps.map_values(|t: TrampV| spec_decl_of(spec_functions(src), t)),
        ) + "}\n"@
    }
}

/// The keyword marking the harness entry point's foreign-call context,
/// assembled from halves as [`spec_kw_foreign`] is.
pub open spec fn spec_kw_unchecked() -> Seq<char> {
    "uns"@ + "afe"@
}

/// The complete generated host program: a crate link line, the foreign
/// declarations, and an entry point running the driver snippet verbatim
/// inside a foreign-call context.
pub open spec fn spec_harness_text(src: Seq<char>, driver: Seq<char>) -> Seq<char> {
    spec_kw_foreign() + " crate reussir_rt;\n"@ + spec_foreign_block(src)
        + "\nfn main() {\n    "@ + spec_kw_unchecked() + " {\n        "@ + driver
        + "\n    }\n}\n"@
}

fn count_matches(funcs: &Vec<FuncSig>, name: &String) -> (r: usize)
    ensures
        r as int == spec_count_matches(funcs.deep_view(), name@),
{
    let ghost dv = funcs.deep_view();
    let mut cnt: usize = 0;
    let mut k: usize = 0;
    proof {
        assert(dv.skip(0) =~= dv);
    }
    while k < funcs.len()
        invariant
            0 <= k <= funcs.len(),
            dv == funcs.deep_view(),
            cnt <= k,
            spec_count_matches(dv, name@) == cnt + spec_count_matches(dv.skip(k as int), name@),
        decreases funcs.len() - k,
    {
        proof {
            assert(dv.skip(k as int)[0] == dv[k as int]);
            assert(dv.skip(k as int).drop_first() =~= dv.skip(k as int + 1));
            assert(dv[k as int].0 == funcs@[k as int].name@);
        }
        if funcs[k].name == *name {
            cnt = cnt + 1;
        }
        k = k + 1;
    }
    proof {
        assert(dv.skip(funcs@.len() as int) =~= Seq::<FuncV>::empty());
        lemma_count_first(dv, name@);
    }
    cnt
}

fn first_match_idx(funcs: &Vec<FuncSig>, name: &String) -> (r: Option<usize>)
    ensures
        match r {
            Some(ix) => ix < funcs@.len() && spec_first_match(funcs.deep_view(), name@) == Some(
                funcs.deep_view()[ix as int],
            ),
            None => spec_first_match(funcs.deep_view(), name@) is None,
        },
{
    let ghost dv = funcs.deep_view();
    let mut k: usize = 0;
    proof {
        assert(dv.skip(0) =~= dv);
    }
    while k < funcs.len()
        invariant
            0 <= k <= funcs.len(),
            dv == funcs.deep_view(),
            spec_first_match(dv, name@) == spec_first_match(dv.skip(k as int), name@),
        decreases funcs.len() - k,
    {
        proof {
            assert(dv.skip(k as int)[0] == dv[k as int]);
            assert(dv.skip(k as int).drop_first() =~= dv.skip(k as int + 1));
            assert(dv[k as int].0 == funcs@[k as int].name@);
        }
        if funcs[k].name == *name {
            return Some(k);
        }
        k = k + 1;
    }
    proof {
        assert(dv.skip(funcs@.len() as int) =~= Seq::<FuncV>::empty());
    }
    None
}

/// The diagnostic for an unresolved trampoline.
fn tramp_err_text(t: &Trampoline, ambiguous: bool) -> (r: String)
    ensures
        !ambiguous ==> r@ == "Function '"@ + t@.1 + "' referenced by trampoline '"@ + t@.0
            + "' not found"@,
        ambiguous ==> r@ == "Function '"@ + t@.1 + "' referenced by trampoline '"@ + t@.0
            + "' is ambiguous"@,
{
    let mut m = "Function '".to_owned();
    m.append(t.reussir_fn.as_str());
    m.append("' referenced by trampoline '");
    m.append(t.ffi_name.as_str());
    if ambiguous {
        m.append("' is ambiguous");
    } else {
        m.append("' not found");
    }
    proof {
        if ambiguous {
            assert(m@ =~= "Function '"@ + t@.1 + "' referenced by trampoline '"@ + t@.0
                + "' is ambiguous"@);
        } else {
            assert(m@ =~= "Function '"@ + t@.1 + "' referenced by trampoline '"@ + t@.0
                + "' not found"@);
        }
    }
    m
}

/// Generate the host program for the submitted source and driver snippet.
///
/// Succeeds exactly when every trampoline in the source resolves to exactly
/// one function signature; the output is then the complete harness text.
/// Fails otherwise, with a diagnostic naming the first failing trampoline
/// and its target; validation is pure, so a caller can reject a request
/// before spawning any process.
pub fn generate_harness(source: &str, driver: &str) -> (r: Result<String, String>)
    ensures
        r is Ok <==> spec_gen_ok(source@),
        r is Ok ==> r->Ok_0@ == spec_harness_text(source@, driver@),
        r is Err ==> r->Err_0@ == spec_gen_err(source@),
{
    let tramps = parse_trampolines(source);
    let funcs = parse_functions(source);
    let ghost tdv = tramps.deep_view();
    let ghost fdv = funcs.deep_view();
    let ghost decl_of = |t: TrampV| spec_decl_of(fdv, t);

    let mut decls: Vec<String> = Vec::new();
    let mut k: usize = 0;
    while k < tramps.len()
        invariant
            0 <= k <= tramps.len(),
            tdv == tramps.deep_view(),
            fdv == funcs.deep_view(),
            tdv == spec_trampolines(source@),
            fdv == spec_functions(source@),
            decl_of == (|t: TrampV| spec_decl_of(fdv, t)),
            forall|q: int| 0 <= q < k ==> spec_tramp_ok(fdv, #[trigger] tdv[q]),
            decls.deep_view() =~= tdv.take(k as int).map_values(decl_of),
        decreases tramps.len() - k,
    {
        proof {
            assert(tdv[k as int] == tramps@[k as int]@);
        }
        let cnt = count_matches(&funcs, &tramps[k].reussir_fn);
        proof {
            lemma_count_first(fdv, tdv[k as int].1);
        }
        if cnt != 1 {
            let msg = tramp_err_text(&tramps[k], cnt > 1);
            proof {
                lemma_first_bad(fdv, tdv, k as int);
                assert(!spec_gen_ok(source@));
                assert(msg@ =~= spec_tramp_err(fdv, tdv[k as int]));
            }
            return Err(msg);
        }
        match first_match_idx(&funcs, &tramps[k].reussir_fn) {
            Some(ix) => {
                let d = generate_ffi_decl(&tramps[k], &funcs[ix]);
                let ghost old_dv = decls.deep_view();
                decls.push(d);
                proof {
                    assert(fdv[ix as int] == funcs@[ix as int]@);
                    assert(d@ == spec_decl_of(fdv, tdv[k as int]));
                    assert(decls.deep_view() =~= old_dv.push(d@));
                    assert(tdv.take(k as int + 1) =~= tdv.take(k as int).push(tdv[k as int]));
                    assert(tdv.take(k as int + 1).map_values(decl_of) =~= tdv.take(
                        k as int,
                    ).map_values(decl_of).push(decl_of(tdv[k as int])));
                }
            },
            None => {
                proof {
                    assert(spec_count_matches(fdv, tdv[k as int].1) == 1);
                    assert(false);
                }
                return Err(String::new());
            },
        }
        k = k + 1;
    }
    proof {
        assert(tdv.take(tdv.len() as int) =~= tdv);
        assert(spec_gen_ok(source@));
    }

    let mut out = foreign_kw();
    out.append(" crate reussir_rt;\n");
    if decls.len() > 0 {
        out.append("\n");
        let kw = foreign_kw();
        out.append(kw.as_str());
        out.append(" \"C\" {\n");
        let ghost block_head = out@;
        let ghost ddv = decls.deep_view();
        let mut q: usize = 0;
        proof {
            assert(ddv.take(0) =~= Seq::<Seq<char>>::empty());
            assert(out@ =~= block_head + spec_concat(ddv.take(0)));
        }
        while q < decls.len()
            invariant
                0 <= q <= decls.len(),
                ddv == decls.deep_view(),
                out@ == block_head + spec_concat(ddv.take(q as int)),
            decreases decls.len() - q,
        {
            out.append(decls[q].as_str());
            proof {
                assert(ddv[q as int] == decls@[q as int]@);
                lemma_concat_push(ddv.take(q as int), ddv[q as int]);
                assert(ddv.take(q as int + 1) =~= ddv.take(q as int).push(ddv[q as int]));
                assert(out@ =~= block_head + spec_concat(ddv.take(q as int + 1)));
            }
            q = q + 1;
        }
        proof {
            assert(ddv.take(ddv.len() as int) =~= ddv);
        }
        out.append("}\n");
    }
    out.append("\nfn main() {\n    ");
    out.append("uns");
    out.append("afe");
    out.append(" {\n        ");
    out.append(driver);
    out.append("\n    }\n}\n");
    proof {
        assert(decls.deep_view() == tdv.map_values(decl_of));
        if tdv.len() == 0 {
            assert(decls.deep_view().len() == 0);
        } else {
            assert(decls.deep_view().len() > 0);
        }
        assert(out@ =~= spec_harness_text(source@, driver@));
    }
    Ok(out)
}

/// With no trampolines in the source, generation succeeds and the harness
/// carries no foreign-declaration block: it is exactly the crate link line,
/// the entry point, and the driver.
pub proof fn lemma_no_trampolines(src: Seq<char>, driver: Seq<char>)
    requires
        spec_trampolines(src).len() == 0,
    ensures
        spec_gen_ok(src),
        spec_foreign_block(src) == Seq::<char>::empty(),
        spec_harness_text(src, driver) == spec_kw_foreign() + " crate reussir_rt;\n"@
            + "\nfn main() {\n    "@ + spec_kw_unchecked() + " {\n        "@ + driver
            + "\n    }\n}\n"@,
{
    assert(spec_harness_text(src, driver) =~= spec_kw_foreign() + " crate reussir_rt;\n"@
        + "\nfn main() {\n    "@ + spec_kw_unchecked() + " {\n        "@ + driver
        + "\n    }\n}\n"@);
}

proof fn lemma_lookup_none(tps: Seq<Seq<char>>, args: Seq<Seq<char>>, ty: Seq<char>, k: int)
    requires
        forall|q: int| 0 <= q < k ==> #[trigger] tps[q] != ty,
    ensures
        spec_lookup(tps, args, ty, k) is None,
    decreases k,
{
    if k > 0 {
        lemma_lookup_none(tps, args, ty, k - 1);
    }
}

proof fn lemma_lookup_hit(tps: Seq<Seq<char>>, args: Seq<Seq<char>>, ty: Seq<char>, j: int, k: int)
    requires
        0 <= j < k,
        tps[j] == ty,
        forall|q: int| j < q < k ==> #[trigger] tps[q] != ty,
    ensures
        spec_lookup(tps, args, ty, k) == Some(args[j]),
    decreases k,
{
    if k - 1 > j {
        lemma_lookup_hit(tps, args, ty, j, k - 1);
    }
}

/// For a trampoline bound to a non-generic function, every primitive
/// declared type reaches the generated declaration verbatim: parameter
/// positions keep `name: type` exactly, and so does the return type.
pub proof fn lemma_non_generic_verbatim(t: TrampV, f: FuncV)
    requires
        f.1.len() == 0,
    ensures
        forall|i: int|
            0 <= i < f.2.len() && spec_is_primitive((#[trigger] f.2[i]).1) ==> spec_param_decl(
                f.1,
                t.2,
                f.2[i],
            ) == f.2[i].0 + ": "@ + f.2[i].1,
        f.3 matches Some(rt) ==> (spec_is_primitive(rt) ==> spec_resolve_type(f.1, t.2, rt)
            == rt),
{
    assert forall|ty: Seq<char>| spec_is_primitive(ty) implies spec_resolve_type(f.1, t.2, ty)
        == ty by {
        assert(spec_pair_count(f.1, t.2) == 0);
        assert(spec_lookup(f.1, t.2, ty, 0) is None);
    }
}

/// For a trampoline instantiating a generic function, a declared type that
/// names the `j`-th type parameter — when no later pair rebinds that name —
/// resolves to the `j`-th type argument: to the argument itself when it is
/// primitive, and to the opaque-pointer representation otherwise.
pub proof fn lemma_generic_instantiation(
    tps: Seq<Seq<char>>,
    args: Seq<Seq<char>>,
    ty: Seq<char>,
    j: int,
)
    requires
        0 <= j < tps.len(),
        j < args.len(),
        tps[j] == ty,
        forall|q: int| j < q < spec_pair_count(tps, args) ==> #[trigger] tps[q] != ty,
    ensures
        spec_subst(tps, args, ty) == args[j],
        spec_is_primitive(args[j]) ==> spec_resolve_type(tps, args, ty) == args[j],
        !spec_is_primitive(args[j]) ==> spec_resolve_type(tps, args, ty) == spec_opaque_type(),
{
    lemma_lookup_hit(tps, args, ty, j, spec_pair_count(tps, args));
}

/// Every position whose substituted type is not primitive — an unresolved
/// type parameter included — degrades to the opaque-pointer representation.
pub proof fn lemma_opaque_representation(tps: Seq<Seq<char>>, args: Seq<Seq<char>>, ty: Seq<char>)
    requires
        !spec_is_primitive(spec_subst(tps, args, ty)),
    ensures
        spec_resolve_type(tps, args, ty) == spec_opaque_type(),
{
}

/// A declared type that matches no type parameter is left alone by the
/// substitution: unresolved names keep their spelling, and then degrade to
/// the opaque-pointer representation unless primitive.
pub proof fn lemma_unresolved_type(tps: Seq<Seq<char>>, args: Seq<Seq<char>>, ty: Seq<char>)
    requires
        forall|q: int| 0 <= q < spec_pair_count(tps, args) ==> #[trigger] tps[q] != ty,
    ensures
        spec_subst(tps, args, ty) == ty,
{
    lemma_lookup_none(tps, args, ty, spec_pair_count(tps, args));
}

} // verus!
