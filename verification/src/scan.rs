//! Character-level scanning primitives shared by the harness generator.
//!
//! The scanners recover a narrow structural subset of the submitted source
//! text (function signatures and trampoline declarations) without a full
//! parser.  Every executable routine here is proved equal to a spec-level
//! definition over the string's view, so the grammar the generator accepts
//! is pinned down exactly.

use vstd::prelude::*;

verus! {

/// Whitespace, as the scanners understand it.
pub open spec fn spec_is_space(c: char) -> bool {
    c == ' ' || c == '\t' || c == '\n' || c == '\r' || c == '\u{b}' || c == '\u{c}'
}

/// A character that may appear in an identifier.
pub open spec fn spec_is_word(c: char) -> bool {
    ('a' <= c && c <= 'z') || ('A' <= c && c <= 'Z') || ('0' <= c && c <= '9') || c == '_'
}

pub fn is_space(c: char) -> (r: bool)
    ensures
        r == spec_is_space(c),
{
    c == ' ' || c == '\t' || c == '\n' || c == '\r' || c == '\u{b}' || c == '\u{c}'
}

pub fn is_word(c: char) -> (r: bool)
    ensures
        r == spec_is_word(c),
{
    ('a' <= c && c <= 'z') || ('A' <= c && c <= 'Z') || ('0' <= c && c <= '9') || c == '_'
}

/// First position at or after `i` holding a non-whitespace character (or the
/// end of the text).
pub open spec fn spec_skip_ws(s: Seq<char>, i: int) -> int
    decreases s.len() - i,
{
    if i < 0 || i >= s.len() {
        i
    } else if spec_is_space(s[i]) {
        spec_skip_ws(s, i + 1)
    } else {
        i
    }
}

/// First position at or after `i` holding a non-identifier character (or the
/// end of the text).
pub open spec fn spec_word_end(s: Seq<char>, i: int) -> int
    decreases s.len() - i,
{
    if i < 0 || i >= s.len() {
        i
    } else if spec_is_word(s[i]) {
        spec_word_end(s, i + 1)
    } else {
        i
    }
}

/// First position at or after `i` holding whitespace (or the end of the
/// text).
pub open spec fn spec_nonspace_end(s: Seq<char>, i: int) -> int
    decreases s.len() - i,
{
    if i < 0 || i >= s.len() {
        i
    } else if !spec_is_space(s[i]) {
        spec_nonspace_end(s, i + 1)
    } else {
        i
    }
}

pub proof fn lemma_skip_ws_bounds(s: Seq<char>, i: int)
    requires
        0 <= i <= s.len(),
    ensures
        i <= spec_skip_ws(s, i) <= s.len(),
        spec_skip_ws(s, i) < s.len() ==> !spec_is_space(s[spec_skip_ws(s, i)]),
    decreases s.len() - i,
{
    if i < s.len() && spec_is_space(s[i]) {
        lemma_skip_ws_bounds(s, i + 1);
    }
}

fn space_at(s: &str, i: usize) -> (r: bool)
    requires
        i < s@.len(),
    ensures
        r == spec_is_space(s@[i as int]),
{
    is_space(s.get_char(i))
}

fn word_at(s: &str, i: usize) -> (r: bool)
    requires
        i < s@.len(),
    ensures
        r == spec_is_word(s@[i as int]),
{
    is_word(s.get_char(i))
}

pub fn skip_ws(s: &str, from: usize) -> (j: usize)
    requires
        from as int <= s@.len(),
    ensures
        j as int == spec_skip_ws(s@, from as int),
        from <= j,
        j as int <= s@.len(),
{
    let n = s.unicode_len();
    let mut i = from;
    while i < n && space_at(s, i)
        invariant
            from <= i <= n,
            n as int == s@.len(),
            spec_skip_ws(s@, from as int) == spec_skip_ws(s@, i as int),
        decreases n - i,
    {
        i = i + 1;
    }
    i
}

pub fn word_end(s: &str, from: usize) -> (j: usize)
    requires
        from as int <= s@.len(),
    ensures
        j as int == spec_word_end(s@, from as int),
        from <= j,
        j as int <= s@.len(),
{
    let n = s.unicode_len();
    let mut i = from;
    while i < n && word_at(s, i)
        invariant
            from <= i <= n,
            n as int == s@.len(),
            spec_word_end(s@, from as int) == spec_word_end(s@, i as int),
        decreases n - i,
    {
        i = i + 1;
    }
    i
}

pub fn nonspace_end(s: &str, from: usize) -> (j: usize)
    requires
        from as int <= s@.len(),
    ensures
        j as int == spec_nonspace_end(s@, from as int),
        from <= j,
        j as int <= s@.len(),
{
    let n = s.unicode_len();
    let mut i = from;
    while i < n && !space_at(s, i)
        invariant
            from <= i <= n,
            n as int == s@.len(),
            spec_nonspace_end(s@, from as int) == spec_nonspace_end(s@, i as int),
        decreases n - i,
    {
        i = i + 1;
    }
    i
}

/// The literal `lit` occurs in `s` starting exactly at position `i`.
pub open spec fn spec_lit_at(s: Seq<char>, i: int, lit: Seq<char>) -> bool {
    0 <= i && i + lit.len() <= s.len() && s.subrange(i, i + lit.len()) == lit
}

pub fn lit_at(s: &str, i: usize, lit: &str) -> (r: bool)
    requires
        i as int <= s@.len(),
    ensures
        r == spec_lit_at(s@, i as int, lit@),
{
    let n = s.unicode_len();
    let m = lit.unicode_len();
    if m > n - i {
        assert(!spec_lit_at(s@, i as int, lit@));
        return false;
    }
    let mut k: usize = 0;
    while k < m
        invariant
            0 <= k <= m,
            m as int == lit@.len(),
            n as int == s@.len(),
            i + m <= n,
            forall|q: int| 0 <= q < k ==> s@[i + q] == lit@[q],
        decreases m - k,
    {
        if s.get_char(i + k) != lit.get_char(k) {
            proof {
                assert(s@.subrange(i as int, i + m) =~= lit@ ==> s@.subrange(
                    i as int,
                    i + m,
                )[k as int] == lit@[k as int]);
                assert(s@.subrange(i as int, i + m)[k as int] == s@[i + k]);
            }
            return false;
        }
        k = k + 1;
    }
    proof {
        assert(s@.subrange(i as int, i + m) =~= lit@);
    }
    true
}

/// First occurrence of `c` in `s` at or after `i`.
pub open spec fn spec_find_char(s: Seq<char>, i: int, c: char) -> Option<int>
    decreases s.len() - i,
{
    if i < 0 || i >= s.len() {
        None
    } else if s[i] == c {
        Some(i)
    } else {
        spec_find_char(s, i + 1, c)
    }
}

pub fn find_char(s: &str, from: usize, c: char) -> (r: Option<usize>)
    requires
        from as int <= s@.len(),
    ensures
        match r {
            Some(j) => Some(j as int) == spec_find_char(s@, from as int, c) && from <= j
                && (j as int) < s@.len() && s@[j as int] == c,
            None => spec_find_char(s@, from as int, c) is None,
        },
{
    let n = s.unicode_len();
    let mut i = from;
    while i < n && s.get_char(i) != c
        invariant
            from <= i <= n,
            n as int == s@.len(),
            spec_find_char(s@, from as int, c) == spec_find_char(s@, i as int, c),
        decreases n - i,
    {
        i = i + 1;
    }
    if i < n {
        Some(i)
    } else {
        None
    }
}

/// Position of the `>` that closes an angle-bracket region, scanning from `i`
/// with `depth` brackets already open.  Nested `<`/`>` pairs are tracked so a
/// generic-argument list containing further generics is taken whole.
pub open spec fn spec_angle_end(s: Seq<char>, i: int, depth: int) -> Option<int>
    decreases s.len() - i,
{
    if i < 0 || i >= s.len() {
        None
    } else if s[i] == '>' {
        if depth == 0 {
            Some(i)
        } else {
            spec_angle_end(s, i + 1, depth - 1)
        }
    } else if s[i] == '<' {
        spec_angle_end(s, i + 1, depth + 1)
    } else {
        spec_angle_end(s, i + 1, depth)
    }
}

pub proof fn lemma_angle_end_bounds(s: Seq<char>, i: int, depth: int)
    requires
        0 <= i <= s.len(),
    ensures
        spec_angle_end(s, i, depth) matches Some(j) ==> i <= j < s.len() && s[j] == '>',
    decreases s.len() - i,
{
    if i < s.len() {
        if s[i] == '>' && depth == 0 {
        } else if s[i] == '>' {
            lemma_angle_end_bounds(s, i + 1, depth - 1);
        } else if s[i] == '<' {
            lemma_angle_end_bounds(s, i + 1, depth + 1);
        } else {
            lemma_angle_end_bounds(s, i + 1, depth);
        }
    }
}

pub fn angle_end(s: &str, from: usize) -> (r: Option<usize>)
    requires
        from as int <= s@.len(),
    ensures
        match r {
            Some(j) => Some(j as int) == spec_angle_end(s@, from as int, 0) && from <= j
                && (j as int) < s@.len(),
            None => spec_angle_end(s@, from as int, 0) is None,
        },
{
    let n = s.unicode_len();
    let mut i = from;
    let mut depth: usize = 0;
    loop
        invariant
            from <= i <= n,
            n as int == s@.len(),
            depth <= i - from,
            spec_angle_end(s@, from as int, 0) == spec_angle_end(s@, i as int, depth as int),
        decreases n - i,
    {
        if i >= n {
            return None;
        }
        let c = s.get_char(i);
        if c == '>' {
            if depth == 0 {
                proof {
                    lemma_angle_end_bounds(s@, from as int, 0);
                }
                return Some(i);
            }
            depth = depth - 1;
        } else if c == '<' {
            depth = depth + 1;
        }
        i = i + 1;
    }
}

/// First comma at bracket depth zero, at or after `i`, starting with `depth`
/// angle brackets open.  A stray closing bracket leaves the depth at zero.
pub open spec fn spec_top_comma(s: Seq<char>, i: int, depth: int) -> Option<int>
    decreases s.len() - i,
{
    if i < 0 || i >= s.len() {
        None
    } else if s[i] == ',' && depth == 0 {
        Some(i)
    } else {
        let d = if s[i] == '<' {
            depth + 1
        } else if s[i] == '>' && depth > 0 {
            depth - 1
        } else {
            depth
        };
        spec_top_comma(s, i + 1, d)
    }
}

pub fn find_top_comma(s: &str, from: usize) -> (r: Option<usize>)
    requires
        from as int <= s@.len(),
    ensures
        match r {
            Some(j) => Some(j as int) == spec_top_comma(s@, from as int, 0) && from <= j
                && (j as int) < s@.len() && s@[j as int] == ',',
            None => spec_top_comma(s@, from as int, 0) is None,
        },
{
    let n = s.unicode_len();
    let mut i = from;
    let mut depth: usize = 0;
    loop
        invariant
            from <= i <= n,
            n as int == s@.len(),
            depth <= i - from,
            spec_top_comma(s@, from as int, 0) == spec_top_comma(s@, i as int, depth as int),
        decreases n - i,
    {
        if i >= n {
            return None;
        }
        let c = s.get_char(i);
        if c == ',' && depth == 0 {
            return Some(i);
        }
        if c == '<' {
            depth = depth + 1;
        } else if c == '>' && depth > 0 {
            depth = depth - 1;
        }
        i = i + 1;
    }
}

/// End of the text once trailing whitespace before position `j` is dropped.
pub open spec fn spec_rstrip(s: Seq<char>, j: int) -> int
    decreases j,
{
    if j <= 0 {
        0
    } else if spec_is_space(s[j - 1]) {
        spec_rstrip(s, j - 1)
    } else {
        j
    }
}

/// The text with leading and trailing whitespace removed.
pub open spec fn spec_trim(s: Seq<char>) -> Seq<char> {
    let a = spec_skip_ws(s, 0);
    if a == s.len() {
        Seq::empty()
    } else {
        s.subrange(a, spec_rstrip(s, s.len() as int))
    }
}

proof fn lemma_rstrip_gt(s: Seq<char>, a: int, j: int)
    requires
        0 <= a < j <= s.len(),
        !spec_is_space(s[a]),
    ensures
        a < spec_rstrip(s, j) <= j,
    decreases j,
{
    if spec_is_space(s[j - 1]) {
        lemma_rstrip_gt(s, a, j - 1);
    }
}

/// Copy of `s[from..to]` as an owned string.
pub fn extract(s: &str, from: usize, to: usize) -> (r: String)
    requires
        from <= to,
        to as int <= s@.len(),
    ensures
        r@ == s@.subrange(from as int, to as int),
{
    let piece = s.substring_char(from, to);
    piece.to_owned()
}

pub fn trim(s: &str) -> (r: String)
    ensures
        r@ == spec_trim(s@),
{
    let n = s.unicode_len();
    let a = skip_ws(s, 0);
    if a == n {
        return String::new();
    }
    let mut j = n;
    while j > 0 && space_at(s, j - 1)
        invariant
            0 <= j <= n,
            n as int == s@.len(),
            spec_rstrip(s@, n as int) == spec_rstrip(s@, j as int),
        decreases j,
    {
        j = j - 1;
    }
    proof {
        lemma_skip_ws_bounds(s@, 0);
        lemma_rstrip_gt(s@, a as int, n as int);
    }
    extract(s, a, j)
}

/// The text split at depth-zero commas, one piece per comma plus the final
/// remainder, pieces untrimmed.
pub open spec fn spec_split_from(s: Seq<char>, p: int) -> Seq<Seq<char>>
    decreases s.len() - p,
{
    if p < 0 || p > s.len() {
        Seq::empty()
    } else {
        match spec_top_comma(s, p, 0) {
            Some(j) => {
                if p <= j < s.len() {
                    seq![s.subrange(p, j)] + spec_split_from(s, j + 1)
                } else {
                    Seq::empty()
                }
            },
            None => seq![s.subrange(p, s.len() as int)],
        }
    }
}

pub open spec fn spec_split_top(s: Seq<char>) -> Seq<Seq<char>> {
    spec_split_from(s, 0)
}

pub fn split_top(s: &str) -> (r: Vec<String>)
    ensures
        r.deep_view() == spec_split_top(s@),
{
    let n = s.unicode_len();
    let mut pieces: Vec<String> = Vec::new();
    let mut p: usize = 0;
    loop
        invariant
            0 <= p <= n,
            n as int == s@.len(),
            spec_split_top(s@) == pieces.deep_view() + spec_split_from(s@, p as int),
        decreases n - p,
    {
        match find_top_comma(s, p) {
            Some(j) => {
                let piece = extract(s, p, j);
                pieces.push(piece);
                proof {
                    assert(pieces.deep_view().last() == s@.subrange(p as int, j as int));
                }
                p = j + 1;
            },
            None => {
                let piece = extract(s, p, n);
                pieces.push(piece);
                proof {
                    assert(pieces.deep_view().last() == s@.subrange(p as int, n as int));
                }
                return pieces;
            },
        }
    }
}

} // verus!
