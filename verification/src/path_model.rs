//! A model of how `std::path` reads a path under the Posix and Windows conventions.
//!
//! A path is an optional Windows prefix (`C:`, `\\server\share`, `\\?\...`, `\\.\...`),
//! an optional root separator, then components separated by runs of separators.
//! Under the Posix convention only `/` separates; under the Windows convention `\`
//! does too, except after a verbatim prefix (`\\?\`), where only `\` does. Empty
//! components and `.` components are dropped, except a leading `.` of a path without
//! a prefix or root (and `.` after a verbatim prefix, which is kept).
use vstd::prelude::*;

use crate::git_bash_path::PathConvention;
use crate::text;
use crate::text::{chars_of, push_chars, string_from_chars, sub_chars};

verus! {

pub open spec fn is_sep(conv: PathConvention, c: char) -> bool {
    c == '/' || (conv == PathConvention::Windows && c == '\\')
}

/// The separator that joining inserts.
pub open spec fn main_sep(conv: PathConvention) -> char {
    if conv == PathConvention::Windows {
        '\\'
    } else {
        '/'
    }
}

/// The kinds of Windows path prefix.
#[derive(Debug, Clone, Copy, PartialEq, Eq, Structural)]
pub enum PrefixKind {
    /// No prefix.
    NoPrefix,
    /// `C:`
    Disk,
    /// `\\server\share`
    Unc,
    /// `\\.\device`
    DeviceNs,
    /// `\\?\name`
    Verbatim,
    /// `\\?\UNC\server\share`
    VerbatimUnc,
    /// `\\?\C:`
    VerbatimDisk,
}

/// `/` read as `\`, as the prefix parser reads the first characters of a path.
pub open spec fn norm_sep(c: char) -> char {
    if c == '/' {
        '\\'
    } else {
        c
    }
}

/// A separator inside a Windows prefix: `\` only in a verbatim prefix.
pub open spec fn win_sep(verbatim: bool, c: char) -> bool {
    c == '\\' || (!verbatim && c == '/')
}

/// The first index from `i` on that holds a separator, or the length.
pub open spec fn find_from(s: Seq<char>, i: int, verbatim: bool) -> int
    decreases s.len() - i,
{
    if i < 0 || i >= s.len() {
        s.len() as int
    } else if win_sep(verbatim, s[i]) {
        i
    } else {
        find_from(s, i + 1, verbatim)
    }
}

/// The prefix of a path and its length.
pub open spec fn prefix_of(conv: PathConvention, s: Seq<char>) -> (PrefixKind, int) {
    if conv != PathConvention::Windows {
        (PrefixKind::NoPrefix, 0)
    } else if s.len() >= 2 && norm_sep(s[0]) == '\\' && norm_sep(s[1]) == '\\' {
        if s.len() >= 4 && s[0] == '\\' && s[1] == '\\' && s[2] == '?' && s[3] == '\\' {
            if s.len() >= 8 && s[4] == 'U' && s[5] == 'N' && s[6] == 'C' && norm_sep(s[7])
                == '\\' {
                let a = find_from(s, 8, true);
                if a >= s.len() {
                    (PrefixKind::VerbatimUnc, s.len() as int)
                } else if find_from(s, a + 1, true) > a + 1 {
                    (PrefixKind::VerbatimUnc, find_from(s, a + 1, true))
                } else {
                    (PrefixKind::VerbatimUnc, a)
                }
            } else if s.len() >= 6 && s[5] == ':' && text::is_ascii_alpha(s[4]) && (s.len() == 6
                || s[6] == '\\') {
                (PrefixKind::VerbatimDisk, 6)
            } else {
                (PrefixKind::Verbatim, find_from(s, 4, true))
            }
        } else if s.len() >= 4 && s[2] == '.' && norm_sep(s[3]) == '\\' {
            (PrefixKind::DeviceNs, find_from(s, 4, false))
        } else {
            let a = find_from(s, 2, false);
            if a > 2 && a < s.len() && find_from(s, a + 1, false) > a + 1 {
                (PrefixKind::Unc, find_from(s, a + 1, false))
            } else {
                (PrefixKind::NoPrefix, 0)
            }
        }
    } else if s.len() >= 2 && s[1] == ':' && text::is_ascii_alpha(s[0]) {
        (PrefixKind::Disk, 2)
    } else {
        (PrefixKind::NoPrefix, 0)
    }
}

pub open spec fn pkind(conv: PathConvention, s: Seq<char>) -> PrefixKind {
    prefix_of(conv, s).0
}

/// Length of the prefix; 0 when there is none.
pub open spec fn prefix_len(conv: PathConvention, s: Seq<char>) -> int {
    prefix_of(conv, s).1
}

pub open spec fn is_verbatim(k: PrefixKind) -> bool {
    k == PrefixKind::Verbatim || k == PrefixKind::VerbatimUnc || k == PrefixKind::VerbatimDisk
}

pub open spec fn verbatim(conv: PathConvention, s: Seq<char>) -> bool {
    is_verbatim(pkind(conv, s))
}

/// A separator between components: after a verbatim prefix only `\`.
pub open spec fn sep_of(conv: PathConvention, v: bool, c: char) -> bool {
    if v {
        c == '\\'
    } else {
        is_sep(conv, c)
    }
}

pub open spec fn sepv(conv: PathConvention, s: Seq<char>, c: char) -> bool {
    sep_of(conv, verbatim(conv, s), c)
}

/// A separator follows the prefix.
pub open spec fn phys_root(conv: PathConvention, s: Seq<char>) -> bool {
    prefix_len(conv, s) < s.len() && is_sep(conv, s[prefix_len(conv, s)])
}

/// Every prefix but a drive implies a root.
pub open spec fn implicit_root(conv: PathConvention, s: Seq<char>) -> bool {
    pkind(conv, s) != PrefixKind::NoPrefix && pkind(conv, s) != PrefixKind::Disk
}

pub open spec fn has_root(conv: PathConvention, s: Seq<char>) -> bool {
    phys_root(conv, s) || implicit_root(conv, s)
}

/// A path without a root whose text after the prefix starts with the component `.`.
pub open spec fn cur_dir(conv: PathConvention, s: Seq<char>) -> bool {
    let p = prefix_len(conv, s);
    &&& !has_root(conv, s)
    &&& p < s.len()
    &&& s[p] == '.'
    &&& (p + 1 == s.len() || sepv(conv, s, s[p + 1]))
}

/// Where the components after the prefix, the root and a leading `.` start.
pub open spec fn body_start(conv: PathConvention, s: Seq<char>) -> int {
    prefix_len(conv, s) + (if phys_root(conv, s) {
        1int
    } else {
        0
    }) + (if cur_dir(conv, s) {
        1int
    } else {
        0
    })
}

/// Where the text ends once the separators and `.` components after the last other
/// component are dropped.
pub open spec fn trim_end(conv: PathConvention, s: Seq<char>, e: int) -> int
    decreases e,
{
    if e > body_start(conv, s) && 0 < e <= s.len() && (sepv(conv, s, s[e - 1]) || (!verbatim(conv, s)
        && s[e - 1] == '.' && (e - 1 == body_start(conv, s) || sepv(conv, s, s[e - 2])))) {
        trim_end(conv, s, e - 1)
    } else {
        e
    }
}

/// Start of the component that ends at `i`.
pub open spec fn seg_start(conv: PathConvention, s: Seq<char>, i: int) -> int
    decreases i,
{
    if i <= body_start(conv, s) || i <= 0 {
        body_start(conv, s)
    } else if i <= s.len() && sepv(conv, s, s[i - 1]) {
        i
    } else {
        seg_start(conv, s, i - 1)
    }
}

pub open spec fn path_end(conv: PathConvention, s: Seq<char>) -> int {
    trim_end(conv, s, s.len() as int)
}

pub open spec fn last_start(conv: PathConvention, s: Seq<char>) -> int {
    seg_start(conv, s, path_end(conv, s))
}

/// The last component after the prefix and root (empty when there is none).
pub open spec fn last_segment(conv: PathConvention, s: Seq<char>) -> Seq<char> {
    s.subrange(last_start(conv, s), path_end(conv, s))
}

/// The final component, unless it is not a normal one (prefix, root, `.` or `..`).
pub open spec fn spec_file_name(conv: PathConvention, s: Seq<char>) -> Option<Seq<char>> {
    let n = last_segment(conv, s);
    if n.len() == 0 || n == seq!['.'] || n == seq!['.', '.'] {
        None
    } else {
        Some(n)
    }
}

/// Index of the last `.` before `i`, or -1.
pub open spec fn last_dot(n: Seq<char>, i: int) -> int
    decreases i,
{
    if i <= 0 {
        -1
    } else if i <= n.len() && n[i - 1] == '.' {
        i - 1
    } else {
        last_dot(n, i - 1)
    }
}

/// A file name without its extension: the part before the last `.`, or the whole name
/// when it holds no `.` other than a leading one.
pub open spec fn stem_of(n: Seq<char>) -> Seq<char> {
    let d = last_dot(n, n.len() as int);
    if d <= 0 {
        n
    } else {
        n.subrange(0, d)
    }
}

pub open spec fn spec_file_stem(conv: PathConvention, s: Seq<char>) -> Option<Seq<char>> {
    match spec_file_name(conv, s) {
        Some(n) => Some(stem_of(n)),
        None => None,
    }
}

/// The path without its final component: the text before that component with the
/// separators and `.` components before it dropped; the empty path for a lone
/// leading `.`; `None` for a path that has only a prefix, a root, or nothing.
pub open spec fn spec_parent(conv: PathConvention, s: Seq<char>) -> Option<Seq<char>> {
    let e = path_end(conv, s);
    let st = last_start(conv, s);
    if st < e {
        Some(s.subrange(0, trim_end(conv, s, st)))
    } else if pkind(conv, s) == PrefixKind::NoPrefix && !phys_root(conv, s) && cur_dir(conv, s) {
        Some(Seq::empty())
    } else {
        None
    }
}

/// The components of `t` separated by `\`, with empty ones dropped, and whether a
/// separator is pending after the last one.
pub open spec fn squash_state(t: Seq<char>) -> (Seq<char>, bool)
    decreases t.len(),
{
    if t.len() == 0 {
        (Seq::empty(), false)
    } else {
        let prev = squash_state(t.drop_last());
        if t.last() == '\\' {
            (prev.0, prev.0.len() > 0)
        } else {
            (
                if prev.1 {
                    prev.0.push('\\')
                } else {
                    prev.0
                }.push(t.last()),
                false,
            )
        }
    }
}

/// The components of `t` separated by single `\`.
pub open spec fn squash(t: Seq<char>) -> Seq<char> {
    squash_state(t).0
}

/// A name that is one normal component: not empty, without separators, neither `.`
/// nor `..`, and not a drive prefix.
pub open spec fn plain_name(conv: PathConvention, name: Seq<char>) -> bool {
    &&& name.len() > 0
    &&& forall|i: int| 0 <= i < name.len() ==> !is_sep(conv, #[trigger] name[i])
    &&& name != seq!['.']
    &&& name != seq!['.', '.']
    &&& !(conv == PathConvention::Windows && name.len() >= 2 && name[1] == ':'
        && text::is_ascii_alpha(name[0]))
}

/// `base` extended by the component `name` (for a plain name): after a verbatim prefix
/// the path is rebuilt from its components with single `\`; otherwise a separator is
/// inserted unless `base` is empty, ends in one, or is a bare drive `C:`.
pub open spec fn spec_join(conv: PathConvention, base: Seq<char>, name: Seq<char>) -> Seq<char> {
    if verbatim(conv, base) {
        let q = squash(base.subrange(body_start(conv, base), base.len() as int));
        base.subrange(0, prefix_len(conv, base)).push('\\') + (if q.len() == 0 {
            name
        } else {
            q.push('\\') + name
        })
    } else {
        let needs_sep = base.len() > 0 && !is_sep(conv, base.last()) && !(pkind(conv, base)
            == PrefixKind::Disk && prefix_len(conv, base) == base.len());
        if needs_sep {
            base.push(main_sep(conv)) + name
        } else {
            base + name
        }
    }
}

/// A rooted path (Posix), or a path with both a prefix and a root, physical or implied
/// by the prefix (Windows).
pub open spec fn spec_is_absolute(conv: PathConvention, s: Seq<char>) -> bool {
    if conv == PathConvention::Windows {
        pkind(conv, s) != PrefixKind::NoPrefix && has_root(conv, s)
    } else {
        phys_root(conv, s)
    }
}

/// The path has a component after the prefix, the root and a leading `.`; and a second.
pub open spec fn has_body_component(conv: PathConvention, s: Seq<char>) -> bool {
    path_end(conv, s) > body_start(conv, s)
}

pub open spec fn has_two_body_components(conv: PathConvention, s: Seq<char>) -> bool {
    has_body_component(conv, s) && trim_end(conv, s, last_start(conv, s)) > body_start(conv, s)
}

/// The number of leading components: the prefix, the root, a leading `.`.
pub open spec fn head_count(conv: PathConvention, s: Seq<char>) -> int {
    (if pkind(conv, s) != PrefixKind::NoPrefix {
        1int
    } else {
        0
    }) + (if phys_root(conv, s) || (implicit_root(conv, s) && !verbatim(conv, s)) {
        1int
    } else {
        0
    }) + (if pkind(conv, s) == PrefixKind::NoPrefix && cur_dir(conv, s) {
        1int
    } else {
        0
    })
}

/// The path has more than one component.
pub open spec fn spec_several_components(conv: PathConvention, s: Seq<char>) -> bool {
    head_count(conv, s) + (if has_body_component(conv, s) {
        1int
    } else {
        0
    }) + (if has_two_body_components(conv, s) {
        1int
    } else {
        0
    }) > 1
}

/// The path is exactly one normal component: no prefix, root or leading `.`, and a
/// single component after them.
pub open spec fn spec_single_component(conv: PathConvention, s: Seq<char>) -> bool {
    &&& head_count(conv, s) == 0
    &&& has_body_component(conv, s)
    &&& !has_two_body_components(conv, s)
}

proof fn lemma_find_from_bounds(s: Seq<char>, i: int, v: bool)
    requires
        0 <= i,
    ensures
        i <= s.len() ==> i <= find_from(s, i, v) <= s.len(),
        i > s.len() ==> find_from(s, i, v) == s.len(),
    decreases s.len() - i,
{
    if i < s.len() && !win_sep(v, s[i]) {
        lemma_find_from_bounds(s, i + 1, v);
    }
}

proof fn lemma_prefix_len_bounds(conv: PathConvention, s: Seq<char>)
    ensures
        0 <= prefix_len(conv, s) <= s.len(),
        pkind(conv, s) == PrefixKind::NoPrefix <==> prefix_len(conv, s) == 0,
{
    lemma_find_from_bounds(s, 2, false);
    lemma_find_from_bounds(s, 4, false);
    lemma_find_from_bounds(s, 4, true);
    lemma_find_from_bounds(s, 8, true);
    let a = find_from(s, 8, true);
    if a >= 0 {
        lemma_find_from_bounds(s, a + 1, true);
    }
    let b = find_from(s, 2, false);
    if b >= 0 {
        lemma_find_from_bounds(s, b + 1, false);
    }
}

proof fn lemma_body_start_bounds(conv: PathConvention, s: Seq<char>)
    ensures
        0 <= prefix_len(conv, s) <= body_start(conv, s) <= s.len(),
{
    lemma_prefix_len_bounds(conv, s);
}

proof fn lemma_trim_end_bounds(conv: PathConvention, s: Seq<char>, e: int)
    requires
        0 <= e <= s.len(),
    ensures
        trim_end(conv, s, e) <= e,
        e <= body_start(conv, s) ==> trim_end(conv, s, e) == e,
        e > body_start(conv, s) ==> trim_end(conv, s, e) >= body_start(conv, s),
    decreases e,
{
    lemma_body_start_bounds(conv, s);
    if e > body_start(conv, s) && (sepv(conv, s, s[e - 1]) || (!verbatim(conv, s) && s[e - 1]
        == '.' && (e - 1 == body_start(conv, s) || sepv(conv, s, s[e - 2])))) {
        lemma_trim_end_bounds(conv, s, e - 1);
    }
}

proof fn lemma_seg_start_bounds(conv: PathConvention, s: Seq<char>, i: int)
    requires
        0 <= i <= s.len(),
    ensures
        i >= body_start(conv, s) ==> body_start(conv, s) <= seg_start(conv, s, i) <= i,
        i < body_start(conv, s) ==> seg_start(conv, s, i) == body_start(conv, s),
    decreases i,
{
    lemma_body_start_bounds(conv, s);
    if i > body_start(conv, s) && !sepv(conv, s, s[i - 1]) {
        lemma_seg_start_bounds(conv, s, i - 1);
    }
}

pub fn is_sep_char(conv: PathConvention, c: char) -> (r: bool)
    ensures
        r == is_sep(conv, c),
{
    c == '/' || (matches!(conv, PathConvention::Windows) && c == '\\')
}

fn win_sep_char(v: bool, c: char) -> (r: bool)
    ensures
        r == win_sep(v, c),
{
    c == '\\' || (!v && c == '/')
}

fn sep_of_char(conv: PathConvention, v: bool, c: char) -> (r: bool)
    ensures
        r == sep_of(conv, v, c),
{
    if v {
        c == '\\'
    } else {
        is_sep_char(conv, c)
    }
}

fn is_backslash_like(c: char) -> (r: bool)
    ensures
        r == (norm_sep(c) == '\\'),
{
    c == '\\' || c == '/'
}

fn find_from_exec(s: &[char], i: usize, v: bool) -> (r: usize)
    requires
        i <= s.len(),
    ensures
        r == find_from(s@, i as int, v),
        i <= r <= s.len(),
{
    let mut j = i;
    while j < s.len() && !win_sep_char(v, s[j])
        invariant
            i <= j <= s.len(),
            find_from(s@, j as int, v) == find_from(s@, i as int, v),
        decreases s.len() - j,
    {
        j = j + 1;
    }
    j
}

fn prefix_of_exec(conv: PathConvention, s: &[char]) -> (r: (PrefixKind, usize))
    ensures
        r.0 == pkind(conv, s@),
        r.1 == prefix_len(conv, s@),
        r.1 <= s.len(),
{
    proof {
        lemma_prefix_len_bounds(conv, s@);
    }
    if !matches!(conv, PathConvention::Windows) {
        return (PrefixKind::NoPrefix, 0);
    }
    let n = s.len();
    if n >= 2 && is_backslash_like(s[0]) && is_backslash_like(s[1]) {
        if n >= 4 && s[0] == '\\' && s[1] == '\\' && s[2] == '?' && s[3] == '\\' {
            if n >= 8 && s[4] == 'U' && s[5] == 'N' && s[6] == 'C' && is_backslash_like(s[7]) {
                let a = find_from_exec(s, 8, true);
                if a >= n {
                    (PrefixKind::VerbatimUnc, n)
                } else {
                    let b = find_from_exec(s, a + 1, true);
                    if b > a + 1 {
                        (PrefixKind::VerbatimUnc, b)
                    } else {
                        (PrefixKind::VerbatimUnc, a)
                    }
                }
            } else if n >= 6 && s[5] == ':' && text::is_ascii_alpha_char(s[4]) && (n == 6 || s[6]
                == '\\') {
                (PrefixKind::VerbatimDisk, 6)
            } else {
                (PrefixKind::Verbatim, find_from_exec(s, 4, true))
            }
        } else if n >= 4 && s[2] == '.' && is_backslash_like(s[3]) {
            (PrefixKind::DeviceNs, find_from_exec(s, 4, false))
        } else {
            let a = find_from_exec(s, 2, false);
            if a > 2 && a < n {
                let b = find_from_exec(s, a + 1, false);
                if b > a + 1 {
                    (PrefixKind::Unc, b)
                } else {
                    (PrefixKind::NoPrefix, 0)
                }
            } else {
                (PrefixKind::NoPrefix, 0)
            }
        }
    } else if n >= 2 && s[1] == ':' && text::is_ascii_alpha_char(s[0]) {
        (PrefixKind::Disk, 2)
    } else {
        (PrefixKind::NoPrefix, 0)
    }
}

fn is_verbatim_exec(k: PrefixKind) -> (r: bool)
    ensures
        r == is_verbatim(k),
{
    matches!(k, PrefixKind::Verbatim | PrefixKind::VerbatimUnc | PrefixKind::VerbatimDisk)
}

/// How a path is laid out before its components.
struct Layout {
    kind: PrefixKind,
    prefix: usize,
    phys: bool,
    cur: bool,
    body: usize,
    verbatim: bool,
}

fn layout(conv: PathConvention, s: &[char]) -> (r: Layout)
    ensures
        r.kind == pkind(conv, s@),
        r.prefix == prefix_len(conv, s@),
        r.phys == phys_root(conv, s@),
        r.cur == cur_dir(conv, s@),
        r.body == body_start(conv, s@),
        r.verbatim == verbatim(conv, s@),
        r.prefix <= r.body <= s.len(),
{
    let (kind, p) = prefix_of_exec(conv, s);
    let v = is_verbatim_exec(kind);
    let phys = p < s.len() && is_sep_char(conv, s[p]);
    let implicit = !matches!(kind, PrefixKind::NoPrefix | PrefixKind::Disk);
    let cur = !(phys || implicit) && p < s.len() && s[p] == '.' && (p + 1 == s.len()
        || sep_of_char(conv, v, s[p + 1]));
    let body = p + (if phys {
        1usize
    } else {
        0usize
    }) + (if cur {
        1usize
    } else {
        0usize
    });
    Layout { kind, prefix: p, phys, cur, body, verbatim: v }
}

fn trim_end_exec(conv: PathConvention, s: &[char], lay: &Layout, e: usize) -> (r: usize)
    requires
        e <= s.len(),
        lay.body == body_start(conv, s@),
        lay.verbatim == verbatim(conv, s@),
    ensures
        r == trim_end(conv, s@, e as int),
{
    let lo = lay.body;
    let v = lay.verbatim;
    proof {
        lemma_body_start_bounds(conv, s@);
    }
    let mut i = e;
    while i > lo && (sep_of_char(conv, v, s[i - 1]) || (!v && s[i - 1] == '.' && (i - 1 == lo
        || sep_of_char(conv, v, s[i - 2]))))
        invariant
            0 <= lo,
            lo == body_start(conv, s@),
            v == verbatim(conv, s@),
            i <= e <= s.len(),
            trim_end(conv, s@, i as int) == trim_end(conv, s@, e as int),
        decreases i,
    {
        i = i - 1;
    }
    i
}

fn seg_start_exec(conv: PathConvention, s: &[char], lay: &Layout, e: usize) -> (r: usize)
    requires
        e <= s.len(),
        lay.body == body_start(conv, s@),
        lay.verbatim == verbatim(conv, s@),
    ensures
        r == seg_start(conv, s@, e as int),
{
    let lo = lay.body;
    proof {
        lemma_body_start_bounds(conv, s@);
    }
    if e <= lo {
        return lo;
    }
    let mut i = e;
    while i > lo && !sep_of_char(conv, lay.verbatim, s[i - 1])
        invariant
            lo == body_start(conv, s@),
            lay.verbatim == verbatim(conv, s@),
            lo <= i <= e <= s.len(),
            seg_start(conv, s@, i as int) == seg_start(conv, s@, e as int),
        decreases i,
    {
        i = i - 1;
    }
    i
}

/// Bounds of the last component.
fn last_segment_bounds(conv: PathConvention, s: &[char], lay: &Layout) -> (r: (usize, usize))
    requires
        lay.body == body_start(conv, s@),
        lay.verbatim == verbatim(conv, s@),
        lay.body <= s.len(),
    ensures
        r.0 == last_start(conv, s@),
        r.1 == path_end(conv, s@),
        lay.body <= r.0 <= r.1 <= s.len(),
{
    let e = trim_end_exec(conv, s, lay, s.len());
    proof {
        lemma_trim_end_bounds(conv, s@, s@.len() as int);
    }
    let st = seg_start_exec(conv, s, lay, e);
    proof {
        lemma_seg_start_bounds(conv, s@, e as int);
    }
    (st, e)
}

fn file_name_chars(conv: PathConvention, s: &[char]) -> (r: Option<Vec<char>>)
    ensures
        r matches Some(n) ==> spec_file_name(conv, s@) == Some(n@),
        r is None ==> spec_file_name(conv, s@) is None,
{
    let lay = layout(conv, s);
    let (st, e) = last_segment_bounds(conv, s, &lay);
    let n = sub_chars(s, st, e);
    if n.len() == 0 {
        return None;
    }
    if n.len() == 1 && n[0] == '.' {
        assert(n@ =~= seq!['.']);
        return None;
    }
    if n.len() == 2 && n[0] == '.' && n[1] == '.' {
        assert(n@ =~= seq!['.', '.']);
        return None;
    }
    proof {
        if n@ == seq!['.'] {
            assert(n@[0] == '.');
        }
        if n@ == seq!['.', '.'] {
            assert(n@[0] == '.' && n@[1] == '.');
        }
    }
    Some(n)
}

fn stem_chars(n: &[char]) -> (r: Vec<char>)
    ensures
        r@ == stem_of(n@),
{
    let mut i = n.len();
    while i > 0 && n[i - 1] != '.'
        invariant
            i <= n.len(),
            last_dot(n@, i as int) == last_dot(n@, n.len() as int),
        decreases i,
    {
        i = i - 1;
    }
    // `i - 1` is the last dot, or `i == 0` when there is none.
    if i <= 1 {
        proof {
            assert(last_dot(n@, i as int) <= 0);
        }
        sub_chars(n, 0, n.len())
    } else {
        proof {
            assert(last_dot(n@, i as int) == i - 1);
        }
        sub_chars(n, 0, i - 1)
    }
}

/// The final component of `path` (see `spec_file_name`).
pub fn path_file_name(conv: PathConvention, path: &str) -> (r: Option<String>)
    ensures
        r matches Some(n) ==> spec_file_name(conv, path@) == Some(n@),
        r is None ==> spec_file_name(conv, path@) is None,
{
    let s = chars_of(path);
    match file_name_chars(conv, s.as_slice()) {
        Some(n) => Some(string_from_chars(n.as_slice())),
        None => None,
    }
}

/// The final component of `path` without its extension.
pub fn path_file_stem(conv: PathConvention, path: &str) -> (r: Option<String>)
    ensures
        r matches Some(n) ==> spec_file_stem(conv, path@) == Some(n@),
        r is None ==> spec_file_stem(conv, path@) is None,
{
    let s = chars_of(path);
    match file_name_chars(conv, s.as_slice()) {
        Some(n) => {
            let st = stem_chars(n.as_slice());
            Some(string_from_chars(st.as_slice()))
        },
        None => None,
    }
}

/// `path` without its final component (see `spec_parent`).
pub fn path_parent(conv: PathConvention, path: &str) -> (r: Option<String>)
    ensures
        r matches Some(p) ==> spec_parent(conv, path@) == Some(p@),
        r is None ==> spec_parent(conv, path@) is None,
{
    let s = chars_of(path);
    let lay = layout(conv, s.as_slice());
    let (st, e) = last_segment_bounds(conv, s.as_slice(), &lay);
    if st >= e {
        if matches!(lay.kind, PrefixKind::NoPrefix) && !lay.phys && lay.cur {
            return Some(String::new());
        }
        return None;
    }
    let pe = trim_end_exec(conv, s.as_slice(), &lay, st);
    proof {
        lemma_trim_end_bounds(conv, s@, st as int);
    }
    let p = sub_chars(s.as_slice(), 0, pe);
    Some(string_from_chars(p.as_slice()))
}

fn squash_from(s: &[char], start: usize) -> (r: Vec<char>)
    requires
        start <= s.len(),
    ensures
        r@ == squash(s@.subrange(start as int, s.len() as int)),
{
    let mut out: Vec<char> = Vec::new();
    let mut pending = false;
    let mut i = start;
    while i < s.len()
        invariant
            start <= i <= s.len(),
            (out@, pending) == squash_state(s@.subrange(start as int, i as int)),
        decreases s.len() - i,
    {
        let c = s[i];
        proof {
            assert(s@.subrange(start as int, i + 1).drop_last() =~= s@.subrange(
                start as int,
                i as int,
            ));
            assert(s@.subrange(start as int, i + 1).last() == c);
        }
        if c == '\\' {
            pending = out.len() > 0;
        } else {
            if pending {
                out.push('\\');
            }
            out.push(c);
            pending = false;
        }
        i = i + 1;
    }
    out
}

/// `base` extended by the component `name`, as `PathBuf::push` extends it.
pub fn path_join(conv: PathConvention, base: &str, name: &str) -> (r: String)
    requires
        plain_name(conv, name@),
    ensures
        r@ == spec_join(conv, base@, name@),
{
    let b = chars_of(base);
    let n = chars_of(name);
    let lay = layout(conv, b.as_slice());
    if lay.verbatim {
        let mut out = sub_chars(b.as_slice(), 0, lay.prefix);
        out.push('\\');
        let q = squash_from(b.as_slice(), lay.body);
        let ghost head = out@;
        push_chars(&mut out, q.as_slice());
        if q.len() > 0 {
            out.push('\\');
        }
        push_chars(&mut out, n.as_slice());
        proof {
            if q.len() > 0 {
                assert(out@ =~= head + (q@.push('\\') + n@));
            } else {
                assert(out@ =~= head + n@);
            }
        }
        return string_from_chars(out.as_slice());
    }
    let needs_sep = b.len() > 0 && !is_sep_char(conv, b[b.len() - 1]) && !(matches!(
        lay.kind,
        PrefixKind::Disk
    ) && lay.prefix == b.len());
    let mut out = b.clone();
    if needs_sep {
        if matches!(conv, PathConvention::Windows) {
            out.push('\\');
        } else {
            out.push('/');
        }
    }
    push_chars(&mut out, n.as_slice());
    proof {
        if needs_sep {
            assert(out@ =~= b@.push(main_sep(conv)) + n@);
        } else {
            assert(out@ =~= b@ + n@);
        }
    }
    string_from_chars(out.as_slice())
}

/// Whether `path` is absolute.
pub fn path_is_absolute(conv: PathConvention, path: &str) -> (r: bool)
    ensures
        r == spec_is_absolute(conv, path@),
{
    let s = chars_of(path);
    let lay = layout(conv, s.as_slice());
    let implicit = !matches!(lay.kind, PrefixKind::NoPrefix | PrefixKind::Disk);
    if matches!(conv, PathConvention::Windows) {
        !matches!(lay.kind, PrefixKind::NoPrefix) && (lay.phys || implicit)
    } else {
        lay.phys
    }
}

fn head_count_exec(conv: PathConvention, lay: &Layout, s: &[char]) -> (r: usize)
    requires
        lay.kind == pkind(conv, s@),
        lay.phys == phys_root(conv, s@),
        lay.cur == cur_dir(conv, s@),
        lay.verbatim == verbatim(conv, s@),
    ensures
        r == head_count(conv, s@),
{
    let implicit = !matches!(lay.kind, PrefixKind::NoPrefix | PrefixKind::Disk);
    let no_prefix = matches!(lay.kind, PrefixKind::NoPrefix);
    (if !no_prefix {
        1usize
    } else {
        0usize
    }) + (if lay.phys || (implicit && !lay.verbatim) {
        1usize
    } else {
        0usize
    }) + (if no_prefix && lay.cur {
        1usize
    } else {
        0usize
    })
}

/// How many components `path` has after its prefix, root and leading `.`, counting up
/// to two.
fn body_components(conv: PathConvention, s: &[char], lay: &Layout) -> (r: (bool, bool))
    requires
        lay.body == body_start(conv, s@),
        lay.verbatim == verbatim(conv, s@),
        lay.body <= s.len(),
    ensures
        r.0 == has_body_component(conv, s@),
        r.1 == has_two_body_components(conv, s@),
{
    let (st, e) = last_segment_bounds(conv, s, lay);
    let one = e > lay.body;
    let two = one && trim_end_exec(conv, s, lay, st) > lay.body;
    (one, two)
}

/// Whether `path` has more than one component.
pub fn path_has_several_components(conv: PathConvention, path: &str) -> (r: bool)
    ensures
        r == spec_several_components(conv, path@),
{
    let s = chars_of(path);
    let lay = layout(conv, s.as_slice());
    let h = head_count_exec(conv, &lay, s.as_slice());
    let (one, two) = body_components(conv, s.as_slice(), &lay);
    h + (if one {
        1usize
    } else {
        0usize
    }) + (if two {
        1usize
    } else {
        0usize
    }) > 1
}

/// Whether `path` is exactly one normal component.
pub fn path_is_single_component(conv: PathConvention, path: &str) -> (r: bool)
    ensures
        r == spec_single_component(conv, path@),
{
    let s = chars_of(path);
    let lay = layout(conv, s.as_slice());
    let h = head_count_exec(conv, &lay, s.as_slice());
    let (one, two) = body_components(conv, s.as_slice(), &lay);
    h == 0 && one && !two
}

} // verus!
