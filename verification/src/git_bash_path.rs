//! Conversion between Windows-native paths and their Git Bash spelling.
use vstd::prelude::*;

use crate::text;
use crate::text::{chars_equal, chars_of, push_chars, replace_chars, string_from_chars, sub_chars};

verus! {

/// How paths are shown to the model.
#[derive(Clone, Copy, Debug, PartialEq, Eq, Structural)]
pub enum PathDisplayStyle {
    Native,
    GitBash,
}

/// The path convention that a working directory was found to follow.
#[derive(Clone, Copy, Debug, PartialEq, Eq, Structural)]
pub enum PathConvention {
    Posix,
    Windows,
}

/// `\` or `/`, either of which separates components of a Windows path.
pub open spec fn is_windows_sep(c: char) -> bool {
    c == '\\' || c == '/'
}

/// The Windows spelling of a Git Bash drive path (`/c/...`) or UNC path (`//server/...`);
/// `None` for relative paths and for virtual paths such as `/usr/bin`.
pub open spec fn spec_git_bash_to_windows(p: Seq<char>) -> Option<Seq<char>> {
    if p.len() >= 2 && p[0] == '/' && p[1] == '/' {
        let rest = p.skip(2);
        if rest.len() == 0 {
            None
        } else {
            Some(seq!['\\', '\\'] + text::replace_char(rest, '/', '\\'))
        }
    } else if p.len() >= 1 && p[0] == '/' {
        let rest = p.skip(1);
        if rest.len() >= 1 && text::is_ascii_alpha(rest[0]) && (rest.len() == 1 || rest[1] == '/') {
            let tail = if rest.len() >= 2 {
                rest.skip(2)
            } else {
                Seq::<char>::empty()
            };
            Some(seq![text::ascii_upper(rest[0]), ':', '\\'] + text::replace_char(tail, '/', '\\'))
        } else {
            None
        }
    } else {
        None
    }
}

/// `p` starts with a drive letter, a colon and a separator.
pub open spec fn is_drive_absolute(p: Seq<char>) -> bool {
    p.len() >= 3 && p[1] == ':' && text::is_ascii_alpha(p[0]) && is_windows_sep(p[2])
}

/// The Git Bash spelling of a UNC path `\\server\share\...`.
pub open spec fn spec_unc_to_git_bash(p: Seq<char>) -> Option<Seq<char>> {
    if p.len() >= 2 && p[0] == '\\' && p[1] == '\\' {
        Some(seq!['/', '/'] + text::replace_char(p.skip(2), '\\', '/'))
    } else {
        None
    }
}

/// The Git Bash spelling of a drive-absolute or UNC Windows path.
pub open spec fn spec_windows_to_git_bash(p: Seq<char>) -> Option<Seq<char>> {
    if is_drive_absolute(p) {
        Some(seq!['/', text::ascii_lower(p[0]), '/'] + text::replace_char(p.skip(3), '\\', '/'))
    } else {
        spec_unc_to_git_bash(p)
    }
}

/// The text shown for a path in the given style.
pub open spec fn spec_format_path_text(p: Seq<char>, style: PathDisplayStyle) -> Seq<char> {
    match style {
        PathDisplayStyle::Native => p,
        PathDisplayStyle::GitBash => match spec_windows_to_git_bash(p) {
            Some(q) => q,
            None => text::replace_char(p, '\\', '/'),
        },
    }
}

/// Git Bash display applies to a `bash` shell whose working directory follows the
/// Windows convention.
pub open spec fn spec_path_display_style(
    shell_is_bash: bool,
    cwd_convention: Option<PathConvention>,
) -> PathDisplayStyle {
    if shell_is_bash && cwd_convention == Some(PathConvention::Windows) {
        PathDisplayStyle::GitBash
    } else {
        PathDisplayStyle::Native
    }
}

/// Whether `byte` separates Windows path components.
pub fn is_windows_separator(byte: u8) -> (r: bool)
    ensures
        r == (byte == 92u8 || byte == 47u8),
{
    byte == 92u8 || byte == 47u8
}

fn is_windows_separator_char(c: char) -> (r: bool)
    ensures
        r == is_windows_sep(c),
{
    c == '\\' || c == '/'
}

/// Converts a Git Bash drive or UNC path to Windows-native spelling.
///
/// Returns `None` for relative paths and Git Bash virtual paths such as
/// `/usr/bin`, whose Windows location cannot be inferred from the path alone.
pub fn git_bash_path_to_windows_path(path: &str) -> (r: Option<String>)
    ensures
        r matches Some(w) ==> spec_git_bash_to_windows(path@) == Some(w@),
        r is None ==> spec_git_bash_to_windows(path@) is None,
{
    let p = chars_of(path);
    let n = p.len();
    if n >= 2 && p[0] == '/' && p[1] == '/' {
        if n == 2 {
            return None;
        }
        let rest = sub_chars(p.as_slice(), 2, n);
        let mut out: Vec<char> = Vec::new();
        out.push('\\');
        out.push('\\');
        let replaced = replace_chars(rest.as_slice(), '/', '\\');
        push_chars(&mut out, replaced.as_slice());
        assert(out@ =~= seq!['\\', '\\'] + text::replace_char(p@.skip(2), '/', '\\'));
        return Some(string_from_chars(out.as_slice()));
    }
    if n == 0 || p[0] != '/' {
        return None;
    }
    // `rest` is `p[1..]`: the drive is its part before the first `/`.
    if n < 2 || !text::is_ascii_alpha_char(p[1]) || (n >= 3 && p[2] != '/') {
        return None;
    }
    let mut out: Vec<char> = Vec::new();
    out.push(text::ascii_upper_char(p[1]));
    out.push(':');
    out.push('\\');
    let tail = if n >= 3 {
        sub_chars(p.as_slice(), 3, n)
    } else {
        Vec::new()
    };
    let replaced = replace_chars(tail.as_slice(), '/', '\\');
    push_chars(&mut out, replaced.as_slice());
    proof {
        let rest = p@.skip(1);
        let t = if rest.len() >= 2 {
            rest.skip(2)
        } else {
            Seq::<char>::empty()
        };
        assert(tail@ =~= t);
        assert(out@ =~= seq![text::ascii_upper(rest[0]), ':', '\\'] + text::replace_char(t, '/', '\\'));
    }
    Some(string_from_chars(out.as_slice()))
}

fn windows_unc_path_to_git_bash_path(p: &[char]) -> (r: Option<Vec<char>>)
    ensures
        r matches Some(g) ==> spec_unc_to_git_bash(p@) == Some(g@),
        r is None ==> spec_unc_to_git_bash(p@) is None,
{
    if p.len() < 2 || p[0] != '\\' || p[1] != '\\' {
        return None;
    }
    let rest = sub_chars(p, 2, p.len());
    let replaced = replace_chars(rest.as_slice(), '\\', '/');
    let mut out: Vec<char> = Vec::new();
    out.push('/');
    out.push('/');
    push_chars(&mut out, replaced.as_slice());
    assert(out@ =~= seq!['/', '/'] + text::replace_char(p@.skip(2), '\\', '/'));
    Some(out)
}

fn windows_path_to_git_bash_path(p: &[char]) -> (r: Option<Vec<char>>)
    ensures
        r matches Some(g) ==> spec_windows_to_git_bash(p@) == Some(g@),
        r is None ==> spec_windows_to_git_bash(p@) is None,
{
    if p.len() < 3 || p[1] != ':' || !text::is_ascii_alpha_char(p[0]) || !is_windows_separator_char(
        p[2],
    ) {
        return windows_unc_path_to_git_bash_path(p);
    }
    let drive = text::ascii_lower_char(p[0]);
    let rest = sub_chars(p, 3, p.len());
    let tail = replace_chars(rest.as_slice(), '\\', '/');
    let mut out: Vec<char> = Vec::new();
    out.push('/');
    out.push(drive);
    out.push('/');
    push_chars(&mut out, tail.as_slice());
    assert(out@ =~= seq!['/', text::ascii_lower(p@[0]), '/'] + text::replace_char(p@.skip(3), '\\', '/'));
    Some(out)
}

/// Spells `path` in the given display style: Git Bash style turns drive and UNC
/// paths into `/c/...` and `//server/...`, and any other path gets forward slashes.
pub fn format_path_text_for_shell(path: &str, style: PathDisplayStyle) -> (r: String)
    ensures
        r@ == spec_format_path_text(path@, style),
{
    match style {
        PathDisplayStyle::Native => {
            let p = chars_of(path);
            string_from_chars(p.as_slice())
        },
        PathDisplayStyle::GitBash => {
            let p = chars_of(path);
            match windows_path_to_git_bash_path(p.as_slice()) {
                Some(g) => string_from_chars(g.as_slice()),
                None => {
                    let r = replace_chars(p.as_slice(), '\\', '/');
                    string_from_chars(r.as_slice())
                },
            }
        },
    }
}

/// Spells a native path (already turned into text) in the given display style.
pub fn format_native_path_for_shell(path: &str, style: PathDisplayStyle) -> (r: String)
    ensures
        r@ == spec_format_path_text(path@, style),
{
    format_path_text_for_shell(path, style)
}

/// Chooses the display style: Git Bash when the shell is `bash` and the working
/// directory follows the Windows convention, native otherwise.
pub fn path_display_style_for_shell(
    shell_name: Option<&str>,
    cwd_convention: Option<PathConvention>,
) -> (r: PathDisplayStyle)
    ensures
        r == spec_path_display_style(
            shell_name matches Some(n) && n@ == seq!['b', 'a', 's', 'h'],
            cwd_convention,
        ),
{
    let is_bash = match shell_name {
        Some(n) => {
            let v = chars_of(n);
            let bash = vec!['b', 'a', 's', 'h'];
            chars_equal(v.as_slice(), bash.as_slice())
        },
        None => false,
    };
    let windows = match cwd_convention {
        Some(PathConvention::Windows) => true,
        _ => false,
    };
    if is_bash && windows {
        PathDisplayStyle::GitBash
    } else {
        PathDisplayStyle::Native
    }
}


/// Turning a Windows drive path with an upper-case drive letter and backslash separators
/// into Git Bash spelling and back gives the path unchanged.
pub proof fn lemma_windows_drive_path_round_trip(p: Seq<char>)
    requires
        p.len() >= 3,
        'A' <= p[0] && p[0] <= 'Z',
        p[1] == ':',
        p[2] == '\\',
        forall|i: int| 3 <= i < p.len() ==> p[i] != '/',
    ensures
        spec_windows_to_git_bash(p) matches Some(g) && spec_git_bash_to_windows(g) == Some(p),
{
    let g = seq!['/', text::ascii_lower(p[0]), '/'] + text::replace_char(p.skip(3), '\\', '/');
    assert(spec_windows_to_git_bash(p) == Some(g));
    let rest = g.skip(1);
    assert(rest[0] == text::ascii_lower(p[0]));
    assert(rest[1] == '/');
    assert(text::ascii_upper(text::ascii_lower(p[0])) == p[0]);
    assert(rest.skip(2) =~= text::replace_char(p.skip(3), '\\', '/'));
    assert(text::replace_char(text::replace_char(p.skip(3), '\\', '/'), '/', '\\') =~= p.skip(3));
    assert(seq![p[0], ':', '\\'] + p.skip(3) =~= p);
}

/// Turning a UNC path spelled with backslashes into Git Bash spelling and back gives the
/// path unchanged.
pub proof fn lemma_unc_path_round_trip(p: Seq<char>)
    requires
        p.len() > 2,
        p[0] == '\\',
        p[1] == '\\',
        forall|i: int| 0 <= i < p.len() ==> p[i] != '/',
    ensures
        spec_windows_to_git_bash(p) matches Some(g) && spec_git_bash_to_windows(g) == Some(p),
{
    let g = seq!['/', '/'] + text::replace_char(p.skip(2), '\\', '/');
    assert(spec_windows_to_git_bash(p) == Some(g));
    assert(g.skip(2) =~= text::replace_char(p.skip(2), '\\', '/'));
    assert(text::replace_char(text::replace_char(p.skip(2), '\\', '/'), '/', '\\') =~= p.skip(2));
    assert(seq!['\\', '\\'] + p.skip(2) =~= p);
}

/// A Git Bash drive path `/x/...` with a lower-case drive letter and no backslash
/// survives the trip to Windows spelling and back.
pub proof fn lemma_git_bash_drive_path_round_trip(g: Seq<char>)
    requires
        g.len() >= 3,
        g[0] == '/',
        'a' <= g[1] && g[1] <= 'z',
        g[2] == '/',
        forall|i: int| 0 <= i < g.len() ==> g[i] != '\\',
    ensures
        spec_git_bash_to_windows(g) matches Some(w) && spec_windows_to_git_bash(w) == Some(g),
{
    let rest = g.skip(1);
    assert(rest[0] == g[1]);
    assert(rest[1] == '/');
    assert(rest.skip(2) =~= g.skip(3));
    let w = seq![text::ascii_upper(g[1]), ':', '\\'] + text::replace_char(g.skip(3), '/', '\\');
    assert(spec_git_bash_to_windows(g) == Some(w));
    assert(text::ascii_lower(text::ascii_upper(g[1])) == g[1]);
    assert(is_drive_absolute(w));
    assert(w.skip(3) =~= text::replace_char(g.skip(3), '/', '\\'));
    assert(text::replace_char(text::replace_char(g.skip(3), '/', '\\'), '\\', '/') =~= g.skip(3));
    assert(seq!['/', g[1], '/'] + g.skip(3) =~= g);
}

/// Text shown in Git Bash style never holds a backslash.
pub proof fn lemma_git_bash_style_has_no_backslash(p: Seq<char>)
    ensures
        forall|i: int|
            0 <= i < spec_format_path_text(p, PathDisplayStyle::GitBash).len()
                ==> spec_format_path_text(p, PathDisplayStyle::GitBash)[i] != '\\',
{
    let q = spec_format_path_text(p, PathDisplayStyle::GitBash);
    if is_drive_absolute(p) {
        let t = text::replace_char(p.skip(3), '\\', '/');
        assert(q == seq!['/', text::ascii_lower(p[0]), '/'] + t);
        assert forall|i: int| 0 <= i < q.len() implies q[i] != '\\' by {
            if i >= 3 {
                assert(q[i] == t[i - 3]);
            }
        }
    } else if p.len() >= 2 && p[0] == '\\' && p[1] == '\\' {
        let t = text::replace_char(p.skip(2), '\\', '/');
        assert(q == seq!['/', '/'] + t);
        assert forall|i: int| 0 <= i < q.len() implies q[i] != '\\' by {
            if i >= 2 {
                assert(q[i] == t[i - 2]);
            }
        }
    }
}

/// A Windows path produced from Git Bash spelling never holds a forward slash.
pub proof fn lemma_windows_spelling_has_no_forward_slash(g: Seq<char>)
    ensures
        spec_git_bash_to_windows(g) matches Some(w) ==> forall|i: int|
            0 <= i < w.len() ==> w[i] != '/',
{
    if let Some(w) = spec_git_bash_to_windows(g) {
        if g.len() >= 2 && g[0] == '/' && g[1] == '/' {
            let t = text::replace_char(g.skip(2), '/', '\\');
            assert forall|i: int| 0 <= i < w.len() implies w[i] != '/' by {
                if i >= 2 {
                    assert(w[i] == t[i - 2]);
                }
            }
        } else {
            let rest = g.skip(1);
            let tail = if rest.len() >= 2 {
                rest.skip(2)
            } else {
                Seq::<char>::empty()
            };
            let t = text::replace_char(tail, '/', '\\');
            assert(text::is_ascii_alpha(rest[0]));
            assert forall|i: int| 0 <= i < w.len() implies w[i] != '/' by {
                if i >= 3 {
                    assert(w[i] == t[i - 3]);
                }
            }
        }
    }
}

/// Only `/<letter>` and `/<letter>/...` name a drive and only `//...` names a UNC path:
/// a relative path, and an absolute path whose first component is not a single ASCII
/// letter (`/usr/bin`, `/tmp`, `/home/me`), has no Windows spelling.
pub proof fn lemma_virtual_paths_have_no_windows_spelling(p: Seq<char>)
    requires
        !(p.len() >= 2 && p[0] == '/' && p[1] == '/'),
    ensures
        p.len() == 0 || p[0] != '/' ==> spec_git_bash_to_windows(p) is None,
        p.len() >= 3 && p[0] == '/' && p[2] != '/' ==> spec_git_bash_to_windows(p) is None,
        p.len() >= 2 && p[0] == '/' && !text::is_ascii_alpha(p[1]) ==> spec_git_bash_to_windows(
            p,
        ) is None,
{
}

} // verus!
