//! The `<filesystem>` and `<network>` parts of the environment context shown to the model.
use vstd::prelude::*;

use crate::git_bash_path;
use crate::git_bash_path::{format_native_path_for_shell, format_path_text_for_shell, PathDisplayStyle};
use crate::text;
use crate::text::{append_chars, chars_of, decimal_chars};

verus! {

// ---------------------------------------------------------------------------
// Permission profiles
// ---------------------------------------------------------------------------

/// How a sandbox entry lets a path be used.
#[derive(Debug, Clone, Copy, PartialEq, Eq, Structural)]
pub enum FileSystemAccessMode {
    Read,
    Write,
    Deny,
}

/// A path with a meaning of its own in sandbox entries.
#[derive(Debug)]
pub enum FileSystemSpecialPath {
    Root,
    Minimal,
    ProjectRoots { subpath: Option<String> },
    Tmpdir,
    SlashTmp,
    Unknown { path: String, subpath: Option<String> },
}

#[derive(Debug)]
pub enum FileSystemPath {
    Path { path: String },
    GlobPattern { pattern: String },
    Special { value: FileSystemSpecialPath },
}

#[derive(Debug)]
pub struct FileSystemSandboxEntry {
    pub path: FileSystemPath,
    pub access: FileSystemAccessMode,
}

/// The file system part of a managed permission profile, with its project roots
/// already resolved.
#[derive(Debug)]
pub enum ManagedFileSystemPermissions {
    Restricted { entries: Vec<FileSystemSandboxEntry>, glob_scan_max_depth: Option<usize> },
    Unrestricted,
}

#[derive(Debug)]
pub enum PermissionProfile {
    Managed { file_system: ManagedFileSystemPermissions },
    Disabled,
    External,
}

pub enum SpecialPathView {
    Root,
    Minimal,
    ProjectRoots(Option<Seq<char>>),
    Tmpdir,
    SlashTmp,
    Unknown(Seq<char>, Option<Seq<char>>),
}

pub enum FsPathView {
    Path(Seq<char>),
    GlobPattern(Seq<char>),
    Special(SpecialPathView),
}

pub open spec fn opt_seq(o: Option<String>) -> Option<Seq<char>> {
    match o {
        Some(s) => Some(s@),
        None => None,
    }
}

impl View for FileSystemSpecialPath {
    type V = SpecialPathView;

    open spec fn view(&self) -> SpecialPathView {
        match self {
            FileSystemSpecialPath::Root => SpecialPathView::Root,
            FileSystemSpecialPath::Minimal => SpecialPathView::Minimal,
            FileSystemSpecialPath::ProjectRoots { subpath } => SpecialPathView::ProjectRoots(
                opt_seq(*subpath),
            ),
            FileSystemSpecialPath::Tmpdir => SpecialPathView::Tmpdir,
            FileSystemSpecialPath::SlashTmp => SpecialPathView::SlashTmp,
            FileSystemSpecialPath::Unknown { path, subpath } => SpecialPathView::Unknown(
                path@,
                opt_seq(*subpath),
            ),
        }
    }
}

impl View for FileSystemPath {
    type V = FsPathView;

    open spec fn view(&self) -> FsPathView {
        match self {
            FileSystemPath::Path { path } => FsPathView::Path(path@),
            FileSystemPath::GlobPattern { pattern } => FsPathView::GlobPattern(pattern@),
            FileSystemPath::Special { value } => FsPathView::Special(value@),
        }
    }
}

impl View for FileSystemSandboxEntry {
    type V = (FsPathView, FileSystemAccessMode);

    open spec fn view(&self) -> (FsPathView, FileSystemAccessMode) {
        (self.path@, self.access)
    }
}

pub open spec fn entries_view(es: Seq<FileSystemSandboxEntry>) -> Seq<(FsPathView, FileSystemAccessMode)> {
    es.map_values(|e: FileSystemSandboxEntry| e@)
}

// ---------------------------------------------------------------------------
// Removing repeated entries
// ---------------------------------------------------------------------------

/// `s` without the entries that already occurred earlier in `s`.
pub open spec fn spec_dedupe_entries(s: Seq<(FsPathView, FileSystemAccessMode)>) -> Seq<
    (FsPathView, FileSystemAccessMode),
>
    decreases s.len(),
{
    if s.len() == 0 {
        Seq::empty()
    } else if s.drop_last().contains(s.last()) {
        spec_dedupe_entries(s.drop_last())
    } else {
        spec_dedupe_entries(s.drop_last()).push(s.last())
    }
}

/// Dropping repeated entries keeps every entry that occurs.
pub proof fn lemma_dedupe_entries_keeps_entries(
    s: Seq<(FsPathView, FileSystemAccessMode)>,
    x: (FsPathView, FileSystemAccessMode),
)
    ensures
        spec_dedupe_entries(s).contains(x) == s.contains(x),
    decreases s.len(),
{
    if s.len() > 0 {
        let p = s.drop_last();
        lemma_dedupe_entries_keeps_entries(p, x);
        lemma_dedupe_entries_keeps_entries(p, s.last());
        assert(p.push(s.last()) =~= s);
        if s.contains(x) && !p.contains(x) {
            let j = choose|j: int| 0 <= j < s.len() && s[j] == x;
            if j < p.len() {
                assert(p[j] == x);
            }
            assert(x == s.last());
        }
        if p.contains(x) {
            let j = choose|j: int| 0 <= j < p.len() && p[j] == x;
            assert(s[j] == x);
        }
        if !p.contains(s.last()) {
            let d = spec_dedupe_entries(p);
            assert(d.push(s.last())[d.len() as int] == s.last());
            if d.push(s.last()).contains(x) {
                let j = choose|j: int| 0 <= j < d.push(s.last()).len() && d.push(s.last())[j] == x;
                if j < d.len() {
                    assert(d[j] == x);
                }
            }
            if d.contains(x) {
                let j = choose|j: int| 0 <= j < d.len() && d[j] == x;
                assert(d.push(s.last())[j] == x);
            }
        }
    }
}

/// After dropping repeats no entry occurs twice.
pub proof fn lemma_dedupe_entries_distinct(s: Seq<(FsPathView, FileSystemAccessMode)>)
    ensures
        forall|i: int, j: int|
            0 <= i < j < spec_dedupe_entries(s).len() ==> spec_dedupe_entries(s)[i]
                != spec_dedupe_entries(s)[j],
    decreases s.len(),
{
    if s.len() > 0 {
        let p = s.drop_last();
        lemma_dedupe_entries_distinct(p);
        if !p.contains(s.last()) {
            lemma_dedupe_entries_keeps_entries(p, s.last());
            let d = spec_dedupe_entries(p);
            assert forall|i: int, j: int|
                0 <= i < j < d.push(s.last()).len() implies d.push(s.last())[i] != d.push(
                s.last(),
            )[j] by {
                if j == d.len() && d[i] == s.last() {
                    assert(d.contains(s.last()));
                }
            }
        }
    }
}

fn opt_string_equal(a: &Option<String>, b: &Option<String>) -> (r: bool)
    ensures
        r == (opt_seq(*a) == opt_seq(*b)),
{
    match (a, b) {
        (Some(x), Some(y)) => text::str_equal(x.as_str(), y.as_str()),
        (None, None) => true,
        _ => false,
    }
}

fn special_paths_equal(a: &FileSystemSpecialPath, b: &FileSystemSpecialPath) -> (r: bool)
    ensures
        r == (a@ == b@),
{
    match (a, b) {
        (FileSystemSpecialPath::Root, FileSystemSpecialPath::Root) => true,
        (FileSystemSpecialPath::Minimal, FileSystemSpecialPath::Minimal) => true,
        (
            FileSystemSpecialPath::ProjectRoots { subpath: x },
            FileSystemSpecialPath::ProjectRoots { subpath: y },
        ) => opt_string_equal(x, y),
        (FileSystemSpecialPath::Tmpdir, FileSystemSpecialPath::Tmpdir) => true,
        (FileSystemSpecialPath::SlashTmp, FileSystemSpecialPath::SlashTmp) => true,
        (
            FileSystemSpecialPath::Unknown { path: p, subpath: x },
            FileSystemSpecialPath::Unknown { path: q, subpath: y },
        ) => text::str_equal(p.as_str(), q.as_str()) && opt_string_equal(x, y),
        _ => false,
    }
}

fn file_system_paths_equal(a: &FileSystemPath, b: &FileSystemPath) -> (r: bool)
    ensures
        r == (a@ == b@),
{
    match (a, b) {
        (FileSystemPath::Path { path: p }, FileSystemPath::Path { path: q }) => text::str_equal(
            p.as_str(),
            q.as_str(),
        ),
        (FileSystemPath::GlobPattern { pattern: p }, FileSystemPath::GlobPattern { pattern: q }) => {
            text::str_equal(p.as_str(), q.as_str())
        },
        (FileSystemPath::Special { value: v }, FileSystemPath::Special { value: w }) => {
            special_paths_equal(v, w)
        },
        _ => false,
    }
}

fn entries_equal(a: &FileSystemSandboxEntry, b: &FileSystemSandboxEntry) -> (r: bool)
    ensures
        r == (a@ == b@),
{
    a.access == b.access && file_system_paths_equal(&a.path, &b.path)
}

fn contains_entry(es: &Vec<FileSystemSandboxEntry>, e: &FileSystemSandboxEntry) -> (r: bool)
    ensures
        r == entries_view(es@).contains(e@),
{
    let mut i: usize = 0;
    while i < es.len()
        invariant
            i <= es.len(),
            forall|j: int| 0 <= j < i ==> entries_view(es@)[j] != e@,
        decreases es.len() - i,
    {
        if entries_equal(&es[i], e) {
            assert(entries_view(es@)[i as int] == e@);
            return true;
        }
        i = i + 1;
    }
    false
}

/// Drops every entry equal to an earlier one.
pub fn dedupe_file_system_entries(entries: &mut Vec<FileSystemSandboxEntry>)
    ensures
        entries_view(final(entries)@) == spec_dedupe_entries(entries_view(old(entries)@)),
{
    let mut input: Vec<FileSystemSandboxEntry> = Vec::new();
    std::mem::swap(&mut input, entries);
    let ghost d = entries_view(input@);
    let n = input.len();
    let mut out: Vec<FileSystemSandboxEntry> = Vec::new();
    let mut i: usize = 0;
    assert(entries_view(out@) =~= spec_dedupe_entries(d.take(0)));
    // Entries are taken from the back of `rest`, which is `input` reversed.
    let mut rest: Vec<FileSystemSandboxEntry> = Vec::new();
    while input.len() > 0
        invariant
            entries_view(input@) + entries_view(rest@).reverse() == d,
        decreases input.len(),
    {
        let e = input.pop().unwrap();
        rest.push(e);
        proof {
            let iv = entries_view(input@);
            let rv = entries_view(rest@);
            assert(rv =~= entries_view(rest@.drop_last()).push(e@));
            assert(iv + rv.reverse() =~= d);
        }
    }
    assert(entries_view(rest@).reverse() =~= d);
    while rest.len() > 0
        invariant
            i + rest.len() == n,
            d.len() == n,
            entries_view(rest@).reverse() == d.skip(i as int),
            entries_view(out@) == spec_dedupe_entries(d.take(i as int)),
        decreases rest.len(),
    {
        let e = rest.pop().unwrap();
        proof {
            let rv = entries_view(rest@);
            assert(entries_view(rest@.push(e)) =~= rv.push(e@));
            assert(rv.push(e@).reverse()[0] == e@);
            assert(d.skip(i as int)[0] == d[i as int]);
            assert(rv.push(e@).reverse() =~= seq![e@] + rv.reverse());
            assert((seq![e@] + rv.reverse()).drop_first() =~= rv.reverse());
            assert(d.skip(i as int).drop_first() =~= d.skip(i + 1));
            assert(rv.reverse() =~= d.skip(i + 1));
            assert(d.take(i + 1).drop_last() =~= d.take(i as int));
            assert(d.take(i + 1).last() == e@);
            lemma_dedupe_entries_keeps_entries(d.take(i as int), e@);
        }
        if !contains_entry(&out, &e) {
            out.push(e);
            proof {
                assert(entries_view(out@) =~= entries_view(out@.drop_last()).push(
                    out@.last()@,
                ));
            }
        }
        i = i + 1;
    }
    assert(d.take(d.len() as int) =~= d);
    *entries = out;
}


// ---------------------------------------------------------------------------
// XML text
// ---------------------------------------------------------------------------

/// The XML spelling of one character of text.
pub open spec fn escape_char(c: char) -> Seq<char> {
    if c == '&' {
        seq!['&', 'a', 'm', 'p', ';']
    } else if c == '<' {
        seq!['&', 'l', 't', ';']
    } else if c == '>' {
        seq!['&', 'g', 't', ';']
    } else if c == '"' {
        seq!['&', 'q', 'u', 'o', 't', ';']
    } else if c == '\'' {
        seq!['&', 'a', 'p', 'o', 's', ';']
    } else {
        seq![c]
    }
}

/// `s` with `&`, `<`, `>`, `"` and `'` replaced by their XML entities.
pub open spec fn xml_escape(s: Seq<char>) -> Seq<char>
    decreases s.len(),
{
    if s.len() == 0 {
        Seq::empty()
    } else {
        xml_escape(s.drop_last()) + escape_char(s.last())
    }
}

pub open spec fn is_xml_special(c: char) -> bool {
    c == '<' || c == '>' || c == '"' || c == '\''
}

/// Escaped text holds none of `<`, `>`, `"` and `'`.
pub proof fn lemma_xml_escape_has_no_markup(s: Seq<char>)
    ensures
        forall|i: int| 0 <= i < xml_escape(s).len() ==> !is_xml_special(#[trigger] xml_escape(s)[i]),
    decreases s.len(),
{
    if s.len() > 0 {
        lemma_xml_escape_has_no_markup(s.drop_last());
        let a = xml_escape(s.drop_last());
        let b = escape_char(s.last());
        assert forall|i: int| 0 <= i < (a + b).len() implies !is_xml_special(#[trigger] (a + b)[i]) by {
            if i >= a.len() {
                assert((a + b)[i] == b[i - a.len()]);
            } else {
                assert((a + b)[i] == a[i]);
            }
        }
    }
}

/// Text without markup characters or `&` is its own XML spelling.
pub proof fn lemma_xml_escape_plain_text(s: Seq<char>)
    requires
        forall|i: int| 0 <= i < s.len() ==> !is_xml_special(#[trigger] s[i]) && s[i] != '&',
    ensures
        xml_escape(s) == s,
    decreases s.len(),
{
    if s.len() > 0 {
        lemma_xml_escape_plain_text(s.drop_last());
        assert(s.drop_last().push(s.last()) =~= s);
        assert(escape_char(s.last()) =~= seq![s.last()]);
    }
}

/// Appends `value` to `rendered` with `&`, `<`, `>`, `"` and `'` written as entities.
pub fn push_xml_escaped_text(rendered: &mut String, value: &str)
    ensures
        final(rendered)@ == old(rendered)@ + xml_escape(value@),
{
    let v = chars_of(value);
    let mut i: usize = 0;
    while i < v.len()
        invariant
            i <= v.len(),
            v@ == value@,
            rendered@ == old(rendered)@ + xml_escape(v@.take(i as int)),
        decreases v.len() - i,
    {
        let ghost before = rendered@;
        let ch = v[i];
        if ch == '&' {
            rendered.push('&');
            rendered.push('a');
            rendered.push('m');
            rendered.push('p');
            rendered.push(';');
        } else if ch == '<' {
            rendered.push('&');
            rendered.push('l');
            rendered.push('t');
            rendered.push(';');
        } else if ch == '>' {
            rendered.push('&');
            rendered.push('g');
            rendered.push('t');
            rendered.push(';');
        } else if ch == '"' {
            rendered.push('&');
            rendered.push('q');
            rendered.push('u');
            rendered.push('o');
            rendered.push('t');
            rendered.push(';');
        } else if ch == '\'' {
            rendered.push('&');
            rendered.push('a');
            rendered.push('p');
            rendered.push('o');
            rendered.push('s');
            rendered.push(';');
        } else {
            rendered.push(ch);
        }
        proof {
            assert(rendered@ =~= before + escape_char(ch));
            assert(v@.take(i + 1).drop_last() =~= v@.take(i as int));
            assert(v@.take(i + 1).last() == ch);
        }
        i = i + 1;
    }
    assert(v@.take(v.len() as int) =~= v@);
}

/// `<name>value</name>` with the value escaped.
pub open spec fn text_element(name: Seq<char>, value: Seq<char>) -> Seq<char> {
    "<"@ + name + ">"@ + xml_escape(value) + "</"@ + name + ">"@
}

/// Appends `<name>value</name>`, the value escaped.
pub fn push_text_element(rendered: &mut String, name: &str, value: &str)
    ensures
        final(rendered)@ == old(rendered)@ + text_element(name@, value@),
{
    rendered.append("<");
    rendered.append(name);
    rendered.append(">");
    push_xml_escaped_text(rendered, value);
    rendered.append("</");
    rendered.append(name);
    rendered.append(">");
    assert(rendered@ =~= old(rendered)@ + text_element(name@, value@));
}

// ---------------------------------------------------------------------------
// Rendering the file system context
// ---------------------------------------------------------------------------

pub open spec fn fmt(p: Seq<char>, style: PathDisplayStyle) -> Seq<char> {
    git_bash_path::spec_format_path_text(p, style)
}

pub open spec fn spec_special_path_with_subpath(
    base: Seq<char>,
    subpath: Option<Seq<char>>,
    style: PathDisplayStyle,
) -> Seq<char> {
    match subpath {
        Some(s) => base + "/"@ + fmt(s, style),
        None => base,
    }
}

pub open spec fn spec_special_path(v: SpecialPathView, style: PathDisplayStyle) -> Seq<char> {
    match v {
        SpecialPathView::Root => ":root"@,
        SpecialPathView::Minimal => ":minimal"@,
        SpecialPathView::ProjectRoots(sub) => spec_special_path_with_subpath(
            ":workspace_roots"@,
            sub,
            style,
        ),
        SpecialPathView::Tmpdir => ":tmpdir"@,
        SpecialPathView::SlashTmp => ":slash_tmp"@,
        SpecialPathView::Unknown(path, sub) => spec_special_path_with_subpath(path, sub, style),
    }
}

pub open spec fn access_name(a: FileSystemAccessMode) -> Seq<char> {
    match a {
        FileSystemAccessMode::Read => "read"@,
        FileSystemAccessMode::Write => "write"@,
        FileSystemAccessMode::Deny => "deny"@,
    }
}

/// `<entry access="...">` with the path in the display style; denied entries are marked
/// as not escalatable.
pub open spec fn spec_entry_text(e: (FsPathView, FileSystemAccessMode), style: PathDisplayStyle) -> Seq<
    char,
> {
    "<entry access=\""@ + access_name(e.1) + (if e.1 == FileSystemAccessMode::Deny {
        "\" escalatable=\"false"@
    } else {
        Seq::empty()
    }) + "\">"@ + match e.0 {
        FsPathView::Path(p) => text_element("path"@, fmt(p, style)),
        FsPathView::GlobPattern(p) => text_element("glob"@, fmt(p, style)),
        FsPathView::Special(v) => text_element("special"@, spec_special_path(v, style)),
    } + "</entry>"@
}

pub open spec fn spec_entries_text(es: Seq<(FsPathView, FileSystemAccessMode)>, style: PathDisplayStyle) -> Seq<
    char,
>
    decreases es.len(),
{
    if es.len() == 0 {
        Seq::empty()
    } else {
        spec_entries_text(es.drop_last(), style) + spec_entry_text(es.last(), style)
    }
}

pub enum ManagedView {
    Restricted(Seq<(FsPathView, FileSystemAccessMode)>, Option<usize>),
    Unrestricted,
}

pub enum ProfileView {
    Managed(ManagedView),
    Disabled,
    External,
}

pub open spec fn spec_managed_text(m: ManagedView, style: PathDisplayStyle) -> Seq<char> {
    match m {
        ManagedView::Restricted(es, depth) => if es.len() == 0 && depth is None {
            "<file_system type=\"restricted\" />"@
        } else {
            "<file_system type=\"restricted\""@ + match depth {
                Some(d) => " glob_scan_max_depth=\""@ + text::decimal(d as nat) + "\""@,
                None => Seq::empty(),
            } + ">"@ + spec_entries_text(es, style) + "</file_system>"@
        },
        ManagedView::Unrestricted => "<file_system type=\"unrestricted\" />"@,
    }
}

pub open spec fn spec_profile_text(p: ProfileView, style: PathDisplayStyle) -> Seq<char> {
    match p {
        ProfileView::Managed(m) => "<permission_profile type=\"managed\">"@ + spec_managed_text(
            m,
            style,
        ) + "</permission_profile>"@,
        ProfileView::Disabled => "<permission_profile type=\"disabled\"><file_system type=\"unrestricted\" /></permission_profile>"@,
        ProfileView::External => "<permission_profile type=\"external\"><file_system type=\"external\" /></permission_profile>"@,
    }
}

pub open spec fn spec_roots_text(roots: Seq<Seq<char>>) -> Seq<char>
    decreases roots.len(),
{
    if roots.len() == 0 {
        Seq::empty()
    } else {
        spec_roots_text(roots.drop_last()) + text_element("root"@, roots.last())
    }
}

/// The whole `<filesystem>` element.
pub open spec fn spec_filesystem_text(
    roots: Seq<Seq<char>>,
    profile: ProfileView,
    style: PathDisplayStyle,
) -> Seq<char> {
    "<filesystem>"@ + (if roots.len() == 0 {
        Seq::empty()
    } else {
        "<workspace_roots>"@ + spec_roots_text(roots) + "</workspace_roots>"@
    }) + spec_profile_text(profile, style) + "</filesystem>"@
}

/// The part of a `:workspace_roots` or unknown special path after its base.
pub fn render_special_path_with_subpath(
    base: &str,
    subpath: &Option<String>,
    path_display_style: PathDisplayStyle,
) -> (r: String)
    ensures
        r@ == spec_special_path_with_subpath(base@, opt_seq(*subpath), path_display_style),
{
    let mut r = String::new();
    r.append(base);
    match subpath {
        Some(s) => {
            let formatted = format_path_text_for_shell(s.as_str(), path_display_style);
            r.append("/");
            r.append(formatted.as_str());
            assert(r@ =~= base@ + "/"@ + fmt(s@, path_display_style));
        },
        None => {
            assert(r@ =~= base@);
        },
    }
    r
}

/// The text that names a special path.
pub fn render_special_path(value: &FileSystemSpecialPath, path_display_style: PathDisplayStyle) -> (r:
    String)
    ensures
        r@ == spec_special_path(value@, path_display_style),
{
    match value {
        FileSystemSpecialPath::Root => ":root".to_string(),
        FileSystemSpecialPath::Minimal => ":minimal".to_string(),
        FileSystemSpecialPath::ProjectRoots { subpath } => render_special_path_with_subpath(
            ":workspace_roots",
            subpath,
            path_display_style,
        ),
        FileSystemSpecialPath::Tmpdir => ":tmpdir".to_string(),
        FileSystemSpecialPath::SlashTmp => ":slash_tmp".to_string(),
        FileSystemSpecialPath::Unknown { path, subpath } => render_special_path_with_subpath(
            path.as_str(),
            subpath,
            path_display_style,
        ),
    }
}

fn access_text(a: FileSystemAccessMode) -> (r: &'static str)
    ensures
        r@ == access_name(a),
{
    match a {
        FileSystemAccessMode::Read => "read",
        FileSystemAccessMode::Write => "write",
        FileSystemAccessMode::Deny => "deny",
    }
}

/// Appends the `<entry>` element of one sandbox entry.
#[verifier::spinoff_prover]
#[verifier::rlimit(40)]
pub fn render_file_system_entry(
    rendered: &mut String,
    entry: &FileSystemSandboxEntry,
    path_display_style: PathDisplayStyle,
)
    ensures
        final(rendered)@ == old(rendered)@ + spec_entry_text(entry@, path_display_style),
{
    rendered.append("<entry access=\"");
    rendered.append(access_text(entry.access));
    if entry.access == FileSystemAccessMode::Deny {
        rendered.append("\" escalatable=\"false");
    }
    rendered.append("\">");
    let ghost head = rendered@;
    match &entry.path {
        FileSystemPath::Path { path } => {
            let p = format_native_path_for_shell(path.as_str(), path_display_style);
            push_text_element(rendered, "path", p.as_str());
        },
        FileSystemPath::GlobPattern { pattern } => {
            let p = format_path_text_for_shell(pattern.as_str(), path_display_style);
            push_text_element(rendered, "glob", p.as_str());
        },
        FileSystemPath::Special { value } => {
            let v = render_special_path(value, path_display_style);
            push_text_element(rendered, "special", v.as_str());
        },
    }
    rendered.append("</entry>");
    assert(rendered@ =~= old(rendered)@ + spec_entry_text(entry@, path_display_style));
}


pub enum ManagedFileSystemContext {
    Restricted { entries: Vec<FileSystemSandboxEntry>, glob_scan_max_depth: Option<usize> },
    Unrestricted,
}

pub enum FileSystemPermissionProfileContext {
    Managed(ManagedFileSystemContext),
    Disabled,
    External,
}

impl View for ManagedFileSystemContext {
    type V = ManagedView;

    open spec fn view(&self) -> ManagedView {
        match self {
            ManagedFileSystemContext::Restricted { entries, glob_scan_max_depth } => {
                ManagedView::Restricted(entries_view(entries@), *glob_scan_max_depth)
            },
            ManagedFileSystemContext::Unrestricted => ManagedView::Unrestricted,
        }
    }
}

impl View for FileSystemPermissionProfileContext {
    type V = ProfileView;

    open spec fn view(&self) -> ProfileView {
        match self {
            FileSystemPermissionProfileContext::Managed(m) => ProfileView::Managed(m@),
            FileSystemPermissionProfileContext::Disabled => ProfileView::Disabled,
            FileSystemPermissionProfileContext::External => ProfileView::External,
        }
    }
}

/// The context of a managed profile: a restricted profile keeps each distinct entry
/// once, in the order of first occurrence.
pub open spec fn spec_managed_context(fs: ManagedFileSystemPermissions) -> ManagedView {
    match fs {
        ManagedFileSystemPermissions::Restricted { entries, glob_scan_max_depth } => {
            ManagedView::Restricted(spec_dedupe_entries(entries_view(entries@)), glob_scan_max_depth)
        },
        ManagedFileSystemPermissions::Unrestricted => ManagedView::Unrestricted,
    }
}

pub open spec fn spec_profile_context(p: PermissionProfile) -> ProfileView {
    match p {
        PermissionProfile::Managed { file_system } => ProfileView::Managed(
            spec_managed_context(file_system),
        ),
        PermissionProfile::Disabled => ProfileView::Disabled,
        PermissionProfile::External => ProfileView::External,
    }
}

impl ManagedFileSystemContext {
    pub fn from(file_system: ManagedFileSystemPermissions) -> (r: Self)
        ensures
            r@ == spec_managed_context(file_system),
    {
        match file_system {
            ManagedFileSystemPermissions::Restricted { mut entries, glob_scan_max_depth } => {
                dedupe_file_system_entries(&mut entries);
                ManagedFileSystemContext::Restricted { entries, glob_scan_max_depth }
            },
            ManagedFileSystemPermissions::Unrestricted => ManagedFileSystemContext::Unrestricted,
        }
    }

    fn render_entries(
        rendered: &mut String,
        entries: &Vec<FileSystemSandboxEntry>,
        path_display_style: PathDisplayStyle,
    )
        ensures
            final(rendered)@ == old(rendered)@ + spec_entries_text(
                entries_view(entries@),
                path_display_style,
            ),
    {
        let ghost es = entries_view(entries@);
        let mut i: usize = 0;
        while i < entries.len()
            invariant
                i <= entries.len(),
                es == entries_view(entries@),
                rendered@ == old(rendered)@ + spec_entries_text(es.take(i as int), path_display_style),
            decreases entries.len() - i,
        {
            render_file_system_entry(rendered, &entries[i], path_display_style);
            proof {
                assert(es.take(i + 1).drop_last() =~= es.take(i as int));
                assert(es.take(i + 1).last() == entries@[i as int]@);
            }
            i = i + 1;
        }
        assert(es.take(entries.len() as int) =~= es);
    }

    pub fn render(&self, rendered: &mut String, path_display_style: PathDisplayStyle)
        ensures
            final(rendered)@ == old(rendered)@ + spec_managed_text(self@, path_display_style),
    {
        match self {
            ManagedFileSystemContext::Restricted { entries, glob_scan_max_depth } => {
                if entries.len() == 0 && glob_scan_max_depth.is_none() {
                    rendered.append("<file_system type=\"restricted\" />");
                    return;
                }
                rendered.append("<file_system type=\"restricted\"");
                let ghost head = rendered@;
                if let Some(depth) = glob_scan_max_depth {
                    rendered.append(" glob_scan_max_depth=\"");
                    let digits = decimal_chars(*depth);
                    append_chars(rendered, digits.as_slice());
                    rendered.append("\"");
                    assert(rendered@ =~= head + " glob_scan_max_depth=\""@ + text::decimal(
                        *depth as nat,
                    ) + "\""@);
                }
                rendered.append(">");
                Self::render_entries(rendered, entries, path_display_style);
                rendered.append("</file_system>");
                assert(rendered@ =~= old(rendered)@ + spec_managed_text(self@, path_display_style));
            },
            ManagedFileSystemContext::Unrestricted => {
                rendered.append("<file_system type=\"unrestricted\" />");
            },
        }
    }
}

impl FileSystemPermissionProfileContext {
    pub fn render(&self, rendered: &mut String, path_display_style: PathDisplayStyle)
        ensures
            final(rendered)@ == old(rendered)@ + spec_profile_text(self@, path_display_style),
    {
        match self {
            FileSystemPermissionProfileContext::Managed(file_system) => {
                rendered.append("<permission_profile type=\"managed\">");
                file_system.render(rendered, path_display_style);
                rendered.append("</permission_profile>");
                assert(rendered@ =~= old(rendered)@ + spec_profile_text(self@, path_display_style));
            },
            FileSystemPermissionProfileContext::Disabled => {
                rendered.append(
                    "<permission_profile type=\"disabled\"><file_system type=\"unrestricted\" /></permission_profile>",
                );
            },
            FileSystemPermissionProfileContext::External => {
                rendered.append(
                    "<permission_profile type=\"external\"><file_system type=\"external\" /></permission_profile>",
                );
            },
        }
    }
}

/// The file system part of the environment context.
pub struct FileSystemContext {
    workspace_roots: Vec<String>,
    permission_profile: FileSystemPermissionProfileContext,
    path_display_style: PathDisplayStyle,
}

impl View for FileSystemContext {
    type V = (Seq<Seq<char>>, ProfileView, PathDisplayStyle);

    closed spec fn view(&self) -> (Seq<Seq<char>>, ProfileView, PathDisplayStyle) {
        (self.workspace_roots.deep_view(), self.permission_profile@, self.path_display_style)
    }
}

/// Each root in the display style.
pub open spec fn spec_formatted_roots(roots: Seq<Seq<char>>, style: PathDisplayStyle) -> Seq<Seq<char>> {
    roots.map_values(|r: Seq<char>| fmt(r, style))
}

impl FileSystemContext {
    /// The context of a permission profile whose project roots are already resolved:
    /// the workspace roots are spelled in the display style, and the entries of a
    /// restricted profile are kept once each.
    pub fn from_permission_profile(
        permission_profile: PermissionProfile,
        workspace_roots: &[String],
        path_display_style: PathDisplayStyle,
    ) -> (r: Self)
        ensures
            r@ == (
                spec_formatted_roots(workspace_roots.deep_view(), path_display_style),
                spec_profile_context(permission_profile),
                path_display_style,
            ),
    {
        let mut roots: Vec<String> = Vec::new();
        let mut i: usize = 0;
        while i < workspace_roots.len()
            invariant
                i <= workspace_roots.len(),
                roots.deep_view() == spec_formatted_roots(
                    workspace_roots.deep_view().take(i as int),
                    path_display_style,
                ),
            decreases workspace_roots.len() - i,
        {
            let formatted = format_path_text_for_shell(workspace_roots[i].as_str(), path_display_style);
            let ghost prev = roots.deep_view();
            roots.push(formatted);
            proof {
                assert(roots.deep_view() =~= prev.push(formatted@));
                assert(workspace_roots.deep_view()[i as int] == workspace_roots@[i as int]@);
                assert(workspace_roots.deep_view().take(i + 1) =~= workspace_roots.deep_view().take(
                    i as int,
                ).push(workspace_roots@[i as int]@));
            }
            i = i + 1;
            assert(roots.deep_view() =~= spec_formatted_roots(
                workspace_roots.deep_view().take(i as int),
                path_display_style,
            ));
        }
        assert(workspace_roots.deep_view().take(workspace_roots.len() as int)
            =~= workspace_roots.deep_view());
        let profile = match permission_profile {
            PermissionProfile::Managed { file_system } => {
                FileSystemPermissionProfileContext::Managed(ManagedFileSystemContext::from(file_system))
            },
            PermissionProfile::Disabled => FileSystemPermissionProfileContext::Disabled,
            PermissionProfile::External => FileSystemPermissionProfileContext::External,
        };
        FileSystemContext {
            workspace_roots: roots,
            permission_profile: profile,
            path_display_style,
        }
    }

    /// The `<filesystem>` element.
    pub fn render(&self) -> (r: String)
        ensures
            r@ == spec_filesystem_text(self@.0, self@.1, self@.2),
    {
        let mut rendered = String::new();
        rendered.append("<filesystem>");
        if self.workspace_roots.len() > 0 {
            rendered.append("<workspace_roots>");
            let ghost head = rendered@;
            let ghost roots = self.workspace_roots.deep_view();
            let mut i: usize = 0;
            while i < self.workspace_roots.len()
                invariant
                    i <= self.workspace_roots.len(),
                    roots == self.workspace_roots.deep_view(),
                    rendered@ == head + spec_roots_text(roots.take(i as int)),
                decreases self.workspace_roots.len() - i,
            {
                push_text_element(&mut rendered, "root", self.workspace_roots[i].as_str());
                proof {
                    assert(roots.take(i + 1).drop_last() =~= roots.take(i as int));
                    assert(roots.take(i + 1).last() == self.workspace_roots@[i as int]@);
                }
                i = i + 1;
            }
            assert(roots.take(roots.len() as int) =~= roots);
            rendered.append("</workspace_roots>");
        }
        self.permission_profile.render(&mut rendered, self.path_display_style);
        rendered.append("</filesystem>");
        assert(rendered@ =~= spec_filesystem_text(self@.0, self@.1, self@.2));
        rendered
    }
}

// ---------------------------------------------------------------------------
// Network
// ---------------------------------------------------------------------------

/// The network part of the environment context.
#[derive(Debug)]
pub struct NetworkContext {
    enabled: bool,
    allowed_domains: Vec<String>,
    denied_domains: Vec<String>,
}

impl View for NetworkContext {
    type V = (bool, Seq<Seq<char>>, Seq<Seq<char>>);

    closed spec fn view(&self) -> (bool, Seq<Seq<char>>, Seq<Seq<char>>) {
        (self.enabled, self.allowed_domains.deep_view(), self.denied_domains.deep_view())
    }
}

impl Default for NetworkContext {
    fn default() -> (r: Self)
        ensures
            r@ == (false, Seq::<Seq<char>>::empty(), Seq::<Seq<char>>::empty()),
    {
        let r = NetworkContext {
            enabled: false,
            allowed_domains: Vec::new(),
            denied_domains: Vec::new(),
        };
        assert(r.allowed_domains.deep_view() =~= Seq::<Seq<char>>::empty());
        assert(r.denied_domains.deep_view() =~= Seq::<Seq<char>>::empty());
        r
    }
}

/// `<name>a,b,...</name>` for a non-empty domain list; nothing for an empty one.
pub open spec fn spec_domain_element(name: Seq<char>, domains: Seq<Seq<char>>) -> Seq<char> {
    if domains.len() == 0 {
        Seq::empty()
    } else {
        "<"@ + name + ">"@ + crate::shell_detect::join_seqs(domains, ","@) + "</"@ + name + ">"@
    }
}

/// `<network enabled="...">`, listing allowed and denied domains when enabled.
pub open spec fn spec_network_text(n: (bool, Seq<Seq<char>>, Seq<Seq<char>>)) -> Seq<char> {
    "<network enabled=\""@ + (if n.0 {
        "true"@
    } else {
        "false"@
    }) + "\">"@ + (if n.0 {
        spec_domain_element("allowed"@, n.1) + spec_domain_element("denied"@, n.2)
    } else {
        Seq::empty()
    }) + "</network>"@
}

impl NetworkContext {
    pub fn new(enabled: bool, allowed: Vec<String>, denied: Vec<String>) -> (r: Self)
        ensures
            r@ == (enabled, allowed.deep_view(), denied.deep_view()),
    {
        NetworkContext { enabled, allowed_domains: allowed, denied_domains: denied }
    }

    fn push_rendered_domain_element(rendered_network: &mut String, name: &str, domains: &[String])
        ensures
            final(rendered_network)@ == old(rendered_network)@ + spec_domain_element(
                name@,
                domains.deep_view(),
            ),
    {
        if domains.len() == 0 {
            assert(old(rendered_network)@ + Seq::<char>::empty() =~= old(rendered_network)@);
            return;
        }
        rendered_network.append("<");
        rendered_network.append(name);
        rendered_network.append(">");
        let joined = crate::shell_detect::join_strings(domains, ",");
        rendered_network.append(joined.as_str());
        rendered_network.append("</");
        rendered_network.append(name);
        rendered_network.append(">");
        assert(rendered_network@ =~= old(rendered_network)@ + spec_domain_element(
            name@,
            domains.deep_view(),
        ));
    }

    /// The `<network>` element.
    pub fn render(&self) -> (r: String)
        ensures
            r@ == spec_network_text(self@),
    {
        let mut rendered = String::new();
        rendered.append("<network enabled=\"");
        if self.enabled {
            rendered.append("true");
        } else {
            rendered.append("false");
        }
        rendered.append("\">");
        let ghost head = rendered@;
        if self.enabled {
            Self::push_rendered_domain_element(&mut rendered, "allowed", self.allowed_domains.as_slice());
            Self::push_rendered_domain_element(&mut rendered, "denied", self.denied_domains.as_slice());
        } else {
            assert(rendered@ =~= head + Seq::<char>::empty());
        }
        rendered.append("</network>");
        assert(rendered@ =~= spec_network_text(self@));
        rendered
    }
}

// ---------------------------------------------------------------------------
// What the rendered file system context holds
// ---------------------------------------------------------------------------

/// `small` occurs in `big` as a contiguous part.
pub open spec fn occurs_in(small: Seq<char>, big: Seq<char>) -> bool {
    exists|i: int|
        0 <= i && i + small.len() <= big.len() && #[trigger] big.subrange(i, i + small.len())
            == small
}

proof fn lemma_occurs_self(s: Seq<char>)
    ensures
        occurs_in(s, s),
{
    let i: int = 0;
    assert(s.subrange(i, i + s.len()) =~= s);
}

proof fn lemma_occurs_in_left(small: Seq<char>, a: Seq<char>, b: Seq<char>)
    requires
        occurs_in(small, a),
    ensures
        occurs_in(small, a + b),
{
    let i = choose|i: int|
        0 <= i && i + small.len() <= a.len() && #[trigger] a.subrange(i, i + small.len()) == small;
    assert((a + b).subrange(i, i + small.len()) =~= a.subrange(i, i + small.len()));
}

proof fn lemma_occurs_in_right(small: Seq<char>, a: Seq<char>, b: Seq<char>)
    requires
        occurs_in(small, b),
    ensures
        occurs_in(small, a + b),
{
    let i = choose|i: int|
        0 <= i && i + small.len() <= b.len() && #[trigger] b.subrange(i, i + small.len()) == small;
    let j = a.len() + i;
    assert((a + b).subrange(j, j + small.len()) =~= b.subrange(i, i + small.len()));
}

proof fn lemma_entry_occurs_in_entries(
    es: Seq<(FsPathView, FileSystemAccessMode)>,
    k: int,
    style: PathDisplayStyle,
)
    requires
        0 <= k < es.len(),
    ensures
        occurs_in(spec_entry_text(es[k], style), spec_entries_text(es, style)),
    decreases es.len(),
{
    let head = spec_entries_text(es.drop_last(), style);
    let last = spec_entry_text(es.last(), style);
    if k == es.len() - 1 {
        lemma_occurs_self(last);
        lemma_occurs_in_right(last, head, last);
    } else {
        lemma_entry_occurs_in_entries(es.drop_last(), k, style);
        assert(es.drop_last()[k] == es[k]);
        lemma_occurs_in_left(spec_entry_text(es[k], style), head, last);
    }
}

proof fn lemma_entry_in_managed(
    es: Seq<(FsPathView, FileSystemAccessMode)>,
    depth: Option<usize>,
    style: PathDisplayStyle,
    k: int,
)
    requires
        0 <= k < es.len(),
    ensures
        occurs_in(
            spec_entry_text(es[k], style),
            spec_managed_text(ManagedView::Restricted(es, depth), style),
        ),
{
    let x = "<file_system type=\"restricted\""@;
    let y = match depth {
        Some(d) => " glob_scan_max_depth=\""@ + text::decimal(d as nat) + "\""@,
        None => Seq::<char>::empty(),
    };
    let z = ">"@;
    let e = spec_entries_text(es, style);
    let w = "</file_system>"@;
    let et = spec_entry_text(es[k], style);
    assert(spec_managed_text(ManagedView::Restricted(es, depth), style) == x + y + z + e + w);
    lemma_entry_occurs_in_entries(es, k, style);
    lemma_occurs_in_right(et, x + y + z, e);
    lemma_occurs_in_left(et, x + y + z + e, w);
}

proof fn lemma_occurs_trans(a: Seq<char>, b: Seq<char>, c: Seq<char>)
    requires
        occurs_in(a, b),
        occurs_in(b, c),
    ensures
        occurs_in(a, c),
{
    let j = choose|j: int| 0 <= j && j + a.len() <= b.len() && #[trigger] b.subrange(j, j + a.len()) == a;
    let i = choose|i: int| 0 <= i && i + b.len() <= c.len() && #[trigger] c.subrange(i, i + b.len()) == b;
    assert(c.subrange(i + j, i + j + a.len()) =~= b.subrange(j, j + a.len()));
}

proof fn lemma_element_in_entry(e: (FsPathView, FileSystemAccessMode), style: PathDisplayStyle, el: Seq<char>)
    requires
        el == match e.0 {
            FsPathView::Path(p) => text_element("path"@, fmt(p, style)),
            FsPathView::GlobPattern(p) => text_element("glob"@, fmt(p, style)),
            FsPathView::Special(v) => text_element("special"@, spec_special_path(v, style)),
        },
    ensures
        occurs_in(el, spec_entry_text(e, style)),
{
    let a = e.1;
    let pre = "<entry access=\""@ + access_name(a) + (if a == FileSystemAccessMode::Deny {
        "\" escalatable=\"false"@
    } else {
        Seq::empty()
    }) + "\">"@;
    assert(spec_entry_text(e, style) == pre + el + "</entry>"@);
    lemma_occurs_self(el);
    lemma_occurs_in_right(el, pre, el);
    lemma_occurs_in_left(el, pre + el, "</entry>"@);
}

proof fn lemma_self_closing_only_when_empty(
    es: Seq<(FsPathView, FileSystemAccessMode)>,
    depth: Option<usize>,
    style: PathDisplayStyle,
)
    ensures
        spec_managed_text(ManagedView::Restricted(es, depth), style)
            == "<file_system type=\"restricted\" />"@ ==> es.len() == 0 && depth is None,
{
    reveal_strlit("<file_system type=\"restricted\"");
    reveal_strlit("</file_system>");
    reveal_strlit("<file_system type=\"restricted\" />");
    reveal_strlit(">");
    if !(es.len() == 0 && depth is None) {
        let x = "<file_system type=\"restricted\""@;
        let y = match depth {
            Some(d) => " glob_scan_max_depth=\""@ + text::decimal(d as nat) + "\""@,
            None => Seq::<char>::empty(),
        };
        let text = spec_managed_text(ManagedView::Restricted(es, depth), style);
        assert(text == x + y + ">"@ + spec_entries_text(es, style) + "</file_system>"@);
        assert(text.len() >= 45);
        assert("<file_system type=\"restricted\" />"@.len() == 33);
    }
}

/// A restricted file system renders the `<entry>` element of every one of its entries,
/// with or without a glob scan depth, and the `<path>`/`<glob>` element of each within
/// it; it renders in the short self-closing form only when it has neither entries nor
/// a depth.
pub proof fn lemma_restricted_render_shows_every_entry(
    es: Seq<(FsPathView, FileSystemAccessMode)>,
    depth: Option<usize>,
    style: PathDisplayStyle,
)
    ensures
        forall|k: int|
            0 <= k < es.len() ==> occurs_in(
                #[trigger] spec_entry_text(es[k], style),
                spec_managed_text(ManagedView::Restricted(es, depth), style),
            ),
        forall|k: int|
            0 <= k < es.len() && (#[trigger] es[k]).0 is Path ==> occurs_in(
                text_element("path"@, fmt(es[k].0->Path_0, style)),
                spec_managed_text(ManagedView::Restricted(es, depth), style),
            ),
        forall|k: int|
            0 <= k < es.len() && (#[trigger] es[k]).0 is GlobPattern ==> occurs_in(
                text_element("glob"@, fmt(es[k].0->GlobPattern_0, style)),
                spec_managed_text(ManagedView::Restricted(es, depth), style),
            ),
        spec_managed_text(ManagedView::Restricted(es, depth), style)
            == "<file_system type=\"restricted\" />"@ ==> es.len() == 0 && depth is None,
{
    let text = spec_managed_text(ManagedView::Restricted(es, depth), style);
    assert forall|k: int| 0 <= k < es.len() implies occurs_in(
        #[trigger] spec_entry_text(es[k], style),
        text,
    ) by {
        lemma_entry_in_managed(es, depth, style, k);
    }
    assert forall|k: int| 0 <= k < es.len() && (#[trigger] es[k]).0 is Path implies occurs_in(
        text_element("path"@, fmt(es[k].0->Path_0, style)),
        text,
    ) by {
        let el = text_element("path"@, fmt(es[k].0->Path_0, style));
        lemma_element_in_entry(es[k], style, el);
        lemma_entry_in_managed(es, depth, style, k);
        lemma_occurs_trans(el, spec_entry_text(es[k], style), text);
    }
    assert forall|k: int| 0 <= k < es.len() && (#[trigger] es[k]).0 is GlobPattern implies occurs_in(
        text_element("glob"@, fmt(es[k].0->GlobPattern_0, style)),
        text,
    ) by {
        let el = text_element("glob"@, fmt(es[k].0->GlobPattern_0, style));
        lemma_element_in_entry(es[k], style, el);
        lemma_entry_in_managed(es, depth, style, k);
        lemma_occurs_trans(el, spec_entry_text(es[k], style), text);
    }
    lemma_self_closing_only_when_empty(es, depth, style);
}

proof fn lemma_item_occurs_in_join(items: Seq<Seq<char>>, sep: Seq<char>, k: int)
    requires
        0 <= k < items.len(),
    ensures
        occurs_in(items[k], crate::shell_detect::join_seqs(items, sep)),
    decreases items.len(),
{
    if items.len() == 1 {
        lemma_occurs_self(items[0]);
    } else {
        let head = crate::shell_detect::join_seqs(items.drop_last(), sep);
        if k == items.len() - 1 {
            lemma_occurs_self(items.last());
            lemma_occurs_in_right(items.last(), head + sep, items.last());
        } else {
            lemma_item_occurs_in_join(items.drop_last(), sep, k);
            assert(items.drop_last()[k] == items[k]);
            lemma_occurs_in_left(items[k], head, sep);
            lemma_occurs_in_left(items[k], head + sep, items.last());
        }
    }
}

proof fn lemma_domain_occurs(name: Seq<char>, domains: Seq<Seq<char>>, k: int)
    requires
        0 <= k < domains.len(),
    ensures
        occurs_in(domains[k], spec_domain_element(name, domains)),
{
    let j = crate::shell_detect::join_seqs(domains, ","@);
    lemma_item_occurs_in_join(domains, ","@, k);
    lemma_occurs_in_right(domains[k], "<"@ + name + ">"@, j);
    lemma_occurs_in_left(domains[k], "<"@ + name + ">"@ + j, "</"@);
    lemma_occurs_in_left(domains[k], "<"@ + name + ">"@ + j + "</"@, name);
    lemma_occurs_in_left(domains[k], "<"@ + name + ">"@ + j + "</"@ + name, ">"@);
}

/// An enabled network context names every allowed and every denied domain; a disabled
/// one names none and says so.
pub proof fn lemma_network_render_lists_domains(n: (bool, Seq<Seq<char>>, Seq<Seq<char>>))
    ensures
        n.0 ==> forall|k: int|
            0 <= k < n.1.len() ==> occurs_in(#[trigger] n.1[k], spec_network_text(n)),
        n.0 ==> forall|k: int|
            0 <= k < n.2.len() ==> occurs_in(#[trigger] n.2[k], spec_network_text(n)),
        !n.0 ==> spec_network_text(n) == "<network enabled=\"false\"></network>"@,
{
    let head = "<network enabled=\""@ + (if n.0 {
        "true"@
    } else {
        "false"@
    }) + "\">"@;
    let a = spec_domain_element("allowed"@, n.1);
    let d = spec_domain_element("denied"@, n.2);
    if n.0 {
        assert(spec_network_text(n) == head + (a + d) + "</network>"@);
        assert forall|k: int| 0 <= k < n.1.len() implies occurs_in(
            #[trigger] n.1[k],
            spec_network_text(n),
        ) by {
            lemma_domain_occurs("allowed"@, n.1, k);
            lemma_occurs_in_left(n.1[k], a, d);
            lemma_occurs_in_right(n.1[k], head, a + d);
            lemma_occurs_in_left(n.1[k], head + (a + d), "</network>"@);
        }
        assert forall|k: int| 0 <= k < n.2.len() implies occurs_in(
            #[trigger] n.2[k],
            spec_network_text(n),
        ) by {
            lemma_domain_occurs("denied"@, n.2, k);
            lemma_occurs_in_right(n.2[k], a, d);
            lemma_occurs_in_right(n.2[k], head, a + d);
            lemma_occurs_in_left(n.2[k], head + (a + d), "</network>"@);
        }
    } else {
        reveal_strlit("<network enabled=\"");
        reveal_strlit("false");
        reveal_strlit("\">");
        reveal_strlit("</network>");
        reveal_strlit("<network enabled=\"false\"></network>");
        assert(spec_network_text(n) =~= "<network enabled=\"false\"></network>"@);
    }
}

proof fn lemma_root_occurs(roots: Seq<Seq<char>>, k: int)
    requires
        0 <= k < roots.len(),
    ensures
        occurs_in(text_element("root"@, roots[k]), spec_roots_text(roots)),
    decreases roots.len(),
{
    let head = spec_roots_text(roots.drop_last());
    let last = text_element("root"@, roots.last());
    if k == roots.len() - 1 {
        lemma_occurs_self(last);
        lemma_occurs_in_right(last, head, last);
    } else {
        lemma_root_occurs(roots.drop_last(), k);
        assert(roots.drop_last()[k] == roots[k]);
        lemma_occurs_in_left(text_element("root"@, roots[k]), head, last);
    }
}

/// The `<filesystem>` element names every workspace root in a `<root>` element and holds
/// the text of the permission profile.
pub proof fn lemma_filesystem_render_shows_roots_and_profile(
    roots: Seq<Seq<char>>,
    profile: ProfileView,
    style: PathDisplayStyle,
)
    ensures
        forall|k: int|
            0 <= k < roots.len() ==> occurs_in(
                text_element("root"@, #[trigger] roots[k]),
                spec_filesystem_text(roots, profile, style),
            ),
        occurs_in(spec_profile_text(profile, style), spec_filesystem_text(roots, profile, style)),
{
    let rs = if roots.len() == 0 {
        Seq::empty()
    } else {
        "<workspace_roots>"@ + spec_roots_text(roots) + "</workspace_roots>"@
    };
    let pt = spec_profile_text(profile, style);
    let text = spec_filesystem_text(roots, profile, style);
    assert(text == "<filesystem>"@ + rs + pt + "</filesystem>"@);
    assert forall|k: int| 0 <= k < roots.len() implies occurs_in(
        text_element("root"@, #[trigger] roots[k]),
        text,
    ) by {
        let el = text_element("root"@, roots[k]);
        lemma_root_occurs(roots, k);
        lemma_occurs_in_right(el, "<workspace_roots>"@, spec_roots_text(roots));
        lemma_occurs_in_left(el, "<workspace_roots>"@ + spec_roots_text(roots), "</workspace_roots>"@);
        lemma_occurs_in_right(el, "<filesystem>"@, rs);
        lemma_occurs_in_left(el, "<filesystem>"@ + rs, pt);
        lemma_occurs_in_left(el, "<filesystem>"@ + rs + pt, "</filesystem>"@);
    }
    lemma_occurs_self(pt);
    lemma_occurs_in_right(pt, "<filesystem>"@ + rs, pt);
    lemma_occurs_in_left(pt, "<filesystem>"@ + rs + pt, "</filesystem>"@);
}

} // verus!
