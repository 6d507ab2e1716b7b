//! Shell detection: which shell a path names, where a shell of a given kind is found,
//! and how Git for Windows' Bash is discovered.
//!
//! Everything that detection learns from the machine (whether a file exists, what
//! `which` finds, the login shell of the user, the operating system) reaches these
//! functions as a `HostEnvironment` value; `paths_to_probe` lists the files whose
//! existence a caller has to look up to fill one in.
use vstd::prelude::*;

use crate::git_bash_path::PathConvention;
use crate::path_model;
use crate::path_model::{path_file_stem, path_file_name, path_has_several_components, path_is_absolute, path_join, path_parent};
use crate::text;
use crate::text::{chars_eq_ignore_ascii_case, chars_equal, chars_of, str_equal};

verus! {

#[derive(Debug, PartialEq, Eq, Clone, Copy, Structural)]
pub enum ShellType {
    Zsh,
    Bash,
    PowerShell,
    Sh,
    Cmd,
}

pub open spec fn spec_shell_name(t: ShellType) -> Seq<char> {
    match t {
        ShellType::Zsh => seq!['z', 's', 'h'],
        ShellType::Bash => seq!['b', 'a', 's', 'h'],
        ShellType::PowerShell => seq!['p', 'o', 'w', 'e', 'r', 's', 'h', 'e', 'l', 'l'],
        ShellType::Sh => seq!['s', 'h'],
        ShellType::Cmd => seq!['c', 'm', 'd'],
    }
}

impl ShellType {
    pub fn name(self) -> (r: &'static str)
        ensures
            r@ == spec_shell_name(self),
    {
        match self {
            ShellType::Zsh => {
                proof {
                    reveal_strlit("zsh");
                }
                "zsh"
            },
            ShellType::Bash => {
                proof {
                    reveal_strlit("bash");
                }
                "bash"
            },
            ShellType::PowerShell => {
                proof {
                    reveal_strlit("powershell");
                }
                "powershell"
            },
            ShellType::Sh => {
                proof {
                    reveal_strlit("sh");
                }
                "sh"
            },
            ShellType::Cmd => {
                proof {
                    reveal_strlit("cmd");
                }
                "cmd"
            },
        }
    }
}

#[derive(Debug, Clone, PartialEq, Eq)]
pub struct DetectedShell {
    pub shell_type: ShellType,
    pub shell_path: String,
}

impl View for DetectedShell {
    type V = (ShellType, Seq<char>);

    open spec fn view(&self) -> (ShellType, Seq<char>) {
        (self.shell_type, self.shell_path@)
    }
}

impl DetectedShell {
    pub fn name(&self) -> (r: &'static str)
        ensures
            r@ == spec_shell_name(self.shell_type),
    {
        self.shell_type.name()
    }
}

#[derive(Debug, Clone, PartialEq, Eq)]
pub struct GitBashShell {
    pub shell: DetectedShell,
    pub installation_root: String,
}

impl View for GitBashShell {
    type V = ((ShellType, Seq<char>), Seq<char>);

    open spec fn view(&self) -> ((ShellType, Seq<char>), Seq<char>) {
        (self.shell@, self.installation_root@)
    }
}

/// Where to look for Git Bash: on the search path, or at a configured location.
#[derive(Debug, Clone, PartialEq, Eq)]
pub enum GitBashPathHint {
    SearchPath,
    Configured(String),
}

#[derive(Debug, Clone, PartialEq, Eq)]
pub struct GitBashDiscoveryError {
    message: String,
    attempted_paths: Vec<String>,
}

impl View for GitBashDiscoveryError {
    type V = (Seq<char>, Seq<Seq<char>>);

    closed spec fn view(&self) -> (Seq<char>, Seq<Seq<char>>) {
        (self.message@, self.attempted_paths.deep_view())
    }
}

/// `items` joined with `sep` between neighbours.
pub open spec fn join_seqs(items: Seq<Seq<char>>, sep: Seq<char>) -> Seq<char>
    decreases items.len(),
{
    if items.len() == 0 {
        Seq::empty()
    } else if items.len() == 1 {
        items[0]
    } else {
        join_seqs(items.drop_last(), sep) + sep + items.last()
    }
}

/// The text of a discovery error: its message, then the attempted paths if there are any.
pub open spec fn spec_discovery_error_text(e: (Seq<char>, Seq<Seq<char>>)) -> Seq<char> {
    if e.1.len() == 0 {
        e.0
    } else {
        e.0 + " Tried: "@ + join_seqs(e.1, ", "@)
    }
}

/// Joins `items` with `sep` between neighbours.
pub fn join_strings(items: &[String], sep: &str) -> (r: String)
    ensures
        r@ == join_seqs(items.deep_view(), sep@),
{
    let mut r = String::new();
    let mut i: usize = 0;
    while i < items.len()
        invariant
            i <= items.len(),
            r@ == join_seqs(items.deep_view().take(i as int), sep@),
        decreases items.len() - i,
    {
        proof {
            let d = items.deep_view();
            assert(d.take(i + 1).drop_last() =~= d.take(i as int));
            assert(d.take(i + 1).last() == items@[i as int]@);
        }
        if i > 0 {
            r.append(sep);
        } else {
            assert(items.deep_view().take(0) =~= Seq::<Seq<char>>::empty());
        }
        r.append(items[i].as_str());
        i = i + 1;
    }
    assert(items.deep_view().take(items.len() as int) =~= items.deep_view());
    r
}

impl GitBashDiscoveryError {
    fn new(message: String, attempted_paths: Vec<String>) -> (r: Self)
        ensures
            r@ == (message@, attempted_paths.deep_view()),
    {
        GitBashDiscoveryError { message, attempted_paths }
    }

    pub fn attempted_paths(&self) -> (r: &[String])
        ensures
            r.deep_view() == self@.1,
    {
        self.attempted_paths.as_slice()
    }

    pub fn message(&self) -> (r: &str)
        ensures
            r@ == self@.0,
    {
        self.message.as_str()
    }

    /// The error's text: its message, then ` Tried: ` and the attempted paths when
    /// there are any.
    pub fn to_string(&self) -> (r: String)
        ensures
            r@ == spec_discovery_error_text(self@),
    {
        let mut r = String::new();
        r.append(self.message.as_str());
        if self.attempted_paths.len() > 0 {
            r.append(" Tried: ");
            let joined = join_strings(self.attempted_paths.as_slice(), ", ");
            r.append(joined.as_str());
        }
        r
    }
}

#[derive(Debug, Clone, PartialEq, Eq)]
pub struct ShellResolutionError {
    message: String,
}

impl View for ShellResolutionError {
    type V = Seq<char>;

    closed spec fn view(&self) -> Seq<char> {
        self.message@
    }
}

impl ShellResolutionError {
    fn new(message: String) -> (r: Self)
        ensures
            r@ == message@,
    {
        ShellResolutionError { message }
    }

    pub fn to_string(&self) -> (r: String)
        ensures
            r@ == self@,
    {
        let mut r = String::new();
        r.append(self.message.as_str());
        r
    }
}

/// The operating system that a host runs.
#[derive(Debug, Clone, Copy, PartialEq, Eq, Structural)]
pub enum HostOs {
    Windows,
    MacOs,
    OtherUnix,
}

/// What the running process found out about its machine.
pub struct HostEnvironment {
    pub os: HostOs,
    /// Paths that name existing regular files.
    pub existing_files: Vec<String>,
    /// For each binary name that `which` resolved, the path it resolved to.
    pub which_results: Vec<(String, String)>,
    /// The login shell recorded for the current user.
    pub user_shell_path: Option<String>,
}

pub open spec fn host_conv(os: HostOs) -> PathConvention {
    if os == HostOs::Windows {
        PathConvention::Windows
    } else {
        PathConvention::Posix
    }
}

pub open spec fn spec_file_exists(host: &HostEnvironment, p: Seq<char>) -> bool {
    exists|i: int| 0 <= i < host.existing_files.len() && #[trigger] host.existing_files@[i]@ == p
}

/// What `which` found for `name` (its first record).
pub open spec fn spec_which_from(entries: Seq<(String, String)>, name: Seq<char>, i: int) -> Option<Seq<char>>
    decreases entries.len() - i,
{
    if i < 0 || i >= entries.len() {
        None
    } else if entries[i].0@ == name {
        Some(entries[i].1@)
    } else {
        spec_which_from(entries, name, i + 1)
    }
}

pub open spec fn spec_which(host: &HostEnvironment, name: Seq<char>) -> Option<Seq<char>> {
    spec_which_from(host.which_results@, name, 0)
}

impl HostEnvironment {
    pub fn conv(&self) -> (r: PathConvention)
        ensures
            r == host_conv(self.os),
    {
        match self.os {
            HostOs::Windows => PathConvention::Windows,
            _ => PathConvention::Posix,
        }
    }

    pub fn is_windows(&self) -> (r: bool)
        ensures
            r == (self.os == HostOs::Windows),
    {
        matches!(self.os, HostOs::Windows)
    }

    /// Whether `path` names an existing regular file.
    pub fn file_exists(&self, path: &str) -> (r: bool)
        ensures
            r == spec_file_exists(self, path@),
    {
        let mut i: usize = 0;
        while i < self.existing_files.len()
            invariant
                i <= self.existing_files.len(),
                forall|j: int| 0 <= j < i ==> self.existing_files@[j]@ != path@,
            decreases self.existing_files.len() - i,
        {
            if str_equal(self.existing_files[i].as_str(), path) {
                return true;
            }
            i = i + 1;
        }
        false
    }

    /// What `which` found for the binary `name`.
    pub fn which(&self, name: &str) -> (r: Option<String>)
        ensures
            r matches Some(p) ==> spec_which(self, name@) == Some(p@),
            r is None ==> spec_which(self, name@) is None,
    {
        let mut i: usize = 0;
        while i < self.which_results.len()
            invariant
                i <= self.which_results.len(),
                spec_which_from(self.which_results@, name@, i as int) == spec_which(self, name@),
            decreases self.which_results.len() - i,
        {
            if str_equal(self.which_results[i].0.as_str(), name) {
                return Some(self.which_results[i].1.clone());
            }
            i = i + 1;
        }
        None
    }
}

// ---------------------------------------------------------------------------
// Recognising a shell from its path
// ---------------------------------------------------------------------------

pub open spec fn spec_shell_type_of_name(s: Seq<char>) -> Option<ShellType> {
    if s == seq!['z', 's', 'h'] {
        Some(ShellType::Zsh)
    } else if s == seq!['s', 'h'] {
        Some(ShellType::Sh)
    } else if s == seq!['c', 'm', 'd'] {
        Some(ShellType::Cmd)
    } else if s == seq!['b', 'a', 's', 'h'] {
        Some(ShellType::Bash)
    } else if s == seq!['p', 'w', 's', 'h'] {
        Some(ShellType::PowerShell)
    } else if s == seq!['p', 'o', 'w', 'e', 'r', 's', 'h', 'e', 'l', 'l'] {
        Some(ShellType::PowerShell)
    } else {
        None
    }
}

/// `s` names the same path as `name`, a stem of its file name: it is exactly the one
/// normal component `name` (compared component by component, so trailing separators
/// and `.` components do not count).
pub open spec fn spec_same_path_as_name(conv: PathConvention, s: Seq<char>, name: Seq<char>) -> bool {
    path_model::spec_single_component(conv, s) && path_model::spec_file_name(conv, s) == Some(name)
}

/// The shell named by `s`: its exact text if that is a shell name, otherwise the shell
/// named by its file stem, as long as the stem is a different path.
pub open spec fn spec_detect_shell_type(conv: PathConvention, s: Seq<char>) -> Option<ShellType>
    decreases s.len(),
{
    match spec_shell_type_of_name(s) {
        Some(t) => Some(t),
        None => match path_model::spec_file_stem(conv, s) {
            Some(stem) => if stem.len() < s.len() && !spec_same_path_as_name(conv, s, stem) {
                spec_detect_shell_type(conv, stem)
            } else {
                None
            },
            None => None,
        },
    }
}

fn shell_type_of_name(s: &[char]) -> (r: Option<ShellType>)
    ensures
        r == spec_shell_type_of_name(s@),
{
    let zsh = vec!['z', 's', 'h'];
    let sh = vec!['s', 'h'];
    let cmd = vec!['c', 'm', 'd'];
    let bash = vec!['b', 'a', 's', 'h'];
    let pwsh = vec!['p', 'w', 's', 'h'];
    let powershell = vec!['p', 'o', 'w', 'e', 'r', 's', 'h', 'e', 'l', 'l'];
    if chars_equal(s, zsh.as_slice()) {
        Some(ShellType::Zsh)
    } else if chars_equal(s, sh.as_slice()) {
        Some(ShellType::Sh)
    } else if chars_equal(s, cmd.as_slice()) {
        Some(ShellType::Cmd)
    } else if chars_equal(s, bash.as_slice()) {
        Some(ShellType::Bash)
    } else if chars_equal(s, pwsh.as_slice()) {
        Some(ShellType::PowerShell)
    } else if chars_equal(s, powershell.as_slice()) {
        Some(ShellType::PowerShell)
    } else {
        None
    }
}

fn same_path_as_name(conv: PathConvention, s: &str, name: &str) -> (r: bool)
    ensures
        r == spec_same_path_as_name(conv, s@, name@),
{
    if !path_model::path_is_single_component(conv, s) {
        return false;
    }
    match path_file_name(conv, s) {
        Some(n) => str_equal(n.as_str(), name),
        None => false,
    }
}

/// The shell that a path names: `zsh`, `sh`, `cmd`, `bash`, `pwsh` and `powershell`
/// are recognised as the whole path, and otherwise through the path's file stem
/// (so `/bin/zsh`, `bash.exe` and `pwsh.exe` are recognised as well).
pub fn detect_shell_type(shell_path: &str, conv: PathConvention) -> (r: Option<ShellType>)
    ensures
        r == spec_detect_shell_type(conv, shell_path@),
    decreases shell_path@.len(),
{
    let s = chars_of(shell_path);
    match shell_type_of_name(s.as_slice()) {
        Some(t) => Some(t),
        None => match path_file_stem(conv, shell_path) {
            Some(stem) => {
                let stem_len = stem.unicode_len();
                if stem_len < s.len() && !same_path_as_name(conv, shell_path, stem.as_str()) {
                    detect_shell_type(stem.as_str(), conv)
                } else {
                    None
                }
            },
            None => None,
        },
    }
}


// ---------------------------------------------------------------------------
// Finding a shell of a given kind
// ---------------------------------------------------------------------------

pub open spec fn opt_str_view(o: Option<&str>) -> Option<Seq<char>> {
    match o {
        Some(s) => Some(s@),
        None => None,
    }
}

/// The first of `fs` that names an existing file.
pub open spec fn spec_first_existing(host: &HostEnvironment, fs: Seq<Seq<char>>) -> Option<Seq<char>>
    decreases fs.len(),
{
    if fs.len() == 0 {
        None
    } else if spec_file_exists(host, fs[0]) {
        Some(fs[0])
    } else {
        spec_first_existing(host, fs.drop_first())
    }
}

/// Where a shell of kind `t` is: the provided path if it exists, else the user's login
/// shell if it is of that kind and exists, else what `which` finds for `binary`, else the
/// first existing fallback path.
pub open spec fn spec_get_shell_path(
    host: &HostEnvironment,
    t: ShellType,
    provided: Option<Seq<char>>,
    binary: Seq<char>,
    fallbacks: Seq<Seq<char>>,
) -> Option<Seq<char>> {
    if provided is Some && spec_file_exists(host, provided->0) {
        provided
    } else if host.user_shell_path is Some && spec_detect_shell_type(
        host_conv(host.os),
        host.user_shell_path->0@,
    ) == Some(t) && spec_file_exists(host, host.user_shell_path->0@) {
        Some(host.user_shell_path->0@)
    } else if spec_which(host, binary) is Some {
        spec_which(host, binary)
    } else {
        spec_first_existing(host, fallbacks)
    }
}

fn first_existing(host: &HostEnvironment, fs: &[&str]) -> (r: Option<String>)
    ensures
        r matches Some(p) ==> spec_first_existing(host, fs.deep_view()) == Some(p@),
        r is None ==> spec_first_existing(host, fs.deep_view()) is None,
{
    let mut i: usize = 0;
    assert(fs.deep_view().skip(0) =~= fs.deep_view());
    while i < fs.len()
        invariant
            i <= fs.len(),
            spec_first_existing(host, fs.deep_view().skip(i as int)) == spec_first_existing(
                host,
                fs.deep_view(),
            ),
        decreases fs.len() - i,
    {
        proof {
            let d = fs.deep_view();
            assert(d.skip(i as int).drop_first() =~= d.skip(i + 1));
            assert(d.skip(i as int)[0] == fs@[i as int]@);
        }
        if host.file_exists(fs[i]) {
            return Some(fs[i].to_string());
        }
        i = i + 1;
    }
    assert(fs.deep_view().skip(fs.len() as int) =~= Seq::<Seq<char>>::empty());
    None
}

fn get_shell_path(
    host: &HostEnvironment,
    shell_type: ShellType,
    provided_path: Option<&str>,
    binary_name: &str,
    fallback_paths: &[&str],
) -> (r: Option<String>)
    ensures
        r matches Some(p) ==> spec_get_shell_path(
            host,
            shell_type,
            opt_str_view(provided_path),
            binary_name@,
            fallback_paths.deep_view(),
        ) == Some(p@),
        r is None ==> spec_get_shell_path(
            host,
            shell_type,
            opt_str_view(provided_path),
            binary_name@,
            fallback_paths.deep_view(),
        ) is None,
{
    if let Some(path) = provided_path {
        if host.file_exists(path) {
            return Some(path.to_string());
        }
    }
    if let Some(user_shell) = &host.user_shell_path {
        if detect_shell_type(user_shell.as_str(), host.conv()) == Some(shell_type) && host.file_exists(
            user_shell.as_str(),
        ) {
            return Some(user_shell.clone());
        }
    }
    if let Some(path) = host.which(binary_name) {
        return Some(path);
    }
    first_existing(host, fallback_paths)
}


// ---------------------------------------------------------------------------
// Git for Windows layout
// ---------------------------------------------------------------------------

/// Windows paths: Git for Windows is only looked for under that convention.
pub open spec fn win() -> PathConvention {
    PathConvention::Windows
}

pub open spec fn spec_stem_eq(p: Seq<char>, expected: Seq<char>) -> bool {
    match path_model::spec_file_stem(win(), p) {
        Some(s) => text::eq_ignore_ascii_case(s, expected),
        None => false,
    }
}

pub open spec fn spec_name_eq(p: Seq<char>, expected: Seq<char>) -> bool {
    match path_model::spec_file_name(win(), p) {
        Some(s) => text::eq_ignore_ascii_case(s, expected),
        None => false,
    }
}

pub open spec fn join2(base: Seq<char>, a: Seq<char>, b: Seq<char>) -> Seq<char> {
    path_model::spec_join(win(), path_model::spec_join(win(), base, a), b)
}

pub open spec fn join3(base: Seq<char>, a: Seq<char>, b: Seq<char>, c: Seq<char>) -> Seq<char> {
    path_model::spec_join(win(), join2(base, a, b), c)
}

/// The Git for Windows installation that a `git` executable belongs to, judged from
/// its location: `<root>\cmd\git.exe`, `<root>\{mingw64,mingw32,usr}\bin\git.exe`, or a
/// Scoop shim `<scoop>\shims\git.exe` for the installation `<scoop>\apps\git\current`.
pub open spec fn spec_root_from_git_exe(g: Seq<char>) -> Option<Seq<char>> {
    if !spec_stem_eq(g, "git"@) {
        None
    } else {
        match path_model::spec_parent(win(), g) {
            None => None,
            Some(par) => if spec_name_eq(par, "shims"@) {
                match path_model::spec_parent(win(), par) {
                    Some(scoop) => Some(join3(scoop, "apps"@, "git"@, "current"@)),
                    None => None,
                }
            } else if spec_name_eq(par, "cmd"@) {
                path_model::spec_parent(win(), par)
            } else if spec_name_eq(par, "bin"@) {
                match path_model::spec_parent(win(), par) {
                    None => None,
                    Some(gp) => if spec_name_eq(gp, "mingw64"@) || spec_name_eq(gp, "mingw32"@)
                        || spec_name_eq(gp, "usr"@) {
                        path_model::spec_parent(win(), gp)
                    } else {
                        None
                    },
                }
            } else {
                None
            },
        }
    }
}

/// The two places of `bash.exe` in an installation.
pub open spec fn spec_bash_paths_of_root(r: Seq<char>) -> Seq<Seq<char>> {
    seq![join2(r, "bin"@, "bash.exe"@), join3(r, "usr"@, "bin"@, "bash.exe"@)]
}

pub open spec fn spec_candidates_from_git_exe(g: Seq<char>) -> Seq<Seq<char>> {
    match spec_root_from_git_exe(g) {
        Some(r) => spec_bash_paths_of_root(r),
        None => Seq::empty(),
    }
}

/// The installation a `bash` executable would belong to, judged from its location
/// alone: `<root>\bin\bash.exe` or `<root>\usr\bin\bash.exe`.
pub open spec fn spec_root_candidate_from_bash(p: Seq<char>) -> Option<Seq<char>> {
    if !spec_stem_eq(p, "bash"@) {
        None
    } else {
        match path_model::spec_parent(win(), p) {
            None => None,
            Some(par) => if !spec_name_eq(par, "bin"@) {
                None
            } else {
                match path_model::spec_parent(win(), par) {
                    None => None,
                    Some(gp) => if spec_name_eq(gp, "usr"@) {
                        path_model::spec_parent(win(), gp)
                    } else {
                        Some(gp)
                    },
                }
            },
        }
    }
}

/// The two files whose presence marks a Git for Windows installation.
pub open spec fn spec_git_exe_of_root(r: Seq<char>) -> Seq<char> {
    join2(r, "cmd"@, "git.exe"@)
}

pub open spec fn spec_msys_dll_of_root(r: Seq<char>) -> Seq<char> {
    join3(r, "usr"@, "bin"@, "msys-2.0.dll"@)
}

/// The Git for Windows installation of a `bash` executable: its location fits the
/// layout and the installation holds `cmd\git.exe` and `usr\bin\msys-2.0.dll`.
pub open spec fn spec_root_from_bash(host: &HostEnvironment, p: Seq<char>) -> Option<Seq<char>> {
    match spec_root_candidate_from_bash(p) {
        Some(r) => if spec_file_exists(host, spec_git_exe_of_root(r)) && spec_file_exists(
            host,
            spec_msys_dll_of_root(r),
        ) {
            Some(r)
        } else {
            None
        },
        None => None,
    }
}

fn path_file_stem_eq(path: &str, expected: &str) -> (r: bool)
    ensures
        r == spec_stem_eq(path@, expected@),
{
    match path_file_stem(PathConvention::Windows, path) {
        Some(stem) => {
            let a = chars_of(stem.as_str());
            let b = chars_of(expected);
            chars_eq_ignore_ascii_case(a.as_slice(), b.as_slice())
        },
        None => false,
    }
}

fn path_file_name_eq(path: &str, expected: &str) -> (r: bool)
    ensures
        r == spec_name_eq(path@, expected@),
{
    match path_file_name(PathConvention::Windows, path) {
        Some(name) => {
            let a = chars_of(name.as_str());
            let b = chars_of(expected);
            chars_eq_ignore_ascii_case(a.as_slice(), b.as_slice())
        },
        None => false,
    }
}

proof fn lemma_plain_apps()
    ensures
        path_model::plain_name(win(), "apps"@),
{
    reveal_strlit("apps");
    let n = "apps"@;
    assert(n.len() == 4 && n[0] == 'a' && n[1] == 'p' && n[2] == 'p' && n[3] == 's');
    assert forall|i: int| 0 <= i < n.len() implies !path_model::is_sep(win(), #[trigger] n[i]) by {
        assert(i == 0 || i == 1 || i == 2 || i == 3);
    }
    assert(n != seq!['.']);
    assert(n != seq!['.', '.']);
}

proof fn lemma_plain_git()
    ensures
        path_model::plain_name(win(), "git"@),
{
    reveal_strlit("git");
    let n = "git"@;
    assert(n.len() == 3 && n[0] == 'g' && n[1] == 'i' && n[2] == 't');
    assert forall|i: int| 0 <= i < n.len() implies !path_model::is_sep(win(), #[trigger] n[i]) by {
        assert(i == 0 || i == 1 || i == 2);
    }
    assert(n != seq!['.']);
    assert(n != seq!['.', '.']);
}

proof fn lemma_plain_current()
    ensures
        path_model::plain_name(win(), "current"@),
{
    reveal_strlit("current");
    let n = "current"@;
    assert(n.len() == 7 && n[0] == 'c' && n[1] == 'u' && n[2] == 'r' && n[3] == 'r' && n[4] == 'e' && n[5] == 'n' && n[6] == 't');
    assert forall|i: int| 0 <= i < n.len() implies !path_model::is_sep(win(), #[trigger] n[i]) by {
        assert(i == 0 || i == 1 || i == 2 || i == 3 || i == 4 || i == 5 || i == 6);
    }
    assert(n != seq!['.']);
    assert(n != seq!['.', '.']);
}

proof fn lemma_plain_bin()
    ensures
        path_model::plain_name(win(), "bin"@),
{
    reveal_strlit("bin");
    let n = "bin"@;
    assert(n.len() == 3 && n[0] == 'b' && n[1] == 'i' && n[2] == 'n');
    assert forall|i: int| 0 <= i < n.len() implies !path_model::is_sep(win(), #[trigger] n[i]) by {
        assert(i == 0 || i == 1 || i == 2);
    }
    assert(n != seq!['.']);
    assert(n != seq!['.', '.']);
}

proof fn lemma_plain_bash_exe()
    ensures
        path_model::plain_name(win(), "bash.exe"@),
{
    reveal_strlit("bash.exe");
    let n = "bash.exe"@;
    assert(n.len() == 8 && n[0] == 'b' && n[1] == 'a' && n[2] == 's' && n[3] == 'h' && n[4] == '.' && n[5] == 'e' && n[6] == 'x' && n[7] == 'e');
    assert forall|i: int| 0 <= i < n.len() implies !path_model::is_sep(win(), #[trigger] n[i]) by {
        assert(i == 0 || i == 1 || i == 2 || i == 3 || i == 4 || i == 5 || i == 6 || i == 7);
    }
    assert(n != seq!['.']);
    assert(n != seq!['.', '.']);
}

proof fn lemma_plain_usr()
    ensures
        path_model::plain_name(win(), "usr"@),
{
    reveal_strlit("usr");
    let n = "usr"@;
    assert(n.len() == 3 && n[0] == 'u' && n[1] == 's' && n[2] == 'r');
    assert forall|i: int| 0 <= i < n.len() implies !path_model::is_sep(win(), #[trigger] n[i]) by {
        assert(i == 0 || i == 1 || i == 2);
    }
    assert(n != seq!['.']);
    assert(n != seq!['.', '.']);
}

proof fn lemma_plain_cmd()
    ensures
        path_model::plain_name(win(), "cmd"@),
{
    reveal_strlit("cmd");
    let n = "cmd"@;
    assert(n.len() == 3 && n[0] == 'c' && n[1] == 'm' && n[2] == 'd');
    assert forall|i: int| 0 <= i < n.len() implies !path_model::is_sep(win(), #[trigger] n[i]) by {
        assert(i == 0 || i == 1 || i == 2);
    }
    assert(n != seq!['.']);
    assert(n != seq!['.', '.']);
}

proof fn lemma_plain_git_exe()
    ensures
        path_model::plain_name(win(), "git.exe"@),
{
    reveal_strlit("git.exe");
    let n = "git.exe"@;
    assert(n.len() == 7 && n[0] == 'g' && n[1] == 'i' && n[2] == 't' && n[3] == '.' && n[4] == 'e' && n[5] == 'x' && n[6] == 'e');
    assert forall|i: int| 0 <= i < n.len() implies !path_model::is_sep(win(), #[trigger] n[i]) by {
        assert(i == 0 || i == 1 || i == 2 || i == 3 || i == 4 || i == 5 || i == 6);
    }
    assert(n != seq!['.']);
    assert(n != seq!['.', '.']);
}

proof fn lemma_plain_msys_2_0_dll()
    ensures
        path_model::plain_name(win(), "msys-2.0.dll"@),
{
    reveal_strlit("msys-2.0.dll");
    let n = "msys-2.0.dll"@;
    assert(n.len() == 12 && n[0] == 'm' && n[1] == 's' && n[2] == 'y' && n[3] == 's' && n[4] == '-' && n[5] == '2' && n[6] == '.' && n[7] == '0' && n[8] == '.' && n[9] == 'd' && n[10] == 'l' && n[11] == 'l');
    assert forall|i: int| 0 <= i < n.len() implies !path_model::is_sep(win(), #[trigger] n[i]) by {
        assert(i == 0 || i == 1 || i == 2 || i == 3 || i == 4 || i == 5 || i == 6 || i == 7 || i == 8 || i == 9 || i == 10 || i == 11);
    }
    assert(n != seq!['.']);
    assert(n != seq!['.', '.']);
}

/// The names that the Git for Windows layout joins are single normal components.
proof fn lemma_layout_names_are_plain()
    ensures
        path_model::plain_name(win(), "apps"@),
        path_model::plain_name(win(), "git"@),
        path_model::plain_name(win(), "current"@),
        path_model::plain_name(win(), "bin"@),
        path_model::plain_name(win(), "bash.exe"@),
        path_model::plain_name(win(), "usr"@),
        path_model::plain_name(win(), "cmd"@),
        path_model::plain_name(win(), "git.exe"@),
        path_model::plain_name(win(), "msys-2.0.dll"@),
{
    lemma_plain_apps();
    lemma_plain_git();
    lemma_plain_current();
    lemma_plain_bin();
    lemma_plain_bash_exe();
    lemma_plain_usr();
    lemma_plain_cmd();
    lemma_plain_git_exe();
    lemma_plain_msys_2_0_dll();
}

fn join_win2(base: &str, a: &str, b: &str) -> (r: String)
    requires
        path_model::plain_name(win(), a@),
        path_model::plain_name(win(), b@),
    ensures
        r@ == join2(base@, a@, b@),
{
    let x = path_join(PathConvention::Windows, base, a);
    path_join(PathConvention::Windows, x.as_str(), b)
}

fn join_win3(base: &str, a: &str, b: &str, c: &str) -> (r: String)
    requires
        path_model::plain_name(win(), a@),
        path_model::plain_name(win(), b@),
        path_model::plain_name(win(), c@),
    ensures
        r@ == join3(base@, a@, b@, c@),
{
    let x = join_win2(base, a, b);
    path_join(PathConvention::Windows, x.as_str(), c)
}

pub fn git_for_windows_install_root_from_git_exe(git_path: &str) -> (r: Option<String>)
    ensures
        r matches Some(p) ==> spec_root_from_git_exe(git_path@) == Some(p@),
        r is None ==> spec_root_from_git_exe(git_path@) is None,
{
    if !path_file_stem_eq(git_path, "git") {
        return None;
    }
    let parent = match path_parent(PathConvention::Windows, git_path) {
        Some(p) => p,
        None => return None,
    };
    if path_file_name_eq(parent.as_str(), "shims") {
        proof {
            lemma_layout_names_are_plain();
        }
        return match path_parent(PathConvention::Windows, parent.as_str()) {
            Some(scoop_root) => Some(join_win3(scoop_root.as_str(), "apps", "git", "current")),
            None => None,
        };
    }
    if path_file_name_eq(parent.as_str(), "cmd") {
        return path_parent(PathConvention::Windows, parent.as_str());
    }
    if path_file_name_eq(parent.as_str(), "bin") {
        let grandparent = match path_parent(PathConvention::Windows, parent.as_str()) {
            Some(p) => p,
            None => return None,
        };
        if path_file_name_eq(grandparent.as_str(), "mingw64") || path_file_name_eq(
            grandparent.as_str(),
            "mingw32",
        ) || path_file_name_eq(grandparent.as_str(), "usr") {
            return path_parent(PathConvention::Windows, grandparent.as_str());
        }
    }
    None
}

/// The two `bash.exe` locations of the installation that `git_path` belongs to.
pub fn git_bash_candidates_from_git_exe(git_path: &str) -> (r: Vec<String>)
    ensures
        r.deep_view() == spec_candidates_from_git_exe(git_path@),
{
    match git_for_windows_install_root_from_git_exe(git_path) {
        Some(root) => {
            let mut v: Vec<String> = Vec::new();
            proof {
                lemma_layout_names_are_plain();
            }
            v.push(join_win2(root.as_str(), "bin", "bash.exe"));
            v.push(join_win3(root.as_str(), "usr", "bin", "bash.exe"));
            assert(v.deep_view() =~= spec_bash_paths_of_root(root@));
            v
        },
        None => {
            let v: Vec<String> = Vec::new();
            assert(v.deep_view() =~= Seq::<Seq<char>>::empty());
            v
        },
    }
}

fn install_root_candidate_from_bash(shell_path: &str) -> (r: Option<String>)
    ensures
        r matches Some(p) ==> spec_root_candidate_from_bash(shell_path@) == Some(p@),
        r is None ==> spec_root_candidate_from_bash(shell_path@) is None,
{
    if !path_file_stem_eq(shell_path, "bash") {
        return None;
    }
    let parent = match path_parent(PathConvention::Windows, shell_path) {
        Some(p) => p,
        None => return None,
    };
    if !path_file_name_eq(parent.as_str(), "bin") {
        return None;
    }
    let grandparent = match path_parent(PathConvention::Windows, parent.as_str()) {
        Some(p) => p,
        None => return None,
    };
    if path_file_name_eq(grandparent.as_str(), "usr") {
        path_parent(PathConvention::Windows, grandparent.as_str())
    } else {
        Some(grandparent)
    }
}

/// The Git for Windows installation that the `bash` executable at `shell_path` belongs
/// to, if its location fits the layout and the installation holds `cmd\git.exe` and
/// `usr\bin\msys-2.0.dll`.
pub fn git_for_windows_install_root_from_bash(shell_path: &str, host: &HostEnvironment) -> (r:
    Option<String>)
    ensures
        r matches Some(p) ==> spec_root_from_bash(host, shell_path@) == Some(p@),
        r is None ==> spec_root_from_bash(host, shell_path@) is None,
{
    let root = match install_root_candidate_from_bash(shell_path) {
        Some(r) => r,
        None => return None,
    };
    proof {
        lemma_layout_names_are_plain();
    }
    let git = join_win2(root.as_str(), "cmd", "git.exe");
    let msys = join_win3(root.as_str(), "usr", "bin", "msys-2.0.dll");
    if host.file_exists(git.as_str()) && host.file_exists(msys.as_str()) {
        Some(root)
    } else {
        None
    }
}


// ---------------------------------------------------------------------------
// Searching for Git Bash
// ---------------------------------------------------------------------------

/// Name for what `str::to_lowercase` returns for a text.
pub uninterp spec fn str_to_lowercase(s: Seq<char>) -> Seq<char>;

/// `str::to_lowercase`: the text with every character mapped to its lowercase form by
/// Unicode's rules. Only that the result is determined by the text is stated here.
#[verifier::external_body]
fn to_lowercase(s: &str) -> (r: String)
    ensures
        r@ == str_to_lowercase(s@),
{
    s.to_lowercase()
}

/// The case-insensitive keys of a list of paths.
pub open spec fn keys_of(s: Seq<Seq<char>>) -> Seq<Seq<char>> {
    s.map_values(|x: Seq<char>| str_to_lowercase(x))
}

pub open spec fn seq_has(s: Seq<Seq<char>>, k: Seq<char>) -> bool {
    exists|j: int| 0 <= j < s.len() && #[trigger] s[j] == k
}

/// `s` without the paths whose lowercase form already occurred earlier in `s`.
pub open spec fn spec_dedupe(s: Seq<Seq<char>>) -> Seq<Seq<char>>
    decreases s.len(),
{
    if s.len() == 0 {
        Seq::empty()
    } else if seq_has(keys_of(s.drop_last()), str_to_lowercase(s.last())) {
        spec_dedupe(s.drop_last())
    } else {
        spec_dedupe(s.drop_last()).push(s.last())
    }
}

proof fn lemma_seq_has_push(s: Seq<Seq<char>>, x: Seq<char>, k: Seq<char>)
    ensures
        seq_has(s.push(x), k) == (seq_has(s, k) || x == k),
{
    if seq_has(s, k) {
        let j = choose|j: int| 0 <= j < s.len() && #[trigger] s[j] == k;
        assert(s.push(x)[j] == k);
    }
    if x == k {
        assert(s.push(x)[s.len() as int] == k);
    }
    if seq_has(s.push(x), k) {
        let j = choose|j: int| 0 <= j < s.push(x).len() && #[trigger] s.push(x)[j] == k;
        if j < s.len() {
            assert(s[j] == k);
        }
    }
}

proof fn lemma_keys_of_push(s: Seq<Seq<char>>, x: Seq<char>)
    ensures
        keys_of(s.push(x)) == keys_of(s).push(str_to_lowercase(x)),
{
    assert(keys_of(s.push(x)) =~= keys_of(s).push(str_to_lowercase(x)));
}

/// Dropping repeated paths keeps the set of keys.
pub proof fn lemma_dedupe_keeps_keys(s: Seq<Seq<char>>, k: Seq<char>)
    ensures
        seq_has(keys_of(spec_dedupe(s)), k) == seq_has(keys_of(s), k),
    decreases s.len(),
{
    if s.len() > 0 {
        let p = s.drop_last();
        let x = s.last();
        assert(p.push(x) =~= s);
        lemma_dedupe_keeps_keys(p, k);
        lemma_keys_of_push(p, x);
        lemma_seq_has_push(keys_of(p), str_to_lowercase(x), k);
        if !seq_has(keys_of(p), str_to_lowercase(x)) {
            lemma_keys_of_push(spec_dedupe(p), x);
            lemma_seq_has_push(keys_of(spec_dedupe(p)), str_to_lowercase(x), k);
        }
    }
}

/// After dropping repeats no two paths share a key.
pub proof fn lemma_dedupe_distinct_keys(s: Seq<Seq<char>>)
    ensures
        forall|i: int, j: int|
            0 <= i < j < spec_dedupe(s).len() ==> str_to_lowercase(#[trigger] spec_dedupe(s)[i])
                != str_to_lowercase(#[trigger] spec_dedupe(s)[j]),
    decreases s.len(),
{
    if s.len() > 0 {
        let p = s.drop_last();
        let x = s.last();
        lemma_dedupe_distinct_keys(p);
        let d = spec_dedupe(p);
        if !seq_has(keys_of(p), str_to_lowercase(x)) {
            lemma_dedupe_keeps_keys(p, str_to_lowercase(x));
            assert forall|i: int, j: int|
                0 <= i < j < d.push(x).len() implies str_to_lowercase(#[trigger] d.push(x)[i])
                != str_to_lowercase(#[trigger] d.push(x)[j]) by {
                if j == d.len() {
                    assert(keys_of(d)[i] == str_to_lowercase(d[i]));
                    if str_to_lowercase(d[i]) == str_to_lowercase(x) {
                        assert(seq_has(keys_of(d), str_to_lowercase(x)));
                    }
                } else {
                    assert(d.push(x)[i] == d[i]);
                    assert(d.push(x)[j] == d[j]);
                }
            }
        }
    }
}

fn contains_key(keys: &[String], key: &str) -> (r: bool)
    ensures
        r == seq_has(keys.deep_view(), key@),
{
    let mut i: usize = 0;
    while i < keys.len()
        invariant
            i <= keys.len(),
            forall|j: int| 0 <= j < i ==> keys.deep_view()[j] != key@,
        decreases keys.len() - i,
    {
        if str_equal(keys[i].as_str(), key) {
            assert(keys.deep_view()[i as int] == key@);
            return true;
        }
        i = i + 1;
    }
    false
}

/// Drops every path whose lowercase form already occurred earlier in the list.
pub fn dedupe_paths(paths: &mut Vec<String>)
    ensures
        final(paths).deep_view() == spec_dedupe(old(paths).deep_view()),
{
    let ghost d = paths.deep_view();
    let mut out: Vec<String> = Vec::new();
    let mut keys: Vec<String> = Vec::new();
    let mut i: usize = 0;
    assert(d.take(0) =~= Seq::<Seq<char>>::empty());
    assert(keys.deep_view() =~= keys_of(out.deep_view()));
    while i < paths.len()
        invariant
            i <= paths.len(),
            d == paths.deep_view(),
            out.deep_view() == spec_dedupe(d.take(i as int)),
            keys.deep_view() == keys_of(out.deep_view()),
        decreases paths.len() - i,
    {
        let key = to_lowercase(paths[i].as_str());
        let seen = contains_key(keys.as_slice(), key.as_str());
        proof {
            let p = d.take(i as int);
            assert(d.take(i + 1).drop_last() =~= p);
            assert(d.take(i + 1).last() == d[i as int]);
            lemma_dedupe_keeps_keys(p, key@);
        }
        if !seen {
            out.push(paths[i].clone());
            keys.push(key);
            proof {
                lemma_keys_of_push(spec_dedupe(d.take(i as int)), d[i as int]);
                assert(out.deep_view() =~= spec_dedupe(d.take(i as int)).push(d[i as int]));
                assert(keys.deep_view() =~= keys_of(spec_dedupe(d.take(i as int))).push(key@));
            }
        }
        i = i + 1;
    }
    assert(d.take(d.len() as int) =~= d);
    *paths = out;
}

/// The fixed places where Git for Windows is usually installed.
pub open spec fn spec_default_git_bash_locations() -> Seq<Seq<char>> {
    seq![
        "C:\\Program Files\\Git\\bin\\bash.exe"@,
        "C:\\Program Files\\Git\\usr\\bin\\bash.exe"@,
        "C:\\Program Files (x86)\\Git\\bin\\bash.exe"@,
        "C:\\Program Files (x86)\\Git\\usr\\bin\\bash.exe"@,
    ]
}

/// Candidates in search order, before repeats are dropped: the `bash.exe` files of
/// the installation of the `git` that `which` finds, the default locations, and the
/// `bash` that `which` finds.
pub open spec fn spec_raw_search_candidates(host: &HostEnvironment) -> Seq<Seq<char>> {
    let from_git = match spec_which(host, "git"@) {
        Some(g) => spec_candidates_from_git_exe(g),
        None => Seq::empty(),
    };
    let with_defaults = from_git + spec_default_git_bash_locations();
    match spec_which(host, "bash"@) {
        Some(b) => with_defaults.push(b),
        None => with_defaults,
    }
}

pub open spec fn spec_search_candidates(host: &HostEnvironment) -> Seq<Seq<char>> {
    spec_dedupe(spec_raw_search_candidates(host))
}

pub fn git_bash_search_candidates(host: &HostEnvironment) -> (r: Vec<String>)
    ensures
        r.deep_view() == spec_search_candidates(host),
{
    let mut candidates: Vec<String> = Vec::new();
    if let Some(git_path) = host.which("git") {
        candidates = git_bash_candidates_from_git_exe(git_path.as_str());
    }
    let ghost from_git = candidates.deep_view();
    candidates.push("C:\\Program Files\\Git\\bin\\bash.exe".to_string());
    candidates.push("C:\\Program Files\\Git\\usr\\bin\\bash.exe".to_string());
    candidates.push("C:\\Program Files (x86)\\Git\\bin\\bash.exe".to_string());
    candidates.push("C:\\Program Files (x86)\\Git\\usr\\bin\\bash.exe".to_string());
    assert(candidates.deep_view() =~= from_git + spec_default_git_bash_locations());
    let ghost with_defaults = candidates.deep_view();
    if let Some(bash_path) = host.which("bash") {
        candidates.push(bash_path);
        assert(candidates.deep_view() =~= with_defaults.push(bash_path@));
    }
    assert(candidates.deep_view() == spec_raw_search_candidates(host));
    dedupe_paths(&mut candidates);
    candidates
}

pub open spec fn spec_binaries_to_resolve() -> Seq<Seq<char>> {
    seq!["zsh"@, "bash"@, "sh"@, "pwsh"@, "powershell"@, "cmd"@, "git"@]
}

/// The binary names to resolve with `which` when filling in `host.which_results`.
pub fn binaries_to_resolve() -> (r: Vec<&'static str>)
    ensures
        r.deep_view() == spec_binaries_to_resolve(),
{
    let v = vec!["zsh", "bash", "sh", "pwsh", "powershell", "cmd", "git"];
    assert(v.deep_view() =~= spec_binaries_to_resolve());
    v
}

/// The files whose presence marks the Git for Windows installation that a `bash`
/// executable at `p` would belong to, judged from its location alone.
pub open spec fn spec_marker_files(p: Seq<char>) -> Seq<Seq<char>> {
    match spec_root_candidate_from_bash(p) {
        Some(r) => seq![spec_git_exe_of_root(r), spec_msys_dll_of_root(r)],
        None => Seq::empty(),
    }
}

pub open spec fn spec_markers_of_all(s: Seq<Seq<char>>) -> Seq<Seq<char>>
    decreases s.len(),
{
    if s.len() == 0 {
        Seq::empty()
    } else {
        spec_markers_of_all(s.drop_last()) + spec_marker_files(s.last())
    }
}

/// The paths that `which` resolved, in the order of its records.
pub open spec fn spec_which_paths(entries: Seq<(String, String)>) -> Seq<Seq<char>> {
    entries.map_values(|e: (String, String)| e.1@)
}

pub open spec fn spec_opt_path(p: Option<String>) -> Seq<Seq<char>> {
    match p {
        Some(q) => seq![q@],
        None => Seq::empty(),
    }
}

/// The paths that shell detection may look up before it consults the markers of
/// Git for Windows: the fallback locations of every kind of shell, what `which`
/// resolved, the login shell, the paths a caller names, and the Git Bash candidates.
pub open spec fn spec_probe_base(host: &HostEnvironment, extra: Seq<Seq<char>>) -> Seq<Seq<char>> {
    spec_zsh_fallbacks() + spec_bash_fallbacks() + spec_sh_fallbacks() + spec_pwsh_fallbacks(
        host.os,
    ) + spec_powershell_fallbacks(host.os) + spec_which_paths(host.which_results@)
        + spec_opt_path(host.user_shell_path) + extra + spec_search_candidates(host)
}

pub open spec fn spec_paths_to_probe(host: &HostEnvironment, extra: Seq<Seq<char>>) -> Seq<Seq<char>> {
    spec_probe_base(host, extra) + spec_markers_of_all(spec_probe_base(host, extra))
}

/// The files whose presence marks the Git for Windows installation that the `bash`
/// executable at `shell_path` would belong to: `<root>\cmd\git.exe` and
/// `<root>\usr\bin\msys-2.0.dll`, or nothing where its location does not fit the layout.
pub fn git_for_windows_marker_files(shell_path: &str) -> (r: Vec<String>)
    ensures
        r.deep_view() == spec_marker_files(shell_path@),
{
    let mut v: Vec<String> = Vec::new();
    if let Some(root) = install_root_candidate_from_bash(shell_path) {
        proof {
            lemma_layout_names_are_plain();
        }
        v.push(join_win2(root.as_str(), "cmd", "git.exe"));
        v.push(join_win3(root.as_str(), "usr", "bin", "msys-2.0.dll"));
    }
    assert(v.deep_view() =~= spec_marker_files(shell_path@));
    v
}

fn push_all_strs(out: &mut Vec<String>, items: &[&str])
    ensures
        final(out).deep_view() == old(out).deep_view() + items.deep_view(),
{
    let ghost start = out.deep_view();
    let mut i: usize = 0;
    while i < items.len()
        invariant
            i <= items.len(),
            out.deep_view() == start + items.deep_view().subrange(0, i as int),
        decreases items.len() - i,
    {
        let ghost before = out.deep_view();
        let item = items[i].clone();
        out.push(item.to_string());
        assert(out.deep_view() =~= before.push(items.deep_view()[i as int]));
        i = i + 1;
        assert(items.deep_view().subrange(0, i as int) =~= items.deep_view().subrange(
            0,
            i - 1,
        ).push(items.deep_view()[i - 1]));
    }
    assert(items.deep_view().subrange(0, items.len() as int) =~= items.deep_view());
}

fn push_all_strings(out: &mut Vec<String>, items: &[String])
    ensures
        final(out).deep_view() == old(out).deep_view() + items.deep_view(),
{
    let ghost start = out.deep_view();
    let mut i: usize = 0;
    while i < items.len()
        invariant
            i <= items.len(),
            out.deep_view() == start + items.deep_view().subrange(0, i as int),
        decreases items.len() - i,
    {
        let ghost before = out.deep_view();
        let item = items[i].clone();
        out.push(item);
        assert(out.deep_view() =~= before.push(items.deep_view()[i as int]));
        i = i + 1;
        assert(items.deep_view().subrange(0, i as int) =~= items.deep_view().subrange(
            0,
            i - 1,
        ).push(items.deep_view()[i - 1]));
    }
    assert(items.deep_view().subrange(0, items.len() as int) =~= items.deep_view());
}

/// The files to look up when filling in `host.existing_files`: the fallback locations
/// of every kind of shell, what `which` resolved, the login shell, `extra` (a configured
/// Git Bash path, a path a model named), the Git Bash search candidates, and then the
/// Git for Windows marker files of each of these. Paths may repeat.
pub fn paths_to_probe(host: &HostEnvironment, extra: &[String]) -> (r: Vec<String>)
    ensures
        r.deep_view() == spec_paths_to_probe(host, extra.deep_view()),
{
    let mut base: Vec<String> = Vec::new();
    let zsh = zsh_fallback_paths();
    push_all_strs(&mut base, zsh.as_slice());
    let bash = bash_fallback_paths();
    push_all_strs(&mut base, bash.as_slice());
    let sh = sh_fallback_paths();
    push_all_strs(&mut base, sh.as_slice());
    let pwsh = pwsh_fallback_paths(host);
    push_all_strs(&mut base, pwsh.as_slice());
    let powershell = powershell_fallback_paths(host);
    push_all_strs(&mut base, powershell.as_slice());
    let ghost fallbacks = base.deep_view();
    let mut i: usize = 0;
    while i < host.which_results.len()
        invariant
            i <= host.which_results.len(),
            base.deep_view() == fallbacks + spec_which_paths(host.which_results@.subrange(
                0,
                i as int,
            )),
        decreases host.which_results.len() - i,
    {
        let ghost before = base.deep_view();
        let resolved = host.which_results[i].1.clone();
        base.push(resolved);
        assert(base.deep_view() =~= before.push(host.which_results@[i as int].1@));
        i = i + 1;
        assert(spec_which_paths(host.which_results@.subrange(0, i as int)) =~= spec_which_paths(
            host.which_results@.subrange(0, i - 1),
        ).push(host.which_results@[i - 1].1@));
    }
    assert(host.which_results@.subrange(0, host.which_results.len() as int)
        =~= host.which_results@);
    let ghost with_which = base.deep_view();
    if let Some(user) = &host.user_shell_path {
        base.push(user.clone());
    }
    assert(base.deep_view() =~= with_which + spec_opt_path(host.user_shell_path));
    push_all_strings(&mut base, extra);
    let candidates = git_bash_search_candidates(host);
    push_all_strings(&mut base, candidates.as_slice());
    assert(base.deep_view() =~= spec_probe_base(host, extra.deep_view()));
    let ghost b = base.deep_view();
    let mut out: Vec<String> = Vec::new();
    push_all_strings(&mut out, base.as_slice());
    let mut j: usize = 0;
    while j < base.len()
        invariant
            j <= base.len(),
            base.deep_view() == b,
            out.deep_view() == b + spec_markers_of_all(b.subrange(0, j as int)),
        decreases base.len() - j,
    {
        let markers = git_for_windows_marker_files(base[j].as_str());
        push_all_strings(&mut out, markers.as_slice());
        j = j + 1;
        assert(b.subrange(0, j as int).drop_last() =~= b.subrange(0, j - 1));
    }
    assert(b.subrange(0, base.len() as int) =~= b);
    out
}

// ---------------------------------------------------------------------------
// Discovering Git Bash
// ---------------------------------------------------------------------------

pub open spec fn hint_view(h: GitBashPathHint) -> Option<Seq<char>> {
    match h {
        GitBashPathHint::SearchPath => None,
        GitBashPathHint::Configured(p) => Some(p@),
    }
}

pub open spec fn git_bash_result_view(r: Result<GitBashShell, GitBashDiscoveryError>) -> Result<
    ((ShellType, Seq<char>), Seq<char>),
    (Seq<char>, Seq<Seq<char>>),
> {
    match r {
        Ok(g) => Ok(g@),
        Err(e) => Err(e@),
    }
}

/// The first candidate that exists and belongs to a Git for Windows installation.
pub open spec fn spec_first_git_bash(host: &HostEnvironment, cs: Seq<Seq<char>>) -> Option<
    ((ShellType, Seq<char>), Seq<char>),
>
    decreases cs.len(),
{
    if cs.len() == 0 {
        None
    } else if spec_file_exists(host, cs[0]) && spec_root_from_bash(host, cs[0]) is Some {
        Some(((ShellType::Bash, cs[0]), spec_root_from_bash(host, cs[0])->0))
    } else {
        spec_first_git_bash(host, cs.drop_first())
    }
}

pub open spec fn msg_not_absolute(p: Seq<char>) -> Seq<char> {
    "`windows.git_bash_path` must be an absolute path to Git for Windows bash.exe: "@ + p
}

pub open spec fn msg_missing(p: Seq<char>) -> Seq<char> {
    "`windows.git_bash_path` points to `"@ + p + "` but that file does not exist"@
}

pub open spec fn msg_not_git_for_windows(p: Seq<char>) -> Seq<char> {
    "`windows.git_bash_path` points to `"@ + p + "` but only Git for Windows bash.exe is supported"@
}

pub open spec fn msg_not_found() -> Seq<char> {
    "`windows.default_shell = \"git-bash\"` was configured, but no Git for Windows Bash was found. Set `windows.git_bash_path` to the absolute path of Git for Windows `bash.exe`."@
}

pub open spec fn msg_windows_only() -> Seq<char> {
    "Git Bash is only supported on Windows"@
}

/// Git Bash discovery on Windows. A configured path must be absolute, must exist and
/// must belong to a Git for Windows installation; otherwise the search candidates are
/// tried in order.
pub open spec fn spec_find_git_bash_windows(host: &HostEnvironment, hint: Option<Seq<char>>) -> Result<
    ((ShellType, Seq<char>), Seq<char>),
    (Seq<char>, Seq<Seq<char>>),
> {
    match hint {
        Some(p) => if !path_model::spec_is_absolute(win(), p) {
            Err((msg_not_absolute(p), seq![p]))
        } else if !spec_file_exists(host, p) {
            Err((msg_missing(p), seq![p]))
        } else {
            match spec_root_from_bash(host, p) {
                Some(r) => Ok(((ShellType::Bash, p), r)),
                None => Err((msg_not_git_for_windows(p), seq![p])),
            }
        },
        None => match spec_first_git_bash(host, spec_search_candidates(host)) {
            Some(g) => Ok(g),
            None => Err((msg_not_found(), spec_search_candidates(host))),
        },
    }
}

/// Git Bash discovery: only Windows hosts have it.
pub open spec fn spec_find_git_bash(host: &HostEnvironment, hint: Option<Seq<char>>) -> Result<
    ((ShellType, Seq<char>), Seq<char>),
    (Seq<char>, Seq<Seq<char>>),
> {
    if host.os == HostOs::Windows {
        spec_find_git_bash_windows(host, hint)
    } else {
        Err(
            (
                msg_windows_only(),
                match hint {
                    Some(p) => seq![p],
                    None => Seq::empty(),
                },
            ),
        )
    }
}

fn git_bash_from_candidate(shell_path: &str, host: &HostEnvironment) -> (r: Option<GitBashShell>)
    ensures
        r matches Some(g) ==> spec_root_from_bash(host, shell_path@) == Some(g@.1) && g@.0 == (
            ShellType::Bash,
            shell_path@,
        ),
        r is None ==> spec_root_from_bash(host, shell_path@) is None,
{
    let installation_root = match git_for_windows_install_root_from_bash(shell_path, host) {
        Some(r) => r,
        None => return None,
    };
    Some(
        GitBashShell {
            shell: DetectedShell { shell_type: ShellType::Bash, shell_path: shell_path.to_string() },
            installation_root,
        },
    )
}

fn one_path(p: &str) -> (r: Vec<String>)
    ensures
        r.deep_view() == seq![p@],
{
    let mut v: Vec<String> = Vec::new();
    v.push(p.to_string());
    assert(v.deep_view() =~= seq![p@]);
    v
}

fn message_around(before: &str, p: &str, after: &str) -> (r: String)
    ensures
        r@ == before@ + p@ + after@,
{
    let mut m = String::new();
    m.append(before);
    m.append(p);
    m.append(after);
    assert(m@ =~= before@ + p@ + after@);
    m
}

fn find_git_bash_shell_windows(path_hint: &GitBashPathHint, host: &HostEnvironment) -> (r: Result<
    GitBashShell,
    GitBashDiscoveryError,
>)
    ensures
        git_bash_result_view(r) == spec_find_git_bash_windows(host, hint_view(*path_hint)),
{
    match path_hint {
        GitBashPathHint::Configured(path) => {
            if !path_is_absolute(PathConvention::Windows, path.as_str()) {
                let mut m = String::new();
                m.append(
                    "`windows.git_bash_path` must be an absolute path to Git for Windows bash.exe: ",
                );
                m.append(path.as_str());
                return Err(GitBashDiscoveryError::new(m, one_path(path.as_str())));
            }
            if !host.file_exists(path.as_str()) {
                let m = message_around(
                    "`windows.git_bash_path` points to `",
                    path.as_str(),
                    "` but that file does not exist",
                );
                return Err(GitBashDiscoveryError::new(m, one_path(path.as_str())));
            }
            match git_bash_from_candidate(path.as_str(), host) {
                Some(g) => Ok(g),
                None => {
                    let m = message_around(
                        "`windows.git_bash_path` points to `",
                        path.as_str(),
                        "` but only Git for Windows bash.exe is supported",
                    );
                    Err(GitBashDiscoveryError::new(m, one_path(path.as_str())))
                },
            }
        },
        GitBashPathHint::SearchPath => {
            let candidates = git_bash_search_candidates(host);
            let ghost cs = candidates.deep_view();
            let mut i: usize = 0;
            assert(cs.skip(0) =~= cs);
            while i < candidates.len()
                invariant
                    i <= candidates.len(),
                    cs == candidates.deep_view(),
                    cs == spec_search_candidates(host),
                    hint_view(*path_hint) is None,
                    spec_first_git_bash(host, cs.skip(i as int)) == spec_first_git_bash(host, cs),
                decreases candidates.len() - i,
            {
                proof {
                    assert(cs.skip(i as int).drop_first() =~= cs.skip(i + 1));
                    assert(cs.skip(i as int)[0] == cs[i as int]);
                }
                if host.file_exists(candidates[i].as_str()) {
                    if let Some(git_bash) = git_bash_from_candidate(candidates[i].as_str(), host) {
                        proof {
                            assert(candidates[i as int]@ == cs[i as int]);
                            assert(git_bash@ == (
                                (ShellType::Bash, cs[i as int]),
                                spec_root_from_bash(host, cs[i as int])->0,
                            ));
                        }
                        return Ok(git_bash);
                    }
                }
                i = i + 1;
            }
            assert(cs.skip(i as int) =~= Seq::<Seq<char>>::empty());
            let mut m = String::new();
            m.append(
                "`windows.default_shell = \"git-bash\"` was configured, but no Git for Windows Bash was found. Set `windows.git_bash_path` to the absolute path of Git for Windows `bash.exe`.",
            );
            Err(GitBashDiscoveryError::new(m, candidates))
        },
    }
}

/// Finds Git for Windows' Bash: at the configured path, or by searching. Hosts other
/// than Windows have no Git Bash.
pub fn find_git_bash_shell(path_hint: GitBashPathHint, host: &HostEnvironment) -> (r: Result<
    GitBashShell,
    GitBashDiscoveryError,
>)
    ensures
        git_bash_result_view(r) == spec_find_git_bash(host, hint_view(path_hint)),
{
    if host.is_windows() {
        find_git_bash_shell_windows(&path_hint, host)
    } else {
        let attempted_paths = match &path_hint {
            GitBashPathHint::SearchPath => {
                let v: Vec<String> = Vec::new();
                assert(v.deep_view() =~= Seq::<Seq<char>>::empty());
                v
            },
            GitBashPathHint::Configured(path) => one_path(path.as_str()),
        };
        let mut m = String::new();
        m.append("Git Bash is only supported on Windows");
        Err(GitBashDiscoveryError::new(m, attempted_paths))
    }
}


// ---------------------------------------------------------------------------
// Shells of each kind
// ---------------------------------------------------------------------------

pub open spec fn spec_zsh_fallbacks() -> Seq<Seq<char>> {
    seq!["/bin/zsh"@]
}

pub open spec fn spec_bash_fallbacks() -> Seq<Seq<char>> {
    seq!["/bin/bash"@, "/usr/bin/bash"@]
}

pub open spec fn spec_sh_fallbacks() -> Seq<Seq<char>> {
    seq!["/bin/sh"@]
}

/// Where `pwsh` is commonly installed.
pub open spec fn spec_pwsh_fallbacks(os: HostOs) -> Seq<Seq<char>> {
    if os == HostOs::Windows {
        seq!["C:\\Program Files\\PowerShell\\7\\pwsh.exe"@]
    } else {
        seq!["/usr/local/bin/pwsh"@]
    }
}

/// Where Windows PowerShell is commonly installed.
pub open spec fn spec_powershell_fallbacks(os: HostOs) -> Seq<Seq<char>> {
    if os == HostOs::Windows {
        seq!["C:\\Windows\\System32\\WindowsPowerShell\\v1.0\\powershell.exe"@]
    } else {
        Seq::empty()
    }
}

fn zsh_fallback_paths() -> (r: Vec<&'static str>)
    ensures
        r.deep_view() == spec_zsh_fallbacks(),
{
    let v = vec!["/bin/zsh"];
    assert(v.deep_view() =~= spec_zsh_fallbacks());
    v
}

fn bash_fallback_paths() -> (r: Vec<&'static str>)
    ensures
        r.deep_view() == spec_bash_fallbacks(),
{
    let v = vec!["/bin/bash", "/usr/bin/bash"];
    assert(v.deep_view() =~= spec_bash_fallbacks());
    v
}

fn sh_fallback_paths() -> (r: Vec<&'static str>)
    ensures
        r.deep_view() == spec_sh_fallbacks(),
{
    let v = vec!["/bin/sh"];
    assert(v.deep_view() =~= spec_sh_fallbacks());
    v
}

fn pwsh_fallback_paths(host: &HostEnvironment) -> (r: Vec<&'static str>)
    ensures
        r.deep_view() == spec_pwsh_fallbacks(host.os),
{
    if host.is_windows() {
        let v = vec!["C:\\Program Files\\PowerShell\\7\\pwsh.exe"];
        assert(v.deep_view() =~= spec_pwsh_fallbacks(host.os));
        v
    } else {
        let v = vec!["/usr/local/bin/pwsh"];
        assert(v.deep_view() =~= spec_pwsh_fallbacks(host.os));
        v
    }
}

fn powershell_fallback_paths(host: &HostEnvironment) -> (r: Vec<&'static str>)
    ensures
        r.deep_view() == spec_powershell_fallbacks(host.os),
{
    if host.is_windows() {
        let v = vec!["C:\\Windows\\System32\\WindowsPowerShell\\v1.0\\powershell.exe"];
        assert(v.deep_view() =~= spec_powershell_fallbacks(host.os));
        v
    } else {
        let v: Vec<&'static str> = Vec::new();
        assert(v.deep_view() =~= spec_powershell_fallbacks(host.os));
        v
    }
}

pub open spec fn spec_detected(t: ShellType, p: Option<Seq<char>>) -> Option<(ShellType, Seq<char>)> {
    match p {
        Some(q) => Some((t, q)),
        None => None,
    }
}

pub open spec fn opt_detected_view(o: Option<DetectedShell>) -> Option<(ShellType, Seq<char>)> {
    match o {
        Some(d) => Some(d@),
        None => None,
    }
}

/// The Git Bash hint for a requested `bash` path: a path with more than one
/// component, or an absolute one, is taken as the configured location; a bare name
/// such as `bash` asks for a search.
pub open spec fn spec_bash_hint(p: Option<Seq<char>>) -> Option<Seq<char>> {
    match p {
        Some(q) => if path_model::spec_several_components(win(), q) || path_model::spec_is_absolute(
            win(),
            q,
        ) {
            Some(q)
        } else {
            None
        },
        None => None,
    }
}

pub open spec fn spec_get_zsh_shell(host: &HostEnvironment, provided: Option<Seq<char>>) -> Option<
    (ShellType, Seq<char>),
> {
    spec_detected(
        ShellType::Zsh,
        spec_get_shell_path(host, ShellType::Zsh, provided, "zsh"@, spec_zsh_fallbacks()),
    )
}

/// On Windows `bash` means Git for Windows' Bash.
pub open spec fn spec_get_bash_shell(host: &HostEnvironment, provided: Option<Seq<char>>) -> Option<
    (ShellType, Seq<char>),
> {
    if host.os == HostOs::Windows {
        match spec_find_git_bash(host, spec_bash_hint(provided)) {
            Ok(g) => Some(g.0),
            Err(_) => None,
        }
    } else {
        spec_detected(
            ShellType::Bash,
            spec_get_shell_path(host, ShellType::Bash, provided, "bash"@, spec_bash_fallbacks()),
        )
    }
}

pub open spec fn spec_get_sh_shell(host: &HostEnvironment, provided: Option<Seq<char>>) -> Option<
    (ShellType, Seq<char>),
> {
    spec_detected(
        ShellType::Sh,
        spec_get_shell_path(host, ShellType::Sh, provided, "sh"@, spec_sh_fallbacks()),
    )
}

/// `pwsh` is preferred to Windows PowerShell.
pub open spec fn spec_get_powershell_shell(
    host: &HostEnvironment,
    provided: Option<Seq<char>>,
) -> Option<(ShellType, Seq<char>)> {
    match spec_get_shell_path(
        host,
        ShellType::PowerShell,
        provided,
        "pwsh"@,
        spec_pwsh_fallbacks(host.os),
    ) {
        Some(p) => Some((ShellType::PowerShell, p)),
        None => spec_detected(
            ShellType::PowerShell,
            spec_get_shell_path(
                host,
                ShellType::PowerShell,
                provided,
                "powershell"@,
                spec_powershell_fallbacks(host.os),
            ),
        ),
    }
}

pub open spec fn spec_get_cmd_shell(host: &HostEnvironment, provided: Option<Seq<char>>) -> Option<
    (ShellType, Seq<char>),
> {
    spec_detected(
        ShellType::Cmd,
        spec_get_shell_path(host, ShellType::Cmd, provided, "cmd"@, Seq::empty()),
    )
}

pub open spec fn spec_get_shell(
    host: &HostEnvironment,
    t: ShellType,
    provided: Option<Seq<char>>,
) -> Option<(ShellType, Seq<char>)> {
    match t {
        ShellType::Zsh => spec_get_zsh_shell(host, provided),
        ShellType::Bash => spec_get_bash_shell(host, provided),
        ShellType::PowerShell => spec_get_powershell_shell(host, provided),
        ShellType::Sh => spec_get_sh_shell(host, provided),
        ShellType::Cmd => spec_get_cmd_shell(host, provided),
    }
}

fn detected(shell_type: ShellType, p: Option<String>) -> (r: Option<DetectedShell>)
    ensures
        opt_detected_view(r) == spec_detected(shell_type, match p {
            Some(q) => Some(q@),
            None => None,
        }),
{
    match p {
        Some(shell_path) => Some(DetectedShell { shell_type, shell_path }),
        None => None,
    }
}

fn get_zsh_shell(path: Option<&str>, host: &HostEnvironment) -> (r: Option<DetectedShell>)
    ensures
        opt_detected_view(r) == spec_get_zsh_shell(host, opt_str_view(path)),
{
    let fallbacks = zsh_fallback_paths();
    let p = get_shell_path(host, ShellType::Zsh, path, "zsh", fallbacks.as_slice());
    detected(ShellType::Zsh, p)
}

fn git_bash_path_hint_for_bash(path: Option<&str>) -> (r: GitBashPathHint)
    ensures
        hint_view(r) == spec_bash_hint(opt_str_view(path)),
{
    match path {
        Some(p) => {
            if path_has_several_components(PathConvention::Windows, p) || path_is_absolute(
                PathConvention::Windows,
                p,
            ) {
                GitBashPathHint::Configured(p.to_string())
            } else {
                GitBashPathHint::SearchPath
            }
        },
        None => GitBashPathHint::SearchPath,
    }
}

fn get_bash_shell(path: Option<&str>, host: &HostEnvironment) -> (r: Option<DetectedShell>)
    ensures
        opt_detected_view(r) == spec_get_bash_shell(host, opt_str_view(path)),
{
    if host.is_windows() {
        match find_git_bash_shell(git_bash_path_hint_for_bash(path), host) {
            Ok(git_bash) => Some(git_bash.shell),
            Err(_) => None,
        }
    } else {
        let fallbacks = bash_fallback_paths();
        let p = get_shell_path(host, ShellType::Bash, path, "bash", fallbacks.as_slice());
        detected(ShellType::Bash, p)
    }
}

fn get_sh_shell(path: Option<&str>, host: &HostEnvironment) -> (r: Option<DetectedShell>)
    ensures
        opt_detected_view(r) == spec_get_sh_shell(host, opt_str_view(path)),
{
    let fallbacks = sh_fallback_paths();
    let p = get_shell_path(host, ShellType::Sh, path, "sh", fallbacks.as_slice());
    detected(ShellType::Sh, p)
}

fn get_powershell_shell(path: Option<&str>, host: &HostEnvironment) -> (r: Option<DetectedShell>)
    ensures
        opt_detected_view(r) == spec_get_powershell_shell(host, opt_str_view(path)),
{
    let pwsh_fallbacks = pwsh_fallback_paths(host);
    let first = get_shell_path(host, ShellType::PowerShell, path, "pwsh", pwsh_fallbacks.as_slice());
    let shell_path = match first {
        Some(p) => Some(p),
        None => {
            let powershell_fallbacks = powershell_fallback_paths(host);
            get_shell_path(
                host,
                ShellType::PowerShell,
                path,
                "powershell",
                powershell_fallbacks.as_slice(),
            )
        },
    };
    detected(ShellType::PowerShell, shell_path)
}

fn get_cmd_shell(path: Option<&str>, host: &HostEnvironment) -> (r: Option<DetectedShell>)
    ensures
        opt_detected_view(r) == spec_get_cmd_shell(host, opt_str_view(path)),
{
    let fallbacks: Vec<&'static str> = Vec::new();
    assert(fallbacks.deep_view() =~= Seq::<Seq<char>>::empty());
    let p = get_shell_path(host, ShellType::Cmd, path, "cmd", fallbacks.as_slice());
    detected(ShellType::Cmd, p)
}

/// The shell of kind `shell_type` at `path`, or found on the machine.
pub fn get_shell(shell_type: ShellType, path: Option<&str>, host: &HostEnvironment) -> (r: Option<
    DetectedShell,
>)
    ensures
        opt_detected_view(r) == spec_get_shell(host, shell_type, opt_str_view(path)),
{
    match shell_type {
        ShellType::Zsh => get_zsh_shell(path, host),
        ShellType::Bash => get_bash_shell(path, host),
        ShellType::PowerShell => get_powershell_shell(path, host),
        ShellType::Sh => get_sh_shell(path, host),
        ShellType::Cmd => get_cmd_shell(path, host),
    }
}

/// `cmd.exe` on Windows, `/bin/sh` elsewhere.
pub open spec fn spec_ultimate_fallback(os: HostOs) -> (ShellType, Seq<char>) {
    if os == HostOs::Windows {
        (ShellType::Cmd, "cmd.exe"@)
    } else {
        (ShellType::Sh, "/bin/sh"@)
    }
}

/// The shell used when no other can be found.
pub fn ultimate_fallback_shell(host: &HostEnvironment) -> (r: DetectedShell)
    ensures
        r@ == spec_ultimate_fallback(host.os),
{
    if host.is_windows() {
        DetectedShell { shell_type: ShellType::Cmd, shell_path: "cmd.exe".to_string() }
    } else {
        DetectedShell { shell_type: ShellType::Sh, shell_path: "/bin/sh".to_string() }
    }
}

pub open spec fn or_else(
    a: Option<(ShellType, Seq<char>)>,
    b: Option<(ShellType, Seq<char>)>,
) -> Option<(ShellType, Seq<char>)> {
    if a is Some {
        a
    } else {
        b
    }
}

/// The default shell: PowerShell on Windows; elsewhere the user's login shell if it is
/// recognised and found, then zsh before bash on macOS and bash before zsh on other
/// systems; the ultimate fallback when none is found.
pub open spec fn spec_default_user_shell_from_path(
    host: &HostEnvironment,
    user_shell_path: Option<Seq<char>>,
) -> (ShellType, Seq<char>) {
    if host.os == HostOs::Windows {
        match spec_get_shell(host, ShellType::PowerShell, None) {
            Some(s) => s,
            None => spec_ultimate_fallback(host.os),
        }
    } else {
        let user_default = match user_shell_path {
            Some(p) => match spec_detect_shell_type(host_conv(host.os), p) {
                Some(t) => spec_get_shell(host, t, None),
                None => None,
            },
            None => None,
        };
        let chosen = if host.os == HostOs::MacOs {
            or_else(
                user_default,
                or_else(
                    spec_get_shell(host, ShellType::Zsh, None),
                    spec_get_shell(host, ShellType::Bash, None),
                ),
            )
        } else {
            or_else(
                user_default,
                or_else(
                    spec_get_shell(host, ShellType::Bash, None),
                    spec_get_shell(host, ShellType::Zsh, None),
                ),
            )
        };
        match chosen {
            Some(s) => s,
            None => spec_ultimate_fallback(host.os),
        }
    }
}

/// The default shell, judged from the given login shell path.
pub fn default_user_shell_from_path(user_shell_path: Option<&str>, host: &HostEnvironment) -> (r:
    DetectedShell)
    ensures
        r@ == spec_default_user_shell_from_path(host, opt_str_view(user_shell_path)),
{
    if host.is_windows() {
        return match get_shell(ShellType::PowerShell, None, host) {
            Some(s) => s,
            None => ultimate_fallback_shell(host),
        };
    }
    let user_default = match user_shell_path {
        Some(p) => match detect_shell_type(p, host.conv()) {
            Some(t) => get_shell(t, None, host),
            None => None,
        },
        None => None,
    };
    let (first, second) = if matches!(host.os, HostOs::MacOs) {
        (ShellType::Zsh, ShellType::Bash)
    } else {
        (ShellType::Bash, ShellType::Zsh)
    };
    let chosen = match user_default {
        Some(s) => Some(s),
        None => match get_shell(first, None, host) {
            Some(s) => Some(s),
            None => get_shell(second, None, host),
        },
    };
    match chosen {
        Some(s) => s,
        None => ultimate_fallback_shell(host),
    }
}

/// The default shell, judged from the login shell recorded for the user.
pub fn default_user_shell(host: &HostEnvironment) -> (r: DetectedShell)
    ensures
        r@ == spec_default_user_shell_from_path(
            host,
            match host.user_shell_path {
                Some(p) => Some(p@),
                None => None,
            },
        ),
{
    match &host.user_shell_path {
        Some(p) => default_user_shell_from_path(Some(p.as_str()), host),
        None => default_user_shell_from_path(None, host),
    }
}

// ---------------------------------------------------------------------------
// Shells that the model asks for
// ---------------------------------------------------------------------------

pub open spec fn msg_unsupported_shell(p: Seq<char>) -> Seq<char> {
    "unsupported shell `"@ + p + "`; expected zsh, bash, powershell, pwsh, sh, or cmd"@
}

pub open spec fn msg_unresolved_bash(p: Seq<char>, e: (Seq<char>, Seq<Seq<char>>)) -> Seq<char> {
    "could not resolve requested bash shell `"@ + p + "`: "@ + spec_discovery_error_text(e)
}

pub open spec fn msg_unresolved_shell(p: Seq<char>) -> Seq<char> {
    "could not resolve requested shell `"@ + p + "`"@
}

pub open spec fn detected_result_view(r: Result<DetectedShell, ShellResolutionError>) -> Result<
    (ShellType, Seq<char>),
    Seq<char>,
> {
    match r {
        Ok(d) => Ok(d@),
        Err(e) => Err(e@),
    }
}

/// A requested shell of kind `t` at `p`: on Windows a requested `bash` must be Git for
/// Windows' Bash; any other request is looked up like `get_shell` does.
pub open spec fn spec_resolve_model_provided_shell(
    host: &HostEnvironment,
    t: ShellType,
    p: Seq<char>,
) -> Result<(ShellType, Seq<char>), Seq<char>> {
    if host.os == HostOs::Windows && t == ShellType::Bash {
        match spec_find_git_bash(host, spec_bash_hint(Some(p))) {
            Ok(g) => Ok(g.0),
            Err(e) => Err(msg_unresolved_bash(p, e)),
        }
    } else {
        match spec_get_shell(host, t, Some(p)) {
            Some(s) => Ok(s),
            None => Err(msg_unresolved_shell(p)),
        }
    }
}

pub open spec fn spec_shell_by_model_provided_path(host: &HostEnvironment, p: Seq<char>) -> Result<
    (ShellType, Seq<char>),
    Seq<char>,
> {
    match spec_detect_shell_type(host_conv(host.os), p) {
        Some(t) => spec_resolve_model_provided_shell(host, t, p),
        None => Err(msg_unsupported_shell(p)),
    }
}

fn resolve_model_provided_shell(
    shell_type: ShellType,
    shell_path: &str,
    host: &HostEnvironment,
) -> (r: Result<DetectedShell, ShellResolutionError>)
    ensures
        detected_result_view(r) == spec_resolve_model_provided_shell(host, shell_type, shell_path@),
{
    if host.is_windows() && shell_type == ShellType::Bash {
        return match find_git_bash_shell(git_bash_path_hint_for_bash(Some(shell_path)), host) {
            Ok(git_bash) => Ok(git_bash.shell),
            Err(err) => {
                let mut m = String::new();
                m.append("could not resolve requested bash shell `");
                m.append(shell_path);
                m.append("`: ");
                let text = err.to_string();
                m.append(text.as_str());
                assert(m@ =~= msg_unresolved_bash(shell_path@, err@));
                Err(ShellResolutionError::new(m))
            },
        };
    }
    match get_shell(shell_type, Some(shell_path), host) {
        Some(s) => Ok(s),
        None => {
            let m = message_around("could not resolve requested shell `", shell_path, "`");
            Err(ShellResolutionError::new(m))
        },
    }
}

/// The shell at a path that the model asked for.
pub fn get_shell_by_model_provided_path(shell_path: &str, host: &HostEnvironment) -> (r: Result<
    DetectedShell,
    ShellResolutionError,
>)
    ensures
        detected_result_view(r) == spec_shell_by_model_provided_path(host, shell_path@),
{
    match detect_shell_type(shell_path, host.conv()) {
        Some(shell_type) => resolve_model_provided_shell(shell_type, shell_path, host),
        None => {
            let m = message_around(
                "unsupported shell `",
                shell_path,
                "`; expected zsh, bash, powershell, pwsh, sh, or cmd",
            );
            Err(ShellResolutionError::new(m))
        },
    }
}


// ---------------------------------------------------------------------------
// Laws
// ---------------------------------------------------------------------------

proof fn lemma_first_git_bash_is_installed(host: &HostEnvironment, cs: Seq<Seq<char>>)
    ensures
        spec_first_git_bash(host, cs) matches Some(g) ==> {
            &&& g.0.0 == ShellType::Bash
            &&& cs.contains(g.0.1)
            &&& spec_file_exists(host, g.0.1)
            &&& spec_root_from_bash(host, g.0.1) == Some(g.1)
        },
    decreases cs.len(),
{
    if cs.len() > 0 {
        if !(spec_file_exists(host, cs[0]) && spec_root_from_bash(host, cs[0]) is Some) {
            lemma_first_git_bash_is_installed(host, cs.drop_first());
            if let Some(g) = spec_first_git_bash(host, cs.drop_first()) {
                let j = choose|j: int| 0 <= j < cs.drop_first().len() && cs.drop_first()[j] == g.0.1;
                assert(cs[j + 1] == g.0.1);
            }
        } else {
            assert(cs[0] == cs[0]);
        }
    }
}

/// Every Git Bash that discovery returns is Git for Windows' Bash: a `bash` executable
/// that exists, in an installation that holds `cmd\git.exe` and `usr\bin\msys-2.0.dll`.
pub proof fn lemma_found_git_bash_is_git_for_windows(host: &HostEnvironment, hint: Option<Seq<char>>)
    ensures
        spec_find_git_bash(host, hint) matches Ok(g) ==> {
            &&& host.os == HostOs::Windows
            &&& g.0.0 == ShellType::Bash
            &&& spec_file_exists(host, g.0.1)
            &&& spec_root_from_bash(host, g.0.1) == Some(g.1)
            &&& spec_file_exists(host, spec_git_exe_of_root(g.1))
            &&& spec_file_exists(host, spec_msys_dll_of_root(g.1))
        },
{
    lemma_first_git_bash_is_installed(host, spec_search_candidates(host));
}

/// A configured Git Bash location is used or rejected, never replaced by a search: when
/// it does not lead to Git for Windows' Bash, discovery fails and names that location.
pub proof fn lemma_configured_git_bash_is_not_replaced(host: &HostEnvironment, p: Seq<char>)
    requires
        host.os == HostOs::Windows,
    ensures
        spec_find_git_bash(host, Some(p)) matches Ok(g) ==> g.0.1 == p,
        spec_find_git_bash(host, Some(p)) is Err <==> (!path_model::spec_is_absolute(win(), p)
            || !spec_file_exists(host, p) || spec_root_from_bash(host, p) is None),
        spec_find_git_bash(host, Some(p)) matches Err(e) ==> e.1 == seq![p],
{
}

/// On Windows a requested `bash` is Git for Windows' Bash or an error; it never
/// resolves to another kind of shell.
pub proof fn lemma_requested_bash_stays_bash(host: &HostEnvironment, p: Seq<char>)
    requires
        host.os == HostOs::Windows,
        spec_detect_shell_type(host_conv(host.os), p) == Some(ShellType::Bash),
    ensures
        spec_shell_by_model_provided_path(host, p) matches Ok(s) ==> s.0 == ShellType::Bash,
{
    lemma_found_git_bash_is_git_for_windows(host, spec_bash_hint(Some(p)));
}

/// A shell that `get_shell` finds is of the kind asked for.
pub proof fn lemma_get_shell_kind(host: &HostEnvironment, t: ShellType, provided: Option<Seq<char>>)
    ensures
        spec_get_shell(host, t, provided) matches Some(s) ==> s.0 == t,
{
    lemma_found_git_bash_is_git_for_windows(host, spec_bash_hint(provided));
}

/// A shell resolved for the model's request is of the kind that its path names.
pub proof fn lemma_model_provided_shell_kind(host: &HostEnvironment, p: Seq<char>)
    ensures
        spec_shell_by_model_provided_path(host, p) matches Ok(s) ==> Some(s.0)
            == spec_detect_shell_type(host_conv(host.os), p),
{
    if let Some(t) = spec_detect_shell_type(host_conv(host.os), p) {
        lemma_get_shell_kind(host, t, Some(p));
        lemma_found_git_bash_is_git_for_windows(host, spec_bash_hint(Some(p)));
    }
}

/// On Windows, `bash` is only ever Git for Windows' Bash: a Bash shell found there is an
/// existing file inside an installation that holds `cmd\git.exe` and
/// `usr\bin\msys-2.0.dll`.
pub proof fn lemma_windows_bash_is_git_for_windows(host: &HostEnvironment, provided: Option<Seq<char>>)
    requires
        host.os == HostOs::Windows,
    ensures
        spec_get_shell(host, ShellType::Bash, provided) matches Some(s) ==> {
            &&& spec_file_exists(host, s.1)
            &&& spec_root_from_bash(host, s.1) is Some
        },
{
    lemma_found_git_bash_is_git_for_windows(host, spec_bash_hint(provided));
}

// ---------------------------------------------------------------------------
// What detection reads of the file system
// ---------------------------------------------------------------------------

/// Two descriptions of a host that differ at most in whether files outside `paths`
/// exist.
pub open spec fn hosts_agree_on(h1: &HostEnvironment, h2: &HostEnvironment, paths: Seq<Seq<char>>) -> bool {
    &&& h1.os == h2.os
    &&& h1.which_results@ == h2.which_results@
    &&& h1.user_shell_path == h2.user_shell_path
    &&& forall|p: Seq<char>| #[trigger]
        paths.contains(p) ==> spec_file_exists(h1, p) == spec_file_exists(h2, p)
}

proof fn lemma_contains_add(a: Seq<Seq<char>>, b: Seq<Seq<char>>, e: Seq<char>)
    ensures
        (a.contains(e) || b.contains(e)) ==> (a + b).contains(e),
{
    if a.contains(e) {
        let j = choose|j: int| 0 <= j < a.len() && a[j] == e;
        assert((a + b)[j] == e);
    } else if b.contains(e) {
        let j = choose|j: int| 0 <= j < b.len() && b[j] == e;
        assert((a + b)[a.len() + j] == e);
    }
}

proof fn lemma_base_contains(host: &HostEnvironment, extra: Seq<Seq<char>>, e: Seq<char>)
    ensures
        (spec_zsh_fallbacks().contains(e) || spec_bash_fallbacks().contains(e)
            || spec_sh_fallbacks().contains(e) || spec_pwsh_fallbacks(host.os).contains(e)
            || spec_powershell_fallbacks(host.os).contains(e) || spec_opt_path(
            host.user_shell_path,
        ).contains(e) || extra.contains(e) || spec_search_candidates(host).contains(e))
            ==> spec_probe_base(host, extra).contains(e),
{
    let a = spec_zsh_fallbacks();
    let b = spec_bash_fallbacks();
    let c = spec_sh_fallbacks();
    let d = spec_pwsh_fallbacks(host.os);
    let f = spec_powershell_fallbacks(host.os);
    let g = spec_which_paths(host.which_results@);
    let u = spec_opt_path(host.user_shell_path);
    let k = spec_search_candidates(host);
    lemma_contains_add(a, b, e);
    lemma_contains_add(a + b, c, e);
    lemma_contains_add(a + b + c, d, e);
    lemma_contains_add(a + b + c + d, f, e);
    lemma_contains_add(a + b + c + d + f, g, e);
    lemma_contains_add(a + b + c + d + f + g, u, e);
    lemma_contains_add(a + b + c + d + f + g + u, extra, e);
    lemma_contains_add(a + b + c + d + f + g + u + extra, k, e);
}

proof fn lemma_markers_of_all_contains(s: Seq<Seq<char>>, i: int, m: Seq<char>)
    requires
        0 <= i < s.len(),
        spec_marker_files(s[i]).contains(m),
    ensures
        spec_markers_of_all(s).contains(m),
    decreases s.len(),
{
    if i == s.len() - 1 {
        lemma_contains_add(spec_markers_of_all(s.drop_last()), spec_marker_files(s.last()), m);
    } else {
        lemma_markers_of_all_contains(s.drop_last(), i, m);
        lemma_contains_add(spec_markers_of_all(s.drop_last()), spec_marker_files(s.last()), m);
    }
}

/// A path of the probe base exists on both hosts alike, and so does the Git for
/// Windows installation it would belong to.
proof fn lemma_base_path_agrees(
    h1: &HostEnvironment,
    h2: &HostEnvironment,
    extra: Seq<Seq<char>>,
    e: Seq<char>,
)
    requires
        hosts_agree_on(h1, h2, spec_paths_to_probe(h1, extra)),
        spec_probe_base(h1, extra).contains(e),
    ensures
        spec_file_exists(h1, e) == spec_file_exists(h2, e),
        spec_root_from_bash(h1, e) == spec_root_from_bash(h2, e),
{
    let base = spec_probe_base(h1, extra);
    let markers = spec_markers_of_all(base);
    lemma_contains_add(base, markers, e);
    assert(spec_paths_to_probe(h1, extra).contains(e));
    if let Some(r) = spec_root_candidate_from_bash(e) {
        let i = choose|i: int| 0 <= i < base.len() && base[i] == e;
        let ms = spec_marker_files(e);
        assert(ms[0] == spec_git_exe_of_root(r));
        assert(ms[1] == spec_msys_dll_of_root(r));
        assert(ms.contains(spec_git_exe_of_root(r)));
        assert(ms.contains(spec_msys_dll_of_root(r)));
        lemma_markers_of_all_contains(base, i, spec_git_exe_of_root(r));
        lemma_markers_of_all_contains(base, i, spec_msys_dll_of_root(r));
        lemma_contains_add(base, markers, spec_git_exe_of_root(r));
        lemma_contains_add(base, markers, spec_msys_dll_of_root(r));
        assert(spec_paths_to_probe(h1, extra).contains(spec_git_exe_of_root(r)));
        assert(spec_paths_to_probe(h1, extra).contains(spec_msys_dll_of_root(r)));
    }
}

proof fn lemma_first_existing_agrees(
    h1: &HostEnvironment,
    h2: &HostEnvironment,
    extra: Seq<Seq<char>>,
    fs: Seq<Seq<char>>,
)
    requires
        hosts_agree_on(h1, h2, spec_paths_to_probe(h1, extra)),
        forall|i: int| 0 <= i < fs.len() ==> spec_probe_base(h1, extra).contains(#[trigger] fs[i]),
    ensures
        spec_first_existing(h1, fs) == spec_first_existing(h2, fs),
    decreases fs.len(),
{
    if fs.len() > 0 {
        lemma_base_path_agrees(h1, h2, extra, fs[0]);
        assert forall|i: int| 0 <= i < fs.drop_first().len() implies spec_probe_base(
            h1,
            extra,
        ).contains(#[trigger] fs.drop_first()[i]) by {
            assert(fs.drop_first()[i] == fs[i + 1]);
        }
        lemma_first_existing_agrees(h1, h2, extra, fs.drop_first());
    }
}

proof fn lemma_first_git_bash_agrees(
    h1: &HostEnvironment,
    h2: &HostEnvironment,
    extra: Seq<Seq<char>>,
    cs: Seq<Seq<char>>,
)
    requires
        hosts_agree_on(h1, h2, spec_paths_to_probe(h1, extra)),
        forall|i: int| 0 <= i < cs.len() ==> spec_probe_base(h1, extra).contains(#[trigger] cs[i]),
    ensures
        spec_first_git_bash(h1, cs) == spec_first_git_bash(h2, cs),
    decreases cs.len(),
{
    if cs.len() > 0 {
        lemma_base_path_agrees(h1, h2, extra, cs[0]);
        assert forall|i: int| 0 <= i < cs.drop_first().len() implies spec_probe_base(
            h1,
            extra,
        ).contains(#[trigger] cs.drop_first()[i]) by {
            assert(cs.drop_first()[i] == cs[i + 1]);
        }
        lemma_first_git_bash_agrees(h1, h2, extra, cs.drop_first());
    }
}

proof fn lemma_part_in_base(host: &HostEnvironment, extra: Seq<Seq<char>>, part: Seq<Seq<char>>)
    requires
        part == spec_zsh_fallbacks() || part == spec_bash_fallbacks() || part
            == spec_sh_fallbacks() || part == spec_pwsh_fallbacks(host.os) || part
            == spec_powershell_fallbacks(host.os) || part == extra || part
            == spec_search_candidates(host),
    ensures
        forall|i: int| 0 <= i < part.len() ==> spec_probe_base(host, extra).contains(#[trigger] part[i]),
{
    assert forall|i: int| 0 <= i < part.len() implies spec_probe_base(host, extra).contains(
        #[trigger] part[i],
    ) by {
        assert(part.contains(part[i]));
        lemma_base_contains(host, extra, part[i]);
    }
}

proof fn lemma_extra_path_in_base(host: &HostEnvironment, extra: Seq<Seq<char>>, p: Seq<char>)
    requires
        extra.contains(p),
    ensures
        spec_probe_base(host, extra).contains(p),
{
    lemma_base_contains(host, extra, p);
}

proof fn lemma_get_shell_path_agrees(
    h1: &HostEnvironment,
    h2: &HostEnvironment,
    extra: Seq<Seq<char>>,
    t: ShellType,
    provided: Option<Seq<char>>,
    binary: Seq<char>,
    fallbacks: Seq<Seq<char>>,
)
    requires
        hosts_agree_on(h1, h2, spec_paths_to_probe(h1, extra)),
        provided matches Some(p) ==> extra.contains(p),
        forall|i: int|
            0 <= i < fallbacks.len() ==> spec_probe_base(h1, extra).contains(#[trigger] fallbacks[i]),
    ensures
        spec_get_shell_path(h1, t, provided, binary, fallbacks) == spec_get_shell_path(
            h2,
            t,
            provided,
            binary,
            fallbacks,
        ),
{
    if let Some(p) = provided {
        lemma_extra_path_in_base(h1, extra, p);
        lemma_base_path_agrees(h1, h2, extra, p);
    }
    if let Some(u) = h1.user_shell_path {
        assert(spec_opt_path(h1.user_shell_path)[0] == u@);
        assert(spec_opt_path(h1.user_shell_path).contains(u@));
        lemma_base_contains(h1, extra, u@);
        lemma_base_path_agrees(h1, h2, extra, u@);
    }
    lemma_first_existing_agrees(h1, h2, extra, fallbacks);
}

proof fn lemma_find_git_bash_agrees(
    h1: &HostEnvironment,
    h2: &HostEnvironment,
    extra: Seq<Seq<char>>,
    hint: Option<Seq<char>>,
)
    requires
        hosts_agree_on(h1, h2, spec_paths_to_probe(h1, extra)),
        hint matches Some(p) ==> extra.contains(p),
    ensures
        spec_find_git_bash(h1, hint) == spec_find_git_bash(h2, hint),
{
    assert(spec_search_candidates(h1) == spec_search_candidates(h2));
    if let Some(p) = hint {
        lemma_extra_path_in_base(h1, extra, p);
        lemma_base_path_agrees(h1, h2, extra, p);
    } else {
        lemma_part_in_base(h1, extra, spec_search_candidates(h1));
        lemma_first_git_bash_agrees(h1, h2, extra, spec_search_candidates(h1));
    }
}

proof fn lemma_bash_hint_in_extra(extra: Seq<Seq<char>>, provided: Option<Seq<char>>)
    requires
        provided matches Some(p) ==> extra.contains(p),
    ensures
        spec_bash_hint(provided) matches Some(p) ==> extra.contains(p),
{
}

proof fn lemma_get_shell_agrees(
    h1: &HostEnvironment,
    h2: &HostEnvironment,
    extra: Seq<Seq<char>>,
    t: ShellType,
    provided: Option<Seq<char>>,
)
    requires
        hosts_agree_on(h1, h2, spec_paths_to_probe(h1, extra)),
        provided matches Some(p) ==> extra.contains(p),
    ensures
        spec_get_shell(h1, t, provided) == spec_get_shell(h2, t, provided),
{
    lemma_part_in_base(h1, extra, spec_zsh_fallbacks());
    lemma_part_in_base(h1, extra, spec_bash_fallbacks());
    lemma_part_in_base(h1, extra, spec_sh_fallbacks());
    lemma_part_in_base(h1, extra, spec_pwsh_fallbacks(h1.os));
    lemma_part_in_base(h1, extra, spec_powershell_fallbacks(h1.os));
    match t {
        ShellType::Zsh => {
            lemma_get_shell_path_agrees(h1, h2, extra, t, provided, "zsh"@, spec_zsh_fallbacks());
        },
        ShellType::Bash => {
            lemma_bash_hint_in_extra(extra, provided);
            lemma_find_git_bash_agrees(h1, h2, extra, spec_bash_hint(provided));
            lemma_get_shell_path_agrees(h1, h2, extra, t, provided, "bash"@, spec_bash_fallbacks());
        },
        ShellType::Sh => {
            lemma_get_shell_path_agrees(h1, h2, extra, t, provided, "sh"@, spec_sh_fallbacks());
        },
        ShellType::PowerShell => {
            lemma_get_shell_path_agrees(
                h1,
                h2,
                extra,
                t,
                provided,
                "pwsh"@,
                spec_pwsh_fallbacks(h1.os),
            );
            lemma_get_shell_path_agrees(
                h1,
                h2,
                extra,
                t,
                provided,
                "powershell"@,
                spec_powershell_fallbacks(h1.os),
            );
        },
        ShellType::Cmd => {
            lemma_get_shell_path_agrees(h1, h2, extra, t, provided, "cmd"@, Seq::empty());
        },
    }
}

/// Git Bash discovery reads the file system only at the paths that `paths_to_probe`
/// lists: two hosts that agree on those (and on `which` and the login shell) give the
/// same result, for a search and for a configured path among `extra`.
pub proof fn lemma_git_bash_discovery_reads_only_probed_paths(
    h1: &HostEnvironment,
    h2: &HostEnvironment,
    extra: Seq<Seq<char>>,
    hint: Option<Seq<char>>,
)
    requires
        hosts_agree_on(h1, h2, spec_paths_to_probe(h1, extra)),
        hint matches Some(p) ==> extra.contains(p),
    ensures
        spec_find_git_bash(h1, hint) == spec_find_git_bash(h2, hint),
{
    lemma_find_git_bash_agrees(h1, h2, extra, hint);
}

/// Finding a shell of a given kind reads the file system only at the paths that
/// `paths_to_probe` lists, for no path or a path among `extra`.
pub proof fn lemma_get_shell_reads_only_probed_paths(
    h1: &HostEnvironment,
    h2: &HostEnvironment,
    extra: Seq<Seq<char>>,
    t: ShellType,
    provided: Option<Seq<char>>,
)
    requires
        hosts_agree_on(h1, h2, spec_paths_to_probe(h1, extra)),
        provided matches Some(p) ==> extra.contains(p),
    ensures
        spec_get_shell(h1, t, provided) == spec_get_shell(h2, t, provided),
{
    lemma_get_shell_agrees(h1, h2, extra, t, provided);
}

/// The default shell depends on the file system only at the paths that
/// `paths_to_probe` lists.
pub proof fn lemma_default_shell_reads_only_probed_paths(
    h1: &HostEnvironment,
    h2: &HostEnvironment,
    extra: Seq<Seq<char>>,
    user_shell_path: Option<Seq<char>>,
)
    requires
        hosts_agree_on(h1, h2, spec_paths_to_probe(h1, extra)),
    ensures
        spec_default_user_shell_from_path(h1, user_shell_path) == spec_default_user_shell_from_path(
            h2,
            user_shell_path,
        ),
{
    lemma_get_shell_agrees(h1, h2, extra, ShellType::PowerShell, None);
    lemma_get_shell_agrees(h1, h2, extra, ShellType::Zsh, None);
    lemma_get_shell_agrees(h1, h2, extra, ShellType::Bash, None);
    lemma_get_shell_agrees(h1, h2, extra, ShellType::Sh, None);
    lemma_get_shell_agrees(h1, h2, extra, ShellType::Cmd, None);
}

/// The shell at a path that a model names (among `extra`) depends on the file system
/// only at the paths that `paths_to_probe` lists.
pub proof fn lemma_model_shell_reads_only_probed_paths(
    h1: &HostEnvironment,
    h2: &HostEnvironment,
    extra: Seq<Seq<char>>,
    p: Seq<char>,
)
    requires
        hosts_agree_on(h1, h2, spec_paths_to_probe(h1, extra)),
        extra.contains(p),
    ensures
        spec_shell_by_model_provided_path(h1, p) == spec_shell_by_model_provided_path(h2, p),
{
    if let Some(t) = spec_detect_shell_type(host_conv(h1.os), p) {
        lemma_get_shell_agrees(h1, h2, extra, t, Some(p));
        lemma_bash_hint_in_extra(extra, Some(p));
        lemma_find_git_bash_agrees(h1, h2, extra, spec_bash_hint(Some(p)));
    }
}

// ---------------------------------------------------------------------------
// Where a found shell comes from
// ---------------------------------------------------------------------------

proof fn lemma_first_existing_is_existing_fallback(host: &HostEnvironment, fs: Seq<Seq<char>>)
    ensures
        spec_first_existing(host, fs) matches Some(p) ==> fs.contains(p) && spec_file_exists(host, p),
        spec_first_existing(host, fs) is None ==> forall|i: int|
            0 <= i < fs.len() ==> !spec_file_exists(host, #[trigger] fs[i]),
    decreases fs.len(),
{
    if fs.len() > 0 {
        lemma_first_existing_is_existing_fallback(host, fs.drop_first());
        if spec_file_exists(host, fs[0]) {
            assert(fs[0] == fs[0]);
        } else {
            if let Some(p) = spec_first_existing(host, fs.drop_first()) {
                let j = choose|j: int| 0 <= j < fs.drop_first().len() && fs.drop_first()[j] == p;
                assert(fs[j + 1] == p);
            } else {
                assert forall|i: int| 0 <= i < fs.len() implies !spec_file_exists(
                    host,
                    #[trigger] fs[i],
                ) by {
                    if i > 0 {
                        assert(fs[i] == fs.drop_first()[i - 1]);
                    }
                }
            }
        }
    }
}

/// A shell path found for kind `t` is one of: the provided path, when it exists; the
/// login shell, only when it exists and is itself a shell of kind `t`; what `which`
/// finds for the binary; or an existing fallback location. In particular a login shell
/// of another kind is never returned unless `which` or the fallbacks give it.
pub proof fn lemma_shell_path_sources(
    host: &HostEnvironment,
    t: ShellType,
    provided: Option<Seq<char>>,
    binary: Seq<char>,
    fallbacks: Seq<Seq<char>>,
)
    ensures
        spec_get_shell_path(host, t, provided, binary, fallbacks) matches Some(p) ==> {
            ||| (provided == Some(p) && spec_file_exists(host, p))
            ||| (host.user_shell_path matches Some(u) && u@ == p && spec_detect_shell_type(
                host_conv(host.os),
                p,
            ) == Some(t) && spec_file_exists(host, p))
            ||| spec_which(host, binary) == Some(p)
            ||| (fallbacks.contains(p) && spec_file_exists(host, p))
        },
        spec_get_shell_path(host, t, None, binary, fallbacks) matches Some(p) ==> (
        host.user_shell_path matches Some(u) && u@ == p && spec_which(host, binary) != Some(p)
            && !fallbacks.contains(p) ==> spec_detect_shell_type(host_conv(host.os), p) == Some(
            t,
        )),
        spec_get_shell_path(host, t, provided, binary, fallbacks) is None ==> {
            &&& spec_which(host, binary) is None
            &&& forall|i: int| 0 <= i < fallbacks.len() ==> !spec_file_exists(host, #[trigger] fallbacks[i])
        },
{
    lemma_first_existing_is_existing_fallback(host, fallbacks);
}

/// What `which` finds for `bash`, and every default install location, is among the Git
/// Bash search candidates (up to letter case, the way repeats are dropped).
pub proof fn lemma_search_candidates_cover_path_and_defaults(host: &HostEnvironment)
    ensures
        spec_which(host, "bash"@) matches Some(b) ==> seq_has(
            keys_of(spec_search_candidates(host)),
            str_to_lowercase(b),
        ),
        forall|i: int|
            0 <= i < spec_default_git_bash_locations().len() ==> seq_has(
                keys_of(spec_search_candidates(host)),
                str_to_lowercase(#[trigger] spec_default_git_bash_locations()[i]),
            ),
{
    let raw = spec_raw_search_candidates(host);
    let from_git = match spec_which(host, "git"@) {
        Some(g) => spec_candidates_from_git_exe(g),
        None => Seq::empty(),
    };
    let with_defaults = from_git + spec_default_git_bash_locations();
    if let Some(b) = spec_which(host, "bash"@) {
        assert(raw == with_defaults.push(b));
        assert(keys_of(raw)[raw.len() - 1] == str_to_lowercase(b));
        lemma_dedupe_keeps_keys(raw, str_to_lowercase(b));
    }
    assert forall|i: int| 0 <= i < spec_default_git_bash_locations().len() implies seq_has(
        keys_of(spec_search_candidates(host)),
        str_to_lowercase(#[trigger] spec_default_git_bash_locations()[i]),
    ) by {
        let d = spec_default_git_bash_locations()[i];
        assert(raw[from_git.len() + i] == d);
        assert(keys_of(raw)[from_git.len() + i] == str_to_lowercase(d));
        lemma_dedupe_keeps_keys(raw, str_to_lowercase(d));
    }
}

/// On Windows the default shell is PowerShell whenever one is found (whatever the login
/// shell is): when `which` finds `pwsh` or `powershell`, or a PowerShell install location
/// exists. Only when no PowerShell is found is it `cmd.exe`.
pub proof fn lemma_windows_default_shell_is_powershell(host: &HostEnvironment, u: Option<Seq<char>>)
    requires
        host.os == HostOs::Windows,
    ensures
        spec_get_shell(host, ShellType::PowerShell, None) matches Some(s)
            ==> spec_default_user_shell_from_path(host, u) == s,
        (spec_which(host, "pwsh"@) is Some || spec_which(host, "powershell"@) is Some
            || spec_file_exists(host, spec_pwsh_fallbacks(host.os)[0]) || spec_file_exists(
            host,
            spec_powershell_fallbacks(host.os)[0],
        )) ==> spec_default_user_shell_from_path(host, u).0 == ShellType::PowerShell,
        spec_get_shell(host, ShellType::PowerShell, None) is None
            ==> spec_default_user_shell_from_path(host, u) == (ShellType::Cmd, "cmd.exe"@),
{
    lemma_first_existing_is_existing_fallback(host, spec_pwsh_fallbacks(host.os));
    lemma_first_existing_is_existing_fallback(host, spec_powershell_fallbacks(host.os));
}

/// Away from Windows the default shell is the login shell's kind when that kind is
/// found; otherwise zsh before bash on macOS and bash before zsh elsewhere; and
/// `/bin/sh` only when none of these is found. It is always a shell that `get_shell`
/// finds, or the fallback.
pub proof fn lemma_unix_default_shell_order(host: &HostEnvironment, u: Option<Seq<char>>)
    requires
        host.os != HostOs::Windows,
    ensures
        u is Some && spec_detect_shell_type(host_conv(host.os), u->0) is Some && spec_get_shell(
            host,
            spec_detect_shell_type(host_conv(host.os), u->0)->0,
            None,
        ) is Some ==> spec_default_user_shell_from_path(host, u) == spec_get_shell(
            host,
            spec_detect_shell_type(host_conv(host.os), u->0)->0,
            None,
        )->0,
        u is None && host.os == HostOs::MacOs && spec_get_shell(host, ShellType::Zsh, None) is Some
            ==> spec_default_user_shell_from_path(host, u) == spec_get_shell(
            host,
            ShellType::Zsh,
            None,
        )->0,
        u is None && host.os == HostOs::OtherUnix && spec_get_shell(host, ShellType::Bash, None)
            is Some ==> spec_default_user_shell_from_path(host, u) == spec_get_shell(
            host,
            ShellType::Bash,
            None,
        )->0,
        u is None && spec_get_shell(host, ShellType::Zsh, None) is None && spec_get_shell(
            host,
            ShellType::Bash,
            None,
        ) is None ==> spec_default_user_shell_from_path(host, u) == (ShellType::Sh, "/bin/sh"@),
{
}

proof fn lemma_first_git_bash_finds_installed(host: &HostEnvironment, cs: Seq<Seq<char>>, i: int)
    requires
        0 <= i < cs.len(),
        spec_file_exists(host, cs[i]),
        spec_root_from_bash(host, cs[i]) is Some,
    ensures
        spec_first_git_bash(host, cs) matches Some(g) && cs.contains(g.0.1),
    decreases cs.len(),
{
    if !(spec_file_exists(host, cs[0]) && spec_root_from_bash(host, cs[0]) is Some) {
        assert(cs.drop_first()[i - 1] == cs[i]);
        lemma_first_git_bash_finds_installed(host, cs.drop_first(), i - 1);
        let g = spec_first_git_bash(host, cs.drop_first())->0;
        let j = choose|j: int| 0 <= j < cs.drop_first().len() && cs.drop_first()[j] == g.0.1;
        assert(cs[j + 1] == g.0.1);
    } else {
        assert(cs[0] == cs[0]);
    }
}

/// A search on Windows succeeds whenever one of the search candidates is an existing
/// Git for Windows Bash, and then finds one of the candidates.
pub proof fn lemma_git_bash_search_finds_an_installed_candidate(host: &HostEnvironment, i: int)
    requires
        host.os == HostOs::Windows,
        0 <= i < spec_search_candidates(host).len(),
        spec_file_exists(host, spec_search_candidates(host)[i]),
        spec_root_from_bash(host, spec_search_candidates(host)[i]) is Some,
    ensures
        spec_find_git_bash(host, None) matches Ok(g) && spec_search_candidates(host).contains(
            g.0.1,
        ),
{
    lemma_first_git_bash_finds_installed(host, spec_search_candidates(host), i);
}

} // verus!
