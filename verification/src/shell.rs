//! The shell that runs the model's commands, and how its command line is built.
use vstd::prelude::*;

use crate::shell_detect;
use crate::shell_detect::{DetectedShell, GitBashPathHint, HostEnvironment, ShellType};
use crate::text::chars_of;

verus! {

#[derive(Debug, Clone, PartialEq, Eq)]
pub struct Shell {
    pub shell_type: ShellType,
    pub shell_path: String,
}

impl View for Shell {
    type V = (ShellType, Seq<char>);

    open spec fn view(&self) -> (ShellType, Seq<char>) {
        (self.shell_type, self.shell_path@)
    }
}

/// The `[windows].default_shell` setting.
#[derive(Debug, Clone, Copy, PartialEq, Eq, Structural)]
pub enum WindowsDefaultShellToml {
    GitBash,
    PowerShell,
    Cmd,
}

/// An error met while choosing a shell.
#[derive(Debug, Clone, PartialEq, Eq)]
pub struct ShellError {
    message: String,
}

impl View for ShellError {
    type V = Seq<char>;

    closed spec fn view(&self) -> Seq<char> {
        self.message@
    }
}

impl ShellError {
    fn new(message: String) -> (r: Self)
        ensures
            r@ == message@,
    {
        ShellError { message }
    }

    pub fn to_string(&self) -> (r: String)
        ensures
            r@ == self@,
    {
        let mut r = String::new();
        r.append(self.message.as_str());
        r
    }
}

impl From<DetectedShell> for Shell {
    fn from(detected: DetectedShell) -> (r: Self) {
        Shell { shell_type: detected.shell_type, shell_path: detected.shell_path }
    }
}

impl vstd::std_specs::convert::FromSpecImpl<DetectedShell> for Shell {
    open spec fn obeys_from_spec() -> bool {
        true
    }

    open spec fn from_spec(v: DetectedShell) -> Self {
        Shell { shell_type: v.shell_type, shell_path: v.shell_path }
    }
}

/// The command line that runs `command`: `<shell> -c <command>` (`-lc` for a login
/// shell) for zsh, bash and sh; `<shell> [-NoProfile] -Command <command>` for PowerShell,
/// where `-NoProfile` is left out for a login shell; `<shell> /c <command>` for cmd.
pub open spec fn spec_exec_args(
    t: ShellType,
    path: Seq<char>,
    command: Seq<char>,
    use_login_shell: bool,
) -> Seq<Seq<char>> {
    match t {
        ShellType::PowerShell => if use_login_shell {
            seq![path, "-Command"@, command]
        } else {
            seq![path, "-NoProfile"@, "-Command"@, command]
        },
        ShellType::Cmd => seq![path, "/c"@, command],
        _ => seq![
            path,
            if use_login_shell {
                "-lc"@
            } else {
                "-c"@
            },
            command,
        ],
    }
}

pub open spec fn shell_result_view(r: Result<Shell, ShellError>) -> Result<
    (ShellType, Seq<char>),
    Seq<char>,
> {
    match r {
        Ok(s) => Ok(s@),
        Err(e) => Err(e@),
    }
}

/// The shell named by an environment's shell record: `zsh`, `bash`, `powershell`, `sh`
/// or `cmd`.
pub open spec fn spec_environment_shell_type(name: Seq<char>) -> Option<ShellType> {
    if name == seq!['z', 's', 'h'] {
        Some(ShellType::Zsh)
    } else if name == seq!['b', 'a', 's', 'h'] {
        Some(ShellType::Bash)
    } else if name == seq!['p', 'o', 'w', 'e', 'r', 's', 'h', 'e', 'l', 'l'] {
        Some(ShellType::PowerShell)
    } else if name == seq!['s', 'h'] {
        Some(ShellType::Sh)
    } else if name == seq!['c', 'm', 'd'] {
        Some(ShellType::Cmd)
    } else {
        None
    }
}

fn push_str_owned(v: &mut Vec<String>, s: &str)
    ensures
        final(v).deep_view() == old(v).deep_view().push(s@),
{
    v.push(s.to_string());
    assert(v.deep_view() =~= old(v).deep_view().push(s@));
}

impl Shell {
    pub fn name(&self) -> (r: &'static str)
        ensures
            r@ == shell_detect::spec_shell_name(self.shell_type),
    {
        self.shell_type.name()
    }

    /// Takes a string of shell and returns the full list of command args to
    /// use with `exec()` to run the shell command.
    pub fn derive_exec_args(&self, command: &str, use_login_shell: bool) -> (r: Vec<String>)
        ensures
            r.deep_view() == spec_exec_args(
                self.shell_type,
                self.shell_path@,
                command@,
                use_login_shell,
            ),
    {
        let mut args: Vec<String> = Vec::new();
        push_str_owned(&mut args, self.shell_path.as_str());
        match self.shell_type {
            ShellType::Zsh | ShellType::Bash | ShellType::Sh => {
                let arg = if use_login_shell {
                    "-lc"
                } else {
                    "-c"
                };
                push_str_owned(&mut args, arg);
                push_str_owned(&mut args, command);
            },
            ShellType::PowerShell => {
                if !use_login_shell {
                    push_str_owned(&mut args, "-NoProfile");
                }
                push_str_owned(&mut args, "-Command");
                push_str_owned(&mut args, command);
            },
            ShellType::Cmd => {
                push_str_owned(&mut args, "/c");
                push_str_owned(&mut args, command);
            },
        }
        assert(args.deep_view() =~= spec_exec_args(
            self.shell_type,
            self.shell_path@,
            command@,
            use_login_shell,
        ));
        args
    }

    /// The shell that an environment reports by name and path.
    pub fn from_environment_shell_info(name: &str, path: &str) -> (r: Result<Shell, ShellError>)
        ensures
            shell_result_view(r) == match spec_environment_shell_type(name@) {
                Some(t) => Ok((t, path@)),
                None => Err("unknown environment shell `"@ + name@ + "`"@),
            },
    {
        let n = chars_of(name);
        let zsh = vec!['z', 's', 'h'];
        let bash = vec!['b', 'a', 's', 'h'];
        let powershell = vec!['p', 'o', 'w', 'e', 'r', 's', 'h', 'e', 'l', 'l'];
        let sh = vec!['s', 'h'];
        let cmd = vec!['c', 'm', 'd'];
        let shell_type = if crate::text::chars_equal(n.as_slice(), zsh.as_slice()) {
            ShellType::Zsh
        } else if crate::text::chars_equal(n.as_slice(), bash.as_slice()) {
            ShellType::Bash
        } else if crate::text::chars_equal(n.as_slice(), powershell.as_slice()) {
            ShellType::PowerShell
        } else if crate::text::chars_equal(n.as_slice(), sh.as_slice()) {
            ShellType::Sh
        } else if crate::text::chars_equal(n.as_slice(), cmd.as_slice()) {
            ShellType::Cmd
        } else {
            let mut m = String::new();
            m.append("unknown environment shell `");
            m.append(name);
            m.append("`");
            assert(m@ =~= "unknown environment shell `"@ + name@ + "`"@);
            return Err(ShellError::new(m));
        };
        Ok(Shell { shell_type, shell_path: path.to_string() })
    }
}

fn shell_from_detected(d: DetectedShell) -> (r: Shell)
    ensures
        r@ == d@,
{
    Shell { shell_type: d.shell_type, shell_path: d.shell_path }
}

/// The shell used when no other can be found.
pub fn ultimate_fallback_shell(host: &HostEnvironment) -> (r: Shell)
    ensures
        r@ == shell_detect::spec_ultimate_fallback(host.os),
{
    shell_from_detected(shell_detect::ultimate_fallback_shell(host))
}

pub open spec fn opt_shell_view(o: Option<Shell>) -> Option<(ShellType, Seq<char>)> {
    match o {
        Some(s) => Some(s@),
        None => None,
    }
}

/// The shell at a path that the model asked for.
pub fn get_shell_by_model_provided_path(shell_path: &str, host: &HostEnvironment) -> (r: Result<
    Shell,
    ShellError,
>)
    ensures
        shell_result_view(r) == shell_detect::spec_shell_by_model_provided_path(host, shell_path@),
{
    match shell_detect::get_shell_by_model_provided_path(shell_path, host) {
        Ok(d) => Ok(shell_from_detected(d)),
        Err(e) => Err(ShellError::new(e.to_string())),
    }
}

/// The shell of kind `shell_type` at `path`, or found on the machine.
pub fn get_shell(shell_type: ShellType, path: Option<&str>, host: &HostEnvironment) -> (r: Option<
    Shell,
>)
    ensures
        opt_shell_view(r) == shell_detect::spec_get_shell(
            host,
            shell_type,
            shell_detect::opt_str_view(path),
        ),
{
    match shell_detect::get_shell(shell_type, path, host) {
        Some(d) => Some(shell_from_detected(d)),
        None => None,
    }
}

/// The user's default shell.
pub fn default_user_shell(host: &HostEnvironment) -> (r: Shell)
    ensures
        r@ == shell_detect::spec_default_user_shell_from_path(
            host,
            match host.user_shell_path {
                Some(p) => Some(p@),
                None => None,
            },
        ),
{
    shell_from_detected(shell_detect::default_user_shell(host))
}

/// The shell of kind `t` found on the machine, or the ultimate fallback.
pub open spec fn spec_found_or_fallback(host: &HostEnvironment, t: ShellType) -> (ShellType, Seq<char>) {
    match shell_detect::spec_get_shell(host, t, None) {
        Some(s) => s,
        None => shell_detect::spec_ultimate_fallback(host.os),
    }
}

/// The shell chosen by the `[windows]` settings: away from Windows the user's default
/// shell; Git Bash when it is the default shell or when only its path is set (an
/// error if it cannot be found there); otherwise PowerShell or cmd as configured,
/// PowerShell when nothing is configured.
pub open spec fn spec_shell_for_windows_config(
    host: &HostEnvironment,
    default_shell: Option<WindowsDefaultShellToml>,
    git_bash_path: Option<Seq<char>>,
) -> Result<(ShellType, Seq<char>), Seq<char>> {
    if host.os != shell_detect::HostOs::Windows {
        Ok(
            shell_detect::spec_default_user_shell_from_path(
                host,
                match host.user_shell_path {
                    Some(p) => Some(p@),
                    None => None,
                },
            ),
        )
    } else if default_shell == Some(WindowsDefaultShellToml::GitBash) || (default_shell is None
        && git_bash_path is Some) {
        match shell_detect::spec_find_git_bash(host, git_bash_path) {
            Ok(g) => Ok(g.0),
            Err(e) => Err(shell_detect::spec_discovery_error_text(e)),
        }
    } else if default_shell == Some(WindowsDefaultShellToml::Cmd) {
        Ok(spec_found_or_fallback(host, ShellType::Cmd))
    } else {
        Ok(spec_found_or_fallback(host, ShellType::PowerShell))
    }
}

fn found_or_fallback(host: &HostEnvironment, shell_type: ShellType) -> (r: Shell)
    ensures
        r@ == spec_found_or_fallback(host, shell_type),
{
    match get_shell(shell_type, None, host) {
        Some(s) => s,
        None => ultimate_fallback_shell(host),
    }
}

fn git_bash_shell(path_hint: GitBashPathHint, host: &HostEnvironment) -> (r: Result<Shell, ShellError>)
    ensures
        shell_result_view(r) == match shell_detect::spec_find_git_bash(
            host,
            shell_detect::hint_view(path_hint),
        ) {
            Ok(g) => Ok(g.0),
            Err(e) => Err(shell_detect::spec_discovery_error_text(e)),
        },
{
    match shell_detect::find_git_bash_shell(path_hint, host) {
        Ok(git_bash) => Ok(shell_from_detected(git_bash.shell)),
        Err(err) => Err(ShellError::new(err.to_string())),
    }
}

/// The shell chosen by the `[windows]` settings (see `spec_shell_for_windows_config`).
pub fn default_user_shell_for_windows_config(
    default_shell: Option<WindowsDefaultShellToml>,
    git_bash_path: Option<&str>,
    host: &HostEnvironment,
) -> (r: Result<Shell, ShellError>)
    ensures
        shell_result_view(r) == spec_shell_for_windows_config(
            host,
            default_shell,
            shell_detect::opt_str_view(git_bash_path),
        ),
{
    if !host.is_windows() {
        return Ok(default_user_shell(host));
    }
    match (default_shell, git_bash_path) {
        (Some(WindowsDefaultShellToml::GitBash), path) => {
            let path_hint = match path {
                Some(p) => GitBashPathHint::Configured(p.to_string()),
                None => GitBashPathHint::SearchPath,
            };
            git_bash_shell(path_hint, host)
        },
        (None, Some(path)) => git_bash_shell(GitBashPathHint::Configured(path.to_string()), host),
        (None, None) | (Some(WindowsDefaultShellToml::PowerShell), _) => {
            Ok(found_or_fallback(host, ShellType::PowerShell))
        },
        (Some(WindowsDefaultShellToml::Cmd), _) => Ok(found_or_fallback(host, ShellType::Cmd)),
    }
}


/// On Windows, a configuration that asks for Git Bash (explicitly, or by giving only its
/// path) yields an existing Git for Windows Bash or an error, never another shell; with
/// a configured path, that very path.
pub proof fn lemma_git_bash_config_never_falls_back(
    host: &HostEnvironment,
    default_shell: Option<WindowsDefaultShellToml>,
    git_bash_path: Option<Seq<char>>,
)
    requires
        host.os == shell_detect::HostOs::Windows,
        default_shell == Some(WindowsDefaultShellToml::GitBash) || (default_shell is None
            && git_bash_path is Some),
    ensures
        spec_shell_for_windows_config(host, default_shell, git_bash_path) matches Ok(s) ==> {
            &&& s.0 == ShellType::Bash
            &&& shell_detect::spec_file_exists(host, s.1)
            &&& shell_detect::spec_root_from_bash(host, s.1) is Some
            &&& git_bash_path matches Some(p) ==> s.1 == p
        },
{
    shell_detect::lemma_found_git_bash_is_git_for_windows(host, git_bash_path);
    if let Some(p) = git_bash_path {
        shell_detect::lemma_configured_git_bash_is_not_replaced(host, p);
    }
}

/// On Windows, with neither a default shell nor a Git Bash path configured, the shell is
/// PowerShell when one is found, the ultimate fallback otherwise.
pub proof fn lemma_unconfigured_windows_uses_powershell(host: &HostEnvironment)
    requires
        host.os == shell_detect::HostOs::Windows,
    ensures
        spec_shell_for_windows_config(host, None, None) matches Ok(s) && (s.0
            == ShellType::PowerShell || s == shell_detect::spec_ultimate_fallback(host.os)),
{
    shell_detect::lemma_get_shell_kind(host, ShellType::PowerShell, None);
}

/// The command line always starts with the shell's path and ends with the command.
pub proof fn lemma_exec_args_frame(t: ShellType, path: Seq<char>, command: Seq<char>, login: bool)
    ensures
        spec_exec_args(t, path, command, login).len() >= 3,
        spec_exec_args(t, path, command, login)[0] == path,
        spec_exec_args(t, path, command, login).last() == command,
{
}

/// The shell chosen by the `[windows]` settings depends on the file system only at the
/// paths that `paths_to_probe` lists, with a configured Git Bash path among `extra`.
pub proof fn lemma_windows_config_reads_only_probed_paths(
    h1: &HostEnvironment,
    h2: &HostEnvironment,
    extra: Seq<Seq<char>>,
    default_shell: Option<WindowsDefaultShellToml>,
    git_bash_path: Option<Seq<char>>,
)
    requires
        shell_detect::hosts_agree_on(h1, h2, shell_detect::spec_paths_to_probe(h1, extra)),
        git_bash_path matches Some(p) ==> extra.contains(p),
    ensures
        spec_shell_for_windows_config(h1, default_shell, git_bash_path)
            == spec_shell_for_windows_config(h2, default_shell, git_bash_path),
{
    let user = match h1.user_shell_path {
        Some(p) => Some(p@),
        None => None,
    };
    shell_detect::lemma_default_shell_reads_only_probed_paths(h1, h2, extra, user);
    shell_detect::lemma_git_bash_discovery_reads_only_probed_paths(h1, h2, extra, git_bash_path);
    shell_detect::lemma_get_shell_reads_only_probed_paths(h1, h2, extra, ShellType::Cmd, None);
    shell_detect::lemma_get_shell_reads_only_probed_paths(
        h1,
        h2,
        extra,
        ShellType::PowerShell,
        None,
    );
}

/// How the login flag changes a command line: a POSIX shell runs `-lc` instead of `-c`
/// and nothing else changes; PowerShell loads the profile by leaving out `-NoProfile`
/// before `-Command`; `cmd` runs `/c` either way.
pub proof fn lemma_login_flag_effect(t: ShellType, path: Seq<char>, command: Seq<char>)
    ensures
        t == ShellType::Zsh || t == ShellType::Bash || t == ShellType::Sh ==> {
            &&& spec_exec_args(t, path, command, false) == seq![path, "-c"@, command]
            &&& spec_exec_args(t, path, command, true) == spec_exec_args(
                t,
                path,
                command,
                false,
            ).update(1, "-lc"@)
        },
        t == ShellType::PowerShell ==> {
            &&& spec_exec_args(t, path, command, true) == seq![path, "-Command"@, command]
            &&& spec_exec_args(t, path, command, false) == spec_exec_args(
                t,
                path,
                command,
                true,
            ).insert(1, "-NoProfile"@)
        },
        t == ShellType::Cmd ==> spec_exec_args(t, path, command, true) == spec_exec_args(
            t,
            path,
            command,
            false,
        ) && spec_exec_args(t, path, command, true) == seq![path, "/c"@, command],
{
    assert(seq![path, "-c"@, command].update(1, "-lc"@) =~= seq![path, "-lc"@, command]);
    assert(seq![path, "-Command"@, command].insert(1, "-NoProfile"@) =~= seq![
        path,
        "-NoProfile"@,
        "-Command"@,
        command,
    ]);
}

} // verus!
