use codex_git_bash::shell::default_user_shell_for_windows_config;
use codex_git_bash::shell::get_shell;
use codex_git_bash::shell::ultimate_fallback_shell;
use codex_git_bash::shell::Shell;
use codex_git_bash::shell::WindowsDefaultShellToml;
use codex_git_bash::shell_detect::DetectedShell;
use codex_git_bash::shell_detect::HostEnvironment;
use codex_git_bash::shell_detect::HostOs;
use codex_git_bash::shell_detect::ShellType;

const FIXTURE: &str = r"C:\Users\me\AppData\Local\Temp\codex-core-shell";

fn windows_host(files: Vec<String>) -> HostEnvironment {
    HostEnvironment {
        os: HostOs::Windows,
        existing_files: files,
        which_results: Vec::new(),
        user_shell_path: None,
    }
}

fn create_git_for_windows_fixture(root: &str) -> Vec<String> {
    vec![
        format!(r"{root}\cmd\git.exe"),
        format!(r"{root}\bin\bash.exe"),
        format!(r"{root}\usr\bin\msys-2.0.dll"),
    ]
}

#[test]
fn default_user_shell_for_windows_config_uses_git_bash_by_default() {
    let git_root = format!(r"{FIXTURE}-git-bash-default\Git");
    let host = windows_host(create_git_for_windows_fixture(&git_root));
    let bash_path = format!(r"{git_root}\bin\bash.exe");

    let shell = default_user_shell_for_windows_config(None, Some(&bash_path), &host).unwrap();

    assert_eq!(
        shell,
        Shell {
            shell_type: ShellType::Bash,
            shell_path: bash_path.clone(),
        }
    );
    assert_eq!(
        shell.derive_exec_args("echo hello", /*use_login_shell*/ false),
        vec![bash_path.clone(), "-c".to_string(), "echo hello".to_string()]
    );
    assert_eq!(
        shell.derive_exec_args("echo hello", /*use_login_shell*/ true),
        vec![bash_path, "-lc".to_string(), "echo hello".to_string()]
    );
}

#[test]
fn default_user_shell_for_windows_config_falls_back_to_powershell() {
    let host = windows_host(vec![
        r"C:\Windows\System32\WindowsPowerShell\v1.0\powershell.exe".to_string(),
    ]);
    let shell = default_user_shell_for_windows_config(
        /*default_shell*/ None, /*git_bash_path*/ None, &host,
    )
    .unwrap();

    assert_eq!(shell.shell_type, ShellType::PowerShell);
}

#[test]
fn default_user_shell_for_windows_config_rejects_invalid_git_bash_path() {
    let bash_path = format!(r"{FIXTURE}-git-bash-invalid\msys64\usr\bin\bash.exe");
    let host = windows_host(vec![bash_path.clone()]);

    let err = default_user_shell_for_windows_config(
        Some(WindowsDefaultShellToml::GitBash),
        Some(&bash_path),
        &host,
    )
    .expect_err("non-Git-for-Windows bash should be rejected");

    assert!(err.to_string().contains("only Git for Windows bash.exe is supported"));
}

#[test]
fn windows_config_choices() {
    let host = windows_host(vec![
        r"C:\Windows\System32\WindowsPowerShell\v1.0\powershell.exe".to_string(),
    ]);
    let cmd = default_user_shell_for_windows_config(Some(WindowsDefaultShellToml::Cmd), None, &host)
        .unwrap();
    assert_eq!(cmd, Shell { shell_type: ShellType::Cmd, shell_path: "cmd.exe".to_string() });
    let ps = default_user_shell_for_windows_config(
        Some(WindowsDefaultShellToml::PowerShell),
        Some(r"C:\Git\bin\bash.exe"),
        &host,
    )
    .unwrap();
    assert_eq!(ps.shell_type, ShellType::PowerShell);
    let err = default_user_shell_for_windows_config(Some(WindowsDefaultShellToml::GitBash), None, &host)
        .unwrap_err();
    assert!(err.to_string().contains("no Git for Windows Bash was found"));
}

#[test]
fn windows_config_is_ignored_elsewhere() {
    let host = HostEnvironment {
        os: HostOs::OtherUnix,
        existing_files: vec!["/bin/bash".to_string()],
        which_results: Vec::new(),
        user_shell_path: None,
    };
    let shell = default_user_shell_for_windows_config(
        Some(WindowsDefaultShellToml::GitBash),
        Some(r"C:\Git\bin\bash.exe"),
        &host,
    )
    .unwrap();
    assert_eq!(shell, Shell { shell_type: ShellType::Bash, shell_path: "/bin/bash".to_string() });
    assert_eq!(ultimate_fallback_shell(&host).shell_path, "/bin/sh");
    assert_eq!(get_shell(ShellType::Zsh, None, &host), None);
}

#[test]
fn exec_args_for_each_shell() {
    let shell = |t, p: &str| Shell { shell_type: t, shell_path: p.to_string() };
    let strings = |v: &[&str]| v.iter().map(|s| s.to_string()).collect::<Vec<_>>();
    assert_eq!(
        shell(ShellType::Zsh, "/bin/zsh").derive_exec_args("ls", false),
        strings(&["/bin/zsh", "-c", "ls"])
    );
    assert_eq!(
        shell(ShellType::Sh, "/bin/sh").derive_exec_args("ls", true),
        strings(&["/bin/sh", "-lc", "ls"])
    );
    assert_eq!(
        shell(ShellType::PowerShell, "pwsh").derive_exec_args("dir", false),
        strings(&["pwsh", "-NoProfile", "-Command", "dir"])
    );
    assert_eq!(
        shell(ShellType::PowerShell, "pwsh").derive_exec_args("dir", true),
        strings(&["pwsh", "-Command", "dir"])
    );
    assert_eq!(
        shell(ShellType::Cmd, "cmd.exe").derive_exec_args("dir", true),
        strings(&["cmd.exe", "/c", "dir"])
    );
    assert_eq!(shell(ShellType::Cmd, "cmd.exe").name(), "cmd");
}

#[test]
fn environment_shell_info() {
    assert_eq!(
        Shell::from_environment_shell_info("powershell", "C:/pwsh.exe").unwrap(),
        Shell { shell_type: ShellType::PowerShell, shell_path: "C:/pwsh.exe".to_string() }
    );
    assert_eq!(
        Shell::from_environment_shell_info("fish", "/usr/bin/fish").unwrap_err().to_string(),
        "unknown environment shell `fish`"
    );
    assert_eq!(
        Shell::from(DetectedShell { shell_type: ShellType::Sh, shell_path: "/bin/sh".to_string() }),
        Shell { shell_type: ShellType::Sh, shell_path: "/bin/sh".to_string() }
    );
}
