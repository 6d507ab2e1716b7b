use codex_git_bash::git_bash_path::PathConvention;
use codex_git_bash::shell_detect::default_user_shell;
use codex_git_bash::shell_detect::default_user_shell_from_path;
use codex_git_bash::shell_detect::binaries_to_resolve;
use codex_git_bash::shell_detect::detect_shell_type;
use codex_git_bash::shell_detect::find_git_bash_shell;
use codex_git_bash::shell_detect::get_shell;
use codex_git_bash::shell_detect::get_shell_by_model_provided_path;
use codex_git_bash::shell_detect::git_bash_candidates_from_git_exe;
use codex_git_bash::shell_detect::git_bash_search_candidates;
use codex_git_bash::shell_detect::git_for_windows_install_root_from_bash;
use codex_git_bash::shell_detect::git_for_windows_install_root_from_git_exe;
use codex_git_bash::shell_detect::git_for_windows_marker_files;
use codex_git_bash::shell_detect::paths_to_probe;
use codex_git_bash::shell_detect::ultimate_fallback_shell;
use codex_git_bash::shell_detect::DetectedShell;
use codex_git_bash::shell_detect::GitBashPathHint;
use codex_git_bash::shell_detect::GitBashShell;
use codex_git_bash::shell_detect::HostEnvironment;
use codex_git_bash::shell_detect::HostOs;
use codex_git_bash::shell_detect::ShellType;

const FIXTURE: &str = r"C:\Users\me\AppData\Local\Temp\codex-shell-detect";

fn host(os: HostOs, files: &[&str], which: &[(&str, &str)], user_shell: Option<&str>) -> HostEnvironment {
    HostEnvironment {
        os,
        existing_files: files.iter().map(|f| f.to_string()).collect(),
        which_results: which
            .iter()
            .map(|(name, path)| (name.to_string(), path.to_string()))
            .collect(),
        user_shell_path: user_shell.map(|s| s.to_string()),
    }
}

fn git_for_windows_fixture(root: &str) -> Vec<String> {
    vec![
        format!(r"{root}\cmd\git.exe"),
        format!(r"{root}\bin\bash.exe"),
        format!(r"{root}\usr\bin\bash.exe"),
        format!(r"{root}\usr\bin\msys-2.0.dll"),
    ]
}

fn windows_host_with(files: Vec<String>) -> HostEnvironment {
    HostEnvironment {
        os: HostOs::Windows,
        existing_files: files,
        which_results: Vec::new(),
        user_shell_path: None,
    }
}

#[test]
fn test_detect_shell_type() {
    let posix = PathConvention::Posix;
    assert_eq!(detect_shell_type("zsh", posix), Some(ShellType::Zsh));
    assert_eq!(detect_shell_type("bash", posix), Some(ShellType::Bash));
    assert_eq!(detect_shell_type("bash.exe", posix), Some(ShellType::Bash));
    assert_eq!(detect_shell_type("pwsh", posix), Some(ShellType::PowerShell));
    assert_eq!(detect_shell_type("powershell", posix), Some(ShellType::PowerShell));
    assert_eq!(detect_shell_type("fish", posix), None);
    assert_eq!(detect_shell_type("other", posix), None);
    assert_eq!(detect_shell_type("/bin/zsh", posix), Some(ShellType::Zsh));
    assert_eq!(detect_shell_type("/bin/bash", posix), Some(ShellType::Bash));
    assert_eq!(detect_shell_type("/usr/bin/bash", posix), Some(ShellType::Bash));
    assert_eq!(detect_shell_type("powershell.exe", posix), Some(ShellType::PowerShell));
    assert_eq!(detect_shell_type("/usr/local/bin/pwsh", posix), Some(ShellType::PowerShell));
    assert_eq!(
        detect_shell_type(
            "C:\\windows\\System32\\WindowsPowerShell\\v1.0\\powershell.exe",
            PathConvention::Windows
        ),
        Some(ShellType::PowerShell)
    );
    assert_eq!(detect_shell_type("pwsh.exe", posix), Some(ShellType::PowerShell));
    assert_eq!(detect_shell_type("/usr/local/bin/pwsh", posix), Some(ShellType::PowerShell));
    assert_eq!(detect_shell_type("/bin/sh", posix), Some(ShellType::Sh));
    assert_eq!(detect_shell_type("sh", posix), Some(ShellType::Sh));
    assert_eq!(detect_shell_type("cmd", posix), Some(ShellType::Cmd));
    assert_eq!(detect_shell_type("cmd.exe", posix), Some(ShellType::Cmd));
}

#[test]
fn detect_shell_type_edge_cases() {
    let posix = PathConvention::Posix;
    // "zsh/" names the same path as its stem "zsh", so the stem is not looked at.
    assert_eq!(detect_shell_type("zsh/", posix), None);
    assert_eq!(detect_shell_type("zsh.exe/", posix), Some(ShellType::Zsh));
    assert_eq!(detect_shell_type("bash.old.exe", posix), Some(ShellType::Bash));
    assert_eq!(detect_shell_type("", posix), None);
    assert_eq!(detect_shell_type("/", posix), None);
    assert_eq!(detect_shell_type(".bash", posix), None);
    // Under the Posix convention a backslash does not separate components.
    assert_eq!(detect_shell_type(r"C:\tools\bash.exe", posix), None);
    assert_eq!(detect_shell_type(r"C:\tools\bash.exe", PathConvention::Windows), Some(ShellType::Bash));
    assert_eq!(detect_shell_type(r"C:\Windows\System32\cmd.exe", PathConvention::Windows), Some(ShellType::Cmd));
}

#[test]
fn configured_git_bash_accepts_git_for_windows_bin_and_usr_bin() {
    let git_root = format!(r"{FIXTURE}\git-bash-configured\Git");
    let host = windows_host_with(git_for_windows_fixture(&git_root));

    for bash_path in [format!(r"{git_root}\bin\bash.exe"), format!(r"{git_root}\usr\bin\bash.exe")] {
        let shell = find_git_bash_shell(GitBashPathHint::Configured(bash_path.clone()), &host).unwrap();
        assert_eq!(
            shell,
            GitBashShell {
                shell: DetectedShell {
                    shell_type: ShellType::Bash,
                    shell_path: bash_path,
                },
                installation_root: git_root.clone(),
            }
        );
    }
}

#[test]
fn configured_git_bash_rejects_non_git_for_windows_bash() {
    let bash_path = format!(r"{FIXTURE}\git-bash-invalid\msys64\usr\bin\bash.exe");
    let host = windows_host_with(vec![bash_path.clone()]);

    let err = find_git_bash_shell(GitBashPathHint::Configured(bash_path.clone()), &host)
        .expect_err("non-Git-for-Windows bash should be rejected");

    assert!(err.to_string().contains("only Git for Windows bash.exe is supported"));
    assert_eq!(err.attempted_paths(), std::slice::from_ref(&bash_path));
}

#[test]
fn model_provided_non_git_bash_returns_error() {
    let bash_path = format!(r"{FIXTURE}\git-bash-model-invalid\msys64\usr\bin\bash.exe");
    let host = windows_host_with(vec![bash_path.clone()]);

    let err = get_shell_by_model_provided_path(&bash_path, &host)
        .expect_err("non-Git-for-Windows bash should not fall back to cmd");

    assert!(err.to_string().contains("only Git for Windows bash.exe is supported"));
}

#[test]
fn git_for_windows_candidates_are_derived_from_git_exe_locations() {
    let program_files_git = r"C:\Program Files\Git\cmd\git.exe";
    assert_eq!(
        git_bash_candidates_from_git_exe(program_files_git),
        vec![
            r"C:\Program Files\Git\bin\bash.exe".to_string(),
            r"C:\Program Files\Git\usr\bin\bash.exe".to_string(),
        ]
    );

    let scoop_git = r"C:\Users\me\scoop\shims\git.exe";
    assert_eq!(
        git_bash_candidates_from_git_exe(scoop_git),
        vec![
            r"C:\Users\me\scoop\apps\git\current\bin\bash.exe".to_string(),
            r"C:\Users\me\scoop\apps\git\current\usr\bin\bash.exe".to_string(),
        ]
    );

    let mingw_git = r"C:\Git\mingw64\bin\git.exe";
    assert_eq!(
        git_bash_candidates_from_git_exe(mingw_git),
        vec![
            r"C:\Git\bin\bash.exe".to_string(),
            r"C:\Git\usr\bin\bash.exe".to_string(),
        ]
    );
}

#[test]
fn git_exe_locations_outside_the_layout_give_no_candidates() {
    assert!(git_bash_candidates_from_git_exe(r"C:\tools\git.exe").is_empty());
    assert!(git_bash_candidates_from_git_exe(r"C:\Git\cmd\hub.exe").is_empty());
    assert!(git_bash_candidates_from_git_exe(r"C:\Git\other\bin\git.exe").is_empty());
    assert_eq!(
        git_for_windows_install_root_from_git_exe(r"C:\Git\usr\bin\GIT.EXE").as_deref(),
        Some(r"C:\Git")
    );
    assert_eq!(
        git_for_windows_install_root_from_git_exe(r"C:\Git\MINGW32\bin\git.exe").as_deref(),
        Some(r"C:\Git")
    );
    assert_eq!(git_for_windows_install_root_from_git_exe(r"cmd\git.exe").as_deref(), Some(""));
}

#[test]
fn install_root_needs_git_and_msys_runtime() {
    let root = r"C:\Git";
    let full = windows_host_with(git_for_windows_fixture(root));
    assert_eq!(
        git_for_windows_install_root_from_bash(r"C:\Git\bin\bash.exe", &full).as_deref(),
        Some(root)
    );
    assert_eq!(
        git_for_windows_install_root_from_bash(r"C:\Git\usr\bin\bash.exe", &full).as_deref(),
        Some(root)
    );
    assert_eq!(git_for_windows_install_root_from_bash(r"C:\Git\cmd\bash.exe", &full), None);
    assert_eq!(git_for_windows_install_root_from_bash(r"C:\Git\bin\zsh.exe", &full), None);
    let without_msys = windows_host_with(vec![r"C:\Git\cmd\git.exe".to_string()]);
    assert_eq!(
        git_for_windows_install_root_from_bash(r"C:\Git\bin\bash.exe", &without_msys),
        None
    );
}

#[test]
fn configured_git_bash_must_be_absolute_and_exist() {
    let host = windows_host_with(git_for_windows_fixture(r"C:\Git"));
    let err = find_git_bash_shell(GitBashPathHint::Configured(r"Git\bin\bash.exe".to_string()), &host)
        .unwrap_err();
    assert_eq!(
        err.message(),
        r"`windows.git_bash_path` must be an absolute path to Git for Windows bash.exe: Git\bin\bash.exe"
    );
    assert_eq!(
        err.to_string(),
        r"`windows.git_bash_path` must be an absolute path to Git for Windows bash.exe: Git\bin\bash.exe Tried: Git\bin\bash.exe"
    );
    let err = find_git_bash_shell(GitBashPathHint::Configured(r"D:\Git\bin\bash.exe".to_string()), &host)
        .unwrap_err();
    assert_eq!(
        err.message(),
        r"`windows.git_bash_path` points to `D:\Git\bin\bash.exe` but that file does not exist"
    );
}

#[test]
fn git_bash_search_uses_git_on_path_first_and_drops_repeats() {
    let mut files = git_for_windows_fixture(r"D:\PortableGit");
    files.extend(git_for_windows_fixture(r"C:\Program Files\Git"));
    let host = HostEnvironment {
        os: HostOs::Windows,
        existing_files: files,
        which_results: vec![
            ("git".to_string(), r"D:\PortableGit\cmd\git.exe".to_string()),
            ("bash".to_string(), r"c:\program files\git\bin\BASH.exe".to_string()),
        ],
        user_shell_path: None,
    };
    assert_eq!(
        git_bash_search_candidates(&host),
        vec![
            r"D:\PortableGit\bin\bash.exe".to_string(),
            r"D:\PortableGit\usr\bin\bash.exe".to_string(),
            r"C:\Program Files\Git\bin\bash.exe".to_string(),
            r"C:\Program Files\Git\usr\bin\bash.exe".to_string(),
            r"C:\Program Files (x86)\Git\bin\bash.exe".to_string(),
            r"C:\Program Files (x86)\Git\usr\bin\bash.exe".to_string(),
        ]
    );
    let found = find_git_bash_shell(GitBashPathHint::SearchPath, &host).unwrap();
    assert_eq!(found.shell.shell_path, r"D:\PortableGit\bin\bash.exe");
    assert_eq!(found.installation_root, r"D:\PortableGit");
}

#[test]
fn git_bash_search_reports_all_candidates_when_nothing_is_found() {
    let host = windows_host_with(Vec::new());
    let err = find_git_bash_shell(GitBashPathHint::SearchPath, &host).unwrap_err();
    assert_eq!(err.attempted_paths().len(), 4);
    assert!(err.to_string().starts_with("`windows.default_shell = \"git-bash\"` was configured"));
    assert!(err.to_string().contains(r"Tried: C:\Program Files\Git\bin\bash.exe, "));
}

#[test]
fn git_bash_is_windows_only() {
    let host = host(HostOs::OtherUnix, &[], &[], None);
    let err = find_git_bash_shell(GitBashPathHint::SearchPath, &host).unwrap_err();
    assert_eq!(err.to_string(), "Git Bash is only supported on Windows");
    assert!(err.attempted_paths().is_empty());
    let err = find_git_bash_shell(GitBashPathHint::Configured("/x/bash".to_string()), &host).unwrap_err();
    assert_eq!(err.to_string(), "Git Bash is only supported on Windows Tried: /x/bash");
}

#[test]
fn get_shell_prefers_provided_then_login_then_which_then_fallback() {
    let h = host(
        HostOs::OtherUnix,
        &["/opt/zsh", "/bin/zsh", "/usr/bin/zsh"],
        &[("zsh", "/usr/local/bin/zsh")],
        Some("/usr/bin/zsh"),
    );
    let zsh = |p: &str| DetectedShell { shell_type: ShellType::Zsh, shell_path: p.to_string() };
    assert_eq!(get_shell(ShellType::Zsh, Some("/opt/zsh"), &h), Some(zsh("/opt/zsh")));
    assert_eq!(get_shell(ShellType::Zsh, Some("/missing/zsh"), &h), Some(zsh("/usr/bin/zsh")));
    let no_login = host(HostOs::OtherUnix, &["/bin/zsh"], &[("zsh", "/usr/local/bin/zsh")], None);
    assert_eq!(get_shell(ShellType::Zsh, None, &no_login), Some(zsh("/usr/local/bin/zsh")));
    let only_fallback = host(HostOs::OtherUnix, &["/bin/zsh"], &[], None);
    assert_eq!(get_shell(ShellType::Zsh, None, &only_fallback), Some(zsh("/bin/zsh")));
    let nothing = host(HostOs::OtherUnix, &[], &[], None);
    assert_eq!(get_shell(ShellType::Zsh, None, &nothing), None);
    assert_eq!(get_shell(ShellType::Cmd, None, &nothing), None);
}

#[test]
fn powershell_prefers_pwsh() {
    let h = host(
        HostOs::Windows,
        &[r"C:\Windows\System32\WindowsPowerShell\v1.0\powershell.exe"],
        &[],
        None,
    );
    assert_eq!(
        get_shell(ShellType::PowerShell, None, &h).unwrap().shell_path,
        r"C:\Windows\System32\WindowsPowerShell\v1.0\powershell.exe"
    );
    let h = host(HostOs::Windows, &[], &[("pwsh", r"C:\tools\pwsh.exe"), ("powershell", r"C:\ps.exe")], None);
    assert_eq!(get_shell(ShellType::PowerShell, None, &h).unwrap().shell_path, r"C:\tools\pwsh.exe");
}

#[test]
fn default_shell_follows_platform() {
    let linux = host(HostOs::OtherUnix, &["/bin/zsh", "/bin/bash"], &[], None);
    assert_eq!(default_user_shell(&linux).shell_type, ShellType::Bash);
    let mac = host(HostOs::MacOs, &["/bin/zsh", "/bin/bash"], &[], None);
    assert_eq!(default_user_shell(&mac).shell_type, ShellType::Zsh);
    let login_sh = host(HostOs::OtherUnix, &["/bin/zsh", "/bin/bash", "/bin/sh"], &[], Some("/bin/sh"));
    assert_eq!(
        default_user_shell(&login_sh),
        DetectedShell { shell_type: ShellType::Sh, shell_path: "/bin/sh".to_string() }
    );
    let empty = host(HostOs::OtherUnix, &[], &[], None);
    assert_eq!(default_user_shell(&empty), ultimate_fallback_shell(&empty));
    assert_eq!(ultimate_fallback_shell(&empty).shell_path, "/bin/sh");
    let windows = host(HostOs::Windows, &[], &[], None);
    assert_eq!(
        default_user_shell_from_path(Some("/bin/zsh"), &windows),
        DetectedShell { shell_type: ShellType::Cmd, shell_path: "cmd.exe".to_string() }
    );
    assert_eq!(
        default_user_shell_from_path(Some("/usr/bin/fish"), &linux).shell_type,
        ShellType::Bash
    );
}

#[test]
fn model_provided_paths() {
    let linux = host(HostOs::OtherUnix, &["/bin/zsh"], &[], None);
    let err = get_shell_by_model_provided_path("/usr/bin/fish", &linux).unwrap_err();
    assert_eq!(
        err.to_string(),
        "unsupported shell `/usr/bin/fish`; expected zsh, bash, powershell, pwsh, sh, or cmd"
    );
    assert_eq!(
        get_shell_by_model_provided_path("/bin/zsh", &linux).unwrap(),
        DetectedShell { shell_type: ShellType::Zsh, shell_path: "/bin/zsh".to_string() }
    );
    let err = get_shell_by_model_provided_path("/opt/bash", &host(HostOs::OtherUnix, &[], &[], None))
        .unwrap_err();
    assert_eq!(err.to_string(), "could not resolve requested shell `/opt/bash`");
}

#[test]
fn shell_names() {
    assert_eq!(ShellType::Zsh.name(), "zsh");
    assert_eq!(ShellType::Bash.name(), "bash");
    assert_eq!(ShellType::PowerShell.name(), "powershell");
    assert_eq!(ShellType::Sh.name(), "sh");
    assert_eq!(ShellType::Cmd.name(), "cmd");
    let d = DetectedShell { shell_type: ShellType::Cmd, shell_path: "cmd.exe".to_string() };
    assert_eq!(d.name(), "cmd");
}

#[test]
fn marker_files_of_a_git_for_windows_bash() {
    assert_eq!(
        git_for_windows_marker_files(r"C:\Git\usr\bin\bash.exe"),
        vec![r"C:\Git\cmd\git.exe".to_string(), r"C:\Git\usr\bin\msys-2.0.dll".to_string()]
    );
    assert_eq!(
        git_for_windows_marker_files(r"C:\Git\bin\bash.exe"),
        vec![r"C:\Git\cmd\git.exe".to_string(), r"C:\Git\usr\bin\msys-2.0.dll".to_string()]
    );
    assert!(git_for_windows_marker_files(r"C:\tools\bash.exe").is_empty());
    assert!(git_for_windows_marker_files("bash.exe").is_empty());
    assert!(git_for_windows_marker_files(r"C:\Git\bin\zsh.exe").is_empty());
}

#[test]
fn binaries_to_resolve_names_every_shell_and_git() {
    assert_eq!(binaries_to_resolve(), vec!["zsh", "bash", "sh", "pwsh", "powershell", "cmd", "git"]);
}

#[test]
fn probe_list_covers_what_detection_looks_up() {
    let root = r"C:\Program Files\Git";
    let h = host(
        HostOs::Windows,
        &[],
        &[("git", r"C:\Program Files\Git\cmd\git.exe")],
        None,
    );
    let extra = vec![r"D:\tools\Git\bin\bash.exe".to_string()];
    let probe = paths_to_probe(&h, &extra);
    for expected in [
        "/bin/zsh".to_string(),
        "/bin/bash".to_string(),
        "/usr/bin/bash".to_string(),
        "/bin/sh".to_string(),
        r"C:\Program Files\PowerShell\7\pwsh.exe".to_string(),
        r"C:\Windows\System32\WindowsPowerShell\v1.0\powershell.exe".to_string(),
        r"C:\Program Files\Git\cmd\git.exe".to_string(),
        format!(r"{root}\bin\bash.exe"),
        format!(r"{root}\usr\bin\bash.exe"),
        format!(r"{root}\usr\bin\msys-2.0.dll"),
        r"D:\tools\Git\bin\bash.exe".to_string(),
        r"D:\tools\Git\cmd\git.exe".to_string(),
        r"D:\tools\Git\usr\bin\msys-2.0.dll".to_string(),
        r"C:\Program Files (x86)\Git\usr\bin\bash.exe".to_string(),
        r"C:\Program Files (x86)\Git\usr\bin\msys-2.0.dll".to_string(),
    ] {
        assert!(probe.contains(&expected), "missing {expected}");
    }

    // With the probed files recorded, detection finds the installation.
    let mut found = h;
    found.existing_files = probe
        .into_iter()
        .filter(|p| p.starts_with(root))
        .collect();
    let shell = find_git_bash_shell(GitBashPathHint::SearchPath, &found).unwrap();
    assert_eq!(shell.installation_root, root.to_string());
    assert_eq!(shell.shell.shell_path, format!(r"{root}\bin\bash.exe"));
}

#[test]
fn probe_list_on_unix_has_no_windows_powershell() {
    let h = host(HostOs::OtherUnix, &[], &[("zsh", "/usr/bin/zsh")], Some("/bin/zsh"));
    let probe = paths_to_probe(&h, &[]);
    assert!(probe.contains(&"/usr/local/bin/pwsh".to_string()));
    assert!(probe.contains(&"/usr/bin/zsh".to_string()));
    assert!(!probe.iter().any(|p| p.ends_with("powershell.exe")));
}

#[test]
fn windows_bash_ignores_unix_fallback_locations() {
    let h = host(HostOs::Windows, &["/bin/bash", "/usr/bin/bash"], &[], None);
    assert_eq!(get_shell(ShellType::Bash, None, &h), None);

    let mut files: Vec<String> = vec!["/bin/bash".to_string()];
    files.extend(git_for_windows_fixture(r"C:\Program Files\Git"));
    let h = windows_host_with(files);
    assert_eq!(
        get_shell(ShellType::Bash, None, &h),
        Some(DetectedShell {
            shell_type: ShellType::Bash,
            shell_path: r"C:\Program Files\Git\bin\bash.exe".to_string(),
        })
    );
}

#[test]
fn detection_reads_paths_component_by_component() {
    let posix = PathConvention::Posix;
    assert_eq!(detect_shell_type("/bin/zsh/.", posix), Some(ShellType::Zsh));
    assert_eq!(detect_shell_type("./zsh", posix), Some(ShellType::Zsh));
    assert_eq!(detect_shell_type("zsh/.", posix), None);
    assert_eq!(detect_shell_type("zsh/", posix), None);
}

#[test]
fn git_for_windows_on_a_unc_share() {
    let root = r"\\s\g";
    let h = windows_host_with(vec![
        format!(r"{root}\bin\bash.exe"),
        format!(r"{root}\cmd\git.exe"),
        format!(r"{root}\usr\bin\msys-2.0.dll"),
    ]);
    let configured = format!(r"{root}\bin\bash.exe");
    let shell = find_git_bash_shell(GitBashPathHint::Configured(configured.clone()), &h).unwrap();
    assert_eq!(shell.shell.shell_path, configured);
    assert_eq!(shell.installation_root, r"\\s\g\".to_string());
    assert_eq!(
        git_for_windows_install_root_from_git_exe(r"\\s\g\cmd\git.exe"),
        Some(r"\\s\g\".to_string())
    );
    assert_eq!(
        git_for_windows_install_root_from_bash(&configured, &h),
        Some(r"\\s\g\".to_string())
    );
    assert_eq!(
        git_bash_candidates_from_git_exe(r"\\s\g\cmd\git.exe"),
        vec![r"\\s\g\bin\bash.exe".to_string(), r"\\s\g\usr\bin\bash.exe".to_string()]
    );
}

#[test]
fn files_outside_the_probe_list_change_nothing() {
    let root = r"C:\Program Files\Git";
    let mut files = git_for_windows_fixture(root);
    files.push(r"C:\unrelated\bash.exe".to_string());
    files.push(r"D:\tools\zsh.exe".to_string());
    let full = HostEnvironment {
        os: HostOs::Windows,
        existing_files: files,
        which_results: vec![("git".to_string(), format!(r"{root}\cmd\git.exe"))],
        user_shell_path: None,
    };
    let probe = paths_to_probe(&full, &[]);
    let mut probed = HostEnvironment {
        os: HostOs::Windows,
        existing_files: Vec::new(),
        which_results: full.which_results.clone(),
        user_shell_path: None,
    };
    probed.existing_files = full
        .existing_files
        .iter()
        .filter(|f| probe.contains(f))
        .cloned()
        .collect();
    assert_eq!(probed.existing_files.len(), 4);
    assert_eq!(
        find_git_bash_shell(GitBashPathHint::SearchPath, &full),
        find_git_bash_shell(GitBashPathHint::SearchPath, &probed)
    );
    for t in [ShellType::Bash, ShellType::PowerShell, ShellType::Cmd, ShellType::Zsh, ShellType::Sh] {
        assert_eq!(get_shell(t, None, &full), get_shell(t, None, &probed));
    }
    assert_eq!(default_user_shell(&full), default_user_shell(&probed));
}
