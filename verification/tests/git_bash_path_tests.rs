use codex_git_bash::git_bash_path::format_native_path_for_shell;
use codex_git_bash::git_bash_path::format_path_text_for_shell;
use codex_git_bash::git_bash_path::git_bash_path_to_windows_path;
use codex_git_bash::git_bash_path::is_windows_separator;
use codex_git_bash::git_bash_path::path_display_style_for_shell;
use codex_git_bash::git_bash_path::PathConvention;
use codex_git_bash::git_bash_path::PathDisplayStyle;

#[test]
fn formats_windows_paths_for_git_bash() {
    assert_eq!(
        format_path_text_for_shell(r"C:\Users\Alice Smith\Desktop", PathDisplayStyle::GitBash),
        "/c/Users/Alice Smith/Desktop"
    );
    assert_eq!(
        format_path_text_for_shell("D:/Workspace/codex", PathDisplayStyle::GitBash),
        "/d/Workspace/codex"
    );
    assert_eq!(
        format_path_text_for_shell(r"relative\path", PathDisplayStyle::GitBash),
        "relative/path"
    );
}

#[test]
fn parses_git_bash_drive_paths_for_windows() {
    assert_eq!(
        git_bash_path_to_windows_path("/c/Users/Alice Smith/Desktop").as_deref(),
        Some(r"C:\Users\Alice Smith\Desktop")
    );
    assert_eq!(git_bash_path_to_windows_path("/d").as_deref(), Some(r"D:\"));
    assert_eq!(
        git_bash_path_to_windows_path("//server/share/project").as_deref(),
        Some(r"\\server\share\project")
    );
    assert_eq!(git_bash_path_to_windows_path("/usr/bin"), None);
    assert_eq!(git_bash_path_to_windows_path("relative/path"), None);
}

#[test]
fn converts_drive_and_unc_paths() {
    assert_eq!(
        git_bash_path_to_windows_path("/c/Users/Alice Smith/Desktop").as_deref(),
        Some(r"C:\Users\Alice Smith\Desktop")
    );
    assert_eq!(git_bash_path_to_windows_path("/d").as_deref(), Some(r"D:\"));
    assert_eq!(
        git_bash_path_to_windows_path("//server/share/project").as_deref(),
        Some(r"\\server\share\project")
    );
}

#[test]
fn leaves_non_windows_git_bash_paths_unresolved() {
    assert_eq!(git_bash_path_to_windows_path("/usr/bin"), None);
    assert_eq!(git_bash_path_to_windows_path("relative/path"), None);
    assert_eq!(git_bash_path_to_windows_path("//"), None);
}

#[test]
fn drive_letters_and_trailing_separators() {
    assert_eq!(git_bash_path_to_windows_path("/d/").as_deref(), Some(r"D:\"));
    assert_eq!(git_bash_path_to_windows_path("/Z/x/y").as_deref(), Some(r"Z:\x\y"));
    assert_eq!(git_bash_path_to_windows_path("/1/x"), None);
    assert_eq!(git_bash_path_to_windows_path("/"), None);
    assert_eq!(git_bash_path_to_windows_path(""), None);
    assert_eq!(git_bash_path_to_windows_path("///x").as_deref(), Some(r"\\\x"));
}

#[test]
fn windows_drive_path_round_trips_through_git_bash() {
    let windows = r"C:\Users\Alice\project";
    let git_bash = format_path_text_for_shell(windows, PathDisplayStyle::GitBash);
    assert_eq!(git_bash, "/c/Users/Alice/project");
    assert_eq!(git_bash_path_to_windows_path(&git_bash).as_deref(), Some(windows));
}

#[test]
fn unc_path_round_trips_through_git_bash() {
    let windows = r"\\server\share\dir";
    let git_bash = format_path_text_for_shell(windows, PathDisplayStyle::GitBash);
    assert_eq!(git_bash, "//server/share/dir");
    assert_eq!(git_bash_path_to_windows_path(&git_bash).as_deref(), Some(windows));
}

#[test]
fn git_bash_path_round_trips_through_windows() {
    let git_bash = "/d/work/file.rs";
    let windows = git_bash_path_to_windows_path(git_bash).unwrap();
    assert_eq!(windows, r"D:\work\file.rs");
    assert_eq!(format_path_text_for_shell(&windows, PathDisplayStyle::GitBash), git_bash);
}

#[test]
fn drive_root_formats_with_trailing_slash() {
    assert_eq!(format_path_text_for_shell(r"C:\", PathDisplayStyle::GitBash), "/c/");
    assert_eq!(format_path_text_for_shell("c:/", PathDisplayStyle::GitBash), "/c/");
}

#[test]
fn native_style_keeps_text() {
    assert_eq!(
        format_path_text_for_shell(r"C:\Users\Alice", PathDisplayStyle::Native),
        r"C:\Users\Alice"
    );
    assert_eq!(
        format_native_path_for_shell("/home/alice", PathDisplayStyle::Native),
        "/home/alice"
    );
    assert_eq!(
        format_native_path_for_shell(r"C:\a\b", PathDisplayStyle::GitBash),
        "/c/a/b"
    );
}

#[test]
fn git_bash_display_has_no_backslash() {
    for path in [r"C:\a\b", r"\\srv\share", r"rel\a\b", r"x:\\", r"\single"] {
        let shown = format_path_text_for_shell(path, PathDisplayStyle::GitBash);
        assert!(!shown.contains('\\'), "{shown}");
    }
}

#[test]
fn display_style_follows_shell_and_convention() {
    assert_eq!(
        path_display_style_for_shell(Some("bash"), Some(PathConvention::Windows)),
        PathDisplayStyle::GitBash
    );
    assert_eq!(
        path_display_style_for_shell(Some("bash"), Some(PathConvention::Posix)),
        PathDisplayStyle::Native
    );
    assert_eq!(
        path_display_style_for_shell(Some("powershell"), Some(PathConvention::Windows)),
        PathDisplayStyle::Native
    );
    assert_eq!(
        path_display_style_for_shell(None, Some(PathConvention::Windows)),
        PathDisplayStyle::Native
    );
    assert_eq!(path_display_style_for_shell(Some("bash"), None), PathDisplayStyle::Native);
}

#[test]
fn windows_separators() {
    assert!(is_windows_separator(b'\\'));
    assert!(is_windows_separator(b'/'));
    assert!(!is_windows_separator(b':'));
}
