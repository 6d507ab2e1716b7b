use codex_git_bash::environment_context::push_xml_escaped_text;
use codex_git_bash::environment_context::render_special_path;
use codex_git_bash::environment_context::FileSystemAccessMode;
use codex_git_bash::environment_context::FileSystemContext;
use codex_git_bash::environment_context::FileSystemPath;
use codex_git_bash::environment_context::FileSystemSandboxEntry;
use codex_git_bash::environment_context::FileSystemSpecialPath;
use codex_git_bash::environment_context::ManagedFileSystemPermissions;
use codex_git_bash::environment_context::NetworkContext;
use codex_git_bash::environment_context::PermissionProfile;
use codex_git_bash::git_bash_path::PathDisplayStyle;

fn path_entry(path: &str, access: FileSystemAccessMode) -> FileSystemSandboxEntry {
    FileSystemSandboxEntry { path: FileSystemPath::Path { path: path.to_string() }, access }
}

#[test]
fn xml_text_is_escaped() {
    let mut out = String::from("x");
    push_xml_escaped_text(&mut out, r#"a<b>&"c'd"#);
    assert_eq!(out, "xa&lt;b&gt;&amp;&quot;c&apos;d");
    let mut plain = String::new();
    push_xml_escaped_text(&mut plain, "/c/Users/Alice Smith");
    assert_eq!(plain, "/c/Users/Alice Smith");
}

#[test]
fn restricted_profile_renders_entries_in_git_bash_style() {
    let profile = PermissionProfile::Managed {
        file_system: ManagedFileSystemPermissions::Restricted {
            entries: vec![
                path_entry(r"C:\work", FileSystemAccessMode::Write),
                FileSystemSandboxEntry {
                    path: FileSystemPath::GlobPattern { pattern: r"C:\work\**\*.env".to_string() },
                    access: FileSystemAccessMode::Deny,
                },
                path_entry(r"C:\work", FileSystemAccessMode::Write),
                FileSystemSandboxEntry {
                    path: FileSystemPath::Special {
                        value: FileSystemSpecialPath::ProjectRoots { subpath: Some(r"a\b".to_string()) },
                    },
                    access: FileSystemAccessMode::Read,
                },
            ],
            glob_scan_max_depth: Some(12),
        },
    };
    let roots = vec![r"C:\work".to_string(), r"D:\a&b".to_string()];
    let context = FileSystemContext::from_permission_profile(profile, &roots, PathDisplayStyle::GitBash);
    assert_eq!(
        context.render(),
        [
            "<filesystem><workspace_roots><root>/c/work</root><root>/d/a&amp;b</root></workspace_roots>",
            "<permission_profile type=\"managed\"><file_system type=\"restricted\" glob_scan_max_depth=\"12\">",
            "<entry access=\"write\"><path>/c/work</path></entry>",
            "<entry access=\"deny\" escalatable=\"false\"><glob>/c/work/**/*.env</glob></entry>",
            "<entry access=\"read\"><special>:workspace_roots/a/b</special></entry>",
            "</file_system></permission_profile></filesystem>",
        ]
        .join("")
    );
}

#[test]
fn empty_and_unrestricted_profiles() {
    let empty = FileSystemContext::from_permission_profile(
        PermissionProfile::Managed {
            file_system: ManagedFileSystemPermissions::Restricted { entries: Vec::new(), glob_scan_max_depth: None },
        },
        &[],
        PathDisplayStyle::Native,
    );
    assert_eq!(
        empty.render(),
        "<filesystem><permission_profile type=\"managed\"><file_system type=\"restricted\" /></permission_profile></filesystem>"
    );
    let unrestricted = FileSystemContext::from_permission_profile(
        PermissionProfile::Managed { file_system: ManagedFileSystemPermissions::Unrestricted },
        &[],
        PathDisplayStyle::Native,
    );
    assert_eq!(
        unrestricted.render(),
        "<filesystem><permission_profile type=\"managed\"><file_system type=\"unrestricted\" /></permission_profile></filesystem>"
    );
    let disabled = FileSystemContext::from_permission_profile(
        PermissionProfile::Disabled,
        &["/home/a".to_string()],
        PathDisplayStyle::Native,
    );
    assert_eq!(
        disabled.render(),
        "<filesystem><workspace_roots><root>/home/a</root></workspace_roots><permission_profile type=\"disabled\"><file_system type=\"unrestricted\" /></permission_profile></filesystem>"
    );
    let external = FileSystemContext::from_permission_profile(PermissionProfile::External, &[], PathDisplayStyle::Native);
    assert_eq!(
        external.render(),
        "<filesystem><permission_profile type=\"external\"><file_system type=\"external\" /></permission_profile></filesystem>"
    );
}

#[test]
fn special_paths() {
    let native = PathDisplayStyle::Native;
    assert_eq!(render_special_path(&FileSystemSpecialPath::Root, native), ":root");
    assert_eq!(render_special_path(&FileSystemSpecialPath::Minimal, native), ":minimal");
    assert_eq!(render_special_path(&FileSystemSpecialPath::Tmpdir, native), ":tmpdir");
    assert_eq!(render_special_path(&FileSystemSpecialPath::SlashTmp, native), ":slash_tmp");
    assert_eq!(
        render_special_path(&FileSystemSpecialPath::ProjectRoots { subpath: None }, native),
        ":workspace_roots"
    );
    assert_eq!(
        render_special_path(
            &FileSystemSpecialPath::Unknown { path: ":custom".to_string(), subpath: Some(r"x\y".to_string()) },
            native
        ),
        r":custom/x\y"
    );
}

#[test]
fn network_rendering() {
    let enabled = NetworkContext::new(
        true,
        vec!["a.com".to_string(), "b.org".to_string()],
        vec![],
    );
    assert_eq!(enabled.render(), "<network enabled=\"true\"><allowed>a.com,b.org</allowed></network>");
    let both = NetworkContext::new(true, vec!["a.com".to_string()], vec!["c.net".to_string()]);
    assert_eq!(
        both.render(),
        "<network enabled=\"true\"><allowed>a.com</allowed><denied>c.net</denied></network>"
    );
    let disabled = NetworkContext::new(false, vec!["a.com".to_string()], vec![]);
    assert_eq!(disabled.render(), "<network enabled=\"false\"></network>");
    assert_eq!(NetworkContext::default().render(), "<network enabled=\"false\"></network>");
}
