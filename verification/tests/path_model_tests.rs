use codex_git_bash::git_bash_path::PathConvention;
use codex_git_bash::path_model::path_file_name;
use codex_git_bash::path_model::path_file_stem;
use codex_git_bash::path_model::path_has_several_components;
use codex_git_bash::path_model::path_is_absolute;
use codex_git_bash::path_model::path_is_single_component;
use codex_git_bash::path_model::path_join;
use codex_git_bash::path_model::path_parent;

const WIN: PathConvention = PathConvention::Windows;
const POSIX: PathConvention = PathConvention::Posix;

fn some(s: &str) -> Option<String> {
    Some(s.to_string())
}

#[test]
fn dot_components_are_skipped() {
    assert_eq!(path_file_name(POSIX, "/bin/zsh/."), some("zsh"));
    assert_eq!(path_file_stem(POSIX, "/bin/zsh/."), some("zsh"));
    assert_eq!(path_parent(POSIX, "/bin/zsh/."), some("/bin"));
    assert_eq!(path_file_name(POSIX, "a/./b"), some("b"));
    assert_eq!(path_parent(POSIX, "a/./b"), some("a"));
    assert_eq!(path_parent(POSIX, "a/."), some(""));
    assert_eq!(path_parent(POSIX, "./a"), some("."));
    assert_eq!(path_parent(POSIX, "."), some(""));
    assert_eq!(path_parent(POSIX, "./"), some(""));
    assert_eq!(path_file_name(POSIX, "."), None);
    assert_eq!(path_file_name(POSIX, "a/.."), None);
    assert_eq!(path_parent(POSIX, "a/.."), some("a"));
    assert_eq!(path_parent(POSIX, "/"), None);
    assert_eq!(path_parent(POSIX, ""), None);
    assert_eq!(path_file_name(WIN, r"C:\Git\bin\.\"), some("bin"));
}

#[test]
fn unc_paths_have_an_implicit_root() {
    assert!(path_is_absolute(WIN, r"\\s\g\bin\bash.exe"));
    assert!(path_is_absolute(WIN, r"\\s\g"));
    assert!(path_is_absolute(WIN, "//s/g/bin"));
    assert!(!path_is_absolute(WIN, r"\\s"));
    assert!(!path_is_absolute(WIN, r"\Git\bin"));
    assert!(!path_is_absolute(WIN, r"C:Git"));
    assert!(path_is_absolute(WIN, r"C:\Git"));
    assert_eq!(path_parent(WIN, r"\\s\g\bin\bash.exe"), some(r"\\s\g\bin"));
    assert_eq!(path_parent(WIN, r"\\s\g\bin"), some(r"\\s\g\"));
    assert_eq!(path_parent(WIN, r"\\s\g\"), None);
    assert_eq!(path_parent(WIN, r"\\s\g"), None);
    assert_eq!(path_file_name(WIN, r"\\s\g"), None);
    assert_eq!(path_file_name(WIN, r"\\s\g\bin"), some("bin"));
    assert_eq!(path_join(WIN, r"\\s\g", "cmd"), r"\\s\g\cmd");
    assert_eq!(path_join(WIN, r"\\s\g\", "cmd"), r"\\s\g\cmd");
}

#[test]
fn verbatim_paths_separate_only_on_backslash() {
    assert!(path_is_absolute(WIN, r"\\?\C:\Git"));
    assert!(path_is_absolute(WIN, r"\\?\pipe"));
    assert!(path_is_absolute(WIN, r"\\?\UNC\s\g\x"));
    assert!(path_is_absolute(WIN, r"\\.\COM1"));
    assert_eq!(path_file_name(WIN, r"\\?\C:\a/b"), some("a/b"));
    assert_eq!(path_file_name(WIN, r"\\?\C:\a\."), None);
    assert_eq!(path_parent(WIN, r"\\?\C:\a\."), some(r"\\?\C:\a"));
    assert_eq!(path_parent(WIN, r"\\?\C:\Git"), some(r"\\?\C:\"));
    assert_eq!(path_parent(WIN, r"\\?\UNC\s\g\bin"), some(r"\\?\UNC\s\g\"));
    assert_eq!(path_join(WIN, r"\\?\C:\Git", "cmd"), r"\\?\C:\Git\cmd");
    assert_eq!(path_join(WIN, r"\\?\C:\Git\\x\", "cmd"), r"\\?\C:\Git\x\cmd");
    assert_eq!(path_join(WIN, r"\\?\C:", "x"), r"\\?\C:\x");
    assert_eq!(path_join(WIN, "C:", "x"), "C:x");
    assert_eq!(path_join(WIN, r"C:\Git", "cmd"), r"C:\Git\cmd");
    assert_eq!(path_join(POSIX, "/usr", "bin"), "/usr/bin");
}

#[test]
fn component_counts() {
    assert!(!path_has_several_components(WIN, "bash.exe"));
    assert!(!path_has_several_components(WIN, "bash.exe/."));
    assert!(path_has_several_components(WIN, r"bin\bash.exe"));
    assert!(path_has_several_components(WIN, "./bash.exe"));
    assert!(path_has_several_components(WIN, r"C:bash.exe"));
    assert!(!path_has_several_components(WIN, "C:."));
    assert!(path_has_several_components(WIN, r"\\s\g"));
    assert!(path_is_single_component(POSIX, "zsh/."));
    assert!(path_is_single_component(POSIX, "zsh//"));
    assert!(!path_is_single_component(POSIX, "./zsh"));
    assert!(!path_is_single_component(POSIX, "/zsh"));
}
