use codex_git_bash::file_link_instructions::GitBashFileLinkInstructions;
use codex_git_bash::file_link_instructions::GitBashFileLinkInstructionsState;
use codex_git_bash::file_link_instructions::PreviousSectionState;

#[test]
fn snapshots() {
    let disabled = GitBashFileLinkInstructionsState::new(/*enabled*/ false);
    let enabled = GitBashFileLinkInstructionsState::new(/*enabled*/ true);
    let guidance = Some(GitBashFileLinkInstructions);

    // (previous, current, what the turn adds); a current section that is absent adds nothing.
    let cases = [
        (PreviousSectionState::Absent, None, None),
        (PreviousSectionState::Absent, Some(disabled), None),
        (PreviousSectionState::Absent, Some(enabled), guidance),
        (PreviousSectionState::Known(disabled.snapshot()), Some(enabled), guidance),
        (PreviousSectionState::Known(enabled.snapshot()), Some(enabled), None),
        (PreviousSectionState::Known(enabled.snapshot()), Some(disabled), None),
        (PreviousSectionState::Unknown, Some(disabled), None),
        (PreviousSectionState::Unknown, Some(enabled), None),
    ];
    for (previous, current, expected) in cases {
        let added = current.and_then(|state| state.render_diff(previous));
        assert_eq!(added, expected, "{previous:?} {current:?}");
    }
    assert_eq!(
        GitBashFileLinkInstructions.body(),
        "\n## Windows Git Bash file links\nUse Git Bash paths such as `/c/...` in commands and structured tool path arguments. For Markdown links to local files in your response, use native Windows absolute paths with forward slashes, such as `C:/...`, in the link destination. Codex App opens local file links using native Windows paths, so do not use Git Bash `/c/...` paths in Markdown link destinations. A Git Bash path `/c/work/file.rs` maps to `C:/work/file.rs`.\n"
    );
}

#[test]
fn retained_guidance_is_not_rendered_again() {
    let enabled = GitBashFileLinkInstructionsState::new(true);
    assert_eq!(
        enabled.render_diff(PreviousSectionState::Known(enabled.snapshot())),
        None
    );
}

#[test]
fn guidance_text() {
    let fragment = GitBashFileLinkInstructions;
    assert_eq!(fragment.role(), "developer");
    assert_eq!(fragment.content_kind(), "git_bash_file_link_instructions");
    assert_eq!(
        fragment.markers(),
        ("<git_bash_file_link_instructions>", "</git_bash_file_link_instructions>")
    );
    assert!(fragment.body().contains("Markdown links to local files"));
    assert!(fragment.body().contains("C:/..."));
    assert_eq!(GitBashFileLinkInstructionsState::id(), "git_bash_file_link_instructions");
}
