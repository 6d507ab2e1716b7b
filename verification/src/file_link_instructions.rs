//! Guidance for the model on how to write links to local files when the shell is
//! Git Bash on Windows, and when that guidance is added to the conversation.
use vstd::prelude::*;

verus! {

/// The developer message that explains Git Bash paths and Markdown file links.
#[derive(Debug, Clone, Copy, PartialEq, Eq, Structural)]
pub struct GitBashFileLinkInstructions;

impl GitBashFileLinkInstructions {
    /// The kind of content item that carries the guidance.
    pub fn content_kind(&self) -> (r: String)
        ensures
            r@ == "git_bash_file_link_instructions"@,
    {
        "git_bash_file_link_instructions".to_string()
    }

    /// The role of the message that carries the guidance.
    pub fn role(&self) -> (r: &'static str)
        ensures
            r@ == "developer"@,
    {
        "developer"
    }

    /// The markers that open and close the guidance.
    pub fn markers(&self) -> (r: (&'static str, &'static str))
        ensures
            r.0@ == "<git_bash_file_link_instructions>"@,
            r.1@ == "</git_bash_file_link_instructions>"@,
    {
        Self::type_markers()
    }

    /// The markers that open and close the guidance.
    pub fn type_markers() -> (r: (&'static str, &'static str))
        ensures
            r.0@ == "<git_bash_file_link_instructions>"@,
            r.1@ == "</git_bash_file_link_instructions>"@,
    {
        ("<git_bash_file_link_instructions>", "</git_bash_file_link_instructions>")
    }

    /// The text of the guidance.
    pub fn body(&self) -> (r: String)
        ensures
            r@ == "\n## Windows Git Bash file links\nUse Git Bash paths such as `/c/...` in commands and structured tool path arguments. For Markdown links to local files in your response, use native Windows absolute paths with forward slashes, such as `C:/...`, in the link destination. Codex App opens local file links using native Windows paths, so do not use Git Bash `/c/...` paths in Markdown link destinations. A Git Bash path `/c/work/file.rs` maps to `C:/work/file.rs`.\n"@,
    {
        "\n## Windows Git Bash file links\nUse Git Bash paths such as `/c/...` in commands and structured tool path arguments. For Markdown links to local files in your response, use native Windows absolute paths with forward slashes, such as `C:/...`, in the link destination. Codex App opens local file links using native Windows paths, so do not use Git Bash `/c/...` paths in Markdown link destinations. A Git Bash path `/c/work/file.rs` maps to `C:/work/file.rs`.\n".to_string()
    }
}

/// What the conversation is known to hold of a section before a new turn.
#[derive(Debug, Clone, Copy, PartialEq, Eq, Structural)]
pub enum PreviousSectionState {
    /// The section was never shown.
    Absent,
    /// The section was shown with this snapshot.
    Known(bool),
    /// The section may have been shown, with an unknown snapshot.
    Unknown,
}

/// Whether Windows Git Bash file-link guidance should be visible to the model.
#[derive(Clone, Copy, Debug, Default, PartialEq, Eq, Structural)]
pub struct GitBashFileLinkInstructionsState {
    enabled: bool,
}

/// The guidance is added when it is enabled and the conversation is not known, or not
/// suspected, to hold it already.
pub open spec fn spec_render_diff(enabled: bool, previous: PreviousSectionState) -> bool {
    enabled && (previous == PreviousSectionState::Absent || previous == PreviousSectionState::Known(
        false,
    ))
}

impl GitBashFileLinkInstructionsState {
    /// The identifier of the section.
    pub fn id() -> (r: &'static str)
        ensures
            r@ == "git_bash_file_link_instructions"@,
    {
        "git_bash_file_link_instructions"
    }

    pub fn new(enabled: bool) -> (r: Self)
        ensures
            r.snapshot_spec() == enabled,
    {
        Self { enabled }
    }

    pub closed spec fn snapshot_spec(self) -> bool {
        self.enabled
    }

    /// What is remembered of the section once shown.
    pub fn snapshot(&self) -> (r: bool)
        ensures
            r == self.snapshot_spec(),
    {
        self.enabled
    }

    /// The guidance to add to the conversation, if any.
    pub fn render_diff(&self, previous: PreviousSectionState) -> (r: Option<
        GitBashFileLinkInstructions,
    >)
        ensures
            r is Some <==> spec_render_diff(self.snapshot_spec(), previous),
    {
        let known_enabled = match previous {
            PreviousSectionState::Known(p) => p,
            _ => false,
        };
        let unknown = match previous {
            PreviousSectionState::Unknown => true,
            _ => false,
        };
        if !self.enabled || known_enabled || unknown {
            return None;
        }
        Some(GitBashFileLinkInstructions)
    }
}

/// Once the guidance of a state is shown, rendering the same state again adds nothing.
pub proof fn lemma_guidance_not_repeated(state: GitBashFileLinkInstructionsState)
    ensures
        !spec_render_diff(
            state.snapshot_spec(),
            PreviousSectionState::Known(state.snapshot_spec()),
        ),
{
}

/// A disabled state never adds the guidance.
pub proof fn lemma_disabled_adds_nothing(previous: PreviousSectionState)
    ensures
        !spec_render_diff(false, previous),
{
}

/// Enabled guidance is added to a conversation that is known not to hold it (it was
/// never shown, or shown while disabled); it is never added where it may already be.
pub proof fn lemma_enabled_guidance_is_added_once(previous: PreviousSectionState)
    ensures
        spec_render_diff(true, PreviousSectionState::Absent),
        spec_render_diff(true, PreviousSectionState::Known(false)),
        !spec_render_diff(true, PreviousSectionState::Unknown),
        spec_render_diff(true, previous) <==> (previous == PreviousSectionState::Absent || previous
            == PreviousSectionState::Known(false)),
{
}

} // verus!
