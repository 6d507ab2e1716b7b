//! Shell detection, Git Bash path conversion and model-context rendering.
pub mod text;
pub mod git_bash_path;
pub mod passwd_lookup;
pub mod path_model;
pub mod shell_detect;
pub mod shell;
pub mod environment_context;
pub mod tool_arguments;
pub mod file_link_instructions;
pub mod migrations;
