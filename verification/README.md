# codex_git_bash

Windows Git Bash support for a coding agent, verified with Verus: which shell runs
the model's commands, how Git for Windows' Bash is discovered, how paths are shown to
the model and turned back into Windows paths, and how SQLite migrations recorded with
other line endings are accepted.

## Layout

- `src/` — the verified library.
  - `git_bash_path.rs`: Git Bash ⇄ Windows path spellings and display styles.
  - `path_model.rs`: how `std::path` reads Windows and POSIX paths (drive, UNC,
    device and verbatim prefixes, roots, `.` components; file name, stem, parent,
    join).
  - `shell_detect.rs`: recognising shells, finding them on a host described by a
    `HostEnvironment`, Git for Windows discovery, and the lists of paths and binaries
    a caller must look up to describe a host.
  - `shell.rs`: the session shell, its command line, and the `[windows]` settings.
  - `passwd_lookup.rs`: the buffer decisions of the password-database lookup.
  - `environment_context.rs`: the `<filesystem>` and `<network>` context sections.
  - `tool_arguments.rs`: rewriting Git Bash paths in the JSON text of tool-call
    arguments.
  - `file_link_instructions.rs`: when the Markdown file-link guidance is added.
  - `migrations.rs`: line-ending-tolerant migration checksums and the recency
    migration repair steps.
  - `text.rs`: character-sequence helpers shared by the modules above.
- `tests/` — tests of the library.
- `app/` — unverified code around the library: probing the machine (files, `which`,
  `getpwuid_r`), serde forms of the shell types, and SQLite access.
