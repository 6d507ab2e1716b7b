use codex_git_bash::passwd_lookup::initial_passwd_buffer_len;
use codex_git_bash::passwd_lookup::passwd_lookup_step;
use codex_git_bash::passwd_lookup::PasswdLookupOutcome;
use codex_git_bash::passwd_lookup::PasswdLookupStep;

#[test]
fn initial_buffer_uses_the_suggested_length_when_positive() {
    assert_eq!(initial_passwd_buffer_len(4096), 4096);
    assert_eq!(initial_passwd_buffer_len(1), 1);
    assert_eq!(initial_passwd_buffer_len(0), 1024);
    assert_eq!(initial_passwd_buffer_len(-1), 1024);
}

#[test]
fn found_entry_is_used_and_missing_entry_gives_up() {
    assert_eq!(
        passwd_lookup_step(PasswdLookupOutcome::Completed { found: true }, 1024),
        PasswdLookupStep::UseEntry
    );
    assert_eq!(
        passwd_lookup_step(PasswdLookupOutcome::Completed { found: false }, 1024),
        PasswdLookupStep::GiveUp
    );
    assert_eq!(passwd_lookup_step(PasswdLookupOutcome::Failed, 1024), PasswdLookupStep::GiveUp);
}

#[test]
fn too_small_buffer_doubles_up_to_one_mebibyte() {
    assert_eq!(
        passwd_lookup_step(PasswdLookupOutcome::BufferTooSmall, 1024),
        PasswdLookupStep::Retry(2048)
    );
    assert_eq!(
        passwd_lookup_step(PasswdLookupOutcome::BufferTooSmall, 512 * 1024),
        PasswdLookupStep::Retry(1024 * 1024)
    );
    assert_eq!(
        passwd_lookup_step(PasswdLookupOutcome::BufferTooSmall, 1024 * 1024),
        PasswdLookupStep::GiveUp
    );
    assert_eq!(
        passwd_lookup_step(PasswdLookupOutcome::BufferTooSmall, usize::MAX),
        PasswdLookupStep::GiveUp
    );
}

#[test]
fn retries_from_the_default_length_end_after_ten_doublings() {
    let mut len = initial_passwd_buffer_len(0);
    let mut calls = 1;
    while let PasswdLookupStep::Retry(next) = passwd_lookup_step(PasswdLookupOutcome::BufferTooSmall, len) {
        assert!(next > len);
        len = next;
        calls += 1;
    }
    assert_eq!(len, 1024 * 1024);
    assert_eq!(calls, 11);
}

#[test]
fn retries_from_one_byte_are_at_most_twenty() {
    let mut len = 1;
    let mut retries = 0;
    while let PasswdLookupStep::Retry(next) = passwd_lookup_step(PasswdLookupOutcome::BufferTooSmall, len) {
        len = next;
        retries += 1;
    }
    assert_eq!(retries, 20);
    assert_eq!(len, 1024 * 1024);
}
