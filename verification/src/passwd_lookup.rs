//! Decisions of the lookup of the current user's login shell in the password
//! database. The caller performs each `getpwuid_r` call with a buffer of the length
//! chosen here and reports how it went; these functions say what to do next.
use vstd::prelude::*;

verus! {

/// The largest buffer the lookup grows to, in bytes.
pub const MAX_PASSWD_BUFFER_LEN: usize = 1048576;

/// The buffer length used when the system suggests none.
pub const DEFAULT_PASSWD_BUFFER_LEN: usize = 1024;

/// What the caller of `getpwuid_r` reported.
#[derive(Debug, Clone, Copy, PartialEq, Eq, Structural)]
pub enum PasswdLookupOutcome {
    /// The call succeeded: `found` tells whether there is an entry for the user and
    /// it names a shell.
    Completed { found: bool },
    /// The buffer was too small (`ERANGE`).
    BufferTooSmall,
    /// Any other error.
    Failed,
}

/// What the caller does next.
#[derive(Debug, Clone, Copy, PartialEq, Eq, Structural)]
pub enum PasswdLookupStep {
    /// Read the shell from the entry that was found.
    UseEntry,
    /// Give up: the user has no known login shell.
    GiveUp,
    /// Call again with a buffer of this many bytes.
    Retry(usize),
}

pub open spec fn spec_initial_buffer_len(suggested: int) -> int {
    if 0 < suggested <= usize::MAX {
        suggested
    } else {
        DEFAULT_PASSWD_BUFFER_LEN as int
    }
}

pub open spec fn spec_lookup_step(outcome: PasswdLookupOutcome, len: int) -> PasswdLookupStep {
    match outcome {
        PasswdLookupOutcome::Completed { found } => if found {
            PasswdLookupStep::UseEntry
        } else {
            PasswdLookupStep::GiveUp
        },
        PasswdLookupOutcome::Failed => PasswdLookupStep::GiveUp,
        PasswdLookupOutcome::BufferTooSmall => if 2 * len <= MAX_PASSWD_BUFFER_LEN {
            PasswdLookupStep::Retry((2 * len) as usize)
        } else {
            PasswdLookupStep::GiveUp
        },
    }
}

/// The first buffer length: the length the system suggests (`sysconf`) when it is
/// positive and fits in `usize`, otherwise 1024 bytes.
pub fn initial_passwd_buffer_len(suggested: i64) -> (r: usize)
    ensures
        r == spec_initial_buffer_len(suggested as int),
{
    if suggested > 0 && (suggested as u128) <= (usize::MAX as u128) {
        suggested as usize
    } else {
        DEFAULT_PASSWD_BUFFER_LEN
    }
}

/// The next step after a call with a buffer of `len` bytes: use the entry when one was
/// found, give up when there is none or the call failed, and on `ERANGE` retry with a
/// buffer twice as long, unless that would exceed 1 MiB.
pub fn passwd_lookup_step(outcome: PasswdLookupOutcome, len: usize) -> (r: PasswdLookupStep)
    ensures
        r == spec_lookup_step(outcome, len as int),
{
    match outcome {
        PasswdLookupOutcome::Completed { found } => if found {
            PasswdLookupStep::UseEntry
        } else {
            PasswdLookupStep::GiveUp
        },
        PasswdLookupOutcome::Failed => PasswdLookupStep::GiveUp,
        PasswdLookupOutcome::BufferTooSmall => match len.checked_mul(2) {
            Some(new_len) => if new_len > MAX_PASSWD_BUFFER_LEN {
                PasswdLookupStep::GiveUp
            } else {
                PasswdLookupStep::Retry(new_len)
            },
            None => PasswdLookupStep::GiveUp,
        },
    }
}

/// The lookup ends: every retry asks for a strictly larger buffer that stays within
/// the limit, so at most a bounded number of calls are made.
pub proof fn lemma_lookup_retries_grow_within_limit(outcome: PasswdLookupOutcome, len: usize)
    requires
        len > 0,
    ensures
        spec_lookup_step(outcome, len as int) matches PasswdLookupStep::Retry(n) ==> len < n
            <= MAX_PASSWD_BUFFER_LEN,
{
}

/// How many times the lookup retries from a buffer of `len` bytes when every call
/// reports a buffer too small.
pub open spec fn retries_from(len: int) -> nat
    decreases MAX_PASSWD_BUFFER_LEN + 1 - len,
{
    if len >= 1 && spec_lookup_step(PasswdLookupOutcome::BufferTooSmall, len) is Retry {
        1 + retries_from(2 * len)
    } else {
        0
    }
}

proof fn lemma_retries_antitone(a: int, b: int)
    requires
        1 <= a <= b,
    ensures
        retries_from(b) <= retries_from(a),
    decreases MAX_PASSWD_BUFFER_LEN + 1 - a,
{
    if 2 * b <= MAX_PASSWD_BUFFER_LEN {
        lemma_retries_antitone(2 * a, 2 * b);
    }
}

/// The lookup makes at most 21 calls: its first buffer has at least one byte, and from
/// any such buffer it retries at most 20 times.
pub proof fn lemma_lookup_retries_at_most_twenty(suggested: int, len: int)
    requires
        len >= 1,
    ensures
        spec_initial_buffer_len(suggested) >= 1,
        retries_from(len) <= 20,
{
    lemma_retries_antitone(1, len);
    assert(retries_from(1048576) == 0);
    assert(retries_from(524288) == 1);
    assert(retries_from(262144) == 2);
    assert(retries_from(131072) == 3);
    assert(retries_from(65536) == 4);
    assert(retries_from(32768) == 5);
    assert(retries_from(16384) == 6);
    assert(retries_from(8192) == 7);
    assert(retries_from(4096) == 8);
    assert(retries_from(2048) == 9);
    assert(retries_from(1024) == 10);
    assert(retries_from(512) == 11);
    assert(retries_from(256) == 12);
    assert(retries_from(128) == 13);
    assert(retries_from(64) == 14);
    assert(retries_from(32) == 15);
    assert(retries_from(16) == 16);
    assert(retries_from(8) == 17);
    assert(retries_from(4) == 18);
    assert(retries_from(2) == 19);
    assert(retries_from(1) == 20);
}

} // verus!
