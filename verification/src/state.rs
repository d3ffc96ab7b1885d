//! State file locations and the small values shared by persistence code.
//!
//! State files live in `.git/sloc-guard/` when the project root holds a `.git` directory,
//! and in `.sloc-guard/` otherwise. Whether `.git` is a directory is asked of the
//! filesystem by the caller; the path arithmetic here is pure.
use vstd::prelude::*;

use crate::text::concat3;
use vstd::string::StringExecFns;

verus! {

/// Default lock timeout in milliseconds.
pub const DEFAULT_LOCK_TIMEOUT_MS: u64 = 5000;

/// Polling interval for lock acquisition in milliseconds.
pub const LOCK_POLL_INTERVAL_MS: u64 = 50;

/// The current Unix time in whole seconds, or `None` when the clock reads a time before the
/// epoch. This is `SystemTime::now().duration_since(UNIX_EPOCH)`, taken as seconds; nothing is
/// promised of the value, which depends on the clock.
#[verifier::external_body]
pub fn try_current_unix_timestamp() -> (r: Option<u64>) {
    std::time::SystemTime::now().duration_since(std::time::UNIX_EPOCH).ok().map(|d| d.as_secs())
}

/// `Path::join` of a base path and a relative, non-empty component on a Unix host: the
/// component alone when the base is empty, else the two separated by exactly one `/`.
pub open spec fn join_spec(base: Seq<char>, component: Seq<char>) -> Seq<char> {
    if base.len() == 0 {
        component
    } else if base.last() == '/' {
        base + component
    } else {
        base + seq!['/'] + component
    }
}

/// Joins a relative component onto a path, as `Path::join` does on a Unix host.
pub fn join_path(base: &str, component: &str) -> (r: String)
    ensures
        r@ == join_spec(base@, component@),
{
    let b = crate::text::chars_of(base);
    if b.len() == 0 {
        String::from_str(component)
    } else if b[b.len() - 1] == '/' {
        crate::text::concat2(base, component)
    } else {
        let r = concat3(base, "/", component);
        proof {
            reveal_strlit("/");
        }
        r
    }
}

/// The state directory of a project: `<root>/.git/sloc-guard` when the root holds a `.git`
/// directory (`has_git_dir`), else `<root>/.sloc-guard`.
pub open spec fn state_dir_spec(project_root: Seq<char>, has_git_dir: bool) -> Seq<char> {
    if has_git_dir {
        join_spec(join_spec(project_root, ".git"@), "sloc-guard"@)
    } else {
        join_spec(project_root, ".sloc-guard"@)
    }
}

/// The state directory for cache and history files.
///
/// `has_git_dir` says whether `<project_root>/.git` is a directory; only the project root itself
/// is consulted, not its parents.
pub fn detect_state_dir(project_root: &str, has_git_dir: bool) -> (r: String)
    ensures
        r@ == state_dir_spec(project_root@, has_git_dir),
{
    if has_git_dir {
        let git_dir = join_path(project_root, ".git");
        join_path(git_dir.as_str(), "sloc-guard")
    } else {
        join_path(project_root, ".sloc-guard")
    }
}

/// The cache file path of a project: `cache.json` in its state directory.
pub fn cache_path(project_root: &str, has_git_dir: bool) -> (r: String)
    ensures
        r@ == join_spec(state_dir_spec(project_root@, has_git_dir), "cache.json"@),
{
    let dir = detect_state_dir(project_root, has_git_dir);
    join_path(dir.as_str(), "cache.json")
}

/// The history file path of a project: `history.json` in its state directory.
pub fn history_path(project_root: &str, has_git_dir: bool) -> (r: String)
    ensures
        r@ == join_spec(state_dir_spec(project_root@, has_git_dir), "history.json"@),
{
    let dir = detect_state_dir(project_root, has_git_dir);
    join_path(dir.as_str(), "history.json")
}

/// The baseline file path of a project: `.sloc-guard-baseline.json` in the project root.
pub fn baseline_path(project_root: &str) -> (r: String)
    ensures
        r@ == join_spec(project_root@, ".sloc-guard-baseline.json"@),
{
    join_path(project_root, ".sloc-guard-baseline.json")
}

/// Outcome of a save operation: written, or skipped because the lock timed out.
#[derive(Debug, Clone, Copy, PartialEq, Eq, Structural)]
pub enum SaveOutcome {
    /// File was successfully written.
    Saved,
    /// Save was skipped due to lock timeout; the original file (if any) remains unchanged.
    Skipped,
}

impl SaveOutcome {
    /// Returns true if the file was saved.
    pub fn is_saved(self) -> (r: bool)
        ensures
            r == (self is Saved),
    {
        match self {
            SaveOutcome::Saved => true,
            SaveOutcome::Skipped => false,
        }
    }

    /// Returns true if the save was skipped.
    pub fn is_skipped(self) -> (r: bool)
        ensures
            r == (self is Skipped),
    {
        match self {
            SaveOutcome::Saved => false,
            SaveOutcome::Skipped => true,
        }
    }
}

/// `std::io::Error`, carried through lock failures.
#[verifier::external_type_specification]
#[verifier::external_body]
pub struct ExIoError(std::io::Error);

/// The message of an I/O error (its `Display` text). Nothing is promised of the text.
#[verifier::external_body]
fn io_error_text(e: &std::io::Error) -> (r: String) {
    e.to_string()
}

/// Error type for lock acquisition failures.
#[derive(Debug)]
pub enum LockError {
    /// Lock acquisition timed out.
    Timeout,
    /// I/O error during lock operation.
    Io(std::io::Error),
}

impl LockError {
    /// The human-readable text of the error: "lock acquisition timed out", or
    /// "lock I/O error: " followed by the I/O error's text.
    pub fn message(&self) -> (r: String)
        ensures
            self is Timeout ==> r@ == "lock acquisition timed out"@,
            self is Io ==> exists|t: Seq<char>| r@ == "lock I/O error: "@ + t,
    {
        match self {
            LockError::Timeout => String::from_str("lock acquisition timed out"),
            LockError::Io(e) => {
                let text = io_error_text(e);
                crate::text::concat2("lock I/O error: ", text.as_str())
            },
        }
    }

    /// The underlying I/O error, if any.
    pub fn source(&self) -> (r: Option<&std::io::Error>)
        ensures
            r is Some <==> self is Io,
    {
        match self {
            LockError::Timeout => None,
            LockError::Io(e) => Some(e),
        }
    }
}

impl From<std::io::Error> for LockError {
    fn from(e: std::io::Error) -> (r: Self) {
        LockError::Io(e)
    }
}

impl vstd::std_specs::convert::FromSpecImpl<std::io::Error> for LockError {
    open spec fn obeys_from_spec() -> bool {
        true
    }

    open spec fn from_spec(e: std::io::Error) -> Self {
        LockError::Io(e)
    }
}


/// What one attempt to lock a file gave.
#[derive(Debug, Clone, Copy, PartialEq, Eq, Structural)]
pub enum LockAttempt {
    /// The lock was taken.
    Acquired,
    /// Another holder has the lock.
    WouldBlock,
    /// The attempt failed with an I/O error.
    Failed,
}

/// What a lock poll does next.
#[derive(Debug, Clone, Copy, PartialEq, Eq, Structural)]
pub enum LockPoll {
    /// The lock is held: done.
    Locked,
    /// The time allowed is spent: give up with a timeout.
    TimedOut,
    /// Sleep this many milliseconds, then try again.
    Retry(u64),
    /// Give up with the I/O error of the attempt.
    Failed,
}

/// The decision after one attempt to lock, `elapsed_ms` after the first attempt, with
/// `timeout_ms` allowed: a blocked attempt is retried after the poll interval until the time
/// allowed is spent.
pub fn lock_poll_step(attempt: LockAttempt, elapsed_ms: u64, timeout_ms: u64) -> (r: LockPoll)
    ensures
        r == match attempt {
            LockAttempt::Acquired => LockPoll::Locked,
            LockAttempt::Failed => LockPoll::Failed,
            LockAttempt::WouldBlock => if elapsed_ms >= timeout_ms {
                LockPoll::TimedOut
            } else {
                LockPoll::Retry(LOCK_POLL_INTERVAL_MS)
            },
        },
{
    match attempt {
        LockAttempt::Acquired => LockPoll::Locked,
        LockAttempt::Failed => LockPoll::Failed,
        LockAttempt::WouldBlock => if elapsed_ms >= timeout_ms {
            LockPoll::TimedOut
        } else {
            LockPoll::Retry(LOCK_POLL_INTERVAL_MS)
        },
    }
}

/// The name of the temporary file of an atomic write: `.<name>.tmp.<pid>`, with `file` as the
/// name when the target has none.
pub open spec fn temp_file_name_spec(file_name: Option<Seq<char>>, pid: u32) -> Seq<char> {
    let name = match file_name {
        Some(n) => n,
        None => "file"@,
    };
    "."@ + name + ".tmp."@ + crate::text::decimal(pid as nat)
}

/// The name of the temporary file of an atomic write, from the target's file name and the
/// process id.
pub fn temp_file_name(file_name: Option<&str>, pid: u32) -> (r: String)
    ensures
        r@ == temp_file_name_spec(
            match file_name {
                Some(n) => Some(n@),
                None => None,
            },
            pid,
        ),
{
    let digits = crate::text::u64_to_string(pid as u64);
    match file_name {
        Some(n) => crate::text::concat4(".", n, ".tmp.", digits.as_str()),
        None => crate::text::concat4(".", "file", ".tmp.", digits.as_str()),
    }
}

} // verus!
