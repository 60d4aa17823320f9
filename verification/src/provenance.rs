//! What a build records of where it came from.

use vstd::prelude::*;
use vstd::string::StrSliceExecFns;

use crate::text;
use crate::text::{chars_of, starts_with, trim, trim_bounds};
use crate::version;

verus! {

fn is_blank(s: &str) -> (blank: bool)
    ensures
        blank == (text::trimmed(s@).len() == 0),
{
    let chars: Vec<char> = chars_of(s);
    trim(chars.as_slice()).len() == 0
}

/// The commit to record: the first of three variables that is set, else what git says; `unknown`
/// where that is blank.
pub open spec fn recorded_sha(
    seaweedfs_commit: Option<String>,
    git_commit: Option<String>,
    git_sha: Option<String>,
    head: Option<String>,
) -> Seq<char> {
    let sha = version::set_or(
        seaweedfs_commit,
        version::set_or(git_commit, version::set_or(git_sha, version::set_or(head, ""@))),
    );
    if text::trimmed(sha).len() == 0 {
        "unknown"@
    } else {
        sha
    }
}

/// Chooses the commit to record.
pub fn choose_sha(
    seaweedfs_commit: Option<String>,
    git_commit: Option<String>,
    git_sha: Option<String>,
    head: Option<String>,
) -> (sha: String)
    ensures
        sha@ == recorded_sha(seaweedfs_commit, git_commit, git_sha, head),
{
    let sha: String = match seaweedfs_commit {
        Some(sha) => sha,
        None => match git_commit {
            Some(sha) => sha,
            None => match git_sha {
                Some(sha) => sha,
                None => match head {
                    Some(sha) => sha,
                    None => "".to_owned(),
                },
            },
        },
    };
    if is_blank(sha.as_str()) {
        "unknown".to_owned()
    } else {
        sha
    }
}

/// Whether uncommitted changes are recorded: as the variable says where it is set, else as git's
/// list of changes says; not where git says nothing.
pub open spec fn recorded_dirty(flag: Option<String>, status: Option<String>) -> bool {
    match flag {
        Some(value) => value@ == "true"@ || value@ == "1"@,
        None => match status {
            Some(changes) => text::trimmed(changes@).len() > 0,
            None => false,
        },
    }
}

/// Decides whether uncommitted changes are recorded.
pub fn decide_dirty(flag: &Option<String>, status: &Option<String>) -> (dirty: bool)
    ensures
        dirty == recorded_dirty(*flag, *status),
{
    match flag {
        Some(value) => *value == "true".to_owned() || *value == "1".to_owned(),
        None => match status {
            Some(changes) => !is_blank(changes.as_str()),
            None => false,
        },
    }
}

/// The reference that a `HEAD` file points to, if it points to one.
pub open spec fn head_target(head: Seq<char>) -> Option<Seq<char>> {
    let line = text::trimmed(head);
    if text::stands_at(line, "ref: "@, 0) {
        Some(line.skip("ref: "@.len() as int))
    } else {
        None
    }
}

/// Finds the reference that a `HEAD` file points to.
pub fn head_reference(head: &str) -> (target: Option<&str>)
    ensures
        match target {
            Some(target) => head_target(head@) == Some(target@),
            None => head_target(head@) is None,
        },
{
    proof {
        reveal_strlit("ref: ");
    }
    let chars: Vec<char> = chars_of(head);
    let (from, to): (usize, usize) = trim_bounds(chars.as_slice());
    let line: &[char] = vstd::slice::slice_subrange(chars.as_slice(), from, to);
    if starts_with(line, "ref: ") {
        assert(line@.skip(5) =~= head@.subrange(from + 5, to as int));
        Some(head.substring_char(from + 5, to))
    } else {
        None
    }
}

/// What is recorded of the commit is never blank.
pub proof fn law_recorded_sha_is_never_blank(
    seaweedfs_commit: Option<String>,
    git_commit: Option<String>,
    git_sha: Option<String>,
    head: Option<String>,
)
    ensures
        text::trimmed(recorded_sha(seaweedfs_commit, git_commit, git_sha, head)).len() > 0,
{
    reveal_strlit("unknown");
}

} // verus!
