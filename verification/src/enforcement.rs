//! Isolation enforcement: the drift detector that scans a completed agent's
//! tool-call log for accesses to the configured source directories.  It is a
//! best-effort check, not a sandbox: indirect access, such as changing
//! directory before reading, is not caught.

use vstd::prelude::*;

use crate::agent::ToolCall;
use crate::text::{contains, spec_contains, spec_starts_with, starts_with, str_eq};

verus! {

/// Does `path` fall under source directory `dir` of the project at `root`?
/// A path counts when it starts with `dir/` or `./dir/`, when it starts with
/// the absolute form `root/dir/`, or when it names the directory itself.
pub open spec fn path_under_dir(path: Seq<char>, dir: Seq<char>, root: Seq<char>) -> bool {
    spec_starts_with(path, dir + "/"@) || spec_starts_with(path, "./"@ + dir + "/"@)
        || spec_starts_with(path, root + "/"@ + dir + "/"@) || path == dir
}

/// Does `command` reference source directory `dir` as a path segment?  A
/// command counts when it contains ` dir/` or ` ./dir/`.
pub open spec fn command_refs_dir(command: Seq<char>, dir: Seq<char>) -> bool {
    spec_contains(command, " "@ + dir + "/"@) || spec_contains(command, " ./"@ + dir + "/"@)
}

/// Does `path` fall under any of the configured source directories?
pub fn is_under_source(path: &str, source_dirs: &Vec<String>, project_root: &str) -> (r: bool)
    ensures
        r == exists|k: int|
            0 <= k < source_dirs@.len() && path_under_dir(path@, source_dirs@[k]@, project_root@),
{
    let mut i: usize = 0;
    while i < source_dirs.len()
        invariant
            0 <= i <= source_dirs@.len(),
            forall|k: int|
                0 <= k < i ==> !path_under_dir(path@, source_dirs@[k]@, project_root@),
        decreases source_dirs.len() - i,
    {
        let dir = &source_dirs[i];
        let mut rel = dir.clone();
        rel.append("/");
        let mut dotted = "./".to_owned();
        dotted.append(dir.as_str());
        dotted.append("/");
        let mut abs = project_root.to_owned();
        abs.append("/");
        abs.append(dir.as_str());
        abs.append("/");
        proof {
            assert(rel@ =~= source_dirs@[i as int]@ + "/"@);
            assert(dotted@ =~= "./"@ + source_dirs@[i as int]@ + "/"@);
            assert(abs@ =~= project_root@ + "/"@ + source_dirs@[i as int]@ + "/"@);
        }
        if starts_with(path, rel.as_str()) || starts_with(path, dotted.as_str()) || starts_with(
            path,
            abs.as_str(),
        ) || str_eq(path, dir.as_str()) {
            assert(path_under_dir(path@, source_dirs@[i as int]@, project_root@));
            return true;
        }
        i = i + 1;
    }
    false
}

/// Does `command` reference any of the configured source directories as a
/// path segment?
pub fn command_references_source(command: &str, source_dirs: &Vec<String>) -> (r: bool)
    ensures
        r == exists|k: int|
            0 <= k < source_dirs@.len() && command_refs_dir(command@, source_dirs@[k]@),
{
    let mut i: usize = 0;
    while i < source_dirs.len()
        invariant
            0 <= i <= source_dirs@.len(),
            forall|k: int| 0 <= k < i ==> !command_refs_dir(command@, source_dirs@[k]@),
        decreases source_dirs.len() - i,
    {
        let dir = &source_dirs[i];
        let mut seg = " ".to_owned();
        seg.append(dir.as_str());
        seg.append("/");
        let mut dotted = " ./".to_owned();
        dotted.append(dir.as_str());
        dotted.append("/");
        proof {
            assert(seg@ =~= " "@ + source_dirs@[i as int]@ + "/"@);
            assert(dotted@ =~= " ./"@ + source_dirs@[i as int]@ + "/"@);
        }
        if contains(command, seg.as_str()) || contains(command, dotted.as_str()) {
            assert(command_refs_dir(command@, source_dirs@[i as int]@));
            return true;
        }
        i = i + 1;
    }
    false
}

/// Is `call` an isolation violation against the configured source
/// directories?  `Read`, `Write` and `Edit` violate through their path,
/// `Bash` through its command text; other calls never do.
pub open spec fn is_violation(call: ToolCall, dirs: Seq<String>, root: Seq<char>) -> bool {
    match call {
        ToolCall::Read { path } => exists|k: int|
            0 <= k < dirs.len() && path_under_dir(path@, dirs[k]@, root),
        ToolCall::Write { path } => exists|k: int|
            0 <= k < dirs.len() && path_under_dir(path@, dirs[k]@, root),
        ToolCall::Edit { path } => exists|k: int|
            0 <= k < dirs.len() && path_under_dir(path@, dirs[k]@, root),
        ToolCall::Bash { command } => exists|k: int|
            0 <= k < dirs.len() && command_refs_dir(command@, dirs[k]@),
        _ => false,
    }
}

/// How many calls of `log` are violations.
pub open spec fn spec_violation_count(
    log: Seq<ToolCall>,
    dirs: Seq<String>,
    root: Seq<char>,
) -> int
    decreases log.len(),
{
    if log.len() == 0 {
        0
    } else {
        spec_violation_count(log.drop_last(), dirs, root) + if is_violation(
            log.last(),
            dirs,
            root,
        ) {
            1int
        } else {
            0int
        }
    }
}

proof fn lemma_violation_count_bound(log: Seq<ToolCall>, dirs: Seq<String>, root: Seq<char>)
    ensures
        0 <= spec_violation_count(log, dirs, root) <= log.len(),
    decreases log.len(),
{
    if log.len() > 0 {
        lemma_violation_count_bound(log.drop_last(), dirs, root);
    }
}

/// Is one call a violation?
pub fn call_is_violation(call: &ToolCall, source_dirs: &Vec<String>, project_root: &str) -> (r:
    bool)
    ensures
        r == is_violation(*call, source_dirs@, project_root@),
{
    match call {
        ToolCall::Read { path } => is_under_source(path.as_str(), source_dirs, project_root),
        ToolCall::Write { path } => is_under_source(path.as_str(), source_dirs, project_root),
        ToolCall::Edit { path } => is_under_source(path.as_str(), source_dirs, project_root),
        ToolCall::Bash { command } => command_references_source(command.as_str(), source_dirs),
        _ => false,
    }
}

/// Check that an agent restricted from the source tree did not touch it.
/// Returns the number of violating tool calls as an error; succeeds exactly
/// when no call in the log reads, writes, edits or names a configured source
/// directory.
pub fn verify_ddv_isolation(
    tool_log: &Vec<ToolCall>,
    source_dirs: &Vec<String>,
    project_root: &str,
) -> (r: Result<(), usize>)
    ensures
        r is Ok <==> spec_violation_count(tool_log@, source_dirs@, project_root@) == 0,
        r is Err ==> r->Err_0 == spec_violation_count(tool_log@, source_dirs@, project_root@),
        r is Ok <==> (forall|j: int|
            0 <= j < tool_log@.len() ==> !is_violation(
                tool_log@[j],
                source_dirs@,
                project_root@,
            )),
{
    let ghost dirs = source_dirs@;
    let mut count: usize = 0;
    let mut i: usize = 0;
    proof {
        assert(tool_log@.subrange(0, 0) =~= Seq::<ToolCall>::empty());
    }
    while i < tool_log.len()
        invariant
            dirs == source_dirs@,
            0 <= i <= tool_log@.len(),
            0 <= count <= i,
            count == spec_violation_count(tool_log@.subrange(0, i as int), dirs, project_root@),
        decreases tool_log.len() - i,
    {
        proof {
            assert(tool_log@.subrange(0, i + 1).drop_last() =~= tool_log@.subrange(0, i as int));
            assert(tool_log@.subrange(0, i + 1).last() == tool_log@[i as int]);
        }
        if call_is_violation(&tool_log[i], source_dirs, project_root) {
            count = count + 1;
        }
        i = i + 1;
    }
    proof {
        assert(tool_log@.subrange(0, tool_log@.len() as int) =~= tool_log@);
        lemma_count_zero_iff_none(tool_log@, dirs, project_root@);
    }
    if count == 0 {
        Ok(())
    } else {
        Err(count)
    }
}

/// The count is zero exactly when no call violates.
proof fn lemma_count_zero_iff_none(log: Seq<ToolCall>, dirs: Seq<String>, root: Seq<char>)
    ensures
        (spec_violation_count(log, dirs, root) == 0) <==> (forall|j: int|
            0 <= j < log.len() ==> !is_violation(log[j], dirs, root)),
    decreases log.len(),
{
    if log.len() > 0 {
        let pre = log.drop_last();
        lemma_count_zero_iff_none(pre, dirs, root);
        lemma_violation_count_bound(pre, dirs, root);
        assert forall|j: int| 0 <= j < pre.len() implies pre[j] == log[j] by {}
        if spec_violation_count(log, dirs, root) == 0 {
            assert forall|j: int| 0 <= j < log.len() implies !is_violation(log[j], dirs, root) by {
                if j < pre.len() {
                    assert(pre[j] == log[j]);
                } else {
                    assert(log[j] == log.last());
                }
            }
        }
    }
}

} // verus!
