//! The plan-document grammar: tasks are headings of two to four `#` marks
//! followed by the word "Task" and a number, each carrying `**Status:**` and
//! `**Pass:**` metadata lines.  Every query re-parses the document, so
//! external edits are always observed.

use vstd::prelude::*;

use crate::text::{
    digit_run, hash_run, is_digit_char, is_digit_char_exec, lemma_hash_run_at, matches_at,
    occurs_at, parse_u32, scan_digits, scan_ws, scan_word, spec_lines, spec_parse_u32, split_lines,
    str_eq, strs_view, word_run, ws_run,
};

verus! {

/// One task of the plan document: the pass it belongs to and its status word.
#[derive(Debug, Clone)]
pub struct Task {
    pub pass: u32,
    pub status: String,
}

/// Counts of tasks by status over a whole plan document.
#[derive(Debug)]
pub struct TaskCounts {
    pub total: usize,
    pub todo: usize,
    pub in_progress: usize,
    pub done: usize,
    pub blocked: usize,
}

impl Default for TaskCounts {
    /// An empty count: every field zero.
    fn default() -> (r: TaskCounts)
        ensures
            r.total == 0 && r.todo == 0 && r.in_progress == 0 && r.done == 0 && r.blocked == 0,
    {
        TaskCounts { total: 0, todo: 0, in_progress: 0, done: 0, blocked: 0 }
    }
}

/// The mathematical image of a parsed task: its pass and its status text.
pub open spec fn task_view(t: Task) -> (u32, Seq<char>) {
    (t.pass, t.status@)
}

/// The views of a vector of tasks.
pub open spec fn tasks_view(v: Seq<Task>) -> Seq<(u32, Seq<char>)> {
    v.map_values(|t: Task| task_view(t))
}

// ---------------------------------------------------------------------------
// Line grammar
// ---------------------------------------------------------------------------

/// The word "task", in any letter case, stands at position `i` of `l`.
pub open spec fn task_word_at(l: Seq<char>, i: int) -> bool {
    i + 4 <= l.len() && (l[i] == 'T' || l[i] == 't') && (l[i + 1] == 'a' || l[i + 1] == 'A') && (l[
        i + 2
    ] == 's' || l[i + 2] == 'S') && (l[i + 3] == 'k' || l[i + 3] == 'K')
}

/// A task heading: two to four `#` marks, white space, the word "Task" in any
/// case, white space, and a digit.
pub open spec fn spec_is_task_heading(l: Seq<char>) -> bool {
    let h = hash_run(l);
    let w1 = ws_run(l.skip(h));
    let i = h + w1;
    let a = i + 4;
    let w2 = ws_run(l.skip(a));
    2 <= h <= 4 && w1 >= 1 && task_word_at(l, i) && w2 >= 1 && a + w2 < l.len() && is_digit_char(
        l[a + w2],
    )
}

/// Does `l` read as a task heading?
pub fn is_task_heading(l: &str) -> (r: bool)
    ensures
        r == spec_is_task_heading(l@),
{
    let n = l.unicode_len();
    let mut h: usize = 0;
    while h < n && l.get_char(h) == '#'
        invariant
            n == l@.len(),
            0 <= h <= n,
            forall|k: int| 0 <= k < h ==> l@[k] == '#',
        decreases n - h,
    {
        h = h + 1;
    }
    proof {
        lemma_hash_run_at(l@, h as int);
    }
    if h < 2 || h > 4 {
        return false;
    }
    let w1 = scan_ws(l, h);
    proof {
        assert(l@.subrange(h as int, n as int) =~= l@.skip(h as int));
    }
    if w1 == 0 {
        return false;
    }
    let i = h + w1;
    if n - i < 4 {
        return false;
    }
    let c0 = l.get_char(i);
    let c1 = l.get_char(i + 1);
    let c2 = l.get_char(i + 2);
    let c3 = l.get_char(i + 3);
    if !((c0 == 'T' || c0 == 't') && (c1 == 'a' || c1 == 'A') && (c2 == 's' || c2 == 'S') && (c3
        == 'k' || c3 == 'K')) {
        return false;
    }
    let a = i + 4;
    let w2 = scan_ws(l, a);
    proof {
        assert(l@.subrange(a as int, n as int) =~= l@.skip(a as int));
    }
    if w2 == 0 {
        return false;
    }
    if a + w2 >= n {
        return false;
    }
    is_digit_char_exec(l.get_char(a + w2))
}

/// The status pattern stands at position `i` of `l`: the marker
/// `**Status:**`, at least one white-space character, then a word.
pub open spec fn status_match_at(l: Seq<char>, i: int) -> bool {
    occurs_at(l, "**Status:**"@, i) && ws_run(l.skip(i + 11)) >= 1 && word_run(
        l.skip(i + 11 + ws_run(l.skip(i + 11))),
    ) >= 1
}

/// The status word captured by a match at position `i`.
pub open spec fn status_capture(l: Seq<char>, i: int) -> Seq<char> {
    let j = i + 11 + ws_run(l.skip(i + 11));
    l.subrange(j, j + word_run(l.skip(j)))
}

/// The least position at or after `from` where the status pattern matches.
pub open spec fn first_status_from(l: Seq<char>, from: int) -> Option<int>
    decreases l.len() - from,
{
    if from < 0 || from >= l.len() {
        None
    } else if status_match_at(l, from) {
        Some(from)
    } else {
        first_status_from(l, from + 1)
    }
}

/// The status word of a line, if its first status match captures one.
pub open spec fn spec_status_of_line(l: Seq<char>) -> Option<Seq<char>> {
    match first_status_from(l, 0) {
        Some(i) => Some(status_capture(l, i)),
        None => None,
    }
}

proof fn lemma_first_status_some(l: Seq<char>, from: int, i: int)
    requires
        0 <= from <= i < l.len(),
        forall|k: int| from <= k < i ==> !status_match_at(l, k),
        status_match_at(l, i),
    ensures
        first_status_from(l, from) == Some(i),
    decreases i - from,
{
    if from < i {
        lemma_first_status_some(l, from + 1, i);
    }
}

proof fn lemma_first_status_none(l: Seq<char>, from: int)
    requires
        0 <= from,
        forall|k: int| from <= k < l.len() ==> !status_match_at(l, k),
    ensures
        first_status_from(l, from) == None::<int>,
    decreases l.len() - from,
{
    if from < l.len() {
        lemma_first_status_none(l, from + 1);
    }
}

/// Find the status word of a line.
pub fn status_of_line(l: &str) -> (r: Option<String>)
    ensures
        match r {
            Some(s) => spec_status_of_line(l@) == Some(s@),
            None => spec_status_of_line(l@) is None,
        },
{
    let n = l.unicode_len();
    let mut i: usize = 0;
    while i < n
        invariant
            n == l@.len(),
            0 <= i <= n,
            forall|k: int| 0 <= k < i ==> !status_match_at(l@, k),
        decreases n - i,
    {
        if matches_at(l, i, "**Status:**") {
            proof {
                reveal_strlit("**Status:**");
            }
            let j0 = i + 11;
            let w = scan_ws(l, j0);
            proof {
                assert(l@.subrange(j0 as int, n as int) =~= l@.skip(j0 as int));
            }
            if w >= 1 {
                let j = j0 + w;
                let ww = scan_word(l, j);
                proof {
                    assert(l@.subrange(j as int, n as int) =~= l@.skip(j as int));
                }
                if ww >= 1 {
                    proof {
                        assert(status_match_at(l@, i as int));
                        lemma_first_status_some(l@, 0, i as int);
                    }
                    let cap = l.substring_char(j, j + ww).to_owned();
                    proof {
                        assert(cap@ =~= status_capture(l@, i as int));
                    }
                    return Some(cap);
                }
            }
            assert(!status_match_at(l@, i as int));
        } else {
            proof {
                reveal_strlit("**Status:**");
                assert(!status_match_at(l@, i as int));
            }
        }
        i = i + 1;
    }
    proof {
        lemma_first_status_none(l@, 0);
    }
    None
}

/// The pass pattern stands at position `i` of `l`: the marker `**Pass:**`,
/// optional white space, then at least one digit.
pub open spec fn pass_match_at(l: Seq<char>, i: int) -> bool {
    occurs_at(l, "**Pass:**"@, i) && digit_run(l.skip(i + 9 + ws_run(l.skip(i + 9)))) >= 1
}

/// The digit run captured by a pass match at position `i`.
pub open spec fn pass_capture(l: Seq<char>, i: int) -> Seq<char> {
    let j = i + 9 + ws_run(l.skip(i + 9));
    l.subrange(j, j + digit_run(l.skip(j)))
}

/// The least position at or after `from` where the pass pattern matches.
pub open spec fn first_pass_from(l: Seq<char>, from: int) -> Option<int>
    decreases l.len() - from,
{
    if from < 0 || from >= l.len() {
        None
    } else if pass_match_at(l, from) {
        Some(from)
    } else {
        first_pass_from(l, from + 1)
    }
}

/// The pass number a line assigns, if any: the first pass match whose
/// captured digits fit in a `u32`.  A match whose value does not fit assigns
/// nothing.
pub open spec fn spec_pass_update(l: Seq<char>) -> Option<u32> {
    match first_pass_from(l, 0) {
        Some(i) => spec_parse_u32(pass_capture(l, i)),
        None => None,
    }
}

proof fn lemma_first_pass_some(l: Seq<char>, from: int, i: int)
    requires
        0 <= from <= i < l.len(),
        forall|k: int| from <= k < i ==> !pass_match_at(l, k),
        pass_match_at(l, i),
    ensures
        first_pass_from(l, from) == Some(i),
    decreases i - from,
{
    if from < i {
        lemma_first_pass_some(l, from + 1, i);
    }
}

proof fn lemma_first_pass_none(l: Seq<char>, from: int)
    requires
        0 <= from,
        forall|k: int| from <= k < l.len() ==> !pass_match_at(l, k),
    ensures
        first_pass_from(l, from) == None::<int>,
    decreases l.len() - from,
{
    if from < l.len() {
        lemma_first_pass_none(l, from + 1);
    }
}

/// Find the pass number a line assigns, if any.
pub fn pass_update_of_line(l: &str) -> (r: Option<u32>)
    ensures
        r == spec_pass_update(l@),
{
    let n = l.unicode_len();
    let mut i: usize = 0;
    while i < n
        invariant
            n == l@.len(),
            0 <= i <= n,
            forall|k: int| 0 <= k < i ==> !pass_match_at(l@, k),
        decreases n - i,
    {
        if matches_at(l, i, "**Pass:**") {
            proof {
                reveal_strlit("**Pass:**");
            }
            let j0 = i + 9;
            let w = scan_ws(l, j0);
            proof {
                assert(l@.subrange(j0 as int, n as int) =~= l@.skip(j0 as int));
            }
            let j = j0 + w;
            let d = scan_digits(l, j);
            proof {
                assert(l@.subrange(j as int, n as int) =~= l@.skip(j as int));
            }
            if d >= 1 {
                proof {
                    assert(pass_match_at(l@, i as int));
                    lemma_first_pass_some(l@, 0, i as int);
                }
                let cap = l.substring_char(j, j + d);
                proof {
                    assert(cap@ =~= pass_capture(l@, i as int));
                }
                return parse_u32(cap);
            }
            assert(!pass_match_at(l@, i as int));
        } else {
            proof {
                reveal_strlit("**Pass:**");
                assert(!pass_match_at(l@, i as int));
            }
        }
        i = i + 1;
    }
    proof {
        lemma_first_pass_none(l@, 0);
    }
    None
}

// ---------------------------------------------------------------------------
// Document parse
// ---------------------------------------------------------------------------

/// Close the task under construction: pass defaults to 1, status to empty.
pub open spec fn finish_task(ps: Option<u32>, st: Option<Seq<char>>) -> (u32, Seq<char>) {
    (
        match ps {
            Some(p) => p,
            None => 1u32,
        },
        match st {
            Some(s) => s,
            None => Seq::empty(),
        },
    )
}

/// The fold over the document lines that accumulates the parsed tasks.
pub open spec fn spec_task_fold(
    ls: Seq<Seq<char>>,
    i: int,
    in_task: bool,
    st: Option<Seq<char>>,
    ps: Option<u32>,
    acc: Seq<(u32, Seq<char>)>,
) -> Seq<(u32, Seq<char>)>
    decreases ls.len() - i,
{
    if i < 0 || i >= ls.len() {
        if in_task {
            acc.push(finish_task(ps, st))
        } else {
            acc
        }
    } else {
        let l = ls[i];
        if spec_is_task_heading(l) {
            let acc2 = if in_task {
                acc.push(finish_task(ps, st))
            } else {
                acc
            };
            spec_task_fold(ls, i + 1, true, None, None, acc2)
        } else if in_task {
            let st2 = match spec_status_of_line(l) {
                Some(w) => Some(w),
                None => st,
            };
            let ps2 = match spec_pass_update(l) {
                Some(v) => Some(v),
                None => ps,
            };
            spec_task_fold(ls, i + 1, true, st2, ps2, acc)
        } else {
            spec_task_fold(ls, i + 1, false, st, ps, acc)
        }
    }
}

/// The tasks of a plan document.
pub open spec fn spec_tasks(content: Seq<char>) -> Seq<(u32, Seq<char>)> {
    spec_task_fold(spec_lines(content), 0, false, None, None, Seq::empty())
}

/// The view of an optional status under construction.
pub open spec fn opt_str_view(st: Option<String>) -> Option<Seq<char>> {
    match st {
        Some(s) => Some(s@),
        None => None,
    }
}

/// Parse the tasks of a plan document.
pub fn parse_tasks(content: &str) -> (r: Vec<Task>)
    ensures
        tasks_view(r@) == spec_tasks(content@),
{
    let lines = split_lines(content);
    let ghost ls = spec_lines(content@);
    let mut acc: Vec<Task> = Vec::new();
    let mut in_task = false;
    let mut st: Option<String> = None;
    let mut ps: Option<u32> = None;
    let mut i: usize = 0;
    proof {
        assert(strs_view(lines@) == ls);
        assert(tasks_view(acc@) =~= Seq::<(u32, Seq<char>)>::empty());
    }
    while i < lines.len()
        invariant
            strs_view(lines@) == ls,
            0 <= i <= lines.len(),
            lines@.len() == ls.len(),
            spec_task_fold(ls, i as int, in_task, opt_str_view(st), ps, tasks_view(acc@))
                == spec_tasks(content@),
        decreases lines.len() - i,
    {
        let l = &lines[i];
        proof {
            assert(ls[i as int] == lines@[i as int]@);
        }
        let ghost pre_acc = acc@;
        let ghost pre_st = opt_str_view(st);
        let ghost pre_ps = ps;
        if is_task_heading(l.as_str()) {
            if in_task {
                let p = match ps {
                    Some(p) => p,
                    None => 1,
                };
                let s = match st {
                    Some(s) => s,
                    None => String::new(),
                };
                acc.push(Task { pass: p, status: s });
                proof {
                    assert(tasks_view(acc@) =~= tasks_view(pre_acc).push(
                        finish_task(pre_ps, pre_st),
                    ));
                }
            }
            in_task = true;
            st = None;
            ps = None;
        } else if in_task {
            match status_of_line(l.as_str()) {
                Some(w) => {
                    st = Some(w);
                },
                None => {},
            }
            match pass_update_of_line(l.as_str()) {
                Some(v) => {
                    ps = Some(v);
                },
                None => {},
            }
        }
        i = i + 1;
    }
    if in_task {
        let p = match ps {
            Some(p) => p,
            None => 1,
        };
        let s = match st {
            Some(s) => s,
            None => String::new(),
        };
        let ghost pre_acc = acc@;
        let ghost pre_st = opt_str_view(st);
        let ghost pre_ps = ps;
        acc.push(Task { pass: p, status: s });
        proof {
            assert(tasks_view(acc@) =~= tasks_view(pre_acc).push(finish_task(pre_ps, pre_st)));
        }
    }
    acc
}

// ---------------------------------------------------------------------------
// Queries
// ---------------------------------------------------------------------------

/// A task not yet completed: within the pass bound and still `TODO` or
/// `IN_PROGRESS`.
pub open spec fn is_uncompleted(t: (u32, Seq<char>), max_pass: u32) -> bool {
    t.0 <= max_pass && (t.1 == "TODO"@ || t.1 == "IN_PROGRESS"@)
}

/// A blocked task within the pass bound.
pub open spec fn is_blocked(t: (u32, Seq<char>), max_pass: u32) -> bool {
    t.0 <= max_pass && t.1 == "BLOCKED"@
}

/// How many tasks of `ts` are uncompleted at `max_pass`.
pub open spec fn spec_uncompleted_count(ts: Seq<(u32, Seq<char>)>, max_pass: u32) -> int
    decreases ts.len(),
{
    if ts.len() == 0 {
        0
    } else {
        spec_uncompleted_count(ts.drop_last(), max_pass) + if is_uncompleted(
            ts.last(),
            max_pass,
        ) {
            1int
        } else {
            0int
        }
    }
}

/// How many tasks of `ts` are blocked at `max_pass`.
pub open spec fn spec_blocked_count(ts: Seq<(u32, Seq<char>)>, max_pass: u32) -> int
    decreases ts.len(),
{
    if ts.len() == 0 {
        0
    } else {
        spec_blocked_count(ts.drop_last(), max_pass) + if is_blocked(ts.last(), max_pass) {
            1int
        } else {
            0int
        }
    }
}

/// Count the tasks of the plan document that are `TODO` or `IN_PROGRESS`
/// within the pass bound.
pub fn count_uncompleted_tasks(content: &str, max_pass: u32) -> (r: usize)
    ensures
        r == spec_uncompleted_count(spec_tasks(content@), max_pass),
{
    let tasks = parse_tasks(content);
    let ghost ts = spec_tasks(content@);
    let mut count: usize = 0;
    let mut i: usize = 0;
    proof {
        assert(ts.subrange(0, 0) =~= Seq::<(u32, Seq<char>)>::empty());
    }
    while i < tasks.len()
        invariant
            tasks_view(tasks@) == ts,
            tasks@.len() == ts.len(),
            0 <= i <= tasks.len(),
            0 <= count <= i,
            count == spec_uncompleted_count(ts.subrange(0, i as int), max_pass),
        decreases tasks.len() - i,
    {
        let t = &tasks[i];
        proof {
            assert(ts[i as int] == task_view(tasks@[i as int]));
            assert(ts.subrange(0, i + 1).drop_last() =~= ts.subrange(0, i as int));
            assert(ts.subrange(0, i + 1).last() == ts[i as int]);
        }
        if t.pass <= max_pass && (str_eq(t.status.as_str(), "TODO") || str_eq(
            t.status.as_str(),
            "IN_PROGRESS",
        )) {
            count = count + 1;
        }
        i = i + 1;
    }
    proof {
        assert(ts.subrange(0, ts.len() as int) =~= ts);
    }
    count
}

/// Count the tasks of the plan document that are `BLOCKED` within the pass
/// bound.
pub fn count_blocked_tasks(content: &str, max_pass: u32) -> (r: usize)
    ensures
        r == spec_blocked_count(spec_tasks(content@), max_pass),
{
    let tasks = parse_tasks(content);
    let ghost ts = spec_tasks(content@);
    let mut count: usize = 0;
    let mut i: usize = 0;
    proof {
        assert(ts.subrange(0, 0) =~= Seq::<(u32, Seq<char>)>::empty());
    }
    while i < tasks.len()
        invariant
            tasks_view(tasks@) == ts,
            tasks@.len() == ts.len(),
            0 <= i <= tasks.len(),
            0 <= count <= i,
            count == spec_blocked_count(ts.subrange(0, i as int), max_pass),
        decreases tasks.len() - i,
    {
        let t = &tasks[i];
        proof {
            assert(ts[i as int] == task_view(tasks@[i as int]));
            assert(ts.subrange(0, i + 1).drop_last() =~= ts.subrange(0, i as int));
            assert(ts.subrange(0, i + 1).last() == ts[i as int]);
        }
        if t.pass <= max_pass && str_eq(t.status.as_str(), "BLOCKED") {
            count = count + 1;
        }
        i = i + 1;
    }
    proof {
        assert(ts.subrange(0, ts.len() as int) =~= ts);
    }
    count
}

/// Are all tasks for the pass done?  `BLOCKED` tasks are not counted as
/// uncompleted: only `TODO` and `IN_PROGRESS` hold completion back.
pub fn all_tasks_done(content: &str, max_pass: u32) -> (r: bool)
    ensures
        r == (spec_uncompleted_count(spec_tasks(content@), max_pass) == 0),
{
    count_uncompleted_tasks(content, max_pass) == 0
}

/// Does the plan hold any `BLOCKED` task within the pass bound?
pub fn has_blocked_tasks(content: &str, max_pass: u32) -> (r: bool)
    ensures
        r == (spec_blocked_count(spec_tasks(content@), max_pass) > 0),
{
    count_blocked_tasks(content, max_pass) > 0
}

/// How many tasks of `ts` carry exactly the status `w`.
pub open spec fn spec_status_count(ts: Seq<(u32, Seq<char>)>, w: Seq<char>) -> int
    decreases ts.len(),
{
    if ts.len() == 0 {
        0
    } else {
        spec_status_count(ts.drop_last(), w) + if ts.last().1 == w {
            1int
        } else {
            0int
        }
    }
}

/// Count the tasks of a whole plan document by status.
pub fn count_tasks_by_status(content: &str) -> (r: TaskCounts)
    ensures
        r.total == spec_tasks(content@).len(),
        r.todo == spec_status_count(spec_tasks(content@), "TODO"@),
        r.in_progress == spec_status_count(spec_tasks(content@), "IN_PROGRESS"@),
        r.done == spec_status_count(spec_tasks(content@), "DONE"@),
        r.blocked == spec_status_count(spec_tasks(content@), "BLOCKED"@),
{
    let tasks = parse_tasks(content);
    let ghost ts = spec_tasks(content@);
    let mut todo: usize = 0;
    let mut in_progress: usize = 0;
    let mut done: usize = 0;
    let mut blocked: usize = 0;
    let mut i: usize = 0;
    proof {
        assert(ts.subrange(0, 0) =~= Seq::<(u32, Seq<char>)>::empty());
    }
    while i < tasks.len()
        invariant
            tasks_view(tasks@) == ts,
            tasks@.len() == ts.len(),
            0 <= i <= tasks.len(),
            todo <= i && in_progress <= i && done <= i && blocked <= i,
            todo == spec_status_count(ts.subrange(0, i as int), "TODO"@),
            in_progress == spec_status_count(ts.subrange(0, i as int), "IN_PROGRESS"@),
            done == spec_status_count(ts.subrange(0, i as int), "DONE"@),
            blocked == spec_status_count(ts.subrange(0, i as int), "BLOCKED"@),
        decreases tasks.len() - i,
    {
        let t = &tasks[i];
        proof {
            assert(ts[i as int] == task_view(tasks@[i as int]));
            assert(ts.subrange(0, i + 1).drop_last() =~= ts.subrange(0, i as int));
            assert(ts.subrange(0, i + 1).last() == ts[i as int]);
        }
        if str_eq(t.status.as_str(), "TODO") {
            todo = todo + 1;
        }
        if str_eq(t.status.as_str(), "IN_PROGRESS") {
            in_progress = in_progress + 1;
        }
        if str_eq(t.status.as_str(), "DONE") {
            done = done + 1;
        }
        if str_eq(t.status.as_str(), "BLOCKED") {
            blocked = blocked + 1;
        }
        i = i + 1;
    }
    proof {
        assert(ts.subrange(0, ts.len() as int) =~= ts);
    }
    TaskCounts { total: tasks.len(), todo, in_progress, done, blocked }
}

// ---------------------------------------------------------------------------
// The task-status fingerprint
// ---------------------------------------------------------------------------

/// The status sequence of a task list, in order.
pub open spec fn spec_statuses(ts: Seq<(u32, Seq<char>)>) -> Seq<Seq<char>> {
    ts.map_values(|t: (u32, Seq<char>)| t.1)
}

/// The fingerprint of a plan document: the status of each task, in task
/// order, and nothing else.
pub open spec fn spec_fingerprint(content: Seq<char>) -> Seq<Seq<char>> {
    spec_statuses(spec_tasks(content))
}

/// The task-status fingerprint of a plan document: the status word of each
/// task, in order.  Descriptions, checklists and all other prose have no
/// effect on it; two documents get the same fingerprint exactly when their
/// task statuses agree.
pub fn hash_task_statuses(content: &str) -> (r: Vec<String>)
    ensures
        strs_view(r@) == spec_fingerprint(content@),
{
    let tasks = parse_tasks(content);
    let ghost ts = spec_tasks(content@);
    let mut out: Vec<String> = Vec::new();
    let mut i: usize = 0;
    while i < tasks.len()
        invariant
            tasks_view(tasks@) == ts,
            tasks@.len() == ts.len(),
            0 <= i <= tasks.len(),
            strs_view(out@) =~= spec_statuses(ts.subrange(0, i as int)),
        decreases tasks.len() - i,
    {
        proof {
            assert(ts[i as int] == task_view(tasks@[i as int]));
        }
        let ghost pre = out@;
        out.push(tasks[i].status.clone());
        proof {
            assert(strs_view(out@) =~= strs_view(pre).push(tasks@[i as int].status@));
            assert(spec_statuses(ts.subrange(0, i + 1)) =~= spec_statuses(
                ts.subrange(0, i as int),
            ).push(ts[i as int].1));
        }
        i = i + 1;
    }
    proof {
        assert(ts.subrange(0, ts.len() as int) =~= ts);
    }
    out
}

/// How one line acts on the task grammar: whether it opens a new task, and
/// which status and pass it assigns.  Lines of prose — descriptions,
/// checklists — have the effect `(false, None, None)`.
pub open spec fn line_effect(l: Seq<char>) -> (bool, Option<Seq<char>>, Option<u32>) {
    (spec_is_task_heading(l), spec_status_of_line(l), spec_pass_update(l))
}

proof fn lemma_fold_depends_on_effects(
    ls1: Seq<Seq<char>>,
    ls2: Seq<Seq<char>>,
    i: int,
    in_task: bool,
    st: Option<Seq<char>>,
    ps: Option<u32>,
    acc: Seq<(u32, Seq<char>)>,
)
    requires
        ls1.len() == ls2.len(),
        forall|k: int| i <= k < ls1.len() ==> line_effect(ls1[k]) == line_effect(ls2[k]),
    ensures
        spec_task_fold(ls1, i, in_task, st, ps, acc) == spec_task_fold(
            ls2,
            i,
            in_task,
            st,
            ps,
            acc,
        ),
    decreases ls1.len() - i,
{
    if 0 <= i < ls1.len() {
        assert(line_effect(ls1[i]) == line_effect(ls2[i]));
        assert(spec_is_task_heading(ls1[i]) == spec_is_task_heading(ls2[i]));
        assert(spec_status_of_line(ls1[i]) == spec_status_of_line(ls2[i]));
        assert(spec_pass_update(ls1[i]) == spec_pass_update(ls2[i]));
        if spec_is_task_heading(ls1[i]) {
            let acc2 = if in_task {
                acc.push(finish_task(ps, st))
            } else {
                acc
            };
            lemma_fold_depends_on_effects(ls1, ls2, i + 1, true, None, None, acc2);
        } else if in_task {
            let st2 = match spec_status_of_line(ls1[i]) {
                Some(w) => Some(w),
                None => st,
            };
            let ps2 = match spec_pass_update(ls1[i]) {
                Some(v) => Some(v),
                None => ps,
            };
            lemma_fold_depends_on_effects(ls1, ls2, i + 1, true, st2, ps2, acc);
        } else {
            lemma_fold_depends_on_effects(ls1, ls2, i + 1, false, st, ps, acc);
        }
    }
}

/// The invariance half of the fingerprint law: two plan documents whose
/// lines act identically on the task grammar — the same lines are task
/// headings, and each line assigns the same status and the same pass —
/// parse to the very same tasks, so their fingerprints agree.  Changing
/// description or checklist prose changes no line's effect, and so never
/// counts as progress.
pub proof fn lemma_fingerprint_ignores_prose(c1: Seq<char>, c2: Seq<char>)
    requires
        spec_lines(c1).len() == spec_lines(c2).len(),
        forall|k: int|
            0 <= k < spec_lines(c1).len() ==> line_effect(spec_lines(c1)[k]) == line_effect(
                spec_lines(c2)[k],
            ),
    ensures
        spec_tasks(c1) == spec_tasks(c2),
        spec_fingerprint(c1) == spec_fingerprint(c2),
{
    lemma_fold_depends_on_effects(
        spec_lines(c1),
        spec_lines(c2),
        0,
        false,
        None,
        None,
        Seq::empty(),
    );
}

/// The sensitivity half of the fingerprint law: the fingerprint carries the
/// statuses exactly, for task lists of any length including none, so two
/// documents have equal fingerprints exactly when their parsed tasks hold
/// the same statuses in the same order — whenever any task's status field
/// changes, the fingerprint changes.
pub proof fn lemma_fingerprint_tracks_statuses(c1: Seq<char>, c2: Seq<char>)
    ensures
        (spec_fingerprint(c1) == spec_fingerprint(c2)) <==> (spec_statuses(spec_tasks(c1))
            == spec_statuses(spec_tasks(c2))),
{
}

} // verus!
