//! Review-gate decision logic: the choices each human gate accepts, the safe
//! defaults taken when pausing is disabled, the template-only test for
//! redirect files, and the defensive extraction helpers that pull summary
//! lines out of markdown artifacts.  Reading the terminal and opening the
//! editor live outside the library; only the decision logic is here.

use vstd::prelude::*;

use crate::text::{
    contains, digit_run, hash_run, scan_digits, scan_ws, spec_contains, spec_starts_with,
    spec_trim, starts_with, spec_lines, split_lines, str_eq, strs_view, trim, ws_run,
};

verus! {

/// The outcome of a pass review.
#[derive(Debug, Clone, Copy, PartialEq, Eq, Structural)]
pub enum ReviewDecision {
    Accept,
    Continue,
    Redirect,
}

/// The outcome of the scope review.
#[derive(Debug, Clone, Copy, PartialEq, Eq, Structural)]
pub enum ScopeDecision {
    Approve,
    Refine,
    Edit,
    Quit,
}

/// The outcome of the block gate.
#[derive(Debug, Clone, Copy, PartialEq, Eq, Structural)]
pub enum BlockDecision {
    Fix,
    Skip,
    Abort,
}

/// The outcome of the environment gate.
#[derive(Debug, Clone, Copy, PartialEq, Eq, Structural)]
pub enum EnvDecision {
    Fix,
    Skip,
}

/// Is the trimmed input the single letter `c`, in either case?
pub open spec fn choice_is(input: Seq<char>, lower: char, upper: char) -> bool {
    spec_trim(input) =~= seq![lower] || spec_trim(input) =~= seq![upper]
}

fn trimmed_is_letter(input: &str, lower: char, upper: char) -> (r: bool)
    ensures
        r == choice_is(input@, lower, upper),
{
    let t = trim(input);
    if t.unicode_len() != 1 {
        return false;
    }
    let c = t.get_char(0);
    proof {
        assert(t@ =~= seq![t@[0]]);
    }
    c == lower || c == upper
}

/// The scope review gate: when pausing is disabled it approves without
/// asking; otherwise it reads the choice `a`, `r`, `e` or `q`, in either
/// case, and yields nothing for any other input so the prompt is repeated.
pub fn scope_gate_decision(pause: bool, input: &str) -> (r: Option<ScopeDecision>)
    ensures
        !pause ==> r == Some(ScopeDecision::Approve),
        pause ==> r == (if choice_is(input@, 'a', 'A') {
            Some(ScopeDecision::Approve)
        } else if choice_is(input@, 'r', 'R') {
            Some(ScopeDecision::Refine)
        } else if choice_is(input@, 'e', 'E') {
            Some(ScopeDecision::Edit)
        } else if choice_is(input@, 'q', 'Q') {
            Some(ScopeDecision::Quit)
        } else {
            None
        }),
{
    if !pause {
        return Some(ScopeDecision::Approve);
    }
    if trimmed_is_letter(input, 'a', 'A') {
        Some(ScopeDecision::Approve)
    } else if trimmed_is_letter(input, 'r', 'R') {
        Some(ScopeDecision::Refine)
    } else if trimmed_is_letter(input, 'e', 'E') {
        Some(ScopeDecision::Edit)
    } else if trimmed_is_letter(input, 'q', 'Q') {
        Some(ScopeDecision::Quit)
    } else {
        None
    }
}

/// The pass review gate: when pausing is disabled it continues without
/// asking; otherwise it reads `a`, `c` or `r`, in either case, and yields
/// nothing for any other input.  A `Redirect` choice still degrades to
/// `Continue` unless the redirect file holds real content: see
/// `review_redirect_outcome`.
pub fn review_gate_decision(pause: bool, input: &str) -> (r: Option<ReviewDecision>)
    ensures
        !pause ==> r == Some(ReviewDecision::Continue),
        pause ==> r == (if choice_is(input@, 'a', 'A') {
            Some(ReviewDecision::Accept)
        } else if choice_is(input@, 'c', 'C') {
            Some(ReviewDecision::Continue)
        } else if choice_is(input@, 'r', 'R') {
            Some(ReviewDecision::Redirect)
        } else {
            None
        }),
{
    if !pause {
        return Some(ReviewDecision::Continue);
    }
    if trimmed_is_letter(input, 'a', 'A') {
        Some(ReviewDecision::Accept)
    } else if trimmed_is_letter(input, 'c', 'C') {
        Some(ReviewDecision::Continue)
    } else if trimmed_is_letter(input, 'r', 'R') {
        Some(ReviewDecision::Redirect)
    } else {
        None
    }
}

/// The block gate: when pausing is disabled it skips without asking;
/// otherwise it reads `f`, `s` or `x`, in either case, and yields nothing
/// for any other input.
pub fn block_gate_decision(pause: bool, input: &str) -> (r: Option<BlockDecision>)
    ensures
        !pause ==> r == Some(BlockDecision::Skip),
        pause ==> r == (if choice_is(input@, 'f', 'F') {
            Some(BlockDecision::Fix)
        } else if choice_is(input@, 's', 'S') {
            Some(BlockDecision::Skip)
        } else if choice_is(input@, 'x', 'X') {
            Some(BlockDecision::Abort)
        } else {
            None
        }),
{
    if !pause {
        return Some(BlockDecision::Skip);
    }
    if trimmed_is_letter(input, 'f', 'F') {
        Some(BlockDecision::Fix)
    } else if trimmed_is_letter(input, 's', 'S') {
        Some(BlockDecision::Skip)
    } else if trimmed_is_letter(input, 'x', 'X') {
        Some(BlockDecision::Abort)
    } else {
        None
    }
}

/// Does the environment gate fire?  Only when a non-empty environment-issue
/// artifact exists and pausing is enabled; otherwise the pipeline proceeds.
pub fn environment_gate_needed(file_exists: bool, file_len: u64, pause: bool) -> (r: bool)
    ensures
        r == (file_exists && file_len > 0 && pause),
{
    file_exists && file_len > 0 && pause
}

/// The environment gate choice: `f` or `s`, in either case.
pub fn env_gate_decision(input: &str) -> (r: Option<EnvDecision>)
    ensures
        r == (if choice_is(input@, 'f', 'F') {
            Some(EnvDecision::Fix)
        } else if choice_is(input@, 's', 'S') {
            Some(EnvDecision::Skip)
        } else {
            None
        }),
{
    if trimmed_is_letter(input, 'f', 'F') {
        Some(EnvDecision::Fix)
    } else if trimmed_is_letter(input, 's', 'S') {
        Some(EnvDecision::Skip)
    } else {
        None
    }
}

// ---------------------------------------------------------------------------
// Redirect and feedback files
// ---------------------------------------------------------------------------

/// A line that counts as real guidance: non-empty once trimmed, not a
/// heading, not comment markup.
pub open spec fn is_real_content_line(l: Seq<char>) -> bool {
    let t = spec_trim(l);
    t.len() > 0 && !spec_starts_with(t, "#"@) && !spec_starts_with(t, "<!--"@)
        && !spec_starts_with(t, "-->"@) && !spec_contains(t, "<!--"@)
}

/// Does a redirect file hold anything beyond template boilerplate and
/// comments?
pub fn redirect_has_real_content(content: &str) -> (r: bool)
    ensures
        r == exists|i: int|
            0 <= i < spec_lines(content@).len() && is_real_content_line(spec_lines(content@)[i]),
{
    let lines = split_lines(content);
    let ghost ls = spec_lines(content@);
    let mut i: usize = 0;
    while i < lines.len()
        invariant
            ls == spec_lines(content@),
            strs_view(lines@) == ls,
            lines@.len() == ls.len(),
            0 <= i <= lines@.len(),
            forall|k: int| 0 <= k < i ==> !is_real_content_line(ls[k]),
        decreases lines.len() - i,
    {
        proof {
            assert(ls[i as int] == lines@[i as int]@);
        }
        let t = trim(lines[i].as_str());
        if t.unicode_len() > 0 && !starts_with(t, "#") && !starts_with(t, "<!--") && !starts_with(
            t,
            "-->",
        ) && !contains(t, "<!--") {
            proof {
                assert(is_real_content_line(spec_lines(content@)[i as int]));
            }
            return true;
        }
        i = i + 1;
    }
    false
}

/// What a saved redirect file means: real guidance redirects the next pass;
/// a missing file or template-only content degrades to `Continue`, so an
/// accidental empty save never silently alters pipeline intent.
pub fn review_redirect_outcome(file_exists: bool, content: &str) -> (r: ReviewDecision)
    ensures
        (r == ReviewDecision::Redirect) <==> (file_exists && exists|i: int|
            0 <= i < spec_lines(content@).len() && is_real_content_line(spec_lines(content@)[i])),
        r == ReviewDecision::Redirect || r == ReviewDecision::Continue,
{
    if file_exists && redirect_has_real_content(content) {
        ReviewDecision::Redirect
    } else {
        ReviewDecision::Continue
    }
}

/// A scope feedback line that counts as input: not a heading, non-empty once
/// trimmed, and not the bare `-` the template puts under each section.
pub open spec fn is_feedback_line(l: Seq<char>) -> bool {
    !spec_starts_with(l, "#"@) && spec_trim(l).len() > 0 && spec_trim(l) != "-"@
}

/// Does a saved scope-feedback file hold any input, so that scoping should
/// re-run as a refinement?
pub fn scope_feedback_is_refinement(content: &str) -> (r: bool)
    ensures
        r == exists|i: int|
            0 <= i < spec_lines(content@).len() && is_feedback_line(spec_lines(content@)[i]),
{
    let lines = split_lines(content);
    let ghost ls = spec_lines(content@);
    let mut i: usize = 0;
    while i < lines.len()
        invariant
            ls == spec_lines(content@),
            strs_view(lines@) == ls,
            lines@.len() == ls.len(),
            0 <= i <= lines@.len(),
            forall|k: int| 0 <= k < i ==> !is_feedback_line(ls[k]),
        decreases lines.len() - i,
    {
        proof {
            assert(ls[i as int] == lines@[i as int]@);
        }
        let l = &lines[i];
        let t = trim(l.as_str());
        if !starts_with(l.as_str(), "#") && t.unicode_len() > 0 && !str_eq(t, "-") {
            proof {
                assert(is_feedback_line(spec_lines(content@)[i as int]));
            }
            return true;
        }
        i = i + 1;
    }
    false
}

// ---------------------------------------------------------------------------
// Markdown extraction
// ---------------------------------------------------------------------------

/// The first non-empty line after a heading, scanning the lines from `i`
/// with `found` recording whether the heading has been seen.
pub open spec fn spec_extract_after(
    ls: Seq<Seq<char>>,
    i: int,
    found: bool,
    heading: Seq<char>,
) -> Option<Seq<char>>
    decreases ls.len() - i,
{
    if i < 0 || i >= ls.len() {
        None
    } else if spec_starts_with(ls[i], heading) {
        spec_extract_after(ls, i + 1, true, heading)
    } else if found && spec_trim(ls[i]).len() > 0 {
        Some(spec_trim(ls[i]))
    } else {
        spec_extract_after(ls, i + 1, found, heading)
    }
}

/// What `extract_section_first_line` yields.
pub open spec fn spec_section_first_line(content: Seq<char>, heading: Seq<char>) -> Option<
    Seq<char>,
> {
    spec_extract_after(spec_lines(content), 0, false, heading)
}

/// Extract the first non-empty line after the given heading, trimmed;
/// nothing when the heading is absent or nothing follows it.
pub fn extract_section_first_line(content: &str, heading: &str) -> (r: Option<String>)
    ensures
        match r {
            Some(s) => spec_section_first_line(content@, heading@) == Some(s@),
            None => spec_section_first_line(content@, heading@) is None,
        },
{
    let lines = split_lines(content);
    let ghost ls = spec_lines(content@);
    let mut found = false;
    let mut i: usize = 0;
    while i < lines.len()
        invariant
            ls == spec_lines(content@),
            strs_view(lines@) == ls,
            lines@.len() == ls.len(),
            0 <= i <= lines@.len(),
            spec_extract_after(ls, i as int, found, heading@) == spec_section_first_line(
                content@,
                heading@,
            ),
        decreases lines.len() - i,
    {
        proof {
            assert(ls[i as int] == lines@[i as int]@);
        }
        let l = &lines[i];
        if starts_with(l.as_str(), heading) {
            found = true;
        } else if found {
            let t = trim(l.as_str());
            if t.unicode_len() > 0 {
                return Some(t.to_owned());
            }
        }
        i = i + 1;
    }
    None
}

/// The primary question of the acceptance-criteria artifact: the first line
/// after `## Primary Question`, `## Problem Statement` or `## Question`,
/// tried in that order.
pub fn extract_primary_question_from(content: &str) -> (r: Option<String>)
    ensures
        match r {
            Some(s) => {
                ||| spec_section_first_line(content@, "## Primary Question"@) == Some(s@)
                ||| (spec_section_first_line(content@, "## Primary Question"@) is None
                    && spec_section_first_line(content@, "## Problem Statement"@) == Some(s@))
                ||| (spec_section_first_line(content@, "## Primary Question"@) is None
                    && spec_section_first_line(content@, "## Problem Statement"@) is None
                    && spec_section_first_line(content@, "## Question"@) == Some(s@))
            },
            None => spec_section_first_line(content@, "## Primary Question"@) is None
                && spec_section_first_line(content@, "## Problem Statement"@) is None
                && spec_section_first_line(content@, "## Question"@) is None,
        },
{
    match extract_section_first_line(content, "## Primary Question") {
        Some(s) => Some(s),
        None => match extract_section_first_line(content, "## Problem Statement") {
            Some(s) => Some(s),
            None => extract_section_first_line(content, "## Question"),
        },
    }
}

/// The methodology approach: the first line after `## Recommended Approach`,
/// `## Selected Approach` or `## Approach`, tried in that order.
pub fn extract_methodology_approach_from(content: &str) -> (r: Option<String>)
    ensures
        match r {
            Some(s) => {
                ||| spec_section_first_line(content@, "## Recommended Approach"@) == Some(s@)
                ||| (spec_section_first_line(content@, "## Recommended Approach"@) is None
                    && spec_section_first_line(content@, "## Selected Approach"@) == Some(s@))
                ||| (spec_section_first_line(content@, "## Recommended Approach"@) is None
                    && spec_section_first_line(content@, "## Selected Approach"@) is None
                    && spec_section_first_line(content@, "## Approach"@) == Some(s@))
            },
            None => spec_section_first_line(content@, "## Recommended Approach"@) is None
                && spec_section_first_line(content@, "## Selected Approach"@) is None
                && spec_section_first_line(content@, "## Approach"@) is None,
        },
{
    match extract_section_first_line(content, "## Recommended Approach") {
        Some(s) => Some(s),
        None => match extract_section_first_line(content, "## Selected Approach") {
            Some(s) => Some(s),
            None => extract_section_first_line(content, "## Approach"),
        },
    }
}

/// Collect the trimmed non-empty lines after a heading, stopping at the next
/// `## ` heading or after `max` lines.
pub open spec fn spec_collect_after(
    ls: Seq<Seq<char>>,
    i: int,
    found: bool,
    heading: Seq<char>,
    max: int,
    acc: Seq<Seq<char>>,
) -> Seq<Seq<char>>
    decreases ls.len() - i,
{
    if i < 0 || i >= ls.len() {
        acc
    } else if spec_starts_with(ls[i], heading) {
        spec_collect_after(ls, i + 1, true, heading, max, acc)
    } else if found {
        if spec_starts_with(ls[i], "## "@) {
            acc
        } else if spec_trim(ls[i]).len() > 0 {
            let acc2 = acc.push(spec_trim(ls[i]));
            if acc2.len() >= max {
                acc2
            } else {
                spec_collect_after(ls, i + 1, true, heading, max, acc2)
            }
        } else {
            spec_collect_after(ls, i + 1, true, heading, max, acc)
        }
    } else {
        spec_collect_after(ls, i + 1, false, heading, max, acc)
    }
}

/// What collecting under one heading yields for a whole document.
pub open spec fn spec_section_lines(content: Seq<char>, heading: Seq<char>, max: int) -> Seq<
    Seq<char>,
> {
    spec_collect_after(spec_lines(content), 0, false, heading, max, Seq::empty())
}

fn collect_section_lines(content: &str, heading: &str, max: usize) -> (r: Vec<String>)
    ensures
        strs_view(r@) == spec_section_lines(content@, heading@, max as int),
{
    let lines = split_lines(content);
    let ghost ls = spec_lines(content@);
    let mut out: Vec<String> = Vec::new();
    let mut found = false;
    let mut i: usize = 0;
    proof {
        assert(strs_view(out@) =~= Seq::<Seq<char>>::empty());
    }
    while i < lines.len()
        invariant
            ls == spec_lines(content@),
            strs_view(lines@) == ls,
            lines@.len() == ls.len(),
            0 <= i <= lines@.len(),
            spec_collect_after(ls, i as int, found, heading@, max as int, strs_view(out@))
                == spec_section_lines(content@, heading@, max as int),
        decreases lines.len() - i,
    {
        proof {
            assert(ls[i as int] == lines@[i as int]@);
        }
        let l = &lines[i];
        if starts_with(l.as_str(), heading) {
            found = true;
        } else if found {
            if starts_with(l.as_str(), "## ") {
                return out;
            }
            let t = trim(l.as_str());
            if t.unicode_len() > 0 {
                let ghost pre = strs_view(out@);
                out.push(t.to_owned());
                proof {
                    assert(strs_view(out@) =~= pre.push(spec_trim(ls[i as int])));
                }
                if out.len() >= max {
                    return out;
                }
            }
        }
        i = i + 1;
    }
    out
}

/// Extract up to `max` trimmed non-empty lines after `## Success Criteria`,
/// `## Acceptance Criteria` or `## Criteria`: the first of those headings
/// that yields any lines wins, and a missing section yields none.
pub fn extract_acceptance_lines(content: &str, max: usize) -> (r: Vec<String>)
    ensures
        strs_view(r@) == (if spec_section_lines(content@, "## Success Criteria"@, max as int).len()
            > 0 {
            spec_section_lines(content@, "## Success Criteria"@, max as int)
        } else if spec_section_lines(content@, "## Acceptance Criteria"@, max as int).len() > 0 {
            spec_section_lines(content@, "## Acceptance Criteria"@, max as int)
        } else {
            spec_section_lines(content@, "## Criteria"@, max as int)
        }),
{
    let first = collect_section_lines(content, "## Success Criteria", max);
    if first.len() > 0 {
        return first;
    }
    let second = collect_section_lines(content, "## Acceptance Criteria", max);
    if second.len() > 0 {
        return second;
    }
    collect_section_lines(content, "## Criteria", max)
}

/// A verification-case heading: the line, with its leading `#` marks
/// stripped and then trimmed, starts with `V0-` or `V1-`.
pub open spec fn is_verification_case_line(l: Seq<char>) -> bool {
    let t = spec_trim(l.skip(hash_run(l)));
    spec_starts_with(t, "V0-"@) || spec_starts_with(t, "V1-"@)
}

/// How many lines of `ls` are verification-case headings.
pub open spec fn spec_verification_case_count(ls: Seq<Seq<char>>) -> int
    decreases ls.len(),
{
    if ls.len() == 0 {
        0
    } else {
        spec_verification_case_count(ls.drop_last()) + if is_verification_case_line(ls.last()) {
            1int
        } else {
            0int
        }
    }
}

/// Count the verification cases of a validation-strategy artifact: the
/// headings that read `V0-` or `V1-` once their `#` marks are stripped.
pub fn count_verification_cases_from(content: &str) -> (r: usize)
    ensures
        r == spec_verification_case_count(spec_lines(content@)),
{
    let lines = split_lines(content);
    let ghost ls = spec_lines(content@);
    let mut count: usize = 0;
    let mut i: usize = 0;
    proof {
        assert(ls.subrange(0, 0) =~= Seq::<Seq<char>>::empty());
    }
    while i < lines.len()
        invariant
            ls == spec_lines(content@),
            strs_view(lines@) == ls,
            lines@.len() == ls.len(),
            0 <= i <= lines@.len(),
            0 <= count <= i,
            count == spec_verification_case_count(ls.subrange(0, i as int)),
        decreases lines.len() - i,
    {
        proof {
            assert(ls[i as int] == lines@[i as int]@);
            assert(ls.subrange(0, i + 1).drop_last() =~= ls.subrange(0, i as int));
            assert(ls.subrange(0, i + 1).last() == ls[i as int]);
        }
        let l = &lines[i];
        let n = l.as_str().unicode_len();
        let mut h: usize = 0;
        while h < n && l.as_str().get_char(h) == '#'
            invariant
                n == l@.len(),
                0 <= h <= n,
                forall|k: int| 0 <= k < h ==> l@[k] == '#',
            decreases n - h,
        {
            h = h + 1;
        }
        proof {
            crate::text::lemma_hash_run_at(l@, h as int);
        }
        let rest = l.as_str().substring_char(h, n);
        proof {
            assert(rest@ =~= l@.skip(h as int));
        }
        let t = trim(rest);
        if starts_with(t, "V0-") || starts_with(t, "V1-") {
            assert(is_verification_case_line(ls[i as int]));
            count = count + 1;
        } else {
            assert(!is_verification_case_line(ls[i as int]));
        }
        i = i + 1;
    }
    proof {
        assert(ls.subrange(0, ls.len() as int) =~= ls);
    }
    count
}

/// The stack line of the agents artifact: the first line after one naming
/// `Language & Runtime`, when it is neither empty, a heading, nor still
/// `To be resolved`.
pub open spec fn spec_stack_info(ls: Seq<Seq<char>>, i: int, found: bool) -> Option<Seq<char>>
    decreases ls.len() - i,
{
    if i < 0 || i >= ls.len() {
        None
    } else if spec_contains(ls[i], "Language & Runtime"@) {
        spec_stack_info(ls, i + 1, true)
    } else if found && spec_trim(ls[i]).len() > 0 && !spec_starts_with(ls[i], "#"@) {
        if spec_contains(spec_trim(ls[i]), "To be resolved"@) {
            None
        } else {
            Some(spec_trim(ls[i]))
        }
    } else {
        spec_stack_info(ls, i + 1, found)
    }
}

/// Extract the resolved stack description from the agents artifact, if any.
pub fn extract_stack_info(content: &str) -> (r: Option<String>)
    ensures
        match r {
            Some(s) => spec_stack_info(spec_lines(content@), 0, false) == Some(s@),
            None => spec_stack_info(spec_lines(content@), 0, false) is None,
        },
{
    let lines = split_lines(content);
    let ghost ls = spec_lines(content@);
    let mut found = false;
    let mut i: usize = 0;
    while i < lines.len()
        invariant
            ls == spec_lines(content@),
            strs_view(lines@) == ls,
            lines@.len() == ls.len(),
            0 <= i <= lines@.len(),
            spec_stack_info(ls, i as int, found) == spec_stack_info(ls, 0, false),
        decreases lines.len() - i,
    {
        proof {
            assert(ls[i as int] == lines@[i as int]@);
        }
        let l = &lines[i];
        if contains(l.as_str(), "Language & Runtime") {
            found = true;
        } else if found {
            let t = trim(l.as_str());
            if t.unicode_len() > 0 && !starts_with(l.as_str(), "#") {
                proof {
                    assert(!spec_contains(ls[i as int], "Language & Runtime"@));
                    assert(spec_stack_info(ls, i as int, found) == (
                    if spec_contains(spec_trim(ls[i as int]), "To be resolved"@) {
                        None::<Seq<char>>
                    } else {
                        Some(spec_trim(ls[i as int]))
                    }));
                }
                if contains(t, "To be resolved") {
                    return None;
                }
                return Some(t.to_owned());
            }
        }
        i = i + 1;
    }
    None
}


// ---------------------------------------------------------------------------
// Review-package summaries
// ---------------------------------------------------------------------------

/// `s` cut to at most `m` characters: left whole when it fits, cut with a
/// `...` mark when the budget allows one, and cut bare otherwise.
pub open spec fn spec_truncate_str(s: Seq<char>, m: int) -> Seq<char> {
    if s.len() <= m {
        s
    } else if m > 3 {
        s.subrange(0, m - 3) + "..."@
    } else {
        s.subrange(0, m)
    }
}

/// Cut `s` to at most `max` characters, marking the cut with `...` when the
/// budget allows.
pub fn truncate_str(s: &str, max: usize) -> (r: String)
    ensures
        r@ == spec_truncate_str(s@, max as int),
{
    let n = s.unicode_len();
    if n <= max {
        return s.to_owned();
    }
    if max > 3 {
        let mut out = s.substring_char(0, max - 3).to_owned();
        out.append("...");
        out
    } else {
        s.substring_char(0, max).to_owned()
    }
}

/// A fraction `N/M` stands at position `i` of `l`: a digit run, optional
/// white space, a slash, optional white space, and a second digit run.
pub open spec fn frac_match_at(l: Seq<char>, i: int) -> bool {
    let d1 = digit_run(l.skip(i));
    let j = i + d1 + ws_run(l.skip(i + d1));
    d1 >= 1 && j < l.len() && l[j] == '/' && digit_run(
        l.skip(j + 1 + ws_run(l.skip(j + 1))),
    ) >= 1
}

/// The `N/M` text a fraction match at position `i` captures, with the white
/// space around the slash dropped.
pub open spec fn frac_capture(l: Seq<char>, i: int) -> Seq<char> {
    let d1 = digit_run(l.skip(i));
    let j = i + d1 + ws_run(l.skip(i + d1));
    let k = j + 1 + ws_run(l.skip(j + 1));
    l.subrange(i, i + d1) + "/"@ + l.subrange(k, k + digit_run(l.skip(k)))
}

/// The least position at or after `from` where a fraction stands.
pub open spec fn first_frac_from(l: Seq<char>, from: int) -> Option<int>
    decreases l.len() - from,
{
    if from < 0 || from >= l.len() {
        None
    } else if frac_match_at(l, from) {
        Some(from)
    } else {
        first_frac_from(l, from + 1)
    }
}

/// What `extract_fraction` yields.
pub open spec fn spec_fraction(l: Seq<char>) -> Option<Seq<char>> {
    match first_frac_from(l, 0) {
        Some(i) => Some(frac_capture(l, i)),
        None => None,
    }
}

proof fn lemma_first_frac_some(l: Seq<char>, from: int, i: int)
    requires
        0 <= from <= i < l.len(),
        forall|k: int| from <= k < i ==> !frac_match_at(l, k),
        frac_match_at(l, i),
    ensures
        first_frac_from(l, from) == Some(i),
    decreases i - from,
{
    if from < i {
        lemma_first_frac_some(l, from + 1, i);
    }
}

proof fn lemma_first_frac_none(l: Seq<char>, from: int)
    requires
        0 <= from,
        forall|k: int| from <= k < l.len() ==> !frac_match_at(l, k),
    ensures
        first_frac_from(l, from) == None::<int>,
    decreases l.len() - from,
{
    if from < l.len() {
        lemma_first_frac_none(l, from + 1);
    }
}

/// Find the first `N/M` fraction in `text` and render it as `N/M`, dropping
/// any white space around the slash.
pub fn extract_fraction(text: &str) -> (r: Option<String>)
    ensures
        match r {
            Some(s) => spec_fraction(text@) == Some(s@),
            None => spec_fraction(text@) is None,
        },
{
    let n = text.unicode_len();
    let mut i: usize = 0;
    while i < n
        invariant
            n == text@.len(),
            0 <= i <= n,
            forall|k: int| 0 <= k < i ==> !frac_match_at(text@, k),
        decreases n - i,
    {
        let d1 = scan_digits(text, i);
        proof {
            assert(text@.subrange(i as int, n as int) =~= text@.skip(i as int));
        }
        if d1 >= 1 {
            let j0 = i + d1;
            let w = scan_ws(text, j0);
            proof {
                assert(text@.subrange(j0 as int, n as int) =~= text@.skip(j0 as int));
            }
            let j = j0 + w;
            if j < n && text.get_char(j) == '/' {
                let k0 = j + 1;
                let w2 = scan_ws(text, k0);
                proof {
                    assert(text@.subrange(k0 as int, n as int) =~= text@.skip(k0 as int));
                }
                let k = k0 + w2;
                let d2 = scan_digits(text, k);
                proof {
                    assert(text@.subrange(k as int, n as int) =~= text@.skip(k as int));
                }
                if d2 >= 1 {
                    proof {
                        assert(frac_match_at(text@, i as int));
                        lemma_first_frac_some(text@, 0, i as int);
                    }
                    let mut out = text.substring_char(i, i + d1).to_owned();
                    out.append("/");
                    let denom = text.substring_char(k, k + d2);
                    out.append(denom);
                    proof {
                        assert(out@ =~= frac_capture(text@, i as int));
                    }
                    return Some(out);
                }
            }
        }
        assert(!frac_match_at(text@, i as int));
        i = i + 1;
    }
    proof {
        lemma_first_frac_none(text@, 0);
    }
    None
}

/// `l` with every leading occurrence of `p` removed, as
/// `str::trim_start_matches` strips a pattern.
pub open spec fn strip_all_prefix(l: Seq<char>, p: Seq<char>) -> Seq<char>
    decreases l.len(),
{
    if p.len() > 0 && spec_starts_with(l, p) {
        strip_all_prefix(l.skip(p.len() as int), p)
    } else {
        l
    }
}

fn strip_all_prefix_exec<'a>(l: &'a str, p: &str) -> (r: &'a str)
    requires
        p@.len() > 0,
    ensures
        r@ == strip_all_prefix(l@, p@),
    decreases l@.len(),
{
    if starts_with(l, p) {
        let m = p.unicode_len();
        let rest = l.substring_char(m, l.unicode_len());
        proof {
            assert(rest@ =~= l@.skip(m as int));
        }
        strip_all_prefix_exec(rest, p)
    } else {
        l
    }
}

/// The summary a `DDV:` line carries, scanning the lines from `i`.
pub open spec fn spec_ddv_line_from(ls: Seq<Seq<char>>, i: int) -> Option<Seq<char>>
    decreases ls.len() - i,
{
    if i < 0 || i >= ls.len() {
        None
    } else if spec_starts_with(ls[i], "DDV:"@) {
        Some(ls[i])
    } else {
        spec_ddv_line_from(ls, i + 1)
    }
}

/// What `extract_ddv_summary` yields for one `DDV:` line: the fraction in
/// the text after the marker if there is one, else that text cut to eight
/// characters.
pub open spec fn spec_ddv_summary_of_line(l: Seq<char>) -> Seq<char> {
    let t = spec_trim(strip_all_prefix(l, "DDV:"@));
    match spec_fraction(t) {
        Some(f) => f,
        None => spec_truncate_str(t, 8),
    }
}

/// Extract the domain-verification test summary from a review package: the
/// first line starting `DDV:`, reduced to its `N/M` fraction when one is
/// present and cut to eight characters otherwise.
pub fn extract_ddv_summary(content: &str) -> (r: Option<String>)
    ensures
        match r {
            Some(s) => {
                &&& spec_ddv_line_from(spec_lines(content@), 0) is Some
                &&& s@ == spec_ddv_summary_of_line(
                    spec_ddv_line_from(spec_lines(content@), 0)->Some_0,
                )
            },
            None => spec_ddv_line_from(spec_lines(content@), 0) is None,
        },
{
    let lines = split_lines(content);
    let ghost ls = spec_lines(content@);
    let mut i: usize = 0;
    while i < lines.len()
        invariant
            ls == spec_lines(content@),
            strs_view(lines@) == ls,
            lines@.len() == ls.len(),
            0 <= i <= lines@.len(),
            spec_ddv_line_from(ls, i as int) == spec_ddv_line_from(ls, 0),
        decreases lines.len() - i,
    {
        proof {
            assert(ls[i as int] == lines@[i as int]@);
        }
        let l = &lines[i];
        if starts_with(l.as_str(), "DDV:") {
            proof {
                reveal_strlit("DDV:");
            }
            let stripped = strip_all_prefix_exec(l.as_str(), "DDV:");
            let t = trim(stripped);
            return match extract_fraction(t) {
                Some(f) => Some(f),
                None => Some(truncate_str(t, 8)),
            };
        }
        i = i + 1;
    }
    None
}

/// The position of the last `:` of `l`, or nothing.
pub open spec fn last_colon(l: Seq<char>) -> Option<int>
    decreases l.len(),
{
    if l.len() == 0 {
        None
    } else if l.last() == ':' {
        Some(l.len() - 1)
    } else {
        last_colon(l.drop_last())
    }
}

proof fn lemma_last_colon_at(l: Seq<char>, j: int)
    requires
        0 <= j < l.len(),
        l[j] == ':',
        forall|k: int| j < k < l.len() ==> l[k] != ':',
    ensures
        last_colon(l) == Some(j),
    decreases l.len(),
{
    if j < l.len() - 1 {
        let t = l.drop_last();
        assert forall|k: int| j < k < t.len() implies t[k] != ':' by {
            assert(t[k] == l[k]);
        }
        lemma_last_colon_at(t, j);
    }
}

proof fn lemma_last_colon_none(l: Seq<char>)
    requires
        forall|k: int| 0 <= k < l.len() ==> l[k] != ':',
    ensures
        last_colon(l) == None::<int>,
    decreases l.len(),
{
    if l.len() > 0 {
        let t = l.drop_last();
        assert forall|k: int| 0 <= k < t.len() implies t[k] != ':' by {
            assert(t[k] == l[k]);
        }
        lemma_last_colon_none(t);
    }
}

/// The text after the last `:` of `l`, or all of `l` when it has none.
pub open spec fn after_last_colon(l: Seq<char>) -> Seq<char> {
    match last_colon(l) {
        Some(j) => l.skip(j + 1),
        None => l,
    }
}

fn after_last_colon_exec<'a>(l: &'a str) -> (r: &'a str)
    ensures
        r@ == after_last_colon(l@),
{
    let n = l.unicode_len();
    let mut j: usize = n;
    while j > 0
        invariant
            n == l@.len(),
            0 <= j <= n,
            forall|k: int| j <= k < n ==> l@[k] != ':',
        decreases j,
    {
        if l.get_char(j - 1) == ':' {
            proof {
                lemma_last_colon_at(l@, j - 1);
            }
            let r = l.substring_char(j, n);
            proof {
                assert(r@ =~= l@.skip(j as int));
            }
            return r;
        }
        j = j - 1;
    }
    proof {
        lemma_last_colon_none(l@);
    }
    l
}

/// The marker `sanity checks:` stands at position `i` of `l`, in any letter
/// case.
pub open spec fn sanity_marker_at(l: Seq<char>, i: int) -> bool {
    0 <= i && i + 14 <= l.len() && forall|k: int|
        0 <= k < 14 ==> (l[i + k] == "sanity checks:"@[k] || l[i + k] == "SANITY CHECKS:"@[k])
}

/// A sanity line: one carrying the marker in any case and not a heading.
pub open spec fn is_sanity_line(l: Seq<char>) -> bool {
    (exists|i: int| sanity_marker_at(l, i)) && !spec_starts_with(l, "#"@)
}

/// The first sanity line, scanning the lines from `i`.
pub open spec fn spec_sanity_line_from(ls: Seq<Seq<char>>, i: int) -> Option<Seq<char>>
    decreases ls.len() - i,
{
    if i < 0 || i >= ls.len() {
        None
    } else if is_sanity_line(ls[i]) {
        Some(ls[i])
    } else {
        spec_sanity_line_from(ls, i + 1)
    }
}

/// What `extract_sanity_summary` yields for one sanity line: the trimmed
/// text after its last colon, reduced to its fraction when one is present
/// and cut to seven characters otherwise.
pub open spec fn spec_sanity_summary_of_line(l: Seq<char>) -> Seq<char> {
    let t = spec_trim(after_last_colon(l));
    match spec_fraction(t) {
        Some(f) => f,
        None => spec_truncate_str(t, 7),
    }
}

fn line_has_sanity_marker(l: &str) -> (r: bool)
    ensures
        r == exists|i: int| sanity_marker_at(l@, i),
{
    let n = l.unicode_len();
    let lower = "sanity checks:";
    let upper = "SANITY CHECKS:";
    proof {
        reveal_strlit("sanity checks:");
        reveal_strlit("SANITY CHECKS:");
    }
    if n < 14 {
        assert forall|i: int| !sanity_marker_at(l@, i) by {}
        return false;
    }
    let mut i: usize = 0;
    while i <= n - 14
        invariant
            n == l@.len(),
            14 <= n,
            0 <= i <= n - 14 + 1,
            lower@ == "sanity checks:"@,
            upper@ == "SANITY CHECKS:"@,
            lower@.len() == 14,
            upper@.len() == 14,
            forall|k: int| 0 <= k < i ==> !sanity_marker_at(l@, k),
        decreases n - i,
    {
        let mut k: usize = 0;
        let mut hit = true;
        while k < 14
            invariant
                n == l@.len(),
                i + 14 <= n,
                0 <= k <= 14,
                lower@ == "sanity checks:"@,
                upper@ == "SANITY CHECKS:"@,
                lower@.len() == 14,
                upper@.len() == 14,
                hit ==> forall|q: int|
                    0 <= q < k ==> (l@[i + q] == lower@[q] || l@[i + q] == upper@[q]),
                !hit ==> !sanity_marker_at(l@, i as int),
            decreases 14 - k,
        {
            if hit {
                let c = l.get_char(i + k);
                let cl = lower.get_char(k);
                let cu = upper.get_char(k);
                if c != cl && c != cu {
                    hit = false;
                    assert(!sanity_marker_at(l@, i as int));
                }
            }
            k = k + 1;
        }
        if hit {
            assert(sanity_marker_at(l@, i as int));
            return true;
        }
        i = i + 1;
    }
    assert forall|q: int| !sanity_marker_at(l@, q) by {
        if 0 <= q && q + 14 <= l@.len() {
            assert(!sanity_marker_at(l@, q));
        }
    }
    false
}

/// Extract the sanity-check summary from a review package: the first
/// non-heading line naming `sanity checks:` in any case, reduced to the
/// text after its last colon, as a fraction when one is present and cut to
/// seven characters otherwise.
pub fn extract_sanity_summary(content: &str) -> (r: Option<String>)
    ensures
        match r {
            Some(s) => {
                &&& spec_sanity_line_from(spec_lines(content@), 0) is Some
                &&& s@ == spec_sanity_summary_of_line(
                    spec_sanity_line_from(spec_lines(content@), 0)->Some_0,
                )
            },
            None => spec_sanity_line_from(spec_lines(content@), 0) is None,
        },
{
    let lines = split_lines(content);
    let ghost ls = spec_lines(content@);
    let mut i: usize = 0;
    while i < lines.len()
        invariant
            ls == spec_lines(content@),
            strs_view(lines@) == ls,
            lines@.len() == ls.len(),
            0 <= i <= lines@.len(),
            spec_sanity_line_from(ls, i as int) == spec_sanity_line_from(ls, 0),
        decreases lines.len() - i,
    {
        proof {
            assert(ls[i as int] == lines@[i as int]@);
        }
        let l = &lines[i];
        if line_has_sanity_marker(l.as_str()) && !starts_with(l.as_str(), "#") {
            assert(is_sanity_line(ls[i as int]));
            let t = trim(after_last_colon_exec(l.as_str()));
            return match extract_fraction(t) {
                Some(f) => Some(f),
                None => Some(truncate_str(t, 7)),
            };
        }
        assert(!is_sanity_line(ls[i as int]));
        i = i + 1;
    }
    None
}

} // verus!
