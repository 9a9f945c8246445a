//! Edge cases of the plan-document and summary grammars.

use lisa::review::extract_fraction;
use lisa::tasks::parse_tasks;
use lisa::vcs::parse_pass_tags;

#[test]
fn test_task_heading_with_tabs() {
    let content = "##\tTask 5: tabs count as white space\n- **Status:** DONE\n";
    let tasks = parse_tasks(content);
    assert_eq!(tasks.len(), 1);
    assert_eq!(tasks[0].status, "DONE");
}

#[test]
fn test_status_first_match_wins_within_a_line() {
    let content = "### Task 1: A\n- **Status:** TODO then **Status:** DONE\n";
    let tasks = parse_tasks(content);
    assert_eq!(tasks.len(), 1);
    assert_eq!(tasks[0].status, "TODO");
}

#[test]
fn test_later_status_line_overwrites_earlier() {
    let content = "### Task 1: A\n- **Status:** TODO\n- **Status:** DONE\n";
    let tasks = parse_tasks(content);
    assert_eq!(tasks.len(), 1);
    assert_eq!(tasks[0].status, "DONE");
}

#[test]
fn test_pass_with_leading_zeros() {
    let content = "### Task 1: A\n- **Status:** TODO\n- **Pass:** 007\n";
    let tasks = parse_tasks(content);
    assert_eq!(tasks[0].pass, 7);
}

#[test]
fn test_pass_overflow_is_ignored() {
    // A pass number too large for a u32 assigns nothing; the default stays.
    let content = "### Task 1: A\n- **Status:** TODO\n- **Pass:** 99999999999\n";
    let tasks = parse_tasks(content);
    assert_eq!(tasks[0].pass, 1);
}

#[test]
fn test_status_requires_space_after_marker() {
    let content = "### Task 1: A\n- **Status:**DONE\n";
    let tasks = parse_tasks(content);
    assert_eq!(tasks[0].status, "");
}

#[test]
fn test_parse_pass_tags_leading_zeros_and_padding() {
    assert_eq!(parse_pass_tags("lisa/pass-0007\n"), vec![7]);
    assert_eq!(parse_pass_tags("  lisa/pass-2  \n"), vec![2]);
    assert_eq!(parse_pass_tags("lisa/pass-2x\n"), Vec::<u32>::new());
    assert_eq!(parse_pass_tags("lisa/pass-99999999999\n"), Vec::<u32>::new());
}

#[test]
fn test_parse_pass_tags_keeps_duplicates() {
    assert_eq!(parse_pass_tags("lisa/pass-1\nlisa/pass-1\nlisa/pass-0\n"), vec![0, 1, 1]);
}

#[test]
fn test_extract_fraction_skips_false_starts() {
    // The digits before the stray space are not part of the fraction.
    assert_eq!(extract_fraction("12 3/4"), Some("3/4".to_string()));
    assert_eq!(extract_fraction("v1.2 then 5 / 9 later"), Some("5/9".to_string()));
}
