use lisa::tasks::{
    all_tasks_done, count_blocked_tasks, count_tasks_by_status, count_uncompleted_tasks,
    has_blocked_tasks, hash_task_statuses, parse_tasks,
};

#[test]
fn test_parse_tasks() {
    let content = "# Implementation Plan\n\n## Tasks\n\n### Task 1: Setup infrastructure\n- **Status:** DONE\n- **Pass:** 1\n- **Methodology:** N/A\n- **Checklist:**\n  - [x] Create project structure\n\n### Task 2: Implement core\n- **Status:** TODO\n- **Pass:** 1\n- **Methodology:** Section 2.1\n- **Checklist:**\n  - [ ] Implement equations\n\n### Task 3: Advanced features\n- **Status:** BLOCKED\n- **Pass:** 2\n- **Methodology:** Section 3.1\n- **Dependencies:** Task 2\n";
    let tasks = parse_tasks(content);
    assert_eq!(tasks.len(), 3);
    assert_eq!(tasks[0].status, "DONE");
    assert_eq!(tasks[0].pass, 1);
    assert_eq!(tasks[1].status, "TODO");
    assert_eq!(tasks[1].pass, 1);
    assert_eq!(tasks[2].status, "BLOCKED");
    assert_eq!(tasks[2].pass, 2);
}

#[test]
fn test_parse_tasks_empty() {
    let content = "# Implementation Plan\n\n## Tasks\n";
    let tasks = parse_tasks(content);
    assert_eq!(tasks.len(), 0);
}

#[test]
fn test_parse_tasks_heading_variations() {
    let content = "# Plan\n\n## Task 1: Two hashes\n- **Status:** TODO\n- **Pass:** 1\n\n#### Task 2: Four hashes\n- **Status:**  DONE\n- **Pass:** 2\n\n### task 3: lowercase\n- **Status:** IN_PROGRESS\n";
    let tasks = parse_tasks(content);
    assert_eq!(tasks.len(), 3);
    assert_eq!(tasks[0].status, "TODO");
    assert_eq!(tasks[0].pass, 1);
    assert_eq!(tasks[1].status, "DONE");
    assert_eq!(tasks[1].pass, 2);
    assert_eq!(tasks[2].status, "IN_PROGRESS");
    assert_eq!(tasks[2].pass, 1); // default when missing
}

#[test]
fn test_parse_tasks_five_hashes_is_not_a_heading() {
    let content = "##### Task 1: Too deep\n- **Status:** TODO\n- **Pass:** 1\n";
    assert_eq!(parse_tasks(content).len(), 0);
}

#[test]
fn test_parse_tasks_missing_status_defaults_empty() {
    let content = "### Task 1: No status here\n- **Pass:** 3\n";
    let tasks = parse_tasks(content);
    assert_eq!(tasks.len(), 1);
    assert_eq!(tasks[0].status, "");
    assert_eq!(tasks[0].pass, 3);
}

#[test]
fn test_hash_task_statuses_changes_on_status_change() {
    let content_v1 = "### Task 1: Foo\n- **Status:** TODO\n- **Pass:** 1\n\n### Task 2: Bar\n- **Status:** TODO\n- **Pass:** 1\n";
    let hash1 = hash_task_statuses(content_v1);

    // Change a status
    let content_v2 = "### Task 1: Foo\n- **Status:** DONE\n- **Pass:** 1\n\n### Task 2: Bar\n- **Status:** TODO\n- **Pass:** 1\n";
    let hash2 = hash_task_statuses(content_v2);

    assert_ne!(hash1, hash2, "Hash should change when task status changes");
}

#[test]
fn test_hash_task_statuses_stable_on_description_change() {
    let content_v1 = "### Task 1: Original description\n- **Status:** TODO\n- **Pass:** 1\n- **Checklist:**\n  - [ ] Do something\n";
    let hash1 = hash_task_statuses(content_v1);

    // Change description and checklist but keep same status
    let content_v2 = "### Task 1: Completely rewritten description with more words\n- **Status:** TODO\n- **Pass:** 1\n- **Checklist:**\n  - [ ] Do something different\n  - [ ] Extra item\n\nSome added prose here.\n";
    let hash2 = hash_task_statuses(content_v2);

    assert_eq!(
        hash1, hash2,
        "Hash should NOT change when only descriptions change"
    );
}

#[test]
fn test_hash_task_statuses_missing_file() {
    // A missing plan document reads as empty content.
    let hash = hash_task_statuses("");
    let hash2 = hash_task_statuses("");
    assert_eq!(hash, hash2, "Hash of missing file should be deterministic");
    assert_eq!(hash.len(), 0);
}

#[test]
fn test_done_and_blocked_queries_by_pass() {
    // One DONE task in pass 1 and one BLOCKED task in pass 2.
    let content = "### Task 1: Done work\n- **Status:** DONE\n- **Pass:** 1\n\n### Task 2: Stuck work\n- **Status:** BLOCKED\n- **Pass:** 2\n";
    assert!(all_tasks_done(content, 1));
    assert!(!has_blocked_tasks(content, 1));
    assert!(all_tasks_done(content, 2));
    assert!(has_blocked_tasks(content, 2));
}

#[test]
fn test_count_queries() {
    let content = "### Task 1: A\n- **Status:** TODO\n- **Pass:** 1\n\n### Task 2: B\n- **Status:** IN_PROGRESS\n- **Pass:** 1\n\n### Task 3: C\n- **Status:** DONE\n- **Pass:** 2\n\n### Task 4: D\n- **Status:** BLOCKED\n- **Pass:** 2\n";
    assert_eq!(count_uncompleted_tasks(content, 1), 2);
    assert_eq!(count_uncompleted_tasks(content, 2), 2);
    assert_eq!(count_blocked_tasks(content, 1), 0);
    assert_eq!(count_blocked_tasks(content, 2), 1);
    let counts = count_tasks_by_status(content);
    assert_eq!(counts.total, 4);
    assert_eq!(counts.todo, 1);
    assert_eq!(counts.in_progress, 1);
    assert_eq!(counts.done, 1);
    assert_eq!(counts.blocked, 1);
}
