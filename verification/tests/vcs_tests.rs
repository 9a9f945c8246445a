use lisa::vcs::{parse_pass_tags, pass_tag, rollback_plan, RollbackError};

#[test]
fn test_parse_pass_tags_normal() {
    let output = "lisa/pass-0\nlisa/pass-1\nlisa/pass-2\n";
    assert_eq!(parse_pass_tags(output), vec![0, 1, 2]);
}

#[test]
fn test_parse_pass_tags_empty() {
    assert_eq!(parse_pass_tags(""), Vec::<u32>::new());
}

#[test]
fn test_parse_pass_tags_unordered() {
    let output = "lisa/pass-3\nlisa/pass-1\nlisa/pass-0\n";
    assert_eq!(parse_pass_tags(output), vec![0, 1, 3]);
}

#[test]
fn test_parse_pass_tags_with_noise() {
    let output = "lisa/pass-0\nother-tag\nlisa/pass-abc\nlisa/pass-2\n";
    assert_eq!(parse_pass_tags(output), vec![0, 2]);
}

#[test]
fn test_pass_tag_names() {
    assert_eq!(pass_tag(0), "lisa/pass-0");
    assert_eq!(pass_tag(17), "lisa/pass-17");
}

#[test]
fn test_rollback_plan_to_pass_two() {
    // Tags exist for passes 0 through 3; roll back to pass 2.
    let available = vec![0, 1, 2, 3];
    let plan = rollback_plan(&available, 2, false, "20250101-120000").unwrap();
    assert_eq!(plan.tag, "lisa/pass-2");
    assert_eq!(plan.backup_branch, "lisa/backup/rollback-20250101-120000");
    assert!(plan.restore_ledger_from_backup);
}

#[test]
fn test_rollback_refused_without_tag() {
    let available = vec![0, 1];
    assert_eq!(
        rollback_plan(&available, 5, false, "ts").unwrap_err(),
        RollbackError::TagNotFound
    );
}

#[test]
fn test_rollback_refused_with_uncommitted_changes() {
    let available = vec![0, 1, 2];
    assert_eq!(
        rollback_plan(&available, 1, true, "ts").unwrap_err(),
        RollbackError::UncommittedChanges
    );
}
