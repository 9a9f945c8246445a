use lisa::agent::ToolCall;
use lisa::enforcement::verify_ddv_isolation;

fn source_dirs() -> Vec<String> {
    vec!["src".to_string()]
}

#[test]
fn test_ddv_isolation_catches_read() {
    let log = vec![ToolCall::Read {
        path: "src/main.rs".to_string(),
    }];
    assert!(verify_ddv_isolation(&log, &source_dirs(), "/project").is_err());
}

#[test]
fn test_ddv_isolation_catches_write() {
    let log = vec![ToolCall::Write {
        path: "src/lib.rs".to_string(),
    }];
    assert!(verify_ddv_isolation(&log, &source_dirs(), "/project").is_err());
}

#[test]
fn test_ddv_isolation_catches_edit() {
    let log = vec![ToolCall::Edit {
        path: "src/lib.rs".to_string(),
    }];
    assert!(verify_ddv_isolation(&log, &source_dirs(), "/project").is_err());
}

#[test]
fn test_ddv_isolation_allows_test_files() {
    let log = vec![ToolCall::Read {
        path: "tests/ddv/test_foo.py".to_string(),
    }];
    assert!(verify_ddv_isolation(&log, &source_dirs(), "/project").is_ok());
}

#[test]
fn test_ddv_isolation_catches_bash() {
    let log = vec![ToolCall::Bash {
        command: "cat src/main.rs".to_string(),
    }];
    assert!(verify_ddv_isolation(&log, &source_dirs(), "/project").is_err());
}

#[test]
fn test_ddv_isolation_allows_unrelated_bash() {
    let log = vec![ToolCall::Bash {
        command: "python -m pytest tests/".to_string(),
    }];
    assert!(verify_ddv_isolation(&log, &source_dirs(), "/project").is_ok());
}

#[test]
fn test_ddv_isolation_src_flagged_ddv_not() {
    // A read under the configured source dir is a violation; a read under
    // the DDV test tree is not.
    let bad = vec![ToolCall::Read {
        path: "src/main.x".to_string(),
    }];
    assert_eq!(verify_ddv_isolation(&bad, &source_dirs(), "/project"), Err(1));
    let good = vec![ToolCall::Read {
        path: "tests/ddv/foo.x".to_string(),
    }];
    assert_eq!(verify_ddv_isolation(&good, &source_dirs(), "/project"), Ok(()));
}

#[test]
fn test_ddv_isolation_counts_all_violations() {
    let log = vec![
        ToolCall::Read {
            path: "src/a.rs".to_string(),
        },
        ToolCall::Glob {
            pattern: "src/**".to_string(),
        },
        ToolCall::Write {
            path: "./src/b.rs".to_string(),
        },
        ToolCall::Read {
            path: "/project/src/c.rs".to_string(),
        },
    ];
    // Glob calls are never violations; the other three are.
    assert_eq!(verify_ddv_isolation(&log, &source_dirs(), "/project"), Err(3));
}

#[test]
fn test_ddv_isolation_other_calls_ignored() {
    let log = vec![
        ToolCall::Task {
            description: "look at src/".to_string(),
        },
        ToolCall::Other {
            name: "WebSearch".to_string(),
        },
        ToolCall::Grep {
            pattern: "src/".to_string(),
        },
    ];
    assert!(verify_ddv_isolation(&log, &source_dirs(), "/project").is_ok());
}
