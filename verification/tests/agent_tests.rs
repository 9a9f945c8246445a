use lisa::agent::{format_tool_call_summary, truncate_tool_detail, ToolCall};

#[test]
fn test_truncate_tool_detail_short() {
    assert_eq!(truncate_tool_detail("Read foo.rs", 20), "Read foo.rs");
}

#[test]
fn test_truncate_tool_detail_exact() {
    assert_eq!(truncate_tool_detail("abcde", 5), "abcde");
}

#[test]
fn test_truncate_tool_detail_long() {
    let result = truncate_tool_detail("Read /very/long/path/to/file.txt", 15);
    assert_eq!(result, "Read /very/l...");
    assert_eq!(result.len(), 15);
}

#[test]
fn test_truncate_tool_detail_tiny_budget() {
    assert_eq!(truncate_tool_detail("anything", 3), "");
    assert_eq!(truncate_tool_detail("anything", 0), "");
}

#[test]
fn test_format_tool_call_summary_read() {
    let call = ToolCall::Read {
        path: "/src/main.rs".to_string(),
    };
    assert_eq!(format_tool_call_summary(&call), "Read /src/main.rs");
}

#[test]
fn test_format_tool_call_summary_bash_truncates() {
    let call = ToolCall::Bash {
        command: "cargo test --all-features --workspace -- --nocapture some_very_long_test_name_here"
            .to_string(),
    };
    let summary = format_tool_call_summary(&call);
    assert!(summary.starts_with("Bash $ "));
    assert!(summary.len() <= 67); // "Bash $ " (7) + 60 max
}

#[test]
fn test_format_tool_call_summary_task_truncates() {
    let call = ToolCall::Task {
        description: "A very long task description that should be truncated to fit within a reasonable display width".to_string(),
    };
    let summary = format_tool_call_summary(&call);
    assert!(summary.starts_with("Task "));
    assert!(summary.contains("..."));
}

#[test]
fn test_format_tool_call_summary_other() {
    let call = ToolCall::Other {
        name: "WebSearch".to_string(),
    };
    assert_eq!(format_tool_call_summary(&call), "WebSearch");
}

#[test]
fn test_format_tool_call_summary_bash_first_line_only() {
    let call = ToolCall::Bash {
        command: "echo one\necho two".to_string(),
    };
    assert_eq!(format_tool_call_summary(&call), "Bash $ echo one");
}
