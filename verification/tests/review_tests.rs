use lisa::review::{
    block_gate_decision, count_verification_cases_from, env_gate_decision, extract_acceptance_lines,
    extract_ddv_summary, extract_fraction, extract_methodology_approach_from,
    extract_primary_question_from, extract_sanity_summary, extract_section_first_line,
    extract_stack_info, redirect_has_real_content, review_gate_decision, review_redirect_outcome,
    scope_feedback_is_refinement, scope_gate_decision, truncate_str, BlockDecision, EnvDecision,
    ReviewDecision, ScopeDecision,
};

#[test]
fn test_extract_primary_question_from() {
    let content = "# Acceptance Criteria\n\n## Primary Question\n\nWhat is the Reynolds number?\n\n## Success Criteria\n";
    assert_eq!(
        extract_primary_question_from(content),
        Some("What is the Reynolds number?".to_string())
    );
}

#[test]
fn test_extract_primary_question_problem_statement() {
    let content = "# Criteria\n\n## Problem Statement\n\nCalculate drag coefficient.\n";
    assert_eq!(
        extract_primary_question_from(content),
        Some("Calculate drag coefficient.".to_string())
    );
}

#[test]
fn test_extract_primary_question_missing() {
    let content = "# Criteria\n\n## Other Section\n\nSome text.\n";
    assert_eq!(extract_primary_question_from(content), None);
}

#[test]
fn test_extract_acceptance_lines() {
    let content = "# Doc\n\n## Success Criteria\n\n- Accuracy within 1%\n- Validated against reference\n- Clean convergence\n\n## Other\n";
    let lines = extract_acceptance_lines(content, 5);
    assert_eq!(lines.len(), 3);
    assert_eq!(lines[0], "- Accuracy within 1%");
    assert_eq!(lines[1], "- Validated against reference");
}

#[test]
fn test_extract_acceptance_lines_limited() {
    let content = "## Acceptance Criteria\n\n- A\n- B\n- C\n- D\n- E\n- F\n";
    let lines = extract_acceptance_lines(content, 3);
    assert_eq!(lines.len(), 3);
}

#[test]
fn test_extract_acceptance_lines_stops_at_heading() {
    let content = "## Success Criteria\n\n- A\n- B\n\n## Next Section\n\n- C\n";
    let lines = extract_acceptance_lines(content, 10);
    assert_eq!(lines.len(), 2);
}

#[test]
fn test_extract_methodology_approach_from() {
    let content = "# Methodology\n\n## Recommended Approach\n\nFinite element analysis with mesh refinement.\n\n## Details\n";
    assert_eq!(
        extract_methodology_approach_from(content),
        Some("Finite element analysis with mesh refinement.".to_string())
    );
}

#[test]
fn test_extract_methodology_approach_fallback() {
    let content = "# Methodology\n\n## Approach\n\nDirect numerical simulation.\n";
    assert_eq!(
        extract_methodology_approach_from(content),
        Some("Direct numerical simulation.".to_string())
    );
}

#[test]
fn test_count_verification_cases_from() {
    let content = "# Validation\n\n### V0-basic-check\nDetails...\n\n### V0-boundary\nDetails...\n\n### V1-convergence\nDetails...\n\n## Other\n";
    assert_eq!(count_verification_cases_from(content), 3);
}

#[test]
fn test_count_verification_cases_none() {
    let content = "# Validation\n\n## Some Section\n\nNo verification headings.\n";
    assert_eq!(count_verification_cases_from(content), 0);
}

#[test]
fn test_extract_section_first_line() {
    let content = "## Current Answer\n\nRe = 1.23e5 +/- 2.1%\n\n## Progress\n";
    assert_eq!(
        extract_section_first_line(content, "## Current Answer"),
        Some("Re = 1.23e5 +/- 2.1%".to_string())
    );
}

#[test]
fn test_extract_section_first_line_missing() {
    let content = "## Other\n\nSome text.\n";
    assert_eq!(extract_section_first_line(content, "## Current Answer"), None);
}

#[test]
fn test_extract_stack_info() {
    let content = "# Agents\n\n## Language & Runtime\n\nPython 3.11 with NumPy/SciPy\n";
    assert_eq!(
        extract_stack_info(content),
        Some("Python 3.11 with NumPy/SciPy".to_string())
    );
}

#[test]
fn test_extract_stack_info_unresolved() {
    let content = "# Agents\n\n## Language & Runtime\n\nTo be resolved during scoping\n";
    assert_eq!(extract_stack_info(content), None);
}

#[test]
fn test_gate_defaults_when_pause_disabled() {
    // With pausing off every gate takes its safe default, whatever the input.
    assert_eq!(scope_gate_decision(false, "q"), Some(ScopeDecision::Approve));
    assert_eq!(review_gate_decision(false, "a"), Some(ReviewDecision::Continue));
    assert_eq!(block_gate_decision(false, "x"), Some(BlockDecision::Skip));
}

#[test]
fn test_gate_choice_parsing() {
    assert_eq!(scope_gate_decision(true, " A \n"), Some(ScopeDecision::Approve));
    assert_eq!(scope_gate_decision(true, "r"), Some(ScopeDecision::Refine));
    assert_eq!(scope_gate_decision(true, "e"), Some(ScopeDecision::Edit));
    assert_eq!(scope_gate_decision(true, "Q"), Some(ScopeDecision::Quit));
    assert_eq!(scope_gate_decision(true, "zz"), None);
    assert_eq!(review_gate_decision(true, "A\n"), Some(ReviewDecision::Accept));
    assert_eq!(review_gate_decision(true, "c"), Some(ReviewDecision::Continue));
    assert_eq!(review_gate_decision(true, "R"), Some(ReviewDecision::Redirect));
    assert_eq!(review_gate_decision(true, ""), None);
    assert_eq!(block_gate_decision(true, "F"), Some(BlockDecision::Fix));
    assert_eq!(block_gate_decision(true, "s"), Some(BlockDecision::Skip));
    assert_eq!(block_gate_decision(true, "X"), Some(BlockDecision::Abort));
    assert_eq!(env_gate_decision("f"), Some(EnvDecision::Fix));
    assert_eq!(env_gate_decision("S"), Some(EnvDecision::Skip));
    assert_eq!(env_gate_decision("n"), None);
}

#[test]
fn test_redirect_template_only_means_continue() {
    let template = "# Human Redirect — Pass 2\n\n<!-- Write your guidance for the next pass below. Save and close when done. -->\n<!-- Delete this comment block. -->\n\n";
    assert!(!redirect_has_real_content(template));
    assert_eq!(
        review_redirect_outcome(true, template),
        ReviewDecision::Continue
    );
}

#[test]
fn test_redirect_with_guidance_redirects() {
    let saved = "# Human Redirect — Pass 2\n\nFocus on the boundary conditions next pass.\n";
    assert!(redirect_has_real_content(saved));
    assert_eq!(review_redirect_outcome(true, saved), ReviewDecision::Redirect);
    assert_eq!(review_redirect_outcome(false, saved), ReviewDecision::Continue);
}

#[test]
fn test_scope_feedback_detection() {
    let empty_template = "# Scope Feedback\n\n## Acceptance Criteria Issues\n-\n\n## Other\n-\n";
    assert!(!scope_feedback_is_refinement(empty_template));
    let filled = "# Scope Feedback\n\n## Acceptance Criteria Issues\n- The tolerance is too loose.\n";
    assert!(scope_feedback_is_refinement(filled));
}

#[test]
fn test_extract_fraction_patterns() {
    assert_eq!(extract_fraction("passed: 3/4"), Some("3/4".to_string()));
    assert_eq!(extract_fraction("12 / 15 cases"), Some("12/15".to_string()));
    assert_eq!(extract_fraction("no fraction here"), None);
}

#[test]
fn test_extract_ddv_summary_fraction() {
    let content = "## Tests\n\nDDV: passed 3/4 cases\n";
    assert_eq!(extract_ddv_summary(content), Some("3/4".to_string()));
}

#[test]
fn test_extract_ddv_summary_plain_text() {
    let content = "DDV: all green\n";
    assert_eq!(extract_ddv_summary(content), Some("all g...".to_string()));
    assert_eq!(extract_ddv_summary("nothing here\n"), None);
}

#[test]
fn test_extract_sanity_summary() {
    let content = "## Report\n\nSanity checks: 5/6 passing\n";
    assert_eq!(extract_sanity_summary(content), Some("5/6".to_string()));
    assert_eq!(extract_sanity_summary("# sanity checks: 1/2\n"), None);
}

#[test]
fn test_truncate_str_behaviour() {
    assert_eq!(truncate_str("short", 10), "short");
    assert_eq!(truncate_str("a longer text", 8), "a lon...");
    assert_eq!(truncate_str("abcdef", 3), "abc");
}
