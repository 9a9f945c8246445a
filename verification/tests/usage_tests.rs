use lisa::agent::UsageInfo;
use lisa::usage::{check_budget, record_invocation, BudgetStatus, InvocationRecord, UsageLedger};

fn sample_ledger() -> UsageLedger {
    UsageLedger {
        invocations: vec![
            InvocationRecord {
                phase: "scope".to_string(),
                pass: 0,
                model: "opus".to_string(),
                input_tokens: 1000,
                output_tokens: 500,
                cache_creation_input_tokens: 0,
                cache_read_input_tokens: 200,
                cost_micro_usd: 50_000,
                elapsed_secs: 30,
                timestamp: "2025-01-01T00:00:00+00:00".to_string(),
            },
            InvocationRecord {
                phase: "build".to_string(),
                pass: 1,
                model: "sonnet".to_string(),
                input_tokens: 2000,
                output_tokens: 1000,
                cache_creation_input_tokens: 100,
                cache_read_input_tokens: 0,
                cost_micro_usd: 30_000,
                elapsed_secs: 45,
                timestamp: "2025-01-01T00:01:00+00:00".to_string(),
            },
        ],
    }
}

#[test]
fn test_total_cost() {
    let ledger = sample_ledger();
    assert_eq!(ledger.total_cost(), 80_000);
}

#[test]
fn test_total_tokens() {
    let ledger = sample_ledger();
    assert_eq!(ledger.total_input_tokens(), 3000);
    assert_eq!(ledger.total_output_tokens(), 1500);
}

#[test]
fn test_pass_cost() {
    let ledger = sample_ledger();
    assert_eq!(ledger.pass_cost(0), 50_000);
    assert_eq!(ledger.pass_cost(1), 30_000);
    assert_eq!(ledger.pass_cost(99), 0);
}

#[test]
fn test_empty_ledger() {
    let ledger = UsageLedger::default();
    assert_eq!(ledger.total_cost(), 0);
    assert_eq!(ledger.total_input_tokens(), 0);
    assert_eq!(ledger.total_output_tokens(), 0);
    assert_eq!(ledger.invocation_count(), 0);
}

#[test]
fn test_record_invocation_appends() {
    let mut ledger = sample_ledger();
    let usage = UsageInfo {
        input_tokens: 10,
        output_tokens: 20,
        cache_creation_input_tokens: 0,
        cache_read_input_tokens: 0,
        cost_micro_usd: 5_000,
    };
    let total = record_invocation(
        &mut ledger,
        "execute",
        1,
        "opus",
        &usage,
        12,
        "2025-01-01T00:02:00+00:00".to_string(),
    );
    assert_eq!(total, 85_000);
    assert_eq!(ledger.invocation_count(), 3);
    // every record already present is kept unchanged, in its place
    assert_eq!(ledger.invocations[0].phase, "scope");
    assert_eq!(ledger.invocations[1].phase, "build");
    assert_eq!(ledger.invocations[2].phase, "execute");
    assert_eq!(ledger.invocations[2].cost_micro_usd, 5_000);
}

#[test]
fn test_check_budget_unlimited() {
    assert_eq!(check_budget(100_000_000, 0, 80), BudgetStatus::Within);
    assert_eq!(check_budget(100_000_000, -5, 80), BudgetStatus::Within);
}

#[test]
fn test_check_budget_exceeded() {
    assert_eq!(check_budget(1_500_000, 1_000_000, 80), BudgetStatus::Exceeded);
    assert_eq!(check_budget(1_000_000, 1_000_000, 80), BudgetStatus::Exceeded);
}

#[test]
fn test_check_budget_under() {
    assert_eq!(check_budget(500_000, 1_000_000, 80), BudgetStatus::Within);
}

#[test]
fn test_check_budget_warns_at_threshold() {
    // at the threshold: 80% of the budget
    assert_eq!(check_budget(800_000, 1_000_000, 80), BudgetStatus::Warn);
    assert_eq!(check_budget(999_999, 1_000_000, 80), BudgetStatus::Warn);
    assert_eq!(check_budget(799_999, 1_000_000, 80), BudgetStatus::Within);
}
