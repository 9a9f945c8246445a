use lisa::agent::UsageInfo;
use lisa::config::{
    CommandsConfig, Config, GitConfig, LimitsConfig, ModelsConfig, PathsConfig, ProjectConfig,
    ReviewConfig, TerminalConfig,
};
use lisa::controller::{
    after_block_gate, after_pass_review, build_iteration_step, completed_state, pass_review_state,
    phases_from, resume_entry, state_for_entry, BuildStep, Continuation, LoopCommand, NextMove,
    Phase, PhaseEntry,
};
use lisa::review::{
    block_gate_decision, review_gate_decision, scope_gate_decision, BlockDecision, ReviewDecision,
    ScopeDecision,
};
use lisa::state::{encode_state, parse_state, PassPhase, SpiralState};
use lisa::tasks::{all_tasks_done, has_blocked_tasks};
use lisa::usage::{check_budget, record_invocation, BudgetStatus, UsageLedger};
use lisa::vcs::pass_tag;

fn test_config() -> Config {
    Config {
        project: ProjectConfig {
            name: "test-project".to_string(),
        },
        models: ModelsConfig::default(),
        limits: LimitsConfig::default(),
        review: ReviewConfig::default(),
        git: GitConfig::default(),
        terminal: TerminalConfig::default(),
        paths: PathsConfig::default(),
        commands: CommandsConfig::default(),
    }
}

#[test]
fn test_resume_reenters_build_at_same_iteration() {
    let state = SpiralState::InPass {
        pass: 3,
        phase: PassPhase::Build { iteration: 7 },
    };
    assert_eq!(
        resume_entry(&state),
        Continuation::MidPass {
            pass: 3,
            entry: PhaseEntry::Build { start_iteration: 7 }
        }
    );
}

#[test]
fn test_resume_dispatch_all_variants() {
    assert_eq!(resume_entry(&SpiralState::NotStarted), Continuation::FreshRun);
    assert_eq!(
        resume_entry(&SpiralState::Scoping { attempt: 2 }),
        Continuation::ScopeThenRun
    );
    assert_eq!(resume_entry(&SpiralState::ScopeReview), Continuation::ScopeThenRun);
    assert_eq!(
        resume_entry(&SpiralState::ScopeComplete),
        Continuation::PassesFrom { start_pass: 1 }
    );
    assert_eq!(
        resume_entry(&SpiralState::InPass {
            pass: 2,
            phase: PassPhase::Execute
        }),
        Continuation::MidPass {
            pass: 2,
            entry: PhaseEntry::Execute
        }
    );
    assert_eq!(
        resume_entry(&SpiralState::PassReview { pass: 4 }),
        Continuation::ReviewOnly { pass: 4 }
    );
    assert_eq!(
        resume_entry(&SpiralState::Complete { final_pass: 2 }),
        Continuation::AlreadyComplete { final_pass: 2 }
    );
}

#[test]
fn test_phases_from_each_entry() {
    assert_eq!(
        phases_from(&PhaseEntry::Refine),
        vec![Phase::Refine, Phase::DdvRed, Phase::Build, Phase::Execute, Phase::Validate]
    );
    assert_eq!(
        phases_from(&PhaseEntry::Build { start_iteration: 5 }),
        vec![Phase::Build, Phase::Execute, Phase::Validate]
    );
    assert_eq!(phases_from(&PhaseEntry::Execute), vec![Phase::Execute, Phase::Validate]);
    assert_eq!(phases_from(&PhaseEntry::Validate), vec![Phase::Validate]);
}

#[test]
fn test_model_key_per_phase() {
    let config = test_config();
    assert_eq!(Phase::Scope.model_key(&config), "opus");
    assert_eq!(Phase::Build.model_key(&config), "sonnet");
    assert_eq!(Phase::Finalize.model_key(&config), "opus");
}

#[test]
fn test_build_step_completion() {
    // all done, nothing blocked: success
    assert_eq!(
        build_iteration_step(true, false, false, false, 0, 2),
        BuildStep::AllDone
    );
    // all done with blocked tasks: escalate
    assert_eq!(
        build_iteration_step(true, true, false, false, 0, 2),
        BuildStep::AllDoneBlocked
    );
}

#[test]
fn test_build_step_dual_signal_stall() {
    // either signal alone resets the counter
    assert_eq!(
        build_iteration_step(false, false, true, false, 1, 2),
        BuildStep::Proceed { stall_count: 0 }
    );
    assert_eq!(
        build_iteration_step(false, false, false, true, 1, 2),
        BuildStep::Proceed { stall_count: 0 }
    );
    // neither signal: the counter climbs, then stalls at the threshold
    assert_eq!(
        build_iteration_step(false, false, false, false, 0, 2),
        BuildStep::Proceed { stall_count: 1 }
    );
    assert_eq!(
        build_iteration_step(false, false, false, false, 1, 2),
        BuildStep::Stalled { stall_count: 2 }
    );
    // a stall with blocked tasks escalates instead
    assert_eq!(
        build_iteration_step(false, true, false, false, 1, 2),
        BuildStep::StalledBlocked { stall_count: 2 }
    );
}

#[test]
fn test_after_block_gate() {
    assert_eq!(after_block_gate(&BlockDecision::Fix), LoopCommand::ResumeBuild);
    assert_eq!(after_block_gate(&BlockDecision::Skip), LoopCommand::FinishPass);
    assert_eq!(after_block_gate(&BlockDecision::Abort), LoopCommand::AbortPass);
}

#[test]
fn test_after_pass_review() {
    assert_eq!(
        after_pass_review(&ReviewDecision::Accept, 2, 5),
        NextMove::FinalizeAt { pass: 2 }
    );
    assert_eq!(
        after_pass_review(&ReviewDecision::Continue, 2, 5),
        NextMove::NextPass { pass: 3 }
    );
    assert_eq!(
        after_pass_review(&ReviewDecision::Redirect, 2, 5),
        NextMove::NextPass { pass: 3 }
    );
    assert_eq!(after_pass_review(&ReviewDecision::Continue, 5, 5), NextMove::Exhausted);
}

/// The end-to-end scenario: from `NotStarted`, scope completes and is
/// approved, pass 1 runs its five phases, the review gate accepts, and the
/// run finalizes.  The persisted state must end exactly at
/// `Complete { final_pass: 1 }`, a `lisa/pass-1` tag must exist, and the
/// ledger must hold one record per phase run.
#[test]
fn test_full_run_to_acceptance() {
    let config = test_config();
    let pause = config.review.pause;
    let plan = "### Task 1: Everything\n- **Status:** DONE\n- **Pass:** 1\n";

    // The durable store, the tag list and the ledger, as the pipeline sees them.
    let mut store: String = encode_state(&SpiralState::NotStarted);
    let mut tags: Vec<String> = Vec::new();
    let mut ledger = UsageLedger::default();
    let usage = UsageInfo {
        input_tokens: 100,
        output_tokens: 50,
        cache_creation_input_tokens: 0,
        cache_read_input_tokens: 0,
        cost_micro_usd: 10_000,
    };
    let mut record = |ledger: &mut UsageLedger, phase: &str, pass: u32| {
        let total = record_invocation(
            ledger,
            phase,
            pass,
            "opus",
            &usage,
            30,
            "2025-01-01T00:00:00+00:00".to_string(),
        );
        assert_ne!(
            check_budget(total, config.limits.budget_micro_usd, config.limits.budget_warn_pct),
            BudgetStatus::Exceeded
        );
    };

    // Resume from the persisted state: nothing has run yet.
    let persisted = parse_state(store.as_str()).unwrap();
    assert_eq!(resume_entry(&persisted), Continuation::FreshRun);

    // Scope: run the scoping agent, then the scope review gate approves.
    store = encode_state(&SpiralState::Scoping { attempt: 1 });
    record(&mut ledger, "scope", 0);
    store = encode_state(&SpiralState::ScopeReview);
    assert_eq!(scope_gate_decision(pause, "a"), Some(ScopeDecision::Approve));
    store = encode_state(&SpiralState::ScopeComplete);
    tags.push(pass_tag(0));

    // Pass 1: the five phases in order.
    let pass = match resume_entry(&parse_state(store.as_str()).unwrap()) {
        Continuation::PassesFrom { start_pass } => start_pass,
        other => panic!("unexpected continuation: {:?}", other),
    };
    assert_eq!(pass, 1);
    for phase in phases_from(&PhaseEntry::Refine) {
        let entry = match phase {
            Phase::Refine => PhaseEntry::Refine,
            Phase::DdvRed => PhaseEntry::DdvRed,
            Phase::Build => PhaseEntry::Build { start_iteration: 1 },
            Phase::Execute => PhaseEntry::Execute,
            Phase::Validate => PhaseEntry::Validate,
            other => panic!("unexpected phase in a pass: {:?}", other),
        };
        store = encode_state(&state_for_entry(pass, &entry));
        match phase {
            Phase::Build => {
                // one build iteration; the plan is already complete
                record(&mut ledger, "build", pass);
                let step = build_iteration_step(
                    all_tasks_done(plan, pass),
                    has_blocked_tasks(plan, pass),
                    false,
                    false,
                    0,
                    config.limits.stall_threshold,
                );
                assert_eq!(step, BuildStep::AllDone);
            },
            Phase::Refine => record(&mut ledger, "refine", pass),
            Phase::DdvRed => record(&mut ledger, "ddv_red", pass),
            Phase::Execute => record(&mut ledger, "execute", pass),
            Phase::Validate => record(&mut ledger, "validate", pass),
            other => panic!("unexpected phase in a pass: {:?}", other),
        }
    }

    // Snapshot the pass and ask the review gate; the human accepts.
    tags.push(pass_tag(pass));
    store = encode_state(&pass_review_state(pass));
    assert_eq!(
        resume_entry(&parse_state(store.as_str()).unwrap()),
        Continuation::ReviewOnly { pass: 1 }
    );
    let decision = review_gate_decision(pause, "A").unwrap();
    assert_eq!(decision, ReviewDecision::Accept);
    let next = after_pass_review(&decision, pass, config.limits.max_spiral_passes);
    assert_eq!(next, NextMove::FinalizeAt { pass: 1 });

    // Finalize.
    record(&mut ledger, "finalize", pass);
    store = encode_state(&completed_state(pass));

    // The final persisted state is exactly Complete { final_pass: 1 }.
    assert_eq!(
        parse_state(store.as_str()),
        Some(SpiralState::Complete { final_pass: 1 })
    );
    // A pass-1 tag exists.
    assert!(tags.iter().any(|t| t == "lisa/pass-1"));
    // One ledger record per phase actually run:
    // scope, refine, ddv_red, build, execute, validate, finalize.
    assert_eq!(ledger.invocation_count(), 7);
}
