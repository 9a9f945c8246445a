//! The top-level sequencer's decisions: which phases a pass runs, where a
//! resume re-enters the pipeline, how the build loop detects progress and
//! stalls, and what each gate outcome means for the run.  The decisions are
//! pure functions from state and observations to the next state and action;
//! running agents, git and the terminal happens outside the library.

use vstd::prelude::*;

use crate::config::Config;
use crate::review::{BlockDecision, ReviewDecision};
use crate::state::{PassPhase, SpiralState};

verus! {

/// The seven kinds of agent invocation the pipeline issues.
#[derive(Debug, Clone, Copy, PartialEq, Eq, Structural)]
pub enum Phase {
    Scope,
    Refine,
    DdvRed,
    Build,
    Execute,
    Validate,
    Finalize,
}

impl Phase {
    /// The configured model this phase runs with.  Finalization runs with
    /// the validation model.
    pub fn model_key(&self, config: &Config) -> (r: String)
        ensures
            r@ == match *self {
                Phase::Scope => config.models.scope@,
                Phase::Refine => config.models.refine@,
                Phase::DdvRed => config.models.ddv@,
                Phase::Build => config.models.build@,
                Phase::Execute => config.models.execute@,
                Phase::Validate => config.models.validate@,
                Phase::Finalize => config.models.validate@,
            },
    {
        match self {
            Phase::Scope => config.models.scope.clone(),
            Phase::Refine => config.models.refine.clone(),
            Phase::DdvRed => config.models.ddv.clone(),
            Phase::Build => config.models.build.clone(),
            Phase::Execute => config.models.execute.clone(),
            Phase::Validate | Phase::Finalize => config.models.validate.clone(),
        }
    }
}

// ---------------------------------------------------------------------------
// Resume
// ---------------------------------------------------------------------------

/// Where a pass is re-entered.
#[derive(Debug, Clone, Copy, PartialEq, Eq, Structural)]
pub enum PhaseEntry {
    Refine,
    DdvRed,
    Build { start_iteration: u32 },
    Execute,
    Validate,
}

/// The continuation a persisted state dispatches to on resume.
#[derive(Debug, Clone, Copy, PartialEq, Eq, Structural)]
pub enum Continuation {
    /// Nothing has run: start fresh.
    FreshRun,
    /// Scoping was incomplete: run the scope phase, then the passes.
    ScopeThenRun,
    /// Scoping is done: run passes from `start_pass`.
    PassesFrom { start_pass: u32 },
    /// A pass was interrupted mid-phase: re-enter it exactly there.
    MidPass { pass: u32, entry: PhaseEntry },
    /// The pass's work is done: re-run only its review gate.
    ReviewOnly { pass: u32 },
    /// The whole spiral already completed.
    AlreadyComplete { final_pass: u32 },
}

/// Dispatch a persisted state to its continuation.  A build iteration
/// resumes at its own iteration count, not at the first, and a pass whose
/// review was pending resumes at that review and repeats no phase.
pub fn resume_entry(persisted: &SpiralState) -> (r: Continuation)
    ensures
        r == match *persisted {
            SpiralState::NotStarted => Continuation::FreshRun,
            SpiralState::Scoping { .. } => Continuation::ScopeThenRun,
            SpiralState::ScopeReview => Continuation::ScopeThenRun,
            SpiralState::ScopeComplete => Continuation::PassesFrom { start_pass: 1u32 },
            SpiralState::InPass { pass, phase } => Continuation::MidPass {
                pass,
                entry: match phase {
                    PassPhase::Refine => PhaseEntry::Refine,
                    PassPhase::DdvRed => PhaseEntry::DdvRed,
                    PassPhase::Build { iteration } => PhaseEntry::Build {
                        start_iteration: iteration,
                    },
                    PassPhase::Execute => PhaseEntry::Execute,
                    PassPhase::Validate => PhaseEntry::Validate,
                },
            },
            SpiralState::PassReview { pass } => Continuation::ReviewOnly { pass },
            SpiralState::Complete { final_pass } => Continuation::AlreadyComplete { final_pass },
        },
{
    match persisted {
        SpiralState::NotStarted => Continuation::FreshRun,
        SpiralState::Scoping { .. } => Continuation::ScopeThenRun,
        SpiralState::ScopeReview => Continuation::ScopeThenRun,
        SpiralState::ScopeComplete => Continuation::PassesFrom { start_pass: 1 },
        SpiralState::InPass { pass, phase } => Continuation::MidPass {
            pass: *pass,
            entry: match phase {
                PassPhase::Refine => PhaseEntry::Refine,
                PassPhase::DdvRed => PhaseEntry::DdvRed,
                PassPhase::Build { iteration } => PhaseEntry::Build {
                    start_iteration: *iteration,
                },
                PassPhase::Execute => PhaseEntry::Execute,
                PassPhase::Validate => PhaseEntry::Validate,
            },
        },
        SpiralState::PassReview { pass } => Continuation::ReviewOnly { pass: *pass },
        SpiralState::Complete { final_pass } => Continuation::AlreadyComplete {
            final_pass: *final_pass,
        },
    }
}

/// The phases a pass still runs when entered at `entry`, in their fixed
/// order Refine, DdvRed, Build, Execute, Validate.
pub fn phases_from(entry: &PhaseEntry) -> (r: Vec<Phase>)
    ensures
        r@ == match *entry {
            PhaseEntry::Refine => seq![
                Phase::Refine,
                Phase::DdvRed,
                Phase::Build,
                Phase::Execute,
                Phase::Validate,
            ],
            PhaseEntry::DdvRed => seq![Phase::DdvRed, Phase::Build, Phase::Execute, Phase::Validate],
            PhaseEntry::Build { .. } => seq![Phase::Build, Phase::Execute, Phase::Validate],
            PhaseEntry::Execute => seq![Phase::Execute, Phase::Validate],
            PhaseEntry::Validate => seq![Phase::Validate],
        },
{
    let mut v: Vec<Phase> = Vec::new();
    match entry {
        PhaseEntry::Refine => {
            v.push(Phase::Refine);
            v.push(Phase::DdvRed);
            v.push(Phase::Build);
            v.push(Phase::Execute);
            v.push(Phase::Validate);
        },
        PhaseEntry::DdvRed => {
            v.push(Phase::DdvRed);
            v.push(Phase::Build);
            v.push(Phase::Execute);
            v.push(Phase::Validate);
        },
        PhaseEntry::Build { .. } => {
            v.push(Phase::Build);
            v.push(Phase::Execute);
            v.push(Phase::Validate);
        },
        PhaseEntry::Execute => {
            v.push(Phase::Execute);
            v.push(Phase::Validate);
        },
        PhaseEntry::Validate => {
            v.push(Phase::Validate);
        },
    }
    proof {
        assert(v@ =~= match *entry {
            PhaseEntry::Refine => seq![
                Phase::Refine,
                Phase::DdvRed,
                Phase::Build,
                Phase::Execute,
                Phase::Validate,
            ],
            PhaseEntry::DdvRed => seq![Phase::DdvRed, Phase::Build, Phase::Execute, Phase::Validate],
            PhaseEntry::Build { .. } => seq![Phase::Build, Phase::Execute, Phase::Validate],
            PhaseEntry::Execute => seq![Phase::Execute, Phase::Validate],
            PhaseEntry::Validate => seq![Phase::Validate],
        });
    }
    v
}

/// The state persisted on entering a phase of `pass`.  Entering the build
/// loop at iteration `i` persists exactly `Build { iteration: i }`, so a
/// crash during that iteration resumes it, never restarts the loop.
pub fn state_for_entry(pass: u32, entry: &PhaseEntry) -> (r: SpiralState)
    ensures
        r == (SpiralState::InPass {
            pass,
            phase: match *entry {
                PhaseEntry::Refine => PassPhase::Refine,
                PhaseEntry::DdvRed => PassPhase::DdvRed,
                PhaseEntry::Build { start_iteration } => PassPhase::Build {
                    iteration: start_iteration,
                },
                PhaseEntry::Execute => PassPhase::Execute,
                PhaseEntry::Validate => PassPhase::Validate,
            },
        }),
{
    SpiralState::InPass {
        pass,
        phase: match entry {
            PhaseEntry::Refine => PassPhase::Refine,
            PhaseEntry::DdvRed => PassPhase::DdvRed,
            PhaseEntry::Build { start_iteration } => PassPhase::Build {
                iteration: *start_iteration,
            },
            PhaseEntry::Execute => PassPhase::Execute,
            PhaseEntry::Validate => PassPhase::Validate,
        },
    }
}

// ---------------------------------------------------------------------------
// The build loop
// ---------------------------------------------------------------------------

/// What one build iteration's observations mean for the loop.
#[derive(Debug, Clone, Copy, PartialEq, Eq, Structural)]
pub enum BuildStep {
    /// Every task for the pass is done and none is blocked: the loop
    /// succeeds.
    AllDone,
    /// Every task is done but blocked tasks remain: escalate to the block
    /// gate before declaring success.
    AllDoneBlocked,
    /// No progress for the configured number of iterations and no blocked
    /// tasks: nothing is left to do, the loop ends.
    Stalled { stall_count: u32 },
    /// No progress for the configured number of iterations with blocked
    /// tasks present: escalate to the block gate.
    StalledBlocked { stall_count: u32 },
    /// Work remains and the loop continues to the next iteration.
    Proceed { stall_count: u32 },
}

/// The updated stall counter: any change on either signal resets it to
/// zero; no change on both increments it.
pub open spec fn spec_next_stall(tasks_changed: bool, code_changed: bool, stall_count: u32) -> int {
    if tasks_changed || code_changed {
        0
    } else {
        stall_count + 1
    }
}

/// Decide one build iteration, in the order the loop checks its conditions:
/// first completion, with blocked tasks escalating; then the dual-signal
/// stall detector, whose counter resets on any change of the task-status
/// fingerprint or the source tree and otherwise increments, stalling at the
/// threshold; else the loop proceeds.  Both signals are kept because either
/// alone can be defeated: statuses can change without code, and code
/// without statuses.
pub fn build_iteration_step(
    all_done: bool,
    has_blocked: bool,
    tasks_changed: bool,
    code_changed: bool,
    stall_count: u32,
    stall_threshold: u32,
) -> (r: BuildStep)
    requires
        stall_count < u32::MAX,
    ensures
        all_done && !has_blocked ==> r == BuildStep::AllDone,
        all_done && has_blocked ==> r == BuildStep::AllDoneBlocked,
        !all_done ==> {
            let next = spec_next_stall(tasks_changed, code_changed, stall_count);
            if next >= stall_threshold {
                if has_blocked {
                    r == BuildStep::StalledBlocked { stall_count: next as u32 }
                } else {
                    r == BuildStep::Stalled { stall_count: next as u32 }
                }
            } else {
                r == BuildStep::Proceed { stall_count: next as u32 }
            }
        },
{
    if all_done {
        if has_blocked {
            return BuildStep::AllDoneBlocked;
        }
        return BuildStep::AllDone;
    }
    let next: u32 = if tasks_changed || code_changed {
        0
    } else {
        stall_count + 1
    };
    if next >= stall_threshold {
        if has_blocked {
            BuildStep::StalledBlocked { stall_count: next }
        } else {
            BuildStep::Stalled { stall_count: next }
        }
    } else {
        BuildStep::Proceed { stall_count: next }
    }
}

/// What the build loop does after a block-gate decision.
#[derive(Debug, Clone, Copy, PartialEq, Eq, Structural)]
pub enum LoopCommand {
    /// Resolve was chosen: resume building with the stall counter reset.
    ResumeBuild,
    /// Skip was chosen: end the loop and continue the pass.
    FinishPass,
    /// Abort was chosen: the pass is abandoned, resumable later.
    AbortPass,
}

/// Map a block-gate decision to the loop's next move: `Fix` resumes the
/// build with the stall counter reset, `Skip` finishes the pass, `Abort`
/// abandons it.
pub fn after_block_gate(decision: &BlockDecision) -> (r: LoopCommand)
    ensures
        (r == LoopCommand::ResumeBuild) <==> (*decision == BlockDecision::Fix),
        (r == LoopCommand::FinishPass) <==> (*decision == BlockDecision::Skip),
        (r == LoopCommand::AbortPass) <==> (*decision == BlockDecision::Abort),
{
    match decision {
        BlockDecision::Fix => LoopCommand::ResumeBuild,
        BlockDecision::Skip => LoopCommand::FinishPass,
        BlockDecision::Abort => LoopCommand::AbortPass,
    }
}

// ---------------------------------------------------------------------------
// After a pass
// ---------------------------------------------------------------------------

/// The state persisted when a pass's work is done and its review begins.
pub fn pass_review_state(pass: u32) -> (r: SpiralState)
    ensures
        r == (SpiralState::PassReview { pass }),
{
    SpiralState::PassReview { pass }
}

/// The state persisted when the human accepts and finalization completes.
pub fn completed_state(final_pass: u32) -> (r: SpiralState)
    ensures
        r == (SpiralState::Complete { final_pass }),
{
    SpiralState::Complete { final_pass }
}

/// Where the spiral goes after a pass review.
#[derive(Debug, Clone, Copy, PartialEq, Eq, Structural)]
pub enum NextMove {
    /// Accepted: finalize at this pass and terminate successfully.
    FinalizeAt { pass: u32 },
    /// Continue or redirect: run the next pass.
    NextPass { pass: u32 },
    /// The pass bound is exhausted without acceptance: stop, resumably.
    Exhausted,
}

/// Decide what follows a pass review: acceptance finalizes at this pass;
/// both continue and redirect proceed to the next pass while passes remain,
/// and end the run, resumably, when the bound is exhausted.
pub fn after_pass_review(decision: &ReviewDecision, pass: u32, max_pass: u32) -> (r: NextMove)
    ensures
        (*decision == ReviewDecision::Accept) <==> (r == (NextMove::FinalizeAt { pass })),
        (*decision != ReviewDecision::Accept && pass < max_pass) <==> (r == (NextMove::NextPass {
            pass: (pass + 1) as u32,
        })),
        (*decision != ReviewDecision::Accept && pass >= max_pass) <==> (r == NextMove::Exhausted),
{
    match decision {
        ReviewDecision::Accept => NextMove::FinalizeAt { pass },
        ReviewDecision::Continue | ReviewDecision::Redirect => {
            if pass < max_pass {
                NextMove::NextPass { pass: pass + 1 }
            } else {
                NextMove::Exhausted
            }
        },
    }
}

} // verus!
