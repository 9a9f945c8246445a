//! The usage ledger: an append-only record of agent invocation cost and
//! token usage, with cumulative totals and the budget check that runs after
//! every invocation.  All money is held in millionths of a dollar so the
//! accounting is exact.

use vstd::prelude::*;

use crate::agent::UsageInfo;

verus! {

/// One immutable fact: what a single agent invocation cost.
#[derive(Debug, Clone)]
pub struct InvocationRecord {
    pub phase: String,
    pub pass: u32,
    pub model: String,
    pub input_tokens: u64,
    pub output_tokens: u64,
    pub cache_creation_input_tokens: u64,
    pub cache_read_input_tokens: u64,
    pub cost_micro_usd: u64,
    pub elapsed_secs: u64,
    pub timestamp: String,
}

/// The append-only ledger of invocation records.
#[derive(Debug, Clone)]
pub struct UsageLedger {
    pub invocations: Vec<InvocationRecord>,
}

impl Default for UsageLedger {
    /// An empty ledger.
    fn default() -> (r: UsageLedger)
        ensures
            r.invocations@.len() == 0,
    {
        UsageLedger { invocations: Vec::new() }
    }
}

/// The sum of the costs of `rs`, in micro-dollars.
pub open spec fn spec_cost_sum(rs: Seq<InvocationRecord>) -> int
    decreases rs.len(),
{
    if rs.len() == 0 {
        0
    } else {
        spec_cost_sum(rs.drop_last()) + rs.last().cost_micro_usd
    }
}

/// The sum of the input tokens of `rs`.
pub open spec fn spec_input_sum(rs: Seq<InvocationRecord>) -> int
    decreases rs.len(),
{
    if rs.len() == 0 {
        0
    } else {
        spec_input_sum(rs.drop_last()) + rs.last().input_tokens
    }
}

/// The sum of the output tokens of `rs`.
pub open spec fn spec_output_sum(rs: Seq<InvocationRecord>) -> int
    decreases rs.len(),
{
    if rs.len() == 0 {
        0
    } else {
        spec_output_sum(rs.drop_last()) + rs.last().output_tokens
    }
}

/// The sum of the costs of the records of `rs` belonging to `pass`.
pub open spec fn spec_pass_cost_sum(rs: Seq<InvocationRecord>, pass: u32) -> int
    decreases rs.len(),
{
    if rs.len() == 0 {
        0
    } else {
        spec_pass_cost_sum(rs.drop_last(), pass) + if rs.last().pass == pass {
            rs.last().cost_micro_usd as int
        } else {
            0int
        }
    }
}

/// A sum of `n` values each at most `u64::MAX` stays within `n * u64::MAX`.
proof fn lemma_cost_sum_bound(rs: Seq<InvocationRecord>)
    ensures
        0 <= spec_cost_sum(rs) <= rs.len() * u64::MAX,
    decreases rs.len(),
{
    if rs.len() == 0 {
    } else {
        lemma_cost_sum_bound(rs.drop_last());
        assert((rs.len() - 1) * u64::MAX + u64::MAX == rs.len() * u64::MAX) by (nonlinear_arith);
    }
}

proof fn lemma_input_sum_bound(rs: Seq<InvocationRecord>)
    ensures
        0 <= spec_input_sum(rs) <= rs.len() * u64::MAX,
    decreases rs.len(),
{
    if rs.len() == 0 {
    } else {
        lemma_input_sum_bound(rs.drop_last());
        assert((rs.len() - 1) * u64::MAX + u64::MAX == rs.len() * u64::MAX) by (nonlinear_arith);
    }
}

proof fn lemma_output_sum_bound(rs: Seq<InvocationRecord>)
    ensures
        0 <= spec_output_sum(rs) <= rs.len() * u64::MAX,
    decreases rs.len(),
{
    if rs.len() == 0 {
    } else {
        lemma_output_sum_bound(rs.drop_last());
        assert((rs.len() - 1) * u64::MAX + u64::MAX == rs.len() * u64::MAX) by (nonlinear_arith);
    }
}

proof fn lemma_pass_cost_sum_bound(rs: Seq<InvocationRecord>, pass: u32)
    ensures
        0 <= spec_pass_cost_sum(rs, pass) <= rs.len() * u64::MAX,
    decreases rs.len(),
{
    if rs.len() == 0 {
    } else {
        lemma_pass_cost_sum_bound(rs.drop_last(), pass);
        assert((rs.len() - 1) * u64::MAX + u64::MAX == rs.len() * u64::MAX) by (nonlinear_arith);
    }
}

/// `n * u64::MAX` fits in a `u128` for any vector length `n`.
proof fn lemma_len_times_max_fits(n: int)
    requires
        0 <= n <= usize::MAX,
    ensures
        n * u64::MAX <= u128::MAX,
{
    assert(n * u64::MAX <= u128::MAX) by (nonlinear_arith)
        requires
            0 <= n <= usize::MAX,
    ;
}

impl UsageLedger {
    /// The total cost of every invocation recorded, in micro-dollars.
    pub fn total_cost(&self) -> (r: u128)
        ensures
            r == spec_cost_sum(self.invocations@),
    {
        let rs = &self.invocations;
        let mut total: u128 = 0;
        let mut i: usize = 0;
        proof {
            assert(rs@.subrange(0, 0) =~= Seq::<InvocationRecord>::empty());
        }
        while i < rs.len()
            invariant
                0 <= i <= rs@.len(),
                total == spec_cost_sum(rs@.subrange(0, i as int)),
            decreases rs.len() - i,
        {
            proof {
                let pre = rs@.subrange(0, i as int);
                assert(rs@.subrange(0, i + 1).drop_last() =~= pre);
                assert(rs@.subrange(0, i + 1).last() == rs@[i as int]);
                lemma_cost_sum_bound(rs@.subrange(0, i + 1));
                lemma_len_times_max_fits(rs@.len() as int);
                assert((i + 1) * u64::MAX <= rs@.len() * u64::MAX) by (nonlinear_arith)
                    requires
                        i + 1 <= rs@.len(),
                ;
            }
            total = total + rs[i].cost_micro_usd as u128;
            i = i + 1;
        }
        proof {
            assert(rs@.subrange(0, rs@.len() as int) =~= rs@);
        }
        total
    }

    /// The total input tokens of every invocation recorded.
    pub fn total_input_tokens(&self) -> (r: u128)
        ensures
            r == spec_input_sum(self.invocations@),
    {
        let rs = &self.invocations;
        let mut total: u128 = 0;
        let mut i: usize = 0;
        proof {
            assert(rs@.subrange(0, 0) =~= Seq::<InvocationRecord>::empty());
        }
        while i < rs.len()
            invariant
                0 <= i <= rs@.len(),
                total == spec_input_sum(rs@.subrange(0, i as int)),
            decreases rs.len() - i,
        {
            proof {
                let pre = rs@.subrange(0, i as int);
                assert(rs@.subrange(0, i + 1).drop_last() =~= pre);
                assert(rs@.subrange(0, i + 1).last() == rs@[i as int]);
                lemma_input_sum_bound(rs@.subrange(0, i + 1));
                lemma_len_times_max_fits(rs@.len() as int);
                assert((i + 1) * u64::MAX <= rs@.len() * u64::MAX) by (nonlinear_arith)
                    requires
                        i + 1 <= rs@.len(),
                ;
            }
            total = total + rs[i].input_tokens as u128;
            i = i + 1;
        }
        proof {
            assert(rs@.subrange(0, rs@.len() as int) =~= rs@);
        }
        total
    }

    /// The total output tokens of every invocation recorded.
    pub fn total_output_tokens(&self) -> (r: u128)
        ensures
            r == spec_output_sum(self.invocations@),
    {
        let rs = &self.invocations;
        let mut total: u128 = 0;
        let mut i: usize = 0;
        proof {
            assert(rs@.subrange(0, 0) =~= Seq::<InvocationRecord>::empty());
        }
        while i < rs.len()
            invariant
                0 <= i <= rs@.len(),
                total == spec_output_sum(rs@.subrange(0, i as int)),
            decreases rs.len() - i,
        {
            proof {
                let pre = rs@.subrange(0, i as int);
                assert(rs@.subrange(0, i + 1).drop_last() =~= pre);
                assert(rs@.subrange(0, i + 1).last() == rs@[i as int]);
                lemma_output_sum_bound(rs@.subrange(0, i + 1));
                lemma_len_times_max_fits(rs@.len() as int);
                assert((i + 1) * u64::MAX <= rs@.len() * u64::MAX) by (nonlinear_arith)
                    requires
                        i + 1 <= rs@.len(),
                ;
            }
            total = total + rs[i].output_tokens as u128;
            i = i + 1;
        }
        proof {
            assert(rs@.subrange(0, rs@.len() as int) =~= rs@);
        }
        total
    }

    /// The cost of every invocation recorded for `pass`, in micro-dollars.
    pub fn pass_cost(&self, pass: u32) -> (r: u128)
        ensures
            r == spec_pass_cost_sum(self.invocations@, pass),
    {
        let rs = &self.invocations;
        let mut total: u128 = 0;
        let mut i: usize = 0;
        proof {
            assert(rs@.subrange(0, 0) =~= Seq::<InvocationRecord>::empty());
        }
        while i < rs.len()
            invariant
                0 <= i <= rs@.len(),
                total == spec_pass_cost_sum(rs@.subrange(0, i as int), pass),
            decreases rs.len() - i,
        {
            proof {
                let pre = rs@.subrange(0, i as int);
                assert(rs@.subrange(0, i + 1).drop_last() =~= pre);
                assert(rs@.subrange(0, i + 1).last() == rs@[i as int]);
                lemma_pass_cost_sum_bound(rs@.subrange(0, i + 1), pass);
                lemma_len_times_max_fits(rs@.len() as int);
                assert((i + 1) * u64::MAX <= rs@.len() * u64::MAX) by (nonlinear_arith)
                    requires
                        i + 1 <= rs@.len(),
                ;
            }
            if rs[i].pass == pass {
                total = total + rs[i].cost_micro_usd as u128;
            }
            i = i + 1;
        }
        proof {
            assert(rs@.subrange(0, rs@.len() as int) =~= rs@);
        }
        total
    }

    /// How many invocations the ledger holds.
    pub fn invocation_count(&self) -> (r: usize)
        ensures
            r == self.invocations@.len(),
    {
        self.invocations.len()
    }
}

/// Append one invocation record and return the new running total cost, in
/// micro-dollars.  The ledger is append-only: every record already present
/// is kept unchanged, in its place.
pub fn record_invocation(
    ledger: &mut UsageLedger,
    phase: &str,
    pass: u32,
    model: &str,
    usage: &UsageInfo,
    elapsed_secs: u64,
    timestamp: String,
) -> (r: u128)
    ensures
        final(ledger).invocations@.len() == old(ledger).invocations@.len() + 1,
        final(ledger).invocations@.drop_last() == old(ledger).invocations@,
        final(ledger).invocations@.last().phase@ == phase@,
        final(ledger).invocations@.last().pass == pass,
        final(ledger).invocations@.last().model@ == model@,
        final(ledger).invocations@.last().input_tokens == usage.input_tokens,
        final(ledger).invocations@.last().output_tokens == usage.output_tokens,
        final(ledger).invocations@.last().cache_creation_input_tokens
            == usage.cache_creation_input_tokens,
        final(ledger).invocations@.last().cache_read_input_tokens == usage.cache_read_input_tokens,
        final(ledger).invocations@.last().cost_micro_usd == usage.cost_micro_usd,
        final(ledger).invocations@.last().elapsed_secs == elapsed_secs,
        final(ledger).invocations@.last().timestamp@ == timestamp@,
        r == spec_cost_sum(final(ledger).invocations@),
{
    let record = InvocationRecord {
        phase: phase.to_owned(),
        pass,
        model: model.to_owned(),
        input_tokens: usage.input_tokens,
        output_tokens: usage.output_tokens,
        cache_creation_input_tokens: usage.cache_creation_input_tokens,
        cache_read_input_tokens: usage.cache_read_input_tokens,
        cost_micro_usd: usage.cost_micro_usd,
        elapsed_secs,
        timestamp,
    };
    ledger.invocations.push(record);
    proof {
        assert(ledger.invocations@.drop_last() =~= old(ledger).invocations@);
    }
    ledger.total_cost()
}

// ---------------------------------------------------------------------------
// Budget enforcement
// ---------------------------------------------------------------------------

/// The outcome of a budget check.
#[derive(Debug, Clone, Copy, PartialEq, Eq, Structural)]
pub enum BudgetStatus {
    /// Within budget, or no budget set.
    Within,
    /// Within budget but at or past the warning threshold.
    Warn,
    /// At or past the budget: the run must stop.
    Exceeded,
}

/// Check cumulative cost against the budget.  A non-positive budget means
/// unlimited and always passes.  For a positive budget the check fails
/// exactly when the cumulative cost has reached it, and warns, without
/// failing, exactly when the cumulative cost has reached the fraction
/// `budget_warn_pct` per cent of it but not yet the budget itself.
pub fn check_budget(cumulative_micro_usd: u128, budget_micro_usd: i64, budget_warn_pct: u32) -> (r:
    BudgetStatus)
    ensures
        (r == BudgetStatus::Exceeded) <==> (budget_micro_usd > 0 && cumulative_micro_usd
            >= budget_micro_usd),
        (r == BudgetStatus::Warn) <==> (budget_micro_usd > 0 && cumulative_micro_usd
            < budget_micro_usd && 100 * cumulative_micro_usd >= budget_micro_usd
            * budget_warn_pct),
        (r == BudgetStatus::Within) <==> (budget_micro_usd <= 0 || (cumulative_micro_usd
            < budget_micro_usd && 100 * cumulative_micro_usd < budget_micro_usd
            * budget_warn_pct)),
{
    if budget_micro_usd <= 0 {
        return BudgetStatus::Within;
    }
    let budget = budget_micro_usd as u128;
    if cumulative_micro_usd >= budget {
        return BudgetStatus::Exceeded;
    }
    // cumulative < budget <= i64::MAX, so both products fit in a u128
    proof {
        assert(100 * cumulative_micro_usd < 100 * 0x8000_0000_0000_0000u128) by (nonlinear_arith)
            requires
                cumulative_micro_usd < 0x8000_0000_0000_0000u128,
        ;
        assert(budget * (budget_warn_pct as u128) <= 0x8000_0000_0000_0000u128
            * 0x1_0000_0000u128) by (nonlinear_arith)
            requires
                budget <= 0x8000_0000_0000_0000u128,
                budget_warn_pct <= 0xFFFF_FFFFu32,
        ;
    }
    let lhs: u128 = 100 * cumulative_micro_usd;
    let rhs: u128 = budget * (budget_warn_pct as u128);
    if lhs >= rhs {
        BudgetStatus::Warn
    } else {
        BudgetStatus::Within
    }
}

} // verus!
