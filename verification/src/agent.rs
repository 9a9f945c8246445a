//! Data carried back from one external agent invocation: the tool-call log,
//! aggregate statistics and token usage, and the formatting helpers that
//! summarise tool calls for status lines and error reports.  Spawning the
//! agent process and decoding its stream live outside the library; only the
//! resulting plain values enter here.

use vstd::prelude::*;

use crate::text::{first_nl_clipped, strip_cr};

verus! {

/// One action an agent took, as recorded in its tool-call log.
#[derive(Debug, Clone)]
pub enum ToolCall {
    Read { path: String },
    Write { path: String },
    Edit { path: String },
    Bash { command: String },
    Glob { pattern: String },
    Grep { pattern: String },
    Task { description: String },
    Other { name: String },
}

/// Aggregate statistics over one invocation's tool calls.
#[derive(Debug, Default)]
pub struct AgentStats {
    pub tool_count: u32,
    pub file_writes: u32,
    pub test_runs: u32,
}

/// Token usage and cost of one invocation.  Cost is held in millionths of a
/// dollar so that ledger arithmetic is exact.
#[derive(Debug, Clone, Default)]
pub struct UsageInfo {
    pub input_tokens: u64,
    pub output_tokens: u64,
    pub cache_creation_input_tokens: u64,
    pub cache_read_input_tokens: u64,
    pub cost_micro_usd: u64,
}

/// Everything an agent invocation returns to the pipeline.
#[derive(Debug)]
pub struct AgentResult {
    pub result_text: String,
    pub stats: AgentStats,
    pub elapsed_secs: u64,
    pub tool_log: Vec<ToolCall>,
    pub usage: UsageInfo,
}

// ---------------------------------------------------------------------------
// Display helpers
// ---------------------------------------------------------------------------

/// `d` cut to at most `m` characters, with `...` marking the cut; empty when
/// the budget cannot even hold the mark.
pub open spec fn spec_truncated(d: Seq<char>, m: int) -> Seq<char> {
    if m < 4 {
        Seq::empty()
    } else if d.len() <= m {
        d
    } else {
        d.subrange(0, m - 3) + "..."@
    }
}

/// Cut a tool detail string to at most `max_len` characters, marking the cut
/// with `...`.
pub fn truncate_tool_detail(detail: &str, max_len: usize) -> (r: String)
    ensures
        r@ == spec_truncated(detail@, max_len as int),
{
    if max_len < 4 {
        return String::new();
    }
    let n = detail.unicode_len();
    if n <= max_len {
        return detail.to_owned();
    }
    let mut s = detail.substring_char(0, max_len - 3).to_owned();
    s.append("...");
    s
}

/// The first line of `s`, as `str::lines` would yield it; empty for empty
/// input.  Only a line terminated by a newline loses a trailing carriage
/// return.
pub open spec fn spec_first_line(s: Seq<char>) -> Seq<char> {
    if first_nl_clipped(s) < s.len() {
        strip_cr(s.subrange(0, first_nl_clipped(s)))
    } else {
        s
    }
}

/// The first line of `s`.
pub fn first_line<'a>(s: &'a str) -> (r: &'a str)
    ensures
        r@ == spec_first_line(s@),
{
    let n = s.unicode_len();
    let mut k: usize = 0;
    while k < n && s.get_char(k) != '\n'
        invariant
            n == s@.len(),
            0 <= k <= n,
            forall|j: int| 0 <= j < k ==> s@[j] != '\n',
        decreases n - k,
    {
        k = k + 1;
    }
    proof {
        crate::text::lemma_first_nl_at(s@, k as int);
    }
    let mut lend: usize = k;
    if k < n && k > 0 && s.get_char(k - 1) == '\r' {
        lend = k - 1;
    }
    proof {
        let body = s@.subrange(0, k as int);
        if k < n {
            if k > 0 && s@[k - 1] == '\r' {
                assert(strip_cr(body) =~= s@.subrange(0, k as int - 1));
            } else {
                assert(strip_cr(body) == body);
            }
        } else {
            assert(body =~= s@);
        }
    }
    s.substring_char(0, lend)
}

/// What `format_tool_call_summary` renders for each kind of call.
pub open spec fn spec_tool_call_summary(call: ToolCall) -> Seq<char> {
    match call {
        ToolCall::Read { path } => "Read "@ + path@,
        ToolCall::Write { path } => "Write "@ + path@,
        ToolCall::Edit { path } => "Edit "@ + path@,
        ToolCall::Bash { command } => "Bash $ "@ + (if spec_first_line(command@).len() > 60 {
            spec_first_line(command@).subrange(0, 57) + "..."@
        } else {
            spec_first_line(command@)
        }),
        ToolCall::Glob { pattern } => "Glob "@ + pattern@,
        ToolCall::Grep { pattern } => "Grep "@ + pattern@,
        ToolCall::Task { description } => "Task "@ + (if description@.len() > 50 {
            description@.subrange(0, 47) + "..."@
        } else {
            description@
        }),
        ToolCall::Other { name } => name@,
    }
}

/// Render one tool call for an error report or status display.
pub fn format_tool_call_summary(call: &ToolCall) -> (r: String)
    ensures
        r@ == spec_tool_call_summary(*call),
{
    match call {
        ToolCall::Read { path } => {
            let mut s = "Read ".to_owned();
            s.append(path.as_str());
            s
        },
        ToolCall::Write { path } => {
            let mut s = "Write ".to_owned();
            s.append(path.as_str());
            s
        },
        ToolCall::Edit { path } => {
            let mut s = "Edit ".to_owned();
            s.append(path.as_str());
            s
        },
        ToolCall::Bash { command } => {
            let fl = first_line(command.as_str());
            let mut s = "Bash $ ".to_owned();
            if fl.unicode_len() > 60 {
                let cut = fl.substring_char(0, 57);
                s.append(cut);
                s.append("...");
            } else {
                s.append(fl);
            }
            assert(s@ =~= spec_tool_call_summary(*call));
            s
        },
        ToolCall::Glob { pattern } => {
            let mut s = "Glob ".to_owned();
            s.append(pattern.as_str());
            s
        },
        ToolCall::Grep { pattern } => {
            let mut s = "Grep ".to_owned();
            s.append(pattern.as_str());
            s
        },
        ToolCall::Task { description } => {
            let mut s = "Task ".to_owned();
            if description.as_str().unicode_len() > 50 {
                let cut = description.as_str().substring_char(0, 47);
                s.append(cut);
                s.append("...");
            } else {
                s.append(description.as_str());
            }
            assert(s@ =~= spec_tool_call_summary(*call));
            s
        },
        ToolCall::Other { name } => name.clone(),
    }
}

} // verus!
