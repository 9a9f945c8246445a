//! The resumable pipeline position: `SpiralState` and its sub-state
//! `PassPhase`, a textual encoding for the durable state file, and the proof
//! that decoding inverts encoding, so that a persisted state is always read
//! back exactly as it was written.

use vstd::prelude::*;

use crate::text::{
    digit_run, is_digit_char, lemma_decimal_val, lemma_digit_run_at, matches_at, occurs_at,
    parse_u32, scan_digits, spec_decimal, spec_parse_u32, spec_starts_with, starts_with, str_eq,
    tail_matches, u32_to_string,
};

verus! {

/// Sub-state of a pass: the five phases, in their fixed order.
#[derive(Debug, Clone, Copy, PartialEq, Eq, Structural)]
pub enum PassPhase {
    Refine,
    DdvRed,
    Build { iteration: u32 },
    Execute,
    Validate,
}

/// Where the pipeline currently is; the single source of truth for resume.
#[derive(Debug, Clone, Copy, PartialEq, Eq, Structural)]
pub enum SpiralState {
    NotStarted,
    Scoping { attempt: u32 },
    ScopeReview,
    ScopeComplete,
    InPass { pass: u32, phase: PassPhase },
    PassReview { pass: u32 },
    Complete { final_pass: u32 },
}

// ---------------------------------------------------------------------------
// Human-readable rendering
// ---------------------------------------------------------------------------

/// The human-readable name of a phase.
pub open spec fn spec_phase_display(ph: PassPhase) -> Seq<char> {
    match ph {
        PassPhase::Refine => "Refine"@,
        PassPhase::DdvRed => "DDV Red"@,
        PassPhase::Build { iteration } => "Build (iteration "@ + spec_decimal(
            iteration as nat,
        ) + ")"@,
        PassPhase::Execute => "Execute"@,
        PassPhase::Validate => "Validate"@,
    }
}

/// The human-readable rendering of a state.
pub open spec fn spec_state_display(st: SpiralState) -> Seq<char> {
    match st {
        SpiralState::NotStarted => "Not started"@,
        SpiralState::Scoping { attempt } => "Scoping (attempt "@ + spec_decimal(
            attempt as nat,
        ) + ")"@,
        SpiralState::ScopeReview => "Scope review"@,
        SpiralState::ScopeComplete => "Scope complete"@,
        SpiralState::InPass { pass, phase } => "Pass "@ + spec_decimal(pass as nat) + " — "@
            + spec_phase_display(phase),
        SpiralState::PassReview { pass } => "Pass "@ + spec_decimal(pass as nat) + " — Review"@,
        SpiralState::Complete { final_pass } => "Complete (pass "@ + spec_decimal(
            final_pass as nat,
        ) + ")"@,
    }
}

impl PassPhase {
    /// The phase name as shown to the user.
    pub fn to_display_string(&self) -> (r: String)
        ensures
            r@ == spec_phase_display(*self),
    {
        match self {
            PassPhase::Refine => "Refine".to_owned(),
            PassPhase::DdvRed => "DDV Red".to_owned(),
            PassPhase::Build { iteration } => {
                let mut s = "Build (iteration ".to_owned();
                let num = u32_to_string(*iteration);
                s.append(num.as_str());
                s.append(")");
                assert(s@ =~= spec_phase_display(*self));
                s
            },
            PassPhase::Execute => "Execute".to_owned(),
            PassPhase::Validate => "Validate".to_owned(),
        }
    }
}

impl SpiralState {
    /// The state as shown to the user.
    pub fn to_display_string(&self) -> (r: String)
        ensures
            r@ == spec_state_display(*self),
    {
        match self {
            SpiralState::NotStarted => "Not started".to_owned(),
            SpiralState::Scoping { attempt } => {
                let mut s = "Scoping (attempt ".to_owned();
                let num = u32_to_string(*attempt);
                s.append(num.as_str());
                s.append(")");
                assert(s@ =~= spec_state_display(*self));
                s
            },
            SpiralState::ScopeReview => "Scope review".to_owned(),
            SpiralState::ScopeComplete => "Scope complete".to_owned(),
            SpiralState::InPass { pass, phase } => {
                let mut s = "Pass ".to_owned();
                let num = u32_to_string(*pass);
                s.append(num.as_str());
                s.append(" — ");
                let ph = phase.to_display_string();
                s.append(ph.as_str());
                assert(s@ =~= spec_state_display(*self));
                s
            },
            SpiralState::PassReview { pass } => {
                let mut s = "Pass ".to_owned();
                let num = u32_to_string(*pass);
                s.append(num.as_str());
                s.append(" — Review");
                assert(s@ =~= spec_state_display(*self));
                s
            },
            SpiralState::Complete { final_pass } => {
                let mut s = "Complete (pass ".to_owned();
                let num = u32_to_string(*final_pass);
                s.append(num.as_str());
                s.append(")");
                assert(s@ =~= spec_state_display(*self));
                s
            },
        }
    }
}

// ---------------------------------------------------------------------------
// The durable encoding
// ---------------------------------------------------------------------------

/// The extra field line a phase contributes to the state file.
pub open spec fn spec_phase_extra(ph: PassPhase) -> Seq<char> {
    match ph {
        PassPhase::Build { iteration } => "iteration = "@ + spec_decimal(
            iteration as nat,
        ) + "\n"@,
        _ => Seq::empty(),
    }
}

/// The phase line of the state file.
pub open spec fn spec_phase_line(ph: PassPhase) -> Seq<char> {
    match ph {
        PassPhase::Refine => "\nphase = \"Refine\"\n"@,
        PassPhase::DdvRed => "\nphase = \"DdvRed\"\n"@,
        PassPhase::Build { .. } => "\nphase = \"Build\"\n"@,
        PassPhase::Execute => "\nphase = \"Execute\"\n"@,
        PassPhase::Validate => "\nphase = \"Validate\"\n"@,
    }
}

/// The text of the state file for a given state.
pub open spec fn spec_encode_state(st: SpiralState) -> Seq<char> {
    match st {
        SpiralState::NotStarted => "state = \"NotStarted\"\n"@,
        SpiralState::Scoping { attempt } => "state = \"Scoping\"\nattempt = "@ + spec_decimal(
            attempt as nat,
        ) + "\n"@,
        SpiralState::ScopeReview => "state = \"ScopeReview\"\n"@,
        SpiralState::ScopeComplete => "state = \"ScopeComplete\"\n"@,
        SpiralState::InPass { pass, phase } => "state = \"InPass\"\npass = "@ + spec_decimal(
            pass as nat,
        ) + spec_phase_line(phase) + spec_phase_extra(phase),
        SpiralState::PassReview { pass } => "state = \"PassReview\"\npass = "@ + spec_decimal(
            pass as nat,
        ) + "\n"@,
        SpiralState::Complete { final_pass } => "state = \"Complete\"\nfinal_pass = "@
            + spec_decimal(final_pass as nat) + "\n"@,
    }
}

/// Parse a numeral that fills `x` up to a single trailing newline.
pub open spec fn spec_num_line(x: Seq<char>) -> Option<u32> {
    let d = digit_run(x);
    if d >= 1 && x.len() == d + 1 && x[d] == '\n' {
        spec_parse_u32(x.take(d))
    } else {
        None
    }
}

/// Parse the tail of an `InPass` record: the phase line and, for `Build`,
/// its iteration line.
pub open spec fn spec_parse_phase_tail(rest: Seq<char>) -> Option<PassPhase> {
    if rest == "\nphase = \"Refine\"\n"@ {
        Some(PassPhase::Refine)
    } else if rest == "\nphase = \"DdvRed\"\n"@ {
        Some(PassPhase::DdvRed)
    } else if rest == "\nphase = \"Execute\"\n"@ {
        Some(PassPhase::Execute)
    } else if rest == "\nphase = \"Validate\"\n"@ {
        Some(PassPhase::Validate)
    } else if spec_starts_with(rest, "\nphase = \"Build\"\niteration = "@) {
        match spec_num_line(rest.skip("\nphase = \"Build\"\niteration = "@.len() as int)) {
            Some(i) => Some(PassPhase::Build { iteration: i }),
            None => None,
        }
    } else {
        None
    }
}

/// What decoding a state file yields.
pub open spec fn spec_parse_state(s: Seq<char>) -> Option<SpiralState> {
    if s == "state = \"NotStarted\"\n"@ {
        Some(SpiralState::NotStarted)
    } else if s == "state = \"ScopeReview\"\n"@ {
        Some(SpiralState::ScopeReview)
    } else if s == "state = \"ScopeComplete\"\n"@ {
        Some(SpiralState::ScopeComplete)
    } else if spec_starts_with(s, "state = \"Scoping\"\nattempt = "@) {
        match spec_num_line(s.skip("state = \"Scoping\"\nattempt = "@.len() as int)) {
            Some(a) => Some(SpiralState::Scoping { attempt: a }),
            None => None,
        }
    } else if spec_starts_with(s, "state = \"PassReview\"\npass = "@) {
        match spec_num_line(s.skip("state = \"PassReview\"\npass = "@.len() as int)) {
            Some(p) => Some(SpiralState::PassReview { pass: p }),
            None => None,
        }
    } else if spec_starts_with(s, "state = \"Complete\"\nfinal_pass = "@) {
        match spec_num_line(s.skip("state = \"Complete\"\nfinal_pass = "@.len() as int)) {
            Some(p) => Some(SpiralState::Complete { final_pass: p }),
            None => None,
        }
    } else if spec_starts_with(s, "state = \"InPass\"\npass = "@) {
        let x = s.skip("state = \"InPass\"\npass = "@.len() as int);
        let d = digit_run(x);
        if d >= 1 && spec_parse_u32(x.take(d)) is Some {
            match spec_parse_phase_tail(x.skip(d)) {
                Some(ph) => Some(
                    SpiralState::InPass { pass: spec_parse_u32(x.take(d))->Some_0, phase: ph },
                ),
                None => None,
            }
        } else {
            None
        }
    } else {
        None
    }
}

// ---------------------------------------------------------------------------
// Executable encode and decode
// ---------------------------------------------------------------------------

/// Render the state file for `st`.
pub fn encode_state(st: &SpiralState) -> (r: String)
    ensures
        r@ == spec_encode_state(*st),
{
    match st {
        SpiralState::NotStarted => "state = \"NotStarted\"\n".to_owned(),
        SpiralState::Scoping { attempt } => {
            let mut s = "state = \"Scoping\"\nattempt = ".to_owned();
            let num = u32_to_string(*attempt);
            s.append(num.as_str());
            s.append("\n");
            assert(s@ =~= spec_encode_state(*st));
            s
        },
        SpiralState::ScopeReview => "state = \"ScopeReview\"\n".to_owned(),
        SpiralState::ScopeComplete => "state = \"ScopeComplete\"\n".to_owned(),
        SpiralState::InPass { pass, phase } => {
            let mut s = "state = \"InPass\"\npass = ".to_owned();
            let num = u32_to_string(*pass);
            s.append(num.as_str());
            match phase {
                PassPhase::Refine => s.append("\nphase = \"Refine\"\n"),
                PassPhase::DdvRed => s.append("\nphase = \"DdvRed\"\n"),
                PassPhase::Build { iteration } => {
                    s.append("\nphase = \"Build\"\n");
                    s.append("iteration = ");
                    let it = u32_to_string(*iteration);
                    s.append(it.as_str());
                    s.append("\n");
                },
                PassPhase::Execute => s.append("\nphase = \"Execute\"\n"),
                PassPhase::Validate => s.append("\nphase = \"Validate\"\n"),
            }
            assert(s@ =~= spec_encode_state(*st));
            s
        },
        SpiralState::PassReview { pass } => {
            let mut s = "state = \"PassReview\"\npass = ".to_owned();
            let num = u32_to_string(*pass);
            s.append(num.as_str());
            s.append("\n");
            assert(s@ =~= spec_encode_state(*st));
            s
        },
        SpiralState::Complete { final_pass } => {
            let mut s = "state = \"Complete\"\nfinal_pass = ".to_owned();
            let num = u32_to_string(*final_pass);
            s.append(num.as_str());
            s.append("\n");
            assert(s@ =~= spec_encode_state(*st));
            s
        },
    }
}

/// Parse a numeral filling the tail of `s` from `from` up to one trailing
/// newline.
fn parse_num_line(s: &str, from: usize) -> (r: Option<u32>)
    requires
        from <= s@.len(),
    ensures
        r == spec_num_line(s@.skip(from as int)),
{
    let ghost x = s@.skip(from as int);
    proof {
        assert(x =~= s@.subrange(from as int, s@.len() as int));
    }
    let n = s.unicode_len();
    let d = scan_digits(s, from);
    if d == 0 {
        return None;
    }
    if n - (from + d) != 1 {
        return None;
    }
    if s.get_char(from + d) != '\n' {
        assert(x[d as int] == s@[from + d]);
        return None;
    }
    assert(x[d as int] == s@[from + d]);
    let digits = s.substring_char(from, from + d);
    let r = parse_u32(digits);
    proof {
        assert(digits@ =~= x.take(d as int));
    }
    r
}

/// Decode a state file; yields the state it records, or nothing if the text
/// is not a well-formed state file.
pub fn parse_state(s: &str) -> (r: Option<SpiralState>)
    ensures
        r == spec_parse_state(s@),
{
    if str_eq(s, "state = \"NotStarted\"\n") {
        return Some(SpiralState::NotStarted);
    }
    if str_eq(s, "state = \"ScopeReview\"\n") {
        return Some(SpiralState::ScopeReview);
    }
    if str_eq(s, "state = \"ScopeComplete\"\n") {
        return Some(SpiralState::ScopeComplete);
    }
    if starts_with(s, "state = \"Scoping\"\nattempt = ") {
        let p = "state = \"Scoping\"\nattempt = ".unicode_len();
        return match parse_num_line(s, p) {
            Some(a) => Some(SpiralState::Scoping { attempt: a }),
            None => None,
        };
    }
    if starts_with(s, "state = \"PassReview\"\npass = ") {
        let p = "state = \"PassReview\"\npass = ".unicode_len();
        return match parse_num_line(s, p) {
            Some(a) => Some(SpiralState::PassReview { pass: a }),
            None => None,
        };
    }
    if starts_with(s, "state = \"Complete\"\nfinal_pass = ") {
        let p = "state = \"Complete\"\nfinal_pass = ".unicode_len();
        return match parse_num_line(s, p) {
            Some(a) => Some(SpiralState::Complete { final_pass: a }),
            None => None,
        };
    }
    if starts_with(s, "state = \"InPass\"\npass = ") {
        let p = "state = \"InPass\"\npass = ".unicode_len();
        let n = s.unicode_len();
        let ghost x = s@.skip(p as int);
        proof {
            assert(x =~= s@.subrange(p as int, s@.len() as int));
        }
        let d = scan_digits(s, p);
        if d == 0 {
            return None;
        }
        let digits = s.substring_char(p, p + d);
        proof {
            assert(digits@ =~= x.take(d as int));
        }
        let pass = match parse_u32(digits) {
            Some(v) => v,
            None => {
                return None;
            },
        };
        let q = p + d;
        let ghost rest = x.skip(d as int);
        proof {
            assert(rest =~= s@.skip(q as int));
        }
        let ph = parse_phase_tail(s, q);
        return match ph {
            Some(ph) => Some(SpiralState::InPass { pass, phase: ph }),
            None => None,
        };
    }
    None
}

/// Decode the phase line (and iteration line, for `Build`) at the tail of
/// an `InPass` record.
fn parse_phase_tail(s: &str, q: usize) -> (r: Option<PassPhase>)
    requires
        q <= s@.len(),
    ensures
        r == spec_parse_phase_tail(s@.skip(q as int)),
{
    if tail_matches(s, q, "\nphase = \"Refine\"\n") {
        return Some(PassPhase::Refine);
    }
    if tail_matches(s, q, "\nphase = \"DdvRed\"\n") {
        return Some(PassPhase::DdvRed);
    }
    if tail_matches(s, q, "\nphase = \"Execute\"\n") {
        return Some(PassPhase::Execute);
    }
    if tail_matches(s, q, "\nphase = \"Validate\"\n") {
        return Some(PassPhase::Validate);
    }
    let ghost rest = s@.skip(q as int);
    let lit = "\nphase = \"Build\"\niteration = ";
    let m = lit.unicode_len();
    let n = s.unicode_len();
    if matches_at(s, q, lit) {
        proof {
            assert(q + m <= s@.len());
            assert(rest.subrange(0, m as int) =~= s@.subrange(q as int, q + m));
            assert(spec_starts_with(rest, lit@));
        }
        let r = parse_num_line(s, q + m);
        proof {
            assert(s@.skip((q + m) as int) =~= rest.skip(m as int));
        }
        return match r {
            Some(i) => Some(PassPhase::Build { iteration: i }),
            None => None,
        };
    }
    proof {
        if spec_starts_with(rest, lit@) {
            assert(s@.subrange(q as int, q + m) =~= rest.subrange(0, m as int));
            assert(occurs_at(s@, lit@, q as int));
        }
    }
    None
}

// ---------------------------------------------------------------------------
// The round-trip law
// ---------------------------------------------------------------------------

proof fn lemma_not_prefix(e: Seq<char>, p: Seq<char>, idx: int)
    requires
        0 <= idx < p.len(),
        idx < e.len(),
        e[idx] != p[idx],
    ensures
        !spec_starts_with(e, p),
{
    if spec_starts_with(e, p) {
        assert(e.subrange(0, p.len() as int)[idx] == p[idx]);
    }
}

proof fn lemma_num_line_roundtrip(n: u32, tail: Seq<char>)
    requires
        tail == spec_decimal(n as nat) + "\n"@,
    ensures
        spec_num_line(tail) == Some(n),
{
    reveal_strlit("\n");
    let ds = spec_decimal(n as nat);
    lemma_decimal_val(n as nat);
    assert(tail[ds.len() as int] == '\n');
    assert forall|k: int| 0 <= k < ds.len() implies is_digit_char(tail[k]) by {
        assert(tail[k] == ds[k]);
    }
    assert(!is_digit_char('\n'));
    lemma_digit_run_at(tail, ds.len() as int);
    assert(tail.take(ds.len() as int) =~= ds);
    assert(spec_parse_u32(ds) == Some(n));
}

/// The round-trip law for the durable state file: decoding what `encode_state`
/// wrote yields exactly the state that was written, for every variant,
/// including the nested `InPass { pass, Build { iteration } }`.
pub proof fn lemma_state_roundtrip(st: SpiralState)
    ensures
        spec_parse_state(spec_encode_state(st)) == Some(st),
{
    reveal_strlit("state = \"NotStarted\"\n");
    reveal_strlit("state = \"ScopeReview\"\n");
    reveal_strlit("state = \"ScopeComplete\"\n");
    reveal_strlit("state = \"Scoping\"\nattempt = ");
    reveal_strlit("state = \"PassReview\"\npass = ");
    reveal_strlit("state = \"Complete\"\nfinal_pass = ");
    reveal_strlit("state = \"InPass\"\npass = ");
    let lit_ns = "state = \"NotStarted\"\n"@;
    let lit_sr = "state = \"ScopeReview\"\n"@;
    let lit_sc = "state = \"ScopeComplete\"\n"@;
    let pre_scoping = "state = \"Scoping\"\nattempt = "@;
    let pre_pr = "state = \"PassReview\"\npass = "@;
    let pre_co = "state = \"Complete\"\nfinal_pass = "@;
    let pre_ip = "state = \"InPass\"\npass = "@;
    assert(lit_ns.len() == 21);
    assert(lit_sr.len() == 22);
    assert(lit_sc.len() == 24);
    assert(pre_scoping.len() == 28);
    assert(pre_pr.len() == 28);
    assert(pre_co.len() == 32);
    assert(pre_ip.len() == 24);
    let e = spec_encode_state(st);
    match st {
        SpiralState::NotStarted => {
        },
        SpiralState::ScopeReview => {
            assert(e.len() == 22);
            assert(e != lit_ns);
        },
        SpiralState::ScopeComplete => {
            assert(e.len() == 24);
            assert(e != lit_ns);
            assert(e != lit_sr);
        },
        SpiralState::Scoping { attempt } => {
            let ds = spec_decimal(attempt as nat);
            lemma_decimal_val(attempt as nat);
            assert(e[9] == 'S');
            assert(e[13] == 'i');
            if e == lit_ns {
                assert(lit_ns[9] == 'N');
                assert(false);
            }
            if e == lit_sr {
                assert(lit_sr[13] == 'e');
                assert(false);
            }
            if e == lit_sc {
                assert(lit_sc[13] == 'e');
                assert(false);
            }
            assert(e.subrange(0, 28) =~= pre_scoping);
            assert(spec_starts_with(e, pre_scoping));
            assert(e.skip(28) =~= ds + "\n"@);
            lemma_num_line_roundtrip(attempt, e.skip(28));
        },
        SpiralState::PassReview { pass } => {
            let ds = spec_decimal(pass as nat);
            lemma_decimal_val(pass as nat);
            assert(e[9] == 'P');
            if e == lit_ns {
                assert(lit_ns[9] == 'N');
                assert(false);
            }
            if e == lit_sr {
                assert(lit_sr[9] == 'S');
                assert(false);
            }
            if e == lit_sc {
                assert(lit_sc[9] == 'S');
                assert(false);
            }
            lemma_not_prefix(e, pre_scoping, 9);
            assert(e.subrange(0, 28) =~= pre_pr);
            assert(spec_starts_with(e, pre_pr));
            assert(e.skip(28) =~= ds + "\n"@);
            lemma_num_line_roundtrip(pass, e.skip(28));
        },
        SpiralState::Complete { final_pass } => {
            let ds = spec_decimal(final_pass as nat);
            lemma_decimal_val(final_pass as nat);
            assert(e[9] == 'C');
            if e == lit_ns {
                assert(lit_ns[9] == 'N');
                assert(false);
            }
            if e == lit_sr {
                assert(lit_sr[9] == 'S');
                assert(false);
            }
            if e == lit_sc {
                assert(lit_sc[9] == 'S');
                assert(false);
            }
            lemma_not_prefix(e, pre_scoping, 9);
            lemma_not_prefix(e, pre_pr, 9);
            assert(e.subrange(0, 32) =~= pre_co);
            assert(spec_starts_with(e, pre_co));
            assert(e.skip(32) =~= ds + "\n"@);
            lemma_num_line_roundtrip(final_pass, e.skip(32));
        },
        SpiralState::InPass { pass, phase } => {
            let ds = spec_decimal(pass as nat);
            lemma_decimal_val(pass as nat);
            assert(e[9] == 'I');
            if e == lit_ns {
                assert(lit_ns[9] == 'N');
                assert(false);
            }
            if e == lit_sr {
                assert(lit_sr[9] == 'S');
                assert(false);
            }
            if e == lit_sc {
                assert(lit_sc[9] == 'S');
                assert(false);
            }
            lemma_not_prefix(e, pre_scoping, 9);
            lemma_not_prefix(e, pre_pr, 9);
            lemma_not_prefix(e, pre_co, 9);
            assert(e.subrange(0, 24) =~= pre_ip);
            assert(spec_starts_with(e, pre_ip));
            let x = e.skip(24);
            let tail = spec_phase_line(phase) + spec_phase_extra(phase);
            assert(x =~= ds + tail);
            reveal_strlit("\nphase = \"Refine\"\n");
            reveal_strlit("\nphase = \"DdvRed\"\n");
            reveal_strlit("\nphase = \"Execute\"\n");
            reveal_strlit("\nphase = \"Validate\"\n");
            reveal_strlit("\nphase = \"Build\"\n");
            reveal_strlit("iteration = ");
            reveal_strlit("\nphase = \"Build\"\niteration = ");
            assert(tail[0] == '\n');
            assert forall|k: int| 0 <= k < ds.len() implies is_digit_char(x[k]) by {
                assert(x[k] == ds[k]);
            }
            assert(x[ds.len() as int] == tail[0]);
            assert(!is_digit_char('\n'));
            lemma_digit_run_at(x, ds.len() as int);
            assert(x.take(ds.len() as int) =~= ds);
            assert(spec_parse_u32(ds) == Some(pass));
            let rest = x.skip(ds.len() as int);
            assert(rest =~= tail);
            lemma_phase_tail_roundtrip(phase, tail);
        },
    }
}

proof fn lemma_phase_tail_roundtrip(ph: PassPhase, tail: Seq<char>)
    requires
        tail == spec_phase_line(ph) + spec_phase_extra(ph),
    ensures
        spec_parse_phase_tail(tail) == Some(ph),
{
    reveal_strlit("\nphase = \"Refine\"\n");
    reveal_strlit("\nphase = \"DdvRed\"\n");
    reveal_strlit("\nphase = \"Execute\"\n");
    reveal_strlit("\nphase = \"Validate\"\n");
    reveal_strlit("\nphase = \"Build\"\n");
    reveal_strlit("iteration = ");
    reveal_strlit("\nphase = \"Build\"\niteration = ");
    let lit_r = "\nphase = \"Refine\"\n"@;
    let lit_d = "\nphase = \"DdvRed\"\n"@;
    let lit_e = "\nphase = \"Execute\"\n"@;
    let lit_v = "\nphase = \"Validate\"\n"@;
    let pre_b = "\nphase = \"Build\"\niteration = "@;
    assert(lit_r.len() == 18);
    assert(lit_d.len() == 18);
    assert(lit_e.len() == 19);
    assert(lit_v.len() == 20);
    assert(pre_b.len() == 29);
    match ph {
        PassPhase::Refine => {
            assert(tail =~= lit_r);
        },
        PassPhase::DdvRed => {
            assert(tail =~= lit_d);
            assert(tail[10] == 'D');
            if tail == lit_r {
                assert(lit_r[10] == 'R');
                assert(false);
            }
        },
        PassPhase::Execute => {
            assert(tail =~= lit_e);
            assert(tail[10] == 'E');
            if tail == lit_r {
                assert(lit_r[10] == 'R');
                assert(false);
            }
            if tail == lit_d {
                assert(lit_d[10] == 'D');
                assert(false);
            }
        },
        PassPhase::Validate => {
            assert(tail =~= lit_v);
            assert(tail[10] == 'V');
            if tail == lit_r {
                assert(lit_r[10] == 'R');
                assert(false);
            }
            if tail == lit_d {
                assert(lit_d[10] == 'D');
                assert(false);
            }
            if tail == lit_e {
                assert(lit_e[10] == 'E');
                assert(false);
            }
        },
        PassPhase::Build { iteration } => {
            let ds = spec_decimal(iteration as nat);
            lemma_decimal_val(iteration as nat);
            assert(tail[10] == 'B');
            if tail == lit_r {
                assert(lit_r[10] == 'R');
                assert(false);
            }
            if tail == lit_d {
                assert(lit_d[10] == 'D');
                assert(false);
            }
            if tail == lit_e {
                assert(lit_e[10] == 'E');
                assert(false);
            }
            if tail == lit_v {
                assert(lit_v[10] == 'V');
                assert(false);
            }
            assert(tail.subrange(0, 29) =~= pre_b);
            assert(spec_starts_with(tail, pre_b));
            assert(tail.skip(29) =~= ds + "\n"@);
            lemma_num_line_roundtrip(iteration, tail.skip(29));
        },
    }
}

} // verus!
