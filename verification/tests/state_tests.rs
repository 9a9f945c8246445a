use lisa::state::{encode_state, parse_state, PassPhase, SpiralState};

#[test]
fn test_state_roundtrip_not_started() {
    let state = SpiralState::NotStarted;
    let text = encode_state(&state);
    let parsed = parse_state(text.as_str()).unwrap();
    assert_eq!(parsed, state);
}

#[test]
fn test_state_roundtrip_scoping() {
    let state = SpiralState::Scoping { attempt: 2 };
    let text = encode_state(&state);
    let parsed = parse_state(text.as_str()).unwrap();
    assert_eq!(parsed, state);
}

#[test]
fn test_state_roundtrip_in_pass_build() {
    let state = SpiralState::InPass {
        pass: 3,
        phase: PassPhase::Build { iteration: 7 },
    };
    let text = encode_state(&state);
    let parsed = parse_state(text.as_str()).unwrap();
    assert_eq!(parsed, state);
}

#[test]
fn test_state_roundtrip_scope_complete() {
    let state = SpiralState::ScopeComplete;
    let text = encode_state(&state);
    let parsed = parse_state(text.as_str()).unwrap();
    assert_eq!(parsed, state);
}

#[test]
fn test_state_roundtrip_complete() {
    let state = SpiralState::Complete { final_pass: 4 };
    let text = encode_state(&state);
    let parsed = parse_state(text.as_str()).unwrap();
    assert_eq!(parsed, state);
}

#[test]
fn test_state_roundtrip_all_phases() {
    for phase in [
        PassPhase::Refine,
        PassPhase::DdvRed,
        PassPhase::Build { iteration: 1 },
        PassPhase::Build { iteration: 4294967295 },
        PassPhase::Execute,
        PassPhase::Validate,
    ] {
        let state = SpiralState::InPass { pass: 12, phase };
        let text = encode_state(&state);
        assert_eq!(parse_state(text.as_str()), Some(state));
    }
    for state in [
        SpiralState::Scoping { attempt: 0 },
        SpiralState::PassReview { pass: 10 },
        SpiralState::Complete { final_pass: 0 },
    ] {
        let text = encode_state(&state);
        assert_eq!(parse_state(text.as_str()), Some(state));
    }
}

#[test]
fn test_state_file_format() {
    let state = SpiralState::InPass {
        pass: 3,
        phase: PassPhase::Build { iteration: 7 },
    };
    assert_eq!(
        encode_state(&state),
        "state = \"InPass\"\npass = 3\nphase = \"Build\"\niteration = 7\n"
    );
    assert_eq!(encode_state(&SpiralState::NotStarted), "state = \"NotStarted\"\n");
}

#[test]
fn test_parse_state_rejects_malformed() {
    assert_eq!(parse_state(""), None);
    assert_eq!(parse_state("state = \"Unknown\"\n"), None);
    assert_eq!(parse_state("state = \"Scoping\"\nattempt = x\n"), None);
    assert_eq!(parse_state("state = \"InPass\"\npass = 3\n"), None);
    assert_eq!(parse_state("state = \"Complete\"\nfinal_pass = 99999999999\n"), None);
}

#[test]
fn test_state_display() {
    assert_eq!(SpiralState::NotStarted.to_display_string(), "Not started");
    assert_eq!(
        SpiralState::InPass {
            pass: 2,
            phase: PassPhase::DdvRed
        }
        .to_display_string(),
        "Pass 2 — DDV Red"
    );
}
