use kofnote::debate::{
    debate_lock_acquire, debate_lock_release, parse_debate_role, provider_uses_local_stub,
    round_number_from_str, validate_debate_transition, DebateRole, DebateRound, DebateState,
};
use kofnote::debate_engine::{
    build_replay_consistency, packet_key_paths, run_debate, writeback_refs, ProviderOutcome,
};
use kofnote::debate_norm::{
    normalize_debate_model_name, normalize_debate_output_type, normalize_debate_provider,
    normalize_provider_alias, select_writeback_record_type, DebateModeRequest,
    DebateParticipantConfig,
};
use kofnote::debate_packet::{
    build_debate_actions, format_milli, render_debate_packet_markdown,
    validate_final_packet, DebateAction, DebateDecision, DebateFinalPacket, DebatePacketConsensus,
    DebatePacketParticipant, DebatePacketTimestamps, DebateRisk, DebateTrace,
};
use kofnote::debate_text::{classify_risk_severity, extract_claim_text, extract_risk_lines, strip_claim_label};
use kofnote::settings::{AppSettings, DebateProviderRegistry};

fn sample_request() -> DebateModeRequest {
    DebateModeRequest {
        problem: "Choose implementation strategy for local-first debate mode".to_string(),
        constraints: vec![
            "Local-first persistence is mandatory".to_string(),
            "Output must be replayable".to_string(),
        ],
        output_type: "decision".to_string(),
        participants: Vec::new(),
        max_turn_seconds: Some(10),
        max_turn_tokens: Some(512),
        writeback_record_type: Some("decision".to_string()),
    }
}

fn sample_packet() -> DebateFinalPacket {
    let participants = vec![
        DebatePacketParticipant {
            role: "Proponent".to_string(),
            model_provider: "local".to_string(),
            model_name: "local-heuristic-v1".to_string(),
        },
        DebatePacketParticipant {
            role: "Critic".to_string(),
            model_provider: "local".to_string(),
            model_name: "local-heuristic-v1".to_string(),
        },
        DebatePacketParticipant {
            role: "Analyst".to_string(),
            model_provider: "local".to_string(),
            model_name: "local-heuristic-v1".to_string(),
        },
        DebatePacketParticipant {
            role: "Synthesizer".to_string(),
            model_provider: "local".to_string(),
            model_name: "local-heuristic-v1".to_string(),
        },
        DebatePacketParticipant {
            role: "Judge".to_string(),
            model_provider: "local".to_string(),
            model_name: "local-heuristic-v1".to_string(),
        },
    ];
    DebateFinalPacket {
        run_id: "debate_20260210_120000_123".to_string(),
        mode: "debate-v0.1".to_string(),
        problem: "Test".to_string(),
        constraints: vec!["A".to_string()],
        output_type: "decision".to_string(),
        participants,
        consensus: DebatePacketConsensus {
            consensus_score_milli: 800,
            confidence_score_milli: 750,
            key_agreements: vec!["g1".to_string()],
            key_disagreements: vec!["d1".to_string()],
        },
        decision: DebateDecision {
            selected_option: "option".to_string(),
            why_selected: vec!["why".to_string()],
            rejected_options: vec![],
        },
        risks: vec![DebateRisk {
            risk: "risk".to_string(),
            severity: "low".to_string(),
            mitigation: "mitigate".to_string(),
        }],
        next_actions: vec![DebateAction {
            id: "A1".to_string(),
            action: "act".to_string(),
            owner: "me".to_string(),
            due: "2026-02-10".to_string(),
        }],
        trace: DebateTrace {
            round_refs: vec![
                "round-1".to_string(),
                "round-2".to_string(),
                "round-3".to_string(),
            ],
            evidence_refs: vec!["/tmp/a.json".to_string()],
        },
        timestamps: DebatePacketTimestamps {
            started_at: "2026-02-10T10:00:00Z".to_string(),
            finished_at: "2026-02-10T10:00:10Z".to_string(),
        },
    }
}

fn no_outcomes() -> (Vec<Vec<ProviderOutcome>>, Vec<Vec<bool>>) {
    let mut outs: Vec<Vec<ProviderOutcome>> = Vec::new();
    let mut mask: Vec<Vec<bool>> = Vec::new();
    for _r in 0..3 {
        let mut row: Vec<ProviderOutcome> = Vec::new();
        let mut mrow: Vec<bool> = Vec::new();
        for _p in 0..5 {
            row.push(ProviderOutcome {
                text: Ok(String::new()),
                duration_ms: 0,
            });
            mrow.push(false);
        }
        outs.push(row);
        mask.push(mrow);
    }
    (outs, mask)
}

fn default_registry() -> DebateProviderRegistry {
    let settings = kofnote::settings::normalize_settings(&AppSettings::default());
    DebateProviderRegistry::from_settings(&settings)
}

#[test]
fn debate_transition_guard_matrix() {
    assert!(validate_debate_transition(None, DebateState::Intake));
    assert!(validate_debate_transition(
        Some(DebateState::Intake),
        DebateState::Round1
    ));
    assert!(validate_debate_transition(
        Some(DebateState::Round1),
        DebateState::Round2
    ));
    assert!(!validate_debate_transition(
        Some(DebateState::Round1),
        DebateState::Consensus
    ));
    assert!(!validate_debate_transition(
        Some(DebateState::Writeback),
        DebateState::Round1
    ));
}

#[test]
fn final_packet_validation_bounds() {
    let mut packet = sample_packet();
    assert!(validate_final_packet(&packet).is_ok());

    packet.consensus.consensus_score_milli = 1400;
    assert!(validate_final_packet(&packet).is_err());
}

#[test]
fn claim_extraction_reads_claim_block_without_prefix() {
    let text = "Claim: adopt isolated runner\nwith append-only events\nRationale: because replay safety";
    let claim = extract_claim_text(text).expect("claim should be parsed");
    assert_eq!(claim, "adopt isolated runner with append-only events");
}

#[test]
fn packet_markdown_contains_conclusion_tldr() {
    let mut packet = sample_packet();
    packet.decision.selected_option =
        "Use a clear and concise decision statement for operators".to_string();

    let markdown = render_debate_packet_markdown(&packet);
    assert!(markdown.contains("## Conclusion"));
    assert!(markdown.contains("- TL;DR:"));
    assert!(markdown.contains("- Selected: Use a clear and concise decision statement for operators"));
}

#[test]
fn debate_happy_path_local_persists_artifacts() {
    let (outs, mask) = no_outcomes();
    let registry = default_registry();
    let result = run_debate("/home/user/central", &sample_request(), &registry, &outs, &mask)
        .expect("run debate");

    assert_eq!(result.response.mode, "debate-v0.1");
    assert_eq!(result.response.state, "Writeback");
    assert!(!result.response.run_id.is_empty());
    assert!(!result.response.final_packet.next_actions.is_empty());
    let wb = result.response.writeback_json_path.expect("writeback path");
    assert!(wb.starts_with("/home/user/central/records/decisions/"));
    assert!(wb.ends_with(".json"));
    assert_eq!(result.rounds.len(), 3);
    assert_eq!(result.rounds[0].round, "round-1");
    assert_eq!(result.rounds[1].round, "round-2");
    assert_eq!(result.rounds[2].round, "round-3");
    assert_eq!(result.rounds[0].turns.len(), 5);
    assert!(!result.response.degraded);
    assert!(result
        .response
        .artifacts_root
        .starts_with("/home/user/central/records/debates/debate_"));
    assert_eq!(result.response.final_packet.consensus.consensus_score_milli, 1000);
    assert_eq!(result.response.final_packet.consensus.confidence_score_milli, 1000);
    let roles: Vec<&str> = result
        .response
        .final_packet
        .participants
        .iter()
        .map(|p| p.role.as_str())
        .collect();
    assert_eq!(roles, vec!["Proponent", "Critic", "Analyst", "Synthesizer", "Judge"]);
    assert!(result.response.run_id.starts_with("debate_"));
    assert_eq!(result.run_row.run_id, result.response.run_id);
    assert_eq!(result.request_artifact.problem, result.response.final_packet.problem);
}

#[test]
fn debate_degraded_when_provider_fails() {
    let (mut outs, mut mask) = no_outcomes();
    // The Analyst speaks third; its hosted turns fail in every round for
    // want of a credential.
    for r in 0..3 {
        outs[r][2] = ProviderOutcome {
            text: Err(
                "DEBATE_ERR_PROVIDER_GEMINI: Missing Gemini API key. Set it in Settings first."
                    .to_string(),
            ),
            duration_ms: 5,
        };
        mask[r][2] = true;
    }
    let mut request = sample_request();
    request.participants = vec![DebateParticipantConfig {
        role: Some("Analyst".to_string()),
        model_provider: Some("gemini".to_string()),
        model_name: Some("gemini-2.0-flash".to_string()),
    }];
    let registry = default_registry();
    let result = run_debate("/home/user/central", &request, &registry, &outs, &mask)
        .expect("run debate");
    assert!(result.response.degraded);
    assert!(result
        .response
        .error_codes
        .iter()
        .any(|code| code.contains("DEBATE_ERR_PROVIDER_GEMINI")));
    let ok_turns: usize = result
        .rounds
        .iter()
        .flat_map(|r| r.turns.iter())
        .filter(|t| t.status == "ok")
        .count();
    assert_eq!(ok_turns, 12);
}

#[test]
fn debate_replay_works_without_cloud() {
    let (outs, mask) = no_outcomes();
    let registry = default_registry();
    let result = run_debate("/home/user/central", &sample_request(), &registry, &outs, &mask)
        .expect("run debate");

    let expected_turns: usize = result.rounds.iter().map(|r| r.turns.len()).sum();
    let expected_actions = result.response.final_packet.next_actions.len();
    let replay = build_replay_consistency(
        true,
        true,
        true,
        result.rounds.len(),
        Vec::new(),
        expected_turns,
        expected_turns,
        expected_actions,
        expected_actions,
    );
    assert!(replay.files_complete);
    assert!(replay.sql_indexed);
    assert!(replay.issues.is_empty());
    let refs = writeback_refs(&result.response.final_packet.trace.evidence_refs);
    assert_eq!(refs.len(), 1);
    assert_eq!(Some(refs[0].clone()), result.response.writeback_json_path);
}

#[test]
fn debate_provider_combinations_keep_packet_shape() {
    let registry = default_registry();
    let (outs, mask) = no_outcomes();
    let local = run_debate("/home/user/central", &sample_request(), &registry, &outs, &mask)
        .expect("local run");

    let mut mixed_request = sample_request();
    mixed_request.participants = vec![
        DebateParticipantConfig {
            role: Some("Proponent".to_string()),
            model_provider: Some("openai".to_string()),
            model_name: Some("gpt-4.1-mini".to_string()),
        },
        DebateParticipantConfig {
            role: Some("Critic".to_string()),
            model_provider: Some("local".to_string()),
            model_name: Some("local-heuristic-v1".to_string()),
        },
        DebateParticipantConfig {
            role: Some("Analyst".to_string()),
            model_provider: Some("clover".to_string()),
            model_name: Some("clover-3-5-sonnet-latest".to_string()),
        },
    ];
    let (mut mouts, mut mmask) = no_outcomes();
    for r in 0..3 {
        mouts[r][0] = ProviderOutcome {
            text: Err("DEBATE_ERR_PROVIDER_OPENAI: Missing OpenAI API key. Set it in Settings first.".to_string()),
            duration_ms: 3,
        };
        mmask[r][0] = true;
        mouts[r][2] = ProviderOutcome {
            text: Err("DEBATE_ERR_PROVIDER_CLOVER: Missing Clover API key. Set it in Settings first.".to_string()),
            duration_ms: 3,
        };
        mmask[r][2] = true;
    }
    let mixed = run_debate("/home/user/central", &mixed_request, &registry, &mouts, &mmask)
        .expect("mixed run");

    let mut local_keys = packet_key_paths(&local.response.final_packet);
    let mut mixed_keys = packet_key_paths(&mixed.response.final_packet);
    local_keys.sort();
    mixed_keys.sort();
    assert_eq!(local_keys, mixed_keys);
}

#[test]
fn provider_registry_defaults_are_available() {
    let settings = kofnote::settings::normalize_settings(&AppSettings::default());
    let registry = DebateProviderRegistry::from_settings(&settings);

    assert!(registry.is_enabled("codex-cli"));
    assert!(registry.is_enabled("gemini-cli"));
    assert!(registry.is_enabled("clover-web"));
}

#[test]
fn disabled_provider_falls_back_to_local() {
    let mut settings = AppSettings::default();
    for provider in &mut settings.provider_registry.providers {
        if provider.id == "codex-cli" {
            provider.enabled = false;
        }
    }
    let registry = DebateProviderRegistry::from_settings(&kofnote::settings::normalize_settings(
        &settings,
    ));

    let mut request = sample_request();
    request.participants = vec![DebateParticipantConfig {
        role: Some("Proponent".to_string()),
        model_provider: Some("codex-cli".to_string()),
        model_name: Some("codex".to_string()),
    }];

    let normalized =
        kofnote::debate_norm::normalize_debate_request(&request, &registry).expect("normalize request");
    let proponent = normalized
        .participants
        .iter()
        .find(|item| item.role == DebateRole::Proponent)
        .expect("proponent exists");

    assert_eq!(proponent.model_provider, "local");
    assert!(normalized
        .warning_codes
        .iter()
        .any(|code| code == "DEBATE_WARN_PROVIDER_DISABLED_FALLBACK_LOCAL"));
}

#[test]
fn provider_stub_matrix_matches_expectation() {
    assert!(!provider_uses_local_stub("codex-cli", "cli"));
    assert!(!provider_uses_local_stub("gemini-cli", "cli"));
    assert!(!provider_uses_local_stub("clover-cli", "cli"));
    assert!(provider_uses_local_stub("chatgpt-web", "web"));
}

#[test]
fn consensus_scores_follow_turn_counts() {
    // Fourteen of fifteen turns succeed: 14/15 rounds to 0.933, and one
    // failure costs 0.030.
    assert_eq!(milli_check(14, 15), 933);
    assert_eq!(milli_check(15, 15), 1000);
    assert_eq!(milli_check(0, 15), 0);
    assert_eq!(format_milli(933), "0.933");
    assert_eq!(format_milli(1000), "1.000");
    assert_eq!(format_milli(0), "0.000");
}

fn milli_check(k: u64, t: u64) -> u64 {
    // The packet's three-decimal rounding of k/t.
    (2000 * k + t) / (2 * t)
}

#[test]
fn degraded_run_confidence_carries_penalty() {
    let (mut outs, mut mask) = no_outcomes();
    outs[0][2] = ProviderOutcome {
        text: Err("DEBATE_ERR_PROVIDER_GEMINI: no credential".to_string()),
        duration_ms: 1,
    };
    mask[0][2] = true;
    let mut request = sample_request();
    request.participants = vec![DebateParticipantConfig {
        role: Some("Analyst".to_string()),
        model_provider: Some("gemini".to_string()),
        model_name: Some("gemini-2.0-flash".to_string()),
    }];
    let registry = default_registry();
    let result = run_debate("/home/user/central", &request, &registry, &outs, &mask)
        .expect("run debate");
    // Rounds two and three carry no outcome for the hosted Analyst, so three
    // turns fail: 12/15 = 0.800, confidence 0.800 - 3 * 0.030 = 0.710.
    assert_eq!(result.response.final_packet.consensus.consensus_score_milli, 800);
    assert_eq!(result.response.final_packet.consensus.confidence_score_milli, 710);
}

#[test]
fn debate_error_strings_parse_back() {
    let (code, message) = kofnote::debate::parse_debate_error(
        "DEBATE_ERR_PROVIDER_GEMINI: Missing Gemini API key.",
    );
    assert_eq!(code.as_deref(), Some("DEBATE_ERR_PROVIDER_GEMINI"));
    assert_eq!(message, "Missing Gemini API key.");
    let (code2, message2) = kofnote::debate::parse_debate_error("plain failure");
    assert!(code2.is_none());
    assert_eq!(message2, "plain failure");
}

#[test]
fn single_flight_lock_admits_one_run() {
    let mut slot: Option<String> = None;
    assert!(debate_lock_acquire(&mut slot, "debate_1".to_string()).is_ok());
    let second = debate_lock_acquire(&mut slot, "debate_2".to_string());
    assert_eq!(
        second.unwrap_err(),
        "Another debate is already running: debate_1"
    );
    debate_lock_release(&mut slot);
    assert!(debate_lock_acquire(&mut slot, "debate_3".to_string()).is_ok());
}

#[test]
fn output_type_and_roles_normalize() {
    assert_eq!(normalize_debate_output_type("  Decision ").unwrap(), "decision");
    assert!(normalize_debate_output_type("poetry").is_err());
    assert_eq!(parse_debate_role(" JUDGE "), Some(DebateRole::Judge));
    assert_eq!(parse_debate_role("moderator"), None);
    assert_eq!(normalize_provider_alias("Codex"), "codex-cli");
    assert_eq!(normalize_provider_alias("chatgpt"), "chatgpt-web");
    assert_eq!(normalize_debate_model_name("openai", " "), "gpt-4.1-mini");
    assert_eq!(normalize_debate_model_name("local", ""), "local-heuristic-v1");
    assert_eq!(select_writeback_record_type(Some("worklog"), "decision"), "worklog");
    assert_eq!(select_writeback_record_type(Some("idea"), "decision"), "decision");
    assert_eq!(select_writeback_record_type(None, "planning"), "worklog");
    assert_eq!(round_number_from_str("round-2"), 2);
    assert_eq!(round_number_from_str("finale"), 0);
}

#[test]
fn unknown_provider_falls_back_with_warning() {
    let registry = default_registry();
    let (provider, warning) = normalize_debate_provider("mystery-cloud", &registry);
    assert_eq!(provider, "local");
    assert_eq!(
        warning.as_deref(),
        Some("DEBATE_WARN_PROVIDER_UNKNOWN_FALLBACK_LOCAL")
    );
    let (builtin, none_warning) = normalize_debate_provider(" OpenAI ", &registry);
    assert_eq!(builtin, "openai");
    assert!(none_warning.is_none());
}

#[test]
fn risk_lines_and_severity_classify() {
    let risks = extract_risk_lines("Claim: x\n- risk: data loss on crash\nRationale: y\nno marker here");
    assert_eq!(risks, vec!["risk: data loss on crash".to_string()]);
    assert_eq!(classify_risk_severity("possible data loss during outage"), "high");
    assert_eq!(classify_risk_severity("latency grows"), "medium");
    assert_eq!(classify_risk_severity("mild churn"), "low");
    assert_eq!(strip_claim_label("- Claim: keep it"), "keep it");
    let fallback = extract_risk_lines("calm text only");
    assert_eq!(fallback, vec!["Potential risk: calm text only".to_string()]);
    let blank: Vec<String> = extract_risk_lines("   \n  ");
    assert!(blank.is_empty());
}

#[test]
fn actions_carry_fixed_ids_and_valid_dates() {
    let decision = DebateDecision {
        selected_option: "ship it".to_string(),
        why_selected: vec!["why".to_string()],
        rejected_options: vec![],
    };
    let risks = vec![DebateRisk {
        risk: "cost overrun".to_string(),
        severity: "medium".to_string(),
        mitigation: "track".to_string(),
    }];
    let actions = build_debate_actions("decision", &decision, &risks);
    assert_eq!(actions.len(), 3);
    assert_eq!(actions[0].id, "A1");
    assert_eq!(actions[1].id, "A2");
    assert_eq!(actions[2].id, "A3");
    for a in &actions {
        assert_eq!(a.owner, "me");
        assert!(kofnote::dates::is_valid_date_str(&a.due));
    }
    assert_eq!(actions[1].action, "Mitigate primary risk: cost overrun");
}

#[test]
fn blank_problem_is_rejected_at_intake() {
    let registry = default_registry();
    let mut request = sample_request();
    request.problem = "   ".to_string();
    let (outs, mask) = no_outcomes();
    match run_debate("/home/user/central", &request, &registry, &outs, &mask) {
        Err(err) => assert_eq!(err, "DEBATE_ERR_INPUT: Problem cannot be empty"),
        Ok(_) => panic!("a blank problem must be rejected"),
    }
}
