use kofnote::providers::{
    build_clover_cli_args, build_codex_cli_args, build_gemini_cli_args, cli_retry_plan,
    codex_cli_failure_hint, codex_model_fallbacks, is_cli_model_error, normalize_cli_model_arg,
    provider_error_code, summarize_cli_stream,
};
use kofnote::records::Record;
use kofnote::stats::{get_health_diagnostics, get_home_fingerprint, render_record_source_text, LogEntry};
use kofnote::notion::{
    notion_build_properties, notion_extract_content_sections, notion_find_property_by_candidates,
    notion_find_title_property_name, BlockText, NotionPropertyValue, PropertySchema,
};
use kofnote::sync::{
    apply_remote_to_local_record, build_batch_summary, build_sync_result, local_has_changed_since_sync,
    mark_record_synced, normalize_conflict_strategy, plan_pull_page, record_sync_hash,
    remote_has_changed, sync_record_bidirectional_internal, sync_record_to_notion_internal,
    NotionRemoteRecord, NotionSyncResult, SyncPlanStep,
};

fn local_record() -> Record {
    Record {
        record_type: "note".to_string(),
        title: "Local".to_string(),
        created_at: "2026-01-01T00:00:00Z".to_string(),
        source_text: "s".to_string(),
        final_body: "f".to_string(),
        tags: vec!["t".to_string()],
        date: None,
        notion_page_id: Some("page-1".to_string()),
        notion_url: Some("https://notes.example/p1".to_string()),
        notion_sync_status: "SUCCESS".to_string(),
        notion_error: None,
        notion_last_synced_at: None,
        notion_last_edited_time: Some("T0".to_string()),
        notion_last_synced_hash: Some("H0".to_string()),
        json_path: Some("/h/records/other/local.json".to_string()),
        md_path: Some("/h/records/other/local.md".to_string()),
    }
}

fn remote_page(edited: &str) -> NotionRemoteRecord {
    NotionRemoteRecord {
        page_id: "page-1".to_string(),
        page_url: Some("https://notes.example/p1".to_string()),
        last_edited_time: Some(edited.to_string()),
        record_type: "idea".to_string(),
        title: "Remote".to_string(),
        created_at: "2026-01-05T00:00:00Z".to_string(),
        date: Some("2026-01-05".to_string()),
        tags: vec!["r".to_string()],
        final_body: "remote body".to_string(),
        source_text: "remote source".to_string(),
    }
}

#[test]
fn watermarks_detect_changes() {
    let r = local_record();
    // The stored hash H0 cannot match the recomputed token.
    assert!(local_has_changed_since_sync(&r));
    let mut synced = r;
    mark_record_synced(&mut synced, None);
    assert!(!local_has_changed_since_sync(&synced));
    assert_eq!(synced.notion_sync_status, "SUCCESS");
    assert!(synced.notion_last_synced_at.is_some());
    let h = record_sync_hash(&synced);
    assert_eq!(Some(h), synced.notion_last_synced_hash);

    assert!(remote_has_changed(&synced, &remote_page("T1")));
    let mut same = remote_page("T0");
    same.last_edited_time = synced.notion_last_edited_time.clone();
    assert!(!remote_has_changed(&synced, &same));
}

#[test]
fn sync_manual_conflict_blocks_push() {
    // Local body edited since H0; the remote reports a newer edit time.
    let record = local_record();
    let plan = sync_record_bidirectional_internal(&record, &Some(remote_page("T1")), "manual");
    match plan {
        SyncPlanStep::ConflictManual { record: c } => {
            assert_eq!(c.notion_sync_status, "CONFLICT");
            assert_eq!(
                c.notion_error.as_deref(),
                Some("Conflict detected: local and Notion both changed since last sync.")
            );
            let result = build_sync_result("/h/records/other/local.json", &c, "conflict_manual", true);
            assert_eq!(result.action, "conflict_manual");
            assert!(result.conflict);
            assert_eq!(result.notion_sync_status, "CONFLICT");
        },
        _ => panic!("manual two-sided change must conflict"),
    }
    let one_way = sync_record_to_notion_internal(&record, &Some(remote_page("T1")), "manual");
    assert!(matches!(one_way, SyncPlanStep::ConflictManual { .. }));
}

#[test]
fn sync_policies_pick_sides() {
    let record = local_record();
    match sync_record_bidirectional_internal(&record, &Some(remote_page("T1")), "notion_wins") {
        SyncPlanStep::PullRemote { record: n, action_label } => {
            assert_eq!(action_label, "pulled_notion_conflict_notion_wins");
            assert_eq!(n.title, "Remote");
            assert_eq!(n.record_type, "idea");
            assert_eq!(n.notion_sync_status, "SUCCESS");
        },
        _ => panic!("remote-wins pulls"),
    }
    match sync_record_bidirectional_internal(&record, &Some(remote_page("T1")), "local_wins") {
        SyncPlanStep::PushLocal { action_label } => {
            assert_eq!(action_label, "pushed_local_conflict_local_wins");
        },
        _ => panic!("local-wins pushes"),
    }
    match sync_record_bidirectional_internal(&record, &None, "manual") {
        SyncPlanStep::PushLocal { action_label } => assert_eq!(action_label, "pushed_local"),
        _ => panic!("no remote page always pushes"),
    }
}

#[test]
fn batch_pull_creates_unknown_remote() {
    let plan = plan_pull_page(&None, &remote_page("T9"), "manual");
    match plan {
        SyncPlanStep::CreateLocal { record } => {
            assert_eq!(record.notion_sync_status, "SUCCESS");
            assert_eq!(record.record_type, "idea");
            assert_eq!(record.notion_page_id.as_deref(), Some("page-1"));
            let recomputed = record_sync_hash(&record);
            assert_eq!(record.notion_last_synced_hash, Some(recomputed));
            let result = build_sync_result(
                "/h/records/ideas/new.json",
                &record,
                "created_local_from_notion",
                false,
            );
            let summary = build_batch_summary(vec![result]);
            assert_eq!(summary.total, 1);
            assert_eq!(summary.success, 1);
            assert_eq!(summary.failed, 0);
            assert_eq!(summary.conflicts, 0);
        },
        _ => panic!("unknown remote page must create a local record"),
    }
}

#[test]
fn batch_pull_skips_local_only_changes_under_manual() {
    let record = local_record();
    let mut unchanged_remote = remote_page("ignored");
    unchanged_remote.last_edited_time = record.notion_last_edited_time.clone();
    match plan_pull_page(&Some(record), &unchanged_remote, "manual") {
        SyncPlanStep::LocalOnlyPending { record: c } => {
            assert_eq!(c.notion_sync_status, "PENDING");
            assert_eq!(
                c.notion_error.as_deref(),
                Some("Local-only changes detected. Pull skipped by manual strategy.")
            );
        },
        _ => panic!("manual strategy skips local-only changes"),
    }
}

#[test]
fn batch_tally_counts_conflicts_as_failures() {
    let ok = NotionSyncResult {
        json_path: "a".to_string(),
        notion_page_id: None,
        notion_url: None,
        notion_sync_status: "SUCCESS".to_string(),
        notion_error: None,
        action: "pushed_local".to_string(),
        conflict: false,
    };
    let bad = NotionSyncResult {
        notion_sync_status: "FAILED".to_string(),
        conflict: false,
        ..clone_result(&ok)
    };
    let conflicted = NotionSyncResult {
        notion_sync_status: "CONFLICT".to_string(),
        conflict: true,
        ..clone_result(&ok)
    };
    let summary = build_batch_summary(vec![ok, bad, conflicted]);
    assert_eq!(summary.total, 3);
    assert_eq!(summary.success, 1);
    assert_eq!(summary.failed, 2);
    assert_eq!(summary.conflicts, 1);
}

fn clone_result(r: &NotionSyncResult) -> NotionSyncResult {
    NotionSyncResult {
        json_path: r.json_path.clone(),
        notion_page_id: r.notion_page_id.clone(),
        notion_url: r.notion_url.clone(),
        notion_sync_status: r.notion_sync_status.clone(),
        notion_error: r.notion_error.clone(),
        action: r.action.clone(),
        conflict: r.conflict,
    }
}

#[test]
fn conflict_strategies_normalize() {
    assert_eq!(normalize_conflict_strategy(None), "manual");
    assert_eq!(normalize_conflict_strategy(Some("local".to_string())), "local_wins");
    assert_eq!(normalize_conflict_strategy(Some(" NOTION ".to_string())), "notion_wins");
    assert_eq!(normalize_conflict_strategy(Some("remote_wins".to_string())), "notion_wins");
    assert_eq!(normalize_conflict_strategy(Some("whatever".to_string())), "manual");
}

#[test]
fn applying_remote_keeps_local_gaps() {
    let local = local_record();
    let mut remote = remote_page("T1");
    remote.title = "  ".to_string();
    let next = apply_remote_to_local_record(&local, &remote);
    assert_eq!(next.title, "Local");
    assert_eq!(next.final_body, "remote body");
    assert_eq!(next.record_type, "idea");
    assert!(next.notion_error.is_none());
}

#[test]
fn cli_model_aliases_map_to_provider_defaults() {
    assert_eq!(normalize_cli_model_arg("codex-cli", "codex"), None);
    assert_eq!(normalize_cli_model_arg("gemini-cli", "gemini"), None);
    assert_eq!(normalize_cli_model_arg("clover-cli", "clover"), None);
    assert_eq!(normalize_cli_model_arg("codex-cli", "auto"), None);
    assert_eq!(
        normalize_cli_model_arg("codex-cli", "gpt-5-codex"),
        Some("gpt-5-codex".to_string())
    );
}

#[test]
fn cli_model_error_detector_matches_common_provider_failures() {
    assert!(is_cli_model_error("", "inaccessible model: gpt-5.3-codex"));
    assert!(is_cli_model_error("", "this is not a supported model for codex"));
    assert!(is_cli_model_error(
        "",
        "The model `gpt-5.3-codex` does not exist or you do not have access to it."
    ));
    assert!(is_cli_model_error("", "invalid model"));
    assert!(!is_cli_model_error("network error", ""));
}

#[test]
fn cli_provider_build_args_match_expected_shape() {
    let codex_args = build_codex_cli_args(Some("gpt-5-codex"), "prompt", 30, 1024, "/tmp/last.txt");
    assert!(codex_args.args.iter().any(|arg| arg == "exec"));
    assert!(codex_args.args.windows(2).any(|pair| pair == ["--model", "gpt-5-codex"]));
    assert_eq!(codex_args.stdin_payload.as_deref(), Some(""));
    assert!(codex_args.output_file.is_some());

    let gemini_args = build_gemini_cli_args(Some("gemini-2.0-flash"), "hello", 30, 1024);
    assert_eq!(gemini_args.args.first().map(String::as_str), Some("hello"));
    assert!(gemini_args.args.windows(2).any(|pair| pair == ["--model", "gemini-2.0-flash"]));
    assert!(gemini_args.stdin_payload.is_none());
    assert!(gemini_args.output_file.is_none());

    let clover_args = build_clover_cli_args(Some("clover-3-5-sonnet-latest"), "question", 30, 1024);
    assert!(clover_args.args.windows(2).any(|pair| pair == ["--model", "clover-3-5-sonnet-latest"]));
    assert_eq!(clover_args.args.last().map(String::as_str), Some("question"));
    assert!(clover_args.stdin_payload.is_none());
    assert!(clover_args.output_file.is_none());
}

#[test]
fn cli_retry_walks_default_then_fallbacks() {
    let fallbacks = codex_model_fallbacks();
    let plan = cli_retry_plan(Some("gpt-5.3-codex"), &fallbacks, "", "invalid model");
    assert_eq!(plan.len(), 4);
    assert!(plan[0].is_none());
    assert_eq!(plan[1].as_deref(), Some("gpt-5-codex"));
    assert_eq!(plan[2].as_deref(), Some("o3"));
    assert_eq!(plan[3].as_deref(), Some("o4-mini"));

    let skip_used = cli_retry_plan(Some("o3"), &fallbacks, "", "invalid model");
    assert_eq!(skip_used.len(), 3);
    assert_eq!(skip_used[1].as_deref(), Some("gpt-5-codex"));
    assert_eq!(skip_used[2].as_deref(), Some("o4-mini"));

    let not_model = cli_retry_plan(Some("x"), &fallbacks, "", "network error");
    assert!(not_model.is_empty());
    assert_eq!(
        codex_cli_failure_hint("", "network error"),
        "Codex network/API call failed. Check network and model access."
    );
}

#[test]
fn cli_stream_summary_trims_long_output() {
    assert_eq!(summarize_cli_stream(""), "");
    assert_eq!(summarize_cli_stream(" a \n\n b "), "a | b");
    let long = (1..=10).map(|i| format!("line{}", i)).collect::<Vec<_>>().join("\n");
    let summary = summarize_cli_stream(&long);
    assert!(summary.starts_with("line1 | line2 | line3 | line4 | ... (2 lines omitted) ..."));
    assert!(summary.ends_with("line7 | line8 | line9 | line10"));
}

#[test]
fn fingerprint_is_stable_and_counts_match() {
    let r = local_record();
    let logs = vec![LogEntry {
        timestamp: "2026-01-02T00:00:00Z".to_string(),
        event_id: "e1".to_string(),
        task_intent: "capture".to_string(),
        status: "done".to_string(),
        title: "t".to_string(),
        data_raw: "{}".to_string(),
        json_path: None,
    }];
    let records = vec![r];
    let a = get_home_fingerprint("/h", &records, &logs);
    let b = get_home_fingerprint("/h", &records, &logs);
    assert_eq!(a.token, b.token);
    assert_eq!(a.records_count, 1);
    assert_eq!(a.logs_count, 1);
    assert_eq!(a.latest_record_at, "2026-01-01T00:00:00Z");
    let other = get_home_fingerprint("/elsewhere", &records, &logs);
    assert_ne!(a.token, other.token);

    let health = get_health_diagnostics("/h", &records, &logs, false, 42, true, false, false, 2);
    assert_eq!(health.indexed_records, 0);
    assert_eq!(health.index_path, "/h/.agentic/kofnote_search.sqlite");
    assert!(health.has_openai_api_key);
    assert_eq!(health.profile_count, 2);
}

#[test]
fn record_source_text_skips_empty_date() {
    let mut r = local_record();
    r.date = None;
    let text = render_record_source_text(&r);
    assert!(text.contains("# Local"));
    assert!(text.contains("- Type: note"));
    assert!(!text.contains("- Date:"));
    assert!(text.contains("## Final Body"));
    r.date = Some("2026-01-01".to_string());
    let text2 = render_record_source_text(&r);
    assert!(text2.contains("- Date: 2026-01-01"));
}

#[test]
fn remote_schema_discovery_is_case_insensitive() {
    let schema = vec![
        PropertySchema {
            name: "Name".to_string(),
            prop_type: "title".to_string(),
        },
        PropertySchema {
            name: "record type".to_string(),
            prop_type: "select".to_string(),
        },
        PropertySchema {
            name: "TAGS".to_string(),
            prop_type: "multi_select".to_string(),
        },
    ];
    assert_eq!(
        notion_find_title_property_name(&schema).as_deref(),
        Some("Name")
    );
    let candidates = vec!["Type".to_string(), "Record Type".to_string()];
    let hit = notion_find_property_by_candidates(&schema, &candidates).expect("type property");
    assert_eq!(hit.0, "record type");
    assert_eq!(hit.1, "select");
    let missing = vec!["Due".to_string()];
    assert!(notion_find_property_by_candidates(&schema, &missing).is_none());
}

#[test]
fn page_blocks_collapse_into_sections() {
    let blocks = vec![
        BlockText { is_heading: false, text: "intro".to_string() },
        BlockText { is_heading: true, text: "Final Body".to_string() },
        BlockText { is_heading: false, text: "body one".to_string() },
        BlockText { is_heading: false, text: "  ".to_string() },
        BlockText { is_heading: false, text: "body two".to_string() },
        BlockText { is_heading: true, text: "source text".to_string() },
        BlockText { is_heading: false, text: "origin".to_string() },
    ];
    let (final_body, source_text) = notion_extract_content_sections(&blocks);
    assert_eq!(final_body, "body one\n\nbody two");
    assert_eq!(source_text, "origin");

    let headingless = vec![
        BlockText { is_heading: false, text: "only text".to_string() },
    ];
    let (fallback, empty_source) = notion_extract_content_sections(&headingless);
    assert_eq!(fallback, "only text");
    assert_eq!(empty_source, "");
}

#[test]
fn push_property_map_follows_schema() {
    let schema = vec![
        PropertySchema { name: "Name".to_string(), prop_type: "title".to_string() },
        PropertySchema { name: "Type".to_string(), prop_type: "select".to_string() },
        PropertySchema { name: "Tags".to_string(), prop_type: "multi_select".to_string() },
        PropertySchema { name: "Date".to_string(), prop_type: "date".to_string() },
    ];
    let record = local_record();
    let entries = notion_build_properties(&schema, "Name", &record, "2026-06-01");
    assert_eq!(entries.len(), 4);
    assert_eq!(entries[0].name, "Name");
    match &entries[0].value {
        NotionPropertyValue::TitleText(t) => assert_eq!(t, "Local"),
        _ => panic!("title entry first"),
    }
    match &entries[1].value {
        NotionPropertyValue::SelectName(t) => assert_eq!(t, "note"),
        _ => panic!("type entry is a select"),
    }
    match &entries[3].value {
        NotionPropertyValue::DateStart(d) => assert_eq!(d, "2026-01-01"),
        _ => panic!("date entry uses the created day"),
    }
}

#[test]
fn provider_error_codes_follow_the_convention() {
    assert_eq!(provider_error_code("gemini"), "DEBATE_ERR_PROVIDER_GEMINI");
    assert_eq!(provider_error_code("codex-cli"), "DEBATE_ERR_PROVIDER_CODEX_CLI");
    assert_eq!(provider_error_code("anything-else"), "DEBATE_ERR_PROVIDER_UNSUPPORTED");
}

#[test]
fn page_create_children_carry_both_sections() {
    let record = local_record();
    let children = kofnote::notion::notion_build_children(&record);
    assert_eq!(children.len(), 4);
    assert!(children[0].is_heading);
    assert_eq!(children[0].text, "Final Body");
    assert!(!children[1].is_heading);
    assert_eq!(children[1].text, "f");
    assert!(children[2].is_heading);
    assert_eq!(children[3].text, "s");
    let mut blank = local_record();
    blank.final_body = "   ".to_string();
    let blanks = kofnote::notion::notion_build_children(&blank);
    assert_eq!(blanks[1].text, "(empty)");
}
