use kofnote::dates::{extract_day, is_valid_date_str, sanitize_date_filter, ymd_plus_days};
use kofnote::paths::{detect_central_home_path, index_db_path, is_central_home, path_with_ext, resolve_central_home};
use kofnote::records::{normalize_record_type, record_dir_by_type, render_markdown, slugify, Record};
use kofnote::search::{matches_record, rebuild_search_index, search_records, search_uses_index};
use kofnote::store::{
    candidate_record_path, delete_record_targets, infer_record_type_from_path, list_records,
    plan_upsert, record_from_doc, record_to_doc, LoadedRecordFile, PriorRecordFile, RecordDoc,
    RecordPayload,
};
use kofnote::util::{compare_iso_desc, dedup_non_empty, option_non_empty, parse_tags, summarize_text_line};

fn doc(title: &str, created: &str, rt: Option<&str>) -> RecordDoc {
    RecordDoc {
        record_type: rt.map(|s| s.to_string()),
        title: Some(title.to_string()),
        created_at: Some(created.to_string()),
        source_text: Some("src".to_string()),
        final_body: Some("body".to_string()),
        tags: vec!["a".to_string(), "b".to_string()],
        date: Some("2026-01-02".to_string()),
        notion_page_id: None,
        notion_url: None,
        notion_sync_status: Some("SUCCESS".to_string()),
        notion_error: None,
        notion_last_synced_at: None,
        notion_last_edited_time: None,
        notion_last_synced_hash: None,
    }
}

fn record(title: &str, created: &str) -> Record {
    record_from_doc(
        &doc(title, created, Some("note")),
        Some("/h/records/other/x.json".to_string()),
        Some("/h/records/other/x.md".to_string()),
        None,
        "",
    )
}

#[test]
fn record_types_canonicalize() {
    assert_eq!(normalize_record_type(" Decision "), "decision");
    assert_eq!(normalize_record_type("WORKLOG"), "worklog");
    assert_eq!(normalize_record_type("memo"), "note");
    assert_eq!(record_dir_by_type("decision"), "decisions");
    assert_eq!(record_dir_by_type("note"), "other");
    assert_eq!(record_dir_by_type("memo"), "other");
}

#[test]
fn slugs_fold_collapse_and_trim() {
    assert_eq!(slugify("Hello World!"), "hello-world");
    assert_eq!(slugify("--A__B--"), "a__b");
    assert_eq!(slugify("???"), "untitled");
    assert_eq!(slugify(""), "untitled");
    let long = "x".repeat(80);
    assert_eq!(slugify(&long).chars().count(), 48);
}

#[test]
fn structured_document_round_trips() {
    let r = record("Title", "2026-01-02T03:04:05+00:00");
    let d = record_to_doc(&r);
    let back = record_from_doc(
        &d,
        r.json_path.clone(),
        r.md_path.clone(),
        None,
        "fallback-unused",
    );
    assert_eq!(back.record_type, r.record_type);
    assert_eq!(back.title, r.title);
    assert_eq!(back.created_at, r.created_at);
    assert_eq!(back.source_text, r.source_text);
    assert_eq!(back.final_body, r.final_body);
    assert_eq!(back.tags, r.tags);
    assert_eq!(back.date, r.date);
    assert_eq!(back.notion_sync_status, r.notion_sync_status);
}

#[test]
fn listing_sorts_newest_first_and_canonicalizes() {
    let files = vec![
        LoadedRecordFile {
            doc: doc("older", "2026-01-01T00:00:00Z", Some("Idea")),
            json_path: "/h/records/ideas/a.json".to_string(),
            md_path: "/h/records/ideas/a.md".to_string(),
            dir_type: "idea".to_string(),
            mtime_iso: String::new(),
        },
        LoadedRecordFile {
            doc: doc("newer", "2026-02-01T00:00:00Z", None),
            json_path: "/h/records/other/b.json".to_string(),
            md_path: "/h/records/other/b.md".to_string(),
            dir_type: "note".to_string(),
            mtime_iso: String::new(),
        },
    ];
    let listed = list_records(files);
    assert_eq!(listed.len(), 2);
    assert_eq!(listed[0].title, "newer");
    assert_eq!(listed[1].title, "older");
    assert_eq!(listed[1].record_type, "idea");
    assert_eq!(listed[0].record_type, "note");
}

#[test]
fn upsert_plan_pairs_files_under_type_directory() {
    let payload = RecordPayload {
        record_type: "Decision".to_string(),
        title: "  Big Choice  ".to_string(),
        created_at: Some("2026-03-01T10:00:00Z".to_string()),
        source_text: Some("in".to_string()),
        final_body: Some("out".to_string()),
        tags: Some(vec!["t1".to_string()]),
        date: None,
        notion_page_id: None,
        notion_url: None,
        notion_sync_status: None,
        notion_error: None,
        notion_last_synced_at: None,
        notion_last_edited_time: None,
        notion_last_synced_hash: None,
    };
    let plan = plan_upsert("/h", payload, None);
    assert_eq!(plan.record.record_type, "decision");
    assert_eq!(plan.record.title, "Big Choice");
    assert_eq!(plan.record.notion_sync_status, "SUCCESS");
    assert!(plan.json_path.starts_with("/h/records/decisions/"));
    assert!(plan.json_path.ends_with(".json"));
    assert!(plan.md_path.ends_with(".md"));
    let stem_json = plan.json_path.trim_end_matches(".json");
    let stem_md = plan.md_path.trim_end_matches(".md");
    assert_eq!(stem_json, stem_md);
    assert!(plan.remove_prior.is_none());
    assert!(plan.markdown.contains("**Type:** DECISION"));
}

#[test]
fn upsert_plan_keeps_prior_stem_and_carries_watermarks() {
    let prior_doc = doc("kept", "2026-01-01T00:00:00Z", Some("decision"));
    let mut prior_doc = prior_doc;
    prior_doc.notion_last_synced_hash = Some("H0".to_string());
    let payload = RecordPayload {
        record_type: "decision".to_string(),
        title: "kept".to_string(),
        created_at: None,
        source_text: None,
        final_body: None,
        tags: None,
        date: None,
        notion_page_id: None,
        notion_url: None,
        notion_sync_status: None,
        notion_error: None,
        notion_last_synced_at: None,
        notion_last_edited_time: None,
        notion_last_synced_hash: None,
    };
    let plan = plan_upsert(
        "/h",
        payload,
        Some(PriorRecordFile {
            json_path: "/h/records/decisions/20260101_000000_decision_kept.json".to_string(),
            exists: true,
            doc: Some(prior_doc),
        }),
    );
    assert_eq!(plan.stem, "20260101_000000_decision_kept");
    assert_eq!(
        plan.json_path,
        "/h/records/decisions/20260101_000000_decision_kept.json"
    );
    assert!(plan.remove_prior.is_none());
    assert_eq!(plan.record.notion_last_synced_hash.as_deref(), Some("H0"));
}

#[test]
fn delete_targets_pair_json_with_markdown() {
    let (json, md) = delete_record_targets(" /h/records/other/n.json ");
    assert_eq!(json, "/h/records/other/n.json");
    assert_eq!(md, "/h/records/other/n.md");
    assert_eq!(path_with_ext("/a/b/noext", "md"), "/a/b/noext.md");
}

#[test]
fn inferred_types_follow_directories() {
    assert_eq!(
        infer_record_type_from_path("/h", "/h/records/decisions/x.json").as_deref(),
        Some("decision")
    );
    assert_eq!(
        infer_record_type_from_path("/h", "/h/records/other/x.json").as_deref(),
        Some("note")
    );
    assert_eq!(infer_record_type_from_path("/h", "/elsewhere/x.json"), None);
    let (json, md) = candidate_record_path("/h", "idea", "base", 0);
    assert_eq!(json, "/h/records/ideas/base.json");
    assert_eq!(md, "/h/records/ideas/base.md");
    let (json1, _md1) = candidate_record_path("/h", "idea", "base", 1);
    assert_eq!(json1, "/h/records/ideas/base_1.json");
}

#[test]
fn home_detection_climbs_known_folders() {
    let no_flags: Vec<bool> = vec![false, false, false];
    assert_eq!(
        detect_central_home_path("/h/records/decisions", &no_flags),
        "/h"
    );
    assert_eq!(detect_central_home_path("/h/records", &no_flags), "/h");
    assert_eq!(detect_central_home_path("/h/.agentic/logs", &no_flags), "/h");
    assert_eq!(detect_central_home_path("/h/.agentic", &no_flags), "/h");
    let flags = vec![false, true];
    assert_eq!(detect_central_home_path("/h/sub", &flags), "/h");
    assert_eq!(detect_central_home_path("/lost", &vec![false, false]), "/lost");
    assert!(is_central_home(true, false, false));
    assert!(!is_central_home(false, false, false));
    let resolved = resolve_central_home("/h", "/h", &vec![true]).expect("resolve");
    assert_eq!(resolved.central_home, "/h");
    assert!(!resolved.corrected);
    assert!(resolve_central_home("  ", "/h", &vec![true]).is_err());
    assert_eq!(index_db_path("/h"), "/h/.agentic/kofnote_search.sqlite");
}

#[test]
fn search_paginates_and_filters() {
    let records = vec![
        record("alpha report", "2026-01-03T00:00:00Z"),
        record("beta report", "2026-01-02T00:00:00Z"),
        record("gamma note", "2026-01-01T00:00:00Z"),
    ];
    let all = search_records(&records, None, None, None, None, None, None);
    assert_eq!(all.total, 3);
    assert!(!all.indexed);

    let hits = search_records(
        &records,
        Some("REPORT".to_string()),
        None,
        None,
        None,
        Some(1),
        Some(0),
    );
    assert_eq!(hits.total, 2);
    assert_eq!(hits.records.len(), 1);

    let beyond = search_records(&records, None, None, None, None, Some(1000), Some(50));
    assert_eq!(beyond.total, 3);
    assert!(beyond.records.is_empty());

    let clamped = search_records(&records, None, None, None, None, Some(0), None);
    assert_eq!(clamped.records.len(), 1);

    assert!(search_uses_index("query"));
    assert!(!search_uses_index("   "));

    assert!(matches_record(&records[0], "alpha", None, None, None));
    assert!(!matches_record(&records[0], "alpha", Some("decision"), None, None));
    assert!(!matches_record(&records[0], "", None, Some("2026-01-04"), None));
    assert!(matches_record(&records[0], "", None, Some("2026-01-01"), Some("2026-01-03")));
}

#[test]
fn rebuild_plan_mirrors_records() {
    let records = vec![
        record("one", "2026-01-01T00:00:00Z"),
        record("two", "2026-01-02T00:00:00Z"),
    ];
    let plan = rebuild_search_index(&records);
    assert_eq!(plan.rows.len(), 2);
    assert_eq!(plan.record_count, 2);
    assert_eq!(plan.rows[0].title, "one");
    assert_eq!(plan.rows[0].tags_joined, "a,b");
    assert!(!plan.updated_at.is_empty());
}

#[test]
fn markdown_rendering_carries_metadata() {
    let r = record("My Note", "2026-01-02T03:04:05Z");
    let md = render_markdown(&r);
    assert!(md.contains("# \u{1f4c4} My Note"));
    assert!(md.contains("**Type:** NOTE"));
    assert!(md.contains("**Created:** 2026-01-02T03:04:05Z"));
    assert!(md.contains("**Tags:** a, b"));
    assert!(md.contains("## Original Input"));
    assert!(md.contains("> src"));
}

#[test]
fn text_utilities_behave() {
    assert_eq!(parse_tags(" a , ,b,a "), vec!["a".to_string(), "b".to_string(), "a".to_string()]);
    assert_eq!(option_non_empty("  x ".to_string()).as_deref(), Some("x"));
    assert!(option_non_empty("   ".to_string()).is_none());
    assert!(compare_iso_desc("2026-01-01", "2026-02-01") > 0);
    assert!(compare_iso_desc("2026-02-01", "2026-01-01") < 0);
    assert_eq!(compare_iso_desc("same", "same"), 0);
    assert_eq!(
        dedup_non_empty(vec![" a ".to_string(), "a".to_string(), "".to_string(), "b".to_string()]),
        vec!["a".to_string(), "b".to_string()]
    );
    assert_eq!(summarize_text_line("\n\n  first line  \nsecond", 120), "first line");
    assert_eq!(summarize_text_line("abcdefgh", 5), "abcd");
}

#[test]
fn dates_validate_and_advance() {
    assert!(is_valid_date_str("2026-02-28"));
    assert!(!is_valid_date_str("2026-02-30"));
    assert!(is_valid_date_str("2024-02-29"));
    assert!(!is_valid_date_str("2023-02-29"));
    assert_eq!(extract_day("2026-01-02T03:04:05Z").as_deref(), Some("2026-01-02"));
    assert!(extract_day("short").is_none());
    assert_eq!(
        sanitize_date_filter(Some(" 2026-01-02 ".to_string())).as_deref(),
        Some("2026-01-02")
    );
    assert!(sanitize_date_filter(Some("2026-13-01".to_string())).is_none());
    assert_eq!(ymd_plus_days(2026, 2, 27, 2), (2026, 3, 1));
    assert_eq!(ymd_plus_days(2024, 12, 31, 1), (2025, 1, 1));
}
