use anime_pic_manage::similarity::{
    apply_decisions_to_similarity_result, cache_hit, feature_cache_is_current,
    plan_similarity_decision, prune_similarity_groups, remove_processed_items_from_groups,
    resolve_archive_directory, similarity_cancel_response, similarity_progress, similarity_totals,
    DecisionFailure, DecisionPlan, SimilarityDecisionRequest, SimilarityDecisionResult,
    SimilarityGroup, SimilarityGroupItem, SimilarityItemDecision, SimilarityProcessedItem,
    SimilarityScanPayload, SimilarityStage,
};
use anime_pic_manage::database::SIMILARITY_FEATURE_VERSION;

fn item(path: &str, size: i64, decision: Option<&str>) -> SimilarityGroupItem {
    SimilarityGroupItem {
        path: path.to_string(),
        file_size: size,
        dimensions: [1, 1],
        format: "png".to_string(),
        clarity_score_bits: 1.0f64.to_bits(),
        is_recommended: false,
        recommend_reason: None,
        decision: decision.map(str::to_string),
    }
}

fn group(id: &str, items: Vec<SimilarityGroupItem>) -> SimilarityGroup {
    SimilarityGroup {
        group_id: id.to_string(),
        group_type: "similar".to_string(),
        average_similarity_bits: 0.9f64.to_bits(),
        items,
    }
}

fn processed(path: &str, action: &str) -> SimilarityProcessedItem {
    SimilarityProcessedItem { path: path.to_string(), action: action.to_string(), destination: None }
}

#[test]
fn archive_subdirectory_is_joined_by_the_native_path_api() {
    let request = SimilarityDecisionRequest {
        archive_directory: None,
        archive_directory_name: Some("_duplicates".to_string()),
        result_directory: Some("library".to_string()),
        decisions: Vec::new(),
    };
    assert_eq!(resolve_archive_directory(&request), Some(r"library\_duplicates".to_string()));
}

#[test]
fn archive_subdirectory_preserves_windows_verbatim_paths() {
    let library = r"\\?\G:\P\涩图\画师\A\_ImagesTool";
    let request = SimilarityDecisionRequest {
        archive_directory: None,
        archive_directory_name: Some("_duplicates".to_string()),
        result_directory: Some(library.to_string()),
        decisions: Vec::new(),
    };
    let resolved = resolve_archive_directory(&request).unwrap();
    assert_eq!(resolved, r"\\?\G:\P\涩图\画师\A\_ImagesTool\_duplicates");
}

#[test]
fn archive_directory_falls_back_to_the_first_decided_file() {
    let request = SimilarityDecisionRequest {
        archive_directory: Some("   ".to_string()),
        archive_directory_name: Some("  ".to_string()),
        result_directory: None,
        decisions: vec![SimilarityItemDecision { path: r"D:\pics\a.png".to_string(), action: "archive".to_string() }],
    };
    assert_eq!(resolve_archive_directory(&request), Some(r"D:\pics\_duplicates".to_string()));
    let explicit = SimilarityDecisionRequest {
        archive_directory: Some(r"E:\keep".to_string()),
        archive_directory_name: None,
        result_directory: None,
        decisions: Vec::new(),
    };
    assert_eq!(resolve_archive_directory(&explicit), Some(r"E:\keep".to_string()));
    let nothing = SimilarityDecisionRequest {
        archive_directory: None,
        archive_directory_name: None,
        result_directory: None,
        decisions: Vec::new(),
    };
    assert_eq!(resolve_archive_directory(&nothing), None);
}

#[test]
fn stale_animation_feature_cache_is_refreshed_once() {
    let legacy = SIMILARITY_FEATURE_VERSION - 1;
    assert!(!feature_cache_is_current(legacy, "D:/images/a.gif"));
    assert!(!feature_cache_is_current(legacy, "D:/images/a.webp"));
    assert!(feature_cache_is_current(legacy, "D:/images/a.png"));
    assert!(feature_cache_is_current(SIMILARITY_FEATURE_VERSION, "D:/images/a.gif"));
    assert!(cache_hit(10, 10, SIMILARITY_FEATURE_VERSION, "a.gif"));
    assert!(!cache_hit(10, 11, SIMILARITY_FEATURE_VERSION, "a.gif"));
    assert!(!cache_hit(0, 0, SIMILARITY_FEATURE_VERSION, "a.gif"));
}

#[test]
fn governance_prunes_processed_files_and_small_groups() {
    let mut groups = vec![group(
        "group-1",
        vec![item("keep.png", 1, Some("keep")), item("archive-me.png", 1, None), item("delete-me.png", 1, None)],
    )];
    let done = vec![processed("archive-me.png", "archive"), processed("delete-me.png", "delete")];
    remove_processed_items_from_groups(&mut groups, &done);
    assert!(groups.is_empty(), "groups with fewer than two items are removed");
}

#[test]
fn without_removals_the_groups_stay_as_they_are() {
    let mut groups = vec![group("g", vec![item("only.png", 1, None)])];
    remove_processed_items_from_groups(&mut groups, &[processed("only.png", "keep")]);
    assert_eq!(groups.len(), 1);
    assert_eq!(groups[0].items.len(), 1);
}

#[test]
fn similarity_keep_decisions_are_recorded_in_the_result() {
    let payload = SimilarityScanPayload {
        directory: "lib".to_string(),
        total_scanned: 2,
        groups: vec![group("group-1", vec![item("keep.png", 10, None), item("other.png", 10, None)])],
        duplicates_count: 1,
        potential_space_saved: 10,
        cancelled: false,
        completed_at: Some("2026-09-19T00:00:00.000Z".to_string()),
    };
    let decisions = vec![
        SimilarityItemDecision { path: "keep.png".to_string(), action: "keep".to_string() },
        SimilarityItemDecision { path: "other.png".to_string(), action: "delete".to_string() },
    ];
    let updated = apply_decisions_to_similarity_result(payload, &decisions, &[]).unwrap();
    assert_eq!(updated.groups[0].items[0].decision.as_deref(), Some("keep"));
    assert_eq!(updated.groups[0].items[1].decision.as_deref(), Some("delete"));
    assert_eq!(updated.duplicates_count, 1);
    assert_eq!(updated.potential_space_saved, 10);
    assert_eq!(updated.completed_at.as_deref(), Some("2026-09-19T00:00:00.000Z"));
}

#[test]
fn the_last_decision_for_a_path_wins_and_removed_files_leave() {
    let groups = vec![group(
        "g",
        vec![item("a.png", 5, None), item("b.png", 7, None), item("c.png", -3, None)],
    )];
    let decisions = vec![
        SimilarityItemDecision { path: "b.png".to_string(), action: "keep".to_string() },
        SimilarityItemDecision { path: "b.png".to_string(), action: "delete".to_string() },
        SimilarityItemDecision { path: "c.png".to_string(), action: "delete".to_string() },
    ];
    let pruned = prune_similarity_groups(&groups, &decisions, &[processed("a.png", "archive")]);
    assert_eq!(pruned.len(), 1);
    assert_eq!(pruned[0].items.len(), 2);
    assert_eq!(pruned[0].items[0].path, "b.png");
    assert_eq!(pruned[0].items[0].decision.as_deref(), Some("delete"));
    assert_eq!(pruned[0].average_similarity_bits, 0.9f64.to_bits());
    assert_eq!(similarity_totals(&pruned), Some((1, 7)));
}

#[test]
fn decisions_are_planned_by_action_and_file_state() {
    assert_eq!(plan_similarity_decision("keep", false, false), DecisionPlan::Keep);
    assert_eq!(plan_similarity_decision("archive", false, true), DecisionPlan::Missing);
    assert_eq!(plan_similarity_decision("archive", true, false), DecisionPlan::NoArchiveDirectory);
    assert_eq!(plan_similarity_decision("archive", true, true), DecisionPlan::Archive);
    assert_eq!(plan_similarity_decision("delete", true, false), DecisionPlan::Delete);
    assert_eq!(plan_similarity_decision("rename", true, true), DecisionPlan::Unsupported);
}

#[test]
fn decision_results_count_successes_failures_and_freed_bytes() {
    let mut result = SimilarityDecisionResult::new();
    result.record_done("a.png".to_string(), "delete", None, 6);
    result.record_done("b.png".to_string(), "keep", None, 0);
    result.record_failure("c.png".to_string(), &DecisionFailure::Unsupported("rename".to_string()));
    assert_eq!(result.success_count, 2);
    assert_eq!(result.failed_count, 1);
    assert_eq!(result.freed_bytes, 6);
    assert_eq!(result.errors[0].error, "不支持的治理动作: rename");
    assert_eq!(result.processed[0].action, "delete");
}

#[test]
fn scan_progress_messages_report_counts() {
    let p = similarity_progress(SimilarityStage::ExtractionPlanned { cached: 3, uncached: 7, total: 10 }, None, None);
    assert_eq!(p.phase, "extracting");
    assert_eq!(p.current, 3);
    assert_eq!(p.message, "已命中缓存 3 张，正在提取剩余 7 张图片的视觉特征...");
    let p = similarity_progress(SimilarityStage::Extracting { done: 30, batch: 30, total: 70 }, Some("x.png".to_string()), None);
    assert_eq!(p.message, "正在提取特征 (60/70)...");
    let p = similarity_progress(SimilarityStage::Completed { scanned: 70, groups: 4, duplicates: 9 }, None, Some("lib".to_string()));
    assert_eq!(p.message, "扫描完成！发现 4 个相似分组，共 9 张重复/变体图片。");
    let r = similarity_cancel_response(true);
    assert_eq!(r.status, "cancelling");
}
