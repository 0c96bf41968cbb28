use anime_pic_manage::database::{
    readiness_from_rows, revision_conflict, revision_conflict_error, trained_model_save_decision,
    training_settings_from_row, version_deletion_refusal, valid_personal_model_artifact, ClassCountRow, SchemaVersion,
    StoredArtifactFacts, version_record, personal_training_status, VersionRow,
};
use anime_pic_manage::personal_model::PrototypeFacts;

fn prototype(identity: &str) -> PrototypeFacts {
    PrototypeFacts {
        is_object: true,
        identity_id: Some(identity.to_string()),
        display_name_is_text: true,
        embedding_len: Some(2048),
        embedding_finite: true,
        sample_count: Some(4),
    }
}

fn stored(prototypes: Vec<PrototypeFacts>) -> StoredArtifactFacts {
    StoredArtifactFacts {
        is_object: true,
        schema_version: SchemaVersion::Text("1.0".to_string()),
        algorithm: Some("normalized_centroid_v1".to_string()),
        version: Some("personal-3".to_string()),
        thresholds_in_range: true,
        prototypes: Some(prototypes),
    }
}

#[test]
fn stored_artifact_with_distinct_prototypes_is_valid() {
    assert!(valid_personal_model_artifact(&stored(vec![prototype("a"), prototype("b")])));
}

#[test]
fn stored_artifact_schema_versions() {
    let mut a = stored(vec![prototype("a")]);
    a.schema_version = SchemaVersion::Text("1".to_string());
    assert!(valid_personal_model_artifact(&a));
    a.schema_version = SchemaVersion::Number(Some(1));
    assert!(valid_personal_model_artifact(&a));
    a.schema_version = SchemaVersion::Number(Some(2));
    assert!(!valid_personal_model_artifact(&a));
    a.schema_version = SchemaVersion::Text("2.0".to_string());
    assert!(!valid_personal_model_artifact(&a));
    a.schema_version = SchemaVersion::Other;
    assert!(!valid_personal_model_artifact(&a));
}

#[test]
fn stored_artifact_needs_algorithm_version_and_thresholds() {
    let mut a = stored(vec![prototype("a")]);
    a.algorithm = Some("centroid_v2".to_string());
    assert!(!valid_personal_model_artifact(&a));
    let mut b = stored(vec![prototype("a")]);
    b.version = Some(String::new());
    assert!(!valid_personal_model_artifact(&b));
    let mut c = stored(vec![prototype("a")]);
    c.thresholds_in_range = false;
    assert!(!valid_personal_model_artifact(&c));
    let mut d = stored(vec![prototype("a")]);
    d.is_object = false;
    assert!(!valid_personal_model_artifact(&d));
}

#[test]
fn stored_artifact_rejects_bad_prototypes() {
    assert!(!valid_personal_model_artifact(&stored(vec![])));
    let mut none = stored(vec![]);
    none.prototypes = None;
    assert!(!valid_personal_model_artifact(&none));
    assert!(!valid_personal_model_artifact(&stored(vec![prototype("a"), prototype("a")])));
    assert!(!valid_personal_model_artifact(&stored(vec![prototype("  ")])));
    let mut short = prototype("a");
    short.embedding_len = Some(512);
    assert!(!valid_personal_model_artifact(&stored(vec![short])));
    let mut empty = prototype("a");
    empty.sample_count = Some(0);
    assert!(!valid_personal_model_artifact(&stored(vec![empty])));
    let mut unnamed = prototype("a");
    unnamed.display_name_is_text = false;
    assert!(!valid_personal_model_artifact(&stored(vec![unnamed])));
}

#[test]
fn training_settings_are_raised_to_at_least_one() {
    let s = training_settings_from_row(0, -4, 1);
    assert_eq!(s.min_total_samples, 1);
    assert_eq!(s.min_samples_per_class, 1);
    assert!(s.auto_activate);
    let s = training_settings_from_row(12, 5, 0);
    assert_eq!(s.min_total_samples, 12);
    assert_eq!(s.min_samples_per_class, 5);
    assert!(!s.auto_activate);
}

fn row(id: &str, count: i64) -> ClassCountRow {
    ClassCountRow { identity_id: id.to_string(), display_name: format!("name-{id}"), count }
}

#[test]
fn readiness_needs_samples_classes_and_eligible_classes() {
    let settings = training_settings_from_row(3, 3, 1);
    let ready = readiness_from_rows(&vec![row("a", 3), row("b", 4)], &settings);
    assert!(ready.ready);
    assert!(ready.reasons.is_empty());
    assert_eq!(ready.verified_sample_count, 7);
    assert_eq!(ready.verified_class_count, 2);
    assert_eq!(ready.eligible_class_count, 2);
    assert_eq!(ready.class_progress[1].display_name, "name-b");
    assert!(ready.class_progress[1].eligible);

    let short = readiness_from_rows(&vec![row("a", 2)], &settings);
    assert!(!short.ready);
    assert_eq!(
        short.reasons,
        vec![
            "至少需要 3 个已验证样本，当前为 2 个".to_string(),
            "至少需要 2 个分类，当前为 1 个".to_string(),
            "每个分类至少需要 3 个样本，当前 0/1 个分类达标".to_string(),
        ]
    );
    let empty = readiness_from_rows(&Vec::new(), &settings);
    assert_eq!(
        empty.reasons,
        vec!["至少需要 3 个已验证样本，当前为 0 个".to_string(), "尚未有可用于训练的分类".to_string()]
    );
}

#[test]
fn stale_or_negative_base_revisions_conflict() {
    assert_eq!(revision_conflict(None, 4), None);
    assert_eq!(revision_conflict(Some(4), 4), None);
    assert_eq!(revision_conflict(Some(3), 4), Some(4));
    assert_eq!(revision_conflict(Some(-1), -1), Some(-1));
    assert_eq!(revision_conflict(Some(0), 0), None);
    let e = revision_conflict_error("r", 7);
    assert_eq!(e.code, "ANNOTATION_REVISION_CONFLICT");
    assert_eq!(e.detail.as_deref(), Some("current_revision=7"));
    assert!(e.retryable);
}

#[test]
fn trained_models_are_saved_only_under_their_own_version() {
    let v = Some("personal-v3".to_string());
    let a = Some("normalized_centroid_v1".to_string());
    let algo = "normalized_centroid_v1";
    assert_eq!(trained_model_save_decision(true, &v, &a, algo, 3, false, false, 3, true, true), Some(true));
    assert_eq!(trained_model_save_decision(true, &v, &a, algo, 3, false, false, 3, true, false), Some(false));
    assert_eq!(trained_model_save_decision(true, &v, &a, algo, 3, false, false, 3, false, true), Some(false));
    assert_eq!(trained_model_save_decision(true, &v, &a, algo, 3, false, false, 4, true, true), None);
    assert_eq!(trained_model_save_decision(false, &v, &a, algo, 3, false, false, 3, true, true), None);
    assert_eq!(trained_model_save_decision(true, &v, &a, algo, 4, false, false, 3, true, true), None);
    assert_eq!(trained_model_save_decision(true, &v, &Some("other".to_string()), algo, 3, false, false, 3, true, true), None);
    assert_eq!(trained_model_save_decision(true, &v, &a, algo, 3, true, true, 3, false, true), Some(false));
    assert_eq!(trained_model_save_decision(true, &v, &a, algo, 3, true, false, 3, false, true), None);
    let v1 = Some("personal-v1".to_string());
    assert_eq!(trained_model_save_decision(true, &v1, &a, algo, 1, true, true, 3, false, true), None);
}

#[test]
fn active_and_missing_versions_are_not_deleted() {
    assert_eq!(version_deletion_refusal("r", true, 0).expect("refused").code, "CANNOT_DELETE_ACTIVE_MODEL");
    assert_eq!(version_deletion_refusal("r", false, 0).expect("missing").code, "PERSONAL_MODEL_VERSION_NOT_FOUND");
    assert!(version_deletion_refusal("r", false, 1).is_none());
}

fn version_row(sample_count: i64, metrics: &str, warnings: &str, artifact: Option<&str>) -> VersionRow {
    VersionRow {
        id: "v2-id".to_string(),
        version: 2,
        status: "draft".to_string(),
        sample_count,
        class_count: -1,
        algorithm: "normalized_centroid_v1".to_string(),
        artifact_json: artifact.map(str::to_string),
        metrics_json: metrics.to_string(),
        warnings_json: warnings.to_string(),
        eligible_for_activation: 2,
        error_code: None,
        error_message: Some("e".to_string()),
        created_at: "c".to_string(),
        updated_at: "u".to_string(),
        activated_at: None,
    }
}

#[test]
fn version_rows_fall_back_to_safe_values() {
    let good = version_record(version_row(7, "{\"accuracy\": 0.9}", "[\"few samples\"]", Some("{\"version\": \"personal-v2\"}")));
    assert_eq!(good.sample_count, 7);
    assert_eq!(good.class_count, 0);
    assert_eq!(good.metrics_json, "{\"accuracy\": 0.9}");
    assert_eq!(good.warnings, vec!["few samples".to_string()]);
    assert!(good.artifact_json.is_some());
    assert!(good.eligible_for_activation);
    assert_eq!(good.error_message.as_deref(), Some("e"));
    let bad = version_record(version_row(-3, "not json", "[1, 2]", Some("{")));
    assert_eq!(bad.sample_count, 0);
    assert_eq!(bad.metrics_json, "{}");
    assert!(bad.warnings.is_empty());
    assert!(bad.artifact_json.is_none());
}

#[test]
fn training_status_reads_every_version_row() {
    let settings = training_settings_from_row(3, 3, 1);
    let readiness = readiness_from_rows(&Vec::new(), &settings);
    let status = personal_training_status(
        "idle".to_string(),
        "ok".to_string(),
        None,
        "t".to_string(),
        readiness,
        settings,
        Some(2),
        vec![version_row(1, "{}", "[]", None), version_row(2, "x", "[]", None)],
    );
    assert_eq!(status.versions.len(), 2);
    assert_eq!(status.versions[1].metrics_json, "{}");
    assert_eq!(status.active_version, Some(2));
}
