use anime_pic_manage::database::TrainingReadiness;
use anime_pic_manage::library::WorkerFailure;
use anime_pic_manage::personal_model::{
    check_trained_model, class_count, merge_plan, LivePrototypeFacts, PrototypeSource, model_version_label, readiness_detail, training_database_error,
    training_failure_error, training_target, validate_training_artifact, ArtifactFacts, PrototypeFacts,
    TrainedModelFacts, TrainingRefusal,
};

fn prototype(identity: &str) -> PrototypeFacts {
    PrototypeFacts {
        is_object: true,
        identity_id: Some(identity.to_string()),
        display_name_is_text: true,
        embedding_len: Some(2048),
        embedding_finite: true,
        sample_count: Some(3),
    }
}

fn artifact(ps: Vec<PrototypeFacts>) -> ArtifactFacts {
    ArtifactFacts { is_object: true, prototypes: Some(ps) }
}

fn readiness(samples: usize, classes: usize, ready: bool) -> TrainingReadiness {
    TrainingReadiness {
        verified_sample_count: samples,
        verified_class_count: classes,
        eligible_class_count: classes,
        ready,
        reasons: vec![],
        class_progress: vec![],
    }
}

fn answer() -> TrainedModelFacts {
    TrainedModelFacts {
        artifact: Some(artifact(vec![prototype("a"), prototype("b")])),
        metrics_present: true,
        metrics_is_object: true,
        sample_count: Some(6),
        class_count: Some(2),
        algorithm: Some("prototype".to_string()),
        eligible_for_activation: Some(true),
        warnings: None,
    }
}

#[test]
fn training_targets_protect_the_base_model() {
    assert_eq!(training_target(Some(1), true, 5), Err(TrainingRefusal::ProtectedBaseModel));
    assert_eq!(training_target(Some(3), false, 5), Err(TrainingRefusal::VersionNotFound));
    assert_eq!(training_target(Some(3), true, 5), Ok((3, true)));
    assert_eq!(training_target(None, false, 5), Ok((5, false)));
}

#[test]
fn labels_details_and_class_counts() {
    assert_eq!(model_version_label(7), "personal-v7");
    assert_eq!(model_version_label(-2), "personal-v-2");
    assert_eq!(readiness_detail(&vec!["样本不足".to_string(), "分类不足".to_string()]), "样本不足；分类不足");
    assert_eq!(readiness_detail(&vec![]), "");
    assert_eq!(class_count(vec!["b".to_string(), "a".to_string(), "b".to_string()]), 2);
    assert_eq!(class_count(vec![]), 0);
}

#[test]
fn training_errors_keep_worker_codes() {
    let e = training_failure_error("r1", WorkerFailure::Response { code: "NOT_READY".to_string(), message: "m".to_string() });
    assert_eq!(e.code, "NOT_READY");
    assert!(!e.retryable);
    let e = training_failure_error("r1", WorkerFailure::Other { detail: "boom".to_string() });
    assert_eq!(e.code, "PERSONAL_TRAINING_FAILED");
    assert_eq!(e.detail.as_deref(), Some("boom"));
    assert!(e.retryable);
    let e = training_database_error("r2", "DB", "读失败", "locked".to_string());
    assert_eq!(e.request_id, "r2");
    assert!(e.retryable);
}

#[test]
fn artifacts_are_checked_prototype_by_prototype() {
    assert!(validate_training_artifact(&artifact(vec![prototype("a"), prototype("b")])).is_ok());
    assert_eq!(
        validate_training_artifact(&ArtifactFacts { is_object: false, prototypes: None }).unwrap_err(),
        "artifact 必须是 JSON 对象"
    );
    assert_eq!(validate_training_artifact(&artifact(vec![])).unwrap_err(), "artifact.prototypes 不能为空");
    assert_eq!(
        validate_training_artifact(&artifact(vec![prototype("a"), prototype("a")])).unwrap_err(),
        "artifact.prototypes 包含重复 identity_id: a"
    );
    let mut short = prototype("c");
    short.embedding_len = Some(12);
    assert_eq!(
        validate_training_artifact(&artifact(vec![prototype("a"), short])).unwrap_err(),
        "artifact.prototypes[1].embedding 必须是有限的 2048 维向量"
    );
    let mut empty = prototype("d");
    empty.sample_count = Some(0);
    assert_eq!(
        validate_training_artifact(&artifact(vec![empty])).unwrap_err(),
        "artifact.prototypes[0].sample_count 必须大于 0"
    );
}

#[test]
fn trained_models_must_agree_with_local_readiness() {
    assert!(check_trained_model(&answer(), &readiness(6, 2, true)).is_ok());
    assert_eq!(
        check_trained_model(&answer(), &readiness(5, 2, true)).unwrap_err(),
        "Worker 返回 sample_count=6，当前已验证样本为 5"
    );
    assert_eq!(
        check_trained_model(&answer(), &readiness(6, 3, true)).unwrap_err(),
        "Worker 返回 class_count=2，当前已验证分类为 3"
    );
    assert_eq!(
        check_trained_model(&answer(), &readiness(6, 2, false)).unwrap_err(),
        "Worker 在本地 readiness 未达标时返回可激活模型"
    );
    let mut blank = answer();
    blank.algorithm = Some("  ".to_string());
    assert_eq!(check_trained_model(&blank, &readiness(6, 2, true)).unwrap_err(), "personal_model.train 缺少非空 algorithm");
    let mut warned = answer();
    warned.warnings = Some(Some(vec![Some("ok".to_string()), None]));
    assert_eq!(check_trained_model(&warned, &readiness(6, 2, true)).unwrap_err(), "warnings[1] 必须是非空字符串");
    let mut none = answer();
    none.artifact = None;
    assert_eq!(check_trained_model(&none, &readiness(6, 2, true)).unwrap_err(), "personal_model.train 缺少 artifact");
}

fn live(identity: &str, name: &str, count: u64) -> LivePrototypeFacts {
    LivePrototypeFacts {
        identity_id: identity.to_string(),
        display_name: name.to_string(),
        embedding_ok: true,
        sample_count: count,
    }
}

#[test]
fn merging_live_prototypes_overrides_and_appends_without_changing_calibration() {
    let artifact = artifact(vec![prototype("identity-a")]);
    let live = vec![live("identity-a", "新名称", 5), live("identity-b", "新增身份", 1)];
    let plan = merge_plan(&artifact, &live).expect("merge applies");
    assert_eq!(plan.existing, vec![PrototypeSource::Live(0)]);
    assert_eq!(plan.appended, vec![1]);
}

#[test]
fn appended_prototypes_follow_in_identity_order() {
    let artifact = artifact(vec![prototype("m"), prototype("b")]);
    let live = vec![live("z", "Z", 1), live("b", "B", 2), live("c", "C", 3), live("a", "A", 4)];
    let plan = merge_plan(&artifact, &live).expect("merge applies");
    assert_eq!(plan.existing, vec![PrototypeSource::Kept, PrototypeSource::Live(1)]);
    assert_eq!(plan.appended, vec![3, 2, 0]);
}

#[test]
fn invalid_artifact_or_live_prototype_is_left_untouched() {
    let invalid_artifact = ArtifactFacts { is_object: true, prototypes: Some(vec![]) };
    assert!(merge_plan(&invalid_artifact, &vec![live("identity-a", "新名称", 1)]).is_none());

    let valid = artifact(vec![prototype("identity-a")]);
    assert!(merge_plan(&valid, &vec![live("identity-a", "", 1)]).is_none());
    assert!(merge_plan(&valid, &vec![]).is_none());
    assert!(merge_plan(&valid, &vec![live("x", "X", 1), live("x", "Y", 2)]).is_none());
    let mut broken = live("y", "Y", 1);
    broken.embedding_ok = false;
    assert!(merge_plan(&valid, &vec![broken]).is_none());
}
