use anime_pic_manage::annotations::{
    annotation_records, build_annotation_records, check_annotation_count, label_key, match_embeddings,
    normalize_label_name, validate_annotation_image_path, validate_annotation_input, validate_image_size,
    AnnotationDraft, EmbeddingFacts, RecordFacts, MAX_ANNOTATIONS_PER_IMAGE,
};

fn draft(label: &str) -> AnnotationDraft {
    AnnotationDraft {
        id: None,
        identity_id: None,
        label_name: label.to_string(),
        source: "manual".to_string(),
        manually_adjusted: true,
        bbox_error: None,
    }
}

const UUID_A: &str = "6f1c2b3a-0d4e-4f5a-8b6c-7d8e9f0a1b2c";
const UUID_B: &str = "0a1b2c3d-4e5f-4a6b-9c7d-8e9f0a1b2c3d";

#[test]
fn annotation_records_reuses_identity_for_same_normalized_name_in_one_request() {
    let annotations = vec![draft("  分类甲  "), draft("分类甲")];
    let records = annotation_records(&annotations, &Vec::new()).expect("annotations valid");
    assert_eq!(records.len(), 2);
    assert_eq!(records[0].identity_id, records[1].identity_id);
    assert_ne!(records[0].id, records[1].id);
}

#[test]
fn annotation_records_rejects_more_than_worker_limit() {
    let annotations: Vec<AnnotationDraft> =
        (0..=MAX_ANNOTATIONS_PER_IMAGE).map(|index| draft(&format!("分类{index}"))).collect();
    let error = annotation_records(&annotations, &Vec::new()).expect_err("limit must apply");
    assert!(error.contains("100"));
}

#[test]
fn annotation_records_trim_labels_and_use_stored_identities() {
    let annotations = vec![draft("  Alice "), draft("bob")];
    let stored = vec![("alice".to_string(), UUID_A.to_string())];
    let fresh_ids = vec!["id-1".to_string(), "id-2".to_string()];
    let fresh_identities = vec!["new-1".to_string(), "new-2".to_string()];
    let records = build_annotation_records(&annotations, &stored, &fresh_ids, &fresh_identities).expect("valid");
    assert_eq!(records[0].label_name, "Alice");
    assert_eq!(records[0].identity_id, UUID_A);
    assert_eq!(records[0].id, "id-1");
    assert_eq!(records[1].identity_id, "new-2");
    assert_eq!(records[1].id, "id-2");
    assert_eq!(records[1].source, "manual");
}

#[test]
fn annotation_records_refuse_repeated_ids_and_conflicting_identities() {
    let mut first = draft("甲");
    first.id = Some(UUID_A.to_string());
    let mut second = draft("乙");
    second.id = Some(UUID_A.to_string());
    let error = annotation_records(&vec![first, second], &Vec::new()).expect_err("repeated id");
    assert_eq!(error, format!("annotation id 重复: {UUID_A}"));

    let mut a = draft("Cat");
    a.identity_id = Some(UUID_A.to_string());
    let mut b = draft("cat ");
    b.identity_id = Some(UUID_B.to_string());
    let error = annotation_records(&vec![a, b], &Vec::new()).expect_err("conflict");
    assert_eq!(error, "同一批次中同名分类对应了多个 identity_id: cat");
}

#[test]
fn annotation_records_report_the_first_invalid_box() {
    let mut bad = draft("ok");
    bad.bbox_error = Some("bbox 超出图片范围".to_string());
    assert_eq!(annotation_records(&vec![bad], &Vec::new()).unwrap_err(), "bbox 超出图片范围");
    let mut bad_source = draft("ok");
    bad_source.source = "robot".to_string();
    assert_eq!(annotation_records(&vec![bad_source], &Vec::new()).unwrap_err(), "source 必须是 model 或 manual。");
    let mut bad_id = draft("ok");
    bad_id.id = Some("not-a-uuid".to_string());
    assert_eq!(annotation_records(&vec![bad_id], &Vec::new()).unwrap_err(), "annotation id 必须是 UUID。");
}

#[test]
fn annotation_inputs_are_checked_in_order() {
    assert_eq!(validate_annotation_input("   ", "manual", &None, &None).unwrap_err(), "label_name 必须是 1 到 256 个字符。");
    assert_eq!(validate_annotation_input("a\u{7}b", "manual", &None, &None).unwrap_err(), "label_name 不能包含控制字符。");
    assert!(validate_annotation_input("好", "model", &Some(UUID_A.to_string()), &Some(UUID_B.to_string())).is_ok());
    assert_eq!(
        validate_annotation_input("好", "model", &None, &Some("x".to_string())).unwrap_err(),
        "identity_id 必须是 UUID。"
    );
    assert_eq!(validate_annotation_input(&"a".repeat(257), "model", &None, &None).unwrap_err(), "label_name 必须是 1 到 256 个字符。");
}

#[test]
fn image_paths_and_sizes_are_validated() {
    assert_eq!(validate_annotation_image_path(None).unwrap_err().message, "图片路径必须是绝对路径。");
    let e = validate_annotation_image_path(Some(Err("denied".to_string()))).unwrap_err();
    assert_eq!(e.code, "INVALID_IMAGE_PATH");
    assert_eq!(e.detail.as_deref(), Some("denied"));
    assert_eq!(
        validate_annotation_image_path(Some(Ok(("C:\\a\\dir".to_string(), false)))).unwrap_err().message,
        "指定路径不是普通图片文件。"
    );
    assert_eq!(
        validate_annotation_image_path(Some(Ok(("C:\\a\\b.bmp".to_string(), true)))).unwrap_err().code,
        "UNSUPPORTED_IMAGE_FORMAT"
    );
    assert_eq!(validate_annotation_image_path(Some(Ok(("C:\\a\\b.PNG".to_string(), true)))).unwrap(), "C:\\a\\b.PNG");
    assert!(validate_image_size([1, 100_000]).is_ok());
    assert!(validate_image_size([0, 10]).is_err());
    assert!(validate_image_size([10, 100_001]).is_err());
}

#[test]
fn labels_are_trimmed_and_keyed_in_lower_case() {
    assert_eq!(normalize_label_name("  Miku  "), "Miku");
    assert_eq!(label_key("  Miku  "), "miku");
    assert!(check_annotation_count(100).is_ok());
    assert_eq!(check_annotation_count(101).unwrap_err(), "单张图片最多保存 100 个识别框。");
}

fn record(id: &str, identity: &str, source: &str, adjusted: bool) -> RecordFacts {
    RecordFacts {
        id: id.to_string(),
        identity_id: identity.to_string(),
        label_name: "x".to_string(),
        source: source.to_string(),
        manually_adjusted: adjusted,
    }
}

fn item(id: &str) -> EmbeddingFacts {
    EmbeddingFacts { annotation_id: id.to_string(), dimension: 2048, finite: true }
}

#[test]
fn embeddings_are_matched_back_to_their_boxes() {
    let records = vec![record("a", "ia", "model", false), record("b", "ib", "manual", false)];
    let links = match_embeddings(&records, &vec![item("b"), item("a")]).expect("matched");
    assert_eq!(links[0].identity_id, "ib");
    assert!(links[0].manually_verified);
    assert_eq!(links[1].identity_id, "ia");
    assert!(!links[1].manually_verified);

    assert_eq!(
        match_embeddings(&records, &vec![item("a")]).unwrap_err(),
        "recognition.embedding 返回 1 个向量，预期 2 个"
    );
    assert_eq!(
        match_embeddings(&records, &vec![item("a"), item("a")]).unwrap_err(),
        "recognition.embedding 返回了重复 annotation_id"
    );
    assert_eq!(
        match_embeddings(&records, &vec![item("a"), item("z")]).unwrap_err(),
        "recognition.embedding 返回未知 annotation_id: z"
    );
    let mut short = item("a");
    short.dimension = 10;
    assert_eq!(
        match_embeddings(&records, &vec![short, item("b")]).unwrap_err(),
        "recognition.embedding 必须返回有限的 2048 维向量"
    );
}

#[test]
fn every_uuid_spelling_the_uuid_crate_reads_is_accepted() {
    for id in [
        "67e55044-10b1-426f-9247-bb680e5fe0c8",
        "67E5504410B1426F9247BB680E5FE0C8",
        "{67e55044-10b1-426f-9247-bb680e5fe0c8}",
        "URN:uuid:67e55044-10b1-426f-9247-bb680e5fe0c8",
    ] {
        assert!(validate_annotation_input("a", "manual", &Some(id.to_string()), &None).is_ok(), "{id}");
    }
    for id in [
        "67e55044-10b1-426f-9247-bb680e5fe0c",
        "67e55044_10b1-426f-9247-bb680e5fe0c8",
        "(67e55044-10b1-426f-9247-bb680e5fe0c8)",
        "uri:uuid:67e55044-10b1-426f-9247-bb680e5fe0c8",
        "g7e5504410b1426f9247bb680e5fe0c8",
    ] {
        assert!(validate_annotation_input("a", "manual", &Some(id.to_string()), &None).is_err(), "{id}");
    }
}
