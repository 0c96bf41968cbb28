use anime_pic_manage::library::{
    batch_move_result, clamp_scan_limit, clean_subfolder, collision_parts, display_name_for_path,
    enumeration_error, image_progress, is_supported_preview_image, move_target_dir,
    numbered_file_name, personal_scan_context, plan_image, recognition_request, scan_cancellation,
    scan_completion, scan_error_from_worker, scan_total, total_discovered_from_count, ImageAction,
    ImageStage, MovedFileItem, PersonalContextSource, WorkerFailure, ChosenPath, library_selection,
    preview_file_selection,
};

#[test]
fn scan_limit_defaults_and_clamps_to_safe_preview_range() {
    assert_eq!(clamp_scan_limit(None), None);
    assert_eq!(clamp_scan_limit(Some(0)), None);
    assert_eq!(clamp_scan_limit(Some(12)), Some(12));
    assert_eq!(clamp_scan_limit(Some(999)), Some(999));
}

#[test]
fn total_discovered_prefers_safe_total_count_and_falls_back_to_images() {
    assert_eq!(total_discovered_from_count(Some(123), 12), 123);
    assert_eq!(total_discovered_from_count(None, 12), 12);
    assert_eq!(scan_total(123, Some(40)), 40);
    assert_eq!(scan_total(12, Some(40)), 12);
    assert_eq!(scan_total(12, None), 12);
}

#[test]
fn preview_formats_are_recognized_in_any_case() {
    assert!(is_supported_preview_image(r"D:\images\a.PNG"));
    assert!(is_supported_preview_image("D:/images/b.jpeg"));
    assert!(is_supported_preview_image("c.WebP"));
    assert!(is_supported_preview_image("d.gif"));
    assert!(!is_supported_preview_image("e.bmp"));
    assert!(!is_supported_preview_image("no_extension"));
    assert!(!is_supported_preview_image(".png"));
}

#[test]
fn display_names_are_the_last_component() {
    assert_eq!(display_name_for_path(r"D:\library\cats"), "cats");
    assert_eq!(display_name_for_path("D:/library/cats/"), "cats");
    assert_eq!(display_name_for_path(r"D:\"), "");
}

#[test]
fn worker_refusals_keep_their_code_and_other_failures_are_generic() {
    let refused = scan_error_from_worker(
        "a.png",
        WorkerFailure::Response { code: "BAD_IMAGE".to_string(), message: "broken".to_string() },
    );
    assert_eq!(refused.code, "BAD_IMAGE");
    assert_eq!(refused.message, "broken");
    assert_eq!(refused.detail, None);
    let other = scan_error_from_worker("a.png", WorkerFailure::Other { detail: "timeout".to_string() });
    assert_eq!(other.path, "a.png");
    assert_eq!(other.code, "RECOGNITION_FAILED");
    assert_eq!(other.detail.as_deref(), Some("timeout"));
}

#[test]
fn enumeration_errors_fill_in_missing_fields() {
    let e = enumeration_error(None, None);
    assert_eq!(e.path, "");
    assert_eq!(e.message, "无法读取图片");
    assert_eq!(e.code, "ENUMERATE_IMAGE_FAILED");
    let e = enumeration_error(Some("x.png".to_string()), Some("locked".to_string()));
    assert_eq!(e.path, "x.png");
    assert_eq!(e.message, "locked");
}

#[test]
fn personal_context_follows_version_then_active_then_live_prototypes() {
    let (source, name) = personal_scan_context(Some(0), true, true);
    assert_eq!(source, PersonalContextSource::BaseOnly);
    assert_eq!(name, "基础通用模型");
    let (source, name) = personal_scan_context(Some(3), true, true);
    assert_eq!(source, PersonalContextSource::Version(3));
    assert_eq!(name, "个人模型 v3");
    let (source, name) = personal_scan_context(Some(3), false, true);
    assert_eq!(source, PersonalContextSource::Active);
    assert_eq!(name, "个人模型 (已激活)");
    let (source, name) = personal_scan_context(None, false, false);
    assert_eq!(source, PersonalContextSource::LivePrototypes);
    assert_eq!(name, "基础模型 (包含学习样本)");
}

#[test]
fn recognition_requests_trim_the_recognizer_preference() {
    let request = recognition_request("a.png".to_string(), "  camie  ", None, PersonalContextSource::Active);
    assert_eq!(request.top_k, 5);
    assert_eq!(request.recognizer.as_deref(), Some("camie"));
    let request = recognition_request("a.png".to_string(), "   ", Some("lib.json".to_string()), PersonalContextSource::Active);
    assert_eq!(request.recognizer, None);
    assert_eq!(request.reference_library_path.as_deref(), Some("lib.json"));
}

#[test]
fn each_record_is_skipped_recognized_or_rejected() {
    assert_eq!(plan_image(false, true, true), ImageAction::InvalidRecord);
    assert_eq!(plan_image(true, true, true), ImageAction::SkipAnnotated);
    assert_eq!(plan_image(true, false, true), ImageAction::Recognize);
    assert_eq!(plan_image(true, true, false), ImageAction::Recognize);
}

#[test]
fn progress_events_name_the_stage() {
    let p = image_progress(ImageStage::Recognized, 2, 5, "a.png");
    assert_eq!(p.phase, "completed");
    assert_eq!(p.message, "图片识别完成。");
    assert_eq!(p.path, "a.png");
    let p = image_progress(ImageStage::InvalidRecord, 2, 5, "a.png");
    assert_eq!(p.phase, "error");
    assert_eq!(p.path, "");
    let p = image_progress(ImageStage::SkippedAnnotated { loaded: true }, 1, 5, "b.png");
    assert_eq!(p.message, "已跳过已标注图片（已直接载入人工标注）。");
}

#[test]
fn a_scan_counts_as_cancelled_only_when_it_stopped_early() {
    let (cancelled, p) = scan_completion(true, 3, 5, "D:/lib");
    assert!(cancelled);
    assert_eq!(p.phase, "cancelled");
    let (cancelled, p) = scan_completion(true, 5, 5, "D:/lib");
    assert!(!cancelled);
    assert_eq!(p.phase, "complete");
    assert_eq!(p.current, 5);
    let c = scan_cancellation(false);
    assert!(c.requested);
    assert!(!c.running);
    assert_eq!(c.message, "当前没有正在运行的扫描任务。");
}

#[test]
fn category_folders_are_cleaned_before_moving() {
    assert_eq!(clean_subfolder(" a/b:c* "), "abc");
    assert_eq!(move_target_dir(r"D:\sorted", Some(" 猫<> ".to_string())), r"D:\sorted\猫");
    assert_eq!(move_target_dir(r"D:\sorted", Some("/:*".to_string())), r"D:\sorted");
    assert_eq!(move_target_dir(r"D:\sorted", Some("   ".to_string())), r"D:\sorted");
    assert_eq!(move_target_dir(r"D:\sorted", None), r"D:\sorted");
}

#[test]
fn name_collisions_get_numbered_copies() {
    assert_eq!(numbered_file_name("cat", 2, "png"), "cat_2.png");
    assert_eq!(numbered_file_name("README", 1, ""), "README_1");
    assert_eq!(collision_parts(r"D:\a\cat.png"), ("cat".to_string(), "png".to_string()));
    assert_eq!(collision_parts(r"D:\a\Makefile"), ("Makefile".to_string(), String::new()));
}

#[test]
fn batch_move_counts_follow_the_lists() {
    let moved = vec![MovedFileItem { source: "a".to_string(), destination: "b".to_string() }];
    let result = batch_move_result(moved, Vec::new());
    assert_eq!(result.success_count, 1);
    assert_eq!(result.failed_count, 0);
}

fn chosen(accepted: bool, canonical: Option<Result<(&str, bool), &str>>, scope: Option<Result<(), &str>>) -> ChosenPath {
    ChosenPath {
        accepted,
        canonical: canonical.map(|c| c.map(|(p, k)| (p.to_string(), k)).map_err(str::to_string)),
        scope: scope.map(|s| s.map_err(str::to_string)),
    }
}

#[test]
fn library_folders_must_be_existing_absolute_folders() {
    let refused = library_selection("r1".to_string(), chosen(false, None, None));
    let error = refused.error.expect("refused");
    assert_eq!(error.code, "INVALID_LIBRARY_DIRECTORY");
    assert_eq!(error.detail.as_deref(), Some("path must be an absolute directory"));
    let unreadable = library_selection("r1".to_string(), chosen(true, Some(Err("denied")), None));
    assert_eq!(unreadable.error.unwrap().message, "无法访问选择的图片文件夹。");
    let scoped = library_selection("r1".to_string(), chosen(true, Some(Ok(("D:\\pics", true))), Some(Err("scope"))));
    let error = scoped.error.unwrap();
    assert_eq!(error.code, "ASSET_SCOPE_FAILED");
    assert!(error.retryable);
    let ok = library_selection("r1".to_string(), chosen(true, Some(Ok(("D:\\pics\\anime", true))), Some(Ok(()))));
    let selection = ok.payload.expect("selected");
    assert_eq!(selection.path, "D:\\pics\\anime");
    assert_eq!(selection.display_name, "anime");
    assert_eq!(ok.message_type, "library.select");
}

#[test]
fn preview_files_must_be_supported_images() {
    let refused = preview_file_selection("r2".to_string(), chosen(false, None, None));
    assert_eq!(refused.error.unwrap().message, "预览文件路径必须是绝对路径。");
    let folder = preview_file_selection("r2".to_string(), chosen(true, Some(Ok(("D:\\pics", false))), None));
    assert_eq!(folder.error.unwrap().message, "请选择一个普通图片文件。");
    let bmp = preview_file_selection("r2".to_string(), chosen(true, Some(Ok(("D:\\a.bmp", true))), None));
    assert_eq!(bmp.error.unwrap().code, "UNSUPPORTED_PREVIEW_FORMAT");
    let ok = preview_file_selection("r2".to_string(), chosen(true, Some(Ok(("D:\\a.WebP", true))), Some(Ok(()))));
    assert_eq!(ok.payload.unwrap().display_name, "a.WebP");
}
