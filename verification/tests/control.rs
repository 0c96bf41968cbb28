use anime_pic_manage::ipc::{core_error, failure, normalize_request_id, success, IPC_VERSION};
use anime_pic_manage::state::{ScanControl, TrainingControl};

#[test]
fn envelope_contains_structured_error_fields() {
    let error = core_error("request-1", "TEST", "测试错误", None, false);
    assert_eq!(error.code, "TEST");
    assert_eq!(error.request_id, "request-1");
    assert!(!error.retryable);
}

#[test]
fn envelopes_carry_payload_or_error() {
    let ok = success("scan.result", "r-1".to_string(), 7u32);
    assert_eq!(ok.version, IPC_VERSION);
    assert_eq!(ok.message_type, "scan.result");
    assert_eq!(ok.payload, Some(7));
    assert!(ok.error.is_none());
    let err = core_error("r-2", "X", "m", Some("d".to_string()), true);
    let bad = failure::<u32>("scan.result", "r-2".to_string(), err);
    assert!(bad.payload.is_none());
    assert_eq!(bad.error.unwrap().detail.as_deref(), Some("d"));
}

#[test]
fn blank_request_ids_are_replaced() {
    assert_eq!(normalize_request_id(Some("abc".to_string())), "abc");
    assert_eq!(normalize_request_id(Some("   ".to_string())).len(), 36);
    assert_eq!(normalize_request_id(None).len(), 36);
}

#[test]
fn scan_control_prevents_concurrent_runs_and_resets_cancel_state() {
    let mut control = ScanControl::new();
    assert!(control.try_start());
    assert!(!control.try_start());
    assert!(!control.is_cancelled());
    assert!(control.request_cancel());
    assert!(control.is_cancelled());
    control.finish();
    assert!(!control.request_cancel());
    assert!(control.try_start());
    assert!(!control.is_cancelled());
    control.finish();
}

#[test]
fn scan_control_pause_resume_and_wait_decisions() {
    let mut control = ScanControl::new();
    assert!(control.try_start());
    control.update_progress(2, 6, "frame.png", "正在识别图片…");
    assert_eq!(control.request_pause().status, "pausing");
    assert_eq!(control.request_pause().status, "paused");
    assert!(control.pause_begins());
    assert!(control.wait_if_paused_with(true).is_none());
    assert_eq!(control.request_resume().status, "resumed");
    assert_eq!(control.request_resume().status, "running");
    let result = control.wait_if_paused_with(true).expect("resume ends the wait");
    assert!(result.was_paused);
    assert!(!result.cancelled);
    let snapshot = control.snapshot();
    assert_eq!(snapshot.current, 2);
    assert_eq!(snapshot.total, 6);
    assert_eq!(snapshot.path, "frame.png");
    control.finish();
    assert_eq!(control.request_pause().status, "idle");
    assert_eq!(control.request_resume().status, "idle");
    assert!(!control.is_cancelled());
}

#[test]
fn scan_control_cancel_ends_a_pause() {
    let mut control = ScanControl::new();
    assert!(control.try_start());
    assert_eq!(control.request_pause().status, "pausing");
    assert!(control.wait_if_paused_with(true).is_none());
    assert!(control.request_cancel());
    let result = control.wait_if_paused_with(true).expect("cancel ends the wait");
    assert!(result.cancelled);
    assert_eq!(control.request_pause().status, "cancelling");
    control.set_directory("D:/images");
    control.update_phase_progress(1, 2, "a.png", "msg", "embedding");
    control.update_progress(2, 2, "b.png", "msg");
    let snapshot = control.snapshot();
    assert_eq!(snapshot.phase, "embedding");
    assert_eq!(snapshot.directory, "D:/images");
    control.finish();
    assert!(!control.is_cancelled());
}

#[test]
fn training_control_rejects_concurrent_runs_and_releases_on_drop() {
    let mut control = TrainingControl::new();
    let guard = control.try_start().expect("first training should start");
    assert!(control.is_running());
    assert!(control.try_start().is_none());
    control.release(guard);
    assert!(!control.is_running());
    let second = control
        .try_start()
        .expect("training should be startable after guard drop");
    assert!(control.is_running());
    control.release(second);
    assert!(!control.is_running());
}

#[test]
fn fresh_request_ids_are_version_4_uuids() {
    let id: Vec<char> = normalize_request_id(Some("   ".to_string())).chars().collect();
    assert_eq!(id.len(), 36);
    for (i, c) in id.iter().enumerate() {
        if [8, 13, 18, 23].contains(&i) {
            assert_eq!(*c, '-');
        } else {
            assert!(c.is_ascii_hexdigit() && !c.is_ascii_uppercase());
        }
    }
    assert_eq!(id[14], '4');
    assert!(['8', '9', 'a', 'b'].contains(&id[19]));
}
