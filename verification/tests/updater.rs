use anime_pic_manage::updater::{
    cancelled_update_info, check_info, download_progress, install_decision, install_progress, InstallDecision,
    InstallStage, UpdateCheck,
};

#[test]
fn checks_report_each_outcome() {
    let info = check_info("1.0.0".to_string(), UpdateCheck::UpToDate);
    assert_eq!(info.status, "up_to_date");
    assert_eq!(info.current_version, "1.0.0");
    let info = check_info(
        "1.0.0".to_string(),
        UpdateCheck::Available { version: "1.1.0".to_string(), date: Some("2026-01-01".to_string()), body: None },
    );
    assert_eq!(info.status, "available");
    assert_eq!(info.version.as_deref(), Some("1.1.0"));
    assert_eq!(info.date.as_deref(), Some("2026-01-01"));
    let info = check_info("1.0.0".to_string(), UpdateCheck::Unconfigured("no pubkey".to_string()));
    assert_eq!(info.status, "unconfigured");
    assert_eq!(info.message, "更新服务尚未配置，暂不能检查更新：no pubkey");
    let info = check_info("1.0.0".to_string(), UpdateCheck::Unavailable("offline".to_string()));
    assert_eq!(info.status, "unavailable");
}

#[test]
fn installs_proceed_only_for_the_accepted_version() {
    let available = || UpdateCheck::Available { version: "1.1.0".to_string(), date: None, body: None };
    assert!(matches!(install_decision("1.0.0".to_string(), available(), "1.1.0"), InstallDecision::Proceed));
    match install_decision("1.0.0".to_string(), available(), "1.2.0") {
        InstallDecision::VersionChanged { detail } => assert_eq!(detail, "expected 1.2.0, got 1.1.0"),
        other => panic!("unexpected {other:?}"),
    }
    match install_decision("1.0.0".to_string(), UpdateCheck::UpToDate, "1.1.0") {
        InstallDecision::Reply(info) => {
            assert_eq!(info.status, "up_to_date");
            assert_eq!(info.message, "没有可安装的更新。");
        },
        other => panic!("unexpected {other:?}"),
    }
}

#[test]
fn download_progress_saturates_and_guards_zero_totals() {
    let p = download_progress(50, Some(200));
    assert_eq!(p.percent, Some(25));
    assert_eq!(p.phase, "downloading");
    assert_eq!(download_progress(7, Some(0)).percent, Some(700));
    assert_eq!(download_progress(7, None).percent, None);
    assert_eq!(download_progress(u64::MAX, Some(u64::MAX)).percent, Some(1));
}

#[test]
fn install_stages_and_cancellation() {
    let done = install_progress(InstallStage::Complete);
    assert_eq!(done.phase, "complete");
    assert_eq!(done.percent, Some(100));
    assert_eq!(install_progress(InstallStage::Cancelled).phase, "cancelled");
    let info = cancelled_update_info("2.0.0".to_string());
    assert_eq!(info.status, "unavailable");
    assert_eq!(info.message, "已取消更新下载，当前版本未改变。");
}
