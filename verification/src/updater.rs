//! Application updates: what a check reports, whether an install may go on,
//! and the progress shown while it runs. The updater plugin does the network
//! and installer work in the shell.
use vstd::prelude::*;
use crate::library::{UpdateInfo, UpdateProgress};
use crate::text::{concat, owned};

verus! {

/// What asking the update service gave.
#[derive(Debug, Clone)]
pub enum UpdateCheck {
    /// The updater is not configured; the error says why.
    Unconfigured(String),
    /// The service could not be asked.
    Unavailable(String),
    UpToDate,
    Available { version: String, date: Option<String>, body: Option<String> },
}

/// The answer to a check for updates.
pub fn check_info(current_version: String, check: UpdateCheck) -> (r: UpdateInfo)
    ensures
        r.current_version == current_version,
        match check {
            UpdateCheck::Unconfigured(e) => r.status@ == "unconfigured"@ && r.version is None && r.date is None && r.body is None
                && r.message@ == "更新服务尚未配置，暂不能检查更新："@ + e@,
            UpdateCheck::Unavailable(e) => r.status@ == "unavailable"@ && r.version is None && r.date is None && r.body is None
                && r.message@ == "更新服务暂不可用（开发环境可能尚未配置签名端点）："@ + e@,
            UpdateCheck::UpToDate => r.status@ == "up_to_date"@ && r.version is None && r.date is None && r.body is None
                && r.message@ == "当前已是最新版本。"@,
            UpdateCheck::Available { version, date, body } => r.status@ == "available"@ && r.version == Some(version)
                && r.date == date && r.body == body && r.message@ == "发现可用更新，安装前会再次验证版本。"@,
        },
{
    match check {
        UpdateCheck::Unconfigured(e) => UpdateInfo {
            status: owned("unconfigured"),
            current_version,
            version: None,
            date: None,
            body: None,
            message: concat("更新服务尚未配置，暂不能检查更新：", e.as_str()),
        },
        UpdateCheck::Unavailable(e) => UpdateInfo {
            status: owned("unavailable"),
            current_version,
            version: None,
            date: None,
            body: None,
            message: concat("更新服务暂不可用（开发环境可能尚未配置签名端点）：", e.as_str()),
        },
        UpdateCheck::UpToDate => UpdateInfo {
            status: owned("up_to_date"),
            current_version,
            version: None,
            date: None,
            body: None,
            message: owned("当前已是最新版本。"),
        },
        UpdateCheck::Available { version, date, body } => UpdateInfo {
            status: owned("available"),
            current_version,
            version: Some(version),
            date,
            body,
            message: owned("发现可用更新，安装前会再次验证版本。"),
        },
    }
}

/// What an install does after checking again.
#[derive(Debug, Clone)]
pub enum InstallDecision {
    /// Stop and answer with this.
    Reply(UpdateInfo),
    /// The update on offer is not the one the user accepted.
    VersionChanged { detail: String },
    /// Download and install.
    Proceed,
}

fn stop_info(current_version: String, status: &str, message: String) -> (r: UpdateInfo)
    ensures
        r.status@ == status@,
        r.current_version == current_version,
        r.version is None && r.date is None && r.body is None,
        r.message == message,
{
    UpdateInfo { status: owned(status), current_version, version: None, date: None, body: None, message }
}

/// An install proceeds only when the service still offers exactly the
/// version the user accepted.
pub fn install_decision(current_version: String, check: UpdateCheck, expected_version: &str) -> (r: InstallDecision)
    ensures
        match check {
            UpdateCheck::Unconfigured(e) => r matches InstallDecision::Reply(i) && i.status@ == "unavailable"@
                && i.current_version == current_version && i.version is None && i.message@ == "更新服务尚未配置，安装已取消："@ + e@,
            UpdateCheck::Unavailable(e) => r matches InstallDecision::Reply(i) && i.status@ == "unavailable"@
                && i.current_version == current_version && i.version is None && i.message@ == "无法验证更新包，安装已取消："@ + e@,
            UpdateCheck::UpToDate => r matches InstallDecision::Reply(i) && i.status@ == "up_to_date"@
                && i.current_version == current_version && i.version is None && i.message@ == "没有可安装的更新。"@,
            UpdateCheck::Available { version, .. } => if version@ == expected_version@ {
                r is Proceed
            } else {
                r matches InstallDecision::VersionChanged { detail } && detail@ == "expected "@ + expected_version@ + ", got "@ + version@
            },
        },
{
    match check {
        UpdateCheck::Unconfigured(e) => InstallDecision::Reply(
            stop_info(current_version, "unavailable", concat("更新服务尚未配置，安装已取消：", e.as_str())),
        ),
        UpdateCheck::Unavailable(e) => InstallDecision::Reply(
            stop_info(current_version, "unavailable", concat("无法验证更新包，安装已取消：", e.as_str())),
        ),
        UpdateCheck::UpToDate => InstallDecision::Reply(
            stop_info(current_version, "up_to_date", owned("没有可安装的更新。")),
        ),
        UpdateCheck::Available { version, .. } => {
            if crate::text::str_eq(version.as_str(), expected_version) {
                InstallDecision::Proceed
            } else {
                let a = concat("expected ", expected_version);
                let b = concat(a.as_str(), ", got ");
                InstallDecision::VersionChanged { detail: concat(b.as_str(), version.as_str()) }
            }
        },
    }
}

/// The download progress: the percentage is computed when the size is
/// known (a size of 0 counts as 1), the product saturating.
pub fn download_progress(downloaded: u64, total: Option<u64>) -> (r: UpdateProgress)
    ensures
        r.phase@ == "downloading"@,
        r.downloaded == downloaded,
        r.total == total,
        r.percent == (match total {
            Some(t) => Some(
                ((if downloaded * 100 > u64::MAX { u64::MAX as int } else { downloaded * 100 }) / (if t == 0 { 1 } else { t as int })) as u64,
            ),
            None => None,
        }),
        r.message@ == "正在下载更新…"@,
{
    let percent = match total {
        Some(t) => {
            let scaled: u64 = if downloaded <= u64::MAX / 100 {
                downloaded * 100
            } else {
                u64::MAX
            };
            let divisor: u64 = if t == 0 { 1 } else { t };
            Some(scaled / divisor)
        },
        None => None,
    };
    UpdateProgress { phase: owned("downloading"), downloaded, total, percent, message: owned("正在下载更新…") }
}

/// The stages of an install after the download.
#[derive(Debug, Clone, Copy, PartialEq, Eq)]
pub enum InstallStage {
    Installing,
    /// Cancel was asked for while the download ran.
    Cancelled,
    /// The cancel request as first acknowledged.
    CancelRequested,
    Complete,
}

pub fn install_progress(stage: InstallStage) -> (r: UpdateProgress)
    ensures
        r.downloaded == 0,
        r.total is None,
        match stage {
            InstallStage::Installing => r.phase@ == "installing"@ && r.percent is None && r.message@ == "正在安装更新，完成后将重启应用…"@,
            InstallStage::Cancelled => r.phase@ == "cancelled"@ && r.percent is None && r.message@ == "已取消更新下载，当前版本未改变。"@,
            InstallStage::CancelRequested => r.phase@ == "cancelled"@ && r.percent is None && r.message@ == "已请求取消更新下载。"@,
            InstallStage::Complete => r.phase@ == "complete"@ && r.percent == Some(100u64) && r.message@ == "更新完成，正在重启…"@,
        },
{
    match stage {
        InstallStage::Installing => UpdateProgress {
            phase: owned("installing"),
            downloaded: 0,
            total: None,
            percent: None,
            message: owned("正在安装更新，完成后将重启应用…"),
        },
        InstallStage::Cancelled => UpdateProgress {
            phase: owned("cancelled"),
            downloaded: 0,
            total: None,
            percent: None,
            message: owned("已取消更新下载，当前版本未改变。"),
        },
        InstallStage::CancelRequested => UpdateProgress {
            phase: owned("cancelled"),
            downloaded: 0,
            total: None,
            percent: None,
            message: owned("已请求取消更新下载。"),
        },
        InstallStage::Complete => UpdateProgress {
            phase: owned("complete"),
            downloaded: 0,
            total: None,
            percent: Some(100),
            message: owned("更新完成，正在重启…"),
        },
    }
}

/// The answer once a download was cancelled: nothing changed.
pub fn cancelled_update_info(current_version: String) -> (r: UpdateInfo)
    ensures
        r.status@ == "unavailable"@,
        r.current_version == current_version,
        r.version is None && r.date is None && r.body is None,
        r.message@ == "已取消更新下载，当前版本未改变。"@,
{
    stop_info(current_version, "unavailable", owned("已取消更新下载，当前版本未改变。"))
}

} // verus!
