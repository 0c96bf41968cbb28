//! Host facts shown on the settings page: display adapters, worker health and
//! the links the application may open.
use vstd::prelude::*;
use crate::database::DatabaseHealth;
use crate::ipc::{core_error, failure, success, IpcEnvelope, IPC_VERSION};
use crate::workflow::{model, Json, JsonModel};
use crate::path_utils::{display_path, strip_verbatim};
use crate::text::{
    after_first, after_first_of, char_views, contains, contains_chars, decimal, decimal_string,
    from_chars, is_prefix, lines, lower_ascii, lower_chars, owned, split_lines, string_views,
    to_chars, trim, trim_chars, trim_str,
};

verus! {

#[derive(Debug, Clone)]
pub struct GpuInventory {
    pub devices: Vec<String>,
    pub available: bool,
    pub detail: Option<String>,
}

/// One model session as reported by the worker after a real CUDA self-test.
#[derive(Debug, Clone)]
pub struct WorkerModelCompute {
    pub model_id: String,
    pub requested_device: Option<String>,
    pub active_device: Option<String>,
    pub active_providers: Vec<String>,
}

#[derive(Debug, Clone)]
pub struct WorkerComputeError {
    pub model_id: String,
    pub code: Option<String>,
    pub error: String,
}

/// Result of loading the installed models with the configured device:
/// `cuda_available` only says that the runtime build offers CUDA,
/// `cuda_session_ready` that a CUDA session was really created.
#[derive(Debug, Clone)]
pub struct WorkerComputeStatus {
    pub requested_device: String,
    pub cuda_available: bool,
    pub cuda_session_ready: bool,
    pub distribution: Option<String>,
    pub available_providers: Vec<String>,
    pub models: Vec<WorkerModelCompute>,
    pub errors: Vec<WorkerComputeError>,
}

/// The registry line prefix that carries a value.
pub open spec fn reg_sz() -> Seq<char> {
    "REG_SZ"@
}

/// The adapter named on one `reg query` line: the trimmed text after
/// `REG_SZ`, where there is any.
pub open spec fn driver_desc_of(line: Seq<char>) -> Option<Seq<char>> {
    match after_first(trim(line), reg_sz()) {
        Some(v) => if trim(v).len() > 0 {
            Some(trim(v))
        } else {
            None
        },
        None => None,
    }
}

pub open spec fn driver_descs(ls: Seq<Seq<char>>) -> Seq<Seq<char>>
    decreases ls.len(),
{
    if ls.len() == 0 {
        Seq::empty()
    } else {
        let rest = driver_descs(ls.drop_last());
        match driver_desc_of(ls.last()) {
            Some(v) => rest.push(v),
            None => rest,
        }
    }
}

/// Read the `DriverDesc` values out of `reg query` output, in order.
pub fn parse_driver_desc(stdout: &str) -> (r: Vec<String>)
    ensures
        string_views(r@) == driver_descs(lines(stdout@)),
{
    let v = to_chars(stdout);
    let ls = split_lines(v.as_slice());
    let marker = to_chars("REG_SZ");
    proof {
        reveal_strlit("REG_SZ");
    }
    let mut out: Vec<String> = Vec::new();
    let mut i: usize = 0;
    while i < ls.len()
        invariant
            i <= ls@.len(),
            marker@ == reg_sz(),
            string_views(out@) == driver_descs(char_views(ls@).subrange(0, i as int)),
        decreases ls@.len() - i,
    {
        let ghost before = out@;
        let line = trim_chars(ls[i].as_slice());
        assert(char_views(ls@).subrange(0, i + 1).drop_last() =~= char_views(ls@).subrange(
            0,
            i as int,
        ));
        assert(char_views(ls@).subrange(0, i + 1).last() == ls@[i as int]@);
        match after_first_of(line.as_slice(), marker.as_slice()) {
            Some(rest) => {
                let value = trim_chars(rest.as_slice());
                if value.len() > 0 {
                    out.push(from_chars(value.as_slice()));
                    assert(string_views(out@) =~= string_views(before).push(value@));
                }
            },
            None => {},
        }
        i = i + 1;
    }
    assert(char_views(ls@).subrange(0, ls@.len() as int) =~= char_views(ls@));
    out
}

/// Adapter names that mark a virtual or remote-desktop display.
pub open spec fn virtual_markers() -> Seq<Seq<char>> {
    seq!["virtual"@, "idddriver"@, "mirror"@, "gameviewer"@, "todesk"@, "parsec"@]
}

/// Whether the name, in ASCII lower case, contains one of the markers.
pub open spec fn is_virtual_display_spec(name: Seq<char>) -> bool {
    exists|i: int| 0 <= i < virtual_markers().len() && contains(lower_ascii(name), #[trigger] virtual_markers()[i])
}

pub fn is_virtual_display(name: &str) -> (b: bool)
    ensures
        b == is_virtual_display_spec(name@),
{
    let lowered = lower_chars(to_chars(name).as_slice());
    let markers: [&str; 6] = ["virtual", "idddriver", "mirror", "gameviewer", "todesk", "parsec"];
    proof {
        reveal_strlit("virtual");
        reveal_strlit("idddriver");
        reveal_strlit("mirror");
        reveal_strlit("gameviewer");
        reveal_strlit("todesk");
        reveal_strlit("parsec");
        assert(markers@.map_values(|m: &str| m@) =~= virtual_markers());
    }
    let mut i: usize = 0;
    while i < 6
        invariant
            i <= 6,
            lowered@ == lower_ascii(name@),
            markers@.map_values(|m: &str| m@) == virtual_markers(),
            forall|j: int| 0 <= j < i ==> !contains(lower_ascii(name@), #[trigger] virtual_markers()[j]),
        decreases 6 - i,
    {
        let m = to_chars(markers[i]);
        assert(markers@.map_values(|m: &str| m@)[i as int] == markers@[i as int]@);
        if contains_chars(lowered.as_slice(), m.as_slice()) {
            return true;
        }
        i = i + 1;
    }
    false
}

/// The adapters worth reporting: the registry list, or the WMI list when the
/// registry gave none, without virtual displays and without repeats (the
/// first of equal names stays).
pub open spec fn gpu_devices_spec(registry: Seq<Seq<char>>, wmi: Seq<Seq<char>>) -> Seq<Seq<char>> {
    if registry.len() == 0 {
        real_adapters(wmi)
    } else {
        real_adapters(registry)
    }
}

pub open spec fn real_adapters(s: Seq<Seq<char>>) -> Seq<Seq<char>>
    decreases s.len(),
{
    if s.len() == 0 {
        Seq::empty()
    } else {
        let rest = real_adapters(s.drop_last());
        if is_virtual_display_spec(s.last()) || rest.contains(s.last()) {
            rest
        } else {
            rest.push(s.last())
        }
    }
}

/// The non-blank lines of a text, trimmed, in order.
pub open spec fn trimmed_lines(ls: Seq<Seq<char>>) -> Seq<Seq<char>>
    decreases ls.len(),
{
    if ls.len() == 0 {
        Seq::empty()
    } else {
        let rest = trimmed_lines(ls.drop_last());
        let t = crate::text::trim(ls.last());
        if t.len() > 0 {
            rest.push(t)
        } else {
            rest
        }
    }
}

/// The adapter names PowerShell printed for `Win32_VideoController`: one
/// per non-blank line, trimmed.
pub fn wmi_adapter_names(stdout: &str) -> (r: Vec<String>)
    ensures
        crate::text::string_views(r@) == trimmed_lines(crate::text::lines(stdout@)),
{
    let text = crate::text::to_chars(stdout);
    let ls = crate::text::split_lines(text.as_slice());
    let ghost lv = crate::text::lines(stdout@);
    let mut out: Vec<String> = Vec::new();
    let mut i: usize = 0;
    while i < ls.len()
        invariant
            i <= ls@.len(),
            crate::text::char_views(ls@) == lv,
            crate::text::string_views(out@) == trimmed_lines(lv.subrange(0, i as int)),
        decreases ls@.len() - i,
    {
        assert(lv.subrange(0, i + 1).drop_last() =~= lv.subrange(0, i as int));
        assert(lv.subrange(0, i + 1).last() == ls@[i as int]@);
        let t = crate::text::trim_chars(ls[i].as_slice());
        if t.len() > 0 {
            let ghost before = out@;
            out.push(crate::text::from_chars(t.as_slice()));
            assert(crate::text::string_views(out@) =~= crate::text::string_views(before).push(t@));
        }
        i = i + 1;
    }
    assert(lv.subrange(0, lv.len() as int) =~= lv);
    out
}

/// Filter the adapters read from the registry (or, when that gave nothing,
/// from WMI). The shell asks WMI only when the registry list is empty.
pub fn query_gpu_devices(registry: Vec<String>, wmi: Vec<String>) -> (r: Vec<String>)
    ensures
        string_views(r@) == gpu_devices_spec(string_views(registry@), string_views(wmi@)),
{
    let devices = if registry.len() == 0 {
        wmi
    } else {
        registry
    };
    let mut filtered: Vec<String> = Vec::new();
    let mut i: usize = 0;
    while i < devices.len()
        invariant
            i <= devices@.len(),
            string_views(filtered@) == real_adapters(string_views(devices@).subrange(0, i as int)),
        decreases devices@.len() - i,
    {
        let ghost sub = string_views(devices@).subrange(0, i + 1);
        assert(sub.drop_last() =~= string_views(devices@).subrange(0, i as int));
        assert(sub.last() == devices@[i as int]@);
        let device = &devices[i];
        let mut seen = false;
        let mut j: usize = 0;
        while j < filtered.len()
            invariant
                j <= filtered@.len(),
                i < devices@.len(),
                device@ == devices@[i as int]@,
                seen == exists|k: int| 0 <= k < j && #[trigger] filtered@[k]@ == devices@[i as int]@,
            decreases filtered@.len() - j,
        {
            if crate::text::str_eq(filtered[j].as_str(), device.as_str()) {
                seen = true;
            }
            assert(filtered@[j as int]@ == filtered@[j as int]@);
            j = j + 1;
        }
        proof {
            let fv = string_views(filtered@);
            if seen {
                let k = choose|k: int| 0 <= k < filtered@.len() && #[trigger] filtered@[k]@
                    == devices@[i as int]@;
                assert(fv[k] == sub.last());
            } else {
                assert forall|k: int| 0 <= k < fv.len() implies fv[k] != sub.last() by {
                    assert(filtered@[k]@ == fv[k]);
                }
            }
        }
        if !seen && !is_virtual_display(device.as_str()) {
            let ghost before = filtered@;
            filtered.push(device.clone());
            assert(string_views(filtered@) =~= string_views(before).push(devices@[i as int]@));
        }
        i = i + 1;
    }
    assert(string_views(devices@).subrange(0, devices@.len() as int) =~= string_views(devices@));
    filtered
}

/// The inventory reported to the settings page.
pub fn gpu_inventory(devices: Vec<String>) -> (r: GpuInventory)
    ensures
        r.devices == devices,
        r.available == (devices.len() > 0),
        r.detail is Some <==> devices.len() == 0,
        r.detail matches Some(d) ==> d@ == "未读取到独立/集成显卡信息，可继续使用 CPU 推理。"@,
{
    let available = devices.len() > 0;
    GpuInventory {
        devices,
        available,
        detail: if available {
            None
        } else {
            Some(owned("未读取到独立/集成显卡信息，可继续使用 CPU 推理。"))
        },
    }
}

/// The only links the application opens are `https` ones; the trimmed link
/// is returned when it qualifies.
pub fn allowed_external_url(url: &str) -> (r: Option<String>)
    ensures
        r is Some <==> is_prefix("https://"@, trim(url@)),
        r matches Some(u) ==> u@ == trim(url@),
{
    let trimmed = trim_str(url);
    let v = to_chars(trimmed.as_str());
    let scheme = to_chars("https://");
    if crate::text::starts_with_chars(v.as_slice(), scheme.as_slice()) {
        Some(trimmed)
    } else {
        None
    }
}

/// The reply when a link is refused: only `https` links are opened, and
/// the refusal is not worth retrying.
pub open spec fn url_refusal(e: crate::ipc::IpcError, request_id: Seq<char>) -> bool {
    &&& e.code@ == "URL_NOT_ALLOWED"@
    &&& e.message@ == "只允许打开 https 链接。"@
    &&& e.detail is None
    &&& !e.retryable
    &&& e.request_id@ == request_id
    &&& e.task_id is None
}

/// A request to open `url` in the browser: the trimmed link the shell hands
/// to the opener when it is an `https` link, else the `system.open_url`
/// failure that refuses it.
pub fn open_url_request(url: &str, request_id: String) -> (r: Result<String, IpcEnvelope<Json>>)
    ensures
        match r {
            Ok(u) => is_prefix("https://"@, trim(url@)) && u@ == trim(url@),
            Err(env) => !is_prefix("https://"@, trim(url@))
                && env.version@ == IPC_VERSION@
                && env.request_id == request_id
                && env.task_id is None
                && env.message_type@ == "system.open_url"@
                && env.payload is None
                && (env.error matches Some(e) && url_refusal(e, request_id@)),
        },
{
    match allowed_external_url(url) {
        Some(u) => Ok(u),
        None => {
            let e = core_error(request_id.as_str(), "URL_NOT_ALLOWED", "只允许打开 https 链接。", None, false);
            Err(failure("system.open_url", request_id, e))
        },
    }
}

/// The `system.open_url` reply once the opener answered about `url`: the
/// link itself on success, else an `URL_OPEN_FAILED` error carrying the
/// opener's message (not retryable).
pub fn open_url_outcome(request_id: String, url: String, opener_error: Option<String>) -> (r: IpcEnvelope<Json>)
    ensures
        r.version@ == IPC_VERSION@,
        r.request_id == request_id,
        r.task_id is None,
        r.message_type@ == "system.open_url"@,
        match opener_error {
            None => r.error is None && (r.payload matches Some(p) && model(p) == JsonModel::Obj(
                seq![("url"@, JsonModel::Str(url@))],
            )),
            Some(m) => r.payload is None && (r.error matches Some(e) && e.code@ == "URL_OPEN_FAILED"@
                && e.message@ == "无法打开浏览器："@ + m@ && e.detail is None && !e.retryable
                && e.request_id@ == request_id@ && e.task_id is None),
        },
{
    match opener_error {
        None => {
            let ghost u = url@;
            let key = owned("url");
            let item = Json::Str(url);
            assert(model(item) == JsonModel::Str(u));
            let es = vec![(key, item)];
            assert(es@.len() == 1 && es@[0].0@ == "url"@ && model(es@[0].1) == JsonModel::Str(u));
            let payload = Json::Obj(es);
            assert(model(payload) == JsonModel::Obj(seq![("url"@, JsonModel::Str(u))])) by {
                if let JsonModel::Obj(a) = model(payload) {
                    assert(a =~= seq![("url"@, JsonModel::Str(u))]);
                }
            }
            success("system.open_url", request_id, payload)
        },
        Some(m) => {
            let text = crate::text::concat("无法打开浏览器：", m.as_str());
            let e = core_error(request_id.as_str(), "URL_OPEN_FAILED", text.as_str(), None, false);
            failure("system.open_url", request_id, e)
        },
    }
}

#[derive(Debug, Clone)]
pub struct WorkerRuntimeSettings {
    pub mode: String,
    pub mode_label: String,
    pub resolved_path: Option<String>,
    pub compute_device: String,
    pub compute_device_label: String,
}

/// What the worker reported of its runtime capabilities.
#[derive(Debug, Clone)]
pub struct WorkerCapabilitiesSummary {
    pub ready: bool,
    pub status: String,
    pub error_messages: Vec<String>,
}

#[derive(Debug, Clone)]
pub struct WorkerHealth {
    pub status: String,
    pub message: String,
    pub version: Option<String>,
    pub model_count: Option<u64>,
    pub runtime_mode: String,
    pub runtime_mode_label: String,
    pub runtime_path: Option<String>,
    pub compute_device: String,
    pub compute_device_label: String,
    pub capabilities: Option<WorkerCapabilitiesSummary>,
    pub capability_error: Option<String>,
    pub checked_at: String,
}

#[derive(Debug, Clone)]
pub struct RuntimeStatus {
    pub app_version: String,
    pub data_dir: String,
    pub database: DatabaseHealth,
    pub worker: WorkerHealth,
}

/// The runtime settings as shown: the resolved worker path is displayed
/// without its verbatim prefix.
pub fn worker_runtime_settings(
    mode: String,
    mode_label: String,
    runtime_path: Option<String>,
    compute_device: String,
    compute_device_label: String,
) -> (r: WorkerRuntimeSettings)
    ensures
        r.mode == mode,
        r.mode_label == mode_label,
        r.compute_device == compute_device,
        r.compute_device_label == compute_device_label,
        r.resolved_path is Some <==> runtime_path is Some,
        r.resolved_path matches Some(p) ==> p@ == strip_verbatim(runtime_path->0@),
{
    let resolved_path = match runtime_path {
        Some(p) => Some(display_path(p.as_str())),
        None => None,
    };
    WorkerRuntimeSettings { mode, mode_label, resolved_path, compute_device, compute_device_label }
}

/// What probing the worker gave.
#[derive(Debug, Clone)]
pub enum WorkerProbe {
    /// The worker's state lock could not be taken.
    LockUnavailable,
    /// The health handshake failed; `unavailable` tells a missing worker
    /// from another failure.
    HealthFailed { unavailable: bool, error: String },
    /// The handshake worked but the capability probe failed.
    CapabilityFailed { health_status: String, version: String, model_count: u64, error: String },
    /// Both answered.
    Answered {
        health_status: String,
        version: String,
        model_count: u64,
        capabilities: WorkerCapabilitiesSummary,
    },
}

pub open spec fn healthy_message(model_count: u64) -> Seq<char> {
    "AI Worker 已完成健康握手，发现 "@ + decimal(model_count as nat)
        + " 个模型；dghs-imgutils 与 ONNX Runtime 能力就绪。"@
}

pub open spec fn capabilities_ok(c: WorkerCapabilitiesSummary) -> bool {
    c.ready && c.status@ == "ok"@
}

/// The first capability error, or a generic one.
pub open spec fn capability_problem(c: WorkerCapabilitiesSummary) -> Seq<char> {
    if c.error_messages@.len() > 0 {
        c.error_messages@[0]@
    } else {
        "必需的 dghs-imgutils/ONNX Runtime 能力不可用。"@
    }
}

/// The health shown for a worker, with the runtime it runs under.
pub fn worker_health_with_runtime(
    status: String,
    message: String,
    version: Option<String>,
    model_count: Option<u64>,
    runtime: WorkerRuntimeSettings,
    capabilities: Option<WorkerCapabilitiesSummary>,
    capability_error: Option<String>,
    checked_at: String,
) -> (r: WorkerHealth)
    ensures
        r.status == status && r.message == message && r.version == version && r.model_count == model_count,
        r.runtime_mode == runtime.mode && r.runtime_mode_label == runtime.mode_label,
        r.runtime_path == runtime.resolved_path,
        r.compute_device == runtime.compute_device && r.compute_device_label == runtime.compute_device_label,
        r.capabilities == capabilities && r.capability_error == capability_error,
        r.checked_at == checked_at,
{
    WorkerHealth {
        status,
        message,
        version,
        model_count,
        runtime_mode: runtime.mode,
        runtime_mode_label: runtime.mode_label,
        runtime_path: runtime.resolved_path,
        compute_device: runtime.compute_device,
        compute_device_label: runtime.compute_device_label,
        capabilities,
        capability_error,
        checked_at,
    }
}

/// The worker's health as shown: `healthy` (or `stopped` while it stops)
/// when the handshake and the capabilities are fine, `unavailable` when the
/// capabilities are missing or the worker is not there, `error` otherwise.
pub fn probe_worker(probe: WorkerProbe, runtime: WorkerRuntimeSettings, checked_at: String) -> (r:
    WorkerHealth)
    ensures
        r.checked_at == checked_at,
        r.runtime_mode == runtime.mode,
        r.runtime_mode_label == runtime.mode_label,
        r.compute_device == runtime.compute_device,
        r.compute_device_label == runtime.compute_device_label,
        match probe {
            WorkerProbe::LockUnavailable => r.status@ == "error"@ && r.message@
                == "AI Worker 状态锁暂时不可用，请稍后重试。"@ && r.version is None && r.model_count is None
                && r.runtime_path is None && r.capabilities is None && r.capability_error is Some
                && r.capability_error->0@ == "AI Worker 状态锁暂时不可用。"@,
            WorkerProbe::HealthFailed { unavailable, error } => r.status@ == (if unavailable {
                "unavailable"@
            } else {
                "error"@
            }) && r.message == error && r.version is None && r.model_count is None
                && r.runtime_path == runtime.resolved_path && r.capabilities is None
                && r.capability_error == Some(error),
            WorkerProbe::CapabilityFailed { health_status, version, model_count, error } =>
                r.status@ == "error"@ && r.message@ == "AI Worker 健康握手成功，但能力探测失败："@ + error@
                && r.version == Some(version) && r.model_count == Some(model_count)
                && r.runtime_path == runtime.resolved_path && r.capabilities is None
                && r.capability_error == Some(error),
            WorkerProbe::Answered { health_status, version, model_count, capabilities } => {
                &&& r.version == Some(version)
                &&& r.model_count == Some(model_count)
                &&& r.runtime_path == runtime.resolved_path
                &&& r.capabilities == Some(capabilities)
                &&& r.capability_error is None
                &&& if capabilities_ok(capabilities) {
                    r.status@ == (if health_status@ == "stopping"@ {
                        "stopped"@
                    } else {
                        "healthy"@
                    }) && r.message@ == healthy_message(model_count)
                } else {
                    r.status@ == "unavailable"@ && r.message@
                        == "AI Worker 健康握手成功，但运行能力不可用："@ + capability_problem(capabilities)
                }
            },
        },
{
    match probe {
        WorkerProbe::LockUnavailable => WorkerHealth {
            status: owned("error"),
            message: owned("AI Worker 状态锁暂时不可用，请稍后重试。"),
            version: None,
            model_count: None,
            runtime_mode: runtime.mode,
            runtime_mode_label: runtime.mode_label,
            runtime_path: None,
            compute_device: runtime.compute_device,
            compute_device_label: runtime.compute_device_label,
            capabilities: None,
            capability_error: Some(owned("AI Worker 状态锁暂时不可用。")),
            checked_at,
        },
        WorkerProbe::HealthFailed { unavailable, error } => worker_health_with_runtime(
            if unavailable {
                owned("unavailable")
            } else {
                owned("error")
            },
            error.clone(),
            None,
            None,
            runtime,
            None,
            Some(error),
            checked_at,
        ),
        WorkerProbe::CapabilityFailed { health_status, version, model_count, error } => {
            let message = crate::text::concat("AI Worker 健康握手成功，但能力探测失败：", error.as_str());
            worker_health_with_runtime(
                owned("error"),
                message,
                Some(version),
                Some(model_count),
                runtime,
                None,
                Some(error),
                checked_at,
            )
        },
        WorkerProbe::Answered { health_status, version, model_count, capabilities } => {
            let ok = capabilities.ready && crate::text::str_eq(capabilities.status.as_str(), "ok");
            let (status, message) = if ok {
                let status = if crate::text::str_eq(health_status.as_str(), "stopping") {
                    owned("stopped")
                } else {
                    owned("healthy")
                };
                let digits = decimal_string(model_count);
                let head = crate::text::concat("AI Worker 已完成健康握手，发现 ", digits.as_str());
                let message = crate::text::concat(
                    head.as_str(),
                    " 个模型；dghs-imgutils 与 ONNX Runtime 能力就绪。",
                );
                (status, message)
            } else {
                let problem = if capabilities.error_messages.len() > 0 {
                    capabilities.error_messages[0].clone()
                } else {
                    owned("必需的 dghs-imgutils/ONNX Runtime 能力不可用。")
                };
                (
                    owned("unavailable"),
                    crate::text::concat("AI Worker 健康握手成功，但运行能力不可用：", problem.as_str()),
                )
            };
            worker_health_with_runtime(
                status,
                message,
                Some(version),
                Some(model_count),
                runtime,
                Some(capabilities),
                None,
                checked_at,
            )
        },
    }
}

/// The current time as whole seconds since the Unix epoch (0 if the clock
/// stands before it). It depends on the clock, so nothing is claimed of the
/// value.
#[verifier::external_body]
fn unix_seconds() -> (r: u64) {
    std::time::SystemTime::now().duration_since(std::time::UNIX_EPOCH).map(|d| d.as_secs()).unwrap_or(0)
}

/// The check time stamp: the current Unix time in decimal seconds.
pub fn now_iso() -> (r: String)
    ensures
        exists|s: u64| r@ == decimal(s as nat),
{
    let s = unix_seconds();
    decimal_string(s)
}

} // verus!
