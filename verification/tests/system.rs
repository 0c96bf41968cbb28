use anime_pic_manage::system::{
    allowed_external_url, gpu_inventory, is_virtual_display, parse_driver_desc, probe_worker,
    query_gpu_devices, worker_runtime_settings, WorkerCapabilitiesSummary, WorkerProbe,
    open_url_outcome, open_url_request,
};
use anime_pic_manage::workflow::Json;

const SAMPLE_REGISTRY_OUTPUT: &str = "\r\nHKEY_LOCAL_MACHINE\\SYSTEM\\CurrentControlSet\\Control\\Class\\{4d36e968-e325-11ce-bfc1-08002be10318}\\0000\r\n    DriverDesc    REG_SZ    Intel(R) UHD Graphics\r\n\r\nHKEY_LOCAL_MACHINE\\SYSTEM\\CurrentControlSet\\Control\\Class\\{4d36e968-e325-11ce-bfc1-08002be10318}\\0001\r\n    DriverDesc    REG_SZ    NVIDIA GeForce RTX 3060 Laptop GPU\r\n\r\nEnd of search: 2 match(es) found.\r\n";

#[test]
fn parses_driver_desc_values_from_registry_output() {
    let devices = parse_driver_desc(SAMPLE_REGISTRY_OUTPUT);
    assert_eq!(
        devices,
        vec!["Intel(R) UHD Graphics".to_string(), "NVIDIA GeForce RTX 3060 Laptop GPU".to_string()]
    );
}

#[test]
fn virtual_display_adapters_are_filtered_out() {
    assert!(is_virtual_display("Todesk Virtual Display Adapter"));
    assert!(is_virtual_display("OrayIddDriver Device"));
    assert!(is_virtual_display("GameViewer Virtual Display Adapter"));
    assert!(!is_virtual_display("NVIDIA GeForce RTX 3060 Laptop GPU"));
    assert!(!is_virtual_display("Intel(R) UHD Graphics"));
}

#[test]
fn gpu_query_never_reports_virtual_adapters() {
    let mut registry = parse_driver_desc(SAMPLE_REGISTRY_OUTPUT);
    registry.push("Parsec Virtual Display Adapter".to_string());
    registry.push("Intel(R) UHD Graphics".to_string());
    let devices = query_gpu_devices(registry, vec!["ignored".to_string()]);
    for device in &devices {
        assert!(!is_virtual_display(device), "unexpected adapter: {device}");
    }
    assert_eq!(devices, vec!["Intel(R) UHD Graphics".to_string(), "NVIDIA GeForce RTX 3060 Laptop GPU".to_string()]);
}

#[test]
fn wmi_names_are_used_only_when_the_registry_has_none() {
    let devices = query_gpu_devices(Vec::new(), vec!["AMD Radeon".to_string(), "Mirror Driver".to_string()]);
    assert_eq!(devices, vec!["AMD Radeon".to_string()]);
    let inventory = gpu_inventory(Vec::new());
    assert!(!inventory.available);
    assert!(inventory.detail.is_some());
}

#[test]
fn only_https_links_are_opened() {
    assert_eq!(allowed_external_url("  https://example.com/a "), Some("https://example.com/a".to_string()));
    assert_eq!(allowed_external_url("http://example.com"), None);
    assert_eq!(allowed_external_url("file:///C:/x"), None);
}

#[test]
fn worker_health_reflects_the_probe() {
    let runtime = worker_runtime_settings(
        "executable".to_string(),
        "EXE".to_string(),
        Some(r"\\?\D:\app\runtime\ai-worker.exe".to_string()),
        "auto".to_string(),
        "自动".to_string(),
    );
    assert_eq!(runtime.resolved_path.as_deref(), Some(r"D:\app\runtime\ai-worker.exe"));
    let ready = WorkerCapabilitiesSummary { ready: true, status: "ok".to_string(), error_messages: Vec::new() };
    let healthy = probe_worker(
        WorkerProbe::Answered { health_status: "ok".to_string(), version: "1.0".to_string(), model_count: 3, capabilities: ready },
        runtime.clone(),
        "100".to_string(),
    );
    assert_eq!(healthy.status, "healthy");
    assert_eq!(healthy.message, "AI Worker 已完成健康握手，发现 3 个模型；dghs-imgutils 与 ONNX Runtime 能力就绪。");
    let missing = WorkerCapabilitiesSummary { ready: false, status: "error".to_string(), error_messages: vec!["no onnx".to_string()] };
    let unavailable = probe_worker(
        WorkerProbe::Answered { health_status: "ok".to_string(), version: "1.0".to_string(), model_count: 3, capabilities: missing },
        runtime.clone(),
        "100".to_string(),
    );
    assert_eq!(unavailable.status, "unavailable");
    assert_eq!(unavailable.message, "AI Worker 健康握手成功，但运行能力不可用：no onnx");
    let locked = probe_worker(WorkerProbe::LockUnavailable, runtime, "100".to_string());
    assert_eq!(locked.status, "error");
    assert_eq!(locked.runtime_path, None);
}

#[test]
fn wmi_names_are_the_non_blank_lines() {
    assert_eq!(
        anime_pic_manage::system::wmi_adapter_names("NVIDIA GeForce RTX 4070  \r\n\r\n  Microsoft Basic Display Adapter\r\n"),
        vec!["NVIDIA GeForce RTX 4070".to_string(), "Microsoft Basic Display Adapter".to_string()]
    );
    assert!(anime_pic_manage::system::wmi_adapter_names("").is_empty());
}

#[test]
fn only_https_links_reach_the_opener() {
    match open_url_request("  https://example.com/docs \n", "req-1".to_string()) {
        Ok(url) => assert_eq!(url, "https://example.com/docs"),
        Err(_) => panic!("https links are opened"),
    }
    match open_url_request("file:///etc/passwd", "req-2".to_string()) {
        Ok(_) => panic!("other schemes are refused"),
        Err(envelope) => {
            assert_eq!(envelope.message_type, "system.open_url");
            assert_eq!(envelope.request_id, "req-2");
            assert!(envelope.payload.is_none());
            let error = envelope.error.expect("error");
            assert_eq!(error.code, "URL_NOT_ALLOWED");
            assert_eq!(error.message, "只允许打开 https 链接。");
            assert!(!error.retryable);
        }
    }
}

#[test]
fn opener_answers_become_the_reply() {
    let ok = open_url_outcome("r".to_string(), "https://a.b".to_string(), None);
    assert!(ok.error.is_none());
    match ok.payload {
        Some(Json::Obj(entries)) => {
            assert_eq!(entries.len(), 1);
            assert_eq!(entries[0].0, "url");
            assert!(matches!(&entries[0].1, Json::Str(u) if u == "https://a.b"));
        }
        _ => panic!("payload is the link"),
    }
    let failed = open_url_outcome("r".to_string(), "https://a.b".to_string(), Some("no browser".to_string()));
    assert!(failed.payload.is_none());
    let error = failed.error.expect("error");
    assert_eq!(error.code, "URL_OPEN_FAILED");
    assert_eq!(error.message, "无法打开浏览器：no browser");
    assert!(!error.retryable);
}
