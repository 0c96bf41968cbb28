use anime_pic_manage::kohya::{KohyaStatus, TrainerKind};
use anime_pic_manage::training::{
    cache_te_config_path, default_training_output_dir, environment_from_report, lora_install_destination,
    probe_failure, probe_result_line, probe_stderr, probe_timeout_message, status_payload,
    trainer_available, trainer_missing_message, training_log_path, ProbeReport,
};

#[test]
fn trained_files_go_beside_the_sets() {
    assert_eq!(default_training_output_dir(r"D:\pkg\output\datasets"), r"D:\pkg\output\loras");
    assert_eq!(default_training_output_dir(r"E:\lora-datasets-manage"), r"E:\lora-models");
}

#[test]
fn the_status_page_shows_a_preview_only_when_training_can_run() {
    let status = KohyaStatus::unconfigured("", false);
    let payload = status_payload(status, r"D:\sets".to_string(), "  ");
    assert_eq!(payload.status.output_dir, r"D:\lora-models");
    assert_eq!(payload.status.train_data_dir, r"D:\sets");
    assert!(payload.arguments_preview.is_empty());
    let mut ready = KohyaStatus::unconfigured(r"D:\models\base.safetensors", true);
    ready.installed = true;
    let payload = status_payload(ready, r"D:\sets".to_string(), r"E:\out");
    assert_eq!(payload.status.output_dir, r"E:\out");
    assert!(payload.arguments_preview.iter().any(|a| a.contains("dataset.toml")));
    assert!(TrainerKind::Sd15.script().ends_with(".py"));
}

#[test]
fn probe_output_is_split_into_result_and_errors() {
    let raw = "warning: slow\nKOHYA_ENV:{\"a\":1}\r\nmore\nKOHYA_ENV:{\"b\":2}\n";
    assert_eq!(probe_result_line(raw), Some("{\"b\":2}".to_string()));
    assert_eq!(probe_stderr(raw), "warning: slow\nmore");
    assert_eq!(probe_result_line("nothing"), None);
    let long = "x".repeat(2500);
    assert_eq!(probe_stderr(&long).chars().count(), 2000);
    assert_eq!(probe_timeout_message(), "训练环境检查超过 120 秒未返回，请确认该 Python 的 torch 能正常导入。");
}

#[test]
fn environments_come_from_the_report_or_the_failure() {
    let failed = probe_failure("py.exe", "boom".to_string(), Some(1), "err".to_string());
    assert_eq!(failed.executable, "py.exe");
    assert!(!failed.cuda_available);
    let report = ProbeReport {
        executable: None,
        python_version: Some("3.10.6".to_string()),
        torch_version: Some("2.1".to_string()),
        cuda_version: Some("12.1".to_string()),
        cuda_available: Some(true),
        device_name: Some("RTX".to_string()),
        xformers_version: None,
        bitsandbytes_version: None,
        error: None,
    };
    let env = environment_from_report("py.exe", report, Some(0), String::new());
    assert_eq!(env.executable, "py.exe");
    assert!(env.cuda_available);
}

#[test]
fn a_run_is_prepared_from_the_request() {
    let trainers = vec!["train_network.py".to_string()];
    assert!(trainer_available(&trainers, "train_network.py"));
    assert!(!trainer_available(&trainers, "sdxl_train_network.py"));
    assert_eq!(
        trainer_missing_message(r"D:\sd-scripts", "sdxl_train_network.py", "SDXL"),
        r"D:\sd-scripts 下没有找到 sdxl_train_network.py，无法按 SDXL 训练。"
    );
    assert_eq!(cache_te_config_path(r"D:\sets\dataset.toml"), r"D:\sets\dataset.cache-te.toml");
    assert_eq!(training_log_path(r" D:\out ", "  "), r"D:\out\lora-training.log");
    assert_eq!(training_log_path(r"D:\out", "miku"), r"D:\out\miku-training.log");
    assert_eq!(lora_install_destination(r" D:\out\miku.safetensors ", r"E:\ComfyUI\models\loras"), Some(r"E:\ComfyUI\models\loras\miku.safetensors".to_string()));
}
