use anime_pic_manage::app_settings::{
    decode_setting_value, default_similarity_workers, encode_setting_value, load_app_settings, parse_bool, proxy_url,
    setting_table_rows, setting_text, settings_entries, AppSettings,
    SettingRows, MAX_ONNX_THREADS, MAX_SIMILARITY_WORKERS, MAX_UI_FONT_HALF_PX, MIN_UI_FONT_HALF_PX,
};
use anime_pic_manage::database::{
    COMFY_PORT_SETTING, COMFY_ROOT_SETTING, REFERENCE_BACKEND_SETTING, SIMILARITY_THRESHOLD_SETTING,
    SIMILARITY_WORKERS_SETTING,
};

const WORKERS: u32 = 4;

fn empty_rows() -> SettingRows {
    SettingRows {
        onnx_threads: None,
        skip_annotated: None,
        similarity_workers: None,
        similarity_threshold_hundredths: None,
        include_subfolders: None,
        archive_dir: None,
        ui_font_half_px: None,
        comfy_root: None,
        comfy_port: None,
        comfy_low_vram: None,
        comfy_auto_start: None,
        comfy_output_dir: None,
        lora_trainer_root: None,
        lora_trainer_python: None,
        lora_trainer_base_model: None,
        lora_trainer_output_dir: None,
        cuda_runtime_dir: None,
        recognizer_model: None,
        background_priority: None,
        reference_matching: None,
        reference_backend: None,
        network_proxy: None,
    }
}

/// Read stored rows back the way the settings table is read: the two
/// decimal settings are parsed as numbers and range-checked.
fn rows_from(entries: &[(String, String)]) -> SettingRows {
    let mut rows = empty_rows();
    for (key, value) in entries {
        let v = Some(value.clone());
        match key.as_str() {
            "worker.onnx_threads" => rows.onnx_threads = v,
            "recognition.skip_annotated" => rows.skip_annotated = v,
            "similarity.workers" => rows.similarity_workers = v,
            "similarity.threshold" => {
                rows.similarity_threshold_hundredths = value
                    .parse::<f64>()
                    .ok()
                    .filter(|t| t.is_finite() && (0.5..=0.99).contains(t))
                    .map(|t| (t * 100.0).round() as u32)
            },
            "similarity.include_subfolders" => rows.include_subfolders = v,
            "similarity.archive_dir" => rows.archive_dir = v,
            "ui.font_size" => {
                rows.ui_font_half_px = value
                    .parse::<f64>()
                    .ok()
                    .filter(|t| t.is_finite() && (12.0..=20.0).contains(t))
                    .map(|t| (t * 2.0).round() as u32)
            },
            "comfy.root" => rows.comfy_root = v,
            "comfy.port" => rows.comfy_port = v,
            "comfy.low_vram" => rows.comfy_low_vram = v,
            "comfy.auto_start" => rows.comfy_auto_start = v,
            "comfy.output_dir" => rows.comfy_output_dir = v,
            "lora_trainer.root" => rows.lora_trainer_root = v,
            "lora_trainer.python" => rows.lora_trainer_python = v,
            "lora_trainer.base_model" => rows.lora_trainer_base_model = v,
            "lora_trainer.output_dir" => rows.lora_trainer_output_dir = v,
            "worker.cuda_runtime_dir" => rows.cuda_runtime_dir = v,
            "recognition.recognizer_model" => rows.recognizer_model = v,
            "worker.background_priority" => rows.background_priority = v,
            "recognition.reference_matching" => rows.reference_matching = v,
            "recognition.reference_backend" => rows.reference_backend = v,
            "network.proxy" => rows.network_proxy = v,
            other => panic!("unexpected key {other}"),
        }
    }
    rows
}

fn value_of<'a>(entries: &'a [(String, String)], key: &str) -> Option<&'a str> {
    entries.iter().find(|(k, _)| k == key).map(|(_, v)| v.as_str())
}

fn defaults() -> AppSettings {
    AppSettings::defaults(WORKERS)
}

fn same(a: &AppSettings, b: &AppSettings) -> bool {
    format!("{a:?}") == format!("{b:?}")
}

#[test]
fn saving_writes_every_key_in_one_go() {
    let mut settings = defaults();
    settings.comfy_root = "E:/ComfyUI-aki-v3".to_string();
    settings.comfy_port = 8199;
    settings.reference_backend = "embedding".to_string();
    let entries = settings_entries(settings).expect("save settings");
    assert_eq!(value_of(&entries, COMFY_ROOT_SETTING), Some("E:/ComfyUI-aki-v3"));
    assert_eq!(value_of(&entries, COMFY_PORT_SETTING), Some("8199"));
    assert_eq!(value_of(&entries, REFERENCE_BACKEND_SETTING), Some("embedding"));
    assert_eq!(entries.len(), 22, "every setting must be persisted");
}

#[test]
fn settings_round_trip_through_the_settings_table() {
    assert!(same(&load_app_settings(empty_rows(), WORKERS), &defaults()));
    let custom = AppSettings {
        recognition_onnx_threads: 8,
        recognition_skip_annotated: false,
        similarity_workers: 6,
        similarity_threshold_hundredths: 92,
        similarity_include_subfolders: false,
        similarity_archive_dir: "dupes".to_string(),
        ui_font_half_px: 31,
        comfy_root: "E:/freetime/AI_Draw/ComfyUI-aki/ComfyUI-aki-v3".to_string(),
        comfy_port: 8199,
        comfy_low_vram: true,
        comfy_auto_start: true,
        comfy_output_dir: "E:/generated".to_string(),
        lora_trainer_root: "E:/kohya_ss".to_string(),
        lora_trainer_python: String::new(),
        lora_trainer_base_model: String::new(),
        lora_trainer_output_dir: "E:/lora-models".to_string(),
        cuda_runtime_dir: "E:/cuda-runtime".to_string(),
        recognition_recognizer_model: "camie-initial".to_string(),
        background_priority: "normal".to_string(),
        reference_matching_enabled: true,
        reference_backend: "ccip".to_string(),
        network_proxy: "http://127.0.0.1:8080".to_string(),
    };
    let entries = settings_entries(custom.clone()).expect("save settings");
    assert_eq!(value_of(&entries, SIMILARITY_THRESHOLD_SETTING), Some("0.92"));
    assert_eq!(value_of(&entries, "ui.font_size"), Some("15.5"));
    let loaded = load_app_settings(rows_from(&entries), WORKERS);
    assert!(same(&loaded, &custom), "{loaded:?}");
}

#[test]
fn comfy_settings_round_trip_and_validate() {
    let mut custom = defaults();
    custom.comfy_root = "  E:/freetime/AI_Draw/ComfyUI-aki/ComfyUI-aki-v3  ".to_string();
    custom.comfy_port = 8188;
    custom.comfy_low_vram = false;
    custom.comfy_auto_start = true;
    custom.comfy_output_dir = "  E:/generated  ".to_string();
    let entries = settings_entries(custom).expect("save comfy settings");
    let loaded = load_app_settings(rows_from(&entries), WORKERS);
    assert_eq!(loaded.comfy_root, "E:/freetime/AI_Draw/ComfyUI-aki/ComfyUI-aki-v3");
    assert_eq!(loaded.comfy_output_dir, "E:/generated");
    assert_eq!(loaded.comfy_port, 8188);
    assert!(!loaded.comfy_low_vram);
    assert!(loaded.comfy_auto_start);
}

#[test]
fn invalid_comfy_port_is_rejected() {
    let mut bad_port = defaults();
    bad_port.comfy_port = 80;
    assert!(bad_port.validated().is_err());
}

#[test]
fn proxy_value_is_normalized_and_validated() {
    assert_eq!(proxy_url("127.0.0.1:7890").as_deref(), Some("http://127.0.0.1:7890"));
    assert_eq!(proxy_url("https://proxy.example:443").as_deref(), Some("https://proxy.example:443"));
    let mut bad = defaults();
    bad.network_proxy = "not a proxy".to_string();
    assert!(bad.validated().is_err());
}

#[test]
fn validation_rejects_out_of_range_values() {
    let mut too_many_threads = defaults();
    too_many_threads.recognition_onnx_threads = MAX_ONNX_THREADS + 1;
    assert!(too_many_threads.validated().is_err());

    let mut too_parallel = defaults();
    too_parallel.similarity_workers = MAX_SIMILARITY_WORKERS + 1;
    assert!(too_parallel.validated().is_err());

    let mut bad_threshold = defaults();
    bad_threshold.similarity_threshold_hundredths = 20;
    assert!(bad_threshold.validated().is_err());

    let mut bad_archive = defaults();
    bad_archive.similarity_archive_dir = "..\\escape".to_string();
    assert!(bad_archive.validated().is_err());
}

#[test]
fn corrupted_setting_values_fall_back_to_defaults() {
    let entries = vec![
        (SIMILARITY_WORKERS_SETTING.to_string(), "not-a-number".to_string()),
        (SIMILARITY_THRESHOLD_SETTING.to_string(), "5.0".to_string()),
    ];
    let loaded = load_app_settings(rows_from(&entries), default_similarity_workers(Some(WORKERS)));
    assert_eq!(loaded.similarity_workers, default_similarity_workers(Some(WORKERS)));
    assert_eq!(loaded.similarity_threshold_hundredths, 85);
}

#[test]
fn ui_font_size_is_clamped_and_snapped_to_half_pixels() {
    let mut too_small = defaults();
    too_small.ui_font_half_px = 8;
    assert_eq!(too_small.validated().unwrap().ui_font_half_px, MIN_UI_FONT_HALF_PX);

    let mut too_large = defaults();
    too_large.ui_font_half_px = 198;
    assert_eq!(too_large.validated().unwrap().ui_font_half_px, MAX_UI_FONT_HALF_PX);

    let mut in_between = defaults();
    in_between.ui_font_half_px = (14.26f64 * 2.0).round() as u32;
    assert_eq!(in_between.validated().unwrap().ui_font_half_px, 29);
}

#[test]
fn validation_is_idempotent_and_normalizes_words() {
    let mut messy = defaults();
    messy.background_priority = "  NORMAL ".to_string();
    messy.reference_backend = "Embedding".to_string();
    messy.network_proxy = "  127.0.0.1:7890  ".to_string();
    let once = messy.validated().expect("valid");
    assert_eq!(once.background_priority, "normal");
    assert_eq!(once.reference_backend, "embedding");
    assert_eq!(once.network_proxy, "127.0.0.1:7890");
    let twice = once.clone().validated().expect("still valid");
    assert!(same(&once, &twice));
}

#[test]
fn defaults_and_switches() {
    assert_eq!(default_similarity_workers(None), 4);
    assert_eq!(default_similarity_workers(Some(0)), 1);
    assert_eq!(default_similarity_workers(Some(64)), 8);
    assert!(parse_bool(Some("1".to_string()), false));
    assert!(!parse_bool(Some("false".to_string()), true));
    assert!(parse_bool(Some("maybe".to_string()), true));
    assert!(!parse_bool(None, false));
}

#[test]
fn the_settings_table_reads_back_what_a_save_wrote() {
    let mut settings = defaults();
    settings.comfy_root = "E:/Comfy \"aki\"\\v3".to_string();
    settings.comfy_port = 8199;
    let rows = setting_table_rows(settings).expect("save settings");
    assert_eq!(rows.len(), 22);
    let port = rows.iter().find(|(k, _)| k == COMFY_PORT_SETTING).expect("port row");
    assert_eq!(port.1, "\"8199\"");
    assert_eq!(setting_text(&rows, COMFY_ROOT_SETTING), Ok(Some("E:/Comfy \"aki\"\\v3".to_string())));
    assert_eq!(setting_text(&rows, COMFY_PORT_SETTING), Ok(Some("8199".to_string())));
    assert_eq!(setting_text(&rows, "no.such.key"), Ok(None));
    let broken = vec![(COMFY_PORT_SETTING.to_string(), "8199".to_string())];
    assert!(setting_text(&broken, COMFY_PORT_SETTING).unwrap_err().starts_with("无法序列化个人特征向量: "));
}

#[test]
fn setting_values_are_json_strings() {
    assert_eq!(encode_setting_value("a\"b"), "\"a\\\"b\"");
    assert_eq!(decode_setting_value("\"a\\\"b\""), Ok("a\"b".to_string()));
    assert!(decode_setting_value("12").is_err());
}
