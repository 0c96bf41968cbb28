use anime_pic_manage::kohya::{
    build_arguments, disable_caption_shuffle, is_lora_artifact, kohya_probe_targets,
    parse_progress, resolve_paths, status, KohyaProbe, KohyaStatus, PythonSource, TrainerKind,
    TrainingRequest, SD15_TRAINER,
};

fn nothing() -> KohyaProbe {
    KohyaProbe {
        root_is_dir: false,
        sd15_in_sd_scripts: false,
        sdxl_in_sd_scripts: false,
        sd15_in_root: false,
        sdxl_in_root: false,
        root_venv: false,
        root_dot_venv: false,
        sd_scripts_venv: false,
        sd_scripts_dot_venv: false,
        root_embedded: false,
        parent_embedded: false,
        override_is_file: false,
    }
}

fn request() -> TrainingRequest {
    TrainingRequest {
        dataset_config: r"D:\work\dataset.toml".to_string(),
        output_dir: r"D:\work\out".to_string(),
        output_name: "character_alpha".to_string(),
        base_model: r"D:\work\base.safetensors".to_string(),
        trainer: TrainerKind::Sd15,
        network_dim: 32,
        network_alpha: 16,
        learning_rate_e8: 10_000,
        max_train_epochs: 10,
        train_batch_size: 1,
        gradient_accumulation_steps: 1,
        optimizer: "AdamW8bit".to_string(),
        mixed_precision: "fp16".to_string(),
        save_every_n_epochs: 1,
        seed: 42,
        max_data_loader_n_workers: 2,
        gradient_checkpointing: true,
        cache_latents: true,
        network_train_unet_only: true,
        cache_text_encoder_outputs: false,
        flip_aug: false,
        noise_offset_e4: 0,
    }
}

#[test]
fn unconfigured_status_explains_what_is_missing() {
    let status = status("", "", "", &nothing(), false);

    assert!(!status.configured);
    assert!(!status.installed);
    assert!(status.error.unwrap().contains("还没有配置"));
}

#[test]
fn caption_shuffle_is_disabled_for_text_encoder_caching() {
    let config = "[general]\nshuffle_caption = true\nkeep_tokens = 3\n\n[[datasets]]\nresolution = 1024\n";

    let rewritten = disable_caption_shuffle(config).expect("shuffling is turned off");

    assert!(rewritten.contains("shuffle_caption = false"));
    assert!(rewritten.contains("keep_tokens = 3"));
    assert!(rewritten.ends_with('\n'));
    assert!(disable_caption_shuffle(&rewritten).is_none());
    assert!(disable_caption_shuffle("[general]\nkeep_tokens = 1\n").is_none());
    assert_eq!(
        disable_caption_shuffle("  Shuffle_caption=TRUE").as_deref(),
        None
    );
    assert_eq!(
        disable_caption_shuffle("shuffle_caption   =  TRUE ").as_deref(),
        Some("shuffle_caption = false")
    );
}

#[test]
fn resolves_a_kohya_ss_layout_with_a_bundled_venv() {
    let probe = KohyaProbe {
        root_is_dir: true,
        sd15_in_sd_scripts: true,
        sdxl_in_sd_scripts: true,
        root_venv: true,
        ..nothing()
    };
    let paths = resolve_paths(r"E:\kohya_ss", "", &probe).expect("paths resolve");
    assert!(paths.sd_scripts.ends_with("sd-scripts"));
    assert!(paths.python.ends_with("python.exe"));
    assert_eq!(paths.python_source, PythonSource::VirtualEnv);
    assert_eq!(paths.trainers.len(), 2);
    assert_eq!(paths.python, r"E:\kohya_ss\venv\Scripts\python.exe");
}

#[test]
fn resolves_a_bare_sd_scripts_clone_and_prefers_an_explicit_python() {
    let probe = KohyaProbe {
        root_is_dir: true,
        sd15_in_root: true,
        override_is_file: true,
        ..nothing()
    };
    let paths = resolve_paths(r"E:\sd-scripts", r" E:\py\python.exe ", &probe).expect("resolves");
    assert_eq!(paths.sd_scripts, r"E:\sd-scripts");
    assert_eq!(paths.python_source, PythonSource::Settings);
    assert_eq!(paths.python, r"E:\py\python.exe");
    assert_eq!(paths.trainers, vec![SD15_TRAINER.to_string()]);
}

#[test]
fn rejects_an_unconfigured_or_unknown_root() {
    assert!(resolve_paths("", "", &nothing()).is_err());
    let probe = KohyaProbe { root_is_dir: true, ..nothing() };
    assert!(resolve_paths(r"E:\empty", "", &probe)
        .unwrap_err()
        .contains("train_network.py"));
    assert_eq!(
        resolve_paths(r"E:\gone", "", &nothing()).unwrap_err(),
        r"训练器目录不存在：E:\gone"
    );
}

#[test]
fn falls_back_to_python_on_path_and_reports_a_missing_override() {
    let probe = KohyaProbe { root_is_dir: true, sd15_in_root: true, ..nothing() };
    let paths = resolve_paths(r"E:\t", "", &probe).unwrap();
    assert_eq!(paths.python, "python");
    assert_eq!(paths.python_source, PythonSource::Path);
    assert!(paths.python_exists);
    let s = status(r"E:\t", r"E:\missing.exe", " base ", &probe, true);
    assert!(s.configured);
    assert!(!s.installed);
    assert_eq!(s.base_model, "base");
    assert!(s.base_model_exists);
    assert_eq!(
        s.error.as_deref(),
        Some(r"找不到可用的 Python：E:\missing.exe。请在设置里指定训练用的 python.exe。")
    );
    let targets = kohya_probe_targets(r"E:\t");
    assert_eq!(targets.sd15_in_sd_scripts, r"E:\t\sd-scripts\train_network.py");
    assert_eq!(targets.parent_embedded.as_deref(), Some(r"E:\python_embeded\python.exe"));
    let unconfigured = KohyaStatus::unconfigured("", true);
    assert!(!unconfigured.base_model_exists);
}

#[test]
fn builds_a_sd_scripts_argument_list() {
    let request = request();
    request.validate(true, true).expect("request is valid");
    let args = build_arguments(&request, r"D:\work\logs");

    assert!(args.contains(&"--dataset_config".to_string()));
    assert!(args.contains(&"--gradient_checkpointing".to_string()));
    assert!(args.contains(&"--cache_latents".to_string()));
    assert!(args.contains(&"--network_train_unet_only".to_string()));
    assert!(!args.contains(&"--flip_aug".to_string()));
    let dim = args.iter().position(|arg| arg == "--network_dim").unwrap();
    assert_eq!(args[dim + 1], "32");
    let lr = args.iter().position(|arg| arg == "--learning_rate").unwrap();
    assert_eq!(args[lr + 1], "0.00010000");
    let noise = args.iter().position(|arg| arg == "--noise_offset").unwrap();
    assert_eq!(args[noise + 1], "0.0000");
    assert!(!args.iter().any(|arg| arg == "--resolution"));
    assert!(!args.iter().any(|arg| arg == "--train_data_dir"));
    assert!(args.iter().any(|arg| arg == "--train_batch_size"));
    assert!(!args.iter().any(|arg| arg == "--caption_extension"));
}

#[test]
fn text_encoder_caching_requires_unet_only_training() {
    let request = TrainingRequest {
        cache_text_encoder_outputs: true,
        network_train_unet_only: false,
        ..request()
    };
    let error = request.validate(true, true).expect_err("combination is rejected");
    assert!(error.contains("仅训练 UNet"));
}

#[test]
fn caching_flag_is_forwarded_to_sd_scripts() {
    let request = TrainingRequest { cache_text_encoder_outputs: true, ..request() };
    request.validate(true, true).expect("request is valid");
    let args = build_arguments(&request, "logs");
    assert!(args.iter().any(|arg| arg == "--cache_text_encoder_outputs"));
}

#[test]
fn rejects_invalid_training_values() {
    let request = request();
    request.validate(true, true).expect("baseline is valid");
    let bad_epochs = TrainingRequest { max_train_epochs: 0, ..request.clone() };
    assert!(bad_epochs.validate(true, true).is_err());
    let bad_name = TrainingRequest { output_name: "../escape".to_string(), ..request.clone() };
    assert!(bad_name.validate(true, true).is_err());
    let bad_lr = TrainingRequest { learning_rate_e8: 500_000_000, ..request.clone() };
    assert!(bad_lr.validate(true, true).is_err());
    assert!(request.validate(true, false).unwrap_err().contains("底模"));
    let bad_precision = TrainingRequest { mixed_precision: "fp8".to_string(), ..request.clone() };
    assert!(bad_precision.validate(true, true).unwrap_err().contains("mixed_precision"));
}

#[test]
fn parses_tqdm_step_and_loss_lines() {
    let progress = parse_progress("steps:  12%|#2| 180/1500 [00:20<02:30, 1.2it/s, loss=0.0842]");
    assert_eq!(progress.step, Some(180));
    assert_eq!(progress.total_steps, Some(1500));
    assert_eq!(progress.loss_text.as_deref(), Some("0.0842"));
    assert_eq!(parse_progress("epoch 3/10").epoch, Some(3));
    assert_eq!(parse_progress("loading model").step, None);
    assert_eq!(parse_progress("steps: 0/0").total_steps, None);
}

#[test]
fn trainer_kinds_parse_case_insensitively() {
    assert_eq!(TrainerKind::parse("  SDXL "), Ok(TrainerKind::Sdxl));
    assert_eq!(TrainerKind::parse(""), Ok(TrainerKind::Sd15));
    assert_eq!(TrainerKind::parse("SD1.5"), Ok(TrainerKind::Sd15));
    assert_eq!(TrainerKind::parse("flux"), Err("未知的训练脚本类型：flux".to_string()));
    assert_eq!(TrainerKind::Sdxl.script(), "sdxl_train_network.py");
    assert_eq!(TrainerKind::Sd15.label(), "SD1.5 / SD2.x");
    assert_eq!(PythonSource::Embedded.label(), "便携版内置 Python");
}

#[test]
fn lists_only_lora_artifacts() {
    assert!(is_lora_artifact(r"D:\out\a.safetensors"));
    assert!(is_lora_artifact(r"D:\out\b.PT"));
    assert!(!is_lora_artifact(r"D:\out\notes.txt"));
    assert!(!is_lora_artifact(r"D:\out\safetensors"));
}

#[test]
fn default_request_is_a_conservative_starting_point() {
    let r = TrainingRequest::default_for(TrainerKind::Sdxl, "d.toml", "out", "base.safetensors");
    assert_eq!(r.network_dim, 32);
    assert_eq!(r.learning_rate_e8, 10_000);
    assert_eq!(r.output_name, "lora");
    assert!(r.validate(true, true).is_ok());
}

#[test]
fn lora_files_are_filtered_and_sorted() {
    let files = vec![
        r"D:\out\b.safetensors".to_string(),
        r"D:\out\notes.txt".to_string(),
        r"D:\out\a.PT".to_string(),
    ];
    assert_eq!(
        anime_pic_manage::kohya::lora_files(files),
        vec![r"D:\out\a.PT".to_string(), r"D:\out\b.safetensors".to_string()]
    );
}

#[test]
fn a_rewritten_crlf_config_needs_no_second_rewrite() {
    let config = "[general]\r\n  Shuffle_caption=TRUE\r\nshuffle_caption = yes \r\nkeep_tokens = 1\r\n";
    assert!(disable_caption_shuffle(config).is_none());
    let config = "[general]\r\nshuffle_caption = TRUE\r\n\r\nkeep_tokens = 1";
    let rewritten = disable_caption_shuffle(config).expect("shuffling is turned off");
    assert_eq!(rewritten, "[general]\nshuffle_caption = false\n\nkeep_tokens = 1");
    assert!(disable_caption_shuffle(&rewritten).is_none());
}

#[test]
fn only_shuffling_lines_are_rewritten() {
    let config = "a\r\r\nshuffle_caption=true\n# shuffle_caption = true";
    let rewritten = disable_caption_shuffle(config).expect("a line shuffles");
    assert_eq!(rewritten, "a\r\nshuffle_caption = false\n# shuffle_caption = true");
    let lines: Vec<&str> = rewritten.lines().collect();
    assert_eq!(lines, vec!["a", "shuffle_caption = false", "# shuffle_caption = true"]);
    assert!(!rewritten.ends_with('\n'));
}
