use anime_pic_manage::comfy::{
    collect_images, default_batch, default_sampler, default_scheduler, default_seed, default_size,
    default_steps, generation_progress, parse_version, poll_step, probe_targets, resolve_paths, resolved_seed,
    seed_from_random, summarize, ComfyError, ComfyLayoutProbe, GenerationStage, HistoryImage, HistoryPoll,
    PollStep, listener_pid_in, task_name_in, foreign_listener_action, stop_failure_message, ListenerAction,
    ChildState, ComfyManager, reply_strings, node_input_options, http_failure_error,
};
use anime_pic_manage::workflow::Json;

fn nothing_exists() -> ComfyLayoutProbe {
    ComfyLayoutProbe {
        nested_main: false,
        direct_main: false,
        root_python: false,
        parent_python: false,
        parent_venv_python: false,
    }
}

#[test]
fn summarize_collapses_and_truncates() {
    let text = "line one\n\nline two   with   spaces";
    assert_eq!(summarize(text), "line one line two with spaces");

    let long = "a".repeat(400);
    let summary = summarize(&long);
    assert_eq!(summary.chars().count(), 301);
    assert!(summary.ends_with('…'));
}

#[test]
fn rejects_an_unconfigured_or_invalid_root() {
    assert!(matches!(
        resolve_paths("", "", 8188, &nothing_exists()),
        Err(ComfyError::NotConfigured)
    ));
    assert!(matches!(
        resolve_paths("D:/definitely/missing", "", 8188, &nothing_exists()),
        Err(ComfyError::InvalidRoot(_))
    ));
}

#[test]
fn resolves_a_portable_package_layout() {
    let probe = ComfyLayoutProbe {
        nested_main: true,
        root_python: true,
        ..nothing_exists()
    };
    let paths = resolve_paths(r"  E:\ComfyUI-aki  ", "", 8188, &probe).expect("paths resolve");
    assert_eq!(paths.root, r"E:\ComfyUI-aki");
    assert_eq!(paths.app_dir, r"E:\ComfyUI-aki\ComfyUI");
    assert_eq!(paths.python, r"E:\ComfyUI-aki\python\python.exe");
    assert_eq!(paths.main_script, r"E:\ComfyUI-aki\ComfyUI\main.py");
    assert!(paths.models_dir.ends_with("models"));
    assert!(paths.loras_dir.ends_with(r"models\loras"));
    assert_eq!(paths.output_dir, r"E:\ComfyUI-aki\Images\generated");
}

#[test]
fn resolves_when_pointed_directly_at_the_app_directory() {
    let probe = ComfyLayoutProbe {
        direct_main: true,
        parent_venv_python: true,
        ..nothing_exists()
    };
    let paths = resolve_paths(r"E:\aki\ComfyUI", r"  F:\out  ", 8188, &probe).expect("resolves");
    assert_eq!(paths.root, r"E:\aki");
    assert!(paths.app_dir.ends_with("ComfyUI"));
    assert_eq!(paths.python, r"E:\aki\venv\Scripts\python.exe");
    assert_eq!(paths.output_dir, r"F:\out");
    let targets = probe_targets(r"E:\aki\ComfyUI");
    assert_eq!(targets.direct_main, r"E:\aki\ComfyUI\main.py");
    assert_eq!(targets.parent_python.as_deref(), Some(r"E:\aki\python\python.exe"));
}

#[test]
fn a_missing_python_is_reported_with_its_path() {
    let probe = ComfyLayoutProbe {
        nested_main: true,
        ..nothing_exists()
    };
    match resolve_paths(r"E:\aki", "", 8188, &probe) {
        Err(error) => assert_eq!(
            error.message(),
            r"ComfyUI 目录无效：E:\aki\python\python.exe 下没有找到 python.exe"
        ),
        Ok(_) => panic!("python is missing"),
    }
    assert_eq!(ComfyError::NotConfigured.message(), "未配置 ComfyUI 目录");
}

#[test]
fn version_is_read_from_the_first_assignment() {
    assert_eq!(
        parse_version("# generated\n__version__ = \"0.9.2\"\n").as_deref(),
        Some("0.9.2")
    );
    assert_eq!(parse_version("x = 1\r\n  __version__='1.0'\r\n").as_deref(), Some("1.0"));
    assert_eq!(parse_version("nothing here"), None);
}

#[test]
fn generate_request_defaults_are_anime_friendly() {
    assert_eq!(default_steps(), 24);
    assert_eq!(default_size(), 832);
    assert_eq!(default_batch(), 1);
    assert_eq!(default_seed(), -1);
    assert_eq!(default_sampler(), "euler_ancestral");
    assert_eq!(default_scheduler(), "normal");
}

fn image(filename: &str, subfolder: &str) -> HistoryImage {
    HistoryImage { filename: Some(filename.to_string()), subfolder: Some(subfolder.to_string()) }
}

#[test]
fn negative_seeds_become_random_valid_seeds() {
    let seed = resolved_seed(-1);
    assert!((0..2_147_483_647).contains(&seed));
    assert_eq!(resolved_seed(4242), 4242);
    assert_ne!(resolved_seed(-1), resolved_seed(-1));
    assert_eq!(seed_from_random(-1, 2_147_483_648), 1);
    assert_eq!(seed_from_random(7, 99), 7);
}

#[test]
fn collects_images_from_history_payload() {
    // Output "9" lists two images; output "11" lists none.
    let outputs = vec![
        vec![image("anime-pic-manage_00001_.png", ""), image("anime-pic-manage_00002_.png", "batch")],
        vec![],
    ];
    let images = collect_images(&outputs);
    assert_eq!(images.len(), 2);
    assert_eq!(images[0].filename, "anime-pic-manage_00001_.png");
    assert_eq!(images[1].subfolder, "batch");
}

#[test]
fn missing_outputs_yield_no_images() {
    assert!(collect_images(&vec![]).is_empty());
}

#[test]
fn images_without_a_file_name_are_skipped() {
    let outputs = vec![vec![HistoryImage { filename: None, subfolder: Some("x".to_string()) }, HistoryImage {
        filename: Some("a.png".to_string()),
        subfolder: None,
    }]];
    let images = collect_images(&outputs);
    assert_eq!(images.len(), 1);
    assert_eq!(images[0].subfolder, "");
    assert_eq!(images[0].path, "");
}

#[test]
fn polling_prefers_cancellation_then_follows_the_history() {
    assert!(matches!(poll_step(true, HistoryPoll::Finished, 3, "p"), PollStep::Interrupt));
    assert!(matches!(poll_step(false, HistoryPoll::Finished, 3, "p"), PollStep::Collect));
    match poll_step(false, HistoryPoll::Pending, 12, "p1") {
        PollStep::Wait(progress) => {
            assert_eq!(progress.message, "正在生成…（已用 12 秒）");
            assert_eq!(progress.prompt_id.as_deref(), Some("p1"));
        },
        other => panic!("unexpected {other:?}"),
    }
    match poll_step(false, HistoryPoll::Failed("gone".to_string()), 1, "p1") {
        PollStep::Fail(progress) => assert_eq!(progress.phase, "error"),
        other => panic!("unexpected {other:?}"),
    }
}

#[test]
fn generation_progress_messages() {
    let p = generation_progress(GenerationStage::Downloading { index: 0, total: 2 }, None);
    assert_eq!(p.message, "正在保存生成图 1/2…");
    assert_eq!((p.current, p.total), (0, 2));
    let p = generation_progress(GenerationStage::Completed { total: 3 }, Some("id".to_string()));
    assert_eq!(p.phase, "completed");
    assert_eq!(p.message, "已生成 3 张图片。");
}

#[test]
fn the_listening_process_is_read_from_netstat() {
    let netstat = "\r\nActive Connections\r\n\r\n  Proto  Local Address          Foreign Address        State           PID\r\n  TCP    0.0.0.0:135            0.0.0.0:0              LISTENING       1000\r\n  TCP    127.0.0.1:81880        0.0.0.0:0              LISTENING       7\r\n  TCP    127.0.0.1:8188         127.0.0.1:50000        ESTABLISHED     8\r\n  tcp    127.0.0.1:8188         0.0.0.0:0              listening       4242\r\n";
    assert_eq!(listener_pid_in(netstat, 8188), Some(4242));
    assert_eq!(listener_pid_in(netstat, 9999), None);
    assert_eq!(listener_pid_in("  TCP 127.0.0.1:8188 0.0.0.0:0 LISTENING x\n", 8188), None);
}

#[test]
fn the_task_name_is_the_first_csv_field() {
    assert_eq!(task_name_in("\"python.exe\",\"4242\",\"Console\",\"1\",\"120,000 K\"\r\n").as_deref(), Some("python.exe"));
    assert_eq!(task_name_in(""), None);
    assert_eq!(task_name_in("\"\"\n"), None);
}

#[test]
fn only_python_processes_are_stopped() {
    assert_eq!(foreign_listener_action(8188, 42, Some("Python.exe".to_string())), ListenerAction::Stop);
    assert_eq!(
        foreign_listener_action(8188, 42, Some("nginx.exe".to_string())),
        ListenerAction::Leave("端口 8188 被 nginx.exe（PID 42）占用，它不是 Python/ComfyUI 进程，未自动结束。".to_string())
    );
    assert_eq!(
        foreign_listener_action(8188, 42, None),
        ListenerAction::Leave("端口 8188 被 PID 42 占用，但无法确认进程名。".to_string())
    );
    assert_eq!(stop_failure_message("python.exe", 42, " denied \n"), "结束 python.exe（PID 42）失败：denied");
}

#[test]
fn comfyui_is_launched_on_the_loopback_address() {
    assert_eq!(
        anime_pic_manage::comfy::launch_arguments("D:\\ComfyUI\\main.py", 8188, true),
        vec!["D:\\ComfyUI\\main.py", "--listen", "127.0.0.1", "--port", "8188", "--preview-method", "none", "--lowvram"]
    );
    assert_eq!(anime_pic_manage::comfy::launch_arguments("m.py", 9000, false).len(), 7);
    assert_eq!(anime_pic_manage::comfy::already_started_error().message(), "ComfyUI 返回错误：ComfyUI 已由本应用启动");
}

#[test]
fn comfy_manager_stops_only_what_it_started() {
    let mut manager = ComfyManager::new();
    assert!(!manager.is_owned());
    assert!(!manager.stop());
    assert!(manager.check_start(ChildState::Missing).is_ok());
    manager.started();
    assert!(manager.is_owned());
    assert!(manager.owns_running_process(ChildState::Running));
    assert!(matches!(
        manager.check_start(ChildState::Running),
        Err(ComfyError::Response(m)) if m == "ComfyUI 已由本应用启动"
    ));
    assert!(manager.stop());
    assert!(!manager.is_owned());
    assert!(!manager.stop());
}

#[test]
fn comfy_manager_forgets_an_exited_process() {
    let mut manager = ComfyManager::new();
    manager.started();
    assert!(!manager.owns_running_process(ChildState::Exited));
    assert!(!manager.is_owned());
    assert!(!manager.owns_running_process(ChildState::Running));
    manager.started();
    assert!(!manager.owns_running_process(ChildState::Missing));
    assert!(manager.is_owned());
}

fn jtext(s: &str) -> Json {
    Json::Str(s.to_string())
}

fn jobject(entries: Vec<(&str, Json)>) -> Json {
    Json::Obj(entries.into_iter().map(|(k, v)| (k.to_string(), v)).collect())
}

#[test]
fn model_lists_keep_only_the_strings() {
    let reply = Json::Arr(vec![jtext("a.safetensors"), Json::Num("3".to_string()), jtext("b.ckpt")]);
    assert_eq!(reply_strings(&reply), vec!["a.safetensors".to_string(), "b.ckpt".to_string()]);
    assert!(reply_strings(&jobject(vec![])).is_empty());
}

#[test]
fn node_input_options_prefer_required_inputs() {
    let samplers = Json::Arr(vec![Json::Arr(vec![jtext("euler"), jtext("dpmpp_2m")]), jobject(vec![])]);
    let info = jobject(vec![(
        "KSampler",
        jobject(vec![(
            "input",
            jobject(vec![
                ("required", jobject(vec![("sampler_name", samplers)])),
                ("optional", jobject(vec![("scheduler", Json::Arr(vec![Json::Arr(vec![jtext("karras")])]))])),
            ]),
        )]),
    )]);
    assert_eq!(
        node_input_options(&info, "KSampler", "sampler_name"),
        vec!["euler".to_string(), "dpmpp_2m".to_string()]
    );
    assert!(node_input_options(&info, "KSampler", "scheduler").is_empty());
    assert!(node_input_options(&info, "Other", "sampler_name").is_empty());
    let optional_only = jobject(vec![(
        "Node",
        jobject(vec![("input", jobject(vec![("optional", jobject(vec![("mode", Json::Arr(vec![Json::Arr(vec![jtext("x")])]))]))]))]),
    )]);
    assert_eq!(node_input_options(&optional_only, "Node", "mode"), vec!["x".to_string()]);
}

#[test]
fn http_failures_name_the_path_and_status() {
    match http_failure_error("/prompt", 400, "  bad\n  request ") {
        ComfyError::Response(m) => assert_eq!(m, "/prompt -> HTTP 400: bad request"),
        other => panic!("unexpected {other:?}"),
    }
}
