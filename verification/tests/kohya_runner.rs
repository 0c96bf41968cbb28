use anime_pic_manage::kohya_runner::{KohyaManager, RunMetadata, MAX_LOG_LINES};

fn meta() -> RunMetadata {
    RunMetadata {
        output_dir: "D:\\out".to_string(),
        output_name: "character_alpha".to_string(),
        base_model: "base.safetensors".to_string(),
        dataset_config: "dataset.toml".to_string(),
        log_path: "D:\\out\\train.log".to_string(),
    }
}

#[test]
fn idle_manager_reports_no_run() {
    let mut manager = KohyaManager::new();
    let snapshot = manager.snapshot(0, vec![]);

    assert!(!snapshot.running);
    assert!(!snapshot.finished);
    assert!(snapshot.log_tail.is_empty());
    assert!(manager.stop().is_ok());
}

#[test]
fn stopping_without_a_run_is_a_no_op() {
    let mut manager = KohyaManager::new();

    assert!(!manager.stop().expect("stop should not fail"));
}

#[test]
fn refuses_to_start_a_second_run() {
    let mut manager = KohyaManager::new();
    assert!(manager.check_start().is_ok());
    manager.begin(meta(), 4242, 1_700_000_000);
    let error = manager.check_start().expect_err("second run is refused");
    assert!(error.contains("已经有一个训练任务在运行"));
    assert!(manager.stop().expect("stop succeeds"));
    manager.stopped(vec![]);
    assert!(manager.check_start().is_ok());
}

#[test]
fn streams_a_finished_run_and_collects_its_artifacts() {
    let mut manager = KohyaManager::new();
    manager.begin(meta(), 7, 100);
    assert!(manager.is_running());
    assert_eq!(manager.snapshot.message, "训练进程已启动（PID 7）");
    manager.record_line("epoch 1/1".to_string());
    manager.record_line("steps:  100%|██████████| 10/10 [00:05<00:00, avr_loss=0.1250]".to_string());
    manager.record_line("loss=0.1250".to_string());
    manager.record_line("   ".to_string());
    manager.record_line("training finished".to_string());

    let streamed = manager.snapshot(5, vec![]);
    assert_eq!(streamed.step, Some(10));
    assert_eq!(streamed.total_steps, Some(10));
    assert_eq!(streamed.epoch, Some(1));
    assert_eq!(streamed.loss_text.as_deref(), Some("0.1250"));
    assert_eq!(streamed.message, "training finished");
    assert_eq!(streamed.elapsed_secs, 5);
    assert_eq!(streamed.log_tail.len(), 5);

    let final_snapshot = manager.finish(Some(0), vec!["D:\\out\\character_alpha.safetensors".to_string()]).expect("exit reported");
    assert_eq!(final_snapshot.exit_code, Some(0));
    assert!(final_snapshot.finished);
    assert!(!final_snapshot.running);
    assert_eq!(final_snapshot.output_name, "character_alpha");
    assert_eq!(final_snapshot.message, "训练完成。");
    assert!(manager.finish(Some(0), vec![]).is_none(), "the exit is reported once");

    let after = manager.snapshot(99, vec!["D:\\out\\character_alpha.safetensors".to_string()]);
    assert!(after.artifacts.iter().any(|path| path.ends_with(".safetensors")));
    assert_eq!(after.elapsed_secs, 5, "the clock stops with the run");
}

#[test]
fn failed_exits_are_explained() {
    let mut manager = KohyaManager::new();
    manager.begin(meta(), 1, 0);
    let snapshot = manager.finish(Some(-3), vec![]).unwrap();
    assert_eq!(snapshot.message, "训练进程退出（退出码 -3），请查看日志。");
    let mut manager = KohyaManager::new();
    manager.begin(meta(), 1, 0);
    assert_eq!(manager.finish(None, vec![]).unwrap().message, "训练进程已结束，请查看日志。");
}

#[test]
fn the_log_tail_keeps_the_last_lines() {
    let mut manager = KohyaManager::new();
    manager.begin(meta(), 1, 0);
    for i in 0..(MAX_LOG_LINES + 5) {
        manager.record_line(format!("line {i}"));
    }
    let snapshot = manager.snapshot(0, vec![]);
    assert_eq!(snapshot.log_tail.len(), MAX_LOG_LINES);
    assert_eq!(snapshot.log_tail[0], "line 5");
    assert_eq!(snapshot.log_tail[MAX_LOG_LINES - 1], format!("line {}", MAX_LOG_LINES + 4));
}

#[test]
fn a_loss_that_is_not_a_number_keeps_the_previous_one() {
    let mut manager = KohyaManager::new();
    manager.begin(meta(), 1, 0);
    manager.record_line("loss=0.5".to_string());
    manager.record_line("loss=1.2.3".to_string());
    assert_eq!(manager.snapshot(0, vec![]).loss_text.as_deref(), Some("0.5"));
}
