use anime_pic_manage::worker_environment::{
    asset_name, build_flavor, check_archive_entry, checksum_matches, download_url,
    environment_probe_targets, environment_ready, parse_expected_sha256, resume_plan,
    status_for_root, ArchiveEntryError, check_download, DownloadDigest,
};

#[test]
fn runtime_asset_is_independent_from_the_application_package() {
    assert_eq!(asset_name("1.2.3", "gpu"), "AnimePicManage-1.2.3-windows-x64-gpu-runtime.zip");
}

#[test]
fn the_flavor_file_decides_cpu_or_gpu() {
    assert_eq!(build_flavor(Some(" GPU\r\n".to_string())), "gpu");
    assert_eq!(build_flavor(Some("cpu".to_string())), "cpu");
    assert_eq!(build_flavor(Some("tpu".to_string())), "cpu");
    assert_eq!(build_flavor(None), "cpu");
}

#[test]
fn release_urls_and_probe_targets() {
    assert_eq!(
        download_url("1.2.3", "a.zip"),
        "https://github.com/RoamerFly/anime-pic-manage/releases/download/v1.2.3/a.zip"
    );
    let (worker, python) = environment_probe_targets(r"D:\pkg\app");
    assert_eq!(worker, r"D:\pkg\app\runtime\ai-worker.exe");
    assert_eq!(python, r"D:\pkg\app\env\Scripts\python.exe");
    assert!(environment_ready(true, true));
    assert!(!environment_ready(true, false));
    let status = status_for_root(r"D:\pkg", "cpu".to_string(), "1.0.0", None, false);
    assert_eq!(status.directory, r"D:\pkg\app");
    assert_eq!(status.asset_name, "AnimePicManage-1.0.0-windows-x64-cpu-runtime.zip");
}

#[test]
fn published_checksums_are_read_from_the_first_word() {
    let digest = "ABCDEF0123456789abcdef0123456789ABCDEF0123456789abcdef0123456789";
    let text = format!("{digest}  AnimePicManage.zip\n");
    let parsed = parse_expected_sha256(&text).unwrap();
    assert_eq!(parsed, digest.to_ascii_lowercase());
    assert!(checksum_matches(&parsed, &digest.to_ascii_lowercase()));
    assert_eq!(parse_expected_sha256("short  file.zip"), None);
    assert_eq!(parse_expected_sha256("   "), None);
}

#[test]
fn archive_entries_must_stay_in_runtime_or_env() {
    assert_eq!(check_archive_entry(Some("runtime/ai-worker.exe".to_string()), "x".to_string()).ok(), Some("runtime/ai-worker.exe".to_string()));
    assert!(check_archive_entry(Some(r"ENV\Scripts\python.exe".to_string()), "x".to_string()).is_ok());
    match check_archive_entry(Some("other/file".to_string()), "x".to_string()) {
        Err(ArchiveEntryError::UnknownTopLevel(p)) => assert_eq!(p, "other/file"),
        _ => panic!("unknown top level accepted"),
    }
    match check_archive_entry(None, "../evil".to_string()) {
        Err(ArchiveEntryError::Unsafe(n)) => assert_eq!(n, "../evil"),
        _ => panic!("unsafe entry accepted"),
    }
}

#[test]
fn downloads_resume_only_on_partial_content() {
    assert_eq!(resume_plan(100, true, Some(50)), (true, 100, 150));
    assert_eq!(resume_plan(100, false, Some(50)), (false, 0, 50));
    assert_eq!(resume_plan(0, true, None), (false, 0, 0));
}

#[test]
fn a_fresh_download_ignores_the_size_already_on_disk() {
    assert_eq!(resume_plan(u64::MAX, false, Some(10)), (false, 0, 10));
}

#[test]
fn downloads_are_checked_against_their_sha256() {
    let mut digest = DownloadDigest::new();
    digest.update(b"ab");
    digest.update(b"c");
    assert_eq!(
        check_download(
            digest,
            "ba7816bf8f01cfea414140de5dae2223b00361a396177a9cb410ff61f20015ad"
        ),
        Ok(())
    );
    let empty = DownloadDigest::new();
    assert_eq!(
        empty.finish_hex(),
        "e3b0c44298fc1c149afbf4c8996fb92427ae41e4649b934ca495991b7852b855"
    );
    let mut damaged = DownloadDigest::new();
    damaged.update(b"abd");
    assert_eq!(
        check_download(
            damaged,
            "ba7816bf8f01cfea414140de5dae2223b00361a396177a9cb410ff61f20015ad"
        ),
        Err("AI 运行环境 SHA-256 校验失败，已删除损坏下载。".to_string())
    );
}
