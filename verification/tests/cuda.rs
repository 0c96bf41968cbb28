use anime_pic_manage::cuda::{
    cuda_dir_for, cuda_packages, installed_package_line, is_runtime_dll, pypi_url, runtime_status,
    select_wheel, wheel_entry_target, wheel_file_name, ReleaseFile,
};

#[test]
fn only_runtime_dlls_are_extracted() {
    assert!(is_runtime_dll("nvidia/cudnn/bin/cudnn64_9.dll"));
    assert!(is_runtime_dll("nvidia/cublas/bin/cublasLt64_12.dll"));
    assert!(!is_runtime_dll("nvidia/cudnn/bin/cudnn.lib"));
    assert!(!is_runtime_dll("nvidia_cudnn_cu12-9.0.dist-info/LICENSE.txt"));
    assert!(!is_runtime_dll("nvidia/cudnn/include/cudnn.h"));
}

#[test]
fn wheel_entries_are_flattened_to_their_file_names() {
    assert_eq!(wheel_entry_target("nvidia/cudnn/bin/cudnn64_9.dll"), Some("cudnn64_9.dll".to_string()));
    assert_eq!(wheel_entry_target(r"nvidia\cudnn\bin\CUDNN_OPS64_9.DLL"), Some("CUDNN_OPS64_9.DLL".to_string()));
    assert_eq!(wheel_entry_target("nvidia_cudnn_cu12-9.dist-info/METADATA"), None);
}

#[test]
fn the_windows_wheel_of_a_release_is_picked() {
    let files = vec![
        ReleaseFile { filename: Some("x-manylinux.whl".to_string()), url: Some("u1".to_string()) },
        ReleaseFile { filename: None, url: Some("u2".to_string()) },
        ReleaseFile { filename: Some("x-win_amd64.whl".to_string()), url: Some("u3".to_string()) },
        ReleaseFile { filename: Some("y-win_amd64.whl".to_string()), url: Some("u4".to_string()) },
    ];
    assert_eq!(select_wheel(&files), Some("u3".to_string()));
    assert_eq!(select_wheel(&Vec::new()), None);
}

#[test]
fn package_names_urls_and_summaries() {
    assert_eq!(cuda_packages().len(), 4);
    assert_eq!(cuda_packages()[3].1, "cuDNN 9");
    assert_eq!(pypi_url("nvidia-cudnn-cu12"), "https://pypi.org/pypi/nvidia-cudnn-cu12/json");
    assert_eq!(wheel_file_name("nvidia-cufft-cu12", "11.2"), "nvidia-cufft-cu12-11.2.whl");
    assert_eq!(installed_package_line("cuDNN 9", "9.1", 7), "cuDNN 9 9.1（7 个 DLL）");
    assert_eq!(cuda_dir_for(Some(r"D:\pkg".to_string()), r"E:\other\data"), r"D:\pkg\app\cuda");
    assert_eq!(cuda_dir_for(None, r"E:\pkg\data"), r"E:\pkg\app\cuda");
}

#[test]
fn runtime_status_lists_the_sorted_dlls() {
    let names = vec!["b.dll".to_string(), "readme.txt".to_string(), "A.DLL".to_string(), "cuda-runtime.json".to_string()];
    let status = runtime_status(r"D:\pkg\app\cuda".to_string(), names, 2048);
    assert!(status.installed);
    assert_eq!(status.packages, vec!["A.DLL".to_string(), "b.dll".to_string()]);
    let empty = runtime_status(String::new(), Vec::new(), 0);
    assert!(!empty.installed);
    assert_eq!(empty.message, "尚未下载 CUDA 运行时；GPU 版目前会回落到 CPU。");
}
