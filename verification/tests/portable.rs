use anime_pic_manage::portable::{
    portable_app_dir, portable_cuda_dir, portable_data_dir, portable_output_dir, portable_root,
    portable_temp_dir, PortableLayout,
};

#[test]
fn derives_the_portable_layout_from_the_data_directory() {
    let layout = PortableLayout::from_data_dir(r"D:\Apps\AnimePicManage\data");

    assert_eq!(layout.root, r"D:\Apps\AnimePicManage".to_string());
    assert!(layout.dataset_dir().ends_with(r"output\datasets"));
    assert!(layout.lora_dir().ends_with(r"output\loras"));
    assert!(layout.generated_dir().ends_with(r"output\generated"));
    assert!(layout.cuda_dir().ends_with(r"app\cuda"));
}

#[test]
fn a_bare_directory_stays_its_own_root() {
    let layout = PortableLayout::from_data_dir("data");

    assert_eq!(layout.root, String::new());
    assert!(layout.output_dir().ends_with("output"));
}

#[test]
fn package_folders_sit_under_the_executable_directory() {
    let exe = r"E:\AnimePicManage";
    assert_eq!(portable_root(exe), exe);
    assert_eq!(portable_app_dir(exe), r"E:\AnimePicManage\app");
    assert_eq!(portable_data_dir(exe), r"E:\AnimePicManage\data");
    assert_eq!(portable_temp_dir(exe), r"E:\AnimePicManage\temp");
    assert_eq!(portable_output_dir(exe), r"E:\AnimePicManage\output");
    assert_eq!(portable_cuda_dir(exe), r"E:\AnimePicManage\app\cuda");
    let root_layout = PortableLayout::from_data_dir(r"D:\");
    assert_eq!(root_layout.root, r"D:\");
}

#[test]
fn start_up_errors_explain_themselves() {
    assert_eq!(anime_pic_manage::CoreInitError::DataDirectory.message(), "无法定位应用数据目录");
    assert_eq!(anime_pic_manage::CoreInitError::Database("locked".to_string()).message(), "locked");
}
