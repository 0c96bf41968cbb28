use anime_pic_manage::dataset::{
    check_export, default_dataset_dir, default_max_images, default_repeats, export_output_dir,
    export_trigger, lora_dir_for, ExportRefusal, MANAGED_DATASET_DIR, MANAGED_LORA_DIR,
};

#[test]
fn app_products_are_namespaced_next_to_comfyui() {
    assert_eq!(MANAGED_DATASET_DIR, "lora-datasets-manage");
    assert_eq!(MANAGED_LORA_DIR, "lora-models-manage");
}

#[test]
fn trained_loras_land_in_the_sibling_of_the_managed_datasets() {
    assert_eq!(lora_dir_for(r"E:\comfy\lora-datasets-manage"), Some(r"E:\comfy\lora-models-manage".to_string()));
    assert_eq!(lora_dir_for(r"D:\app\output\datasets"), None);
}

#[test]
fn datasets_default_next_to_comfyui_or_into_the_package() {
    assert_eq!(default_dataset_dir(Some(r"E:\ComfyUI".to_string()), r"D:\app\data"), r"E:\lora-datasets-manage");
    assert_eq!(default_dataset_dir(None, r"D:\app\data"), r"D:\app\output\datasets");
}

#[test]
fn export_options_fall_back_to_derived_values() {
    assert_eq!(export_trigger(None, "Hatsune Miku"), "hatsune_miku");
    assert_eq!(export_trigger(Some("  ".to_string()), "Saber Alter"), "saber_alter");
    assert_eq!(export_trigger(Some("mk".to_string()), "Hatsune Miku"), "mk");
    assert_eq!(export_output_dir(Some(" ".to_string()), "D:/x".to_string()), "D:/x");
    assert_eq!(export_output_dir(Some("E:/y".to_string()), "D:/x".to_string()), "E:/y");
    assert_eq!(default_max_images(), 40);
    assert_eq!(default_repeats(), 10);
}

#[test]
fn exports_need_an_identity_with_samples() {
    assert_eq!(check_export(false, 3), Err(ExportRefusal::IdentityNotFound));
    assert_eq!(check_export(true, 0), Err(ExportRefusal::DatasetEmpty));
    assert_eq!(check_export(true, 2), Ok(()));
}
