use anime_pic_manage::path_utils::{display_path, strip_verbatim_prefix};
use anime_pic_manage::paths::{extension_of, file_name_of, file_stem_of, join_path, parent_path};

#[test]
fn removes_windows_drive_verbatim_prefix() {
    assert_eq!(strip_verbatim_prefix(r"\\?\F:\P\涩图\画师"), r"F:\P\涩图\画师".to_string());
}

#[test]
fn converts_windows_unc_verbatim_prefix() {
    assert_eq!(
        strip_verbatim_prefix(r"\\?\UNC\server\share\images"),
        r"\\server\share\images".to_string()
    );
}

#[test]
fn keeps_normal_path_unchanged() {
    assert_eq!(strip_verbatim_prefix(r"D:\Pictures"), r"D:\Pictures".to_string());
}

#[test]
fn display_path_hides_the_verbatim_prefix() {
    assert_eq!(display_path(r"\\?\C:\images"), r"C:\images");
    assert_eq!(display_path("/home/user"), "/home/user");
}

#[test]
fn windows_path_components_follow_std_path_rules() {
    assert_eq!(join_path(r"D:\Apps", "data"), r"D:\Apps\data");
    assert_eq!(join_path(r"D:\Apps\", "data"), r"D:\Apps\data");
    assert_eq!(join_path("", "data"), "data");
    assert_eq!(parent_path(r"D:\Apps\data").as_deref(), Some(r"D:\Apps"));
    assert_eq!(parent_path(r"D:\data").as_deref(), Some(r"D:\"));
    assert_eq!(parent_path(r"D:\"), None);
    assert_eq!(parent_path("data").as_deref(), Some(""));
    assert_eq!(parent_path(""), None);
    assert_eq!(parent_path("a/b//").as_deref(), Some("a"));
    assert_eq!(file_name_of(r"C:\images\a.png").as_deref(), Some("a.png"));
    assert_eq!(file_name_of(r"C:\images\..") , None);
    assert_eq!(extension_of(r"C:\images\a.tar.gz").as_deref(), Some("gz"));
    assert_eq!(extension_of(r"C:\images\.hidden"), None);
    assert_eq!(file_stem_of(r"C:\images\a.tar.gz").as_deref(), Some("a.tar"));
    assert_eq!(file_stem_of(r"C:\images\noext").as_deref(), Some("noext"));
}
