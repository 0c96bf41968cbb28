use anime_pic_manage::result_store::{
    candidate_keys, dedup_strings, directories_match_by_name, directory_key, is_result_file_name, latest_result,
    legacy_directory_key, newest_results, normalize_directory, result_directory, result_file_name,
    stable_directory_key, ResultKind, StoredFacts,
};

#[test]
fn windows_verbatim_and_drive_paths_share_the_same_result_key() {
    assert_eq!(
        directory_key(r"\\?\G:\Pictures\Anime", false),
        directory_key(r"G:\Pictures\Anime", false)
    );
    assert_eq!(
        directory_key(r"\\?\UNC\server\share\Anime", false),
        directory_key(r"\\server\share\Anime", false)
    );
}

#[test]
fn directory_keys_are_stable_across_tools() {
    // Windows folds case, as the Windows build of the application does.
    assert_eq!(
        directory_key("D:\\Pictures\\动漫\\Sample-示例角色", true),
        "cd5517e004c380a8"
    );
    assert_eq!(
        directory_key("\\\\?\\D:\\Pictures\\动漫\\Sample-示例角色\\", true),
        "cd5517e004c380a8"
    );
}

#[test]
fn fnv_key_of_the_empty_text_is_the_offset_basis() {
    assert_eq!(stable_directory_key(""), "cbf29ce484222325");
    assert_eq!(stable_directory_key("a"), "af63dc4c8601ec8c");
}

#[test]
fn normalization_unifies_separators_prefixes_and_trailing_slashes() {
    assert_eq!(normalize_directory(r"D:\one\", false), "D:/one");
    assert_eq!(normalize_directory("D:/one/", false), "D:/one");
    assert_eq!(normalize_directory(r"\\?\unc\srv\x", false), "//srv/x");
    assert_eq!(normalize_directory(r"D:\ONE", true), "d:/one");
    assert!(directories_match_by_name(r"D:\one", "D:/one/", false));
    assert!(!directories_match_by_name(r"D:\one", "D:/two", false));
    assert_ne!(legacy_directory_key(r"\\?\D:\one", false), directory_key(r"\\?\D:\one", false));
    assert_eq!(legacy_directory_key(r"D:\one", false), directory_key(r"D:\one", false));
}

#[test]
fn result_folders_are_grouped_by_kind_and_key() {
    let folder = result_directory(r"C:\data", ResultKind::Similarity, r"D:\one", false);
    assert_eq!(
        folder,
        format!(r"C:\data\scan-results\similarity\{}", directory_key(r"D:\one", false))
    );
    assert_eq!(ResultKind::Recognition.directory_name(), "recognition");
}

#[test]
fn candidate_keys_cover_both_spellings_once() {
    let keys = candidate_keys(r"D:\one", None, false);
    assert_eq!(keys.len(), 1);
    let keys = candidate_keys(r"\\?\D:\one", Some(r"D:\one"), false);
    assert_eq!(keys.len(), 2);
    let deduped = dedup_strings(vec!["a".to_string(), "b".to_string(), "a".to_string()]);
    assert_eq!(deduped, vec!["a".to_string(), "b".to_string()]);
}

#[test]
fn result_files_are_named_by_padded_timestamp() {
    assert_eq!(result_file_name(5, "abc"), "00000000000000000005-abc.json");
    assert_eq!(result_file_name(-5, "abc"), "-0000000000000000005-abc.json");
    assert_eq!(result_file_name(i64::MAX, "x"), format!("{:020}-x.json", i64::MAX));
}

#[test]
fn only_json_files_count_as_results() {
    assert!(is_result_file_name("D:\\data\\k1\\0001-a.json"));
    assert!(is_result_file_name("a.b.json"));
    assert!(!is_result_file_name("D:\\data\\.json"));
    assert!(!is_result_file_name("D:\\data\\.0a1b.tmp"));
    assert!(!is_result_file_name("json"));
    assert!(!is_result_file_name("a.JSON"));
}

#[test]
fn newest_results_come_first() {
    let paths = vec![
        "k1\\0001-a.json".to_string(),
        "k2\\0003-c.json".to_string(),
        "k1\\.x.tmp".to_string(),
        "k1\\0002-b.json".to_string(),
    ];
    let sorted = newest_results(paths);
    assert_eq!(sorted, vec!["k2\\0003-c.json", "k1\\0002-b.json", "k1\\0001-a.json"]);
}

#[test]
fn the_latest_result_is_the_first_that_belongs() {
    let records = vec![
        None,
        Some(StoredFacts { schema_version: 2, directory: "C:/images".to_string(), same_on_disk: false }),
        Some(StoredFacts { schema_version: 1, directory: "D:/other".to_string(), same_on_disk: false }),
        Some(StoredFacts { schema_version: 1, directory: "C:\\Images\\".to_string(), same_on_disk: false }),
        Some(StoredFacts { schema_version: 1, directory: "C:/images".to_string(), same_on_disk: false }),
    ];
    assert_eq!(latest_result(&records, "C:/images", true), Some(3));
    assert_eq!(latest_result(&records, "C:/images", false), Some(4));
    let on_disk = vec![Some(StoredFacts { schema_version: 1, directory: "C:/RUNNER~1".to_string(), same_on_disk: true })];
    assert_eq!(latest_result(&on_disk, "C:/Users/runner", false), Some(0));
    assert_eq!(latest_result(&vec![None], "C:/images", true), None);
}
