use anime_pic_manage::reference::{
    active_library_path, choose_build_backend, library_path, reference_status, LibraryEntryFacts,
    LibraryFileFacts,
};

#[test]
fn the_library_lives_in_the_data_folder() {
    assert_eq!(library_path(r"D:\pkg\data"), r"D:\pkg\data\reference-library.json");
    assert_eq!(active_library_path(true, r"D:\pkg\data", true), Some(r"D:\pkg\data\reference-library.json".to_string()));
    assert_eq!(active_library_path(false, r"D:\pkg\data", true), None);
    assert_eq!(active_library_path(true, r"D:\pkg\data", false), None);
}

#[test]
fn status_counts_characters_and_vectors() {
    let missing = reference_status(true, "ccip".to_string(), "p".to_string(), None);
    assert!(!missing.exists);
    assert_eq!(missing.backend, "ccip");
    let file = LibraryFileFacts {
        backend: Some("embedding".to_string()),
        built_at: Some("2026-01-01".to_string()),
        entries: Some(vec![
            LibraryEntryFacts { identity_id: Some("a".to_string()), display_name: Some("A".to_string()), vector_count: Some(3) },
            LibraryEntryFacts { identity_id: None, display_name: None, vector_count: None },
        ]),
    };
    let status = reference_status(false, "ccip".to_string(), "p".to_string(), Some(file));
    assert!(status.exists);
    assert_eq!(status.backend, "embedding");
    assert_eq!(status.identities, 2);
    assert_eq!(status.references, 3);
    assert_eq!(status.characters[1].identity_id, "");
}

#[test]
fn build_backends_are_checked() {
    assert_eq!(choose_build_backend(Some(" Embedding ".to_string()), "ccip".to_string()), Ok("embedding".to_string()));
    assert_eq!(choose_build_backend(Some("clip".to_string()), "ccip".to_string()), Ok("ccip".to_string()));
    assert_eq!(choose_build_backend(None, "bogus".to_string()), Err("参考库后端只能是 ccip / embedding".to_string()));
}
