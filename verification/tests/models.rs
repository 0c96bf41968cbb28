use anime_pic_manage::models::{
    cache_repo_dir, default_delivery, kind_directory, legacy_cache_candidates, legacy_cache_in,
    legacy_cache_roots_from, legacy_repos_in, missing_cache_repos, model_dir_candidate, repo_ids,
    catalog_only_entry, installed_entry, parse_cache_statuses, unlisted_catalog_entries, CacheCandidate, CacheStatus, CatalogFile, CatalogSource, FolderProbe, LegacyCache,
};
use anime_pic_manage::workflow::Json;

fn kind_of(delivery: &str) -> &'static str {
    if delivery == "hf_cache" {
        "tagger"
    } else {
        "character_recognizer"
    }
}

const NO_FOLDERS: FolderProbe = FolderProbe { cache_repo_dir: false, model_dir: false };

fn sample_entry(delivery: &str, files: Vec<CatalogFile>) -> CatalogSource {
    CatalogSource {
        id: "sample".to_string(),
        delivery: delivery.to_string(),
        repo_id: "owner/repo".to_string(),
        files,
    }
}

fn file(repo: Option<&str>, path: &str, name: &str) -> CatalogFile {
    CatalogFile { repo_id: repo.map(str::to_string), path: path.to_string(), name: name.to_string() }
}

#[test]
fn catalog_defaults_to_the_models_directory() {
    assert_eq!(default_delivery(), "models_dir");
    assert_eq!(kind_directory("character_recognizer"), Some("recognizer"));
    assert_eq!(kind_directory("head_detector"), Some("detector"));
    assert_eq!(kind_directory("tagger"), None);
}

#[test]
fn cache_entries_collect_every_repository() {
    let entry = sample_entry(
        "hf_cache",
        vec![
            file(None, "a/model.onnx", "model.onnx"),
            file(Some(" other/labels "), "selected_tags.csv", "selected_tags.csv"),
            file(Some("owner/repo"), "b.onnx", "b.onnx"),
            file(Some("other/labels"), "c.csv", "c.csv"),
        ],
    );
    assert_eq!(repo_ids(&entry), vec!["owner/repo".to_string(), "other/labels".to_string()]);
}

#[test]
fn missing_cache_repos_skip_installed_entries() {
    let catalog = vec![
        sample_entry("hf_cache", vec![file(None, "a/model.onnx", "model.onnx")]),
        sample_entry("models_dir", vec![file(None, "recognizer/model.onnx", "model.onnx")]),
    ];
    let statuses = vec![("sample".to_string(), "installed".to_string())];
    assert!(missing_cache_repos(&catalog, &statuses).is_empty());
    assert_eq!(missing_cache_repos(&catalog, &Vec::new()), vec!["owner/repo".to_string()]);
}

#[test]
fn missing_cache_repos_deduplicate_partial_entries() {
    let catalog = vec![sample_entry(
        "hf_cache",
        vec![
            file(None, "a/model.onnx", "model.onnx"),
            file(Some("other/labels"), "selected_tags.csv", "selected_tags.csv"),
        ],
    )];
    let statuses = vec![("sample".to_string(), "partial".to_string())];
    assert_eq!(
        missing_cache_repos(&catalog, &statuses),
        vec!["other/labels".to_string(), "owner/repo".to_string()]
    );
}

#[test]
fn repositories_live_in_models_folders() {
    assert_eq!(cache_repo_dir(r"D:\hub", " owner/repo "), Some(r"D:\hub\models--owner--repo".to_string()));
    assert_eq!(cache_repo_dir("  ", "owner/repo"), None);
    assert_eq!(cache_repo_dir(r"D:\hub", ""), None);
}

#[test]
fn legacy_cache_roots_follow_the_documented_search_order() {
    let candidates = legacy_cache_candidates(
        Some(r"C:\hub-cache".to_string()),
        Some(r"C:\hf-home".to_string()),
        Some(r"C:\Users\me".to_string()),
        Some(r"C:\Users\me\AppData\Local".to_string()),
    );
    assert_eq!(
        candidates,
        vec![
            r"C:\hub-cache".to_string(),
            r"C:\hf-home\hub".to_string(),
            r"C:\hf-home".to_string(),
            r"C:\Users\me\.cache/huggingface/hub".to_string(),
            r"C:\Users\me\AppData\Local\huggingface/hub".to_string(),
        ]
    );
}

#[test]
fn legacy_cache_roots_never_point_at_the_application_cache() {
    let own = r"D:\pkg\data\hf-cache".to_string();
    let candidates = vec![
        CacheCandidate { path: r"D:\pkg\data\hf-cache\hub".to_string(), is_dir: true },
        CacheCandidate { path: own.clone(), is_dir: true },
        CacheCandidate { path: r"E:\external\huggingface/hub".to_string(), is_dir: true },
        CacheCandidate { path: r"E:\nowhere".to_string(), is_dir: false },
        CacheCandidate { path: String::new(), is_dir: true },
        CacheCandidate { path: r"E:\external\huggingface/hub".to_string(), is_dir: true },
    ];
    assert_eq!(legacy_cache_roots_from(candidates, Some(own)), vec![r"E:\external\huggingface/hub".to_string()]);
}

#[test]
fn legacy_repos_in_reports_only_present_repositories() {
    let missing = vec!["owner/repo".to_string(), "owner/missing".to_string()];
    let found = legacy_repos_in(r"D:\old", &missing, &vec![Some(2048), None]).unwrap();
    assert_eq!(found.repos, vec!["owner/repo".to_string()]);
    assert_eq!(found.bytes, 2048);
    assert_eq!(found.path, r"D:\old");
    assert!(legacy_repos_in(r"D:\old", &vec!["owner/missing".to_string()], &vec![None]).is_none());
}

#[test]
fn legacy_cache_adopts_the_first_cache_that_can_supply_the_models() {
    let offer = LegacyCache { path: "full".to_string(), repos: vec!["owner/repo".to_string()], bytes: 4096 };
    let picked = legacy_cache_in(vec![None, Some(offer), Some(LegacyCache { path: "late".to_string(), repos: Vec::new(), bytes: 1 })], 2).unwrap();
    assert_eq!(picked.path, "full");
    assert_eq!(picked.bytes, 4096);
    assert!(legacy_cache_in(vec![None], 2).is_none());
    assert!(legacy_cache_in(vec![Some(LegacyCache { path: "x".to_string(), repos: Vec::new(), bytes: 0 })], 0).is_none());
}

#[test]
fn catalog_only_entries_report_missing_models() {
    let entry = sample_entry("models_dir", vec![file(None, "initial/model.onnx", "model.onnx")]);
    let inventory_entry =
        catalog_only_entry(&entry, kind_of("models_dir"), false, None, "D:\\models", "D:\\cache", "sample", NO_FOLDERS);

    assert_eq!(inventory_entry.status, "missing");
    assert!(inventory_entry.downloadable);
    assert!(inventory_entry.active);
    assert_eq!(inventory_entry.installed_bytes, 0);
    assert_eq!(inventory_entry.path, None);
}

#[test]
fn catalog_entries_hide_paths_until_the_weights_exist() {
    let entry = sample_entry("models_dir", vec![file(None, "initial/model.onnx", "model.onnx")]);
    let missing = catalog_only_entry(&entry, kind_of("models_dir"), false, None, "D:\\models", "D:\\cache", "", NO_FOLDERS);
    assert_eq!(missing.path, None);
    assert_eq!(missing.status, "missing");
    assert!(!missing.active);

    let present = catalog_only_entry(
        &entry,
        kind_of("models_dir"),
        false,
        None,
        "D:\\models",
        "D:\\cache",
        "",
        FolderProbe { cache_repo_dir: false, model_dir: true },
    );
    assert_eq!(present.path.as_deref(), Some("D:\\models\\recognizer\\sample"));
    assert_eq!(model_dir_candidate("D:\\models", "tagger", "x"), None);
}

#[test]
fn cache_backed_entries_use_the_reported_status() {
    let entry = sample_entry("hf_cache", vec![file(None, "a/model.onnx", "model.onnx")]);
    let status = CacheStatus {
        status: "installed".to_string(),
        total_bytes: 1234,
        path: Some("D:\\cache\\blobs\\abc".to_string()),
    };
    let inventory_entry =
        catalog_only_entry(&entry, kind_of("hf_cache"), false, Some(&status), "D:\\models", "D:\\cache", "", NO_FOLDERS);

    assert_eq!(inventory_entry.status, "installed");
    assert_eq!(inventory_entry.installed_bytes, 1234);
    assert_eq!(inventory_entry.path.as_deref(), Some("D:\\cache\\blobs\\abc"));

    let unlocated = CacheStatus { status: "partial".to_string(), total_bytes: 5, path: None };
    let with_repo = catalog_only_entry(
        &entry,
        kind_of("hf_cache"),
        false,
        Some(&unlocated),
        "D:\\models",
        "D:\\cache",
        "",
        FolderProbe { cache_repo_dir: true, model_dir: false },
    );
    assert_eq!(with_repo.path.as_deref(), Some("D:\\cache\\models--owner--repo"));
    let not_reported = catalog_only_entry(&entry, kind_of("hf_cache"), true, None, "D:\\models", "D:\\cache", "", NO_FOLDERS);
    assert_eq!(not_reported.status, "missing");
    assert!(not_reported.downloadable);
}

#[test]
fn installed_entries_mark_bundled_models() {
    let entry = installed_entry("sample", "character_recognizer", Some("installed".to_string()), true, "D:\\models", "sample", false);
    assert!(!entry.bundled);
    assert!(entry.active);
    assert!(entry.downloadable);

    let bundled = installed_entry("sample", "character_recognizer", Some("installed".to_string()), false, "D:\\models", "sample", false);
    assert!(bundled.bundled);
    assert!(!bundled.downloadable);
    let located = installed_entry("det", "head_detector", None, false, "D:\\models", "sample", true);
    assert_eq!(located.status, "installed");
    assert_eq!(located.path.as_deref(), Some("D:\\models\\detector\\det"));
    assert!(!located.active);
}

#[test]
fn unlisted_catalog_entries_follow_the_listed_ones() {
    let catalog = vec![
        sample_entry("models_dir", vec![]),
        CatalogSource { id: "other".to_string(), delivery: "hf_cache".to_string(), repo_id: "o/r".to_string(), files: vec![] },
        CatalogSource { id: "third".to_string(), delivery: "models_dir".to_string(), repo_id: String::new(), files: vec![] },
    ];
    assert_eq!(unlisted_catalog_entries(&vec!["other".to_string()], &catalog), vec![0, 2]);
    assert_eq!(unlisted_catalog_entries(&vec![], &catalog), vec![0, 1, 2]);
}

fn text(s: &str) -> Json {
    Json::Str(s.to_string())
}

fn object(entries: Vec<(&str, Json)>) -> Json {
    Json::Obj(entries.into_iter().map(|(k, v)| (k.to_string(), v)).collect())
}

#[test]
fn cache_statuses_are_parsed_from_the_worker_payload() {
    let payload = object(vec![
        ("models_dir", text("D:\\models")),
        ("cache_dir", text("D:\\cache")),
        (
            "entries",
            Json::Arr(vec![object(vec![
                ("id", text("wd14-swinv2-v3")),
                ("status", text("partial")),
                ("total_bytes", Json::Num("12".to_string())),
                (
                    "files",
                    Json::Arr(vec![
                        object(vec![
                            ("name", text("model.onnx")),
                            ("present", Json::Bool(false)),
                            ("size", Json::Num("0".to_string())),
                            ("path", Json::Null),
                        ]),
                        object(vec![
                            ("name", text("selected_tags.csv")),
                            ("present", Json::Bool(true)),
                            ("size", Json::Num("12".to_string())),
                            ("path", text("D:\\cache\\blobs\\x")),
                        ]),
                    ]),
                ),
            ])]),
        ),
    ]);
    let statuses = parse_cache_statuses(&payload);
    let status = &statuses.iter().rev().find(|(id, _)| id == "wd14-swinv2-v3").expect("status").1;
    assert_eq!(status.status, "partial");
    assert_eq!(status.total_bytes, 12);
    assert_eq!(status.path.as_deref(), Some("D:\\cache\\blobs\\x"));
}

#[test]
fn cache_statuses_default_and_skip_entries_without_id() {
    let payload = object(vec![(
        "entries",
        Json::Arr(vec![
            object(vec![("status", text("installed"))]),
            object(vec![("id", text("a")), ("total_bytes", Json::Num("1.5".to_string()))]),
            object(vec![("id", text("a")), ("status", text("installed"))]),
        ]),
    )]);
    let statuses = parse_cache_statuses(&payload);
    assert_eq!(statuses.len(), 2);
    assert_eq!(statuses[0].1.status, "missing");
    assert_eq!(statuses[0].1.total_bytes, 0);
    assert_eq!(statuses[0].1.path, None);
    assert_eq!(statuses[1].1.status, "installed");
    assert!(parse_cache_statuses(&object(vec![("entries", text("none"))])).is_empty());
}
