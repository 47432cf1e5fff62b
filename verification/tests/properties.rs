use app_dirs2::append_sanitized;
use app_dirs2::compose_app_paths;
use app_dirs2::join_segment;
use app_dirs2::narrow_candidates;
use app_dirs2::sanitized;
use app_dirs2::split_segments;
use app_dirs2::AppDataType;
use app_dirs2::AppDirsError;
use app_dirs2::AppInfo;

fn strings(items: &[&str]) -> Vec<String> {
    items.iter().map(|s| s.to_string()).collect()
}

#[test]
fn sanitize_escapes_unsafe_characters() {
    let out = sanitized("uni.code/¡Olé!");
    assert!(!out.contains('/'));
    assert_eq!(out, "uni.code,47,,161,Ol,233,,33,");
}

#[test]
fn sanitize_keeps_safe_input_unchanged() {
    assert_eq!(sanitized("Awesome App-2_0"), "Awesome App-2_0");
    assert_eq!(sanitized("abc XYZ 019"), "abc XYZ 019");
    assert_eq!(sanitized(""), "");
}

#[test]
fn sanitize_escapes_leading_period_only() {
    assert_eq!(sanitized(".config"), ",46,config");
    assert_eq!(sanitized("uni.code"), "uni.code");
    assert_eq!(sanitized("."), ",46,");
}

#[test]
fn join_inserts_separator_when_needed() {
    assert_eq!(join_segment("/a", "b"), "/a/b");
    assert_eq!(join_segment("/a/", "b"), "/a/b");
    assert_eq!(join_segment("/", "b"), "/b");
    assert_eq!(join_segment("", "b"), "b");
}

#[test]
fn split_discards_empty_segments() {
    assert_eq!(split_segments("a/b"), strings(&["a", "b"]));
    assert_eq!(split_segments("/a//b/"), strings(&["a", "b"]));
    assert_eq!(split_segments(""), strings(&[]));
    assert_eq!(split_segments("///"), strings(&[]));
    assert_eq!(split_segments("one"), strings(&["one"]));
}

#[test]
fn append_sanitizes_each_segment() {
    let segs = strings(&["café", "x y"]);
    assert_eq!(append_sanitized("/root", &segs), "/root/caf,233,/x y");
}

#[test]
fn compose_maps_every_root() {
    let info = AppInfo {
        name: "app-name",
        author: "app-author",
    };
    let roots = strings(&["/d1", "/d2"]);
    let without_author = compose_app_paths(&roots, &info, false);
    assert_eq!(without_author, strings(&["/d1/app-name", "/d2/app-name"]));
    let with_author = compose_app_paths(&roots, &info, true);
    assert_eq!(
        with_author,
        strings(&["/d1/app-author/app-name", "/d2/app-author/app-name"])
    );
}

#[test]
fn narrowing_keeps_single_existing_candidate() {
    let cands = strings(&["/d1/app", "/d2/app", "/d3/app"]);
    let flags = vec![false, true, false];
    assert_eq!(narrow_candidates(cands, &flags), strings(&["/d2/app"]));
}

#[test]
fn narrowing_keeps_all_existing_candidates_in_order() {
    let cands = strings(&["/d1/app", "/d2/app", "/d3/app"]);
    let flags = vec![true, false, true];
    assert_eq!(
        narrow_candidates(cands, &flags),
        strings(&["/d1/app", "/d3/app"])
    );
}

#[test]
fn narrowing_without_evidence_keeps_everything() {
    let cands = strings(&["/d1/app", "/d2/app", "/d3/app"]);
    let flags = vec![false, false, false];
    assert_eq!(
        narrow_candidates(cands.clone(), &flags),
        strings(&["/d1/app", "/d2/app", "/d3/app"])
    );
}

#[test]
fn shared_data_narrowing_example() {
    // With XDG_DATA_DIRS = "/d1:/d2" the shared-data candidates are /d1
    // and /d2; when only /d2/app-name exists on disk, the app-scoped
    // query returns exactly that directory.
    let info = AppInfo {
        name: "app-name",
        author: "app-author",
    };
    let data_roots = strings(&["/d1", "/d2"]);
    let mapped = compose_app_paths(&data_roots, &info, false);
    assert_eq!(mapped, strings(&["/d1/app-name", "/d2/app-name"]));
    let narrowed = narrow_candidates(mapped, &vec![false, true]);
    assert_eq!(narrowed, strings(&["/d2/app-name"]));
}

#[test]
fn platform_templates() {
    let shared = app_dirs2::platform::macos::get_app_dir(AppDataType::SharedData, None).unwrap();
    assert_eq!(shared, "/Library/Application Support");
    let cache =
        app_dirs2::platform::macos::get_app_dir(AppDataType::UserCache, Some("/Users/rusty"))
            .unwrap();
    assert_eq!(cache, "/Users/rusty/Library/Caches");
    assert!(matches!(
        app_dirs2::platform::macos::get_app_dir(AppDataType::UserData, None),
        Err(AppDirsError::NotSupported)
    ));

    let etc = app_dirs2::platform::redox::get_app_dir(AppDataType::SharedConfig, None).unwrap();
    assert_eq!(etc, "/etc");
    let config =
        app_dirs2::platform::redox::get_app_dir(AppDataType::UserConfig, Some("/home/rusty"))
            .unwrap();
    assert_eq!(config, "/home/rusty/.config");

    assert!(matches!(
        app_dirs2::platform::unknown::get_app_dirs(AppDataType::UserData),
        Err(AppDirsError::NotSupported)
    ));
}

#[test]
fn windows_known_folder_selection() {
    let folders = app_dirs2::platform::windows::KnownFolders {
        roaming_app_data: Some("C:/Users/rusty/AppData/Roaming".to_string()),
        local_app_data: Some("C:/Users/rusty/AppData/Local".to_string()),
        program_data: Some("C:/ProgramData".to_string()),
    };
    let get = |t| {
        app_dirs2::platform::windows::get_app_dir(t, &folders).unwrap()
    };
    assert_eq!(get(AppDataType::UserConfig), "C:/Users/rusty/AppData/Roaming");
    assert_eq!(get(AppDataType::UserData), "C:/Users/rusty/AppData/Local");
    assert_eq!(get(AppDataType::UserCache), "C:/Users/rusty/AppData/Local");
    assert_eq!(get(AppDataType::SharedConfig), "C:/ProgramData");
    assert_eq!(get(AppDataType::SharedData), "C:/ProgramData");

    let missing = app_dirs2::platform::windows::KnownFolders {
        roaming_app_data: None,
        local_app_data: None,
        program_data: None,
    };
    assert!(matches!(
        app_dirs2::platform::windows::get_app_dir(AppDataType::UserConfig, &missing),
        Err(AppDirsError::NotSupported)
    ));
}

#[test]
fn android_context_methods() {
    let (method, takes_argument) =
        app_dirs2::platform::android::context_method(AppDataType::UserConfig);
    assert_eq!(method, "getDataDir");
    assert!(!takes_argument);
    let (method, takes_argument) =
        app_dirs2::platform::android::context_method(AppDataType::SharedData);
    assert_eq!(method, "getExternalFilesDir");
    assert!(takes_argument);
    let (method, _) = app_dirs2::platform::android::context_method(AppDataType::UserData);
    assert_eq!(method, "getFilesDir");
    let (method, _) = app_dirs2::platform::android::context_method(AppDataType::UserCache);
    assert_eq!(method, "getCacheDir");
}

#[test]
fn android_prefers_xdg_environment() {
    let step = app_dirs2::platform::android::next_step(
        AppDataType::UserData,
        Ok("/data/xdg-dir".to_string()),
    );
    assert!(matches!(
        step,
        app_dirs2::platform::android::AndroidStep::Resolved(ref dir) if dir == "/data/xdg-dir"
    ));
    let step = app_dirs2::platform::android::next_step(
        AppDataType::SharedData,
        Err(AppDirsError::NotSupported),
    );
    assert!(matches!(
        step,
        app_dirs2::platform::android::AndroidStep::Query("getExternalFilesDir", true)
    ));
    let step = app_dirs2::platform::android::next_step(
        AppDataType::UserConfig,
        Err(AppDirsError::NotSupported),
    );
    assert!(matches!(
        step,
        app_dirs2::platform::android::AndroidStep::Query("getDataDir", false)
    ));
}

#[test]
fn category_sharedness() {
    assert!(AppDataType::SharedData.is_shared());
    assert!(AppDataType::SharedConfig.is_shared());
    assert!(!AppDataType::UserConfig.is_shared());
    assert!(!AppDataType::UserData.is_shared());
    assert!(!AppDataType::UserCache.is_shared());
}

#[test]
fn io_error_variant_carries_cause() {
    let cause = std::io::Error::new(std::io::ErrorKind::PermissionDenied, "denied");
    let err = AppDirsError::Io(cause);
    assert!(matches!(err, AppDirsError::Io(_)));
    assert!(format!("{:?}", err).contains("denied"));
}
