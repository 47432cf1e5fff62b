use app_dirs2::get_app_dir;
use app_dirs2::get_app_dirs;
use app_dirs2::get_app_root;
use app_dirs2::get_app_roots;
use app_dirs2::get_data_root;
use app_dirs2::get_data_roots;
use app_dirs2::AppDataType::SharedConfig;
use app_dirs2::AppDataType::SharedData;
use app_dirs2::AppDataType::UserCache;
use app_dirs2::AppDataType::UserConfig;
use app_dirs2::AppDataType::UserData;
use app_dirs2::AppDirsError;
use app_dirs2::AppInfo;

#[test]
fn it_works() {
    let info = AppInfo {
        name: "Awesome App".into(),
        author: "Dedicated Dev".into(),
    };
    let path = "/.not-hidden/subfolder!/with?/uni.code/¡Olé!/";
    let types = [UserConfig, UserData, UserCache, SharedData, SharedConfig];
    for &t in types.iter() {
        println!("{:?} data root = {:?}", t, get_data_root(t));
        println!("{:?} app root = {:?}", t, get_app_root(t, &info));
        println!("{:?} data dir = {:?}", t, get_app_dir(t, &info, &path));
    }
}

#[test]
fn empty_name_is_invalid() {
    let info = AppInfo {
        name: "",
        author: "Some Author",
    };
    let types = [UserConfig, UserData, UserCache, SharedData, SharedConfig];
    for &t in types.iter() {
        assert!(matches!(
            get_app_roots(t, &info),
            Err(AppDirsError::InvalidAppData)
        ));
        assert!(matches!(
            get_app_root(t, &info),
            Err(AppDirsError::InvalidAppData)
        ));
        assert!(matches!(
            get_app_dir(t, &info, "sub"),
            Err(AppDirsError::InvalidAppData)
        ));
    }
}

#[test]
fn empty_author_is_invalid() {
    let info = AppInfo {
        name: "Some App",
        author: "",
    };
    assert!(matches!(
        get_app_dirs(UserData, &info, "sub"),
        Err(AppDirsError::InvalidAppData)
    ));
}

#[test]
fn user_categories_yield_one_root() {
    let info = AppInfo {
        name: "single-root-probe-app",
        author: "single-root-probe-author",
    };
    for &t in [UserConfig, UserData, UserCache].iter() {
        if let Ok(roots) = get_data_roots(t) {
            assert_eq!(roots.len(), 1);
        }
        if let Ok(roots) = get_app_roots(t, &info) {
            assert_eq!(roots.len(), 1);
        }
        if let Ok(dirs) = get_app_dirs(t, &info, "a/b") {
            assert_eq!(dirs.len(), 1);
        }
    }
}

#[test]
fn shared_roots_are_absolute() {
    for &t in [SharedConfig, SharedData].iter() {
        if let Ok(roots) = get_data_roots(t) {
            assert!(!roots.is_empty());
            for root in roots.iter() {
                assert!(root.starts_with('/'), "not absolute: {}", root);
            }
        }
    }
}

#[test]
fn multi_root_queries_start_with_singular_result() {
    let info = AppInfo {
        name: "head-probe-app",
        author: "head-probe-author",
    };
    let types = [UserConfig, UserData, UserCache, SharedData, SharedConfig];
    for &t in types.iter() {
        if let Ok(roots) = get_app_roots(t, &info) {
            assert!(!roots.is_empty());
            let single = get_app_root(t, &info).unwrap();
            assert_eq!(roots[0], single);
        }
        if let Ok(dirs) = get_app_dirs(t, &info, "probe/sub") {
            assert!(!dirs.is_empty());
            let single = get_app_dir(t, &info, "probe/sub").unwrap();
            assert_eq!(dirs[0], single);
        }
    }
}

#[test]
fn paths_nest_for_fresh_identity() {
    // A made-up identity that exists on no machine, so the existence
    // narrowing keeps the full candidate list and the best paths nest.
    let info = AppInfo {
        name: "prefix-probe-app-x41",
        author: "prefix-probe-author-x41",
    };
    let types = [UserConfig, UserData, UserCache, SharedData, SharedConfig];
    for &t in types.iter() {
        if let Ok(data_root) = get_data_root(t) {
            let app_root = get_app_root(t, &info).unwrap();
            assert!(
                app_root.starts_with(data_root.as_str()),
                "app root {} does not start with data root {}",
                app_root,
                data_root
            );
            let app_dir = get_app_dir(t, &info, "nested/dir").unwrap();
            assert!(
                app_dir.starts_with(app_root.as_str()),
                "app dir {} does not start with app root {}",
                app_dir,
                app_root
            );
        }
    }
}
