use prism_console::error::AppError;
use prism_console::indexer::{
    compute_file_hash, file_entry, index_change, is_ignored_dir, scan_project_files, skips_dir,
    IndexChange, RawFile, StoredFile,
};
use prism_console::packer::{
    archive_entries, is_excluded, skips_entry, zip_entry_name, ArchiveEntry,
};
use prism_console::pipeline::default_excludes;
use prism_console::scan_strategy::{get_scanner, ScanStrategy};
use prism_console::scanner::{
    core_files, is_ignored_entry, is_listing_excluded, listing_excludes, scan_modules_dir,
    scan_skeleton_files, skeleton_entry, sort_skeleton, validate_project, DirEntry, WalkedEntry,
};
use prism_console::sorting::stable_sort;

fn names(list: &[&str]) -> Vec<String> {
    list.iter().map(|s| s.to_string()).collect()
}

fn dir(name: &str) -> DirEntry {
    DirEntry { name: name.to_string(), path: format!("/p/modules/{}", name), is_dir: true }
}

fn file(name: &str) -> DirEntry {
    DirEntry { name: name.to_string(), path: format!("/p/modules/{}", name), is_dir: false }
}

#[test]
fn test_validate_project_valid_minimal() {
    let result = validate_project(true, true, &names(&["main.py"]));
    assert!(result.is_ok());
    let core_files = result.unwrap();
    assert!(core_files.contains(&"main.py".to_string()));
}

#[test]
fn test_validate_project_missing_main_py() {
    let result = validate_project(false, true, &[]);
    assert!(result.is_err());
    assert!(result.unwrap_err().message().contains("缺少 main.py 文件"));
}

#[test]
fn test_validate_project_missing_modules() {
    let result = validate_project(true, false, &names(&["main.py"]));
    assert!(result.is_err());
    assert!(result.unwrap_err().message().contains("缺少 modules/ 目录"));
}

#[test]
fn test_validate_project_missing_both() {
    let result = validate_project(false, false, &[]);
    assert!(result.is_err());
    let err = result.unwrap_err().message();
    assert!(err.contains("缺少 main.py 文件"));
    assert!(err.contains("modules/ 目录"));
    assert_eq!(err, "验证失败：缺少 main.py 文件和 modules/ 目录");
}

#[test]
fn test_validate_project_scans_core_files() {
    let present = names(&["config/", "requirements.txt", "main.py", "other"]);
    let result = validate_project(true, true, &present).unwrap();
    assert!(result.contains(&"main.py".to_string()));
    assert!(result.contains(&"requirements.txt".to_string()));
    assert!(result.contains(&"config/".to_string()));
    assert!(!result.contains(&".env.example".to_string()));
    assert_eq!(result, names(&["main.py", "requirements.txt", "config/"]));
}

#[test]
fn test_validate_project_all_core_files_present() {
    let result = validate_project(true, true, &core_files()).unwrap();
    assert_eq!(result.len(), core_files().len());
    assert_eq!(
        core_files(),
        names(&["main.py", "requirements.txt", ".env.example", "config/", "core/", "utils/"])
    );
}

#[test]
fn test_scan_modules_dir_empty() {
    let result = scan_modules_dir(Some(vec![])).unwrap();
    assert!(result.is_empty());
}

#[test]
fn test_scan_modules_dir_normal_modules() {
    let result = scan_modules_dir(Some(vec![dir("users"), dir("auth"), dir("billing")])).unwrap();
    assert_eq!(result.len(), 3);
    assert_eq!(result[0].name, "auth");
    assert_eq!(result[1].name, "billing");
    assert_eq!(result[2].name, "users");
    assert_eq!(result[0].path, "/p/modules/auth");
}

#[test]
fn test_scan_modules_dir_filters_ignored_entries() {
    let result = scan_modules_dir(Some(vec![
        dir("__pycache__"),
        dir("auth"),
        dir(".git"),
        file("__init__.py"),
        dir(".DS_Store"),
    ]))
    .unwrap();
    assert_eq!(result.len(), 1);
    assert_eq!(result[0].name, "auth");
}

#[test]
fn test_scan_modules_dir_nonexistent_path() {
    let result = scan_modules_dir(None);
    assert!(result.is_err());
    assert_eq!(result.unwrap_err(), AppError::ScanError("无法读取 modules/ 目录".to_string()));
}

#[test]
fn ignored_entries_are_three() {
    assert!(is_ignored_entry("__pycache__"));
    assert!(is_ignored_entry(".git"));
    assert!(is_ignored_entry(".DS_Store"));
    assert!(!is_ignored_entry("auth"));
    assert!(!is_ignored_entry(".gitignore"));
}

#[test]
fn test_fastapi_scanner_scans_modules_correctly() {
    let scanner = get_scanner("fastapi").ok().unwrap();
    assert_eq!(scanner.modules_dir(""), "modules");
    let result =
        scanner.scan("", Some(Some(vec![dir("auth"), dir("users"), dir("orders")]))).unwrap();
    assert_eq!(result.len(), 3);
    assert_eq!(result[0].name, "auth");
    assert_eq!(result[1].name, "orders");
    assert_eq!(result[2].name, "users");
}

#[test]
fn test_fastapi_scanner_filters_ignored_entries() {
    let scanner = get_scanner("fastapi").ok().unwrap();
    let result = scanner
        .scan("", Some(Some(vec![dir("auth"), dir("__pycache__"), dir(".git"), dir(".DS_Store")])))
        .unwrap();
    assert_eq!(result.len(), 1);
    assert_eq!(result[0].name, "auth");
}

#[test]
fn test_fastapi_scanner_missing_modules_dir() {
    let scanner = get_scanner("fastapi").ok().unwrap();
    let result = scanner.scan("", None);
    assert!(result.is_err());
    assert_eq!(result.unwrap_err().message(), "模块扫描失败：fastapi 项目应包含 modules 目录");
}

#[test]
fn test_fastapi_scanner_custom_modules_dir() {
    let scanner = get_scanner("fastapi").ok().unwrap();
    assert_eq!(scanner.modules_dir("api"), "api");
    let result = scanner.scan("api", Some(Some(vec![dir("users"), dir("orders")]))).unwrap();
    assert_eq!(result.len(), 2);
    assert_eq!(result[0].name, "orders");
    assert_eq!(result[1].name, "users");
    let err = scanner.scan("api", None).unwrap_err();
    assert_eq!(err, AppError::ScanError("fastapi 项目应包含 api 目录".to_string()));
}

#[test]
fn test_vue3_scanner_scans_views_correctly() {
    let scanner = get_scanner("vue3").ok().unwrap();
    assert_eq!(scanner.modules_dir(""), "src/views");
    let result =
        scanner.scan("", Some(Some(vec![dir("settings"), dir("dashboard"), dir("login")]))).unwrap();
    assert_eq!(result.len(), 3);
    assert_eq!(result[0].name, "dashboard");
    assert_eq!(result[1].name, "login");
    assert_eq!(result[2].name, "settings");
}

#[test]
fn test_vue3_scanner_missing_views_dir() {
    let scanner = get_scanner("vue3").ok().unwrap();
    let result = scanner.scan("", None);
    assert!(result.is_err());
    assert_eq!(result.unwrap_err().message(), "模块扫描失败：vue3 项目应包含 src/views 目录");
    assert!(scanner.scan("", Some(None)).is_err());
}

#[test]
fn test_vue3_scanner_custom_modules_dir() {
    let scanner = get_scanner("vue3").ok().unwrap();
    let result = scanner.scan("pages", Some(Some(vec![dir("home"), dir("about")]))).unwrap();
    assert_eq!(result.len(), 2);
    assert_eq!(result[0].name, "about");
    assert_eq!(result[1].name, "home");
}

#[test]
fn test_get_scanner_fastapi() {
    let scanner = get_scanner("fastapi");
    assert!(scanner.is_ok());
}

#[test]
fn test_get_scanner_vue3() {
    let scanner = get_scanner("vue3");
    assert!(scanner.is_ok());
}

#[test]
fn test_get_scanner_unsupported() {
    let result = get_scanner("django");
    match result {
        Err(err) => assert!(err.message().contains("不支持的技术栈类型")),
        Ok(_) => panic!("an unsupported technology has no scanner"),
    }
}

#[test]
fn sorting_is_the_order_of_strings_and_keeps_ties() {
    let mut expected = names(&["b", "a", "", "ab", "B", "é", "a/b", "a.b", "aa", "〇", "z", "a"]);
    let sorted = stable_sort(expected.clone());
    expected.sort();
    assert_eq!(sorted, expected);
    let entries = vec![
        DirEntry { name: "m".to_string(), path: "1".to_string(), is_dir: true },
        DirEntry { name: "a".to_string(), path: "2".to_string(), is_dir: true },
        DirEntry { name: "m".to_string(), path: "3".to_string(), is_dir: true },
        DirEntry { name: "a".to_string(), path: "4".to_string(), is_dir: true },
    ];
    let modules = scan_modules_dir(Some(entries)).unwrap();
    let paths: Vec<&str> = modules.iter().map(|m| m.path.as_str()).collect();
    assert_eq!(paths, vec!["2", "4", "1", "3"]);
}

#[test]
fn the_skeleton_copy_leaves_out_noise() {
    let mut patterns = default_excludes();
    patterns.push("dist_".to_string());
    patterns.push("*.zip".to_string());
    for name in [".git", "node_modules", "__pycache__", "dist", "dist_客户A_20260209", "dist_", ".env"] {
        assert!(is_excluded(name, true, &patterns), "{}", name);
    }
    for name in ["src", "modules", "distribution", "pkg.egg-info", "a.zip", "config", "mydist_"] {
        assert!(!is_excluded(name, true, &patterns), "{}", name);
    }
    for name in [".env", ".env.local", "x.zip", "pkg.egg-info", ".DS_Store", ".zip", ".git"] {
        assert!(is_excluded(name, false, &patterns), "{}", name);
    }
    for name in ["main.py", "dist_notes.txt", "node_modules", "dist", ".env.example", "zip", "eggs"] {
        assert!(!is_excluded(name, false, &patterns), "{}", name);
    }
    assert!(!is_excluded(".git", true, &[]));
}

#[test]
fn the_skeleton_listing_leaves_out_the_modules_folder() {
    let patterns = listing_excludes("modules", &names(&["media"]));
    assert_eq!(patterns.len(), 26);
    assert_eq!(patterns[22], "modules");
    assert_eq!(patterns[23], "media");
    assert_eq!(patterns[24], "dist_");
    assert_eq!(patterns[25], "*.zip");
    for name in ["modules", "media", ".git", "dist_x", "a.zip", "eggs", ".env", "x.egg-info"] {
        assert!(is_listing_excluded(name, &patterns), "{}", name);
    }
    for name in ["main.py", "src", "module", "zip", ".env.example"] {
        assert!(!is_listing_excluded(name, &patterns), "{}", name);
    }
    assert_eq!(skeleton_entry("config\\settings.py", false), "config/settings.py");
    assert_eq!(skeleton_entry("config", true), "config/");
    assert_eq!(
        sort_skeleton(names(&["utils/", "main.py", "config/", "config/a.py"])),
        names(&["config/", "config/a.py", "main.py", "utils/"])
    );
}

#[test]
fn archive_entries_use_forward_slashes() {
    assert_eq!(zip_entry_name("", true), None);
    assert_eq!(zip_entry_name("", false), None);
    assert_eq!(zip_entry_name("sub\\nested.txt", false), Some("sub/nested.txt".to_string()));
    assert_eq!(zip_entry_name("sub/deep", true), Some("sub/deep/".to_string()));
    assert_eq!(zip_entry_name("hello.txt", false), Some("hello.txt".to_string()));
}

#[test]
fn test_ignored_dirs_filtered() {
    for name in [
        ".git", "node_modules", "__pycache__", ".venv", "venv", ".idea", ".vscode", "target",
        "dist", "build", ".next", ".nuxt",
    ] {
        assert!(is_ignored_dir(name), "{}", name);
    }
    for name in ["src", "", "Target", ".github", "builds"] {
        assert!(!is_ignored_dir(name), "{}", name);
    }
}

#[test]
fn test_hash_consistency() {
    let first = compute_file_hash("hello world".as_bytes());
    let second = compute_file_hash("hello world".as_bytes());
    assert_eq!(first, second);
    assert_eq!(first, "b94d27b9934d3e08a52e52d7da7dabfac484efe37a5380ee9088f7ace2efcde9");
    assert_eq!(
        compute_file_hash(&[]),
        "e3b0c44298fc1c149afbf4c8996fb92427ae41e4649b934ca495991b7852b855"
    );
}

#[test]
fn test_scan_with_files() {
    let files = vec![
        RawFile { relative_path: "main.py".to_string(), content: b"print('hello')".to_vec() },
        RawFile { relative_path: "utils\\helper.py".to_string(), content: b"def help(): pass".to_vec() },
    ];
    let entries = scan_project_files(true, "/p", &files).unwrap();
    assert_eq!(entries.len(), 2);
    let paths: Vec<&str> = entries.iter().map(|e| e.relative_path.as_str()).collect();
    assert!(paths.contains(&"main.py"));
    assert!(paths.contains(&"utils/helper.py"));
    assert_eq!(entries[0], file_entry(&files[0]));
    assert_eq!(entries[0].file_hash, compute_file_hash(b"print('hello')"));
}

#[test]
fn test_scan_empty_dir() {
    let entries = scan_project_files(true, "/p", &[]).unwrap();
    assert!(entries.is_empty());
}

#[test]
fn test_nonexistent_path() {
    let result = scan_project_files(false, "/nonexistent/path/xyz", &[]);
    assert!(result.is_err());
    assert_eq!(result.unwrap_err(), "项目路径不存在：/nonexistent/path/xyz");
}

#[test]
fn the_skeleton_is_listed_in_the_order_of_strings() {
    let walked = |p: &str, d: bool| WalkedEntry { relative_path: p.to_string(), is_dir: d };
    let entries = vec![
        walked("utils", true),
        walked("main.py", false),
        walked("config\\settings.py", false),
        walked("config", true),
    ];
    assert_eq!(
        scan_skeleton_files(true, &entries),
        Ok(names(&["config/", "config/settings.py", "main.py", "utils/"]))
    );
    assert_eq!(scan_skeleton_files(true, &[]), Ok(vec![]));
    assert_eq!(
        scan_skeleton_files(false, &entries),
        Err(AppError::ScanError("项目路径不存在".to_string()))
    );
}

#[test]
fn the_root_of_a_walk_is_never_passed_by() {
    let patterns = default_excludes();
    for name in ["build", "dist", "target", ".git", "node_modules"] {
        assert!(!skips_entry(0, name, true, &patterns), "{}", name);
        assert!(skips_entry(1, name, true, &patterns), "{}", name);
        assert!(skips_entry(7, name, true, &patterns), "{}", name);
        assert!(!skips_dir(0, name, true), "{}", name);
        assert!(skips_dir(1, name, true), "{}", name);
        assert!(!skips_dir(1, name, false), "{}", name);
    }
    assert!(!skips_entry(0, ".env", false, &patterns));
    assert!(skips_entry(2, ".env", false, &patterns));
    assert!(!skips_entry(2, "main.py", false, &patterns));
    assert!(!skips_dir(3, "src", true));
}

#[test]
fn a_file_is_held_against_the_stored_index() {
    let stored = StoredFile {
        file_hash: "aa".to_string(),
        summary: Some("sum".to_string()),
        file_size: 10,
        mtime: 7,
    };
    let change = |c: bool, s: Option<&str>, h: &str| IndexChange {
        changed: c,
        summary: s.map(|x| x.to_string()),
        file_hash: h.to_string(),
    };
    assert_eq!(index_change(None, "bb", 1, 2), change(true, None, "bb"));
    assert_eq!(index_change(Some(&stored), "bb", 10, 7), change(false, Some("sum"), "aa"));
    assert_eq!(index_change(Some(&stored), "aa", 11, 7), change(false, Some("sum"), "aa"));
    assert_eq!(index_change(Some(&stored), "bb", 10, 8), change(true, None, "bb"));
    let bare = StoredFile { summary: None, ..stored.clone() };
    assert_eq!(index_change(Some(&bare), "aa", 0, 0), change(false, None, "aa"));
}

#[test]
fn archive_entries_come_in_the_order_of_their_names() {
    let walked = |p: &str, d: bool| WalkedEntry { relative_path: p.to_string(), is_dir: d };
    let entry = |n: &str, s: &str, d: bool| ArchiveEntry {
        name: n.to_string(),
        source: s.to_string(),
        is_dir: d,
    };
    let found = vec![
        walked("", true),
        walked("sub", true),
        walked("sub\\nested.txt", false),
        walked("hello.txt", false),
        walked("a", true),
    ];
    assert_eq!(
        archive_entries(&found),
        vec![
            entry("a/", "a", true),
            entry("hello.txt", "hello.txt", false),
            entry("sub/", "sub", true),
            entry("sub/nested.txt", "sub\\nested.txt", false),
        ]
    );
    let mut other = found.clone();
    other.reverse();
    assert_eq!(archive_entries(&other), archive_entries(&found));
    assert!(archive_entries(&[]).is_empty());
}
