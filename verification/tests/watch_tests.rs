use devdeck::watch::{changed_projects, is_noise, path_is_under, project_for_path};

#[test]
fn noise_paths_detected() {
    assert!(is_noise("C:\\dev\\app\\node_modules\\x\\y.js"));
    assert!(is_noise("C:\\dev\\app\\.git\\HEAD"));
    assert!(is_noise("C:\\dev\\app\\target\\debug\\app.exe"));
    assert!(!is_noise("C:\\dev\\app\\src\\main.rs"));
}

#[test]
fn matches_project_root() {
    let roots = vec![
        ("C:\\dev\\aurora".to_string(), 1i64),
        ("C:\\dev\\nebula".to_string(), 2i64),
    ];
    assert_eq!(project_for_path(&roots, "C:\\dev\\aurora\\src\\a.rs"), Some(1));
    assert_eq!(project_for_path(&roots, "C:\\dev\\nebula\\x"), Some(2));
    assert_eq!(project_for_path(&roots, "C:\\other\\z"), None);
}

#[test]
fn root_match_is_by_whole_components() {
    assert!(!path_is_under("C:\\dev\\aurora2\\x", "C:\\dev\\aurora"));
    assert!(path_is_under("C:/dev/aurora/x", "C:\\dev\\aurora\\"));
    assert!(path_is_under("C:\\dev\\.\\aurora", "C:\\dev"));
    assert!(!path_is_under("dev\\x", "\\dev"));
    assert!(path_is_under("anything", ""));
}

#[test]
fn changed_projects_dedups_and_skips_noise() {
    let roots = vec![
        ("C:\\dev\\aurora".to_string(), 1i64),
        ("C:\\dev\\nebula".to_string(), 2i64),
    ];
    let paths = vec![
        "C:\\dev\\nebula\\a".to_string(),
        "C:\\dev\\aurora\\node_modules\\x".to_string(),
        "C:\\dev\\nebula\\b".to_string(),
        "C:\\dev\\aurora\\src\\main.rs".to_string(),
        "C:\\elsewhere".to_string(),
    ];
    assert_eq!(changed_projects(&roots, &paths), vec![2, 1]);
}

#[test]
fn leading_dot_is_a_component() {
    let roots = vec![(".".to_string(), 1i64)];
    assert_eq!(project_for_path(&roots, "x"), None);
    assert_eq!(project_for_path(&roots, "./x"), Some(1));
    assert_eq!(project_for_path(&roots, ".\\x\\y"), Some(1));
    assert!(path_is_under("a/./b", "a/b"));
}

#[test]
fn drive_letters_compare_without_case() {
    let roots = vec![("C:\\dev".to_string(), 1i64)];
    assert_eq!(project_for_path(&roots, "c:\\dev\\x"), Some(1));
    assert_eq!(project_for_path(&roots, "C:dev\\x"), None);
    let drive_only = vec![("C:".to_string(), 2i64)];
    assert_eq!(project_for_path(&drive_only, "C:dev"), Some(2));
    assert_eq!(project_for_path(&drive_only, "c:\\dev"), Some(2));
    assert_eq!(project_for_path(&drive_only, "D:\\dev"), None);
}
