use devdeck::git::git_status_of;
use devdeck::backup::{backups_list, backups_to_prune, is_backup_name, needs_auto_backup, secs_or_zero, FoundFile};
use devdeck::cred_order::{list_cred_ids, CredListRow};
use devdeck::creds::{copy_check, cred_positions, pin_change, plan_putty_launch, PinChange, PuttyCred};
use devdeck::error::ErrorKind;
use devdeck::monitor::{health_result, health_url, parse_json_status, HttpOutcome};
use devdeck::search::{note_title, search_pattern, search_results, SearchRow};
use devdeck::tray::{tray_menu, MenuEntry};
use devdeck::transfer::{export_file_name, export_secret};
use devdeck::secrets::SecretRead;
use devdeck::watch::{watch_candidates, WatchProject};

fn cred(id: i64, project_id: i64, is_global: bool, sort_order: i64, pos: Option<i64>) -> CredListRow {
    CredListRow { id, project_id, is_global, sort_order, project_position: pos }
}

#[test]
fn list_cred_ids_merges_local_and_global() {
    let rows = vec![cred(10, 1, false, 0, None), cred(11, 1, true, 0, None)];
    let p1_ids = list_cred_ids(&rows, 1);
    assert!(p1_ids.contains(&10));
    assert!(p1_ids.contains(&11));
    let p2_ids = list_cred_ids(&rows, 2);
    assert_eq!(p2_ids, vec![11]);
}

#[test]
fn cred_list_order_rules() {
    let rows = vec![
        cred(1, 1, true, 0, None),
        cred(2, 1, false, 5, None),
        cred(3, 2, true, 9, Some(0)),
        cred(4, 1, false, 5, None),
        cred(5, 3, false, 0, None),
    ];
    assert_eq!(list_cred_ids(&rows, 1), vec![3, 2, 4, 1]);
}

#[test]
fn copy_cred_rejects_global_and_missing() {
    assert_eq!(copy_check(Some(true), true).unwrap_err().kind, ErrorKind::Validation);
    assert_eq!(copy_check(None, true).unwrap_err().kind, ErrorKind::NotFound);
    let e = copy_check(Some(false), false).unwrap_err();
    assert_eq!(e.kind, ErrorKind::NotFound);
    assert_eq!(e.message, "Проект не найден");
    assert!(copy_check(Some(false), true).is_ok());
}

#[test]
fn reorder_creds_routes_by_global_flag() {
    let (l, g) = (1i64, 2i64);
    let p = cred_positions(&[g, l], &[true, false]);
    // the global one goes to the project's own order at 0, the local one to its own position 1
    assert!(p[0].per_project && p[0].position == 0 && p[0].id == g);
    assert!(!p[1].per_project && p[1].position == 1 && p[1].id == l);
}

#[test]
fn creds_reorder_sets_sort_order() {
    let (a, b) = (1i64, 2i64);
    let p = cred_positions(&[b, a], &[false, false]);
    let rows: Vec<CredListRow> = p.iter().map(|x| cred(x.id, 1, false, x.position, None)).collect();
    assert_eq!(list_cred_ids(&rows, 1), vec![b, a]);
}

#[test]
fn set_cred_global_toggles_and_cleans_order() {
    assert!(matches!(pin_change(7, false, 1, 0), PinChange::ForgetAll { cred_id: 7 }));
    assert!(matches!(pin_change(7, true, 1, 0), PinChange::RememberHome { cred_id: 7, .. }));
}

#[test]
fn set_cred_global_pin_seeds_home_position() {
    match pin_change(4, true, 2, 3) {
        PinChange::RememberHome { project_id, position, .. } => assert_eq!((project_id, position), (2, 3)),
        _ => panic!("expected the home position"),
    }
}

#[test]
fn putty_launch_plans() {
    let e = plan_putty_launch(None).unwrap_err();
    assert_eq!(e.kind, ErrorKind::NotFound);
    let c = PuttyCred { username: Some("root".into()), url: None, key_path: None, startup_cmd: None };
    assert_eq!(plan_putty_launch(Some(c)).unwrap().target, "root");
    let c = PuttyCred { username: Some("  ".into()), url: Some(" ".into()), key_path: None, startup_cmd: None };
    let e = plan_putty_launch(Some(c)).unwrap_err();
    assert_eq!(e.message, "У креда не указан хост (заполните URL или «Логин / хост»)");
    let c = PuttyCred {
        username: Some("root".into()),
        url: Some("ssh://1.2.3.4:2222/x".into()),
        key_path: Some("k.ppk".into()),
        startup_cmd: Some(" cd /home ".into()),
    };
    let p = plan_putty_launch(Some(c)).unwrap();
    assert_eq!(p.target, "root@1.2.3.4:2222");
    assert!(!p.needs_password);
    assert_eq!(p.script.as_deref(), Some("cd /home; exec $SHELL -l\n"));
}

#[test]
fn empty_query_returns_nothing() {
    assert_eq!(search_pattern("   "), None);
    assert_eq!(search_pattern(" aurora ").as_deref(), Some("%aurora%"));
}

fn srow(id: i64, title: &str) -> SearchRow {
    SearchRow { project_id: 1, project_name: "Aurora".into(), id, title: title.into() }
}

#[test]
fn finds_across_tables() {
    let groups = vec![
        vec![srow(1, "Aurora")],
        vec![srow(2, "aurora task")],
        vec![srow(3, "aurora note")],
        vec![],
        vec![],
        vec![],
        vec![],
    ];
    let hits = search_results(&groups);
    let kinds: Vec<&str> = hits.iter().map(|h| h.kind.as_str()).collect();
    assert_eq!(kinds, vec!["project", "task", "note"]);
    assert_eq!(hits[1].subtitle, "Задача");
}

#[test]
fn search_keeps_fifty() {
    let many: Vec<SearchRow> = (0..15).map(|i| srow(i, "x")).collect();
    let groups: Vec<Vec<SearchRow>> = (0..7).map(|_| many.iter().map(|r| srow(r.id, &r.title)).collect()).collect();
    let hits = search_results(&groups);
    assert_eq!(hits.len(), 50);
    assert_eq!(hits[49].kind, "link");
    assert_eq!(note_title(Some("".into())), "Заметка");
    assert_eq!(note_title(Some("N".into())), "N");
}

#[test]
fn health_checks() {
    assert_eq!(health_url(" localhost:8080/health "), "https://localhost:8080/health");
    assert_eq!(health_url("http://x"), "http://x");
    let r = health_result(
        HttpOutcome::Answered { status: 204, content_type: "application/json".into(), body: Some("{\"state\":\"up\"}".into()) },
        12,
    );
    assert!(r.ok && r.reachable && r.status == 204 && r.latency_ms == 12);
    assert_eq!(r.detail.as_deref(), Some("up"));
    let r = health_result(HttpOutcome::ErrorStatus { code: 503 }, 5);
    assert!(!r.ok && r.reachable && r.status == 503 && r.detail.is_none());
    let r = health_result(HttpOutcome::Unreachable, 6000);
    assert!(!r.ok && !r.reachable && r.status == 0);
    assert_eq!(r.detail.as_deref(), Some("сервис недоступен"));
}

#[test]
fn json_status_fields() {
    let b = Some("{\"health\":\"ok\",\"status\":\"green\"}".to_string());
    assert_eq!(parse_json_status("application/json", b.clone()).as_deref(), Some("green"));
    assert_eq!(parse_json_status("text/html", b), None);
    assert_eq!(parse_json_status("application/json", Some("{\"status\":1}".into())), None);
    assert_eq!(parse_json_status("application/json", Some("nope".into())), None);
}

#[test]
fn tray_menu_layout() {
    let m = tray_menu(&[]);
    assert_eq!(m.len(), 2);
    let m = tray_menu(&[(7, "Aurora".to_string())]);
    assert_eq!(m.len(), 5);
    assert!(matches!(&m[1], MenuEntry::Separator));
    match &m[2] {
        MenuEntry::Item { id, label } => {
            assert_eq!(id, "proj:7");
            assert_eq!(label, "Aurora");
        }
        _ => panic!("expected an item"),
    }
    match &m[4] {
        MenuEntry::Item { id, .. } => assert_eq!(id, "quit"),
        _ => panic!("expected quit"),
    }
}

#[test]
fn backup_rules() {
    assert!(is_backup_name("devdeck-backup-1-0.db"));
    assert!(!is_backup_name("notes.db"));
    assert_eq!(backups_to_prune(&[5, 9, 1, 7], 2), vec![0, 2]);
    assert!(backups_to_prune(&[5], 10).is_empty());
    assert!(needs_auto_backup(None));
    assert!(!needs_auto_backup(Some(100)));
    assert!(needs_auto_backup(Some(72000)));
    assert_eq!(secs_or_zero(None), 0);
    let found = vec![
        FoundFile { name: "devdeck-backup-1-0.db".into(), size_bytes: 10, modified_epoch: 100 },
        FoundFile { name: "other.txt".into(), size_bytes: 1, modified_epoch: 900 },
        FoundFile { name: "devdeck-backup-2-1.db".into(), size_bytes: 20, modified_epoch: 200 },
    ];
    let list = backups_list(&found);
    let names: Vec<&str> = list.iter().map(|b| b.name.as_str()).collect();
    assert_eq!(names, vec!["devdeck-backup-2-1.db", "devdeck-backup-1-0.db"]);
}

#[test]
fn export_without_secrets_omits_them() {
    let blob = Some(vec![1u8, 2, 3]);
    assert!(matches!(export_secret(false, &blob, "master", &None), Ok(SecretRead::Empty)));
    assert!(matches!(export_secret(true, &None, "dpapi", &None), Ok(SecretRead::Empty)));
    assert!(matches!(export_secret(true, &blob, "dpapi", &None), Ok(SecretRead::ForSystem(_))));
    assert_eq!(export_file_name(1700000000), "devdeck-export-1700000000.json");
}

#[test]
fn watch_roots_prefer_repo_path() {
    let projects = vec![
        WatchProject { id: 1, path: Some("C:\\a".into()), repo_path: Some("".into()) },
        WatchProject { id: 2, path: Some("C:\\b".into()), repo_path: Some("~/repo".into()) },
        WatchProject { id: 3, path: None, repo_path: None },
    ];
    let c = watch_candidates(&projects, Some("C:\\Users\\t"));
    assert_eq!(c, vec![("C:\\a".to_string(), 1), ("C:\\Users\\t\\repo".to_string(), 2)]);
}


#[test]
fn no_branch_means_no_ahead_behind() {
    let st = git_status_of(None, None, Some((3, 4)), &[]);
    assert_eq!((st.ahead, st.behind), (0, 0));
    let st = git_status_of(Some("main".into()), None, Some((3, 4)), &[128, 16384]);
    assert_eq!((st.ahead, st.behind, st.dirty, st.untracked), (3, 4, 1, 1));
}
