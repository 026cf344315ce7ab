use devdeck::ordering::{name_order, sidebar_order, tray_projects, ProjectSortRow};

fn p(id: i64, name: &str, pinned: bool, archived: bool, sort_order: i64) -> ProjectSortRow {
    ProjectSortRow { id, name: name.into(), pinned, archived, sort_order }
}

#[test]
fn sidebar_puts_pinned_first_then_position_then_name() {
    let rows = vec![
        p(1, "zeta", false, false, 0),
        p(2, "Alpha", false, false, 0),
        p(3, "beta", true, false, 5),
        p(4, "alpha", false, false, -1),
        p(5, "Gamma", true, false, 5),
    ];
    assert_eq!(sidebar_order(&rows), vec![3, 5, 4, 2, 1]);
}

#[test]
fn tray_lists_pinned_active_at_most_eight() {
    let mut rows: Vec<ProjectSortRow> = (0..10).map(|i| p(i, &format!("p{}", i), true, false, 10 - i)).collect();
    rows.push(p(20, "archived", true, true, -5));
    rows.push(p(21, "loose", false, false, -5));
    let t = tray_projects(&rows);
    assert_eq!(t.len(), 8);
    assert_eq!(t[0], (9, "p9".to_string()));
    assert!(t.iter().all(|(id, _)| *id != 20 && *id != 21));
}

#[test]
fn template_names_ignore_ascii_case() {
    let names = vec!["beta".to_string(), "Alpha".to_string(), "alpha".to_string(), "Б".to_string()];
    assert_eq!(name_order(&names), vec![1, 2, 0, 3]);
}
