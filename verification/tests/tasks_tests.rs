use devdeck::columns::{column_delete_plan, column_key, default_columns};
use devdeck::fields::reorder_positions;
use devdeck::error::ErrorKind;
use devdeck::models::TaskInput;
use devdeck::tasks::{
    agenda, clamp_priority, completion_time, first_column_key, is_done_column, plan_new_task, plan_task_update,
    AgendaRow, ColumnRow,
};

fn cols() -> Vec<ColumnRow> {
    vec![
        ColumnRow { id: 1, key: "todo".into(), is_done: false, sort_order: 0 },
        ColumnRow { id: 2, key: "doing".into(), is_done: false, sort_order: 1 },
        ColumnRow { id: 3, key: "done".into(), is_done: true, sort_order: 2 },
    ]
}

fn row(title: &str, due: &str, done: bool, prio: i64) -> AgendaRow {
    AgendaRow {
        project_id: 1,
        project_name: "P".into(),
        project_color: None,
        project_archived: false,
        task_id: 0,
        title: title.into(),
        due_date: Some(due.into()),
        priority: prio,
        in_done_column: done,
    }
}

#[test]
fn agenda_returns_overdue_and_today_not_done() {
    let rows = vec![
        row("overdue", "2026-06-01", false, 0),
        row("today", "2026-06-07", false, 0),
        row("future", "2026-12-31", false, 0),
        row("done", "2026-06-01", true, 0),
        row("nodate", "", false, 0),
    ];
    let items = agenda(&rows, "2026-06-07");
    let titles: Vec<&str> = items.iter().map(|i| i.title.as_str()).collect();
    assert_eq!(titles, vec!["overdue", "today"]);
}

#[test]
fn agenda_orders_by_date_then_priority_and_skips_archived() {
    let mut archived = row("arch", "2026-01-01", false, 2);
    archived.project_archived = true;
    let rows = vec![
        row("b-low", "2026-06-02", false, 0),
        row("a", "2026-06-01", false, 0),
        row("b-high", "2026-06-02", false, 2),
        archived,
    ];
    let items = agenda(&rows, "2026-06-07");
    let titles: Vec<&str> = items.iter().map(|i| i.title.as_str()).collect();
    assert_eq!(titles, vec!["a", "b-high", "b-low"]);
}

#[test]
fn agenda_keeps_at_most_fifty() {
    let rows: Vec<AgendaRow> = (0..60).map(|i| row(&format!("t{}", i), "2026-01-01", false, 0)).collect();
    assert_eq!(agenda(&rows, "2026-06-07").len(), 50);
}

#[test]
fn first_column_and_done_columns() {
    let mut c = cols();
    assert_eq!(first_column_key(&c), "todo");
    c[1].sort_order = -1;
    assert_eq!(first_column_key(&c), "doing");
    assert_eq!(first_column_key(&[]), "todo");
    assert!(is_done_column(&cols(), "done"));
    assert!(!is_done_column(&cols(), "todo"));
    assert!(!is_done_column(&cols(), "missing"));
}

#[test]
fn new_task_defaults() {
    let input = TaskInput { title: "  T ".into(), description: None, status: None, priority: Some(7), due_date: None };
    let f = plan_new_task(&input, &cols()).unwrap();
    assert_eq!(f.title, "T");
    assert_eq!(f.status, "todo");
    assert_eq!(f.priority, 2);
    assert!(!f.done);
    let input = TaskInput { title: "T".into(), description: None, status: Some("done".into()), priority: Some(-3), due_date: None };
    let f = plan_new_task(&input, &cols()).unwrap();
    assert_eq!(f.status, "done");
    assert_eq!(f.priority, 0);
    assert!(f.done);
    let input = TaskInput { title: " ".into(), description: None, status: None, priority: None, due_date: None };
    let e = plan_new_task(&input, &cols()).unwrap_err();
    assert_eq!(e.kind, ErrorKind::Validation);
    assert_eq!(e.message, "Заголовок задачи пуст");
}

#[test]
fn task_update_defaults_to_todo() {
    let input = TaskInput { title: "T".into(), description: Some("d".into()), status: None, priority: None, due_date: None };
    let f = plan_task_update(&input, &cols()).unwrap();
    assert_eq!(f.status, "todo");
    assert_eq!(f.priority, 0);
    assert_eq!(f.description.as_deref(), Some("d"));
}

#[test]
fn priority_clamped() {
    assert_eq!(clamp_priority(None), 0);
    assert_eq!(clamp_priority(Some(1)), 1);
    assert_eq!(clamp_priority(Some(9)), 2);
}

#[test]
fn completion_time_is_kept_in_done_columns() {
    let first = completion_time(true, None, "2026-01-01 10:00:00");
    assert_eq!(first.as_deref(), Some("2026-01-01 10:00:00"));
    let again = completion_time(true, first, "2026-02-02 10:00:00");
    assert_eq!(again.as_deref(), Some("2026-01-01 10:00:00"));
    assert_eq!(completion_time(false, again, "x"), None);
}

#[test]
fn default_board_and_keys() {
    let d = default_columns();
    let keys: Vec<&str> = d.iter().map(|c| c.key.as_str()).collect();
    assert_eq!(keys, vec!["todo", "doing", "done"]);
    assert!(d[2].is_done && !d[0].is_done);
    assert_eq!(d[1].name, "In Progress");
    assert_eq!(column_key(42), "c42");
    assert_eq!(column_key(-5), "c-5");
}

#[test]
fn deleting_a_column_moves_tasks_to_first_other() {
    let m = column_delete_plan(&cols(), 1).unwrap();
    assert_eq!(m.from_key, "todo");
    assert_eq!(m.to_key, "doing");
    let m = column_delete_plan(&cols(), 2).unwrap();
    assert_eq!(m.to_key, "todo");
    let one = vec![ColumnRow { id: 1, key: "todo".into(), is_done: false, sort_order: 0 }];
    let e = column_delete_plan(&one, 1).unwrap_err();
    assert_eq!(e.kind, ErrorKind::Validation);
    assert_eq!(e.message, "Нельзя удалить последнюю колонку");
}

fn input(title: &str, status: &str) -> TaskInput {
    TaskInput { title: title.into(), description: None, status: Some(status.into()), priority: Some(2), due_date: None }
}

#[test]
fn create_list_move_delete() {
    let a = plan_new_task(&input("A", "todo"), &cols()).unwrap();
    assert_eq!(a.priority, 2);
    assert!(!a.done);
    assert_eq!(completion_time(a.done, None, "2026-06-07 10:00:00"), None);
    // moving A to the done column sets its completion time
    let done = is_done_column(&cols(), "done");
    assert_eq!(completion_time(done, None, "2026-06-07 10:00:00").as_deref(), Some("2026-06-07 10:00:00"));
}

#[test]
fn reorder_moves_renumbers_and_sets_completed() {
    let (a, b, c) = (1i64, 2i64, 3i64);
    assert_eq!(reorder_positions(&[c, a, b]), vec![(c, 0), (a, 1), (b, 2)]);
    // moving A into the done column: position 0 and a completion time
    assert_eq!(reorder_positions(&[a]), vec![(a, 0)]);
    assert!(completion_time(is_done_column(&cols(), "done"), None, "now").is_some());
}

#[test]
fn reorder_columns_sets_sort_order() {
    let ids: Vec<i64> = cols().iter().map(|c| c.id).collect();
    let rev: Vec<i64> = ids.iter().rev().cloned().collect();
    let mut board = cols();
    for (id, pos) in reorder_positions(&rev) {
        for c in board.iter_mut() {
            if c.id == id {
                c.sort_order = pos;
            }
        }
    }
    assert_eq!(first_column_key(&board), "done");
    assert_eq!(rev[0], 3);
}
