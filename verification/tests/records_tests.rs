use devdeck::checklists::{applied_items, checklist_item_text, checklist_title, parse_items, template_items_json, template_name};
use devdeck::error::ErrorKind;
use devdeck::fields::{
    clean_name, column_name, distinct_ids, file_fields, label_name, link_fields, next_sort_order, reorder_positions,
    require_updated,
};
use devdeck::migrations::{pending_migrations, SCHEMA_VERSION};
use devdeck::models::ProjectInput;
use devdeck::projects::{clean_tags, credential_heir, icon_file_name, project_fields};

#[test]
fn create_list_rename_in_order() {
    assert_eq!(clean_name(" Alpha ").unwrap(), "Alpha");
    assert_eq!(clean_name("Gamma").unwrap(), "Gamma");
    let e = clean_name("  ").unwrap_err();
    assert_eq!(e.kind, ErrorKind::Validation);
    assert_eq!(e.message, "Имя папки не может быть пустым");
    // renaming a folder that does not exist
    let e = require_updated(0, "Папка не найдена").unwrap_err();
    assert_eq!(e.kind, ErrorKind::NotFound);
    assert_eq!(e.message, "Папка не найдена");
    assert!(require_updated(1, "x").is_ok());
}

#[test]
fn next_position_follows_the_largest() {
    assert_eq!(next_sort_order(&[]), 1);
    assert_eq!(next_sort_order(&[3, 9, 1]), 10);
    assert_eq!(next_sort_order(&[-4, -2]), -1);
}

#[test]
fn reorder_sets_positions() {
    assert_eq!(reorder_positions(&[7, 3, 5]), vec![(7, 0), (3, 1), (5, 2)]);
}

#[test]
fn validators_report_their_messages() {
    assert_eq!(link_fields(" Docs ", " https://x ").unwrap(), ("Docs".to_string(), "https://x".to_string()));
    assert_eq!(link_fields("Docs", " ").unwrap_err().message, "Название и URL обязательны");
    assert_eq!(file_fields(" ", "C:\\a").unwrap_err().message, "Название и путь обязательны");
    assert_eq!(label_name("").unwrap_err().message, "Название метки пусто");
    assert_eq!(column_name(" Review ").unwrap(), "Review");
    assert_eq!(column_name(" ").unwrap_err().message, "Название колонки пусто");
    assert_eq!(checklist_title(" ").unwrap_err().message, "Название чеклиста пусто");
    assert_eq!(checklist_item_text(" Тег ").unwrap(), "Тег");
    assert_eq!(checklist_item_text("").unwrap_err().message, "Пункт пуст");
    assert_eq!(template_name("\t").unwrap_err().message, "Имя шаблона пусто");
}

#[test]
fn task_labels_are_a_set() {
    assert_eq!(distinct_ids(&[3, 1, 3, 2, 1]), vec![3, 1, 2]);
}

#[test]
fn save_and_apply_template() {
    let texts = vec!["Тег".to_string(), "Changelog".to_string(), "say \"hi\"".to_string()];
    let json = template_items_json(&texts).unwrap();
    assert_eq!(parse_items(&json), texts);
    let items = applied_items(parse_items(&json));
    assert_eq!(items.len(), 3);
    assert_eq!(items[1].text, "Changelog");
    assert_eq!(items[1].sort_order, 1);
    assert!(items.iter().all(|i| !i.is_done));
}

#[test]
fn unreadable_template_is_empty() {
    assert!(parse_items("not json").is_empty());
    assert!(parse_items("[1,2]").is_empty());
    assert_eq!(parse_items("[\"a\"]"), vec!["a".to_string()]);
}

#[test]
fn create_with_tags_and_read_back() {
    let input = ProjectInput {
        name: " Aurora ".into(),
        description: None,
        status: None,
        color: None,
        icon: None,
        path: None,
        repo_path: None,
        health_url: None,
        tags: vec!["rust".into(), " axum ".into(), "".into(), "rust".into()],
    };
    let f = project_fields(&input).unwrap();
    assert_eq!(f.name, "Aurora");
    assert_eq!(f.status, "active");
    assert_eq!(f.tags, vec!["rust".to_string(), "axum".to_string()]);
    let bad = ProjectInput { name: " ".into(), ..input };
    assert_eq!(project_fields(&bad).unwrap_err().message, "Имя проекта не может быть пустым");
}

#[test]
fn set_tags_replaces_and_dedups_global() {
    let tags = vec!["shared".to_string(), " shared ".to_string(), "only".to_string()];
    assert_eq!(clean_tags(&tags), vec!["shared".to_string(), "only".to_string()]);
}

#[test]
fn delete_project_reassigns_global_creds() {
    assert_eq!(credential_heir(&[1, 2], 1), Some(2));
    assert_eq!(credential_heir(&[5, 3, 9], 9), Some(3));
}

#[test]
fn delete_last_project_removes_orphan_globals() {
    assert_eq!(credential_heir(&[4], 4), None);
    assert_eq!(credential_heir(&[], 4), None);
}

#[test]
fn icon_names() {
    assert_eq!(icon_file_name(Some("PNG"), 1700000000123), "icon-1700000000123.png");
    assert_eq!(icon_file_name(None, 5), "icon-5.png");
    assert_eq!(icon_file_name(Some("Jpeg"), 0), "icon-0.jpeg");
}

#[test]
fn applies_migrations_on_empty_db() {
    assert_eq!(pending_migrations(0), vec![1, 2, 3]);
    assert_eq!(pending_migrations(1), vec![2, 3]);
}

#[test]
fn run_is_idempotent() {
    assert!(pending_migrations(SCHEMA_VERSION).is_empty());
    assert!(pending_migrations(7).is_empty());
}
