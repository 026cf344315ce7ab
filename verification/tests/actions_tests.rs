use devdeck::actions::{expand, expand_path, normalize_url, require_dir, require_dir_or_file};
use devdeck::cmds::{command_fields, command_run_plan};
use devdeck::error::ErrorKind;
use devdeck::models::CommandInput;

const HOME: Option<&str> = Some("C:\\Users\\test");

#[test]
fn expands_leading_tilde() {
    assert_eq!(expand_path("~", HOME), "C:\\Users\\test");
    assert_eq!(expand_path("~/dev/proj", HOME), "C:\\Users\\test\\dev\\proj");
    assert_eq!(expand_path("~\\dev\\proj", HOME), "C:\\Users\\test\\dev\\proj");
}

#[test]
fn leaves_absolute_paths_untouched() {
    assert_eq!(expand_path("D:\\code\\app", HOME), "D:\\code\\app");
    assert_eq!(expand_path("  C:\\x  ", HOME), "C:\\x");
}

#[test]
fn tilde_without_home_stays() {
    assert_eq!(expand_path("~", None), "~");
    assert_eq!(expand_path(" ~/a ", None), "~/a");
}

#[test]
fn home_trailing_backslashes_dropped() {
    assert_eq!(expand_path("~/a/b", Some("C:\\Users\\x\\\\")), "C:\\Users\\x\\a\\b");
}

#[test]
fn expand_leaves_bare_tilde() {
    assert_eq!(expand("~", HOME), "~");
    assert_eq!(expand("~/x", HOME), "C:\\Users\\test\\x");
}

#[test]
fn require_dir_errors_and_success() {
    let e = require_dir("   ", HOME, true).unwrap_err();
    assert_eq!(e.kind, ErrorKind::Validation);
    assert_eq!(e.message, "Путь к проекту не задан");
    let e = require_dir("C:\\nope", HOME, false).unwrap_err();
    assert_eq!(e.kind, ErrorKind::NotFound);
    assert_eq!(e.message, "Папка не найдена: C:\\nope");
    assert_eq!(require_dir(" ~/dev ", HOME, true).unwrap(), "C:\\Users\\test\\dev");
}

#[test]
fn require_dir_or_file_errors_and_success() {
    let e = require_dir_or_file("", HOME, true).unwrap_err();
    assert_eq!(e.kind, ErrorKind::Validation);
    assert_eq!(e.message, "Путь не задан");
    let e = require_dir_or_file("C:\\f.txt", HOME, false).unwrap_err();
    assert_eq!(e.kind, ErrorKind::NotFound);
    assert_eq!(e.message, "Не найдено: C:\\f.txt");
    assert_eq!(require_dir_or_file("C:\\f.txt", HOME, true).unwrap(), "C:\\f.txt");
}

#[test]
fn urls_are_normalized() {
    assert_eq!(normalize_url(" localhost:3000 ").unwrap(), "https://localhost:3000");
    assert_eq!(normalize_url("http://x.dev").unwrap(), "http://x.dev");
    assert_eq!(normalize_url("HTTPS://X.dev/a").unwrap(), "HTTPS://X.dev/a");
    let e = normalize_url("ftp://x").unwrap_err();
    assert_eq!(e.kind, ErrorKind::Validation);
    assert_eq!(e.message, "Поддерживаются только http(s)-ссылки");
    let e = normalize_url("  ").unwrap_err();
    assert_eq!(e.message, "URL не задан");
}

#[test]
fn command_fields_trim_and_default() {
    let input = CommandInput {
        label: " Dev ".into(),
        command: " npm run dev ".into(),
        working_dir: Some("~/app".into()),
        run_in: None,
        icon: None,
    };
    let f = command_fields(&input).unwrap();
    assert_eq!(f.label, "Dev");
    assert_eq!(f.command, "npm run dev");
    assert_eq!(f.run_in, "terminal");
    assert_eq!(f.working_dir.as_deref(), Some("~/app"));
    let bad = CommandInput { label: "x".into(), command: "  ".into(), working_dir: None, run_in: None, icon: None };
    let e = command_fields(&bad).unwrap_err();
    assert_eq!(e.kind, ErrorKind::Validation);
    assert_eq!(e.message, "Ярлык и команда обязательны");
}

#[test]
fn command_run_plan_picks_folder() {
    let p = command_run_plan(" npm test ", Some("  "), Some("~/proj"), HOME).unwrap();
    assert_eq!(p.command, "npm test");
    assert_eq!(p.dir.as_deref(), Some("C:\\Users\\test\\proj"));
    let p = command_run_plan("ls", Some("D:\\w"), Some("~/proj"), HOME).unwrap();
    assert_eq!(p.dir.as_deref(), Some("D:\\w"));
    let p = command_run_plan("ls", None, None, HOME).unwrap();
    assert_eq!(p.dir, None);
    let e = command_run_plan("   ", None, None, HOME).unwrap_err();
    assert_eq!(e.message, "Команда пуста");
}
