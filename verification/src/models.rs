use vstd::prelude::*;

verus! {

/// A project record.
#[derive(Debug, PartialEq, Eq)]
pub struct Project {
    pub id: i64,
    pub name: String,
    pub description: Option<String>,
    /// active | paused | done | archived
    pub status: String,
    pub color: Option<String>,
    /// emoji or path of an imported image
    pub icon: Option<String>,
    pub path: Option<String>,
    pub repo_path: Option<String>,
    pub health_url: Option<String>,
    pub pinned: bool,
    pub sort_order: i64,
    pub tags: Vec<String>,
    pub created_at: String,
    pub updated_at: String,
}

/// Input for creating or updating a project.
#[derive(Debug, PartialEq, Eq)]
pub struct ProjectInput {
    pub name: String,
    pub description: Option<String>,
    pub status: Option<String>,
    pub color: Option<String>,
    pub icon: Option<String>,
    pub path: Option<String>,
    pub repo_path: Option<String>,
    pub health_url: Option<String>,
    pub tags: Vec<String>,
}

/// A sidebar folder of projects.
#[derive(Debug, PartialEq, Eq)]
pub struct ProjectGroup {
    pub id: i64,
    pub name: String,
    pub sort_order: i64,
}

/// A read-only snapshot of a git repository.
#[derive(Debug, PartialEq, Eq)]
pub struct GitStatus {
    pub branch: Option<String>,
    pub ahead: usize,
    pub behind: usize,
    pub dirty: usize,
    pub staged: usize,
    pub untracked: usize,
    pub last_hash: Option<String>,
    pub last_message: Option<String>,
    /// unix seconds
    pub last_timestamp: Option<i64>,
}

/// Outcome of a git command: success flag and combined output.
#[derive(Debug, PartialEq, Eq)]
pub struct GitOpResult {
    pub ok: bool,
    pub output: String,
}

/// One changed file of a working tree.
#[derive(Debug, PartialEq, Eq)]
pub struct GitFile {
    pub path: String,
    /// one of `?`, `D`, `R`, `T`, `A`, `M`
    pub code: String,
    pub staged: bool,
}

/// Uncommitted changes: diffstat and the changed files.
#[derive(Debug, PartialEq, Eq)]
pub struct GitChanges {
    pub insertions: usize,
    pub deletions: usize,
    pub files: Vec<GitFile>,
}

/// A project that needs attention on the dashboard.
#[derive(Debug, PartialEq, Eq)]
pub struct AttentionItem {
    pub project_id: i64,
    pub name: String,
    pub color: Option<String>,
    pub icon: Option<String>,
    pub branch: Option<String>,
    pub ahead: usize,
    pub dirty: usize,
    pub last_hash: Option<String>,
    pub last_message: Option<String>,
}

/// A task of a project board.
#[derive(Debug, PartialEq, Eq)]
pub struct Task {
    pub id: i64,
    pub project_id: i64,
    pub title: String,
    pub description: Option<String>,
    /// key of the board column
    pub status: String,
    /// 0 | 1 | 2
    pub priority: i64,
    pub due_date: Option<String>,
    pub sort_order: i64,
    pub created_at: String,
    pub completed_at: Option<String>,
    pub label_ids: Vec<i64>,
}

/// Input for creating or updating a task.
#[derive(Debug, PartialEq, Eq)]
pub struct TaskInput {
    pub title: String,
    pub description: Option<String>,
    pub status: Option<String>,
    pub priority: Option<i64>,
    pub due_date: Option<String>,
}

/// A column of a project's task board.
#[derive(Debug, PartialEq, Eq)]
pub struct TaskColumn {
    pub id: i64,
    pub project_id: i64,
    pub key: String,
    pub name: String,
    pub is_done: bool,
    pub sort_order: i64,
}

/// A task label.
#[derive(Debug, PartialEq, Eq)]
pub struct Label {
    pub id: i64,
    pub project_id: i64,
    pub name: String,
    pub color: Option<String>,
    pub sort_order: i64,
}

/// A task that is due (today or overdue) across all projects.
#[derive(Debug, PartialEq, Eq)]
pub struct AgendaItem {
    pub project_id: i64,
    pub project_name: String,
    pub project_color: Option<String>,
    pub task_id: i64,
    pub title: String,
    pub due_date: Option<String>,
    pub priority: i64,
}

/// One item of a checklist.
#[derive(Debug, PartialEq, Eq)]
pub struct ChecklistItem {
    pub id: i64,
    pub checklist_id: i64,
    pub text: String,
    pub is_done: bool,
    pub sort_order: i64,
}

/// A checklist with its items.
#[derive(Debug, PartialEq, Eq)]
pub struct Checklist {
    pub id: i64,
    pub project_id: i64,
    pub title: String,
    pub sort_order: i64,
    pub items: Vec<ChecklistItem>,
}

/// A reusable checklist: a name and the texts of its items.
#[derive(Debug, PartialEq, Eq)]
pub struct ChecklistTemplate {
    pub id: i64,
    pub name: String,
    pub items: Vec<String>,
}

/// Credential metadata (never the secret itself).
#[derive(Debug, PartialEq, Eq)]
pub struct Credential {
    pub id: i64,
    pub project_id: i64,
    pub label: String,
    /// login | api_key | token | ssh | conn_string | note
    pub kind: String,
    pub username: Option<String>,
    pub url: Option<String>,
    pub notes: Option<String>,
    pub sort_order: i64,
    pub has_secret: bool,
    pub key_path: Option<String>,
    pub is_global: bool,
    pub startup_cmd: Option<String>,
}

/// Input for creating or updating a credential.
#[derive(Debug, PartialEq, Eq)]
pub struct CredInput {
    pub label: String,
    pub kind: String,
    pub username: Option<String>,
    pub url: Option<String>,
    pub notes: Option<String>,
    /// None: keep the secret (on update); Some(""): clear it; Some(x): set it.
    pub secret: Option<String>,
    pub key_path: Option<String>,
    pub startup_cmd: Option<String>,
}

/// A markdown note.
#[derive(Debug, PartialEq, Eq)]
pub struct Note {
    pub id: i64,
    pub project_id: i64,
    pub title: Option<String>,
    pub content_md: Option<String>,
    pub updated_at: String,
}

/// A bookmarked URL.
#[derive(Debug, PartialEq, Eq)]
pub struct Link {
    pub id: i64,
    pub project_id: i64,
    pub label: String,
    pub url: String,
    pub icon: Option<String>,
    pub sort_order: i64,
}

/// A shortcut to a file or folder.
#[derive(Debug, PartialEq, Eq)]
pub struct FileShortcut {
    pub id: i64,
    pub project_id: i64,
    pub label: String,
    pub path: String,
    pub sort_order: i64,
    pub show_terminal: bool,
}

/// A user-defined command of a project.
#[derive(Debug, PartialEq, Eq)]
pub struct ProjectCommand {
    pub id: i64,
    pub project_id: i64,
    pub label: String,
    pub command: String,
    pub working_dir: Option<String>,
    /// terminal | background
    pub run_in: String,
    pub icon: Option<String>,
    pub sort_order: i64,
}

/// Input for creating or updating a command.
#[derive(Debug, PartialEq, Eq)]
pub struct CommandInput {
    pub label: String,
    pub command: String,
    pub working_dir: Option<String>,
    pub run_in: Option<String>,
    pub icon: Option<String>,
}

/// One hit of the global search.
#[derive(Debug, PartialEq, Eq)]
pub struct SearchHit {
    /// project | task | note | link | cred | command | file
    pub kind: String,
    pub project_id: i64,
    pub project_name: String,
    /// id of the entity (for a project: the project id)
    pub id: i64,
    pub title: String,
    pub subtitle: String,
}

/// A backup file.
#[derive(Debug, PartialEq, Eq)]
pub struct BackupInfo {
    pub name: String,
    pub size_bytes: u64,
    pub created_epoch: u64,
}

/// How secrets are protected, and whether they are locked.
#[derive(Debug, PartialEq, Eq)]
pub struct CryptoStatus {
    pub mode: String,
    pub locked: bool,
}

/// Outcome of an import.
#[derive(Debug, PartialEq, Eq)]
pub struct ImportSummary {
    pub projects: usize,
}

} // verus!
