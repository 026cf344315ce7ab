use vstd::prelude::*;
use crate::models::ImportSummary;
use crate::secrets::{law_secret_readback, read_secret, read_text_spec, SecretRead};
use crate::crypto::aes_blob_open;
use vstd::utf8::encode_utf8;
use crate::security::is_master;
use crate::error::{AppResult, ErrorKind};
use crate::text::{concat3, decimal, u64_to_decimal};

verus! {

/// A task in an export.
#[derive(Debug)]
pub struct ExportTask {
    pub title: String,
    pub description: Option<String>,
    pub status: String,
    pub priority: i64,
    pub due_date: Option<String>,
    pub sort_order: i64,
}

/// A checklist item in an export.
#[derive(Debug)]
pub struct ExportItem {
    pub text: String,
    pub is_done: bool,
    pub sort_order: i64,
}

/// A checklist in an export.
#[derive(Debug)]
pub struct ExportChecklist {
    pub title: String,
    pub sort_order: i64,
    pub items: Vec<ExportItem>,
}

/// A note in an export.
#[derive(Debug)]
pub struct ExportNote {
    pub title: Option<String>,
    pub content_md: Option<String>,
}

/// A link in an export.
#[derive(Debug)]
pub struct ExportLink {
    pub label: String,
    pub url: String,
    pub icon: Option<String>,
    pub sort_order: i64,
}

/// A file shortcut in an export.
#[derive(Debug)]
pub struct ExportFile {
    pub label: String,
    pub path: String,
    pub sort_order: i64,
}

/// A saved command in an export.
#[derive(Debug)]
pub struct ExportCommand {
    pub label: String,
    pub command: String,
    pub working_dir: Option<String>,
    pub run_in: String,
    pub icon: Option<String>,
    pub sort_order: i64,
}

/// A credential in an export; its secret only when secrets were asked for.
#[derive(Debug)]
pub struct ExportCred {
    pub label: String,
    pub kind: String,
    pub username: Option<String>,
    pub url: Option<String>,
    pub notes: Option<String>,
    pub sort_order: i64,
    pub secret: Option<String>,
}

/// A project with everything it holds, in an export.
#[derive(Debug)]
pub struct ExportProject {
    pub name: String,
    pub description: Option<String>,
    pub status: String,
    pub color: Option<String>,
    pub icon: Option<String>,
    pub path: Option<String>,
    pub repo_path: Option<String>,
    pub pinned: bool,
    pub sort_order: i64,
    pub tags: Vec<String>,
    pub tasks: Vec<ExportTask>,
    pub checklists: Vec<ExportChecklist>,
    pub notes: Vec<ExportNote>,
    pub links: Vec<ExportLink>,
    pub files: Vec<ExportFile>,
    pub commands: Vec<ExportCommand>,
    pub creds: Vec<ExportCred>,
}

/// An export document.
#[derive(Debug)]
pub struct ExportDoc {
    pub version: i64,
    pub exported_at: u64,
    pub projects: Vec<ExportProject>,
}

/// The format version of the export document.
pub const EXPORT_VERSION: i64 = 1;

/// The export document of the given projects, made at `exported_at` (unix seconds).
pub fn export_doc(projects: Vec<ExportProject>, exported_at: u64) -> (d: ExportDoc)
    ensures
        d.version == EXPORT_VERSION,
        d.exported_at == exported_at,
        d.projects == projects,
{
    ExportDoc { version: EXPORT_VERSION, exported_at, projects }
}

/// The secret written to an export for a stored blob: none unless secrets were asked
/// for; otherwise the secret read as `read_secret` says.
pub fn export_secret(include_secrets: bool, blob: &Option<Vec<u8>>, mode: &str, master_key: &Option<[u8; 32]>) -> (r: AppResult<SecretRead>)
    ensures
        !include_secrets ==> r matches Ok(SecretRead::Empty),
        include_secrets && (blob is None || (blob matches Some(b) && b@.len() == 0)) ==> r matches Ok(SecretRead::Empty),
        include_secrets && (blob matches Some(b) && b@.len() > 0) ==> {
            let b = blob.unwrap();
            &&& !is_master(mode@) ==> (r matches Ok(SecretRead::ForSystem(c)) && c@ == b@)
            &&& is_master(mode@) && master_key is None ==> (r matches Err(e) && e.kind == ErrorKind::Locked
            && e.message@ == "Секреты заблокированы — введите мастер-пароль"@)
            &&& is_master(mode@) && master_key is Some ==> match read_text_spec(master_key.unwrap()@, b@) {
                Some(t) => r matches Ok(SecretRead::Text(x)) && x@ == t,
                None => r matches Err(e) && e.kind == ErrorKind::Internal,
            }
        },
{
    if !include_secrets {
        return Ok(SecretRead::Empty);
    }
    read_secret(blob, mode, master_key)
}

/// Export then import gives the secrets back (master mode, same key): a secret stored by
/// `secret_to_store` is exported by `export_secret` as its text; importing that text
/// with `secret_to_store` stores a blob that a later export reads as the same secret.
pub proof fn law_export_then_import(key: Seq<u8>, secret: Seq<char>, stored: Seq<u8>, imported: Seq<u8>)
    requires
        aes_blob_open(key, stored) == Some(encode_utf8(secret)),
        aes_blob_open(key, imported) == Some(encode_utf8(read_text_spec(key, stored).unwrap())),
    ensures
        read_text_spec(key, stored) == Some(secret),
        read_text_spec(key, imported) == Some(secret),
{
    law_secret_readback(key, secret, stored);
    law_secret_readback(key, secret, imported);
}

/// What an import reports: how many projects it brought in.
pub fn import_summary(doc: &ExportDoc) -> (s: ImportSummary)
    ensures
        s.projects == doc.projects@.len(),
{
    ImportSummary { projects: doc.projects.len() }
}

/// The file an export is written to: `devdeck-export-<unix seconds>.json`.
pub fn export_file_name(epoch: u64) -> (r: String)
    ensures
        r@ == "devdeck-export-"@ + decimal(epoch as nat) + ".json"@,
{
    let e = u64_to_decimal(epoch);
    concat3("devdeck-export-", e.as_str(), ".json")
}

} // verus!
