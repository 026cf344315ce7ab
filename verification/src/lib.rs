//! DevDeck core: the rules of a developer's local "command centre" (projects,
//! tasks, credentials, git summaries, backups), with each rule stated as a
//! contract and proved by Verus.

pub mod error;
pub mod text;
pub mod models;
pub mod creds;
pub mod watch;
pub mod git;
pub mod hexcodec;
pub mod crypto;
pub mod security;
pub mod backup;
pub mod actions;
pub mod cmds;
pub mod fields;
pub mod tasks;
pub mod columns;
pub mod projects;
pub mod checklists;
pub mod search;
pub mod monitor;
pub mod tray;
pub mod secrets;
pub mod cred_order;
pub mod transfer;
pub mod migrations;
pub mod ordering;
