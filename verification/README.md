# devdeck

The rules of DevDeck, a local "command centre" for a developer's projects (tasks and
boards, checklists and templates, credentials with PuTTY launch, notes, links, file
shortcuts, saved commands, git summaries, health checks, backups, export/import),
written as a library whose every function carries a contract proved by Verus.

## Layout

- `src/` — the verified library. Each module states its rules as spec functions and
  proves the executable code against them:
  - `text` — strings as character sequences: trimming, prefixes, search, decimal output,
    code-point order.
  - `actions`, `cmds` — `~` expansion, folder checks, link normalisation, saved commands.
  - `fields` — required fields, positions in lists, sets of ids.
  - `ordering` — the sidebar, tray and template orders (names compared without ASCII case).
  - `projects`, `tasks`, `columns`, `checklists`, `search`, `tray` — records, the task
    board and agenda, templates, global search, the tray menu.
  - `creds`, `cred_order`, `secrets`, `security`, `crypto`, `hexcodec` — credentials,
    their list order, secret storage under the master password (Argon2id + AES-256-GCM).
  - `git`, `watch`, `monitor`, `backup`, `migrations`, `transfer` — repository summaries,
    the folder watcher, health checks, backups, schema versions, export documents.
  - Calls into outside crates (`aes-gcm`, `argon2`, `rand`, `hex`, `serde_json`) and a
    few std functions sit behind small `#[verifier::external_body]` wrappers whose
    contracts name or state what those calls return.
- `tests/` — tests of the library on concrete values.
- `app/` — the unverified back end around the library: SQLite (`rusqlite`), git
  (`git2`), HTTP (`ureq`), the file watcher (`notify-debouncer-mini`), processes and
  files, and the JSON form of export documents (`serde`).
