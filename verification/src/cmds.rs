use vstd::prelude::*;
use crate::actions::{expand, expand_spec};
use crate::creds::{opt_str_view, opt_string_view};
use crate::error::{AppError, AppResult, ErrorKind};
use crate::models::CommandInput;
use crate::text::{clone_opt_string, trim, trim_str};

verus! {

/// The stored fields of a project command, as written to the database.
#[derive(Debug)]
pub struct CommandFields {
    pub label: String,
    pub command: String,
    pub working_dir: Option<String>,
    pub run_in: String,
    pub icon: Option<String>,
}

/// Where a command runs unless told otherwise.
pub open spec fn default_run_in() -> Seq<char> {
    seq!['t', 'e', 'r', 'm', 'i', 'n', 'a', 'l']
}

/// A command needs a label and a command line; both are stored trimmed, and `run_in`
/// defaults to `terminal`.
pub fn command_fields(input: &CommandInput) -> (r: AppResult<CommandFields>)
    ensures
        (trim(input.label@).len() == 0 || trim(input.command@).len() == 0) ==> (r matches Err(e)
            && e.kind == ErrorKind::Validation && e.message@ == "Ярлык и команда обязательны"@),
        (trim(input.label@).len() > 0 && trim(input.command@).len() > 0) ==> (r matches Ok(f)
            && f.label@ == trim(input.label@)
            && f.command@ == trim(input.command@)
            && f.working_dir == input.working_dir
            && f.run_in@ == (match input.run_in {
                Some(s) => s@,
                None => default_run_in(),
            })
            && f.icon == input.icon),
{
    let label = trim_str(input.label.as_str());
    let command = trim_str(input.command.as_str());
    if label.unicode_len() == 0 || command.unicode_len() == 0 {
        return Err(AppError::new(ErrorKind::Validation, "Ярлык и команда обязательны"));
    }
    proof {
        reveal_strlit("terminal");
        assert("terminal"@ =~= default_run_in());
    }
    let run_in = match &input.run_in {
        Some(s) => s.clone(),
        None => String::from_str("terminal"),
    };
    Ok(CommandFields {
        label: String::from_str(label),
        command: String::from_str(command),
        working_dir: clone_opt_string(&input.working_dir),
        run_in,
        icon: clone_opt_string(&input.icon),
    })
}

/// The first of two optional folders that is set and not blank, trimmed.
pub open spec fn pick_dir(first: Option<Seq<char>>, second: Option<Seq<char>>) -> Option<Seq<char>> {
    if first is Some && trim(first.unwrap()).len() > 0 {
        Some(trim(first.unwrap()))
    } else if second is Some && trim(second.unwrap()).len() > 0 {
        Some(trim(second.unwrap()))
    } else {
        None
    }
}

/// How a saved command is started: the trimmed command line, and the folder to run it
/// in (its own working folder, else the project's folder, expanded), if any.
#[derive(Debug)]
pub struct RunPlan {
    pub command: String,
    pub dir: Option<String>,
}

/// Plan the run of a saved command. A blank command is refused; the folder is the
/// command's working folder, else the project's path (the first that is not blank),
/// with a leading `~` resolved. Whether that folder exists is for the caller to test.
pub fn command_run_plan(command: &str, working_dir: Option<&str>, project_path: Option<&str>, home: Option<&str>) -> (r: AppResult<RunPlan>)
    ensures
        trim(command@).len() == 0 ==> (r matches Err(e) && e.kind == ErrorKind::Validation
            && e.message@ == "Команда пуста"@),
        trim(command@).len() > 0 ==> (r matches Ok(p)
            && p.command@ == trim(command@)
            && opt_string_view(p.dir) == (match pick_dir(opt_str_view(working_dir), opt_str_view(project_path)) {
                Some(d) => Some(expand_spec(d, opt_str_view(home))),
                None => None,
            })),
{
    let c = trim_str(command);
    if c.unicode_len() == 0 {
        return Err(AppError::new(ErrorKind::Validation, "Команда пуста"));
    }
    let mut raw: Option<&str> = None;
    match working_dir {
        Some(w) => {
            let t = trim_str(w);
            if t.unicode_len() > 0 {
                raw = Some(t);
            }
        },
        None => {},
    }
    if raw.is_none() {
        match project_path {
            Some(pp) => {
                let t = trim_str(pp);
                if t.unicode_len() > 0 {
                    raw = Some(t);
                }
            },
            None => {},
        }
    }
    let dir = match raw {
        Some(d) => Some(expand(d, home)),
        None => None,
    };
    Ok(RunPlan { command: String::from_str(c), dir })
}

} // verus!
