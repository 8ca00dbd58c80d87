//! The commands that show and change the variables of an app.

use vstd::prelude::*;
use crate::app_name::{invalid_name_message, valid_app_name, validate_app_name};
use crate::env::{
    apply_assignments, assigned, bad_name, ensure_required_env_present, env_listing, first_invalid,
    listing, parse_env_names, required_verdict, unset, unset_names,
};
use crate::order::first_occurrences;
use crate::table::{lookup, Table};
use crate::text::{outcome, push_text};

verus! {

/// What a command on the variables of an app comes down to.
pub enum EnvCommand {
    /// Lines to show.
    Show(Vec<String>),
    /// Variables to keep.
    Save(Table<String>),
}

/// The mathematical form of this.
pub enum EnvCommandView {
    Show(Seq<Seq<char>>),
    Save(Map<Seq<char>, Seq<char>>),
}

impl DeepView for EnvCommand {
    type V = EnvCommandView;

    open spec fn deep_view(&self) -> EnvCommandView {
        match self {
            EnvCommand::Show(lines) => EnvCommandView::Show(lines.deep_view()),
            EnvCommand::Save(vars) => EnvCommandView::Save(vars.deep_view()),
        }
    }
}

/// What is shown of the variables of an app.
pub open spec fn shown_vars(app: Seq<char>, rows: Seq<(Seq<char>, Seq<char>)>) -> Seq<Seq<char>> {
    if rows.len() == 0 {
        seq!["No environment variables configured for "@ + app + "."@]
    } else {
        listing(rows)
    }
}

pub open spec fn env_command_of(
    app: Seq<char>,
    vars: Result<Table<String>, String>,
    assignments: Seq<Seq<char>>,
) -> Result<EnvCommandView, Seq<char>> {
    if !valid_app_name(app) {
        Err(invalid_name_message(app))
    } else {
        match vars {
            Err(err) => Err(err@),
            Ok(vars) => if assignments.len() == 0 {
                Ok(EnvCommandView::Show(shown_vars(app, vars.rows.deep_view())))
            } else {
                match assigned(vars.deep_view(), assignments) {
                    Ok(after) => Ok(EnvCommandView::Save(after)),
                    Err(err) => Err(err),
                }
            },
        }
    }
}

/// Shows the variables of an app, or sets some of them. `vars` are those that are kept,
/// or why they cannot be read.
pub fn env_command(app: &str, vars: Result<Table<String>, String>, assignments: &Vec<String>) -> (r:
    Result<EnvCommand, String>)
    requires
        vars matches Ok(table) ==> table.wf(),
    ensures
        outcome(r) == env_command_of(app@, vars, assignments.deep_view()),
        r matches Ok(EnvCommand::Save(table)) ==> table.wf(),
{
    if let Err(err) = validate_app_name(app) {
        return Err(err);
    }
    let mut vars = match vars {
        Ok(vars) => vars,
        Err(err) => {
            return Err(err);
        },
    };
    if assignments.is_empty() {
        if vars.rows.is_empty() {
            let mut line = String::from_str("No environment variables configured for ");
            line.append(app);
            line.append(".");
            let ghost text = line@;
            let mut lines: Vec<String> = Vec::new();
            push_text(&mut lines, line);
            assert(lines.deep_view() =~= seq![text]);
            return Ok(EnvCommand::Show(lines));
        }
        return Ok(EnvCommand::Show(env_listing(&vars)));
    }
    match apply_assignments(&mut vars, assignments) {
        Ok(_) => Ok(EnvCommand::Save(vars)),
        Err(err) => Err(err),
    }
}

/// The variables that are left, and how many names were given.
pub open spec fn env_unset_of(
    app: Seq<char>,
    vars: Result<Table<String>, String>,
    names: Seq<Seq<char>>,
) -> Result<(Map<Seq<char>, Seq<char>>, nat), Seq<char>> {
    if !valid_app_name(app) {
        Err(invalid_name_message(app))
    } else if names.len() == 0 {
        Err("env-unset requires at least one NAME"@)
    } else {
        match vars {
            Err(err) => Err(err@),
            Ok(vars) => match first_invalid(names) {
                Some(name) => Err(bad_name(name)),
                None => Ok(
                    (
                        unset(vars.deep_view(), first_occurrences(names)),
                        first_occurrences(names).len(),
                    ),
                ),
            },
        }
    }
}

/// Unsets variables of an app: those that are left, and how many names were given. Where
/// none is left, their file goes.
pub fn env_unset(app: &str, vars: Result<Table<String>, String>, names: &Vec<String>) -> (r: Result<
    (Table<String>, usize),
    String,
>)
    requires
        vars matches Ok(table) ==> table.wf(),
    ensures
        match env_unset_of(app@, vars, names.deep_view()) {
            Ok((left, count)) => r matches Ok(after) && after.0.wf() && after.0.deep_view() == left
                && after.1 == count,
            Err(err) => r matches Err(message) && message@ == err,
        },
{
    if let Err(err) = validate_app_name(app) {
        return Err(err);
    }
    if names.is_empty() {
        return Err(String::from_str("env-unset requires at least one NAME"));
    }
    let mut vars = match vars {
        Ok(vars) => vars,
        Err(err) => {
            return Err(err);
        },
    };
    match parse_env_names(names) {
        Ok(parsed) => {
            unset_names(&mut vars, &parsed);
            Ok((vars, parsed.len()))
        },
        Err(err) => Err(err),
    }
}

/// Whether changed variables of an app may be kept: while it runs, all that it requires
/// must stay set.
pub open spec fn keeping_verdict(
    running: bool,
    required: Seq<Seq<char>>,
    vars: Map<Seq<char>, Seq<char>>,
) -> Result<(), Seq<char>> {
    if running {
        required_verdict(required, vars)
    } else {
        Ok(())
    }
}

/// Whether changed variables of an app may be kept. Where they may not, those that were
/// kept before stay.
pub fn vars_may_be_kept(running: bool, required: &Vec<String>, vars: &Table<String>) -> (r: Result<
    (),
    String,
>)
    requires
        vars.wf(),
    ensures
        outcome(r) == keeping_verdict(running, required.deep_view(), vars.deep_view()),
{
    if running {
        ensure_required_env_present(required, vars)
    } else {
        Ok(())
    }
}

/// The variables that are kept after a command that sets some, and its result.
pub open spec fn kept_after(
    app: Seq<char>,
    vars: Result<Table<String>, String>,
    assignments: Seq<Seq<char>>,
    running: bool,
    required: Seq<Seq<char>>,
) -> (Result<(), Seq<char>>, Option<Map<Seq<char>, Seq<char>>>) {
    match env_command_of(app, vars, assignments) {
        Err(err) => (Err(err), None),
        Ok(EnvCommandView::Show(_)) => (Ok(()), None),
        Ok(EnvCommandView::Save(after)) => match keeping_verdict(running, required, after) {
            Err(err) => (Err(err), None),
            Ok(_) => (Ok(()), Some(after)),
        },
    }
}

/// A command on the variables of an app keeps what all its assignments make of them, or
/// nothing: nothing where it shows them, where an assignment is none, or where the app
/// runs and would lack what it requires.
pub proof fn variables_change_as_a_whole(
    app: Seq<char>,
    vars: Table<String>,
    assignments: Seq<Seq<char>>,
    running: bool,
    required: Seq<Seq<char>>,
)
    requires
        valid_app_name(app),
    ensures
        ({
            let old_vars = vars.deep_view();
            let (result, kept) = kept_after(
                app,
                Ok::<Table<String>, String>(vars),
                assignments,
                running,
                required,
            );
            let merged = assigned(old_vars, assignments);
            &&& kept matches Some(after) ==> result is Ok && merged == Ok::<
                Map<Seq<char>, Seq<char>>,
                Seq<char>,
            >(after)
            &&& assignments.len() == 0 ==> result is Ok && kept is None
            &&& assignments.len() > 0 && merged is Err ==> result is Err && kept is None
            &&& assignments.len() > 0 && merged is Ok && running && required_verdict(
                required,
                merged->Ok_0,
            ) is Err ==> result is Err && kept is None
            &&& assignments.len() > 0 && result is Ok ==> kept is Some
        }),
{
}

/// Without assignments the variables of an app are shown, and with some they are changed;
/// neither of an app whose name is not valid or whose variables cannot be read.
pub proof fn variables_are_shown_or_changed(
    app: Seq<char>,
    vars: Result<Table<String>, String>,
    assignments: Seq<Seq<char>>,
)
    ensures
        ({
            let command = env_command_of(app, vars, assignments);
            &&& command is Ok <==> {
                &&& valid_app_name(app)
                &&& vars is Ok
                &&& assignments.len() > 0 ==> assigned(vars->Ok_0.deep_view(), assignments) is Ok
            }
            &&& command is Ok ==> (command->Ok_0 is Show <==> assignments.len() == 0)
            &&& command is Ok && assignments.len() > 0 ==> command->Ok_0->Save_0 == assigned(
                vars->Ok_0.deep_view(),
                assignments,
            )->Ok_0
        }),
{
}

/// Variables may be kept for an app that does not run whatever they are, and for one that
/// runs where nothing that it requires is missing from them.
pub proof fn running_apps_keep_what_they_require(
    running: bool,
    required: Seq<Seq<char>>,
    vars: Map<Seq<char>, Seq<char>>,
)
    ensures
        keeping_verdict(running, required, vars) is Ok <==> !running || required_verdict(
            required,
            vars,
        ) is Ok,
{
}

/// Variables are unset only by names that can be those of some, of which there must be one;
/// each name counts once.
pub proof fn variables_are_unset_by_name(
    app: Seq<char>,
    vars: Result<Table<String>, String>,
    names: Seq<Seq<char>>,
    name: Seq<char>,
)
    ensures
        ({
            let after = env_unset_of(app, vars, names);
            &&& after is Ok <==> valid_app_name(app) && names.len() > 0 && vars is Ok
                && first_invalid(names) is None
            &&& after is Ok ==> after->Ok_0.1 == first_occurrences(names).len()
            &&& after is Ok ==> lookup(after->Ok_0.0, name) == if first_occurrences(
                names,
            ).contains(name) {
                None
            } else {
                lookup(vars->Ok_0.deep_view(), name)
            }
        }),
{
    if let Ok(table) = vars {
        crate::env::unset_variables_are_gone(table.deep_view(), first_occurrences(names), name);
    }
}

} // verus!
