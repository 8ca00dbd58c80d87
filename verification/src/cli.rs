//! The commands of a workstation: what each asks of the host.

use vstd::prelude::*;
use crate::app_name::{invalid_name_message, valid_app_name, validate_app_name};
use crate::env::{assignment_of, bad_name, first_invalid, parse_env_assignment, parse_env_name};
use crate::paths::file_name;
use crate::project::{
    app_name, command_app, filled, host_of, normalize_opt, resolve_command_app, resolve_host_from,
    Config,
};
use crate::release::{deploy_target, normalize_deploy_target};
use crate::split::{join, join_with};
use crate::text::{copy_opt, lowered, outcome, push_text, same, to_ascii_lowercase, trim, trimmed};

verus! {

/// What can be done to an app by name alone.
#[derive(Clone, Copy, PartialEq, Eq, Structural, Debug)]
pub enum AppAction {
    Logs,
    FollowLogs,
    Stop,
    Start,
    Restart,
    Destroy,
    DestroyKeepingStorage,
    TailscaleStatus,
    TailscaleUp,
    TailscaleDown,
}

/// A command of the workstation.
pub enum ClientCommand {
    Setup,
    Deploy { app: Option<String>, url: Option<String> },
    Ps,
    /// Something done to an app: the one given, or that of the project.
    App { action: AppAction, app: Option<String> },
    Env(Vec<String>),
    EnvUnset(Vec<String>),
    Update,
    /// Asks nothing of a host.
    IsCli,
}

/// The mathematical form of a command.
pub enum CommandView {
    Setup,
    Deploy { app: Option<Seq<char>>, url: Option<Seq<char>> },
    Ps,
    App { action: AppAction, app: Option<Seq<char>> },
    Env(Seq<Seq<char>>),
    EnvUnset(Seq<Seq<char>>),
    Update,
    IsCli,
}

impl DeepView for ClientCommand {
    type V = CommandView;

    open spec fn deep_view(&self) -> CommandView {
        match self {
            ClientCommand::Setup => CommandView::Setup,
            ClientCommand::Deploy { app, url } => CommandView::Deploy {
                app: app.deep_view(),
                url: url.deep_view(),
            },
            ClientCommand::Ps => CommandView::Ps,
            ClientCommand::App { action, app } => CommandView::App {
                action: *action,
                app: app.deep_view(),
            },
            ClientCommand::Env(assignments) => CommandView::Env(assignments.deep_view()),
            ClientCommand::EnvUnset(names) => CommandView::EnvUnset(names.deep_view()),
            ClientCommand::Update => CommandView::Update,
            ClientCommand::IsCli => CommandView::IsCli,
        }
    }
}

/// What a command asks for.
pub enum ClientAction {
    Nothing,
    /// Sets the project up for the host.
    Setup(String),
    /// Deploys to the host.
    Deploy { host: String, app: Option<String>, url: Option<String> },
    /// Runs a command on the host.
    Ssh { host: String, args: Vec<String> },
    /// Brings the workstation to the release of the host.
    Update(String),
}

/// The mathematical form of what a command asks for.
pub enum ActionView {
    Nothing,
    Setup(Seq<char>),
    Deploy { host: Seq<char>, app: Option<Seq<char>>, url: Option<Seq<char>> },
    Ssh { host: Seq<char>, args: Seq<Seq<char>> },
    Update(Seq<char>),
}

impl DeepView for ClientAction {
    type V = ActionView;

    open spec fn deep_view(&self) -> ActionView {
        match self {
            ClientAction::Nothing => ActionView::Nothing,
            ClientAction::Setup(host) => ActionView::Setup(host@),
            ClientAction::Deploy { host, app, url } => ActionView::Deploy {
                host: host@,
                app: app.deep_view(),
                url: url.deep_view(),
            },
            ClientAction::Ssh { host, args } => ActionView::Ssh {
                host: host@,
                args: args.deep_view(),
            },
            ClientAction::Update(host) => ActionView::Update(host@),
        }
    }
}

/// The words that do something to an app on the host.
pub open spec fn action_args(action: AppAction, app: Seq<char>) -> Seq<Seq<char>> {
    match action {
        AppAction::Logs => seq!["logs"@, app],
        AppAction::FollowLogs => seq!["logs"@, "-f"@, app],
        AppAction::Stop => seq!["stop"@, app],
        AppAction::Start => seq!["start"@, app],
        AppAction::Restart => seq!["restart"@, app],
        AppAction::Destroy => seq!["destroy"@, app],
        AppAction::DestroyKeepingStorage => seq!["destroy"@, "--keep-storage"@, app],
        AppAction::TailscaleStatus => seq!["tailscale"@, "status"@, app],
        AppAction::TailscaleUp => seq!["tailscale"@, "up"@, app],
        AppAction::TailscaleDown => seq!["tailscale"@, "down"@, app],
    }
}

fn words(first: &str, second: Option<&str>, app: &str) -> (r: Vec<String>)
    ensures
        r.deep_view() == match second {
            Some(second) => seq![first@, second@, app@],
            None => seq![first@, app@],
        },
{
    let mut r: Vec<String> = Vec::new();
    push_text(&mut r, first.to_owned());
    if let Some(second) = second {
        push_text(&mut r, second.to_owned());
    }
    push_text(&mut r, app.to_owned());
    assert(second is Some ==> r.deep_view() =~= seq![first@, second->0@, app@]);
    assert(second is None ==> r.deep_view() =~= seq![first@, app@]);
    r
}

pub fn args_of_action(action: AppAction, app: &str) -> (r: Vec<String>)
    ensures
        r.deep_view() == action_args(action, app@),
{
    match action {
        AppAction::Logs => words("logs", None, app),
        AppAction::FollowLogs => words("logs", Some("-f"), app),
        AppAction::Stop => words("stop", None, app),
        AppAction::Start => words("start", None, app),
        AppAction::Restart => words("restart", None, app),
        AppAction::Destroy => words("destroy", None, app),
        AppAction::DestroyKeepingStorage => words("destroy", Some("--keep-storage"), app),
        AppAction::TailscaleStatus => words("tailscale", Some("status"), app),
        AppAction::TailscaleUp => words("tailscale", Some("up"), app),
        AppAction::TailscaleDown => words("tailscale", Some("down"), app),
    }
}

/// The error of the first assignment that is none.
pub open spec fn bad_assignment(list: Seq<Seq<char>>) -> Option<Seq<char>>
    decreases list.len(),
{
    if list.len() == 0 {
        None
    } else {
        match bad_assignment(list.drop_last()) {
            Some(err) => Some(err),
            None => match assignment_of(list.last()) {
                Err(err) => Some(err),
                Ok(_) => None,
            },
        }
    }
}

proof fn bad_assignments_stay(list: Seq<Seq<char>>, k: int)
    requires
        0 <= k <= list.len(),
        bad_assignment(list.take(k)) is Some,
    ensures
        bad_assignment(list) == bad_assignment(list.take(k)),
    decreases list.len() - k,
{
    if k < list.len() {
        assert(list.take(k + 1).drop_last() =~= list.take(k));
        bad_assignments_stay(list, k + 1);
    } else {
        assert(list.take(k) =~= list);
    }
}

proof fn bad_names_stay(list: Seq<Seq<char>>, k: int)
    requires
        0 <= k <= list.len(),
        first_invalid(list.take(k)) is Some,
    ensures
        first_invalid(list) == first_invalid(list.take(k)),
    decreases list.len() - k,
{
    if k < list.len() {
        assert(list.take(k + 1).drop_last() =~= list.take(k));
        bad_names_stay(list, k + 1);
    } else {
        assert(list.take(k) =~= list);
    }
}

/// The words that set variables of an app.
pub open spec fn env_words(app: Seq<char>, assignments: Seq<Seq<char>>) -> Result<
    Seq<Seq<char>>,
    Seq<char>,
> {
    match bad_assignment(assignments) {
        Some(err) => Err(err),
        None => Ok(seq!["env"@, app] + assignments),
    }
}

pub fn env_args(app: &str, assignments: &Vec<String>) -> (r: Result<Vec<String>, String>)
    ensures
        outcome(r) == env_words(app@, assignments.deep_view()),
{
    let ghost all = assignments.deep_view();
    let mut args: Vec<String> = Vec::new();
    push_text(&mut args, String::from_str("env"));
    push_text(&mut args, app.to_owned());
    let mut i: usize = 0;
    proof {
        assert(all.take(0) =~= Seq::empty());
        assert(args.deep_view() =~= seq!["env"@, app@] + all.take(0));
    }
    while i < assignments.len()
        invariant
            i <= assignments@.len(),
            all == assignments.deep_view(),
            bad_assignment(all.take(i as int)) is None,
            args.deep_view() == seq!["env"@, app@] + all.take(i as int),
        decreases assignments.len() - i,
    {
        proof {
            assert(all.take(i + 1).drop_last() =~= all.take(i as int));
            assert(all.take(i + 1).last() == all[i as int]);
        }
        if let Err(err) = parse_env_assignment(assignments[i].as_str()) {
            proof {
                bad_assignments_stay(all, i + 1);
            }
            return Err(err);
        }
        push_text(&mut args, assignments[i].clone());
        assert(args.deep_view() =~= seq!["env"@, app@] + all.take(i + 1));
        i = i + 1;
    }
    assert(all.take(i as int) =~= all);
    Ok(args)
}

/// The words that unset variables of an app.
pub open spec fn unset_words(app: Seq<char>, names: Seq<Seq<char>>) -> Result<
    Seq<Seq<char>>,
    Seq<char>,
> {
    match first_invalid(names) {
        Some(name) => Err(bad_name(name)),
        None => Ok(seq!["env-unset"@, app] + names),
    }
}

pub fn env_unset_args(app: &str, names: &Vec<String>) -> (r: Result<Vec<String>, String>)
    ensures
        outcome(r) == unset_words(app@, names.deep_view()),
{
    let ghost all = names.deep_view();
    let mut args: Vec<String> = Vec::new();
    push_text(&mut args, String::from_str("env-unset"));
    push_text(&mut args, app.to_owned());
    let mut i: usize = 0;
    proof {
        assert(all.take(0) =~= Seq::empty());
        assert(args.deep_view() =~= seq!["env-unset"@, app@] + all.take(0));
    }
    while i < names.len()
        invariant
            i <= names@.len(),
            all == names.deep_view(),
            first_invalid(all.take(i as int)) is None,
            args.deep_view() == seq!["env-unset"@, app@] + all.take(i as int),
        decreases names.len() - i,
    {
        proof {
            assert(all.take(i + 1).drop_last() =~= all.take(i as int));
            assert(all.take(i + 1).last() == all[i as int]);
        }
        match parse_env_name(names[i].as_str()) {
            Ok(name) => {
                push_text(&mut args, name);
            },
            Err(err) => {
                proof {
                    bad_names_stay(all, i + 1);
                }
                return Err(err);
            },
        }
        assert(args.deep_view() =~= seq!["env-unset"@, app@] + all.take(i + 1));
        i = i + 1;
    }
    assert(all.take(i as int) =~= all);
    Ok(args)
}

/// The app that the settings of the project name, or why they cannot be read; and the
/// one that is given.
pub open spec fn app_of_command(
    configured: Result<Option<Seq<char>>, Seq<char>>,
    explicit: Option<Seq<char>>,
) -> Result<Seq<char>, Seq<char>> {
    match configured {
        Err(err) => Err(err),
        Ok(configured) => command_app(configured, explicit),
    }
}

fn app_for(configured: &Result<Option<String>, String>, explicit: &Option<String>) -> (r: Result<
    String,
    String,
>)
    ensures
        outcome(r) == app_of_command(outcome(*configured), explicit.deep_view()),
{
    match configured {
        Err(err) => Err(err.clone()),
        Ok(configured) => {
            let explicit = match explicit {
                Some(app) => Some(app.as_str()),
                None => None,
            };
            resolve_command_app(configured, explicit)
        },
    }
}

/// A command on the host, with the words it takes.
pub open spec fn ssh_action(host: Seq<char>, args: Result<Seq<Seq<char>>, Seq<char>>) -> Result<
    ActionView,
    Seq<char>,
> {
    match args {
        Ok(args) => Ok(ActionView::Ssh { host, args }),
        Err(err) => Err(err),
    }
}

fn on_host(host: String, args: Result<Vec<String>, String>) -> (r: Result<ClientAction, String>)
    ensures
        outcome(r) == ssh_action(host@, outcome(args)),
{
    match args {
        Ok(args) => Ok(ClientAction::Ssh { host, args }),
        Err(err) => Err(err),
    }
}

/// What a command asks for, on a workstation that deploys the project to `host`.
pub open spec fn asked(
    host: Result<Seq<char>, Seq<char>>,
    configured: Result<Option<Seq<char>>, Seq<char>>,
    command: CommandView,
) -> Result<ActionView, Seq<char>> {
    if command is IsCli {
        Ok(ActionView::Nothing)
    } else if command is EnvUnset && command->EnvUnset_0.len() == 0 {
        Err("env:unset requires at least one NAME"@)
    } else {
        match host {
            Err(err) => Err(err),
            Ok(host) => match command {
                CommandView::IsCli => Ok(ActionView::Nothing),
                CommandView::Setup => Ok(ActionView::Setup(host)),
                CommandView::Update => Ok(ActionView::Update(host)),
                CommandView::Ps => Ok(ActionView::Ssh { host, args: seq!["ps"@] }),
                CommandView::Deploy { app, url } => match deploy_target(app, url) {
                    Ok((app, url)) => Ok(ActionView::Deploy { host, app, url }),
                    Err(err) => Err(err),
                },
                CommandView::App { action, app } => match app_of_command(configured, app) {
                    Ok(app) => Ok(ActionView::Ssh { host, args: action_args(action, app) }),
                    Err(err) => Err(err),
                },
                CommandView::Env(assignments) => match app_of_command(configured, None) {
                    Ok(app) => ssh_action(host, env_words(app, assignments)),
                    Err(err) => Err(err),
                },
                CommandView::EnvUnset(names) => match app_of_command(configured, None) {
                    Ok(app) => ssh_action(host, unset_words(app, names)),
                    Err(err) => Err(err),
                },
            },
        }
    }
}

pub fn plan_command(
    config: &Config,
    cwd: &str,
    configured: &Result<Option<String>, String>,
    command: &ClientCommand,
) -> (r: Result<ClientAction, String>)
    requires
        config.projects.wf(),
    ensures
        outcome(r) == asked(
            host_of(
                config.host.deep_view(),
                config.projects.deep_view(),
                cwd@,
                "Set `host` in ~/.psht/config.toml"@,
            ),
            outcome(*configured),
            command.deep_view(),
        ),
{
    if let ClientCommand::IsCli = command {
        return Ok(ClientAction::Nothing);
    }
    if let ClientCommand::EnvUnset(names) = command {
        if names.is_empty() {
            return Err(String::from_str("env:unset requires at least one NAME"));
        }
    }
    let host = match resolve_host_from(config, cwd) {
        Ok(host) => host,
        Err(err) => {
            return Err(err);
        },
    };
    match command {
        ClientCommand::IsCli => Ok(ClientAction::Nothing),
        ClientCommand::Setup => Ok(ClientAction::Setup(host)),
        ClientCommand::Update => Ok(ClientAction::Update(host)),
        ClientCommand::Ps => {
            let mut args: Vec<String> = Vec::new();
            push_text(&mut args, String::from_str("ps"));
            assert(args.deep_view() =~= seq!["ps"@]);
            Ok(ClientAction::Ssh { host, args })
        },
        ClientCommand::Deploy { app, url } => match normalize_deploy_target(
            copy_opt(app),
            copy_opt(url),
        ) {
            Ok((app, url)) => Ok(ClientAction::Deploy { host, app, url }),
            Err(err) => Err(err),
        },
        ClientCommand::App { action, app } => match app_for(configured, app) {
            Ok(app) => Ok(ClientAction::Ssh { host, args: args_of_action(*action, app.as_str()) }),
            Err(err) => Err(err),
        },
        ClientCommand::Env(assignments) => match app_for(configured, &None) {
            Ok(app) => on_host(host, env_args(app.as_str(), assignments)),
            Err(err) => Err(err),
        },
        ClientCommand::EnvUnset(names) => match app_for(configured, &None) {
            Ok(app) => on_host(host, env_unset_args(app.as_str(), names)),
            Err(err) => Err(err),
        },
    }
}

/// A command of the workstation goes to the host of the project, and to no other.
pub proof fn commands_go_to_the_host(
    host: Result<Seq<char>, Seq<char>>,
    configured: Result<Option<Seq<char>>, Seq<char>>,
    command: CommandView,
)
    ensures
        match asked(host, configured, command) {
            Ok(ActionView::Nothing) => command is IsCli,
            Ok(ActionView::Setup(to)) => host == Ok::<Seq<char>, Seq<char>>(to),
            Ok(ActionView::Deploy { host: to, .. }) => host == Ok::<Seq<char>, Seq<char>>(to),
            Ok(ActionView::Ssh { host: to, .. }) => host == Ok::<Seq<char>, Seq<char>>(to),
            Ok(ActionView::Update(to)) => host == Ok::<Seq<char>, Seq<char>>(to),
            Err(_) => true,
        },
{
}

// ---------------------------------------------------------------------------
// Questions and answers
// ---------------------------------------------------------------------------

pub fn prompt_text(label: &str, default: Option<&str>) -> (r: String)
    ensures
        r@ == match default {
            Some(default) => label@ + " ["@ + default@ + "]: "@,
            None => label@ + ": "@,
        },
{
    let mut r = label.to_owned();
    if let Some(default) = default {
        r.append(" [");
        r.append(default);
        r.append("]: ");
    } else {
        r.append(": ");
    }
    r
}

/// The answer in a line, or the default for an empty one.
pub fn prompt_answer(line: &str, default: Option<&str>) -> (r: Option<String>)
    ensures
        r.deep_view() == match filled(Some(line@)) {
            Some(answer) => Some(answer),
            None => default.deep_view(),
        },
{
    match normalize_opt(Some(line)) {
        Some(answer) => Some(answer),
        None => match default {
            Some(default) => Some(default.to_owned()),
            None => None,
        },
    }
}

/// Whether a line says yes.
pub fn prompt_confirmed(line: &str) -> (r: bool)
    ensures
        r == (lowered(trim(line@)) == "y"@ || lowered(trim(line@)) == "yes"@),
{
    let answer = to_ascii_lowercase(trimmed(line));
    same(answer.as_str(), "y") || same(answer.as_str(), "yes")
}

/// The name that setup offers: that of the settings, or that of the directory.
pub fn setup_default(configured: &Option<String>, cwd: &str) -> (r: String)
    ensures
        r@ == match configured {
            Some(name) => name@,
            None => match file_name(cwd@) {
                Some(name) => name,
                None => "app"@,
            },
        },
{
    match configured {
        Some(name) => name.clone(),
        None => app_name(None, cwd),
    }
}

/// The name that setup takes, from the answer.
pub fn setup_name(answer: &str) -> (r: Result<String, String>)
    ensures
        outcome(r) == if valid_app_name(answer@) {
            Ok::<Seq<char>, Seq<char>>(answer@)
        } else {
            Err(invalid_name_message(answer@))
        },
{
    match validate_app_name(answer) {
        Ok(_) => Ok(answer.to_owned()),
        Err(err) => Err(err),
    }
}

// ---------------------------------------------------------------------------
// Messages of git
// ---------------------------------------------------------------------------

/// What a run of git printed, or why it failed.
pub open spec fn git_result(
    args: Seq<Seq<char>>,
    success: bool,
    stdout: Seq<char>,
    stderr: Seq<char>,
) -> Result<Seq<char>, Seq<char>> {
    if success {
        Ok(trim(stdout))
    } else if trim(stderr).len() == 0 {
        Err("git "@ + join(args, " "@) + " failed"@)
    } else {
        Err("git "@ + join(args, " "@) + " failed: "@ + trim(stderr))
    }
}

pub fn git_output(args: &Vec<String>, success: bool, stdout: &str, stderr: &str) -> (r: Result<
    String,
    String,
>)
    ensures
        outcome(r) == git_result(args.deep_view(), success, stdout@, stderr@),
{
    if success {
        return Ok(trimmed(stdout).to_owned());
    }
    let mut message = String::from_str("git ");
    let line = join_with(args, " ");
    message.append(line.as_str());
    let stderr = trimmed(stderr);
    if stderr.is_empty() {
        message.append(" failed");
    } else {
        message.append(" failed: ");
        message.append(stderr);
    }
    Err(message)
}

/// Whether a directory is under git, by what git says of it.
pub fn is_git_worktree(success: bool, stdout: &str) -> (r: bool)
    ensures
        r == (success && trim(stdout@) == "true"@),
{
    success && same(trimmed(stdout), "true")
}

/// What is done to an app is asked for in words that name it last. No two things that can
/// be done are asked for in the same words, and its storage is kept only where that is
/// said.
pub proof fn actions_are_told_apart(a: AppAction, b: AppAction, app: Seq<char>)
    ensures
        action_args(a, app).last() == app,
        action_args(a, app) == action_args(b, app) && app != "-f"@ && app != "--keep-storage"@
            && app != "status"@ && app != "up"@ && app != "down"@ ==> a == b,
        action_args(a, app).drop_last().contains("--keep-storage"@) <==> a
            == AppAction::DestroyKeepingStorage,
        action_args(a, app).drop_last().contains("-f"@) <==> a == AppAction::FollowLogs,
{
    reveal_strlit("logs");
    reveal_strlit("-f");
    reveal_strlit("stop");
    reveal_strlit("start");
    reveal_strlit("restart");
    reveal_strlit("destroy");
    reveal_strlit("--keep-storage");
    reveal_strlit("tailscale");
    reveal_strlit("status");
    reveal_strlit("up");
    reveal_strlit("down");
    assert("logs"@[0] == 'l' && "-f"@[0] == '-' && "stop"@.len() == 4 && "start"@.len() == 5);
    assert("restart"@[0] == 'r' && "destroy"@[0] == 'd' && "--keep-storage"@.len() == 14);
    assert("tailscale"@[0] == 't' && "status"@.len() == 6 && "up"@[0] == 'u' && "down"@[0] == 'd');
    assert("stop"@[0] == 's' && "start"@[0] == 's' && "status"@[0] == 's' && "-f"@.len() == 2);
    let x = action_args(a, app);
    let y = action_args(b, app);
    let front = x.drop_last();
    assert(x[0] == front[0]);
    assert(a == AppAction::DestroyKeepingStorage ==> front[1] == "--keep-storage"@);
    assert(a == AppAction::FollowLogs ==> front[1] == "-f"@);
    if x == y {
        assert(x.len() == y.len() && x[0] == y[0] && x[x.len() - 2] == y[y.len() - 2]);
    }
}

/// A command about an app is sent for the one it is about, and for no other; without one,
/// or without a host, it is refused.
pub proof fn commands_about_an_app_name_it(
    host: Result<Seq<char>, Seq<char>>,
    configured: Result<Option<Seq<char>>, Seq<char>>,
    action: AppAction,
    app: Option<Seq<char>>,
)
    ensures
        ({
            let plan = asked(host, configured, (CommandView::App { action, app }));
            &&& plan is Ok <==> host is Ok && configured is Ok && command_app(
                configured->Ok_0,
                app,
            ) is Ok
            &&& plan is Ok ==> plan->Ok_0 == (ActionView::Ssh {
                host: host->Ok_0,
                args: action_args(action, command_app(configured->Ok_0, app)->Ok_0),
            })
        }),
{
}

proof fn bad_assignments_are_found(list: Seq<Seq<char>>)
    ensures
        bad_assignment(list) is None <==> forall|i: int|
            0 <= i < list.len() ==> assignment_of(#[trigger] list[i]) is Ok,
    decreases list.len(),
{
    if list.len() > 0 {
        let head = list.drop_last();
        let last = list.len() - 1;
        bad_assignments_are_found(head);
        assert(list[last] == list.last());
        assert forall|i: int| 0 <= i < head.len() implies #[trigger] head[i] == list[i] by {}
        if bad_assignment(head) is Some {
            let i = choose|i: int| 0 <= i < head.len() && !(assignment_of(#[trigger] head[i]) is Ok);
            assert(!(assignment_of(list[i]) is Ok));
        }
        if bad_assignment(list) is None {
            assert forall|i: int| 0 <= i < list.len() implies assignment_of(#[trigger] list[i])
                is Ok by {
                if i < last {
                    assert(assignment_of(head[i]) is Ok);
                }
            }
        }
    }
}

/// Variables are set on the host by the assignments as they were given, for the app of the
/// project, and only where each of them is one.
pub proof fn variables_are_set_as_given(
    host: Result<Seq<char>, Seq<char>>,
    configured: Result<Option<Seq<char>>, Seq<char>>,
    assignments: Seq<Seq<char>>,
)
    ensures
        ({
            let plan = asked(host, configured, CommandView::Env(assignments));
            let app = command_app(configured->Ok_0, None);
            &&& plan is Ok <==> {
                &&& host is Ok && configured is Ok && app is Ok
                &&& forall|i: int|
                    0 <= i < assignments.len() ==> assignment_of(#[trigger] assignments[i]) is Ok
            }
            &&& plan is Ok ==> plan->Ok_0 == (ActionView::Ssh {
                host: host->Ok_0,
                args: seq!["env"@, app->Ok_0] + assignments,
            })
        }),
{
    bad_assignments_are_found(assignments);
}

/// Variables are unset on the host by their names as they were given, of which there must
/// be some, for the app of the project.
pub proof fn variables_are_unset_as_given(
    host: Result<Seq<char>, Seq<char>>,
    configured: Result<Option<Seq<char>>, Seq<char>>,
    names: Seq<Seq<char>>,
)
    ensures
        ({
            let plan = asked(host, configured, CommandView::EnvUnset(names));
            let app = command_app(configured->Ok_0, None);
            &&& plan is Ok <==> {
                &&& names.len() > 0
                &&& host is Ok && configured is Ok && app is Ok
                &&& first_invalid(names) is None
            }
            &&& plan is Ok ==> plan->Ok_0 == (ActionView::Ssh {
                host: host->Ok_0,
                args: seq!["env-unset"@, app->Ok_0] + names,
            })
        }),
{
}

/// What is not about an app needs a host alone, and a deploy a target besides; what asks
/// nothing of a host needs none.
pub proof fn other_commands_need_a_host_alone(
    host: Result<Seq<char>, Seq<char>>,
    configured: Result<Option<Seq<char>>, Seq<char>>,
    app: Option<Seq<char>>,
    url: Option<Seq<char>>,
)
    ensures
        asked(host, configured, CommandView::IsCli) == Ok::<ActionView, Seq<char>>(
            ActionView::Nothing,
        ),
        host is Err ==> asked(host, configured, CommandView::Setup) is Err && asked(
            host,
            configured,
            CommandView::Ps,
        ) is Err && asked(host, configured, CommandView::Update) is Err && asked(
            host,
            configured,
            (CommandView::Deploy { app, url }),
        ) is Err,
        host is Ok ==> {
            &&& asked(host, configured, CommandView::Setup) == Ok::<ActionView, Seq<char>>(
                ActionView::Setup(host->Ok_0),
            )
            &&& asked(host, configured, CommandView::Update) == Ok::<ActionView, Seq<char>>(
                ActionView::Update(host->Ok_0),
            )
            &&& asked(host, configured, CommandView::Ps) == Ok::<ActionView, Seq<char>>(
                ActionView::Ssh { host: host->Ok_0, args: seq!["ps"@] },
            )
            &&& asked(host, configured, (CommandView::Deploy { app, url })) is Ok
                <==> deploy_target(app, url) is Ok
        },
{
}

/// What git prints counts only where it succeeds.
pub proof fn output_of_git_counts_on_success(
    args: Seq<Seq<char>>,
    success: bool,
    stdout: Seq<char>,
    stderr: Seq<char>,
)
    ensures
        git_result(args, success, stdout, stderr) is Ok <==> success,
        success ==> git_result(args, success, stdout, stderr)->Ok_0 == trim(stdout),
{
}

} // verus!
