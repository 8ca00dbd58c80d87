//! How the apps of the host are doing.

use vstd::prelude::*;
use vstd::utf8::encode_utf8;
use crate::app_name::{
    allocate_port, app_ref_from_instance_name, app_ref_of, canonical_app,
    canonical_app_name_from_container, instance_name_from_app_ref, instance_of, port_of,
};
use crate::app_state::{
    all_recorded, read_all_app_runtime_states, AppRuntimeState,
    AppRuntimeStateRow, RuntimeRowView, RuntimeView,
};
use crate::cleanup::{cleanup_pending_detail, pending_detail};
use crate::env::{ensure_required_env_present, required_verdict};
use crate::number::{decimal, decimal_of};
use crate::rows::CleanupJobState;
use crate::runtime::{resolve_active_app_ref, resolved};
use crate::split::{join, join_with, lines, lines_of, nonblank, nonblank_of};
use crate::table::{lookup, Table};
use crate::text::{chars_of, eq_ignore_ascii_case, lowered, outcome, push_text, same, trim, trimmed};

verus! {

// ---------------------------------------------------------------------------
// The state of a container and of the app in it
// ---------------------------------------------------------------------------

#[derive(Clone, Copy, PartialEq, Eq, Structural, Debug)]
pub enum PsContainerState {
    Running,
    Stopped,
    Missing,
}

pub open spec fn container_state(status: Seq<char>) -> PsContainerState {
    if lowered(status) == lowered("missing"@) {
        PsContainerState::Missing
    } else if lowered(status) == lowered("running"@) {
        PsContainerState::Running
    } else {
        PsContainerState::Stopped
    }
}

pub fn ps_container_state(status: &str) -> (r: PsContainerState)
    ensures
        r == container_state(status@),
{
    if eq_ignore_ascii_case(status, "missing") {
        PsContainerState::Missing
    } else if eq_ignore_ascii_case(status, "running") {
        PsContainerState::Running
    } else {
        PsContainerState::Stopped
    }
}

/// What is shown of an app: it runs only where both its container and its process do.
pub open spec fn shown_status(state: PsContainerState, process_running: Option<bool>) -> Seq<char> {
    match state {
        PsContainerState::Missing => "Missing"@,
        PsContainerState::Stopped => "Stopped"@,
        PsContainerState::Running => if process_running == Some(true) {
            "Running"@
        } else {
            "Down"@
        },
    }
}

pub fn ps_status_from_parts(container_state: PsContainerState, process_running: Option<bool>) -> (r:
    &'static str)
    ensures
        r@ == shown_status(container_state, process_running),
{
    match container_state {
        PsContainerState::Missing => "Missing",
        PsContainerState::Stopped => "Stopped",
        PsContainerState::Running => match process_running {
            Some(true) => "Running",
            _ => "Down",
        },
    }
}

/// A text with spaces after it up to a width.
pub open spec fn padded(text: Seq<char>, width: nat) -> Seq<char> {
    if text.len() < width {
        text + Seq::new((width - text.len()) as nat, |i: int| ' ')
    } else {
        text
    }
}

fn pad(text: &str, width: usize) -> (r: String)
    ensures
        r@ == padded(text@, width as nat),
{
    let chars = chars_of(text);
    let mut r = text.to_owned();
    let mut n: usize = chars.len();
    assert(r@ =~= text@ + Seq::new(0, |i: int| ' '));
    while n < width
        invariant
            text@.len() <= n,
            text@.len() < width ==> n <= width,
            text@.len() >= width ==> n == text@.len(),
            r@ == text@ + Seq::new((n - text@.len()) as nat, |i: int| ' '),
        decreases width - n,
    {
        r.append(" ");
        proof {
            reveal_strlit(" ");
            assert(r@ =~= text@ + Seq::new((n + 1 - text@.len()) as nat, |i: int| ' '));
        }
        n = n + 1;
    }
    assert(r@ =~= padded(text@, width as nat));
    r
}

pub open spec fn two_columns(first: Seq<char>, second: Seq<char>) -> Seq<char> {
    padded(first, 20) + " "@ + padded(second, 10)
}

/// A line of the list of apps.
pub fn ps_line(app: &str, status: &str) -> (r: String)
    ensures
        r@ == two_columns(app@, status@),
{
    let mut r = pad(app, 20);
    r.append(" ");
    let second = pad(status, 10);
    r.append(second.as_str());
    r
}

/// A line of the list of apps, with details.
pub fn health_line(app: &str, status: &str, details: &str) -> (r: String)
    ensures
        r@ == two_columns(app@, status@) + " "@ + details@,
{
    let mut r = ps_line(app, status);
    r.append(" ");
    r.append(details);
    r
}

// ---------------------------------------------------------------------------
// Which apps there are
// ---------------------------------------------------------------------------

/// A container of the host.
pub struct ContainerInfo {
    pub name: String,
    pub status: String,
}

impl DeepView for ContainerInfo {
    type V = (Seq<char>, Seq<char>);

    open spec fn deep_view(&self) -> (Seq<char>, Seq<char>) {
        (self.name@, self.status@)
    }
}

/// An app of the host: the app in its active container, where that exists, and the
/// state of the container.
pub struct AppTarget {
    pub active_app: Option<String>,
    pub status: String,
}

impl DeepView for AppTarget {
    type V = (Option<Seq<char>>, Seq<char>);

    open spec fn deep_view(&self) -> (Option<Seq<char>>, Seq<char>) {
        (self.active_app.deep_view(), self.status@)
    }
}

/// The states of the containers, by their names.
pub open spec fn statuses_of(containers: Seq<(Seq<char>, Seq<char>)>) -> Map<Seq<char>, Seq<char>>
    decreases containers.len(),
{
    if containers.len() == 0 {
        Map::empty()
    } else {
        statuses_of(containers.drop_last()).insert(containers.last().0, containers.last().1)
    }
}

fn status_table(containers: &Vec<ContainerInfo>) -> (r: Table<String>)
    ensures
        r.wf(),
        r.deep_view() == statuses_of(containers.deep_view()),
{
    let ghost all = containers.deep_view();
    let mut r: Table<String> = Table::new();
    let mut i: usize = 0;
    assert(all.take(0) =~= Seq::empty());
    while i < containers.len()
        invariant
            i <= containers@.len(),
            all == containers.deep_view(),
            r.wf(),
            r.deep_view() == statuses_of(all.take(i as int)),
        decreases containers.len() - i,
    {
        proof {
            assert(all.take(i + 1).drop_last() =~= all.take(i as int));
            assert(all.take(i + 1).last() == all[i as int]);
        }
        r.put(containers[i].name.as_str(), containers[i].status.clone());
        i = i + 1;
    }
    assert(all.take(i as int) =~= all);
    r
}

/// The target of an app whose active container is listed.
pub open spec fn listed(active: Option<Seq<char>>, statuses: Map<Seq<char>, Seq<char>>) -> Option<
    (Option<Seq<char>>, Seq<char>),
> {
    match active {
        Some(app_ref) => match lookup(statuses, instance_of(app_ref)) {
            Some(status) => Some((Some(app_ref), status)),
            None => None,
        },
        None => None,
    }
}

fn find_listed(active: &Option<String>, statuses: &Table<String>) -> (r: Option<AppTarget>)
    requires
        statuses.wf(),
    ensures
        r.deep_view() == listed(active.deep_view(), statuses.deep_view()),
{
    match active {
        Some(app_ref) => {
            let instance = instance_name_from_app_ref(app_ref.as_str());
            match statuses.get(instance.as_str()) {
                Some(status) => Some(
                    AppTarget { active_app: Some(app_ref.clone()), status: status.clone() },
                ),
                None => None,
            }
        },
        None => None,
    }
}

/// What is known of the containers: their states, and those that exist.
pub struct Surroundings {
    pub statuses: Map<Seq<char>, Seq<char>>,
    pub live: Seq<Seq<char>>,
    pub now: u64,
}

/// The target of an app that is on record, and what is on record afterwards.
pub open spec fn target_on_record(
    app: Seq<char>,
    state: RuntimeView,
    states: Map<Seq<char>, RuntimeRowView>,
    s: Surroundings,
) -> (Result<(Option<Seq<char>>, Seq<char>), Seq<char>>, Map<Seq<char>, RuntimeRowView>) {
    let (first, states) = match app_ref_of(state.active_instance) {
        Some(app_ref) => (Ok(Some(app_ref)), states),
        None => resolved(states, app, s.live, s.now),
    };
    match first {
        Err(err) => (Err(err), states),
        Ok(active) => match listed(active, s.statuses) {
            Some(target) => (Ok(target), states),
            None => {
                let (second, states) = resolved(states, app, s.live, s.now);
                match second {
                    Err(err) => (Err(err), states),
                    Ok(active) => match listed(active, s.statuses) {
                        Some(target) => (Ok(target), states),
                        None => (Ok((None, "Missing"@)), states),
                    },
                }
            },
        },
    }
}

fn find_target(
    app: &str,
    state: &AppRuntimeState,
    states: &mut Table<AppRuntimeStateRow>,
    statuses: &Table<String>,
    live: &Vec<String>,
    now: u64,
) -> (r: Result<AppTarget, String>)
    requires
        old(states).wf(),
        statuses.wf(),
    ensures
        final(states).wf(),
        (outcome(r), final(states).deep_view()) == target_on_record(
            app@,
            state.deep_view(),
            old(states).deep_view(),
            Surroundings {
                statuses: statuses.deep_view(),
                live: live.deep_view(),
                now,
            },
        ),
{
    let mut active = app_ref_from_instance_name(state.active_instance.as_str());
    if active.is_none() {
        active = match resolve_active_app_ref(states, app, live, now) {
            Ok(active) => active,
            Err(err) => {
                return Err(err);
            },
        };
    }
    if let Some(target) = find_listed(&active, statuses) {
        return Ok(target);
    }
    match resolve_active_app_ref(states, app, live, now) {
        Ok(active) => match find_listed(&active, statuses) {
            Some(target) => Ok(target),
            None => Ok(AppTarget { active_app: None, status: String::from_str("Missing") }),
        },
        Err(err) => Err(err),
    }
}

/// The targets of the apps on record, and what is on record afterwards.
pub open spec fn targets_on_record(
    apps: Seq<(Seq<char>, RuntimeView)>,
    states: Map<Seq<char>, RuntimeRowView>,
    s: Surroundings,
) -> (
    Result<Map<Seq<char>, (Option<Seq<char>>, Seq<char>)>, Seq<char>>,
    Map<Seq<char>, RuntimeRowView>,
)
    decreases apps.len(),
{
    if apps.len() == 0 {
        (Ok(Map::empty()), states)
    } else {
        let (head, states) = targets_on_record(apps.drop_last(), states, s);
        match head {
            Err(err) => (Err(err), states),
            Ok(targets) => {
                let (found, states) = target_on_record(
                    apps.last().0,
                    apps.last().1,
                    states,
                    s,
                );
                match found {
                    Ok(target) => (Ok(targets.insert(apps.last().0, target)), states),
                    Err(err) => (Err(err), states),
                }
            },
        }
    }
}

proof fn target_errors_stay(
    apps: Seq<(Seq<char>, RuntimeView)>,
    states: Map<Seq<char>, RuntimeRowView>,
    s: Surroundings,
    k: int,
)
    requires
        0 <= k <= apps.len(),
        targets_on_record(apps.take(k), states, s).0 is Err,
    ensures
        targets_on_record(apps, states, s) == targets_on_record(apps.take(k), states, s),
    decreases apps.len() - k,
{
    if k < apps.len() {
        assert(apps.take(k + 1).drop_last() =~= apps.take(k));
        target_errors_stay(apps, states, s, k + 1);
    } else {
        assert(apps.take(k) =~= apps);
    }
}

/// The targets with one more for each container that bears the name of an app which has
/// none yet.
pub open spec fn with_containers(
    targets: Map<Seq<char>, (Option<Seq<char>>, Seq<char>)>,
    containers: Seq<(Seq<char>, Seq<char>)>,
) -> Map<Seq<char>, (Option<Seq<char>>, Seq<char>)>
    decreases containers.len(),
{
    if containers.len() == 0 {
        targets
    } else {
        let head = with_containers(targets, containers.drop_last());
        match canonical_app(containers.last().0) {
            Some(app) => if head.dom().contains(app) {
                head
            } else {
                head.insert(app, (Some(app), containers.last().1))
            },
            None => head,
        }
    }
}

fn add_containers(targets: &mut Table<AppTarget>, containers: &Vec<ContainerInfo>)
    requires
        old(targets).wf(),
    ensures
        final(targets).wf(),
        final(targets).deep_view() == with_containers(
            old(targets).deep_view(),
            containers.deep_view(),
        ),
{
    let ghost all = containers.deep_view();
    let ghost start = targets.deep_view();
    let mut i: usize = 0;
    assert(all.take(0) =~= Seq::empty());
    while i < containers.len()
        invariant
            i <= containers@.len(),
            all == containers.deep_view(),
            start == old(targets).deep_view(),
            targets.wf(),
            targets.deep_view() == with_containers(start, all.take(i as int)),
        decreases containers.len() - i,
    {
        proof {
            assert(all.take(i + 1).drop_last() =~= all.take(i as int));
            assert(all.take(i + 1).last() == all[i as int]);
        }
        if let Some(app) = canonical_app_name_from_container(containers[i].name.as_str()) {
            if !targets.has(app.as_str()) {
                let target = AppTarget {
                    active_app: Some(app.clone()),
                    status: containers[i].status.clone(),
                };
                targets.put(app.as_str(), target);
            }
        }
        i = i + 1;
    }
    assert(all.take(i as int) =~= all);
}

/// The apps of the host and what is on record afterwards.
pub open spec fn targets_of(
    rows: Seq<(Seq<char>, RuntimeRowView)>,
    states: Map<Seq<char>, RuntimeRowView>,
    containers: Seq<(Seq<char>, Seq<char>)>,
    s: Surroundings,
) -> (
    Result<Map<Seq<char>, (Option<Seq<char>>, Seq<char>)>, Seq<char>>,
    Map<Seq<char>, RuntimeRowView>,
) {
    match all_recorded(rows) {
        Err(err) => (Err(err), states),
        Ok(apps) => {
            let (found, states) = targets_on_record(apps, states, s);
            match found {
                Ok(targets) => (Ok(with_containers(targets, containers)), states),
                Err(err) => (Err(err), states),
            }
        },
    }
}

/// The apps of the host, in the order of their names: those on record, and those whose
/// container bears their name.
pub fn app_targets_from_runtime_state(
    states: &mut Table<AppRuntimeStateRow>,
    containers: &Vec<ContainerInfo>,
    live: &Vec<String>,
    now: u64,
) -> (r: Result<Table<AppTarget>, String>)
    requires
        old(states).wf(),
    ensures
        final(states).wf(),
        r is Ok ==> r->Ok_0.wf(),
        (outcome(r), final(states).deep_view()) == targets_of(
            old(states).rows.deep_view(),
            old(states).deep_view(),
            containers.deep_view(),
            Surroundings {
                statuses: statuses_of(containers.deep_view()),
                live: live.deep_view(),
                now,
            },
        ),
{
    let statuses = status_table(containers);
    let apps = match read_all_app_runtime_states(states) {
        Ok(apps) => apps,
        Err(err) => {
            return Err(err);
        },
    };
    let ghost all = apps.deep_view();
    let ghost start = states.deep_view();
    let ghost s = Surroundings {
        statuses: statuses.deep_view(),
        live: live.deep_view(),
        now,
    };
    let mut targets: Table<AppTarget> = Table::new();
    let mut i: usize = 0;
    assert(all.take(0) =~= Seq::empty());
    while i < apps.len()
        invariant
            i <= apps@.len(),
            all == apps.deep_view(),
            start == old(states).deep_view(),
            all_recorded(old(states).rows.deep_view()) == Ok::<
                Seq<(Seq<char>, RuntimeView)>,
                Seq<char>,
            >(all),
            statuses.wf(),
            statuses.deep_view() == statuses_of(containers.deep_view()),
            s == (Surroundings {
                statuses: statuses.deep_view(),
                live: live.deep_view(),
                now,
            }),
            targets.wf(),
            states.wf(),
            targets_on_record(all.take(i as int), start, s) == (
                Ok::<Map<Seq<char>, (Option<Seq<char>>, Seq<char>)>, Seq<char>>(
                    targets.deep_view(),
                ),
                states.deep_view(),
            ),
        decreases apps.len() - i,
    {
        proof {
            assert(all.take(i + 1).drop_last() =~= all.take(i as int));
            assert(all.take(i + 1).last() == all[i as int]);
            assert(all[i as int] == (apps@[i as int].0@, apps@[i as int].1.deep_view()));
        }
        let app = apps[i].0.as_str();
        match find_target(app, &apps[i].1, states, &statuses, live, now) {
            Ok(target) => {
                targets.put(app, target);
            },
            Err(err) => {
                proof {
                    target_errors_stay(all, start, s, i + 1);
                }
                return Err(err);
            },
        }
        i = i + 1;
    }
    assert(all.take(i as int) =~= all);
    add_containers(&mut targets, containers);
    Ok(targets)
}

/// Every app that has a container of its own name is among the apps of the host.
pub proof fn containers_are_not_overlooked(
    targets: Map<Seq<char>, (Option<Seq<char>>, Seq<char>)>,
    containers: Seq<(Seq<char>, Seq<char>)>,
    i: int,
)
    requires
        0 <= i < containers.len(),
        canonical_app(containers[i].0) is Some,
    ensures
        with_containers(targets, containers).dom().contains(canonical_app(containers[i].0)->0),
    decreases containers.len(),
{
    let head = containers.drop_last();
    if i < head.len() {
        assert(head[i] == containers[i]);
        containers_are_not_overlooked(targets, head, i);
    }
}

// ---------------------------------------------------------------------------
// Whether an app is well
// ---------------------------------------------------------------------------

#[derive(PartialEq, Eq, Debug)]
pub struct AppHealthReport {
    pub app: String,
    pub healthy: bool,
    pub details: Vec<String>,
}

/// The mathematical form of a report.
#[verifier::ext_equal]
pub struct ReportView {
    pub app: Seq<char>,
    pub healthy: bool,
    pub details: Seq<Seq<char>>,
}

impl DeepView for AppHealthReport {
    type V = ReportView;

    open spec fn deep_view(&self) -> ReportView {
        ReportView { app: self.app@, healthy: self.healthy, details: self.details.deep_view() }
    }
}

/// What was found out about an app whose container runs.
pub struct AppFacts {
    /// Whether the process of the app runs.
    pub process: Result<bool, String>,
    pub start_command: Result<String, String>,
    pub required_env: Result<Vec<String>, String>,
    pub vars: Result<Table<String>, String>,
    /// Whether the port of the app is listened on.
    pub listening: Result<bool, String>,
    pub cleanup: Option<CleanupJobState>,
}

impl AppFacts {
    pub open spec fn wf(&self) -> bool {
        self.vars matches Ok(vars) ==> vars.wf()
    }
}

/// A line of a report, and whether it is a good sign.
pub open spec fn process_line(process: Result<bool, String>) -> (bool, Seq<char>) {
    match process {
        Ok(true) => (true, "app process running"@),
        Ok(false) => (false, "app process not running"@),
        Err(err) => (false, "failed to check app process: "@ + err@),
    }
}

pub open spec fn command_line(start_command: Result<String, String>) -> (bool, Seq<char>) {
    match start_command {
        Ok(command) => (true, "start command: "@ + trim(command@)),
        Err(err) => (false, err@),
    }
}

pub open spec fn env_line(
    required_env: Result<Vec<String>, String>,
    vars: Result<Table<String>, String>,
) -> (bool, Seq<char>) {
    match required_env {
        Ok(required) => match vars {
            Ok(vars) => match required_verdict(required.deep_view(), vars.deep_view()) {
                Err(err) => (false, err),
                Ok(_) => if required@.len() == 0 {
                    (true, "required env: none"@)
                } else {
                    (true, "required env present ("@ + join(required.deep_view(), ", "@) + ")"@)
                },
            },
            Err(err) => (false, "failed to read env vars: "@ + err@),
        },
        Err(err) => (false, "required env metadata error: "@ + err@),
    }
}

pub open spec fn port_line(port: nat, listening: Result<bool, String>) -> (bool, Seq<char>) {
    match listening {
        Ok(true) => (true, "tcp :"@ + decimal(port) + " listening"@),
        Ok(false) => (false, "tcp :"@ + decimal(port) + " is not listening"@),
        Err(err) => (false, "failed to check tcp :"@ + decimal(port) + ": "@ + err@),
    }
}

/// The lines of a report on an app whose container runs, each with whether it is a good
/// sign.
pub open spec fn report_lines(port: nat, facts: AppFacts) -> Seq<(bool, Seq<char>)> {
    let head = seq![
        process_line(facts.process),
        command_line(facts.start_command),
        env_line(facts.required_env, facts.vars),
    ];
    let middle = if facts.process == Ok::<bool, String>(true) {
        seq![port_line(port, facts.listening)]
    } else {
        Seq::empty()
    };
    let tail = match pending_detail(facts.cleanup.deep_view()) {
        Some(detail) => seq![(true, detail)],
        None => Seq::empty(),
    };
    head + middle + tail
}

/// The report on an app.
pub open spec fn report_of(
    app: Seq<char>,
    active_app: Seq<char>,
    container_status: Seq<char>,
    facts: AppFacts,
    port: nat,
) -> ReportView {
    let first = "active instance: "@ + instance_of(active_app);
    if lowered(container_status) != lowered("running"@) {
        ReportView {
            app,
            healthy: false,
            details: seq![first, "container status is "@ + container_status],
        }
    } else {
        let found = report_lines(port, facts);
        ReportView {
            app,
            healthy: forall|i: int| 0 <= i < found.len() ==> (#[trigger] found[i]).0,
            details: seq![first, "container running"@] + found.map_values(
                |line: (bool, Seq<char>)| line.1,
            ),
        }
    }
}

fn say_process(process: &Result<bool, String>) -> (r: (bool, String))
    ensures
        r.deep_view() == process_line(*process),
{
    match process {
        Ok(true) => (true, String::from_str("app process running")),
        Ok(false) => (false, String::from_str("app process not running")),
        Err(err) => {
            let mut line = String::from_str("failed to check app process: ");
            line.append(err.as_str());
            (false, line)
        },
    }
}

fn say_command(start_command: &Result<String, String>) -> (r: (bool, String))
    ensures
        r.deep_view() == command_line(*start_command),
{
    match start_command {
        Ok(command) => {
            let mut line = String::from_str("start command: ");
            line.append(trimmed(command.as_str()));
            (true, line)
        },
        Err(err) => (false, err.clone()),
    }
}

fn say_env(required_env: &Result<Vec<String>, String>, vars: &Result<Table<String>, String>) -> (r: (
    bool,
    String,
))
    requires
        *vars matches Ok(table) ==> table.wf(),
    ensures
        r.deep_view() == env_line(*required_env, *vars),
{
    match required_env {
        Ok(required) => match vars {
            Ok(vars) => {
                if let Err(err) = ensure_required_env_present(required, vars) {
                    return (false, err);
                }
                if required.is_empty() {
                    return (true, String::from_str("required env: none"));
                }
                let mut line = String::from_str("required env present (");
                let list = join_with(required, ", ");
                line.append(list.as_str());
                line.append(")");
                (true, line)
            },
            Err(err) => {
                let mut line = String::from_str("failed to read env vars: ");
                line.append(err.as_str());
                (false, line)
            },
        },
        Err(err) => {
            let mut line = String::from_str("required env metadata error: ");
            line.append(err.as_str());
            (false, line)
        },
    }
}

fn say_port(port: u16, listening: &Result<bool, String>) -> (r: (bool, String))
    ensures
        r.deep_view() == port_line(port as nat, *listening),
{
    let number = decimal_of(port as u64);
    match listening {
        Ok(true) => {
            let mut line = String::from_str("tcp :");
            line.append(number.as_str());
            line.append(" listening");
            (true, line)
        },
        Ok(false) => {
            let mut line = String::from_str("tcp :");
            line.append(number.as_str());
            line.append(" is not listening");
            (false, line)
        },
        Err(err) => {
            let mut line = String::from_str("failed to check tcp :");
            line.append(number.as_str());
            line.append(": ");
            line.append(err.as_str());
            (false, line)
        },
    }
}

fn push_line(report: &mut AppHealthReport, line: (bool, String), Ghost(found): Ghost<
    Seq<(bool, Seq<char>)>,
>, Ghost(head): Ghost<Seq<Seq<char>>>)
    requires
        old(report).details.deep_view() == head + found.map_values(
            |line: (bool, Seq<char>)| line.1,
        ),
        old(report).healthy == forall|i: int|
            0 <= i < found.len() ==> (#[trigger] found[i]).0,
    ensures
        final(report).app == old(report).app,
        final(report).details.deep_view() == head + found.push(line.deep_view()).map_values(
            |line: (bool, Seq<char>)| line.1,
        ),
        final(report).healthy == forall|i: int|
            0 <= i < found.push(line.deep_view()).len() ==> (#[trigger] found.push(
                line.deep_view(),
            )[i]).0,
{
    let ghost after = found.push(line.deep_view());
    let ghost text = line.1@;
    let (good, detail) = line;
    if !good {
        report.healthy = false;
    }
    push_text(&mut report.details, detail);
    proof {
        assert(after.map_values(|line: (bool, Seq<char>)| line.1) =~= found.map_values(
            |line: (bool, Seq<char>)| line.1,
        ).push(text));
        assert(report.details.deep_view() =~= head + after.map_values(
            |line: (bool, Seq<char>)| line.1,
        ));
        assert forall|i: int| 0 <= i < found.len() implies after[i] == #[trigger] found[i] by {}
        assert(after[found.len() as int].0 == good);
    }
}

/// The report on an app. What was found out counts only where the container runs, and
/// whether the port is listened on only where the process does.
pub fn check_app_health(app: &str, active_app: &str, container_status: &str, facts: &AppFacts) -> (r:
    AppHealthReport)
    requires
        facts.wf(),
    ensures
        r.deep_view() == report_of(
            app@,
            active_app@,
            container_status@,
            *facts,
            port_of(encode_utf8(app@)),
        ),
{
    let mut details: Vec<String> = Vec::new();
    let mut first = String::from_str("active instance: ");
    let instance = instance_name_from_app_ref(active_app);
    first.append(instance.as_str());
    let ghost first_line = first@;
    push_text(&mut details, first);
    if !eq_ignore_ascii_case(container_status, "running") {
        let mut line = String::from_str("container status is ");
        line.append(container_status);
        push_text(&mut details, line);
        assert(details.deep_view() =~= seq![first_line, "container status is "@ + container_status@]);
        return AppHealthReport { app: app.to_owned(), healthy: false, details };
    }
    push_text(&mut details, String::from_str("container running"));
    let ghost head = seq![first_line, "container running"@];
    let ghost mut found: Seq<(bool, Seq<char>)> = Seq::empty();
    assert(details.deep_view() =~= head + found.map_values(|line: (bool, Seq<char>)| line.1));
    let mut report = AppHealthReport { app: app.to_owned(), healthy: true, details };
    let line = say_process(&facts.process);
    push_line(&mut report, line, Ghost(found), Ghost(head));
    proof {
        found = found.push(line.deep_view());
    }
    let line = say_command(&facts.start_command);
    push_line(&mut report, line, Ghost(found), Ghost(head));
    proof {
        found = found.push(line.deep_view());
    }
    let line = say_env(&facts.required_env, &facts.vars);
    push_line(&mut report, line, Ghost(found), Ghost(head));
    proof {
        found = found.push(line.deep_view());
    }
    if let Ok(true) = facts.process {
        let port: u16 = allocate_port(app);
        let line = say_port(port, &facts.listening);
        push_line(&mut report, line, Ghost(found), Ghost(head));
        proof {
            found = found.push(line.deep_view());
        }
    }
    let cleanup = match &facts.cleanup {
        Some(job) => cleanup_pending_detail(Some(job)),
        None => cleanup_pending_detail(None),
    };
    if let Some(detail) = cleanup {
        let line = (true, detail);
        push_line(&mut report, line, Ghost(found), Ghost(head));
        proof {
            found = found.push(line.deep_view());
        }
    }
    assert(found =~= report_lines(port_of(encode_utf8(app@)), *facts));
    report
}

/// The report on an app whose active container is gone.
pub fn missing_report(app: &str) -> (r: AppHealthReport)
    ensures
        r.deep_view() == (ReportView {
            app: app@,
            healthy: false,
            details: seq!["active container missing"@],
        }),
{
    let mut details: Vec<String> = Vec::new();
    push_text(&mut details, String::from_str("active container missing"));
    assert(details.deep_view() =~= seq!["active container missing"@]);
    AppHealthReport { app: app.to_owned(), healthy: false, details }
}

/// An app is reported well only where its container and its process run, its port is
/// listened on, its start command is known and all that it requires is set.
pub proof fn healthy_apps_are_up(
    app: Seq<char>,
    active_app: Seq<char>,
    container_status: Seq<char>,
    facts: AppFacts,
    port: nat,
)
    requires
        report_of(app, active_app, container_status, facts, port).healthy,
    ensures
        container_state(container_status) == PsContainerState::Running,
        facts.process == Ok::<bool, String>(true),
        facts.listening == Ok::<bool, String>(true),
        facts.start_command is Ok,
        facts.required_env is Ok,
        facts.vars is Ok,
        required_verdict(
            facts.required_env->Ok_0.deep_view(),
            facts.vars->Ok_0.deep_view(),
        ) is Ok,
{
    let found = report_lines(port, facts);
    assert(found[0] == process_line(facts.process));
    assert(found[1] == command_line(facts.start_command));
    assert(found[2] == env_line(facts.required_env, facts.vars));
    assert(found[0].0 && found[1].0 && found[2].0);
    assert(facts.process == Ok::<bool, String>(true));
    assert(found[3] == port_line(port, facts.listening));
    assert(found[3].0);
    reveal_strlit("missing");
    reveal_strlit("running");
    assert(lowered("missing"@)[0] == 'm');
    assert(lowered("running"@)[0] == 'r');
}

/// The end of a health check, by the apps that are not well.
pub open spec fn verdict_on(unhealthy: Seq<Seq<char>>) -> Result<(), Seq<char>> {
    if unhealthy.len() == 0 {
        Ok(())
    } else {
        Err(decimal(unhealthy.len()) + " app(s) unhealthy: "@ + join(unhealthy, ", "@))
    }
}

pub fn health_verdict(unhealthy: &Vec<String>) -> (r: Result<(), String>)
    ensures
        outcome(r) == verdict_on(unhealthy.deep_view()),
{
    if unhealthy.is_empty() {
        return Ok(());
    }
    let mut message = decimal_of(unhealthy.len() as u64);
    message.append(" app(s) unhealthy: ");
    let list = join_with(unhealthy, ", ");
    message.append(list.as_str());
    Err(message)
}

/// What a health check comes to: how many apps there are, and how many are not well.
#[derive(Clone, Copy, PartialEq, Eq, Structural, Debug)]
pub struct HealthSummary {
    pub app_count: usize,
    pub unhealthy_count: usize,
}

/// The apps that are not well, in their order.
pub open spec fn unhealthy_apps(reports: Seq<ReportView>) -> Seq<Seq<char>> {
    reports.filter(|report: ReportView| !report.healthy).map_values(
        |report: ReportView| report.app,
    )
}

/// The summary and the end of a health check, by the reports on all apps.
pub fn health_outcome(reports: &Vec<AppHealthReport>) -> (r: (HealthSummary, Result<(), String>))
    ensures
        r.0.app_count == reports@.len(),
        r.0.unhealthy_count == unhealthy_apps(reports.deep_view()).len(),
        outcome(r.1) == verdict_on(unhealthy_apps(reports.deep_view())),
{
    let ghost all = reports.deep_view();
    let ghost ill = |report: ReportView| !report.healthy;
    let ghost named = |report: ReportView| report.app;
    let mut unhealthy: Vec<String> = Vec::new();
    let mut i: usize = 0;
    proof {
        reveal(Seq::filter);
        assert(all.take(0).filter(ill) =~= Seq::empty());
        assert(unhealthy.deep_view() =~= all.take(0).filter(ill).map_values(named));
    }
    while i < reports.len()
        invariant
            i <= reports@.len(),
            all == reports.deep_view(),
            ill == (|report: ReportView| !report.healthy),
            named == (|report: ReportView| report.app),
            unhealthy.deep_view() == all.take(i as int).filter(ill).map_values(named),
        decreases reports.len() - i,
    {
        let ghost before = all.take(i as int);
        proof {
            reveal(Seq::filter);
            assert(all.take(i + 1).drop_last() =~= before);
            assert(all.take(i + 1).last() == all[i as int]);
            assert(all[i as int] == reports@[i as int].deep_view());
        }
        if !reports[i].healthy {
            push_text(&mut unhealthy, reports[i].app.clone());
            assert(before.filter(ill).push(all[i as int]).map_values(named) =~= before.filter(
                ill,
            ).map_values(named).push(all[i as int].app));
        }
        i = i + 1;
    }
    assert(all.take(i as int) =~= all);
    let summary = HealthSummary { app_count: reports.len(), unhealthy_count: unhealthy.len() };
    (summary, health_verdict(&unhealthy))
}

/// Whether a health check that root starts is handed to the user that runs the apps.
pub fn should_delegate_health_to_psht(uid: &str, already_delegated: bool, psht_user_exists: bool) -> (r:
    bool)
    ensures
        r == (trim(uid@) == "0"@ && !already_delegated && psht_user_exists),
{
    same(trimmed(uid), "0") && !already_delegated && psht_user_exists
}

// ---------------------------------------------------------------------------
// Logs
// ---------------------------------------------------------------------------

pub const LOGS_DEPLOY_HISTORY_FILES: usize = 12;

pub const LOGS_DEPLOY_HISTORY_LINES_PER_FILE: usize = 400;

/// What follows the log of the deploys.
pub enum AfterHistory {
    /// Nothing more is known of the app.
    Done,
    Unknown(String),
    /// The app's own log, as it grows.
    Follow(String),
    /// The app's own log.
    Show(String),
}

/// Whether this is what follows the log of the deploys.
pub open spec fn follows_history(
    app: Seq<char>,
    has_history: bool,
    active_app: Option<String>,
    follow: bool,
    next: AfterHistory,
) -> bool {
    match active_app {
        Some(active) => if follow {
            next == AfterHistory::Follow(active)
        } else {
            next == AfterHistory::Show(active)
        },
        None => if has_history {
            next is Done
        } else {
            next matches AfterHistory::Unknown(message) && message@ == "app '"@ + app
                + "' not found"@
        },
    }
}

/// What follows the log of the deploys. An app that is neither in it nor active is not
/// known.
pub fn after_history(app: &str, has_history: bool, active_app: Option<String>, follow: bool) -> (r:
    AfterHistory)
    ensures
        follows_history(app@, has_history, active_app, follow, r),
{
    match active_app {
        Some(active) => if follow {
            AfterHistory::Follow(active)
        } else {
            AfterHistory::Show(active)
        },
        None => {
            if has_history {
                return AfterHistory::Done;
            }
            let mut message = String::from_str("app '");
            message.append(app);
            message.append("' not found");
            AfterHistory::Unknown(message)
        },
    }
}

/// The lines of an app's log that are shown: those that hold something.
pub fn app_log_lines(app_log: &str) -> (r: Vec<String>)
    ensures
        r.deep_view() == nonblank(lines(app_log@)),
{
    let all = lines_of(app_log);
    nonblank_of(&all)
}

pub fn app_log_line(timestamp: &str, line: &str) -> (r: String)
    ensures
        r@ == timestamp@ + " [app] "@ + line@,
{
    let mut r = timestamp.to_owned();
    r.append(" [app] ");
    r.append(line);
    r
}

pub fn app_log_failed_error(active_app: &str, err: &str) -> (r: String)
    ensures
        r@ == "failed to read app log from '"@ + active_app@ + "': "@ + err@,
{
    let mut r = String::from_str("failed to read app log from '");
    r.append(active_app);
    r.append("': ");
    r.append(err);
    r
}

/// An app is reported well exactly where its container and its process run, its port is
/// listened on, its start command is known and all that it requires is set. A container
/// that does not run is reported, and nothing else of the app.
pub proof fn apps_are_well_where_all_is(
    app: Seq<char>,
    active_app: Seq<char>,
    container_status: Seq<char>,
    facts: AppFacts,
    port: nat,
)
    ensures
        ({
            let report = report_of(app, active_app, container_status, facts, port);
            &&& report.app == app
            &&& report.healthy <==> {
                &&& lowered(container_status) == lowered("running"@)
                &&& facts.process == Ok::<bool, String>(true)
                &&& facts.listening == Ok::<bool, String>(true)
                &&& facts.start_command is Ok
                &&& facts.required_env is Ok
                &&& facts.vars is Ok
                &&& required_verdict(
                    facts.required_env->Ok_0.deep_view(),
                    facts.vars->Ok_0.deep_view(),
                ) is Ok
            }
        }),
{
    let report = report_of(app, active_app, container_status, facts, port);
    if report.healthy {
        healthy_apps_are_up(app, active_app, container_status, facts, port);
    }
    let found = report_lines(port, facts);
    assert(found[0] == process_line(facts.process));
    assert(found[1] == command_line(facts.start_command));
    assert(found[2] == env_line(facts.required_env, facts.vars));
    if facts.process == Ok::<bool, String>(true) {
        assert(found[3] == port_line(port, facts.listening));
    }
}

/// Nothing is missing from what an app requires where it requires nothing: such an app is
/// well if the rest of it is.
pub proof fn apps_that_require_nothing_lack_nothing(
    app: Seq<char>,
    active_app: Seq<char>,
    container_status: Seq<char>,
    facts: AppFacts,
    port: nat,
)
    requires
        facts.required_env matches Ok(required) && required@.len() == 0,
        facts.vars is Ok,
    ensures
        report_of(app, active_app, container_status, facts, port).healthy <==> {
            &&& lowered(container_status) == lowered("running"@)
            &&& facts.process == Ok::<bool, String>(true)
            &&& facts.listening == Ok::<bool, String>(true)
            &&& facts.start_command is Ok
        },
{
    let required = facts.required_env->Ok_0.deep_view();
    apps_are_well_where_all_is(app, active_app, container_status, facts, port);
    crate::env::requirements_are_met_where_all_is_set(required, facts.vars->Ok_0.deep_view());
    reveal(Seq::filter);
}

/// What is found of an app is reported in a line each: the container first, what is asked
/// of the process, the start command and the environment always, and of the port only
/// where the process runs. A pending cleanup is reported too, and takes nothing from the
/// health of the app.
pub proof fn findings_are_reported_in_a_line_each(
    app: Seq<char>,
    active_app: Seq<char>,
    container_status: Seq<char>,
    facts: AppFacts,
    port: nat,
)
    ensures
        ({
            let report = report_of(app, active_app, container_status, facts, port);
            &&& report.details[0] == "active instance: "@ + instance_of(active_app)
            &&& lowered(container_status) != lowered("running"@) ==> report.details.len() == 2
            &&& lowered(container_status) == lowered("running"@) ==> {
                &&& report.details.len() == 5 + (if facts.process == Ok::<bool, String>(true) {
                    1int
                } else {
                    0
                }) + (if facts.cleanup is Some {
                    1int
                } else {
                    0
                })
                &&& facts.process is Err ==> facts.process->Err_0@.is_suffix_of(report.details[2])
                &&& facts.start_command is Err ==> report.details[3]
                    == facts.start_command->Err_0@
                &&& facts.required_env is Err ==> facts.required_env->Err_0@.is_suffix_of(
                    report.details[4],
                )
                &&& facts.required_env is Ok && facts.vars is Err
                    ==> facts.vars->Err_0@.is_suffix_of(report.details[4])
            }
        }),
{
    let report = report_of(app, active_app, container_status, facts, port);
    let found = report_lines(port, facts);
    assert(found[0] == process_line(facts.process));
    assert(found[1] == command_line(facts.start_command));
    assert(found[2] == env_line(facts.required_env, facts.vars));
    if lowered(container_status) == lowered("running"@) {
        if let Err(err) = facts.process {
            assert(report.details[2].skip(report.details[2].len() - err@.len()) =~= err@);
        }
        match facts.required_env {
            Err(err) => {
                assert(report.details[4].skip(report.details[4].len() - err@.len()) =~= err@);
            },
            Ok(_) => {
                if let Err(err) = facts.vars {
                    assert(report.details[4].skip(report.details[4].len() - err@.len()) =~= err@);
                }
            },
        }
    }
}

/// An app is shown as running exactly where its container and its process run, and as
/// down where only its container does.
pub proof fn apps_are_shown_as_they_are(state: PsContainerState, process_running: Option<bool>)
    ensures
        shown_status(state, process_running) == "Running"@ <==> state == PsContainerState::Running
            && process_running == Some(true),
        shown_status(state, process_running) == "Down"@ <==> state == PsContainerState::Running
            && process_running != Some(true),
        shown_status(state, process_running) == "Stopped"@ <==> state
            == PsContainerState::Stopped,
        shown_status(state, process_running) == "Missing"@ <==> state
            == PsContainerState::Missing,
{
    reveal_strlit("Running");
    reveal_strlit("Down");
    reveal_strlit("Stopped");
    reveal_strlit("Missing");
    assert("Running"@[0] == 'R');
    assert("Down"@[0] == 'D');
    assert("Stopped"@[0] == 'S');
    assert("Missing"@[0] == 'M');
}

/// The apps on record stay as they are when those that only have a container are added;
/// each of these is taken to be active in the first container of its name.
pub proof fn containers_add_to_what_is_on_record(
    targets: Map<Seq<char>, (Option<Seq<char>>, Seq<char>)>,
    containers: Seq<(Seq<char>, Seq<char>)>,
    app: Seq<char>,
)
    ensures
        ({
            let all = with_containers(targets, containers);
            &&& targets.dom().contains(app) ==> all.dom().contains(app) && all[app]
                == targets[app]
            &&& all.dom().contains(app) && !targets.dom().contains(app) ==> exists|i: int|
                0 <= i < containers.len() && canonical_app(#[trigger] containers[i].0) == Some(app)
                    && all[app] == (Some(app), containers[i].1) && forall|j: int|
                    0 <= j < i ==> canonical_app(#[trigger] containers[j].0) != Some(app)
        }),
    decreases containers.len(),
{
    let all = with_containers(targets, containers);
    if containers.len() > 0 {
        let head = containers.drop_last();
        let before = with_containers(targets, head);
        let last = containers.len() - 1;
        containers_add_to_what_is_on_record(targets, head, app);
        if all.dom().contains(app) && !targets.dom().contains(app) {
            if before.dom().contains(app) {
                let i = choose|i: int|
                    0 <= i < head.len() && canonical_app(#[trigger] head[i].0) == Some(app)
                        && before[app] == (Some(app), head[i].1) && forall|j: int|
                        0 <= j < i ==> canonical_app(#[trigger] head[j].0) != Some(app);
                assert(containers[i] == head[i]);
                assert forall|j: int| 0 <= j < i implies canonical_app(#[trigger] containers[j].0)
                    != Some(app) by {
                    assert(containers[j] == head[j]);
                }
                assert(canonical_app(containers[i].0) == Some(app));
            } else {
                assert(canonical_app(containers[last].0) == Some(app));
                assert forall|j: int| 0 <= j < last implies canonical_app(
                    #[trigger] containers[j].0,
                ) != Some(app) by {
                    assert(containers[j] == head[j]);
                    if canonical_app(head[j].0) == Some(app) {
                        containers_are_not_overlooked(targets, head, j);
                    }
                }
            }
        }
    }
}

/// Every app on record is among the apps of the host, with the state of the container that
/// it is active in; one that is active in no container is missing.
pub proof fn apps_on_record_are_not_overlooked(
    apps: Seq<(Seq<char>, RuntimeView)>,
    states: Map<Seq<char>, RuntimeRowView>,
    s: Surroundings,
    i: int,
)
    requires
        0 <= i < apps.len(),
    ensures
        targets_on_record(apps, states, s).0 matches Ok(targets) ==> {
            let app = apps[i].0;
            &&& targets.dom().contains(app)
            &&& match targets[app].0 {
                Some(active) => s.statuses.dom().contains(instance_of(active)) && targets[app].1
                    == s.statuses[instance_of(active)],
                None => targets[app].1 == "Missing"@,
            }
        },
    decreases apps.len(),
{
    let head = apps.drop_last();
    if i < head.len() {
        assert(head[i] == apps[i]);
        apps_on_record_are_not_overlooked(head, states, s, i);
    }
}

/// A health check fails exactly where an app is not well, and counts and names those.
pub proof fn health_checks_fail_for_apps_that_are_not_well(reports: Seq<ReportView>)
    ensures
        verdict_on(unhealthy_apps(reports)) is Ok <==> forall|i: int|
            0 <= i < reports.len() ==> (#[trigger] reports[i]).healthy,
{
    let ill = |report: ReportView| !report.healthy;
    if unhealthy_apps(reports).len() == 0 {
        assert forall|i: int| 0 <= i < reports.len() implies (#[trigger] reports[i]).healthy by {
            if !reports[i].healthy {
                reports.lemma_filter_contains(ill, i);
            }
        }
    } else {
        let first = reports.filter(ill)[0];
        reports.lemma_filter_contains_rev(ill, first);
        assert(reports.contains(first));
    }
}

/// The log of an app that is active is shown, and followed where that is asked for; an app
/// is unknown only where it is neither active nor was ever deployed.
pub proof fn logs_are_shown_of_active_apps(
    app: Seq<char>,
    has_history: bool,
    active_app: Option<String>,
    follow: bool,
    next: AfterHistory,
)
    requires
        follows_history(app, has_history, active_app, follow, next),
    ensures
        next is Follow <==> active_app is Some && follow,
        next is Show <==> active_app is Some && !follow,
        next is Unknown <==> active_app is None && !has_history,
        next is Done <==> active_app is None && has_history,
        next is Follow ==> Some(next->Follow_0) == active_app,
        next is Show ==> Some(next->Show_0) == active_app,
{
}

/// The state of a container is the last one that is told of its name; a name that none is
/// told of has none.
pub proof fn the_last_state_counts(containers: Seq<(Seq<char>, Seq<char>)>, name: Seq<char>)
    ensures
        match lookup(statuses_of(containers), name) {
            Some(status) => exists|i: int|
                0 <= i < containers.len() && #[trigger] containers[i] == (name, status) && forall|
                    j: int,
                |
                    i < j < containers.len() ==> (#[trigger] containers[j]).0 != name,
            None => forall|j: int|
                0 <= j < containers.len() ==> (#[trigger] containers[j]).0 != name,
        },
    decreases containers.len(),
{
    if containers.len() > 0 {
        let head = containers.drop_last();
        let last = containers.len() - 1;
        the_last_state_counts(head, name);
        assert(containers[last] == containers.last());
        assert forall|j: int| 0 <= j < head.len() implies #[trigger] head[j] == containers[j] by {}
        if containers[last].0 == name {
            assert(containers[last] == (name, containers[last].1));
        } else {
            match lookup(statuses_of(head), name) {
                Some(status) => {
                    let i = choose|i: int|
                        0 <= i < head.len() && #[trigger] head[i] == (name, status) && forall|
                            j: int,
                        |
                            i < j < head.len() ==> (#[trigger] head[j]).0 != name;
                    assert(containers[i] == (name, status));
                    assert forall|j: int| i < j < containers.len() implies (
                    #[trigger] containers[j]).0 != name by {
                        if j < last {
                            assert(head[j].0 != name);
                        }
                    }
                },
                None => {
                    assert forall|j: int| 0 <= j < containers.len() implies (
                    #[trigger] containers[j]).0 != name by {
                        if j < last {
                            assert(head[j].0 != name);
                        }
                    }
                },
            }
        }
    }
}

/// The container of an app is looked for by what is on record, and where that is not there
/// by what takes its place; an app is missing only where neither is.
pub proof fn apps_are_missing_where_nothing_is_there(
    app: Seq<char>,
    state: RuntimeView,
    states: Map<Seq<char>, RuntimeRowView>,
    s: Surroundings,
)
    requires
        app_ref_of(state.active_instance) is Some,
    ensures
        ({
            let own = app_ref_of(state.active_instance)->0;
            let (found, after) = target_on_record(app, state, states, s);
            let other = resolved(states, app, s.live, s.now);
            let there = |app_ref: Seq<char>| s.statuses.dom().contains(instance_of(app_ref));
            &&& there(own) ==> found == Ok::<(Option<Seq<char>>, Seq<char>), Seq<char>>(
                (Some(own), s.statuses[instance_of(own)]),
            ) && after == states
            &&& !there(own) && other.0 is Err ==> found is Err
            &&& !there(own) && other.0 is Ok && other.0->Ok_0 is Some && there(other.0->Ok_0->0)
                ==> found == Ok::<(Option<Seq<char>>, Seq<char>), Seq<char>>(
                (other.0->Ok_0, s.statuses[instance_of(other.0->Ok_0->0)]),
            )
            &&& !there(own) && other.0 is Ok && (other.0->Ok_0 is None || !there(
                other.0->Ok_0->0,
            )) ==> found == Ok::<(Option<Seq<char>>, Seq<char>), Seq<char>>(
                (None, "Missing"@),
            )
        }),
{
}

} // verus!
