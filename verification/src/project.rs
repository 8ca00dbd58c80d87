//! A project on a workstation: its settings, and what a deploy of it comes down to.

use vstd::prelude::*;
use crate::app_name::{invalid_name_message, valid_app_name, validate_app_name};
use crate::order::{dedupe, first_occurrences};
use crate::paths::{file_name, file_name_of, inside, joined, path_join, safe_join_relative};
use crate::release::{
    derive_app_name_from_url, derived_name, is_same_project_release_url, same_project,
};
use crate::split::{join, join_with, lines, lines_of, nonempty_trimmed, nonempty_trimmed_of};
use crate::table::{lookup, Table};
use crate::text::{
    chars_of, contains, copy_opt, copy_texts, has_part, has_prefix, occurs_at, outcome, push_text, same,
    starts_with, trim, trimmed,
};
use crate::tomltree::{entry_index, find_entry, parse_toml, parsed_toml, toml_view, Toml, TomlView};

verus! {

pub const PROJECT_CONFIG_FILE: &'static str = "psht.toml";

/// Where the workstation deploys to: a host for all projects, and hosts for some.
pub struct Config {
    pub host: Option<String>,
    pub projects: Table<String>,
}

/// The text that a table keeps under a key: `Some(None)` where it keeps none.
pub open spec fn text_entry(entries: Seq<(Seq<char>, TomlView)>, key: Seq<char>) -> Option<
    Option<Seq<char>>,
> {
    match entry_index(entries, key) {
        None => Some(None),
        Some(i) => match entries[i].1 {
            TomlView::Text(text) => Some(Some(text)),
            _ => None,
        },
    }
}

/// The texts of a table, each under its key, where it holds nothing else.
pub open spec fn text_entries(entries: Seq<(Seq<char>, TomlView)>) -> Option<
    Map<Seq<char>, Seq<char>>,
>
    decreases entries.len(),
{
    if entries.len() == 0 {
        Some(Map::empty())
    } else {
        match (text_entries(entries.drop_last()), entries.last().1) {
            (Some(texts), TomlView::Text(text)) => Some(texts.insert(entries.last().0, text)),
            _ => None,
        }
    }
}

/// The hosts of projects that a file of settings keeps.
pub open spec fn hosts_of_projects(entries: Seq<(Seq<char>, TomlView)>) -> Option<
    Map<Seq<char>, Seq<char>>,
> {
    match entry_index(entries, "projects"@) {
        None => Some(Map::empty()),
        Some(i) => match entries[i].1 {
            TomlView::Table(rows) => text_entries(rows),
            _ => None,
        },
    }
}

/// The settings of the workstation in a file, where it holds them.
pub open spec fn config_in(entries: Seq<(Seq<char>, TomlView)>) -> Option<
    (Option<Seq<char>>, Map<Seq<char>, Seq<char>>),
> {
    match (text_entry(entries, "host"@), hosts_of_projects(entries)) {
        (Some(host), Some(projects)) => Some((host, projects)),
        _ => None,
    }
}

proof fn bad_entries_stay(entries: Seq<(Seq<char>, TomlView)>, k: int)
    requires
        0 <= k <= entries.len(),
        text_entries(entries.take(k)) is None,
    ensures
        text_entries(entries) is None,
    decreases entries.len() - k,
{
    if k < entries.len() {
        assert(entries.take(k + 1).drop_last() =~= entries.take(k));
        bad_entries_stay(entries, k + 1);
    } else {
        assert(entries.take(k) =~= entries);
    }
}

fn texts_of_table(rows: &Vec<(String, Toml)>) -> (r: Option<Table<String>>)
    ensures
        match text_entries(rows.deep_view()) {
            Some(texts) => r matches Some(table) && table.wf() && table.deep_view() == texts,
            None => r is None,
        },
{
    let ghost all = rows.deep_view();
    let mut texts: Table<String> = Table::new();
    let mut i: usize = 0;
    assert(all.take(0) =~= Seq::empty());
    while i < rows.len()
        invariant
            i <= rows@.len(),
            all == rows.deep_view(),
            texts.wf(),
            text_entries(all.take(i as int)) == Some(texts.deep_view()),
        decreases rows.len() - i,
    {
        proof {
            assert(all.take(i + 1).drop_last() =~= all.take(i as int));
            assert(all.take(i + 1).last() == all[i as int]);
            assert(all[i as int] == (rows@[i as int].0@, toml_view(rows@[i as int].1)));
        }
        match &rows[i].1 {
            Toml::Text(text) => {
                texts.put(rows[i].0.as_str(), text.clone());
            },
            _ => {
                proof {
                    bad_entries_stay(all, i + 1);
                }
                return None;
            },
        }
        i = i + 1;
    }
    assert(all.take(i as int) =~= all);
    Some(texts)
}

/// The settings that a file holds, or none where it does not hold them.
pub fn config_of_toml(entries: &Vec<(String, Toml)>) -> (r: Config)
    ensures
        r.projects.wf(),
        (r.host.deep_view(), r.projects.deep_view()) == match config_in(entries.deep_view()) {
            Some(config) => config,
            None => (None, Map::empty()),
        },
{
    let ghost all = entries.deep_view();
    let none = Config { host: None, projects: Table::new() };
    let host = match find_entry(entries, "host") {
        None => None,
        Some(i) => {
            assert(all[i as int].1 == toml_view(entries@[i as int].1));
            match &entries[i].1 {
                Toml::Text(text) => Some(text.clone()),
                _ => {
                    return none;
                },
            }
        },
    };
    let projects = match find_entry(entries, "projects") {
        None => Table::new(),
        Some(i) => {
            assert(all[i as int].1 == toml_view(entries@[i as int].1));
            match &entries[i].1 {
                Toml::Table(rows) => {
                    proof {
                        assert(toml_view(entries@[i as int].1)->Table_0 =~= rows.deep_view());
                    }
                    match texts_of_table(rows) {
                        Some(projects) => projects,
                        None => {
                            return none;
                        },
                    }
                },
                _ => {
                    return none;
                },
            }
        },
    };
    Config { host, projects }
}

/// The settings of the workstation, by the text of their file where it can be read.
pub fn load_config_from(content: Option<&str>) -> (r: Config)
    ensures
        r.projects.wf(),
        (r.host.deep_view(), r.projects.deep_view()) == match content {
            Some(content) => match parsed_toml(content@) {
                Ok(entries) => match config_in(entries) {
                    Some(config) => config,
                    None => (None, Map::empty()),
                },
                Err(_) => (None, Map::empty()),
            },
            None => (None, Map::empty()),
        },
{
    if let Some(content) = content {
        if let Ok(entries) = parse_toml(content) {
            return config_of_toml(&entries);
        }
    }
    Config { host: None, projects: Table::new() }
}

/// The host of a project.
pub open spec fn host_of(
    host: Option<Seq<char>>,
    projects: Map<Seq<char>, Seq<char>>,
    cwd: Seq<char>,
    hint: Seq<char>,
) -> Result<Seq<char>, Seq<char>> {
    match lookup(projects, cwd) {
        Some(host) => Ok(host),
        None => match host {
            Some(host) => Ok(host),
            None => Err("no host configured. "@ + hint),
        },
    }
}

/// The host of the project in a directory; `hint` says what to do where there is none.
pub fn resolve_host_with_hint(config: &Config, cwd: &str, hint: &str) -> (r: Result<String, String>)
    requires
        config.projects.wf(),
    ensures
        outcome(r) == host_of(
            config.host.deep_view(),
            config.projects.deep_view(),
            cwd@,
            hint@,
        ),
{
    if let Some(host) = config.projects.get(cwd) {
        return Ok(host.clone());
    }
    match &config.host {
        Some(host) => Ok(host.clone()),
        None => {
            let mut message = String::from_str("no host configured. ");
            message.append(hint);
            Err(message)
        },
    }
}

pub fn resolve_host_from(config: &Config, cwd: &str) -> (r: Result<String, String>)
    requires
        config.projects.wf(),
    ensures
        outcome(r) == host_of(
            config.host.deep_view(),
            config.projects.deep_view(),
            cwd@,
            "Set `host` in ~/.psht/config.toml"@,
        ),
{
    resolve_host_with_hint(config, cwd, "Set `host` in ~/.psht/config.toml")
}

/// The hosts that are kept once that of a project is, unless one was.
pub open spec fn remembered(
    projects: Map<Seq<char>, Seq<char>>,
    cwd: Seq<char>,
    host: Seq<char>,
) -> Map<Seq<char>, Seq<char>> {
    if projects.dom().contains(cwd) {
        projects
    } else {
        projects.insert(cwd, host)
    }
}

/// Keeps the host of a project, unless one is kept; tells whether anything changed.
pub fn remember_project(config: &mut Config, cwd: &str, host: &str) -> (changed: bool)
    requires
        old(config).projects.wf(),
    ensures
        final(config).projects.wf(),
        final(config).host == old(config).host,
        changed == !old(config).projects.deep_view().dom().contains(cwd@),
        final(config).projects.deep_view() == remembered(
            old(config).projects.deep_view(),
            cwd@,
            host@,
        ),
{
    if config.projects.has(cwd) {
        return false;
    }
    config.projects.put(cwd, host.to_owned());
    true
}

/// A project that was deployed to a host stays with it, whatever the default host becomes
/// and whatever is remembered later; other projects are not affected.
pub proof fn projects_stay_with_their_host(
    projects: Map<Seq<char>, Seq<char>>,
    cwd: Seq<char>,
    host: Seq<char>,
    later: Seq<char>,
    default: Option<Seq<char>>,
    elsewhere: Seq<char>,
    hint: Seq<char>,
)
    ensures
        ({
            let kept = remembered(projects, cwd, host);
            &&& host_of(default, kept, cwd, hint) == match lookup(projects, cwd) {
                Some(first) => Ok::<Seq<char>, Seq<char>>(first),
                None => Ok(host),
            }
            &&& remembered(kept, cwd, later) == kept
            &&& elsewhere != cwd ==> host_of(default, kept, elsewhere, hint) == host_of(
                default,
                projects,
                elsewhere,
                hint,
            )
        }),
{
}

/// The name of an app: the one given, or that of the directory.
pub fn app_name(explicit: Option<&str>, cwd: &str) -> (r: String)
    ensures
        r@ == match explicit {
            Some(name) => name@,
            None => match file_name(cwd@) {
                Some(name) => name,
                None => "app"@,
            },
        },
{
    match explicit {
        Some(name) => name.to_owned(),
        None => match file_name_of(cwd) {
            Some(name) => name,
            None => String::from_str("app"),
        },
    }
}

pub fn project_config_path(cwd: &str) -> (r: String)
    ensures
        r@ == joined(cwd@, PROJECT_CONFIG_FILE@),
{
    path_join(cwd, PROJECT_CONFIG_FILE)
}

/// The settings of a project.
#[derive(PartialEq, Eq, Debug)]
pub struct ProjectConfig {
    pub url: Option<String>,
    pub start: Option<String>,
    pub app: Option<String>,
    pub bin: Option<String>,
    pub preinstall: Option<String>,
    pub postinstall: Option<String>,
    pub apt_packages: Option<Vec<String>>,
    pub required_env: Option<Vec<String>>,
}

/// The mathematical form of the settings.
#[verifier::ext_equal]
pub struct ProjectView {
    pub url: Option<Seq<char>>,
    pub start: Option<Seq<char>>,
    pub app: Option<Seq<char>>,
    pub bin: Option<Seq<char>>,
    pub preinstall: Option<Seq<char>>,
    pub postinstall: Option<Seq<char>>,
    pub apt_packages: Option<Seq<Seq<char>>>,
    pub required_env: Option<Seq<Seq<char>>>,
}

impl DeepView for ProjectConfig {
    type V = ProjectView;

    open spec fn deep_view(&self) -> ProjectView {
        ProjectView {
            url: self.url.deep_view(),
            start: self.start.deep_view(),
            app: self.app.deep_view(),
            bin: self.bin.deep_view(),
            preinstall: self.preinstall.deep_view(),
            postinstall: self.postinstall.deep_view(),
            apt_packages: self.apt_packages.deep_view(),
            required_env: self.required_env.deep_view(),
        }
    }
}

/// A project without settings.
pub open spec fn bare_project() -> ProjectView {
    ProjectView {
        url: None,
        start: None,
        app: None,
        bin: None,
        preinstall: None,
        postinstall: None,
        apt_packages: None,
        required_env: None,
    }
}

impl Default for ProjectConfig {
    fn default() -> (r: ProjectConfig)
        ensures
            r.deep_view() == bare_project(),
    {
        ProjectConfig {
            url: None,
            start: None,
            app: None,
            bin: None,
            preinstall: None,
            postinstall: None,
            apt_packages: None,
            required_env: None,
        }
    }
}

fn copy_list(list: &Option<Vec<String>>) -> (r: Option<Vec<String>>)
    ensures
        r.deep_view() == list.deep_view(),
{
    match list {
        Some(list) => Some(copy_texts(list)),
        None => None,
    }
}

pub fn copy_project(cfg: &ProjectConfig) -> (r: ProjectConfig)
    ensures
        r.deep_view() == cfg.deep_view(),
{
    ProjectConfig {
        url: copy_opt(&cfg.url),
        start: copy_opt(&cfg.start),
        app: copy_opt(&cfg.app),
        bin: copy_opt(&cfg.bin),
        preinstall: copy_opt(&cfg.preinstall),
        postinstall: copy_opt(&cfg.postinstall),
        apt_packages: copy_list(&cfg.apt_packages),
        required_env: copy_list(&cfg.required_env),
    }
}

/// A text without white space at its ends, if anything is left of it.
pub open spec fn filled(value: Option<Seq<char>>) -> Option<Seq<char>> {
    match value {
        Some(value) if trim(value).len() > 0 => Some(trim(value)),
        _ => None,
    }
}

pub fn normalize_opt(value: Option<&str>) -> (r: Option<String>)
    ensures
        r.deep_view() == filled(value.deep_view()),
{
    match value {
        Some(value) => {
            let value = trimmed(value);
            if value.is_empty() {
                None
            } else {
                Some(value.to_owned())
            }
        },
        None => None,
    }
}

fn normalize_owned(value: &Option<String>) -> (r: Option<String>)
    ensures
        r.deep_view() == filled(value.deep_view()),
{
    match value {
        Some(value) => normalize_opt(Some(value.as_str())),
        None => None,
    }
}

/// The texts of a list without white space at their ends, each once, if any are left.
pub open spec fn filled_list(values: Option<Seq<Seq<char>>>) -> Option<Seq<Seq<char>>> {
    match values {
        Some(values) => if nonempty_trimmed(values).len() > 0 {
            Some(first_occurrences(nonempty_trimmed(values)))
        } else {
            None
        },
        None => None,
    }
}

pub fn normalize_opt_vec(values: Option<&Vec<String>>) -> (r: Option<Vec<String>>)
    ensures
        r.deep_view() == filled_list(values.deep_view()),
{
    match values {
        Some(values) => {
            let named = nonempty_trimmed_of(values);
            if named.is_empty() {
                None
            } else {
                Some(dedupe(&named))
            }
        },
        None => None,
    }
}

/// The settings that go along with a binary, where there are some.
pub open spec fn hooks_of(
    preinstall: Option<Seq<char>>,
    postinstall: Option<Seq<char>>,
    apt_packages: Option<Seq<Seq<char>>>,
    required_env: Option<Seq<Seq<char>>>,
) -> Option<ProjectView> {
    let cfg = ProjectView {
        preinstall: filled(preinstall),
        postinstall: filled(postinstall),
        apt_packages: filled_list(apt_packages),
        required_env: filled_list(required_env),
        ..bare_project()
    };
    if cfg.preinstall is None && cfg.postinstall is None && cfg.apt_packages is None
        && cfg.required_env is None {
        None
    } else {
        Some(cfg)
    }
}

pub fn deploy_hooks_config(
    preinstall: Option<&str>,
    postinstall: Option<&str>,
    apt_packages: Option<&Vec<String>>,
    required_env: Option<&Vec<String>>,
) -> (r: Option<ProjectConfig>)
    ensures
        r.deep_view() == hooks_of(
            preinstall.deep_view(),
            postinstall.deep_view(),
            apt_packages.deep_view(),
            required_env.deep_view(),
        ),
{
    let cfg = ProjectConfig {
        url: None,
        start: None,
        app: None,
        bin: None,
        preinstall: normalize_opt(preinstall),
        postinstall: normalize_opt(postinstall),
        apt_packages: normalize_opt_vec(apt_packages),
        required_env: normalize_opt_vec(required_env),
    };
    if cfg.preinstall.is_none() && cfg.postinstall.is_none() && cfg.apt_packages.is_none()
        && cfg.required_env.is_none() {
        None
    } else {
        Some(cfg)
    }
}

/// The start command that goes along with a binary: one line.
pub fn start_command_line(start: &str) -> (r: Result<String, String>)
    ensures
        outcome(r) == if trim(start@).len() == 0 {
            Err::<Seq<char>, Seq<char>>("start command is empty"@)
        } else {
            Ok(trim(start@) + "\n"@)
        },
{
    let start = trimmed(start);
    if start.is_empty() {
        return Err(String::from_str("start command is empty"));
    }
    let mut r = start.to_owned();
    r.append("\n");
    Ok(r)
}

/// The command that starts a binary: its own name.
pub fn binary_start_command(binary_path: &str) -> (r: Result<String, String>)
    ensures
        outcome(r) == match file_name(binary_path@) {
            Some(name) => Ok("./"@ + name),
            None => Err("invalid binary path: "@ + binary_path@),
        },
{
    match file_name_of(binary_path) {
        Some(name) => {
            let mut r = String::from_str("./");
            r.append(name.as_str());
            Ok(r)
        },
        None => {
            let mut message = String::from_str("invalid binary path: ");
            message.append(binary_path);
            Err(message)
        },
    }
}

// ---------------------------------------------------------------------------
// Which app is meant
// ---------------------------------------------------------------------------

/// The app that the settings name.
pub fn configured_project_app(cfg: Option<&ProjectConfig>) -> (r: Option<String>)
    ensures
        r.deep_view() == match cfg {
            Some(cfg) => filled(cfg.deep_view().app),
            None => None,
        },
{
    match cfg {
        Some(cfg) => normalize_owned(&cfg.app),
        None => None,
    }
}

pub open spec fn mismatch_message(app: Seq<char>, configured: Seq<char>) -> Seq<char> {
    "app '"@ + app + "' does not match `psht.toml` app '"@ + configured + "'"@
}

fn mismatch_error(app: &str, configured: &str) -> (r: String)
    ensures
        r@ == mismatch_message(app@, configured@),
{
    let mut r = String::from_str("app '");
    r.append(app);
    r.append("' does not match `psht.toml` app '");
    r.append(configured);
    r.append("'");
    r
}

pub open spec fn unresolved_message() -> Seq<char> {
    "could not resolve app name from `psht.toml`. Run `psht setup`."@
}

fn unresolved_error() -> (r: String)
    ensures
        r@ == unresolved_message(),
{
    String::from_str("could not resolve app name from `psht.toml`. Run `psht setup`.")
}

/// A name, where it is a valid one.
pub open spec fn checked_name(name: Seq<char>) -> Result<Seq<char>, Seq<char>> {
    if valid_app_name(name) {
        Ok(name)
    } else {
        Err(invalid_name_message(name))
    }
}

fn check_name(name: &str) -> (r: Result<String, String>)
    ensures
        outcome(r) == checked_name(name@),
{
    match validate_app_name(name) {
        Ok(_) => Ok(name.to_owned()),
        Err(err) => Err(err),
    }
}

/// The app that a command is about: the one given, which must be the one that the
/// settings name, where they name one.
pub open spec fn command_app(configured: Option<Seq<char>>, explicit: Option<Seq<char>>) -> Result<
    Seq<char>,
    Seq<char>,
> {
    match explicit {
        Some(explicit) => match checked_name(explicit) {
            Err(err) => Err(err),
            Ok(_) => match configured {
                Some(configured) if configured != explicit => Err(
                    mismatch_message(explicit, configured),
                ),
                _ => Ok(explicit),
            },
        },
        None => match configured {
            Some(configured) => checked_name(configured),
            None => Err(unresolved_message()),
        },
    }
}

pub fn resolve_command_app(configured: &Option<String>, explicit: Option<&str>) -> (r: Result<
    String,
    String,
>)
    ensures
        outcome(r) == command_app(configured.deep_view(), explicit.deep_view()),
{
    if let Some(explicit) = explicit {
        if let Err(err) = validate_app_name(explicit) {
            return Err(err);
        }
        if let Some(configured) = configured {
            if !same(configured.as_str(), explicit) {
                return Err(mismatch_error(explicit, configured.as_str()));
            }
        }
        return Ok(explicit.to_owned());
    }
    match configured {
        Some(configured) => check_name(configured.as_str()),
        None => Err(unresolved_error()),
    }
}

/// A command is about one app alone: whatever is given and whatever the settings name,
/// the app is valid and contradicts neither.
pub proof fn commands_are_about_one_app(
    configured: Option<Seq<char>>,
    explicit: Option<Seq<char>>,
)
    ensures
        command_app(configured, explicit) matches Ok(app) ==> {
            &&& valid_app_name(app)
            &&& explicit is Some ==> explicit == Some(app)
            &&& configured is Some ==> configured == Some(app)
        },
{
}

/// The settings that a new project gets.
pub fn project_config_template(app: &str) -> (r: String)
    ensures
        r@ == "app = \""@ + app@
            + "\"\n# url = \"https://github.com/org/repo/releases/download/v1.2.3/my-app-linux-amd64.tar.gz\"\n# start = \"./my-app --port $PORT\"\n# bin = \"my-app\"\n# required_env = [\"DATABASE_URL\", \"JWT_SECRET\"]\n"@,
{
    let mut r = String::from_str("app = \"");
    r.append(app);
    r.append(
        "\"\n# url = \"https://github.com/org/repo/releases/download/v1.2.3/my-app-linux-amd64.tar.gz\"\n# start = \"./my-app --port $PORT\"\n# bin = \"my-app\"\n# required_env = [\"DATABASE_URL\", \"JWT_SECRET\"]\n",
    );
    r
}

pub open spec fn path_like(value: Seq<char>) -> bool {
    contains(value, "/"@) || starts_with(value, "."@)
}

/// Whether a text is meant as a path rather than as the name of an app.
pub fn looks_like_path(value: &str) -> (r: bool)
    ensures
        r == path_like(value@),
{
    has_part(value, "/") || has_prefix(value, ".")
}

/// How a project is deployed.
pub enum DeployMethod {
    /// The binary at the path, as the app.
    Binary { path: String, app: String },
    /// A push of the current revision, as the app.
    Git(String),
    /// The files of the directory, as the app.
    Tar(String),
}

/// The mathematical form of this.
pub enum MethodView {
    Binary { path: Seq<char>, app: Seq<char> },
    Git(Seq<char>),
    Tar(Seq<char>),
}

impl DeepView for DeployMethod {
    type V = MethodView;

    open spec fn deep_view(&self) -> MethodView {
        match self {
            DeployMethod::Binary { path, app } => MethodView::Binary { path: path@, app: app@ },
            DeployMethod::Git(app) => MethodView::Git(app@),
            DeployMethod::Tar(app) => MethodView::Tar(app@),
        }
    }
}

pub open spec fn name_or_unresolved(name: Option<Seq<char>>) -> Result<Seq<char>, Seq<char>> {
    match name {
        Some(name) => checked_name(name),
        None => Err(unresolved_message()),
    }
}

/// How a project without a release is deployed. `is_file` tells whether the value, taken
/// as a path, is a file; `is_git` whether the directory is under git.
pub open spec fn deploy_method(
    cwd: Seq<char>,
    value: Option<Seq<char>>,
    default_app: Option<Seq<char>>,
    is_file: bool,
    is_git: bool,
) -> Result<MethodView, Seq<char>> {
    let own = filled(default_app);
    match value {
        Some(value) => if path_like(value) {
            if !is_file {
                Err("binary not found: "@ + joined(cwd, value))
            } else {
                match name_or_unresolved(own) {
                    Ok(app) => Ok(MethodView::Binary { path: joined(cwd, value), app }),
                    Err(err) => Err(err),
                }
            }
        } else if own is Some && own != Some(value) {
            Err(mismatch_message(value, own->0))
        } else {
            match checked_name(value) {
                Ok(app) => Ok(MethodView::Tar(app)),
                Err(err) => Err(err),
            }
        },
        None => match name_or_unresolved(own) {
            Ok(app) => if is_git {
                Ok(MethodView::Git(app))
            } else {
                Ok(MethodView::Tar(app))
            },
            Err(err) => Err(err),
        },
    }
}

fn resolved_name(name: &Option<String>) -> (r: Result<String, String>)
    ensures
        outcome(r) == name_or_unresolved(name.deep_view()),
{
    match name {
        Some(name) => check_name(name.as_str()),
        None => Err(unresolved_error()),
    }
}

pub fn plan_app_or_binary(
    cwd: &str,
    value: Option<&str>,
    default_app: Option<&str>,
    is_file: bool,
    is_git: bool,
) -> (r: Result<DeployMethod, String>)
    ensures
        outcome(r) == deploy_method(
            cwd@,
            value.deep_view(),
            default_app.deep_view(),
            is_file,
            is_git,
        ),
{
    let own = normalize_opt(default_app);
    match value {
        Some(value) => {
            if looks_like_path(value) {
                let path = path_join(cwd, value);
                if !is_file {
                    let mut message = String::from_str("binary not found: ");
                    message.append(path.as_str());
                    return Err(message);
                }
                return match resolved_name(&own) {
                    Ok(app) => Ok(DeployMethod::Binary { path, app }),
                    Err(err) => Err(err),
                };
            }
            if let Some(own) = &own {
                if !same(own.as_str(), value) {
                    return Err(mismatch_error(value, own.as_str()));
                }
            }
            match check_name(value) {
                Ok(app) => Ok(DeployMethod::Tar(app)),
                Err(err) => Err(err),
            }
        },
        None => match resolved_name(&own) {
            Ok(app) => if is_git {
                Ok(DeployMethod::Git(app))
            } else {
                Ok(DeployMethod::Tar(app))
            },
            Err(err) => Err(err),
        },
    }
}

// ---------------------------------------------------------------------------
// Deploys by git
// ---------------------------------------------------------------------------

/// Whether a line of what `git push --porcelain` prints tells of a ref, and whether of
/// one that changed.
pub open spec fn is_ref_line(line: Seq<char>) -> bool {
    line.len() > 0 && (line[0] == '=' || line[0] == '*' || line[0] == '+' || line[0] == '-'
        || line[0] == ' ')
}

/// Whether a push changed a ref, where it tells of any.
pub open spec fn push_updated(porcelain: Seq<char>) -> Option<bool> {
    let all = lines(porcelain);
    if exists|i: int| 0 <= i < all.len() && is_ref_line(#[trigger] all[i]) {
        Some(exists|i: int| 0 <= i < all.len() && is_ref_line(#[trigger] all[i]) && all[i][0] != '=')
    } else {
        None
    }
}

pub fn parse_push_updated(porcelain: &str) -> (r: Option<bool>)
    ensures
        r == push_updated(porcelain@),
{
    let all = lines_of(porcelain);
    let ghost views = all.deep_view();
    let mut saw_ref_line = false;
    let mut updated = false;
    let mut i: usize = 0;
    while i < all.len()
        invariant
            i <= all@.len(),
            views == all.deep_view(),
            saw_ref_line == exists|j: int| 0 <= j < i && is_ref_line(#[trigger] views[j]),
            updated == exists|j: int|
                0 <= j < i && is_ref_line(#[trigger] views[j]) && views[j][0] != '=',
        decreases all.len() - i,
    {
        let chars = chars_of(all[i].as_str());
        assert(chars@ == views[i as int]);
        if chars.len() > 0 && (chars[0] == '=' || chars[0] == '*' || chars[0] == '+' || chars[0]
            == '-' || chars[0] == ' ') {
            assert(is_ref_line(views[i as int]));
            saw_ref_line = true;
            if chars[0] != '=' {
                updated = true;
            }
        }
        i = i + 1;
    }
    if saw_ref_line {
        Some(updated)
    } else {
        None
    }
}

/// What follows a push.
#[derive(Clone, Copy, PartialEq, Eq, Structural, Debug)]
pub enum AfterPush {
    /// The push itself starts the deploy.
    Done,
    /// The revision was there: deploy it all the same.
    Force,
    /// The revision was there: make sure that it is deployed.
    Verify,
    /// The push tells of no ref: make sure that the revision is deployed.
    Unclear,
}

/// What follows a push, by whether it changed a ref.
pub open spec fn spec_after_push(updated: Option<bool>, force: bool) -> AfterPush {
    if updated == Some(true) {
        AfterPush::Done
    } else if force {
        AfterPush::Force
    } else if updated == Some(false) {
        AfterPush::Verify
    } else {
        AfterPush::Unclear
    }
}

pub fn after_push(updated: Option<bool>, force: bool) -> (r: AfterPush)
    ensures
        r == spec_after_push(updated, force),
{
    match updated {
        Some(true) => AfterPush::Done,
        _ => if force {
            AfterPush::Force
        } else if updated.is_some() {
            AfterPush::Verify
        } else {
            AfterPush::Unclear
        },
    }
}

pub fn deploy_ssh_args(app: &str, ref_name: &str, sha: &str, force: bool) -> (r: Vec<String>)
    ensures
        r.deep_view() == seq!["deploy"@, app@, "--ref"@, ref_name@, "--sha"@, sha@] + (if force {
            seq!["--force"@]
        } else {
            Seq::empty()
        }),
{
    let mut r: Vec<String> = Vec::new();
    push_text(&mut r, String::from_str("deploy"));
    push_text(&mut r, app.to_owned());
    push_text(&mut r, String::from_str("--ref"));
    push_text(&mut r, ref_name.to_owned());
    push_text(&mut r, String::from_str("--sha"));
    push_text(&mut r, sha.to_owned());
    assert(r.deep_view() =~= seq!["deploy"@, app@, "--ref"@, ref_name@, "--sha"@, sha@]);
    if force {
        push_text(&mut r, String::from_str("--force"));
    }
    assert(r.deep_view() =~= seq!["deploy"@, app@, "--ref"@, ref_name@, "--sha"@, sha@] + (
    if force {
        seq!["--force"@]
    } else {
        Seq::empty()
    }));
    r
}

/// The arguments with which files are sent to the host.
pub fn push_ssh_args(app: &str, force: bool) -> (r: Vec<String>)
    ensures
        r.deep_view() == if force {
            seq!["push"@, "--force"@, app@]
        } else {
            seq!["push"@, app@]
        },
{
    let mut r: Vec<String> = Vec::new();
    push_text(&mut r, String::from_str("push"));
    if force {
        push_text(&mut r, String::from_str("--force"));
    }
    push_text(&mut r, app.to_owned());
    assert(force ==> r.deep_view() =~= seq!["push"@, "--force"@, app@]);
    assert(!force ==> r.deep_view() =~= seq!["push"@, app@]);
    r
}

/// The address of the app's repository on the host.
pub fn git_remote(host: &str, app: &str) -> (r: String)
    ensures
        r@ == "psht@"@ + host@ + ":"@ + app@,
{
    let mut r = String::from_str("psht@");
    r.append(host);
    r.append(":");
    r.append(app);
    r
}

/// What to do about the remote of a repository.
#[derive(Clone, Copy, PartialEq, Eq, Structural, Debug)]
pub enum RemoteAction {
    Keep,
    SetUrl,
    Add,
}

/// What is done about the remote of a repository, by its address.
pub open spec fn spec_remote_action(current: Option<Seq<char>>, expected: Seq<char>) -> RemoteAction {
    match current {
        Some(current) => if trim(current) == expected {
            RemoteAction::Keep
        } else {
            RemoteAction::SetUrl
        },
        None => RemoteAction::Add,
    }
}

pub fn remote_action(current: Option<&str>, expected: &str) -> (r: RemoteAction)
    ensures
        r == spec_remote_action(current.deep_view(), expected@),
{
    match current {
        Some(current) => if same(trimmed(current), expected) {
            RemoteAction::Keep
        } else {
            RemoteAction::SetUrl
        },
        None => RemoteAction::Add,
    }
}

/// The ref to deploy: the branch that is checked out, or else the revision itself.
pub fn current_git_ref(symbolic_ref: Option<&str>, sha: &str) -> (r: String)
    ensures
        r@ == match filled(symbolic_ref.deep_view()) {
            Some(name) => name,
            None => sha@,
        },
{
    match normalize_opt(symbolic_ref) {
        Some(name) => name,
        None => sha.to_owned(),
    }
}

// ---------------------------------------------------------------------------
// Deploys of a release
// ---------------------------------------------------------------------------

pub fn has_release_settings(cfg: &ProjectConfig) -> (r: bool)
    ensures
        r == (cfg.url is Some || cfg.start is Some || cfg.app is Some || cfg.bin is Some),
{
    cfg.url.is_some() || cfg.start.is_some() || cfg.app.is_some() || cfg.bin.is_some()
}

/// The settings that are given on the command line.
pub fn cli_release_settings(
    url: Option<&str>,
    start: Option<&str>,
    app: Option<&str>,
    bin: Option<&str>,
) -> (r: ProjectConfig)
    ensures
        r.deep_view() == (ProjectView {
            url: filled(url.deep_view()),
            start: filled(start.deep_view()),
            app: filled(app.deep_view()),
            bin: filled(bin.deep_view()),
            ..bare_project()
        }),
{
    ProjectConfig {
        url: normalize_opt(url),
        start: normalize_opt(start),
        app: normalize_opt(app),
        bin: normalize_opt(bin),
        preinstall: None,
        postinstall: None,
        apt_packages: None,
        required_env: None,
    }
}

/// Whether a setting is given twice, and differently.
pub open spec fn conflicts(file: Option<Seq<char>>, cli: Option<Seq<char>>) -> bool {
    match (file, cli) {
        (Some(file), Some(cli)) => trim(file) != trim(cli),
        _ => false,
    }
}

fn in_conflict(file: &Option<String>, cli: &Option<String>) -> (r: bool)
    ensures
        r == conflicts(file.deep_view(), cli.deep_view()),
{
    match (file, cli) {
        (Some(file), Some(cli)) => !same(trimmed(file.as_str()), trimmed(cli.as_str())),
        _ => false,
    }
}

pub open spec fn key_if(key: Seq<char>, b: bool) -> Seq<Seq<char>> {
    if b {
        seq![key]
    } else {
        Seq::empty()
    }
}

/// The settings that are given twice, and differently.
pub open spec fn conflict_keys(file: ProjectView, cli: ProjectView) -> Seq<Seq<char>> {
    key_if("start"@, conflicts(file.start, cli.start)) + key_if(
        "app"@,
        conflicts(file.app, cli.app),
    ) + key_if("bin"@, conflicts(file.bin, cli.bin))
}

pub open spec fn conflict_verdict(file: ProjectView, cli: ProjectView) -> Result<(), Seq<char>> {
    if conflict_keys(file, cli).len() == 0 {
        Ok(())
    } else {
        Err(
            "conflicting settings between psht.toml and CLI for keys: "@ + join(
                conflict_keys(file, cli),
                ", "@,
            ),
        )
    }
}

fn push_key(keys: &mut Vec<String>, key: &str, b: bool)
    ensures
        final(keys).deep_view() == old(keys).deep_view() + key_if(key@, b),
{
    if b {
        push_text(keys, key.to_owned());
        assert(keys.deep_view() =~= old(keys).deep_view() + seq![key@]);
    } else {
        assert(keys.deep_view() =~= old(keys).deep_view() + Seq::empty());
    }
}

pub fn ensure_no_release_conflicts(file_cfg: &ProjectConfig, cli_cfg: &ProjectConfig) -> (r: Result<
    (),
    String,
>)
    ensures
        outcome(r) == conflict_verdict(file_cfg.deep_view(), cli_cfg.deep_view()),
{
    let mut keys: Vec<String> = Vec::new();
    assert(keys.deep_view() =~= Seq::empty());
    push_key(&mut keys, "start", in_conflict(&file_cfg.start, &cli_cfg.start));
    push_key(&mut keys, "app", in_conflict(&file_cfg.app, &cli_cfg.app));
    push_key(&mut keys, "bin", in_conflict(&file_cfg.bin, &cli_cfg.bin));
    assert(keys.deep_view() =~= conflict_keys(file_cfg.deep_view(), cli_cfg.deep_view()));
    if keys.is_empty() {
        return Ok(());
    }
    let mut message = String::from_str("conflicting settings between psht.toml and CLI for keys: ");
    let listed = join_with(&keys, ", ");
    message.append(listed.as_str());
    Err(message)
}

/// The settings once an address that is given on the command line has its say. It may
/// name another release of the same project alone.
pub open spec fn overridden(file: ProjectView, cli: ProjectView) -> Result<
    ProjectView,
    Seq<char>,
> {
    match (file.url, cli.url) {
        (Some(own), Some(given)) => if trim(own) == trim(given) {
            Ok(file)
        } else if same_project(trim(own), trim(given)) {
            Ok(ProjectView { url: Some(trim(given)), ..file })
        } else {
            Err(
                "release URL override is allowed only for same-project version bumps; edit psht.toml to change projects"@,
            )
        },
        _ => Ok(file),
    }
}

/// The settings once an address that is given on the command line has its say, and
/// whether they changed.
pub fn reconcile_release_url_override(
    file_cfg: &ProjectConfig,
    cli_cfg: &ProjectConfig,
) -> (r: Result<(ProjectConfig, bool), String>)
    ensures
        match overridden(file_cfg.deep_view(), cli_cfg.deep_view()) {
            Ok(merged) => r is Ok && r->Ok_0.deep_view().0 == merged && r->Ok_0.1 == conflicts(
                file_cfg.deep_view().url,
                cli_cfg.deep_view().url,
            ),
            Err(err) => r matches Err(message) && message@ == err,
        },
{
    let mut merged = copy_project(file_cfg);
    if let (Some(own), Some(given)) = (&file_cfg.url, &cli_cfg.url) {
        let own = trimmed(own.as_str());
        let given = trimmed(given.as_str());
        if !same(own, given) {
            if !is_same_project_release_url(own, given) {
                return Err(
                    String::from_str(
                        "release URL override is allowed only for same-project version bumps; edit psht.toml to change projects",
                    ),
                );
            }
            merged.url = Some(given.to_owned());
            return Ok((merged, true));
        }
    }
    Ok((merged, false))
}

/// The address may go from one release of a project to another, never to another
/// project.
pub proof fn overrides_stay_in_the_project(file: ProjectView, cli: ProjectView)
    requires
        file.url is Some,
    ensures
        overridden(file, cli) matches Ok(merged) ==> {
            &&& merged.url is Some
            &&& trim(merged.url->0) == trim(file.url->0) || same_project(
                trim(file.url->0),
                merged.url->0,
            )
            &&& ProjectView { url: file.url, ..merged } == file
        },
{
}

/// What is deployed of a release.
pub struct ReleasePlan {
    pub url: String,
    pub start: String,
    pub app: String,
}

/// The mathematical form of this.
#[verifier::ext_equal]
pub struct PlanView {
    pub url: Seq<char>,
    pub start: Seq<char>,
    pub app: Seq<char>,
}

impl DeepView for ReleasePlan {
    type V = PlanView;

    open spec fn deep_view(&self) -> PlanView {
        PlanView { url: self.url@, start: self.start@, app: self.app@ }
    }
}

/// The app of a release: the one that is set, or that of the address.
pub open spec fn release_app(app: Option<Seq<char>>, url: Seq<char>) -> Result<
    Seq<char>,
    Seq<char>,
> {
    match app {
        Some(app) => checked_name(app),
        None => derived_name(url),
    }
}

fn app_of_release(app: &Option<String>, url: &str) -> (r: Result<String, String>)
    ensures
        outcome(r) == release_app(app.deep_view(), url@),
{
    match app {
        Some(app) => check_name(app.as_str()),
        None => derive_app_name_from_url(url),
    }
}

pub open spec fn release_plan(cfg: ProjectView) -> Result<PlanView, Seq<char>> {
    match filled(cfg.url) {
        None => Err("psht.toml: missing `url`"@),
        Some(url) => match filled(cfg.start) {
            None => Err("psht.toml: missing `start`"@),
            Some(start) => match release_app(filled(cfg.app), url) {
                Ok(app) => Ok(PlanView { url, start, app }),
                Err(err) => Err(err),
            },
        },
    }
}

/// What is deployed of the release that the settings name.
pub fn plan_release(cfg: &ProjectConfig) -> (r: Result<ReleasePlan, String>)
    ensures
        outcome(r) == release_plan(cfg.deep_view()),
{
    let url = match normalize_owned(&cfg.url) {
        Some(url) => url,
        None => {
            return Err(String::from_str("psht.toml: missing `url`"));
        },
    };
    let start = match normalize_owned(&cfg.start) {
        Some(start) => start,
        None => {
            return Err(String::from_str("psht.toml: missing `start`"));
        },
    };
    match app_of_release(&normalize_owned(&cfg.app), url.as_str()) {
        Ok(app) => Ok(ReleasePlan { url, start, app }),
        Err(err) => Err(err),
    }
}

/// The settings that a first deploy of a release leaves.
pub open spec fn bootstrapped(url: Seq<char>, start: Seq<char>, defaults: ProjectView) -> Result<
    ProjectView,
    Seq<char>,
> {
    let name = match defaults.app {
        Some(app) => checked_name(trim(app)),
        None => derived_name(url),
    };
    match name {
        Ok(app) => Ok(
            ProjectView { url: Some(url), start: Some(start), app: Some(app), ..defaults },
        ),
        Err(err) => Err(err),
    }
}

pub fn bootstrap_settings(url: &str, start: &str, defaults: &ProjectConfig) -> (r: Result<
    ProjectConfig,
    String,
>)
    ensures
        outcome(r) == bootstrapped(url@, start@, defaults.deep_view()),
{
    let name = match &defaults.app {
        Some(app) => check_name(trimmed(app.as_str())),
        None => derive_app_name_from_url(url),
    };
    match name {
        Ok(app) => {
            let mut cfg = copy_project(defaults);
            cfg.url = Some(url.to_owned());
            cfg.start = Some(start.to_owned());
            cfg.app = Some(app);
            Ok(cfg)
        },
        Err(err) => Err(err),
    }
}

/// What a deploy of a project comes down to.
pub enum ProjectDeploy {
    /// A release by these settings.
    Release(ProjectConfig),
    /// An app or a binary, by the settings of the project where it has some.
    AppOrBinary,
    /// A release whose settings are asked for.
    Bootstrap,
}

/// The mathematical form of this.
pub enum ProjectDeployView {
    Release(ProjectView),
    AppOrBinary,
    Bootstrap,
}

impl DeepView for ProjectDeploy {
    type V = ProjectDeployView;

    open spec fn deep_view(&self) -> ProjectDeployView {
        match self {
            ProjectDeploy::Release(cfg) => ProjectDeployView::Release(cfg.deep_view()),
            ProjectDeploy::AppOrBinary => ProjectDeployView::AppOrBinary,
            ProjectDeploy::Bootstrap => ProjectDeployView::Bootstrap,
        }
    }
}

pub open spec fn has_any_setting(cli: ProjectView) -> bool {
    cli.url is Some || cli.start is Some || cli.app is Some || cli.bin is Some
}

/// The deploy of a project by the settings that it keeps and those that are given.
pub open spec fn project_deploy(
    file: Option<ProjectView>,
    cli: ProjectView,
    has_target: bool,
) -> Result<ProjectDeployView, Seq<char>> {
    match file {
        Some(file) => if file.url is Some {
            match overridden(file, cli) {
                Err(err) => Err(err),
                Ok(merged) => match conflict_verdict(merged, cli) {
                    Err(err) => Err(err),
                    Ok(_) => if has_target {
                        Err(
                            "positional deploy target cannot be used when psht.toml has `url`; set `app` in psht.toml instead"@,
                        )
                    } else {
                        Ok(ProjectDeployView::Release(merged))
                    },
                },
            }
        } else if has_any_setting(cli) {
            Err(
                "psht.toml exists without release settings. Edit psht.toml to add `url` and `start`."@,
            )
        } else {
            Ok(ProjectDeployView::AppOrBinary)
        },
        None => if has_any_setting(cli) {
            Ok(ProjectDeployView::Bootstrap)
        } else if has_target {
            Ok(ProjectDeployView::AppOrBinary)
        } else {
            Err(unresolved_message())
        },
    }
}

/// The settings to keep before the deploy, where an address that is given changed them.
pub open spec fn settings_to_keep(file: Option<ProjectView>, cli: ProjectView) -> Option<
    ProjectView,
> {
    match file {
        Some(file) => if conflicts(file.url, cli.url) {
            match overridden(file, cli) {
                Ok(merged) => Some(merged),
                Err(_) => None,
            }
        } else {
            None
        },
        None => None,
    }
}

/// The settings to keep, if they changed, and then the deploy. A change is kept though
/// the deploy is refused.
pub fn plan_project_deploy(
    file_cfg: Option<&ProjectConfig>,
    cli_cfg: &ProjectConfig,
    has_target: bool,
) -> (r: (Option<ProjectConfig>, Result<ProjectDeploy, String>))
    ensures
        r.0.deep_view() == settings_to_keep(file_cfg.deep_view(), cli_cfg.deep_view()),
        outcome(r.1) == project_deploy(file_cfg.deep_view(), cli_cfg.deep_view(), has_target),
{
    match file_cfg {
        Some(file) => {
            if file.url.is_some() {
                let (merged, changed) = match reconcile_release_url_override(file, cli_cfg) {
                    Ok(merged) => merged,
                    Err(err) => {
                        return (None, Err(err));
                    },
                };
                let keep = if changed {
                    Some(copy_project(&merged))
                } else {
                    None
                };
                if let Err(err) = ensure_no_release_conflicts(&merged, cli_cfg) {
                    return (keep, Err(err));
                }
                if has_target {
                    return (
                        keep,
                        Err(
                            String::from_str(
                                "positional deploy target cannot be used when psht.toml has `url`; set `app` in psht.toml instead",
                            ),
                        ),
                    );
                }
                return (keep, Ok(ProjectDeploy::Release(merged)));
            }
            if has_release_settings(cli_cfg) {
                return (
                    None,
                    Err(
                        String::from_str(
                            "psht.toml exists without release settings. Edit psht.toml to add `url` and `start`.",
                        ),
                    ),
                );
            }
            (None, Ok(ProjectDeploy::AppOrBinary))
        },
        None => {
            if has_release_settings(cli_cfg) {
                return (None, Ok(ProjectDeploy::Bootstrap));
            }
            if has_target {
                return (None, Ok(ProjectDeploy::AppOrBinary));
            }
            (None, Err(unresolved_error()))
        },
    }
}

// ---------------------------------------------------------------------------
// The binary in an archive
// ---------------------------------------------------------------------------

/// The path of the binary that is named, inside the directory of the archive.
pub open spec fn named_binary(dir: Seq<char>, bin: Seq<char>) -> Result<Seq<char>, Seq<char>> {
    if trim(bin).len() == 0 {
        Err("`bin` cannot be empty"@)
    } else {
        inside(dir, trim(bin))
    }
}

pub fn binary_named(dir: &str, bin: &str) -> (r: Result<String, String>)
    ensures
        outcome(r) == named_binary(dir@, bin@),
{
    let bin = trimmed(bin);
    if bin.is_empty() {
        return Err(String::from_str("`bin` cannot be empty"));
    }
    safe_join_relative(dir, bin)
}

/// The error where the binary that is named is not in the archive.
pub fn binary_missing_error(bin: &str) -> (r: String)
    ensures
        r@ == "`bin` target not found in archive: "@ + trim(bin@),
{
    let mut r = String::from_str("`bin` target not found in archive: ");
    r.append(trimmed(bin));
    r
}

/// How many files can be run.
pub open spec fn runnable(files: Seq<(Seq<char>, bool)>) -> Seq<(Seq<char>, bool)> {
    files.filter(|file: (Seq<char>, bool)| file.1)
}

/// The binary of an archive, by its files and whether each can be run: the one file that
/// can, or the one file.
pub open spec fn sole_binary(files: Seq<(Seq<char>, bool)>) -> Result<Seq<char>, Seq<char>> {
    if files.len() == 0 {
        Err("archive did not contain files"@)
    } else if runnable(files).len() == 1 {
        Ok(runnable(files)[0].0)
    } else if runnable(files).len() == 0 && files.len() == 1 {
        Ok(files[0].0)
    } else if runnable(files).len() == 0 {
        Err("no executable found in archive; set `bin` in psht.toml to select one file"@)
    } else {
        Err("multiple executable files found; set `bin` in psht.toml to choose one"@)
    }
}

pub fn binary_among(files: &Vec<(String, bool)>) -> (r: Result<String, String>)
    ensures
        outcome(r) == sole_binary(files.deep_view()),
{
    if files.is_empty() {
        return Err(String::from_str("archive did not contain files"));
    }
    let ghost all = files.deep_view();
    let ghost runs = |file: (Seq<char>, bool)| file.1;
    let mut found: Vec<String> = Vec::new();
    let mut i: usize = 0;
    proof {
        reveal(Seq::filter);
        assert(all.take(0).filter(runs) =~= Seq::empty());
    }
    while i < files.len()
        invariant
            i <= files@.len(),
            all == files.deep_view(),
            runs == (|file: (Seq<char>, bool)| file.1),
            found@.len() == all.take(i as int).filter(runs).len(),
            forall|j: int|
                0 <= j < found@.len() ==> (#[trigger] found@[j])@ == all.take(i as int).filter(
                    runs,
                )[j].0,
        decreases files.len() - i,
    {
        proof {
            assert(all[i as int] == (files@[i as int].0@, files@[i as int].1));
            assert(all.take(i + 1).drop_last() =~= all.take(i as int));
            assert(all.take(i + 1).last() == all[i as int]);
            reveal(Seq::filter);
        }
        if files[i].1 {
            found.push(files[i].0.clone());
        }
        i = i + 1;
    }
    assert(all.take(i as int) =~= all);
    if found.len() == 1 {
        return Ok(found[0].clone());
    }
    if found.is_empty() && files.len() == 1 {
        assert(all[0].0 == files@[0].0@);
        return Ok(files[0].0.clone());
    }
    if found.is_empty() {
        return Err(
            String::from_str(
                "no executable found in archive; set `bin` in psht.toml to select one file",
            ),
        );
    }
    Err(String::from_str("multiple executable files found; set `bin` in psht.toml to choose one"))
}

// ---------------------------------------------------------------------------
// What a deploy comes down to
// ---------------------------------------------------------------------------

/// Whether a setting says something: it is there and holds more than white space.
pub open spec fn says_something(value: Option<Seq<char>>) -> bool {
    value is Some && trim(value->0).len() > 0
}

/// Without a target a project is deployed under the name that it is set to have, which
/// must be a valid one: by git exactly where it is under git, and else from its files.
pub proof fn projects_are_deployed_by_git_where_they_are_under_git(
    cwd: Seq<char>,
    default_app: Option<Seq<char>>,
    is_file: bool,
    is_git: bool,
)
    ensures
        ({
            let plan = deploy_method(cwd, None, default_app, is_file, is_git);
            &&& plan is Ok <==> says_something(default_app) && valid_app_name(
                trim(default_app->0),
            )
            &&& plan is Ok && is_git ==> plan->Ok_0 == MethodView::Git(trim(default_app->0))
            &&& plan is Ok && !is_git ==> plan->Ok_0 == MethodView::Tar(trim(default_app->0))
        }),
{
}

/// A target that is no path is the name of an app. Its files are deployed under this name,
/// under git or not, where it is valid and not another than the project is set to have.
pub proof fn named_apps_are_deployed_from_their_files(
    cwd: Seq<char>,
    value: Seq<char>,
    default_app: Option<Seq<char>>,
    is_file: bool,
    is_git: bool,
)
    requires
        !(exists|i: int| 0 <= i < value.len() && #[trigger] value[i] == '/'),
        value.len() == 0 || value[0] != '.',
    ensures
        ({
            let plan = deploy_method(cwd, Some(value), default_app, is_file, is_git);
            &&& plan is Ok <==> valid_app_name(value) && (says_something(default_app) ==> trim(
                default_app->0,
            ) == value)
            &&& plan is Ok ==> plan->Ok_0 == MethodView::Tar(value)
        }),
{
    paths_have_a_slash_or_start_with_a_dot(value);
}

/// A target that is a path, which has a slash in it or starts with a dot, is a binary. It
/// is deployed under the name that the project is set to have, where it is a file.
pub proof fn paths_are_deployed_as_binaries(
    cwd: Seq<char>,
    value: Seq<char>,
    default_app: Option<Seq<char>>,
    is_file: bool,
    is_git: bool,
)
    requires
        (exists|i: int| 0 <= i < value.len() && #[trigger] value[i] == '/') || value.len() > 0
            && value[0] == '.',
    ensures
        ({
            let plan = deploy_method(cwd, Some(value), default_app, is_file, is_git);
            &&& plan is Ok <==> is_file && says_something(default_app) && valid_app_name(
                trim(default_app->0),
            )
            &&& plan is Ok ==> plan->Ok_0 == (MethodView::Binary {
                path: joined(cwd, value),
                app: trim(default_app->0),
            })
        }),
{
    paths_have_a_slash_or_start_with_a_dot(value);
}

proof fn paths_have_a_slash_or_start_with_a_dot(value: Seq<char>)
    ensures
        path_like(value) <==> (exists|i: int| 0 <= i < value.len() && #[trigger] value[i] == '/')
            || value.len() > 0 && value[0] == '.',
{
    reveal_strlit("/");
    reveal_strlit(".");
    assert("/"@ =~= seq!['/']);
    assert("."@ =~= seq!['.']);
    if contains(value, "/"@) {
        let i = choose|i: int| occurs_at(value, "/"@, i);
        assert(value.subrange(i, i + 1)[0] == '/');
    }
    if starts_with(value, "."@) {
        assert(value.take(1)[0] == '.');
    }
    if exists|i: int| 0 <= i < value.len() && #[trigger] value[i] == '/' {
        let i = choose|i: int| 0 <= i < value.len() && #[trigger] value[i] == '/';
        assert(value.subrange(i, i + 1) =~= "/"@);
        assert(occurs_at(value, "/"@, i));
    }
    if value.len() > 0 && value[0] == '.' {
        assert(value.take(1) =~= "."@);
    }
}

/// Where a command names an app or the settings do, and what they name is valid and no
/// contradiction, the command is about it; else it is about none.
pub proof fn commands_find_their_app(configured: Option<Seq<char>>, explicit: Option<Seq<char>>)
    ensures
        command_app(configured, explicit) is Ok <==> {
            &&& explicit is Some || configured is Some
            &&& explicit is Some ==> valid_app_name(explicit->0)
            &&& configured is Some ==> valid_app_name(configured->0) || explicit is Some
            &&& explicit is Some && configured is Some ==> explicit == configured
        },
{
}

/// The settings of a project and of a deploy of it go together where each of them that is
/// given twice is the same twice, white space at its ends aside; the address is not among
/// them.
pub proof fn settings_go_together_where_they_agree(file: ProjectView, cli: ProjectView)
    ensures
        conflict_verdict(file, cli) is Ok <==> {
            &&& file.start is Some && cli.start is Some ==> trim(file.start->0) == trim(
                cli.start->0,
            )
            &&& file.app is Some && cli.app is Some ==> trim(file.app->0) == trim(cli.app->0)
            &&& file.bin is Some && cli.bin is Some ==> trim(file.bin->0) == trim(cli.bin->0)
        },
{
}

/// A project whose settings have an address is deployed as a release: by the settings, with
/// the address that is given where there is one. It is refused where a target is given, a
/// setting is contradicted, or the address is one of another project.
pub proof fn projects_with_an_address_are_releases(
    file: ProjectView,
    cli: ProjectView,
    has_target: bool,
)
    requires
        file.url is Some,
    ensures
        ({
            let plan = project_deploy(Some(file), cli, has_target);
            let url = if cli.url is Some && trim(cli.url->0) != trim(file.url->0) {
                Some(trim(cli.url->0))
            } else {
                file.url
            };
            &&& plan is Ok <==> {
                &&& !has_target
                &&& file.start is Some && cli.start is Some ==> trim(file.start->0) == trim(
                    cli.start->0,
                )
                &&& file.app is Some && cli.app is Some ==> trim(file.app->0) == trim(cli.app->0)
                &&& file.bin is Some && cli.bin is Some ==> trim(file.bin->0) == trim(cli.bin->0)
                &&& cli.url is Some ==> trim(cli.url->0) == trim(file.url->0) || same_project(
                    trim(file.url->0),
                    trim(cli.url->0),
                )
            }
            &&& plan is Ok ==> plan->Ok_0 == ProjectDeployView::Release(
                (ProjectView { url, ..file }),
            )
        }),
{
    if let Ok(merged) = overridden(file, cli) {
        settings_go_together_where_they_agree(merged, cli);
    }
}

/// A project without an address is deployed as an app or a binary, unless settings of a
/// release are given: these are refused where the project has settings, and else they are
/// the start of some. Without settings of either kind there must be a target.
pub proof fn projects_without_an_address_are_no_releases(
    file: Option<ProjectView>,
    cli: ProjectView,
    has_target: bool,
)
    requires
        file is Some ==> file->0.url is None,
    ensures
        ({
            let plan = project_deploy(file, cli, has_target);
            let given = cli.url is Some || cli.start is Some || cli.app is Some || cli.bin is Some;
            &&& plan is Err <==> (file is Some && given) || (file is None && !given
                && !has_target)
            &&& plan is Ok && file is None && given ==> plan->Ok_0 == ProjectDeployView::Bootstrap
            &&& plan is Ok && !given ==> plan->Ok_0 == ProjectDeployView::AppOrBinary
        }),
{
}

/// The settings that are kept before a deploy are those of the project with another
/// release of it, and only where such a one is given.
pub proof fn settings_change_for_another_release_alone(
    file: Option<ProjectView>,
    cli: ProjectView,
)
    ensures
        settings_to_keep(file, cli) is Some <==> {
            &&& file is Some && file->0.url is Some && cli.url is Some
            &&& trim(file->0.url->0) != trim(cli.url->0)
            &&& same_project(trim(file->0.url->0), trim(cli.url->0))
        },
        settings_to_keep(file, cli) matches Some(kept) ==> kept == (ProjectView {
            url: Some(trim(cli.url->0)),
            ..file->0
        }),
{
}

/// A release has an address and a start command, and the name that it is set to have, or
/// else that of its address.
pub proof fn releases_have_an_address_and_a_start(cfg: ProjectView)
    ensures
        ({
            let plan = release_plan(cfg);
            &&& plan is Ok <==> {
                &&& says_something(cfg.url)
                &&& says_something(cfg.start)
                &&& says_something(cfg.app) ==> valid_app_name(trim(cfg.app->0))
                &&& !says_something(cfg.app) ==> derived_name(trim(cfg.url->0)) is Ok
            }
            &&& plan is Ok ==> {
                &&& plan->Ok_0.url == trim(cfg.url->0)
                &&& plan->Ok_0.start == trim(cfg.start->0)
                &&& says_something(cfg.app) ==> plan->Ok_0.app == trim(cfg.app->0)
                &&& !says_something(cfg.app) ==> plan->Ok_0.app == derived_name(
                    trim(cfg.url->0),
                )->Ok_0
            }
        }),
{
}

/// A first deploy of a release leaves settings from which the same release is deployed
/// again.
pub proof fn first_releases_are_kept(url: Seq<char>, start: Seq<char>, defaults: ProjectView)
    ensures
        bootstrapped(url, start, defaults) matches Ok(cfg) ==> {
            &&& cfg.url == Some(url)
            &&& cfg.start == Some(start)
            &&& cfg.app is Some
            &&& defaults.app is Some ==> cfg.app->0 == trim(defaults.app->0) && valid_app_name(
                cfg.app->0,
            )
            &&& defaults.app is None ==> derived_name(url) == Ok::<Seq<char>, Seq<char>>(
                cfg.app->0,
            )
            &&& cfg == (ProjectView { url: cfg.url, start: cfg.start, app: cfg.app, ..defaults })
        },
        bootstrapped(url, start, defaults) is Err <==> {
            ||| defaults.app is Some && !valid_app_name(trim(defaults.app->0))
            ||| defaults.app is None && derived_name(url) is Err
        },
{
}

/// Settings that go along with a binary are those that say something, and go only where
/// there are some.
pub proof fn settings_go_along_where_they_say_something(
    preinstall: Option<Seq<char>>,
    postinstall: Option<Seq<char>>,
    apt_packages: Option<Seq<Seq<char>>>,
    required_env: Option<Seq<Seq<char>>>,
)
    ensures
        ({
            let hooks = hooks_of(preinstall, postinstall, apt_packages, required_env);
            let packages = apt_packages is Some && nonempty_trimmed(apt_packages->0).len() > 0;
            let required = required_env is Some && nonempty_trimmed(required_env->0).len() > 0;
            &&& hooks is Some <==> says_something(preinstall) || says_something(postinstall)
                || packages || required
            &&& hooks is Some ==> {
                let cfg = hooks->0;
                &&& cfg.url is None && cfg.start is None && cfg.app is None && cfg.bin is None
                &&& cfg.preinstall is Some <==> says_something(preinstall)
                &&& cfg.preinstall is Some ==> cfg.preinstall->0 == trim(preinstall->0)
                &&& cfg.postinstall is Some <==> says_something(postinstall)
                &&& cfg.postinstall is Some ==> cfg.postinstall->0 == trim(postinstall->0)
                &&& cfg.apt_packages is Some <==> packages
                &&& packages ==> cfg.apt_packages->0 == first_occurrences(
                    nonempty_trimmed(apt_packages->0),
                )
                &&& cfg.required_env is Some <==> required
                &&& required ==> cfg.required_env->0 == first_occurrences(
                    nonempty_trimmed(required_env->0),
                )
            }
        }),
{
}

/// A project is deployed to the host that is kept for it, and else to the default one; it
/// has none exactly where there is neither.
pub proof fn projects_go_to_their_own_host_first(
    host: Option<Seq<char>>,
    projects: Map<Seq<char>, Seq<char>>,
    cwd: Seq<char>,
    hint: Seq<char>,
)
    ensures
        host_of(host, projects, cwd, hint) is Err <==> host is None && !projects.dom().contains(
            cwd,
        ),
        projects.dom().contains(cwd) ==> host_of(host, projects, cwd, hint) == Ok::<
            Seq<char>,
            Seq<char>,
        >(projects[cwd]),
        !projects.dom().contains(cwd) && host is Some ==> host_of(host, projects, cwd, hint)
            == Ok::<Seq<char>, Seq<char>>(host->0),
{
}

/// The binary of an archive is a file of it. It is the one that can be run, or the only
/// file there is; where there are several of either, or no file, there is none.
pub proof fn archives_have_one_binary(files: Seq<(Seq<char>, bool)>)
    ensures
        ({
            match sole_binary(files) {
                Ok(path) => exists|i: int|
                    0 <= i < files.len() && (#[trigger] files[i]).0 == path && (files[i].1
                        || files.len() == 1),
                Err(_) => files.len() != 1,
            }
        }),
        forall|i: int, j: int|
            0 <= i < j < files.len() && (#[trigger] files[i]).1 && (#[trigger] files[j]).1
                ==> sole_binary(files) is Err,
        forall|i: int|
            0 <= i < files.len() && (#[trigger] files[i]).1 && (forall|j: int|
                0 <= j < files.len() && j != i ==> !(#[trigger] files[j]).1) ==> sole_binary(files)
                == Ok::<Seq<char>, Seq<char>>(files[i].0),
{
    let runs = |file: (Seq<char>, bool)| file.1;
    let found = files.filter(runs);
    if files.len() == 1 {
        reveal(Seq::filter);
        assert(files.drop_last() =~= Seq::empty());
    }
    if found.len() == 1 {
        files.lemma_filter_contains_rev(runs, found[0]);
        let i = choose|i: int| 0 <= i < files.len() && files[i] == found[0];
        assert(files[i].0 == found[0].0);
    }
    assert forall|i: int, j: int|
        0 <= i < j < files.len() && (#[trigger] files[i]).1 && (#[trigger] files[j]).1 implies found.len()
        >= 2 by {
        filtered_pairs_stay(files, i, j);
    }
    assert forall|i: int|
        0 <= i < files.len() && (#[trigger] files[i]).1 && (forall|j: int|
            0 <= j < files.len() && j != i ==> !(#[trigger] files[j]).1) implies found == seq![
        files[i],
    ] by {
        sole_items_stay(files, i);
    }
}

proof fn filtered_pairs_stay(files: Seq<(Seq<char>, bool)>, i: int, j: int)
    requires
        0 <= i < j < files.len(),
        files[i].1,
        files[j].1,
    ensures
        files.filter(|file: (Seq<char>, bool)| file.1).len() >= 2,
    decreases files.len(),
{
    reveal(Seq::filter);
    let runs = |file: (Seq<char>, bool)| file.1;
    let head = files.drop_last();
    if j < head.len() {
        filtered_pairs_stay(head, i, j);
    } else {
        assert(head[i] == files[i]);
        head.lemma_filter_contains(runs, i);
        assert(head.filter(runs).len() > 0);
    }
}

proof fn sole_items_stay(files: Seq<(Seq<char>, bool)>, i: int)
    requires
        0 <= i < files.len(),
        files[i].1,
        forall|j: int| 0 <= j < files.len() && j != i ==> !(#[trigger] files[j]).1,
    ensures
        files.filter(|file: (Seq<char>, bool)| file.1) == seq![files[i]],
    decreases files.len(),
{
    reveal(Seq::filter);
    let runs = |file: (Seq<char>, bool)| file.1;
    let head = files.drop_last();
    if i < head.len() {
        assert forall|j: int| 0 <= j < head.len() && j != i implies !(#[trigger] head[j]).1 by {
            assert(files[j] == head[j]);
        }
        assert(head[i] == files[i]);
        sole_items_stay(head, i);
        assert(!files.last().1);
    } else {
        assert forall|k: int| 0 <= k < head.len() implies !runs(#[trigger] head[k]) by {
            assert(files[k] == head[k]);
        }
        nothing_to_keep(head);
        assert(files.filter(runs) =~= seq![files[i]]);
    }
}

proof fn nothing_to_keep(files: Seq<(Seq<char>, bool)>)
    requires
        forall|k: int| 0 <= k < files.len() ==> !(#[trigger] files[k]).1,
    ensures
        files.filter(|file: (Seq<char>, bool)| file.1) == Seq::<(Seq<char>, bool)>::empty(),
    decreases files.len(),
{
    reveal(Seq::filter);
    if files.len() > 0 {
        let head = files.drop_last();
        assert forall|k: int| 0 <= k < head.len() implies !(#[trigger] head[k]).1 by {
            assert(files[k] == head[k]);
        }
        nothing_to_keep(head);
        assert(!files[files.len() - 1].1);
    }
}

/// The settings of the workstation are read where the host, if there is one, is a text and
/// the hosts of the projects, if there are any, are a table of texts; else there are none.
pub proof fn settings_are_read_or_not_there(entries: Seq<(Seq<char>, TomlView)>)
    ensures
        ({
            let host = entry_index(entries, "host"@);
            let projects = entry_index(entries, "projects"@);
            let read = config_in(entries);
            &&& read is Some <==> {
                &&& host is Some ==> entries[host->0].1 is Text
                &&& projects is Some ==> entries[projects->0].1 is Table && text_entries(
                    entries[projects->0].1->Table_0,
                ) is Some
            }
            &&& read is Some ==> {
                &&& host is None ==> (read->0).0 is None
                &&& host is Some ==> (read->0).0 == Some(entries[host->0].1->Text_0)
                &&& projects is None ==> (read->0).1 == Map::<Seq<char>, Seq<char>>::empty()
                &&& projects is Some ==> Some((read->0).1) == text_entries(
                    entries[projects->0].1->Table_0,
                )
            }
        }),
{
}

/// A table of texts is read whole or not at all: where each of its entries is a text, and
/// then each key has the last text that stands under it.
pub proof fn tables_of_texts_are_read_whole(entries: Seq<(Seq<char>, TomlView)>)
    ensures
        text_entries(entries) is Some <==> forall|i: int|
            0 <= i < entries.len() ==> (#[trigger] entries[i]).1 is Text,
        text_entries(entries) matches Some(texts) ==> forall|i: int|
            0 <= i < entries.len() && (forall|j: int|
                i < j < entries.len() ==> (#[trigger] entries[j]).0 != entries[i].0) ==> lookup(
                texts,
                (#[trigger] entries[i]).0,
            ) == Some(entries[i].1->Text_0),
    decreases entries.len(),
{
    if entries.len() > 0 {
        let head = entries.drop_last();
        let last = entries.len() - 1;
        tables_of_texts_are_read_whole(head);
        assert(entries[last] == entries.last());
        assert forall|i: int| 0 <= i < head.len() implies #[trigger] head[i] == entries[i] by {}
        if text_entries(entries) is Some {
            let texts = text_entries(entries)->0;
            let before = text_entries(head)->0;
            assert forall|i: int| 0 <= i < entries.len() implies (#[trigger] entries[i]).1
                is Text by {
                if i < last {
                    assert(head[i].1 is Text);
                }
            }
            assert forall|i: int|
                0 <= i < entries.len() && (forall|j: int|
                    i < j < entries.len() ==> (#[trigger] entries[j]).0 != entries[i].0) implies lookup(
                texts,
                (#[trigger] entries[i]).0,
            ) == Some(entries[i].1->Text_0) by {
                if i < last {
                    assert(entries[last].0 != entries[i].0);
                    assert forall|j: int| i < j < head.len() implies (#[trigger] head[j]).0
                        != head[i].0 by {
                        assert(entries[j].0 != entries[i].0);
                    }
                    assert(lookup(before, head[i].0) == Some(head[i].1->Text_0));
                }
            }
        } else if forall|i: int| 0 <= i < entries.len() ==> (#[trigger] entries[i]).1 is Text {
            assert forall|i: int| 0 <= i < head.len() implies (#[trigger] head[i]).1 is Text by {
                assert(entries[i].1 is Text);
            }
            assert(entries[last].1 is Text);
        }
    }
}

/// A push that changed a ref starts the deploy itself. Any other is followed up: the deploy
/// is forced exactly where that is asked for, and else it is seen to that the revision is
/// deployed.
pub proof fn pushes_are_followed_up(updated: Option<bool>, force: bool)
    ensures
        spec_after_push(updated, force) == AfterPush::Done <==> updated == Some(true),
        spec_after_push(updated, force) == AfterPush::Force <==> updated != Some(true) && force,
        spec_after_push(updated, force) == AfterPush::Verify <==> updated == Some(false)
            && !force,
        spec_after_push(updated, force) == AfterPush::Unclear <==> updated is None && !force,
{
    if let Some(changed) = updated {
        assert(changed || !changed);
    }
}

/// The remote of a repository is that of the app in the end: it is added where there is
/// none, and set anew only where it is another.
pub proof fn remotes_lead_to_the_app(current: Option<Seq<char>>, expected: Seq<char>)
    ensures
        spec_remote_action(current, expected) == RemoteAction::Add <==> current is None,
        spec_remote_action(current, expected) == RemoteAction::Keep <==> current is Some && trim(
            current->0,
        ) == expected,
        spec_remote_action(current, expected) == RemoteAction::SetUrl <==> current is Some && trim(
            current->0,
        ) != expected,
{
}

} // verus!
