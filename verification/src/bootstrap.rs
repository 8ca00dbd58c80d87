//! How a host is set up, step by step.

use vstd::prelude::*;
use crate::host::{first_codename, os_release_codename};
use crate::paths::{joined, path_join};
use crate::setup::{
    apt_source, hook_text, incus_apt_source, oauth_config_text, post_receive_hook, service_text,
    supervise_service_unit_content, supervise_timer_unit_content, timer_text,
    SUPERVISE_INTERVAL_SECS, SUPERVISE_SERVICE_PATH, SUPERVISE_TIMER_PATH,
};
use crate::split::lines;
use crate::text::{outcome, same, trim, trimmed};

verus! {

pub const OAUTH_CONFIG_PATH: &'static str = "/home/psht/.config/tailscale-oauth";

/// The hooks of all repositories on the host.
pub const HOOKS_PATH: &'static str = "/home/psht/hooks";

pub const POST_RECEIVE_PATH: &'static str = "/home/psht/hooks/post-receive";

pub const GIT_CONFIG_PATH: &'static str = "/home/psht/.gitconfig";

/// The line of git's settings that names the directory of the hooks.
pub const HOOKS_SETTING: &'static str = "[core] hooksPath = /home/psht/hooks";

pub const INCUS_READY_CHECKS: u8 = 30;

pub const CHECK_INCUS: u8 = 0;

pub const CHECK_CURL: u8 = 1;

pub const UPDATE_FOR_CURL: u8 = 2;

pub const INSTALL_CURL: u8 = 3;

pub const MAKE_KEYRINGS: u8 = 4;

pub const FETCH_KEY: u8 = 5;

pub const READ_CODENAME: u8 = 6;

pub const READ_ARCH: u8 = 7;

pub const WRITE_SOURCE: u8 = 8;

pub const UPDATE_FOR_INCUS: u8 = 9;

pub const INSTALL_INCUS: u8 = 10;

pub const START_SOCKETS: u8 = 11;

pub const CHECK_PROFILE: u8 = 12;

pub const INIT_INCUS: u8 = 13;

pub const CHECK_TAILSCALE: u8 = 14;

pub const CHECK_CONNECTED: u8 = 15;

pub const CHECK_SSH: u8 = 16;

pub const ENABLE_SSH: u8 = 17;

pub const CHECK_OAUTH: u8 = 18;

pub const ASK_STEPS: u8 = 19;

pub const ASK_CREDENTIALS: u8 = 20;

pub const WRITE_OAUTH: u8 = 21;

pub const VALIDATE_OAUTH: u8 = 22;

pub const LIST_SHELL: u8 = 23;

pub const CHECK_USER: u8 = 24;

pub const ADD_USER: u8 = 25;

pub const CHANGE_SHELL: u8 = 26;

pub const MAKE_HOME: u8 = 27;

pub const MAKE_CONFIG: u8 = 28;

pub const OWN_HOME: u8 = 29;

pub const OWN_CONFIG: u8 = 30;

pub const CHECK_HUSH: u8 = 31;

pub const WRITE_HUSH: u8 = 32;

pub const OWN_HUSH: u8 = 33;

pub const MODE_HUSH: u8 = 34;

pub const CHECK_OAUTH_FILE: u8 = 35;

pub const OWN_OAUTH: u8 = 36;

pub const MODE_OAUTH: u8 = 37;

pub const MAKE_BIN: u8 = 38;

pub const CHECK_CLI: u8 = 39;

pub const COPY_CLI: u8 = 40;

pub const MODE_CLI: u8 = 41;

pub const OWN_CLI: u8 = 42;

pub const JOIN_GROUP: u8 = 43;

pub const WAIT_FOR_INCUS: u8 = 44;

pub const READ_UID: u8 = 45;

pub const CHECK_PROJECT: u8 = 46;

pub const CREATE_PROJECT: u8 = 47;

pub const RESTRICT: u8 = 48;

pub const ALLOW_PROXY: u8 = 49;

pub const ENSURE_PROFILE: u8 = 50;

pub const MAKE_REPOS: u8 = 51;

pub const MAKE_HOOKS: u8 = 52;

pub const WRITE_HOOK: u8 = 53;

pub const MODE_HOOK: u8 = 54;

pub const NAME_HOOKS: u8 = 55;

pub const OWN_HOOKS: u8 = 56;

pub const MAKE_BUILDS: u8 = 57;

pub const MAKE_STACKS: u8 = 58;

pub const FILL_STACKS: u8 = 59;

pub const OWN_DIRS: u8 = 60;

pub const WRITE_SERVICE: u8 = 61;

pub const WRITE_TIMER: u8 = 62;

pub const MODE_UNITS: u8 = 63;

pub const RELOAD: u8 = 64;

pub const ENABLE_TIMER: u8 = 65;

pub const START_SERVICE: u8 = 66;

pub const FINISHED: u8 = 67;

/// What is done on the host.
pub enum HostAction {
    /// Runs a command, which must succeed. Its first word is the program.
    Run(Vec<String>),
    /// Runs a command, whatever comes of it.
    Try(Vec<String>),
    /// Asks whether a command succeeds.
    Probe(Vec<String>),
    /// Asks what a command prints, which must succeed.
    Capture(Vec<String>),
    /// Asks whether there is a program of the name.
    HasCommand(String),
    /// Asks whether there is a file or directory at the path.
    Exists(String),
    MakeDir(String),
    Write(String, String),
    Read(String),
    /// Makes sure that a file holds a line.
    AddLine(String, String),
    Copy(String, String),
    /// Asks whether the host can be reached over SSH in the tailnet.
    AskSsh,
    /// Asks whether the steps that only a person can take were taken.
    AskSteps,
    /// Asks for the credentials for the tailnet.
    AskCredentials,
    /// Makes sure that the credentials allow what is needed.
    CheckOauth(String),
    /// Makes sure that the default profile of the project has a disk and a network.
    EnsureProfile(String),
    /// Writes the stacks into a directory.
    FillStacks(String),
    Finished,
}

/// The mathematical form of this.
pub enum HostActionView {
    Run(Seq<Seq<char>>),
    Try(Seq<Seq<char>>),
    Probe(Seq<Seq<char>>),
    Capture(Seq<Seq<char>>),
    HasCommand(Seq<char>),
    Exists(Seq<char>),
    MakeDir(Seq<char>),
    Write(Seq<char>, Seq<char>),
    Read(Seq<char>),
    AddLine(Seq<char>, Seq<char>),
    Copy(Seq<char>, Seq<char>),
    AskSsh,
    AskSteps,
    AskCredentials,
    CheckOauth(Seq<char>),
    EnsureProfile(Seq<char>),
    FillStacks(Seq<char>),
    Finished,
}

impl DeepView for HostAction {
    type V = HostActionView;

    open spec fn deep_view(&self) -> HostActionView {
        match self {
            HostAction::Run(words) => HostActionView::Run(words.deep_view()),
            HostAction::Try(words) => HostActionView::Try(words.deep_view()),
            HostAction::Probe(words) => HostActionView::Probe(words.deep_view()),
            HostAction::Capture(words) => HostActionView::Capture(words.deep_view()),
            HostAction::HasCommand(name) => HostActionView::HasCommand(name@),
            HostAction::Exists(path) => HostActionView::Exists(path@),
            HostAction::MakeDir(path) => HostActionView::MakeDir(path@),
            HostAction::Write(path, text) => HostActionView::Write(path@, text@),
            HostAction::Read(path) => HostActionView::Read(path@),
            HostAction::AddLine(path, line) => HostActionView::AddLine(path@, line@),
            HostAction::Copy(from, to) => HostActionView::Copy(from@, to@),
            HostAction::AskSsh => HostActionView::AskSsh,
            HostAction::AskSteps => HostActionView::AskSteps,
            HostAction::AskCredentials => HostActionView::AskCredentials,
            HostAction::CheckOauth(path) => HostActionView::CheckOauth(path@),
            HostAction::EnsureProfile(project) => HostActionView::EnsureProfile(project@),
            HostAction::FillStacks(dir) => HostActionView::FillStacks(dir@),
            HostAction::Finished => HostActionView::Finished,
        }
    }
}

/// What came of it: whether it succeeded, the answer where it asks something, and the
/// text or the two texts that it gives.
pub struct HostReply {
    pub result: Result<(), String>,
    pub yes: bool,
    pub text: String,
    pub second: String,
}

/// The mathematical form of this.
#[verifier::ext_equal]
pub struct HostReplyView {
    pub result: Result<(), Seq<char>>,
    pub yes: bool,
    pub text: Seq<char>,
    pub second: Seq<char>,
}

impl DeepView for HostReply {
    type V = HostReplyView;

    open spec fn deep_view(&self) -> HostReplyView {
        HostReplyView {
            result: outcome(self.result),
            yes: self.yes,
            text: self.text@,
            second: self.second@,
        }
    }
}

/// The setting up of a host.
pub struct Bootstrap {
    /// The program of the host, and that for workstations beside it.
    pub psht_bin: String,
    pub psht_cli: String,
    pub skip_tailscale: bool,
    /// The credentials for the tailnet that the environment gives.
    pub env_credentials: Option<(String, String)>,
    pub step: u8,
    pub checks: u8,
    pub codename: String,
    pub arch: String,
    pub project: String,
    pub oauth_text: String,
}

/// The mathematical form of this.
#[verifier::ext_equal]
pub struct BootstrapView {
    pub psht_bin: Seq<char>,
    pub psht_cli: Seq<char>,
    pub skip_tailscale: bool,
    pub env_credentials: Option<(Seq<char>, Seq<char>)>,
    pub step: u8,
    pub checks: u8,
    pub codename: Seq<char>,
    pub arch: Seq<char>,
    pub project: Seq<char>,
    pub oauth_text: Seq<char>,
}

impl DeepView for Bootstrap {
    type V = BootstrapView;

    open spec fn deep_view(&self) -> BootstrapView {
        BootstrapView {
            psht_bin: self.psht_bin@,
            psht_cli: self.psht_cli@,
            skip_tailscale: self.skip_tailscale,
            env_credentials: self.env_credentials.deep_view(),
            step: self.step,
            checks: self.checks,
            codename: self.codename@,
            arch: self.arch@,
            project: self.project@,
            oauth_text: self.oauth_text@,
        }
    }
}

fn words2(a: &str, b: &str) -> (r: Vec<String>)
    ensures
        r.deep_view() == seq![a@, b@],
{
    let r = vec![a.to_owned(), b.to_owned()];
    assert(r.deep_view() =~= seq![a@, b@]);
    r
}

fn words3(a: &str, b: &str, c: &str) -> (r: Vec<String>)
    ensures
        r.deep_view() == seq![a@, b@, c@],
{
    let r = vec![a.to_owned(), b.to_owned(), c.to_owned()];
    assert(r.deep_view() =~= seq![a@, b@, c@]);
    r
}

fn words4(a: &str, b: &str, c: &str, d: &str) -> (r: Vec<String>)
    ensures
        r.deep_view() == seq![a@, b@, c@, d@],
{
    let r = vec![a.to_owned(), b.to_owned(), c.to_owned(), d.to_owned()];
    assert(r.deep_view() =~= seq![a@, b@, c@, d@]);
    r
}

fn words5(a: &str, b: &str, c: &str, d: &str, e: &str) -> (r: Vec<String>)
    ensures
        r.deep_view() == seq![a@, b@, c@, d@, e@],
{
    let r = vec![a.to_owned(), b.to_owned(), c.to_owned(), d.to_owned(), e.to_owned()];
    assert(r.deep_view() =~= seq![a@, b@, c@, d@, e@]);
    r
}

fn words6(a: &str, b: &str, c: &str, d: &str, e: &str, f: &str) -> (r: Vec<String>)
    ensures
        r.deep_view() == seq![a@, b@, c@, d@, e@, f@],
{
    let r = vec![
        a.to_owned(),
        b.to_owned(),
        c.to_owned(),
        d.to_owned(),
        e.to_owned(),
        f.to_owned(),
    ];
    assert(r.deep_view() =~= seq![a@, b@, c@, d@, e@, f@]);
    r
}

/// The steps that install the software.
pub open spec fn packages_action(b: BootstrapView) -> HostActionView {
    if b.step == CHECK_INCUS {
        HostActionView::HasCommand("incus"@)
    } else if b.step == CHECK_CURL {
        HostActionView::HasCommand("curl"@)
    } else if b.step == UPDATE_FOR_CURL {
        HostActionView::Run(seq!["apt-get"@, "update"@])
    } else if b.step == INSTALL_CURL {
        HostActionView::Run(seq!["apt-get"@, "install"@, "-y"@, "curl"@])
    } else if b.step == MAKE_KEYRINGS {
        HostActionView::MakeDir("/etc/apt/keyrings"@)
    } else if b.step == FETCH_KEY {
        HostActionView::Run(
            seq![
                "curl"@,
                "-fsSL"@,
                "https://pkgs.zabbly.com/key.asc"@,
                "-o"@,
                "/etc/apt/keyrings/zabbly.asc"@,
            ],
        )
    } else if b.step == READ_CODENAME {
        HostActionView::Read("/etc/os-release"@)
    } else if b.step == READ_ARCH {
        HostActionView::Capture(seq!["dpkg"@, "--print-architecture"@])
    } else if b.step == WRITE_SOURCE {
        HostActionView::Write(
            "/etc/apt/sources.list.d/zabbly-incus-stable.sources"@,
            apt_source(b.codename, b.arch),
        )
    } else if b.step == UPDATE_FOR_INCUS {
        HostActionView::Run(seq!["apt-get"@, "update"@])
    } else if b.step == INSTALL_INCUS {
        HostActionView::Run(seq!["apt-get"@, "install"@, "-y"@, "incus"@])
    } else if b.step == START_SOCKETS {
        HostActionView::Try(seq!["systemctl"@, "start"@, "incus.socket"@, "incus-user.socket"@])
    } else if b.step == CHECK_PROFILE {
        HostActionView::Probe(seq!["incus"@, "profile"@, "show"@, "default"@])
    } else {
        HostActionView::Run(seq!["incus"@, "admin"@, "init"@, "--minimal"@])
    }
}

impl Bootstrap {
    fn packages_action(&self) -> (r: HostAction)
        ensures
            r.deep_view() == packages_action(self.deep_view()),
    {
        if self.step == CHECK_INCUS {
            HostAction::HasCommand(String::from_str("incus"))
        } else if self.step == CHECK_CURL {
            HostAction::HasCommand(String::from_str("curl"))
        } else if self.step == UPDATE_FOR_CURL {
            HostAction::Run(words2("apt-get", "update"))
        } else if self.step == INSTALL_CURL {
            HostAction::Run(words4("apt-get", "install", "-y", "curl"))
        } else if self.step == MAKE_KEYRINGS {
            HostAction::MakeDir(String::from_str("/etc/apt/keyrings"))
        } else if self.step == FETCH_KEY {
            HostAction::Run(
                words5(
                    "curl",
                    "-fsSL",
                    "https://pkgs.zabbly.com/key.asc",
                    "-o",
                    "/etc/apt/keyrings/zabbly.asc",
                ),
            )
        } else if self.step == READ_CODENAME {
            HostAction::Read(String::from_str("/etc/os-release"))
        } else if self.step == READ_ARCH {
            HostAction::Capture(words2("dpkg", "--print-architecture"))
        } else if self.step == WRITE_SOURCE {
            HostAction::Write(
                String::from_str("/etc/apt/sources.list.d/zabbly-incus-stable.sources"),
                incus_apt_source(self.codename.as_str(),
                self.arch.as_str()),
            )
        } else if self.step == UPDATE_FOR_INCUS {
            HostAction::Run(words2("apt-get", "update"))
        } else if self.step == INSTALL_INCUS {
            HostAction::Run(words4("apt-get", "install", "-y", "incus"))
        } else if self.step == START_SOCKETS {
            HostAction::Try(words4("systemctl", "start", "incus.socket", "incus-user.socket"))
        } else if self.step == CHECK_PROFILE {
            HostAction::Probe(words4("incus", "profile", "show", "default"))
        } else {
            HostAction::Run(words4("incus", "admin", "init", "--minimal"))
        }
    }
}

/// The steps that connect the host to the tailnet.
pub open spec fn tailnet_action(b: BootstrapView) -> HostActionView {
    if b.step == CHECK_TAILSCALE {
        HostActionView::HasCommand("tailscale"@)
    } else if b.step == CHECK_CONNECTED {
        HostActionView::Probe(seq!["tailscale"@, "status"@])
    } else if b.step == CHECK_SSH {
        HostActionView::AskSsh
    } else if b.step == ENABLE_SSH {
        HostActionView::Run(seq!["tailscale"@, "up"@, "--ssh"@])
    } else if b.step == CHECK_OAUTH {
        HostActionView::Exists(OAUTH_CONFIG_PATH@)
    } else if b.step == ASK_STEPS {
        HostActionView::AskSteps
    } else if b.step == ASK_CREDENTIALS {
        HostActionView::AskCredentials
    } else if b.step == WRITE_OAUTH {
        HostActionView::Write(OAUTH_CONFIG_PATH@, b.oauth_text)
    } else {
        HostActionView::CheckOauth(OAUTH_CONFIG_PATH@)
    }
}

impl Bootstrap {
    fn tailnet_action(&self) -> (r: HostAction)
        ensures
            r.deep_view() == tailnet_action(self.deep_view()),
    {
        if self.step == CHECK_TAILSCALE {
            HostAction::HasCommand(String::from_str("tailscale"))
        } else if self.step == CHECK_CONNECTED {
            HostAction::Probe(words2("tailscale", "status"))
        } else if self.step == CHECK_SSH {
            HostAction::AskSsh
        } else if self.step == ENABLE_SSH {
            HostAction::Run(words3("tailscale", "up", "--ssh"))
        } else if self.step == CHECK_OAUTH {
            HostAction::Exists(String::from_str(OAUTH_CONFIG_PATH))
        } else if self.step == ASK_STEPS {
            HostAction::AskSteps
        } else if self.step == ASK_CREDENTIALS {
            HostAction::AskCredentials
        } else if self.step == WRITE_OAUTH {
            HostAction::Write(String::from_str(OAUTH_CONFIG_PATH), self.oauth_text.clone())
        } else {
            HostAction::CheckOauth(String::from_str(OAUTH_CONFIG_PATH))
        }
    }
}

/// The steps that set up the user that runs the apps.
pub open spec fn user_action(b: BootstrapView) -> HostActionView {
    if b.step == LIST_SHELL {
        HostActionView::AddLine("/etc/shells"@, b.psht_bin)
    } else if b.step == CHECK_USER {
        HostActionView::Probe(seq!["id"@, "psht"@])
    } else if b.step == ADD_USER {
        HostActionView::Run(seq!["useradd"@, "-m"@, "-s"@, b.psht_bin, "psht"@])
    } else if b.step == CHANGE_SHELL {
        HostActionView::Run(seq!["chsh"@, "-s"@, b.psht_bin, "psht"@])
    } else if b.step == MAKE_HOME {
        HostActionView::MakeDir("/home/psht"@)
    } else if b.step == MAKE_CONFIG {
        HostActionView::MakeDir("/home/psht/.config"@)
    } else if b.step == OWN_HOME {
        HostActionView::Run(seq!["chown"@, "psht:psht"@, "/home/psht"@])
    } else if b.step == OWN_CONFIG {
        HostActionView::Run(seq!["chown"@, "-R"@, "psht:psht"@, "/home/psht/.config"@])
    } else if b.step == CHECK_HUSH {
        HostActionView::Exists("/home/psht/.hushlogin"@)
    } else if b.step == WRITE_HUSH {
        HostActionView::Write("/home/psht/.hushlogin"@, ""@)
    } else if b.step == OWN_HUSH {
        HostActionView::Run(seq!["chown"@, "psht:psht"@, "/home/psht/.hushlogin"@])
    } else if b.step == MODE_HUSH {
        HostActionView::Run(seq!["chmod"@, "644"@, "/home/psht/.hushlogin"@])
    } else if b.step == CHECK_OAUTH_FILE {
        HostActionView::Exists(OAUTH_CONFIG_PATH@)
    } else if b.step == OWN_OAUTH {
        HostActionView::Run(seq!["chown"@, "psht:psht"@, OAUTH_CONFIG_PATH@])
    } else if b.step == MODE_OAUTH {
        HostActionView::Run(seq!["chmod"@, "600"@, OAUTH_CONFIG_PATH@])
    } else if b.step == MAKE_BIN {
        HostActionView::MakeDir("/home/psht/bin"@)
    } else if b.step == CHECK_CLI {
        HostActionView::Exists(b.psht_cli)
    } else if b.step == COPY_CLI {
        HostActionView::Copy(b.psht_cli, "/home/psht/bin/psht"@)
    } else if b.step == MODE_CLI {
        HostActionView::Run(seq!["chmod"@, "755"@, "/home/psht/bin/psht"@])
    } else if b.step == OWN_CLI {
        HostActionView::Run(seq!["chown"@, "psht:psht"@, "/home/psht/bin"@, "/home/psht/bin/psht"@])
    } else {
        HostActionView::Run(seq!["usermod"@, "-aG"@, "incus"@, "psht"@])
    }
}

impl Bootstrap {
    fn user_action(&self) -> (r: HostAction)
        ensures
            r.deep_view() == user_action(self.deep_view()),
    {
        if self.step == LIST_SHELL {
            HostAction::AddLine(String::from_str("/etc/shells"), self.psht_bin.clone())
        } else if self.step == CHECK_USER {
            HostAction::Probe(words2("id", "psht"))
        } else if self.step == ADD_USER {
            HostAction::Run(words5("useradd", "-m", "-s", self.psht_bin.as_str(), "psht"))
        } else if self.step == CHANGE_SHELL {
            HostAction::Run(words4("chsh", "-s", self.psht_bin.as_str(), "psht"))
        } else if self.step == MAKE_HOME {
            HostAction::MakeDir(String::from_str("/home/psht"))
        } else if self.step == MAKE_CONFIG {
            HostAction::MakeDir(String::from_str("/home/psht/.config"))
        } else if self.step == OWN_HOME {
            HostAction::Run(words3("chown", "psht:psht", "/home/psht"))
        } else if self.step == OWN_CONFIG {
            HostAction::Run(words4("chown", "-R", "psht:psht", "/home/psht/.config"))
        } else if self.step == CHECK_HUSH {
            HostAction::Exists(String::from_str("/home/psht/.hushlogin"))
        } else if self.step == WRITE_HUSH {
            HostAction::Write(String::from_str("/home/psht/.hushlogin"), String::from_str(""))
        } else if self.step == OWN_HUSH {
            HostAction::Run(words3("chown", "psht:psht", "/home/psht/.hushlogin"))
        } else if self.step == MODE_HUSH {
            HostAction::Run(words3("chmod", "644", "/home/psht/.hushlogin"))
        } else if self.step == CHECK_OAUTH_FILE {
            HostAction::Exists(String::from_str(OAUTH_CONFIG_PATH))
        } else if self.step == OWN_OAUTH {
            HostAction::Run(words3("chown", "psht:psht", OAUTH_CONFIG_PATH))
        } else if self.step == MODE_OAUTH {
            HostAction::Run(words3("chmod", "600", OAUTH_CONFIG_PATH))
        } else if self.step == MAKE_BIN {
            HostAction::MakeDir(String::from_str("/home/psht/bin"))
        } else if self.step == CHECK_CLI {
            HostAction::Exists(self.psht_cli.as_str().to_owned())
        } else if self.step == COPY_CLI {
            HostAction::Copy(
                self.psht_cli.as_str().to_owned(),
                String::from_str("/home/psht/bin/psht"),
            )
        } else if self.step == MODE_CLI {
            HostAction::Run(words3("chmod", "755", "/home/psht/bin/psht"))
        } else if self.step == OWN_CLI {
            HostAction::Run(words4("chown", "psht:psht", "/home/psht/bin", "/home/psht/bin/psht"))
        } else {
            HostAction::Run(words4("usermod", "-aG", "incus", "psht"))
        }
    }
}

/// The steps that set up the project, the directories and the supervision.
pub open spec fn project_action(b: BootstrapView) -> HostActionView {
    if b.step == WAIT_FOR_INCUS {
        HostActionView::Probe(seq!["incus"@, "info"@])
    } else if b.step == READ_UID {
        HostActionView::Capture(seq!["id"@, "-u"@, "psht"@])
    } else if b.step == CHECK_PROJECT {
        HostActionView::Probe(seq!["incus"@, "project"@, "show"@, b.project])
    } else if b.step == CREATE_PROJECT {
        HostActionView::Run(seq!["incus"@, "project"@, "create"@, b.project])
    } else if b.step == RESTRICT {
        HostActionView::Run(seq!["incus"@, "project"@, "set"@, b.project, "restricted=true"@])
    } else if b.step == ALLOW_PROXY {
        HostActionView::Run(
            seq![
                "incus"@,
                "project"@,
                "set"@,
                b.project,
                "restricted.devices.proxy=allow"@,
            ],
        )
    } else if b.step == ENSURE_PROFILE {
        HostActionView::EnsureProfile(b.project)
    } else if b.step == MAKE_REPOS {
        HostActionView::MakeDir("/home/psht/repos"@)
    } else if b.step == MAKE_HOOKS {
        HostActionView::MakeDir(HOOKS_PATH@)
    } else if b.step == WRITE_HOOK {
        HostActionView::Write(POST_RECEIVE_PATH@, hook_text(b.psht_bin))
    } else if b.step == MODE_HOOK {
        HostActionView::Run(seq!["chmod"@, "755"@, POST_RECEIVE_PATH@])
    } else if b.step == NAME_HOOKS {
        HostActionView::AddLine(GIT_CONFIG_PATH@, HOOKS_SETTING@)
    } else if b.step == OWN_HOOKS {
        HostActionView::Run(seq!["chown"@, "-R"@, "psht:psht"@, HOOKS_PATH@, GIT_CONFIG_PATH@])
    } else if b.step == MAKE_BUILDS {
        HostActionView::MakeDir("/home/psht/builds"@)
    } else if b.step == MAKE_STACKS {
        HostActionView::MakeDir("/home/psht/stacks"@)
    } else if b.step == FILL_STACKS {
        HostActionView::FillStacks("/home/psht/stacks"@)
    } else if b.step == OWN_DIRS {
        HostActionView::Run(
            seq![
                "chown"@,
                "-R"@,
                "psht:psht"@,
                "/home/psht/repos"@,
                "/home/psht/builds"@,
                "/home/psht/stacks"@,
            ],
        )
    } else if b.step == WRITE_SERVICE {
        HostActionView::Write(SUPERVISE_SERVICE_PATH@, service_text(b.psht_bin, "/home/psht"@))
    } else if b.step == WRITE_TIMER {
        HostActionView::Write(SUPERVISE_TIMER_PATH@, timer_text(SUPERVISE_INTERVAL_SECS))
    } else if b.step == MODE_UNITS {
        HostActionView::Run(seq!["chmod"@, "644"@, SUPERVISE_SERVICE_PATH@, SUPERVISE_TIMER_PATH@])
    } else if b.step == RELOAD {
        HostActionView::Run(seq!["systemctl"@, "daemon-reload"@])
    } else if b.step == ENABLE_TIMER {
        HostActionView::Run(seq!["systemctl"@, "enable"@, "--now"@, "psht-supervise.timer"@])
    } else if b.step == START_SERVICE {
        HostActionView::Run(seq!["systemctl"@, "start"@, "psht-supervise.service"@])
    } else {
        HostActionView::Finished
    }
}

impl Bootstrap {
    fn project_action(&self) -> (r: HostAction)
        ensures
            r.deep_view() == project_action(self.deep_view()),
    {
        if self.step == WAIT_FOR_INCUS {
            HostAction::Probe(words2("incus", "info"))
        } else if self.step == READ_UID {
            HostAction::Capture(words3("id", "-u", "psht"))
        } else if self.step == CHECK_PROJECT {
            HostAction::Probe(words4("incus", "project", "show", self.project.as_str()))
        } else if self.step == CREATE_PROJECT {
            HostAction::Run(words4("incus", "project", "create", self.project.as_str()))
        } else if self.step == RESTRICT {
            HostAction::Run(
                words5(
                    "incus",
                    "project",
                    "set",
                    self.project.as_str(),
                    "restricted=true",
                ),
            )
        } else if self.step == ALLOW_PROXY {
            HostAction::Run(
                words5(
                    "incus",
                    "project",
                    "set",
                    self.project.as_str(),
                    "restricted.devices.proxy=allow",
                ),
            )
        } else if self.step == ENSURE_PROFILE {
            HostAction::EnsureProfile(self.project.as_str().to_owned())
        } else if self.step == MAKE_REPOS {
            HostAction::MakeDir(String::from_str("/home/psht/repos"))
        } else if self.step == MAKE_HOOKS {
            HostAction::MakeDir(String::from_str(HOOKS_PATH))
        } else if self.step == WRITE_HOOK {
            HostAction::Write(
                String::from_str(POST_RECEIVE_PATH),
                post_receive_hook(self.psht_bin.as_str()),
            )
        } else if self.step == MODE_HOOK {
            HostAction::Run(words3("chmod", "755", POST_RECEIVE_PATH))
        } else if self.step == NAME_HOOKS {
            HostAction::AddLine(String::from_str(GIT_CONFIG_PATH), String::from_str(HOOKS_SETTING))
        } else if self.step == OWN_HOOKS {
            HostAction::Run(words5("chown", "-R", "psht:psht", HOOKS_PATH, GIT_CONFIG_PATH))
        } else if self.step == MAKE_BUILDS {
            HostAction::MakeDir(String::from_str("/home/psht/builds"))
        } else if self.step == MAKE_STACKS {
            HostAction::MakeDir(String::from_str("/home/psht/stacks"))
        } else if self.step == FILL_STACKS {
            HostAction::FillStacks(String::from_str("/home/psht/stacks"))
        } else if self.step == OWN_DIRS {
            HostAction::Run(
                words6(
                    "chown",
                    "-R",
                    "psht:psht",
                    "/home/psht/repos",
                    "/home/psht/builds",
                    "/home/psht/stacks",
                ),
            )
        } else if self.step == WRITE_SERVICE {
            HostAction::Write(
                String::from_str(SUPERVISE_SERVICE_PATH),
                supervise_service_unit_content(self.psht_bin.as_str(), "/home/psht"),
            )
        } else if self.step == WRITE_TIMER {
            HostAction::Write(
                String::from_str(SUPERVISE_TIMER_PATH),
                supervise_timer_unit_content(SUPERVISE_INTERVAL_SECS),
            )
        } else if self.step == MODE_UNITS {
            HostAction::Run(words4("chmod", "644", SUPERVISE_SERVICE_PATH, SUPERVISE_TIMER_PATH))
        } else if self.step == RELOAD {
            HostAction::Run(words2("systemctl", "daemon-reload"))
        } else if self.step == ENABLE_TIMER {
            HostAction::Run(words4("systemctl", "enable", "--now", "psht-supervise.timer"))
        } else if self.step == START_SERVICE {
            HostAction::Run(words3("systemctl", "start", "psht-supervise.service"))
        } else {
            HostAction::Finished
        }
    }
}

/// What is to be done in a step.
pub open spec fn action_of(b: BootstrapView) -> HostActionView {
    if b.step < CHECK_TAILSCALE {
        packages_action(b)
    } else if b.step < LIST_SHELL {
        tailnet_action(b)
    } else if b.step < WAIT_FOR_INCUS {
        user_action(b)
    } else {
        project_action(b)
    }
}

/// The step after the software is installed.
pub open spec fn after_packages(b: BootstrapView) -> u8 {
    if b.skip_tailscale {
        LIST_SHELL
    } else {
        CHECK_TAILSCALE
    }
}

pub open spec fn at(b: BootstrapView, step: u8) -> Result<BootstrapView, Seq<char>> {
    Ok(BootstrapView { step, ..b })
}

/// The name of the system's release, by the file that tells it.
pub open spec fn codename_known(b: BootstrapView, os_release: Seq<char>) -> Result<
    BootstrapView,
    Seq<char>,
> {
    match first_codename(lines(os_release)) {
        Some(codename) => at(BootstrapView { codename, ..b }, READ_ARCH),
        None => Err("VERSION_CODENAME missing in /etc/os-release"@),
    }
}

/// The credentials for the tailnet, as they are kept.
pub open spec fn credentials_given(b: BootstrapView, id: Seq<char>, secret: Seq<char>) -> Result<
    BootstrapView,
    Seq<char>,
> {
    if id.len() == 0 || secret.len() == 0 {
        Err("OAuth client ID and secret are required"@)
    } else {
        at(
            BootstrapView {
                oauth_text: "TS_OAUTH_CLIENT_ID="@ + id + "\nTS_OAUTH_CLIENT_SECRET="@ + secret
                    + "\n"@,
                ..b
            },
            WRITE_OAUTH,
        )
    }
}

/// Whether an environment variable gives something.
pub open spec fn given(value: Seq<char>) -> bool {
    trim(value).len() > 0
}

/// Where the credentials come from, if they are not there yet: the environment, or else a
/// person.
pub open spec fn oauth_looked_for(b: BootstrapView, found: bool) -> Result<
    BootstrapView,
    Seq<char>,
> {
    if found {
        at(b, VALIDATE_OAUTH)
    } else {
        match b.env_credentials {
            Some((id, secret)) if given(id) && given(secret) => credentials_given(
                b,
                trim(id),
                trim(secret),
            ),
            _ => at(b, ASK_STEPS),
        }
    }
}

/// Incus gets its time to come up.
pub open spec fn incus_looked_for(b: BootstrapView, found: bool) -> Result<
    BootstrapView,
    Seq<char>,
> {
    if found {
        at(b, READ_UID)
    } else if b.checks + 1 < INCUS_READY_CHECKS {
        Ok(BootstrapView { checks: (b.checks + 1) as u8, ..b })
    } else {
        Err("incus did not become ready after 30 seconds"@)
    }
}

pub open spec fn packages_next(b: BootstrapView, reply: HostReplyView) -> Result<
    BootstrapView,
    Seq<char>,
> {
    if b.step == CHECK_INCUS {
        at(
            b,
            if reply.yes {
                START_SOCKETS
            } else {
                CHECK_CURL
            },
        )
    } else if b.step == CHECK_CURL {
        at(
            b,
            if reply.yes {
                MAKE_KEYRINGS
            } else {
                UPDATE_FOR_CURL
            },
        )
    } else if b.step == UPDATE_FOR_CURL {
        at(b, INSTALL_CURL)
    } else if b.step == INSTALL_CURL {
        at(b, MAKE_KEYRINGS)
    } else if b.step == MAKE_KEYRINGS {
        at(b, FETCH_KEY)
    } else if b.step == FETCH_KEY {
        at(b, READ_CODENAME)
    } else if b.step == READ_CODENAME {
        codename_known(b, reply.text)
    } else if b.step == READ_ARCH {
        at(BootstrapView { arch: reply.text, ..b }, WRITE_SOURCE)
    } else if b.step == WRITE_SOURCE {
        at(b, UPDATE_FOR_INCUS)
    } else if b.step == UPDATE_FOR_INCUS {
        at(b, INSTALL_INCUS)
    } else if b.step == INSTALL_INCUS {
        at(b, START_SOCKETS)
    } else if b.step == START_SOCKETS {
        at(b, CHECK_PROFILE)
    } else if b.step == CHECK_PROFILE {
        at(
            b,
            if reply.yes {
                after_packages(b)
            } else {
                INIT_INCUS
            },
        )
    } else {
        at(b, after_packages(b))
    }
}

impl Bootstrap {
    fn packages_next(&mut self, reply: &HostReply) -> (r: Result<(), String>)
        ensures
            moved(r, *final(self)) == packages_next(old(self).deep_view(), reply.deep_view()),
    {
        if self.step == CHECK_INCUS {
            self.step = if reply.yes {
                START_SOCKETS
            } else {
                CHECK_CURL
            };
        } else if self.step == CHECK_CURL {
            self.step = if reply.yes {
                MAKE_KEYRINGS
            } else {
                UPDATE_FOR_CURL
            };
        } else if self.step == UPDATE_FOR_CURL {
            self.step = INSTALL_CURL;
        } else if self.step == INSTALL_CURL {
            self.step = MAKE_KEYRINGS;
        } else if self.step == MAKE_KEYRINGS {
            self.step = FETCH_KEY;
        } else if self.step == FETCH_KEY {
            self.step = READ_CODENAME;
        } else if self.step == READ_CODENAME {
            return self.codename_known(reply.text.as_str());
        } else if self.step == READ_ARCH {
            self.arch = reply.text.clone();
            self.step = WRITE_SOURCE;
        } else if self.step == WRITE_SOURCE {
            self.step = UPDATE_FOR_INCUS;
        } else if self.step == UPDATE_FOR_INCUS {
            self.step = INSTALL_INCUS;
        } else if self.step == INSTALL_INCUS {
            self.step = START_SOCKETS;
        } else if self.step == START_SOCKETS {
            self.step = CHECK_PROFILE;
        } else if self.step == CHECK_PROFILE {
            self.step = if reply.yes {
                self.after_packages()
            } else {
                INIT_INCUS
            };
        } else {
            self.step = self.after_packages();
        }
        Ok(())
    }
}

pub open spec fn tailnet_next(b: BootstrapView, reply: HostReplyView) -> Result<
    BootstrapView,
    Seq<char>,
> {
    if b.step == CHECK_TAILSCALE {
        if reply.yes {
            at(b, CHECK_CONNECTED)
        } else {
            Err(
                "Tailscale is not installed. Install it first: https://tailscale.com/download/linux"@,
            )
        }
    } else if b.step == CHECK_CONNECTED {
        if reply.yes {
            at(b, CHECK_SSH)
        } else {
            Err("Tailscale is not connected. Run: sudo tailscale up --ssh"@)
        }
    } else if b.step == CHECK_SSH {
        at(
            b,
            if reply.yes {
                CHECK_OAUTH
            } else {
                ENABLE_SSH
            },
        )
    } else if b.step == ENABLE_SSH {
        at(b, CHECK_OAUTH)
    } else if b.step == CHECK_OAUTH {
        oauth_looked_for(b, reply.yes)
    } else if b.step == ASK_STEPS {
        if reply.yes {
            at(b, ASK_CREDENTIALS)
        } else {
            Err("Complete the steps above and re-run: sudo psht-server bootstrap"@)
        }
    } else if b.step == ASK_CREDENTIALS {
        credentials_given(b, trim(reply.text), trim(reply.second))
    } else if b.step == WRITE_OAUTH {
        at(b, VALIDATE_OAUTH)
    } else {
        at(b, LIST_SHELL)
    }
}

impl Bootstrap {
    fn tailnet_next(&mut self, reply: &HostReply) -> (r: Result<(), String>)
        ensures
            moved(r, *final(self)) == tailnet_next(old(self).deep_view(), reply.deep_view()),
    {
        if self.step == CHECK_TAILSCALE {
            if !reply.yes {
                return Err(
                    String::from_str(
                        "Tailscale is not installed. Install it first: https://tailscale.com/download/linux",
                    ),
                );
            }
            self.step = CHECK_CONNECTED;
        } else if self.step == CHECK_CONNECTED {
            if !reply.yes {
                return Err(
                    String::from_str(
                        "Tailscale is not connected. Run: sudo tailscale up --ssh",
                    ),
                );
            }
            self.step = CHECK_SSH;
        } else if self.step == CHECK_SSH {
            self.step = if reply.yes {
                CHECK_OAUTH
            } else {
                ENABLE_SSH
            };
        } else if self.step == ENABLE_SSH {
            self.step = CHECK_OAUTH;
        } else if self.step == CHECK_OAUTH {
            return self.oauth_looked_for(reply.yes);
        } else if self.step == ASK_STEPS {
            if !reply.yes {
                return Err(
                    String::from_str(
                        "Complete the steps above and re-run: sudo psht-server bootstrap",
                    ),
                );
            }
            self.step = ASK_CREDENTIALS;
        } else if self.step == ASK_CREDENTIALS {
            return self.credentials_given(
                trimmed(reply.text.as_str()),
                trimmed(reply.second.as_str()),
            );
        } else if self.step == WRITE_OAUTH {
            self.step = VALIDATE_OAUTH;
        } else {
            self.step = LIST_SHELL;
        }
        Ok(())
    }
}

pub open spec fn user_next(b: BootstrapView, reply: HostReplyView) -> Result<
    BootstrapView,
    Seq<char>,
> {
    if b.step == LIST_SHELL {
        at(b, CHECK_USER)
    } else if b.step == CHECK_USER {
        at(
            b,
            if reply.yes {
                CHANGE_SHELL
            } else {
                ADD_USER
            },
        )
    } else if b.step == ADD_USER {
        at(b, MAKE_HOME)
    } else if b.step == CHANGE_SHELL {
        at(b, MAKE_HOME)
    } else if b.step == MAKE_HOME {
        at(b, MAKE_CONFIG)
    } else if b.step == MAKE_CONFIG {
        at(b, OWN_HOME)
    } else if b.step == OWN_HOME {
        at(b, OWN_CONFIG)
    } else if b.step == OWN_CONFIG {
        at(b, CHECK_HUSH)
    } else if b.step == CHECK_HUSH {
        at(
            b,
            if reply.yes {
                OWN_HUSH
            } else {
                WRITE_HUSH
            },
        )
    } else if b.step == WRITE_HUSH {
        at(b, OWN_HUSH)
    } else if b.step == OWN_HUSH {
        at(b, MODE_HUSH)
    } else if b.step == MODE_HUSH {
        at(b, CHECK_OAUTH_FILE)
    } else if b.step == CHECK_OAUTH_FILE {
        at(
            b,
            if reply.yes {
                OWN_OAUTH
            } else {
                MAKE_BIN
            },
        )
    } else if b.step == OWN_OAUTH {
        at(b, MODE_OAUTH)
    } else if b.step == MODE_OAUTH {
        at(b, MAKE_BIN)
    } else if b.step == MAKE_BIN {
        at(b, CHECK_CLI)
    } else if b.step == CHECK_CLI {
        at(
            b,
            if reply.yes {
                COPY_CLI
            } else {
                JOIN_GROUP
            },
        )
    } else if b.step == COPY_CLI {
        at(b, MODE_CLI)
    } else if b.step == MODE_CLI {
        at(b, OWN_CLI)
    } else if b.step == OWN_CLI {
        at(b, JOIN_GROUP)
    } else {
        at(b, WAIT_FOR_INCUS)
    }
}

impl Bootstrap {
    fn user_next(&mut self, reply: &HostReply) -> (r: Result<(), String>)
        ensures
            moved(r, *final(self)) == user_next(old(self).deep_view(), reply.deep_view()),
    {
        if self.step == LIST_SHELL {
            self.step = CHECK_USER;
        } else if self.step == CHECK_USER {
            self.step = if reply.yes {
                CHANGE_SHELL
            } else {
                ADD_USER
            };
        } else if self.step == ADD_USER {
            self.step = MAKE_HOME;
        } else if self.step == CHANGE_SHELL {
            self.step = MAKE_HOME;
        } else if self.step == MAKE_HOME {
            self.step = MAKE_CONFIG;
        } else if self.step == MAKE_CONFIG {
            self.step = OWN_HOME;
        } else if self.step == OWN_HOME {
            self.step = OWN_CONFIG;
        } else if self.step == OWN_CONFIG {
            self.step = CHECK_HUSH;
        } else if self.step == CHECK_HUSH {
            self.step = if reply.yes {
                OWN_HUSH
            } else {
                WRITE_HUSH
            };
        } else if self.step == WRITE_HUSH {
            self.step = OWN_HUSH;
        } else if self.step == OWN_HUSH {
            self.step = MODE_HUSH;
        } else if self.step == MODE_HUSH {
            self.step = CHECK_OAUTH_FILE;
        } else if self.step == CHECK_OAUTH_FILE {
            self.step = if reply.yes {
                OWN_OAUTH
            } else {
                MAKE_BIN
            };
        } else if self.step == OWN_OAUTH {
            self.step = MODE_OAUTH;
        } else if self.step == MODE_OAUTH {
            self.step = MAKE_BIN;
        } else if self.step == MAKE_BIN {
            self.step = CHECK_CLI;
        } else if self.step == CHECK_CLI {
            self.step = if reply.yes {
                COPY_CLI
            } else {
                JOIN_GROUP
            };
        } else if self.step == COPY_CLI {
            self.step = MODE_CLI;
        } else if self.step == MODE_CLI {
            self.step = OWN_CLI;
        } else if self.step == OWN_CLI {
            self.step = JOIN_GROUP;
        } else {
            self.step = WAIT_FOR_INCUS;
        }
        Ok(())
    }
}

pub open spec fn project_next(b: BootstrapView, reply: HostReplyView) -> Result<
    BootstrapView,
    Seq<char>,
> {
    if b.step == WAIT_FOR_INCUS {
        incus_looked_for(b, reply.yes)
    } else if b.step == READ_UID {
        at(BootstrapView { project: "user-"@ + trim(reply.text), ..b }, CHECK_PROJECT)
    } else if b.step == CHECK_PROJECT {
        at(
            b,
            if reply.yes {
                RESTRICT
            } else {
                CREATE_PROJECT
            },
        )
    } else if b.step == CREATE_PROJECT {
        at(b, RESTRICT)
    } else if b.step == RESTRICT {
        at(b, ALLOW_PROXY)
    } else if b.step == ALLOW_PROXY {
        at(b, ENSURE_PROFILE)
    } else if b.step == ENSURE_PROFILE {
        at(b, MAKE_REPOS)
    } else if b.step == MAKE_REPOS {
        at(b, MAKE_HOOKS)
    } else if b.step == MAKE_HOOKS {
        at(b, WRITE_HOOK)
    } else if b.step == WRITE_HOOK {
        at(b, MODE_HOOK)
    } else if b.step == MODE_HOOK {
        at(b, NAME_HOOKS)
    } else if b.step == NAME_HOOKS {
        at(b, OWN_HOOKS)
    } else if b.step == OWN_HOOKS {
        at(b, MAKE_BUILDS)
    } else if b.step == MAKE_BUILDS {
        at(b, MAKE_STACKS)
    } else if b.step == MAKE_STACKS {
        at(b, FILL_STACKS)
    } else if b.step == FILL_STACKS {
        at(b, OWN_DIRS)
    } else if b.step == OWN_DIRS {
        at(b, WRITE_SERVICE)
    } else if b.step == WRITE_SERVICE {
        at(b, WRITE_TIMER)
    } else if b.step == WRITE_TIMER {
        at(b, MODE_UNITS)
    } else if b.step == MODE_UNITS {
        at(b, RELOAD)
    } else if b.step == RELOAD {
        at(b, ENABLE_TIMER)
    } else if b.step == ENABLE_TIMER {
        at(b, START_SERVICE)
    } else if b.step == START_SERVICE {
        at(b, FINISHED)
    } else {
        Ok(b)
    }
}

impl Bootstrap {
    fn project_next(&mut self, reply: &HostReply) -> (r: Result<(), String>)
        ensures
            moved(r, *final(self)) == project_next(old(self).deep_view(), reply.deep_view()),
    {
        if self.step == WAIT_FOR_INCUS {
            return self.incus_looked_for(reply.yes);
        } else if self.step == READ_UID {
            let mut project = String::from_str("user-");
            project.append(trimmed(reply.text.as_str()));
            self.project = project;
            self.step = CHECK_PROJECT;
        } else if self.step == CHECK_PROJECT {
            self.step = if reply.yes {
                RESTRICT
            } else {
                CREATE_PROJECT
            };
        } else if self.step == CREATE_PROJECT {
            self.step = RESTRICT;
        } else if self.step == RESTRICT {
            self.step = ALLOW_PROXY;
        } else if self.step == ALLOW_PROXY {
            self.step = ENSURE_PROFILE;
        } else if self.step == ENSURE_PROFILE {
            self.step = MAKE_REPOS;
        } else if self.step == MAKE_REPOS {
            self.step = MAKE_HOOKS;
        } else if self.step == MAKE_HOOKS {
            self.step = WRITE_HOOK;
        } else if self.step == WRITE_HOOK {
            self.step = MODE_HOOK;
        } else if self.step == MODE_HOOK {
            self.step = NAME_HOOKS;
        } else if self.step == NAME_HOOKS {
            self.step = OWN_HOOKS;
        } else if self.step == OWN_HOOKS {
            self.step = MAKE_BUILDS;
        } else if self.step == MAKE_BUILDS {
            self.step = MAKE_STACKS;
        } else if self.step == MAKE_STACKS {
            self.step = FILL_STACKS;
        } else if self.step == FILL_STACKS {
            self.step = OWN_DIRS;
        } else if self.step == OWN_DIRS {
            self.step = WRITE_SERVICE;
        } else if self.step == WRITE_SERVICE {
            self.step = WRITE_TIMER;
        } else if self.step == WRITE_TIMER {
            self.step = MODE_UNITS;
        } else if self.step == MODE_UNITS {
            self.step = RELOAD;
        } else if self.step == RELOAD {
            self.step = ENABLE_TIMER;
        } else if self.step == ENABLE_TIMER {
            self.step = START_SERVICE;
        } else if self.step == START_SERVICE {
            self.step = FINISHED;
        }
        Ok(())
    }
}

/// What comes after a step, by what came of it.
pub open spec fn bootstrap_next(b: BootstrapView, reply: HostReplyView) -> Result<
    BootstrapView,
    Seq<char>,
> {
    match reply.result {
        Err(err) => Err(err),
        Ok(_) => if b.step < CHECK_TAILSCALE {
            packages_next(b, reply)
        } else if b.step < LIST_SHELL {
            tailnet_next(b, reply)
        } else if b.step < WAIT_FOR_INCUS {
            user_next(b, reply)
        } else {
            project_next(b, reply)
        },
    }
}

/// A move of the machine: where it stands now, or why it ends.
pub open spec fn moved(r: Result<(), String>, b: Bootstrap) -> Result<BootstrapView, Seq<char>> {
    match r {
        Ok(_) => Ok(b.deep_view()),
        Err(err) => Err(err@),
    }
}

impl Bootstrap {
    pub fn new(
        psht_bin: &str,
        psht_dir: &str,
        skip_tailscale: bool,
        env_credentials: Option<(String, String)>,
    ) -> (r: Bootstrap)
        ensures
            r.deep_view() == (BootstrapView {
                psht_bin: psht_bin@,
                psht_cli: joined(psht_dir@, "psht"@),
                skip_tailscale,
                env_credentials: env_credentials.deep_view(),
                step: CHECK_INCUS,
                checks: 0,
                codename: ""@,
                arch: ""@,
                project: ""@,
                oauth_text: ""@,
            }),
    {
        Bootstrap {
            psht_bin: psht_bin.to_owned(),
            psht_cli: path_join(psht_dir, "psht"),
            skip_tailscale,
            env_credentials,
            step: CHECK_INCUS,
            checks: 0,
            codename: String::from_str(""),
            arch: String::from_str(""),
            project: String::from_str(""),
            oauth_text: String::from_str(""),
        }
    }

    fn after_packages(&self) -> (r: u8)
        ensures
            r == after_packages(self.deep_view()),
    {
        if self.skip_tailscale {
            LIST_SHELL
        } else {
            CHECK_TAILSCALE
        }
    }

    fn codename_known(&mut self, os_release: &str) -> (r: Result<(), String>)
        ensures
            moved(r, *final(self)) == codename_known(old(self).deep_view(), os_release@),
    {
        match os_release_codename(os_release) {
            Ok(codename) => {
                self.codename = codename;
                self.step = READ_ARCH;
                Ok(())
            },
            Err(err) => Err(err),
        }
    }

    fn credentials_given(&mut self, id: &str, secret: &str) -> (r: Result<(), String>)
        ensures
            moved(r, *final(self)) == credentials_given(old(self).deep_view(), id@, secret@),
    {
        match oauth_config_text(id, secret) {
            Ok(text) => {
                self.oauth_text = text;
                self.step = WRITE_OAUTH;
                Ok(())
            },
            Err(err) => Err(err),
        }
    }

    fn oauth_looked_for(&mut self, found: bool) -> (r: Result<(), String>)
        ensures
            moved(r, *final(self)) == oauth_looked_for(old(self).deep_view(), found),
    {
        if found {
            self.step = VALIDATE_OAUTH;
            return Ok(());
        }
        if let Some((id, secret)) = &self.env_credentials {
            let id = trimmed(id.as_str()).to_owned();
            let secret = trimmed(secret.as_str()).to_owned();
            if !id.as_str().is_empty() && !secret.as_str().is_empty() {
                return self.credentials_given(id.as_str(), secret.as_str());
            }
        }
        self.step = ASK_STEPS;
        Ok(())
    }

    fn incus_looked_for(&mut self, found: bool) -> (r: Result<(), String>)
        ensures
            moved(r, *final(self)) == incus_looked_for(old(self).deep_view(), found),
    {
        if found {
            self.step = READ_UID;
            return Ok(());
        }
        if self.checks < INCUS_READY_CHECKS - 1 {
            self.checks = self.checks + 1;
            return Ok(());
        }
        Err(String::from_str("incus did not become ready after 30 seconds"))
    }

    /// What is to be done now.
    pub fn action(&self) -> (r: HostAction)
        ensures
            r.deep_view() == action_of(self.deep_view()),
    {
        if self.step < CHECK_TAILSCALE {
            self.packages_action()
        } else if self.step < LIST_SHELL {
            self.tailnet_action()
        } else if self.step < WAIT_FOR_INCUS {
            self.user_action()
        } else {
            self.project_action()
        }
    }

    /// Goes on by what came of it, or ends with an error.
    pub fn advance(&mut self, reply: &HostReply) -> (r: Result<(), String>)
        ensures
            moved(r, *final(self)) == bootstrap_next(old(self).deep_view(), reply.deep_view()),
    {
        if let Err(err) = &reply.result {
            return Err(err.clone());
        }
        if self.step < CHECK_TAILSCALE {
            self.packages_next(reply)
        } else if self.step < LIST_SHELL {
            self.tailnet_next(reply)
        } else if self.step < WAIT_FOR_INCUS {
            self.user_next(reply)
        } else {
            self.project_next(reply)
        }
    }
}

/// How much is left to do at most.
pub open spec fn work_left(b: BootstrapView) -> int {
    (FINISHED - b.step) * (INCUS_READY_CHECKS + 1) + INCUS_READY_CHECKS - b.checks
}

/// Every setting up ends: each step leaves less to do, or fails.
pub proof fn bootstraps_end(b: BootstrapView, reply: HostReplyView)
    requires
        b.step < FINISHED,
        b.checks < INCUS_READY_CHECKS,
    ensures
        bootstrap_next(b, reply) matches Ok(after) ==> {
            &&& 0 <= work_left(after) < work_left(b)
            &&& after.step <= FINISHED
            &&& after.checks < INCUS_READY_CHECKS
        },
{
}

/// Whether a step is about the tailnet.
pub open spec fn about_tailnet(step: u8) -> bool {
    CHECK_TAILSCALE <= step < LIST_SHELL
}

/// A host that is to do without the tailnet is set up without it: no step about it is
/// ever taken.
pub proof fn the_tailnet_is_left_alone(b: BootstrapView, reply: HostReplyView)
    requires
        b.skip_tailscale,
        b.step <= FINISHED,
        !about_tailnet(b.step),
    ensures
        bootstrap_next(b, reply) matches Ok(after) ==> after.skip_tailscale && !about_tailnet(
            after.step,
        ),
{
}

/// A host that is to use the tailnet gets no user before its credentials for it were
/// found good.
pub proof fn credentials_come_first(b: BootstrapView, reply: HostReplyView)
    requires
        !b.skip_tailscale,
        b.step < LIST_SHELL,
    ensures
        bootstrap_next(b, reply) matches Ok(after) ==> (after.step >= LIST_SHELL ==> b.step
            == VALIDATE_OAUTH),
{
}

/// The course of setting up, by the replies to its steps.
pub open spec fn bootstrap_run(b: BootstrapView, replies: Seq<HostReplyView>) -> Result<
    BootstrapView,
    Seq<char>,
>
    decreases replies.len(),
{
    if replies.len() == 0 {
        Ok(b)
    } else {
        match bootstrap_run(b, replies.drop_last()) {
            Ok(before) => bootstrap_next(before, replies.last()),
            Err(err) => Err(err),
        }
    }
}

/// Whether something was done in the course of setting up, and succeeded.
pub open spec fn done(
    b: BootstrapView,
    replies: Seq<HostReplyView>,
    what: spec_fn(BootstrapView, HostReplyView) -> bool,
) -> bool {
    exists|i: int|
        0 <= i < replies.len() && (#[trigger] bootstrap_run(b, replies.take(i)) matches Ok(
            before,
        ) && replies[i].result is Ok && before.psht_bin == b.psht_bin && what(before, replies[i]))
}

/// That a step is taken.
pub open spec fn takes(step: u8) -> spec_fn(BootstrapView, HostReplyView) -> bool {
    |b: BootstrapView, reply: HostReplyView| b.step == step
}

/// That one of two steps is taken.
pub open spec fn takes_either(one: u8, other: u8) -> spec_fn(BootstrapView, HostReplyView) -> bool {
    |b: BootstrapView, reply: HostReplyView| b.step == one || b.step == other
}

/// That a step is taken, or that another step finds it to be needless.
pub open spec fn takes_unless(probe: u8, step: u8) -> spec_fn(BootstrapView, HostReplyView) -> bool {
    |b: BootstrapView, reply: HostReplyView| b.step == step || b.step == probe && reply.yes
}

/// That an action is carried out.
pub open spec fn does(action: HostActionView) -> spec_fn(BootstrapView, HostReplyView) -> bool {
    |b: BootstrapView, reply: HostReplyView| action_of(b) == action
}

/// The steps that no host is set up without.
pub open spec fn is_needed(step: u8) -> bool {
    step == START_SOCKETS || step == LIST_SHELL || step == CHECK_USER || JOIN_GROUP <= step
        <= CHECK_PROJECT || RESTRICT <= step < FINISHED
}

/// What is not done before a step is not yet past it.
spec fn brings_past(
    what: spec_fn(BootstrapView, HostReplyView) -> bool,
    mark: u8,
    b: BootstrapView,
    reply: HostReplyView,
) -> bool {
    b.step <= FINISHED ==> (bootstrap_next(b, reply) matches Ok(after) ==> {
        &&& after.step <= FINISHED
        &&& after.psht_bin == b.psht_bin
        &&& after.step > mark ==> b.step > mark || reply.result is Ok && what(b, reply)
    })
}

proof fn what_brings_past_is_done(
    b: BootstrapView,
    replies: Seq<HostReplyView>,
    what: spec_fn(BootstrapView, HostReplyView) -> bool,
    mark: u8,
)
    requires
        b.step <= mark,
        b.step <= FINISHED,
        forall|c: BootstrapView, reply: HostReplyView| #[trigger]
            brings_past(what, mark, c, reply),
    ensures
        bootstrap_run(b, replies) matches Ok(after) ==> {
            &&& after.step <= FINISHED
            &&& after.psht_bin == b.psht_bin
            &&& after.step > mark ==> done(b, replies, what)
        },
    decreases replies.len(),
{
    if replies.len() > 0 && bootstrap_run(b, replies) is Ok {
        let earlier = replies.drop_last();
        let last = replies.len() - 1;
        what_brings_past_is_done(b, earlier, what, mark);
        let before = bootstrap_run(b, earlier)->Ok_0;
        let after = bootstrap_run(b, replies)->Ok_0;
        assert(brings_past(what, mark, before, replies.last()));
        if after.step > mark {
            if before.step > mark {
                let i = choose|i: int|
                    0 <= i < earlier.len() && (#[trigger] bootstrap_run(b, earlier.take(i))
                        matches Ok(c) && earlier[i].result is Ok && c.psht_bin == b.psht_bin
                        && what(c, earlier[i]));
                assert(replies.take(i) =~= earlier.take(i));
                assert(replies[i] == earlier[i]);
                assert(bootstrap_run(b, replies.take(i)) is Ok);
            } else {
                assert(replies.take(last) =~= earlier);
                assert(bootstrap_run(b, replies.take(last)) is Ok);
                assert(replies[last] == replies.last());
            }
        }
    }
}

/// A host that is set up has incus, the user with the shell and the group, the project,
/// the directories, the hooks of its repositories and the timer: what sets each of them up
/// was done and succeeded, or was found to be done before.
pub proof fn hosts_that_are_set_up_have_it_all(b: BootstrapView, replies: Seq<HostReplyView>)
    requires
        b.step == CHECK_INCUS,
    ensures
        bootstrap_run(b, replies) matches Ok(after) && after.step == FINISHED ==> {
            &&& done(b, replies, takes_unless(CHECK_INCUS, INSTALL_INCUS))
            &&& done(b, replies, takes_either(ADD_USER, CHANGE_SHELL))
            &&& done(b, replies, takes_unless(CHECK_PROJECT, CREATE_PROJECT))
            &&& forall|step: u8| #[trigger] is_needed(step) ==> done(b, replies, takes(step))
        },
{
    let incus = takes_unless(CHECK_INCUS, INSTALL_INCUS);
    assert forall|c: BootstrapView, reply: HostReplyView| #[trigger]
        brings_past(incus, INSTALL_INCUS, c, reply) by {}
    what_brings_past_is_done(b, replies, incus, INSTALL_INCUS);
    let user = takes_either(ADD_USER, CHANGE_SHELL);
    assert forall|c: BootstrapView, reply: HostReplyView| #[trigger]
        brings_past(user, CHANGE_SHELL, c, reply) by {}
    what_brings_past_is_done(b, replies, user, CHANGE_SHELL);
    let project = takes_unless(CHECK_PROJECT, CREATE_PROJECT);
    assert forall|c: BootstrapView, reply: HostReplyView| #[trigger]
        brings_past(project, CREATE_PROJECT, c, reply) by {}
    what_brings_past_is_done(b, replies, project, CREATE_PROJECT);
    assert forall|step: u8| #[trigger] is_needed(step) && bootstrap_run(b, replies) is Ok
        && bootstrap_run(b, replies)->Ok_0.step == FINISHED implies done(
        b,
        replies,
        takes(step),
    ) by {
        let what = takes(step);
        assert forall|c: BootstrapView, reply: HostReplyView| #[trigger]
            brings_past(what, step, c, reply) by {
            if c.step <= FINISHED {
                needed_steps_are_not_passed(c, reply, step);
            }
        }
        what_brings_past_is_done(b, replies, what, step);
    }
}

proof fn needed_steps_are_not_passed(b: BootstrapView, reply: HostReplyView, step: u8)
    requires
        is_needed(step),
        b.step <= FINISHED,
    ensures
        bootstrap_next(b, reply) matches Ok(after) ==> {
            &&& after.step <= FINISHED
            &&& after.psht_bin == b.psht_bin
            &&& after.step > step ==> b.step > step || reply.result is Ok && b.step == step
        },
{
}

/// A host that is set up has the hook that deploys what is pushed: it was written, made
/// executable, named in git's settings and given to the user.
pub proof fn pushes_start_deploys(b: BootstrapView, replies: Seq<HostReplyView>)
    requires
        b.step == CHECK_INCUS,
    ensures
        bootstrap_run(b, replies) matches Ok(after) && after.step == FINISHED ==> {
            &&& done(
                b,
                replies,
                does(HostActionView::Write(POST_RECEIVE_PATH@, hook_text(b.psht_bin))),
            )
            &&& done(
                b,
                replies,
                does(HostActionView::Run(seq!["chmod"@, "755"@, POST_RECEIVE_PATH@])),
            )
            &&& done(b, replies, does(HostActionView::AddLine(GIT_CONFIG_PATH@, HOOKS_SETTING@)))
            &&& done(
                b,
                replies,
                does(
                    HostActionView::Run(
                        seq!["chown"@, "-R"@, "psht:psht"@, HOOKS_PATH@, GIT_CONFIG_PATH@],
                    ),
                ),
            )
        },
{
    hosts_that_are_set_up_have_it_all(b, replies);
    if bootstrap_run(b, replies) is Ok && bootstrap_run(b, replies)->Ok_0.step == FINISHED {
        assert(is_needed(WRITE_HOOK) && is_needed(MODE_HOOK) && is_needed(NAME_HOOKS)
            && is_needed(OWN_HOOKS));
        steps_are_carried_out(
            b,
            replies,
            WRITE_HOOK,
            HostActionView::Write(POST_RECEIVE_PATH@, hook_text(b.psht_bin)),
        );
        steps_are_carried_out(
            b,
            replies,
            MODE_HOOK,
            HostActionView::Run(seq!["chmod"@, "755"@, POST_RECEIVE_PATH@]),
        );
        steps_are_carried_out(
            b,
            replies,
            NAME_HOOKS,
            HostActionView::AddLine(GIT_CONFIG_PATH@, HOOKS_SETTING@),
        );
        steps_are_carried_out(
            b,
            replies,
            OWN_HOOKS,
            HostActionView::Run(
                seq!["chown"@, "-R"@, "psht:psht"@, HOOKS_PATH@, GIT_CONFIG_PATH@],
            ),
        );
    }
}

/// A host that is set up has the user, with the program of the host as its shell and in
/// the group of incus.
pub proof fn the_user_has_its_shell_and_group(b: BootstrapView, replies: Seq<HostReplyView>)
    requires
        b.step == CHECK_INCUS,
    ensures
        bootstrap_run(b, replies) matches Ok(after) && after.step == FINISHED ==> {
            let made = HostActionView::Run(
                seq!["useradd"@, "-m"@, "-s"@, b.psht_bin, "psht"@],
            );
            let changed = HostActionView::Run(seq!["chsh"@, "-s"@, b.psht_bin, "psht"@]);
            &&& done(b, replies, does(made)) || done(b, replies, does(changed))
            &&& done(
                b,
                replies,
                does(HostActionView::Run(seq!["usermod"@, "-aG"@, "incus"@, "psht"@])),
            )
        },
{
    hosts_that_are_set_up_have_it_all(b, replies);
    if bootstrap_run(b, replies) is Ok && bootstrap_run(b, replies)->Ok_0.step == FINISHED {
        assert(is_needed(JOIN_GROUP));
        steps_are_carried_out(
            b,
            replies,
            JOIN_GROUP,
            HostActionView::Run(seq!["usermod"@, "-aG"@, "incus"@, "psht"@]),
        );
        let made = HostActionView::Run(seq!["useradd"@, "-m"@, "-s"@, b.psht_bin, "psht"@]);
        let changed = HostActionView::Run(seq!["chsh"@, "-s"@, b.psht_bin, "psht"@]);
        let either = takes_either(ADD_USER, CHANGE_SHELL);
        let i = choose|i: int|
            0 <= i < replies.len() && (#[trigger] bootstrap_run(b, replies.take(i)) matches Ok(c)
                && replies[i].result is Ok && c.psht_bin == b.psht_bin && either(c, replies[i]));
        let before = bootstrap_run(b, replies.take(i))->Ok_0;
        if before.step == ADD_USER {
            assert(does(made)(before, replies[i]));
        } else {
            assert(does(changed)(before, replies[i]));
        }
    }
}

proof fn steps_are_carried_out(
    b: BootstrapView,
    replies: Seq<HostReplyView>,
    step: u8,
    action: HostActionView,
)
    requires
        done(b, replies, takes(step)),
        forall|c: BootstrapView|
            c.step == step && c.psht_bin == b.psht_bin ==> #[trigger] action_of(c) == action,
    ensures
        done(b, replies, does(action)),
{
    let i = choose|i: int|
        0 <= i < replies.len() && (#[trigger] bootstrap_run(b, replies.take(i)) matches Ok(c)
            && replies[i].result is Ok && c.psht_bin == b.psht_bin && takes(step)(c, replies[i]));
    let before = bootstrap_run(b, replies.take(i))->Ok_0;
    assert(action_of(before) == action);
    assert(does(action)(before, replies[i]));
}

/// Whether an answer says that the steps that only a person can take were taken.
pub fn steps_confirmed(answer: &str) -> (r: bool)
    ensures
        r == (answer@ == "y"@ || answer@ == "Y"@),
{
    same(answer, "y") || same(answer, "Y")
}

/// The steps of a bootstrap follow one another, and each but a question must succeed. What
/// is found to be there is not made again: incus, curl, the default profile, SSH in the
/// tailnet, the credentials, the user, the file that hushes the login and the project. What
/// is not there is not worked on: the credentials and the program for workstations. Without
/// the tailnet all that is about it is passed over.
pub proof fn bootstraps_take_these_steps(b: BootstrapView, reply: HostReplyView)
    requires
        b.step < FINISHED,
        reply.result is Ok,
        b.step != WAIT_FOR_INCUS,
        bootstrap_next(b, reply) is Ok,
    ensures
        ({
            let after = bootstrap_next(b, reply)->Ok_0.step;
            let found = reply.yes;
            let env = b.env_credentials is Some && trim((b.env_credentials->0).0).len() > 0 && trim(
                (b.env_credentials->0).1,
            ).len() > 0;
            if b.step == CHECK_INCUS && found {
                after == START_SOCKETS
            } else if b.step == CHECK_CURL && found {
                after == MAKE_KEYRINGS
            } else if b.skip_tailscale && (b.step == INIT_INCUS || b.step == CHECK_PROFILE
                && found) {
                after == LIST_SHELL
            } else if b.step == CHECK_PROFILE && found {
                after == CHECK_TAILSCALE
            } else if b.step == CHECK_SSH && found {
                after == CHECK_OAUTH
            } else if b.step == CHECK_OAUTH && found {
                after == VALIDATE_OAUTH
            } else if b.step == CHECK_OAUTH && env {
                after == WRITE_OAUTH
            } else if b.step == CHECK_USER && found {
                after == CHANGE_SHELL
            } else if b.step == ADD_USER {
                after == MAKE_HOME
            } else if b.step == CHECK_HUSH && found {
                after == OWN_HUSH
            } else if b.step == CHECK_OAUTH_FILE && !found {
                after == MAKE_BIN
            } else if b.step == CHECK_CLI && !found {
                after == JOIN_GROUP
            } else if b.step == CHECK_PROJECT && found {
                after == RESTRICT
            } else {
                after == b.step + 1
            }
        }),
{
}

/// A bootstrap is refused where a step fails, where the tailnet is used but its client is
/// not installed or not connected, where what only a person can do was not done, where the
/// credentials are not given, where the release of the system is not known, and where
/// incus does not come up in thirty looks; and nowhere else.
pub proof fn bootstraps_are_refused_for_these_reasons(b: BootstrapView, reply: HostReplyView)
    ensures
        bootstrap_next(b, reply) is Err <==> {
            ||| reply.result is Err
            ||| (b.step == CHECK_TAILSCALE || b.step == CHECK_CONNECTED || b.step == ASK_STEPS)
                && !reply.yes
            ||| b.step == ASK_CREDENTIALS && (trim(reply.text).len() == 0 || trim(
                reply.second,
            ).len() == 0)
            ||| b.step == READ_CODENAME && first_codename(lines(reply.text)) is None
            ||| b.step == WAIT_FOR_INCUS && !reply.yes && b.checks >= 29
        },
{
}

/// What a bootstrap learns it keeps: the release and the architecture of the system for the
/// source of the packages, the credentials for their file, and the number of the user for
/// the name of its project.
pub proof fn bootstraps_keep_what_they_learn(b: BootstrapView, reply: HostReplyView)
    ensures
        bootstrap_next(b, reply) matches Ok(after) ==> {
            &&& after.psht_bin == b.psht_bin && after.psht_cli == b.psht_cli
            &&& after.skip_tailscale == b.skip_tailscale
            &&& b.step == READ_CODENAME ==> first_codename(lines(reply.text)) == Some(
                after.codename,
            )
            &&& b.step != READ_CODENAME ==> after.codename == b.codename
            &&& after.arch == if b.step == READ_ARCH {
                reply.text
            } else {
                b.arch
            }
            &&& after.project == if b.step == READ_UID {
                "user-"@ + trim(reply.text)
            } else {
                b.project
            }
            &&& b.step == ASK_CREDENTIALS ==> after.oauth_text == "TS_OAUTH_CLIENT_ID="@ + trim(
                reply.text,
            ) + "\nTS_OAUTH_CLIENT_SECRET="@ + trim(reply.second) + "\n"@
        },
{
}

/// What belongs to the user is given to the user, and nobody else can read the credentials
/// for the tailnet: the commands that see to this are those of their steps. The project of
/// the user is restricted, but may forward ports.
pub proof fn users_own_what_is_theirs(b: BootstrapView)
    ensures
        b.step == OWN_HOME ==> action_of(b) == HostActionView::Run(
            seq!["chown"@, "psht:psht"@, "/home/psht"@],
        ),
        b.step == OWN_CONFIG ==> action_of(b) == HostActionView::Run(
            seq!["chown"@, "-R"@, "psht:psht"@, "/home/psht/.config"@],
        ),
        b.step == OWN_OAUTH ==> action_of(b) == HostActionView::Run(
            seq!["chown"@, "psht:psht"@, OAUTH_CONFIG_PATH@],
        ),
        b.step == MODE_OAUTH ==> action_of(b) == HostActionView::Run(
            seq!["chmod"@, "600"@, OAUTH_CONFIG_PATH@],
        ),
        b.step == COPY_CLI ==> action_of(b) == HostActionView::Copy(
            b.psht_cli,
            "/home/psht/bin/psht"@,
        ),
        b.step == MODE_CLI ==> action_of(b) == HostActionView::Run(
            seq!["chmod"@, "755"@, "/home/psht/bin/psht"@],
        ),
        b.step == OWN_DIRS ==> action_of(b) == HostActionView::Run(
            seq![
                "chown"@,
                "-R"@,
                "psht:psht"@,
                "/home/psht/repos"@,
                "/home/psht/builds"@,
                "/home/psht/stacks"@,
            ],
        ),
        b.step == CREATE_PROJECT ==> action_of(b) == HostActionView::Run(
            seq!["incus"@, "project"@, "create"@, b.project],
        ),
        b.step == RESTRICT ==> action_of(b) == HostActionView::Run(
            seq!["incus"@, "project"@, "set"@, b.project, "restricted=true"@],
        ),
        b.step == ALLOW_PROXY ==> action_of(b) == HostActionView::Run(
            seq!["incus"@, "project"@, "set"@, b.project, "restricted.devices.proxy=allow"@],
        ),
        b.step == ENSURE_PROFILE ==> action_of(b) == HostActionView::EnsureProfile(b.project),
        b.step == WRITE_OAUTH ==> action_of(b) == HostActionView::Write(
            OAUTH_CONFIG_PATH@,
            b.oauth_text,
        ),
        b.step == VALIDATE_OAUTH ==> action_of(b) == HostActionView::CheckOauth(
            OAUTH_CONFIG_PATH@,
        ),
{
}

/// What is asked for, what is made and what is started is asked, made and started in steps
/// of its own: no question is taken for an order, and the end is the end.
pub proof fn steps_ask_or_act(b: BootstrapView)
    requires
        b.step <= FINISHED,
    ensures
        ({
            let a = action_of(b);
            let asks = a is Probe || a is HasCommand || a is Exists || a is AskSsh || a
                is AskSteps;
            &&& a is Finished <==> b.step == FINISHED
            &&& asks <==> {
                ||| b.step == CHECK_INCUS
                ||| b.step == CHECK_CURL
                ||| b.step == CHECK_PROFILE
                ||| b.step == CHECK_TAILSCALE
                ||| b.step == CHECK_CONNECTED
                ||| b.step == CHECK_SSH
                ||| b.step == CHECK_OAUTH
                ||| b.step == ASK_STEPS
                ||| b.step == CHECK_USER
                ||| b.step == CHECK_HUSH
                ||| b.step == CHECK_OAUTH_FILE
                ||| b.step == CHECK_CLI
                ||| b.step == WAIT_FOR_INCUS
                ||| b.step == CHECK_PROJECT
            }
            &&& a is Try <==> b.step == START_SOCKETS
            &&& a is Capture <==> b.step == READ_ARCH || b.step == READ_UID
        }),
{
}

} // verus!
