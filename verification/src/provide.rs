//! How the host provides the program for workstations, and how it upgrades itself.

use vstd::prelude::*;
use crate::number::{decimal, decimal_of};
use crate::paths::{is_same_path, same_path};
use crate::release::{asset_url, cli_release_url, newer, server_release_url, version_is_newer};
use crate::split::{join, join_with, split, split_at_each};
use crate::text::{outcome, push_text, same, trim, trimmed};

verus! {

pub open spec fn or_unknown(version: Option<Seq<char>>) -> Seq<char> {
    match version {
        Some(version) => version,
        None => "unknown"@,
    }
}

fn told(version: Option<&str>) -> (r: String)
    ensures
        r@ == or_unknown(version.deep_view()),
{
    match version {
        Some(version) => version.to_owned(),
        None => String::from_str("unknown"),
    }
}

/// Whether a binary tells the version that is expected.
pub fn binary_matches_version(version: Option<&str>, expected: &str) -> (r: bool)
    ensures
        r == (version.deep_view() == Some(expected@)),
{
    match version {
        Some(version) => same(version, expected),
        None => false,
    }
}

// ---------------------------------------------------------------------------
// The program for workstations
// ---------------------------------------------------------------------------

/// What follows the attempt to build the program from source.
pub enum AfterBuild {
    /// It was built: see which version it is.
    Inspect,
    /// There is no source, or it does not build: download a release.
    Download(Option<String>),
}

pub fn after_build(built: &Result<bool, String>) -> (r: AfterBuild)
    ensures
        match *built {
            Ok(true) => r is Inspect,
            Ok(false) => r == AfterBuild::Download(None),
            Err(err) => r matches AfterBuild::Download(Some(kept)) && kept@ == err@,
        },
{
    match built {
        Ok(true) => AfterBuild::Inspect,
        Ok(false) => AfterBuild::Download(None),
        Err(err) => AfterBuild::Download(Some(err.clone())),
    }
}

pub open spec fn provided_verdict(
    expected: Seq<char>,
    how: Seq<char>,
    version: Option<Seq<char>>,
) -> Result<(), Seq<char>> {
    if version == Some(expected) {
        Ok(())
    } else {
        Err(
            "failed to provide psht "@ + expected + ": "@ + how + " version was "@ + or_unknown(
                version,
            ),
        )
    }
}

/// Whether the program that was built or installed is the one to provide; `how` says
/// which of the two.
pub fn provided(expected: &str, how: &str, version: Option<&str>) -> (r: Result<(), String>)
    ensures
        outcome(r) == provided_verdict(expected@, how@, version.deep_view()),
{
    if binary_matches_version(version, expected) {
        return Ok(());
    }
    let mut message = String::from_str("failed to provide psht ");
    message.append(expected);
    message.append(": ");
    message.append(how);
    message.append(" version was ");
    let installed = told(version);
    message.append(installed.as_str());
    Err(message)
}

/// The error where no release could be downloaded, after the build failed or was not
/// tried.
pub fn not_provided_error(build_err: &Option<String>, download_err: &str) -> (r: String)
    ensures
        r@ == match build_err.deep_view() {
            Some(build_err) => "failed to provide psht (build failed: "@ + build_err
                + "; release download failed: "@ + download_err@ + ")"@,
            None => "failed to provide psht: "@ + download_err@,
        },
{
    match build_err {
        Some(build_err) => {
            let mut message = String::from_str("failed to provide psht (build failed: ");
            message.append(build_err.as_str());
            message.append("; release download failed: ");
            message.append(download_err);
            message.append(")");
            message
        },
        None => {
            let mut message = String::from_str("failed to provide psht: ");
            message.append(download_err);
            message
        },
    }
}

/// Whether a build from source left a binary, or why not.
pub fn source_built(dir: &str, success: bool, stderr: &str, built: &str, is_file: bool) -> (r: Result<
    (),
    String,
>)
    ensures
        outcome(r) == if !success {
            if trim(stderr@).len() == 0 {
                Err::<(), Seq<char>>("cargo build failed in "@ + dir@)
            } else {
                Err("cargo build failed in "@ + dir@ + ": "@ + trim(stderr@))
            }
        } else if !is_file {
            Err("cargo build succeeded but "@ + built@ + " was not created"@)
        } else {
            Ok(())
        },
{
    if !success {
        let mut message = String::from_str("cargo build failed in ");
        message.append(dir);
        let stderr = trimmed(stderr);
        if !stderr.is_empty() {
            message.append(": ");
            message.append(stderr);
        }
        return Err(message);
    }
    if !is_file {
        let mut message = String::from_str("cargo build succeeded but ");
        message.append(built);
        message.append(" was not created");
        return Err(message);
    }
    Ok(())
}

/// Why a release could not be had.
pub enum ReleaseFailure {
    Download(String),
    Unpack(String),
    NoBinary,
}

/// The search for a release that can be had, version after version.
pub struct ReleaseSearch {
    pub current: String,
    pub versions: Vec<String>,
    pub forge_url: String,
    pub target: String,
    pub tried: usize,
    pub errors: Vec<String>,
}

/// The mathematical form of the search.
#[verifier::ext_equal]
pub struct ReleaseSearchView {
    pub current: Seq<char>,
    pub versions: Seq<Seq<char>>,
    pub forge_url: Seq<char>,
    pub target: Seq<char>,
    pub tried: nat,
    pub errors: Seq<Seq<char>>,
}

impl DeepView for ReleaseSearch {
    type V = ReleaseSearchView;

    open spec fn deep_view(&self) -> ReleaseSearchView {
        ReleaseSearchView {
            current: self.current@,
            versions: self.versions.deep_view(),
            forge_url: self.forge_url@,
            target: self.target@,
            tried: self.tried as nat,
            errors: self.errors.deep_view(),
        }
    }
}

impl ReleaseSearchView {
    /// Each version that was tried left its error.
    pub open spec fn wf(self) -> bool {
        self.tried <= self.versions.len() && self.errors.len() == self.tried
    }

    pub open spec fn url(self) -> Seq<char> {
        asset_url(self.forge_url, "psht"@, self.versions[self.tried as int], self.target)
    }

    pub open spec fn error(self, failure: ReleaseFailure) -> Seq<char> {
        let version = self.versions[self.tried as int];
        match failure {
            ReleaseFailure::Download(err) => version + ": "@ + self.url() + ": "@ + err@,
            ReleaseFailure::Unpack(err) => version + ": "@ + err@,
            ReleaseFailure::NoBinary => version + ": release tarball did not contain psht"@,
        }
    }
}

impl ReleaseSearch {
    pub fn new(current: &str, versions: Vec<String>, forge_url: &str, target: &str) -> (r:
        ReleaseSearch)
        ensures
            r.deep_view() == (ReleaseSearchView {
                current: current@,
                versions: versions.deep_view(),
                forge_url: forge_url@,
                target: target@,
                tried: 0,
                errors: Seq::empty(),
            }),
            r.deep_view().wf(),
    {
        let errors: Vec<String> = Vec::new();
        assert(errors.deep_view() =~= Seq::empty());
        ReleaseSearch {
            current: current.to_owned(),
            versions,
            forge_url: forge_url.to_owned(),
            target: target.to_owned(),
            tried: 0,
            errors,
        }
    }

    /// The address to try next, or the error where all were tried.
    pub fn url(&self) -> (r: Result<String, String>)
        requires
            self.deep_view().wf(),
        ensures
            outcome(r) == if self.tried < self.versions@.len() {
                Ok::<Seq<char>, Seq<char>>(self.deep_view().url())
            } else {
                Err("release download attempts failed: "@ + join(self.errors.deep_view(), "; "@))
            },
    {
        if self.tried < self.versions.len() {
            return Ok(
                cli_release_url(
                    self.forge_url.as_str(),
                    self.versions[self.tried].as_str(),
                    self.target.as_str(),
                ),
            );
        }
        let mut message = String::from_str("release download attempts failed: ");
        let list = join_with(&self.errors, "; ");
        message.append(list.as_str());
        Err(message)
    }

    /// Notes why the release that was tried could not be had, and goes on to the next.
    pub fn failed(&mut self, failure: &ReleaseFailure)
        requires
            old(self).deep_view().wf(),
            old(self).tried < old(self).versions@.len(),
        ensures
            final(self).deep_view() == (ReleaseSearchView {
                tried: old(self).deep_view().tried + 1,
                errors: old(self).deep_view().errors.push(old(self).deep_view().error(*failure)),
                ..old(self).deep_view()
            }),
            final(self).deep_view().wf(),
    {
        let mut line = self.versions[self.tried].clone();
        line.append(": ");
        match failure {
            ReleaseFailure::Download(err) => {
                let url = cli_release_url(
                    self.forge_url.as_str(),
                    self.versions[self.tried].as_str(),
                    self.target.as_str(),
                );
                line.append(url.as_str());
                line.append(": ");
                line.append(err.as_str());
            },
            ReleaseFailure::Unpack(err) => {
                line.append(err.as_str());
            },
            ReleaseFailure::NoBinary => {
                line = self.versions[self.tried].clone();
                line.append(": release tarball did not contain psht");
            },
        }
        push_text(&mut self.errors, line);
        let total: usize = self.versions.len();
        assert(self.tried < total);
        self.tried = self.tried + 1;
    }

    /// The line for a release that is not the one of this host.
    pub fn used_line(&self) -> (r: Option<String>)
        requires
            self.deep_view().wf(),
            self.tried < self.versions@.len(),
        ensures
            r.deep_view() == if self.tried > 0 {
                Some(
                    "-----> psht "@ + self.current@ + " not published; using released psht "@
                        + self.versions@[self.tried as int]@,
                )
            } else {
                None
            },
    {
        if self.tried == 0 {
            return None;
        }
        let mut line = String::from_str("-----> psht ");
        line.append(self.current.as_str());
        line.append(" not published; using released psht ");
        line.append(self.versions[self.tried].as_str());
        Some(line)
    }
}

// ---------------------------------------------------------------------------
// The program of the host
// ---------------------------------------------------------------------------

pub const SERVER_BINARY_FALLBACK: &'static str = "/usr/local/bin/psht-server";

/// Which binary the host is set up with.
#[derive(Clone, Copy, PartialEq, Eq, Structural, Debug)]
pub enum ServerBinary {
    /// The one that runs.
    Current,
    /// The one at the usual place, after that is made a copy of the one that runs, or is
    /// it already.
    Fallback { copy: bool },
}

/// The program of the server that is used.
pub open spec fn spec_server_binary(resolved: Seq<char>, world_executable: bool) -> ServerBinary {
    if world_executable {
        ServerBinary::Current
    } else {
        ServerBinary::Fallback { copy: !same_path(resolved, SERVER_BINARY_FALLBACK@) }
    }
}

/// The binary that the host is set up with: the one that runs, where everybody can run
/// it.
pub fn prepare_server_binary(resolved: &str, world_executable: bool) -> (r: ServerBinary)
    ensures
        r == spec_server_binary(resolved@, world_executable),
{
    if world_executable {
        ServerBinary::Current
    } else {
        ServerBinary::Fallback { copy: !is_same_path(resolved, SERVER_BINARY_FALLBACK) }
    }
}

/// The shell of a user, by the line that `getent passwd` prints of them.
pub open spec fn shell_in(line: Option<Seq<char>>) -> Option<Seq<char>> {
    match line {
        Some(line) => {
            let fields = split(line, ":"@);
            if fields.len() > 6 && trim(fields[6]).len() > 0 {
                Some(trim(fields[6]))
            } else {
                None
            }
        },
        None => None,
    }
}

pub fn psht_user_shell_path(line: Option<&str>) -> (r: Option<String>)
    ensures
        r.deep_view() == shell_in(line.deep_view()),
{
    if let Some(line) = line {
        let fields = split_at_each(line, ":");
        if fields.len() > 6 {
            let ghost views = fields.deep_view();
            assert(views[6] == fields@[6]@);
            let shell = trimmed(fields[6].as_str());
            if !shell.is_empty() {
                return Some(shell.to_owned());
            }
        }
    }
    None
}

pub open spec fn mismatch(
    label: Seq<char>,
    path: Seq<char>,
    expected: Seq<char>,
    version: Option<Seq<char>>,
) -> Result<(), Seq<char>> {
    if or_unknown(version) == expected {
        Ok(())
    } else {
        Err(
            label + " version mismatch at "@ + path + ": expected "@ + expected + ", got "@
                + or_unknown(version),
        )
    }
}

pub fn ensure_binary_version(path: &str, expected: &str, label: &str, version: Option<&str>) -> (r: Result<
    (),
    String,
>)
    ensures
        outcome(r) == mismatch(label@, path@, expected@, version.deep_view()),
{
    let installed = told(version);
    if same(installed.as_str(), expected) {
        return Ok(());
    }
    let mut message = label.to_owned();
    message.append(" version mismatch at ");
    message.append(path);
    message.append(": expected ");
    message.append(expected);
    message.append(", got ");
    message.append(installed.as_str());
    Err(message)
}

/// The name under which a program is staged beside the place where it is installed.
pub fn staged_binary_name(file_name: &str, process_id: u32, unique: &str) -> (r: String)
    ensures
        r@ == "."@ + file_name@ + ".psht-staged-"@ + decimal(process_id as nat) + "-"@ + unique@,
{
    let mut r = String::from_str(".");
    r.append(file_name);
    r.append(".psht-staged-");
    let pid = decimal_of(process_id as u64);
    r.append(pid.as_str());
    r.append("-");
    r.append(unique);
    r
}

/// Whether all of the versions are the one that is expected.
pub open spec fn all_match(versions: Seq<Option<Seq<char>>>, expected: Seq<char>) -> bool {
    forall|i: int| 0 <= i < versions.len() ==> #[trigger] versions[i] == Some(expected)
}

/// Whether there is nothing to upgrade: the latest release is not newer, and it is
/// installed everywhere.
pub fn is_up_to_date(latest: &str, current: &str, installed: &Vec<Option<String>>) -> (r: bool)
    ensures
        r == (!newer(latest@, current@) && all_match(installed.deep_view(), latest@)),
{
    if version_is_newer(latest, current) {
        return false;
    }
    let ghost views = installed.deep_view();
    let mut i: usize = 0;
    while i < installed.len()
        invariant
            i <= installed@.len(),
            views == installed.deep_view(),
            forall|j: int| 0 <= j < i ==> #[trigger] views[j] == Some(latest@),
        decreases installed.len() - i,
    {
        assert(views[i as int] == installed@[i as int].deep_view());
        let matches_latest = match &installed[i] {
            Some(version) => same(version.as_str(), latest),
            None => false,
        };
        if !matches_latest {
            assert(views[i as int] != Some(latest@));
            return false;
        }
        i = i + 1;
    }
    true
}

/// An upgrade of the host.
pub struct UpgradePlan {
    pub latest: String,
    pub server_url: String,
    pub cli_url: String,
    /// Where the two programs are unpacked.
    pub server_candidate: String,
    pub cli_candidate: String,
    /// Where they are installed.
    pub server_targets: Vec<String>,
    pub cli_target: String,
}

/// The mathematical form of an upgrade.
#[verifier::ext_equal]
pub struct UpgradeView {
    pub latest: Seq<char>,
    pub server_url: Seq<char>,
    pub cli_url: Seq<char>,
    pub server_candidate: Seq<char>,
    pub cli_candidate: Seq<char>,
    pub server_targets: Seq<Seq<char>>,
    pub cli_target: Seq<char>,
}

impl DeepView for UpgradePlan {
    type V = UpgradeView;

    open spec fn deep_view(&self) -> UpgradeView {
        UpgradeView {
            latest: self.latest@,
            server_url: self.server_url@,
            cli_url: self.cli_url@,
            server_candidate: self.server_candidate@,
            cli_candidate: self.cli_candidate@,
            server_targets: self.server_targets.deep_view(),
            cli_target: self.cli_target@,
        }
    }
}

/// A step of an upgrade.
#[derive(Clone, Copy, PartialEq, Eq, Structural, Debug)]
pub enum UpgradeStep {
    DownloadServer,
    DownloadCli,
    UnpackServer,
    UnpackCli,
    /// Look for the programs that were unpacked.
    FindServer,
    FindCli,
    /// Ask the programs that were unpacked for their versions.
    InspectServer,
    InspectCli,
    /// Install the server in one of its places, and ask it there for its version.
    InstallServer(usize),
    ConfirmServer(usize),
    InstallCli,
    ConfirmCli,
    /// Bring the host's own software up to date.
    RefreshPackages,
    InstallIncus,
    RefreshStacks,
    Finished,
}

/// What came of a step: whether it succeeded, whether the program was found, and the
/// version it told.
pub struct UpgradeReply {
    pub result: Result<(), String>,
    pub found: bool,
    pub version: Option<String>,
}

/// The next step where one succeeded.
pub open spec fn onward(result: Result<(), String>, next: UpgradeStep) -> Result<
    UpgradeStep,
    Seq<char>,
> {
    match result {
        Ok(_) => Ok(next),
        Err(err) => Err(err@),
    }
}

pub open spec fn verified(
    label: Seq<char>,
    path: Seq<char>,
    expected: Seq<char>,
    version: Option<Seq<char>>,
    next: UpgradeStep,
) -> Result<UpgradeStep, Seq<char>> {
    match mismatch(label, path, expected, version) {
        Ok(_) => Ok(next),
        Err(err) => Err(err),
    }
}

pub open spec fn downloaded(url: Seq<char>, result: Result<(), String>, next: UpgradeStep) -> Result<
    UpgradeStep,
    Seq<char>,
> {
    match result {
        Ok(_) => Ok(next),
        Err(err) => Err("download failed: "@ + url + ": "@ + err@),
    }
}

/// The installation of the server from one place on.
pub open spec fn install_from(plan: UpgradeView, i: int) -> UpgradeStep {
    if i < plan.server_targets.len() {
        UpgradeStep::InstallServer(i as usize)
    } else {
        UpgradeStep::InstallCli
    }
}

/// The step after one, by what came of it.
pub open spec fn upgrade_next(plan: UpgradeView, step: UpgradeStep, reply: UpgradeReply) -> Result<
    UpgradeStep,
    Seq<char>,
> {
    let version = reply.version.deep_view();
    match step {
        UpgradeStep::DownloadServer => downloaded(
            plan.server_url,
            reply.result,
            UpgradeStep::DownloadCli,
        ),
        UpgradeStep::DownloadCli => downloaded(
            plan.cli_url,
            reply.result,
            UpgradeStep::UnpackServer,
        ),
        UpgradeStep::UnpackServer => onward(reply.result, UpgradeStep::UnpackCli),
        UpgradeStep::UnpackCli => onward(reply.result, UpgradeStep::FindServer),
        UpgradeStep::FindServer => if reply.found {
            Ok(UpgradeStep::FindCli)
        } else {
            Err("release tarball missing psht-server binary"@)
        },
        UpgradeStep::FindCli => if reply.found {
            Ok(UpgradeStep::InspectServer)
        } else {
            Err("release tarball missing psht binary"@)
        },
        UpgradeStep::InspectServer => verified(
            "downloaded psht-server"@,
            plan.server_candidate,
            plan.latest,
            version,
            UpgradeStep::InspectCli,
        ),
        UpgradeStep::InspectCli => verified(
            "downloaded psht"@,
            plan.cli_candidate,
            plan.latest,
            version,
            install_from(plan, 0),
        ),
        UpgradeStep::InstallServer(i) => onward(reply.result, UpgradeStep::ConfirmServer(i)),
        UpgradeStep::ConfirmServer(i) => if i < plan.server_targets.len() {
            verified(
                "installed psht-server"@,
                plan.server_targets[i as int],
                plan.latest,
                version,
                install_from(plan, i + 1),
            )
        } else {
            Ok(UpgradeStep::InstallCli)
        },
        UpgradeStep::InstallCli => onward(reply.result, UpgradeStep::ConfirmCli),
        UpgradeStep::ConfirmCli => verified(
            "installed psht"@,
            plan.cli_target,
            plan.latest,
            version,
            UpgradeStep::RefreshPackages,
        ),
        UpgradeStep::RefreshPackages => onward(reply.result, UpgradeStep::InstallIncus),
        UpgradeStep::InstallIncus => onward(reply.result, UpgradeStep::RefreshStacks),
        UpgradeStep::RefreshStacks => onward(reply.result, UpgradeStep::Finished),
        UpgradeStep::Finished => Ok(UpgradeStep::Finished),
    }
}

fn go_on(result: &Result<(), String>, next: UpgradeStep) -> (r: Result<UpgradeStep, String>)
    ensures
        upgrade_outcome(r) == onward(*result, next),
{
    match result {
        Ok(_) => Ok(next),
        Err(err) => Err(err.clone()),
    }
}

fn after_download(url: &str, result: &Result<(), String>, next: UpgradeStep) -> (r: Result<
    UpgradeStep,
    String,
>)
    ensures
        upgrade_outcome(r) == downloaded(url@, *result, next),
{
    match result {
        Ok(_) => Ok(next),
        Err(err) => {
            let mut message = String::from_str("download failed: ");
            message.append(url);
            message.append(": ");
            message.append(err.as_str());
            Err(message)
        },
    }
}

fn if_version(
    label: &str,
    path: &str,
    expected: &str,
    version: &Option<String>,
    next: UpgradeStep,
) -> (r: Result<UpgradeStep, String>)
    ensures
        upgrade_outcome(r) == verified(label@, path@, expected@, version.deep_view(), next),
{
    let version = match version {
        Some(version) => Some(version.as_str()),
        None => None,
    };
    match ensure_binary_version(path, expected, label, version) {
        Ok(_) => Ok(next),
        Err(err) => Err(err),
    }
}

pub open spec fn upgrade_outcome(r: Result<UpgradeStep, String>) -> Result<UpgradeStep, Seq<char>> {
    match r {
        Ok(step) => Ok(step),
        Err(err) => Err(err@),
    }
}

impl UpgradePlan {
    pub fn new(
        latest: &str,
        forge_url: &str,
        target: &str,
        server_candidate: &str,
        cli_candidate: &str,
        server_targets: Vec<String>,
        cli_target: &str,
    ) -> (r: UpgradePlan)
        ensures
            r.deep_view() == (UpgradeView {
                latest: latest@,
                server_url: asset_url(forge_url@, "psht-server"@, latest@, target@),
                cli_url: asset_url(forge_url@, "psht"@, latest@, target@),
                server_candidate: server_candidate@,
                cli_candidate: cli_candidate@,
                server_targets: server_targets.deep_view(),
                cli_target: cli_target@,
            }),
    {
        UpgradePlan {
            latest: latest.to_owned(),
            server_url: server_release_url(forge_url, latest, target),
            cli_url: cli_release_url(forge_url, latest, target),
            server_candidate: server_candidate.to_owned(),
            cli_candidate: cli_candidate.to_owned(),
            server_targets,
            cli_target: cli_target.to_owned(),
        }
    }

    fn install_from(&self, i: usize) -> (r: UpgradeStep)
        ensures
            r == install_from(self.deep_view(), i as int),
    {
        if i < self.server_targets.len() {
            UpgradeStep::InstallServer(i)
        } else {
            UpgradeStep::InstallCli
        }
    }

    pub fn next(&self, step: UpgradeStep, reply: &UpgradeReply) -> (r: Result<UpgradeStep, String>)
        ensures
            upgrade_outcome(r) == upgrade_next(self.deep_view(), step, *reply),
    {
        match step {
            UpgradeStep::DownloadServer => after_download(
                self.server_url.as_str(),
                &reply.result,
                UpgradeStep::DownloadCli,
            ),
            UpgradeStep::DownloadCli => after_download(
                self.cli_url.as_str(),
                &reply.result,
                UpgradeStep::UnpackServer,
            ),
            UpgradeStep::UnpackServer => go_on(&reply.result, UpgradeStep::UnpackCli),
            UpgradeStep::UnpackCli => go_on(&reply.result, UpgradeStep::FindServer),
            UpgradeStep::FindServer => if reply.found {
                Ok(UpgradeStep::FindCli)
            } else {
                Err(String::from_str("release tarball missing psht-server binary"))
            },
            UpgradeStep::FindCli => if reply.found {
                Ok(UpgradeStep::InspectServer)
            } else {
                Err(String::from_str("release tarball missing psht binary"))
            },
            UpgradeStep::InspectServer => if_version(
                "downloaded psht-server",
                self.server_candidate.as_str(),
                self.latest.as_str(),
                &reply.version,
                UpgradeStep::InspectCli,
            ),
            UpgradeStep::InspectCli => if_version(
                "downloaded psht",
                self.cli_candidate.as_str(),
                self.latest.as_str(),
                &reply.version,
                self.install_from(0),
            ),
            UpgradeStep::InstallServer(i) => go_on(&reply.result, UpgradeStep::ConfirmServer(i)),
            UpgradeStep::ConfirmServer(i) => {
                if i < self.server_targets.len() {
                    return if_version(
                        "installed psht-server",
                        self.server_targets[i].as_str(),
                        self.latest.as_str(),
                        &reply.version,
                        self.install_from(i + 1),
                    );
                }
                Ok(UpgradeStep::InstallCli)
            },
            UpgradeStep::InstallCli => go_on(&reply.result, UpgradeStep::ConfirmCli),
            UpgradeStep::ConfirmCli => if_version(
                "installed psht",
                self.cli_target.as_str(),
                self.latest.as_str(),
                &reply.version,
                UpgradeStep::RefreshPackages,
            ),
            UpgradeStep::RefreshPackages => go_on(&reply.result, UpgradeStep::InstallIncus),
            UpgradeStep::InstallIncus => go_on(&reply.result, UpgradeStep::RefreshStacks),
            UpgradeStep::RefreshStacks => go_on(&reply.result, UpgradeStep::Finished),
            UpgradeStep::Finished => Ok(UpgradeStep::Finished),
        }
    }
}

/// How many steps are left at most.
pub open spec fn upgrade_left(plan: UpgradeView, step: UpgradeStep) -> int {
    let n = plan.server_targets.len() as int;
    match step {
        UpgradeStep::DownloadServer => 2 * n + 14,
        UpgradeStep::DownloadCli => 2 * n + 13,
        UpgradeStep::UnpackServer => 2 * n + 12,
        UpgradeStep::UnpackCli => 2 * n + 11,
        UpgradeStep::FindServer => 2 * n + 10,
        UpgradeStep::FindCli => 2 * n + 9,
        UpgradeStep::InspectServer => 2 * n + 8,
        UpgradeStep::InspectCli => 2 * n + 7,
        UpgradeStep::InstallServer(i) => if i < n {
            2 * (n - i) + 6
        } else {
            8
        },
        UpgradeStep::ConfirmServer(i) => if i < n {
            2 * (n - i) + 5
        } else {
            7
        },
        UpgradeStep::InstallCli => 5,
        UpgradeStep::ConfirmCli => 4,
        UpgradeStep::RefreshPackages => 3,
        UpgradeStep::InstallIncus => 2,
        UpgradeStep::RefreshStacks => 1,
        UpgradeStep::Finished => 0,
    }
}

/// Every upgrade ends: each step leaves fewer to do, or fails.
pub proof fn upgrades_end(plan: UpgradeView, step: UpgradeStep, reply: UpgradeReply)
    requires
        plan.server_targets.len() <= usize::MAX,
        step != UpgradeStep::Finished,
    ensures
        upgrade_next(plan, step, reply) matches Ok(next) ==> 0 <= upgrade_left(plan, next)
            < upgrade_left(plan, step),
{
}

/// Nothing is installed before both programs told the version of the release, and no
/// place is left before the program there told it.
pub proof fn upgrades_install_the_release(plan: UpgradeView, step: UpgradeStep, reply: UpgradeReply)
    requires
        plan.server_targets.len() <= usize::MAX,
    ensures
        match upgrade_next(plan, step, reply) {
            Ok(UpgradeStep::InspectCli) => step == UpgradeStep::InspectServer && or_unknown(
                reply.version.deep_view(),
            ) == plan.latest,
            Ok(UpgradeStep::InstallServer(i)) => or_unknown(reply.version.deep_view())
                == plan.latest && (step == UpgradeStep::InspectCli && i == 0 || i > 0 && step
                == UpgradeStep::ConfirmServer((i - 1) as usize)),
            Ok(UpgradeStep::RefreshPackages) => step == UpgradeStep::ConfirmCli && or_unknown(
                reply.version.deep_view(),
            ) == plan.latest,
            _ => true,
        },
{
}

/// An upgrade goes on exactly where a step did what it is for: what is downloaded,
/// unpacked, installed or refreshed must succeed, what is looked for must be found, and
/// what is asked for its version must be the release.
pub proof fn upgrades_go_on_where_a_step_succeeds(
    plan: UpgradeView,
    step: UpgradeStep,
    reply: UpgradeReply,
)
    requires
        step matches UpgradeStep::ConfirmServer(i) ==> i < plan.server_targets.len(),
    ensures
        ({
            let after = upgrade_next(plan, step, reply);
            let version = if reply.version is Some {
                reply.version->0@
            } else {
                "unknown"@
            };
            &&& step is FindServer || step is FindCli ==> (after is Ok <==> reply.found)
            &&& step is InspectServer || step is InspectCli || step is ConfirmServer || step
                is ConfirmCli ==> (after is Ok <==> version == plan.latest)
            &&& step is DownloadServer || step is DownloadCli || step is UnpackServer || step
                is UnpackCli || step is InstallServer || step is InstallCli || step
                is RefreshPackages || step is InstallIncus || step is RefreshStacks ==> (after is Ok
                <==> reply.result is Ok)
        }),
{
}

/// An upgrade downloads, unpacks and inspects both programs before it installs any. It
/// installs the server in every place it is to be in, one after the other, each confirmed,
/// and only then the program of the workstation; the software of the host comes last.
pub proof fn upgrades_take_their_steps_in_order(
    plan: UpgradeView,
    step: UpgradeStep,
    reply: UpgradeReply,
)
    requires
        plan.server_targets.len() < usize::MAX,
        upgrade_next(plan, step, reply) is Ok,
        step matches UpgradeStep::ConfirmServer(i) ==> i < plan.server_targets.len(),
    ensures
        ({
            let after = upgrade_next(plan, step, reply)->Ok_0;
            let n = plan.server_targets.len();
            &&& after is DownloadCli <==> step is DownloadServer
            &&& after is UnpackServer <==> step is DownloadCli
            &&& after is UnpackCli <==> step is UnpackServer
            &&& after is FindServer <==> step is UnpackCli
            &&& after is FindCli <==> step is FindServer
            &&& after is InspectServer <==> step is FindCli
            &&& after is InspectCli <==> step is InspectServer
            &&& after is InstallServer <==> (step is InspectCli && n > 0) || (step
                is ConfirmServer && step->ConfirmServer_0 + 1 < n)
            &&& after is InstallServer && step is InspectCli ==> after->InstallServer_0 == 0
            &&& after is InstallServer && step is ConfirmServer ==> after->InstallServer_0
                == step->ConfirmServer_0 + 1
            &&& after is ConfirmServer <==> step is InstallServer
            &&& after is ConfirmServer ==> after->ConfirmServer_0 == step->InstallServer_0
            &&& after is InstallCli <==> (step is InspectCli && n == 0) || (step is ConfirmServer
                && step->ConfirmServer_0 + 1 == n)
            &&& after is ConfirmCli <==> step is InstallCli
            &&& after is RefreshPackages <==> step is ConfirmCli
            &&& after is InstallIncus <==> step is RefreshPackages
            &&& after is RefreshStacks <==> step is InstallIncus
            &&& after is Finished <==> step is RefreshStacks || step is Finished
        }),
{
}

/// What is provided is the version that was expected, and nothing else will do; a version
/// that is not known will not.
pub proof fn only_the_expected_version_is_provided(
    expected: Seq<char>,
    how: Seq<char>,
    version: Option<Seq<char>>,
)
    ensures
        provided_verdict(expected, how, version) is Ok <==> version is Some && version->0
            == expected,
{
}

/// The shell of a user is the seventh field of its line, if that says something.
pub proof fn shells_are_in_the_seventh_field(line: Seq<char>)
    ensures
        shell_in(Some(line)) is Some <==> split(line, ":"@).len() >= 7 && trim(
            split(line, ":"@)[6],
        ).len() > 0,
        shell_in(Some(line)) is Some ==> shell_in(Some(line))->0 == trim(split(line, ":"@)[6]),
        shell_in(None) is None,
{
}

/// A program that everyone can run is used where it is; any other from the usual place,
/// where it is copied to unless it is there.
pub proof fn programs_are_copied_where_nobody_can_run_them(
    resolved: Seq<char>,
    world_executable: bool,
)
    ensures
        spec_server_binary(resolved, world_executable) is Current <==> world_executable,
        spec_server_binary(resolved, world_executable) matches ServerBinary::Fallback { copy }
            ==> copy == !same_path(resolved, "/usr/local/bin/psht-server"@),
{
}

} // verus!
