//! How a workstation brings itself to the release of its host.

use vstd::prelude::*;
use crate::paths::{file_name, file_name_of};
use crate::release::{
    asset_url, cli_release_url, configured_forge_url, detect_release_target, forge_url_of,
    release_target, url_or, DEFAULT_FORGE_URL,
};
use crate::split::{lines, lines_of, trimmed_lines, trimmed_lines_of};
use crate::text::{
    cut_end, outcome, same, strip_prefix, strip_suffix, trim, trim_end_of, trimmed, without_prefix,
    without_suffix, CharClass,
};

verus! {

/// What a host says of the release to install.
#[derive(PartialEq, Eq, Debug)]
pub struct ServerUpdateManifest {
    pub version: String,
    pub forge_url: String,
}

/// The mathematical form of this.
#[verifier::ext_equal]
pub struct ManifestView {
    pub version: Seq<char>,
    pub forge_url: Seq<char>,
}

impl DeepView for ServerUpdateManifest {
    type V = ManifestView;

    open spec fn deep_view(&self) -> ManifestView {
        ManifestView { version: self.version@, forge_url: self.forge_url@ }
    }
}

/// What stands between `before` and `after` on a line, without white space at its ends.
pub open spec fn line_value(line: Seq<char>, before: Seq<char>, after: Seq<char>) -> Option<
    Seq<char>,
> {
    match strip_prefix(trim(line), before) {
        Some(rest) => match strip_suffix(rest, after) {
            Some(value) => if trim(value).len() > 0 {
                Some(trim(value))
            } else {
                None
            },
            None => None,
        },
        None => None,
    }
}

fn value_in_line(line: &str, before: &str, after: &str) -> (r: Option<String>)
    ensures
        r.deep_view() == line_value(line@, before@, after@),
{
    let rest = match without_prefix(trimmed(line), before) {
        Some(rest) => rest,
        None => {
            return None;
        },
    };
    match without_suffix(rest, after) {
        Some(value) => {
            let value = trimmed(value);
            if value.is_empty() {
                None
            } else {
                Some(value.to_owned())
            }
        },
        None => None,
    }
}

/// The value of the first line that has one.
pub open spec fn first_value(all: Seq<Seq<char>>, before: Seq<char>, after: Seq<char>) -> Option<
    Seq<char>,
>
    decreases all.len(),
{
    if all.len() == 0 {
        None
    } else {
        match first_value(all.drop_last(), before, after) {
            Some(value) => Some(value),
            None => line_value(all.last(), before, after),
        }
    }
}

proof fn first_values_stay(all: Seq<Seq<char>>, before: Seq<char>, after: Seq<char>, k: int)
    requires
        0 <= k <= all.len(),
        first_value(all.take(k), before, after) is Some,
    ensures
        first_value(all, before, after) == first_value(all.take(k), before, after),
    decreases all.len() - k,
{
    if k < all.len() {
        assert(all.take(k + 1).drop_last() =~= all.take(k));
        first_values_stay(all, before, after, k + 1);
    } else {
        assert(all.take(k) =~= all);
    }
}

fn find_value(all: &Vec<String>, before: &str, after: &str) -> (r: Option<String>)
    ensures
        r.deep_view() == first_value(all.deep_view(), before@, after@),
{
    let ghost views = all.deep_view();
    let mut i: usize = 0;
    assert(views.take(0) =~= Seq::empty());
    while i < all.len()
        invariant
            i <= all@.len(),
            views == all.deep_view(),
            first_value(views.take(i as int), before@, after@) is None,
        decreases all.len() - i,
    {
        proof {
            assert(views.take(i + 1).drop_last() =~= views.take(i as int));
            assert(views.take(i + 1).last() == views[i as int]);
        }
        if let Some(value) = value_in_line(all[i].as_str(), before, after) {
            proof {
                first_values_stay(views, before@, after@, i + 1);
            }
            return Some(value);
        }
        i = i + 1;
    }
    assert(views.take(i as int) =~= views);
    None
}

/// The release that an installer script names.
pub open spec fn scripted(stdout: Seq<char>) -> Result<ManifestView, Seq<char>> {
    match first_value(lines(stdout), "VERSION=\""@, "\""@) {
        Some(version) => Ok(
            ManifestView {
                version,
                forge_url: match first_value(
                    lines(stdout),
                    "FORGE_URL=\"${PSHT_FORGE_URL:-"@,
                    "}\""@,
                ) {
                    Some(url) => cut_end(url, CharClass::Is('/')),
                    None => ""@,
                },
            },
        ),
        None => Err("server update manifest was not valid JSON"@),
    }
}

/// The release that an installer script names: hosts of old print one.
pub fn manifest_of_script(stdout: &str) -> (r: Result<ServerUpdateManifest, String>)
    ensures
        outcome(r) == scripted(stdout@),
{
    let all = lines_of(stdout);
    let version = match find_value(&all, "VERSION=\"", "\"") {
        Some(version) => version,
        None => {
            return Err(String::from_str("server update manifest was not valid JSON"));
        },
    };
    let forge_url = match find_value(&all, "FORGE_URL=\"${PSHT_FORGE_URL:-", "}\"") {
        Some(url) => trim_end_of(url.as_str(), CharClass::Is('/')).to_owned(),
        None => String::from_str(""),
    };
    Ok(ServerUpdateManifest { version, forge_url })
}

/// Whether `parse` may give `manifest` for the line.
pub open spec fn gives<F: Fn(&str) -> Option<ServerUpdateManifest>>(
    parse: F,
    line: Seq<char>,
    manifest: Option<ServerUpdateManifest>,
) -> bool {
    exists|text: &str| #[trigger] text@ == line && call_ensures(parse, (text,), manifest)
}

/// Whether `parse` takes the line as `manifest`, and none of those after it as any.
pub open spec fn last_given<F: Fn(&str) -> Option<ServerUpdateManifest>>(
    parse: F,
    all: Seq<Seq<char>>,
    k: int,
    manifest: ServerUpdateManifest,
) -> bool {
    &&& 0 <= k < all.len()
    &&& gives(parse, all[k], Some(manifest))
    &&& forall|j: int| k < j < all.len() ==> gives(parse, #[trigger] all[j], None)
}

/// The release to install, by what the host prints: the last line that `parse` takes as
/// one, or what an installer script names.
pub fn parse_update_manifest_stdout<F: Fn(&str) -> Option<ServerUpdateManifest>>(
    stdout: &str,
    parse: F,
) -> (r: Result<ServerUpdateManifest, String>)
    requires
        forall|line: &str| call_requires(parse, (line,)),
    ensures
        ({
            let all = trimmed_lines(stdout@);
            ||| r is Ok && exists|k: int| #[trigger] last_given(parse, all, k, r->Ok_0)
            ||| outcome(r) == scripted(stdout@) && forall|j: int|
                0 <= j < all.len() ==> gives(parse, #[trigger] all[j], None)
        }),
{
    let all = trimmed_lines_of(stdout);
    let ghost views = all.deep_view();
    let mut i: usize = all.len();
    while i > 0
        invariant
            i <= all@.len(),
            views == all.deep_view(),
            forall|line: &str| call_requires(parse, (line,)),
            views == trimmed_lines(stdout@),
            forall|j: int| i <= j < views.len() ==> gives(parse, #[trigger] views[j], None),
        decreases i,
    {
        i = i - 1;
        let line = all[i].as_str();
        assert(line@ == views[i as int]);
        let parsed = parse(line);
        assert(gives(parse, views[i as int], parsed));
        if let Some(manifest) = parsed {
            assert(last_given(parse, views, i as int, manifest));
            return Ok(manifest);
        }
    }
    manifest_of_script(stdout)
}

// ---------------------------------------------------------------------------
// The update
// ---------------------------------------------------------------------------

/// What to install, and where it comes from.
pub struct UpdatePlan {
    pub version: String,
    pub asset_url: String,
    pub source_url: String,
}

/// The mathematical form of this.
#[verifier::ext_equal]
pub struct UpdatePlanView {
    pub version: Seq<char>,
    pub asset_url: Seq<char>,
    pub source_url: Seq<char>,
}

impl DeepView for UpdatePlan {
    type V = UpdatePlanView;

    open spec fn deep_view(&self) -> UpdatePlanView {
        UpdatePlanView {
            version: self.version@,
            asset_url: self.asset_url@,
            source_url: self.source_url@,
        }
    }
}

/// The address of the forge that a manifest names, or else the one that is set.
pub open spec fn manifest_forge(forge_url: Seq<char>, set: Option<Seq<char>>) -> Seq<char> {
    if trim(forge_url).len() == 0 {
        forge_url_of(set, DEFAULT_FORGE_URL@)
    } else {
        cut_end(trim(forge_url), CharClass::Is('/'))
    }
}

pub open spec fn update_plan(
    manifest: ManifestView,
    forge_set: Option<Seq<char>>,
    source_set: Option<Seq<char>>,
    os: Seq<char>,
    arch: Seq<char>,
) -> Result<UpdatePlanView, Seq<char>> {
    let version = trim(manifest.version);
    let forge = manifest_forge(manifest.forge_url, forge_set);
    if version.len() == 0 {
        Err("update manifest missing version"@)
    } else {
        match release_target(os, arch) {
            Err(err) => Err(err),
            Ok(target) => Ok(
                UpdatePlanView {
                    version,
                    asset_url: asset_url(forge, "psht"@, version, target),
                    source_url: forge_url_of(source_set, forge),
                },
            ),
        }
    }
}

pub fn plan_update(
    manifest: &ServerUpdateManifest,
    forge_set: Option<&str>,
    source_set: Option<&str>,
    os: &str,
    arch: &str,
) -> (r: Result<UpdatePlan, String>)
    ensures
        outcome(r) == update_plan(
            manifest.deep_view(),
            forge_set.deep_view(),
            source_set.deep_view(),
            os@,
            arch@,
        ),
{
    let version = trimmed(manifest.version.as_str());
    if version.is_empty() {
        return Err(String::from_str("update manifest missing version"));
    }
    let named = trimmed(manifest.forge_url.as_str());
    let forge_url = if named.is_empty() {
        configured_forge_url(forge_set)
    } else {
        trim_end_of(named, CharClass::Is('/')).to_owned()
    };
    match detect_release_target(os, arch) {
        Err(err) => Err(err),
        Ok(target) => Ok(
            UpdatePlan {
                version: version.to_owned(),
                asset_url: cli_release_url(forge_url.as_str(), version, target.as_str()),
                source_url: url_or(source_set, forge_url.as_str()),
            },
        ),
    }
}

/// A step of an update.
#[derive(Clone, Copy, PartialEq, Eq, Structural, Debug)]
pub enum UpdateStep {
    /// Ask the binary that is installed for its version.
    InspectInstalled,
    /// Download the release.
    Download,
    /// Unpack what was downloaded, and look for the binary.
    Unpack,
    /// Build the release from its source.
    Build,
    /// Look for the binary that was built.
    FindBuilt,
    /// Ask the new binary for its version; it was built or unpacked.
    InspectCandidate { built: bool },
    /// Put the new binary in the place of the installed one.
    Install { built: bool },
    /// Ask the binary that is installed now for its version.
    Confirm,
    /// The release is installed, and was before where the flag is set.
    Finished { before: bool },
}

/// What came of a step: whether its command succeeded, whether the binary that it is
/// about is there, and the version that the binary tells.
pub struct StepReply {
    pub succeeded: bool,
    pub found: bool,
    pub version: Option<String>,
}

/// The mathematical form of this.
#[verifier::ext_equal]
pub struct ReplyView {
    pub succeeded: bool,
    pub found: bool,
    pub version: Option<Seq<char>>,
}

impl DeepView for StepReply {
    type V = ReplyView;

    open spec fn deep_view(&self) -> ReplyView {
        ReplyView {
            succeeded: self.succeeded,
            found: self.found,
            version: self.version.deep_view(),
        }
    }
}

pub open spec fn version_or_unknown(version: Option<Seq<char>>) -> Seq<char> {
    match version {
        Some(version) => version,
        None => "unknown"@,
    }
}

/// The step after one, by what came of it.
pub open spec fn update_next(
    plan: UpdatePlanView,
    install_path: Seq<char>,
    step: UpdateStep,
    reply: ReplyView,
) -> Result<UpdateStep, Seq<char>> {
    match step {
        UpdateStep::InspectInstalled => if reply.version == Some(plan.version) {
            Ok(UpdateStep::Finished { before: true })
        } else {
            Ok(UpdateStep::Download)
        },
        UpdateStep::Download => if reply.succeeded {
            Ok(UpdateStep::Unpack)
        } else {
            Ok(UpdateStep::Build)
        },
        UpdateStep::Unpack => if reply.succeeded && reply.found {
            Ok(UpdateStep::InspectCandidate { built: false })
        } else {
            Err("downloaded archive missing executable psht binary: "@ + plan.asset_url)
        },
        UpdateStep::Build => if reply.succeeded {
            Ok(UpdateStep::FindBuilt)
        } else {
            Err("cargo install failed while building psht from source"@)
        },
        UpdateStep::FindBuilt => if reply.found {
            Ok(UpdateStep::InspectCandidate { built: true })
        } else {
            Err("cargo install completed but psht binary was not found"@)
        },
        UpdateStep::InspectCandidate { built } => if version_or_unknown(reply.version)
            == plan.version {
            Ok(UpdateStep::Install { built })
        } else {
            Err(
                "downloaded psht "@ + version_or_unknown(reply.version) + ", expected "@
                    + plan.version,
            )
        },
        UpdateStep::Install { built } => Ok(UpdateStep::Confirm),
        UpdateStep::Confirm => if version_or_unknown(reply.version) == plan.version {
            Ok(UpdateStep::Finished { before: false })
        } else {
            Err(
                "installed psht "@ + version_or_unknown(reply.version) + ", expected "@
                    + plan.version + " at "@ + install_path,
            )
        },
        UpdateStep::Finished { before } => Ok(step),
    }
}

fn told(version: &Option<String>) -> (r: String)
    ensures
        r@ == version_or_unknown(version.deep_view()),
{
    match version {
        Some(version) => version.clone(),
        None => String::from_str("unknown"),
    }
}

impl UpdatePlan {
    pub fn next(&self, install_path: &str, step: UpdateStep, reply: &StepReply) -> (r: Result<
        UpdateStep,
        String,
    >)
        ensures
            match update_next(self.deep_view(), install_path@, step, reply.deep_view()) {
                Ok(next) => r == Ok::<UpdateStep, String>(next),
                Err(err) => r matches Err(message) && message@ == err,
            },
    {
        match step {
            UpdateStep::InspectInstalled => {
                if let Some(version) = &reply.version {
                    if same(version.as_str(), self.version.as_str()) {
                        return Ok(UpdateStep::Finished { before: true });
                    }
                }
                Ok(UpdateStep::Download)
            },
            UpdateStep::Download => if reply.succeeded {
                Ok(UpdateStep::Unpack)
            } else {
                Ok(UpdateStep::Build)
            },
            UpdateStep::Unpack => {
                if reply.succeeded && reply.found {
                    return Ok(UpdateStep::InspectCandidate { built: false });
                }
                let mut message = String::from_str(
                    "downloaded archive missing executable psht binary: ",
                );
                message.append(self.asset_url.as_str());
                Err(message)
            },
            UpdateStep::Build => if reply.succeeded {
                Ok(UpdateStep::FindBuilt)
            } else {
                Err(String::from_str("cargo install failed while building psht from source"))
            },
            UpdateStep::FindBuilt => if reply.found {
                Ok(UpdateStep::InspectCandidate { built: true })
            } else {
                Err(String::from_str("cargo install completed but psht binary was not found"))
            },
            UpdateStep::InspectCandidate { built } => {
                let version = told(&reply.version);
                if same(version.as_str(), self.version.as_str()) {
                    return Ok(UpdateStep::Install { built });
                }
                let mut message = String::from_str("downloaded psht ");
                message.append(version.as_str());
                message.append(", expected ");
                message.append(self.version.as_str());
                Err(message)
            },
            UpdateStep::Install { built } => Ok(UpdateStep::Confirm),
            UpdateStep::Confirm => {
                let version = told(&reply.version);
                if same(version.as_str(), self.version.as_str()) {
                    return Ok(UpdateStep::Finished { before: false });
                }
                let mut message = String::from_str("installed psht ");
                message.append(version.as_str());
                message.append(", expected ");
                message.append(self.version.as_str());
                message.append(" at ");
                message.append(install_path);
                Err(message)
            },
            UpdateStep::Finished { before } => Ok(step),
        }
    }

    /// The words after `cargo` that build the release under a directory.
    pub fn build_args(&self, root: &str) -> (r: Vec<String>)
        ensures
            r.deep_view() == seq![
                "install"@,
                "--git"@,
                self.source_url@,
                "--tag"@,
                "v"@ + self.version@,
                "--root"@,
                root@,
                "--bin"@,
                "psht"@,
            ],
    {
        let mut tag = String::from_str("v");
        tag.append(self.version.as_str());
        let r = vec![
            String::from_str("install"),
            String::from_str("--git"),
            self.source_url.clone(),
            String::from_str("--tag"),
            tag,
            String::from_str("--root"),
            root.to_owned(),
            String::from_str("--bin"),
            String::from_str("psht"),
        ];
        assert(r.deep_view() =~= seq![
            "install"@,
            "--git"@,
            self.source_url@,
            "--tag"@,
            "v"@ + self.version@,
            "--root"@,
            root@,
            "--bin"@,
            "psht"@,
        ]);
        r
    }
}

/// How many steps are left at most.
pub open spec fn steps_left(step: UpdateStep) -> nat {
    match step {
        UpdateStep::InspectInstalled => 7,
        UpdateStep::Download => 6,
        UpdateStep::Build => 5,
        UpdateStep::Unpack => 4,
        UpdateStep::FindBuilt => 4,
        UpdateStep::InspectCandidate { .. } => 3,
        UpdateStep::Install { .. } => 2,
        UpdateStep::Confirm => 1,
        UpdateStep::Finished { .. } => 0,
    }
}

/// Every update ends: each step leaves fewer to do, or fails.
pub proof fn updates_end(
    plan: UpdatePlanView,
    install_path: Seq<char>,
    step: UpdateStep,
    reply: ReplyView,
)
    requires
        !(step is Finished),
    ensures
        update_next(plan, install_path, step, reply) matches Ok(next) ==> steps_left(next)
            < steps_left(step),
{
}

/// An update finishes only where the binary that is installed tells the version asked
/// for; and a binary is installed only after it told that version.
pub proof fn updates_install_the_version(
    plan: UpdatePlanView,
    install_path: Seq<char>,
    step: UpdateStep,
    reply: ReplyView,
)
    requires
        !(step is Finished),
    ensures
        update_next(plan, install_path, step, reply) matches Ok(UpdateStep::Finished { .. }) ==> {
            &&& version_or_unknown(reply.version) == plan.version
            &&& step is InspectInstalled || step is Confirm
        },
        update_next(plan, install_path, step, reply) matches Ok(UpdateStep::Install { .. }) ==> {
            &&& version_or_unknown(reply.version) == plan.version
            &&& step is InspectCandidate
        },
{
}

/// Where a new binary is staged: beside the one that it replaces.
pub fn staged_name(install_path: &str) -> (r: Result<String, String>)
    ensures
        outcome(r) == match file_name(install_path@) {
            Some(name) => Ok::<Seq<char>, Seq<char>>(name + ".new"@),
            None => Err("invalid install path: "@ + install_path@),
        },
{
    match file_name_of(install_path) {
        Some(name) => {
            let mut r = name;
            r.append(".new");
            Ok(r)
        },
        None => {
            let mut message = String::from_str("invalid install path: ");
            message.append(install_path);
            Err(message)
        },
    }
}

/// An update goes on exactly where a step did what it is for. It is over at once where the
/// version is installed, and only then; the source is built only where no release could be
/// downloaded; and nothing is installed that is not the version.
pub proof fn updates_take_these_steps(
    plan: UpdatePlanView,
    install_path: Seq<char>,
    step: UpdateStep,
    reply: ReplyView,
)
    requires
        reply.version is Some,
    ensures
        ({
            let after = update_next(plan, install_path, step, reply);
            let fits = reply.version->0 == plan.version;
            &&& step is InspectInstalled ==> after == Ok::<UpdateStep, Seq<char>>(
                if fits {
                    UpdateStep::Finished { before: true }
                } else {
                    UpdateStep::Download
                },
            )
            &&& step is Download ==> after == Ok::<UpdateStep, Seq<char>>(
                if reply.succeeded {
                    UpdateStep::Unpack
                } else {
                    UpdateStep::Build
                },
            )
            &&& step is Unpack ==> (after is Ok <==> reply.succeeded && reply.found)
            &&& step is Build ==> (after is Ok <==> reply.succeeded)
            &&& step is FindBuilt ==> (after is Ok <==> reply.found)
            &&& step is InspectCandidate || step is Confirm ==> (after is Ok <==> fits)
            &&& step is Install ==> after == Ok::<UpdateStep, Seq<char>>(UpdateStep::Confirm)
            &&& after is Ok && step is Unpack ==> after->Ok_0 == (UpdateStep::InspectCandidate {
                built: false,
            })
            &&& after is Ok && step is Build ==> after->Ok_0 is FindBuilt
            &&& after is Ok && step is FindBuilt ==> after->Ok_0 == (UpdateStep::InspectCandidate {
                built: true,
            })
            &&& after is Ok && step is InspectCandidate ==> after->Ok_0 == (UpdateStep::Install {
                built: step->InspectCandidate_built,
            })
            &&& after is Ok && step is Confirm ==> after->Ok_0 == (UpdateStep::Finished {
                before: false,
            })
        }),
{
}

/// A version that is not known is never taken for the right one, unless that is called so.
pub proof fn unknown_versions_do_not_pass(
    plan: UpdatePlanView,
    install_path: Seq<char>,
    step: UpdateStep,
    reply: ReplyView,
)
    requires
        reply.version is None,
        plan.version != "unknown"@,
    ensures
        step is InspectCandidate || step is Confirm ==> update_next(
            plan,
            install_path,
            step,
            reply,
        ) is Err,
        step is InspectInstalled ==> update_next(plan, install_path, step, reply) == Ok::<
            UpdateStep,
            Seq<char>,
        >(UpdateStep::Download),
{
}

/// An update is to the version that the host names, which must name one, and from where the
/// host has its releases, or else from where they are set to be.
pub proof fn updates_are_to_the_version_of_the_host(
    manifest: ManifestView,
    forge_set: Option<Seq<char>>,
    source_set: Option<Seq<char>>,
    os: Seq<char>,
    arch: Seq<char>,
)
    ensures
        ({
            let plan = update_plan(manifest, forge_set, source_set, os, arch);
            let forge = if trim(manifest.forge_url).len() > 0 {
                cut_end(trim(manifest.forge_url), CharClass::Is('/'))
            } else {
                forge_url_of(forge_set, DEFAULT_FORGE_URL@)
            };
            &&& plan is Ok <==> trim(manifest.version).len() > 0 && release_target(os, arch) is Ok
            &&& plan is Ok ==> {
                &&& plan->Ok_0.version == trim(manifest.version)
                &&& plan->Ok_0.asset_url == asset_url(
                    forge,
                    "psht"@,
                    trim(manifest.version),
                    release_target(os, arch)->Ok_0,
                )
                &&& plan->Ok_0.source_url == forge_url_of(source_set, forge)
            }
        }),
{
}

/// What a script sets is read from the first line that sets it to something.
pub proof fn the_first_line_that_sets_counts(
    all: Seq<Seq<char>>,
    before: Seq<char>,
    after: Seq<char>,
)
    ensures
        match first_value(all, before, after) {
            Some(value) => exists|i: int|
                0 <= i < all.len() && line_value(#[trigger] all[i], before, after) == Some(value)
                    && forall|j: int|
                    0 <= j < i ==> line_value(#[trigger] all[j], before, after) is None,
            None => forall|j: int|
                0 <= j < all.len() ==> line_value(#[trigger] all[j], before, after) is None,
        },
    decreases all.len(),
{
    if all.len() > 0 {
        let head = all.drop_last();
        let last = all.len() - 1;
        the_first_line_that_sets_counts(head, before, after);
        assert(all[last] == all.last());
        assert forall|j: int| 0 <= j < head.len() implies #[trigger] head[j] == all[j] by {}
        if let Some(value) = first_value(head, before, after) {
            let i = choose|i: int|
                0 <= i < head.len() && line_value(#[trigger] head[i], before, after) == Some(value)
                    && forall|j: int|
                    0 <= j < i ==> line_value(#[trigger] head[j], before, after) is None;
            assert(line_value(all[i], before, after) == Some(value));
            assert forall|j: int| 0 <= j < i implies line_value(
                #[trigger] all[j],
                before,
                after,
            ) is None by {
                assert(line_value(head[j], before, after) is None);
            }
        } else {
            assert forall|j: int| 0 <= j < last implies line_value(
                #[trigger] all[j],
                before,
                after,
            ) is None by {
                assert(line_value(head[j], before, after) is None);
            }
        }
    }
}

/// What is set between two texts is read back, if it says something.
pub proof fn values_are_read_from_their_lines(
    before: Seq<char>,
    value: Seq<char>,
    after: Seq<char>,
)
    requires
        trim(before + value + after) == before + value + after,
    ensures
        line_value(before + value + after, before, after) is Some <==> trim(value).len() > 0,
        trim(value).len() > 0 ==> line_value(before + value + after, before, after) == Some(
            trim(value),
        ),
{
    let line = before + value + after;
    assert(line.take(before.len() as int) =~= before);
    assert(line.skip(before.len() as int) =~= value + after);
    let rest = value + after;
    assert(rest.skip(rest.len() - after.len()) =~= after);
    assert(rest.take(rest.len() - after.len()) =~= value);
}

/// What a script of the host says counts only where it sets a version.
pub proof fn scripts_must_set_a_version(stdout: Seq<char>)
    ensures
        scripted(stdout) is Ok <==> first_value(lines(stdout), "VERSION=\""@, "\""@) is Some,
        scripted(stdout) is Ok ==> Some(scripted(stdout)->Ok_0.version) == first_value(
            lines(stdout),
            "VERSION=\""@,
            "\""@,
        ),
{
}

} // verus!
