//! The revision that a deploy checks out, and what is on record of such deploys.

use vstd::prelude::*;
use crate::text::{outcome, push_text, same, strip_prefix, trim, trimmed, without_prefix};

verus! {

/// The revision that a deploy checks out: a ref and the object pushed to it.
#[derive(PartialEq, Eq, Debug)]
pub struct GitCheckoutTarget {
    pub ref_name: String,
    pub sha: String,
}

/// The mathematical form of a revision.
#[verifier::ext_equal]
pub struct TargetView {
    pub ref_name: Seq<char>,
    pub sha: Seq<char>,
}

impl DeepView for GitCheckoutTarget {
    type V = TargetView;

    open spec fn deep_view(&self) -> TargetView {
        TargetView { ref_name: self.ref_name@, sha: self.sha@ }
    }
}

pub fn copy_target(target: &GitCheckoutTarget) -> (r: GitCheckoutTarget)
    ensures
        r.deep_view() == target.deep_view(),
{
    GitCheckoutTarget { ref_name: target.ref_name.clone(), sha: target.sha.clone() }
}

/// How far the deploy of a revision has come.
#[derive(Clone, Copy, PartialEq, Eq, Structural, Debug)]
pub enum GitDeployStatus {
    Pending,
    Success,
    Failed,
    Interrupted,
}

impl DeepView for GitDeployStatus {
    type V = GitDeployStatus;

    open spec fn deep_view(&self) -> GitDeployStatus {
        *self
    }
}

pub open spec fn status_name(status: GitDeployStatus) -> Seq<char> {
    match status {
        GitDeployStatus::Pending => "pending"@,
        GitDeployStatus::Success => "success"@,
        GitDeployStatus::Failed => "failed"@,
        GitDeployStatus::Interrupted => "interrupted"@,
    }
}

/// The status with the name.
pub open spec fn status_named(name: Seq<char>) -> Result<GitDeployStatus, Seq<char>> {
    if name == "pending"@ {
        Ok(GitDeployStatus::Pending)
    } else if name == "success"@ {
        Ok(GitDeployStatus::Success)
    } else if name == "failed"@ {
        Ok(GitDeployStatus::Failed)
    } else if name == "interrupted"@ {
        Ok(GitDeployStatus::Interrupted)
    } else {
        Err("invalid git deploy status '"@ + name + "' in sqlite state"@)
    }
}

pub fn git_deploy_status_as_str(status: GitDeployStatus) -> (r: &'static str)
    ensures
        r@ == status_name(status),
{
    match status {
        GitDeployStatus::Pending => "pending",
        GitDeployStatus::Success => "success",
        GitDeployStatus::Failed => "failed",
        GitDeployStatus::Interrupted => "interrupted",
    }
}

pub fn git_deploy_status_from_str(status: &str) -> (r: Result<GitDeployStatus, String>)
    ensures
        outcome(r) == status_named(status@),
{
    if same(status, "pending") {
        Ok(GitDeployStatus::Pending)
    } else if same(status, "success") {
        Ok(GitDeployStatus::Success)
    } else if same(status, "failed") {
        Ok(GitDeployStatus::Failed)
    } else if same(status, "interrupted") {
        Ok(GitDeployStatus::Interrupted)
    } else {
        let mut message = String::from_str("invalid git deploy status '");
        message.append(status);
        message.append("' in sqlite state");
        Err(message)
    }
}

/// The name of a status reads back as the status.
pub proof fn status_names_read_back(status: GitDeployStatus)
    ensures
        status_named(status_name(status)) == Ok::<GitDeployStatus, Seq<char>>(status),
{
    reveal_strlit("pending");
    reveal_strlit("success");
    reveal_strlit("failed");
    reveal_strlit("interrupted");
    assert("pending"@.len() == 7 && "success"@.len() == 7);
    assert("pending"@[0] == 'p' && "success"@[0] == 's');
    assert("failed"@.len() == 6 && "interrupted"@.len() == 11);
}

/// What is on record of the deploy of a revision.
#[derive(PartialEq, Eq, Debug)]
pub struct GitDeployState {
    pub ref_name: String,
    pub sha: String,
    pub status: GitDeployStatus,
}

/// The mathematical form of such a record.
#[verifier::ext_equal]
pub struct GitStateView {
    pub ref_name: Seq<char>,
    pub sha: Seq<char>,
    pub status: GitDeployStatus,
}

impl DeepView for GitDeployState {
    type V = GitStateView;

    open spec fn deep_view(&self) -> GitStateView {
        GitStateView { ref_name: self.ref_name@, sha: self.sha@, status: self.status }
    }
}

/// A request to deploy a revision once the running deploy is over.
#[derive(PartialEq, Eq, Debug)]
pub struct PendingGitDeployRequest {
    pub ref_name: String,
    pub sha: String,
    pub force: bool,
    pub request_id: Option<String>,
    pub interrupt_requested_at: Option<u64>,
}

/// The mathematical form of a request.
#[verifier::ext_equal]
pub struct PendingView {
    pub ref_name: Seq<char>,
    pub sha: Seq<char>,
    pub force: bool,
    pub request_id: Option<Seq<char>>,
    pub interrupt_requested_at: Option<u64>,
}

impl DeepView for PendingGitDeployRequest {
    type V = PendingView;

    open spec fn deep_view(&self) -> PendingView {
        PendingView {
            ref_name: self.ref_name@,
            sha: self.sha@,
            force: self.force,
            request_id: self.request_id.deep_view(),
            interrupt_requested_at: self.interrupt_requested_at,
        }
    }
}

impl PendingGitDeployRequest {
    /// A request for a revision. One that has a name asks the running deploy to stop.
    pub fn from_target(
        target: &GitCheckoutTarget,
        force: bool,
        request_id: Option<String>,
        now: u64,
    ) -> (r: PendingGitDeployRequest)
        ensures
            r.deep_view() == (PendingView {
                ref_name: target.ref_name@,
                sha: target.sha@,
                force,
                request_id: request_id.deep_view(),
                interrupt_requested_at: if request_id is Some {
                    Some(now)
                } else {
                    None
                },
            }),
    {
        let interrupt_requested_at = if request_id.is_some() {
            Some(now)
        } else {
            None
        };
        PendingGitDeployRequest {
            ref_name: target.ref_name.clone(),
            sha: target.sha.clone(),
            force,
            request_id,
            interrupt_requested_at,
        }
    }

    pub fn target(&self) -> (r: GitCheckoutTarget)
        ensures
            r.deep_view() == (TargetView { ref_name: self.ref_name@, sha: self.sha@ }),
    {
        GitCheckoutTarget { ref_name: self.ref_name.clone(), sha: self.sha.clone() }
    }
}

/// The revision that a ref and an object name, given both or neither.
pub open spec fn target_of(
    git_ref: Option<Seq<char>>,
    git_sha: Option<Seq<char>>,
) -> Result<Option<TargetView>, Seq<char>> {
    match (git_ref, git_sha) {
        (None, None) => Ok(None),
        (Some(ref_name), Some(sha)) => if trim(ref_name).len() == 0 {
            Err("deploy ref is empty"@)
        } else if trim(sha).len() == 0 {
            Err("deploy sha is empty"@)
        } else {
            Ok(Some(TargetView { ref_name: trim(ref_name), sha: trim(sha) }))
        },
        _ => Err("deploy requires both --ref and --sha"@),
    }
}

pub fn parse_git_checkout_target(git_ref: Option<&str>, git_sha: Option<&str>) -> (r: Result<
    Option<GitCheckoutTarget>,
    String,
>)
    ensures
        outcome(r) == target_of(git_ref.deep_view(), git_sha.deep_view()),
{
    match (git_ref, git_sha) {
        (None, None) => Ok(None),
        (Some(ref_name), Some(sha)) => {
            let ref_name = trimmed(ref_name);
            let sha = trimmed(sha);
            if ref_name.is_empty() {
                return Err(String::from_str("deploy ref is empty"));
            }
            if sha.is_empty() {
                return Err(String::from_str("deploy sha is empty"));
            }
            Ok(Some(GitCheckoutTarget { ref_name: ref_name.to_owned(), sha: sha.to_owned() }))
        },
        _ => Err(String::from_str("deploy requires both --ref and --sha")),
    }
}

/// Whether the revision is on record as deployed.
pub open spec fn succeeded(state: Option<GitStateView>, target: TargetView) -> bool {
    match state {
        Some(state) => state.status == GitDeployStatus::Success && state.sha == target.sha,
        None => false,
    }
}

pub fn git_target_already_succeeded_with_state(
    state: Option<&GitDeployState>,
    target: &GitCheckoutTarget,
) -> (r: bool)
    ensures
        r == succeeded(state.deep_view(), target.deep_view()),
{
    match state {
        Some(state) => state.status == GitDeployStatus::Success && same(
            state.sha.as_str(),
            target.sha.as_str(),
        ),
        None => false,
    }
}

/// The revision that was last deployed, where that succeeded.
pub open spec fn deployed_revision(state: Option<GitStateView>) -> Option<Seq<char>> {
    match state {
        Some(state) if state.status == GitDeployStatus::Success => Some(state.sha),
        _ => None,
    }
}

pub fn active_revision(state: Option<&GitDeployState>) -> (r: Option<String>)
    ensures
        r.deep_view() == deployed_revision(state.deep_view()),
{
    match state {
        Some(state) => if state.status == GitDeployStatus::Success {
            Some(state.sha.clone())
        } else {
            None
        },
        None => None,
    }
}

// ---------------------------------------------------------------------------
// Checking out
// ---------------------------------------------------------------------------

/// What is checked out for a ref: of a branch, what the remote has.
pub open spec fn checkout_ref(ref_name: Seq<char>) -> Seq<char> {
    match strip_prefix(ref_name, "refs/heads/"@) {
        Some(branch) => "origin/"@ + branch,
        None => ref_name,
    }
}

pub fn checkout_ref_target(ref_name: &str) -> (r: String)
    ensures
        r@ == checkout_ref(ref_name@),
{
    match without_prefix(ref_name, "refs/heads/") {
        Some(branch) => {
            let mut r = String::from_str("origin/");
            r.append(branch);
            r
        },
        None => ref_name.to_owned(),
    }
}

/// The words with which a repository is cloned.
pub open spec fn clone_words(has_target: bool) -> Seq<Seq<char>> {
    if has_target {
        seq!["clone"@, "--no-checkout"@]
    } else {
        seq!["clone"@, "--depth"@, "1"@]
    }
}

/// The arguments with which the repository is cloned: whole where a revision is to be
/// found in it.
pub fn clone_args(target: Option<&GitCheckoutTarget>) -> (r: Vec<String>)
    ensures
        r.deep_view() == clone_words(target is Some),
{
    let mut r: Vec<String> = Vec::new();
    push_text(&mut r, String::from_str("clone"));
    if target.is_some() {
        push_text(&mut r, String::from_str("--no-checkout"));
        assert(r.deep_view() =~= seq!["clone"@, "--no-checkout"@]);
    } else {
        push_text(&mut r, String::from_str("--depth"));
        push_text(&mut r, String::from_str("1"));
        assert(r.deep_view() =~= seq!["clone"@, "--depth"@, "1"@]);
    }
    r
}

/// What a checkout is compared with.
#[derive(Clone, Copy, PartialEq, Eq, Structural, Debug)]
pub enum Comparison {
    /// The commit that is checked out.
    Head,
    /// The object that the ref names.
    Ref,
    Nothing,
}

pub open spec fn comparison_for(object_type: Seq<char>) -> Comparison {
    if object_type == "commit"@ {
        Comparison::Head
    } else if object_type == "tag"@ {
        Comparison::Ref
    } else {
        Comparison::Nothing
    }
}

pub fn checkout_comparison(object_type: &str) -> (r: Comparison)
    ensures
        r == comparison_for(object_type@),
{
    if same(object_type, "commit") {
        Comparison::Head
    } else if same(object_type, "tag") {
        Comparison::Ref
    } else {
        Comparison::Nothing
    }
}

/// Whether what was checked out is what was pushed.
pub open spec fn checkout_verdict(
    target: TargetView,
    comparison: Comparison,
    found: Seq<char>,
) -> Result<(), Seq<char>> {
    if comparison == Comparison::Nothing || found == target.sha {
        Ok(())
    } else if comparison == Comparison::Head {
        Err(
            "checked out commit "@ + found + " does not match pushed commit "@ + target.sha,
        )
    } else {
        Err(
            "checked out ref "@ + target.ref_name + " resolved to "@ + found + ", expected "@
                + target.sha,
        )
    }
}

pub fn verify_checkout(target: &GitCheckoutTarget, comparison: Comparison, found: &str) -> (r:
    Result<(), String>)
    ensures
        outcome(r) == checkout_verdict(target.deep_view(), comparison, found@),
{
    if comparison == Comparison::Nothing || same(found, target.sha.as_str()) {
        return Ok(());
    }
    if comparison == Comparison::Head {
        let mut message = String::from_str("checked out commit ");
        message.append(found);
        message.append(" does not match pushed commit ");
        message.append(target.sha.as_str());
        return Err(message);
    }
    let mut message = String::from_str("checked out ref ");
    message.append(target.ref_name.as_str());
    message.append(" resolved to ");
    message.append(found);
    message.append(", expected ");
    message.append(target.sha.as_str());
    Err(message)
}

/// The project in which the containers of a user stand, by the user's id.
pub fn project_of_user(uid: &str) -> (r: String)
    ensures
        r@ == "user-"@ + trim(uid@),
{
    let mut r = String::from_str("user-");
    r.append(trimmed(uid));
    r
}

/// A revision is asked for by a ref and a commit, both or neither, and neither blank; white
/// space at their ends is no part of them.
pub proof fn revisions_have_a_ref_and_a_commit(
    git_ref: Option<Seq<char>>,
    git_sha: Option<Seq<char>>,
)
    ensures
        ({
            let target = target_of(git_ref, git_sha);
            let both = git_ref is Some && git_sha is Some;
            &&& target == Ok::<Option<TargetView>, Seq<char>>(None) <==> git_ref is None
                && git_sha is None
            &&& (target is Ok && target->Ok_0 is Some) <==> both && trim(git_ref->0).len() > 0
                && trim(git_sha->0).len() > 0
            &&& target is Ok && target->Ok_0 is Some ==> target->Ok_0->0.ref_name == trim(
                git_ref->0,
            ) && target->Ok_0->0.sha == trim(git_sha->0)
        }),
{
}

/// A revision counts as deployed where its deploy succeeded, and by its commit alone.
pub proof fn revisions_are_known_by_their_commit(state: Option<GitStateView>, target: TargetView)
    ensures
        succeeded(state, target) <==> deployed_revision(state) == Some(target.sha),
        deployed_revision(state) is Some <==> state is Some && state->0.status
            == GitDeployStatus::Success,
        deployed_revision(state) is Some ==> deployed_revision(state)->0 == state->0.sha,
{
}

/// A branch is checked out as the remote has it, and anything else by its own name.
pub proof fn branches_are_checked_out_from_the_remote(branch: Seq<char>, ref_name: Seq<char>)
    ensures
        checkout_ref("refs/heads/"@ + branch) == "origin/"@ + branch,
        !("refs/heads/"@.is_prefix_of(ref_name)) ==> checkout_ref(ref_name) == ref_name,
{
    let whole = "refs/heads/"@ + branch;
    let n = "refs/heads/"@.len() as int;
    assert(whole.take(n) =~= "refs/heads/"@);
    assert(whole.skip(n) =~= branch);
    if "refs/heads/"@.len() <= ref_name.len() {
        assert(ref_name.take(n) =~= ref_name.subrange(0, n));
    }
}

/// What was checked out is accepted exactly where it is what was pushed: the commit that is
/// checked out for a commit, and what the ref names for a tag. Nothing else is compared.
pub proof fn checkouts_are_what_was_pushed(
    target: TargetView,
    object_type: Seq<char>,
    found: Seq<char>,
)
    ensures
        ({
            let verdict = checkout_verdict(target, comparison_for(object_type), found);
            &&& verdict is Ok <==> found == target.sha || (object_type != "commit"@ && object_type
                != "tag"@)
            &&& object_type == "commit"@ ==> comparison_for(object_type) == Comparison::Head
            &&& object_type == "tag"@ ==> comparison_for(object_type) == Comparison::Ref
        }),
{
    reveal_strlit("commit");
    reveal_strlit("tag");
    assert("commit"@.len() != "tag"@.len());
}

/// A repository is cloned whole, so that any revision can be checked out, exactly where one
/// is asked for.
pub proof fn revisions_need_a_whole_clone(has_target: bool)
    ensures
        clone_words(has_target).contains("--depth"@) <==> !has_target,
        clone_words(has_target).contains("--no-checkout"@) <==> has_target,
        clone_words(has_target)[0] == "clone"@,
{
    reveal_strlit("clone");
    reveal_strlit("--no-checkout");
    reveal_strlit("--depth");
    reveal_strlit("1");
    assert("clone"@.len() == 5 && "--no-checkout"@.len() == 13 && "--depth"@.len() == 7);
    assert("1"@.len() == 1);
    assert(has_target ==> clone_words(has_target)[1] == "--no-checkout"@);
    assert(!has_target ==> clone_words(has_target)[1] == "--depth"@);
}

} // verus!
