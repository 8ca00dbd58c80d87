//! The checks that tell whether the host is set up.

use vstd::prelude::*;
use crate::host::holds_line;
use crate::provide::binary_matches_version;
use crate::split::{lines, lines_of, words, words_of};
use crate::tailnet::{PermissionView, TailscaleOauthPermissionCheck};
use crate::tailscale::{OAUTH_SCOPE_HINT, OAUTH_SETTINGS_URL};
use crate::text::{
    contains_text, cut_end, ends_with, has_suffix, outcome, same, trim, trim_end_of, trimmed,
    CharClass,
};

verus! {

/// What was found out about the tailnet.
pub struct TailscaleFacts {
    pub installed: bool,
    pub connected: bool,
    pub ssh_enabled: bool,
    /// What the credentials allow, where there are some.
    pub oauth: Option<TailscaleOauthPermissionCheck>,
}

/// What was found out about the host.
pub struct DoctorFacts {
    pub expected_version: String,
    /// The shell of the user that runs the apps.
    pub shell: Option<String>,
    pub shell_is_file: bool,
    pub shell_version: Option<String>,
    pub cli_executable: bool,
    pub user_exists: bool,
    /// The line of the user in the list of users.
    pub passwd: Option<String>,
    /// The list of shells.
    pub shells: Option<String>,
    /// The groups of the user.
    pub groups: Option<String>,
    pub incus_installed: bool,
    pub incus_responsive: bool,
    /// Nothing where the tailnet is not used.
    pub tailscale: Option<TailscaleFacts>,
    pub repos_exist: bool,
    pub builds_exist: bool,
    pub stacks_exist: bool,
    /// The names of the files among the stacks.
    pub stack_files: Option<Vec<String>>,
}

/// A line of the report.
pub enum DoctorLine {
    Text(String),
    Check { label: String, ok: bool },
}

/// The mathematical form of a line.
pub enum DoctorLineView {
    Text(Seq<char>),
    Check { label: Seq<char>, ok: bool },
}

impl DeepView for DoctorLine {
    type V = DoctorLineView;

    open spec fn deep_view(&self) -> DoctorLineView {
        match self {
            DoctorLine::Text(text) => DoctorLineView::Text(text@),
            DoctorLine::Check { label, ok } => DoctorLineView::Check { label: label@, ok: *ok },
        }
    }
}

/// What is shown for a line.
pub open spec fn shown(line: DoctorLineView) -> Seq<char> {
    match line {
        DoctorLineView::Text(text) => text,
        DoctorLineView::Check { label, ok } => if ok {
            "  [ok] "@ + label
        } else {
            "  [FAIL] "@ + label
        },
    }
}

pub fn doctor_line(line: &DoctorLine) -> (r: String)
    ensures
        r@ == shown(line.deep_view()),
{
    match line {
        DoctorLine::Text(text) => text.clone(),
        DoctorLine::Check { label, ok } => {
            let mut r = if *ok {
                String::from_str("  [ok] ")
            } else {
                String::from_str("  [FAIL] ")
            };
            r.append(label.as_str());
            r
        },
    }
}

pub open spec fn text(t: Seq<char>) -> DoctorLineView {
    DoctorLineView::Text(t)
}

pub open spec fn check(label: Seq<char>, ok: bool) -> DoctorLineView {
    DoctorLineView::Check { label, ok }
}

pub open spec fn installation_lines(f: DoctorFacts) -> Seq<DoctorLineView> {
    seq![
        text("Installation:"@),
        check("psht user shell path exists"@, f.shell is Some && f.shell_is_file),
        check("$PSHT_HOME/bin/psht executable"@, f.cli_executable),
        check(
            "psht version "@ + f.expected_version@,
            f.shell is Some && f.shell_version.deep_view() == Some(f.expected_version@),
        ),
    ]
}

pub open spec fn shell_is_set(f: DoctorFacts, shell: Seq<char>) -> bool {
    match f.passwd {
        Some(line) => ends_with(cut_end(line@, CharClass::White), ":"@ + shell),
        None => false,
    }
}

pub open spec fn shell_is_listed(f: DoctorFacts, shell: Seq<char>) -> bool {
    match f.shells {
        Some(content) => holds_line(content@, shell),
        None => false,
    }
}

pub open spec fn in_group(f: DoctorFacts) -> bool {
    match f.groups {
        Some(groups) => words(groups@).contains("incus"@),
        None => false,
    }
}

pub open spec fn system_lines(f: DoctorFacts) -> Seq<DoctorLineView> {
    let shell = match f.shell.deep_view() {
        Some(shell) => seq![
            check("psht user shell is "@ + shell, shell_is_set(f, shell)),
            check(shell + " listed in /etc/shells"@, shell_is_listed(f, shell)),
        ],
        None => seq![
            check("psht user shell configured"@, false),
            check("psht user shell listed in /etc/shells"@, false),
        ],
    };
    seq![text(""@), text("System:"@), check("psht user exists"@, f.user_exists)] + shell + seq![
        check("psht user in incus group"@, in_group(f)),
    ]
}

pub open spec fn incus_lines(f: DoctorFacts) -> Seq<DoctorLineView> {
    seq![
        text(""@),
        text("Incus:"@),
        check("incus installed"@, f.incus_installed),
        check("incus responsive"@, f.incus_responsive),
    ]
}

pub open spec fn reason_lines(reason: Seq<char>) -> Seq<DoctorLineView> {
    seq![text("         reason: "@ + reason), text("         fix: "@ + OAUTH_SCOPE_HINT@)]
}

/// Whether a permission is given, or why not: because of itself, or because no token
/// could be had.
pub open spec fn permission_lines(
    label: Seq<char>,
    token_error: Option<Seq<char>>,
    error: Option<Seq<char>>,
) -> Seq<DoctorLineView> {
    let ok = token_error is None && error is None;
    if ok {
        seq![check(label, true)]
    } else {
        seq![check(label, false)] + reason_lines(
            match (error, token_error) {
                (Some(err), _) => err,
                (None, Some(err)) => err,
                (None, None) => "unknown"@,
            },
        )
    }
}

pub open spec fn token_lines(token_error: Option<Seq<char>>) -> Seq<DoctorLineView> {
    match token_error {
        None => seq![check("tailscale OAuth token fetch"@, true)],
        Some(err) => seq![check("tailscale OAuth token fetch"@, false)] + reason_lines(err),
    }
}

pub open spec fn oauth_lines(oauth: Option<PermissionView>) -> Seq<DoctorLineView> {
    match oauth {
        Some(p) => seq![check("$PSHT_HOME/.config/tailscale-oauth exists"@, true)] + token_lines(
            p.token_error,
        ) + permission_lines(
            "tailscale device api read permission"@,
            p.token_error,
            p.devices_read_error,
        ) + permission_lines(
            "tailscale device api write permission"@,
            p.token_error,
            p.devices_write_error,
        ),
        None => seq![
            check("$PSHT_HOME/.config/tailscale-oauth exists"@, false),
            check("tailscale OAuth token fetch"@, false),
            check("tailscale device api read permission"@, false),
            check("tailscale device api write permission"@, false),
            text("         reason: tailscale OAuth config is missing"@),
            text("         fix: "@ + OAUTH_SCOPE_HINT@),
            text("         configure at: "@ + OAUTH_SETTINGS_URL@),
        ],
    }
}

pub open spec fn tailscale_lines(facts: Option<TailscaleFacts>) -> Seq<DoctorLineView> {
    match facts {
        Some(f) => seq![
            text(""@),
            text("Tailscale:"@),
            check("tailscale installed"@, f.installed),
            check("tailscale connected"@, f.connected),
            check("tailscale SSH enabled"@, f.ssh_enabled),
        ] + oauth_lines(f.oauth.deep_view()),
        None => Seq::empty(),
    }
}

/// Whether a file is a stack.
pub open spec fn is_stack(name: Seq<char>) -> bool {
    ends_with(name, ".sh"@) && name.len() > 3
}

pub open spec fn any_stack(files: Seq<Seq<char>>) -> bool {
    exists|i: int| 0 <= i < files.len() && is_stack(#[trigger] files[i])
}

pub open spec fn has_stacks(files: Option<Seq<Seq<char>>>) -> bool {
    match files {
        Some(files) => any_stack(files),
        None => false,
    }
}

pub open spec fn directory_lines(f: DoctorFacts) -> Seq<DoctorLineView> {
    seq![
        text(""@),
        text("Directories & stacks:"@),
        check("$PSHT_HOME/repos exists"@, f.repos_exist),
        check("$PSHT_HOME/builds exists"@, f.builds_exist),
        check("$PSHT_HOME/stacks exists"@, f.stacks_exist),
        check("stacks populated"@, has_stacks(f.stack_files.deep_view())),
        text(""@),
    ]
}

/// Whether all the checks among the lines are good.
pub open spec fn all_good(report: Seq<DoctorLineView>) -> bool {
    forall|i: int| 0 <= i < report.len() ==> !(#[trigger] report[i] matches DoctorLineView::Check {
        ok: false,
        ..
    })
}

/// The lines of the report, but for the last.
pub open spec fn findings(f: DoctorFacts) -> Seq<DoctorLineView> {
    installation_lines(f) + system_lines(f) + incus_lines(f) + tailscale_lines(f.tailscale)
        + directory_lines(f)
}

fn say(report: &mut Vec<DoctorLine>, t: &str)
    ensures
        final(report).deep_view() == old(report).deep_view().push(text(t@)),
{
    report.push(DoctorLine::Text(t.to_owned()));
    assert(report.deep_view() =~= old(report).deep_view().push(text(t@)));
}

fn doctor_check(report: &mut Vec<DoctorLine>, label: &str, ok: bool)
    ensures
        final(report).deep_view() == old(report).deep_view().push(check(label@, ok)),
{
    report.push(DoctorLine::Check { label: label.to_owned(), ok });
    assert(report.deep_view() =~= old(report).deep_view().push(check(label@, ok)));
}

fn say_reason(report: &mut Vec<DoctorLine>, reason: &str)
    ensures
        final(report).deep_view() == old(report).deep_view() + reason_lines(reason@),
{
    let mut line = String::from_str("         reason: ");
    line.append(reason);
    say(report, line.as_str());
    let mut line = String::from_str("         fix: ");
    line.append(OAUTH_SCOPE_HINT);
    say(report, line.as_str());
    assert(report.deep_view() =~= old(report).deep_view() + reason_lines(reason@));
}

fn check_installation(report: &mut Vec<DoctorLine>, f: &DoctorFacts)
    ensures
        final(report).deep_view() == old(report).deep_view() + installation_lines(*f),
{
    say(report, "Installation:");
    doctor_check(report, "psht user shell path exists", f.shell.is_some() && f.shell_is_file);
    doctor_check(report, "$PSHT_HOME/bin/psht executable", f.cli_executable);
    let mut label = String::from_str("psht version ");
    label.append(f.expected_version.as_str());
    let version = match &f.shell_version {
        Some(version) => Some(version.as_str()),
        None => None,
    };
    let ok = f.shell.is_some() && binary_matches_version(version, f.expected_version.as_str());
    doctor_check(report, label.as_str(), ok);
    assert(report.deep_view() =~= old(report).deep_view() + installation_lines(*f));
}

fn is_line_of(content: &str, line: &str) -> (r: bool)
    ensures
        r == holds_line(content@, line@),
{
    let all = lines_of(content);
    let ghost views = all.deep_view();
    let mut i: usize = 0;
    while i < all.len()
        invariant
            i <= all@.len(),
            views == all.deep_view(),
            views == lines(content@),
            forall|j: int| 0 <= j < i ==> trim(#[trigger] views[j]) != line@,
        decreases all.len() - i,
    {
        assert(views[i as int] == all@[i as int]@);
        if same(trimmed(all[i].as_str()), line) {
            assert(trim(lines(content@)[i as int]) == line@);
            return true;
        }
        i = i + 1;
    }
    false
}

fn check_system(report: &mut Vec<DoctorLine>, f: &DoctorFacts)
    ensures
        final(report).deep_view() == old(report).deep_view() + system_lines(*f),
{
    say(report, "");
    say(report, "System:");
    doctor_check(report, "psht user exists", f.user_exists);
    match &f.shell {
        Some(shell) => {
            let mut ending = String::from_str(":");
            ending.append(shell.as_str());
            let is_set = match &f.passwd {
                Some(line) => has_suffix(
                    trim_end_of(line.as_str(), CharClass::White),
                    ending.as_str(),
                ),
                None => false,
            };
            let mut label = String::from_str("psht user shell is ");
            label.append(shell.as_str());
            doctor_check(report, label.as_str(), is_set);
            let is_listed = match &f.shells {
                Some(content) => is_line_of(content.as_str(), shell.as_str()),
                None => false,
            };
            let mut label = shell.clone();
            label.append(" listed in /etc/shells");
            doctor_check(report, label.as_str(), is_listed);
        },
        None => {
            doctor_check(report, "psht user shell configured", false);
            doctor_check(report, "psht user shell listed in /etc/shells", false);
        },
    }
    let is_member = match &f.groups {
        Some(groups) => {
            let names = words_of(groups.as_str());
            contains_text(&names, "incus")
        },
        None => false,
    };
    doctor_check(report, "psht user in incus group", is_member);
    assert(report.deep_view() =~= old(report).deep_view() + system_lines(*f));
}

fn check_permission(
    report: &mut Vec<DoctorLine>,
    label: &str,
    token_error: &Option<String>,
    error: &Option<String>,
)
    ensures
        final(report).deep_view() == old(report).deep_view() + permission_lines(
            label@,
            token_error.deep_view(),
            error.deep_view(),
        ),
{
    let ok = token_error.is_none() && error.is_none();
    doctor_check(report, label, ok);
    if !ok {
        match error {
            Some(err) => {
                say_reason(report, err.as_str());
            },
            None => match token_error {
                Some(err) => {
                    say_reason(report, err.as_str());
                },
                None => {
                    say_reason(report, "unknown");
                },
            },
        }
    }
    assert(report.deep_view() =~= old(report).deep_view() + permission_lines(
        label@,
        token_error.deep_view(),
        error.deep_view(),
    ));
}

fn check_oauth(report: &mut Vec<DoctorLine>, oauth: &Option<TailscaleOauthPermissionCheck>)
    ensures
        final(report).deep_view() == old(report).deep_view() + oauth_lines(oauth.deep_view()),
{
    match oauth {
        Some(p) => {
            doctor_check(report, "$PSHT_HOME/.config/tailscale-oauth exists", true);
            doctor_check(report, "tailscale OAuth token fetch", p.token_error.is_none());
            if let Some(err) = &p.token_error {
                say_reason(report, err.as_str());
            }
            assert(report.deep_view() =~= old(report).deep_view() + seq![
                check("$PSHT_HOME/.config/tailscale-oauth exists"@, true),
            ] + token_lines(p.token_error.deep_view()));
            check_permission(
                report,
                "tailscale device api read permission",
                &p.token_error,
                &p.devices_read_error,
            );
            check_permission(
                report,
                "tailscale device api write permission",
                &p.token_error,
                &p.devices_write_error,
            );
            assert(report.deep_view() =~= old(report).deep_view() + oauth_lines(
                oauth.deep_view(),
            ));
        },
        None => {
            doctor_check(report, "$PSHT_HOME/.config/tailscale-oauth exists", false);
            doctor_check(report, "tailscale OAuth token fetch", false);
            doctor_check(report, "tailscale device api read permission", false);
            doctor_check(report, "tailscale device api write permission", false);
            say(report, "         reason: tailscale OAuth config is missing");
            let mut line = String::from_str("         fix: ");
            line.append(OAUTH_SCOPE_HINT);
            say(report, line.as_str());
            let mut line = String::from_str("         configure at: ");
            line.append(OAUTH_SETTINGS_URL);
            say(report, line.as_str());
            assert(report.deep_view() =~= old(report).deep_view() + oauth_lines(
                oauth.deep_view(),
            ));
        },
    }
}

fn check_tailscale(report: &mut Vec<DoctorLine>, facts: &Option<TailscaleFacts>)
    ensures
        final(report).deep_view() == old(report).deep_view() + tailscale_lines(*facts),
{
    if let Some(f) = facts {
        say(report, "");
        say(report, "Tailscale:");
        doctor_check(report, "tailscale installed", f.installed);
        doctor_check(report, "tailscale connected", f.connected);
        doctor_check(report, "tailscale SSH enabled", f.ssh_enabled);
        check_oauth(report, &f.oauth);
    }
    assert(report.deep_view() =~= old(report).deep_view() + tailscale_lines(*facts));
}

fn holds_stack(files: &Vec<String>) -> (r: bool)
    ensures
        r == any_stack(files.deep_view()),
{
    let ghost views = files.deep_view();
    let mut i: usize = 0;
    while i < files.len()
        invariant
            i <= files@.len(),
            views == files.deep_view(),
            forall|j: int| 0 <= j < i ==> !is_stack(#[trigger] views[j]),
        decreases files.len() - i,
    {
        assert(views[i as int] == files@[i as int]@);
        if has_suffix(files[i].as_str(), ".sh") && !same(files[i].as_str(), ".sh") {
            proof {
                reveal_strlit(".sh");
                if views[i as int].len() == 3 {
                    assert(views[i as int] =~= ".sh"@);
                }
                assert(is_stack(views[i as int]));
            }
            return true;
        }
        proof {
            reveal_strlit(".sh");
        }
        i = i + 1;
    }
    false
}

fn check_directories(report: &mut Vec<DoctorLine>, f: &DoctorFacts)
    ensures
        final(report).deep_view() == old(report).deep_view() + directory_lines(*f),
{
    say(report, "");
    say(report, "Directories & stacks:");
    doctor_check(report, "$PSHT_HOME/repos exists", f.repos_exist);
    doctor_check(report, "$PSHT_HOME/builds exists", f.builds_exist);
    doctor_check(report, "$PSHT_HOME/stacks exists", f.stacks_exist);
    let populated = match &f.stack_files {
        Some(files) => holds_stack(files),
        None => false,
    };
    doctor_check(report, "stacks populated", populated);
    say(report, "");
    assert(report.deep_view() =~= old(report).deep_view() + directory_lines(*f));
}

fn is_all_good(report: &Vec<DoctorLine>) -> (r: bool)
    ensures
        r == all_good(report.deep_view()),
{
    let ghost views = report.deep_view();
    let mut i: usize = 0;
    while i < report.len()
        invariant
            i <= report@.len(),
            views == report.deep_view(),
            forall|j: int|
                0 <= j < i ==> !(#[trigger] views[j] matches DoctorLineView::Check {
                    ok: false,
                    ..
                }),
        decreases report.len() - i,
    {
        assert(views[i as int] == report@[i as int].deep_view());
        if let DoctorLine::Check { label, ok } = &report[i] {
            if !*ok {
                assert(views[i as int] matches DoctorLineView::Check { ok: false, .. });
                return false;
            }
        }
        i = i + 1;
    }
    true
}

/// The report on the host, and whether it is set up.
pub fn doctor(f: &DoctorFacts) -> (r: (Vec<DoctorLine>, Result<(), String>))
    ensures
        r.0.deep_view() == findings(*f).push(
            text(
                if all_good(findings(*f)) {
                    "All checks passed."@
                } else {
                    "Some checks failed."@
                },
            ),
        ),
        outcome(r.1) == if all_good(findings(*f)) {
            Ok::<(), Seq<char>>(())
        } else {
            Err("doctor checks failed"@)
        },
{
    let mut report: Vec<DoctorLine> = Vec::new();
    assert(report.deep_view() =~= Seq::empty());
    check_installation(&mut report, f);
    check_system(&mut report, f);
    say(&mut report, "");
    say(&mut report, "Incus:");
    doctor_check(&mut report, "incus installed", f.incus_installed);
    doctor_check(&mut report, "incus responsive", f.incus_responsive);
    check_tailscale(&mut report, &f.tailscale);
    check_directories(&mut report, f);
    assert(report.deep_view() =~= findings(*f));
    if is_all_good(&report) {
        say(&mut report, "All checks passed.");
        (report, Ok(()))
    } else {
        say(&mut report, "Some checks failed.");
        (report, Err(String::from_str("doctor checks failed")))
    }
}

/// A host is found to be set up only where its user, its tools and its directories are
/// there, and, where the tailnet is used, the credentials for it allow what is needed.
pub proof fn sound_hosts_are_set_up(f: DoctorFacts)
    requires
        all_good(findings(f)),
    ensures
        f.user_exists,
        f.cli_executable,
        f.incus_installed,
        f.incus_responsive,
        f.repos_exist && f.builds_exist && f.stacks_exist,
        f.shell_version.deep_view() == Some(f.expected_version@),
        f.tailscale matches Some(t) ==> t.connected && t.ssh_enabled && t.oauth is Some,
{
    let report = findings(f);
    let a = installation_lines(f);
    let b = system_lines(f);
    let c = incus_lines(f);
    let t = tailscale_lines(f.tailscale);
    let d = directory_lines(f);
    assert(report =~= a + b + c + t + d);
    let n1 = a.len() as int;
    let n2 = n1 + b.len();
    let n3 = n2 + c.len();
    let n4 = n3 + t.len();
    assert(report[2] == check("$PSHT_HOME/bin/psht executable"@, f.cli_executable));
    assert(report[3] == a[3]);
    assert(report[n1 + 2] == b[2] && b[2] == check("psht user exists"@, f.user_exists));
    assert(report[n2 + 2] == c[2] && report[n2 + 3] == c[3]);
    assert(report[n4 + 2] == d[2] && report[n4 + 3] == d[3] && report[n4 + 4] == d[4]);
    if let Some(ts) = f.tailscale {
        assert(report[n3 + 3] == t[3] && report[n3 + 4] == t[4] && report[n3 + 5] == t[5]);
        assert(t[3] == check("tailscale connected"@, ts.connected));
        assert(t[4] == check("tailscale SSH enabled"@, ts.ssh_enabled));
        assert(t[5] == oauth_lines(ts.oauth.deep_view())[0]);
    }
}

proof fn good_parts_make_a_good_whole(a: Seq<DoctorLineView>, b: Seq<DoctorLineView>)
    ensures
        all_good(a + b) <==> all_good(a) && all_good(b),
{
    let whole = a + b;
    if all_good(whole) {
        assert forall|i: int| 0 <= i < a.len() implies !(#[trigger] a[i]
            matches DoctorLineView::Check { ok: false, .. }) by {
            assert(whole[i] == a[i]);
        }
        assert forall|i: int| 0 <= i < b.len() implies !(#[trigger] b[i]
            matches DoctorLineView::Check { ok: false, .. }) by {
            assert(whole[a.len() + i] == b[i]);
        }
    }
}

proof fn installations_are_good(f: DoctorFacts)
    ensures
        all_good(installation_lines(f)) <==> {
            &&& f.shell is Some && f.shell_is_file
            &&& f.cli_executable
            &&& f.shell_version is Some && f.shell_version->0@ == f.expected_version@
        },
        all_good(incus_lines(f)) <==> f.incus_installed && f.incus_responsive,
        all_good(directory_lines(f)) <==> {
            &&& f.repos_exist && f.builds_exist && f.stacks_exist
            &&& f.stack_files is Some && any_stack(f.stack_files->0.deep_view())
        },
{
    let a = installation_lines(f);
    let c = incus_lines(f);
    let d = directory_lines(f);
    assert(a[1] == check("psht user shell path exists"@, f.shell is Some && f.shell_is_file));
    assert(a[2] == check("$PSHT_HOME/bin/psht executable"@, f.cli_executable));
    assert(a[3] == check(
        "psht version "@ + f.expected_version@,
        f.shell is Some && f.shell_version.deep_view() == Some(f.expected_version@),
    ));
    assert(c[2] == check("incus installed"@, f.incus_installed));
    assert(c[3] == check("incus responsive"@, f.incus_responsive));
    assert(d[2] == check("$PSHT_HOME/repos exists"@, f.repos_exist));
    assert(d[3] == check("$PSHT_HOME/builds exists"@, f.builds_exist));
    assert(d[4] == check("$PSHT_HOME/stacks exists"@, f.stacks_exist));
    assert(d[5] == check("stacks populated"@, has_stacks(f.stack_files.deep_view())));
}

proof fn systems_are_good(f: DoctorFacts)
    ensures
        all_good(system_lines(f)) <==> {
            &&& f.user_exists
            &&& f.shell is Some && shell_is_set(f, f.shell->0@) && shell_is_listed(f, f.shell->0@)
            &&& f.groups is Some && words(f.groups->0@).contains("incus"@)
        },
{
    let b = system_lines(f);
    assert(b[2] == check("psht user exists"@, f.user_exists));
    assert(b[5] == check("psht user in incus group"@, in_group(f)));
    match f.shell {
        Some(shell) => {
            assert(b[3] == check("psht user shell is "@ + shell@, shell_is_set(f, shell@)));
            assert(b[4] == check(
                shell@ + " listed in /etc/shells"@,
                shell_is_listed(f, shell@),
            ));
        },
        None => {
            assert(b[3] == check("psht user shell configured"@, false));
        },
    }
}

proof fn tailnets_are_good(facts: Option<TailscaleFacts>)
    ensures
        all_good(tailscale_lines(facts)) <==> (facts matches Some(t) ==> {
            &&& t.installed && t.connected && t.ssh_enabled
            &&& t.oauth is Some
            &&& t.oauth->0.token_error is None
            &&& t.oauth->0.devices_read_error is None
            &&& t.oauth->0.devices_write_error is None
        }),
{
    if let Some(t) = facts {
        let head = seq![
            text(""@),
            text("Tailscale:"@),
            check("tailscale installed"@, t.installed),
            check("tailscale connected"@, t.connected),
            check("tailscale SSH enabled"@, t.ssh_enabled),
        ];
        let oauth = oauth_lines(t.oauth.deep_view());
        good_parts_make_a_good_whole(head, oauth);
        assert(head[2] == check("tailscale installed"@, t.installed));
        assert(head[3] == check("tailscale connected"@, t.connected));
        assert(head[4] == check("tailscale SSH enabled"@, t.ssh_enabled));
        match t.oauth.deep_view() {
            Some(p) => {
                let first = seq![check("$PSHT_HOME/.config/tailscale-oauth exists"@, true)];
                let token = token_lines(p.token_error);
                let read = permission_lines(
                    "tailscale device api read permission"@,
                    p.token_error,
                    p.devices_read_error,
                );
                let write = permission_lines(
                    "tailscale device api write permission"@,
                    p.token_error,
                    p.devices_write_error,
                );
                good_parts_make_a_good_whole(first + token + read, write);
                good_parts_make_a_good_whole(first + token, read);
                good_parts_make_a_good_whole(first, token);
                assert(p.token_error is Some ==> token[0] == check(
                    "tailscale OAuth token fetch"@,
                    false,
                ));
                assert(p.token_error is Some || p.devices_read_error is Some ==> read[0] == check(
                    "tailscale device api read permission"@,
                    false,
                ));
                assert(p.token_error is Some || p.devices_write_error is Some ==> write[0] == check(
                    "tailscale device api write permission"@,
                    false,
                ));
            },
            None => {
                assert(oauth[0] == check("$PSHT_HOME/.config/tailscale-oauth exists"@, false));
            },
        }
    }
}

/// A host is found to be sound exactly where all that is looked at is as it is to be: what
/// is installed, the user with its shell and its group, incus, the tailnet where it is used
/// with all that its credentials must allow, and the directories with some stacks.
pub proof fn hosts_are_sound_where_all_is_set_up(f: DoctorFacts)
    ensures
        all_good(findings(f)) <==> {
            &&& f.shell is Some && f.shell_is_file
            &&& f.shell_version is Some && f.shell_version->0@ == f.expected_version@
            &&& f.cli_executable
            &&& f.user_exists
            &&& f.passwd is Some && ends_with(
                cut_end(f.passwd->0@, CharClass::White),
                ":"@ + f.shell->0@,
            )
            &&& f.shells is Some && holds_line(f.shells->0@, f.shell->0@)
            &&& f.groups is Some && words(f.groups->0@).contains("incus"@)
            &&& f.incus_installed && f.incus_responsive
            &&& f.tailscale matches Some(t) ==> {
                &&& t.installed && t.connected && t.ssh_enabled
                &&& t.oauth is Some
                &&& t.oauth->0.token_error is None
                &&& t.oauth->0.devices_read_error is None
                &&& t.oauth->0.devices_write_error is None
            }
            &&& f.repos_exist && f.builds_exist && f.stacks_exist
            &&& f.stack_files is Some && any_stack(f.stack_files->0.deep_view())
        },
{
    let a = installation_lines(f);
    let b = system_lines(f);
    let c = incus_lines(f);
    let t = tailscale_lines(f.tailscale);
    let d = directory_lines(f);
    good_parts_make_a_good_whole(a, b);
    good_parts_make_a_good_whole(a + b, c);
    good_parts_make_a_good_whole(a + b + c, t);
    good_parts_make_a_good_whole(a + b + c + t, d);
    installations_are_good(f);
    systems_are_good(f);
    tailnets_are_good(f.tailscale);
}

/// Stacks are files with the ending of a script, and a name before it.
pub proof fn stacks_are_scripts(name: Seq<char>)
    ensures
        is_stack(name + ".sh"@) <==> name.len() > 0,
{
    reveal_strlit(".sh");
    let whole = name + ".sh"@;
    assert(whole.skip(whole.len() - 3) =~= ".sh"@);
}

} // verus!
