//! Commands that run on the host, small files that it keeps, and the knobs of its
//! environment.

use vstd::prelude::*;
use crate::number::{decimal, decimal_of, parse_up_to, parsed_up_to, parsing_undoes_decimal};
use crate::shell::{command_line, pretty_cmd};
use crate::split::{lines, lines_of, split, split_at_each};
use crate::text::{
    cut, cut_end, cut_start, ends_with, has_suffix, is_digit, outcome, push_text, same,
    strip_prefix, trim, trim_of, trimmed, without_prefix, CharClass,
};

verus! {

// ---------------------------------------------------------------------------
// Commands
// ---------------------------------------------------------------------------

pub const INCUS_METADATA_TIMEOUT_SECS: u64 = 20;

/// The message for a command that failed, with what it printed on the way.
pub open spec fn failed_message(line: Seq<char>, stderr: Seq<char>) -> Seq<char> {
    if trim(stderr).len() == 0 {
        "command failed: "@ + line
    } else {
        "command failed: "@ + line + ": "@ + trim(stderr)
    }
}

pub fn command_failed_error(program: &str, args: &Vec<String>, stderr: &str) -> (r: String)
    ensures
        r@ == failed_message(command_line(program@, args.deep_view()), stderr@),
{
    let mut message = String::from_str("command failed: ");
    let line = pretty_cmd(program, args);
    message.append(line.as_str());
    let stderr = trimmed(stderr);
    if !stderr.is_empty() {
        message.append(": ");
        message.append(stderr);
    }
    message
}

/// Whether a command whose output nobody keeps succeeded.
pub fn run_cmd(program: &str, args: &Vec<String>, success: bool) -> (r: Result<(), String>)
    ensures
        outcome(r) == if success {
            Ok::<(), Seq<char>>(())
        } else {
            Err("command failed: "@ + command_line(program@, args.deep_view()))
        },
{
    if success {
        return Ok(());
    }
    let mut message = String::from_str("command failed: ");
    let line = pretty_cmd(program, args);
    message.append(line.as_str());
    Err(message)
}

/// What a command printed, or why it failed.
pub open spec fn captured(line: Seq<char>, success: bool, stdout: Seq<char>, stderr: Seq<char>) -> Result<
    Seq<char>,
    Seq<char>,
> {
    if success {
        Ok(trim(stdout))
    } else {
        Err(failed_message(line, stderr))
    }
}

pub fn run_cmd_capture(
    program: &str,
    args: &Vec<String>,
    success: bool,
    stdout: &str,
    stderr: &str,
) -> (r: Result<String, String>)
    ensures
        outcome(r) == captured(
            command_line(program@, args.deep_view()),
            success,
            stdout@,
            stderr@,
        ),
{
    if success {
        Ok(trimmed(stdout).to_owned())
    } else {
        Err(command_failed_error(program, args, stderr))
    }
}

/// The words after `timeout` that bound how long a command runs.
pub fn timeout_args(program: &str, args: &Vec<String>, timeout_secs: u64) -> (r: Vec<String>)
    ensures
        r.deep_view() == seq!["--kill-after=2s"@, decimal(timeout_secs as nat) + "s"@, program@]
            + args.deep_view(),
{
    let mut limit = decimal_of(timeout_secs);
    limit.append("s");
    let mut r: Vec<String> = Vec::new();
    push_text(&mut r, String::from_str("--kill-after=2s"));
    push_text(&mut r, limit);
    push_text(&mut r, program.to_owned());
    let ghost head = seq!["--kill-after=2s"@, decimal(timeout_secs as nat) + "s"@, program@];
    let ghost all = args.deep_view();
    let mut i: usize = 0;
    assert(r.deep_view() =~= head + all.take(0));
    while i < args.len()
        invariant
            i <= args@.len(),
            all == args.deep_view(),
            r.deep_view() == head + all.take(i as int),
        decreases args.len() - i,
    {
        push_text(&mut r, args[i].clone());
        assert(r.deep_view() =~= head + all.take(i + 1));
        i = i + 1;
    }
    assert(all.take(i as int) =~= all);
    r
}

/// Whether `timeout` says by its exit code that the time was over.
pub fn timed_out(code: Option<i32>) -> (r: bool)
    ensures
        r == (code == Some(124i32) || code == Some(137i32)),
{
    match code {
        Some(code) => code == 124 || code == 137,
        None => false,
    }
}

pub open spec fn too_slow_message(line: Seq<char>, timeout_secs: u64) -> Seq<char> {
    "command timed out after "@ + decimal(timeout_secs as nat) + "s: "@ + line
}

pub fn command_timed_out_error(program: &str, args: &Vec<String>, timeout_secs: u64) -> (r: String)
    ensures
        r@ == too_slow_message(command_line(program@, args.deep_view()), timeout_secs),
{
    let mut message = String::from_str("command timed out after ");
    let secs = decimal_of(timeout_secs);
    message.append(secs.as_str());
    message.append("s: ");
    let line = pretty_cmd(program, args);
    message.append(line.as_str());
    message
}

/// What a command printed within its time, or why not.
pub fn run_cmd_capture_with_timeout(
    program: &str,
    args: &Vec<String>,
    timeout_secs: u64,
    too_slow: bool,
    success: bool,
    stdout: &str,
    stderr: &str,
) -> (r: Result<String, String>)
    ensures
        outcome(r) == if too_slow {
            Err::<Seq<char>, Seq<char>>(
                too_slow_message(command_line(program@, args.deep_view()), timeout_secs),
            )
        } else {
            captured(command_line(program@, args.deep_view()), success, stdout@, stderr@)
        },
{
    if too_slow {
        return Err(command_timed_out_error(program, args, timeout_secs));
    }
    run_cmd_capture(program, args, success, stdout, stderr)
}

/// Whether a command succeeded within its time.
pub fn command_succeeds_with_timeout(
    program: &str,
    args: &Vec<String>,
    timeout_secs: u64,
    too_slow: bool,
    success: bool,
) -> (r: Result<bool, String>)
    ensures
        outcome(r) == if too_slow {
            Err::<bool, Seq<char>>(
                too_slow_message(command_line(program@, args.deep_view()), timeout_secs),
            )
        } else {
            Ok(success)
        },
{
    if too_slow {
        return Err(command_timed_out_error(program, args, timeout_secs));
    }
    Ok(success)
}

/// Whether a command of the host is run by root, which it must be.
pub fn require_root(uid: &str, command: &str) -> (r: Result<(), String>)
    ensures
        outcome(r) == if uid@ == "0"@ {
            Ok::<(), Seq<char>>(())
        } else {
            Err("Run this command as root: sudo psht-server "@ + command@)
        },
{
    if same(uid, "0") {
        return Ok(());
    }
    let mut message = String::from_str("Run this command as root: sudo psht-server ");
    message.append(command);
    Err(message)
}

// ---------------------------------------------------------------------------
// Files
// ---------------------------------------------------------------------------

/// The number that a text holds, or another one.
pub open spec fn number_or(text: Option<Seq<char>>, default: u64) -> u64 {
    match text {
        Some(text) => match parsed_up_to(trim(text), u64::MAX as nat) {
            Some(n) => n as u64,
            None => default,
        },
        None => default,
    }
}

/// The number that a knob of the environment is set to, or its default.
pub fn env_u64(raw: Option<&str>, default_value: u64) -> (r: u64)
    ensures
        r == number_or(raw.deep_view(), default_value),
{
    match raw {
        Some(raw) => match parse_up_to(trimmed(raw), u64::MAX) {
            Some(n) => n,
            None => default_value,
        },
        None => default_value,
    }
}

/// The number of the last build, by the text of its file.
pub fn read_build_number(content: Option<&str>) -> (r: u64)
    ensures
        r == number_or(content.deep_view(), 0),
{
    env_u64(content, 0)
}

pub open spec fn successor(n: u64) -> u64 {
    if n < u64::MAX {
        (n + 1) as u64
    } else {
        n
    }
}

/// The number of the next build, and the text of its file.
pub fn increment_build_number(content: Option<&str>) -> (r: (u64, String))
    ensures
        r.0 == successor(number_or(content.deep_view(), 0)),
        r.1@ == decimal(r.0 as nat) + "\n"@,
{
    let last: u64 = read_build_number(content);
    let next: u64 = if last < u64::MAX {
        last + 1
    } else {
        last
    };
    let mut text = decimal_of(next);
    text.append("\n");
    (next, text)
}

/// A build number that is written reads back, so that each build gets the number after
/// that of the one before.
pub proof fn build_numbers_go_up(content: Option<Seq<char>>)
    ensures
        ({
            let next = successor(number_or(content, 0));
            number_or(Some(decimal(next as nat) + "\n"@), 0) == next
        }),
{
    let next = successor(number_or(content, 0));
    let digits = decimal(next as nat);
    let text = digits + "\n"@;
    parsing_undoes_decimal(next as nat);
    reveal_strlit("\n");
    assert(is_digit(digits[0]) && is_digit(digits.last()));
    assert(text.drop_last() =~= digits);
    assert(text.last() == '\n');
    assert(cut_start(text, CharClass::White) == text);
    assert(cut_end(digits, CharClass::White) == digits);
    assert(trim(text) == digits);
}

/// The hash of the last binary, by the text of its file.
pub open spec fn kept_hash(content: Option<Seq<char>>) -> Option<Seq<char>> {
    match content {
        Some(content) => if trim(content).len() > 0 {
            Some(trim(content))
        } else {
            None
        },
        None => None,
    }
}

pub fn read_binary_hash(content: Option<&str>) -> (r: Option<String>)
    ensures
        r.deep_view() == kept_hash(content.deep_view()),
{
    match content {
        Some(content) => {
            let value = trimmed(content);
            if value.is_empty() {
                None
            } else {
                Some(value.to_owned())
            }
        },
        None => None,
    }
}

pub fn binary_hash_text(hash: &str) -> (r: String)
    ensures
        r@ == hash@ + "\n"@,
{
    let mut r = hash.to_owned();
    r.append("\n");
    r
}

/// The value of a line that names the release of the system.
pub open spec fn codename_in(line: Seq<char>) -> Option<Seq<char>> {
    match strip_prefix(line, "VERSION_CODENAME="@) {
        Some(value) => if cut(value, CharClass::Is('"')).len() > 0 {
            Some(cut(value, CharClass::Is('"')))
        } else {
            None
        },
        None => None,
    }
}

/// The name of the first line that has one.
pub open spec fn first_codename(all: Seq<Seq<char>>) -> Option<Seq<char>>
    decreases all.len(),
{
    if all.len() == 0 {
        None
    } else {
        match first_codename(all.drop_last()) {
            Some(name) => Some(name),
            None => codename_in(all.last()),
        }
    }
}

proof fn first_codenames_stay(all: Seq<Seq<char>>, k: int)
    requires
        0 <= k <= all.len(),
        first_codename(all.take(k)) is Some,
    ensures
        first_codename(all) == first_codename(all.take(k)),
    decreases all.len() - k,
{
    if k < all.len() {
        assert(all.take(k + 1).drop_last() =~= all.take(k));
        first_codenames_stay(all, k + 1);
    } else {
        assert(all.take(k) =~= all);
    }
}

pub fn parse_version_codename(os_release: &str) -> (r: Option<String>)
    ensures
        r.deep_view() == first_codename(lines(os_release@)),
{
    let all = lines_of(os_release);
    let ghost views = all.deep_view();
    let mut i: usize = 0;
    assert(views.take(0) =~= Seq::empty());
    while i < all.len()
        invariant
            i <= all@.len(),
            views == all.deep_view(),
            views == lines(os_release@),
            first_codename(views.take(i as int)) is None,
        decreases all.len() - i,
    {
        proof {
            assert(views.take(i + 1).drop_last() =~= views.take(i as int));
            assert(views.take(i + 1).last() == views[i as int]);
        }
        if let Some(value) = without_prefix(all[i].as_str(), "VERSION_CODENAME=") {
            let name = trim_of(value, CharClass::Is('"'));
            if !name.is_empty() {
                proof {
                    first_codenames_stay(views, i + 1);
                }
                return Some(name.to_owned());
            }
        }
        i = i + 1;
    }
    assert(views.take(i as int) =~= views);
    None
}

pub fn os_release_codename(os_release: &str) -> (r: Result<String, String>)
    ensures
        outcome(r) == match first_codename(lines(os_release@)) {
            Some(name) => Ok::<Seq<char>, Seq<char>>(name),
            None => Err("VERSION_CODENAME missing in /etc/os-release"@),
        },
{
    match parse_version_codename(os_release) {
        Some(name) => Ok(name),
        None => Err(String::from_str("VERSION_CODENAME missing in /etc/os-release")),
    }
}

/// Whether one of the lines of a text is this one, but for white space at its ends.
pub open spec fn holds_line(text: Seq<char>, line: Seq<char>) -> bool {
    exists|i: int| 0 <= i < lines(text).len() && trim(#[trigger] lines(text)[i]) == line
}

/// What is put at the end of a file so that it holds a line, where it does not.
pub fn ensure_line_in_file(existing: &str, line: &str) -> (r: Option<String>)
    ensures
        r.deep_view() == if holds_line(existing@, line@) {
            None
        } else if existing@.len() > 0 && !ends_with(existing@, "\n"@) {
            Some("\n"@ + line@ + "\n"@)
        } else {
            Some(line@ + "\n"@)
        },
{
    let all = lines_of(existing);
    let ghost views = all.deep_view();
    let mut i: usize = 0;
    while i < all.len()
        invariant
            i <= all@.len(),
            views == all.deep_view(),
            views == lines(existing@),
            forall|j: int| 0 <= j < i ==> trim(#[trigger] views[j]) != line@,
        decreases all.len() - i,
    {
        assert(views[i as int] == all@[i as int]@);
        if same(trimmed(all[i].as_str()), line) {
            assert(trim(lines(existing@)[i as int]) == line@);
            return None;
        }
        i = i + 1;
    }
    let mut r = line.to_owned();
    if !existing.is_empty() && !has_suffix(existing, "\n") {
        r = String::from_str("\n");
        r.append(line);
    }
    r.append("\n");
    Some(r)
}

/// The home of a user, by the line that `getent passwd` prints of them.
pub open spec fn home_in(line: Option<Seq<char>>) -> Seq<char> {
    match line {
        Some(line) => {
            let fields = split(line, ":"@);
            if fields.len() > 5 && trim(fields[5]).len() > 0 {
                trim(fields[5])
            } else {
                "/home/psht"@
            }
        },
        None => "/home/psht"@,
    }
}

pub fn psht_user_home_dir(line: Option<&str>) -> (r: String)
    ensures
        r@ == home_in(line.deep_view()),
{
    if let Some(line) = line {
        let fields = split_at_each(line, ":");
        if fields.len() > 5 {
            let ghost views = fields.deep_view();
            assert(views[5] == fields@[5]@);
            let home = trimmed(fields[5].as_str());
            if !home.is_empty() {
                return home.to_owned();
            }
        }
    }
    String::from_str("/home/psht")
}

// ---------------------------------------------------------------------------
// Knobs
// ---------------------------------------------------------------------------

pub const RECONCILE_LEASE_TTL_SECS: u64 = 30;

pub const RECONCILE_LEASE_HEARTBEAT_SECS: u64 = 5;

pub const TAKEOVER_RETRY_MS: u64 = 1000;

pub const TAKEOVER_MAX_CANCEL_PER_CYCLE: u64 = 20;

pub const BLOCKED_OP_BUDGET_SECS: u64 = 15;

pub open spec fn at_least(n: u64, least: u64) -> u64 {
    if n < least {
        least
    } else {
        n
    }
}

fn raised_to(n: u64, least: u64) -> (r: u64)
    ensures
        r == at_least(n, least),
{
    if n < least {
        least
    } else {
        n
    }
}

pub fn reconcile_lease_ttl_secs(raw: Option<&str>) -> (r: u64)
    ensures
        r == at_least(number_or(raw.deep_view(), RECONCILE_LEASE_TTL_SECS), 5),
{
    raised_to(env_u64(raw, RECONCILE_LEASE_TTL_SECS), 5)
}

pub fn reconcile_lease_heartbeat_secs(raw: Option<&str>) -> (r: u64)
    ensures
        r == at_least(number_or(raw.deep_view(), RECONCILE_LEASE_HEARTBEAT_SECS), 1),
{
    raised_to(env_u64(raw, RECONCILE_LEASE_HEARTBEAT_SECS), 1)
}

pub fn takeover_retry_ms(raw: Option<&str>) -> (r: u64)
    ensures
        r == at_least(number_or(raw.deep_view(), TAKEOVER_RETRY_MS), 100),
{
    raised_to(env_u64(raw, TAKEOVER_RETRY_MS), 100)
}

pub fn takeover_max_cancel_per_cycle(raw: Option<&str>) -> (r: usize)
    ensures
        r == at_least(number_or(raw.deep_view(), TAKEOVER_MAX_CANCEL_PER_CYCLE), 1) as usize,
{
    let n: u64 = raised_to(env_u64(raw, TAKEOVER_MAX_CANCEL_PER_CYCLE), 1);
    #[verifier::truncate]
    let most: usize = n as usize;
    most
}

pub fn blocked_op_budget_secs(raw: Option<&str>) -> (r: u64)
    ensures
        r == at_least(number_or(raw.deep_view(), BLOCKED_OP_BUDGET_SECS), 1),
{
    raised_to(env_u64(raw, BLOCKED_OP_BUDGET_SECS), 1)
}

/// A number that is set is used, whatever white space stands around it; the default stands
/// in for anything else.
pub proof fn numbers_are_read_or_defaulted(text: Option<Seq<char>>, default: u64)
    ensures
        text is Some && parsed_up_to(trim(text->0), u64::MAX as nat) is Some ==> number_or(
            text,
            default,
        ) == parsed_up_to(trim(text->0), u64::MAX as nat)->0,
        text is None || parsed_up_to(trim(text->0), u64::MAX as nat) is None ==> number_or(
            text,
            default,
        ) == default,
{
}

/// A hash that is kept is what was written, if it says something.
pub proof fn hashes_read_back(hash: Seq<char>)
    requires
        hash.len() > 0,
        trim(hash + "\n"@) == hash,
    ensures
        kept_hash(Some(hash + "\n"@)) == Some(hash),
        kept_hash(None) is None,
{
}

/// What a command prints counts only where it succeeds.
pub proof fn output_counts_on_success(
    line: Seq<char>,
    success: bool,
    stdout: Seq<char>,
    stderr: Seq<char>,
)
    ensures
        captured(line, success, stdout, stderr) is Ok <==> success,
        success ==> captured(line, success, stdout, stderr)->Ok_0 == trim(stdout),
        !success ==> trim(stderr).is_suffix_of(captured(line, success, stdout, stderr)->Err_0),
{
    if !success {
        let said = captured(line, success, stdout, stderr)->Err_0;
        assert(said.skip(said.len() - trim(stderr).len()) =~= trim(stderr));
    }
}

/// The home of a user is the sixth field of its line, if that says something.
pub proof fn homes_are_in_the_sixth_field(line: Seq<char>)
    ensures
        split(line, ":"@).len() >= 6 && trim(split(line, ":"@)[5]).len() > 0 ==> home_in(
            Some(line),
        ) == trim(split(line, ":"@)[5]),
        split(line, ":"@).len() < 6 || trim(split(line, ":"@)[5]).len() == 0 ==> home_in(
            Some(line),
        ) == "/home/psht"@,
        home_in(None) == "/home/psht"@,
{
}

/// The release of a system is named by the first line that names one.
pub proof fn the_first_name_counts(all: Seq<Seq<char>>)
    ensures
        match first_codename(all) {
            Some(name) => exists|i: int|
                0 <= i < all.len() && codename_in(#[trigger] all[i]) == Some(name) && forall|
                    j: int,
                |
                    0 <= j < i ==> codename_in(#[trigger] all[j]) is None,
            None => forall|j: int| 0 <= j < all.len() ==> codename_in(#[trigger] all[j]) is None,
        },
    decreases all.len(),
{
    if all.len() > 0 {
        let head = all.drop_last();
        let last = all.len() - 1;
        the_first_name_counts(head);
        assert(all[last] == all.last());
        assert forall|j: int| 0 <= j < head.len() implies #[trigger] head[j] == all[j] by {}
        if let Some(name) = first_codename(head) {
            let i = choose|i: int|
                0 <= i < head.len() && codename_in(#[trigger] head[i]) == Some(name) && forall|
                    j: int,
                |
                    0 <= j < i ==> codename_in(#[trigger] head[j]) is None;
            assert(codename_in(all[i]) == Some(name));
            assert forall|j: int| 0 <= j < i implies codename_in(#[trigger] all[j]) is None by {
                assert(codename_in(head[j]) is None);
            }
        } else {
            assert forall|j: int| 0 <= j < last implies codename_in(#[trigger] all[j]) is None by {
                assert(codename_in(head[j]) is None);
            }
        }
    }
}

} // verus!
