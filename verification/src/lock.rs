//! The file that locks the deploys of an app.

use vstd::prelude::*;
use crate::number::{
    decimal, decimal_of, parse_up_to, parsed_nat, parsed_up_to, parsing_undoes_decimal,
};
use crate::split::{
    cut_at_first, find_after_head, find_nothing, lines, lines_of, split, split_after_head,
    split_once, without_return,
};
use crate::text::{
    cut_is_identity, ends_with, has_prefix, is_digit, is_lower, same, starts_with, trim, trimmed,
    CharClass,
};

verus! {

pub const STALE_SECS: u64 = 21600;

/// What a lock file says of its holder.
#[derive(Clone, Copy, PartialEq, Eq, Structural, Debug)]
pub struct DeployLockMetadata {
    pub pid: Option<u32>,
    pub created: Option<u64>,
    pub updated: Option<u64>,
}

/// The number that a text stands for, up to a bound.
pub open spec fn number_up_to(text: Seq<char>, max: nat) -> Option<u64> {
    match parsed_up_to(trim(text), max) {
        Some(n) => Some(n as u64),
        None => None,
    }
}

fn read_number(text: &str, max: u64) -> (r: Option<u64>)
    ensures
        r == number_up_to(text@, max as nat),
        r is Some ==> r->0 <= max,
{
    parse_up_to(trimmed(text), max)
}

/// What a line of a lock file adds to what the lines before it say.
pub open spec fn with_line(m: DeployLockMetadata, line: Seq<char>) -> DeployLockMetadata {
    let line = trim(line);
    if line.len() == 0 || starts_with(line, "#"@) {
        m
    } else {
        match split_once(line, "="@) {
            Some((key, value)) => if trim(key) == "pid"@ {
                DeployLockMetadata {
                    pid: match number_up_to(value, u32::MAX as nat) {
                        Some(n) => Some(n as u32),
                        None => None,
                    },
                    ..m
                }
            } else if trim(key) == "created"@ {
                DeployLockMetadata { created: number_up_to(value, u64::MAX as nat), ..m }
            } else if trim(key) == "updated"@ {
                DeployLockMetadata { updated: number_up_to(value, u64::MAX as nat), ..m }
            } else {
                m
            },
            None => m,
        }
    }
}

/// What the lines of a lock file say.
pub open spec fn with_lines(lines: Seq<Seq<char>>) -> DeployLockMetadata
    decreases lines.len(),
{
    if lines.len() == 0 {
        DeployLockMetadata { pid: None, created: None, updated: None }
    } else {
        with_line(with_lines(lines.drop_last()), lines.last())
    }
}

fn add_line(m: DeployLockMetadata, line: &str) -> (r: DeployLockMetadata)
    ensures
        r == with_line(m, line@),
{
    let line = trimmed(line);
    if line.is_empty() || has_prefix(line, "#") {
        return m;
    }
    match cut_at_first(line, "=") {
        Some((key, value)) => {
            let key = trimmed(key);
            if same(key, "pid") {
                let pid = match read_number(value, 0xffff_ffff) {
                    Some(n) => Some(n as u32),
                    None => None,
                };
                DeployLockMetadata { pid, ..m }
            } else if same(key, "created") {
                DeployLockMetadata { created: read_number(value, u64::MAX), ..m }
            } else if same(key, "updated") {
                DeployLockMetadata { updated: read_number(value, u64::MAX), ..m }
            } else {
                m
            }
        },
        None => m,
    }
}

/// What a lock file says of its holder. Lines that say nothing of it are passed over;
/// of several that say the same thing the last counts.
pub fn parse_deploy_lock_metadata(content: &str) -> (r: DeployLockMetadata)
    ensures
        r == with_lines(lines(content@)),
{
    let all = lines_of(content);
    let ghost views = all.deep_view();
    let mut r = DeployLockMetadata { pid: None, created: None, updated: None };
    let mut i: usize = 0;
    while i < all.len()
        invariant
            i <= all@.len(),
            views == all.deep_view(),
            r == with_lines(views.take(i as int)),
        decreases all.len() - i,
    {
        r = add_line(r, all[i].as_str());
        i = i + 1;
        assert(views.take(i as int).drop_last() =~= views.take(i - 1));
        assert(views.take(i as int).last() == all@[i - 1]@);
    }
    assert(views.take(i as int) =~= views);
    r
}

/// The content of a lock file.
pub open spec fn lock_text(pid: u32, created: u64, updated: u64) -> Seq<char> {
    "pid="@ + decimal(pid as nat) + "\ncreated="@ + decimal(created as nat) + "\nupdated="@
        + decimal(updated as nat) + "\n"@
}

/// The content of a lock file. What is not known of the holder is that of the caller.
pub fn deploy_lock_text(metadata: DeployLockMetadata, own_pid: u32, now: u64) -> (r: String)
    ensures
        r@ == lock_text(
            match metadata.pid {
                Some(pid) => pid,
                None => own_pid,
            },
            match metadata.created {
                Some(at) => at,
                None => now,
            },
            match metadata.updated {
                Some(at) => at,
                None => now,
            },
        ),
{
    let mut r = String::from_str("pid=");
    let pid = decimal_of(metadata.pid.unwrap_or(own_pid) as u64);
    r.append(pid.as_str());
    r.append("\ncreated=");
    let created = decimal_of(metadata.created.unwrap_or(now));
    r.append(created.as_str());
    r.append("\nupdated=");
    let updated = decimal_of(metadata.updated.unwrap_or(now));
    r.append(updated.as_str());
    r.append("\n");
    r
}

/// What a lock file says after its holder has shown a sign of life; nothing where the
/// lock is another process's.
pub open spec fn refreshed(m: DeployLockMetadata, own_pid: u32, now: u64) -> Option<
    DeployLockMetadata,
> {
    match m.pid {
        Some(pid) if pid != own_pid => None,
        _ => Some(
            DeployLockMetadata {
                pid: Some(own_pid),
                created: Some(
                    match m.created {
                        Some(at) => at,
                        None => now,
                    },
                ),
                updated: Some(now),
            },
        ),
    }
}

pub fn refresh_deploy_lock_heartbeat(metadata: DeployLockMetadata, own_pid: u32, now: u64) -> (r:
    Option<DeployLockMetadata>)
    ensures
        r == refreshed(metadata, own_pid, now),
{
    match metadata.pid {
        Some(pid) => if pid != own_pid {
            return None;
        },
        None => {},
    }
    Some(
        DeployLockMetadata {
            pid: Some(own_pid),
            created: Some(metadata.created.unwrap_or(now)),
            updated: Some(now),
        },
    )
}

/// Whether a lock file was left behind, by the seconds since it was last written.
pub fn lock_file_is_stale(age_secs: u64) -> (r: bool)
    ensures
        r == (age_secs > STALE_SECS),
{
    age_secs > STALE_SECS
}

/// What became of the try to create a lock file.
#[derive(Clone, Copy, PartialEq, Eq, Structural, Debug)]
pub enum LockTry {
    Created,
    /// The file is there, and was last written so many seconds ago.
    Held { age_secs: u64 },
}

/// What to do next to get a lock.
#[derive(Clone, Copy, PartialEq, Eq, Structural, Debug)]
pub enum LockStep {
    Acquired,
    Busy,
    /// Remove the file that was left behind, and try once more.
    RemoveAndRetry,
    /// Remove the file that was left behind, and leave the lock alone.
    RemoveAndGiveUp,
}

/// What to do after a try to create a lock file: a lock is tried for at most twice.
pub open spec fn spec_lock_step(second: bool, tried: LockTry) -> LockStep {
    match tried {
        LockTry::Created => LockStep::Acquired,
        LockTry::Held { age_secs } => if age_secs <= STALE_SECS {
            LockStep::Busy
        } else if second {
            LockStep::RemoveAndGiveUp
        } else {
            LockStep::RemoveAndRetry
        },
    }
}

pub fn lock_step(second: bool, tried: LockTry) -> (r: LockStep)
    ensures
        r == spec_lock_step(second, tried),
{
    match tried {
        LockTry::Created => LockStep::Acquired,
        LockTry::Held { age_secs } => if !lock_file_is_stale(age_secs) {
            LockStep::Busy
        } else if second {
            LockStep::RemoveAndGiveUp
        } else {
            LockStep::RemoveAndRetry
        },
    }
}

/// What is written to a lock file reads back.
pub proof fn lock_files_read_back(pid: u32, created: u64, updated: u64)
    ensures
        with_lines(lines(lock_text(pid, created, updated))) == (DeployLockMetadata {
            pid: Some(pid),
            created: Some(created),
            updated: Some(updated),
        }),
{
    reveal_strlit("pid=");
    reveal_strlit("\ncreated=");
    reveal_strlit("\nupdated=");
    reveal_strlit("\n");
    reveal_strlit("pid");
    reveal_strlit("created");
    reveal_strlit("updated");
    reveal_strlit("created=");
    reveal_strlit("updated=");
    let a = "pid="@ + decimal(pid as nat);
    let b = "created="@ + decimal(created as nat);
    let c = "updated="@ + decimal(updated as nat);
    let empty = Seq::<char>::empty();
    assert("\n"@ =~= seq!['\n']);
    number_line("pid"@, pid as nat);
    number_line("created"@, created as nat);
    number_line("updated"@, updated as nat);
    assert("pid"@ + "="@ =~= "pid="@) by {
        reveal_strlit("=");
    }
    assert("created"@ + "="@ =~= "created="@) by {
        reveal_strlit("=");
    }
    assert("updated"@ + "="@ =~= "updated="@) by {
        reveal_strlit("=");
    }
    let text = lock_text(pid, created, updated);
    assert(text =~= a + seq!['\n'] + (b + seq!['\n'] + (c + seq!['\n'] + empty)));
    split_after_head(a, '\n', b + seq!['\n'] + (c + seq!['\n'] + empty));
    split_after_head(b, '\n', c + seq!['\n'] + empty);
    split_after_head(c, '\n', empty);
    find_nothing(empty, '\n');
    let pieces = split(text, "\n"@);
    assert(pieces =~= seq![a, b, c, empty]);
    let all = lines(text);
    assert(without_return(a) == a && without_return(b) == b && without_return(c) == c);
    assert(all =~= seq![a, b, c]);
    assert(all.drop_last() =~= seq![a, b]);
    assert(all.drop_last().drop_last() =~= seq![a]);
    assert(all.drop_last().drop_last().drop_last() =~= Seq::empty());
    reveal_with_fuel(with_lines, 4);
    assert("created"@[0] == 'c' && "updated"@[0] == 'u' && "pid"@[0] == 'p');
}

/// A line of a lock file: what is read off it.
proof fn number_line(key: Seq<char>, n: nat)
    requires
        key.len() > 0,
        forall|i: int| 0 <= i < key.len() ==> is_lower(#[trigger] key[i]),
    ensures
        ({
            let line = key + "="@ + decimal(n);
            &&& trim(line) == line
            &&& line.len() > 0
            &&& !starts_with(line, "#"@)
            &&& split_once(line, "="@) == Some((key, decimal(n)))
            &&& trim(key) == key
            &&& trim(decimal(n)) == decimal(n)
            &&& parsed_nat(decimal(n)) == Some(n)
            &&& !line.contains('\n')
            &&& without_return(line) == line
        }),
{
    reveal_strlit("=");
    reveal_strlit("#");
    reveal_strlit("\r");
    assert("="@ =~= seq!['=']);
    parsing_undoes_decimal(n);
    let digits = decimal(n);
    let line = key + "="@ + digits;
    assert(is_digit(digits[0]) && is_digit(digits.last()));
    assert(is_lower(key[0]) && is_lower(key.last()));
    assert(line[0] == key[0] && line.last() == digits.last());
    cut_is_identity(line, CharClass::White);
    cut_is_identity(key, CharClass::White);
    cut_is_identity(digits, CharClass::White);
    if starts_with(line, "#"@) {
        assert(line.take(1)[0] == '#');
    }
    if key.contains('=') {
        let k = key.index_of('=');
        assert(is_lower(key[k]));
    }
    find_after_head(key, '=', digits);
    assert(line.take(key.len() as int) =~= key);
    assert(line.skip((key.len() + 1) as int) =~= digits);
    if line.contains('\n') {
        let k = line.index_of('\n');
        if k < key.len() {
            assert(is_lower(key[k]));
        } else if k > key.len() {
            assert(line[k] == digits[k - key.len() - 1]);
            assert(is_digit(digits[k - key.len() - 1]));
        }
    }
    if ends_with(line, "\r"@) {
        assert(line.skip(line.len() - 1)[0] == line.last());
    }
}

/// A lock is had exactly where its file could be created. One that is held is left alone
/// for six hours after it was last written; then its file is removed, and a second try is
/// made, but no third.
pub proof fn locks_are_left_to_their_holders(second: bool, tried: LockTry)
    ensures
        spec_lock_step(second, tried) == LockStep::Acquired <==> tried is Created,
        spec_lock_step(second, tried) == LockStep::Busy <==> tried is Held && tried->age_secs
            <= 6 * 60 * 60,
        spec_lock_step(second, tried) == LockStep::RemoveAndRetry <==> tried is Held
            && tried->age_secs > 6 * 60 * 60 && !second,
        spec_lock_step(second, tried) == LockStep::RemoveAndGiveUp <==> tried is Held
            && tried->age_secs > 6 * 60 * 60 && second,
{
}

/// Only the holder of a lock writes to its file again, or anyone where no holder is known;
/// when it was created stays, where it is known.
pub proof fn locks_are_refreshed_by_their_holder(m: DeployLockMetadata, own_pid: u32, now: u64)
    ensures
        ({
            let after = refreshed(m, own_pid, now);
            &&& after is Some <==> m.pid is None || m.pid->0 == own_pid
            &&& after is Some ==> {
                &&& after->0.pid == Some(own_pid)
                &&& after->0.updated == Some(now)
                &&& m.created is Some ==> after->0.created == m.created
                &&& m.created is None ==> after->0.created == Some(now)
            }
        }),
{
}

/// A line of a lock's file sets the one thing that it names; blank lines, remarks and what
/// names nothing that is known set nothing.
pub proof fn lines_set_what_they_name(m: DeployLockMetadata, line: Seq<char>)
    ensures
        ({
            let after = with_line(m, line);
            let text = trim(line);
            let parts = split_once(text, "="@);
            let counts = text.len() > 0 && !starts_with(text, "#"@) && parts is Some;
            &&& !(counts && trim((parts->0).0) == "pid"@) ==> after.pid == m.pid
            &&& !(counts && trim((parts->0).0) == "created"@) ==> after.created == m.created
            &&& !(counts && trim((parts->0).0) == "updated"@) ==> after.updated == m.updated
            &&& counts && trim((parts->0).0) == "created"@ ==> after.created == number_up_to(
                (parts->0).1,
                u64::MAX as nat,
            )
            &&& counts && trim((parts->0).0) == "updated"@ ==> after.updated == number_up_to(
                (parts->0).1,
                u64::MAX as nat,
            )
        }),
{
    reveal_strlit("pid");
    reveal_strlit("created");
    reveal_strlit("updated");
    assert("pid"@[0] == 'p' && "created"@[0] == 'c' && "updated"@[0] == 'u');
}

} // verus!
