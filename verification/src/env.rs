//! The environment variables of an app: their names, the file that keeps them, and the
//! texts that hand them to the app and to people who log in.

use vstd::prelude::*;
use crate::number::{decimal, decimal_of};
use crate::order::{
    dedupe, first_occurrences, first_occurrences_are_unique, sort_texts, sorted,
};
use crate::scripts::APP_SERVICE_RUNNER_PATH;
use crate::shell::{shell_quote, shell_quoted};
use crate::split::{
    cut_at_first, find_nothing, join, join_cons, join_with, lines, lines_of, nonempty_trimmed,
    nonempty_trimmed_of, split, split_after_head, split_once, without_return,
};
use crate::table::{as_map, lookup, ordered, Table};
use crate::text::{
    alphanumeric, chars_of, cut_is_identity, digit, is_alphanumeric, is_digit, outcome, push_text,
    trim, CharClass,
};

verus! {

pub const REQUIRED_ENV_PATH: &'static str = "/etc/psht-required-env";

pub const SSH_LOGIN_ENV_PATH: &'static str = "/etc/profile.d/psht-env.sh";

// ---------------------------------------------------------------------------
// Names and assignments
// ---------------------------------------------------------------------------

/// Whether a text can be the name of a variable.
pub open spec fn valid_env_name(name: Seq<char>) -> bool {
    &&& name.len() > 0
    &&& !is_digit(name[0])
    &&& forall|i: int|
        0 <= i < name.len() ==> (#[trigger] name[i]) == '_' || is_alphanumeric(name[i])
}

pub fn is_valid_env_name(name: &str) -> (r: bool)
    ensures
        r == valid_env_name(name@),
{
    let chars = chars_of(name);
    if chars.len() == 0 || digit(chars[0]) {
        return false;
    }
    let mut i: usize = 0;
    while i < chars.len()
        invariant
            chars@ == name@,
            i <= chars@.len(),
            forall|j: int| 0 <= j < i ==> (#[trigger] name@[j]) == '_' || is_alphanumeric(name@[j]),
        decreases chars.len() - i,
    {
        if chars[i] != '_' && !alphanumeric(chars[i]) {
            assert(!(name@[i as int] == '_' || is_alphanumeric(name@[i as int])));
            return false;
        }
        i = i + 1;
    }
    true
}

pub open spec fn bad_name(name: Seq<char>) -> Seq<char> {
    "invalid env name '"@ + name + "'"@
}

fn bad_name_error(name: &str) -> (r: String)
    ensures
        r@ == bad_name(name@),
{
    let mut r = String::from_str("invalid env name '");
    r.append(name);
    r.append("'");
    r
}

/// The name and the value of an assignment.
pub open spec fn assignment_of(raw: Seq<char>) -> Result<(Seq<char>, Seq<char>), Seq<char>> {
    match split_once(raw, "="@) {
        None => Err("invalid env assignment '"@ + raw + "'; expected NAME=value"@),
        Some((name, value)) => if valid_env_name(name) {
            Ok((name, value))
        } else {
            Err(bad_name(name))
        },
    }
}

pub fn parse_env_assignment(raw: &str) -> (r: Result<(String, String), String>)
    ensures
        outcome(r) == assignment_of(raw@),
{
    match cut_at_first(raw, "=") {
        None => {
            let mut message = String::from_str("invalid env assignment '");
            message.append(raw);
            message.append("'; expected NAME=value");
            Err(message)
        },
        Some((name, value)) => if is_valid_env_name(name) {
            Ok((name.to_owned(), value.to_owned()))
        } else {
            Err(bad_name_error(name))
        },
    }
}

pub open spec fn name_of(raw: Seq<char>) -> Result<Seq<char>, Seq<char>> {
    if valid_env_name(raw) {
        Ok(raw)
    } else {
        Err(bad_name(raw))
    }
}

pub fn parse_env_name(raw: &str) -> (r: Result<String, String>)
    ensures
        outcome(r) == name_of(raw@),
{
    if is_valid_env_name(raw) {
        Ok(raw.to_owned())
    } else {
        Err(bad_name_error(raw))
    }
}

/// The variables after assignments, or the first assignment's error.
pub open spec fn assigned(vars: Map<Seq<char>, Seq<char>>, raw: Seq<Seq<char>>) -> Result<
    Map<Seq<char>, Seq<char>>,
    Seq<char>,
>
    decreases raw.len(),
{
    if raw.len() == 0 {
        Ok(vars)
    } else {
        match assigned(vars, raw.drop_last()) {
            Err(err) => Err(err),
            Ok(vars) => match assignment_of(raw.last()) {
                Ok((name, value)) => Ok(vars.insert(name, value)),
                Err(err) => Err(err),
            },
        }
    }
}

proof fn assignment_errors_stay(vars: Map<Seq<char>, Seq<char>>, raw: Seq<Seq<char>>, k: int)
    requires
        0 <= k <= raw.len(),
        assigned(vars, raw.take(k)) is Err,
    ensures
        assigned(vars, raw) == assigned(vars, raw.take(k)),
    decreases raw.len() - k,
{
    if k < raw.len() {
        assert(raw.take(k + 1).drop_last() =~= raw.take(k));
        assignment_errors_stay(vars, raw, k + 1);
    } else {
        assert(raw.take(k) =~= raw);
    }
}

/// Sets variables by assignments. Where one of them is invalid, the variables are not
/// to be used.
pub fn apply_assignments(vars: &mut Table<String>, assignments: &Vec<String>) -> (r: Result<
    (),
    String,
>)
    requires
        old(vars).wf(),
    ensures
        final(vars).wf(),
        match assigned(old(vars).deep_view(), assignments.deep_view()) {
            Ok(after) => r is Ok && final(vars).deep_view() == after,
            Err(err) => outcome(r) == Err::<(), Seq<char>>(err),
        },
{
    let ghost raw = assignments.deep_view();
    let ghost start = vars.deep_view();
    let mut i: usize = 0;
    assert(raw.take(0) =~= Seq::empty());
    while i < assignments.len()
        invariant
            i <= assignments@.len(),
            raw == assignments.deep_view(),
            vars.wf(),
            start == old(vars).deep_view(),
            assigned(start, raw.take(i as int)) == Ok::<Map<Seq<char>, Seq<char>>, Seq<char>>(
                vars.deep_view(),
            ),
        decreases assignments.len() - i,
    {
        proof {
            assert(raw.take(i + 1).drop_last() =~= raw.take(i as int));
            assert(raw.take(i + 1).last() == raw[i as int]);
        }
        match parse_env_assignment(assignments[i].as_str()) {
            Ok((name, value)) => {
                vars.put(name.as_str(), value);
            },
            Err(err) => {
                proof {
                    assignment_errors_stay(start, raw, i + 1);
                }
                return Err(err);
            },
        }
        i = i + 1;
    }
    assert(raw.take(i as int) =~= raw);
    Ok(())
}

/// The first text that cannot be the name of a variable.
pub open spec fn first_invalid(names: Seq<Seq<char>>) -> Option<Seq<char>>
    decreases names.len(),
{
    if names.len() == 0 {
        None
    } else {
        match first_invalid(names.drop_last()) {
            Some(name) => Some(name),
            None => if valid_env_name(names.last()) {
                None
            } else {
                Some(names.last())
            },
        }
    }
}

proof fn the_first_stays_first(names: Seq<Seq<char>>, k: int)
    requires
        0 <= k <= names.len(),
        first_invalid(names.take(k)) is Some,
    ensures
        first_invalid(names) == first_invalid(names.take(k)),
    decreases names.len() - k,
{
    if k < names.len() {
        assert(names.take(k + 1).drop_last() =~= names.take(k));
        the_first_stays_first(names, k + 1);
    } else {
        assert(names.take(k) =~= names);
    }
}

fn find_invalid(names: &Vec<String>) -> (r: Option<String>)
    ensures
        r.deep_view() == first_invalid(names.deep_view()),
{
    let ghost all = names.deep_view();
    let mut i: usize = 0;
    assert(all.take(0) =~= Seq::empty());
    while i < names.len()
        invariant
            i <= names@.len(),
            all == names.deep_view(),
            first_invalid(all.take(i as int)) is None,
        decreases names.len() - i,
    {
        proof {
            assert(all.take(i + 1).drop_last() =~= all.take(i as int));
            assert(all.take(i + 1).last() == all[i as int]);
        }
        if !is_valid_env_name(names[i].as_str()) {
            proof {
                the_first_stays_first(all, i + 1);
            }
            return Some(names[i].clone());
        }
        i = i + 1;
    }
    assert(all.take(i as int) =~= all);
    None
}

/// The names to unset, each once, or the error of the first that is none.
pub fn parse_env_names(names: &Vec<String>) -> (r: Result<Vec<String>, String>)
    ensures
        outcome(r) == if names@.len() == 0 {
            Err::<Seq<Seq<char>>, Seq<char>>("env-unset requires at least one NAME"@)
        } else {
            match first_invalid(names.deep_view()) {
                Some(name) => Err(bad_name(name)),
                None => Ok(first_occurrences(names.deep_view())),
            }
        },
{
    if names.is_empty() {
        return Err(String::from_str("env-unset requires at least one NAME"));
    }
    match find_invalid(names) {
        Some(name) => Err(bad_name_error(name.as_str())),
        None => Ok(dedupe(names)),
    }
}

/// The variables without those of the names.
pub open spec fn unset(vars: Map<Seq<char>, Seq<char>>, names: Seq<Seq<char>>) -> Map<
    Seq<char>,
    Seq<char>,
>
    decreases names.len(),
{
    if names.len() == 0 {
        vars
    } else {
        unset(vars, names.drop_last()).remove(names.last())
    }
}

pub fn unset_names(vars: &mut Table<String>, names: &Vec<String>)
    requires
        old(vars).wf(),
    ensures
        final(vars).wf(),
        final(vars).deep_view() == unset(old(vars).deep_view(), names.deep_view()),
{
    let ghost all = names.deep_view();
    let ghost start = vars.deep_view();
    let mut i: usize = 0;
    assert(all.take(0) =~= Seq::empty());
    while i < names.len()
        invariant
            i <= names@.len(),
            all == names.deep_view(),
            vars.wf(),
            vars.deep_view() == unset(start, all.take(i as int)),
        decreases names.len() - i,
    {
        proof {
            assert(all.take(i + 1).drop_last() =~= all.take(i as int));
            assert(all.take(i + 1).last() == all[i as int]);
        }
        vars.forget(names[i].as_str());
        i = i + 1;
    }
    assert(all.take(i as int) =~= all);
}

/// A variable that is set reads back, one that is unset is gone, and no other variable
/// changes.
pub proof fn setting_and_unsetting(
    vars: Map<Seq<char>, Seq<char>>,
    name: Seq<char>,
    value: Seq<char>,
    other: Seq<char>,
)
    requires
        valid_env_name(name),
    ensures
        assigned(vars, seq![name + "="@ + value]) == Ok::<Map<Seq<char>, Seq<char>>, Seq<char>>(
            vars.insert(name, value),
        ),
        !unset(vars, seq![name]).dom().contains(name),
        other != name ==> unset(vars, seq![name]).dom().contains(other) == vars.dom().contains(
            other,
        ),
{
    reveal_strlit("=");
    assert("="@ =~= seq!['=']);
    let raw = name + "="@ + value;
    if name.contains('=') {
        let k = name.index_of('=');
        assert(name[k] == '_' || is_alphanumeric(name[k]));
    }
    crate::split::find_after_head(name, '=', value);
    assert(raw.take(name.len() as int) =~= name);
    assert(raw.skip((name.len() + 1) as int) =~= value);
    assert(seq![raw].drop_last() =~= Seq::empty());
    assert(seq![raw].last() == raw);
    assert(seq![name].drop_last() =~= Seq::empty());
    reveal_with_fuel(assigned, 2);
    reveal_with_fuel(unset, 2);
}

/// The lines that list the variables.
pub open spec fn listing(rows: Seq<(Seq<char>, Seq<char>)>) -> Seq<Seq<char>> {
    rows.map_values(|row: (Seq<char>, Seq<char>)| row.0 + "="@ + row.1)
}

/// The variables as they are shown to people, in the order of their names.
pub fn env_listing(vars: &Table<String>) -> (r: Vec<String>)
    ensures
        r.deep_view() == listing(vars.rows.deep_view()),
{
    let ghost lines = listing(vars.rows.deep_view());
    let mut r: Vec<String> = Vec::new();
    let mut i: usize = 0;
    assert(r.deep_view() =~= lines.take(0));
    while i < vars.rows.len()
        invariant
            i <= vars.rows@.len(),
            lines == listing(vars.rows.deep_view()),
            r.deep_view() == lines.take(i as int),
        decreases vars.rows.len() - i,
    {
        let mut line = vars.rows[i].0.clone();
        line.append("=");
        line.append(vars.rows[i].1.as_str());
        push_text(&mut r, line);
        i = i + 1;
        assert(lines.take(i as int) =~= lines.take(i - 1).push(lines[i - 1]));
    }
    assert(lines.take(i as int) =~= lines);
    r
}

// ---------------------------------------------------------------------------
// The file
// ---------------------------------------------------------------------------

/// What `toml::from_str` reads from a text as a map from strings to strings: its rows in
/// the order of their names, or the text of the error.
pub uninterp spec fn parsed_env_toml(text: Seq<char>) -> Result<
    Seq<(Seq<char>, Seq<char>)>,
    Seq<char>,
>;

/// What `toml::to_string_pretty` writes for a map from strings to strings, given by its
/// rows: a text, or the text of the error.
pub uninterp spec fn rendered_env_toml(rows: Seq<(Seq<char>, Seq<char>)>) -> Result<
    Seq<char>,
    Seq<char>,
>;

/// `toml::from_str::<BTreeMap<String, String>>` reads a TOML text. What it gives is a
/// function of the text alone. A `BTreeMap` hands out its entries in the order of their
/// keys, which for strings is that of their code points, and holds each key once.
#[verifier::external_body]
fn parse_env_toml(text: &str) -> (r: Result<Vec<(String, String)>, String>)
    ensures
        outcome(r) == parsed_env_toml(text@),
        r is Ok ==> ordered(r->Ok_0.deep_view()),
{
    toml::from_str::<std::collections::BTreeMap<String, String>>(text).map(
        |map| map.into_iter().collect(),
    ).map_err(|e| e.to_string())
}

/// Whether a text holds no run of 256 quotes of one kind.
pub open spec fn quotes_fit(s: Seq<char>) -> bool {
    &&& forall|i: int| 0 <= i && i + 256 <= s.len() ==> !all_are(s, i, '\'')
    &&& forall|i: int| 0 <= i && i + 256 <= s.len() ==> !all_are(s, i, '"')
}

/// Whether the 256 characters from `i` on are all the same given one.
pub open spec fn all_are(s: Seq<char>, i: int, c: char) -> bool {
    forall|k: int| i <= k < i + 256 ==> #[trigger] s[k] == c
}

/// Whether the names of all rows can be names of variables.
pub open spec fn all_valid(rows: Seq<(Seq<char>, Seq<char>)>) -> bool {
    forall|i: int| 0 <= i < rows.len() ==> valid_env_name((#[trigger] rows[i]).0)
}

/// `toml::to_string_pretty` writes a map as a TOML text. What it writes is a function of
/// the map alone. Where the keys are plain words it writes them bare, and it writes each
/// value as a string that stands for it, so that `toml::from_str` reads the same map
/// from the text. It counts runs of quotes of a value in a byte.
#[verifier::external_body]
fn render_env_toml(rows: &Vec<(String, String)>) -> (r: Result<String, String>)
    requires
        ordered(rows.deep_view()),
        forall|i: int| 0 <= i < rows@.len() ==> quotes_fit((#[trigger] rows.deep_view()[i]).1),
    ensures
        outcome(r) == rendered_env_toml(rows.deep_view()),
        r is Ok && all_valid(rows.deep_view()) ==> parsed_env_toml(r->Ok_0@) is Ok
            && parsed_env_toml(r->Ok_0@)->Ok_0 == rows.deep_view(),
{
    let map: std::collections::BTreeMap<&String, &String> = rows.iter().map(
        |(name, value)| (name, value),
    ).collect();
    toml::to_string_pretty(&map).map_err(|e| e.to_string())
}

/// The names of rows.
pub open spec fn names_of(rows: Seq<(Seq<char>, Seq<char>)>) -> Seq<Seq<char>> {
    rows.map_values(|row: (Seq<char>, Seq<char>)| row.0)
}

/// The variables in what a file holds; `path` is for messages.
pub open spec fn vars_read(
    read: Result<Seq<(Seq<char>, Seq<char>)>, Seq<char>>,
    path: Seq<char>,
) -> Result<Map<Seq<char>, Seq<char>>, Seq<char>> {
    match read {
        Err(err) => Err("failed to parse "@ + path + ": "@ + err),
        Ok(rows) => match first_invalid(names_of(rows)) {
            Some(name) => Err(bad_name(name) + " in "@ + path),
            None => Ok(as_map(rows)),
        },
    }
}

/// The variables in what was read of a file.
pub fn env_vars_from_rows(read: Result<Vec<(String, String)>, String>, path: &str) -> (r: Result<
    Table<String>,
    String,
>)
    requires
        read is Ok ==> ordered(read->Ok_0.deep_view()),
    ensures
        outcome(r) == vars_read(outcome(read), path@),
        r is Ok ==> r->Ok_0.wf(),
{
    let rows = match read {
        Ok(rows) => rows,
        Err(err) => {
            let mut message = String::from_str("failed to parse ");
            message.append(path);
            message.append(": ");
            message.append(err.as_str());
            return Err(message);
        },
    };
    let mut names: Vec<String> = Vec::new();
    let ghost all = names_of(rows.deep_view());
    let mut i: usize = 0;
    assert(names.deep_view() =~= all.take(0));
    while i < rows.len()
        invariant
            i <= rows@.len(),
            all == names_of(rows.deep_view()),
            names.deep_view() == all.take(i as int),
        decreases rows.len() - i,
    {
        push_text(&mut names, rows[i].0.clone());
        i = i + 1;
        assert(all.take(i as int) =~= all.take(i - 1).push(all[i - 1]));
    }
    assert(all.take(i as int) =~= all);
    match find_invalid(&names) {
        Some(name) => {
            let mut message = bad_name_error(name.as_str());
            message.append(" in ");
            message.append(path);
            Err(message)
        },
        None => Ok(Table { rows }),
    }
}

/// The variables that a file keeps. A file that is missing keeps none.
pub fn read_env_vars(content: Option<&str>, path: &str) -> (r: Result<Table<String>, String>)
    ensures
        outcome(r) == match content {
            Some(content) => vars_read(parsed_env_toml(content@), path@),
            None => Ok(Map::empty()),
        },
        r is Ok ==> r->Ok_0.wf(),
{
    match content {
        Some(content) => env_vars_from_rows(parse_env_toml(content), path),
        None => Ok(Table::new()),
    }
}

/// The text of the file that keeps variables.
pub fn env_file_text(vars: &Table<String>, path: &str) -> (r: Result<String, String>)
    requires
        vars.wf(),
        forall|i: int| 0 <= i < vars.rows@.len() ==> quotes_fit(
            (#[trigger] vars.rows.deep_view()[i]).1,
        ),
    ensures
        outcome(r) == match rendered_env_toml(vars.rows.deep_view()) {
            Ok(text) => Ok(text),
            Err(err) => Err("failed to serialize "@ + path@ + ": "@ + err),
        },
        r is Ok && all_valid(vars.rows.deep_view()) ==> vars_read(
            parsed_env_toml(r->Ok_0@),
            path@,
        ) == Ok::<Map<Seq<char>, Seq<char>>, Seq<char>>(vars.deep_view()),
{
    match render_env_toml(&vars.rows) {
        Ok(text) => {
            proof {
                if all_valid(vars.rows.deep_view()) {
                    valid_names_pass(names_of(vars.rows.deep_view()));
                }
            }
            Ok(text)
        },
        Err(err) => {
            let mut message = String::from_str("failed to serialize ");
            message.append(path);
            message.append(": ");
            message.append(err.as_str());
            Err(message)
        },
    }
}

proof fn valid_names_pass(names: Seq<Seq<char>>)
    requires
        forall|i: int| 0 <= i < names.len() ==> valid_env_name(#[trigger] names[i]),
    ensures
        first_invalid(names) is None,
    decreases names.len(),
{
    if names.len() > 0 {
        valid_names_pass(names.drop_last());
    }
}

/// Whether the values hold no run of 256 quotes of one kind.
pub fn values_fit(vars: &Table<String>) -> (r: bool)
    ensures
        r == forall|i: int|
            0 <= i < vars.rows@.len() ==> quotes_fit((#[trigger] vars.rows.deep_view()[i]).1),
{
    let mut i: usize = 0;
    while i < vars.rows.len()
        invariant
            i <= vars.rows@.len(),
            forall|j: int| 0 <= j < i ==> quotes_fit((#[trigger] vars.rows.deep_view()[j]).1),
        decreases vars.rows.len() - i,
    {
        let value = vars.rows[i].1.as_str();
        assert(vars.rows.deep_view()[i as int].1 == value@);
        if !text_fits(value) {
            return false;
        }
        i = i + 1;
    }
    true
}

/// Whether a text holds no run of 256 quotes of one kind.
pub fn text_fits(text: &str) -> (r: bool)
    ensures
        r == quotes_fit(text@),
{
    !has_run(text, '\'') && !has_run(text, '"')
}

/// Whether a text holds a run of 256 times the character.
fn has_run(text: &str, c: char) -> (r: bool)
    ensures
        r == exists|i: int| 0 <= i && i + 256 <= text@.len() && #[trigger] all_are(text@, i, c),
{
    let chars = chars_of(text);
    let mut run: usize = 0;
    let mut n: usize = 0;
    while n < chars.len()
        invariant
            chars@ == text@,
            n <= chars@.len(),
            run < 256,
            run <= n,
            forall|k: int| n - run <= k < n ==> #[trigger] text@[k] == c,
            run < n ==> text@[n - run - 1] != c,
            forall|i: int| 0 <= i && i + 256 <= n ==> !#[trigger] all_are(text@, i, c),
        decreases chars.len() - n,
    {
        if chars[n] == c {
            run = run + 1;
            n = n + 1;
            if run == 256 {
                assert(all_are(text@, n - 256, c));
                return true;
            }
        } else {
            run = 0;
            n = n + 1;
        }
        assert forall|i: int| 0 <= i && i + 256 <= n implies !#[trigger] all_are(text@, i, c) by {
            if i + 256 == n && all_are(text@, i, c) {
                assert(text@[n - run - 1] == c);
            }
        }
    }
    false
}

// ---------------------------------------------------------------------------
// Variables that an app requires
// ---------------------------------------------------------------------------

pub open spec fn bad_required(name: Seq<char>) -> Seq<char> {
    "invalid required env name '"@ + name + "'"@
}

fn bad_required_error(name: &str) -> (r: String)
    ensures
        r@ == bad_required(name@),
{
    let mut r = String::from_str("invalid required env name '");
    r.append(name);
    r.append("'");
    r
}

/// The names that a list requires, each once, as far as they are names.
pub open spec fn required_names(list: Seq<Seq<char>>) -> Result<Seq<Seq<char>>, Seq<char>> {
    match first_invalid(nonempty_trimmed(list)) {
        Some(name) => Err(bad_required(name)),
        None => Ok(first_occurrences(nonempty_trimmed(list))),
    }
}

/// The variables that a container's record says the app requires.
pub fn parse_required_env_metadata(contents: &str) -> (r: Result<Vec<String>, String>)
    ensures
        outcome(r) == match required_names(lines(contents@)) {
            Ok(names) => Ok(names),
            Err(err) => Err(err + " in "@ + REQUIRED_ENV_PATH@),
        },
{
    let names = nonempty_trimmed_of(&lines_of(contents));
    match find_invalid(&names) {
        Some(name) => {
            let mut message = bad_required_error(name.as_str());
            message.append(" in ");
            message.append(REQUIRED_ENV_PATH);
            Err(message)
        },
        None => Ok(dedupe(&names)),
    }
}

/// The record of the variables that an app requires: one name per line.
pub open spec fn required_text(names: Seq<Seq<char>>) -> Seq<char> {
    if names.len() == 0 {
        Seq::empty()
    } else {
        join(names, "\n"@) + "\n"@
    }
}

/// The command that keeps the record in the container.
pub fn write_required_env_cmd(required_env: &Vec<String>) -> (r: Result<String, String>)
    ensures
        outcome(r) == match required_names(required_env.deep_view()) {
            Ok(names) => Ok(
                "mkdir -p /etc && printf '%s' "@ + shell_quoted(required_text(names)) + " > "@
                    + REQUIRED_ENV_PATH@,
            ),
            Err(err) => Err(err),
        },
{
    let names = nonempty_trimmed_of(required_env);
    if let Some(name) = find_invalid(&names) {
        return Err(bad_required_error(name.as_str()));
    }
    let names = dedupe(&names);
    let mut content = String::new();
    if names.len() > 0 {
        content = join_with(&names, "\n");
        content.append("\n");
    }
    let escaped = shell_quote(content.as_str());
    let mut r = String::from_str("mkdir -p /etc && printf '%s' ");
    r.append(escaped.as_str());
    r.append(" > ");
    r.append(REQUIRED_ENV_PATH);
    Ok(r)
}

/// What an app requires reads back from its record.
pub proof fn required_names_read_back(list: Seq<Seq<char>>)
    requires
        required_names(list) is Ok,
    ensures
        required_names(lines(required_text(required_names(list)->Ok_0))) == required_names(list),
{
    let given = nonempty_trimmed(list);
    let names = first_occurrences(given);
    first_occurrences_are_unique(given);
    passing_names_are_valid(given);
    assert forall|i: int| 0 <= i < names.len() implies valid_env_name(#[trigger] names[i]) by {
        assert(names.contains(names[i]));
        let k = given.index_of(names[i]);
        assert(given[k] == names[i]);
    }
    one_name_per_line(names);
    names_are_trimmed(names);
    valid_names_pass(names);
    unique_names_stay(names);
}

proof fn passing_names_are_valid(names: Seq<Seq<char>>)
    requires
        first_invalid(names) is None,
    ensures
        forall|i: int| 0 <= i < names.len() ==> valid_env_name(#[trigger] names[i]),
    decreases names.len(),
{
    if names.len() > 0 {
        let head = names.drop_last();
        passing_names_are_valid(head);
        assert forall|i: int| 0 <= i < names.len() implies valid_env_name(#[trigger] names[i]) by {
            if i < head.len() {
                assert(head[i] == names[i]);
            }
        }
    }
}

proof fn unique_names_stay(names: Seq<Seq<char>>)
    requires
        names.no_duplicates(),
    ensures
        first_occurrences(names) == names,
    decreases names.len(),
{
    if names.len() > 0 {
        let head = names.drop_last();
        unique_names_stay(head);
        if head.contains(names.last()) {
            let k = head.index_of(names.last());
            assert(names[k] == names[names.len() - 1]);
        }
        assert(head.push(names.last()) =~= names);
    }
}

proof fn names_are_trimmed(names: Seq<Seq<char>>)
    requires
        forall|i: int| 0 <= i < names.len() ==> valid_env_name(#[trigger] names[i]),
    ensures
        nonempty_trimmed(names) == names,
{
    let cut_names = names.map_values(|text: Seq<char>| trim(text));
    assert forall|i: int| 0 <= i < names.len() implies trim(#[trigger] names[i]) == names[i] by {
        cut_is_identity(names[i], CharClass::White);
    }
    assert(cut_names =~= names);
    all_are_kept(names);
}

proof fn all_are_kept(names: Seq<Seq<char>>)
    requires
        forall|i: int| 0 <= i < names.len() ==> (#[trigger] names[i]).len() > 0,
    ensures
        names.filter(|text: Seq<char>| text.len() > 0) == names,
    decreases names.len(),
{
    reveal(Seq::filter);
    if names.len() > 0 {
        let head = names.drop_last();
        assert forall|i: int| 0 <= i < head.len() implies (#[trigger] head[i]).len() > 0 by {
            assert(head[i] == names[i]);
        }
        all_are_kept(head);
        assert(head.push(names.last()) =~= names);
    }
}

proof fn one_name_per_line(names: Seq<Seq<char>>)
    requires
        forall|i: int| 0 <= i < names.len() ==> valid_env_name(#[trigger] names[i]),
    ensures
        lines(required_text(names)) == names,
{
    reveal_strlit("\n");
    reveal_strlit("\r");
    assert("\n"@ =~= seq!['\n']);
    if names.len() == 0 {
        find_nothing(Seq::empty(), '\n');
        assert(lines(required_text(names)) =~= names);
    } else {
        names_are_pieces(names);
        let pieces = split(required_text(names), "\n"@);
        assert(pieces.drop_last() =~= names);
        assert forall|i: int| 0 <= i < names.len() implies without_return(#[trigger] names[i])
            == names[i] by {
            assert(names[i].last() == names[i][names[i].len() - 1]);
            assert(names[i].last() != '\r');
            assert("\r"@.last() == '\r');
        }
        assert(lines(required_text(names)) =~= names);
    }
}

proof fn names_are_pieces(names: Seq<Seq<char>>)
    requires
        names.len() > 0,
        forall|i: int| 0 <= i < names.len() ==> valid_env_name(#[trigger] names[i]),
    ensures
        split(join(names, "\n"@) + "\n"@, "\n"@) == names.push(Seq::empty()),
    decreases names.len(),
{
    reveal_strlit("\n");
    assert("\n"@ =~= seq!['\n']);
    let first = names[0];
    let rest = names.skip(1);
    assert(!first.contains('\n'));
    if names.len() == 1 {
        assert(names =~= seq![first]);
        assert(names.drop_last() =~= Seq::empty());
        assert(join(names, "\n"@) =~= first);
        split_after_head(first, '\n', Seq::empty());
        find_nothing(Seq::empty(), '\n');
        assert(first + seq!['\n'] + Seq::<char>::empty() =~= first + "\n"@);
        assert(split(Seq::<char>::empty(), seq!['\n']) =~= seq![Seq::<char>::empty()]);
        assert(seq![first] + seq![Seq::<char>::empty()] =~= names.push(Seq::empty()));
    } else {
        assert(names =~= seq![first] + rest);
        assert forall|i: int| 0 <= i < rest.len() implies valid_env_name(#[trigger] rest[i]) by {
            assert(rest[i] == names[i + 1]);
        }
        names_are_pieces(rest);
        join_cons(first, rest, "\n"@);
        let tail = join(rest, "\n"@) + "\n"@;
        split_after_head(first, '\n', tail);
        assert(join(names, "\n"@) + "\n"@ =~= first + seq!['\n'] + tail);
        assert(seq![first] + rest.push(Seq::empty()) =~= names.push(Seq::empty()));
    }
}

/// The required names that are not set, in order.
pub open spec fn missing_names(list: Seq<Seq<char>>, vars: Map<Seq<char>, Seq<char>>) -> Seq<
    Seq<char>,
> {
    nonempty_trimmed(list).filter(|name: Seq<char>| !vars.dom().contains(name))
}

/// Whether all that is required is set.
pub open spec fn required_verdict(list: Seq<Seq<char>>, vars: Map<Seq<char>, Seq<char>>) -> Result<
    (),
    Seq<char>,
> {
    match first_invalid(nonempty_trimmed(list)) {
        Some(name) => Err(bad_required(name)),
        None => if missing_names(list, vars).len() == 0 {
            Ok(())
        } else {
            Err(
                "missing required env vars: "@ + join(sorted(missing_names(list, vars)), ", "@)
                    + ". Set them with `psht env NAME=value`."@,
            )
        },
    }
}

/// Where all that is required is found to be set, each required name is set.
pub proof fn required_variables_are_set(
    list: Seq<Seq<char>>,
    vars: Map<Seq<char>, Seq<char>>,
    i: int,
)
    requires
        required_verdict(list, vars) is Ok,
        0 <= i < nonempty_trimmed(list).len(),
    ensures
        vars.dom().contains(nonempty_trimmed(list)[i]),
{
    let names = nonempty_trimmed(list);
    let lacks = |name: Seq<char>| !vars.dom().contains(name);
    if !vars.dom().contains(names[i]) {
        names.lemma_filter_contains(lacks, i);
    }
}

pub fn ensure_required_env_present(required_env: &Vec<String>, vars: &Table<String>) -> (r: Result<
    (),
    String,
>)
    requires
        vars.wf(),
    ensures
        outcome(r) == required_verdict(required_env.deep_view(), vars.deep_view()),
{
    let names = nonempty_trimmed_of(required_env);
    if let Some(name) = find_invalid(&names) {
        return Err(bad_required_error(name.as_str()));
    }
    let ghost all = names.deep_view();
    let ghost set = vars.deep_view();
    let ghost lacks = |name: Seq<char>| !set.dom().contains(name);
    let mut missing: Vec<String> = Vec::new();
    let mut i: usize = 0;
    proof {
        reveal(Seq::filter);
        assert(missing.deep_view() =~= all.take(0).filter(lacks));
    }
    while i < names.len()
        invariant
            i <= names@.len(),
            all == names.deep_view(),
            vars.wf(),
            set == vars.deep_view(),
            lacks == (|name: Seq<char>| !set.dom().contains(name)),
            missing.deep_view() == all.take(i as int).filter(lacks),
        decreases names.len() - i,
    {
        proof {
            assert(all[i as int] == names@[i as int]@);
            assert(all.take(i + 1).drop_last() =~= all.take(i as int));
            assert(all.take(i + 1).last() == all[i as int]);
            reveal(Seq::filter);
        }
        if !vars.has(names[i].as_str()) {
            push_text(&mut missing, names[i].clone());
        }
        i = i + 1;
    }
    assert(all.take(i as int) =~= all);
    assert(missing.deep_view() == missing_names(required_env.deep_view(), set));
    if missing.is_empty() {
        return Ok(());
    }
    let ordered_names = sort_texts(&missing);
    let mut message = String::from_str("missing required env vars: ");
    let listed = join_with(&ordered_names, ", ");
    message.append(listed.as_str());
    message.append(". Set them with `psht env NAME=value`.");
    Err(message)
}

// ---------------------------------------------------------------------------
// Handing variables on
// ---------------------------------------------------------------------------

/// The commands that export variables.
pub open spec fn exports(rows: Seq<(Seq<char>, Seq<char>)>) -> Seq<Seq<char>> {
    rows.map_values(|row: (Seq<char>, Seq<char>)| "export "@ + row.0 + "="@ + shell_quoted(row.1))
}

/// Adds the commands that export variables to a list.
fn push_exports(out: &mut Vec<String>, vars: &Table<String>) -> (r: Result<(), String>)
    ensures
        match first_invalid(names_of(vars.rows.deep_view())) {
            Some(name) => outcome(r) == Err::<(), Seq<char>>(bad_name(name)),
            None => r is Ok && final(out).deep_view() == old(out).deep_view() + exports(
                vars.rows.deep_view(),
            ),
        },
{
    let ghost names = names_of(vars.rows.deep_view());
    let ghost lines = exports(vars.rows.deep_view());
    let mut i: usize = 0;
    assert(names.take(0) =~= Seq::empty());
    assert(out.deep_view() =~= old(out).deep_view() + lines.take(0));
    while i < vars.rows.len()
        invariant
            i <= vars.rows@.len(),
            names == names_of(vars.rows.deep_view()),
            lines == exports(vars.rows.deep_view()),
            first_invalid(names.take(i as int)) is None,
            out.deep_view() == old(out).deep_view() + lines.take(i as int),
        decreases vars.rows.len() - i,
    {
        let name = vars.rows[i].0.as_str();
        proof {
            assert(names.take(i + 1).drop_last() =~= names.take(i as int));
            assert(names.take(i + 1).last() == name@);
        }
        if !is_valid_env_name(name) {
            proof {
                the_first_stays_first(names, i + 1);
            }
            return Err(bad_name_error(name));
        }
        let mut line = String::from_str("export ");
        line.append(name);
        line.append("=");
        let value = shell_quote(vars.rows[i].1.as_str());
        line.append(value.as_str());
        push_text(out, line);
        i = i + 1;
        assert(lines.take(i as int) =~= lines.take(i - 1).push(lines[i - 1]));
        assert((old(out).deep_view() + lines.take(i - 1)).push(lines[i - 1]) =~= old(
            out,
        ).deep_view() + lines.take(i as int));
    }
    assert(names.take(i as int) =~= names);
    assert(lines.take(i as int) =~= lines);
    Ok(())
}

/// Texts that hand variables on, where all their names are names.
pub open spec fn with_exports(
    head: Seq<Seq<char>>,
    rows: Seq<(Seq<char>, Seq<char>)>,
    sep: Seq<char>,
) -> Result<Seq<char>, Seq<char>> {
    match first_invalid(names_of(rows)) {
        Some(name) => Err(bad_name(name)),
        None => Ok(join(head + exports(rows), sep)),
    }
}

/// What people who log in to the container get.
pub open spec fn login_text(rows: Seq<(Seq<char>, Seq<char>)>) -> Result<Seq<char>, Seq<char>> {
    match with_exports(
        seq![
            "# Generated by psht for interactive SSH login shells."@,
            "# Do not edit manually."@,
        ],
        rows,
        "\n"@,
    ) {
        Ok(text) => Ok(text + "\n"@),
        Err(err) => Err(err),
    }
}

pub fn ssh_login_env_content(vars: &Table<String>) -> (r: Result<String, String>)
    ensures
        outcome(r) == login_text(vars.rows.deep_view()),
{
    let mut lines: Vec<String> = Vec::new();
    push_text(
        &mut lines,
        String::from_str("# Generated by psht for interactive SSH login shells."),
    );
    push_text(&mut lines, String::from_str("# Do not edit manually."));
    assert(lines.deep_view() =~= seq![
        "# Generated by psht for interactive SSH login shells."@,
        "# Do not edit manually."@,
    ]);
    match push_exports(&mut lines, vars) {
        Ok(_) => {
            let mut r = join_with(&lines, "\n");
            r.append("\n");
            Ok(r)
        },
        Err(err) => Err(err),
    }
}

/// The command that keeps in the container what people who log in get.
pub fn write_ssh_login_env_cmd(vars: &Table<String>) -> (r: Result<String, String>)
    ensures
        outcome(r) == match login_text(vars.rows.deep_view()) {
            Ok(text) => Ok(
                "mkdir -p /etc/profile.d && printf '%s' "@ + shell_quoted(text) + " > "@
                    + SSH_LOGIN_ENV_PATH@ + " && chmod 644 "@ + SSH_LOGIN_ENV_PATH@,
            ),
            Err(err) => Err(err),
        },
{
    let content = match ssh_login_env_content(vars) {
        Ok(content) => content,
        Err(err) => {
            return Err(err);
        },
    };
    let escaped = shell_quote(content.as_str());
    let mut r = String::from_str("mkdir -p /etc/profile.d && printf '%s' ");
    r.append(escaped.as_str());
    r.append(" > ");
    r.append(SSH_LOGIN_ENV_PATH);
    r.append(" && chmod 644 ");
    r.append(SSH_LOGIN_ENV_PATH);
    Ok(r)
}

/// What the app gets when it starts.
pub open spec fn start_text(port: u16, rows: Seq<(Seq<char>, Seq<char>)>) -> Result<
    Seq<char>,
    Seq<char>,
> {
    with_exports(seq!["export PORT="@ + decimal(port as nat)], rows, " && "@)
}

pub fn start_exports(port: u16, vars: &Table<String>) -> (r: Result<String, String>)
    ensures
        outcome(r) == start_text(port, vars.rows.deep_view()),
{
    let mut parts: Vec<String> = Vec::new();
    let mut first = String::from_str("export PORT=");
    let number = decimal_of(port as u64);
    first.append(number.as_str());
    push_text(&mut parts, first);
    assert(parts.deep_view() =~= seq!["export PORT="@ + decimal(port as nat)]);
    match push_exports(&mut parts, vars) {
        Ok(_) => Ok(join_with(&parts, " && ")),
        Err(err) => Err(err),
    }
}

/// The script that starts the app.
pub open spec fn runner_script(port: u16, cmd: Seq<char>, rows: Seq<(Seq<char>, Seq<char>)>) -> Result<
    Seq<char>,
    Seq<char>,
> {
    match start_text(port, rows) {
        Ok(exports) => Ok(
            "#!/bin/sh\nset -eu\nmkdir -p /var/psht\ncd /app\n"@ + exports + "\nexec sh -c "@
                + shell_quoted(cmd) + "\n"@,
        ),
        Err(err) => Err(err),
    }
}

pub fn app_runner_script_content(port: u16, cmd: &str, vars: &Table<String>) -> (r: Result<
    String,
    String,
>)
    ensures
        outcome(r) == runner_script(port, cmd@, vars.rows.deep_view()),
{
    let exports = match start_exports(port, vars) {
        Ok(exports) => exports,
        Err(err) => {
            return Err(err);
        },
    };
    let escaped = shell_quote(cmd);
    let mut r = String::from_str("#!/bin/sh\nset -eu\nmkdir -p /var/psht\ncd /app\n");
    r.append(exports.as_str());
    r.append("\nexec sh -c ");
    r.append(escaped.as_str());
    r.append("\n");
    Ok(r)
}

/// The command that keeps the script in the container.
pub fn write_app_runner_cmd(port: u16, cmd: &str, vars: &Table<String>) -> (r: Result<
    String,
    String,
>)
    ensures
        outcome(r) == match runner_script(port, cmd@, vars.rows.deep_view()) {
            Ok(script) => Ok(
                "mkdir -p /usr/local/bin && printf '%s' "@ + shell_quoted(script) + " > "@
                    + APP_SERVICE_RUNNER_PATH@ + " && chmod 755 "@ + APP_SERVICE_RUNNER_PATH@,
            ),
            Err(err) => Err(err),
        },
{
    let script = match app_runner_script_content(port, cmd, vars) {
        Ok(script) => script,
        Err(err) => {
            return Err(err);
        },
    };
    let escaped = shell_quote(script.as_str());
    let mut r = String::from_str("mkdir -p /usr/local/bin && printf '%s' ");
    r.append(escaped.as_str());
    r.append(" > ");
    r.append(APP_SERVICE_RUNNER_PATH);
    r.append(" && chmod 755 ");
    r.append(APP_SERVICE_RUNNER_PATH);
    Ok(r)
}

/// What is required is found to be set exactly where every name that is required can be
/// that of a variable and is set. Nothing is lacking where nothing is required.
pub proof fn requirements_are_met_where_all_is_set(
    list: Seq<Seq<char>>,
    vars: Map<Seq<char>, Seq<char>>,
)
    ensures
        required_verdict(list, vars) is Ok <==> forall|i: int|
            0 <= i < nonempty_trimmed(list).len() ==> valid_env_name(
                #[trigger] nonempty_trimmed(list)[i],
            ) && vars.dom().contains(nonempty_trimmed(list)[i]),
        list.len() == 0 ==> required_verdict(list, vars) is Ok,
{
    let names = nonempty_trimmed(list);
    let lacks = |name: Seq<char>| !vars.dom().contains(name);
    if required_verdict(list, vars) is Ok {
        passing_names_are_valid(names);
        assert forall|i: int| 0 <= i < names.len() implies vars.dom().contains(
            #[trigger] names[i],
        ) by {
            required_variables_are_set(list, vars, i);
        }
    }
    if forall|i: int|
        0 <= i < names.len() ==> valid_env_name(#[trigger] names[i]) && vars.dom().contains(
            names[i],
        ) {
        valid_names_pass(names);
        if names.filter(lacks).len() > 0 {
            let name = names.filter(lacks)[0];
            names.lemma_filter_contains_rev(lacks, name);
            let i = choose|i: int| 0 <= i < names.len() && names[i] == name;
            assert(vars.dom().contains(names[i]));
        }
    }
    if list.len() == 0 {
        reveal(Seq::filter);
    }
}

/// Whether an assignment gives a variable of the name a value, and which.
pub open spec fn assigns(raw: Seq<char>, name: Seq<char>, value: Seq<char>) -> bool {
    valid_env_name(name) && split_once(raw, "="@) == Some((name, value))
}

/// Whether a text assigns a value to a name that a variable can have.
pub open spec fn is_assignment(raw: Seq<char>) -> bool {
    exists|name: Seq<char>, value: Seq<char>| assigns(raw, name, value)
}

/// Whether an assignment at a place is the last one to a name.
pub open spec fn last_assigned(
    raw: Seq<Seq<char>>,
    i: int,
    name: Seq<char>,
    value: Seq<char>,
) -> bool {
    &&& 0 <= i < raw.len()
    &&& assigns(raw[i], name, value)
    &&& forall|j: int, other: Seq<char>|
        i < j < raw.len() ==> !#[trigger] assigns(raw[j], name, other)
}

/// Assignments are taken all or none: none where one of them is no assignment to a name
/// that a variable can have. Each variable has the value of the last one to it, and those
/// without one keep theirs.
pub proof fn the_last_assignment_counts(
    vars: Map<Seq<char>, Seq<char>>,
    raw: Seq<Seq<char>>,
    name: Seq<char>,
)
    ensures
        assigned(vars, raw) is Ok <==> forall|i: int|
            0 <= i < raw.len() ==> is_assignment(#[trigger] raw[i]),
        assigned(vars, raw) matches Ok(after) ==> {
            ||| lookup(after, name) == lookup(vars, name) && forall|i: int, v: Seq<char>|
                0 <= i < raw.len() ==> !#[trigger] assigns(raw[i], name, v)
            ||| exists|i: int, v: Seq<char>|
                #[trigger] last_assigned(raw, i, name, v) && lookup(after, name) == Some(v)
        },
    decreases raw.len(),
{
    if raw.len() > 0 {
        let head = raw.drop_last();
        let last = raw.len() - 1;
        the_last_assignment_counts(vars, head, name);
        assert(raw[last] == raw.last());
        assert forall|i: int| 0 <= i < head.len() implies #[trigger] head[i] == raw[i] by {}
        if let Ok((n, v)) = assignment_of(raw.last()) {
            assert(assigns(raw[last], n, v));
        }
        if assigned(vars, raw) is Ok {
            assert forall|i: int| 0 <= i < raw.len() implies is_assignment(#[trigger] raw[i]) by {
                if i < last {
                    assert(is_assignment(head[i]));
                }
            }
            let before = assigned(vars, head)->Ok_0;
            let (n, v) = assignment_of(raw.last())->Ok_0;
            if n == name {
                assert(last_assigned(raw, last, name, v));
            } else if exists|i: int, w: Seq<char>|
                #[trigger] last_assigned(head, i, name, w) && lookup(before, name) == Some(w) {
                let (i, w) = choose|i: int, w: Seq<char>|
                    #[trigger] last_assigned(head, i, name, w) && lookup(before, name) == Some(w);
                assert forall|j: int, x: Seq<char>| i < j < raw.len() implies !#[trigger] assigns(
                    raw[j],
                    name,
                    x,
                ) by {
                    if j < last {
                        assert(!assigns(head[j], name, x));
                    }
                }
                assert(last_assigned(raw, i, name, w));
            } else {
                assert forall|i: int, x: Seq<char>| 0 <= i < raw.len() implies !#[trigger] assigns(
                    raw[i],
                    name,
                    x,
                ) by {
                    if i < last {
                        assert(!assigns(head[i], name, x));
                    }
                }
            }
        } else if forall|i: int| 0 <= i < raw.len() ==> is_assignment(#[trigger] raw[i]) {
            assert forall|i: int| 0 <= i < head.len() implies is_assignment(#[trigger] head[i]) by {
                assert(is_assignment(raw[i]));
            }
            assert(is_assignment(raw[last]));
        }
    }
}

/// Variables that are unset are gone, and the others are as they were.
pub proof fn unset_variables_are_gone(
    vars: Map<Seq<char>, Seq<char>>,
    names: Seq<Seq<char>>,
    name: Seq<char>,
)
    ensures
        lookup(unset(vars, names), name) == if names.contains(name) {
            None
        } else {
            lookup(vars, name)
        },
    decreases names.len(),
{
    if names.len() > 0 {
        let head = names.drop_last();
        let last = names.len() - 1;
        unset_variables_are_gone(vars, head, name);
        assert(names[last] == names.last());
        if names.contains(name) && name != names.last() {
            let i = choose|i: int| 0 <= i < names.len() && names[i] == name;
            assert(head[i] == name);
        }
        if head.contains(name) {
            let i = choose|i: int| 0 <= i < head.len() && head[i] == name;
            assert(names[i] == name);
        }
    }
}

/// An app is started with its port and all its variables, and not at all where one of them
/// has a name that no variable can have.
pub proof fn apps_are_started_with_all_their_variables(
    port: u16,
    cmd: Seq<char>,
    rows: Seq<(Seq<char>, Seq<char>)>,
)
    ensures
        runner_script(port, cmd, rows) is Ok <==> forall|i: int|
            0 <= i < rows.len() ==> valid_env_name((#[trigger] rows[i]).0),
        start_text(port, rows) is Ok <==> runner_script(port, cmd, rows) is Ok,
        login_text(rows) is Ok <==> runner_script(port, cmd, rows) is Ok,
        runner_script(port, cmd, rows) matches Ok(script) ==> ("\nexec sh -c "@ + shell_quoted(cmd)
            + "\n"@).is_suffix_of(script),
        start_text(port, rows) matches Ok(text) ==> text == join(
            seq!["export PORT="@ + decimal(port as nat)] + rows.map_values(
                |row: (Seq<char>, Seq<char>)|
                    "export "@ + row.0 + "="@ + shell_quoted(row.1),
            ),
            " && "@,
        ),
{
    let names = names_of(rows);
    if first_invalid(names) is None {
        passing_names_are_valid(names);
        assert forall|i: int| 0 <= i < rows.len() implies valid_env_name(
            (#[trigger] rows[i]).0,
        ) by {
            assert(valid_env_name(names[i]));
        }
    }
    if forall|i: int| 0 <= i < rows.len() ==> valid_env_name((#[trigger] rows[i]).0) {
        assert forall|i: int| 0 <= i < names.len() implies valid_env_name(#[trigger] names[i]) by {
            assert(valid_env_name(rows[i].0));
        }
        valid_names_pass(names);
    }
    if let Ok(script) = runner_script(port, cmd, rows) {
        let tail = "\nexec sh -c "@ + shell_quoted(cmd) + "\n"@;
        assert(script.skip(script.len() - tail.len()) =~= tail);
    }
    if start_text(port, rows) is Ok {
        assert(exports(rows) =~= rows.map_values(
            |row: (Seq<char>, Seq<char>)| "export "@ + row.0 + "="@ + shell_quoted(row.1),
        ));
    }
}

proof fn the_first_bad_name_is_found(names: Seq<Seq<char>>)
    ensures
        first_invalid(names) matches Some(name) ==> !valid_env_name(name) && exists|i: int|
            0 <= i < names.len() && #[trigger] names[i] == name && forall|j: int|
                0 <= j < i ==> valid_env_name(#[trigger] names[j]),
        first_invalid(names) is None <==> forall|i: int|
            0 <= i < names.len() ==> valid_env_name(#[trigger] names[i]),
    decreases names.len(),
{
    if first_invalid(names) is None {
        passing_names_are_valid(names);
    } else {
        let head = names.drop_last();
        let last = names.len() - 1;
        the_first_bad_name_is_found(head);
        assert(names[last] == names.last());
        assert forall|j: int| 0 <= j < head.len() implies #[trigger] head[j] == names[j] by {}
        if let Some(name) = first_invalid(head) {
            let i = choose|i: int|
                0 <= i < head.len() && #[trigger] head[i] == name && forall|j: int|
                    0 <= j < i ==> valid_env_name(#[trigger] head[j]);
            assert(names[i] == name);
            assert forall|j: int| 0 <= j < i implies valid_env_name(#[trigger] names[j]) by {
                assert(valid_env_name(head[j]));
            }
        } else {
            assert forall|j: int| 0 <= j < last implies valid_env_name(#[trigger] names[j]) by {
                assert(valid_env_name(head[j]));
            }
        }
    }
}

/// The variables of a file are read all or none: none where it cannot be read, or where one
/// of them has a name that no variable can have.
pub proof fn files_of_variables_are_read_whole(
    read: Result<Seq<(Seq<char>, Seq<char>)>, Seq<char>>,
    path: Seq<char>,
)
    ensures
        vars_read(read, path) is Ok <==> read is Ok && forall|i: int|
            0 <= i < read->Ok_0.len() ==> valid_env_name((#[trigger] read->Ok_0[i]).0),
        vars_read(read, path) is Ok ==> vars_read(read, path)->Ok_0 == as_map(read->Ok_0),
{
    if let Ok(rows) = read {
        let names = names_of(rows);
        the_first_bad_name_is_found(names);
        assert forall|i: int| 0 <= i < rows.len() implies #[trigger] names[i] == rows[i].0 by {}
        if vars_read(read, path) is Ok {
            assert forall|i: int| 0 <= i < rows.len() implies valid_env_name(
                (#[trigger] rows[i]).0,
            ) by {
                assert(valid_env_name(names[i]));
            }
        }
        if forall|i: int| 0 <= i < rows.len() ==> valid_env_name((#[trigger] rows[i]).0) {
            assert forall|i: int| 0 <= i < names.len() implies valid_env_name(
                #[trigger] names[i],
            ) by {
                assert(valid_env_name(rows[i].0));
            }
        }
    }
}

/// What an app requires is a list of names that variables can have, each once and without
/// white space at its ends; a name that is none is refused, the first of them by name.
pub proof fn requirements_are_names(list: Seq<Seq<char>>, name: Seq<char>)
    ensures
        required_names(list) is Ok <==> forall|i: int|
            0 <= i < nonempty_trimmed(list).len() ==> valid_env_name(
                #[trigger] nonempty_trimmed(list)[i],
            ),
        required_names(list) matches Ok(names) ==> {
            &&& names.no_duplicates()
            &&& names.contains(name) <==> nonempty_trimmed(list).contains(name)
        },
{
    the_first_bad_name_is_found(nonempty_trimmed(list));
    crate::order::first_occurrences_are_unique(nonempty_trimmed(list));
}

} // verus!
