//! Paths of files, as texts with slashes.

use vstd::prelude::*;
use crate::split::{split, split_at_each, split_is_not_empty};
use crate::text::{
    contains_text, ends_with, has_prefix, has_suffix, outcome, push_text, same, starts_with,
};

verus! {

/// A path that goes on from another: a path from the root stays as it is.
pub open spec fn joined(base: Seq<char>, rest: Seq<char>) -> Seq<char> {
    if starts_with(rest, "/"@) || base.len() == 0 {
        rest
    } else if ends_with(base, "/"@) {
        base + rest
    } else {
        base + "/"@ + rest
    }
}

pub fn path_join(base: &str, rest: &str) -> (r: String)
    ensures
        r@ == joined(base@, rest@),
{
    if has_prefix(rest, "/") || base.is_empty() {
        return rest.to_owned();
    }
    let mut r = base.to_owned();
    if !has_suffix(base, "/") {
        r.append("/");
    }
    r.append(rest);
    r
}

/// The parts of a path, without those that lead nowhere.
pub open spec fn components(path: Seq<char>) -> Seq<Seq<char>> {
    split(path, "/"@).filter(|part: Seq<char>| part.len() > 0 && part != "."@)
}

pub fn components_of(path: &str) -> (r: Vec<String>)
    ensures
        r.deep_view() == components(path@),
{
    let pieces = split_at_each(path, "/");
    let ghost all = pieces.deep_view();
    let ghost leads = |part: Seq<char>| part.len() > 0 && part != "."@;
    let mut r: Vec<String> = Vec::new();
    let mut i: usize = 0;
    proof {
        reveal(Seq::filter);
        assert(r.deep_view() =~= all.take(0).filter(leads));
    }
    while i < pieces.len()
        invariant
            i <= pieces@.len(),
            all == pieces.deep_view(),
            leads == (|part: Seq<char>| part.len() > 0 && part != "."@),
            r.deep_view() == all.take(i as int).filter(leads),
        decreases pieces.len() - i,
    {
        proof {
            assert(all.take(i + 1).drop_last() =~= all.take(i as int));
            assert(all.take(i + 1).last() == pieces@[i as int]@);
            reveal(Seq::filter);
        }
        if !pieces[i].as_str().is_empty() && !same(pieces[i].as_str(), ".") {
            push_text(&mut r, pieces[i].clone());
        }
        i = i + 1;
    }
    assert(all.take(i as int) =~= all);
    r
}

/// The name that a path ends in.
pub open spec fn file_name(path: Seq<char>) -> Option<Seq<char>> {
    let parts = components(path);
    if parts.len() == 0 || parts.last() == ".."@ {
        None
    } else {
        Some(parts.last())
    }
}

pub fn file_name_of(path: &str) -> (r: Option<String>)
    ensures
        r.deep_view() == file_name(path@),
{
    let parts = components_of(path);
    if parts.len() == 0 {
        return None;
    }
    let last: usize = parts.len() - 1;
    assert(parts.deep_view()[last as int] == parts@[last as int]@);
    if same(parts[last].as_str(), "..") {
        return None;
    }
    Some(parts[last].clone())
}

/// A path inside a directory.
pub open spec fn inside(base: Seq<char>, rel: Seq<char>) -> Result<Seq<char>, Seq<char>> {
    if starts_with(rel, "/"@) {
        Err("`bin` must be a relative path inside the archive"@)
    } else if components(rel).contains(".."@) {
        Err("`bin` cannot contain parent-directory traversal"@)
    } else {
        Ok(joined(base, rel))
    }
}

/// A path inside a directory; an error where it leads out of it.
pub fn safe_join_relative(base: &str, rel: &str) -> (r: Result<String, String>)
    ensures
        outcome(r) == inside(base@, rel@),
{
    if has_prefix(rel, "/") {
        return Err(String::from_str("`bin` must be a relative path inside the archive"));
    }
    if contains_text(&components_of(rel), "..") {
        return Err(String::from_str("`bin` cannot contain parent-directory traversal"));
    }
    Ok(path_join(base, rel))
}

/// A file of a directory that is named after an app.
pub open spec fn app_file(dir: Seq<char>, app: Seq<char>, extension: Seq<char>) -> Seq<char> {
    joined(dir, app + extension)
}

fn file_for(dir: &str, app: &str, extension: &str) -> (r: String)
    ensures
        r@ == app_file(dir@, app@, extension@),
{
    let mut name = app.to_owned();
    name.append(extension);
    path_join(dir, name.as_str())
}

pub fn config_path_at(home: &str) -> (r: String)
    ensures
        r@ == joined(joined(home@, ".psht"@), "config.toml"@),
{
    path_join(path_join(home, ".psht").as_str(), "config.toml")
}

pub fn builds_dir(home: &str) -> (r: String)
    ensures
        r@ == joined(home@, "builds"@),
{
    path_join(home, "builds")
}

pub fn repos_dir(home: &str) -> (r: String)
    ensures
        r@ == joined(home@, "repos"@),
{
    path_join(home, "repos")
}

pub fn stacks_dir(home: &str) -> (r: String)
    ensures
        r@ == joined(home@, "stacks"@),
{
    path_join(home, "stacks")
}

pub fn env_dir(home: &str) -> (r: String)
    ensures
        r@ == joined(joined(home@, ".psht"@), "env"@),
{
    path_join(path_join(home, ".psht").as_str(), "env")
}

pub fn upgrade_check_state_path(home: &str) -> (r: String)
    ensures
        r@ == joined(joined(home@, ".psht"@), "upgrade-check.toml"@),
{
    path_join(path_join(home, ".psht").as_str(), "upgrade-check.toml")
}

pub fn deploy_lock_dir(home: &str) -> (r: String)
    ensures
        r@ == joined(home@, "deploy-locks"@),
{
    path_join(home, "deploy-locks")
}

pub fn cleanup_lock_dir(home: &str) -> (r: String)
    ensures
        r@ == joined(joined(home@, ".psht"@), "cleanup-locks"@),
{
    path_join(path_join(home, ".psht").as_str(), "cleanup-locks")
}

pub fn build_numbers_dir(home: &str) -> (r: String)
    ensures
        r@ == joined(home@, "build-numbers"@),
{
    path_join(home, "build-numbers")
}

pub fn binary_hashes_dir(home: &str) -> (r: String)
    ensures
        r@ == joined(home@, "binary-hashes"@),
{
    path_join(home, "binary-hashes")
}

pub fn env_path_in(dir: &str, app: &str) -> (r: String)
    ensures
        r@ == app_file(dir@, app@, ".toml"@),
{
    file_for(dir, app, ".toml")
}

pub fn build_number_path_in(dir: &str, app: &str) -> (r: String)
    ensures
        r@ == app_file(dir@, app@, ".build"@),
{
    file_for(dir, app, ".build")
}

pub fn binary_hash_path_in(dir: &str, app: &str) -> (r: String)
    ensures
        r@ == app_file(dir@, app@, ".hash"@),
{
    file_for(dir, app, ".hash")
}

pub fn deploy_lock_path_in(dir: &str, app: &str) -> (r: String)
    ensures
        r@ == app_file(dir@, app@, ".lock"@),
{
    file_for(dir, app, ".lock")
}

pub fn cleanup_lock_path_in(dir: &str, app: &str) -> (r: String)
    ensures
        r@ == app_file(dir@, app@, ".lock"@),
{
    file_for(dir, app, ".lock")
}

pub fn repo_path(home: &str, app: &str) -> (r: String)
    ensures
        r@ == app_file(joined(home@, "repos"@), app@, ".git"@),
{
    file_for(repos_dir(home).as_str(), app, ".git")
}

/// The stack of an app, and its script.
pub open spec fn stack_for(
    app: Seq<char>,
    has_custom: bool,
    detected_stack: Seq<char>,
    stacks: Seq<char>,
) -> (Seq<char>, Seq<char>) {
    if has_custom {
        (app, app_file(stacks, app, ".sh"@))
    } else {
        (detected_stack, app_file(stacks, detected_stack, ".sh"@))
    }
}

/// The stack of an app and the script that makes it: the app's own where it brings one.
pub fn resolve_stack_in(app: &str, has_custom: bool, detected_stack: &str, stacks: &str) -> (r: (
    String,
    String,
))
    ensures
        r.deep_view() == stack_for(app@, has_custom, detected_stack@, stacks@),
{
    if has_custom {
        (app.to_owned(), file_for(stacks, app, ".sh"))
    } else {
        (detected_stack.to_owned(), file_for(stacks, detected_stack, ".sh"))
    }
}

/// Whether every directory on the way to a file and the file itself let anyone pass.
/// `directories` tells of each directory whether it is one and what its mode is.
pub open spec fn world_executable(directories: Seq<(bool, u32)>, file_mode: u32) -> bool {
    (forall|i: int| 0 <= i < directories.len() ==> (#[trigger] directories[i]).0 && directories[i].1 % 2
        == 1) && file_mode % 2 == 1
}

pub fn path_is_world_executable(directories: &Vec<(bool, u32)>, file_mode: u32) -> (r: bool)
    ensures
        r == world_executable(directories@, file_mode),
{
    let mut i: usize = 0;
    while i < directories.len()
        invariant
            i <= directories@.len(),
            forall|j: int|
                0 <= j < i ==> (#[trigger] directories@[j]).0 && directories@[j].1 % 2 == 1,
        decreases directories.len() - i,
    {
        if !directories[i].0 || directories[i].1 % 2 != 1 {
            assert(!(directories@[i as int].0 && directories@[i as int].1 % 2 == 1));
            return false;
        }
        i = i + 1;
    }
    file_mode % 2 == 1
}

/// Whether two paths are the same, part for part. A path from the root is another than one
/// without it, and so is one that starts at the current directory by name.
pub open spec fn same_path(a: Seq<char>, b: Seq<char>) -> bool {
    &&& starts_with(a, "/"@) == starts_with(b, "/"@)
    &&& (split(a, "/"@)[0] == "."@) == (split(b, "/"@)[0] == "."@)
    &&& components(a) == components(b)
}

fn starts_here(path: &str) -> (r: bool)
    ensures
        r == (split(path@, "/"@)[0] == "."@),
{
    let pieces = split_at_each(path, "/");
    proof {
        split_is_not_empty(path@, "/"@);
        assert(pieces.deep_view().len() >= 1);
        assert(pieces.deep_view()[0] == pieces@[0]@);
    }
    same(pieces[0].as_str(), ".")
}

pub fn is_same_path(a: &str, b: &str) -> (r: bool)
    ensures
        r == same_path(a@, b@),
{
    if has_prefix(a, "/") != has_prefix(b, "/") || starts_here(a) != starts_here(b) {
        return false;
    }
    let left = components_of(a);
    let right = components_of(b);
    let ghost all = left.deep_view();
    let ghost others = right.deep_view();
    if left.len() != right.len() {
        assert(all.len() != others.len());
        return false;
    }
    let mut i: usize = 0;
    while i < left.len()
        invariant
            i <= left@.len(),
            left@.len() == right@.len(),
            all == left.deep_view(),
            others == right.deep_view(),
            all == components(a@),
            others == components(b@),
            forall|j: int| 0 <= j < i ==> #[trigger] all[j] == others[j],
        decreases left.len() - i,
    {
        assert(all[i as int] == left@[i as int]@ && others[i as int] == right@[i as int]@);
        if !same(left[i].as_str(), right[i].as_str()) {
            return false;
        }
        i = i + 1;
    }
    assert(all =~= others);
    true
}

/// Whether a path among the first `n` leads to the same place as `place`.
pub open spec fn leads_there(
    paths: Seq<(Seq<char>, Seq<char>)>,
    n: int,
    place: Seq<char>,
) -> bool {
    exists|j: int| 0 <= j < n && same_path(#[trigger] paths[j].1, place)
}

/// The paths that lead to a place that none before them leads to, as they are written.
pub open spec fn distinct_paths(paths: Seq<(Seq<char>, Seq<char>)>) -> Seq<Seq<char>>
    decreases paths.len(),
{
    if paths.len() == 0 {
        Seq::empty()
    } else {
        let before = distinct_paths(paths.drop_last());
        if leads_there(paths, paths.len() - 1, paths.last().1) {
            before
        } else {
            before.push(paths.last().0)
        }
    }
}

/// The places where a program may stand, each once. Each path comes with the place that it
/// leads to, and is kept as it is written.
pub fn dedupe_paths(paths: &Vec<(String, String)>) -> (r: Vec<String>)
    ensures
        r.deep_view() == distinct_paths(paths.deep_view()),
{
    let ghost all = paths.deep_view();
    let mut r: Vec<String> = Vec::new();
    let mut i: usize = 0;
    assert(r.deep_view() =~= distinct_paths(all.take(0)));
    while i < paths.len()
        invariant
            i <= paths@.len(),
            all == paths.deep_view(),
            r.deep_view() == distinct_paths(all.take(i as int)),
        decreases paths.len() - i,
    {
        let ghost place = all[i as int].1;
        assert(all[i as int] == (paths@[i as int].0@, paths@[i as int].1@));
        let mut found = false;
        let mut j: usize = 0;
        while j < i
            invariant
                j <= i < paths@.len(),
                all == paths.deep_view(),
                place == paths@[i as int].1@,
                found == leads_there(all, j as int, place),
            decreases i - j,
        {
            assert(all[j as int] == (paths@[j as int].0@, paths@[j as int].1@));
            let same_place = is_same_path(paths[j].1.as_str(), paths[i].1.as_str());
            proof {
                if same_place {
                    assert(same_path(all[j as int].1, place));
                    assert(leads_there(all, j + 1, place));
                } else if leads_there(all, j + 1, place) {
                    let k = choose|k: int|
                        0 <= k < j + 1 && same_path(#[trigger] all[k].1, place);
                    assert(k != j);
                    assert(leads_there(all, j as int, place));
                }
                if leads_there(all, j as int, place) {
                    let k = choose|k: int| 0 <= k < j && same_path(#[trigger] all[k].1, place);
                    assert(leads_there(all, j + 1, place));
                }
            }
            if same_place {
                found = true;
            }
            j = j + 1;
        }
        proof {
            let head = all.take(i + 1);
            assert(head.drop_last() =~= all.take(i as int));
            assert(head.last() == all[i as int]);
            if leads_there(all, i as int, place) {
                let k = choose|k: int| 0 <= k < i && same_path(#[trigger] all[k].1, place);
                assert(head[k] == all[k]);
                assert(leads_there(head, i as int, place));
            }
            if leads_there(head, i as int, place) {
                let k = choose|k: int| 0 <= k < i && same_path(#[trigger] head[k].1, place);
                assert(all[k] == head[k]);
                assert(leads_there(all, i as int, place));
            }
        }
        if !found {
            push_text(&mut r, paths[i].0.clone());
        }
        i = i + 1;
    }
    assert(all.take(i as int) =~= all);
    r
}

/// A path that starts at the root is taken as it is; any other is taken from where one is,
/// with one slash between.
pub proof fn paths_are_taken_from_the_base(base: Seq<char>, rest: Seq<char>)
    ensures
        starts_with(rest, "/"@) ==> joined(base, rest) == rest,
        !starts_with(rest, "/"@) ==> base.is_prefix_of(joined(base, rest)) && rest.is_suffix_of(
            joined(base, rest),
        ),
        !starts_with(rest, "/"@) && base.len() > 0 && !ends_with(base, "/"@) ==> joined(base, rest)
            == base + seq!['/'] + rest,
{
    reveal_strlit("/");
    assert("/"@ =~= seq!['/']);
    let whole = joined(base, rest);
    if !starts_with(rest, "/"@) {
        assert(whole.take(base.len() as int) =~= base);
        assert(whole.skip(whole.len() - rest.len()) =~= rest);
    }
}

/// What is inside a directory is named by a relative path that does not lead upwards, and
/// then it is there.
pub proof fn nothing_outside_is_reached(base: Seq<char>, rel: Seq<char>)
    ensures
        inside(base, rel) is Ok <==> !starts_with(rel, "/"@) && !components(rel).contains(".."@),
        inside(base, rel) is Ok ==> base.is_prefix_of(inside(base, rel)->Ok_0)
            && rel.is_suffix_of(inside(base, rel)->Ok_0),
{
    paths_are_taken_from_the_base(base, rel);
}

/// A program can be run by everyone exactly where everyone may run it and pass through all
/// directories on the way.
pub proof fn programs_can_be_reached(directories: Seq<(bool, u32)>, file_mode: u32)
    ensures
        world_executable(directories, file_mode) ==> file_mode % 2 == 1,
        world_executable(directories, file_mode) <==> file_mode % 2 == 1 && forall|i: int|
            0 <= i < directories.len() ==> (#[trigger] directories[i]).0 && directories[i].1 % 2
                == 1,
{
}

/// Of paths that lead to one place the first is kept, and every place that any leads to is
/// still led to.
pub proof fn every_place_is_kept_once(paths: Seq<(Seq<char>, Seq<char>)>, i: int)
    requires
        0 <= i < paths.len(),
        !exists|j: int| 0 <= j < i && same_path((#[trigger] paths[j]).1, paths[i].1),
    ensures
        distinct_paths(paths).contains(paths[i].0),
        distinct_paths(paths).len() <= paths.len(),
    decreases paths.len(),
{
    let head = paths.drop_last();
    let last = paths.len() - 1;
    if i < last {
        assert(head[i] == paths[i]);
        assert forall|j: int| 0 <= j < i implies !same_path((#[trigger] head[j]).1, head[i].1) by {
            assert(head[j] == paths[j]);
        }
        every_place_is_kept_once(head, i);
        let k = choose|k: int|
            0 <= k < distinct_paths(head).len() && distinct_paths(head)[k] == paths[i].0;
        assert(distinct_paths(paths)[k] == paths[i].0);
    } else {
        places_are_counted(head);
        assert(!leads_there(paths, last, paths[last].1));
        assert(distinct_paths(paths).last() == paths[i].0);
    }
}

proof fn places_are_counted(paths: Seq<(Seq<char>, Seq<char>)>)
    ensures
        distinct_paths(paths).len() <= paths.len(),
    decreases paths.len(),
{
    if paths.len() > 0 {
        places_are_counted(paths.drop_last());
    }
}

/// A stack that bears the name of the app comes before the one that was detected, and its
/// script bears its name.
pub proof fn stacks_of_the_app_come_first(
    app: Seq<char>,
    has_custom: bool,
    detected_stack: Seq<char>,
    stacks: Seq<char>,
)
    ensures
        ({
            let (name, script) = stack_for(app, has_custom, detected_stack, stacks);
            &&& has_custom ==> name == app
            &&& !has_custom ==> name == detected_stack
            &&& script == joined(stacks, name + ".sh"@)
        }),
{
}

} // verus!
