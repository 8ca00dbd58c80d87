//! Short names for what a container is made from.

use vstd::prelude::*;
use vstd::bytes::{spec_u64_to_le_bytes, u64_to_le_bytes};
use vstd::std_specs::hash::DefaultHasherAdditionalSpecFns;
use vstd::utf8::encode_utf8;
use std::collections::hash_map::DefaultHasher;
use std::hash::Hasher;
use crate::order::{dedupe, first_occurrences, sort_texts, sorted};
use crate::split::{join, join_with, nonempty_trimmed, nonempty_trimmed_of, words, words_of};
use crate::text::{
    contains, has_part, has_prefix, is_white, starts_with, strip_prefix, trim, trimmed,
    without_prefix,
};

verus! {

pub open spec fn hex_digit(n: nat) -> char {
    if n < 10 {
        ('0' as u32 + n) as char
    } else {
        ('a' as u32 + n - 10) as char
    }
}

/// The last digits of a number to the base sixteen, as many as `count` says.
pub open spec fn hex(n: nat, count: nat) -> Seq<char>
    decreases count,
{
    if count == 0 {
        Seq::empty()
    } else {
        hex(n / 16, (count - 1) as nat).push(hex_digit(n % 16))
    }
}

fn hex_text(n: u64, count: u8) -> (r: String)
    ensures
        r@ == hex(n as nat, count as nat),
    decreases count,
{
    if count == 0 {
        return String::new();
    }
    let mut r = hex_text(n / 16, count - 1);
    let d: u8 = (n % 16) as u8;
    if d < 10 {
        r.push((48 + d) as char);
    } else {
        r.push((87 + d) as char);
    }
    r
}

/// The name of a sequence of writes to a hasher: sixteen digits.
pub open spec fn digest(writes: Seq<Seq<u8>>) -> Seq<char> {
    hex(DefaultHasher::spec_finish(writes) as nat, 16)
}

/// A digest is sixteen digits to the base sixteen, none of them white.
pub proof fn digests_are_plain(writes: Seq<Seq<u8>>)
    ensures
        digest(writes).len() == 16,
        forall|i: int| 0 <= i < 16 ==> !is_white(#[trigger] digest(writes)[i]),
{
    hex_is_plain(DefaultHasher::spec_finish(writes) as nat, 16);
}

proof fn hex_is_plain(n: nat, count: nat)
    ensures
        hex(n, count).len() == count,
        forall|i: int| 0 <= i < count ==> !is_white(#[trigger] hex(n, count)[i]),
    decreases count,
{
    if count > 0 {
        hex_is_plain(n / 16, (count - 1) as nat);
        assert(!is_white(hex_digit(n % 16)));
    }
}

/// What hashing bytes writes: their number and the bytes.
pub open spec fn bytes_writes(bytes: Seq<u8>) -> Seq<Seq<u8>> {
    seq![spec_u64_to_le_bytes(bytes.len() as u64), bytes]
}

/// What hashing a text writes: its bytes and an end mark.
pub open spec fn text_writes(text: Seq<char>) -> Seq<Seq<u8>> {
    seq![encode_utf8(text), seq![0xffu8]]
}

fn write_bytes(hasher: &mut DefaultHasher, bytes: &Vec<u8>)
    ensures
        final(hasher)@ == old(hasher)@ + bytes_writes(bytes@),
{
    let len = u64_to_le_bytes(bytes.len() as u64);
    hasher.write(len.as_slice());
    hasher.write(bytes.as_slice());
    assert(hasher@ =~= old(hasher)@ + bytes_writes(bytes@));
}

fn write_text(hasher: &mut DefaultHasher, text: &str)
    ensures
        final(hasher)@ == old(hasher)@ + text_writes(text@),
{
    let mark: Vec<u8> = vec![0xffu8];
    hasher.write(text.as_bytes());
    hasher.write(mark.as_slice());
    assert(mark@ =~= seq![0xffu8]);
    assert(hasher@ =~= old(hasher)@ + text_writes(text@));
}

/// The name of the script that a stack is made by.
pub fn stack_hash(contents: &Vec<u8>) -> (r: String)
    ensures
        r@ == digest(bytes_writes(contents@)),
{
    let mut hasher = DefaultHasher::new();
    write_bytes(&mut hasher, contents);
    assert(hasher@ =~= bytes_writes(contents@));
    hex_text(hasher.finish(), 16)
}

/// The names of packages in order, each once.
pub open spec fn canonical_packages(packages: Seq<Seq<char>>) -> Seq<Seq<char>> {
    sorted(first_occurrences(nonempty_trimmed(packages)))
}

/// The name of a set of packages, where there are some.
pub open spec fn packages_fingerprint(packages: Seq<Seq<char>>) -> Option<Seq<char>> {
    if nonempty_trimmed(packages).len() == 0 {
        None
    } else {
        Some(digest(text_writes(join(canonical_packages(packages), "\n"@))))
    }
}

pub fn apt_packages_fingerprint(packages: &Vec<String>) -> (r: Option<String>)
    ensures
        r.deep_view() == packages_fingerprint(packages.deep_view()),
{
    let named = nonempty_trimmed_of(packages);
    if named.is_empty() {
        return None;
    }
    let canonical = join_with(&sort_texts(&dedupe(&named)), "\n");
    let mut hasher = DefaultHasher::new();
    write_text(&mut hasher, canonical.as_str());
    assert(hasher@ =~= text_writes(canonical@));
    Some(hex_text(hasher.finish(), 16))
}

/// Two lists of the same packages have the same fingerprint, whatever their order and
/// however often each is named.
pub proof fn fingerprints_go_by_the_set(a: Seq<Seq<char>>, b: Seq<Seq<char>>)
    requires
        forall|name: Seq<char>|
            #[trigger] nonempty_trimmed(a).contains(name) <==> nonempty_trimmed(b).contains(name),
    ensures
        packages_fingerprint(a) == packages_fingerprint(b),
{
    let x = nonempty_trimmed(a);
    let y = nonempty_trimmed(b);
    crate::order::same_sets_sort_alike(x, y);
    if x.len() > 0 {
        assert(x.contains(x[0]));
        assert(y.contains(x[0]));
    }
    if y.len() > 0 {
        assert(y.contains(y[0]));
        assert(x.contains(y[0]));
    }
}

/// The name of how a container is set up: by its stack and its packages.
pub fn setup_hash(stack_hash: &str, apt_fingerprint: Option<&str>) -> (r: String)
    ensures
        r@ == match apt_fingerprint {
            Some(fingerprint) => stack_hash@ + ":"@ + fingerprint@,
            None => stack_hash@,
        },
{
    let mut r = stack_hash.to_owned();
    if let Some(fingerprint) = apt_fingerprint {
        r.append(":");
        r.append(fingerprint);
    }
    r
}

/// The file that a start command runs, where it stands beside the app: the first word,
/// unless it leads elsewhere.
pub open spec fn local_binary(marker: Seq<char>) -> Result<Option<Seq<char>>, Seq<char>> {
    let marker = trim(marker);
    if marker.len() == 0 || words(marker).len() == 0 {
        Err(".psht-start-command is empty"@)
    } else {
        let word = words(marker)[0];
        let rel = match strip_prefix(word, "./"@) {
            Some(rest) => rest,
            None => word,
        };
        if starts_with(word, "/"@) || contains(word, ".."@) || rel.len() == 0 {
            Ok(None)
        } else {
            Ok(Some(rel))
        }
    }
}

pub fn binary_of_start_command(marker: &str) -> (r: Result<Option<String>, String>)
    ensures
        crate::text::outcome(r) == local_binary(marker@),
{
    let marker = trimmed(marker);
    if marker.is_empty() {
        return Err(String::from_str(".psht-start-command is empty"));
    }
    let all = words_of(marker);
    if all.is_empty() {
        return Err(String::from_str(".psht-start-command is empty"));
    }
    assert(all.deep_view()[0] == all@[0]@);
    let word = all[0].as_str();
    if has_prefix(word, "/") || has_part(word, "..") {
        return Ok(None);
    }
    let rel = match without_prefix(word, "./") {
        Some(rest) => rest,
        None => word,
    };
    if rel.is_empty() {
        return Ok(None);
    }
    Ok(Some(rel.to_owned()))
}

/// The name of a binary and of the command that starts it.
pub fn binary_payload_hash(marker: &str, bytes: &Vec<u8>) -> (r: String)
    ensures
        r@ == digest(text_writes(trim(marker@)) + bytes_writes(bytes@)),
{
    let mut hasher = DefaultHasher::new();
    let marker = trimmed(marker);
    write_text(&mut hasher, marker);
    write_bytes(&mut hasher, bytes);
    assert(hasher@ =~= text_writes(marker@) + bytes_writes(bytes@));
    hex_text(hasher.finish(), 16)
}

/// The program of a start command is its first word, without the mark of the directory it
/// starts from, and only where it is a file of the app: not one that starts at the root,
/// nor one that leads upwards.
pub proof fn programs_of_the_app_are_found(marker: Seq<char>)
    ensures
        ({
            let word = words(trim(marker))[0];
            let rel = if starts_with(word, "./"@) {
                word.skip(2)
            } else {
                word
            };
            let named = words(trim(marker)).len() > 0 && trim(marker).len() > 0;
            &&& local_binary(marker) is Err <==> !named
            &&& named ==> (local_binary(marker)->Ok_0 is Some <==> !starts_with(word, "/"@)
                && !contains(word, ".."@) && rel.len() > 0)
            &&& named && local_binary(marker)->Ok_0 is Some ==> local_binary(marker)->Ok_0->0
                == rel
        }),
{
    reveal_strlit("./");
}

} // verus!
