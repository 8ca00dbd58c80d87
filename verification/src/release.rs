//! Releases: their versions, the addresses from which they are had, and the names of
//! apps that are read off these.

use vstd::prelude::*;
use crate::app_name::{is_allowed, valid_app_name};
use crate::number::{parse_up_to, parsed_up_to};
use crate::split::{
    before_first, cut_at_first, cut_at_last, find_is_nothing_in_nothing, head_before, rsplit_once,
    split, split_at_each, split_once, words, words_of,
};
use crate::text::{
    alphanumeric, chars_of, contains, cut, cut_end, cut_ends, cut_start, digit, ends_with,
    eq_ignore_ascii_case, has_part, has_prefix, has_suffix, is_alphanumeric, is_digit, lowered,
    outcome, push_text, same, starts_with, strip_prefix, to_ascii_lowercase, trim, trim_end_of,
    trim_of, trim_start_of, trimmed, without_prefix, CharClass,
};

verus! {

pub const DEFAULT_FORGE_URL: &'static str = "https://github.com/nakajima/psht";

pub const UPGRADE_CHECK_TTL_SECS: u64 = 21600;

// ---------------------------------------------------------------------------
// Versions
// ---------------------------------------------------------------------------

/// The number that a part of a version stands for.
pub open spec fn part_of(piece: Seq<char>) -> Option<u64> {
    match parsed_up_to(piece, u64::MAX as nat) {
        Some(n) => Some(n as u64),
        None => None,
    }
}

/// The numbers of which a version is made, where all its parts are numbers.
pub open spec fn parts_of(pieces: Seq<Seq<char>>) -> Option<Seq<u64>>
    decreases pieces.len(),
{
    if pieces.len() == 0 {
        Some(Seq::empty())
    } else {
        match (parts_of(pieces.drop_last()), part_of(pieces.last())) {
            (Some(head), Some(n)) => Some(head.push(n)),
            _ => None,
        }
    }
}

/// A version without what tells builds of it apart.
pub open spec fn version_core(version: Seq<char>) -> Seq<char> {
    before_first(
        before_first(
            cut_start(cut_start(trim(version), CharClass::Is('v')), CharClass::Is('V')),
            "+"@,
        ),
        "-"@,
    )
}

/// The numbers of a version.
pub open spec fn version_parts(version: Seq<char>) -> Option<Seq<u64>> {
    let core = version_core(version);
    if core.len() == 0 {
        None
    } else {
        parts_of(split(core, "."@))
    }
}

proof fn bad_parts_stay(pieces: Seq<Seq<char>>, k: int)
    requires
        0 <= k <= pieces.len(),
        parts_of(pieces.take(k)) is None,
    ensures
        parts_of(pieces) is None,
    decreases pieces.len() - k,
{
    if k < pieces.len() {
        assert(pieces.take(k + 1).drop_last() =~= pieces.take(k));
        bad_parts_stay(pieces, k + 1);
    } else {
        assert(pieces.take(k) =~= pieces);
    }
}

pub fn parse_version_components(version: &str) -> (r: Option<Vec<u64>>)
    ensures
        r.deep_view() == version_parts(version@),
{
    let stripped = trim_start_of(
        trim_start_of(trimmed(version), CharClass::Is('v')),
        CharClass::Is('V'),
    );
    let core = head_before(head_before(stripped, "+"), "-");
    if core.is_empty() {
        return None;
    }
    let pieces = split_at_each(core, ".");
    let ghost all = pieces.deep_view();
    let mut parts: Vec<u64> = Vec::new();
    let mut i: usize = 0;
    assert(parts.deep_view() =~= Seq::empty());
    assert(all.take(0) =~= Seq::empty());
    while i < pieces.len()
        invariant
            i <= pieces@.len(),
            all == pieces.deep_view(),
            version_parts(version@) == parts_of(all),
            parts_of(all.take(i as int)) == Some(parts.deep_view()),
        decreases pieces.len() - i,
    {
        let ghost before = parts.deep_view();
        proof {
            assert(all.take(i + 1).drop_last() =~= all.take(i as int));
            assert(all.take(i + 1).last() == pieces@[i as int]@);
        }
        match parse_up_to(pieces[i].as_str(), u64::MAX) {
            Some(n) => {
                parts.push(n);
                assert(parts.deep_view() =~= before.push(n));
            },
            None => {
                proof {
                    bad_parts_stay(all, i + 1);
                }
                return None;
            },
        }
        i = i + 1;
    }
    assert(all.take(i as int) =~= all);
    Some(parts)
}

/// A part of a version; one that is not there is zero.
pub open spec fn part_at(parts: Seq<u64>, i: int) -> u64 {
    if 0 <= i < parts.len() {
        parts[i]
    } else {
        0
    }
}

/// Whether versions differ for the first time at a part, and the first is greater there.
pub open spec fn greater_at(a: Seq<u64>, b: Seq<u64>, i: int) -> bool {
    0 <= i && part_at(a, i) > part_at(b, i) && forall|j: int|
        0 <= j < i ==> #[trigger] part_at(a, j) == part_at(b, j)
}

/// Whether a version comes after another.
pub open spec fn newer_parts(a: Seq<u64>, b: Seq<u64>) -> bool {
    exists|i: int| #[trigger] greater_at(a, b, i)
}

pub open spec fn newer(latest: Seq<char>, current: Seq<char>) -> bool {
    match (version_parts(latest), version_parts(current)) {
        (Some(a), Some(b)) => newer_parts(a, b),
        _ => false,
    }
}

fn part(parts: &Vec<u64>, i: usize) -> (r: u64)
    ensures
        r == part_at(parts.deep_view(), i as int),
{
    if i < parts.len() {
        parts[i]
    } else {
        0
    }
}

/// Whether a version comes after another; not where one of them is no version.
pub fn version_is_newer(latest: &str, current: &str) -> (r: bool)
    ensures
        r == newer(latest@, current@),
{
    let a = match parse_version_components(latest) {
        Some(parts) => parts,
        None => {
            return false;
        },
    };
    let b = match parse_version_components(current) {
        Some(parts) => parts,
        None => {
            return false;
        },
    };
    let ghost x = a.deep_view();
    let ghost y = b.deep_view();
    let len: usize = if a.len() > b.len() {
        a.len()
    } else {
        b.len()
    };
    let mut i: usize = 0;
    while i < len
        invariant
            i <= len,
            x == a.deep_view(),
            y == b.deep_view(),
            newer(latest@, current@) == newer_parts(x, y),
            forall|j: int| 0 <= j < i ==> #[trigger] part_at(x, j) == part_at(y, j),
        decreases len - i,
    {
        let lhs: u64 = part(&a, i);
        let rhs: u64 = part(&b, i);
        if lhs > rhs {
            assert(greater_at(x, y, i as int));
            return true;
        }
        if lhs < rhs {
            assert(!newer_parts(x, y)) by {
                if newer_parts(x, y) {
                    let k = choose|k: int| #[trigger] greater_at(x, y, k);
                    if k > i {
                        assert(part_at(x, i as int) == part_at(y, i as int));
                    }
                }
            }
            return false;
        }
        i = i + 1;
    }
    assert(!newer_parts(x, y)) by {
        if newer_parts(x, y) {
            let k = choose|k: int| #[trigger] greater_at(x, y, k);
            if k < len {
                assert(part_at(x, k) == part_at(y, k));
            }
        }
    }
    false
}

/// No version comes after itself, of two at most one comes after the other, and the
/// order carries over.
pub proof fn versions_are_ordered(a: Seq<u64>, b: Seq<u64>, c: Seq<u64>)
    ensures
        !newer_parts(a, a),
        newer_parts(a, b) ==> !newer_parts(b, a),
        newer_parts(a, b) && newer_parts(b, c) ==> newer_parts(a, c),
{
    if newer_parts(a, b) && newer_parts(b, a) {
        let i = choose|i: int| #[trigger] greater_at(a, b, i);
        let j = choose|j: int| #[trigger] greater_at(b, a, j);
        if i < j {
            assert(part_at(b, i) == part_at(a, i));
        } else if j < i {
            assert(part_at(a, j) == part_at(b, j));
        }
    }
    if newer_parts(a, b) && newer_parts(b, c) {
        let i = choose|i: int| #[trigger] greater_at(a, b, i);
        let j = choose|j: int| #[trigger] greater_at(b, c, j);
        let k = if i < j {
            i
        } else {
            j
        };
        assert(greater_at(a, c, k)) by {
            assert forall|m: int| 0 <= m < k implies #[trigger] part_at(a, m) == part_at(c, m) by {
                assert(part_at(a, m) == part_at(b, m));
                assert(part_at(b, m) == part_at(c, m));
            }
            if i < j {
                assert(part_at(b, i) == part_at(c, i));
            } else if j < i {
                assert(part_at(a, j) == part_at(b, j));
            }
        }
    }
}

/// What stands after the last slash.
pub open spec fn last_segment(path: Seq<char>) -> Seq<char> {
    match rsplit_once(path, "/"@) {
        Some((_, tail)) => tail,
        None => path,
    }
}

fn tail_segment<'a>(path: &'a str) -> (r: &'a str)
    ensures
        r@ == last_segment(path@),
{
    match cut_at_last(path, "/") {
        Some((_, tail)) => tail,
        None => path,
    }
}

/// An address without its fragment and its query.
pub open spec fn url_path(url: Seq<char>) -> Seq<char> {
    before_first(before_first(url, "#"@), "?"@)
}

pub fn path_from_url<'a>(url: &'a str) -> (r: &'a str)
    ensures
        r@ == url_path(url@),
{
    head_before(head_before(url, "#"), "?")
}

/// The version that the address of the latest release names.
pub open spec fn latest_version(url: Seq<char>) -> Option<Seq<char>> {
    let tag = last_segment(cut_end(url_path(trim(url)), CharClass::Is('/')));
    let version = trim(cut_start(tag, CharClass::Is('v')));
    if tag.len() == 0 || lowered(tag) == lowered("latest"@) || version.len() == 0 {
        None
    } else {
        Some(version)
    }
}

pub fn parse_latest_release_version_url(url: &str) -> (r: Option<String>)
    ensures
        r.deep_view() == latest_version(url@),
{
    let path = trim_end_of(path_from_url(trimmed(url)), CharClass::Is('/'));
    let tag = tail_segment(path);
    if tag.is_empty() || eq_ignore_ascii_case(tag, "latest") {
        return None;
    }
    let version = trimmed(trim_start_of(tag, CharClass::Is('v')));
    if version.is_empty() {
        return None;
    }
    Some(version.to_owned())
}

/// The version of a program, by what it prints of itself: the second word of its first
/// line.
pub open spec fn printed_version(output: Seq<char>) -> Option<Seq<char>> {
    let all = crate::split::lines(output);
    if all.len() == 0 || words(trim(all[0])).len() < 2 {
        None
    } else {
        Some(words(trim(all[0]))[1])
    }
}

pub fn binary_version(output: &str) -> (r: Option<String>)
    ensures
        r.deep_view() == printed_version(output@),
{
    let all = crate::split::lines_of(output);
    if all.len() == 0 {
        return None;
    }
    assert(all.deep_view()[0] == all@[0]@);
    let parts = words_of(trimmed(all[0].as_str()));
    if parts.len() < 2 {
        return None;
    }
    assert(parts.deep_view()[1] == parts@[1]@);
    Some(parts[1].clone())
}

/// The second word of what a program prints.
pub open spec fn second_word(output: Seq<char>) -> Option<Seq<char>> {
    if words(output).len() < 2 {
        None
    } else {
        Some(words(output)[1])
    }
}

/// The version of the command line program, by what it prints of itself.
pub fn cli_binary_version(output: &str) -> (r: Option<String>)
    ensures
        r.deep_view() == second_word(output@),
{
    let parts = words_of(output);
    if parts.len() < 2 {
        return None;
    }
    assert(parts.deep_view()[1] == parts@[1]@);
    Some(parts[1].clone())
}

/// An address without white space and slashes at its end, or the one that is used
/// otherwise.
pub open spec fn forge_url_of(raw: Option<Seq<char>>, default: Seq<char>) -> Seq<char> {
    match raw {
        Some(raw) => {
            let url = cut_end(trim(raw), CharClass::Is('/'));
            if url.len() == 0 {
                default
            } else {
                url
            }
        },
        None => default,
    }
}

pub fn url_or(raw: Option<&str>, default: &str) -> (r: String)
    ensures
        r@ == forge_url_of(raw.deep_view(), default@),
{
    if let Some(raw) = raw {
        let url = trim_end_of(trimmed(raw), CharClass::Is('/'));
        if !url.is_empty() {
            return url.to_owned();
        }
    }
    default.to_owned()
}

/// The address of the project, as configured.
pub fn configured_forge_url(raw: Option<&str>) -> (r: String)
    ensures
        r@ == forge_url_of(raw.deep_view(), DEFAULT_FORGE_URL@),
{
    url_or(raw, DEFAULT_FORGE_URL)
}

/// The words after `curl` that ask the forge for the address of its latest release.
pub fn latest_release_args(forge_url: &str, connect_timeout_secs: &str, max_time_secs: &str) -> (r: Vec<
    String,
>)
    ensures
        r.deep_view() == seq![
            "-fsSL"@,
            "--connect-timeout"@,
            connect_timeout_secs@,
            "--max-time"@,
            max_time_secs@,
            "-o"@,
            "/dev/null"@,
            "-w"@,
            "%{url_effective}"@,
            forge_url@ + "/releases/latest"@,
        ],
{
    let mut url = forge_url.to_owned();
    url.append("/releases/latest");
    let ghost address = url@;
    let r = vec![
        String::from_str("-fsSL"),
        String::from_str("--connect-timeout"),
        connect_timeout_secs.to_owned(),
        String::from_str("--max-time"),
        max_time_secs.to_owned(),
        String::from_str("-o"),
        String::from_str("/dev/null"),
        String::from_str("-w"),
        String::from_str("%{url_effective}"),
        url,
    ];
    assert(r.deep_view() =~= seq![
        "-fsSL"@,
        "--connect-timeout"@,
        connect_timeout_secs@,
        "--max-time"@,
        max_time_secs@,
        "-o"@,
        "/dev/null"@,
        "-w"@,
        "%{url_effective}"@,
        address,
    ]);
    r
}

/// The latest release, by the address that the forge leads to.
pub fn latest_release_version(url: &str) -> (r: Result<String, String>)
    ensures
        outcome(r) == match latest_version(url@) {
            Some(version) => Ok::<Seq<char>, Seq<char>>(version),
            None => Err("failed to parse latest release version from URL: "@ + url@),
        },
{
    match parse_latest_release_version_url(url) {
        Some(version) => Ok(version),
        None => {
            let mut message = String::from_str("failed to parse latest release version from URL: ");
            message.append(url);
            Err(message)
        },
    }
}

/// What is said where a later release is known.
pub open spec fn warning_of(latest: Option<Seq<char>>, current: Seq<char>) -> Option<Seq<char>> {
    match latest {
        Some(latest) => if newer(latest, current) {
            Some(
                "       Warning: psht-server "@ + current + " is behind latest "@ + latest
                    + "; run `sudo psht-server upgrade`"@,
            )
        } else {
            None
        },
        None => None,
    }
}

/// The warning where a newer release is known.
pub fn upgrade_warning(latest: Option<&str>, current: &str) -> (r: Option<String>)
    ensures
        r.deep_view() == warning_of(latest.deep_view(), current@),
{
    if let Some(latest) = latest {
        if version_is_newer(latest, current) {
            let mut line = String::from_str("       Warning: psht-server ");
            line.append(current);
            line.append(" is behind latest ");
            line.append(latest);
            line.append("; run `sudo psht-server upgrade`");
            return Some(line);
        }
    }
    None
}

/// The versions to look for: one's own, and the latest where that is another.
pub open spec fn candidates(current: Seq<char>, latest: Option<Seq<char>>) -> Seq<Seq<char>> {
    match latest {
        Some(latest) => if trim(latest).len() > 0 && trim(latest) != current {
            seq![current, trim(latest)]
        } else {
            seq![current]
        },
        None => seq![current],
    }
}

pub fn release_version_candidates(current: &str, latest: Option<&str>) -> (r: Vec<String>)
    ensures
        r.deep_view() == candidates(current@, latest.deep_view()),
{
    let mut r: Vec<String> = Vec::new();
    push_text(&mut r, current.to_owned());
    assert(r.deep_view() =~= seq![current@]);
    if let Some(latest) = latest {
        let latest = trimmed(latest);
        if !latest.is_empty() && !same(latest, current) {
            push_text(&mut r, latest.to_owned());
            assert(r.deep_view() =~= seq![current@, latest@]);
        }
    }
    r
}

/// The address of a program of a release.
pub open spec fn asset_url(
    forge_url: Seq<char>,
    program: Seq<char>,
    version: Seq<char>,
    target: Seq<char>,
) -> Seq<char> {
    forge_url + "/releases/download/v"@ + version + "/"@ + program + "-"@ + version + "-"@ + target
        + ".tar.gz"@
}

fn asset_address(forge_url: &str, program: &str, version: &str, target: &str) -> (r: String)
    ensures
        r@ == asset_url(forge_url@, program@, version@, target@),
{
    let mut r = forge_url.to_owned();
    r.append("/releases/download/v");
    r.append(version);
    r.append("/");
    r.append(program);
    r.append("-");
    r.append(version);
    r.append("-");
    r.append(target);
    r.append(".tar.gz");
    r
}

pub fn cli_release_url(forge_url: &str, version: &str, target: &str) -> (r: String)
    ensures
        r@ == asset_url(forge_url@, "psht"@, version@, target@),
{
    asset_address(forge_url, "psht", version, target)
}

pub fn server_release_url(forge_url: &str, version: &str, target: &str) -> (r: String)
    ensures
        r@ == asset_url(forge_url@, "psht-server"@, version@, target@),
{
    asset_address(forge_url, "psht-server", version, target)
}

/// The target that a release for a server of the architecture is built for.
pub fn server_release_target(arch: &str) -> (r: Result<String, String>)
    ensures
        outcome(r) == if trim(arch@) == "x86_64"@ {
            Ok::<Seq<char>, Seq<char>>("x86_64-unknown-linux-gnu"@)
        } else if trim(arch@) == "aarch64"@ {
            Ok("aarch64-unknown-linux-gnu"@)
        } else {
            Err("unsupported architecture: "@ + trim(arch@))
        },
{
    let arch = trimmed(arch);
    if same(arch, "x86_64") {
        Ok(String::from_str("x86_64-unknown-linux-gnu"))
    } else if same(arch, "aarch64") {
        Ok(String::from_str("aarch64-unknown-linux-gnu"))
    } else {
        let mut message = String::from_str("unsupported architecture: ");
        message.append(arch);
        Err(message)
    }
}

/// The target that a release for a workstation is built for.
pub open spec fn release_target(os: Seq<char>, arch: Seq<char>) -> Result<Seq<char>, Seq<char>> {
    if os == "linux"@ && arch == "x86_64"@ {
        Ok("x86_64-unknown-linux-gnu"@)
    } else if os == "linux"@ && arch == "aarch64"@ {
        Ok("aarch64-unknown-linux-gnu"@)
    } else if os == "macos"@ && arch == "x86_64"@ {
        Ok("x86_64-apple-darwin"@)
    } else if os == "macos"@ && arch == "aarch64"@ {
        Ok("aarch64-apple-darwin"@)
    } else {
        Err("unsupported platform: "@ + os + "/"@ + arch)
    }
}

pub fn detect_release_target(os: &str, arch: &str) -> (r: Result<String, String>)
    ensures
        outcome(r) == release_target(os@, arch@),
{
    if same(os, "linux") && same(arch, "x86_64") {
        Ok(String::from_str("x86_64-unknown-linux-gnu"))
    } else if same(os, "linux") && same(arch, "aarch64") {
        Ok(String::from_str("aarch64-unknown-linux-gnu"))
    } else if same(os, "macos") && same(arch, "x86_64") {
        Ok(String::from_str("x86_64-apple-darwin"))
    } else if same(os, "macos") && same(arch, "aarch64") {
        Ok(String::from_str("aarch64-apple-darwin"))
    } else {
        let mut message = String::from_str("unsupported platform: ");
        message.append(os);
        message.append("/");
        message.append(arch);
        Err(message)
    }
}

/// The latest release that was found, and when.
#[derive(PartialEq, Eq, Debug)]
pub struct UpgradeCheckState {
    pub checked_at: u64,
    pub latest: String,
}

impl DeepView for UpgradeCheckState {
    type V = (u64, Seq<char>);

    open spec fn deep_view(&self) -> (u64, Seq<char>) {
        (self.checked_at, self.latest@)
    }
}

/// The latest release that is known and need not be asked for again.
pub open spec fn fresh_latest(cached: Option<(u64, Seq<char>)>, now: u64) -> Option<Seq<char>> {
    match cached {
        Some((checked_at, latest)) => if now - checked_at <= UPGRADE_CHECK_TTL_SECS && trim(
            latest,
        ).len() > 0 {
            Some(trim(latest))
        } else {
            None
        },
        None => None,
    }
}

pub fn cached_latest_version(cached: Option<&UpgradeCheckState>, now: u64) -> (r: Option<String>)
    ensures
        r.deep_view() == fresh_latest(cached.deep_view(), now),
{
    match cached {
        Some(state) => {
            let latest = trimmed(state.latest.as_str());
            if now.saturating_sub(state.checked_at) <= UPGRADE_CHECK_TTL_SECS
                && !latest.is_empty() {
                Some(latest.to_owned())
            } else {
                None
            }
        },
        None => None,
    }
}

/// The latest release that is known where asking for it failed, however old.
pub fn stale_latest_version(cached: Option<&UpgradeCheckState>) -> (r: Option<String>)
    ensures
        r.deep_view() == match cached {
            Some(state) => if trim(state.latest@).len() > 0 {
                Some(trim(state.latest@))
            } else {
                None
            },
            None => None,
        },
{
    match cached {
        Some(state) => {
            let latest = trimmed(state.latest.as_str());
            if latest.is_empty() {
                None
            } else {
                Some(latest.to_owned())
            }
        },
        None => None,
    }
}

// ---------------------------------------------------------------------------
// Archives
// ---------------------------------------------------------------------------

#[derive(Clone, Copy, PartialEq, Eq, Structural, Debug)]
pub enum ArchiveFormat {
    TarGz,
    Zip,
}

impl DeepView for ArchiveFormat {
    type V = ArchiveFormat;

    open spec fn deep_view(&self) -> ArchiveFormat {
        *self
    }
}

pub open spec fn archive_format(url: Seq<char>) -> Result<ArchiveFormat, Seq<char>> {
    let path = lowered(url_path(url));
    if ends_with(path, ".tar.gz"@) || ends_with(path, ".tgz"@) {
        Ok(ArchiveFormat::TarGz)
    } else if ends_with(path, ".zip"@) {
        Ok(ArchiveFormat::Zip)
    } else {
        Err("unsupported archive format; expected .tar.gz, .tgz, or .zip URL"@)
    }
}

/// How an archive is packed, by its address.
pub fn detect_archive_format(url: &str) -> (r: Result<ArchiveFormat, String>)
    ensures
        outcome(r) == archive_format(url@),
{
    let path = to_ascii_lowercase(path_from_url(url));
    if has_suffix(path.as_str(), ".tar.gz") || has_suffix(path.as_str(), ".tgz") {
        return Ok(ArchiveFormat::TarGz);
    }
    if has_suffix(path.as_str(), ".zip") {
        return Ok(ArchiveFormat::Zip);
    }
    Err(String::from_str("unsupported archive format; expected .tar.gz, .tgz, or .zip URL"))
}

/// Where the first of the endings that the name has starts in it, but for the case of
/// letters. An ending that is the whole name counts only where `whole` is set.
pub open spec fn ending_at(name: Seq<char>, endings: Seq<Seq<char>>, whole: bool) -> Option<int>
    decreases endings.len(),
{
    if endings.len() == 0 {
        None
    } else {
        match ending_at(name, endings.drop_last(), whole) {
            Some(at) => Some(at),
            None => if ends_with(lowered(name), endings.last()) && (whole || name.len()
                > endings.last().len()) {
                Some(name.len() - endings.last().len())
            } else {
                None
            },
        }
    }
}

proof fn an_ending_stays(name: Seq<char>, endings: Seq<Seq<char>>, whole: bool, k: int)
    requires
        0 <= k <= endings.len(),
        ending_at(name, endings.take(k), whole) is Some,
    ensures
        ending_at(name, endings, whole) == ending_at(name, endings.take(k), whole),
    decreases endings.len() - k,
{
    if k < endings.len() {
        assert(endings.take(k + 1).drop_last() =~= endings.take(k));
        an_ending_stays(name, endings, whole, k + 1);
    } else {
        assert(endings.take(k) =~= endings);
    }
}

fn find_ending(name: &str, endings: &Vec<&str>, whole: bool) -> (r: Option<usize>)
    ensures
        match r {
            Some(at) => ending_at(name@, endings.deep_view(), whole) == Some(at as int) && at
                <= name@.len(),
            None => ending_at(name@, endings.deep_view(), whole) is None,
        },
{
    let lower = to_ascii_lowercase(name);
    let total: usize = name.unicode_len();
    let ghost all = endings.deep_view();
    let mut i: usize = 0;
    assert(all.take(0) =~= Seq::empty());
    while i < endings.len()
        invariant
            i <= endings@.len(),
            all == endings.deep_view(),
            lower@ == lowered(name@),
            total == name@.len(),
            ending_at(name@, all.take(i as int), whole) is None,
        decreases endings.len() - i,
    {
        let ending = endings[i];
        proof {
            assert(all.take(i + 1).drop_last() =~= all.take(i as int));
            assert(all.take(i + 1).last() == ending@);
        }
        let n: usize = ending.unicode_len();
        if has_suffix(lower.as_str(), ending) && (whole || total > n) {
            proof {
                an_ending_stays(name@, all, whole, i + 1);
            }
            return Some(total - n);
        }
        i = i + 1;
    }
    assert(all.take(i as int) =~= all);
    None
}

pub open spec fn archive_endings() -> Seq<Seq<char>> {
    seq![".tar.gz"@, ".tgz"@, ".zip"@]
}

/// The name of an archive without its ending.
pub open spec fn without_archive(name: Seq<char>) -> Seq<char> {
    match ending_at(name, archive_endings(), true) {
        Some(at) => name.take(at),
        None => name,
    }
}

pub fn strip_archive_suffix<'a>(name: &'a str) -> (r: &'a str)
    ensures
        r@ == without_archive(name@),
{
    let endings: Vec<&str> = vec![".tar.gz", ".tgz", ".zip"];
    assert(endings.deep_view() =~= archive_endings());
    match find_ending(name, &endings, true) {
        Some(at) => {
            let r = name.substring_char(0, at);
            assert(r@ == name@.take(at as int));
            r
        },
        None => name,
    }
}

pub open spec fn target_endings() -> Seq<Seq<char>> {
    seq![
        "-x86_64-unknown-linux-gnu"@,
        "-aarch64-unknown-linux-gnu"@,
        "-x86_64-unknown-linux-musl"@,
        "-aarch64-unknown-linux-musl"@,
        "-x86_64-apple-darwin"@,
        "-aarch64-apple-darwin"@,
        "-x86_64-pc-windows-msvc"@,
        "-x86_64-pc-windows-gnu"@,
        "-aarch64-pc-windows-msvc"@,
        "-linux-amd64"@,
        "-linux-arm64"@,
        "-darwin-amd64"@,
        "-darwin-arm64"@,
        "-windows-amd64"@,
        "-windows-arm64"@,
    ]
}

/// A name without the target that it ends in.
pub open spec fn without_target(name: Seq<char>) -> Seq<char> {
    match ending_at(name, target_endings(), false) {
        Some(at) => cut_end(name.take(at), CharClass::Is('-')),
        None => name,
    }
}

pub fn strip_arch_suffix<'a>(name: &'a str) -> (r: &'a str)
    ensures
        r@ == without_target(name@),
{
    let endings: Vec<&str> = vec![
        "-x86_64-unknown-linux-gnu",
        "-aarch64-unknown-linux-gnu",
        "-x86_64-unknown-linux-musl",
        "-aarch64-unknown-linux-musl",
        "-x86_64-apple-darwin",
        "-aarch64-apple-darwin",
        "-x86_64-pc-windows-msvc",
        "-x86_64-pc-windows-gnu",
        "-aarch64-pc-windows-msvc",
        "-linux-amd64",
        "-linux-arm64",
        "-darwin-amd64",
        "-darwin-arm64",
        "-windows-amd64",
        "-windows-arm64",
    ];
    assert(endings.deep_view() =~= target_endings());
    match find_ending(name, &endings, false) {
        Some(at) => {
            let head = name.substring_char(0, at);
            assert(head@ == name@.take(at as int));
            trim_end_of(head, CharClass::Is('-'))
        },
        None => name,
    }
}

pub open spec fn in_version(c: char) -> bool {
    is_alphanumeric(c) || c == '.' || c == '-' || c == '+'
}

/// A version without one letter `v` in front of it.
pub open spec fn without_v(value: Seq<char>) -> Seq<char> {
    match strip_prefix(value, "v"@) {
        Some(rest) => rest,
        None => match strip_prefix(value, "V"@) {
            Some(rest) => rest,
            None => value,
        },
    }
}

/// Whether a text looks like a version.
pub open spec fn semverish(value: Seq<char>) -> bool {
    let value = without_v(value);
    &&& contains(value, "."@)
    &&& exists|i: int| 0 <= i < value.len() && is_digit(#[trigger] value[i])
    &&& forall|i: int| 0 <= i < value.len() ==> in_version(#[trigger] value[i])
}

pub fn is_semverish(value: &str) -> (r: bool)
    ensures
        r == semverish(value@),
{
    let rest = match without_prefix(value, "v") {
        Some(rest) => rest,
        None => match without_prefix(value, "V") {
            Some(rest) => rest,
            None => value,
        },
    };
    if !has_part(rest, ".") {
        return false;
    }
    let chars = chars_of(rest);
    let mut has_digit = false;
    let mut i: usize = 0;
    while i < chars.len()
        invariant
            chars@ == rest@,
            rest@ == without_v(value@),
            i <= chars@.len(),
            has_digit == exists|j: int| 0 <= j < i && is_digit(#[trigger] rest@[j]),
            forall|j: int| 0 <= j < i ==> in_version(#[trigger] rest@[j]),
        decreases chars.len() - i,
    {
        let c = chars[i];
        if !(alphanumeric(c) || c == '.' || c == '-' || c == '+') {
            assert(!in_version(rest@[i as int]));
            return false;
        }
        if digit(c) {
            assert(is_digit(rest@[i as int]));
            has_digit = true;
        }
        i = i + 1;
    }
    has_digit
}

/// A name without the version that it ends in, found from the right, from index `i` on.
pub open spec fn version_cut(name: Seq<char>, i: int) -> Seq<char>
    decreases i + 1,
{
    if i < 0 {
        name
    } else if name[i] == '-' && semverish(name.skip(i + 1)) && cut_end(
        name.take(i),
        CharClass::Is('-'),
    ).len() > 0 {
        cut_end(name.take(i), CharClass::Is('-'))
    } else {
        version_cut(name, i - 1)
    }
}

pub open spec fn without_version(name: Seq<char>) -> Seq<char> {
    version_cut(name, name.len() - 1)
}

pub fn strip_version_suffix<'a>(name: &'a str) -> (r: &'a str)
    ensures
        r@ == without_version(name@),
{
    let chars = chars_of(name);
    let total: usize = chars.len();
    let mut n: usize = total;
    while n > 0
        invariant
            chars@ == name@,
            total == chars@.len(),
            n <= total,
            without_version(name@) == version_cut(name@, n - 1),
        decreases n,
    {
        let i: usize = n - 1;
        if chars[i] == '-' {
            let rest = name.substring_char(i + 1, total);
            assert(rest@ == name@.skip(i + 1));
            if is_semverish(rest) {
                let head = name.substring_char(0, i);
                assert(head@ == name@.take(i as int));
                let base = trim_end_of(head, CharClass::Is('-'));
                if !base.is_empty() {
                    return base;
                }
            }
        }
        n = i;
    }
    name
}

/// A text with each run of characters that a name cannot hold replaced by a dash.
pub open spec fn dashed(s: Seq<char>) -> Seq<char>
    decreases s.len(),
{
    if s.len() == 0 {
        Seq::empty()
    } else {
        let head = dashed(s.drop_last());
        if is_allowed(s.last()) {
            head.push(s.last())
        } else if s.len() == 1 || is_allowed(s[s.len() - 2]) {
            head.push('-')
        } else {
            head
        }
    }
}

/// What a name can be made of a text; nothing where no name can.
pub open spec fn sanitized(input: Seq<char>) -> Seq<char> {
    let name = cut(dashed(input), CharClass::Is('-'));
    if name == "."@ || name == ".."@ {
        Seq::empty()
    } else {
        name
    }
}

pub fn sanitize_app_name(input: &str) -> (r: String)
    ensures
        r@ == sanitized(input@),
{
    let chars = chars_of(input);
    let mut output = String::new();
    let mut prev_dash = false;
    let mut i: usize = 0;
    while i < chars.len()
        invariant
            chars@ == input@,
            i <= chars@.len(),
            output@ == dashed(input@.take(i as int)),
            prev_dash == (i > 0 && !is_allowed(input@[i - 1])),
        decreases chars.len() - i,
    {
        let c = chars[i];
        proof {
            let part = input@.take(i + 1);
            assert(part.drop_last() =~= input@.take(i as int));
            assert(part.last() == c);
            if i > 0 {
                assert(part[part.len() - 2] == input@[i - 1]);
            }
        }
        if alphanumeric(c) || c == '.' || c == '_' || c == '-' {
            output.push(c);
            prev_dash = false;
        } else {
            if !prev_dash {
                output.push('-');
            }
            prev_dash = true;
        }
        i = i + 1;
    }
    assert(input@.take(i as int) =~= input@);
    let name = trim_of(output.as_str(), CharClass::Is('-'));
    if same(name, ".") || same(name, "..") {
        return String::new();
    }
    name.to_owned()
}

/// Whatever is made of a text is empty or a valid name.
pub proof fn sanitized_names_are_valid(input: Seq<char>)
    ensures
        sanitized(input).len() == 0 || valid_app_name(sanitized(input)),
{
    let name = cut(dashed(input), CharClass::Is('-'));
    dashed_is_allowed(input);
    cut_ends(dashed(input), CharClass::Is('-'));
    assert forall|i: int| 0 <= i < name.len() implies is_allowed(#[trigger] name[i]) by {
        assert(dashed(input).contains(name[i]));
        let k = dashed(input).index_of(name[i]);
        assert(is_allowed(dashed(input)[k]));
    }
}

proof fn dashed_is_allowed(s: Seq<char>)
    ensures
        forall|i: int| 0 <= i < dashed(s).len() ==> is_allowed(#[trigger] dashed(s)[i]),
    decreases s.len(),
{
    if s.len() > 0 {
        dashed_is_allowed(s.drop_last());
        let head = dashed(s.drop_last());
        assert forall|i: int| 0 <= i < dashed(s).len() implies is_allowed(
            #[trigger] dashed(s)[i],
        ) by {
            if i < head.len() {
                assert(dashed(s)[i] == head[i]);
            }
        }
    }
}

/// A valid name without dashes at its ends stays as it is.
pub proof fn valid_names_stay(name: Seq<char>)
    requires
        valid_app_name(name),
        name.last() != '-',
    ensures
        sanitized(name) == name,
{
    allowed_stays(name);
    crate::text::cut_is_identity(name, CharClass::Is('-'));
}

proof fn allowed_stays(s: Seq<char>)
    requires
        forall|i: int| 0 <= i < s.len() ==> is_allowed(#[trigger] s[i]),
    ensures
        dashed(s) == s,
    decreases s.len(),
{
    if s.len() > 0 {
        allowed_stays(s.drop_last());
        assert(s =~= s.drop_last().push(s.last()));
    } else {
        assert(s =~= Seq::empty());
    }
}

pub open spec fn https_url(value: Seq<char>) -> bool {
    starts_with(lowered(trim(value)), "https://"@)
}

pub fn is_https_url(value: &str) -> (r: bool)
    ensures
        r == https_url(value@),
{
    has_prefix(to_ascii_lowercase(trimmed(value)).as_str(), "https://")
}

/// What a deploy is told to deploy: an address can stand in the place of the app.
pub open spec fn deploy_target(app: Option<Seq<char>>, url: Option<Seq<char>>) -> Result<
    (Option<Seq<char>>, Option<Seq<char>>),
    Seq<char>,
> {
    match app {
        Some(app) if https_url(app) => match url {
            Some(_) => Err(
                "deploy URL was provided both positionally and with --url; use one form"@,
            ),
            None => Ok((None, Some(app))),
        },
        _ => Ok((app, url)),
    }
}

pub fn normalize_deploy_target(app: Option<String>, url: Option<String>) -> (r: Result<
    (Option<String>, Option<String>),
    String,
>)
    ensures
        outcome(r) == deploy_target(app.deep_view(), url.deep_view()),
{
    let is_url = match &app {
        Some(app) => is_https_url(app.as_str()),
        None => false,
    };
    if is_url {
        if url.is_some() {
            return Err(
                String::from_str(
                    "deploy URL was provided both positionally and with --url; use one form",
                ),
            );
        }
        return Ok((None, app));
    }
    Ok((app, url))
}

/// What is left of the name of an archive once its ending, its target and its version
/// are taken off.
pub open spec fn asset_base(asset: Seq<char>) -> Seq<char> {
    sanitized(without_version(without_target(without_archive(asset))))
}

fn base_of_asset(asset: &str) -> (r: String)
    ensures
        r@ == asset_base(asset@),
{
    sanitize_app_name(strip_version_suffix(strip_arch_suffix(strip_archive_suffix(asset))))
}

/// The name of the app at an address.
pub open spec fn derived_name(url: Seq<char>) -> Result<Seq<char>, Seq<char>> {
    let segment = last_segment(url_path(url));
    if segment.len() == 0 {
        Err("could not derive app name from URL; set `app` in psht.toml"@)
    } else if asset_base(segment).len() == 0 {
        Err("derived app name is empty; set `app` in psht.toml"@)
    } else {
        Ok(asset_base(segment))
    }
}

pub fn derive_app_name_from_url(url: &str) -> (r: Result<String, String>)
    ensures
        outcome(r) == derived_name(url@),
        r is Ok ==> valid_app_name(r->Ok_0@),
{
    let segment = tail_segment(path_from_url(url));
    if segment.is_empty() {
        return Err(
            String::from_str("could not derive app name from URL; set `app` in psht.toml"),
        );
    }
    let name = base_of_asset(segment);
    if name.as_str().is_empty() {
        return Err(String::from_str("derived app name is empty; set `app` in psht.toml"));
    }
    proof {
        sanitized_names_are_valid(without_version(without_target(without_archive(segment@))));
    }
    Ok(name)
}

/// Which project a release belongs to, by its address.
#[derive(PartialEq, Eq, Debug)]
pub struct ReleaseUrlIdentity {
    pub host: String,
    pub owner: String,
    pub repo: String,
    pub asset_name: String,
}

/// The mathematical form of this.
#[verifier::ext_equal]
pub struct IdentityView {
    pub host: Seq<char>,
    pub owner: Seq<char>,
    pub repo: Seq<char>,
    pub asset_name: Seq<char>,
}

impl DeepView for ReleaseUrlIdentity {
    type V = IdentityView;

    open spec fn deep_view(&self) -> IdentityView {
        IdentityView {
            host: self.host@,
            owner: self.owner@,
            repo: self.repo@,
            asset_name: self.asset_name@,
        }
    }
}

/// The pieces of a path that are not empty.
pub open spec fn segments(path: Seq<char>) -> Seq<Seq<char>> {
    split(path, "/"@).filter(|piece: Seq<char>| piece.len() > 0)
}

fn segments_of(path: &str) -> (r: Vec<String>)
    ensures
        r.deep_view() == segments(path@),
{
    let pieces = split_at_each(path, "/");
    let ghost all = pieces.deep_view();
    let ghost full = |piece: Seq<char>| piece.len() > 0;
    let mut r: Vec<String> = Vec::new();
    let mut i: usize = 0;
    proof {
        reveal(Seq::filter);
        assert(r.deep_view() =~= all.take(0).filter(full));
    }
    while i < pieces.len()
        invariant
            i <= pieces@.len(),
            all == pieces.deep_view(),
            full == (|piece: Seq<char>| piece.len() > 0),
            r.deep_view() == all.take(i as int).filter(full),
        decreases pieces.len() - i,
    {
        proof {
            assert(all.take(i + 1).drop_last() =~= all.take(i as int));
            assert(all.take(i + 1).last() == pieces@[i as int]@);
            reveal(Seq::filter);
        }
        if !pieces[i].as_str().is_empty() {
            push_text(&mut r, pieces[i].clone());
        }
        i = i + 1;
    }
    assert(all.take(i as int) =~= all);
    r
}

/// The project that the address of a release names.
pub open spec fn identity_of(url: Seq<char>) -> Option<IdentityView> {
    match split_once(trim(url_path(url)), "://"@) {
        None => None,
        Some((scheme, rest)) => {
            let (host, path) = match split_once(rest, "/"@) {
                Some((host, path)) => (host, path),
                None => (rest, Seq::empty()),
            };
            let parts = segments(path);
            if lowered(scheme) == lowered("https"@) && trim(host).len() > 0 && parts.len() == 6
                && lowered(parts[2]) == lowered("releases"@) && lowered(parts[3]) == lowered(
                "download"@,
            ) && asset_base(parts[5]).len() > 0 {
                Some(
                    IdentityView {
                        host: lowered(host),
                        owner: parts[0],
                        repo: parts[1],
                        asset_name: asset_base(parts[5]),
                    },
                )
            } else {
                None
            }
        },
    }
}

pub fn parse_release_url_identity(url: &str) -> (r: Option<ReleaseUrlIdentity>)
    ensures
        r.deep_view() == identity_of(url@),
{
    let (scheme, rest) = match cut_at_first(trimmed(path_from_url(url)), "://") {
        Some(parts) => parts,
        None => {
            return None;
        },
    };
    if !eq_ignore_ascii_case(scheme, "https") {
        return None;
    }
    let (host, parts) = match cut_at_first(rest, "/") {
        Some((host, path)) => (host, segments_of(path)),
        None => {
            let none: Vec<String> = Vec::new();
            assert(segments(Seq::empty()).len() == 0) by {
                reveal_strlit("/");
                let nothing = Seq::<char>::empty();
                let full = |piece: Seq<char>| piece.len() > 0;
                find_is_nothing_in_nothing("/"@);
                let pieces = split(nothing, "/"@);
                assert(pieces =~= seq![nothing]);
                assert(pieces.drop_last() =~= Seq::empty());
                reveal_with_fuel(Seq::filter, 2);
                assert(pieces.filter(full).len() == 0);
            }
            (rest, none)
        },
    };
    if trimmed(host).is_empty() || parts.len() != 6 {
        return None;
    }
    assert(forall|k: int| 0 <= k < 6 ==> #[trigger] parts.deep_view()[k] == parts@[k]@);
    if !eq_ignore_ascii_case(parts[2].as_str(), "releases") || !eq_ignore_ascii_case(
        parts[3].as_str(),
        "download",
    ) {
        return None;
    }
    let asset_name = base_of_asset(parts[5].as_str());
    if asset_name.as_str().is_empty() {
        return None;
    }
    Some(
        ReleaseUrlIdentity {
            host: to_ascii_lowercase(host),
            owner: parts[0].clone(),
            repo: parts[1].clone(),
            asset_name,
        },
    )
}

/// Whether two addresses name releases of one project.
pub open spec fn same_project(a: Seq<char>, b: Seq<char>) -> bool {
    identity_of(a) is Some && identity_of(a) == identity_of(b)
}

pub fn is_same_project_release_url(file_url: &str, cli_url: &str) -> (r: bool)
    ensures
        r == same_project(file_url@, cli_url@),
{
    match (parse_release_url_identity(file_url), parse_release_url_identity(cli_url)) {
        (Some(a), Some(b)) => same(a.host.as_str(), b.host.as_str()) && same(
            a.owner.as_str(),
            b.owner.as_str(),
        ) && same(a.repo.as_str(), b.repo.as_str()) && same(
            a.asset_name.as_str(),
            b.asset_name.as_str(),
        ),
        _ => false,
    }
}

/// The release that runs is tried first, and then the latest one, where that is known and
/// another.
pub proof fn the_own_release_is_tried_first(current: Seq<char>, latest: Option<Seq<char>>)
    ensures
        candidates(current, latest)[0] == current,
        candidates(current, latest).len() == if latest is Some && trim(latest->0).len() > 0 && trim(
            latest->0,
        ) != current {
            2int
        } else {
            1
        },
        candidates(current, latest).len() == 2 ==> candidates(current, latest)[1] == trim(
            latest->0,
        ),
{
}

/// What was found to be the latest release is not asked for again until its time is over.
pub proof fn answers_are_kept_for_a_while(cached: Option<(u64, Seq<char>)>, now: u64)
    ensures
        fresh_latest(cached, now) is Some <==> cached is Some && trim((cached->0).1).len() > 0 && now
            <= (cached->0).0 + UPGRADE_CHECK_TTL_SECS,
        fresh_latest(cached, now) is Some ==> fresh_latest(cached, now)->0 == trim((cached->0).1),
{
}

/// What is given to deploy is an address where it looks like one, and then it is given once;
/// else it is taken as it is.
pub proof fn addresses_are_given_once(app: Option<Seq<char>>, url: Option<Seq<char>>)
    ensures
        ({
            let target = deploy_target(app, url);
            let address = app is Some && starts_with(lowered(trim(app->0)), "https://"@);
            &&& target is Err <==> address && url is Some
            &&& address && url is None ==> target->Ok_0 == (None::<Seq<char>>, app)
            &&& !address ==> target->Ok_0 == (app, url)
        }),
{
}

/// Two addresses are of one project both ways round, and of one with all that either is of
/// one with; so no chain of releases leads out of a project.
pub proof fn projects_are_told_apart(a: Seq<char>, b: Seq<char>, c: Seq<char>)
    ensures
        same_project(a, b) == same_project(b, a),
        same_project(a, b) && same_project(b, c) ==> same_project(a, c),
        same_project(a, b) ==> {
            &&& identity_of(a) is Some && identity_of(b) is Some
            &&& identity_of(a)->0.host == identity_of(b)->0.host
            &&& identity_of(a)->0.owner == identity_of(b)->0.owner
            &&& identity_of(a)->0.repo == identity_of(b)->0.repo
            &&& identity_of(a)->0.asset_name == identity_of(b)->0.asset_name
        },
        identity_of(a) is Some ==> same_project(a, a),
{
}

/// The format of an archive is read off the end of its path, whatever its case and whatever
/// follows the path.
pub proof fn formats_are_read_off_the_path(url: Seq<char>)
    ensures
        ({
            let path = lowered(url_path(url));
            let gz = ends_with(path, ".tar.gz"@) || ends_with(path, ".tgz"@);
            let zip = ends_with(path, ".zip"@);
            &&& archive_format(url) == Ok::<ArchiveFormat, Seq<char>>(ArchiveFormat::TarGz) <==> gz
            &&& archive_format(url) == Ok::<ArchiveFormat, Seq<char>>(ArchiveFormat::Zip) <==> zip
                && !gz
            &&& archive_format(url) is Err <==> !gz && !zip
        }),
{
}

/// A forge that is set is used without slashes at its end; one that says nothing is not
/// set.
pub proof fn forges_are_set_or_defaulted(raw: Option<Seq<char>>, default: Seq<char>)
    ensures
        raw is None ==> forge_url_of(raw, default) == default,
        raw is Some && cut_end(trim(raw->0), CharClass::Is('/')).len() > 0 ==> forge_url_of(
            raw,
            default,
        ) == cut_end(trim(raw->0), CharClass::Is('/')),
        raw is Some && cut_end(trim(raw->0), CharClass::Is('/')).len() == 0 ==> forge_url_of(
            raw,
            default,
        ) == default,
{
}

/// A host is warned exactly where a later release than its own is known.
pub proof fn later_releases_are_told_of(latest: Option<Seq<char>>, current: Seq<char>)
    ensures
        warning_of(latest, current) is Some <==> latest is Some && newer(latest->0, current),
{
}

} // verus!
