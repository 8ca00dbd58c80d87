//! What the host's containers are given by default: the devices of a profile, the
//! storage pools and the networks.

use vstd::prelude::*;
use crate::json::{bool_member, json_view, parse_json, parsed_json, text_member, Json, JsonView};
use crate::split::{cut_at_first, lines, lines_of, split_once};
use crate::text::{
    chars_of, cut, cut_end, cut_start, ends_with, eq_ignore_ascii_case, has_prefix, has_suffix,
    lowered, outcome, push_text, same, starts_with, trim, trim_end_of, trim_of, trim_start_of,
    trimmed, CharClass,
};

verus! {

// ---------------------------------------------------------------------------
// The devices of a profile
// ---------------------------------------------------------------------------

/// A line of a profile: how far it is indented, and what it says.
pub struct ProfileLine {
    pub indent: usize,
    pub text: String,
}

/// The mathematical form of a line.
#[verifier::ext_equal]
pub struct LineView {
    pub indent: nat,
    pub text: Seq<char>,
}

impl DeepView for ProfileLine {
    type V = LineView;

    open spec fn deep_view(&self) -> LineView {
        LineView { indent: self.indent as nat, text: self.text@ }
    }
}

pub open spec fn is_ascii_white(c: char) -> bool {
    c == ' ' || c == '\t' || c == '\n' || c == '\r' || c as u32 == 0xC
}

/// How many characters of white space a line starts with.
pub open spec fn indentation(line: Seq<char>) -> nat
    decreases line.len(),
{
    if line.len() > 0 && is_ascii_white(line[0]) {
        indentation(line.skip(1)) + 1
    } else {
        0
    }
}

fn indent_of(line: &str) -> (r: usize)
    ensures
        r == indentation(line@),
{
    let chars = chars_of(line);
    let mut i: usize = 0;
    assert(line@.skip(0) =~= line@);
    while i < chars.len() && (chars[i] == ' ' || chars[i] == '\t' || chars[i] == '\n' || chars[i]
        == '\r' || chars[i] as u32 == 0xC)
        invariant
            chars@ == line@,
            i <= chars@.len(),
            indentation(line@) == i + indentation(line@.skip(i as int)),
        decreases chars.len() - i,
    {
        assert(line@.skip(i as int).skip(1) =~= line@.skip(i + 1));
        i = i + 1;
    }
    i
}

/// What a line says, unless it is empty or a comment.
pub open spec fn line_of(raw: Seq<char>) -> Option<LineView> {
    let line = cut_end(raw, CharClass::White);
    let text = cut_start(line, CharClass::White);
    if line.len() == 0 || starts_with(text, "#"@) {
        None
    } else {
        Some(LineView { indent: indentation(line), text })
    }
}

/// The lines of a profile that say something.
pub open spec fn lines_of_profile(raw: Seq<Seq<char>>) -> Seq<LineView>
    decreases raw.len(),
{
    if raw.len() == 0 {
        Seq::empty()
    } else {
        let head = lines_of_profile(raw.drop_last());
        match line_of(raw.last()) {
            Some(line) => head.push(line),
            None => head,
        }
    }
}

fn read_profile(profile: &str) -> (r: Vec<ProfileLine>)
    ensures
        r.deep_view() == lines_of_profile(lines(profile@)),
{
    let raw = lines_of(profile);
    let ghost all = raw.deep_view();
    let mut r: Vec<ProfileLine> = Vec::new();
    let mut i: usize = 0;
    assert(r.deep_view() =~= lines_of_profile(all.take(0)));
    while i < raw.len()
        invariant
            i <= raw@.len(),
            all == raw.deep_view(),
            r.deep_view() == lines_of_profile(all.take(i as int)),
        decreases raw.len() - i,
    {
        let ghost before = r.deep_view();
        proof {
            assert(all.take(i + 1).drop_last() =~= all.take(i as int));
            assert(all.take(i + 1).last() == raw@[i as int]@);
        }
        let line = trim_end_of(raw[i].as_str(), CharClass::White);
        if !line.is_empty() {
            let text = trim_start_of(line, CharClass::White);
            if !has_prefix(text, "#") {
                let entry = ProfileLine { indent: indent_of(line), text: text.to_owned() };
                r.push(entry);
                assert(r.deep_view() =~= before.push(entry.deep_view()));
            }
        }
        i = i + 1;
    }
    assert(all.take(i as int) =~= all);
    r
}

/// Whether a line starts a device.
pub open spec fn is_header(line: LineView) -> bool {
    line.indent == 2 && ends_with(line.text, ":"@)
}

/// What a line sets, without quotes.
pub open spec fn setting(line: LineView) -> Option<(Seq<char>, Seq<char>)> {
    match split_once(line.text, ":"@) {
        Some((key, value)) => Some(
            (trim(key), cut(cut(trim(value), CharClass::Is('"')), CharClass::Is('\''))),
        ),
        None => None,
    }
}

/// Whether a line belongs to the device that starts at line `h`.
pub open spec fn in_device(all: Seq<LineView>, h: int, a: int) -> bool {
    h < a < all.len() && forall|k: int| h < k <= a ==> (#[trigger] all[k]).indent > 2
}

/// Whether a device sets a key to a value.
pub open spec fn device_sets(all: Seq<LineView>, h: int, key: Seq<char>, value: Seq<char>) -> bool {
    exists|a: int| #[trigger] in_device(all, h, a) && setting(all[a]) == Some((key, value))
}

/// Whether the devices of a profile start after line `d`.
pub open spec fn devices_at(all: Seq<LineView>, d: int) -> bool {
    0 <= d < all.len() && all[d].text == "devices:"@ && forall|k: int|
        0 <= k < d ==> (#[trigger] all[k]).text != "devices:"@
}

/// Whether a device starts at line `h`, where the devices start after line `d`.
pub open spec fn device_at(all: Seq<LineView>, d: int, h: int) -> bool {
    d < h < all.len() && is_header(all[h]) && forall|k: int|
        d < k <= h ==> (#[trigger] all[k]).indent != 0
}

/// Whether a device is of the kind, and stands for the root of the file system where
/// that is asked for.
pub open spec fn device_fits(all: Seq<LineView>, h: int, kind: Seq<char>, root: bool) -> bool {
    device_sets(all, h, "type"@, kind) && (root ==> device_sets(all, h, "path"@, "/"@))
}

/// Whether a profile has a device of the kind.
pub open spec fn has_device(all: Seq<LineView>, kind: Seq<char>, root: bool) -> bool {
    exists|d: int, h: int|
        #![trigger devices_at(all, d), device_at(all, d, h)]
        devices_at(all, d) && device_at(all, d, h) && device_fits(all, h, kind, root)
}

fn sets(line: &ProfileLine, key: &str, value: &str) -> (r: bool)
    ensures
        r == (setting(line.deep_view()) == Some((key@, value@))),
{
    match cut_at_first(line.text.as_str(), ":") {
        Some((k, v)) => {
            let v = trim_of(trim_of(trimmed(v), CharClass::Is('"')), CharClass::Is('\''));
            same(trimmed(k), key) && same(v, value)
        },
        None => false,
    }
}

/// Whether the device that starts at line `h` sets the key, as far as line `i`.
proof fn device_goes_on(all: Seq<LineView>, h: int, i: int, key: Seq<char>, value: Seq<char>)
    requires
        0 <= h < i < all.len(),
        forall|k: int| h < k < i ==> (#[trigger] all[k]).indent > 2,
        all[i].indent <= 2,
    ensures
        device_sets(all, h, key, value) == device_sets(all.take(i), h, key, value),
{
    let part = all.take(i);
    if device_sets(all, h, key, value) {
        let a = choose|a: int| #[trigger] in_device(all, h, a) && setting(all[a]) == Some((key, value));
        if a >= i {
            assert(all[i].indent > 2);
        }
        assert(in_device(part, h, a)) by {
            assert forall|k: int| h < k <= a implies (#[trigger] part[k]).indent > 2 by {
                assert(part[k] == all[k]);
            }
        }
        assert(part[a] == all[a]);
    }
    if device_sets(part, h, key, value) {
        let a = choose|a: int| #[trigger] in_device(part, h, a) && setting(part[a]) == Some((key, value));
        assert(in_device(all, h, a)) by {
            assert forall|k: int| h < k <= a implies (#[trigger] all[k]).indent > 2 by {
                assert(part[k] == all[k]);
            }
        }
        assert(part[a] == all[a]);
    }
}

proof fn one_more_line(all: Seq<LineView>, h: int, i: int, key: Seq<char>, value: Seq<char>)
    requires
        0 <= h < i < all.len(),
        forall|k: int| h < k <= i ==> (#[trigger] all[k]).indent > 2,
    ensures
        device_sets(all.take(i + 1), h, key, value) == (device_sets(all.take(i), h, key, value)
            || setting(all[i]) == Some((key, value))),
{
    let part = all.take(i);
    let more = all.take(i + 1);
    if device_sets(more, h, key, value) {
        let a = choose|a: int| #[trigger] in_device(more, h, a) && setting(more[a]) == Some((key, value));
        assert(more[a] == all[a]);
        if a < i {
            assert(in_device(part, h, a)) by {
                assert forall|k: int| h < k <= a implies (#[trigger] part[k]).indent > 2 by {
                    assert(more[k] == all[k] && part[k] == all[k]);
                }
            }
            assert(part[a] == all[a]);
        }
    }
    if device_sets(part, h, key, value) {
        let a = choose|a: int| #[trigger] in_device(part, h, a) && setting(part[a]) == Some((key, value));
        assert(in_device(more, h, a)) by {
            assert forall|k: int| h < k <= a implies (#[trigger] more[k]).indent > 2 by {
                assert(more[k] == all[k]);
            }
        }
        assert(more[a] == part[a]);
    }
    if setting(all[i]) == Some((key, value)) {
        assert(in_device(more, h, i)) by {
            assert forall|k: int| h < k <= i implies (#[trigger] more[k]).indent > 2 by {
                assert(more[k] == all[k]);
            }
        }
        assert(more[i] == all[i]);
    }
}

fn profile_has(profile: &str, kind: &str, root: bool) -> (r: bool)
    ensures
        r == has_device(lines_of_profile(lines(profile@)), kind@, root),
{
    let entries = read_profile(profile);
    let ghost all = entries.deep_view();
    let n: usize = entries.len();
    let mut d: usize = 0;
    while d < n && !same(entries[d].text.as_str(), "devices:")
        invariant
            n == entries@.len(),
            d <= n,
            all == entries.deep_view(),
            forall|k: int| 0 <= k < d ==> (#[trigger] all[k]).text != "devices:"@,
        decreases n - d,
    {
        d = d + 1;
    }
    if d >= n {
        assert(!has_device(all, kind@, root)) by {
            if has_device(all, kind@, root) {
                let (d0, h0) = choose|d0: int, h0: int|
                    #![trigger devices_at(all, d0), device_at(all, d0, h0)]
                    devices_at(all, d0) && device_at(all, d0, h0) && device_fits(
                        all,
                        h0,
                        kind@,
                        root,
                    );
                assert(all[d0].text != "devices:"@);
            }
        }
        return false;
    }
    assert(devices_at(all, d as int));
    assert forall|d0: int| devices_at(all, d0) implies d0 == d by {
        if d0 < d {
            assert(all[d0].text != "devices:"@);
        } else if d < d0 {
            assert(all[d as int].text != "devices:"@);
        }
    }
    let mut i: usize = d + 1;
    // The device whose lines are being read, and what it has set so far.
    let mut open: bool = false;
    let mut of_kind: bool = false;
    let mut at_root: bool = false;
    let ghost mut h: int = 0;
    while i < n
        invariant
            n == entries@.len(),
            d < i <= n,
            all == entries.deep_view(),
            all == lines_of_profile(lines(profile@)),
            devices_at(all, d as int),
            forall|d0: int| devices_at(all, d0) ==> d0 == d,
            forall|k: int| d < k < i ==> (#[trigger] all[k]).indent != 0,
            open ==> {
                &&& device_at(all, d as int, h)
                &&& h < i
                &&& forall|k: int| h < k < i ==> (#[trigger] all[k]).indent > 2
                &&& of_kind == device_sets(all.take(i as int), h, "type"@, kind@)
                &&& at_root == device_sets(all.take(i as int), h, "path"@, "/"@)
            },
            forall|g: int|
                d < g < i && (!open || g != h) && #[trigger] device_at(all, d as int, g)
                    ==> !device_fits(all, g, kind@, root),
        decreases n - i,
    {
        let line = &entries[i];
        assert(all[i as int] == line.deep_view());
        if line.indent <= 2 {
            proof {
                if open {
                    device_goes_on(all, h, i as int, "type"@, kind@);
                    device_goes_on(all, h, i as int, "path"@, "/"@);
                }
            }
            if open && of_kind && (at_root || !root) {
                assert(device_fits(all, h, kind@, root));
                assert(has_device(all, kind@, root));
                return true;
            }
            if line.indent == 0 {
                assert(!has_device(all, kind@, root)) by {
                    if has_device(all, kind@, root) {
                        let (d0, h0) = choose|d0: int, h0: int|
                            #![trigger devices_at(all, d0), device_at(all, d0, h0)]
                            devices_at(all, d0) && device_at(all, d0, h0) && device_fits(
                                all,
                                h0,
                                kind@,
                                root,
                            );
                        assert(d0 == d);
                        if h0 >= i {
                            assert(all[i as int].indent != 0);
                        }
                        assert(device_at(all, d as int, h0));
                    }
                }
                return false;
            }
            let header = line.indent == 2 && has_suffix(line.text.as_str(), ":");
            open = header;
            of_kind = false;
            at_root = false;
            proof {
                if header {
                    h = i as int;
                    assert(device_at(all, d as int, h));
                    assert(!device_sets(all.take(i + 1), h, "type"@, kind@)) by {
                        assert forall|a: int| !#[trigger] in_device(all.take(i + 1), h, a) by {}
                    }
                    assert(!device_sets(all.take(i + 1), h, "path"@, "/"@)) by {
                        assert forall|a: int| !#[trigger] in_device(all.take(i + 1), h, a) by {}
                    }
                }
            }
        } else if open {
            proof {
                one_more_line(all, h, i as int, "type"@, kind@);
                one_more_line(all, h, i as int, "path"@, "/"@);
            }
            if sets(line, "type", kind) {
                of_kind = true;
            }
            if sets(line, "path", "/") {
                at_root = true;
            }
        }
        i = i + 1;
    }
    let found = open && of_kind && (at_root || !root);
    proof {
        assert(all.take(n as int) =~= all);
        if found {
            assert(has_device(all, kind@, root));
        } else if has_device(all, kind@, root) {
            let (d0, h0) = choose|d0: int, h0: int|
                #![trigger devices_at(all, d0), device_at(all, d0, h0)]
                devices_at(all, d0) && device_at(all, d0, h0) && device_fits(all, h0, kind@, root);
            assert(d0 == d);
            assert(device_at(all, d as int, h0));
        }
    }
    found
}

/// Whether a profile gives containers a disk for the root of their file system.
pub fn profile_has_root_disk(profile: &str) -> (r: bool)
    ensures
        r == has_device(lines_of_profile(lines(profile@)), "disk"@, true),
{
    profile_has(profile, "disk", true)
}

/// Whether a profile gives containers a network device.
pub fn profile_has_nic(profile: &str) -> (r: bool)
    ensures
        r == has_device(lines_of_profile(lines(profile@)), "nic"@, false),
{
    profile_has(profile, "nic", false)
}

/// Whether a project has profiles of its own, by what the host says.
pub fn project_uses_profiles(output: &str) -> (r: bool)
    ensures
        r == (lowered(trim(output@)) == lowered("true"@)),
{
    eq_ignore_ascii_case(trimmed(output), "true")
}

// ---------------------------------------------------------------------------
// Storage and networks
// ---------------------------------------------------------------------------

/// The first item of a list that has a name.
pub open spec fn first_named(items: Seq<JsonView>) -> Option<Seq<char>>
    decreases items.len(),
{
    if items.len() == 0 {
        None
    } else {
        match first_named(items.drop_last()) {
            Some(name) => Some(name),
            None => match text_member(items.last(), "name"@) {
                Some(name) if name.len() > 0 => Some(name),
                _ => None,
            },
        }
    }
}

proof fn first_named_stays(items: Seq<JsonView>, k: int)
    requires
        0 <= k <= items.len(),
        first_named(items.take(k)) is Some,
    ensures
        first_named(items) == first_named(items.take(k)),
    decreases items.len() - k,
{
    if k < items.len() {
        assert(items.take(k + 1).drop_last() =~= items.take(k));
        first_named_stays(items, k + 1);
    } else {
        assert(items.take(k) =~= items);
    }
}

/// The first storage pool of a list.
pub open spec fn first_pool(list: JsonView) -> Result<Option<Seq<char>>, Seq<char>> {
    match list {
        JsonView::Array(pools) => Ok(first_named(pools)),
        _ => Err("unexpected incus storage list response"@),
    }
}

pub fn first_pool_in(list: &Json) -> (r: Result<Option<String>, String>)
    ensures
        outcome(r) == first_pool(list.deep_view()),
{
    let pools = match list {
        Json::Array(pools) => pools,
        _ => {
            return Err(String::from_str("unexpected incus storage list response"));
        },
    };
    let ghost all = list.deep_view()->Array_0;
    let mut i: usize = 0;
    assert(all.take(0) =~= Seq::empty());
    while i < pools.len()
        invariant
            i <= pools@.len(),
            *list == Json::Array(*pools),
            all == list.deep_view()->Array_0,
            first_named(all.take(i as int)) is None,
        decreases pools.len() - i,
    {
        proof {
            assert(all[i as int] == json_view(pools@[i as int]));
            assert(all.take(i + 1).drop_last() =~= all.take(i as int));
            assert(all.take(i + 1).last() == all[i as int]);
        }
        if let Some(name) = pools[i].get_text("name") {
            if !name.is_empty() {
                proof {
                    first_named_stays(all, i + 1);
                }
                return Ok(Some(name.to_owned()));
            }
        }
        i = i + 1;
    }
    assert(all.take(i as int) =~= all);
    Ok(None)
}

/// The first storage pool of the host, by the list that the host prints.
pub fn first_storage_pool_name(json: &str) -> (r: Result<Option<String>, String>)
    ensures
        outcome(r) == match parsed_json(json@) {
            Ok(list) => first_pool(list),
            Err(err) => Err("failed to parse incus storage list: "@ + err),
        },
{
    match parse_json(json) {
        Ok(list) => first_pool_in(&list),
        Err(err) => {
            let mut message = String::from_str("failed to parse incus storage list: ");
            message.append(err.as_str());
            Err(message)
        },
    }
}

/// The name of a network that the host manages.
pub open spec fn managed_name(network: JsonView) -> Option<Seq<char>> {
    match text_member(network, "name"@) {
        Some(name) => if name.len() > 0 && name != "lo"@ && bool_member(network, "managed"@)
            == Some(true) {
            Some(name)
        } else {
            None
        },
        None => None,
    }
}

pub open spec fn is_bridge(network: JsonView) -> bool {
    text_member(network, "type"@) == Some("bridge"@)
}

/// The first network that the host manages, of those that are bridges or of all.
pub open spec fn first_managed(networks: Seq<JsonView>, bridges: bool) -> Option<Seq<char>>
    decreases networks.len(),
{
    if networks.len() == 0 {
        None
    } else {
        match first_managed(networks.drop_last(), bridges) {
            Some(name) => Some(name),
            None => if bridges && !is_bridge(networks.last()) {
                None
            } else {
                managed_name(networks.last())
            },
        }
    }
}

proof fn first_managed_stays(networks: Seq<JsonView>, bridges: bool, k: int)
    requires
        0 <= k <= networks.len(),
        first_managed(networks.take(k), bridges) is Some,
    ensures
        first_managed(networks, bridges) == first_managed(networks.take(k), bridges),
    decreases networks.len() - k,
{
    if k < networks.len() {
        assert(networks.take(k + 1).drop_last() =~= networks.take(k));
        first_managed_stays(networks, bridges, k + 1);
    } else {
        assert(networks.take(k) =~= networks);
    }
}

/// The network to give to containers: the first bridge that the host manages, or else
/// the first network that it does.
pub open spec fn first_network(list: JsonView) -> Result<Option<Seq<char>>, Seq<char>> {
    match list {
        JsonView::Array(networks) => Ok(
            match first_managed(networks, true) {
                Some(name) => Some(name),
                None => first_managed(networks, false),
            },
        ),
        _ => Err("unexpected incus network list response"@),
    }
}

fn managed_network(network: &Json) -> (r: Option<String>)
    ensures
        r.deep_view() == managed_name(network.deep_view()),
{
    match network.get_text("name") {
        Some(name) => {
            if name.is_empty() || same(name, "lo") {
                return None;
            }
            match network.get_bool("managed") {
                Some(true) => Some(name.to_owned()),
                _ => None,
            }
        },
        None => None,
    }
}

pub fn first_network_in(list: &Json) -> (r: Result<Option<String>, String>)
    ensures
        outcome(r) == first_network(list.deep_view()),
{
    let networks = match list {
        Json::Array(networks) => networks,
        _ => {
            return Err(String::from_str("unexpected incus network list response"));
        },
    };
    let ghost all = list.deep_view()->Array_0;
    let mut fallback: Option<String> = None;
    let mut i: usize = 0;
    assert(all.take(0) =~= Seq::empty());
    while i < networks.len()
        invariant
            i <= networks@.len(),
            *list == Json::Array(*networks),
            all == list.deep_view()->Array_0,
            first_managed(all.take(i as int), true) is None,
            fallback.deep_view() == first_managed(all.take(i as int), false),
        decreases networks.len() - i,
    {
        proof {
            assert(all[i as int] == json_view(networks@[i as int]));
            assert(all.take(i + 1).drop_last() =~= all.take(i as int));
            assert(all.take(i + 1).last() == all[i as int]);
        }
        if let Some(name) = managed_network(&networks[i]) {
            let bridge = match networks[i].get_text("type") {
                Some(kind) => same(kind, "bridge"),
                None => false,
            };
            if bridge {
                proof {
                    first_managed_stays(all, true, i + 1);
                }
                return Ok(Some(name));
            }
            if fallback.is_none() {
                fallback = Some(name);
            }
        }
        i = i + 1;
    }
    assert(all.take(i as int) =~= all);
    Ok(fallback)
}

/// The network to give to containers, by the list that the host prints.
pub fn first_managed_network_name(json: &str) -> (r: Result<Option<String>, String>)
    ensures
        outcome(r) == match parsed_json(json@) {
            Ok(list) => first_network(list),
            Err(err) => Err("failed to parse incus network list: "@ + err),
        },
{
    match parse_json(json) {
        Ok(list) => first_network_in(&list),
        Err(err) => {
            let mut message = String::from_str("failed to parse incus network list: ");
            message.append(err.as_str());
            Err(message)
        },
    }
}

/// The volume that keeps the files of an app.
pub fn app_storage_volume_name(app: &str) -> (r: String)
    ensures
        r@ == "psht-storage-"@ + app@,
{
    let mut r = String::from_str("psht-storage-");
    r.append(app);
    r
}

/// The volume that keeps the tailnet identity of an app.
pub fn app_tailscale_volume_name(app: &str) -> (r: String)
    ensures
        r@ == "psht-tailscale-"@ + app@,
{
    let mut r = String::from_str("psht-tailscale-");
    r.append(app);
    r
}

/// What the default profile of a project lacks.
#[derive(Clone, Copy, PartialEq, Eq, Structural, Debug)]
pub struct ProfileNeeds {
    pub root_disk: bool,
    pub nic: bool,
}

/// What a profile lacks.
pub fn profile_needs(profile: &str) -> (r: ProfileNeeds)
    ensures
        r.root_disk == !has_device(lines_of_profile(lines(profile@)), "disk"@, true),
        r.nic == !has_device(lines_of_profile(lines(profile@)), "nic"@, false),
{
    ProfileNeeds { root_disk: !profile_has_root_disk(profile), nic: !profile_has_nic(profile) }
}

fn project_args(project: &str) -> (r: Vec<String>)
    ensures
        r.deep_view() == seq!["--project"@, project@, "profile"@, "device"@, "add"@, "default"@],
{
    let mut r: Vec<String> = Vec::new();
    push_text(&mut r, String::from_str("--project"));
    push_text(&mut r, project.to_owned());
    push_text(&mut r, String::from_str("profile"));
    push_text(&mut r, String::from_str("device"));
    push_text(&mut r, String::from_str("add"));
    push_text(&mut r, String::from_str("default"));
    assert(r.deep_view() =~= seq![
        "--project"@,
        project@,
        "profile"@,
        "device"@,
        "add"@,
        "default"@,
    ]);
    r
}

/// The arguments with which a root disk is added to a profile.
pub fn add_root_disk_args(project: &str, pool: &str) -> (r: Vec<String>)
    ensures
        r.deep_view() == seq![
            "--project"@,
            project@,
            "profile"@,
            "device"@,
            "add"@,
            "default"@,
            "root"@,
            "disk"@,
            "path=/"@,
            "pool="@ + pool@,
        ],
{
    let mut r = project_args(project);
    push_text(&mut r, String::from_str("root"));
    push_text(&mut r, String::from_str("disk"));
    push_text(&mut r, String::from_str("path=/"));
    let mut arg = String::from_str("pool=");
    arg.append(pool);
    push_text(&mut r, arg);
    assert(r.deep_view() =~= seq![
        "--project"@,
        project@,
        "profile"@,
        "device"@,
        "add"@,
        "default"@,
        "root"@,
        "disk"@,
        "path=/"@,
        "pool="@ + pool@,
    ]);
    r
}

/// The arguments with which a network device is added to a profile.
pub fn add_nic_args(project: &str, network: &str) -> (r: Vec<String>)
    ensures
        r.deep_view() == seq![
            "--project"@,
            project@,
            "profile"@,
            "device"@,
            "add"@,
            "default"@,
            "psht-net0"@,
            "nic"@,
            "network="@ + network@,
        ],
{
    let mut r = project_args(project);
    push_text(&mut r, String::from_str("psht-net0"));
    push_text(&mut r, String::from_str("nic"));
    let mut arg = String::from_str("network=");
    arg.append(network);
    push_text(&mut r, arg);
    assert(r.deep_view() =~= seq![
        "--project"@,
        project@,
        "profile"@,
        "device"@,
        "add"@,
        "default"@,
        "psht-net0"@,
        "nic"@,
        "network="@ + network@,
    ]);
    r
}

/// Whether an item has a name, and one that says something.
pub open spec fn is_named(item: JsonView) -> bool {
    text_member(item, "name"@) is Some && text_member(item, "name"@)->0.len() > 0
}

/// The first pool is the first item of the list that has a name, if any has.
pub proof fn the_first_pool_with_a_name_is_taken(items: Seq<JsonView>)
    ensures
        match first_named(items) {
            Some(name) => exists|i: int|
                0 <= i < items.len() && is_named(#[trigger] items[i]) && text_member(
                    items[i],
                    "name"@,
                ) == Some(name) && forall|j: int| 0 <= j < i ==> !is_named(#[trigger] items[j]),
            None => forall|j: int| 0 <= j < items.len() ==> !is_named(#[trigger] items[j]),
        },
    decreases items.len(),
{
    if items.len() > 0 {
        let head = items.drop_last();
        let last = items.len() - 1;
        the_first_pool_with_a_name_is_taken(head);
        assert(items[last] == items.last());
        assert forall|j: int| 0 <= j < head.len() implies #[trigger] head[j] == items[j] by {}
        match first_named(head) {
            Some(name) => {
                let i = choose|i: int|
                    0 <= i < head.len() && is_named(#[trigger] head[i]) && text_member(
                        head[i],
                        "name"@,
                    ) == Some(name) && forall|j: int|
                        0 <= j < i ==> !is_named(#[trigger] head[j]);
                assert(is_named(items[i]));
                assert forall|j: int| 0 <= j < i implies !is_named(#[trigger] items[j]) by {
                    assert(!is_named(head[j]));
                }
            },
            None => {
                assert forall|j: int| 0 <= j < last implies !is_named(#[trigger] items[j]) by {
                    assert(!is_named(head[j]));
                }
            },
        }
    }
}

/// Whether a network can be used: it has a name, is no loopback and is managed.
pub open spec fn is_usable(network: JsonView) -> bool {
    is_named(network) && text_member(network, "name"@) != Some("lo"@) && bool_member(
        network,
        "managed"@,
    ) == Some(true)
}

proof fn the_first_usable_network_is_found(networks: Seq<JsonView>, bridges: bool)
    ensures
        match first_managed(networks, bridges) {
            Some(name) => exists|i: int|
                0 <= i < networks.len() && is_usable(#[trigger] networks[i]) && (bridges
                    ==> is_bridge(networks[i])) && text_member(networks[i], "name"@) == Some(name)
                    && forall|j: int|
                    0 <= j < i ==> !(is_usable(#[trigger] networks[j]) && (bridges ==> is_bridge(
                        networks[j],
                    ))),
            None => forall|j: int|
                0 <= j < networks.len() ==> !(is_usable(#[trigger] networks[j]) && (bridges
                    ==> is_bridge(networks[j]))),
        },
    decreases networks.len(),
{
    if networks.len() > 0 {
        let head = networks.drop_last();
        let last = networks.len() - 1;
        the_first_usable_network_is_found(head, bridges);
        assert(networks[last] == networks.last());
        assert(managed_name(networks[last]) is Some <==> is_usable(networks[last]));
        assert forall|j: int| 0 <= j < head.len() implies #[trigger] head[j] == networks[j] by {}
        match first_managed(head, bridges) {
            Some(name) => {
                let i = choose|i: int|
                    0 <= i < head.len() && is_usable(#[trigger] head[i]) && (bridges ==> is_bridge(
                        head[i],
                    )) && text_member(head[i], "name"@) == Some(name) && forall|j: int|
                        0 <= j < i ==> !(is_usable(#[trigger] head[j]) && (bridges ==> is_bridge(
                            head[j],
                        )));
                assert(is_usable(networks[i]));
                assert forall|j: int| 0 <= j < i implies !(is_usable(#[trigger] networks[j]) && (
                bridges ==> is_bridge(networks[j]))) by {
                    assert(head[j] == networks[j]);
                }
            },
            None => {
                assert forall|j: int| 0 <= j < last implies !(is_usable(#[trigger] networks[j])
                    && (bridges ==> is_bridge(networks[j]))) by {
                    assert(head[j] == networks[j]);
                }
            },
        }
    }
}

/// The network that is used is a managed one with a name that is no loopback: the first
/// bridge among these, and where there is no bridge the first of them.
pub proof fn bridges_come_before_other_networks(networks: Seq<JsonView>)
    ensures
        ({
            let found = first_network(JsonView::Array(networks));
            let bridge = exists|i: int|
                0 <= i < networks.len() && is_usable(#[trigger] networks[i]) && is_bridge(
                    networks[i],
                );
            &&& found is Ok
            &&& found->Ok_0 is None <==> forall|i: int|
                0 <= i < networks.len() ==> !is_usable(#[trigger] networks[i])
            &&& found->Ok_0 is Some ==> exists|i: int|
                0 <= i < networks.len() && is_usable(#[trigger] networks[i]) && text_member(
                    networks[i],
                    "name"@,
                ) == found->Ok_0 && (bridge ==> is_bridge(networks[i])) && forall|j: int|
                    0 <= j < i ==> !(is_usable(#[trigger] networks[j]) && (bridge ==> is_bridge(
                        networks[j],
                    )))
        }),
{
    the_first_usable_network_is_found(networks, true);
    the_first_usable_network_is_found(networks, false);
}

} // verus!
