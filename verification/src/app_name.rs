//! Names of apps, of their containers, and of the containers that deploys leave.

use vstd::prelude::*;
use vstd::utf8::encode_utf8;
use crate::number::all_digits;
use crate::split::{cut_at_last, find_last, rsplit_once};
use crate::text::{
    alphanumeric, chars_of, cut_is_identity, digit, has_prefix, is_alphanumeric, is_digit,
    is_white, occurs_at, outcome, same, starts_with, strip_prefix, trim, trimmed, without_prefix,
    CharClass,
};

verus! {

/// The characters that an app name may hold.
pub open spec fn is_allowed(c: char) -> bool {
    is_alphanumeric(c) || c == '.' || c == '_' || c == '-'
}

fn allowed(c: char) -> (r: bool)
    ensures
        r == is_allowed(c),
{
    alphanumeric(c) || c == '.' || c == '_' || c == '-'
}

/// Whether a text can be the name of an app.
pub open spec fn valid_app_name(name: Seq<char>) -> bool {
    &&& name.len() > 0
    &&& name != "."@
    &&& name != ".."@
    &&& name[0] != '-'
    &&& forall|i: int| 0 <= i < name.len() ==> is_allowed(#[trigger] name[i])
}

pub open spec fn invalid_name_message(name: Seq<char>) -> Seq<char> {
    "invalid app name '"@ + name
        + "': allowed pattern is [A-Za-z0-9._-], cannot start with '-', and cannot be '.' or '..'"@
}

fn invalid_name_error(name: &str) -> (r: String)
    ensures
        r@ == invalid_name_message(name@),
{
    let mut r = String::from_str("invalid app name '");
    r.append(name);
    r.append(
        "': allowed pattern is [A-Za-z0-9._-], cannot start with '-', and cannot be '.' or '..'",
    );
    r
}

/// Accepts the text where it can be the name of an app.
pub fn validate_app_name(name: &str) -> (r: Result<(), String>)
    ensures
        outcome(r) == if valid_app_name(name@) {
            Ok::<(), Seq<char>>(())
        } else {
            Err(invalid_name_message(name@))
        },
{
    if name.is_empty() || same(name, ".") || same(name, "..") {
        return Err(invalid_name_error(name));
    }
    let chars = chars_of(name);
    if chars[0] == '-' {
        return Err(invalid_name_error(name));
    }
    let mut i: usize = 0;
    while i < chars.len()
        invariant
            chars@ == name@,
            i <= chars@.len(),
            forall|j: int| 0 <= j < i ==> is_allowed(#[trigger] name@[j]),
        decreases chars.len() - i,
    {
        if !allowed(chars[i]) {
            assert(!is_allowed(name@[i as int]));
            return Err(invalid_name_error(name));
        }
        i = i + 1;
    }
    Ok(())
}

/// The app, or the container of one of its deploys, that a container is named after.
pub open spec fn app_ref_of(instance: Seq<char>) -> Option<Seq<char>> {
    let trimmed = trim(instance);
    let app_ref = trim(
        match strip_prefix(trimmed, "psht-"@) {
            Some(rest) => rest,
            None => trimmed,
        },
    );
    if trimmed.len() == 0 || app_ref.len() == 0 {
        None
    } else {
        Some(app_ref)
    }
}

/// The name of the container of an app or of one of its deploys.
pub open spec fn instance_of(app_ref: Seq<char>) -> Seq<char> {
    if starts_with(trim(app_ref), "psht-"@) {
        trim(app_ref)
    } else {
        "psht-"@ + trim(app_ref)
    }
}

pub fn app_ref_from_instance_name(instance: &str) -> (r: Option<String>)
    ensures
        r.deep_view() == app_ref_of(instance@),
{
    let text = trimmed(instance);
    if text.is_empty() {
        return None;
    }
    let app_ref = match without_prefix(text, "psht-") {
        Some(rest) => trimmed(rest),
        None => trimmed(text),
    };
    if app_ref.is_empty() {
        return None;
    }
    Some(app_ref.to_owned())
}

pub fn instance_name_from_app_ref(app_ref: &str) -> (r: String)
    ensures
        r@ == instance_of(app_ref@),
{
    let app_ref = trimmed(app_ref);
    if has_prefix(app_ref, "psht-") {
        app_ref.to_owned()
    } else {
        let mut r = String::from_str("psht-");
        r.append(app_ref);
        r
    }
}

/// A valid name holds no white space.
pub proof fn valid_names_hold_no_white_space(name: Seq<char>)
    requires
        valid_app_name(name),
    ensures
        trim(name) == name,
        forall|i: int| 0 <= i < name.len() ==> !is_white(#[trigger] name[i]),
{
    assert(is_allowed(name[0]));
    assert(is_allowed(name.last()));
    cut_is_identity(name, CharClass::White);
    assert forall|i: int| 0 <= i < name.len() implies !is_white(#[trigger] name[i]) by {
        assert(is_allowed(name[i]));
    }
}

/// Whether a name has no white space at its ends and does not start like that of a
/// container.
pub open spec fn plain(name: Seq<char>) -> bool {
    name.len() > 0 && trim(name) == name && !starts_with(name, "psht-"@)
}

/// The container of a plain name is named after it.
pub proof fn plain_containers_are_named_after_apps(name: Seq<char>)
    requires
        plain(name),
    ensures
        app_ref_of(instance_of(name)) == Some(name),
{
    reveal_strlit("psht-");
    let prefix = "psht-"@;
    let instance = prefix + name;
    crate::text::cut_ends(name, CharClass::White);
    assert(instance[0] == 'p');
    assert(instance.last() == name.last());
    cut_is_identity(instance, CharClass::White);
    assert(instance.take(5) =~= prefix);
    assert(instance.skip(5) =~= name);
}

/// The container of an app is named after that app. A name that itself starts like
/// that of a container is its own container's.
pub proof fn containers_are_named_after_apps(name: Seq<char>)
    requires
        valid_app_name(name),
    ensures
        !starts_with(name, "psht-"@) ==> app_ref_of(instance_of(name)) == Some(name),
        starts_with(name, "psht-"@) ==> instance_of(name) == name,
{
    valid_names_hold_no_white_space(name);
    if !starts_with(name, "psht-"@) {
        plain_containers_are_named_after_apps(name);
    }
}

pub open spec fn is_number(s: Seq<char>) -> bool {
    s.len() > 0 && all_digits(s)
}

pub(crate) fn number(s: &str) -> (r: bool)
    ensures
        r == is_number(s@),
{
    let chars = chars_of(s);
    if chars.len() == 0 {
        return false;
    }
    let mut i: usize = 0;
    while i < chars.len()
        invariant
            chars@ == s@,
            i <= chars@.len(),
            forall|j: int| 0 <= j < i ==> is_digit(#[trigger] s@[j]),
        decreases chars.len() - i,
    {
        if !digit(chars[i]) {
            assert(!is_digit(s@[i as int]));
            return false;
        }
        i = i + 1;
    }
    true
}

/// Whether `app` ends in the marker and a number, after something.
pub open spec fn deploy_suffixed(app: Seq<char>, marker: Seq<char>) -> bool {
    match rsplit_once(app, marker) {
        Some((base, suffix)) => base.len() > 0 && is_number(suffix),
        None => false,
    }
}

pub fn has_deploy_suffix(app: &str, marker: &str) -> (r: bool)
    ensures
        r == deploy_suffixed(app@, marker@),
{
    match cut_at_last(app, marker) {
        Some((base, suffix)) => !base.is_empty() && number(suffix),
        None => false,
    }
}

/// Whether a name is that of a container that a deploy left: a build, a container
/// that was active before, or one that failed.
pub open spec fn transient(app: Seq<char>) -> bool {
    deploy_suffixed(app, "-build-"@) || deploy_suffixed(app, "-prev-"@) || deploy_suffixed(
        app,
        "-failed-"@,
    )
}

pub fn is_transient_deploy_app_name(app: &str) -> (r: bool)
    ensures
        r == transient(app@),
{
    has_deploy_suffix(app, "-build-") || has_deploy_suffix(app, "-prev-") || has_deploy_suffix(
        app,
        "-failed-",
    )
}

/// Whether `candidate` is the app's name, the marker and a number.
pub open spec fn numbered_after(app: Seq<char>, marker: Seq<char>, candidate: Seq<char>) -> bool {
    match strip_prefix(candidate, app + marker) {
        Some(suffix) => is_number(suffix),
        None => false,
    }
}

/// Whether a container is one that a deploy of the app left.
pub open spec fn transient_for(app: Seq<char>, candidate: Seq<char>) -> bool {
    numbered_after(app, "-build-"@, candidate) || numbered_after(app, "-prev-"@, candidate)
        || numbered_after(app, "-failed-"@, candidate)
}

fn numbered(app: &str, marker: &str, candidate: &str) -> (r: bool)
    ensures
        r == numbered_after(app@, marker@, candidate@),
{
    let mut prefix = app.to_owned();
    prefix.append(marker);
    match without_prefix(candidate, prefix.as_str()) {
        Some(suffix) => number(suffix),
        None => false,
    }
}

pub fn is_transient_deploy_app_for(app: &str, candidate: &str) -> (r: bool)
    ensures
        r == transient_for(app@, candidate@),
{
    numbered(app, "-build-", candidate) || numbered(app, "-prev-", candidate) || numbered(
        app,
        "-failed-",
        candidate,
    )
}

/// Whether a container belongs to the app or to one of its deploys.
pub open spec fn in_family(app: Seq<char>, instance: Seq<char>) -> bool {
    match app_ref_of(instance) {
        Some(app_ref) => app_ref == app || transient_for(app, app_ref),
        None => false,
    }
}

pub fn is_instance_in_app_family(app: &str, instance_name: &str) -> (r: bool)
    ensures
        r == in_family(app@, instance_name@),
{
    match app_ref_from_instance_name(instance_name) {
        Some(app_ref) => same(app_ref.as_str(), app) || is_transient_deploy_app_for(
            app,
            app_ref.as_str(),
        ),
        None => false,
    }
}

/// What stands before the last occurrence of the marker.
pub open spec fn before_last(s: Seq<char>, marker: Seq<char>) -> Seq<char> {
    match rsplit_once(s, marker) {
        Some((base, _)) => base,
        None => s,
    }
}

/// The app that a container belongs to, read off its name.
pub open spec fn family_of(app_ref: Seq<char>) -> Seq<char> {
    let app_ref = trim(app_ref);
    if deploy_suffixed(app_ref, "-build-"@) {
        before_last(app_ref, "-build-"@)
    } else if deploy_suffixed(app_ref, "-prev-"@) {
        before_last(app_ref, "-prev-"@)
    } else if deploy_suffixed(app_ref, "-failed-"@) {
        before_last(app_ref, "-failed-"@)
    } else {
        app_ref
    }
}

fn base_of(app_ref: &str, marker: &str) -> (r: Option<String>)
    ensures
        r.deep_view() == if deploy_suffixed(app_ref@, marker@) {
            Some(before_last(app_ref@, marker@))
        } else {
            None
        },
{
    match cut_at_last(app_ref, marker) {
        Some((base, suffix)) => if !base.is_empty() && number(suffix) {
            Some(base.to_owned())
        } else {
            None
        },
        None => None,
    }
}

pub fn deploy_app_family_from_app_ref(app_ref: &str) -> (r: String)
    ensures
        r@ == family_of(app_ref@),
{
    let app_ref = trimmed(app_ref);
    if let Some(base) = base_of(app_ref, "-build-") {
        return base;
    }
    if let Some(base) = base_of(app_ref, "-prev-") {
        return base;
    }
    if let Some(base) = base_of(app_ref, "-failed-") {
        return base;
    }
    app_ref.to_owned()
}

/// The app whose own container a container is.
pub open spec fn canonical_app(container: Seq<char>) -> Option<Seq<char>> {
    match strip_prefix(container, "psht-"@) {
        Some(app) => if app.len() == 0 || transient(app) {
            None
        } else {
            Some(app)
        },
        None => None,
    }
}

pub fn canonical_app_name_from_container(container_name: &str) -> (r: Option<String>)
    ensures
        r.deep_view() == canonical_app(container_name@),
{
    match without_prefix(container_name, "psht-") {
        Some(app) => if app.is_empty() || is_transient_deploy_app_name(app) {
            None
        } else {
            Some(app.to_owned())
        },
        None => None,
    }
}

/// The container that a deploy builds beside the active one.
pub open spec fn candidate_of(app: Seq<char>, deploy_id: Seq<char>) -> Seq<char> {
    app + "-build-"@ + deploy_id
}

pub fn candidate_app_name(app: &str, deploy_id: &str) -> (r: String)
    ensures
        r@ == candidate_of(app@, deploy_id@),
{
    let mut r = app.to_owned();
    r.append("-build-");
    r.append(deploy_id);
    r
}

/// The texts that tell what a deploy left: a build, a container that was active before,
/// or one that failed.
pub open spec fn is_marker(marker: Seq<char>) -> bool {
    marker == "-build-"@ || marker == "-prev-"@ || marker == "-failed-"@
}

/// The candidate of a deploy is known as one, and as one of its app.
pub proof fn candidates_belong_to_their_app(app: Seq<char>, deploy_id: Seq<char>)
    requires
        app.len() > 0,
        is_number(deploy_id),
    ensures
        transient_for(app, candidate_of(app, deploy_id)),
        transient(candidate_of(app, deploy_id)),
        trim(app) == app ==> family_of(candidate_of(app, deploy_id)) == app,
{
    leftovers_belong_to_their_app(app, "-build-"@, deploy_id);
}

/// What a deploy of an app left, whatever it is, is known as such, and as its app's.
pub proof fn leftovers_belong_to_their_app(app: Seq<char>, marker: Seq<char>, id: Seq<char>)
    requires
        app.len() > 0,
        is_marker(marker),
        is_number(id),
    ensures
        transient_for(app, app + marker + id),
        transient(app + marker + id),
        trim(app) == app ==> trim(app + marker + id) == app + marker + id && family_of(
            app + marker + id,
        ) == app,
{
    let name = app + marker + id;
    marked_names_split_at_their_marker(app, marker, id);
    assert(name.take((app.len() + marker.len()) as int) =~= app + marker);
    assert(name.skip((app.len() + marker.len()) as int) =~= id);
    if trim(app) == app {
        crate::text::cut_ends(app, CharClass::White);
        assert(name[0] == app[0]);
        assert(is_digit(id.last()));
        assert(name.last() == id.last());
        cut_is_identity(name, CharClass::White);
        if marker != "-build-"@ {
            other_markers_do_not_end_it(app, marker, id, "-build-"@);
        }
        if marker != "-prev-"@ {
            other_markers_do_not_end_it(app, marker, id, "-prev-"@);
        }
    }
}

/// A container belongs to a deploy of an app exactly where its name ends like that of
/// something that a deploy left and the app is what is read off the name.
pub proof fn families_are_read_off_names(app: Seq<char>, name: Seq<char>)
    requires
        app.len() > 0,
        trim(app) == app,
    ensures
        transient_for(app, name) <==> trim(name) == name && transient(name) && family_of(name)
            == app,
        trim(name) == name ==> (family_of(name) == app <==> transient_for(app, name) || name == app
            && !transient(name)),
{
    if transient_for(app, name) {
        let marker = if numbered_after(app, "-build-"@, name) {
            "-build-"@
        } else if numbered_after(app, "-prev-"@, name) {
            "-prev-"@
        } else {
            "-failed-"@
        };
        let n = (app.len() + marker.len()) as int;
        let id = name.skip(n);
        assert(name =~= app + marker + id) by {
            assert(name.take(n) =~= app + marker);
        }
        leftovers_belong_to_their_app(app, marker, id);
    }
    if trim(name) == name && transient(name) {
        let marker = if deploy_suffixed(name, "-build-"@) {
            "-build-"@
        } else if deploy_suffixed(name, "-prev-"@) {
            "-prev-"@
        } else {
            "-failed-"@
        };
        last_is_found(name, marker, name.len() - marker.len());
        let base = before_last(name, marker);
        let n = base.len() as int;
        assert(name.take(n + marker.len()) =~= base + marker) by {
            assert(name.subrange(n, n + marker.len()) == marker);
        }
        assert(family_of(name) == base);
    }
}

proof fn last_is_found(name: Seq<char>, marker: Seq<char>, i: int)
    requires
        i <= name.len() - marker.len(),
    ensures
        find_last(name, marker, i) matches Some(k) ==> occurs_at(name, marker, k) && k <= i,
    decreases i + 1,
{
    if i >= 0 && !occurs_at(name, marker, i) {
        last_is_found(name, marker, i - 1);
    }
}

/// Markers start and end in a dash, and differ before their ends.
proof fn markers_end_in_dashes(marker: Seq<char>, other: Seq<char>)
    requires
        is_marker(marker),
        is_marker(other),
    ensures
        marker.len() >= 6,
        other.len() >= 6,
        marker.last() == '-',
        other.last() == '-',
        marker != other ==> marker[marker.len() - 2] != other[other.len() - 2] || marker[marker.len()
            - 3] != other[other.len() - 3],
{
    reveal_strlit("-build-");
    reveal_strlit("-prev-");
    reveal_strlit("-failed-");
}

proof fn marked_names_split_at_their_marker(app: Seq<char>, marker: Seq<char>, id: Seq<char>)
    requires
        is_marker(marker),
        is_number(id),
    ensures
        rsplit_once(app + marker + id, marker) == Some((app, id)),
{
    let name = app + marker + id;
    let n = app.len() as int;
    markers_end_in_dashes(marker, marker);
    assert(name.subrange(n, n + marker.len()) =~= marker);
    assert forall|k: int| n + marker.len() <= k < name.len() implies is_digit(
        #[trigger] name[k],
    ) by {
        assert(name[k] == id[k - n - marker.len()]);
    }
    last_marker(name, marker, n, name.len() - marker.len());
    assert(name.take(n) =~= app);
    assert(name.skip((n + marker.len()) as int) =~= id);
}

proof fn last_marker(name: Seq<char>, marker: Seq<char>, n: int, i: int)
    requires
        marker.len() > 0,
        marker.last() == '-',
        n <= i <= name.len() - marker.len(),
        occurs_at(name, marker, n),
        forall|k: int| n + marker.len() <= k < name.len() ==> is_digit(#[trigger] name[k]),
    ensures
        find_last(name, marker, i) == Some(n),
    decreases i - n,
{
    if i > n {
        if occurs_at(name, marker, i) {
            let end = i + marker.len() - 1;
            assert(name.subrange(i, i + marker.len())[marker.len() - 1] == name[end]);
            assert(is_digit(name[end]));
        }
        last_marker(name, marker, n, i - 1);
    }
}

proof fn other_markers_do_not_end_it(
    app: Seq<char>,
    marker: Seq<char>,
    id: Seq<char>,
    other: Seq<char>,
)
    requires
        is_marker(marker),
        is_marker(other),
        marker != other,
        is_number(id),
    ensures
        !deploy_suffixed(app + marker + id, other),
{
    let name = app + marker + id;
    markers_end_in_dashes(marker, other);
    last_is_found(name, other, name.len() - other.len());
    let end = app.len() + marker.len() - 1;
    assert(name[end] == marker.last());
    if let Some(k) = find_last(name, other, name.len() - other.len()) {
        let rest = name.skip(k + other.len());
        let stop = k + other.len() - 1;
        let part = name.subrange(k, k + other.len());
        assert(part[other.len() - 1] == name[stop]);
        assert(part[other.len() - 2] == name[stop - 1]);
        assert(part[other.len() - 3] == name[stop - 2]);
        if is_number(rest) {
            if stop < end {
                assert(rest[end - stop - 1] == name[end]);
                assert(is_digit(rest[end - stop - 1]));
            } else if stop > end {
                assert(name[stop] == id[stop - end - 1]);
                assert(is_digit(id[stop - end - 1]));
            } else {
                assert(name[end - 1] == marker[marker.len() - 2]);
                assert(name[end - 2] == marker[marker.len() - 3]);
            }
        }
    }
}

/// The bytes of a name as the digits of a number to the base 31.
pub open spec fn base31(name: Seq<u8>) -> nat
    decreases name.len(),
{
    if name.len() == 0 {
        0
    } else {
        base31(name.drop_last()) * 31 + name.last() as nat
    }
}

/// The port on which an app is reached: one of a thousand, by the bytes of its name.
pub open spec fn port_of(name: Seq<u8>) -> nat {
    3001 + (base31(name) % 0x1_0000_0000) % 1000
}

pub fn allocate_port(app: &str) -> (port: u16)
    ensures
        port == port_of(encode_utf8(app@)),
        3001 <= port <= 4000,
{
    let bytes = app.as_bytes();
    let mut hash: u64 = 0;
    let mut i: usize = 0;
    while i < bytes.len()
        invariant
            i <= bytes@.len(),
            hash == base31(bytes@.take(i as int)) % 0x1_0000_0000,
        decreases bytes.len() - i,
    {
        proof {
            let before = base31(bytes@.take(i as int));
            assert(bytes@.take(i + 1).drop_last() =~= bytes@.take(i as int));
            step_of_hash(before as int, bytes@[i as int] as int);
        }
        hash = (hash * 31 + bytes[i] as u64) % 0x1_0000_0000;
        i = i + 1;
    }
    assert(bytes@.take(i as int) =~= bytes@);
    3001 + (hash % 1000) as u16
}

proof fn step_of_hash(before: int, byte: int)
    requires
        0 <= before,
        0 <= byte,
    ensures
        ((before % 0x1_0000_0000) * 31 + byte) % 0x1_0000_0000 == (before * 31 + byte)
            % 0x1_0000_0000,
{
    let m: int = 0x1_0000_0000;
    let q = before / m;
    let r = before % m;
    assert(before == m * q + r) by {
        vstd::arithmetic::div_mod::lemma_fundamental_div_mod(before, m);
    }
    assert(before * 31 + byte == m * (q * 31) + (r * 31 + byte)) by (nonlinear_arith)
        requires
            before == m * q + r,
    ;
    vstd::arithmetic::div_mod::lemma_mod_multiples_vanish(q * 31, r * 31 + byte, m);
}

/// A container that bears the name of an app is that of the app, unless the name is one of
/// those that come and go with deploys; any other is that of none.
pub proof fn containers_tell_their_app(app: Seq<char>, name: Seq<char>)
    ensures
        app.len() > 0 && !transient(app) ==> canonical_app("psht-"@ + app) == Some(app),
        transient(app) || app.len() == 0 ==> canonical_app("psht-"@ + app) is None,
        !starts_with(name, "psht-"@) ==> canonical_app(name) is None,
        canonical_app(name) matches Some(found) ==> name == "psht-"@ + found,
{
    let whole = "psht-"@ + app;
    let n = "psht-"@.len() as int;
    assert(whole.take(n) =~= "psht-"@);
    assert(whole.skip(n) =~= app);
    if let Some(found) = canonical_app(name) {
        assert(name =~= "psht-"@ + found);
    }
}

/// A name is valid exactly where it holds letters, digits, dots, underscores and hyphens
/// alone, does not start with a hyphen, and is neither empty nor one of the two that stand
/// for directories.
pub proof fn valid_names_are_plain(name: Seq<char>)
    ensures
        valid_app_name(name) <==> {
            &&& name.len() > 0
            &&& name != seq!['.'] && name != seq!['.', '.']
            &&& name[0] != '-'
            &&& forall|i: int|
                0 <= i < name.len() ==> {
                    ||| 'a' <= (#[trigger] name[i]) <= 'z'
                    ||| 'A' <= name[i] <= 'Z'
                    ||| '0' <= name[i] <= '9'
                    ||| name[i] == '.'
                    ||| name[i] == '_'
                    ||| name[i] == '-'
                }
        },
{
    reveal_strlit(".");
    reveal_strlit("..");
    assert("."@ =~= seq!['.']);
    assert(".."@ =~= seq!['.', '.']);
    assert forall|i: int| 0 <= i < name.len() implies is_allowed(#[trigger] name[i]) == ('a'
        <= name[i] <= 'z' || 'A' <= name[i] <= 'Z' || '0' <= name[i] <= '9' || name[i] == '.'
        || name[i] == '_' || name[i] == '-') by {}
}

} // verus!
