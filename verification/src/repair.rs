//! How the connection of an app to the tailnet is repaired, and given up.

use vstd::prelude::*;
use crate::number::{decimal, decimal_of};
use crate::split::{join, join_with};
use crate::tailnet::{DeviceView, TailnetDevice};
use crate::tailscale::{exact_hostname, tailscale_hostname_is_exact};
use crate::text::{contains_text, outcome, push_text, same};

verus! {

/// The connection that came about, and how: by the state that was kept, or by a new key.
pub open spec fn joined_by(
    join: Result<Option<String>, String>,
    word: Seq<char>,
    r: Result<(Option<String>, &'static str), String>,
) -> bool {
    match join {
        Ok(name) => r matches Ok(joined) && joined.0 == name && joined.1@ == word,
        Err(err) => r == Err::<(Option<String>, &'static str), String>(err),
    }
}

/// Joins the tailnet with the state that was kept. Only where that fails, or gives no
/// name, a new key is used.
pub fn join_tailscale_for_repair_with_fallback<
    F: FnOnce() -> Result<Option<String>, String>,
    G: FnOnce() -> Result<Option<String>, String>,
>(join_with_state: F, join_with_auth_key: G) -> (r: Result<(Option<String>, &'static str), String>)
    requires
        call_requires(join_with_state, ()),
        call_requires(join_with_auth_key, ()),
    ensures
        exists|state: Result<Option<String>, String>| #[trigger]
            call_ensures(join_with_state, (), state) && match state {
                Ok(Some(name)) => joined_by(state, "state"@, r),
                _ => exists|key: Result<Option<String>, String>| #[trigger]
                    call_ensures(join_with_auth_key, (), key) && joined_by(key, "auth_key"@, r),
            },
{
    match join_with_state() {
        Ok(Some(name)) => Ok((Some(name), "state")),
        _ => match join_with_auth_key() {
            Ok(name) => Ok((name, "auth_key")),
            Err(err) => Err(err),
        },
    }
}

/// What is said once the connection is repaired: a warning where the name is not the
/// app's own, and where the app is reached.
pub open spec fn repaired_lines(hostname: Option<Seq<char>>, app: Seq<char>, port: u16) -> Seq<
    Seq<char>,
> {
    match hostname {
        Some(name) => {
            let ready = "=====> Tailscale ready: http://"@ + name + " (also http://"@ + name
                + ":"@ + decimal(port as nat) + ")"@;
            if exact_hostname(name, app) {
                seq![ready]
            } else {
                seq![
                    "       Warning: tailscale hostname '"@ + name
                        + "' does not match requested app label '"@ + app + "'"@,
                    ready,
                ]
            }
        },
        None => seq!["=====> Tailscale repaired for "@ + app],
    }
}

pub fn tailscale_up_lines(hostname: Option<&str>, app: &str, port: u16) -> (r: Vec<String>)
    ensures
        r.deep_view() == repaired_lines(hostname.deep_view(), app@, port),
{
    let mut r: Vec<String> = Vec::new();
    match hostname {
        Some(name) => {
            let exact = tailscale_hostname_is_exact(name, app);
            if !exact {
                let mut warning = String::from_str("       Warning: tailscale hostname '");
                warning.append(name);
                warning.append("' does not match requested app label '");
                warning.append(app);
                warning.append("'");
                push_text(&mut r, warning);
            }
            let mut ready = String::from_str("=====> Tailscale ready: http://");
            ready.append(name);
            ready.append(" (also http://");
            ready.append(name);
            ready.append(":");
            let port_text = decimal_of(port as u64);
            ready.append(port_text.as_str());
            ready.append(")");
            push_text(&mut r, ready);
            assert(r.deep_view() =~= repaired_lines(hostname.deep_view(), app@, port));
        },
        None => {
            let mut line = String::from_str("=====> Tailscale repaired for ");
            line.append(app);
            push_text(&mut r, line);
            assert(r.deep_view() =~= repaired_lines(hostname.deep_view(), app@, port));
        },
    }
    r
}

// ---------------------------------------------------------------------------
// The devices of an app that is destroyed
// ---------------------------------------------------------------------------

/// The last device with the id, which must carry the tag of this tool.
pub open spec fn is_ours(devices: Seq<DeviceView>, id: Seq<char>) -> bool
    decreases devices.len(),
{
    if devices.len() == 0 {
        false
    } else if devices.last().id == id {
        devices.last().tags.contains("tag:psht"@)
    } else {
        is_ours(devices.drop_last(), id)
    }
}

fn device_is_ours(devices: &Vec<TailnetDevice>, id: &str) -> (r: bool)
    ensures
        r == is_ours(devices.deep_view(), id@),
{
    let ghost all = devices.deep_view();
    let mut n: usize = devices.len();
    assert(all.take(n as int) =~= all);
    while n > 0
        invariant
            n <= devices@.len(),
            all == devices.deep_view(),
            is_ours(all, id@) == is_ours(all.take(n as int), id@),
        decreases n,
    {
        proof {
            assert(all.take(n as int).drop_last() =~= all.take(n - 1));
            assert(all.take(n as int).last() == all[n - 1]);
            assert(all[n - 1] == devices@[n - 1].deep_view());
        }
        n = n - 1;
        if same(devices[n].id.as_str(), id) {
            return contains_text(&devices[n].tags, "tag:psht");
        }
    }
    false
}

/// The devices of an app that are deleted with it.
pub open spec fn to_delete(owned: Seq<Seq<char>>, devices: Seq<DeviceView>) -> Seq<Seq<char>> {
    owned.filter(|id: Seq<char>| is_ours(devices, id))
}

/// The devices of an app that are deleted with it: of those on record, those that the
/// tailnet knows and that carry the tag of this tool.
pub fn owned_devices_to_delete(owned: &Vec<String>, devices: &Vec<TailnetDevice>) -> (r: Vec<String>)
    ensures
        r.deep_view() == to_delete(owned.deep_view(), devices.deep_view()),
{
    let ghost all = owned.deep_view();
    let ghost known = devices.deep_view();
    let ghost pred = |id: Seq<char>| is_ours(known, id);
    let mut r: Vec<String> = Vec::new();
    let mut i: usize = 0;
    proof {
        reveal(Seq::filter);
        assert(r.deep_view() =~= all.take(0).filter(pred));
    }
    while i < owned.len()
        invariant
            i <= owned@.len(),
            all == owned.deep_view(),
            known == devices.deep_view(),
            pred == (|id: Seq<char>| is_ours(known, id)),
            r.deep_view() == all.take(i as int).filter(pred),
        decreases owned.len() - i,
    {
        proof {
            assert(all.take(i + 1).drop_last() =~= all.take(i as int));
            assert(all.take(i + 1).last() == owned@[i as int]@);
            reveal(Seq::filter);
        }
        if device_is_ours(devices, owned[i].as_str()) {
            push_text(&mut r, owned[i].clone());
        }
        i = i + 1;
    }
    assert(all.take(i as int) =~= all);
    r
}

/// A device is deleted with its app only where it is on record as the app's.
pub proof fn only_owned_devices_are_deleted(
    owned: Seq<Seq<char>>,
    devices: Seq<DeviceView>,
    i: int,
)
    requires
        0 <= i < to_delete(owned, devices).len(),
    ensures
        owned.contains(to_delete(owned, devices)[i]),
        is_ours(devices, to_delete(owned, devices)[i]),
{
    let pred = |id: Seq<char>| is_ours(devices, id);
    owned.lemma_filter_pred(pred, i);
    owned.lemma_filter_contains_rev(pred, to_delete(owned, devices)[i]);
}

/// The end of such a cleanup, by its errors.
pub fn device_cleanup_verdict(errors: &Vec<String>) -> (r: Result<(), String>)
    ensures
        outcome(r) == if errors@.len() == 0 {
            Ok::<(), Seq<char>>(())
        } else {
            Err(join(errors.deep_view(), " | "@))
        },
{
    if errors.is_empty() {
        Ok(())
    } else {
        Err(join_with(errors, " | "))
    }
}

proof fn devices_are_ours_by_their_last_entry(devices: Seq<DeviceView>, id: Seq<char>)
    ensures
        is_ours(devices, id) <==> exists|i: int|
            0 <= i < devices.len() && (#[trigger] devices[i]).id == id && devices[i].tags.contains(
                "tag:psht"@,
            ) && forall|j: int| i < j < devices.len() ==> (#[trigger] devices[j]).id != id,
    decreases devices.len(),
{
    if devices.len() > 0 {
        let head = devices.drop_last();
        let last = devices.len() - 1;
        devices_are_ours_by_their_last_entry(head, id);
        assert(devices[last] == devices.last());
        assert forall|j: int| 0 <= j < head.len() implies #[trigger] head[j] == devices[j] by {}
        if devices[last].id != id {
            if is_ours(head, id) {
                let i = choose|i: int|
                    0 <= i < head.len() && (#[trigger] head[i]).id == id && head[i].tags.contains(
                        "tag:psht"@,
                    ) && forall|j: int| i < j < head.len() ==> (#[trigger] head[j]).id != id;
                assert(devices[i].id == id);
                assert forall|j: int| i < j < devices.len() implies (#[trigger] devices[j]).id
                    != id by {
                    if j < last {
                        assert(head[j].id != id);
                    }
                }
            } else if exists|i: int|
                0 <= i < devices.len() && (#[trigger] devices[i]).id == id
                    && devices[i].tags.contains("tag:psht"@) && forall|j: int|
                    i < j < devices.len() ==> (#[trigger] devices[j]).id != id {
                let i = choose|i: int|
                    0 <= i < devices.len() && (#[trigger] devices[i]).id == id
                        && devices[i].tags.contains("tag:psht"@) && forall|j: int|
                        i < j < devices.len() ==> (#[trigger] devices[j]).id != id;
                assert(head[i].id == id);
                assert forall|j: int| i < j < head.len() implies (#[trigger] head[j]).id != id by {
                    assert(devices[j].id != id);
                }
            }
        }
    }
}

/// Of the devices that an app owns all those are deleted that the tailnet knows with the
/// tag, and no others.
pub proof fn owned_devices_with_the_tag_are_deleted(
    owned: Seq<Seq<char>>,
    devices: Seq<DeviceView>,
    id: Seq<char>,
)
    ensures
        to_delete(owned, devices).contains(id) <==> owned.contains(id) && exists|i: int|
            0 <= i < devices.len() && (#[trigger] devices[i]).id == id && devices[i].tags.contains(
                "tag:psht"@,
            ) && forall|j: int| i < j < devices.len() ==> (#[trigger] devices[j]).id != id,
{
    let ours = |id: Seq<char>| is_ours(devices, id);
    devices_are_ours_by_their_last_entry(devices, id);
    if owned.contains(id) && is_ours(devices, id) {
        let k = choose|k: int| 0 <= k < owned.len() && owned[k] == id;
        owned.lemma_filter_contains(ours, k);
    }
    if to_delete(owned, devices).contains(id) {
        let k = choose|k: int|
            0 <= k < to_delete(owned, devices).len() && to_delete(owned, devices)[k] == id;
        owned.lemma_filter_pred(ours, k);
        owned.lemma_filter_contains_rev(ours, id);
    }
}

/// A name that is not the app's is warned of, before it is said where the app is; without a
/// name it is only said that the connection was repaired.
pub proof fn names_of_others_are_warned_of(hostname: Option<Seq<char>>, app: Seq<char>, port: u16)
    ensures
        repaired_lines(hostname, app, port).len() == if hostname is Some && !exact_hostname(
            hostname->0,
            app,
        ) {
            2int
        } else {
            1
        },
        hostname is Some ==> repaired_lines(hostname, app, port).last()
            == "=====> Tailscale ready: http://"@ + hostname->0 + " (also http://"@ + hostname->0
            + ":"@ + decimal(port as nat) + ")"@,
        hostname is None ==> repaired_lines(hostname, app, port)[0]
            == "=====> Tailscale repaired for "@ + app,
{
}

} // verus!
