//! The devices of a tailnet: which one is the app's own, and which ones stand in the
//! way of its name.

use vstd::prelude::*;
use crate::order::{dedupe, first_occurrences, sort_texts, sorted};
use crate::split::{join, join_with};
use crate::tailscale::{
    conflicting_label, dns_label, either, or_unknown, tailscale_conflict_label_for_app,
    tailscale_dns_label, SnapshotView, TailscaleSelfSnapshot, OAUTH_SCOPE_HINT, OAUTH_SETTINGS_URL,
};
use crate::text::{
    contains, contains_text, eq_ignore_ascii_case, has_part, lowered, outcome, push_text, same,
    to_ascii_lowercase, trim, trimmed,
};

verus! {

/// A device of the tailnet.
pub struct TailnetDevice {
    pub id: String,
    pub hostname_label: Option<String>,
    pub dns_name: Option<String>,
    pub tags: Vec<String>,
}

/// The mathematical form of a device.
#[verifier::ext_equal]
pub struct DeviceView {
    pub id: Seq<char>,
    pub hostname_label: Option<Seq<char>>,
    pub dns_name: Option<Seq<char>>,
    pub tags: Seq<Seq<char>>,
}

impl DeepView for TailnetDevice {
    type V = DeviceView;

    open spec fn deep_view(&self) -> DeviceView {
        DeviceView {
            id: self.id@,
            hostname_label: self.hostname_label.deep_view(),
            dns_name: self.dns_name.deep_view(),
            tags: self.tags.deep_view(),
        }
    }
}

/// A device that the app is known to have made.
pub struct OwnedDevice {
    pub device_id: String,
    pub hostname_label: Option<String>,
}

impl DeepView for OwnedDevice {
    type V = (Seq<char>, Option<Seq<char>>);

    open spec fn deep_view(&self) -> (Seq<char>, Option<Seq<char>>) {
        (self.device_id@, self.hostname_label.deep_view())
    }
}

/// The label by which a device goes.
pub open spec fn device_label(device: DeviceView) -> Option<Seq<char>> {
    match device.hostname_label {
        Some(label) if trim(label).len() > 0 => Some(trim(label)),
        _ => match device.dns_name {
            Some(name) => dns_label(name),
            None => None,
        },
    }
}

pub fn tailnet_device_label(device: &TailnetDevice) -> (r: Option<String>)
    ensures
        r.deep_view() == device_label(device.deep_view()),
{
    if let Some(label) = &device.hostname_label {
        let label = trimmed(label.as_str());
        if !label.is_empty() {
            return Some(label.to_owned());
        }
    }
    match &device.dns_name {
        Some(name) => match tailscale_dns_label(name.as_str()) {
            Some(label) => Some(label.to_owned()),
            None => None,
        },
        None => None,
    }
}

// ---------------------------------------------------------------------------
// The device of an app itself
// ---------------------------------------------------------------------------

pub open spec fn is_filled(text: Option<Seq<char>>) -> bool {
    match text {
        Some(text) => trim(text).len() > 0,
        None => false,
    }
}

fn filled(text: &Option<String>) -> (r: bool)
    ensures
        r == is_filled(text.deep_view()),
{
    match text {
        Some(text) => !trimmed(text.as_str()).is_empty(),
        None => false,
    }
}

/// Whether a device says something by which it can be found in the tailnet.
pub fn has_matching_fields(snapshot: &TailscaleSelfSnapshot) -> (r: bool)
    ensures
        r == (is_filled(snapshot.deep_view().dns_name) || is_filled(
            snapshot.deep_view().hostname_label,
        )),
{
    filled(&snapshot.dns_name) || filled(&snapshot.hostname_label)
}

/// Whether both texts are there and differ at most in the case of letters.
pub open spec fn alike(a: Option<Seq<char>>, b: Option<Seq<char>>) -> bool {
    match (a, b) {
        (Some(a), Some(b)) => lowered(a) == lowered(b),
        _ => false,
    }
}

fn look_alike(a: &Option<String>, b: &Option<String>) -> (r: bool)
    ensures
        r == alike(a.deep_view(), b.deep_view()),
{
    match (a, b) {
        (Some(a), Some(b)) => eq_ignore_ascii_case(a.as_str(), b.as_str()),
        _ => false,
    }
}

/// Whether a device of the tailnet is the one that says this of itself.
pub open spec fn is_self(snapshot: SnapshotView, device: DeviceView) -> bool {
    alike(snapshot.dns_name, device.dns_name) || alike(snapshot.hostname_label, device_label(device))
}

/// The ids of the devices that are the one that says this of itself, in order, each
/// once.
pub open spec fn self_ids(snapshot: SnapshotView, devices: Seq<DeviceView>) -> Seq<Seq<char>> {
    sorted(
        first_occurrences(
            devices.filter(|device: DeviceView| is_self(snapshot, device)).map_values(
                |device: DeviceView| device.id,
            ),
        ),
    )
}

/// The device at hand, where it can be told from the others.
pub open spec fn own_device(snapshot: SnapshotView, devices: Seq<DeviceView>) -> Result<
    Option<Seq<char>>,
    Seq<char>,
> {
    let ids = self_ids(snapshot, devices);
    if ids.len() > 1 {
        Err(
            "unable to resolve tailscale self device id uniquely; matched "@ + join(ids, ", "@),
        )
    } else if ids.len() == 1 {
        Ok(Some(ids[0]))
    } else {
        Ok(None)
    }
}

/// The id of the device that says this of itself, where there is one alone.
pub fn resolve_tailscale_device_id(
    snapshot: &TailscaleSelfSnapshot,
    devices: &Vec<TailnetDevice>,
) -> (r: Result<Option<String>, String>)
    ensures
        outcome(r) == own_device(snapshot.deep_view(), devices.deep_view()),
{
    let ghost all = devices.deep_view();
    let ghost own = snapshot.deep_view();
    let ghost pick = |device: DeviceView| is_self(own, device);
    let ghost id = |device: DeviceView| device.id;
    let mut found: Vec<String> = Vec::new();
    let mut i: usize = 0;
    proof {
        reveal(Seq::filter);
        assert(all.take(0).filter(pick) =~= Seq::empty());
        assert(found.deep_view() =~= Seq::empty());
        assert(all.take(0).filter(pick).map_values(id) =~= Seq::empty());
    }
    while i < devices.len()
        invariant
            i <= devices@.len(),
            all == devices.deep_view(),
            own == snapshot.deep_view(),
            pick == (|device: DeviceView| is_self(own, device)),
            id == (|device: DeviceView| device.id),
            found.deep_view() == all.take(i as int).filter(pick).map_values(id),
        decreases devices.len() - i,
    {
        let device = &devices[i];
        proof {
            assert(all[i as int] == device.deep_view());
            assert(all.take(i + 1).drop_last() =~= all.take(i as int));
            assert(all.take(i + 1).last() == all[i as int]);
            reveal(Seq::filter);
        }
        let ghost before = all.take(i as int).filter(pick);
        let label = tailnet_device_label(device);
        if look_alike(&snapshot.dns_name, &device.dns_name) || look_alike(
            &snapshot.hostname_label,
            &label,
        ) {
            push_text(&mut found, device.id.clone());
            assert(before.push(all[i as int]).map_values(id) =~= before.map_values(id).push(
                all[i as int].id,
            ));
        }
        i = i + 1;
    }
    assert(all.take(i as int) =~= all);
    let ids = sort_texts(&dedupe(&found));
    assert(ids.deep_view() == self_ids(own, all));
    if ids.len() > 1 {
        let mut message = String::from_str(
            "unable to resolve tailscale self device id uniquely; matched ",
        );
        let listed = join_with(&ids, ", ");
        message.append(listed.as_str());
        return Err(message);
    }
    if ids.len() == 1 {
        assert(ids.deep_view()[0] == ids@[0]@);
        return Ok(Some(ids[0].clone()));
    }
    Ok(None)
}

/// What is to be done to keep track of the device of an app.
pub enum Tracking {
    /// The device has no name yet.
    Skip,
    /// The device is known by this id.
    Known(String),
    /// The id must be looked up in the tailnet.
    LookUp,
}

pub fn tracking(snapshot: &TailscaleSelfSnapshot) -> (r: Tracking)
    ensures
        match r {
            Tracking::Skip => !is_filled(snapshot.deep_view().dns_name),
            Tracking::Known(id) => is_filled(snapshot.deep_view().dns_name)
                && snapshot.deep_view().device_id == Some(id@),
            Tracking::LookUp => is_filled(snapshot.deep_view().dns_name)
                && snapshot.deep_view().device_id is None,
        },
{
    if !filled(&snapshot.dns_name) {
        return Tracking::Skip;
    }
    match &snapshot.device_id {
        Some(id) => Tracking::Known(id.clone()),
        None => Tracking::LookUp,
    }
}

pub open spec fn untracked_message(container_app: Seq<char>, snapshot: SnapshotView) -> Seq<char> {
    "tailscale self device id unavailable for "@ + container_app + " (dns: "@ + or_unknown(
        snapshot.dns_name,
    ) + ", state: "@ + snapshot.backend_state + ", online: "@ + crate::blocked::bool_text(
        snapshot.online,
    ) + ")"@
}

/// The error where the id of a device is known neither to it nor to the tailnet.
pub fn untracked_error(container_app: &str, snapshot: &TailscaleSelfSnapshot) -> (r: String)
    ensures
        r@ == untracked_message(container_app@, snapshot.deep_view()),
{
    let mut r = String::from_str("tailscale self device id unavailable for ");
    r.append(container_app);
    r.append(" (dns: ");
    match &snapshot.dns_name {
        Some(name) => r.append(name.as_str()),
        None => r.append("unknown"),
    }
    r.append(", state: ");
    r.append(snapshot.backend_state.as_str());
    r.append(", online: ");
    if snapshot.online {
        r.append("true");
    } else {
        r.append("false");
    }
    r.append(")");
    r
}

// ---------------------------------------------------------------------------
// Devices in the way of a name
// ---------------------------------------------------------------------------

/// The last device with the id.
pub open spec fn device_by_id(devices: Seq<DeviceView>, id: Seq<char>) -> Option<DeviceView>
    decreases devices.len(),
{
    if devices.len() == 0 {
        None
    } else if devices.last().id == id {
        Some(devices.last())
    } else {
        device_by_id(devices.drop_last(), id)
    }
}

fn find_device<'a>(devices: &'a Vec<TailnetDevice>, id: &str) -> (r: Option<&'a TailnetDevice>)
    ensures
        r.deep_view() == device_by_id(devices.deep_view(), id@),
{
    let ghost all = devices.deep_view();
    let mut n: usize = devices.len();
    assert(all.take(n as int) =~= all);
    while n > 0
        invariant
            n <= devices@.len(),
            all == devices.deep_view(),
            device_by_id(all, id@) == device_by_id(all.take(n as int), id@),
        decreases n,
    {
        proof {
            assert(all.take(n as int).drop_last() =~= all.take(n - 1));
            assert(all.take(n as int).last() == all[n - 1]);
            assert(all[n - 1] == devices@[n - 1].deep_view());
        }
        if same(devices[n - 1].id.as_str(), id) {
            return Some(&devices[n - 1]);
        }
        n = n - 1;
    }
    assert(all.take(0) =~= Seq::empty());
    None
}

/// Whether a device was made by an app of ours.
pub open spec fn is_tagged(device: DeviceView) -> bool {
    device.tags.contains("tag:psht"@)
}

/// Whether a device that is not known to be the app's own has the app's name.
pub open spec fn holds_name(
    device: DeviceView,
    app: Seq<char>,
    owned: Seq<(Seq<char>, Option<Seq<char>>)>,
    current: Option<Seq<char>>,
) -> bool {
    &&& is_tagged(device)
    &&& match device_label(device) {
        Some(label) => lowered(label) == lowered(app),
        None => false,
    }
    &&& !is_owned(owned, device.id)
    &&& current != Some(device.id)
}

pub open spec fn is_owned(owned: Seq<(Seq<char>, Option<Seq<char>>)>, id: Seq<char>) -> bool {
    exists|i: int| 0 <= i < owned.len() && (#[trigger] owned[i]).0 == id
}

fn owned_id(owned: &Vec<OwnedDevice>, id: &str) -> (r: bool)
    ensures
        r == is_owned(owned.deep_view(), id@),
{
    let mut i: usize = 0;
    while i < owned.len()
        invariant
            i <= owned@.len(),
            forall|j: int| 0 <= j < i ==> (#[trigger] owned.deep_view()[j]).0 != id@,
        decreases owned.len() - i,
    {
        assert(owned.deep_view()[i as int].0 == owned@[i as int].device_id@);
        if same(owned[i].device_id.as_str(), id) {
            return true;
        }
        i = i + 1;
    }
    false
}

/// A device in words: its id, and its name or else its label.
pub open spec fn device_text(device: DeviceView) -> Seq<char> {
    device.id + " ("@ + (match device.dns_name {
        Some(name) => name,
        None => match device_label(device) {
            Some(label) => label,
            None => Seq::empty(),
        },
    }) + ")"@
}

/// The entry that counts for a device: of several for one id, the last.
pub open spec fn latest(devices: Seq<DeviceView>, device: DeviceView) -> DeviceView {
    match device_by_id(devices, device.id) {
        Some(last) => last,
        None => device,
    }
}

/// The devices, in words, that have the app's name and are not known to be its own.
pub open spec fn name_holders(
    devices: Seq<DeviceView>,
    app: Seq<char>,
    owned: Seq<(Seq<char>, Option<Seq<char>>)>,
    current: Option<Seq<char>>,
) -> Seq<Seq<char>> {
    devices.map_values(|device: DeviceView| latest(devices, device)).filter(
        |device: DeviceView| holds_name(device, app, owned, current),
    ).map_values(|device: DeviceView| device_text(device))
}

/// What is done about a device that the app is known to have made.
pub enum DeviceAction {
    /// It stays.
    Keep,
    /// It is gone from the tailnet: forget it.
    Retire,
    /// It is in the way of the name: delete it and forget it.
    Delete,
}

/// What is done about a device that the app is known to have made. The device in use
/// stays. One that has the app's very name is deleted only where the device in use
/// is known.
pub open spec fn action_for(
    row: (Seq<char>, Option<Seq<char>>),
    devices: Seq<DeviceView>,
    app: Seq<char>,
    current: Option<Seq<char>>,
) -> DeviceAction {
    if current == Some(row.0) {
        DeviceAction::Keep
    } else {
        match device_by_id(devices, row.0) {
            None => DeviceAction::Retire,
            Some(device) => {
                let label = match either(device_label(device), row.1) {
                    Some(label) => label,
                    None => Seq::empty(),
                };
                if !is_tagged(device) || label.len() == 0 || !conflicting_label(label, app) || (
                current is None && lowered(label) == lowered(app)) {
                    DeviceAction::Keep
                } else {
                    DeviceAction::Delete
                }
            },
        }
    }
}

/// What is done about the devices that the app is known to have made, in their order;
/// an error where a device that is not known to be its own has its name.
pub open spec fn conflict_plan(
    app: Seq<char>,
    owned: Seq<(Seq<char>, Option<Seq<char>>)>,
    devices: Seq<DeviceView>,
    current: Option<Seq<char>>,
) -> Result<Seq<DeviceAction>, Seq<char>> {
    let holders = name_holders(devices, app, owned, current);
    if holders.len() > 0 {
        Err(
            "exact hostname '"@ + app + "' is held by untracked tailscale device(s): "@ + join(
                sorted(first_occurrences(holders)),
                ", "@,
            ),
        )
    } else {
        Ok(
            owned.map_values(
                |row: (Seq<char>, Option<Seq<char>>)| action_for(row, devices, app, current),
            ),
        )
    }
}

fn tagged(device: &TailnetDevice) -> (r: bool)
    ensures
        r == is_tagged(device.deep_view()),
{
    contains_text(&device.tags, "tag:psht")
}

fn is_current(current: Option<&str>, id: &str) -> (r: bool)
    ensures
        r == (current.deep_view() == Some(id@)),
{
    match current {
        Some(current) => same(current, id),
        None => false,
    }
}

fn device_in_words(device: &TailnetDevice) -> (r: String)
    ensures
        r@ == device_text(device.deep_view()),
{
    let mut r = device.id.clone();
    r.append(" (");
    match &device.dns_name {
        Some(name) => r.append(name.as_str()),
        None => {
            let label = match tailnet_device_label(device) {
                Some(label) => label,
                None => String::new(),
            };
            r.append(label.as_str());
        },
    }
    r.append(")");
    r
}

fn has_name(
    device: &TailnetDevice,
    app: &str,
    owned: &Vec<OwnedDevice>,
    current: Option<&str>,
) -> (r: bool)
    ensures
        r == holds_name(device.deep_view(), app@, owned.deep_view(), current.deep_view()),
{
    if !tagged(device) {
        return false;
    }
    match tailnet_device_label(device) {
        Some(label) => if !eq_ignore_ascii_case(label.as_str(), app) {
            return false;
        },
        None => {
            return false;
        },
    }
    !owned_id(owned, device.id.as_str()) && !is_current(current, device.id.as_str())
}

fn holders_of(
    devices: &Vec<TailnetDevice>,
    app: &str,
    owned: &Vec<OwnedDevice>,
    current: Option<&str>,
) -> (r: Vec<String>)
    ensures
        r.deep_view() == name_holders(
            devices.deep_view(),
            app@,
            owned.deep_view(),
            current.deep_view(),
        ),
{
    let ghost all = devices.deep_view();
    let ghost rows = owned.deep_view();
    let ghost now = current.deep_view();
    let ghost last = all.map_values(|device: DeviceView| latest(all, device));
    let ghost pick = |device: DeviceView| holds_name(device, app@, rows, now);
    let ghost show = |device: DeviceView| device_text(device);
    let mut r: Vec<String> = Vec::new();
    let mut i: usize = 0;
    proof {
        reveal(Seq::filter);
        assert(last.take(0).filter(pick) =~= Seq::empty());
        assert(r.deep_view() =~= Seq::empty());
        assert(last.take(0).filter(pick).map_values(show) =~= Seq::empty());
    }
    while i < devices.len()
        invariant
            i <= devices@.len(),
            all == devices.deep_view(),
            rows == owned.deep_view(),
            now == current.deep_view(),
            last == all.map_values(|device: DeviceView| latest(all, device)),
            pick == (|device: DeviceView| holds_name(device, app@, rows, now)),
            show == (|device: DeviceView| device_text(device)),
            r.deep_view() == last.take(i as int).filter(pick).map_values(show),
        decreases devices.len() - i,
    {
        let device = match find_device(devices, devices[i].id.as_str()) {
            Some(device) => device,
            None => &devices[i],
        };
        proof {
            assert(all[i as int] == devices@[i as int].deep_view());
            assert(last[i as int] == device.deep_view());
            assert(last.take(i + 1).drop_last() =~= last.take(i as int));
            assert(last.take(i + 1).last() == last[i as int]);
            reveal(Seq::filter);
        }
        let ghost before = last.take(i as int).filter(pick);
        if has_name(device, app, owned, current) {
            push_text(&mut r, device_in_words(device));
            assert(before.push(last[i as int]).map_values(show) =~= before.map_values(show).push(
                device_text(last[i as int]),
            ));
        }
        i = i + 1;
    }
    assert(last.take(i as int) =~= last);
    r
}

fn action_of(
    row: &OwnedDevice,
    devices: &Vec<TailnetDevice>,
    app: &str,
    current: Option<&str>,
) -> (r: DeviceAction)
    ensures
        r == action_for(row.deep_view(), devices.deep_view(), app@, current.deep_view()),
{
    if is_current(current, row.device_id.as_str()) {
        return DeviceAction::Keep;
    }
    let device = match find_device(devices, row.device_id.as_str()) {
        Some(device) => device,
        None => {
            return DeviceAction::Retire;
        },
    };
    let label = match tailnet_device_label(device) {
        Some(label) => label,
        None => match &row.hostname_label {
            Some(label) => label.clone(),
            None => String::new(),
        },
    };
    if !tagged(device) || label.as_str().is_empty() || !tailscale_conflict_label_for_app(
        label.as_str(),
        app,
    ) || (current.is_none() && eq_ignore_ascii_case(label.as_str(), app)) {
        DeviceAction::Keep
    } else {
        DeviceAction::Delete
    }
}

impl DeepView for DeviceAction {
    type V = DeviceAction;

    open spec fn deep_view(&self) -> DeviceAction {
        *self
    }
}

/// What is done about the devices that the app is known to have made.
pub fn plan_owned_tailscale_conflicts(
    app: &str,
    owned: &Vec<OwnedDevice>,
    devices: &Vec<TailnetDevice>,
    current_device_id: Option<&str>,
) -> (r: Result<Vec<DeviceAction>, String>)
    ensures
        outcome(r) == conflict_plan(
            app@,
            owned.deep_view(),
            devices.deep_view(),
            current_device_id.deep_view(),
        ),
{
    let holders = holders_of(devices, app, owned, current_device_id);
    if holders.len() > 0 {
        let mut message = String::from_str("exact hostname '");
        message.append(app);
        message.append("' is held by untracked tailscale device(s): ");
        let listed = join_with(&sort_texts(&dedupe(&holders)), ", ");
        message.append(listed.as_str());
        return Err(message);
    }
    let mut actions: Vec<DeviceAction> = Vec::new();
    let ghost rows = owned.deep_view();
    let mut i: usize = 0;
    while i < owned.len()
        invariant
            i <= owned@.len(),
            rows == owned.deep_view(),
            actions@.len() == i,
            forall|j: int|
                0 <= j < i ==> #[trigger] actions@[j] == action_for(
                    rows[j],
                    devices.deep_view(),
                    app@,
                    current_device_id.deep_view(),
                ),
        decreases owned.len() - i,
    {
        actions.push(action_of(&owned[i], devices, app, current_device_id));
        assert(rows[i as int] == owned@[i as int].deep_view());
        i = i + 1;
    }
    assert(actions.deep_view() =~= rows.map_values(
        |row: (Seq<char>, Option<Seq<char>>)|
            action_for(row, devices.deep_view(), app@, current_device_id.deep_view()),
    ));
    Ok(actions)
}

/// Whether an error says that the right to ask the tailnet is missing.
pub open spec fn permission_denied(err: Seq<char>) -> bool {
    let text = lowered(err);
    contains(text, "http 403"@) || contains(text, "not have enough permissions"@) || contains(
        text,
        "not enough permissions"@,
    ) || contains(text, "permission denied"@)
}

pub fn tailscale_api_permission_denied(err: &str) -> (r: bool)
    ensures
        r == permission_denied(err@),
{
    let text = to_ascii_lowercase(err);
    has_part(text.as_str(), "http 403") || has_part(text.as_str(), "not have enough permissions")
        || has_part(text.as_str(), "not enough permissions") || has_part(
        text.as_str(),
        "permission denied",
    )
}

/// What was found out about the rights of an OAuth credential.
pub struct TailscaleOauthPermissionCheck {
    pub token_error: Option<String>,
    pub devices_read_error: Option<String>,
    pub devices_write_error: Option<String>,
}

/// The mathematical form of such a finding.
#[verifier::ext_equal]
pub struct PermissionView {
    pub token_error: Option<Seq<char>>,
    pub devices_read_error: Option<Seq<char>>,
    pub devices_write_error: Option<Seq<char>>,
}

impl DeepView for TailscaleOauthPermissionCheck {
    type V = PermissionView;

    open spec fn deep_view(&self) -> PermissionView {
        PermissionView {
            token_error: self.token_error.deep_view(),
            devices_read_error: self.devices_read_error.deep_view(),
            devices_write_error: self.devices_write_error.deep_view(),
        }
    }
}

impl TailscaleOauthPermissionCheck {
    pub fn all_ok(&self) -> (r: bool)
        ensures
            r == (self.token_error is None && self.devices_read_error is None
                && self.devices_write_error is None),
    {
        self.token_error.is_none() && self.devices_read_error.is_none()
            && self.devices_write_error.is_none()
    }
}

/// What credentials allow, by what came of using them.
pub open spec fn permissions_of(
    token: Result<(), String>,
    devices: Result<(), String>,
    can_delete: Result<bool, String>,
) -> PermissionView {
    match token {
        Err(err) => PermissionView {
            token_error: Some("failed to acquire tailnet OAuth token: "@ + err@),
            devices_read_error: None,
            devices_write_error: None,
        },
        Ok(_) => PermissionView {
            token_error: None,
            devices_read_error: match devices {
                Ok(_) => None,
                Err(err) => Some(err@),
            },
            devices_write_error: match can_delete {
                Ok(true) => None,
                Ok(false) => Some(
                    "tailnet OAuth actor does not have permission to delete devices"@,
                ),
                Err(err) => Some(err@),
            },
        },
    }
}

/// What the answers of the tailnet say about the rights of a credential: the token,
/// the list of devices, and whether devices can be deleted.
pub fn check_tailscale_oauth_permissions(
    token: Result<(), String>,
    devices: Result<(), String>,
    can_delete: Result<bool, String>,
) -> (r: TailscaleOauthPermissionCheck)
    ensures
        r.deep_view() == permissions_of(token, devices, can_delete),
{
    if let Err(err) = token {
        let mut message = String::from_str("failed to acquire tailnet OAuth token: ");
        message.append(err.as_str());
        return TailscaleOauthPermissionCheck {
            token_error: Some(message),
            devices_read_error: None,
            devices_write_error: None,
        };
    }
    let devices_read_error = match devices {
        Ok(_) => None,
        Err(err) => Some(err),
    };
    let devices_write_error = match can_delete {
        Ok(true) => None,
        Ok(false) => Some(
            String::from_str("tailnet OAuth actor does not have permission to delete devices"),
        ),
        Err(err) => Some(err),
    };
    TailscaleOauthPermissionCheck { token_error: None, devices_read_error, devices_write_error }
}

/// A line for an error, where there is one.
pub open spec fn error_line(label: Seq<char>, err: Option<Seq<char>>) -> Seq<Seq<char>> {
    match err {
        Some(err) => seq![label + err],
        None => Seq::empty(),
    }
}

/// The lines that say what is wrong with a credential.
pub open spec fn permission_lines(check: PermissionView) -> Seq<Seq<char>> {
    let lines = error_line("OAuth token: "@, check.token_error) + error_line(
        "Devices read: "@,
        check.devices_read_error,
    ) + error_line("Devices write: "@, check.devices_write_error);
    if lines.len() == 0 {
        seq!["unknown OAuth permission validation failure"@]
    } else {
        lines
    }
}

fn push_error_line(lines: &mut Vec<String>, label: &str, err: &Option<String>)
    ensures
        final(lines).deep_view() == old(lines).deep_view() + error_line(label@, err.deep_view()),
{
    match err {
        Some(err) => {
            let mut line = label.to_owned();
            line.append(err.as_str());
            push_text(lines, line);
            assert(lines.deep_view() =~= old(lines).deep_view() + seq![line@]);
        },
        None => {
            assert(lines.deep_view() =~= old(lines).deep_view() + Seq::empty());
        },
    }
}

pub fn format_tailscale_oauth_permission_failure(check: &TailscaleOauthPermissionCheck) -> (r:
    String)
    ensures
        r@
            == "tailscale OAuth credential is missing required permissions or failed validation:\n       "@
            + join(permission_lines(check.deep_view()), "\n       "@)
            + "\n       Required OAuth scopes: "@ + OAUTH_SCOPE_HINT@ + "\n       Configure at: "@
            + OAUTH_SETTINGS_URL@,
{
    let mut lines: Vec<String> = Vec::new();
    assert(lines.deep_view() =~= Seq::empty());
    push_error_line(&mut lines, "OAuth token: ", &check.token_error);
    push_error_line(&mut lines, "Devices read: ", &check.devices_read_error);
    push_error_line(&mut lines, "Devices write: ", &check.devices_write_error);
    proof {
        let v = check.deep_view();
        assert(lines.deep_view() =~= error_line("OAuth token: "@, v.token_error) + error_line(
            "Devices read: "@,
            v.devices_read_error,
        ) + error_line("Devices write: "@, v.devices_write_error));
    }
    if lines.is_empty() {
        push_text(&mut lines, String::from_str("unknown OAuth permission validation failure"));
        assert(lines.deep_view() =~= seq!["unknown OAuth permission validation failure"@]);
    }
    let mut r = String::from_str(
        "tailscale OAuth credential is missing required permissions or failed validation:\n       ",
    );
    let listed = join_with(&lines, "\n       ");
    r.append(listed.as_str());
    r.append("\n       Required OAuth scopes: ");
    r.append(OAUTH_SCOPE_HINT);
    r.append("\n       Configure at: ");
    r.append(OAUTH_SETTINGS_URL);
    r
}

/// A device in use is never deleted or forgotten, and no device is deleted that is not
/// tagged as ours or is not in the way of the name.
pub proof fn only_devices_in_the_way_are_deleted(
    row: (Seq<char>, Option<Seq<char>>),
    devices: Seq<DeviceView>,
    app: Seq<char>,
    current: Option<Seq<char>>,
)
    ensures
        current == Some(row.0) ==> action_for(row, devices, app, current) is Keep,
        action_for(row, devices, app, current) is Delete ==> {
            &&& device_by_id(devices, row.0) is Some
            &&& is_tagged(device_by_id(devices, row.0)->0)
        },
        action_for(row, devices, app, current) is Retire ==> device_by_id(devices, row.0) is None,
{
}

proof fn devices_are_found_by_their_id(devices: Seq<DeviceView>, id: Seq<char>)
    ensures
        device_by_id(devices, id) is Some <==> exists|i: int|
            0 <= i < devices.len() && (#[trigger] devices[i]).id == id,
        device_by_id(devices, id) matches Some(device) ==> device.id == id && exists|i: int|
            0 <= i < devices.len() && #[trigger] devices[i] == device && forall|j: int|
                i < j < devices.len() ==> (#[trigger] devices[j]).id != id,
    decreases devices.len(),
{
    if devices.len() > 0 {
        let head = devices.drop_last();
        let last = devices.len() - 1;
        devices_are_found_by_their_id(head, id);
        if devices[last].id == id {
            assert(devices[last] == devices.last());
        } else {
            assert forall|i: int| 0 <= i < devices.len() && (#[trigger] devices[i]).id == id implies exists|
                k: int,
            |
                0 <= k < head.len() && (#[trigger] head[k]).id == id by {
                assert(head[i] == devices[i]);
            }
            if let Some(device) = device_by_id(head, id) {
                let i = choose|i: int|
                    0 <= i < head.len() && #[trigger] head[i] == device && forall|j: int|
                        i < j < head.len() ==> (#[trigger] head[j]).id != id;
                assert(devices[i] == device);
                assert forall|j: int| i < j < devices.len() implies (#[trigger] devices[j]).id
                    != id by {
                    if j < last {
                        assert(head[j].id != id);
                    }
                }
            }
        }
    }
}

/// A device that the app owns is forgotten exactly where it is not the current one and is
/// gone from the tailnet. It is deleted exactly where it is there, is not the current one,
/// bears the tag and stands in the way of the name; while there is no current one, the
/// device that has the very name is kept.
pub proof fn owned_devices_are_kept_unless_they_are_in_the_way(
    row: (Seq<char>, Option<Seq<char>>),
    devices: Seq<DeviceView>,
    app: Seq<char>,
    current: Option<Seq<char>>,
)
    ensures
        ({
            let action = action_for(row, devices, app, current);
            let found = device_by_id(devices, row.0);
            let label = if found is Some && device_label(found->0) is Some {
                device_label(found->0)
            } else {
                row.1
            };
            &&& action is Retire <==> current != Some(row.0) && forall|i: int|
                0 <= i < devices.len() ==> (#[trigger] devices[i]).id != row.0
            &&& action is Delete <==> {
                &&& current != Some(row.0)
                &&& found is Some
                &&& found->0.tags.contains("tag:psht"@)
                &&& label is Some && label->0.len() > 0
                &&& conflicting_label(label->0, app)
                &&& current is None ==> lowered(label->0) != lowered(app)
            }
        }),
{
    devices_are_found_by_their_id(devices, row.0);
}

/// The name of an app is refused exactly where a device that bears the tag has it and is
/// neither owned by the app nor the current one; what is refused is not decided upon, and
/// else there is a decision for each device that is owned.
pub proof fn names_of_strangers_are_left_to_them(
    app: Seq<char>,
    owned: Seq<(Seq<char>, Option<Seq<char>>)>,
    devices: Seq<DeviceView>,
    current: Option<Seq<char>>,
)
    ensures
        ({
            let plan = conflict_plan(app, owned, devices, current);
            &&& plan is Err <==> exists|i: int|
                0 <= i < devices.len() && holds_name(
                    latest(devices, #[trigger] devices[i]),
                    app,
                    owned,
                    current,
                )
            &&& plan is Ok ==> plan->Ok_0.len() == owned.len()
            &&& plan is Ok ==> forall|i: int|
                0 <= i < owned.len() ==> #[trigger] plan->Ok_0[i] == action_for(
                    owned[i],
                    devices,
                    app,
                    current,
                )
        }),
{
    let all = devices.map_values(|device: DeviceView| latest(devices, device));
    let holds = |device: DeviceView| holds_name(device, app, owned, current);
    let kept = all.filter(holds);
    if kept.len() > 0 {
        all.lemma_filter_pred(holds, 0);
        all.lemma_filter_contains_rev(holds, kept[0]);
        let i = choose|i: int| 0 <= i < all.len() && all[i] == kept[0];
        assert(holds_name(latest(devices, devices[i]), app, owned, current));
    }
    if exists|i: int|
        0 <= i < devices.len() && holds_name(
            latest(devices, #[trigger] devices[i]),
            app,
            owned,
            current,
        ) {
        let i = choose|i: int|
            0 <= i < devices.len() && holds_name(
                latest(devices, #[trigger] devices[i]),
                app,
                owned,
                current,
            );
        assert(all[i] == latest(devices, devices[i]));
        all.lemma_filter_contains(holds, i);
    }
}

/// Who holds a name: a device with the tag whose label is the name, in whatever case, that
/// is not among the owned ones and is not the current one.
pub proof fn holders_are_tagged_strangers(
    device: DeviceView,
    app: Seq<char>,
    owned: Seq<(Seq<char>, Option<Seq<char>>)>,
    current: Option<Seq<char>>,
)
    ensures
        holds_name(device, app, owned, current) <==> {
            &&& device.tags.contains("tag:psht"@)
            &&& device_label(device) is Some && lowered(device_label(device)->0) == lowered(app)
            &&& forall|i: int| 0 <= i < owned.len() ==> (#[trigger] owned[i]).0 != device.id
            &&& current is Some ==> current->0 != device.id
        },
{
}

/// A device is the one at hand where it has the same name on the tailnet or the same label,
/// in whatever case; what has neither is nobody.
pub proof fn devices_are_known_by_name_or_label(snapshot: SnapshotView, device: DeviceView)
    ensures
        is_self(snapshot, device) <==> {
            ||| snapshot.dns_name is Some && device.dns_name is Some && lowered(
                snapshot.dns_name->0,
            ) == lowered(device.dns_name->0)
            ||| snapshot.hostname_label is Some && device_label(device) is Some && lowered(
                snapshot.hostname_label->0,
            ) == lowered(device_label(device)->0)
        },
{
}

/// The label of a device is the one it has, if it says something, and else the first of its
/// name on the tailnet.
pub proof fn labels_come_before_names(device: DeviceView)
    ensures
        device.hostname_label is Some && trim(device.hostname_label->0).len() > 0 ==> device_label(
            device,
        ) == Some(trim(device.hostname_label->0)),
        device.hostname_label is None || trim(device.hostname_label->0).len() == 0
            ==> device_label(device) == if device.dns_name is Some {
            dns_label(device.dns_name->0)
        } else {
            None
        },
{
}

/// Each permission that lacks is told in a line of its own, in the order in which they are
/// asked for.
pub proof fn lacking_permissions_are_told(check: PermissionView)
    ensures
        ({
            let lines = permission_lines(check);
            let token = check.token_error is Some;
            let read = check.devices_read_error is Some;
            let write = check.devices_write_error is Some;
            &&& token ==> lines[0] == "OAuth token: "@ + check.token_error->0
            &&& !token && read ==> lines[0] == "Devices read: "@ + check.devices_read_error->0
            &&& write ==> lines.last() == "Devices write: "@ + check.devices_write_error->0
            &&& token || read || write ==> lines.len() == (if token {
                1int
            } else {
                0
            }) + (if read {
                1int
            } else {
                0
            }) + (if write {
                1int
            } else {
                0
            })
        }),
{
}

/// Credentials allow all that is needed exactly where a token was had, the devices could be
/// read and they may be deleted; what comes after a token that was not had is not judged.
pub proof fn credentials_must_allow_all(
    token: Result<(), String>,
    devices: Result<(), String>,
    can_delete: Result<bool, String>,
)
    ensures
        ({
            let check = permissions_of(token, devices, can_delete);
            &&& check.token_error is Some <==> token is Err
            &&& check.devices_read_error is Some <==> token is Ok && devices is Err
            &&& check.devices_write_error is Some <==> token is Ok && can_delete != Ok::<
                bool,
                String,
            >(true)
        }),
{
}

/// The device at hand is found where one id, and one alone, is that of a device with its
/// name or its label; where there are several it is refused, and where there is none there
/// is none.
pub proof fn the_device_at_hand_is_the_only_one(snapshot: SnapshotView, devices: Seq<DeviceView>)
    ensures
        own_device(snapshot, devices) is Err <==> exists|i: int, j: int|
            0 <= i < devices.len() && 0 <= j < devices.len() && is_self(
                snapshot,
                #[trigger] devices[i],
            ) && is_self(snapshot, #[trigger] devices[j]) && devices[i].id != devices[j].id,
        own_device(snapshot, devices) == Ok::<Option<Seq<char>>, Seq<char>>(None) <==> forall|
            i: int,
        |
            0 <= i < devices.len() ==> !is_self(snapshot, #[trigger] devices[i]),
        own_device(snapshot, devices) matches Ok(Some(id)) ==> forall|i: int|
            0 <= i < devices.len() && is_self(snapshot, #[trigger] devices[i]) ==> devices[i].id
                == id,
{
    let own = |device: DeviceView| is_self(snapshot, device);
    let id_of = |device: DeviceView| device.id;
    let kept = devices.filter(own);
    let named = kept.map_values(id_of);
    let once = first_occurrences(named);
    let ids = self_ids(snapshot, devices);
    crate::order::first_occurrences_are_unique(named);
    crate::order::text_order_is_total();
    once.lemma_sort_by_ensures(crate::order::text_order());
    assert(ids.to_multiset() == once.to_multiset());
    once.to_multiset_ensures();
    ids.to_multiset_ensures();
    assert(ids.len() == once.len());
    assert forall|x: Seq<char>| ids.contains(x) == once.contains(x) by {
        assert(ids.contains(x) <==> ids.to_multiset().count(x) > 0);
        assert(once.contains(x) <==> once.to_multiset().count(x) > 0);
    }
    assert forall|i: int|
        0 <= i < devices.len() && is_self(snapshot, #[trigger] devices[i]) implies once.contains(
        devices[i].id,
    ) by {
        devices.lemma_filter_contains(own, i);
        let k = choose|k: int| 0 <= k < kept.len() && kept[k] == devices[i];
        assert(named[k] == devices[i].id);
        assert(named.contains(devices[i].id));
    }
    assert forall|x: Seq<char>| once.contains(x) implies exists|i: int|
        0 <= i < devices.len() && is_self(snapshot, #[trigger] devices[i]) && devices[i].id
            == x by {
        assert(named.contains(x));
        let k = choose|k: int| 0 <= k < named.len() && named[k] == x;
        devices.lemma_filter_pred(own, k);
        devices.lemma_filter_contains_rev(own, kept[k]);
        let i = choose|i: int| 0 <= i < devices.len() && devices[i] == kept[k];
        assert(is_self(snapshot, devices[i]));
    }
    if once.len() > 1 {
        assert(once.contains(once[0]) && once.contains(once[1]) && once[0] != once[1]);
    }
    if once.len() == 1 {
        assert(ids.contains(ids[0]));
        assert forall|x: Seq<char>| once.contains(x) implies x == ids[0] by {
            let k = choose|k: int| 0 <= k < once.len() && once[k] == x;
            let m = choose|m: int| 0 <= m < once.len() && once[m] == ids[0];
            assert(k == m);
        }
    }
    if once.len() == 0 {
        assert forall|i: int| 0 <= i < devices.len() implies !is_self(
            snapshot,
            #[trigger] devices[i],
        ) by {
            if is_self(snapshot, devices[i]) {
                assert(once.contains(devices[i].id));
            }
        }
    } else {
        assert(once.contains(once[0]));
    }
}

} // verus!
