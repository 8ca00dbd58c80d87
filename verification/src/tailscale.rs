//! What is read off the status of tailscale, and which devices of the tailnet stand
//! in the way of an app's name.

use vstd::prelude::*;
use crate::app_name::is_number;
use crate::json::{
    bool_member, member, parse_json, parsed_json, text_items_member, text_member, Json, JsonView,
};
use crate::split::{
    before_first, head_before, join, join_with, nonblank, nonblank_of, nonempty_trimmed,
    nonempty_trimmed_of,
};
use crate::text::{
    contains, cut_end, eq_ignore_ascii_case, has_part, lowered, outcome, push_text, same,
    strip_prefix, to_ascii_lowercase, trim, trim_end_of, trimmed, without_prefix, CharClass,
};

verus! {

pub const OAUTH_SETTINGS_URL: &'static str = "https://login.tailscale.com/admin/settings/oauth";

pub const OAUTH_SCOPE_HINT: &'static str =
    "Keys: Write (tag:psht), Devices: Core Read, Devices: Core Write";

// ---------------------------------------------------------------------------
// Names
// ---------------------------------------------------------------------------

/// A DNS name without the dots that end it.
pub open spec fn without_dots(name: Seq<char>) -> Seq<char> {
    cut_end(name, CharClass::Is('.'))
}

/// The first label of a DNS name.
pub open spec fn dns_label(name: Seq<char>) -> Option<Seq<char>> {
    let label = before_first(without_dots(name), "."@);
    if label.len() == 0 {
        None
    } else {
        Some(label)
    }
}

pub fn tailscale_dns_label<'a>(dns_name: &'a str) -> (r: Option<&'a str>)
    ensures
        r.deep_view() == dns_label(dns_name@),
{
    let label = head_before(trim_end_of(dns_name, CharClass::Is('.')), ".");
    if label.is_empty() {
        None
    } else {
        Some(label)
    }
}

/// Whether a DNS name is that of the app, but for the case of letters.
pub open spec fn exact_hostname(name: Seq<char>, app: Seq<char>) -> bool {
    match dns_label(name) {
        Some(label) => lowered(label) == lowered(app),
        None => false,
    }
}

pub fn tailscale_hostname_is_exact(dns_name: &str, app: &str) -> (r: bool)
    ensures
        r == exact_hostname(dns_name@, app@),
{
    match tailscale_dns_label(dns_name) {
        Some(label) => eq_ignore_ascii_case(label, app),
        None => false,
    }
}

/// Whether a label is the app's name, or that name with a number behind it, as a
/// tailnet gives it to a device whose name is taken.
pub open spec fn conflicting_label(label: Seq<char>, app: Seq<char>) -> bool {
    lowered(label) == lowered(app) || match strip_prefix(lowered(label), lowered(app) + "-"@) {
        Some(suffix) => is_number(suffix),
        None => false,
    }
}

pub fn tailscale_conflict_label_for_app(label: &str, app: &str) -> (r: bool)
    ensures
        r == conflicting_label(label@, app@),
{
    if eq_ignore_ascii_case(label, app) {
        return true;
    }
    let mut prefix = to_ascii_lowercase(app);
    prefix.append("-");
    let lower = to_ascii_lowercase(label);
    match without_prefix(lower.as_str(), prefix.as_str()) {
        Some(suffix) => crate::app_name::number(suffix),
        None => false,
    }
}

// ---------------------------------------------------------------------------
// Status
// ---------------------------------------------------------------------------

/// A string that holds more than white space, without the white space at its ends; a
/// number in decimal notation.
pub open spec fn nonempty_text(json: JsonView) -> Option<Seq<char>> {
    match json {
        JsonView::Text(raw) => if trim(raw).len() == 0 {
            None
        } else {
            Some(trim(raw))
        },
        JsonView::Number(n) => Some(n),
        _ => None,
    }
}

pub fn value_as_nonempty_string(value: &Json) -> (r: Option<String>)
    ensures
        r.deep_view() == nonempty_text(value.deep_view()),
{
    match value {
        Json::Text(raw) => {
            let text = trimmed(raw.as_str());
            if text.is_empty() {
                None
            } else {
                Some(text.to_owned())
            }
        },
        Json::Number(n) => Some(n.notation()),
        _ => None,
    }
}

pub open spec fn nonempty_member(json: JsonView, key: Seq<char>) -> Option<Seq<char>> {
    match member(json, key) {
        Some(value) => nonempty_text(value),
        None => None,
    }
}

fn get_nonempty(json: &Json, key: &str) -> (r: Option<String>)
    ensures
        r.deep_view() == nonempty_member(json.deep_view(), key@),
{
    match json.get(key) {
        Some(value) => value_as_nonempty_string(value),
        None => None,
    }
}

/// The DNS name of the device itself.
pub open spec fn self_dns_name(status: JsonView) -> Option<Seq<char>> {
    match member(status, "Self"@) {
        Some(own) => match text_member(own, "DNSName"@) {
            Some(name) => {
                let name = trim(without_dots(trim(name)));
                if name.len() == 0 {
                    None
                } else {
                    Some(name)
                }
            },
            None => None,
        },
        None => None,
    }
}

/// The DNS name of the device itself in a status.
pub fn dns_name_in_status(status: &Json) -> (r: Option<String>)
    ensures
        r.deep_view() == self_dns_name(status.deep_view()),
{
    match status.get("Self") {
        Some(own) => match own.get_text("DNSName") {
            Some(name) => {
                let name = trimmed(trim_end_of(trimmed(name), CharClass::Is('.')));
                if name.is_empty() {
                    None
                } else {
                    Some(name.to_owned())
                }
            },
            None => None,
        },
        None => None,
    }
}

/// The DNS name of the device itself in the text of a status.
pub fn parse_tailscale_dns_name(json: &str) -> (r: Option<String>)
    ensures
        r.deep_view() == match parsed_json(json@) {
            Ok(status) => self_dns_name(status),
            Err(_) => None,
        },
{
    match parse_json(json) {
        Ok(status) => dns_name_in_status(&status),
        Err(_) => None,
    }
}

/// What a device says of itself.
#[derive(PartialEq, Eq, Debug)]
pub struct TailscaleSelfSnapshot {
    pub device_id: Option<String>,
    pub hostname_label: Option<String>,
    pub dns_name: Option<String>,
    pub backend_state: String,
    pub online: bool,
    pub health: Vec<String>,
    pub ips: Vec<String>,
}

/// The mathematical form of what a device says of itself.
#[verifier::ext_equal]
pub struct SnapshotView {
    pub device_id: Option<Seq<char>>,
    pub hostname_label: Option<Seq<char>>,
    pub dns_name: Option<Seq<char>>,
    pub backend_state: Seq<char>,
    pub online: bool,
    pub health: Seq<Seq<char>>,
    pub ips: Seq<Seq<char>>,
}

impl DeepView for TailscaleSelfSnapshot {
    type V = SnapshotView;

    open spec fn deep_view(&self) -> SnapshotView {
        SnapshotView {
            device_id: self.device_id.deep_view(),
            hostname_label: self.hostname_label.deep_view(),
            dns_name: self.dns_name.deep_view(),
            backend_state: self.backend_state@,
            online: self.online,
            health: self.health.deep_view(),
            ips: self.ips.deep_view(),
        }
    }
}

/// The first of two optional texts that is there.
pub open spec fn either(a: Option<Seq<char>>, b: Option<Seq<char>>) -> Option<Seq<char>> {
    match a {
        Some(text) => Some(text),
        None => b,
    }
}

pub open spec fn or_unknown(text: Option<Seq<char>>) -> Seq<char> {
    match text {
        Some(text) => text,
        None => "unknown"@,
    }
}

pub open spec fn or_false(b: Option<bool>) -> bool {
    match b {
        Some(b) => b,
        None => false,
    }
}

/// The name of the device itself in a status, and what goes by it.
pub open spec fn snapshot_dns(own: JsonView) -> Option<Seq<char>> {
    match nonempty_member(own, "DNSName"@) {
        Some(name) => Some(without_dots(name)),
        None => None,
    }
}

pub open spec fn snapshot_label(own: JsonView) -> Option<Seq<char>> {
    either(
        match snapshot_dns(own) {
            Some(name) => dns_label(name),
            None => None,
        },
        nonempty_member(own, "HostName"@),
    )
}

/// What a device says of itself in a status.
pub open spec fn snapshot_of(status: JsonView) -> Result<SnapshotView, Seq<char>> {
    match member(status, "Self"@) {
        None => Err("missing Self in tailscale status"@),
        Some(own) => if own is Object {
            Ok(
                SnapshotView {
                    device_id: either(
                        nonempty_member(own, "ID"@),
                        either(
                            nonempty_member(own, "NodeID"@),
                            nonempty_member(own, "StableID"@),
                        ),
                    ),
                    hostname_label: snapshot_label(own),
                    dns_name: snapshot_dns(own),
                    backend_state: or_unknown(text_member(status, "BackendState"@)),
                    online: or_false(bool_member(own, "Online"@)),
                    health: nonblank(text_items_member(status, "Health"@)),
                    ips: nonempty_trimmed(text_items_member(own, "TailscaleIPs"@)),
                },
            )
        } else {
            Err("invalid Self in tailscale status"@)
        },
    }
}

pub fn snapshot_in_status(status: &Json) -> (r: Result<TailscaleSelfSnapshot, String>)
    ensures
        outcome(r) == snapshot_of(status.deep_view()),
{
    let own = match status.get("Self") {
        Some(own) => own,
        None => {
            return Err(String::from_str("missing Self in tailscale status"));
        },
    };
    match own {
        Json::Object(_) => {},
        _ => {
            return Err(String::from_str("invalid Self in tailscale status"));
        },
    }
    let dns_name = match get_nonempty(own, "DNSName") {
        Some(name) => Some(trim_end_of(name.as_str(), CharClass::Is('.')).to_owned()),
        None => None,
    };
    let label = match &dns_name {
        Some(name) => match tailscale_dns_label(name.as_str()) {
            Some(label) => Some(label.to_owned()),
            None => None,
        },
        None => None,
    };
    let hostname_label = match label {
        Some(label) => Some(label),
        None => get_nonempty(own, "HostName"),
    };
    let device_id = match get_nonempty(own, "ID") {
        Some(id) => Some(id),
        None => match get_nonempty(own, "NodeID") {
            Some(id) => Some(id),
            None => get_nonempty(own, "StableID"),
        },
    };
    let backend_state = match status.get_text("BackendState") {
        Some(state) => state.to_owned(),
        None => String::from_str("unknown"),
    };
    let online = match own.get_bool("Online") {
        Some(online) => online,
        None => false,
    };
    let health = nonblank_of(&status.get_texts("Health"));
    let ips = nonempty_trimmed_of(&own.get_texts("TailscaleIPs"));
    Ok(
        TailscaleSelfSnapshot {
            device_id,
            hostname_label,
            dns_name,
            backend_state,
            online,
            health,
            ips,
        },
    )
}

/// The error of a status that cannot be read.
pub open spec fn unreadable(err: Seq<char>) -> Seq<char> {
    "failed to parse tailscale status: "@ + err
}

fn unreadable_status(err: &str) -> (r: String)
    ensures
        r@ == unreadable(err@),
{
    let mut r = String::from_str("failed to parse tailscale status: ");
    r.append(err);
    r
}

pub fn parse_tailscale_self_snapshot(json: &str) -> (r: Result<TailscaleSelfSnapshot, String>)
    ensures
        outcome(r) == match parsed_json(json@) {
            Ok(status) => snapshot_of(status),
            Err(err) => Err(unreadable(err)),
        },
{
    match parse_json(json) {
        Ok(status) => snapshot_in_status(&status),
        Err(err) => Err(unreadable_status(err.as_str())),
    }
}

/// Whether the device is up, and what it complains of.
pub open spec fn self_health(status: JsonView) -> (Seq<char>, bool, Seq<Seq<char>>) {
    (
        or_unknown(text_member(status, "BackendState"@)),
        match member(status, "Self"@) {
            Some(own) => or_false(bool_member(own, "Online"@)),
            None => false,
        },
        text_items_member(status, "Health"@),
    )
}

pub fn health_in_status(status: &Json) -> (r: (String, bool, Vec<String>))
    ensures
        r.deep_view() == self_health(status.deep_view()),
{
    let backend_state = match status.get_text("BackendState") {
        Some(state) => state.to_owned(),
        None => String::from_str("unknown"),
    };
    let online = match status.get("Self") {
        Some(own) => match own.get_bool("Online") {
            Some(online) => online,
            None => false,
        },
        None => false,
    };
    (backend_state, online, status.get_texts("Health"))
}

pub fn tailscale_self_health_from_json(json: &str) -> (r: Result<
    (String, bool, Vec<String>),
    String,
>)
    ensures
        outcome(r) == match parsed_json(json@) {
            Ok(status) => Ok(self_health(status)),
            Err(err) => Err(unreadable(err)),
        },
{
    match parse_json(json) {
        Ok(status) => Ok(health_in_status(&status)),
        Err(err) => Err(unreadable_status(err.as_str())),
    }
}

/// The addresses of the device in words.
pub open spec fn ips_text(own: JsonView) -> Seq<char> {
    let joined = join(nonblank(text_items_member(own, "TailscaleIPs"@)), ", "@);
    if joined.len() == 0 {
        "-"@
    } else {
        joined
    }
}

/// The lines of a summary of the connection of an app.
pub open spec fn status_lines(app: Seq<char>, status: JsonView, own: JsonView) -> Seq<Seq<char>> {
    let state = or_unknown(text_member(status, "BackendState"@));
    let online = or_false(bool_member(own, "Online"@));
    let health = text_items_member(status, "Health"@);
    let dns = match text_member(own, "DNSName"@) {
        Some(name) => without_dots(name),
        None => "unknown"@,
    };
    let fixed = seq![
        "App: "@ + app,
        "Host: "@ + or_unknown(text_member(own, "HostName"@)),
        "DNS: "@ + dns,
        "State: "@ + state,
        "Online: "@ + if online {
            "yes"@
        } else {
            "no"@
        },
        "IPs: "@ + ips_text(own),
    ];
    let ailing: Seq<Seq<char>> = if health.len() > 0 {
        seq!["Health: "@ + join(health, " | "@)]
    } else {
        Seq::empty()
    };
    let repair: Seq<Seq<char>> = if state != "Running"@ || !online || health.len() > 0 {
        seq!["Repair: psht tailscale up "@ + app]
    } else {
        Seq::empty()
    };
    fixed + ailing + repair
}

/// The status of the device of an app in words.
pub open spec fn status_summary(app: Seq<char>, status: JsonView) -> Result<Seq<char>, Seq<char>> {
    match member(status, "Self"@) {
        None => Err("missing Self in tailscale status"@),
        Some(own) => Ok(join(status_lines(app, status, own), "\n"@)),
    }
}

fn labelled(label: &str, text: &str) -> (r: String)
    ensures
        r@ == label@ + text@,
{
    let mut r = label.to_owned();
    r.append(text);
    r
}

pub fn summary_of_status(app: &str, status: &Json) -> (r: Result<String, String>)
    ensures
        outcome(r) == status_summary(app@, status.deep_view()),
{
    let own = match status.get("Self") {
        Some(own) => own,
        None => {
            return Err(String::from_str("missing Self in tailscale status"));
        },
    };
    let host = match own.get_text("HostName") {
        Some(host) => host,
        None => "unknown",
    };
    let dns = match own.get_text("DNSName") {
        Some(name) => trim_end_of(name, CharClass::Is('.')),
        None => "unknown",
    };
    let online = match own.get_bool("Online") {
        Some(online) => online,
        None => false,
    };
    let mut ips = join_with(&nonblank_of(&own.get_texts("TailscaleIPs")), ", ");
    if ips.as_str().is_empty() {
        ips = String::from_str("-");
    }
    let state = match status.get_text("BackendState") {
        Some(state) => state,
        None => "unknown",
    };
    let health = status.get_texts("Health");
    let mut lines: Vec<String> = Vec::new();
    push_text(&mut lines, labelled("App: ", app));
    push_text(&mut lines, labelled("Host: ", host));
    push_text(&mut lines, labelled("DNS: ", dns));
    push_text(&mut lines, labelled("State: ", state));
    push_text(
        &mut lines,
        labelled(
            "Online: ",
            if online {
                "yes"
            } else {
                "no"
            },
        ),
    );
    push_text(&mut lines, labelled("IPs: ", ips.as_str()));
    let ghost fixed = lines.deep_view();
    if health.len() > 0 {
        let listed = join_with(&health, " | ");
        push_text(&mut lines, labelled("Health: ", listed.as_str()));
    }
    let ghost with_health = lines.deep_view();
    if !same(state, "Running") || !online || health.len() > 0 {
        push_text(&mut lines, labelled("Repair: psht tailscale up ", app));
    }
    proof {
        let h = text_items_member(status.deep_view(), "Health"@);
        let ailing: Seq<Seq<char>> = if h.len() > 0 {
            seq!["Health: "@ + join(h, " | "@)]
        } else {
            Seq::empty()
        };
        let repair: Seq<Seq<char>> = if state@ != "Running"@ || !online || h.len() > 0 {
            seq!["Repair: psht tailscale up "@ + app@]
        } else {
            Seq::empty()
        };
        assert(with_health =~= fixed + ailing);
        assert(lines.deep_view() =~= fixed + ailing + repair);
        assert(fixed =~= seq![
            "App: "@ + app@,
            "Host: "@ + host@,
            "DNS: "@ + dns@,
            "State: "@ + state@,
            "Online: "@ + if online {
                "yes"@
            } else {
                "no"@
            },
            "IPs: "@ + ips@,
        ]);
    }
    Ok(join_with(&lines, "\n"))
}

pub fn tailscale_self_status_summary_from_json(app: &str, json: &str) -> (r: Result<String, String>)
    ensures
        outcome(r) == match parsed_json(json@) {
            Ok(status) => status_summary(app@, status),
            Err(err) => Err(unreadable(err)),
        },
{
    match parse_json(json) {
        Ok(status) => summary_of_status(app, &status),
        Err(err) => Err(unreadable_status(err.as_str())),
    }
}

/// Whether one of the texts names the right to log in over ssh.
pub open spec fn names_ssh(caps: Seq<Seq<char>>) -> bool {
    exists|i: int|
        0 <= i < caps.len() && (lowered(#[trigger] caps[i]) == lowered(
            "https://tailscale.com/cap/ssh"@,
        ) || lowered(caps[i]) == lowered("ssh"@))
}

/// Whether tailscale lets people log in over ssh, by its status.
pub open spec fn ssh_enabled(status: JsonView) -> bool {
    match member(status, "Self"@) {
        Some(own) => {
            ||| or_false(bool_member(own, "SSH"@))
            ||| match member(own, "CapMap"@) {
                Some(caps) => member(caps, "https://tailscale.com/cap/ssh"@) is Some,
                None => false,
            }
            ||| names_ssh(text_items_member(own, "Capabilities"@))
        },
        None => false,
    }
}

fn any_names_ssh(caps: &Vec<String>) -> (r: bool)
    ensures
        r == names_ssh(caps.deep_view()),
{
    let mut i: usize = 0;
    while i < caps.len()
        invariant
            i <= caps@.len(),
            forall|j: int|
                0 <= j < i ==> lowered(#[trigger] caps.deep_view()[j]) != lowered(
                    "https://tailscale.com/cap/ssh"@,
                ) && lowered(caps.deep_view()[j]) != lowered("ssh"@),
        decreases caps.len() - i,
    {
        let cap = caps[i].as_str();
        assert(cap@ == caps.deep_view()[i as int]);
        if eq_ignore_ascii_case(cap, "https://tailscale.com/cap/ssh") || eq_ignore_ascii_case(
            cap,
            "ssh",
        ) {
            return true;
        }
        i = i + 1;
    }
    false
}

pub fn ssh_enabled_in_status(status: &Json) -> (r: bool)
    ensures
        r == ssh_enabled(status.deep_view()),
{
    let own = match status.get("Self") {
        Some(own) => own,
        None => {
            return false;
        },
    };
    if let Some(true) = own.get_bool("SSH") {
        return true;
    }
    if let Some(caps) = own.get("CapMap") {
        if caps.get("https://tailscale.com/cap/ssh").is_some() {
            return true;
        }
    }
    any_names_ssh(&own.get_texts("Capabilities"))
}

pub fn tailscale_ssh_enabled_from_status_json(json: &str) -> (r: Result<bool, String>)
    ensures
        outcome(r) == match parsed_json(json@) {
            Ok(status) => Ok(ssh_enabled(status) || contains(json@, "\"SSH\":true"@)),
            Err(err) => Err(unreadable(err)),
        },
{
    match parse_json(json) {
        Ok(status) => Ok(ssh_enabled_in_status(&status) || has_part(json, "\"SSH\":true")),
        Err(err) => Err(unreadable_status(err.as_str())),
    }
}

/// A label stands in the way of an app exactly where it is the app's name, or that with a
/// hyphen and a number after it; its case does not matter.
pub proof fn numbered_names_are_in_the_way(label: Seq<char>, app: Seq<char>, number: Seq<char>)
    ensures
        lowered(label) == lowered(app) ==> conflicting_label(label, app),
        lowered(label) == lowered(app) + "-"@ + number && number.len() > 0 ==> (conflicting_label(
            label,
            app,
        ) <==> crate::number::all_digits(number)),
        conflicting_label(label, app) && lowered(label) != lowered(app) ==> exists|n: Seq<char>|
            lowered(label) == lowered(app) + "-"@ + n && crate::number::all_digits(n) && n.len()
                > 0,
{
    let start = lowered(app) + "-"@;
    if lowered(label) == start + number {
        assert((start + number).take(start.len() as int) =~= start);
        assert((start + number).skip(start.len() as int) =~= number);
        reveal_strlit("-");
        assert(lowered(label).len() > lowered(app).len());
    }
    if conflicting_label(label, app) && lowered(label) != lowered(app) {
        let n = strip_prefix(lowered(label), start)->0;
        assert(lowered(label) =~= lowered(app) + "-"@ + n);
    }
}

/// A device is known by the first of its three ids that says something, and by a label from
/// its name before its host name; what is not said is not taken to be so.
pub proof fn devices_are_read_from_their_status(status: JsonView)
    ensures
        ({
            let own = member(status, "Self"@);
            let seen = snapshot_of(status);
            let id = nonempty_member(own->0, "ID"@);
            let node = nonempty_member(own->0, "NodeID"@);
            let stable = nonempty_member(own->0, "StableID"@);
            &&& seen is Ok <==> own is Some && own->0 is Object
            &&& seen is Ok ==> {
                &&& id is Some ==> seen->Ok_0.device_id == id
                &&& id is None && node is Some ==> seen->Ok_0.device_id == node
                &&& id is None && node is None ==> seen->Ok_0.device_id == stable
                &&& seen->Ok_0.online <==> bool_member(own->0, "Online"@) == Some(true)
                &&& text_member(status, "BackendState"@) is Some ==> seen->Ok_0.backend_state
                    == text_member(status, "BackendState"@)->0
                &&& nonempty_member(own->0, "DNSName"@) is None ==> seen->Ok_0.hostname_label
                    == nonempty_member(own->0, "HostName"@)
            }
        }),
{
}

/// What is said of the health of a device goes by what it says of itself alone.
pub proof fn health_is_read_from_the_status(status: JsonView)
    ensures
        ({
            let (state, online, health) = self_health(status);
            &&& online <==> member(status, "Self"@) is Some && bool_member(
                member(status, "Self"@)->0,
                "Online"@,
            ) == Some(true)
            &&& text_member(status, "BackendState"@) is Some ==> state == text_member(
                status,
                "BackendState"@,
            )->0
            &&& text_member(status, "BackendState"@) is None ==> state == "unknown"@
            &&& health == text_items_member(status, "Health"@)
        }),
{
}

/// How to repair a connection is said last, and exactly where it does not run, is not online
/// or is not well.
pub proof fn repairs_are_suggested(app: Seq<char>, status: JsonView)
    requires
        member(status, "Self"@) is Some,
    ensures
        ({
            let own = member(status, "Self"@)->0;
            let sound = text_member(status, "BackendState"@) == Some("Running"@) && bool_member(
                own,
                "Online"@,
            ) == Some(true) && text_items_member(status, "Health"@).len() == 0;
            let told = status_summary(app, status);
            &&& told is Ok
            &&& sound ==> ("IPs: "@ + ips_text(own)).is_suffix_of(told->Ok_0)
            &&& !sound ==> ("Repair: psht tailscale up "@ + app).is_suffix_of(told->Ok_0)
        }),
{
    let own = member(status, "Self"@)->0;
    reveal_strlit("unknown");
    reveal_strlit("Running");
    assert("unknown"@[0] == 'u' && "Running"@[0] == 'R');
    let lines = status_lines(app, status, own);
    let told = join(lines, "\n"@);
    let last = lines.last();
    assert(told.skip(told.len() - last.len()) =~= last);
}

} // verus!
