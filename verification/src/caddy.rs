//! Routes of the web server that stands before the apps.

use vstd::prelude::*;
use vstd::utf8::encode_utf8;
use crate::json::{
    json_array, json_view, parse_json, parse_json_bytes, parsed_json, parsed_json_bytes,
    render_json, rendered_json, text_member, Json, JsonView,
};
use crate::number::{decimal, decimal_of, parse_up_to, parsed_up_to};
use crate::text::{
    alphanumeric, chars_of, contains, has_part, is_alphanumeric, outcome, same, trim, trimmed,
};

verus! {

pub const MAX_LABEL_BYTES: usize = 63;

pub open spec fn id_of_route(app: Seq<char>) -> Seq<char> {
    "psht-"@ + app
}

pub fn route_id(app: &str) -> (r: String)
    ensures
        r@ == id_of_route(app@),
{
    let mut r = String::from_str("psht-");
    r.append(app);
    r
}

pub fn route_hostname(app: &str, domain: &str) -> (r: String)
    ensures
        r@ == app@ + "."@ + domain@,
{
    let mut r = app.to_owned();
    r.append(".");
    r.append(domain);
    r
}

pub open spec fn in_label(c: char) -> bool {
    is_alphanumeric(c) || c == '-'
}

fn is_label(chars: &Vec<char>) -> (r: bool)
    ensures
        r == forall|i: int| 0 <= i < chars@.len() ==> in_label(#[trigger] chars@[i]),
{
    let mut i: usize = 0;
    while i < chars.len()
        invariant
            i <= chars@.len(),
            forall|j: int| 0 <= j < i ==> in_label(#[trigger] chars@[j]),
        decreases chars.len() - i,
    {
        if !(alphanumeric(chars[i]) || chars[i] == '-') {
            assert(!in_label(chars@[i as int]));
            return false;
        }
        i = i + 1;
    }
    true
}

/// Whether an app can be a label of a host name, or why not.
pub open spec fn label_verdict(app: Seq<char>) -> Result<(), Seq<char>> {
    if app.len() == 0 {
        Err("invalid app name for Caddy route host: empty"@)
    } else if encode_utf8(app).len() > MAX_LABEL_BYTES {
        Err("invalid app name for Caddy route host: '"@ + app + "' exceeds 63 characters"@)
    } else if !(forall|i: int| 0 <= i < app.len() ==> in_label(#[trigger] app[i])) {
        Err(
            "invalid app name for Caddy route host '"@ + app
                + "': only [A-Za-z0-9-] are allowed"@,
        )
    } else if !is_alphanumeric(app[0]) || !is_alphanumeric(app.last()) {
        Err(
            "invalid app name for Caddy route host '"@ + app
                + "': must start and end with [A-Za-z0-9]"@,
        )
    } else {
        Ok(())
    }
}

pub fn validate_route_app_label(app: &str) -> (r: Result<(), String>)
    ensures
        outcome(r) == label_verdict(app@),
{
    let chars = chars_of(app);
    if chars.len() == 0 {
        return Err(String::from_str("invalid app name for Caddy route host: empty"));
    }
    if app.as_bytes().len() > MAX_LABEL_BYTES {
        let mut message = String::from_str("invalid app name for Caddy route host: '");
        message.append(app);
        message.append("' exceeds 63 characters");
        return Err(message);
    }
    if !is_label(&chars) {
        let mut message = String::from_str("invalid app name for Caddy route host '");
        message.append(app);
        message.append("': only [A-Za-z0-9-] are allowed");
        return Err(message);
    }
    if !alphanumeric(chars[0]) || !alphanumeric(chars[chars.len() - 1]) {
        let mut message = String::from_str("invalid app name for Caddy route host '");
        message.append(app);
        message.append("': must start and end with [A-Za-z0-9]");
        return Err(message);
    }
    Ok(())
}

/// The route that leads from an app's host name to the app, as JSON.
pub open spec fn route_text(app: Seq<char>, domain: Seq<char>, port: u16) -> Seq<char> {
    "{\"@id\":\""@ + id_of_route(app) + "\",\"match\":[{\"host\":[\""@ + (app + "."@ + domain)
        + "\"]}],\"handle\":[{\"handler\":\"reverse_proxy\",\"upstreams\":[{\"dial\":\""@ + app
        + ":"@ + decimal(port as nat) + "\"}]}]}"@
}

pub fn route_json(app: &str, domain: &str, port: u16) -> (r: String)
    ensures
        r@ == route_text(app@, domain@, port),
{
    let id = route_id(app);
    let host = route_hostname(app, domain);
    let port = decimal_of(port as u64);
    let mut r = String::from_str("{\"@id\":\"");
    r.append(id.as_str());
    r.append("\",\"match\":[{\"host\":[\"");
    r.append(host.as_str());
    r.append("\"]}],\"handle\":[{\"handler\":\"reverse_proxy\",\"upstreams\":[{\"dial\":\"");
    r.append(app);
    r.append(":");
    r.append(port.as_str());
    r.append("\"}]}]}");
    r
}

pub open spec fn address_of_routes(api_url: Seq<char>) -> Seq<char> {
    api_url + "/config/apps/http/servers/srv0/routes"@
}

pub fn routes_url(api_url: &str) -> (r: String)
    ensures
        r@ == address_of_routes(api_url@),
{
    let mut r = api_url.to_owned();
    r.append("/config/apps/http/servers/srv0/routes");
    r
}

/// The address of the web server's interface and the domain of the apps, where they are
/// set.
pub open spec fn configured(api_url: Option<Seq<char>>, domain: Option<Seq<char>>) -> Result<
    Option<(Seq<char>, Seq<char>)>,
    Seq<char>,
> {
    match api_url {
        None => Ok(None),
        Some(url) => match domain {
            Some(domain) => Ok(Some((url, domain))),
            None => Err("CADDY_API_URL is set but CADDY_DOMAIN is missing"@),
        },
    }
}

pub fn config_from_values(api_url: Option<&str>, domain: Option<&str>) -> (r: Result<
    Option<(String, String)>,
    String,
>)
    ensures
        outcome(r) == configured(api_url.deep_view(), domain.deep_view()),
{
    match api_url {
        None => Ok(None),
        Some(url) => match domain {
            Some(domain) => Ok(Some((url.to_owned(), domain.to_owned()))),
            None => Err(String::from_str("CADDY_API_URL is set but CADDY_DOMAIN is missing")),
        },
    }
}

pub fn remove_config_from_values(api_url: Option<&str>) -> (r: Option<String>)
    ensures
        r.deep_view() == api_url.deep_view(),
{
    match api_url {
        Some(url) => Some(url.to_owned()),
        None => None,
    }
}

// ---------------------------------------------------------------------------
// The routes that are there
// ---------------------------------------------------------------------------

/// Routes with their indices, and one more: it comes after those of its index and of
/// lower ones.
pub open spec fn placed(routes: Seq<(nat, JsonView)>, at: nat, route: JsonView) -> Seq<
    (nat, JsonView),
>
    decreases routes.len(),
{
    if routes.len() == 0 || routes.last().0 <= at {
        routes.push((at, route))
    } else {
        placed(routes.drop_last(), at, route).push(routes.last())
    }
}

pub open spec fn bad_key_message(key: Seq<char>) -> Seq<char> {
    "unexpected caddy routes object key: "@ + key + " (expected array index)"@
}

/// The members of an object whose keys are indices, in the order of the indices.
pub open spec fn by_index(members: Seq<(Seq<char>, JsonView)>) -> Result<
    Seq<(nat, JsonView)>,
    Seq<char>,
>
    decreases members.len(),
{
    if members.len() == 0 {
        Ok(Seq::empty())
    } else {
        match by_index(members.drop_last()) {
            Err(err) => Err(err),
            Ok(routes) => match parsed_up_to(members.last().0, usize::MAX as nat) {
                Some(at) => Ok(placed(routes, at, members.last().1)),
                None => Err(bad_key_message(members.last().0)),
            },
        }
    }
}

/// The routes that an answer holds.
pub open spec fn routes_in(value: JsonView) -> Result<Seq<JsonView>, Seq<char>> {
    match value {
        JsonView::Array(routes) => Ok(routes),
        JsonView::Null => Ok(Seq::empty()),
        JsonView::Object(members) => match by_index(members) {
            Ok(routes) => Ok(routes.map_values(|route: (nat, JsonView)| route.1)),
            Err(err) => Err(err),
        },
        _ => Err("unexpected caddy routes response: expected JSON array-like value"@),
    }
}

proof fn bad_keys_stay(members: Seq<(Seq<char>, JsonView)>, k: int)
    requires
        0 <= k <= members.len(),
        by_index(members.take(k)) is Err,
    ensures
        by_index(members) == by_index(members.take(k)),
    decreases members.len() - k,
{
    if k < members.len() {
        assert(members.take(k + 1).drop_last() =~= members.take(k));
        bad_keys_stay(members, k + 1);
    } else {
        assert(members.take(k) =~= members);
    }
}

pub open spec fn index_views(list: Seq<(u64, Json)>) -> Seq<(nat, JsonView)> {
    list.map_values(|route: (u64, Json)| (route.0 as nat, json_view(route.1)))
}

proof fn placing_splits(routes: Seq<(nat, JsonView)>, at: nat, route: JsonView, k: int)
    requires
        0 <= k <= routes.len(),
        k > 0 ==> routes[k - 1].0 <= at,
        forall|j: int| k <= j < routes.len() ==> (#[trigger] routes[j]).0 > at,
    ensures
        placed(routes, at, route) == routes.insert(k, (at, route)),
    decreases routes.len(),
{
    if k < routes.len() {
        placing_splits(routes.drop_last(), at, route, k);
        assert(routes.drop_last().insert(k, (at, route)).push(routes.last()) =~= routes.insert(
            k,
            (at, route),
        ));
    } else {
        assert(routes.push((at, route)) =~= routes.insert(k, (at, route)));
    }
}

fn place(list: &mut Vec<(u64, Json)>, at: u64, route: Json)
    ensures
        index_views(final(list)@) == placed(
            index_views(old(list)@),
            at as nat,
            route.deep_view(),
        ),
{
    let ghost before = index_views(list@);
    let mut k: usize = list.len();
    while k > 0 && list[k - 1].0 > at
        invariant
            k <= list@.len(),
            list == old(list),
            before == index_views(list@),
            forall|j: int| k <= j < before.len() ==> (#[trigger] before[j]).0 > at,
        decreases k,
    {
        assert(before[k - 1].0 == list@[k - 1].0);
        k = k - 1;
    }
    proof {
        if k > 0 {
            assert(before[k - 1].0 == list@[k - 1].0);
        }
        placing_splits(before, at as nat, route.deep_view(), k as int);
    }
    list.insert(k, (at, route));
    assert(index_views(list@) =~= before.insert(k as int, (at as nat, route.deep_view())));
}

fn values_of(indexed: Vec<(u64, Json)>) -> (r: Vec<Json>)
    ensures
        r.deep_view() == index_views(indexed@).map_values(|route: (nat, JsonView)| route.1),
{
    let mut left = indexed;
    let mut r: Vec<Json> = Vec::new();
    let ghost all = index_views(indexed@);
    while left.len() > 0
        invariant
            all == index_views(indexed@),
            left@ == indexed@.skip(r@.len() as int),
            r@.len() + left@.len() == indexed@.len(),
            forall|j: int| 0 <= j < r@.len() ==> json_view(#[trigger] r@[j]) == all[j].1,
        decreases left.len(),
    {
        let ghost k = r@.len() as int;
        let (_, route) = left.remove(0);
        assert(all[k].1 == json_view(indexed@[k].1));
        assert(left@ =~= indexed@.skip(k + 1));
        r.push(route);
    }
    assert(r.deep_view() =~= all.map_values(|route: (nat, JsonView)| route.1));
    r
}

fn routes_by_index(members: Vec<(String, Json)>) -> (r: Result<Vec<Json>, String>)
    ensures
        match by_index(members.deep_view()) {
            Ok(routes) => r is Ok && r->Ok_0.deep_view() == routes.map_values(
                |route: (nat, JsonView)| route.1,
            ),
            Err(err) => r matches Err(message) && message@ == err,
        },
{
    let mut left = members;
    let mut indexed: Vec<(u64, Json)> = Vec::new();
    let ghost all = members.deep_view();
    let ghost mut k: int = 0;
    proof {
        assert(all.take(0) =~= Seq::empty());
        assert(index_views(indexed@) =~= Seq::empty());
        assert(left@ =~= members@.skip(0));
    }
    while left.len() > 0
        invariant
            all == members.deep_view(),
            0 <= k <= members@.len(),
            left@ == members@.skip(k),
            by_index(all.take(k)) == Ok::<Seq<(nat, JsonView)>, Seq<char>>(
                index_views(indexed@),
            ),
        decreases left.len(),
    {
        let (key, route) = left.remove(0);
        proof {
            assert(all[k] == (key@, route.deep_view()));
            assert(all.take(k + 1).drop_last() =~= all.take(k));
            assert(all.take(k + 1).last() == all[k]);
            assert(left@ =~= members@.skip(k + 1));
        }
        match parse_up_to(key.as_str(), usize::MAX as u64) {
            Some(at) => {
                place(&mut indexed, at, route);
            },
            None => {
                proof {
                    bad_keys_stay(all, k + 1);
                }
                let mut message = String::from_str("unexpected caddy routes object key: ");
                message.append(key.as_str());
                message.append(" (expected array index)");
                return Err(message);
            },
        }
        proof {
            k = k + 1;
        }
    }
    assert(all.take(k) =~= all);
    Ok(values_of(indexed))
}

/// The routes that an answer holds.
pub fn routes_of(value: Json) -> (r: Result<Vec<Json>, String>)
    ensures
        outcome(r) == routes_in(value.deep_view()),
{
    match value {
        Json::Array(routes) => {
            assert(value.deep_view()->Array_0 =~= routes.deep_view());
            Ok(routes)
        },
        Json::Null => {
            let r: Vec<Json> = Vec::new();
            assert(r.deep_view() =~= Seq::empty());
            Ok(r)
        },
        Json::Object(members) => {
            assert(value.deep_view()->Object_0 =~= members.deep_view());
            routes_by_index(members)
        },
        _ => Err(
            String::from_str("unexpected caddy routes response: expected JSON array-like value"),
        ),
    }
}

proof fn placing_keeps(routes: Seq<(nat, JsonView)>, at: nat, route: JsonView)
    requires
        forall|i: int, j: int| 0 <= i < j < routes.len() ==> routes[i].0 <= routes[j].0,
    ensures
        placed(routes, at, route).to_multiset() == routes.to_multiset().insert((at, route)),
        forall|i: int, j: int|
            0 <= i < j < placed(routes, at, route).len() ==> placed(routes, at, route)[i].0
                <= placed(routes, at, route)[j].0,
        placed(routes, at, route).len() == routes.len() + 1,
        placed(routes, at, route).last().0 == if routes.len() > 0 && routes.last().0 > at {
            routes.last().0
        } else {
            at
        },
    decreases routes.len(),
{
    broadcast use vstd::seq_lib::group_to_multiset_ensures;

    if routes.len() > 0 && routes.last().0 > at {
        let head = routes.drop_last();
        placing_keeps(head, at, route);
        assert(routes =~= head.push(routes.last()));
        assert(placed(routes, at, route).to_multiset() =~= routes.to_multiset().insert(
            (at, route),
        ));
    }
}

/// Where the routes come as an object, each of its members is one of them, and they
/// stand in the order of the indices that are their keys.
pub proof fn indexed_routes_are_in_order(members: Seq<(Seq<char>, JsonView)>)
    ensures
        by_index(members) matches Ok(routes) ==> {
            &&& forall|i: int, j: int|
                0 <= i < j < routes.len() ==> routes[i].0 <= routes[j].0
            &&& routes.to_multiset() == members.map_values(
                |m: (Seq<char>, JsonView)|
                    (parsed_up_to(m.0, usize::MAX as nat).unwrap_or(0), m.1),
            ).to_multiset()
        },
    decreases members.len(),
{
    broadcast use vstd::seq_lib::group_to_multiset_ensures;

    let f = |m: (Seq<char>, JsonView)|
        (parsed_up_to(m.0, usize::MAX as nat).unwrap_or(0), m.1);
    if members.len() > 0 {
        let head = members.drop_last();
        indexed_routes_are_in_order(head);
        if by_index(members) is Ok {
            let at = parsed_up_to(members.last().0, usize::MAX as nat)->0;
            placing_keeps(by_index(head)->Ok_0, at, members.last().1);
            assert(members.map_values(f) =~= head.map_values(f).push((at, members.last().1)));
        }
    } else {
        assert(members.map_values(f) =~= Seq::empty());
    }
}

/// What the web server's answer to the question for its routes comes down to: none where
/// it knows of no routes, or why it did not answer.
pub open spec fn answer_of(success: bool, stderr: Seq<char>, stdout: Seq<u8>) -> Result<
    Seq<JsonView>,
    Seq<char>,
> {
    if !success {
        if contains(stderr, "404"@) {
            Ok(Seq::empty())
        } else {
            Err("failed to fetch caddy routes: "@ + trim(stderr))
        }
    } else if stdout.len() == 0 {
        Ok(Seq::empty())
    } else {
        match parsed_json_bytes(stdout) {
            Ok(value) => routes_in(value),
            Err(err) => Err("failed to parse caddy routes response: "@ + err),
        }
    }
}

pub fn fetch_routes(success: bool, stderr: &str, stdout: &[u8]) -> (r: Result<Vec<Json>, String>)
    ensures
        outcome(r) == answer_of(success, stderr@, stdout@),
{
    let none: Vec<Json> = Vec::new();
    assert(none.deep_view() =~= Seq::empty());
    if !success {
        if has_part(stderr, "404") {
            return Ok(none);
        }
        let mut message = String::from_str("failed to fetch caddy routes: ");
        message.append(trimmed(stderr));
        return Err(message);
    }
    if stdout.len() == 0 {
        return Ok(none);
    }
    match parse_json_bytes(stdout) {
        Ok(value) => routes_of(value),
        Err(err) => {
            let mut message = String::from_str("failed to parse caddy routes response: ");
            message.append(err.as_str());
            Err(message)
        },
    }
}

// ---------------------------------------------------------------------------
// A route more, or one less
// ---------------------------------------------------------------------------

/// Whether a route has another id.
pub open spec fn other_route(id: Seq<char>) -> spec_fn(JsonView) -> bool {
    |route: JsonView| text_member(route, "@id"@) != Some(id)
}

/// The routes with one more, which stands first and takes the place of the one with its
/// id.
pub open spec fn upserted(routes: Seq<JsonView>, route: JsonView, id: Seq<char>) -> Seq<JsonView> {
    seq![route] + routes.filter(other_route(id))
}

pub fn upsert_route_list(routes: Vec<Json>, route: Json, id: &str) -> (r: Vec<Json>)
    ensures
        r.deep_view() == upserted(routes.deep_view(), route.deep_view(), id@),
{
    let ghost all = routes.deep_view();
    let ghost first = route.deep_view();
    let mut left = routes;
    let mut r: Vec<Json> = Vec::new();
    r.push(route);
    let ghost mut k: int = 0;
    proof {
        reveal(Seq::filter);
        assert(left@ =~= routes@.skip(0));
        assert(all.take(0).filter(other_route(id@)) =~= Seq::empty());
        assert(r.deep_view() =~= seq![first] + all.take(0).filter(other_route(id@)));
    }
    while left.len() > 0
        invariant
            all == routes.deep_view(),
            0 <= k <= routes@.len(),
            left@ == routes@.skip(k),
            r.deep_view() == seq![first] + all.take(k).filter(other_route(id@)),
        decreases left.len(),
    {
        let existing = left.remove(0);
        let ghost kept = r.deep_view();
        proof {
            assert(all[k] == existing.deep_view());
            assert(all.take(k + 1).drop_last() =~= all.take(k));
            assert(all.take(k + 1).last() == all[k]);
            assert(left@ =~= routes@.skip(k + 1));
            reveal(Seq::filter);
        }
        let is_same = match existing.get_text("@id") {
            Some(other) => same(other, id),
            None => false,
        };
        if !is_same {
            r.push(existing);
            assert(r.deep_view() =~= kept.push(all[k]));
            assert(r.deep_view() =~= seq![first] + all.take(k).filter(other_route(id@)).push(
                all[k],
            ));
        }
        proof {
            k = k + 1;
        }
    }
    assert(all.take(k) =~= all);
    r
}

/// A route that is put in stands first, no other has its id, and the others that were
/// there stay; to put it in again changes nothing.
pub proof fn routes_are_replaced(routes: Seq<JsonView>, route: JsonView, id: Seq<char>)
    requires
        text_member(route, "@id"@) == Some(id),
    ensures
        upserted(routes, route, id)[0] == route,
        forall|i: int|
            1 <= i < upserted(routes, route, id).len() ==> text_member(
                #[trigger] upserted(routes, route, id)[i],
                "@id"@,
            ) != Some(id),
        forall|other: JsonView|
            text_member(other, "@id"@) != Some(id) && #[trigger] routes.contains(other)
                ==> upserted(routes, route, id).contains(other),
        upserted(upserted(routes, route, id), route, id) == upserted(routes, route, id),
{
    let others = routes.filter(other_route(id));
    let after = upserted(routes, route, id);
    assert forall|i: int| 1 <= i < after.len() implies text_member(
        #[trigger] after[i],
        "@id"@,
    ) != Some(id) by {
        routes.lemma_filter_pred(other_route(id), i - 1);
        assert(after[i] == others[i - 1]);
    }
    assert forall|other: JsonView|
        text_member(other, "@id"@) != Some(id) && #[trigger] routes.contains(
            other,
        ) implies after.contains(other) by {
        let i = routes.index_of(other);
        routes.lemma_filter_contains(other_route(id), i);
        let j = others.index_of(other);
        assert(after[j + 1] == other);
    }
    all_others_stay(others, id);
    assert forall|i: int| 0 <= i < others.len() implies other_route(id)(#[trigger] others[i]) by {
        routes.lemma_filter_pred(other_route(id), i);
    }
    first_falls(others, route, id);
    assert(upserted(after, route, id) =~= after);
}

proof fn all_others_stay(others: Seq<JsonView>, id: Seq<char>)
    ensures
        (forall|i: int| 0 <= i < others.len() ==> other_route(id)(#[trigger] others[i]))
            ==> others.filter(other_route(id)) == others,
    decreases others.len(),
{
    reveal(Seq::filter);
    if others.len() > 0 {
        all_others_stay(others.drop_last(), id);
        if forall|i: int| 0 <= i < others.len() ==> other_route(id)(#[trigger] others[i]) {
            assert forall|i: int| 0 <= i < others.drop_last().len() implies other_route(id)(
                #[trigger] others.drop_last()[i],
            ) by {
                assert(others.drop_last()[i] == others[i]);
            }
            assert(other_route(id)(others[others.len() - 1]));
            assert(others.drop_last().push(others.last()) =~= others);
        }
    } else {
        assert(others.filter(other_route(id)) =~= others);
    }
}

proof fn first_falls(others: Seq<JsonView>, route: JsonView, id: Seq<char>)
    requires
        text_member(route, "@id"@) == Some(id),
    ensures
        (seq![route] + others).filter(other_route(id)) == others.filter(other_route(id)),
    decreases others.len(),
{
    reveal(Seq::filter);
    let whole = seq![route] + others;
    if others.len() > 0 {
        first_falls(others.drop_last(), route, id);
        assert(whole.drop_last() =~= seq![route] + others.drop_last());
        assert(whole.last() == others.last());
    } else {
        assert(whole.drop_last() =~= Seq::empty());
        assert(whole.last() == route);
        assert(whole.drop_last().filter(other_route(id)) =~= Seq::empty());
    }
}

/// A route to put in, and where.
pub struct RouteRequest {
    pub app: String,
    pub domain: String,
    /// The address of the routes.
    pub url: String,
    pub route: Json,
}

/// The mathematical form of this.
#[verifier::ext_equal]
pub struct RequestView {
    pub app: Seq<char>,
    pub domain: Seq<char>,
    pub url: Seq<char>,
    pub route: JsonView,
}

impl DeepView for RouteRequest {
    type V = RequestView;

    open spec fn deep_view(&self) -> RequestView {
        RequestView {
            app: self.app@,
            domain: self.domain@,
            url: self.url@,
            route: self.route.deep_view(),
        }
    }
}

pub open spec fn route_request(
    app: Seq<char>,
    port: u16,
    api_url: Option<Seq<char>>,
    domain: Option<Seq<char>>,
) -> Result<Option<RequestView>, Seq<char>> {
    match configured(api_url, domain) {
        Err(err) => Err(err),
        Ok(None) => Ok(None),
        Ok(Some((api_url, domain))) => match label_verdict(app) {
            Err(err) => Err(err),
            Ok(_) => match parsed_json(route_text(app, domain, port)) {
                Ok(route) => Ok(
                    Some(RequestView { app, domain, url: address_of_routes(api_url), route }),
                ),
                Err(err) => Err("failed to encode caddy route payload: "@ + err),
            },
        },
    }
}

/// The route to put in for an app, where there is a web server to put it in.
pub fn add(app: &str, port: u16, api_url: Option<&str>, domain: Option<&str>) -> (r: Result<
    Option<RouteRequest>,
    String,
>)
    ensures
        outcome(r) == route_request(app@, port, api_url.deep_view(), domain.deep_view()),
{
    let (api_url, domain) = match config_from_values(api_url, domain) {
        Err(err) => {
            return Err(err);
        },
        Ok(None) => {
            return Ok(None);
        },
        Ok(Some(cfg)) => cfg,
    };
    if let Err(err) = validate_route_app_label(app) {
        return Err(err);
    }
    let text = route_json(app, domain.as_str(), port);
    match parse_json(text.as_str()) {
        Ok(route) => Ok(
            Some(
                RouteRequest {
                    app: app.to_owned(),
                    domain,
                    url: routes_url(api_url.as_str()),
                    route,
                },
            ),
        ),
        Err(err) => {
            let mut message = String::from_str("failed to encode caddy route payload: ");
            message.append(err.as_str());
            Err(message)
        },
    }
}

/// The words after `curl` that ask for the routes.
pub fn fetch_args(url: &str) -> (r: Vec<String>)
    ensures
        r.deep_view() == seq!["-sf"@, url@],
{
    let r = vec![String::from_str("-sf"), url.to_owned()];
    assert(r.deep_view() =~= seq!["-sf"@, url@]);
    r
}

/// The routes to send, as JSON: those that are there, with the one of the request.
pub fn routes_body(request: RouteRequest, routes: Vec<Json>) -> (r: String)
    ensures
        r@ == rendered_json(
            JsonView::Array(
                upserted(
                    routes.deep_view(),
                    request.route.deep_view(),
                    id_of_route(request.app@),
                ),
            ),
        ),
{
    let id = route_id(request.app.as_str());
    let after = upsert_route_list(routes, request.route, id.as_str());
    render_json(&json_array(after))
}

/// The words after `curl` that send the routes.
pub fn post_args(body: &str, url: &str) -> (r: Vec<String>)
    ensures
        r.deep_view() == seq![
            "-sf"@,
            "-X"@,
            "POST"@,
            "-H"@,
            "Content-Type: application/json"@,
            "-d"@,
            body@,
            url@,
        ],
{
    let r = vec![
        String::from_str("-sf"),
        String::from_str("-X"),
        String::from_str("POST"),
        String::from_str("-H"),
        String::from_str("Content-Type: application/json"),
        String::from_str("-d"),
        body.to_owned(),
        url.to_owned(),
    ];
    assert(r.deep_view() =~= seq![
        "-sf"@,
        "-X"@,
        "POST"@,
        "-H"@,
        "Content-Type: application/json"@,
        "-d"@,
        body@,
        url@,
    ]);
    r
}

/// Whether the route was put in, or why not.
pub fn added(app: &str, success: bool, stderr: &str) -> (r: Result<(), String>)
    ensures
        outcome(r) == if success {
            Ok::<(), Seq<char>>(())
        } else {
            Err("failed to add caddy route for "@ + app@ + ": "@ + trim(stderr@))
        },
{
    if success {
        return Ok(());
    }
    let mut message = String::from_str("failed to add caddy route for ");
    message.append(app);
    message.append(": ");
    message.append(trimmed(stderr));
    Err(message)
}

/// The words after `curl` that take the route of an app out, where there is a web server.
pub fn remove(app: &str, api_url: Option<&str>) -> (r: Option<Vec<String>>)
    ensures
        r.deep_view() == match api_url {
            Some(api_url) => Some(
                seq!["-sf"@, "-X"@, "DELETE"@, api_url@ + "/id/"@ + id_of_route(app@)],
            ),
            None => None,
        },
{
    match remove_config_from_values(api_url) {
        Some(api_url) => {
            let id = route_id(app);
            let mut url = api_url;
            url.append("/id/");
            url.append(id.as_str());
            let ghost address = url@;
            let r = vec![
                String::from_str("-sf"),
                String::from_str("-X"),
                String::from_str("DELETE"),
                url,
            ];
            assert(r.deep_view() =~= seq!["-sf"@, "-X"@, "DELETE"@, address]);
            Some(r)
        },
        None => None,
    }
}

/// What came of an attempt to delete the route of an app.
pub open spec fn removal_verdict(app: Seq<char>, success: bool, stderr: Seq<char>) -> Result<
    (),
    Seq<char>,
> {
    if success || contains(stderr, "404"@) {
        Ok(())
    } else {
        Err("failed to delete caddy route for "@ + app + ": "@ + trim(stderr))
    }
}

/// Whether the route is out, or why not. One that was not there is out.
pub fn delete_route(app: &str, success: bool, stderr: &str) -> (r: Result<(), String>)
    ensures
        outcome(r) == removal_verdict(app@, success, stderr@),
{
    if success || has_part(stderr, "404") {
        return Ok(());
    }
    let mut message = String::from_str("failed to delete caddy route for ");
    message.append(app);
    message.append(": ");
    message.append(trimmed(stderr));
    Err(message)
}

/// A name fits a route exactly where it is a label of a host name: letters, digits and
/// hyphens, sixty-three bytes at most, with a letter or a digit at either end.
pub proof fn routes_are_for_labels(app: Seq<char>)
    ensures
        label_verdict(app) is Ok <==> {
            &&& 0 < app.len()
            &&& encode_utf8(app).len() <= 63
            &&& forall|i: int|
                0 <= i < app.len() ==> is_alphanumeric(#[trigger] app[i]) || app[i] == '-'
            &&& app[0] != '-'
            &&& app[app.len() - 1] != '-'
        },
{
    if app.len() > 0 {
        assert(app.last() == app[app.len() - 1]);
        assert(in_label(app[0]) ==> is_alphanumeric(app[0]) || app[0] == '-');
    }
    assert(!is_alphanumeric('-'));
}

/// Routes are kept where the address of the server is set, and for the domain that is set
/// with it; without a domain that is an error, and without an address nothing is done.
pub proof fn routes_need_an_address_and_a_domain(
    app: Seq<char>,
    port: u16,
    api_url: Option<Seq<char>>,
    domain: Option<Seq<char>>,
)
    ensures
        ({
            let request = route_request(app, port, api_url, domain);
            &&& api_url is None ==> request == Ok::<Option<RequestView>, Seq<char>>(None)
            &&& api_url is Some && domain is None ==> request is Err
            &&& api_url is Some && domain is Some && label_verdict(app) is Err ==> request is Err
            &&& request matches Ok(Some(asked)) ==> {
                &&& api_url is Some && domain is Some
                &&& asked.app == app
                &&& asked.domain == domain->0
                &&& asked.url == api_url->0 + "/config/apps/http/servers/srv0/routes"@
                &&& parsed_json(route_text(app, domain->0, port)) == Ok::<JsonView, Seq<char>>(
                    asked.route,
                )
            }
        }),
{
}

/// Where the server knows of no routes yet, or says nothing, there are none; any other
/// failure is one. What it says is read as a list, or as one by index.
pub proof fn answers_without_routes_are_empty(success: bool, stderr: Seq<char>, stdout: Seq<u8>)
    ensures
        !success && contains(stderr, "404"@) ==> answer_of(success, stderr, stdout) == Ok::<
            Seq<JsonView>,
            Seq<char>,
        >(Seq::empty()),
        !success && !contains(stderr, "404"@) ==> answer_of(success, stderr, stdout) is Err,
        success && stdout.len() == 0 ==> answer_of(success, stderr, stdout) == Ok::<
            Seq<JsonView>,
            Seq<char>,
        >(Seq::empty()),
        success && stdout.len() > 0 ==> (answer_of(success, stderr, stdout) is Ok <==> {
            &&& parsed_json_bytes(stdout) is Ok
            &&& routes_in(parsed_json_bytes(stdout)->Ok_0) is Ok
        }),
{
}

/// A list of routes is taken as it is, and nothing for an empty one. Text, numbers and the
/// like are no routes.
pub proof fn lists_of_routes_are_taken_as_they_are(value: JsonView)
    ensures
        value is Array ==> routes_in(value) == Ok::<Seq<JsonView>, Seq<char>>(value->Array_0),
        value is Null ==> routes_in(value) == Ok::<Seq<JsonView>, Seq<char>>(Seq::empty()),
        !(value is Array) && !(value is Null) && !(value is Object) ==> routes_in(value) is Err,
{
}

/// A route that is not there counts as deleted; any other failure is one.
pub proof fn missing_routes_are_deleted(app: Seq<char>, success: bool, stderr: Seq<char>)
    ensures
        removal_verdict(app, success, stderr) is Ok <==> success || contains(stderr, "404"@),
        removal_verdict(app, success, stderr) is Err ==> trim(stderr).is_suffix_of(
            removal_verdict(app, success, stderr)->Err_0,
        ),
{
    if let Err(said) = removal_verdict(app, success, stderr) {
        assert(said.skip(said.len() - trim(stderr).len()) =~= trim(stderr));
    }
}

} // verus!
