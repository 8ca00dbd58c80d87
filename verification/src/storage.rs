//! The storage and the network that apps get from the host.

use vstd::prelude::*;
use crate::text::{outcome, trim, trimmed};

verus! {

/// Which storage pool is used.
pub enum PoolChoice {
    Use(String),
    /// There is none yet: the pool `default` is made.
    Create,
}

/// Whether a choice is this one: the pool of the default profile, else the first that
/// there is, else a new one.
pub open spec fn pool_choice_is(
    profile_pool: Option<Seq<char>>,
    first: Result<Option<Seq<char>>, Seq<char>>,
    r: Result<PoolChoice, String>,
) -> bool {
    match profile_pool {
        Some(pool) if trim(pool).len() > 0 => r matches Ok(PoolChoice::Use(name)) && name@ == trim(
            pool,
        ),
        _ => match first {
            Err(err) => r matches Err(message) && message@ == err,
            Ok(Some(pool)) => r matches Ok(PoolChoice::Use(name)) && name@ == pool,
            Ok(None) => r matches Ok(PoolChoice::Create),
        },
    }
}

/// The storage pool to use. `profile_pool` is that of the default profile, where it names
/// one; `first` the first that there is, or why that is not known.
pub fn default_storage_pool(profile_pool: Option<&str>, first: &Result<Option<String>, String>) -> (r:
    Result<PoolChoice, String>)
    ensures
        pool_choice_is(profile_pool.deep_view(), outcome(*first), r),
{
    if let Some(pool) = profile_pool {
        let pool = trimmed(pool);
        if !pool.is_empty() {
            return Ok(PoolChoice::Use(pool.to_owned()));
        }
    }
    match first {
        Ok(Some(pool)) => Ok(PoolChoice::Use(pool.clone())),
        Ok(None) => Ok(PoolChoice::Create),
        Err(err) => Err(err.clone()),
    }
}

/// The words after `incus` that do something to a volume.
pub fn volume_args(action: &str, pool: &str, volume: &str) -> (r: Vec<String>)
    ensures
        r.deep_view() == seq!["storage"@, "volume"@, action@, pool@, volume@],
{
    let r = vec![
        String::from_str("storage"),
        String::from_str("volume"),
        action.to_owned(),
        pool.to_owned(),
        volume.to_owned(),
    ];
    assert(r.deep_view() =~= seq!["storage"@, "volume"@, action@, pool@, volume@]);
    r
}

/// Which network is used.
pub enum NetworkChoice {
    Use(String),
    /// There is none yet: the network `incusbr0` is made.
    Create,
}

pub open spec fn network_choice_is(
    has_incusbr0: bool,
    has_default: bool,
    first: Result<Option<Seq<char>>, Seq<char>>,
    r: Result<NetworkChoice, String>,
) -> bool {
    if has_incusbr0 {
        r matches Ok(NetworkChoice::Use(name)) && name@ == "incusbr0"@
    } else if has_default {
        r matches Ok(NetworkChoice::Use(name)) && name@ == "default"@
    } else {
        match first {
            Err(err) => r matches Err(message) && message@ == err,
            Ok(Some(network)) => r matches Ok(NetworkChoice::Use(name)) && name@ == network,
            Ok(None) => r matches Ok(NetworkChoice::Create),
        }
    }
}

/// The network to use: one of the usual names, else the first that there is, else a new
/// one.
pub fn default_network_name(
    has_incusbr0: bool,
    has_default: bool,
    first: &Result<Option<String>, String>,
) -> (r: Result<NetworkChoice, String>)
    ensures
        network_choice_is(has_incusbr0, has_default, outcome(*first), r),
{
    if has_incusbr0 {
        return Ok(NetworkChoice::Use(String::from_str("incusbr0")));
    }
    if has_default {
        return Ok(NetworkChoice::Use(String::from_str("default")));
    }
    match first {
        Ok(Some(network)) => Ok(NetworkChoice::Use(network.clone())),
        Ok(None) => Ok(NetworkChoice::Create),
        Err(err) => Err(err.clone()),
    }
}

/// The words after `incus` that make the network.
pub fn create_network_args() -> (r: Vec<String>)
    ensures
        r.deep_view() == seq![
            "network"@,
            "create"@,
            "incusbr0"@,
            "ipv4.address=auto"@,
            "ipv6.address=none"@,
        ],
{
    let r = vec![
        String::from_str("network"),
        String::from_str("create"),
        String::from_str("incusbr0"),
        String::from_str("ipv4.address=auto"),
        String::from_str("ipv6.address=none"),
    ];
    assert(r.deep_view() =~= seq![
        "network"@,
        "create"@,
        "incusbr0"@,
        "ipv4.address=auto"@,
        "ipv6.address=none"@,
    ]);
    r
}

/// The network that is used after an attempt to make one.
pub open spec fn made_network(created: Result<(), Seq<char>>, is_there: bool) -> Result<
    Seq<char>,
    Seq<char>,
> {
    match created {
        Err(err) => if is_there {
            Ok("incusbr0"@)
        } else {
            Err("failed to create fallback incus network incusbr0: "@ + err)
        },
        Ok(_) => Ok("incusbr0"@),
    }
}

/// The network that was made, or that is there all the same.
pub fn network_created(created: &Result<(), String>, is_there: bool) -> (r: Result<String, String>)
    ensures
        outcome(r) == made_network(outcome(*created), is_there),
{
    if let Err(err) = created {
        if !is_there {
            let mut message = String::from_str("failed to create fallback incus network incusbr0: ");
            message.append(err.as_str());
            return Err(message);
        }
    }
    Ok(String::from_str("incusbr0"))
}

/// The pool that is used is the one of the profile if it names one, else the first there
/// is; one is made only where there is none, and only where that is known.
pub proof fn pools_are_made_where_there_are_none(
    profile_pool: Option<Seq<char>>,
    first: Result<Option<Seq<char>>, Seq<char>>,
    r: Result<PoolChoice, String>,
)
    requires
        pool_choice_is(profile_pool, first, r),
    ensures
        ({
            let named = profile_pool is Some && trim(profile_pool->0).len() > 0;
            &&& r is Err <==> !named && first is Err
            &&& (r is Ok && r->Ok_0 is Create) <==> !named && first is Ok && first->Ok_0 is None
            &&& named ==> r is Ok && r->Ok_0 is Use && r->Ok_0->Use_0@ == trim(profile_pool->0)
            &&& r is Ok && r->Ok_0 is Use && !named ==> first is Ok && first->Ok_0 == Some(
                r->Ok_0->Use_0@,
            )
        }),
{
}

/// The network that is used is `incusbr0` if it is there, else `default` if that is, else
/// the first there is; one is made only where there is none, and only where that is known.
pub proof fn networks_are_made_where_there_are_none(
    has_incusbr0: bool,
    has_default: bool,
    first: Result<Option<Seq<char>>, Seq<char>>,
    r: Result<NetworkChoice, String>,
)
    requires
        network_choice_is(has_incusbr0, has_default, first, r),
    ensures
        r is Err <==> !has_incusbr0 && !has_default && first is Err,
        (r is Ok && r->Ok_0 is Create) <==> !has_incusbr0 && !has_default && first is Ok
            && first->Ok_0 is None,
        has_incusbr0 ==> r is Ok && r->Ok_0 is Use && r->Ok_0->Use_0@ == "incusbr0"@,
        has_default && !has_incusbr0 ==> r is Ok && r->Ok_0 is Use && r->Ok_0->Use_0@
            == "default"@,
        r is Ok && r->Ok_0 is Use && !has_incusbr0 && !has_default ==> first is Ok && first->Ok_0
            == Some(r->Ok_0->Use_0@),
{
}

/// A network that could not be made is used where it is there all the same, as when another
/// made it meanwhile.
pub proof fn networks_that_are_there_are_used(created: Result<(), Seq<char>>, is_there: bool)
    ensures
        made_network(created, is_there) is Ok <==> created is Ok || is_there,
        made_network(created, is_there) is Ok ==> made_network(created, is_there)->Ok_0
            == "incusbr0"@,
        made_network(created, is_there) is Err ==> created->Err_0.is_suffix_of(
            made_network(created, is_there)->Err_0,
        ),
{
    if let Err(err) = created {
        if !is_there {
            let said = made_network(created, is_there)->Err_0;
            assert(said.skip(said.len() - err.len()) =~= err);
        }
    }
}

} // verus!
