//! What the host reports about its deploys and the health of its apps, where it is told
//! to report it to InfluxDB.

use vstd::prelude::*;
use crate::host::{env_u64, number_or};
use crate::text::{outcome, same, trim, trimmed};

verus! {

pub const DEFAULT_MEASUREMENT: &'static str = "psht_stats";

pub const DEFAULT_TIMEOUT_SECS: u64 = 2;

/// Where reports go and what they are called.
#[derive(PartialEq, Eq, Debug)]
pub struct StatsSettings {
    pub url: String,
    pub org: String,
    pub bucket: String,
    pub token: String,
    pub measurement: String,
    pub timeout_secs: u64,
    /// Failures to report are printed.
    pub debug: bool,
}

/// The mathematical form of the settings.
#[verifier::ext_equal]
pub struct StatsView {
    pub url: Seq<char>,
    pub org: Seq<char>,
    pub bucket: Seq<char>,
    pub token: Seq<char>,
    pub measurement: Seq<char>,
    pub timeout_secs: u64,
    pub debug: bool,
}

impl DeepView for StatsSettings {
    type V = StatsView;

    open spec fn deep_view(&self) -> StatsView {
        StatsView {
            url: self.url@,
            org: self.org@,
            bucket: self.bucket@,
            token: self.token@,
            measurement: self.measurement@,
            timeout_secs: self.timeout_secs,
            debug: self.debug,
        }
    }
}

/// A setting, where it is more than white space.
pub open spec fn filled(raw: Option<Seq<char>>) -> Option<Seq<char>> {
    match raw {
        Some(raw) => if trim(raw).len() > 0 {
            Some(trim(raw))
        } else {
            None
        },
        None => None,
    }
}

fn filled_text(raw: Option<&str>) -> (r: Option<String>)
    ensures
        r.deep_view() == filled(raw.deep_view()),
{
    match raw {
        Some(raw) => {
            let text = trimmed(raw);
            if text.is_empty() {
                None
            } else {
                Some(text.to_owned())
            }
        },
        None => None,
    }
}

/// The settings, where all that a report needs is set.
pub open spec fn stats_of(
    url: Option<Seq<char>>,
    org: Option<Seq<char>>,
    bucket: Option<Seq<char>>,
    token: Option<Seq<char>>,
    measurement: Option<Seq<char>>,
    timeout_secs: Option<Seq<char>>,
    debug: Option<Seq<char>>,
) -> Option<StatsView> {
    match (filled(url), filled(org), filled(bucket), filled(token)) {
        (Some(url), Some(org), Some(bucket), Some(token)) => Some(
            StatsView {
                url,
                org,
                bucket,
                token,
                measurement: match filled(measurement) {
                    Some(name) => name,
                    None => DEFAULT_MEASUREMENT@,
                },
                timeout_secs: number_or(timeout_secs, DEFAULT_TIMEOUT_SECS),
                debug: filled(debug) == Some("1"@),
            },
        ),
        _ => None,
    }
}

/// The settings, by the values of the variables that hold them. Nothing is reported
/// unless the address, the organisation, the bucket and the token are all set.
pub fn stats_settings(
    url: Option<&str>,
    org: Option<&str>,
    bucket: Option<&str>,
    token: Option<&str>,
    measurement: Option<&str>,
    timeout_secs: Option<&str>,
    debug: Option<&str>,
) -> (r: Option<StatsSettings>)
    ensures
        r.deep_view() == stats_of(
            url.deep_view(),
            org.deep_view(),
            bucket.deep_view(),
            token.deep_view(),
            measurement.deep_view(),
            timeout_secs.deep_view(),
            debug.deep_view(),
        ),
{
    match (filled_text(url), filled_text(org), filled_text(bucket), filled_text(token)) {
        (Some(url), Some(org), Some(bucket), Some(token)) => {
            let measurement = match filled_text(measurement) {
                Some(name) => name,
                None => String::from_str(DEFAULT_MEASUREMENT),
            };
            let debug = match filled_text(debug) {
                Some(value) => same(value.as_str(), "1"),
                None => false,
            };
            Some(
                StatsSettings {
                    url,
                    org,
                    bucket,
                    token,
                    measurement,
                    timeout_secs: env_u64(timeout_secs, DEFAULT_TIMEOUT_SECS),
                    debug,
                },
            )
        },
        _ => None,
    }
}

impl StatsSettings {
    /// The measurement of attempts to deploy.
    pub fn deploy_measurement(&self) -> (r: String)
        ensures
            r@ == self.measurement@,
    {
        self.measurement.as_str().to_owned()
    }

    /// The measurement of health checks.
    pub fn health_measurement(&self) -> (r: String)
        ensures
            r@ == self.measurement@ + "_health"@,
    {
        let mut r = self.measurement.as_str().to_owned();
        r.append("_health");
        r
    }
}

/// An attempt to deploy, as it is reported.
#[derive(PartialEq, Eq, Debug)]
pub struct DeployAttempt {
    pub app: String,
    pub kind: String,
    pub generation: i64,
    pub attempt: u64,
    pub force: bool,
    pub success: bool,
    pub error: Option<String>,
}

/// What is reported of an attempt to deploy.
pub fn deploy_attempt(
    app: &str,
    kind: &str,
    generation: i64,
    attempt: u64,
    force: bool,
    result: &Result<(), String>,
) -> (r: DeployAttempt)
    ensures
        r.app@ == app@,
        r.kind@ == kind@,
        r.generation == generation,
        r.attempt == attempt,
        r.force == force,
        r.success == (result is Ok),
        r.error.deep_view() == match outcome(*result) {
            Ok(_) => None,
            Err(err) => Some(err),
        },
{
    DeployAttempt {
        app: app.to_owned(),
        kind: kind.to_owned(),
        generation,
        attempt,
        force,
        success: result.is_ok(),
        error: match result {
            Ok(_) => None,
            Err(err) => Some(err.as_str().to_owned()),
        },
    }
}

/// Statistics are kept exactly where the address, the organisation, the bucket and the
/// token are all set to something, each without white space at its ends; the rest has
/// defaults, and failures are printed only where that is set to `1`.
pub proof fn statistics_need_an_address_and_a_token(
    url: Option<Seq<char>>,
    org: Option<Seq<char>>,
    bucket: Option<Seq<char>>,
    token: Option<Seq<char>>,
    measurement: Option<Seq<char>>,
    timeout_secs: Option<Seq<char>>,
    debug: Option<Seq<char>>,
)
    ensures
        ({
            let set = stats_of(url, org, bucket, token, measurement, timeout_secs, debug);
            &&& set is Some <==> {
                &&& url is Some && trim(url->0).len() > 0
                &&& org is Some && trim(org->0).len() > 0
                &&& bucket is Some && trim(bucket->0).len() > 0
                &&& token is Some && trim(token->0).len() > 0
            }
            &&& set is Some ==> {
                &&& set->0.url == trim(url->0)
                &&& set->0.org == trim(org->0)
                &&& set->0.bucket == trim(bucket->0)
                &&& set->0.token == trim(token->0)
                &&& measurement is Some && trim(measurement->0).len() > 0 ==> set->0.measurement
                    == trim(measurement->0)
                &&& measurement is None || trim(measurement->0).len() == 0 ==> set->0.measurement
                    == DEFAULT_MEASUREMENT@
                &&& set->0.timeout_secs == number_or(timeout_secs, DEFAULT_TIMEOUT_SECS)
                &&& set->0.debug <==> debug is Some && trim(debug->0) == "1"@
            }
        }),
{
    reveal_strlit("1");
}

} // verus!
