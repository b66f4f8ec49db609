//! The settings that the proxy takes from its environment.

use vstd::prelude::*;

verus! {

/// The settings of the proxy.
#[derive(Clone, Debug, PartialEq, Eq)]
pub struct Config {
    /// The public base URL of this proxy.
    pub self_url: String,
    /// The base URL of the upstream registry.
    pub registry_url: String,
    /// The issuer URL of the login broker.
    pub oidc_url: String,
    pub oidc_client_secret: String,
    pub oidc_client_id: String,
    /// The address of the key-value store that holds the tokens.
    pub redis_uri: String,
}

/// The value that was given, or else the default.
pub open spec fn value_or(given: Option<String>, default: Seq<char>) -> Seq<char> {
    match given {
        Some(value) => value@,
        None => default,
    }
}

/// The value that was given, or else the default.
fn setting(given: Option<String>, default: &str) -> (value: String)
    ensures
        value@ == value_or(given, default@),
{
    match given {
        Some(value) => value,
        None => default.to_owned(),
    }
}

impl Config {
    /// The settings, each as it was given or else with its default value.
    pub fn new(
        self_url: Option<String>,
        registry_url: Option<String>,
        oidc_url: Option<String>,
        oidc_client_secret: Option<String>,
        oidc_client_id: Option<String>,
        redis_uri: Option<String>,
    ) -> (config: Config)
        ensures
            config.self_url@ == value_or(self_url, "http://localhost:5000/"@),
            config.registry_url@ == value_or(registry_url, "https://registry.npmjs.org/"@),
            config.oidc_url@ == value_or(oidc_url, "https://gitlab.git.veto.dev"@),
            config.oidc_client_secret@ == value_or(oidc_client_secret, "some-id"@),
            config.oidc_client_id@ == value_or(oidc_client_id, "some-secret"@),
            config.redis_uri@ == value_or(redis_uri, "redis://localhost:6379"@),
    {
        Config {
            self_url: setting(self_url, "http://localhost:5000/"),
            registry_url: setting(registry_url, "https://registry.npmjs.org/"),
            oidc_url: setting(oidc_url, "https://gitlab.git.veto.dev"),
            oidc_client_secret: setting(oidc_client_secret, "some-id"),
            oidc_client_id: setting(oidc_client_id, "some-secret"),
            redis_uri: setting(redis_uri, "redis://localhost:6379"),
        }
    }
}

} // verus!
