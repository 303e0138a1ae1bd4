//! The pure part of the service's HTTP client: the base address, the
//! address of each resource, and the keys of its cache.
use vstd::prelude::*;
use crate::key::{sep, ConfigKey};

verus! {

/// `s` without its trailing separators.
pub open spec fn without_trailing_slashes(s: Seq<char>) -> Seq<char>
    decreases s.len(),
{
    if s.len() > 0 && s.last() == '/' {
        without_trailing_slashes(s.drop_last())
    } else {
        s
    }
}

/// The base address of the service as given, without trailing separators.
pub fn normalize_base_url(url: &str) -> (r: String)
    ensures
        r@ == without_trailing_slashes(url@),
{
    let mut end = url.unicode_len();
    assert(url@.subrange(0, end as int) =~= url@);
    while end > 0 && url.get_char(end - 1) == '/'
        invariant
            end <= url@.len(),
            without_trailing_slashes(url@.subrange(0, end as int)) == without_trailing_slashes(url@),
        decreases end,
    {
        proof {
            assert(url@.subrange(0, end as int).drop_last() =~= url@.subrange(0, end - 1));
        }
        end = end - 1;
    }
    proof {
        if end > 0 {
            assert(url@.subrange(0, end as int).last() == url@[end - 1]);
        }
    }
    String::from_str(url.substring_char(0, end))
}

/// The address of a configuration: `<base>/configs/<key path>`.
pub open spec fn config_address(base: Seq<char>, key: ConfigKey) -> Seq<char> {
    base + "/configs"@ + sep() + key.path()
}

/// The address of a configuration.
pub fn config_url(base: &str, key: &ConfigKey) -> (r: String)
    ensures
        r@ == config_address(base@, *key),
{
    let mut r = String::from_str(base);
    r.append("/configs");
    proof {
        reveal_strlit("/");
    }
    r.append("/");
    r.append(key.to_path().as_str());
    r
}

/// The address of a configuration's history.
pub fn versions_url(base: &str, key: &ConfigKey) -> (r: String)
    ensures
        r@ == config_address(base@, *key) + "/versions"@,
{
    let mut r = config_url(base, key);
    r.append("/versions");
    r
}

/// The address of one version of a configuration.
pub fn version_url(base: &str, key: &ConfigKey, version: &str) -> (r: String)
    ensures
        r@ == config_address(base@, *key) + "/versions"@ + sep() + version@,
{
    let mut r = versions_url(base, key);
    proof {
        reveal_strlit("/");
    }
    r.append("/");
    r.append(version);
    r
}

/// The address of an environment: `<base>/configs/<app>/<env>`.
pub fn environment_url(base: &str, app: &str, env: &str) -> (r: String)
    ensures
        r@ == base@ + "/configs"@ + sep() + app@ + sep() + env@,
{
    let mut r = String::from_str(base);
    r.append("/configs");
    proof {
        reveal_strlit("/");
    }
    r.append("/");
    r.append(app);
    r.append("/");
    r.append(env);
    r
}

/// The address of the health probe.
pub fn health_url(base: &str) -> (r: String)
    ensures
        r@ == base@ + "/health"@,
{
    let mut r = String::from_str(base);
    r.append("/health");
    r
}

/// The cache key of one version of a configuration, kept apart from the
/// key of its current version: the application becomes `<app>@<version>`.
pub fn versioned_cache_key(key: &ConfigKey, version: &str) -> (r: ConfigKey)
    ensures
        r.application@ == key.application@ + seq!['@'] + version@,
        r.environment@ == key.environment@,
        r.config_name@ == key.config_name@,
{
    let mut app = key.application.clone();
    proof {
        reveal_strlit("@");
    }
    app.append("@");
    app.append(version);
    ConfigKey::new(app, key.environment.clone(), key.config_name.clone())
}

} // verus!
