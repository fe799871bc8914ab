//! The user-level configuration.
use vstd::prelude::*;

verus! {

/// lode's user-level config (`<config-dir>/lode/config.toml`), where secrets like the CurseForge
/// API key live so they aren't retyped every command, the way npm and composer keep credentials.
#[derive(Debug)]
pub struct Config {
    pub curseforge: Option<CurseforgeConfig>,
}

#[derive(Debug)]
pub struct CurseforgeConfig {
    pub key: Option<String>,
}

impl Default for Config {
    fn default() -> (r: Self)
        ensures
            r.curseforge is None,
    {
        Config { curseforge: None }
    }
}

/// The CurseForge key that a configuration stores.
pub open spec fn stored_key(config: Config) -> Option<Seq<char>> {
    match config.curseforge {
        Some(cf) => cf.key.deep_view(),
        None => None,
    }
}

/// The CurseForge API key, from the `CF_API_KEY` environment variable first (CI-friendly), then
/// the stored config. `None` if neither is set. An empty variable counts as unset.
pub fn curseforge_key(env: Option<String>, stored: Option<Config>) -> (r: Option<String>)
    ensures
        r.deep_view() == (match env {
            Some(key) if key@.len() > 0 => Some(key@),
            _ => match stored {
                Some(config) => stored_key(config),
                None => None,
            },
        }),
{
    match env {
        Some(key) => {
            if !key.as_str().is_empty() {
                return Some(key);
            }
        },
        None => {},
    }
    match stored {
        Some(config) => match config.curseforge {
            Some(cf) => cf.key,
            None => None,
        },
        None => None,
    }
}

/// The key in the environment wins over the stored one, unless it is empty.
pub proof fn the_environment_wins(env: Option<String>, stored: Option<Config>, r: Option<String>)
    requires
        call_ensures(curseforge_key, (env, stored), r),
    ensures
        (env matches Some(key) && key@.len() > 0) ==> r.deep_view() == env.deep_view(),
        env is None || env->0@.len() == 0 ==> r.deep_view() == (match stored {
            Some(Config { curseforge: Some(cf) }) => cf.key.deep_view(),
            _ => None,
        }),
{
}

} // verus!
