//! Decisions the service makes when it starts its backends from the
//! configuration and the runtime settings.

use vstd::prelude::*;
use crate::config::{HookSearchConfig, SoulseekConfig};
use crate::text::{chars_of, lower};

verus! {

/// The rate limit in force: the runtime setting when one is stored, else
/// the configured one.
pub open spec fn rate_in_force(setting: Option<u64>, configured: Option<u64>) -> Option<u64> {
    match setting {
        Some(v) => Some(v),
        None => configured,
    }
}

/// The torrent engine's settings from the configuration, with the stored
/// download and upload rate settings taking precedence over the
/// configured limits.
pub fn engine_config(
    c: &crate::config::TorrentConfig,
    download_setting: Option<u64>,
    upload_setting: Option<u64>,
) -> (r: crate::torrent::config::TorrentConfig)
    ensures
        r.download_root == c.download_root,
        r.listen_port == c.listen_port,
        r.download_rate_limit == rate_in_force(download_setting, c.download_rate_limit),
        r.upload_rate_limit == rate_in_force(upload_setting, c.upload_rate_limit),
        r.enable_dht == c.enable_dht,
        r.enable_pex == c.enable_pex,
        r.enable_lsd == c.enable_lsd,
        r.enable_tracker == c.enable_tracker,
{
    crate::torrent::config::TorrentConfig {
        download_root: c.download_root.clone(),
        listen_port: c.listen_port,
        download_rate_limit: match download_setting {
            Some(v) => Some(v),
            None => c.download_rate_limit,
        },
        upload_rate_limit: match upload_setting {
            Some(v) => Some(v),
            None => c.upload_rate_limit,
        },
        enable_dht: c.enable_dht,
        enable_pex: c.enable_pex,
        enable_lsd: c.enable_lsd,
        enable_tracker: c.enable_tracker,
    }
}

/// The configured engine names the librqbit engine, ignoring ASCII case.
pub open spec fn names_rqbit(engine: Seq<char>) -> bool {
    lower(engine) == "rqbit"@
}

/// Whether the configuration asks for the librqbit engine.
pub fn wants_rqbit(engine: &str) -> (b: bool)
    ensures
        b == names_rqbit(engine@),
{
    let e = chars_of(engine);
    let l = crate::text::lower_chars(e.as_slice());
    crate::text::eq_lit(l.as_slice(), "rqbit")
}

/// The account the native Soulseek client logs in with: a configured,
/// non-empty user name, and the password (empty when none is set).
pub open spec fn soulseek_login_spec(c: SoulseekConfig) -> Option<(Seq<char>, Seq<char>)> {
    match c.username {
        Some(u) => if u@.len() > 0 {
            Some(
                (
                    u@,
                    match c.password {
                        Some(p) => p@,
                        None => seq![],
                    },
                ),
            )
        } else {
            None
        },
        None => None,
    }
}

/// The Soulseek login, or `None` when no user name is configured (the
/// native backend is then unavailable).
pub fn soulseek_login(c: &SoulseekConfig) -> (r: Option<(String, String)>)
    ensures
        match r {
            Some((u, p)) => soulseek_login_spec(*c) == Some((u@, p@)),
            None => soulseek_login_spec(*c) is None,
        },
{
    match &c.username {
        Some(u) => {
            if chars_of(u.as_str()).len() > 0 {
                let p = match &c.password {
                    Some(p) => p.clone(),
                    None => String::new(),
                };
                Some((u.clone(), p))
            } else {
                None
            }
        },
        None => None,
    }
}

/// The search command's timeout in seconds: at least one.
pub fn hook_timeout_secs(c: &HookSearchConfig) -> (s: u64)
    ensures
        s == if c.timeout_secs < 1 {
            1
        } else {
            c.timeout_secs
        },
{
    if c.timeout_secs < 1 {
        1
    } else {
        c.timeout_secs
    }
}

/// The magnet-search settings seeded from the configuration when the
/// settings store does not hold them yet.
pub open spec fn seeded_keys(has_enabled: bool, has_domains: bool, has_sites: bool) -> Seq<Seq<char>> {
    (if has_enabled {
        seq![]
    } else {
        seq!["hook_search.enabled"@]
    }) + (if has_domains {
        seq![]
    } else {
        seq!["hook_search.domains"@]
    }) + (if has_sites {
        seq![]
    } else {
        seq!["hook_search.sites"@]
    })
}

/// Which magnet-search settings to seed, given which the store holds.
pub fn settings_to_seed(has_enabled: bool, has_domains: bool, has_sites: bool) -> (r: Vec<&'static str>)
    ensures
        r@.len() == seeded_keys(has_enabled, has_domains, has_sites).len(),
        forall|i: int|
            0 <= i < r@.len() ==> #[trigger] r@[i]@ == seeded_keys(has_enabled, has_domains, has_sites)[i],
{
    let mut r: Vec<&'static str> = Vec::new();
    if !has_enabled {
        r.push("hook_search.enabled");
    }
    if !has_domains {
        r.push("hook_search.domains");
    }
    if !has_sites {
        r.push("hook_search.sites");
    }
    proof {
        let a: Seq<Seq<char>> = if has_enabled {
            seq![]
        } else {
            seq!["hook_search.enabled"@]
        };
        let b: Seq<Seq<char>> = if has_domains {
            seq![]
        } else {
            seq!["hook_search.domains"@]
        };
        let c: Seq<Seq<char>> = if has_sites {
            seq![]
        } else {
            seq!["hook_search.sites"@]
        };
        assert(seeded_keys(has_enabled, has_domains, has_sites) == a + b + c);
    }
    r
}

} // verus!
