//! Application configuration: defaults, the environment overlay and the
//! derived file locations.

use vstd::prelude::*;
use vstd::string::StringExecFns;
use crate::common::HookSearchSite;
use crate::paths::join;
use crate::text::{chars_of, is_blank, parse_bool, parse_bool_spec, parse_u16, parse_u16_spec, string_of, trim, trim_str};

verus! {

#[derive(Debug, Clone)]
pub struct ServerConfig {
    pub host: String,
    pub port: u16,
}

impl Default for ServerConfig {
    fn default() -> (c: Self)
        ensures
            c.host@ == "127.0.0.1"@,
            c.port == 41000,
    {
        ServerConfig { host: String::from_str("127.0.0.1"), port: 41000 }
    }
}

#[derive(Debug, Clone)]
pub struct TorrentConfig {
    pub enabled: bool,
    /// Which engine to use: `"memory"` (reference/dev) or `"rqbit"`.
    pub engine: String,
    pub download_root: String,
    pub listen_port: Option<u16>,
    pub download_rate_limit: Option<u64>,
    pub upload_rate_limit: Option<u64>,
    pub enable_dht: bool,
    pub enable_pex: bool,
    pub enable_lsd: bool,
    pub enable_tracker: bool,
}

impl Default for TorrentConfig {
    fn default() -> (c: Self)
        ensures
            !c.enabled,
            c.engine@ == "memory"@,
            c.download_root@ == "downloads"@,
            c.listen_port is None,
            c.download_rate_limit is None,
            c.upload_rate_limit is None,
            c.enable_dht,
            c.enable_pex,
            c.enable_lsd,
            c.enable_tracker,
    {
        TorrentConfig {
            enabled: false,
            engine: String::from_str("memory"),
            download_root: String::from_str("downloads"),
            listen_port: None,
            download_rate_limit: None,
            upload_rate_limit: None,
            enable_dht: true,
            enable_pex: true,
            enable_lsd: true,
            enable_tracker: true,
        }
    }
}

#[derive(Debug, Clone)]
pub struct SoulseekConfig {
    pub enabled: bool,
    /// Soulseek server address.
    pub server_addr: String,
    /// Listen port announced for peer/file connections.
    pub listen_port: u16,
    pub username: Option<String>,
    pub password: Option<String>,
    pub download_root: String,
}

impl Default for SoulseekConfig {
    fn default() -> (c: Self)
        ensures
            !c.enabled,
            c.server_addr@ == "vps.slsknet.org:2242"@,
            c.listen_port == 2234,
            c.username is None,
            c.password is None,
            c.download_root@ == "downloads"@,
    {
        SoulseekConfig {
            enabled: false,
            server_addr: String::from_str("vps.slsknet.org:2242"),
            listen_port: 2234,
            username: None,
            password: None,
            download_root: String::from_str("downloads"),
        }
    }
}

#[derive(Debug, Clone)]
pub struct HookSearchConfig {
    pub enabled: bool,
    /// The external search command to run per query (empty = built-in
    /// search).
    pub command: Vec<String>,
    /// Initial domain list handed to the built-in engine search.
    pub domains: Vec<String>,
    /// Initial per-site search templates.
    pub sites: Vec<HookSearchSite>,
    pub timeout_secs: u64,
    pub max_results: usize,
}

impl Default for HookSearchConfig {
    fn default() -> (c: Self)
        ensures
            !c.enabled,
            c.command@.len() == 0,
            c.domains@.len() == 0,
            c.sites@.len() == 0,
            c.timeout_secs == 30,
            c.max_results == 100,
    {
        HookSearchConfig {
            enabled: false,
            command: Vec::new(),
            domains: Vec::new(),
            sites: Vec::new(),
            timeout_secs: 30,
            max_results: 100,
        }
    }
}

#[derive(Debug, Clone)]
pub struct PostprocessConfig {
    /// Library root for organized media; empty disables automatic
    /// organization.
    pub library_root: String,
    /// Move completed downloads into the library tree automatically.
    pub auto_organize: bool,
    /// Subfolder under `library_root` for series episodes.
    pub tv_dir: Option<String>,
    /// Subfolder under `library_root` for films.
    pub movies_dir: Option<String>,
    /// Subfolder under `library_root` for anime episodes.
    pub anime_dir: Option<String>,
}

impl Default for PostprocessConfig {
    fn default() -> (c: Self)
        ensures
            c.library_root@.len() == 0,
            !c.auto_organize,
            c.tv_dir is None,
            c.movies_dir is None,
            c.anime_dir is None,
    {
        PostprocessConfig {
            library_root: String::new(),
            auto_organize: false,
            tv_dir: None,
            movies_dir: None,
            anime_dir: None,
        }
    }
}

/// What a platform directory lookup can give: nothing, or a directory whose
/// path is not empty.
pub open spec fn lookup_outcome(found: Option<Seq<char>>) -> bool {
    found matches Some(d) ==> d.len() > 0
}

pub open spec fn opt_view(o: Option<String>) -> Option<Seq<char>> {
    match o {
        Some(s) => Some(s@),
        None => None,
    }
}

/// The per-user data directory that `directories` finds for the
/// application (`ProjectDirs::from` and `data_dir`), if it finds one. Which
/// one depends on the user's environment; the path is a base directory
/// joined with the project's path, so it is never empty.
#[verifier::external_body]
fn project_data_dir() -> (r: Option<String>)
    ensures
        lookup_outcome(opt_view(r)),
{
    directories::ProjectDirs::from("dev", "agpeer", "agpeer").map(
        |dirs| dirs.data_dir().to_string_lossy().into_owned(),
    )
}

/// The per-user configuration directory that `directories` finds for the
/// application (`ProjectDirs::from` and `config_dir`), if it finds one.
/// Which one depends on the user's environment; the path is a base
/// directory joined with the project's path, so it is never empty.
#[verifier::external_body]
fn project_config_dir() -> (r: Option<String>)
    ensures
        lookup_outcome(opt_view(r)),
{
    directories::ProjectDirs::from("dev", "agpeer", "agpeer").map(
        |dirs| dirs.config_dir().to_string_lossy().into_owned(),
    )
}

/// The data directory for a lookup outcome: the found directory, or `data`
/// when there was none.
pub open spec fn data_dir_spec(found: Option<Seq<char>>) -> Seq<char> {
    match found {
        Some(d) => d,
        None => "data"@,
    }
}

/// The configuration file for a lookup outcome: `agpeer.toml` in the found
/// directory, or in the current directory when there was none.
pub open spec fn config_path_spec(found: Option<Seq<char>>) -> Seq<char> {
    match found {
        Some(d) => join(d, "agpeer.toml"@),
        None => "agpeer.toml"@,
    }
}

/// The data directory given what the platform lookup found: the found
/// directory, or `data` when there was none.
pub fn data_dir_from(found: Option<String>) -> (r: String)
    ensures
        r@ == data_dir_spec(opt_view(found)),
{
    match found {
        Some(d) => d,
        None => String::from_str("data"),
    }
}

/// The configuration file given what the platform lookup found:
/// `agpeer.toml` in the found directory, or in the current directory when
/// there was none.
pub fn config_path_from(found: Option<String>) -> (r: String)
    ensures
        r@ == config_path_spec(opt_view(found)),
{
    let file = chars_of("agpeer.toml");
    match found {
        Some(d) => crate::paths::join_path(&d, file.as_slice()),
        None => String::from_str("agpeer.toml"),
    }
}

/// The per-user data directory, or `data` when the platform has none: the
/// data directory for some outcome of the platform lookup.
pub fn default_data_dir() -> (r: String)
    ensures
        exists|found: Option<Seq<char>>| lookup_outcome(found) && #[trigger] data_dir_spec(found) == r@,
{
    let found = project_data_dir();
    let ghost f = opt_view(found);
    let r = data_dir_from(found);
    assert(lookup_outcome(f) && data_dir_spec(f) == r@);
    r
}

/// `agpeer.toml` in the per-user configuration directory, or in the current
/// directory when the platform has none: the configuration file for some
/// outcome of the platform lookup.
pub fn default_config_path() -> (r: String)
    ensures
        exists|found: Option<Seq<char>>| lookup_outcome(found) && #[trigger] config_path_spec(found) == r@,
{
    let found = project_config_dir();
    let ghost f = opt_view(found);
    let r = config_path_from(found);
    assert(lookup_outcome(f) && config_path_spec(f) == r@);
    r
}

#[derive(Debug, Clone)]
pub struct AppConfig {
    pub server: ServerConfig,
    pub data_dir: String,
    pub torrent: TorrentConfig,
    pub soulseek: SoulseekConfig,
    pub hook_search: HookSearchConfig,
    pub postprocess: PostprocessConfig,
    pub search_result_ttl_hours: u64,
}

impl Default for AppConfig {
    fn default() -> (c: Self)
        ensures
            c.server.host@ == "127.0.0.1"@,
            c.server.port == 41000,
            !c.torrent.enabled,
            c.torrent.engine@ == "memory"@,
            c.torrent.download_root@ == "downloads"@,
            c.torrent.listen_port is None,
            !c.soulseek.enabled,
            c.soulseek.server_addr@ == "vps.slsknet.org:2242"@,
            c.soulseek.listen_port == 2234,
            c.soulseek.username is None,
            c.soulseek.password is None,
            c.soulseek.download_root@ == "downloads"@,
            !c.hook_search.enabled,
            c.hook_search.timeout_secs == 30,
            c.hook_search.max_results == 100,
            c.postprocess.library_root@.len() == 0,
            !c.postprocess.auto_organize,
            c.search_result_ttl_hours == 24,
    {
        AppConfig {
            server: ServerConfig::default(),
            data_dir: default_data_dir(),
            torrent: TorrentConfig::default(),
            soulseek: SoulseekConfig::default(),
            hook_search: HookSearchConfig::default(),
            postprocess: PostprocessConfig::default(),
            search_result_ttl_hours: 24,
        }
    }
}

/// Errors reading the configuration.
#[derive(Debug, Clone)]
pub enum ConfigError {
    Io(String),
    Toml(String),
}

impl ConfigError {
    /// The error's message.
    pub fn to_string(&self) -> (s: String)
        ensures
            s@ == match self {
                ConfigError::Io(m) => "config io error: "@ + m@,
                ConfigError::Toml(m) => "config parse error: "@ + m@,
            },
    {
        let (head, m) = match self {
            ConfigError::Io(m) => (chars_of("config io error: "), m),
            ConfigError::Toml(m) => (chars_of("config parse error: "), m),
        };
        let mut r = head;
        let mc = chars_of(m.as_str());
        crate::text::push_all(&mut r, mc.as_slice());
        string_of(r.as_slice())
    }
}

} // verus!

verus! {

/// The values of the environment variables that the overlay reads, each
/// `None` when unset.
#[derive(Debug, Clone)]
pub struct EnvOverrides {
    /// `AGPEER_HOST`
    pub host: Option<String>,
    /// `AGPEER_PORT`
    pub port: Option<String>,
    /// `AGPEER_DATA_DIR`
    pub data_dir: Option<String>,
    /// `AGPEER_SOULSEEK_SERVER_ADDR`
    pub soulseek_server_addr: Option<String>,
    /// `AGPEER_TORRENT_DOWNLOAD_ROOT`
    pub torrent_download_root: Option<String>,
    /// `AGPEER_SOULSEEK_DOWNLOAD_ROOT`
    pub soulseek_download_root: Option<String>,
    /// `AGPEER_POSTPROCESS_LIBRARY_ROOT`
    pub postprocess_library_root: Option<String>,
    /// `AGPEER_TORRENT_ENABLED`
    pub torrent_enabled: Option<String>,
    /// `AGPEER_TORRENT_ENGINE`
    pub torrent_engine: Option<String>,
    /// `AGPEER_SOULSEEK_ENABLED`
    pub soulseek_enabled: Option<String>,
    /// `AGPEER_HOOK_SEARCH_ENABLED`
    pub hook_search_enabled: Option<String>,
    /// `AGPEER_SOULSEEK_LISTEN_PORT`
    pub soulseek_listen_port: Option<String>,
    /// `AGPEER_TORRENT_LISTEN_PORT`
    pub torrent_listen_port: Option<String>,
    /// `AGPEER_SOULSEEK_USERNAME`
    pub soulseek_username: Option<String>,
    /// `AGPEER_SOULSEEK_PASSWORD`
    pub soulseek_password: Option<String>,
}

/// A text setting: replaced by a value that is not blank.
pub open spec fn text_override(v: Option<String>, cur: String) -> String {
    match v {
        Some(t) => if trim(t@).len() > 0 { t } else { cur },
        None => cur,
    }
}

/// A port setting: replaced by a value that parses as a port.
pub open spec fn port_override(v: Option<String>, cur: u16) -> u16 {
    match v {
        Some(t) => match parse_u16_spec(t@) {
            Some(p) => p,
            None => cur,
        },
        None => cur,
    }
}

/// An optional port setting: set by a value that parses as a port.
pub open spec fn opt_port_override(v: Option<String>, cur: Option<u16>) -> Option<u16> {
    match v {
        Some(t) => match parse_u16_spec(t@) {
            Some(p) => Some(p),
            None => cur,
        },
        None => cur,
    }
}

/// A switch: replaced by a value that, trimmed, reads `true` or `false`.
pub open spec fn flag_override(v: Option<String>, cur: bool) -> bool {
    match v {
        Some(t) => match parse_bool_spec(trim(t@)) {
            Some(b) => b,
            None => cur,
        },
        None => cur,
    }
}

/// A credential: replaced by any value that is set.
pub open spec fn secret_override(v: Option<String>, cur: Option<String>) -> Option<String> {
    match v {
        Some(t) => Some(t),
        None => cur,
    }
}

/// `n` is `o` with the environment values `e` laid over it.
pub open spec fn overlaid(n: AppConfig, o: AppConfig, e: EnvOverrides) -> bool {
    &&& n.server.host == text_override(e.host, o.server.host)
    &&& n.server.port == port_override(e.port, o.server.port)
    &&& n.data_dir == text_override(e.data_dir, o.data_dir)
    &&& n.soulseek.server_addr == text_override(e.soulseek_server_addr, o.soulseek.server_addr)
    &&& n.torrent.download_root == text_override(e.torrent_download_root, o.torrent.download_root)
    &&& n.soulseek.download_root == text_override(e.soulseek_download_root, o.soulseek.download_root)
    &&& n.postprocess.library_root == text_override(
        e.postprocess_library_root,
        o.postprocess.library_root,
    )
    &&& n.torrent.enabled == flag_override(e.torrent_enabled, o.torrent.enabled)
    &&& n.torrent.engine == text_override(e.torrent_engine, o.torrent.engine)
    &&& n.soulseek.enabled == flag_override(e.soulseek_enabled, o.soulseek.enabled)
    &&& n.hook_search.enabled == flag_override(e.hook_search_enabled, o.hook_search.enabled)
    &&& n.soulseek.listen_port == port_override(e.soulseek_listen_port, o.soulseek.listen_port)
    &&& n.torrent.listen_port == opt_port_override(e.torrent_listen_port, o.torrent.listen_port)
    &&& n.soulseek.username == secret_override(e.soulseek_username, o.soulseek.username)
    &&& n.soulseek.password == secret_override(e.soulseek_password, o.soulseek.password)
    &&& n.torrent.download_rate_limit == o.torrent.download_rate_limit
    &&& n.torrent.upload_rate_limit == o.torrent.upload_rate_limit
    &&& n.torrent.enable_dht == o.torrent.enable_dht
    &&& n.torrent.enable_pex == o.torrent.enable_pex
    &&& n.torrent.enable_lsd == o.torrent.enable_lsd
    &&& n.torrent.enable_tracker == o.torrent.enable_tracker
    &&& n.hook_search.command == o.hook_search.command
    &&& n.hook_search.domains == o.hook_search.domains
    &&& n.hook_search.sites == o.hook_search.sites
    &&& n.hook_search.timeout_secs == o.hook_search.timeout_secs
    &&& n.hook_search.max_results == o.hook_search.max_results
    &&& n.postprocess.auto_organize == o.postprocess.auto_organize
    &&& n.postprocess.tv_dir == o.postprocess.tv_dir
    &&& n.postprocess.movies_dir == o.postprocess.movies_dir
    &&& n.postprocess.anime_dir == o.postprocess.anime_dir
    &&& n.search_result_ttl_hours == o.search_result_ttl_hours
}

/// `e` holds what `get` gave for each variable.
pub open spec fn env_read<F: Fn(&str) -> Option<String>>(get: F, e: EnvOverrides) -> bool {
    &&& get.ensures(("AGPEER_HOST",), e.host)
    &&& get.ensures(("AGPEER_PORT",), e.port)
    &&& get.ensures(("AGPEER_DATA_DIR",), e.data_dir)
    &&& get.ensures(("AGPEER_SOULSEEK_SERVER_ADDR",), e.soulseek_server_addr)
    &&& get.ensures(("AGPEER_TORRENT_DOWNLOAD_ROOT",), e.torrent_download_root)
    &&& get.ensures(("AGPEER_SOULSEEK_DOWNLOAD_ROOT",), e.soulseek_download_root)
    &&& get.ensures(("AGPEER_POSTPROCESS_LIBRARY_ROOT",), e.postprocess_library_root)
    &&& get.ensures(("AGPEER_TORRENT_ENABLED",), e.torrent_enabled)
    &&& get.ensures(("AGPEER_TORRENT_ENGINE",), e.torrent_engine)
    &&& get.ensures(("AGPEER_SOULSEEK_ENABLED",), e.soulseek_enabled)
    &&& get.ensures(("AGPEER_HOOK_SEARCH_ENABLED",), e.hook_search_enabled)
    &&& get.ensures(("AGPEER_SOULSEEK_LISTEN_PORT",), e.soulseek_listen_port)
    &&& get.ensures(("AGPEER_TORRENT_LISTEN_PORT",), e.torrent_listen_port)
    &&& get.ensures(("AGPEER_SOULSEEK_USERNAME",), e.soulseek_username)
    &&& get.ensures(("AGPEER_SOULSEEK_PASSWORD",), e.soulseek_password)
}

fn text_value(v: Option<String>, cur: &mut String)
    ensures
        *final(cur) == text_override(v, *old(cur)),
{
    if let Some(t) = v {
        if !is_blank(t.as_str()) {
            *cur = t;
        }
    }
}

fn port_value(v: Option<String>, cur: &mut u16)
    ensures
        *final(cur) == port_override(v, *old(cur)),
{
    if let Some(t) = v {
        if let Some(p) = parse_u16(t.as_str()) {
            *cur = p;
        }
    }
}

fn flag_value(v: Option<String>, cur: &mut bool)
    ensures
        *final(cur) == flag_override(v, *old(cur)),
{
    if let Some(t) = v {
        let trimmed = trim_str(t.as_str());
        if let Some(b) = parse_bool(trimmed.as_str()) {
            *cur = b;
        }
    }
}

impl AppConfig {
    /// Lays the environment values over the configuration: text values
    /// replace a setting unless blank, ports and switches unless they do not
    /// parse, credentials whenever set.
    pub fn apply_env(&mut self, env: EnvOverrides)
        ensures
            overlaid(*final(self), *old(self), env),
    {
        let EnvOverrides {
            host,
            port,
            data_dir,
            soulseek_server_addr,
            torrent_download_root,
            soulseek_download_root,
            postprocess_library_root,
            torrent_enabled,
            torrent_engine,
            soulseek_enabled,
            hook_search_enabled,
            soulseek_listen_port,
            torrent_listen_port,
            soulseek_username,
            soulseek_password,
        } = env;
        text_value(host, &mut self.server.host);
        port_value(port, &mut self.server.port);
        text_value(data_dir, &mut self.data_dir);
        text_value(soulseek_server_addr, &mut self.soulseek.server_addr);
        text_value(torrent_download_root, &mut self.torrent.download_root);
        text_value(soulseek_download_root, &mut self.soulseek.download_root);
        text_value(postprocess_library_root, &mut self.postprocess.library_root);
        flag_value(torrent_enabled, &mut self.torrent.enabled);
        text_value(torrent_engine, &mut self.torrent.engine);
        flag_value(soulseek_enabled, &mut self.soulseek.enabled);
        flag_value(hook_search_enabled, &mut self.hook_search.enabled);
        port_value(soulseek_listen_port, &mut self.soulseek.listen_port);
        if let Some(t) = torrent_listen_port {
            if let Some(p) = parse_u16(t.as_str()) {
                self.torrent.listen_port = Some(p);
            }
        }
        if let Some(u) = soulseek_username {
            self.soulseek.username = Some(u);
        }
        if let Some(p) = soulseek_password {
            self.soulseek.password = Some(p);
        }
    }

    /// Overlays the values that `get` gives for the environment variables
    /// (see [`EnvOverrides`]), which keeps the logic testable without the
    /// process environment.
    pub fn apply_env_overrides_from<F: Fn(&str) -> Option<String>>(&mut self, get: F)
        requires
            forall|k: &str| #[trigger] get.requires((k,)),
        ensures
            exists|e: EnvOverrides| env_read(get, e) && overlaid(*final(self), *old(self), e),
    {
        let env = EnvOverrides {
            host: get("AGPEER_HOST"),
            port: get("AGPEER_PORT"),
            data_dir: get("AGPEER_DATA_DIR"),
            soulseek_server_addr: get("AGPEER_SOULSEEK_SERVER_ADDR"),
            torrent_download_root: get("AGPEER_TORRENT_DOWNLOAD_ROOT"),
            soulseek_download_root: get("AGPEER_SOULSEEK_DOWNLOAD_ROOT"),
            postprocess_library_root: get("AGPEER_POSTPROCESS_LIBRARY_ROOT"),
            torrent_enabled: get("AGPEER_TORRENT_ENABLED"),
            torrent_engine: get("AGPEER_TORRENT_ENGINE"),
            soulseek_enabled: get("AGPEER_SOULSEEK_ENABLED"),
            hook_search_enabled: get("AGPEER_HOOK_SEARCH_ENABLED"),
            soulseek_listen_port: get("AGPEER_SOULSEEK_LISTEN_PORT"),
            torrent_listen_port: get("AGPEER_TORRENT_LISTEN_PORT"),
            soulseek_username: get("AGPEER_SOULSEEK_USERNAME"),
            soulseek_password: get("AGPEER_SOULSEEK_PASSWORD"),
        };
        let ghost e = env;
        self.apply_env(env);
        assert(env_read(get, e) && overlaid(*self, *old(self), e));
    }

    /// A blank data directory (a missing or misplaced key in the file)
    /// falls back to `default`.
    pub fn settle_data_dir(&mut self, default: String)
        ensures
            final(self).data_dir@ == if trim(old(self).data_dir@).len() == 0 {
                default@
            } else {
                old(self).data_dir@
            },
            final(self).server == old(self).server,
            final(self).torrent == old(self).torrent,
            final(self).soulseek == old(self).soulseek,
            final(self).hook_search == old(self).hook_search,
            final(self).postprocess == old(self).postprocess,
            final(self).search_result_ttl_hours == old(self).search_result_ttl_hours,
    {
        if is_blank(self.data_dir.as_str()) {
            self.data_dir = default;
        }
    }

    /// The database file: `agpeer.sqlite` in the data directory.
    pub fn db_path(&self) -> (r: String)
        ensures
            r@ == join(self.data_dir@, "agpeer.sqlite"@),
    {
        let f = chars_of("agpeer.sqlite");
        crate::paths::join_path(&self.data_dir, f.as_slice())
    }

    /// The API token file: `token` in the data directory.
    pub fn token_file(&self) -> (r: String)
        ensures
            r@ == join(self.data_dir@, "token"@),
    {
        let f = chars_of("token");
        crate::paths::join_path(&self.data_dir, f.as_slice())
    }
}

/// Whether completed transfers are organized automatically: switched on,
/// with a library root that is not blank.
pub fn auto_organize_enabled(config: &AppConfig) -> (b: bool)
    ensures
        b == (config.postprocess.auto_organize && trim(config.postprocess.library_root@).len() > 0),
{
    config.postprocess.auto_organize && !is_blank(config.postprocess.library_root.as_str())
}

/// Overlaying the same environment twice gives what overlaying it once
/// gives.
pub proof fn law_overlay_idempotent(o: AppConfig, n1: AppConfig, n2: AppConfig, e: EnvOverrides)
    requires
        overlaid(n1, o, e),
        overlaid(n2, n1, e),
    ensures
        n2 == n1,
{
}

/// With no variable set, the overlay changes nothing.
pub proof fn law_empty_env_keeps_config(o: AppConfig, n: AppConfig, e: EnvOverrides)
    requires
        overlaid(n, o, e),
        e.host is None && e.port is None && e.data_dir is None && e.soulseek_server_addr is None
            && e.torrent_download_root is None && e.soulseek_download_root is None
            && e.postprocess_library_root is None && e.torrent_enabled is None
            && e.torrent_engine is None && e.soulseek_enabled is None && e.hook_search_enabled is None
            && e.soulseek_listen_port is None && e.torrent_listen_port is None
            && e.soulseek_username is None && e.soulseek_password is None,
    ensures
        n == o,
{
}

} // verus!
