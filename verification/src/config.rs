//! Server configuration and how it is resolved from its sources.
//!
//! Each setting is taken from the first source that sets it, in this order:
//! a command-line override, the environment (`KF2__<SECTION>__<KEY>`), the
//! config file, and finally a built-in default. Reading the file, the
//! environment and the command line is the caller's part; it hands the
//! values over as [`SettingsLayer`]s and [`CliArgs`].

use vstd::prelude::*;

use crate::text::{chars_of, concat_str, decimal, decimal_string, has_prefix, signed_decimal, signed_decimal_string, trim_start, trim_start_chars};

verus! {

/// The configuration of the server.
#[derive(Debug, Clone)]
pub struct AppConfig {
    pub database: DatabaseConfig,
    pub server: ServerConfig,
    pub projector: FrontendConfig,
    pub remocon: FrontendConfig,
}

#[derive(Debug, Clone)]
pub struct DatabaseConfig {
    pub path: String,
}

#[derive(Debug, Clone)]
pub struct ServerConfig {
    pub host: String,
    pub port: u16,
}

/// `host:port`.
pub open spec fn listen_addr_text(host: Seq<char>, port: u16) -> Seq<char> {
    host + ":"@ + decimal(port as nat)
}

impl ServerConfig {
    /// The `host:port` text to bind the listener to.
    pub fn listen_addr(&self) -> (r: String)
        ensures
            r@ == listen_addr_text(self.host@, self.port),
    {
        let a = concat_str(self.host.as_str(), ":");
        let p = decimal_string(self.port as u64);
        a.concat(p.as_str())
    }
}

/// A frontend single-page app. `root` is either the path of a built `dist`
/// directory, served as static files, or the `http://` / `https://` URL of a
/// development server, to which requests are forwarded.
#[derive(Debug, Clone)]
pub struct FrontendConfig {
    pub root: String,
}

/// `root`, after any leading whitespace, is an HTTP(S) URL.
pub open spec fn is_http_root(root: Seq<char>) -> bool {
    has_prefix(trim_start(root), "http://"@) || has_prefix(trim_start(root), "https://"@)
}

/// Whether `v` begins with the characters of `p`.
fn begins_with(v: &Vec<char>, p: &str) -> (r: bool)
    ensures
        r == has_prefix(v@, p@),
{
    let pv = chars_of(p);
    crate::text::starts_with(v.as_slice(), pv.as_slice())
}

/// Whether a frontend root names an HTTP(S) development server.
pub fn root_is_http(root: &str) -> (r: bool)
    ensures
        r == is_http_root(root@),
{
    let v = chars_of(root);
    let t = trim_start_chars(v.as_slice());
    begins_with(&t, "http://") || begins_with(&t, "https://")
}

impl FrontendConfig {
    /// True when `root` is an HTTP(S) URL, whose requests are forwarded.
    pub fn is_dev_server(&self) -> (r: bool)
        ensures
            r == is_http_root(self.root@),
    {
        root_is_http(self.root.as_str())
    }
}

/// The command-line arguments of the server.
#[derive(Debug, Clone)]
pub struct CliArgs {
    /// Path to the config file (by default `kf2.toml`).
    pub config: String,
    /// Database file path (overrides the config).
    pub db_path: Option<String>,
    /// Server host (overrides the config).
    pub host: Option<String>,
    /// Server port (overrides the config).
    pub port: Option<u16>,
    /// Projector frontend root (overrides the config).
    pub projector_root: Option<String>,
    /// Remocon frontend root (overrides the config).
    pub remocon_root: Option<String>,
}

/// The settings that one source (the config file, or the environment) sets.
#[derive(Debug, Clone)]
pub struct SettingsLayer {
    pub database_path: Option<String>,
    pub server_host: Option<String>,
    /// The port as the source gives it, already read as an integer.
    pub server_port: Option<i64>,
    pub server_listen_addr: Option<String>,
    pub projector_root: Option<String>,
    pub remocon_root: Option<String>,
}

impl SettingsLayer {
    /// A source that sets nothing.
    pub fn empty() -> (r: Self)
        ensures
            r.database_path is None,
            r.server_host is None,
            r.server_port is None,
            r.server_listen_addr is None,
            r.projector_root is None,
            r.remocon_root is None,
    {
        SettingsLayer {
            database_path: None,
            server_host: None,
            server_port: None,
            server_listen_addr: None,
            projector_root: None,
            remocon_root: None,
        }
    }
}

/// Why a configuration could not be resolved.
#[derive(Debug, Clone)]
pub enum ConfigError {
    /// The port setting is not a number from 0 to 65535.
    PortOutOfRange(i64),
    /// A required setting is set by no source.
    MissingField(&'static str),
}

impl ConfigError {
    /// The error's message, as it is displayed to users.
    pub fn to_string(&self) -> (r: String)
        ensures
            match self {
                ConfigError::PortOutOfRange(p) => r@ == "invalid value: integer `"@ + signed_decimal(
                    *p as int,
                ) + "`, expected u16 for key `server.port`"@,
                ConfigError::MissingField(f) => r@ == "missing field `"@ + f@ + "`"@,
            },
    {
        match self {
            ConfigError::PortOutOfRange(p) => {
                let n = signed_decimal_string(*p);
                let a = concat_str("invalid value: integer `", n.as_str());
                a.concat("`, expected u16 for key `server.port`")
            },
            ConfigError::MissingField(f) => {
                let a = concat_str("missing field `", f);
                a.concat("`")
            },
        }
    }
}

/// The text of an optional setting.
pub open spec fn opt_text(o: Option<String>) -> Option<Seq<char>> {
    match o {
        Some(s) => Some(s@),
        None => None,
    }
}

/// The first of the sources, from the highest precedence down, that sets a
/// value; `default` when none does.
pub open spec fn first_set<T>(over: Option<T>, env: Option<T>, file: Option<T>, default: T) -> T {
    match over {
        Some(v) => v,
        None => match env {
            Some(v) => v,
            None => match file {
                Some(v) => v,
                None => default,
            },
        },
    }
}

/// The first of the sources that sets a value, if any.
pub open spec fn first_some<T>(over: Option<T>, env: Option<T>, file: Option<T>) -> Option<T> {
    match over {
        Some(v) => Some(v),
        None => match env {
            Some(v) => Some(v),
            None => file,
        },
    }
}

/// The first of the optional texts that is set, from the highest precedence
/// down.
fn first_text(over: &Option<String>, env: &Option<String>, file: &Option<String>) -> (r: Option<String>)
    ensures
        opt_text(r) == first_some(opt_text(*over), opt_text(*env), opt_text(*file)),
{
    match over {
        Some(v) => Some(v.clone()),
        None => match env {
            Some(v) => Some(v.clone()),
            None => match file {
                Some(v) => Some(v.clone()),
                None => None,
            },
        },
    }
}

/// A text setting, falling back on `default`.
pub(crate) fn setting(over: &Option<String>, env: &Option<String>, file: &Option<String>, default: &str) -> (r: String)
    ensures
        r@ == first_set(opt_text(*over), opt_text(*env), opt_text(*file), default@),
{
    match first_text(over, env, file) {
        Some(v) => v,
        None => String::from_str(default),
    }
}

pub open spec fn default_database_path() -> Seq<char> {
    "kf2.db"@
}

pub open spec fn default_host() -> Seq<char> {
    "127.0.0.1"@
}

pub open spec fn default_port() -> i64 {
    3000
}

pub open spec fn default_projector_root() -> Seq<char> {
    "src/frontend/packages/projector/dist"@
}

pub open spec fn default_remocon_root() -> Seq<char> {
    "src/frontend/packages/remocon/dist"@
}

/// The port override of the command line, as an integer.
pub open spec fn cli_port(cli: CliArgs) -> Option<i64> {
    match cli.port {
        Some(p) => Some(p as i64),
        None => None,
    }
}

/// The port that the sources settle on, before its range is checked.
pub open spec fn resolved_port(cli: CliArgs, file: SettingsLayer, env: SettingsLayer) -> i64 {
    first_set(cli_port(cli), env.server_port, file.server_port, default_port())
}

/// The configuration that the command line, the environment and the config
/// file settle on, over the built-in defaults; an error when the port that
/// they settle on does not fit in 16 bits.
pub open spec fn resolved_config_ok(cli: CliArgs, file: SettingsLayer, env: SettingsLayer, c: AppConfig) -> bool {
    &&& c.database.path@ == first_set(
        opt_text(cli.db_path),
        opt_text(env.database_path),
        opt_text(file.database_path),
        default_database_path(),
    )
    &&& c.server.host@ == first_set(
        opt_text(cli.host),
        opt_text(env.server_host),
        opt_text(file.server_host),
        default_host(),
    )
    &&& c.server.port as int == resolved_port(cli, file, env) as int
    &&& c.projector.root@ == first_set(
        opt_text(cli.projector_root),
        opt_text(env.projector_root),
        opt_text(file.projector_root),
        default_projector_root(),
    )
    &&& c.remocon.root@ == first_set(
        opt_text(cli.remocon_root),
        opt_text(env.remocon_root),
        opt_text(file.remocon_root),
        default_remocon_root(),
    )
}

/// Resolves the configuration from its sources (see the module's
/// documentation for the order of precedence).
pub fn load_config(cli: &CliArgs, file: &SettingsLayer, env: &SettingsLayer) -> (r: Result<AppConfig, ConfigError>)
    ensures
        0 <= resolved_port(*cli, *file, *env) <= 65535 ==> (r matches Ok(c) && resolved_config_ok(
            *cli,
            *file,
            *env,
            c,
        )),
        !(0 <= resolved_port(*cli, *file, *env) <= 65535) ==> (r matches Err(
            ConfigError::PortOutOfRange(p),
        ) && p == resolved_port(*cli, *file, *env)),
{
    let over_port: Option<i64> = match cli.port {
        Some(p) => Some(p as i64),
        None => None,
    };
    let port: i64 = match over_port {
        Some(p) => p,
        None => match env.server_port {
            Some(p) => p,
            None => match file.server_port {
                Some(p) => p,
                None => 3000,
            },
        },
    };
    if port < 0 || port > 65535 {
        return Err(ConfigError::PortOutOfRange(port));
    }
    let database = DatabaseConfig {
        path: setting(&cli.db_path, &env.database_path, &file.database_path, "kf2.db"),
    };
    let server = ServerConfig {
        host: setting(&cli.host, &env.server_host, &file.server_host, "127.0.0.1"),
        port: port as u16,
    };
    let projector = FrontendConfig {
        root: setting(
            &cli.projector_root,
            &env.projector_root,
            &file.projector_root,
            "src/frontend/packages/projector/dist",
        ),
    };
    let remocon = FrontendConfig {
        root: setting(&cli.remocon_root, &env.remocon_root, &file.remocon_root, "src/frontend/packages/remocon/dist"),
    };
    Ok(AppConfig { database, server, projector, remocon })
}

/// In the full configuration, the host and the port each come from the
/// command line, else the environment, else the config file, else the
/// defaults `127.0.0.1` and `3000`; so does the database path.
pub proof fn law_config_sources_precedence(cli: CliArgs, file: SettingsLayer, env: SettingsLayer, c: AppConfig)
    requires
        resolved_config_ok(cli, file, env, c),
    ensures
        cli.host matches Some(x) ==> c.server.host@ == x@,
        cli.host is None ==> (env.server_host matches Some(x) ==> c.server.host@ == x@),
        cli.host is None && env.server_host is None ==> (file.server_host matches Some(x) ==> c.server.host@
            == x@),
        cli.host is None && env.server_host is None && file.server_host is None ==> c.server.host@
            == "127.0.0.1"@,
        cli.port matches Some(p) ==> c.server.port == p,
        cli.port is None ==> (env.server_port matches Some(p) ==> c.server.port as int == p as int),
        cli.port is None && env.server_port is None ==> (file.server_port matches Some(p) ==> c.server.port as int
            == p as int),
        cli.port is None && env.server_port is None && file.server_port is None ==> c.server.port == 3000,
        cli.db_path matches Some(x) ==> c.database.path@ == x@,
        cli.db_path is None ==> (env.database_path matches Some(x) ==> c.database.path@ == x@),
        cli.db_path is None && env.database_path is None ==> (file.database_path matches Some(x)
            ==> c.database.path@ == x@),
        cli.db_path is None && env.database_path is None && file.database_path is None ==> c.database.path@
            == "kf2.db"@,
{
}

} // verus!
