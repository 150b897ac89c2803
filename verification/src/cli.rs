//! Command-line entry: resolves the server's configuration from the command
//! line, the environment and the config file.

use vstd::prelude::*;

pub use crate::config::CliArgs;
use crate::config::{
    default_database_path, default_host, default_projector_root, default_remocon_root, first_set, first_some, opt_text,
    resolved_port, setting, ConfigError, SettingsLayer,
};
use crate::text::decimal;
use crate::{AppConfig, DatabaseConfig, FrontendConfig, ServerConfig};

verus! {

/// Whether the command line sets the host or the port, which then make up
/// the listen address.
pub open spec fn flags_set_addr(cli: CliArgs) -> bool {
    cli.host is Some || cli.port is Some
}

/// The host that the sources settle on.
pub open spec fn resolved_host(cli: CliArgs, file: SettingsLayer, env: SettingsLayer) -> Seq<char> {
    first_set(opt_text(cli.host), opt_text(env.server_host), opt_text(file.server_host), default_host())
}

/// The listen address that the sources settle on, if any: `host:port` when
/// the command line sets the host or the port (each part taken from the
/// command line, else the environment, else the file, else its default);
/// otherwise the address that the environment or the file sets.
pub open spec fn resolved_listen_addr(cli: CliArgs, file: SettingsLayer, env: SettingsLayer) -> Option<Seq<char>> {
    if flags_set_addr(cli) {
        Some(resolved_host(cli, file, env) + ":"@ + decimal(resolved_port(cli, file, env) as nat))
    } else {
        first_some(None, opt_text(env.server_listen_addr), opt_text(file.server_listen_addr))
    }
}

/// The server configuration that the sources settle on, over the built-in
/// defaults.
pub open spec fn resolved_app_config_ok(cli: CliArgs, file: SettingsLayer, env: SettingsLayer, c: AppConfig) -> bool {
    &&& c.database.path@ == first_set(
        opt_text(cli.db_path),
        opt_text(env.database_path),
        opt_text(file.database_path),
        default_database_path(),
    )
    &&& Some(c.server.listen_addr@) == resolved_listen_addr(cli, file, env)
    &&& c.projector.root@ == first_set(
        opt_text(cli.projector_root),
        opt_text(env.projector_root),
        opt_text(file.projector_root),
        default_projector_root(),
    )
    &&& c.remocon.root@ == first_set(
        opt_text(cli.remocon_root),
        opt_text(env.remocon_root),
        opt_text(file.remocon_root),
        default_remocon_root(),
    )
}

/// Resolves the server configuration from its sources: each setting from
/// the command line, else the environment, else the config file, else its
/// default. `--host` and `--port` override the listen address: when either
/// is given, the server listens on `host:port`. Otherwise the listen address
/// must be set by the environment or the file.
pub fn parse_cli_args(cli: &CliArgs, file: &SettingsLayer, env: &SettingsLayer) -> (r: Result<AppConfig, ConfigError>)
    ensures
        flags_set_addr(*cli) && !(0 <= resolved_port(*cli, *file, *env) <= 65535) ==> (r matches Err(
            ConfigError::PortOutOfRange(p),
        ) && p == resolved_port(*cli, *file, *env)),
        flags_set_addr(*cli) && 0 <= resolved_port(*cli, *file, *env) <= 65535 ==> (r matches Ok(c)
            && resolved_app_config_ok(*cli, *file, *env, c)),
        !flags_set_addr(*cli) && resolved_listen_addr(*cli, *file, *env) is Some ==> (r matches Ok(c)
            && resolved_app_config_ok(*cli, *file, *env, c)),
        !flags_set_addr(*cli) && resolved_listen_addr(*cli, *file, *env) is None ==> (r matches Err(
            ConfigError::MissingField(f),
        ) && f@ == "listen_addr"@),
{
    let listen_addr = if cli.host.is_some() || cli.port.is_some() {
        let port: i64 = match cli.port {
            Some(p) => p as i64,
            None => match env.server_port {
                Some(p) => p,
                None => match file.server_port {
                    Some(p) => p,
                    None => 3000,
                },
            },
        };
        if port < 0 || port > 65535 {
            return Err(ConfigError::PortOutOfRange(port));
        }
        let server = crate::config::ServerConfig {
            host: setting(&cli.host, &env.server_host, &file.server_host, "127.0.0.1"),
            port: port as u16,
        };
        server.listen_addr()
    } else {
        match &env.server_listen_addr {
            Some(a) => a.clone(),
            None => match &file.server_listen_addr {
                Some(a) => a.clone(),
                None => {
                    return Err(ConfigError::MissingField("listen_addr"));
                },
            },
        }
    };
    let database = DatabaseConfig { path: setting(&cli.db_path, &env.database_path, &file.database_path, "kf2.db") };
    let projector = FrontendConfig {
        root: setting(
            &cli.projector_root,
            &env.projector_root,
            &file.projector_root,
            "src/frontend/packages/projector/dist",
        ),
    };
    let remocon = FrontendConfig {
        root: setting(
            &cli.remocon_root,
            &env.remocon_root,
            &file.remocon_root,
            "src/frontend/packages/remocon/dist",
        ),
    };
    Ok(AppConfig { database, server: ServerConfig { listen_addr }, projector, remocon })
}

/// Each setting comes from the first source that sets it: the command line,
/// then the environment, then the config file, then the built-in default.
/// The listen address is `host:port` when both `--host` and `--port` are
/// given; otherwise, without either flag, the environment's address, else
/// the file's.
pub proof fn law_sources_precedence(cli: CliArgs, file: SettingsLayer, env: SettingsLayer, c: AppConfig)
    requires
        resolved_app_config_ok(cli, file, env, c),
    ensures
        cli.db_path matches Some(x) ==> c.database.path@ == x@,
        cli.db_path is None ==> (env.database_path matches Some(x) ==> c.database.path@ == x@),
        cli.db_path is None && env.database_path is None ==> (file.database_path matches Some(x)
            ==> c.database.path@ == x@),
        cli.db_path is None && env.database_path is None && file.database_path is None ==> c.database.path@
            == "kf2.db"@,
        cli.projector_root matches Some(x) ==> c.projector.root@ == x@,
        cli.projector_root is None ==> (env.projector_root matches Some(x) ==> c.projector.root@ == x@),
        cli.projector_root is None && env.projector_root is None ==> (file.projector_root matches Some(x)
            ==> c.projector.root@ == x@),
        cli.projector_root is None && env.projector_root is None && file.projector_root is None
            ==> c.projector.root@ == "src/frontend/packages/projector/dist"@,
        cli.remocon_root matches Some(x) ==> c.remocon.root@ == x@,
        cli.remocon_root is None ==> (env.remocon_root matches Some(x) ==> c.remocon.root@ == x@),
        cli.remocon_root is None && env.remocon_root is None ==> (file.remocon_root matches Some(x)
            ==> c.remocon.root@ == x@),
        cli.remocon_root is None && env.remocon_root is None && file.remocon_root is None
            ==> c.remocon.root@ == "src/frontend/packages/remocon/dist"@,
        cli.host matches Some(h) ==> (cli.port matches Some(p) ==> c.server.listen_addr@ == h@ + ":"@
            + decimal(p as nat)),
        cli.host is None && cli.port is None ==> (env.server_listen_addr matches Some(a)
            ==> c.server.listen_addr@ == a@),
        cli.host is None && cli.port is None && env.server_listen_addr is None ==> (
        file.server_listen_addr matches Some(a) ==> c.server.listen_addr@ == a@),
{
}

} // verus!
