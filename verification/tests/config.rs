use kf2_server::cli::parse_cli_args;
use kf2_server::config::{load_config, CliArgs, ConfigError, FrontendConfig, ServerConfig, SettingsLayer};

fn no_args() -> CliArgs {
    CliArgs { config: "kf2.toml".into(), db_path: None, host: None, port: None, projector_root: None, remocon_root: None }
}

#[test]
fn defaults_apply_when_nothing_is_set() {
    let c = load_config(&no_args(), &SettingsLayer::empty(), &SettingsLayer::empty()).unwrap();
    assert_eq!(c.database.path, "kf2.db");
    assert_eq!(c.server.host, "127.0.0.1");
    assert_eq!(c.server.port, 3000);
    assert_eq!(c.projector.root, "src/frontend/packages/projector/dist");
    assert_eq!(c.remocon.root, "src/frontend/packages/remocon/dist");
    assert_eq!(c.server.listen_addr(), "127.0.0.1:3000");
}

#[test]
fn command_line_beats_environment_beats_file() {
    let mut file = SettingsLayer::empty();
    file.server_host = Some("file-host".into());
    file.server_port = Some(1000);
    file.database_path = Some("file.db".into());
    file.remocon_root = Some("file-remocon".into());
    let mut env = SettingsLayer::empty();
    env.server_host = Some("env-host".into());
    env.server_port = Some(2000);
    let mut cli = no_args();
    cli.port = Some(4000);
    let c = load_config(&cli, &file, &env).unwrap();
    assert_eq!(c.server.host, "env-host");
    assert_eq!(c.server.port, 4000);
    assert_eq!(c.database.path, "file.db");
    assert_eq!(c.remocon.root, "file-remocon");
}

#[test]
fn out_of_range_port_is_refused() {
    let mut env = SettingsLayer::empty();
    env.server_port = Some(70000);
    let err = load_config(&no_args(), &SettingsLayer::empty(), &env).unwrap_err();
    assert!(matches!(err, ConfigError::PortOutOfRange(70000)));
    assert_eq!(err.to_string(), "invalid value: integer `70000`, expected u16 for key `server.port`");
    env.server_port = Some(-1);
    assert!(matches!(load_config(&no_args(), &SettingsLayer::empty(), &env), Err(ConfigError::PortOutOfRange(-1))));
}

#[test]
fn listen_addr_formats_host_and_port() {
    let s = ServerConfig { host: "0.0.0.0".into(), port: 8080 };
    assert_eq!(s.listen_addr(), "0.0.0.0:8080");
}

#[test]
fn dev_server_roots() {
    let f = |r: &str| FrontendConfig { root: r.into() };
    assert!(f("http://localhost:5173").is_dev_server());
    assert!(f("  https://x").is_dev_server());
    assert!(!f("dist").is_dev_server());
    assert!(!f("HTTP://x").is_dev_server());
    assert!(f("\u{3000}http://x").is_http_endpoint());
    assert!(!f("ftp://x").is_http_endpoint());
}

#[test]
fn server_config_needs_a_listen_address() {
    let err = parse_cli_args(&no_args(), &SettingsLayer::empty(), &SettingsLayer::empty()).unwrap_err();
    assert_eq!(err.to_string(), "missing field `listen_addr`");
    let mut file = SettingsLayer::empty();
    file.server_listen_addr = Some("127.0.0.1:9".into());
    let mut env = SettingsLayer::empty();
    env.server_listen_addr = Some("0.0.0.0:80".into());
    let mut cli = no_args();
    cli.db_path = Some("cli.db".into());
    let c = parse_cli_args(&cli, &file, &env).unwrap();
    assert_eq!(c.server.listen_addr, "0.0.0.0:80");
    assert_eq!(c.database.path, "cli.db");
    let c = parse_cli_args(&no_args(), &file, &SettingsLayer::empty()).unwrap();
    assert_eq!(c.server.listen_addr, "127.0.0.1:9");
}

#[test]
fn host_and_port_flags_override_the_listen_address() {
    let mut env = SettingsLayer::empty();
    env.server_listen_addr = Some("127.0.0.1:3000".into());
    let mut cli = no_args();
    cli.host = Some("0.0.0.0".into());
    cli.port = Some(8080);
    let c = parse_cli_args(&cli, &SettingsLayer::empty(), &env).unwrap();
    assert_eq!(c.server.listen_addr, "0.0.0.0:8080");
    // One flag alone: the other part comes from the sources or its default.
    let mut cli = no_args();
    cli.port = Some(9000);
    let c = parse_cli_args(&cli, &SettingsLayer::empty(), &env).unwrap();
    assert_eq!(c.server.listen_addr, "127.0.0.1:9000");
    let mut file = SettingsLayer::empty();
    file.server_port = Some(70000);
    let mut cli = no_args();
    cli.host = Some("h".into());
    assert!(matches!(parse_cli_args(&cli, &file, &env), Err(ConfigError::PortOutOfRange(70000))));
}
