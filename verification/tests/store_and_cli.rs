use gg_runtime::cli::{describe_auth_source, parse_cli, AuthBootstrapSource, CliCommand, CliError};
use gg_runtime::error::RuntimeError;
use gg_runtime::store::{SqliteRuntimeStore, SqliteStoreConfig};

fn args(list: &[&str]) -> Vec<String> {
    list.iter().map(|s| s.to_string()).collect()
}

#[test]
fn store_reports_its_database_path() {
    let store = SqliteRuntimeStore::new(SqliteStoreConfig {
        database_path: "/var/lib/gg/runtime.sqlite3".to_string(),
    });
    assert_eq!(store.database_path(), "/var/lib/gg/runtime.sqlite3");
    assert!(store.healthcheck_for(true).is_ok());
    assert_eq!(
        store.healthcheck_for(false),
        Err(RuntimeError::Bootstrap(
            "database path is not a file: /var/lib/gg/runtime.sqlite3".to_string()
        ))
    );
}

#[test]
fn cli_serves_by_default() {
    match parse_cli(args(&[])) {
        Ok(CliCommand::Serve { config_path }) => assert_eq!(config_path, None),
        other => panic!("unexpected {other:?}"),
    }
    match parse_cli(args(&["--config", "a.toml", "--config", "b.toml"])) {
        Ok(CliCommand::Serve { config_path }) => assert_eq!(config_path.as_deref(), Some("b.toml")),
        other => panic!("unexpected {other:?}"),
    }
}

#[test]
fn cli_write_openapi_takes_precedence() {
    match parse_cli(args(&["--config", "a.toml", "--write-openapi", "out.yaml"])) {
        Ok(CliCommand::WriteOpenApi { path }) => assert_eq!(path, "out.yaml"),
        other => panic!("unexpected {other:?}"),
    }
    match parse_cli(args(&["--write-openapi"])) {
        Ok(CliCommand::WriteOpenApi { path }) => {
            assert_eq!(path, "openapi/runtime-server-openapi.yaml")
        }
        other => panic!("unexpected {other:?}"),
    }
    // The option takes the next argument whatever it is.
    match parse_cli(args(&["--write-openapi", "--config"])) {
        Ok(CliCommand::WriteOpenApi { path }) => assert_eq!(path, "--config"),
        other => panic!("unexpected {other:?}"),
    }
}

#[test]
fn cli_refuses_bad_arguments() {
    match parse_cli(args(&["--config"])) {
        Err(e @ CliError::MissingConfigValue) => {
            assert_eq!(e.message(), "--config requires a path argument")
        }
        other => panic!("unexpected {other:?}"),
    }
    match parse_cli(args(&["--verbose", "--config"])) {
        Err(e @ CliError::UnknownArgument(_)) => assert_eq!(e.message(), "unknown argument: --verbose"),
        other => panic!("unexpected {other:?}"),
    }
}

#[test]
fn auth_sources_are_described() {
    assert_eq!(describe_auth_source(&AuthBootstrapSource::InlineConfig), "inline-config");
    assert_eq!(
        describe_auth_source(&AuthBootstrapSource::TokenFileExisting {
            path: "/home/u/.gg-runtime/token".to_string()
        }),
        "token-file-existing:/home/u/.gg-runtime/token"
    );
    assert_eq!(
        describe_auth_source(&AuthBootstrapSource::TokenFileCreated { path: "t".to_string() }),
        "token-file-created:t"
    );
}
