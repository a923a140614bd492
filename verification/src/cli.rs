//! The server's command line and the description of where its API token
//! came from.
use vstd::prelude::*;

use crate::text::str_eq;

verus! {

/// What the server was asked to do.
#[derive(Debug, Clone)]
pub enum CliCommand {
    /// Serve the API, with the configuration file given, if any.
    Serve { config_path: Option<String> },
    /// Write the OpenAPI document to this path.
    WriteOpenApi { path: String },
}

/// A command line the server does not accept.
#[derive(Debug, Clone)]
pub enum CliError {
    /// `--config` came last, without its path.
    MissingConfigValue,
    /// An argument the server does not know.
    UnknownArgument(String),
}

impl CliError {
    pub open spec fn spec_message(self) -> Seq<char> {
        match self {
            CliError::MissingConfigValue => "--config requires a path argument"@,
            CliError::UnknownArgument(a) => "unknown argument: "@ + a@,
        }
    }

    pub fn message(&self) -> (m: String)
        ensures
            m@ == self.spec_message(),
    {
        match self {
            CliError::MissingConfigValue => "--config requires a path argument".to_string(),
            CliError::UnknownArgument(a) => {
                let mut m = "unknown argument: ".to_string();
                m.append(a.as_str());
                m
            },
        }
    }
}

/// The outcome of reading a command line, over character sequences.
pub enum CliReading {
    Options { config: Option<Seq<char>>, write_openapi: Option<Seq<char>> },
    MissingConfigValue,
    UnknownArgument(Seq<char>),
}

/// Where the OpenAPI document goes when `--write-openapi` names no path.
pub open spec fn default_openapi_path() -> Seq<char> {
    "openapi/runtime-server-openapi.yaml"@
}

pub open spec fn or_else(a: Option<Seq<char>>, b: Option<Seq<char>>) -> Option<Seq<char>> {
    if a is Some {
        a
    } else {
        b
    }
}

/// Reads the arguments front to back: `--config` takes the next argument
/// as the configuration path and fails without one; `--write-openapi`
/// takes the next argument, if any, as the output path; any other argument
/// is refused. A later option overrides an earlier one.
pub open spec fn read_cli(args: Seq<Seq<char>>) -> CliReading
    decreases args.len(),
{
    if args.len() == 0 {
        CliReading::Options { config: None, write_openapi: None }
    } else if args[0] == "--config"@ {
        if args.len() < 2 {
            CliReading::MissingConfigValue
        } else {
            match read_cli(args.skip(2)) {
                CliReading::Options { config, write_openapi } => CliReading::Options {
                    config: or_else(config, Some(args[1])),
                    write_openapi,
                },
                other => other,
            }
        }
    } else if args[0] == "--write-openapi"@ {
        if args.len() < 2 {
            CliReading::Options { config: None, write_openapi: Some(default_openapi_path()) }
        } else {
            match read_cli(args.skip(2)) {
                CliReading::Options { config, write_openapi } => CliReading::Options {
                    config,
                    write_openapi: or_else(write_openapi, Some(args[1])),
                },
                other => other,
            }
        }
    } else {
        CliReading::UnknownArgument(args[0])
    }
}

/// The reading that the arguments from position `i` on give, once the
/// options read before `i` are taken into account.
pub open spec fn combine(
    config: Option<Seq<char>>,
    write_openapi: Option<Seq<char>>,
    rest: CliReading,
) -> CliReading {
    match rest {
        CliReading::Options { config: c, write_openapi: w } => CliReading::Options {
            config: or_else(c, config),
            write_openapi: or_else(w, write_openapi),
        },
        other => other,
    }
}

pub open spec fn string_views(args: Seq<String>) -> Seq<Seq<char>> {
    args.map_values(|a: String| a@)
}

pub open spec fn opt_view(o: Option<String>) -> Option<Seq<char>> {
    match o {
        Some(s) => Some(s@),
        None => None,
    }
}

/// The elements of `v` in reverse order.
fn reversed<T>(v: Vec<T>) -> (r: Vec<T>)
    ensures
        r@.len() == v@.len(),
        forall|j: int| 0 <= j < v@.len() ==> #[trigger] r@[j] == v@[v@.len() - 1 - j],
{
    let ghost initial = v@;
    let mut rest = v;
    let mut out: Vec<T> = Vec::new();
    while rest.len() > 0
        invariant
            out@.len() + rest@.len() == initial.len(),
            forall|j: int| 0 <= j < rest@.len() ==> rest@[j] == initial[j],
            forall|j: int| 0 <= j < out@.len() ==> #[trigger] out@[j] == initial[initial.len() - 1 - j],
        decreases rest@.len(),
    {
        let x = rest.pop().unwrap();
        out.push(x);
    }
    out
}

/// Reads the server's arguments (the program name excluded): writing the
/// OpenAPI document when `--write-openapi` is given, serving otherwise.
pub fn parse_cli(args: Vec<String>) -> (r: Result<CliCommand, CliError>)
    ensures
        ({
            let reading = read_cli(string_views(args@));
            match reading {
                CliReading::Options { config, write_openapi } => match write_openapi {
                    Some(p) => r matches Ok(CliCommand::WriteOpenApi { path }) && path@ == p,
                    None => r matches Ok(CliCommand::Serve { config_path }) && opt_view(config_path)
                        == config,
                },
                CliReading::MissingConfigValue => r matches Err(CliError::MissingConfigValue),
                CliReading::UnknownArgument(a) => r matches Err(CliError::UnknownArgument(x))
                    && x@ == a,
            }
        }),
{
    let ghost all = string_views(args@);
    let mut config_path: Option<String> = None;
    let mut write_openapi_path: Option<String> = None;
    let n = args.len();
    let mut rest = reversed(args);
    let mut i: usize = 0;
    assert(all.skip(0) =~= all);
    while rest.len() > 0
        invariant
            i <= all.len(),
            all.len() == n,
            all == string_views(args@),
            rest@.len() == all.len() - i,
            forall|j: int| 0 <= j < rest@.len() ==> #[trigger] rest@[j]@ == all[all.len() - 1 - j],
            combine(opt_view(config_path), opt_view(write_openapi_path), read_cli(all.skip(i as int)))
                == read_cli(all),
        decreases rest@.len(),
    {
        let arg = rest.pop().unwrap();
        let ghost tail = all.skip(i as int);
        assert(arg@ == tail[0]);
        if str_eq(arg.as_str(), "--config") {
            match rest.pop() {
                Some(value) => {
                    assert(value@ == tail[1]);
                    assert(tail.skip(2) =~= all.skip(i + 2));
                    config_path = Some(value);
                    i += 2;
                },
                None => {
                    assert(tail.len() == 1);
                    assert(read_cli(tail) == CliReading::MissingConfigValue);
                    return Err(CliError::MissingConfigValue);
                },
            }
        } else if str_eq(arg.as_str(), "--write-openapi") {
            match rest.pop() {
                Some(value) => {
                    assert(value@ == tail[1]);
                    assert(tail.skip(2) =~= all.skip(i + 2));
                    write_openapi_path = Some(value);
                    i += 2;
                },
                None => {
                    write_openapi_path = Some("openapi/runtime-server-openapi.yaml".to_string());
                    i += 1;
                    assert(all.skip(i as int) =~= Seq::<Seq<char>>::empty());
                },
            }
        } else {
            return Err(CliError::UnknownArgument(arg));
        }
    }
    assert(all.skip(i as int) =~= Seq::<Seq<char>>::empty());
    match write_openapi_path {
        Some(path) => Ok(CliCommand::WriteOpenApi { path }),
        None => Ok(CliCommand::Serve { config_path }),
    }
}

/// Where the server's API token came from; the paths are file paths.
#[derive(Debug, Clone)]
pub enum AuthBootstrapSource {
    InlineConfig,
    TokenFileExisting { path: String },
    TokenFileCreated { path: String },
}

pub fn describe_auth_source(source: &AuthBootstrapSource) -> (d: String)
    ensures
        d@ == match source {
            AuthBootstrapSource::InlineConfig => "inline-config"@,
            AuthBootstrapSource::TokenFileExisting { path } => "token-file-existing:"@ + path@,
            AuthBootstrapSource::TokenFileCreated { path } => "token-file-created:"@ + path@,
        },
{
    match source {
        AuthBootstrapSource::InlineConfig => "inline-config".to_string(),
        AuthBootstrapSource::TokenFileExisting { path } => {
            let mut d = "token-file-existing:".to_string();
            d.append(path.as_str());
            d
        },
        AuthBootstrapSource::TokenFileCreated { path } => {
            let mut d = "token-file-created:".to_string();
            d.append(path.as_str());
            d
        },
    }
}

} // verus!
