//! Resolving credentials. Canned outcomes stand in for the user's real secret
//! manager: stdout, stderr, and exit status are all that is ever seen of the
//! real one.

use lede::auth::{
    default_env, resolve, resolve_bearer, resolve_command, AuthConfig, AuthError, AuthStep,
    Authorization, Source,
};
use lede::process::Output;

fn prints(stdout: &str) -> Output {
    Output {
        success: true,
        stdout: stdout.as_bytes().to_vec(),
        stderr: Vec::new(),
    }
}

fn fails(stderr: &str) -> Output {
    Output {
        success: false,
        stdout: Vec::new(),
        stderr: stderr.as_bytes().to_vec(),
    }
}

/// Resolve a token, with `outcome` for what the command does.
fn settle(
    env: &str,
    command: Option<&str>,
    value: Option<&str>,
    outcome: Result<Output, String>,
) -> Result<String, AuthError> {
    let config = AuthConfig::Bearer {
        env: env.to_owned(),
        command: command.map(str::to_owned),
    };
    let AuthStep::ReadVariable(source) = resolve(config) else {
        panic!("a bearer token is looked for in the environment first");
    };
    assert_eq!(source.env, env);
    let step = match resolve_bearer(source, value.map(str::to_owned)) {
        AuthStep::RunShell(line) => {
            assert_eq!(Some(line.as_str()), command);
            resolve_command(line, outcome)
        }
        step => step,
    };
    match step {
        AuthStep::Resolved(Authorization::Bearer(key)) => Ok(key),
        AuthStep::Failed(error) => Err(error),
        other => panic!("not settled: {other:?}"),
    }
}

#[test]
fn no_authentication_needs_no_credentials() {
    assert!(matches!(
        resolve(AuthConfig::NoAuth),
        AuthStep::Resolved(Authorization::NoAuth)
    ));
}

#[test]
fn the_environment_wins_over_the_command() {
    let key = settle(
        "OPENAI_API_KEY",
        Some("echo from-command"),
        Some("from-env"),
        Ok(prints("from-command\n")),
    );
    assert_eq!(key.unwrap(), "from-env");
}

#[test]
fn a_blank_environment_falls_through_to_the_command() {
    let key = settle(
        "OPENAI_API_KEY",
        Some("echo from-command"),
        Some("  "),
        Ok(prints("from-command\n")),
    );
    assert_eq!(key.unwrap(), "from-command");
}

#[test]
fn the_command_key_is_trimmed() {
    let key = settle(
        "OPENAI_API_KEY",
        Some("printf ' key \\n'"),
        None,
        Ok(prints(" key \n")),
    );
    assert_eq!(key.unwrap(), "key");
}

#[test]
fn a_failing_command_reports_its_stderr() {
    let err = settle(
        "OPENAI_API_KEY",
        Some("echo broken vault >&2; exit 1"),
        None,
        Ok(fails("broken vault\n")),
    )
    .unwrap_err();
    let rendered = err.message();
    assert!(rendered.contains("auth command"), "{rendered}");
    assert!(rendered.contains("broken vault"), "{rendered}");
    assert_eq!(
        rendered,
        "auth command \"echo broken vault >&2; exit 1\" failed: broken vault"
    );
}

#[test]
fn a_silent_command_is_an_error() {
    let err = settle("OPENAI_API_KEY", Some("true"), None, Ok(prints(""))).unwrap_err();
    assert!(err.message().contains("printed nothing"), "{}", err.message());
    assert_eq!(err.message(), "auth command \"true\" printed nothing");
}

#[test]
fn neither_source_names_the_variable() {
    let err = settle("OPENAI_API_KEY", None, None, Ok(prints(""))).unwrap_err();
    let rendered = err.message();
    assert!(rendered.contains("OPENAI_API_KEY is not set"), "{rendered}");
    assert!(rendered.contains("auth.command"), "{rendered}");
    assert_eq!(
        rendered,
        "environment variable OPENAI_API_KEY is not set (set it, or configure auth.command)"
    );
}

#[test]
fn a_blank_command_counts_as_no_command() {
    let err = settle("OPENAI_API_KEY", Some("  "), None, Ok(prints("key"))).unwrap_err();
    assert!(
        err.message().contains("OPENAI_API_KEY is not set"),
        "{}",
        err.message()
    );
}

#[test]
fn a_command_that_does_not_start_is_an_error() {
    let err = settle(
        "OPENAI_API_KEY",
        Some("say \"key\"\t"),
        None,
        Err("no shell".to_owned()),
    )
    .unwrap_err();
    assert_eq!(
        err.message(),
        "failed to run auth command \"say \\\"key\\\"\\t\": no shell"
    );
}

#[test]
fn a_key_of_the_environment_is_taken_as_it_is() {
    let step = resolve_bearer(
        Source {
            env: default_env(),
            command: None,
        },
        Some(" key ".to_owned()),
    );
    assert!(matches!(
        step,
        AuthStep::Resolved(Authorization::Bearer(key)) if key == " key "
    ));
    assert_eq!(default_env(), "OPENAI_API_KEY");
}
