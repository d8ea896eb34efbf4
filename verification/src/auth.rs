//! Provider authentication. Configuration chooses the policy (the `[auth]`
//! table's `mode`); resolution reads a bearer token only when that policy
//! needs one. lede never stores a key: it reads the environment or shells
//! out to whatever secret manager the user configured, the way it runs the
//! real git rather than reimplementing it.

use vstd::prelude::*;

use crate::chars;
use crate::process;
use crate::process::{Output, OutputView};
use crate::text;

verus! {

/// The `[auth]` table as written. `mode` selects the variant, and each
/// variant lists exactly the keys it accepts, so a leftover `env` under
/// `mode = "none"` is rejected instead of ignored.
#[derive(Debug, PartialEq)]
pub enum AuthConfig {
    /// No credentials at all, for local endpoints like Ollama.
    NoAuth,
    /// A bearer token: read from the named environment variable, or from
    /// the command's stdout when the variable is not set.
    Bearer { env: String, command: Option<String> },
}

/// What an [`AuthConfig`] holds.
pub enum AuthConfigView {
    NoAuth,
    Bearer { env: Seq<char>, command: Option<Seq<char>> },
}

impl View for AuthConfig {
    type V = AuthConfigView;

    open spec fn view(&self) -> AuthConfigView {
        match self {
            AuthConfig::NoAuth => AuthConfigView::NoAuth,
            AuthConfig::Bearer { env, command } => AuthConfigView::Bearer {
                env: env@,
                command: chars::optional(*command),
            },
        }
    }
}

impl AuthConfigView {
    pub open spec fn initial() -> AuthConfigView {
        AuthConfigView::Bearer { env: "OPENAI_API_KEY"@, command: None }
    }
}

impl Default for AuthConfig {
    fn default() -> (r: Self)
        ensures
            r@ == AuthConfigView::initial(),
    {
        AuthConfig::Bearer { env: default_env(), command: None }
    }
}

/// The environment variable that holds the key unless another is named.
pub fn default_env() -> (r: String)
    ensures
        r@ == "OPENAI_API_KEY"@,
{
    "OPENAI_API_KEY".to_owned()
}

/// What a request carries: nothing, or a resolved token for an Authorization
/// header. Separate from [`AuthConfig`] so the rest of the program never sees
/// where a credential came from.
#[derive(Debug)]
pub enum Authorization {
    NoAuth,
    Bearer(String),
}

/// What an [`Authorization`] holds.
pub enum AuthorizationView {
    NoAuth,
    Bearer(Seq<char>),
}

impl View for Authorization {
    type V = AuthorizationView;

    open spec fn view(&self) -> AuthorizationView {
        match self {
            Authorization::NoAuth => AuthorizationView::NoAuth,
            Authorization::Bearer(key) => AuthorizationView::Bearer(key@),
        }
    }
}

/// Why no token could be had.
#[derive(Debug)]
pub enum AuthError {
    /// The named variable is not set, and no command stands in for it.
    NotSet(String),
    NotRun { command: String, cause: String },
    Failed { command: String, stderr: String },
    PrintedNothing(String),
}

/// What an [`AuthError`] holds.
pub enum AuthErrorView {
    NotSet(Seq<char>),
    NotRun { command: Seq<char>, cause: Seq<char> },
    Failed { command: Seq<char>, stderr: Seq<char> },
    PrintedNothing(Seq<char>),
}

impl View for AuthError {
    type V = AuthErrorView;

    open spec fn view(&self) -> AuthErrorView {
        match self {
            AuthError::NotSet(env) => AuthErrorView::NotSet(env@),
            AuthError::NotRun { command, cause } => AuthErrorView::NotRun {
                command: command@,
                cause: cause@,
            },
            AuthError::Failed { command, stderr } => AuthErrorView::Failed {
                command: command@,
                stderr: stderr@,
            },
            AuthError::PrintedNothing(command) => AuthErrorView::PrintedNothing(command@),
        }
    }
}

/// A bearer token to be found: in the environment variable `env`, or by
/// running `command`.
#[derive(Debug)]
pub struct Source {
    pub env: String,
    pub command: Option<String>,
}

/// What a [`Source`] holds.
pub struct SourceView {
    pub env: Seq<char>,
    pub command: Option<Seq<char>>,
}

impl View for Source {
    type V = SourceView;

    open spec fn view(&self) -> SourceView {
        SourceView { env: self.env@, command: chars::optional(self.command) }
    }
}

/// What resolving the credentials asks for next, or how it ended.
#[derive(Debug)]
pub enum AuthStep {
    /// Read the environment variable of the source, and go on with
    /// [`resolve_bearer`].
    ReadVariable(Source),
    /// Run the command line through `sh -c` with its stdin closed, and go on
    /// with [`resolve_command`]. Arguments and pipes then work without lede
    /// doing any word splitting of its own, and a tool that prompts on the
    /// controlling terminal still can.
    RunShell(String),
    Resolved(Authorization),
    Failed(AuthError),
}

/// What an [`AuthStep`] holds.
pub enum AuthStepView {
    ReadVariable(SourceView),
    RunShell(Seq<char>),
    Resolved(AuthorizationView),
    Failed(AuthErrorView),
}

impl View for AuthStep {
    type V = AuthStepView;

    open spec fn view(&self) -> AuthStepView {
        match self {
            AuthStep::ReadVariable(source) => AuthStepView::ReadVariable(source@),
            AuthStep::RunShell(command) => AuthStepView::RunShell(command@),
            AuthStep::Resolved(authorization) => AuthStepView::Resolved(authorization@),
            AuthStep::Failed(error) => AuthStepView::Failed(error@),
        }
    }
}

/// How a policy is turned into credentials.
pub open spec fn resolving(config: AuthConfigView) -> AuthStepView {
    match config {
        AuthConfigView::NoAuth => AuthStepView::Resolved(AuthorizationView::NoAuth),
        AuthConfigView::Bearer { env, command } => AuthStepView::ReadVariable(
            SourceView { env, command },
        ),
    }
}

/// What the value of the environment variable settles: a variable that is not
/// blank holds the key, and otherwise a command that is not blank is run.
pub open spec fn resolving_bearer(source: SourceView, value: Option<Seq<char>>) -> AuthStepView {
    match value {
        Some(key) if !text::is_blank(key) => AuthStepView::Resolved(AuthorizationView::Bearer(key)),
        _ => match source.command {
            Some(command) if !text::is_blank(command) => AuthStepView::RunShell(command),
            _ => AuthStepView::Failed(AuthErrorView::NotSet(source.env)),
        },
    }
}

/// What a run of the command settles: the key is what it printed, trimmed.
pub open spec fn resolving_command(
    command: Seq<char>,
    ran: Result<OutputView, Seq<char>>,
) -> AuthStepView {
    match ran {
        Err(cause) => AuthStepView::Failed(AuthErrorView::NotRun { command, cause }),
        Ok(output) => {
            let key = text::trim(process::lossy_text(output.stdout));
            if !output.success {
                AuthStepView::Failed(
                    AuthErrorView::Failed {
                        command,
                        stderr: text::trim(process::lossy_text(output.stderr)),
                    },
                )
            } else if key.len() == 0 {
                AuthStepView::Failed(AuthErrorView::PrintedNothing(command))
            } else {
                AuthStepView::Resolved(AuthorizationView::Bearer(key))
            }
        },
    }
}

/// Turn the configured policy into request credentials. Only a bearer token
/// has to be looked for.
pub fn resolve(config: AuthConfig) -> (r: AuthStep)
    ensures
        r@ == resolving(config@),
{
    match config {
        AuthConfig::NoAuth => AuthStep::Resolved(Authorization::NoAuth),
        AuthConfig::Bearer { env, command } => AuthStep::ReadVariable(Source { env, command }),
    }
}

fn is_blank(s: &String) -> (r: bool)
    ensures
        r == text::is_blank(s@),
{
    let source = chars::of(s.as_str());
    chars::is_blank(source.as_slice())
}

/// The environment wins over the command so a shell session can always
/// override a configured secret manager.
pub fn resolve_bearer(source: Source, value: Option<String>) -> (r: AuthStep)
    ensures
        r@ == resolving_bearer(source@, chars::optional(value)),
{
    if let Some(key) = value {
        if !is_blank(&key) {
            return AuthStep::Resolved(Authorization::Bearer(key));
        }
    }
    if let Some(command) = source.command {
        if !is_blank(&command) {
            return AuthStep::RunShell(command);
        }
    }
    AuthStep::Failed(AuthError::NotSet(source.env))
}

/// Take the key from what the command printed. Trimmed because nearly every
/// secret tool prints a trailing newline, and a newline inside a header value
/// would break the request.
pub fn resolve_command(command: String, ran: Result<Output, String>) -> (r: AuthStep)
    ensures
        r@ == resolving_command(command@, process::ran_view(ran)),
{
    let output = match ran {
        Ok(output) => output,
        Err(cause) => {
            return AuthStep::Failed(AuthError::NotRun { command, cause });
        },
    };
    if !output.success {
        let stderr = chars::of(process::decode_lossy(output.stderr.as_slice()).as_str());
        let stderr = chars::string(chars::trim(stderr.as_slice()));
        return AuthStep::Failed(AuthError::Failed { command, stderr });
    }
    let stdout = chars::of(process::decode_lossy(output.stdout.as_slice()).as_str());
    let key = chars::trim(stdout.as_slice());
    if key.len() == 0 {
        return AuthStep::Failed(AuthError::PrintedNothing(command));
    }
    AuthStep::Resolved(Authorization::Bearer(chars::string(key)))
}

/// The text in which `{:?}` shows a text: in double quotes, and escaped.
pub uninterp spec fn quoted(s: Seq<char>) -> Seq<char>;

/// `<str as Debug>::fmt` writes one text for the same text.
#[verifier::external_body]
fn quote(s: &str) -> (r: String)
    ensures
        r@ == quoted(s@),
{
    format!("{s:?}")
}

impl AuthErrorView {
    /// The words in which an error reaches the user.
    pub open spec fn message(self) -> Seq<char> {
        match self {
            AuthErrorView::NotSet(env) => "environment variable "@ + env
                + " is not set (set it, or configure auth.command)"@,
            AuthErrorView::NotRun { command, cause } => "failed to run auth command "@ + quoted(
                command,
            ) + ": "@ + cause,
            AuthErrorView::Failed { command, stderr } => "auth command "@ + quoted(command)
                + " failed: "@ + stderr,
            AuthErrorView::PrintedNothing(command) => "auth command "@ + quoted(command)
                + " printed nothing"@,
        }
    }
}

impl AuthError {
    /// The words in which the error reaches the user.
    pub fn message(&self) -> (r: String)
        ensures
            r@ == self@.message(),
    {
        let mut out: Vec<char>;
        match self {
            AuthError::NotSet(env) => {
                out = chars::of("environment variable ");
                chars::append_str(&mut out, env.as_str());
                chars::append_str(&mut out, " is not set (set it, or configure auth.command)");
            },
            AuthError::NotRun { command, cause } => {
                out = chars::of("failed to run auth command ");
                chars::append_str(&mut out, quote(command.as_str()).as_str());
                chars::append_str(&mut out, ": ");
                chars::append_str(&mut out, cause.as_str());
            },
            AuthError::Failed { command, stderr } => {
                out = chars::of("auth command ");
                chars::append_str(&mut out, quote(command.as_str()).as_str());
                chars::append_str(&mut out, " failed: ");
                chars::append_str(&mut out, stderr.as_str());
            },
            AuthError::PrintedNothing(command) => {
                out = chars::of("auth command ");
                chars::append_str(&mut out, quote(command.as_str()).as_str());
                chars::append_str(&mut out, " printed nothing");
            },
        }
        chars::string(out.as_slice())
    }
}

} // verus!
