//! What holds of every way to resolve credentials.

use vstd::prelude::*;

use crate::auth;
use crate::auth::{AuthConfigView, AuthErrorView, AuthStepView, AuthorizationView, SourceView};
use crate::process;
use crate::process::OutputView;
use crate::text;
use crate::text_laws;
use crate::text_lemmas;

verus! {

/// A policy without authentication needs no credentials: it asks for nothing.
pub proof fn law_no_authentication_needs_no_credentials()
    ensures
        auth::resolving(AuthConfigView::NoAuth) == AuthStepView::Resolved(
            AuthorizationView::NoAuth,
        ),
{
}

/// The environment wins over the command, whatever the command is.
pub proof fn law_the_environment_wins_over_the_command(source: SourceView, key: Seq<char>)
    requires
        !text::is_blank(key),
    ensures
        auth::resolving_bearer(source, Some(key)) == AuthStepView::Resolved(
            AuthorizationView::Bearer(key),
        ),
{
}

/// A blank variable counts as one that is not set.
pub proof fn law_a_blank_variable_counts_as_unset(source: SourceView, value: Seq<char>)
    requires
        text::is_blank(value),
    ensures
        auth::resolving_bearer(source, Some(value)) == auth::resolving_bearer(source, None),
{
}

/// A blank command counts as no command, and without a command an unset
/// variable is an error that names it.
pub proof fn law_a_blank_command_counts_as_no_command(env: Seq<char>, command: Seq<char>)
    requires
        text::is_blank(command),
    ensures
        auth::resolving_bearer(SourceView { env, command: Some(command) }, None)
            == AuthStepView::Failed(AuthErrorView::NotSet(env)),
        auth::resolving_bearer(SourceView { env, command: None }, None) == AuthStepView::Failed(
            AuthErrorView::NotSet(env),
        ),
{
}

/// A key that a command printed is not empty and has no white space at either
/// end, so no line feed of the command's output ends up in a header.
pub proof fn law_a_command_key_is_trimmed(
    command: Seq<char>,
    ran: Result<OutputView, Seq<char>>,
    key: Seq<char>,
)
    requires
        auth::resolving_command(command, ran) == AuthStepView::Resolved(
            AuthorizationView::Bearer(key),
        ),
    ensures
        key.len() > 0,
        text::trim(key) == key,
        !text::is_white(key[0]),
        !text::is_white(key.last()),
{
    text_lemmas::lemma_trim_twice(process::lossy_text(ran->Ok_0.stdout));
}

/// A bearer policy looks for its key where the configuration says: in the
/// variable that it names, and with the command that it names.
pub proof fn law_a_key_is_looked_for_where_the_configuration_says(
    env: Seq<char>,
    command: Option<Seq<char>>,
)
    ensures
        auth::resolving(AuthConfigView::Bearer { env, command }) matches AuthStepView::ReadVariable(
            source,
        ) && source.env == env && source.command == command,
{
}

/// A variable that is not set leaves the search to the command, which is run as
/// it is written.
pub proof fn law_the_configured_command_is_run(env: Seq<char>, command: Seq<char>)
    requires
        !text::is_blank(command),
    ensures
        auth::resolving_bearer(SourceView { env, command: Some(command) }, None)
            == AuthStepView::RunShell(command),
{
}

/// The key is all that a command printed, but for the white space around it.
pub proof fn law_the_key_is_what_the_command_printed(
    command: Seq<char>,
    output: OutputView,
    before: Seq<char>,
    key: Seq<char>,
    after: Seq<char>,
)
    requires
        output.success,
        process::lossy_text(output.stdout) == before + key + after,
        text::is_blank(before),
        text::is_blank(after),
        key.len() > 0,
        !text::is_white(key[0]),
        !text::is_white(key.last()),
    ensures
        auth::resolving_command(command, Ok(output)) == AuthStepView::Resolved(
            AuthorizationView::Bearer(key),
        ),
{
    text_laws::law_trimming_takes_the_white_space_around_a_text(before, key, after);
}

/// A command that could not be started, that failed, or that printed nothing
/// but white space gives no key, and the error says which, of which command,
/// and why.
pub proof fn law_a_command_without_a_key_is_an_error(
    command: Seq<char>,
    output: OutputView,
    cause: Seq<char>,
)
    ensures
        auth::resolving_command(command, Err(cause)) == AuthStepView::Failed(
            AuthErrorView::NotRun { command, cause },
        ),
        !output.success ==> auth::resolving_command(command, Ok(output)) == AuthStepView::Failed(
            AuthErrorView::Failed {
                command,
                stderr: text::trim(process::lossy_text(output.stderr)),
            },
        ),
        output.success && text::is_blank(process::lossy_text(output.stdout))
            ==> auth::resolving_command(command, Ok(output)) == AuthStepView::Failed(
            AuthErrorView::PrintedNothing(command),
        ),
{
    text_laws::law_a_blank_text_trims_to_nothing(process::lossy_text(output.stdout));
}

/// An error names the variable or the command, and passes on whole what the
/// command or the system said.
pub proof fn law_an_authentication_error_says_what_is_wrong(name: Seq<char>, words: Seq<char>)
    ensures
        AuthErrorView::NotSet(name).message() == "environment variable "@ + name
            + " is not set (set it, or configure auth.command)"@,
        (AuthErrorView::NotRun { command: name, cause: words }).message()
            == "failed to run auth command "@ + auth::quoted(name) + ": "@ + words,
        (AuthErrorView::Failed { command: name, stderr: words }).message() == "auth command "@
            + auth::quoted(name) + " failed: "@ + words,
        AuthErrorView::PrintedNothing(name).message() == "auth command "@ + auth::quoted(name)
            + " printed nothing"@,
{
}

} // verus!
