//! What holds of every run of the program, whatever it finds out on its way.

use std::path::PathBuf;
use vstd::prelude::*;

use crate::api;
use crate::api::{ApiErrorView, ChatMessageView, ChatView};
use crate::app;
use crate::app::{
    ConversationView, DraftView, NextView, OptionsView, PendingView, PurposeView, StepView, TaskView,
};
use crate::auth;
use crate::auth::{AuthConfigView, AuthErrorView, AuthStepView, AuthorizationView, SourceView};
use crate::cli::CommandView;
use crate::config;
use crate::config::{ConfigView, DEFAULT_CONFIG, DEFAULT_PROMPT};
use crate::config_laws;
use crate::config_laws::Disk;
use crate::git;
use crate::git::GitErrorView;
use crate::loading;
use crate::loading::{GoalView, LoadStepView, LoadedView, LoadingView};
use crate::message;
use crate::message::FormattedView;
use crate::message_laws;
use crate::paths;
use crate::process::OutputView;
use crate::reply_laws;
use crate::text;
use crate::text_laws;

verus! {

/// What a step can find out.
pub enum Answer {
    GitRan(Result<OutputView, Seq<char>>),
    Located(Option<PathBuf>, Option<PathBuf>),
    Checked(bool),
    Done(Result<(), Seq<char>>),
    Read(Result<Seq<char>, Seq<char>>),
    Explained(Seq<char>),
    Variable(Option<Seq<char>>),
    ShellRan(Result<OutputView, Seq<char>>),
    Posted(Result<u16, Seq<char>>),
    Refused(Seq<char>, Option<Seq<char>>),
    Replied(Result<Seq<Option<Seq<char>>>, Seq<char>>),
}

/// The step after an answer. An answer to another question changes nothing.
pub open spec fn after(step: StepView, answer: Answer) -> StepView {
    match (step.next, answer) {
        (NextView::RunGit(options), Answer::GitRan(ran)) => app::after_git(options, ran),
        (NextView::Locate(purpose), Answer::Located(xdg, home)) => app::after_locating(
            purpose,
            xdg,
            home,
        ),
        (
            NextView::Load(purpose, LoadStepView::Check(loading)),
            Answer::Checked(there),
        ) => app::after_loading(purpose, loading.checked(there)),
        (
            NextView::Load(purpose, LoadStepView::CreateDir(loading)),
            Answer::Done(done),
        ) => app::after_loading(purpose, loading.dir_created(done)),
        (
            NextView::Load(purpose, LoadStepView::Write(loading)),
            Answer::Done(done),
        ) => app::after_loading(purpose, loading.written(done)),
        (
            NextView::Load(purpose, LoadStepView::Read(loading)),
            Answer::Read(content),
        ) => app::after_loading(purpose, loading.read(content)),
        (
            NextView::Load(purpose, LoadStepView::Explain(loading, _)),
            Answer::Explained(cause),
        ) => app::after_loading(purpose, loading.explained(cause)),
        (
            NextView::Resolve(pending, AuthStepView::ReadVariable(source)),
            Answer::Variable(value),
        ) => app::after_resolving(pending, auth::resolving_bearer(source, value)),
        (
            NextView::Resolve(pending, AuthStepView::RunShell(command)),
            Answer::ShellRan(ran),
        ) => app::after_resolving(pending, auth::resolving_command(command, ran)),
        (NextView::Post(conversation), Answer::Posted(answer)) => app::after_posting(
            conversation,
            answer,
        ),
        (
            NextView::ReadRefusal(conversation, status),
            Answer::Refused(body, error_message),
        ) => app::after_refusal(conversation, status, body, error_message),
        (NextView::ReadChoices(conversation), Answer::Replied(choices)) => app::after_reply(
            conversation,
            choices,
        ),
        _ => step,
    }
}

/// The step that some answers lead to.
pub open spec fn reached(start: StepView, answers: Seq<Answer>) -> StepView
    decreases answers.len(),
{
    if answers.len() == 0 {
        start
    } else {
        after(reached(start, answers.drop_last()), answers.last())
    }
}

/// A message that a reply was turned into.
spec fn is_a_reply(first: FormattedView) -> bool {
    exists|raw: Seq<char>| first == #[trigger] message::parsed(message::sanitized(raw))
}

/// A first message, where there is one, is a reply.
spec fn is_sound(conversation: ConversationView) -> bool {
    match conversation.first {
        Some(first) => is_a_reply(first),
        None => true,
    }
}

/// A step that ends the program on an error, and says so on stderr.
pub open spec fn is_failure(step: StepView) -> bool {
    exists|words: Seq<char>| step == #[trigger] app::failure(words)
}

/// A step belongs to `generate`, and prints what such a step may print.
spec fn is_generating(step: StepView) -> bool {
    match step.next {
        NextView::RunGit(_) => step.stdout.len() == 0,
        NextView::Locate(purpose) => purpose is Generate && step.stdout.len() == 0,
        NextView::Load(purpose, _) => purpose is Generate && step.stdout.len() == 0,
        NextView::Resolve(pending, _) => pending is Generate && step.stdout.len() == 0,
        NextView::Post(conversation) => is_sound(conversation) && step.stdout.len() == 0,
        NextView::ReadChoices(conversation) => is_sound(conversation) && step.stdout.len() == 0,
        NextView::ReadRefusal(conversation, _) => is_sound(conversation) && step.stdout.len() == 0,
        NextView::Exit(true) => exists|raw: Seq<char>|
            step.stdout == seq![
                message::finished(#[trigger] message::parsed(message::sanitized(raw))),
            ],
        NextView::Exit(false) => is_failure(step),
    }
}

proof fn lemma_answer_generates(
    conversation: ConversationView,
    answer: Result<Seq<char>, ApiErrorView>,
)
    requires
        is_sound(conversation),
    ensures
        is_generating(app::after_answer(conversation, answer)),
{
    if let Some(first) = conversation.first {
        let raw = choose|raw: Seq<char>|
            first == #[trigger] message::parsed(message::sanitized(raw));
        assert(first == message::parsed(message::sanitized(raw)));
    }
    if let Ok(raw) = answer {
        assert(is_a_reply(message::parsed(message::sanitized(raw))));
    }
}

proof fn lemma_step_generates(step: StepView, answer: Answer)
    requires
        is_generating(step),
    ensures
        is_generating(after(step, answer)),
{
    match (step.next, answer) {
        (NextView::Post(conversation), Answer::Posted(Err(cause))) => {
            lemma_answer_generates(
                conversation,
                Err(ApiErrorView::NotSent { url: conversation.chat.url(), cause }),
            );
        },
        (NextView::ReadRefusal(conversation, status), Answer::Refused(body, error_message)) => {
            lemma_answer_generates(
                conversation,
                Err(
                    ApiErrorView::Refused {
                        status,
                        detail: api::detail_of(body, error_message),
                    },
                ),
            );
        },
        (NextView::ReadChoices(conversation), Answer::Replied(choices)) => {
            lemma_answer_generates(conversation, api::reply_of(choices));
        },
        _ => {},
    }
}

proof fn lemma_run_generates(options: OptionsView, answers: Seq<Answer>)
    ensures
        is_generating(reached(app::generating(options), answers)),
    decreases answers.len(),
{
    if answers.len() > 0 {
        lemma_run_generates(options, answers.drop_last());
        lemma_step_generates(
            reached(app::generating(options), answers.drop_last()),
            answers.last(),
        );
    }
}

/// The finished message is the only thing that `generate` ever prints to
/// stdout: one message that obeys the 50/72 rule when it succeeds, and nothing
/// before that or when it fails. A failure says so in one line on stderr.
pub proof fn law_generate_prints_one_message_or_none(options: OptionsView, answers: Seq<Answer>)
    ensures
        ({
            let step = reached(app::generating(options), answers);
            if step.next == NextView::Exit(true) {
                step.stdout.len() == 1 && message_laws::obeys_the_rule(step.stdout[0])
            } else {
                step.stdout.len() == 0 && (step.next == NextView::Exit(false) ==> is_failure(step))
            }
        }),
{
    let step = reached(app::generating(options), answers);
    lemma_run_generates(options, answers);
    if step.next == NextView::Exit(true) {
        let raw = choose|raw: Seq<char>|
            step.stdout == seq![
                message::finished(#[trigger] message::parsed(message::sanitized(raw))),
            ];
        message_laws::law_the_printed_message_obeys_the_rule(raw);
    }
}

/// How many calls to the model were answered on the way.
pub open spec fn calls(start: StepView, answers: Seq<Answer>) -> nat
    decreases answers.len(),
{
    if answers.len() == 0 {
        0
    } else {
        let before = answers.drop_last();
        calls(start, before) + if reached(start, before).next is Post && answers.last() is Posted {
            1nat
        } else {
            0
        }
    }
}

/// How many calls a step leaves room for.
spec fn room(step: StepView) -> nat {
    match step.next {
        NextView::Post(conversation) => if conversation.first is Some {
            1
        } else {
            2
        },
        NextView::ReadChoices(conversation) => if conversation.first is Some {
            0
        } else {
            1
        },
        NextView::ReadRefusal(conversation, _) => if conversation.first is Some {
            0
        } else {
            1
        },
        NextView::Exit(_) => 0,
        _ => 2,
    }
}

/// The model is called at most twice: once, and once more when the subject of
/// the first reply is too long.
pub proof fn law_there_is_at_most_one_retry(options: OptionsView, answers: Seq<Answer>)
    ensures
        calls(app::generating(options), answers) <= 2,
{
    lemma_room(options, answers);
}

proof fn lemma_room(options: OptionsView, answers: Seq<Answer>)
    ensures
        calls(app::generating(options), answers) + room(
            reached(app::generating(options), answers),
        ) <= 2,
    decreases answers.len(),
{
    if answers.len() > 0 {
        lemma_room(options, answers.drop_last());
    }
}

/// Whether git reported a staged change on the way.
pub open spec fn saw_a_change(answers: Seq<Answer>) -> bool {
    exists|i: int|
        0 <= i < answers.len() && (#[trigger] answers[i] matches Answer::GitRan(ran)
            && git::staged(ran) is Ok)
}

/// Nothing but git is asked before git has reported a staged change: a doomed
/// run touches no file, runs no command and makes no call.
pub proof fn law_the_staged_change_comes_first(options: OptionsView, answers: Seq<Answer>)
    requires
        !saw_a_change(answers),
    ensures
        ({
            let step = reached(app::generating(options), answers);
            step.next is RunGit || step.next == NextView::Exit(false)
        }),
    decreases answers.len(),
{
    if answers.len() > 0 {
        let before = answers.drop_last();
        assert(!saw_a_change(before)) by {
            if saw_a_change(before) {
                let i = choose|i: int|
                    0 <= i < before.len() && (#[trigger] before[i] matches Answer::GitRan(ran)
                        && git::staged(ran) is Ok);
                assert(answers[i] == before[i]);
            }
        }
        law_the_staged_change_comes_first(options, before);
        assert(answers[answers.len() - 1] == answers.last());
    }
}

/// With nothing staged, `generate` says so and fails at once.
pub proof fn law_nothing_staged_ends_the_run(options: OptionsView, ran: Result<OutputView, Seq<char>>)
    requires
        git::staged(ran) == Err::<git::StagedChangeView, GitErrorView>(GitErrorView::NothingStaged),
    ensures
        after(app::generating(options), Answer::GitRan(ran)) == app::failure(
            "nothing staged (use git add)"@,
        ),
{
}

/// A file is written only after a check has found that very file missing.
pub proof fn law_a_file_is_written_only_where_it_is_missing(
    start: StepView,
    answers: Seq<Answer>,
    purpose: PurposeView,
    loading: LoadingView,
)
    requires
        start.next is RunGit || start.next is Locate,
        reached(start, answers).next == NextView::Load(purpose, LoadStepView::Write(loading)),
    ensures
        was_missing(start, answers, purpose, loading),
    decreases answers.len(),
{
    let before = answers.drop_last();
    let step = reached(start, before);
    lemma_missing_grows(start, answers, purpose, loading);
    if step.next == NextView::Load(purpose, LoadStepView::Write(loading)) && after(
        step,
        answers.last(),
    ) == step {
        law_a_file_is_written_only_where_it_is_missing(start, before, purpose, loading);
    } else {
        assert(step.next == NextView::Load(purpose, LoadStepView::CreateDir(loading)));
        lemma_dir_created_only_where_missing(start, before, purpose, loading);
    }
}

/// A check on the way found the file of `loading` missing.
pub open spec fn was_missing(
    start: StepView,
    answers: Seq<Answer>,
    purpose: PurposeView,
    loading: LoadingView,
) -> bool {
    exists|i: int|
        0 <= i < answers.len() && #[trigger] answers[i] == Answer::Checked(false) && reached(
            start,
            answers.take(i),
        ).next == NextView::Load(purpose, LoadStepView::Check(loading))
}

proof fn lemma_missing_grows(
    start: StepView,
    answers: Seq<Answer>,
    purpose: PurposeView,
    loading: LoadingView,
)
    ensures
        answers.len() > 0 && was_missing(start, answers.drop_last(), purpose, loading)
            ==> was_missing(start, answers, purpose, loading),
{
    let before = answers.drop_last();
    if answers.len() > 0 && was_missing(start, before, purpose, loading) {
        let i = choose|i: int|
            0 <= i < before.len() && #[trigger] before[i] == Answer::Checked(false) && reached(
                start,
                before.take(i),
            ).next == NextView::Load(purpose, LoadStepView::Check(loading));
        assert(before.take(i) == answers.take(i));
        assert(answers[i] == before[i]);
    }
}

proof fn lemma_dir_created_only_where_missing(
    start: StepView,
    answers: Seq<Answer>,
    purpose: PurposeView,
    loading: LoadingView,
)
    requires
        start.next is RunGit || start.next is Locate,
        reached(start, answers).next == NextView::Load(purpose, LoadStepView::CreateDir(loading)),
    ensures
        was_missing(start, answers, purpose, loading),
    decreases answers.len(),
{
    let before = answers.drop_last();
    let step = reached(start, before);
    lemma_missing_grows(start, answers, purpose, loading);
    if step.next == NextView::Load(purpose, LoadStepView::CreateDir(loading)) {
        lemma_dir_created_only_where_missing(start, before, purpose, loading);
    } else {
        assert(step.next == NextView::Load(purpose, LoadStepView::Check(loading)));
        assert(answers.take(answers.len() - 1) == before);
        assert(answers[answers.len() - 1] == Answer::Checked(false));
    }
}

/// A prompt on its way to be written is the configured one, and lies inside
/// the config directory.
spec fn writes_its_own(step: StepView) -> bool {
    match step.next {
        NextView::Load(_, LoadStepView::Check(loading)) => loading.goal is Prompt
            ==> loading.prompt_override is None,
        NextView::Load(_, LoadStepView::CreateDir(loading)) => loading.goal is Prompt
            ==> loading.prompt_override is None && paths::within(loading.file(), loading.dir),
        NextView::Load(_, LoadStepView::Write(loading)) => loading.goal is Prompt
            ==> loading.prompt_override is None && paths::within(loading.file(), loading.dir),
        _ => true,
    }
}

proof fn lemma_run_writes_its_own(start: StepView, answers: Seq<Answer>)
    requires
        start.next is RunGit || start.next is Locate,
    ensures
        writes_its_own(reached(start, answers)),
    decreases answers.len(),
{
    if answers.len() > 0 {
        lemma_run_writes_its_own(start, answers.drop_last());
    }
}

/// Nothing is ever written but the default configuration and the default
/// prompt: the prompt never over an override, and never outside the config
/// directory.
pub proof fn law_only_the_defaults_are_written(
    start: StepView,
    answers: Seq<Answer>,
    purpose: PurposeView,
    loading: LoadingView,
)
    requires
        start.next is RunGit || start.next is Locate,
        reached(start, answers).next == NextView::Load(purpose, LoadStepView::Write(loading)),
    ensures
        match loading.goal {
            GoalView::Config => loading.file() == loading::config_file(loading.dir)
                && loading.contents() == DEFAULT_CONFIG@,
            GoalView::Prompt(_) => loading.prompt_override is None && paths::within(
                loading.file(),
                loading.dir,
            ) && loading.contents() == DEFAULT_PROMPT@,
        },
{
    lemma_run_writes_its_own(start, answers);
}

/// Once `init` has loaded the files it succeeds, whatever the credentials come
/// to: an error among them is a warning.
pub proof fn law_init_does_not_fail_on_authentication(step: AuthStepView, loaded: LoadedView)
    ensures
        step matches AuthStepView::Failed(error) ==> app::after_resolving(PendingView::Init, step)
            == app::success("warning: "@ + error.message()),
        app::after_resolving(PendingView::Init, step).next != NextView::Exit(false),
        app::after_loading(PurposeView::Init, LoadStepView::Loaded(loaded)).next != NextView::Exit(
            false,
        ),
{
}

/// `init` says of a file that it was written when the load created it, and
/// that it was kept when the load created nothing.
pub proof fn law_init_reports_what_was_created(loaded: LoadedView, file: PathBuf)
    ensures
        loaded.created.contains(file) ==> app::report(loaded, file) == "wrote "@ + paths::shown(
            file,
        ),
        loaded.created.len() == 0 ==> app::report(loaded, file) == "kept existing "@
            + paths::shown(file),
{
    if loaded.created.contains(file) {
        let i = choose|i: int| 0 <= i < loaded.created.len() && loaded.created[i] == file;
        assert(loaded.created[i] == file);
        assert(app::is_created(loaded.created, file));
    }
}

/// A second `init` keeps the files that the first one left, and says so.
pub proof fn law_a_second_init_keeps_the_files(dir: PathBuf, disk: Disk, loaded: LoadedView)
    requires
        config_laws::load_on(dir, None, disk).0 == LoadStepView::Loaded(loaded),
    ensures
        ({
            let left = config_laws::load_on(dir, None, disk).1;
            let (end, again) = config_laws::load_on(dir, None, left);
            let step = app::after_loading(PurposeView::Init, end);
            &&& again == left
            &&& step.stdout.len() >= 2
            &&& step.stdout[0] == "kept existing "@ + paths::shown(loaded.config_file)
            &&& step.stdout[1] == "kept existing "@ + paths::shown(loaded.prompt_file)
        }),
{
    config_laws::law_a_second_load_creates_nothing(dir, None, disk, loaded);
}

/// `init` keeps files that are there, whatever they hold: it writes nothing,
/// and says of both that they were kept before it checks the credentials.
pub proof fn law_init_keeps_files_that_are_there(dir: PathBuf, disk: Disk, config: ConfigView)
    requires
        disk.has(loading::config_file(dir)),
        config::parsed(disk.files[loading::config_file(dir)]) matches Ok(found) && found == config,
        disk.has(loading::prompt_file(dir, None, config.system_prompt_file)),
    ensures
        ({
            let prompt_file = loading::prompt_file(dir, None, config.system_prompt_file);
            let (end, left) = config_laws::load_on(dir, None, disk);
            &&& left == disk
            &&& app::after_loading(PurposeView::Init, end) == app::printing(
                seq![
                    "kept existing "@ + paths::shown(loading::config_file(dir)),
                    "kept existing "@ + paths::shown(prompt_file),
                ],
                Seq::empty(),
                app::after_resolving(PendingView::Init, auth::resolving(config.auth)),
            )
        }),
{
    config_laws::law_files_that_are_there_are_taken_as_they_are(dir, None, disk, config);
}

/// A second `init` keeps edits: where the configuration was replaced since the
/// first one by a text that reads as a configuration with the same prompt
/// file, both files stay as they are, and `init` says so and goes on to the
/// credentials of the new configuration.
pub proof fn law_a_second_init_keeps_edited_files(
    dir: PathBuf,
    disk: Disk,
    loaded: LoadedView,
    source: Seq<char>,
    config: ConfigView,
)
    requires
        config_laws::load_on(dir, None, disk).0 == LoadStepView::Loaded(loaded),
        config::parsed(source) matches Ok(found) && found == config,
        loading::prompt_file(dir, None, config.system_prompt_file) == loaded.prompt_file,
    ensures
        ({
            let edited = config_laws::load_on(dir, None, disk).1.with(loaded.config_file, source);
            let (end, left) = config_laws::load_on(dir, None, edited);
            &&& left == edited
            &&& left.files[loaded.config_file] == source
            &&& app::after_loading(PurposeView::Init, end) == app::printing(
                seq![
                    "kept existing "@ + paths::shown(loaded.config_file),
                    "kept existing "@ + paths::shown(loaded.prompt_file),
                ],
                Seq::empty(),
                app::after_resolving(PendingView::Init, auth::resolving(config.auth)),
            )
        }),
{
    let edited = config_laws::load_on(dir, None, disk).1.with(loaded.config_file, source);
    config_laws::law_what_a_load_comes_to(dir, None, disk);
    law_init_keeps_files_that_are_there(dir, edited, config);
}

/// Without authentication the call is made at once, and carries no
/// Authorization header.
pub proof fn law_no_authentication_sends_no_header(task: TaskView, loaded: LoadedView)
    requires
        loaded.config.auth == AuthConfigView::NoAuth,
    ensures
        app::after_loading(
            PurposeView::Generate(task),
            LoadStepView::Loaded(loaded),
        ).next matches NextView::Post(conversation)
            && conversation.chat.authorization_header() is None,
{
}

/// A resolved key is sent as a bearer token.
pub proof fn law_a_key_is_sent_as_a_bearer_token(draft: DraftView, key: Seq<char>)
    ensures
        app::after_resolving(
            PendingView::Generate(draft),
            AuthStepView::Resolved(AuthorizationView::Bearer(key)),
        ).next matches NextView::Post(conversation) && conversation.chat.authorization_header()
            == Some("Bearer "@ + key),
{
}

/// A flag wins over the configuration, and without it the configuration holds.
pub proof fn law_flags_override_the_configuration(task: TaskView, loaded: LoadedView)
    ensures
        app::drafted(task, loaded).model == match task.options.model {
            Some(model) => model,
            None => loaded.config.model,
        },
        app::drafted(task, loaded).base_url == match task.options.base_url {
            Some(base_url) => base_url,
            None => loaded.config.base_url,
        },
{
}

/// The retry goes to the same place with the same model and credentials, and
/// continues the conversation: what was said before stays in front.
pub proof fn law_the_retry_continues_the_conversation(
    chat: ChatView,
    raw: Seq<char>,
    first: FormattedView,
)
    ensures
        ({
            let retry = app::retrying(chat, raw, first).chat;
            &&& retry.url() == chat.url()
            &&& retry.model == chat.model
            &&& retry.authorization_header() == chat.authorization_header()
            &&& retry.messages.len() == chat.messages.len() + 2
            &&& retry.messages.take(chat.messages.len() as int) == chat.messages
            &&& retry.messages[chat.messages.len() as int].content == raw
        }),
{
}

/// A retry never costs the user the message: when it fails, or its subject
/// does not fit either, the first message is printed with its subject cut.
pub proof fn law_a_failed_retry_falls_back_to_the_first_message(
    chat: ChatView,
    first: FormattedView,
    answer: Result<Seq<char>, ApiErrorView>,
)
    requires
        answer matches Ok(raw) ==> !message::fits(
            message::parsed(message::sanitized(raw)).subject,
        ),
    ensures
        app::after_answer(ConversationView { chat, first: Some(first) }, answer) == app::success(
            message::finished(first),
        ),
{
}

/// Slashes at the end of a base URL do not matter.
pub proof fn law_trailing_slashes_do_not_matter(chat: ChatView)
    ensures
        (ChatView { base_url: chat.base_url.push('/'), ..chat }).url() == chat.url(),
        text::ends_with(chat.url(), "/chat/completions"@),
{
    let more = chat.base_url.push('/');
    assert(more.drop_last() == chat.base_url);
    let base = text::trim_end_char(chat.base_url, '/');
    let tail = "/chat/completions"@;
    assert((base + tail).skip((base + tail).len() - tail.len()) == tail);
}

/// The summary comes before the diff, and a hint comes last.
pub proof fn law_the_question_holds_summary_then_diff_then_hint(
    summary: Seq<char>,
    diff: Seq<char>,
    hint: Seq<char>,
)
    ensures
        text::starts_with(app::asking(summary, diff, None), "Staged files:\n"@ + summary),
        text::ends_with(app::asking(summary, diff, None), "\n\nStaged diff:\n"@ + diff),
        text::starts_with(
            app::asking(summary, diff, Some(hint)),
            app::asking(summary, diff, None),
        ),
        text::ends_with(
            app::asking(summary, diff, Some(hint)),
            "\n\nAdditional context from the user: "@ + hint,
        ),
{
    let plain = app::asking(summary, diff, None);
    let hinted = app::asking(summary, diff, Some(hint));
    let front = "Staged files:\n"@ + summary;
    let back = "\n\nStaged diff:\n"@ + diff;
    let last = "\n\nAdditional context from the user: "@ + hint;
    assert(plain == front + back);
    assert(plain.take(front.len() as int) == front);
    assert(plain.skip(plain.len() - back.len()) == back);
    assert(hinted == plain + last);
    assert(hinted.take(plain.len() as int) == plain);
    assert(hinted.skip(hinted.len() - last.len()) == last);
}

/// A retry whose subject fits is printed, whatever the first reply was and
/// whatever the body of the retry is.
pub proof fn law_a_retry_that_fits_is_printed(chat: ChatView, first: FormattedView, raw: Seq<char>)
    requires
        message::parsed(message::sanitized(raw)).subject.len() <= 50,
    ensures
        app::after_answer(ConversationView { chat, first: Some(first) }, Ok(raw)) == app::success(
            message::finished(message::parsed(message::sanitized(raw))),
        ),
{
}

/// A first reply whose subject fits is printed without asking again, whatever
/// its body is. One whose subject is longer is asked about once more, in the
/// same conversation, and kept.
pub proof fn law_what_becomes_of_the_first_reply(chat: ChatView, raw: Seq<char>)
    ensures
        ({
            let reply = message::parsed(message::sanitized(raw));
            let step = app::after_answer(ConversationView { chat, first: None }, Ok(raw));
            &&& reply.subject.len() <= 50 ==> step == app::success(message::finished(reply))
            &&& reply.subject.len() > 50 ==> {
                &&& step.stdout.len() == 0
                &&& step.stderr.len() == 0
                &&& step.next matches NextView::Post(retry) && retry.first == Some(reply)
                    && retry.chat.base_url == chat.base_url && retry.chat.model == chat.model
                    && retry.chat.authorization == chat.authorization && retry.chat.messages
                    == chat.messages + seq![
                    ChatMessageView { role: "assistant"@, content: raw },
                    ChatMessageView { role: "user"@, content: app::shortening(reply.subject) },
                ]
            }
        }),
{
}

/// The retry tells the model how long its subject was and what the limit is.
pub proof fn law_the_retry_names_the_length_and_the_limit(subject: Seq<char>)
    ensures
        app::shortening(subject) == "The subject line is "@ + text::decimal(subject.len())
            + " characters; the limit is 50. Rewrite the commit message with a shorter subject. Reply with only the commit message."@,
        text_laws::denoted(text::decimal(subject.len())) == subject.len(),
{
    text_laws::law_decimal_digits_denote_the_number(subject.len());
    let middle = " characters; the limit is "@;
    let end = ". Rewrite the commit message with a shorter subject. Reply with only the commit message."@;
    let whole =
        " characters; the limit is 50. Rewrite the commit message with a shorter subject. Reply with only the commit message."@;
    assert(middle + text::decimal(50) + end == whole) by {
        reveal_strlit(" characters; the limit is ");
        reveal_strlit(
            ". Rewrite the commit message with a shorter subject. Reply with only the commit message.",
        );
        reveal_strlit(
            " characters; the limit is 50. Rewrite the commit message with a shorter subject. Reply with only the commit message.",
        );
        assert(text::decimal(5) == seq!['5']);
        assert(text::decimal(50) == text::decimal(5).push(text::digit(0)));
        assert(text::decimal(50) == seq!['5', '0']);
    }
    let front = "The subject line is "@ + text::decimal(subject.len());
    assert(app::shortening(subject) == front + (middle + text::decimal(50) + end));
}

/// A first call that fails ends the run with the words of the error.
pub proof fn law_a_failed_first_call_ends_the_run(chat: ChatView, error: ApiErrorView)
    ensures
        app::after_answer(ConversationView { chat, first: None }, Err(error)) == app::failure(
            error.message(),
        ),
{
}

/// A response is read as choices when its status is a success, and as a refusal
/// with that status when it is not. A call without a response is a failed call
/// to its URL for the reason given.
pub proof fn law_how_a_response_is_read(
    conversation: ConversationView,
    status: u16,
    cause: Seq<char>,
)
    ensures
        200 <= status <= 299 ==> app::after_posting(conversation, Ok(status)) == app::quiet(
            NextView::ReadChoices(conversation),
        ),
        !(200 <= status <= 299) ==> app::after_posting(conversation, Ok(status)) == app::quiet(
            NextView::ReadRefusal(conversation, status),
        ),
        app::after_posting(conversation, Err(cause)) == app::after_answer(
            conversation,
            Err(ApiErrorView::NotSent { url: conversation.chat.url(), cause }),
        ),
{
}

/// A refusal answers the call with its status and its detail.
pub proof fn law_a_refusal_answers_the_call(
    conversation: ConversationView,
    status: u16,
    body: Seq<char>,
    error_message: Option<Seq<char>>,
)
    ensures
        app::after_refusal(conversation, status, body, error_message) == app::after_answer(
            conversation,
            Err(ApiErrorView::Refused { status, detail: api::detail_of(body, error_message) }),
        ),
{
}

/// A successful response answers the call with the text of its first choice.
pub proof fn law_the_first_choice_answers_the_call(
    conversation: ConversationView,
    content: Seq<char>,
    others: Seq<Option<Seq<char>>>,
    choices: Result<Seq<Option<Seq<char>>>, Seq<char>>,
)
    ensures
        !text::is_blank(content) ==> app::after_reply(
            conversation,
            Ok(seq![Some(content)] + others),
        ) == app::after_answer(conversation, Ok(content)),
        api::reply_of(choices) matches Err(error) ==> app::after_reply(conversation, choices)
            == app::after_answer(conversation, Err(error)),
{
    assert((seq![Some(content)] + others)[0] == Some(content));
}

/// An error prints one line to stderr and fails. A message prints to stdout as
/// it is and succeeds. Everything else prints nothing.
pub proof fn law_how_a_run_speaks(words: Seq<char>, next: NextView)
    ensures
        app::failure(words).stdout.len() == 0,
        app::failure(words).stderr == seq!["lede: "@ + words],
        app::failure(words).next == NextView::Exit(false),
        app::success(words).stdout == seq![words],
        app::success(words).stderr.len() == 0,
        app::success(words).next == NextView::Exit(true),
        app::quiet(next).stdout.len() == 0,
        app::quiet(next).stderr.len() == 0,
        app::quiet(next).next == next,
{
}

/// `init` looks for the config directory, and `generate` runs git first and
/// keeps every flag as it was given.
pub proof fn law_how_a_command_begins(
    hint: Option<Seq<char>>,
    model: Option<Seq<char>>,
    base_url: Option<Seq<char>>,
    system_prompt: Option<PathBuf>,
)
    ensures
        app::running(CommandView::Init) == app::quiet(NextView::Locate(PurposeView::Init)),
        app::running(CommandView::Generate { hint, model, base_url, system_prompt }) == app::quiet(
            NextView::RunGit(OptionsView { hint, model, base_url, system_prompt }),
        ),
{
}

/// A staged change is carried on with the flags, and an error about it ends the
/// run.
pub proof fn law_what_follows_git(options: OptionsView, ran: Result<OutputView, Seq<char>>)
    ensures
        match git::staged(ran) {
            Ok(change) => app::after_git(options, ran) == app::quiet(
                NextView::Locate(PurposeView::Generate(TaskView { options, change })),
            ),
            Err(error) => app::after_git(options, ran) == app::failure(error.message()),
        },
{
}

/// The configuration is loaded from the directory of the environment: for
/// `generate` with the prompt that its flag names, for `init` with none.
pub proof fn law_what_is_loaded(purpose: PurposeView, xdg: Option<PathBuf>, home: Option<PathBuf>)
    ensures
        match config::dir_of(config::xdg_of(xdg), home) {
            Some(dir) => app::after_locating(purpose, xdg, home) == app::quiet(
                NextView::Load(
                    purpose,
                    LoadStepView::Check(
                        LoadingView {
                            dir,
                            prompt_override: match purpose {
                                PurposeView::Init => None,
                                PurposeView::Generate(task) => task.options.system_prompt,
                            },
                            created: Seq::empty(),
                            goal: GoalView::Config,
                        },
                    ),
                ),
            ),
            None => app::after_locating(purpose, xdg, home) == app::failure(
                "cannot determine the home directory"@,
            ),
        },
{
}

/// A load that asks for something is asked on behalf of the same command, and
/// one that failed ends it with the words of the error.
pub proof fn law_a_load_goes_on_or_ends_the_run(purpose: PurposeView, step: LoadStepView)
    ensures
        match step {
            LoadStepView::Failed(error) => app::after_loading(purpose, step) == app::failure(
                error.message(),
            ),
            LoadStepView::Loaded(_) => true,
            _ => app::after_loading(purpose, step) == app::quiet(NextView::Load(purpose, step)),
        },
{
}

/// What `generate` does with what it loaded. It says on stderr which files it
/// wrote. The request holds the system prompt and the question about the staged
/// change, and goes to the model and the base URL of the flags or else of the
/// configuration. A bearer key is looked for first, in the variable and with
/// the command of the configuration; without authentication the call is made at
/// once.
pub proof fn law_what_generate_sends(task: TaskView, loaded: LoadedView)
    ensures
        ({
            let step = app::after_loading(
                PurposeView::Generate(task),
                LoadStepView::Loaded(loaded),
            );
            let messages = seq![
                ChatMessageView { role: "system"@, content: loaded.system_prompt },
                ChatMessageView {
                    role: "user"@,
                    content: app::asking(task.change.summary, task.change.diff, task.options.hint),
                },
            ];
            let model = match task.options.model {
                Some(model) => model,
                None => loaded.config.model,
            };
            let base_url = match task.options.base_url {
                Some(base_url) => base_url,
                None => loaded.config.base_url,
            };
            &&& step.stdout.len() == 0
            &&& step.stderr.len() == loaded.created.len()
            &&& forall|i: int|
                0 <= i < loaded.created.len() ==> (#[trigger] step.stderr[i]) == "lede: wrote "@
                    + paths::shown(loaded.created[i])
            &&& match loaded.config.auth {
                AuthConfigView::NoAuth => step.next == NextView::Post(
                    ConversationView {
                        chat: ChatView {
                            base_url,
                            model,
                            authorization: AuthorizationView::NoAuth,
                            messages,
                        },
                        first: None,
                    },
                ),
                AuthConfigView::Bearer { env, command } => step.next == NextView::Resolve(
                    PendingView::Generate(DraftView { base_url, model, messages }),
                    AuthStepView::ReadVariable(SourceView { env, command }),
                ),
            }
        }),
{
    let messages = seq![
        ChatMessageView { role: "system"@, content: loaded.system_prompt },
        ChatMessageView {
            role: "user"@,
            content: app::asking(task.change.summary, task.change.diff, task.options.hint),
        },
    ];
    assert(app::drafted(task, loaded).messages == messages);
}

/// What `init` prints. First whether each file was written or kept, the
/// configuration before the prompt; then, once that is known, what the
/// credentials came to. It never calls the model.
pub proof fn law_what_init_prints(loaded: LoadedView, key: Seq<char>, error: AuthErrorView)
    ensures
        ({
            let step = app::after_loading(PurposeView::Init, LoadStepView::Loaded(loaded));
            &&& step.stderr.len() == 0
            &&& step.stdout.len() >= 2
            &&& step.stdout[0] == app::report(loaded, loaded.config_file)
            &&& step.stdout[1] == app::report(loaded, loaded.prompt_file)
            &&& match loaded.config.auth {
                AuthConfigView::NoAuth => step.stdout.len() == 3 && step.stdout[2]
                    == "no authentication configured"@ && step.next == NextView::Exit(true),
                AuthConfigView::Bearer { env, command } => step.stdout.len() == 2 && step.next
                    == NextView::Resolve(
                    PendingView::Init,
                    AuthStepView::ReadVariable(SourceView { env, command }),
                ),
            }
        }),
        app::after_resolving(
            PendingView::Init,
            AuthStepView::Resolved(AuthorizationView::Bearer(key)),
        ) == app::success("the api key resolves"@),
        app::after_resolving(
            PendingView::Init,
            AuthStepView::Resolved(AuthorizationView::NoAuth),
        ) == app::success("no authentication configured"@),
        app::after_resolving(PendingView::Init, AuthStepView::Failed(error)) == app::success(
            "warning: "@ + error.message(),
        ),
{
}

/// A file that no created path is the same as was kept, and one that some
/// created path is the same as was written.
pub proof fn law_a_report_goes_by_the_created_paths(loaded: LoadedView, file: PathBuf)
    ensures
        (exists|i: int|
            0 <= i < loaded.created.len() && paths::same_path(#[trigger] loaded.created[i], file))
            ==> app::report(loaded, file) == "wrote "@ + paths::shown(file),
        (forall|i: int|
            0 <= i < loaded.created.len() ==> (#[trigger] loaded.created[i]) != file
                && !paths::same_path(loaded.created[i], file)) ==> app::report(loaded, file)
            == "kept existing "@ + paths::shown(file),
{
    if exists|i: int|
        0 <= i < loaded.created.len() && paths::same_path(#[trigger] loaded.created[i], file) {
        let i = choose|i: int|
            0 <= i < loaded.created.len() && paths::same_path(#[trigger] loaded.created[i], file);
        assert(app::is_created(loaded.created, file));
    }
}

/// Resolved credentials complete the request of `generate` and change nothing
/// else of it; an error about them ends the run; and a question about them is
/// asked on behalf of the same request.
pub proof fn law_credentials_complete_the_request(
    draft: DraftView,
    pending: PendingView,
    authorization: AuthorizationView,
    error: AuthErrorView,
    source: SourceView,
    command: Seq<char>,
)
    ensures
        app::after_resolving(
            PendingView::Generate(draft),
            AuthStepView::Resolved(authorization),
        ) == app::quiet(
            NextView::Post(
                ConversationView {
                    chat: ChatView {
                        base_url: draft.base_url,
                        model: draft.model,
                        authorization,
                        messages: draft.messages,
                    },
                    first: None,
                },
            ),
        ),
        app::after_resolving(PendingView::Generate(draft), AuthStepView::Failed(error))
            == app::failure(error.message()),
        app::after_resolving(pending, AuthStepView::ReadVariable(source)) == app::quiet(
            NextView::Resolve(pending, AuthStepView::ReadVariable(source)),
        ),
        app::after_resolving(pending, AuthStepView::RunShell(command)) == app::quiet(
            NextView::Resolve(pending, AuthStepView::RunShell(command)),
        ),
{
}

/// The question holds the whole summary and the whole diff below their
/// headings, and the hint where there is one, and nothing else.
pub proof fn law_the_question_holds_everything(
    summary: Seq<char>,
    diff: Seq<char>,
    hint: Seq<char>,
)
    ensures
        app::asking(summary, diff, None) == "Staged files:\n"@ + summary + "\n\nStaged diff:\n"@
            + diff,
        app::asking(summary, diff, Some(hint)) == app::asking(summary, diff, None)
            + "\n\nAdditional context from the user: "@ + hint,
{
}

/// A whole exchange: a reply that is a clean message within the rule is printed
/// as the model wrote it.
pub proof fn law_a_good_reply_reaches_the_user_unchanged(chat: ChatView, message: FormattedView)
    requires
        message_laws::is_clean(message),
        message.subject.len() <= 50,
        message::wrapped_body(message.body) == message.body,
        message::sanitized(message::rendered(message)) == message::rendered(message),
    ensures
        app::after_answer(
            ConversationView { chat, first: None },
            Ok(message::rendered(message)),
        ) == app::success(message::rendered(message)),
{
    reply_laws::law_a_good_reply_is_printed_as_it_is(message);
    message_laws::law_parsing_a_rendered_message(message);
}

} // verus!
