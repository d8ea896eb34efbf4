//! Command dispatch and the generation pipeline: the only module that decides
//! what is printed and the only module that decides exit codes. Each step
//! says what to print and what to find out next; the answer gives the step
//! after it, until the program exits.

use std::path::PathBuf;
use vstd::prelude::*;

use crate::api;
use crate::api::{ApiError, ApiErrorView, Chat, ChatMessage, ChatMessageView, ChatView};
use crate::auth;
use crate::auth::{AuthStep, AuthStepView, Authorization, AuthorizationView};
use crate::chars;
use crate::cli::{Cli, Command, CommandView};
use crate::git;
use crate::git::{StagedChange, StagedChangeView};
use crate::loading;
use crate::loading::{LoadStep, LoadStepView, Loaded, LoadedView};
use crate::message;
use crate::message::{Formatted, FormattedView, SUBJECT_LIMIT};
use crate::paths;
use crate::process;
use crate::process::{Output, OutputView};
use crate::text;

verus! {

/// What the flags of `generate` say.
#[derive(Debug)]
pub struct Options {
    pub hint: Option<String>,
    pub model: Option<String>,
    pub base_url: Option<String>,
    pub system_prompt: Option<PathBuf>,
}

/// What [`Options`] hold.
pub struct OptionsView {
    pub hint: Option<Seq<char>>,
    pub model: Option<Seq<char>>,
    pub base_url: Option<Seq<char>>,
    pub system_prompt: Option<PathBuf>,
}

impl View for Options {
    type V = OptionsView;

    open spec fn view(&self) -> OptionsView {
        OptionsView {
            hint: chars::optional(self.hint),
            model: chars::optional(self.model),
            base_url: chars::optional(self.base_url),
            system_prompt: self.system_prompt,
        }
    }
}

/// A message to be generated, before the configuration is known.
#[derive(Debug)]
pub struct Task {
    pub options: Options,
    pub change: StagedChange,
}

/// What a [`Task`] holds.
pub struct TaskView {
    pub options: OptionsView,
    pub change: StagedChangeView,
}

impl View for Task {
    type V = TaskView;

    open spec fn view(&self) -> TaskView {
        TaskView { options: self.options@, change: self.change@ }
    }
}

/// What the configuration is loaded for.
#[derive(Debug)]
pub enum Purpose {
    Init,
    Generate(Task),
}

/// What a [`Purpose`] holds.
pub enum PurposeView {
    Init,
    Generate(TaskView),
}

impl View for Purpose {
    type V = PurposeView;

    open spec fn view(&self) -> PurposeView {
        match self {
            Purpose::Init => PurposeView::Init,
            Purpose::Generate(task) => PurposeView::Generate(task@),
        }
    }
}

impl PurposeView {
    /// The system prompt file that takes the place of the configured one.
    pub open spec fn prompt_override(self) -> Option<PathBuf> {
        match self {
            PurposeView::Init => None,
            PurposeView::Generate(task) => task.options.system_prompt,
        }
    }
}

/// A first request that lacks only its credentials.
#[derive(Debug)]
pub struct Draft {
    pub base_url: String,
    pub model: String,
    pub messages: Vec<ChatMessage>,
}

/// What a [`Draft`] holds.
pub struct DraftView {
    pub base_url: Seq<char>,
    pub model: Seq<char>,
    pub messages: Seq<ChatMessageView>,
}

impl View for Draft {
    type V = DraftView;

    open spec fn view(&self) -> DraftView {
        DraftView {
            base_url: self.base_url@,
            model: self.model@,
            messages: api::messages_view(self.messages@),
        }
    }
}

/// What the credentials are resolved for.
#[derive(Debug)]
pub enum Pending {
    Init,
    Generate(Draft),
}

/// What a [`Pending`] holds.
pub enum PendingView {
    Init,
    Generate(DraftView),
}

impl View for Pending {
    type V = PendingView;

    open spec fn view(&self) -> PendingView {
        match self {
            Pending::Init => PendingView::Init,
            Pending::Generate(draft) => PendingView::Generate(draft@),
        }
    }
}

/// A call to the model. `first` is the message of the first reply once that
/// turned out too long and the call is the retry.
#[derive(Debug)]
pub struct Conversation {
    pub chat: Chat,
    pub first: Option<Formatted>,
}

/// What a [`Conversation`] holds.
pub struct ConversationView {
    pub chat: ChatView,
    pub first: Option<FormattedView>,
}

impl View for Conversation {
    type V = ConversationView;

    open spec fn view(&self) -> ConversationView {
        ConversationView {
            chat: self.chat@,
            first: match self.first {
                Some(first) => Some(first@),
                None => None,
            },
        }
    }
}

/// What to find out next, or how the program exits.
#[derive(Debug)]
pub enum Next {
    /// Run git with [`git::diff_args`], and go on with [`git_ran`].
    RunGit(Options),
    /// Look up `XDG_CONFIG_HOME` and the home directory, and go on with
    /// [`located`].
    Locate(Purpose),
    /// Do what the load asks for, and go on with [`load_step`].
    Load(Purpose, LoadStep),
    /// Do what the credentials ask for, and go on with [`auth_step`].
    Resolve(Pending, AuthStep),
    /// Post the chat, and go on with [`posted`].
    Post(Conversation),
    /// Read the response as a list of choices, and go on with [`replied`].
    ReadChoices(Conversation),
    /// Read the response as an error with this status, and go on with
    /// [`refused`].
    ReadRefusal(Conversation, u16),
    /// Exit, successfully or not.
    Exit(bool),
}

/// What a [`Next`] holds.
pub enum NextView {
    RunGit(OptionsView),
    Locate(PurposeView),
    Load(PurposeView, LoadStepView),
    Resolve(PendingView, AuthStepView),
    Post(ConversationView),
    ReadChoices(ConversationView),
    ReadRefusal(ConversationView, u16),
    Exit(bool),
}

impl View for Next {
    type V = NextView;

    open spec fn view(&self) -> NextView {
        match self {
            Next::RunGit(options) => NextView::RunGit(options@),
            Next::Locate(purpose) => NextView::Locate(purpose@),
            Next::Load(purpose, step) => NextView::Load(purpose@, step@),
            Next::Resolve(pending, step) => NextView::Resolve(pending@, step@),
            Next::Post(conversation) => NextView::Post(conversation@),
            Next::ReadChoices(conversation) => NextView::ReadChoices(conversation@),
            Next::ReadRefusal(conversation, status) => NextView::ReadRefusal(
                conversation@,
                *status,
            ),
            Next::Exit(success) => NextView::Exit(*success),
        }
    }
}

/// One step: print the lines to stdout and to stderr, then do what is next.
#[derive(Debug)]
pub struct Step {
    pub stdout: Vec<String>,
    pub stderr: Vec<String>,
    pub next: Next,
}

/// What a [`Step`] holds.
#[verifier::ext_equal]
pub struct StepView {
    pub stdout: Seq<Seq<char>>,
    pub stderr: Seq<Seq<char>>,
    pub next: NextView,
}

impl View for Step {
    type V = StepView;

    open spec fn view(&self) -> StepView {
        StepView {
            stdout: chars::texts(self.stdout@),
            stderr: chars::texts(self.stderr@),
            next: self.next@,
        }
    }
}

/// A step that prints nothing.
pub open spec fn quiet(next: NextView) -> StepView {
    StepView { stdout: Seq::empty(), stderr: Seq::empty(), next }
}

/// The step that ends the program on an error.
pub open spec fn failure(words: Seq<char>) -> StepView {
    StepView {
        stdout: Seq::empty(),
        stderr: seq!["lede: "@ + words],
        next: NextView::Exit(false),
    }
}

/// The step that prints a line to stdout and ends the program well.
pub open spec fn success(line: Seq<char>) -> StepView {
    StepView { stdout: seq![line], stderr: Seq::empty(), next: NextView::Exit(true) }
}

fn silent(next: Next) -> (r: Step)
    ensures
        r@ == quiet(next@),
{
    Step { stdout: Vec::new(), stderr: Vec::new(), next }
}

fn fail(words: String) -> (r: Step)
    ensures
        r@ == failure(words@),
{
    let mut line = chars::of("lede: ");
    chars::append_str(&mut line, words.as_str());
    let mut stderr: Vec<String> = Vec::new();
    stderr.push(chars::string(line.as_slice()));
    Step { stdout: Vec::new(), stderr, next: Next::Exit(false) }
}

fn succeed(line: String) -> (r: Step)
    ensures
        r@ == success(line@),
{
    let mut stdout: Vec<String> = Vec::new();
    stdout.push(line);
    Step { stdout, stderr: Vec::new(), next: Next::Exit(true) }
}

/// How a command begins.
pub open spec fn running(command: CommandView) -> StepView {
    match command {
        CommandView::Init => initializing(),
        CommandView::Generate { hint, model, base_url, system_prompt } => generating(
            OptionsView { hint, model, base_url, system_prompt },
        ),
    }
}

pub open spec fn initializing() -> StepView {
    quiet(NextView::Locate(PurposeView::Init))
}

pub open spec fn generating(options: OptionsView) -> StepView {
    quiet(NextView::RunGit(options))
}

/// Dispatch one command. An error that ends it prints once to stderr and
/// fails. On `generate`, the commit message is the only thing that ever
/// reaches stdout; `init` owns its stdout, since nothing composes with it.
pub fn run(cli: Cli) -> (r: Step)
    ensures
        r@ == running(cli.command@),
{
    match cli.command {
        Command::Init => init(),
        Command::Generate { hint, model, base_url, system_prompt } => generate(
            Options { hint, model, base_url, system_prompt },
        ),
    }
}

/// Explicit first-run setup for people who want to edit the config before
/// the first generate spends an API call on the default endpoint.
/// Idempotent: existing files are kept, so it is safe to tell a user to
/// run it again. The authentication check is advisory and never fails the
/// command; the files were written, and the fix belongs to the user.
pub fn init() -> (r: Step)
    ensures
        r@ == initializing(),
{
    silent(Next::Locate(Purpose::Init))
}

/// The pipeline itself. Order matters at the front: the staged change is
/// read before the config, so the most common failure (nothing staged) ends
/// the run before first-run bootstrap writes any files.
pub fn generate(options: Options) -> (r: Step)
    ensures
        r@ == generating(options@),
{
    silent(Next::RunGit(options))
}

/// What follows a run of git.
pub open spec fn after_git(
    options: OptionsView,
    ran: Result<OutputView, Seq<char>>,
) -> StepView {
    match git::staged(ran) {
        Ok(change) => quiet(NextView::Locate(PurposeView::Generate(TaskView { options, change }))),
        Err(error) => failure(error.message()),
    }
}

/// Go on once git ran, or could not be started.
pub fn git_ran(options: Options, ran: Result<Output, String>) -> (r: Step)
    ensures
        r@ == after_git(options@, process::ran_view(ran)),
{
    match git::staged_change(ran) {
        Ok(change) => silent(Next::Locate(Purpose::Generate(Task { options, change }))),
        Err(error) => fail(error.message()),
    }
}

/// What follows once the environment is known.
pub open spec fn after_locating(
    purpose: PurposeView,
    xdg: Option<PathBuf>,
    home: Option<PathBuf>,
) -> StepView {
    after_loading(purpose, loading::load_spec(xdg, home, purpose.prompt_override()))
}

/// Go on once `XDG_CONFIG_HOME` and the home directory are known, as far as
/// they are set.
pub fn located(purpose: Purpose, xdg: Option<PathBuf>, home: Option<PathBuf>) -> (r: Step)
    ensures
        r@ == after_locating(purpose@, xdg, home),
{
    let prompt_override = match &purpose {
        Purpose::Init => None,
        Purpose::Generate(task) => match &task.options.system_prompt {
            Some(path) => Some(paths::copy(path)),
            None => None,
        },
    };
    load_step(purpose, loading::load(xdg, home, prompt_override))
}

/// Whether a file is among those that were created. The same path may be
/// written in more than one way.
pub open spec fn is_created(created: Seq<PathBuf>, file: PathBuf) -> bool {
    exists|i: int|
        0 <= i < created.len() && (#[trigger] created[i] == file || paths::same_path(
            created[i],
            file,
        ))
}

/// What `init` says of a file.
pub open spec fn report(loaded: LoadedView, file: PathBuf) -> Seq<char> {
    if is_created(loaded.created, file) {
        "wrote "@ + paths::shown(file)
    } else {
        "kept existing "@ + paths::shown(file)
    }
}

fn contains(created: &Vec<PathBuf>, file: &PathBuf) -> (r: bool)
    ensures
        r == is_created(created@, *file),
{
    for i in 0..created.len()
        invariant
            forall|j: int|
                0 <= j < i ==> #[trigger] created@[j] != *file && !paths::same_path(
                    created@[j],
                    *file,
                ),
    {
        if paths::same(&created[i], file) {
            return true;
        }
    }
    false
}

/// Say of a file whether it was written or found.
pub fn report_file(loaded: &Loaded, file: &PathBuf) -> (r: String)
    ensures
        r@ == report(loaded@, *file),
{
    let mut line = if contains(&loaded.created, file) {
        chars::of("wrote ")
    } else {
        chars::of("kept existing ")
    };
    chars::append_str(&mut line, paths::show(file).as_str());
    chars::string(line.as_slice())
}

/// What `generate` says of the files that it had to write.
pub open spec fn bootstrap(created: Seq<PathBuf>) -> Seq<Seq<char>> {
    created.map_values(|path: PathBuf| "lede: wrote "@ + paths::shown(path))
}

fn report_bootstrap(created: &Vec<PathBuf>) -> (r: Vec<String>)
    ensures
        chars::texts(r@) == bootstrap(created@),
{
    let mut lines: Vec<String> = Vec::new();
    assert(chars::texts(lines@) == bootstrap(created@).take(0));
    for i in 0..created.len()
        invariant
            chars::texts(lines@) == bootstrap(created@).take(i as int),
    {
        let ghost before = chars::texts(lines@);
        let mut line = chars::of("lede: wrote ");
        chars::append_str(&mut line, paths::show(&created[i]).as_str());
        let line = chars::string(line.as_slice());
        lines.push(line);
        assert(chars::texts(lines@) == before.push(line@));
        assert(bootstrap(created@).take(i + 1) == bootstrap(created@).take(i as int).push(line@));
    }
    assert(bootstrap(created@).take(created@.len() as int) == bootstrap(created@));
    lines
}

/// The message that hands the staged change to the model.
pub open spec fn asking(summary: Seq<char>, diff: Seq<char>, hint: Option<Seq<char>>) -> Seq<char> {
    let change = "Staged files:\n"@ + summary + "\n\nStaged diff:\n"@ + diff;
    match hint {
        Some(hint) => change + "\n\nAdditional context from the user: "@ + hint,
        None => change,
    }
}

/// The summary comes before the diff so the model sees the full scope of
/// the commit even when the diff is truncated. The exact layout is a contract
/// with the default system prompt, which tells the model it will receive "the
/// list of staged files and the staged diff": renaming a section here means
/// rewording the prompt too.
pub fn user_message(summary: &str, diff: &str, hint: Option<&str>) -> (r: String)
    ensures
        r@ == asking(
            summary@,
            diff@,
            match hint {
                Some(hint) => Some(hint@),
                None => None,
            },
        ),
{
    let mut out = chars::of("Staged files:\n");
    chars::append_str(&mut out, summary);
    chars::append_str(&mut out, "\n\nStaged diff:\n");
    chars::append_str(&mut out, diff);
    if let Some(hint) = hint {
        chars::append_str(&mut out, "\n\nAdditional context from the user: ");
        chars::append_str(&mut out, hint);
    }
    chars::string(out.as_slice())
}

/// A flag where it is given, or else what is configured.
pub open spec fn chosen(flag: Option<Seq<char>>, configured: Seq<char>) -> Seq<char> {
    match flag {
        Some(flag) => flag,
        None => configured,
    }
}

fn choice(flag: Option<String>, configured: String) -> (r: String)
    ensures
        r@ == chosen(chars::optional(flag), configured@),
{
    match flag {
        Some(flag) => flag,
        None => configured,
    }
}

/// The first request, before its credentials are known.
pub open spec fn drafted(task: TaskView, loaded: LoadedView) -> DraftView {
    DraftView {
        base_url: chosen(task.options.base_url, loaded.config.base_url),
        model: chosen(task.options.model, loaded.config.model),
        messages: seq![
            ChatMessageView { role: "system"@, content: loaded.system_prompt },
            ChatMessageView {
                role: "user"@,
                content: asking(task.change.summary, task.change.diff, task.options.hint),
            },
        ],
    }
}

/// A step that prints some lines before its own.
pub open spec fn printing(
    stdout: Seq<Seq<char>>,
    stderr: Seq<Seq<char>>,
    step: StepView,
) -> StepView {
    StepView { stdout: stdout + step.stdout, stderr: stderr + step.stderr, next: step.next }
}

/// What follows a step of the load.
pub open spec fn after_loading(purpose: PurposeView, step: LoadStepView) -> StepView {
    match step {
        LoadStepView::Failed(error) => failure(error.message()),
        LoadStepView::Loaded(loaded) => match purpose {
            PurposeView::Init => printing(
                seq![report(loaded, loaded.config_file), report(loaded, loaded.prompt_file)],
                Seq::empty(),
                after_resolving(PendingView::Init, auth::resolving(loaded.config.auth)),
            ),
            PurposeView::Generate(task) => printing(
                Seq::empty(),
                bootstrap(loaded.created),
                after_resolving(
                    PendingView::Generate(drafted(task, loaded)),
                    auth::resolving(loaded.config.auth),
                ),
            ),
        },
        _ => quiet(NextView::Load(purpose, step)),
    }
}

fn prefixed(stdout: Vec<String>, stderr: Vec<String>, step: Step) -> (r: Step)
    ensures
        r@ == printing(chars::texts(stdout@), chars::texts(stderr@), step@),
{
    let mut out = stdout;
    let mut err = stderr;
    let mut step_out = step.stdout;
    let mut step_err = step.stderr;
    out.append(&mut step_out);
    err.append(&mut step_err);
    let r = Step { stdout: out, stderr: err, next: step.next };
    assert(chars::texts(out@) == chars::texts(stdout@) + chars::texts(step.stdout@));
    assert(chars::texts(err@) == chars::texts(stderr@) + chars::texts(step.stderr@));
    r
}

/// Go on with a step of the load.
pub fn load_step(purpose: Purpose, step: LoadStep) -> (r: Step)
    ensures
        r@ == after_loading(purpose@, step@),
{
    let loaded = match step {
        LoadStep::Loaded(loaded) => loaded,
        LoadStep::Failed(error) => {
            return fail(error.message());
        },
        step => {
            return silent(Next::Load(purpose, step));
        },
    };
    match purpose {
        Purpose::Init => {
            let mut stdout: Vec<String> = Vec::new();
            stdout.push(report_file(&loaded, &loaded.config_file));
            stdout.push(report_file(&loaded, &loaded.prompt_file));
            let stderr: Vec<String> = Vec::new();
            assert(chars::texts(stdout@) == seq![
                report(loaded@, loaded.config_file),
                report(loaded@, loaded.prompt_file),
            ]);
            assert(chars::texts(stderr@) == Seq::<Seq<char>>::empty());
            prefixed(stdout, stderr, auth_step(Pending::Init, auth::resolve(loaded.config.auth)))
        },
        Purpose::Generate(task) => {
            let stdout: Vec<String> = Vec::new();
            let stderr = report_bootstrap(&loaded.created);
            let hint = match &task.options.hint {
                Some(hint) => Some(hint.as_str()),
                None => None,
            };
            let question = user_message(
                task.change.summary.as_str(),
                task.change.diff.as_str(),
                hint,
            );
            let mut messages: Vec<ChatMessage> = Vec::new();
            messages.push(ChatMessage { role: "system", content: loaded.system_prompt });
            messages.push(ChatMessage { role: "user", content: question });
            let draft = Draft {
                base_url: choice(task.options.base_url, loaded.config.base_url),
                model: choice(task.options.model, loaded.config.model),
                messages,
            };
            assert(draft@.messages == drafted(task@, loaded@).messages);
            assert(chars::texts(stdout@) == Seq::<Seq<char>>::empty());
            prefixed(
                stdout,
                stderr,
                auth_step(Pending::Generate(draft), auth::resolve(loaded.config.auth)),
            )
        },
    }
}

/// What follows a step of resolving the credentials.
pub open spec fn after_resolving(pending: PendingView, step: AuthStepView) -> StepView {
    match (pending, step) {
        (PendingView::Init, AuthStepView::Resolved(AuthorizationView::Bearer(_))) => success(
            "the api key resolves"@,
        ),
        (PendingView::Init, AuthStepView::Resolved(AuthorizationView::NoAuth)) => success(
            "no authentication configured"@,
        ),
        (PendingView::Init, AuthStepView::Failed(error)) => success(
            "warning: "@ + error.message(),
        ),
        (PendingView::Generate(draft), AuthStepView::Resolved(authorization)) => quiet(
            NextView::Post(
                ConversationView {
                    chat: ChatView {
                        base_url: draft.base_url,
                        model: draft.model,
                        authorization,
                        messages: draft.messages,
                    },
                    first: None,
                },
            ),
        ),
        (PendingView::Generate(_), AuthStepView::Failed(error)) => failure(error.message()),
        (pending, step) => quiet(NextView::Resolve(pending, step)),
    }
}

/// Go on with a step of resolving the credentials.
pub fn auth_step(pending: Pending, step: AuthStep) -> (r: Step)
    ensures
        r@ == after_resolving(pending@, step@),
{
    match step {
        AuthStep::Resolved(authorization) => match pending {
            Pending::Init => match authorization {
                Authorization::Bearer(_) => succeed("the api key resolves".to_owned()),
                Authorization::NoAuth => succeed("no authentication configured".to_owned()),
            },
            Pending::Generate(draft) => silent(
                Next::Post(
                    Conversation {
                        chat: Chat {
                            base_url: draft.base_url,
                            model: draft.model,
                            authorization,
                            messages: draft.messages,
                        },
                        first: None,
                    },
                ),
            ),
        },
        AuthStep::Failed(error) => match pending {
            Pending::Init => {
                let mut line = chars::of("warning: ");
                chars::append_str(&mut line, error.message().as_str());
                succeed(chars::string(line.as_slice()))
            },
            Pending::Generate(_) => fail(error.message()),
        },
        step => silent(Next::Resolve(pending, step)),
    }
}

/// What follows a post: a response is read according to its status.
pub open spec fn after_posting(
    conversation: ConversationView,
    answer: Result<u16, Seq<char>>,
) -> StepView {
    match answer {
        Ok(status) => if api::is_success(status) {
            quiet(NextView::ReadChoices(conversation))
        } else {
            quiet(NextView::ReadRefusal(conversation, status))
        },
        Err(cause) => after_answer(
            conversation,
            Err(ApiErrorView::NotSent { url: conversation.chat.url(), cause }),
        ),
    }
}

pub open spec fn answer_view(answer: Result<u16, String>) -> Result<u16, Seq<char>> {
    match answer {
        Ok(status) => Ok(status),
        Err(cause) => Err(cause@),
    }
}

/// Go on once the provider answered with a status, or did not answer.
pub fn posted(conversation: Conversation, answer: Result<u16, String>) -> (r: Step)
    ensures
        r@ == after_posting(conversation@, answer_view(answer)),
{
    match answer {
        Ok(status) => if api::succeeded(status) {
            silent(Next::ReadChoices(conversation))
        } else {
            silent(Next::ReadRefusal(conversation, status))
        },
        Err(cause) => {
            let url = conversation.chat.url();
            answered(conversation, Err(ApiError::NotSent { url, cause }))
        },
    }
}

/// What follows a refusal.
pub open spec fn after_refusal(
    conversation: ConversationView,
    status: u16,
    body: Seq<char>,
    error_message: Option<Seq<char>>,
) -> StepView {
    after_answer(
        conversation,
        Err(ApiErrorView::Refused { status, detail: api::detail_of(body, error_message) }),
    )
}

/// Go on with the body of a refusal, and with the provider's own error message
/// where one was found in it.
pub fn refused(
    conversation: Conversation,
    status: u16,
    body: &str,
    error_message: Option<String>,
) -> (r: Step)
    ensures
        r@ == after_refusal(conversation@, status, body@, chars::optional(error_message)),
{
    answered(conversation, Err(api::refusal(status, body, error_message)))
}

/// What follows a successful response.
pub open spec fn after_reply(
    conversation: ConversationView,
    choices: Result<Seq<Option<Seq<char>>>, Seq<char>>,
) -> StepView {
    after_answer(conversation, api::reply_of(choices))
}

/// Go on with the contents of the choices of a successful response, or with
/// the reason why it could not be read.
pub fn replied(conversation: Conversation, choices: Result<Vec<Option<String>>, String>) -> (r:
    Step)
    ensures
        r@ == after_reply(conversation@, api::choices_view(choices)),
{
    answered(conversation, api::reply(choices))
}

/// What the retry asks of the model.
pub open spec fn shortening(subject: Seq<char>) -> Seq<char> {
    "The subject line is "@ + text::decimal(subject.len()) + " characters; the limit is "@
        + text::decimal(SUBJECT_LIMIT as nat)
        + ". Rewrite the commit message with a shorter subject. Reply with only the commit message."@
}

/// The conversation of the retry.
pub open spec fn retrying(chat: ChatView, raw: Seq<char>, first: FormattedView) -> ConversationView {
    ConversationView {
        chat: ChatView {
            messages: chat.messages + seq![
                ChatMessageView { role: "assistant"@, content: raw },
                ChatMessageView { role: "user"@, content: shortening(first.subject) },
            ],
            ..chat
        },
        first: Some(first),
    }
}

/// What follows a call: a first reply whose subject fits is printed, and one
/// whose subject does not is retried once. The reply to the retry is printed
/// where its subject fits, and otherwise the first one, cut.
pub open spec fn after_answer(
    conversation: ConversationView,
    answer: Result<Seq<char>, ApiErrorView>,
) -> StepView {
    match (conversation.first, answer) {
        (None, Err(error)) => failure(error.message()),
        (None, Ok(raw)) => {
            let reply = message::parsed(message::sanitized(raw));
            if message::fits(reply.subject) {
                success(message::finished(reply))
            } else {
                quiet(NextView::Post(retrying(conversation.chat, raw, reply)))
            }
        },
        (Some(first), Err(_)) => success(message::finished(first)),
        (Some(first), Ok(raw)) => {
            let reply = message::parsed(message::sanitized(raw));
            if message::fits(reply.subject) {
                success(message::finished(reply))
            } else {
                success(message::finished(first))
            }
        },
    }
}

pub open spec fn reply_view(answer: Result<String, ApiError>) -> Result<Seq<char>, ApiErrorView> {
    match answer {
        Ok(raw) => Ok(raw@),
        Err(error) => Err(error@),
    }
}

fn ask_shorter(subject: &str) -> (r: String)
    ensures
        r@ == shortening(subject@),
{
    let mut out = chars::of("The subject line is ");
    chars::append(&mut out, chars::decimal(message::width(subject)).as_slice());
    chars::append_str(&mut out, " characters; the limit is ");
    chars::append(&mut out, chars::decimal(SUBJECT_LIMIT).as_slice());
    chars::append_str(
        &mut out,
        ". Rewrite the commit message with a shorter subject. Reply with only the commit message.",
    );
    chars::string(out.as_slice())
}

/// Go on with the assistant's text, or with the reason why there is none.
///
/// The system prompt asks for a 50-character subject, but the reply is
/// not trusted: one retry asks the model to shorten, and a word-boundary
/// truncation is the last resort. Truncating beats erroring here, because
/// the user is already inside `git commit -m "$(lede generate)"` and a clipped
/// subject is still a valid, editable message.
pub fn answered(conversation: Conversation, answer: Result<String, ApiError>) -> (r: Step)
    ensures
        r@ == after_answer(conversation@, reply_view(answer)),
{
    let Conversation { chat, first } = conversation;
    match (first, answer) {
        (None, Err(error)) => fail(error.message()),
        (None, Ok(raw)) => {
            let reply = message::parse(message::sanitize(raw.as_str()).as_str());
            if message::subject_fits(reply.subject.as_str()) {
                return succeed(message::finish(&reply));
            }
            let question = ask_shorter(reply.subject.as_str());
            let ghost before = api::messages_view(chat.messages@);
            let mut messages = chat.messages;
            messages.push(ChatMessage { role: "assistant", content: raw });
            messages.push(ChatMessage { role: "user", content: question });
            let next = Conversation {
                chat: Chat {
                    base_url: chat.base_url,
                    model: chat.model,
                    authorization: chat.authorization,
                    messages,
                },
                first: Some(reply),
            };
            assert(next@.chat.messages == before + seq![
                ChatMessageView { role: "assistant"@, content: raw@ },
                ChatMessageView { role: "user"@, content: question@ },
            ]);
            silent(Next::Post(next))
        },
        (Some(first), Err(_)) => succeed(message::finish(&first)),
        (Some(first), Ok(raw)) => {
            let reply = message::parse(message::sanitize(raw.as_str()).as_str());
            if message::subject_fits(reply.subject.as_str()) {
                succeed(message::finish(&reply))
            } else {
                succeed(message::finish(&first))
            }
        },
    }
}

} // verus!
