//! Whole runs: exit codes, what is printed, and the requests that leave for
//! the API. The world around a run is in memory, so no test needs a network,
//! a key or a disk.

use std::collections::HashMap;
use std::path::PathBuf;

use lede::api::{refusal, reply, ApiError, Chat, ChatMessage};
use lede::app::{
    auth_step, git_ran, load_step, located, posted, refused, replied, report_file, run,
    user_message, Next,
};
use lede::auth::{resolve_bearer, resolve_command, AuthStep, Authorization};
use lede::cli::{Cli, Command};
use lede::config::{Config, DEFAULT_CONFIG, DEFAULT_PROMPT};
use lede::loading::{LoadStep, Loaded};
use lede::process::Output;

const LONG: &str = "Add a subject line that is way too long to pass the fifty character check";

/// A canned answer of the API.
enum Canned {
    /// A successful response with these choices.
    Choices(Vec<Option<String>>),
    /// A successful response that is not what it should be.
    Broken(String),
    /// A status, a body, and the error message that the body holds.
    Refusal(u16, String, Option<String>),
}

fn says(content: &str) -> Canned {
    Canned::Choices(vec![Some(content.to_owned())])
}

/// A captured request: what actually left for the API.
struct Request {
    url: String,
    authorization: Option<String>,
    model: String,
    messages: Vec<(&'static str, String)>,
}

struct World {
    git: Result<Output, String>,
    files: HashMap<PathBuf, String>,
    variables: HashMap<String, String>,
    /// What the shell prints for a command line.
    shell: HashMap<String, String>,
    answers: Vec<Canned>,
    requests: Vec<Request>,
}

struct Ended {
    success: bool,
    stdout: String,
    stderr: String,
}

fn config_dir() -> PathBuf {
    PathBuf::from("/home/user/.config/lede")
}

fn ok(stdout: &str) -> Output {
    Output {
        success: true,
        stdout: stdout.as_bytes().to_vec(),
        stderr: Vec::new(),
    }
}

impl World {
    /// A staged change, a key in the environment, and no files.
    fn new(answers: Vec<Canned>) -> Self {
        World {
            git: Ok(ok(
                ":000000 100644 0000000 f328e4d A\tlib.rs\n\n\
                 diff --git a/lib.rs b/lib.rs\n+fn main() {}\n",
            )),
            files: HashMap::new(),
            variables: HashMap::from([("OPENAI_API_KEY".to_owned(), "test-key".to_owned())]),
            shell: HashMap::new(),
            answers,
            requests: Vec::new(),
        }
    }

    fn configured(config: &str, answers: Vec<Canned>) -> Self {
        let mut world = World::new(answers);
        world.write("config.toml", config);
        world.variables.clear();
        world
    }

    fn write(&mut self, name: &str, contents: &str) {
        self.files
            .insert(config_dir().join(name), contents.to_owned());
    }

    fn run(&mut self, command: Command) -> Ended {
        let mut step = run(Cli { command });
        let mut stdout = String::new();
        let mut stderr = String::new();
        let mut response: Option<Canned> = None;
        loop {
            for line in &step.stdout {
                stdout.push_str(line);
                stdout.push('\n');
            }
            for line in &step.stderr {
                stderr.push_str(line);
                stderr.push('\n');
            }
            step = match step.next {
                Next::RunGit(options) => {
                    let ran = match &self.git {
                        Ok(output) => Ok(Output {
                            success: output.success,
                            stdout: output.stdout.clone(),
                            stderr: output.stderr.clone(),
                        }),
                        Err(cause) => Err(cause.clone()),
                    };
                    git_ran(options, ran)
                }
                Next::Locate(purpose) => located(purpose, None, Some(PathBuf::from("/home/user"))),
                Next::Load(purpose, asked) => load_step(purpose, self.load(asked)),
                Next::Resolve(pending, asked) => auth_step(pending, self.resolve(asked)),
                Next::Post(conversation) => {
                    let chat = &conversation.chat;
                    let answer = if self.answers.is_empty() {
                        Err("connection refused".to_owned())
                    } else {
                        self.requests.push(Request {
                            url: chat.url(),
                            authorization: chat.authorization_header(),
                            model: chat.model.clone(),
                            messages: chat
                                .messages
                                .iter()
                                .map(|message| (message.role, message.content.clone()))
                                .collect(),
                        });
                        let canned = self.answers.remove(0);
                        let status = match &canned {
                            Canned::Refusal(status, _, _) => *status,
                            _ => 200,
                        };
                        response = Some(canned);
                        Ok(status)
                    };
                    posted(conversation, answer)
                }
                Next::ReadChoices(conversation) => match response.take() {
                    Some(Canned::Choices(choices)) => replied(conversation, Ok(choices)),
                    Some(Canned::Broken(cause)) => replied(conversation, Err(cause)),
                    _ => panic!("there are no choices to read"),
                },
                Next::ReadRefusal(conversation, status) => match response.take() {
                    Some(Canned::Refusal(_, body, message)) => {
                        refused(conversation, status, &body, message)
                    }
                    _ => panic!("there is no refusal to read"),
                },
                Next::Exit(success) => {
                    return Ended {
                        success,
                        stdout,
                        stderr,
                    }
                }
            };
        }
    }

    fn load(&mut self, asked: LoadStep) -> LoadStep {
        match asked {
            LoadStep::Check(loading) => {
                let there = self.files.contains_key(&loading.file());
                loading.checked(there)
            }
            LoadStep::CreateDir(loading) => loading.dir_created(Ok(())),
            LoadStep::Write(loading) => {
                self.files.insert(loading.file(), loading.contents());
                loading.written(Ok(()))
            }
            LoadStep::Read(loading) => {
                let content = self.files.get(&loading.file()).cloned();
                loading.read(content.ok_or_else(|| "no such file".to_owned()))
            }
            LoadStep::Explain(loading, _) => loading.explained("not a setting".to_owned()),
            ended => ended,
        }
    }

    fn resolve(&mut self, asked: AuthStep) -> AuthStep {
        match asked {
            AuthStep::ReadVariable(source) => {
                let value = self.variables.get(&source.env).cloned();
                resolve_bearer(source, value)
            }
            AuthStep::RunShell(command) => {
                let printed = self.shell.get(&command).cloned().unwrap_or_default();
                resolve_command(command, Ok(ok(&printed)))
            }
            ended => ended,
        }
    }
}

fn generate() -> Command {
    Command::Generate {
        hint: None,
        model: None,
        base_url: Some("http://127.0.0.1:8080/v1".to_owned()),
        system_prompt: None,
    }
}

#[test]
fn the_user_message_holds_summary_then_diff() {
    let message = user_message("M\ta.rs", "+fn a() {}", None);
    assert_eq!(
        message,
        "Staged files:\nM\ta.rs\n\nStaged diff:\n+fn a() {}"
    );
}

#[test]
fn a_hint_lands_at_the_end() {
    let message = user_message("M\ta.rs", "+x", Some("refactor only"));
    assert!(message.ends_with("Additional context from the user: refactor only"));
}

#[test]
fn a_staged_change_yields_one_formatted_message_on_stdout() {
    let mut world = World::new(vec![says("Add lib module\n\nStub out the entry point.")]);

    let ended = world.run(generate());

    assert!(ended.success, "stderr: {}", ended.stderr);
    assert_eq!(
        ended.stdout,
        "Add lib module\n\nStub out the entry point.\n"
    );

    // First run bootstrapped the config, reported on stderr only.
    assert!(ended.stderr.contains("wrote"));
    assert_eq!(
        ended.stderr,
        "lede: wrote /home/user/.config/lede/config.toml\n\
         lede: wrote /home/user/.config/lede/prompt.txt\n"
    );
    assert_eq!(world.files[&config_dir().join("config.toml")], DEFAULT_CONFIG);
    assert_eq!(world.files[&config_dir().join("prompt.txt")], DEFAULT_PROMPT);

    // The request carried the system prompt, the file list, and the diff.
    let request = &world.requests[0];
    assert_eq!(request.url, "http://127.0.0.1:8080/v1/chat/completions");
    assert_eq!(request.messages[0].0, "system");
    assert!(request.messages[0].1.contains("git commit messages"));
    assert_eq!(request.messages[1].0, "user");
    assert!(request.messages[1].1.contains("Staged files:"));
    assert!(request.messages[1].1.contains("A\tlib.rs"));
    assert_eq!(request.authorization.as_deref(), Some("Bearer test-key"));
}

#[test]
fn the_hint_reaches_the_model() {
    let mut world = World::new(vec![says("Add lib module")]);

    let ended = world.run(Command::Generate {
        hint: Some("refactor only".to_owned()),
        model: None,
        base_url: None,
        system_prompt: None,
    });

    assert!(ended.success);
    assert!(world.requests[0].messages[1]
        .1
        .contains("Additional context from the user: refactor only"));
    assert_eq!(
        world.requests[0].url,
        "https://api.openai.com/v1/chat/completions"
    );
    assert_eq!(world.requests[0].model, "gpt-5.4-nano");
}

#[test]
fn an_overlong_subject_gets_one_retry() {
    let mut world = World::new(vec![says(LONG), says("Add lib module")]);

    let ended = world.run(generate());

    assert!(ended.success, "stderr: {}", ended.stderr);
    assert_eq!(ended.stdout, "Add lib module\n");
    assert_eq!(world.requests.len(), 2);
    let retry = &world.requests[1].messages;
    assert_eq!(retry.len(), 4);
    assert_eq!(retry[2], ("assistant", LONG.to_owned()));
    assert_eq!(
        retry[3],
        (
            "user",
            "The subject line is 73 characters; the limit is 50. Rewrite the commit message \
             with a shorter subject. Reply with only the commit message."
                .to_owned()
        )
    );
    assert!(retry[3].1.contains("limit is 50"));
}

#[test]
fn a_retry_that_stays_long_falls_back_to_truncation() {
    let mut world = World::new(vec![says(LONG), says(LONG), says("Add lib module")]);

    let ended = world.run(generate());

    assert!(ended.success);
    let subject = ended.stdout.lines().next().unwrap();
    assert!(subject.chars().count() <= 50, "subject too long: {subject}");
    assert!(LONG.starts_with(subject));
    // The third answer is never asked for.
    assert_eq!(world.requests.len(), 2);
}

#[test]
fn the_model_override_reaches_the_request() {
    let mut world = World::new(vec![says("Add lib module")]);

    let ended = world.run(Command::Generate {
        hint: None,
        model: Some("qwen2.5-coder".to_owned()),
        base_url: None,
        system_prompt: None,
    });

    assert!(ended.success);
    assert_eq!(world.requests[0].model, "qwen2.5-coder");
}

// The retry is best effort: when the second request fails outright, the
// first reply is still salvaged by truncation rather than failing the run.
#[test]
fn a_failed_retry_still_truncates() {
    // One response only: nothing answers by the time the retry connects.
    let mut world = World::new(vec![says(LONG)]);

    let ended = world.run(generate());

    assert!(ended.success, "stderr: {}", ended.stderr);
    let subject = ended.stdout.lines().next().unwrap();
    assert!(subject.chars().count() <= 50, "subject too long: {subject}");
    assert!(LONG.starts_with(subject));
    assert_eq!(subject, "Add a subject line that is way too long to pass");
}

#[test]
fn a_refused_retry_still_truncates() {
    let mut world = World::new(vec![
        says(LONG),
        Canned::Refusal(500, "oops".to_owned(), None),
    ]);

    let ended = world.run(generate());

    assert!(ended.success);
    assert_eq!(
        ended.stdout,
        "Add a subject line that is way too long to pass\n"
    );
}

#[test]
fn an_api_error_reports_status_and_message() {
    let mut world = World::new(vec![Canned::Refusal(
        401,
        r#"{"error": {"message": "Incorrect API key provided", "type": "auth"}}"#.to_owned(),
        Some("Incorrect API key provided".to_owned()),
    )]);

    let ended = world.run(generate());

    assert!(!ended.success);
    assert!(ended.stdout.is_empty());
    assert!(
        ended
            .stderr
            .contains("lede: API error (HTTP 401): Incorrect API key provided\n"),
        "stderr: {}",
        ended.stderr
    );
}

#[test]
fn a_non_json_error_body_falls_back_to_its_first_line() {
    let mut world = World::new(vec![Canned::Refusal(
        502,
        "upstream exploded\ndetails\n".to_owned(),
        None,
    )]);

    let ended = world.run(generate());

    assert!(!ended.success);
    assert!(
        ended
            .stderr
            .contains("API error (HTTP 502): upstream exploded\n"),
        "stderr: {}",
        ended.stderr
    );
}

#[test]
fn a_refusal_without_a_body_has_no_detail() {
    assert_eq!(refusal(503, "", None).message(), "API error (HTTP 503): ");
    assert_eq!(
        refusal(404, "  not here \r\nx", None).message(),
        "API error (HTTP 404): not here"
    );
}

#[test]
fn an_empty_reply_is_an_error() {
    let mut world = World::new(vec![says("")]);

    let ended = world.run(generate());

    assert!(!ended.success);
    assert!(ended.stdout.is_empty());
    assert!(
        ended.stderr.contains("API returned an empty message"),
        "stderr: {}",
        ended.stderr
    );
}

#[test]
fn a_reply_without_content_is_an_error() {
    assert!(matches!(reply(Ok(vec![None])), Err(ApiError::EmptyMessage)));
    assert!(matches!(
        reply(Ok(vec![Some(" \n".to_owned())])),
        Err(ApiError::EmptyMessage)
    ));
    assert_eq!(
        reply(Ok(vec![Some(" a ".to_owned()), Some("b".to_owned())])).unwrap(),
        " a "
    );
}

#[test]
fn a_reply_with_no_choices_is_an_error() {
    let mut world = World::new(vec![Canned::Choices(vec![])]);

    let ended = world.run(generate());

    assert!(!ended.success);
    assert!(
        ended.stderr.contains("API returned no choices"),
        "stderr: {}",
        ended.stderr
    );
}

#[test]
fn a_reply_that_cannot_be_read_is_an_error() {
    let mut world = World::new(vec![Canned::Broken("expected value".to_owned())]);

    let ended = world.run(generate());

    assert!(!ended.success);
    assert!(ended
        .stderr
        .contains("lede: failed to parse API response: expected value\n"));
}

#[test]
fn a_request_that_is_not_answered_is_an_error() {
    let mut world = World::new(vec![]);

    let ended = world.run(generate());

    assert!(!ended.success);
    assert!(ended.stdout.is_empty());
    assert!(ended.stderr.ends_with(
        "lede: request to http://127.0.0.1:8080/v1/chat/completions failed: connection refused\n"
    ));
}

#[test]
fn nothing_staged_fails_before_any_request() {
    let mut world = World::new(vec![says("Add lib module")]);
    world.git = Ok(ok(""));

    let ended = world.run(generate());

    assert!(!ended.success);
    assert!(ended.stdout.is_empty());
    assert_eq!(ended.stderr, "lede: nothing staged (use git add)\n");
    assert!(world.requests.is_empty());
    // A doomed run must not bootstrap config files: the staged change is
    // read before config loading, and this pins that order.
    assert!(world.files.is_empty());
}

#[test]
fn a_non_repository_fails_before_config_loading() {
    let mut world = World::new(vec![]);
    world.git = Ok(Output {
        success: false,
        stdout: Vec::new(),
        stderr: b"fatal: not a git repository\n".to_vec(),
    });

    let ended = world.run(generate());

    assert!(!ended.success);
    assert!(ended.stdout.is_empty());
    // git's own error is passed through, prefixed with the command that
    // failed; lede adds no repository detection of its own.
    assert!(ended.stderr.contains("git diff --cached"));
    assert!(world.files.is_empty());
}

// The whole point of auth.command: no key anywhere in the environment, yet
// the request goes out authorized with what the command printed.
#[test]
fn the_key_command_supplies_the_key() {
    let mut world = World::configured(
        "[auth]\nmode = \"bearer\"\ncommand = \"echo key-from-command\"\n",
        vec![says("Add lib module")],
    );
    world.shell.insert(
        "echo key-from-command".to_owned(),
        "key-from-command\n".to_owned(),
    );

    let ended = world.run(generate());

    assert!(ended.success, "stderr: {}", ended.stderr);
    assert_eq!(ended.stdout, "Add lib module\n");
    assert_eq!(
        world.requests[0].authorization.as_deref(),
        Some("Bearer key-from-command")
    );
}

#[test]
fn no_authentication_omits_the_authorization_header() {
    let mut world = World::configured(
        "[auth]\nmode = \"none\"\n",
        vec![says(LONG), says("Add lib module")],
    );

    let ended = world.run(generate());

    assert!(ended.success, "stderr: {}", ended.stderr);
    assert!(world.requests[0].authorization.is_none());
    assert!(world.requests[1].authorization.is_none());
}

#[test]
fn a_missing_api_key_names_the_variable() {
    let mut world = World::new(vec![]);
    world.variables.clear();

    let ended = world.run(generate());

    assert!(!ended.success);
    assert!(ended.stdout.is_empty());
    assert!(
        ended.stderr.contains("OPENAI_API_KEY is not set"),
        "stderr: {}",
        ended.stderr
    );
}

#[test]
fn the_prompt_override_reaches_the_model() {
    let mut world = World::new(vec![says("Add lib module")]);
    world
        .files
        .insert(PathBuf::from("/tmp/prompt.txt"), "be brief".to_owned());

    let ended = world.run(Command::Generate {
        hint: None,
        model: None,
        base_url: None,
        system_prompt: Some(PathBuf::from("/tmp/prompt.txt")),
    });

    assert!(ended.success);
    assert_eq!(
        world.requests[0].messages[0],
        ("system", "be brief".to_owned())
    );
    assert!(!world.files.contains_key(&config_dir().join("prompt.txt")));
}

#[test]
fn init_writes_the_default_files_and_reports_them() {
    let mut world = World::new(vec![]);

    let ended = world.run(Command::Init);

    assert!(ended.success, "stderr: {}", ended.stderr);
    assert!(ended.stdout.contains("wrote"));
    assert!(ended.stdout.contains("config.toml"));
    assert!(ended.stdout.contains("prompt.txt"));
    assert!(ended.stdout.contains("the api key resolves"));
    assert_eq!(
        ended.stdout,
        "wrote /home/user/.config/lede/config.toml\n\
         wrote /home/user/.config/lede/prompt.txt\n\
         the api key resolves\n"
    );
    assert!(world.files.contains_key(&config_dir().join("config.toml")));
    assert!(world.files.contains_key(&config_dir().join("prompt.txt")));
}

// Idempotence is the promise that makes "run lede init" safe advice on any
// machine: a second run must keep user edits, not reset them to defaults.
#[test]
fn a_second_init_keeps_edited_files() {
    let mut world = World::new(vec![]);
    world.run(Command::Init);
    world.write("config.toml", "model = \"llama3\"\n");

    let ended = world.run(Command::Init);

    assert!(ended.success, "stderr: {}", ended.stderr);
    assert!(!ended.stdout.contains("wrote"), "{}", ended.stdout);
    assert!(ended.stdout.contains("kept existing"), "{}", ended.stdout);
    assert_eq!(
        ended.stdout,
        "kept existing /home/user/.config/lede/config.toml\n\
         kept existing /home/user/.config/lede/prompt.txt\n\
         the api key resolves\n"
    );
    assert_eq!(
        world.files[&config_dir().join("prompt.txt")],
        DEFAULT_PROMPT
    );
    assert_eq!(
        world.files[&config_dir().join("config.toml")],
        "model = \"llama3\"\n"
    );
}

// The check is advisory: the files were written, so init succeeds and the
// missing key is a warning naming both ways to provide one.
#[test]
fn init_without_a_key_warns_but_succeeds() {
    let mut world = World::new(vec![]);
    world.variables.clear();

    let ended = world.run(Command::Init);

    assert!(ended.success, "stderr: {}", ended.stderr);
    assert!(ended.stdout.contains("warning:"), "{}", ended.stdout);
    assert!(
        ended.stdout.contains("OPENAI_API_KEY is not set"),
        "{}",
        ended.stdout
    );
    assert!(world.files.contains_key(&config_dir().join("config.toml")));
}

#[test]
fn init_says_when_no_authentication_is_configured() {
    let mut world = World::configured("[auth]\nmode = \"none\"\n", vec![]);

    let ended = world.run(Command::Init);

    assert!(ended.success);
    assert!(ended.stdout.ends_with("no authentication configured\n"));
}

#[test]
fn init_with_an_invalid_config_fails() {
    let mut world = World::configured("modle = \"typo\"", vec![]);

    let ended = world.run(Command::Init);

    assert!(!ended.success);
    assert!(ended.stdout.is_empty());
    assert_eq!(
        ended.stderr,
        "lede: invalid config /home/user/.config/lede/config.toml: not a setting\n"
    );
}

// The same file may be written in two ways.
#[test]
fn a_report_compares_paths_by_their_components() {
    let loaded = Loaded {
        config: Config::default(),
        system_prompt: String::new(),
        config_file: PathBuf::from("/a/config.toml"),
        prompt_file: PathBuf::from("/a/./prompt.txt"),
        created: vec![PathBuf::from("/a/prompt.txt")],
    };
    assert_eq!(
        report_file(&loaded, &loaded.config_file),
        "kept existing /a/config.toml"
    );
    assert_eq!(
        report_file(&loaded, &loaded.prompt_file),
        "wrote /a/./prompt.txt"
    );
}

#[test]
fn trailing_slashes_of_the_base_url_do_not_matter() {
    for base_url in ["http://localhost/v1", "http://localhost/v1/", "http://localhost/v1//"] {
        let chat = Chat {
            base_url: base_url.to_owned(),
            model: String::new(),
            authorization: Authorization::NoAuth,
            messages: vec![ChatMessage {
                role: "user",
                content: String::new(),
            }],
        };
        assert_eq!(chat.url(), "http://localhost/v1/chat/completions");
        assert!(chat.authorization_header().is_none());
    }
}
