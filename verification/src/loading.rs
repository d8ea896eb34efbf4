//! Loading the configuration and the system prompt, as a walk over the files:
//! each step names one thing to do on disk, and the answer to it gives the
//! next step. What a step finds missing is written with its default first, so
//! that the first run leaves files the user can edit.

use std::path::PathBuf;
use vstd::prelude::*;

use crate::chars;
use crate::config;
use crate::config::{Config, ConfigView, DEFAULT_CONFIG, DEFAULT_PROMPT};
use crate::paths;

verus! {

/// Everything a command needs from disk, plus where it came from and which
/// files were written because they were missing, so that both bootstrap
/// ("wrote") and idempotence ("kept existing") can be reported.
#[derive(Debug)]
pub struct Loaded {
    pub config: Config,
    pub system_prompt: String,
    /// The config.toml actually read.
    pub config_file: PathBuf,
    /// The system prompt file actually read: the --system-prompt override,
    /// or the configured file resolved against the config dir.
    pub prompt_file: PathBuf,
    pub created: Vec<PathBuf>,
}

/// What a [`Loaded`] holds.
pub struct LoadedView {
    pub config: ConfigView,
    pub system_prompt: Seq<char>,
    pub config_file: PathBuf,
    pub prompt_file: PathBuf,
    pub created: Seq<PathBuf>,
}

impl View for Loaded {
    type V = LoadedView;

    open spec fn view(&self) -> LoadedView {
        LoadedView {
            config: self.config@,
            system_prompt: self.system_prompt@,
            config_file: self.config_file,
            prompt_file: self.prompt_file,
            created: self.created@,
        }
    }
}

/// The file that a load is busy with.
#[derive(Debug)]
pub enum Goal {
    Config,
    /// The system prompt, once the configuration is known.
    Prompt(Config),
}

/// What a [`Goal`] holds.
pub enum GoalView {
    Config,
    Prompt(ConfigView),
}

impl View for Goal {
    type V = GoalView;

    open spec fn view(&self) -> GoalView {
        match self {
            Goal::Config => GoalView::Config,
            Goal::Prompt(config) => GoalView::Prompt(config@),
        }
    }
}

/// A load under way.
#[derive(Debug)]
pub struct Loading {
    /// The config directory.
    pub dir: PathBuf,
    /// The --system-prompt flag. Read as given and never created: a missing
    /// override is the user's error to see.
    pub prompt_override: Option<PathBuf>,
    /// The files written so far because they were missing.
    pub created: Vec<PathBuf>,
    pub goal: Goal,
}

/// What a [`Loading`] holds.
pub struct LoadingView {
    pub dir: PathBuf,
    pub prompt_override: Option<PathBuf>,
    pub created: Seq<PathBuf>,
    pub goal: GoalView,
}

impl View for Loading {
    type V = LoadingView;

    open spec fn view(&self) -> LoadingView {
        LoadingView {
            dir: self.dir,
            prompt_override: self.prompt_override,
            created: self.created@,
            goal: self.goal@,
        }
    }
}

/// Why a load failed.
#[derive(Debug)]
pub enum LoadError {
    NoHome,
    CreateDir { dir: PathBuf, cause: String },
    Write { file: PathBuf, cause: String },
    ReadConfig { file: PathBuf, cause: String },
    InvalidConfig { file: PathBuf, cause: String },
    ReadPrompt { file: PathBuf, cause: String },
}

/// What a [`LoadError`] holds.
pub enum LoadErrorView {
    NoHome,
    CreateDir { dir: PathBuf, cause: Seq<char> },
    Write { file: PathBuf, cause: Seq<char> },
    ReadConfig { file: PathBuf, cause: Seq<char> },
    InvalidConfig { file: PathBuf, cause: Seq<char> },
    ReadPrompt { file: PathBuf, cause: Seq<char> },
}

impl View for LoadError {
    type V = LoadErrorView;

    open spec fn view(&self) -> LoadErrorView {
        match self {
            LoadError::NoHome => LoadErrorView::NoHome,
            LoadError::CreateDir { dir, cause } => LoadErrorView::CreateDir {
                dir: *dir,
                cause: cause@,
            },
            LoadError::Write { file, cause } => LoadErrorView::Write { file: *file, cause: cause@ },
            LoadError::ReadConfig { file, cause } => LoadErrorView::ReadConfig {
                file: *file,
                cause: cause@,
            },
            LoadError::InvalidConfig { file, cause } => LoadErrorView::InvalidConfig {
                file: *file,
                cause: cause@,
            },
            LoadError::ReadPrompt { file, cause } => LoadErrorView::ReadPrompt {
                file: *file,
                cause: cause@,
            },
        }
    }
}

/// What a load asks for next, or how it ended.
#[derive(Debug)]
pub enum LoadStep {
    /// Find out whether [`Loading::file`] is a file, and go on with
    /// [`Loading::checked`].
    Check(Loading),
    /// Create the config directory and its parents, and go on with
    /// [`Loading::dir_created`].
    CreateDir(Loading),
    /// Write [`Loading::contents`] to [`Loading::file`], and go on with
    /// [`Loading::written`].
    Write(Loading),
    /// Read [`Loading::file`], and go on with [`Loading::read`].
    Read(Loading),
    /// The text is no configuration. Let the TOML reader put into words where
    /// and why, and go on with [`Loading::explained`].
    Explain(Loading, String),
    Loaded(Loaded),
    Failed(LoadError),
}

/// What a [`LoadStep`] holds.
pub enum LoadStepView {
    Check(LoadingView),
    CreateDir(LoadingView),
    Write(LoadingView),
    Read(LoadingView),
    Explain(LoadingView, Seq<char>),
    Loaded(LoadedView),
    Failed(LoadErrorView),
}

impl View for LoadStep {
    type V = LoadStepView;

    open spec fn view(&self) -> LoadStepView {
        match self {
            LoadStep::Check(loading) => LoadStepView::Check(loading@),
            LoadStep::CreateDir(loading) => LoadStepView::CreateDir(loading@),
            LoadStep::Write(loading) => LoadStepView::Write(loading@),
            LoadStep::Read(loading) => LoadStepView::Read(loading@),
            LoadStep::Explain(loading, source) => LoadStepView::Explain(loading@, source@),
            LoadStep::Loaded(loaded) => LoadStepView::Loaded(loaded@),
            LoadStep::Failed(error) => LoadStepView::Failed(error@),
        }
    }
}

/// The configuration file in a config directory.
pub open spec fn config_file(dir: PathBuf) -> PathBuf {
    paths::joined(dir, "config.toml"@)
}

/// The system prompt file: the override, or the configured file, which counts
/// from the config directory unless it is absolute.
pub open spec fn prompt_file(
    dir: PathBuf,
    prompt_override: Option<PathBuf>,
    configured: Seq<char>,
) -> PathBuf {
    match prompt_override {
        Some(path) => path,
        None => if paths::absolute(paths::path_of(configured)) {
            paths::path_of(configured)
        } else {
            paths::joined(dir, configured)
        },
    }
}

impl LoadingView {
    /// The file that the load is busy with.
    pub open spec fn file(self) -> PathBuf {
        match self.goal {
            GoalView::Config => config_file(self.dir),
            GoalView::Prompt(config) => prompt_file(
                self.dir,
                self.prompt_override,
                config.system_prompt_file,
            ),
        }
    }

    /// What is written to that file when it is missing.
    pub open spec fn contents(self) -> Seq<char> {
        match self.goal {
            GoalView::Config => DEFAULT_CONFIG@,
            GoalView::Prompt(_) => DEFAULT_PROMPT@,
        }
    }

    /// A missing file is written where it may be: the configuration always,
    /// the prompt only inside the config directory.
    pub open spec fn checked(self, there: bool) -> LoadStepView {
        if there || (self.goal is Prompt && !paths::within(self.file(), self.dir)) {
            LoadStepView::Read(self)
        } else {
            LoadStepView::CreateDir(self)
        }
    }

    pub open spec fn dir_created(self, done: Result<(), Seq<char>>) -> LoadStepView {
        match done {
            Ok(_) => LoadStepView::Write(self),
            Err(cause) => LoadStepView::Failed(LoadErrorView::CreateDir { dir: self.dir, cause }),
        }
    }

    pub open spec fn written(self, done: Result<(), Seq<char>>) -> LoadStepView {
        match done {
            Ok(_) => LoadStepView::Read(
                LoadingView { created: self.created.push(self.file()), ..self },
            ),
            Err(cause) => LoadStepView::Failed(LoadErrorView::Write { file: self.file(), cause }),
        }
    }

    /// The configuration leads to the prompt, which is looked for first unless
    /// an override names it. The prompt ends the load.
    pub open spec fn read(self, content: Result<Seq<char>, Seq<char>>) -> LoadStepView {
        match (self.goal, content) {
            (GoalView::Config, Err(cause)) => LoadStepView::Failed(
                LoadErrorView::ReadConfig { file: self.file(), cause },
            ),
            (GoalView::Config, Ok(source)) => match config::parsed(source) {
                Err(_) => LoadStepView::Explain(self, source),
                Ok(config) => {
                    let next = LoadingView { goal: GoalView::Prompt(config), ..self };
                    if self.prompt_override is Some {
                        LoadStepView::Read(next)
                    } else {
                        LoadStepView::Check(next)
                    }
                },
            },
            (GoalView::Prompt(_), Err(cause)) => LoadStepView::Failed(
                LoadErrorView::ReadPrompt { file: self.file(), cause },
            ),
            (GoalView::Prompt(config), Ok(system_prompt)) => LoadStepView::Loaded(
                LoadedView {
                    config,
                    system_prompt,
                    config_file: config_file(self.dir),
                    prompt_file: self.file(),
                    created: self.created,
                },
            ),
        }
    }

    pub open spec fn explained(self, cause: Seq<char>) -> LoadStepView {
        LoadStepView::Failed(LoadErrorView::InvalidConfig { file: self.file(), cause })
    }
}

/// What an attempt to change the disk came to.
pub open spec fn done_view(done: Result<(), String>) -> Result<(), Seq<char>> {
    match done {
        Ok(_) => Ok(()),
        Err(cause) => Err(cause@),
    }
}

/// What an attempt to read a text came to.
pub open spec fn read_view(content: Result<String, String>) -> Result<Seq<char>, Seq<char>> {
    match content {
        Ok(content) => Ok(content@),
        Err(cause) => Err(cause@),
    }
}

impl Loading {
    /// The file that the load is busy with.
    pub fn file(&self) -> (r: PathBuf)
        ensures
            r == self@.file(),
    {
        match &self.goal {
            Goal::Config => paths::join(&self.dir, "config.toml"),
            Goal::Prompt(config) => match &self.prompt_override {
                Some(path) => paths::copy(path),
                None => {
                    let path = paths::from_text(config.system_prompt_file.as_str());
                    if paths::is_absolute(&path) {
                        path
                    } else {
                        paths::join(&self.dir, config.system_prompt_file.as_str())
                    }
                },
            },
        }
    }

    /// What is written to that file when it is missing.
    pub fn contents(&self) -> (r: String)
        ensures
            r@ == self@.contents(),
    {
        match &self.goal {
            Goal::Config => DEFAULT_CONFIG.to_owned(),
            Goal::Prompt(_) => DEFAULT_PROMPT.to_owned(),
        }
    }

    /// Go on once it is known whether the file is there.
    pub fn checked(self, there: bool) -> (r: LoadStep)
        ensures
            r@ == self@.checked(there),
    {
        let outside = match &self.goal {
            Goal::Config => false,
            // The default prompt is recreated if deleted, but only inside the
            // config dir; a configured absolute path that is missing surfaces
            // as an error.
            Goal::Prompt(_) => !paths::starts_with(&self.file(), &self.dir),
        };
        if there || outside {
            LoadStep::Read(self)
        } else {
            LoadStep::CreateDir(self)
        }
    }

    /// Go on once the config directory was created, or could not be.
    pub fn dir_created(self, done: Result<(), String>) -> (r: LoadStep)
        ensures
            r@ == self@.dir_created(done_view(done)),
    {
        match done {
            Ok(_) => LoadStep::Write(self),
            Err(cause) => LoadStep::Failed(LoadError::CreateDir { dir: self.dir, cause }),
        }
    }

    /// Go on once the default contents were written, or could not be.
    pub fn written(self, done: Result<(), String>) -> (r: LoadStep)
        ensures
            r@ == self@.written(done_view(done)),
    {
        let file = self.file();
        match done {
            Ok(_) => {
                let mut created = self.created;
                created.push(file);
                LoadStep::Read(
                    Loading {
                        dir: self.dir,
                        prompt_override: self.prompt_override,
                        created,
                        goal: self.goal,
                    },
                )
            },
            Err(cause) => LoadStep::Failed(LoadError::Write { file, cause }),
        }
    }

    /// Go on with what the file holds.
    pub fn read(self, content: Result<String, String>) -> (r: LoadStep)
        ensures
            r@ == self@.read(read_view(content)),
    {
        let file = self.file();
        let Loading { dir, prompt_override, created, goal } = self;
        match goal {
            Goal::Config => {
                let source = match content {
                    Ok(source) => source,
                    Err(cause) => {
                        return LoadStep::Failed(LoadError::ReadConfig { file, cause });
                    },
                };
                match config::parse(source.as_str()) {
                    Err(_) => LoadStep::Explain(
                        Loading { dir, prompt_override, created, goal: Goal::Config },
                        source,
                    ),
                    Ok(config) => {
                        let overridden = prompt_override.is_some();
                        let next = Loading {
                            dir,
                            prompt_override,
                            created,
                            goal: Goal::Prompt(config),
                        };
                        if overridden {
                            LoadStep::Read(next)
                        } else {
                            LoadStep::Check(next)
                        }
                    },
                }
            },
            Goal::Prompt(config) => match content {
                Ok(system_prompt) => LoadStep::Loaded(
                    Loaded {
                        config,
                        system_prompt,
                        config_file: paths::join(&dir, "config.toml"),
                        prompt_file: file,
                        created,
                    },
                ),
                Err(cause) => LoadStep::Failed(LoadError::ReadPrompt { file, cause }),
            },
        }
    }

    /// End the load with the words in which the TOML reader rejects the
    /// configuration.
    pub fn explained(self, cause: String) -> (r: LoadStep)
        ensures
            r@ == self@.explained(cause@),
    {
        LoadStep::Failed(LoadError::InvalidConfig { file: self.file(), cause })
    }
}

/// How a load from a config directory begins.
pub open spec fn load_from_spec(dir: PathBuf, prompt_override: Option<PathBuf>) -> LoadStepView {
    LoadStepView::Check(
        LoadingView { dir, prompt_override, created: Seq::empty(), goal: GoalView::Config },
    )
}

/// Load the configuration and the system prompt from a config directory.
pub fn load_from(dir: PathBuf, prompt_override: Option<PathBuf>) -> (r: LoadStep)
    ensures
        r@ == load_from_spec(dir, prompt_override),
{
    LoadStep::Check(Loading { dir, prompt_override, created: Vec::new(), goal: Goal::Config })
}

/// How a load begins in an environment.
pub open spec fn load_spec(
    xdg: Option<PathBuf>,
    home: Option<PathBuf>,
    prompt_override: Option<PathBuf>,
) -> LoadStepView {
    match config::dir_of(config::xdg_of(xdg), home) {
        Some(dir) => load_from_spec(dir, prompt_override),
        None => LoadStepView::Failed(LoadErrorView::NoHome),
    }
}

/// Load the configuration and the system prompt, bootstrapping defaults on
/// first run. `xdg` is the `XDG_CONFIG_HOME` of the environment and `home` the
/// home directory.
pub fn load(
    xdg: Option<PathBuf>,
    home: Option<PathBuf>,
    prompt_override: Option<PathBuf>,
) -> (r: LoadStep)
    ensures
        r@ == load_spec(xdg, home, prompt_override),
{
    match config::config_dir_from_env(xdg, home) {
        Ok(dir) => load_from(dir, prompt_override),
        Err(_) => LoadStep::Failed(LoadError::NoHome),
    }
}

impl LoadErrorView {
    /// The words in which an error reaches the user.
    pub open spec fn message(self) -> Seq<char> {
        match self {
            LoadErrorView::NoHome => "cannot determine the home directory"@,
            LoadErrorView::CreateDir { dir, cause } => "failed to create "@ + paths::shown(dir)
                + ": "@ + cause,
            LoadErrorView::Write { file, cause } => "failed to write "@ + paths::shown(file) + ": "@
                + cause,
            LoadErrorView::ReadConfig { file, cause } => "failed to read "@ + paths::shown(file)
                + ": "@ + cause,
            LoadErrorView::InvalidConfig { file, cause } => "invalid config "@ + paths::shown(file)
                + ": "@ + cause,
            LoadErrorView::ReadPrompt { file, cause } => "failed to read system prompt "@
                + paths::shown(file) + ": "@ + cause,
        }
    }
}

fn blame(what: &str, path: &PathBuf, cause: &String) -> (r: String)
    ensures
        r@ == what@ + paths::shown(*path) + ": "@ + cause@,
{
    let mut out = chars::of(what);
    chars::append_str(&mut out, paths::show(path).as_str());
    chars::append_str(&mut out, ": ");
    chars::append_str(&mut out, cause.as_str());
    chars::string(out.as_slice())
}

impl LoadError {
    /// The words in which the error reaches the user.
    pub fn message(&self) -> (r: String)
        ensures
            r@ == self@.message(),
    {
        match self {
            LoadError::NoHome => "cannot determine the home directory".to_owned(),
            LoadError::CreateDir { dir, cause } => blame("failed to create ", dir, cause),
            LoadError::Write { file, cause } => blame("failed to write ", file, cause),
            LoadError::ReadConfig { file, cause } => blame("failed to read ", file, cause),
            LoadError::InvalidConfig { file, cause } => blame("invalid config ", file, cause),
            LoadError::ReadPrompt { file, cause } => blame(
                "failed to read system prompt ",
                file,
                cause,
            ),
        }
    }
}

} // verus!
