//! Reading the configuration, and loading it from a disk.

use std::collections::HashMap;
use std::path::{Path, PathBuf};

use lede::auth::AuthConfig;
use lede::config::{
    config_dir, config_dir_from_env, configure, parse, Config, ConfigError, Value, DEFAULT_CONFIG,
    DEFAULT_PROMPT,
};
use lede::loading::{load, load_from, LoadError, LoadStep, Loaded};

/// A disk in memory.
struct Disk(HashMap<PathBuf, String>);

impl Disk {
    fn new() -> Self {
        Disk(HashMap::new())
    }

    fn write(&mut self, file_name: &str, contents: &str) {
        self.0.insert(dir().join(file_name), contents.to_owned());
    }

    fn has(&self, file: &Path) -> bool {
        self.0.contains_key(file)
    }
}

fn dir() -> PathBuf {
    PathBuf::from("/home/user/.config/lede")
}

/// Do what a load asks for until it ends.
fn finish(disk: &mut Disk, mut step: LoadStep) -> Result<Loaded, LoadError> {
    loop {
        step = match step {
            LoadStep::Check(loading) => {
                let there = disk.has(&loading.file());
                loading.checked(there)
            }
            LoadStep::CreateDir(loading) => {
                assert_eq!(loading.dir, dir());
                loading.dir_created(Ok(()))
            }
            LoadStep::Write(loading) => {
                let previous = disk.0.insert(loading.file(), loading.contents());
                assert!(previous.is_none(), "an existing file was written");
                loading.written(Ok(()))
            }
            LoadStep::Read(loading) => {
                let content = disk.0.get(&loading.file()).cloned();
                loading.read(content.ok_or_else(|| "no such file".to_owned()))
            }
            LoadStep::Explain(loading, source) => {
                let words = toml::from_str::<toml::Table>(&source)
                    .err()
                    .map_or("not a setting".to_owned(), |err| err.to_string());
                loading.explained(words)
            }
            LoadStep::Loaded(loaded) => return Ok(loaded),
            LoadStep::Failed(error) => return Err(error),
        };
    }
}

fn load_on(disk: &mut Disk, prompt_override: Option<&Path>) -> Result<Loaded, LoadError> {
    let step = load_from(dir(), prompt_override.map(Path::to_path_buf));
    finish(disk, step)
}

#[test]
fn the_first_run_writes_config_and_prompt() {
    let mut disk = Disk::new();

    let loaded = load_on(&mut disk, None).unwrap();

    assert_eq!(loaded.config, Config::default());
    assert_eq!(loaded.system_prompt, DEFAULT_PROMPT);
    assert_eq!(
        loaded.created,
        vec![dir().join("config.toml"), dir().join("prompt.txt")]
    );
    assert_eq!(disk.0[&dir().join("config.toml")], DEFAULT_CONFIG);
    assert_eq!(loaded.config_file, dir().join("config.toml"));
    assert_eq!(loaded.prompt_file, dir().join("prompt.txt"));
}

#[test]
fn the_default_prompt_makes_commit_bodies_exceptional() {
    assert!(DEFAULT_PROMPT.contains("Default to a subject only"));
    assert!(DEFAULT_PROMPT.contains("essential rationale or consequences"));
    assert!(DEFAULT_PROMPT.contains("Never use it\n  to list files"));
}

#[test]
fn a_second_run_creates_nothing() {
    let mut disk = Disk::new();
    load_on(&mut disk, None).unwrap();

    let loaded = load_on(&mut disk, None).unwrap();

    assert!(loaded.created.is_empty());
}

#[test]
fn an_edited_config_is_honored() {
    let mut disk = Disk::new();
    disk.write("config.toml", "model = \"llama3\"");

    let loaded = load_on(&mut disk, None).unwrap();

    assert_eq!(loaded.config.model, "llama3");
}

#[test]
fn an_invalid_config_names_the_file() {
    let mut disk = Disk::new();
    disk.write("config.toml", "modle = \"typo\"");

    let err = load_on(&mut disk, None).unwrap_err();

    assert!(err.message().contains("invalid config"), "{}", err.message());
    assert_eq!(
        err.message(),
        "invalid config /home/user/.config/lede/config.toml: not a setting"
    );
}

#[test]
fn a_deleted_prompt_is_recreated() {
    let mut disk = Disk::new();
    load_on(&mut disk, None).unwrap();
    disk.0.remove(&dir().join("prompt.txt"));

    let loaded = load_on(&mut disk, None).unwrap();

    assert_eq!(loaded.created, vec![dir().join("prompt.txt")]);
    assert_eq!(loaded.system_prompt, DEFAULT_PROMPT);
}

#[test]
fn an_absolute_prompt_path_is_read_as_given() {
    let mut disk = Disk::new();
    disk.write("custom.txt", "custom prompt\n");
    let custom = dir().join("custom.txt");
    disk.write(
        "config.toml",
        &format!("system_prompt_file = \"{}\"", custom.display()),
    );

    let loaded = load_on(&mut disk, None).unwrap();

    assert_eq!(loaded.system_prompt, "custom prompt\n");
}

#[test]
fn a_missing_absolute_prompt_path_is_not_created() {
    let mut disk = Disk::new();
    disk.write(
        "config.toml",
        "system_prompt_file = \"/nonexistent/prompt.txt\"",
    );

    let err = load_on(&mut disk, None).unwrap_err();

    assert!(
        err.message().contains("failed to read system prompt"),
        "{}",
        err.message()
    );
    assert!(!disk.has(Path::new("/nonexistent/prompt.txt")));
}

#[test]
fn a_missing_absolute_prompt_inside_the_directory_is_created() {
    let mut disk = Disk::new();
    let custom = dir().join("custom.txt");
    disk.write(
        "config.toml",
        &format!("system_prompt_file = \"{}\"", custom.display()),
    );

    let loaded = load_on(&mut disk, None).unwrap();

    assert_eq!(loaded.created, vec![custom]);
}

#[test]
fn the_override_wins_over_the_configured_prompt() {
    let mut disk = Disk::new();
    disk.write("override.txt", "override prompt\n");

    let loaded = load_on(&mut disk, Some(&dir().join("override.txt"))).unwrap();

    assert_eq!(loaded.system_prompt, "override prompt\n");
    // The configured prompt file is not bootstrapped when unused.
    assert_eq!(loaded.created, vec![dir().join("config.toml")]);
}

#[test]
fn a_missing_override_is_an_error_not_a_bootstrap() {
    let mut disk = Disk::new();
    let missing = dir().join("missing.txt");

    let err = load_on(&mut disk, Some(&missing)).unwrap_err();

    assert!(
        err.message().contains("failed to read system prompt"),
        "{}",
        err.message()
    );
    assert_eq!(
        err.message(),
        "failed to read system prompt /home/user/.config/lede/missing.txt: no such file"
    );
    assert!(!disk.has(&missing));
}

#[test]
fn a_directory_that_cannot_be_created_is_an_error() {
    let LoadStep::Check(loading) = load_from(dir(), None) else {
        panic!("a load begins with a check");
    };
    let LoadStep::CreateDir(loading) = loading.checked(false) else {
        panic!("a missing configuration is written");
    };
    let LoadStep::Failed(error) = loading.dir_created(Err("denied".to_owned())) else {
        panic!("the load cannot go on");
    };
    assert_eq!(
        error.message(),
        "failed to create /home/user/.config/lede: denied"
    );
}

#[test]
fn a_file_that_cannot_be_written_is_an_error() {
    let LoadStep::Check(loading) = load_from(dir(), None) else {
        panic!("a load begins with a check");
    };
    let LoadStep::Failed(error) = loading.written(Err("denied".to_owned())) else {
        panic!("the load cannot go on");
    };
    assert_eq!(
        error.message(),
        "failed to write /home/user/.config/lede/config.toml: denied"
    );
}

#[test]
fn a_config_that_cannot_be_read_is_an_error() {
    let LoadStep::Check(loading) = load_from(dir(), None) else {
        panic!("a load begins with a check");
    };
    let LoadStep::Failed(error) = loading.read(Err("denied".to_owned())) else {
        panic!("the load cannot go on");
    };
    assert_eq!(
        error.message(),
        "failed to read /home/user/.config/lede/config.toml: denied"
    );
}

#[test]
fn an_empty_config_yields_the_defaults() {
    assert_eq!(parse("").unwrap(), Config::default());
}

// Guards the template against drift: the file written on first run must
// mean exactly what the built-in defaults mean.
#[test]
fn the_default_template_matches_the_defaults() {
    assert_eq!(parse(DEFAULT_CONFIG).unwrap(), Config::default());
}

#[test]
fn a_partial_config_keeps_the_other_defaults() {
    let config = parse("model = \"llama3\"").unwrap();
    assert_eq!(config.model, "llama3");
    assert_eq!(config.base_url, Config::default().base_url);
    assert_eq!(config.auth, AuthConfig::default());
}

#[test]
fn a_full_config_parses() {
    let config = parse(
        r#"
        base_url = "http://localhost:11434/v1"
        model = "qwen2.5-coder"
        system_prompt_file = "/etc/lede/prompt.txt"

        [auth]
        mode = "bearer"
        env = "OLLAMA_KEY"
        command = "pass show ollama"
        "#,
    )
    .unwrap();
    assert_eq!(config.base_url, "http://localhost:11434/v1");
    assert_eq!(config.model, "qwen2.5-coder");
    assert_eq!(config.system_prompt_file, "/etc/lede/prompt.txt");
    assert_eq!(
        config.auth,
        AuthConfig::Bearer {
            env: "OLLAMA_KEY".to_owned(),
            command: Some("pass show ollama".to_owned()),
        }
    );
}

#[test]
fn no_authentication_parses() {
    let config = parse("[auth]\nmode = \"none\"").unwrap();
    assert_eq!(config.auth, AuthConfig::NoAuth);
}

#[test]
fn no_authentication_rejects_bearer_fields() {
    assert!(parse("[auth]\nmode = \"none\"\nenv = \"IGNORED\"").is_err());
}

#[test]
fn bearer_authentication_defaults_its_environment() {
    let config = parse("[auth]\nmode = \"bearer\"").unwrap();
    assert_eq!(config.auth, AuthConfig::default());
}

// Flat api_key_env / api_key_cmd keys must fail loudly so their owner moves
// to the [auth] table, not run on with the keys silently ignored.
#[test]
fn legacy_authentication_keys_are_rejected() {
    assert!(parse("api_key_env = \"OPENAI_API_KEY\"").is_err());
    assert!(parse("api_key_cmd = \"pass show openai\"").is_err());
}

#[test]
fn a_misspelled_key_is_rejected() {
    assert!(parse("modle = \"typo\"").is_err());
}

#[test]
fn xdg_config_home_overrides_home() {
    let dir = config_dir(
        Some(PathBuf::from("/custom/config")),
        Some(PathBuf::from("/home/user")),
    )
    .unwrap();
    assert_eq!(dir, PathBuf::from("/custom/config/lede"));
}

#[test]
fn home_alone_yields_dot_config() {
    let dir = config_dir(None, Some(PathBuf::from("/home/user"))).unwrap();
    assert_eq!(dir, PathBuf::from("/home/user/.config/lede"));
}

#[test]
fn no_home_at_all_is_an_error() {
    assert!(config_dir(None, None).is_err());
}

#[test]
fn an_environment_without_a_home_is_an_error() {
    let LoadStep::Failed(error) = load(None, None, None) else {
        panic!("there is nowhere to load from");
    };
    assert_eq!(error.message(), "cannot determine the home directory");
}

#[test]
fn a_relative_xdg_config_home_is_ignored() {
    let dir = config_dir_from_env(
        Some(PathBuf::from("relative")),
        Some(PathBuf::from("/home/user")),
    )
    .unwrap();
    assert_eq!(dir, PathBuf::from("/home/user/.config/lede"));
    let dir = config_dir_from_env(
        Some(PathBuf::from("/custom/config")),
        Some(PathBuf::from("/home/user")),
    )
    .unwrap();
    assert_eq!(dir, PathBuf::from("/custom/config/lede"));
    assert!(config_dir_from_env(Some(PathBuf::from("relative")), None).is_err());
}

#[test]
fn a_text_that_is_no_toml_is_a_syntax_error() {
    assert!(matches!(parse("model = "), Err(ConfigError::Syntax)));
    assert!(matches!(
        parse("model = \"a\"\nmodel = \"b\""),
        Err(ConfigError::Syntax)
    ));
}

#[test]
fn a_value_of_the_wrong_kind_is_rejected() {
    for text in [
        "model = 1",
        "model = 1.5",
        "model = true",
        "model = 1979-05-27",
        "model = [\"a\"]",
        "base_url = { a = \"b\" }",
        "system_prompt_file = false",
        "auth = \"bearer\"",
        "auth = 1",
    ] {
        assert!(matches!(parse(text), Err(ConfigError::Schema)), "{text}");
    }
}

#[test]
fn an_auth_table_must_have_a_known_mode() {
    for text in [
        "[auth]",
        "[auth]\nenv = \"KEY\"",
        "[auth]\nmode = \"basic\"",
        "[auth]\nmode = \"None\"",
        "[auth]\nmode = 0",
        "[auth]\nmode = \"bearer\"\nenv = 1",
        "[auth]\nmode = \"bearer\"\ncommand = [\"pass\"]",
        "[auth]\nmode = \"bearer\"\ntoken = \"x\"",
    ] {
        assert!(matches!(parse(text), Err(ConfigError::Schema)), "{text}");
    }
}

#[test]
fn an_auth_array_lists_the_mode_and_what_belongs_to_it() {
    assert_eq!(parse("auth = [\"none\"]").unwrap().auth, AuthConfig::NoAuth);
    assert_eq!(
        parse("auth = [\"bearer\"]").unwrap().auth,
        AuthConfig::default()
    );
    assert_eq!(
        parse("auth = [\"bearer\", \"KEY\", \"pass\"]").unwrap().auth,
        AuthConfig::Bearer {
            env: "KEY".to_owned(),
            command: Some("pass".to_owned()),
        }
    );
    for text in [
        "auth = []",
        "auth = [\"none\", \"x\"]",
        "auth = [\"bearer\", 1]",
        "auth = [\"bearer\", \"a\", \"b\", \"c\"]",
        "auth = [\"basic\"]",
        "auth = [1]",
    ] {
        assert!(matches!(parse(text), Err(ConfigError::Schema)), "{text}");
    }
}

#[test]
fn a_document_in_hand_is_read_the_same_way() {
    assert_eq!(configure(&vec![]), Some(Config::default()));
    let config = configure(&vec![
        ("model".to_owned(), Value::Text("llama3".to_owned())),
        (
            "auth".to_owned(),
            Value::Table(vec![("mode".to_owned(), Some("none".to_owned()))]),
        ),
    ])
    .unwrap();
    assert_eq!(config.model, "llama3");
    assert_eq!(config.auth, AuthConfig::NoAuth);
    assert_eq!(configure(&vec![("model".to_owned(), Value::Other)]), None);
    assert_eq!(
        configure(&vec![("modle".to_owned(), Value::Text("typo".to_owned()))]),
        None
    );
    assert_eq!(
        configure(&vec![("auth".to_owned(), Value::Array(vec![None]))]),
        None
    );
}

#[test]
fn the_initial_values_are_documented() {
    let config = Config::default();
    assert_eq!(config.base_url, "https://api.openai.com/v1");
    assert_eq!(config.model, "gpt-5.4-nano");
    assert_eq!(config.system_prompt_file, "prompt.txt");
    assert_eq!(
        config.auth,
        AuthConfig::Bearer {
            env: "OPENAI_API_KEY".to_owned(),
            command: None,
        }
    );
}
