//! Configuration: a TOML file and a system prompt file, both in
//! the config directory. First run writes both with defaults, so `lede` in
//! a fresh environment works as soon as the API key is set, and the system
//! prompt is always a file the user can open and edit rather than a string
//! buried in a binary.

use std::path::PathBuf;
use vstd::prelude::*;

use crate::auth::{default_env, AuthConfig, AuthConfigView};
use crate::chars;
use crate::paths;

verus! {

pub const DEFAULT_CONFIG: &'static str = r#"# lede configuration

# OpenAI-compatible API base URL (without the trailing /chat/completions).
# Examples:
#   https://api.openai.com/v1
#   https://openrouter.ai/api/v1
#   https://api.groq.com/openai/v1
#   http://localhost:11434/v1   (Ollama)
base_url = "https://api.openai.com/v1"

# Model to request.
model = "gpt-5.4-nano"

# System prompt file, relative to this directory (absolute paths also work).
system_prompt_file = "prompt.txt"

[auth]
mode = "bearer"
# Name of the environment variable that holds the API key.
env = "OPENAI_API_KEY"
# Command run when the environment variable is not set.
# command = "pass show openai"

# For an endpoint that needs no authentication, replace the table above with:
# [auth]
# mode = "none"
"#;

pub const DEFAULT_PROMPT: &'static str = "\
You write git commit messages. You will receive the list of staged files
and the staged diff. Reply with the commit message and nothing else: no
markdown, no code fences, no quotes, no commentary.

Rules:
- Subject line: at most 50 characters, imperative mood (\"Add\", \"Fix\",
  \"Remove\"), capitalized, no trailing period.
- Describe the change itself, not the process (\"Fix null check\", never
  \"Fixed\" or \"This commit fixes\").
- Default to a subject only, even when several related files changed.
- Add a body only for a large change spanning distinct concerns, or when
  essential rationale or consequences cannot fit in the subject.
- A body must add information needed to understand the change. Never use it
  to list files, repeat the subject, or narrate the diff. Put it after one
  blank line, explain why rather than how, and wrap lines at 72 characters.
- Do not invent conventional-commit prefixes like \"feat:\" or \"fix:\";
  use one only if the project's changes clearly follow that style.
- Summarize the dominant change; do not enumerate every file.
";

/// config.toml as written. Field names are the TOML keys, and a misspelled
/// key is an error rather than a setting that is silently ignored.
#[derive(Debug, PartialEq)]
pub struct Config {
    pub base_url: String,
    pub model: String,
    pub system_prompt_file: String,
    pub auth: AuthConfig,
}

/// What a [`Config`] holds.
pub struct ConfigView {
    pub base_url: Seq<char>,
    pub model: Seq<char>,
    pub system_prompt_file: Seq<char>,
    pub auth: AuthConfigView,
}

impl View for Config {
    type V = ConfigView;

    open spec fn view(&self) -> ConfigView {
        ConfigView {
            base_url: self.base_url@,
            model: self.model@,
            system_prompt_file: self.system_prompt_file@,
            auth: self.auth@,
        }
    }
}

impl ConfigView {
    /// The configuration of a file that sets nothing.
    pub open spec fn initial() -> ConfigView {
        ConfigView {
            base_url: "https://api.openai.com/v1"@,
            model: "gpt-5.4-nano"@,
            system_prompt_file: "prompt.txt"@,
            auth: AuthConfigView::initial(),
        }
    }
}

impl Default for Config {
    fn default() -> (r: Self)
        ensures
            r@ == ConfigView::initial(),
    {
        Config {
            base_url: "https://api.openai.com/v1".to_owned(),
            model: "gpt-5.4-nano".to_owned(),
            system_prompt_file: "prompt.txt".to_owned(),
            auth: AuthConfig::default(),
        }
    }
}

/// A value of a TOML document, as far as the configuration tells values
/// apart. `None` inside a table or an array stands for a value that is no
/// text.
#[derive(Debug)]
pub enum Value {
    Text(String),
    Table(Vec<(String, Option<String>)>),
    Array(Vec<Option<String>>),
    Other,
}

/// What a [`Value`] holds.
pub enum ValueView {
    Text(Seq<char>),
    Table(Seq<(Seq<char>, Option<Seq<char>>)>),
    Array(Seq<Option<Seq<char>>>),
    Other,
}

impl View for Value {
    type V = ValueView;

    open spec fn view(&self) -> ValueView {
        match self {
            Value::Text(text) => ValueView::Text(text@),
            Value::Table(entries) => ValueView::Table(table_view(entries@)),
            Value::Array(items) => ValueView::Array(array_view(items@)),
            Value::Other => ValueView::Other,
        }
    }
}

pub open spec fn table_view(entries: Seq<(String, Option<String>)>) -> Seq<
    (Seq<char>, Option<Seq<char>>),
> {
    entries.map_values(
        |entry: (String, Option<String>)| (entry.0@, chars::optional(entry.1)),
    )
}

pub open spec fn array_view(items: Seq<Option<String>>) -> Seq<Option<Seq<char>>> {
    items.map_values(|item: Option<String>| chars::optional(item))
}

pub open spec fn document_view(entries: Seq<(String, Value)>) -> Seq<(Seq<char>, ValueView)> {
    entries.map_values(|entry: (String, Value)| (entry.0@, entry.1@))
}

#[verifier::external_type_specification]
#[verifier::external_body]
pub struct ExTomlError(toml::de::Error);

/// The keys and values at the top of the TOML document that `toml::from_str`
/// reads from a text, or `None` when it finds no TOML document there.
pub uninterp spec fn toml_document(source: Seq<char>) -> Option<Seq<(Seq<char>, ValueView)>>;

/// `toml::from_str` reads the same document from the same text, and fails on
/// the same texts. Of a table or an array inside the document, what
/// `toml::Value::as_str` says of each value is kept.
#[verifier::external_body]
fn read_toml(source: &str) -> (r: Result<Vec<(String, Value)>, toml::de::Error>)
    ensures
        match r {
            Ok(entries) => toml_document(source@) == Some(document_view(entries@)),
            Err(_) => toml_document(source@) is None,
        },
{
    let table: toml::Table = toml::from_str(source)?;
    let text = |value: toml::Value| value.as_str().map(str::to_owned);
    Ok(table.into_iter().map(|(key, value)| (key, match value {
        toml::Value::String(content) => Value::Text(content),
        toml::Value::Table(inner) =>
            Value::Table(inner.into_iter().map(|(name, item)| (name, text(item))).collect()),
        toml::Value::Array(inner) => Value::Array(inner.into_iter().map(text).collect()),
        toml::Value::Integer(_) | toml::Value::Float(_) | toml::Value::Boolean(_)
        | toml::Value::Datetime(_) => Value::Other,
    })).collect())
}

/// What stands under `key`, where it stands first.
pub open spec fn lookup<V>(entries: Seq<(Seq<char>, V)>, key: Seq<char>) -> Option<V>
    decreases entries.len(),
{
    if entries.len() == 0 {
        None
    } else if entries[0].0 == key {
        Some(entries[0].1)
    } else {
        lookup(entries.drop_first(), key)
    }
}

/// Every key is one that `accepts` holds of.
pub open spec fn only_keys<V>(
    entries: Seq<(Seq<char>, V)>,
    accepts: spec_fn(Seq<char>) -> bool,
) -> bool {
    forall|i: int| 0 <= i < entries.len() ==> accepts((#[trigger] entries[i]).0)
}

pub open spec fn is_setting(key: Seq<char>) -> bool {
    key == "base_url"@ || key == "model"@ || key == "system_prompt_file"@ || key == "auth"@
}

pub open spec fn is_bearer_key(key: Seq<char>) -> bool {
    key == "mode"@ || key == "env"@ || key == "command"@
}

/// The text under `key`, or what it is when the file does not set it. A value
/// that is no text is an error.
pub open spec fn text_setting(
    entries: Seq<(Seq<char>, ValueView)>,
    key: Seq<char>,
    initial: Seq<char>,
) -> Option<Seq<char>> {
    match lookup(entries, key) {
        None => Some(initial),
        Some(ValueView::Text(content)) => Some(content),
        Some(_) => None,
    }
}

/// The policy of an `[auth]` table.
pub open spec fn auth_table(entries: Seq<(Seq<char>, Option<Seq<char>>)>) -> Option<
    AuthConfigView,
> {
    let mode = lookup(entries, "mode"@);
    let env = lookup(entries, "env"@);
    let command = lookup(entries, "command"@);
    if mode == Some(Some("none"@)) {
        if only_keys(entries, |key: Seq<char>| key == "mode"@) {
            Some(AuthConfigView::NoAuth)
        } else {
            None
        }
    } else if mode == Some(Some("bearer"@)) {
        if only_keys(entries, |key: Seq<char>| is_bearer_key(key)) && env
            != Some(None::<Seq<char>>) && command != Some(None::<Seq<char>>) {
            Some(
                AuthConfigView::Bearer {
                    env: match env {
                        Some(Some(name)) => name,
                        _ => "OPENAI_API_KEY"@,
                    },
                    command: match command {
                        Some(Some(line)) => Some(line),
                        _ => None,
                    },
                },
            )
        } else {
            None
        }
    } else {
        None
    }
}

/// The policy of an `auth` array: the mode, then what belongs to it in order.
pub open spec fn auth_array(items: Seq<Option<Seq<char>>>) -> Option<AuthConfigView> {
    if items == seq![Some("none"@)] {
        Some(AuthConfigView::NoAuth)
    } else if 1 <= items.len() <= 3 && items[0] == Some("bearer"@) && (items.len() > 1 ==> items[1]
        is Some) && (items.len() > 2 ==> items[2] is Some) {
        Some(
            AuthConfigView::Bearer {
                env: if items.len() > 1 {
                    items[1]->0
                } else {
                    "OPENAI_API_KEY"@
                },
                command: if items.len() > 2 {
                    items[2]
                } else {
                    None
                },
            },
        )
    } else {
        None
    }
}

/// The policy under `auth`, or the initial one when the file does not set it.
pub open spec fn auth_setting(entries: Seq<(Seq<char>, ValueView)>) -> Option<AuthConfigView> {
    match lookup(entries, "auth"@) {
        None => Some(AuthConfigView::initial()),
        Some(ValueView::Table(inner)) => auth_table(inner),
        Some(ValueView::Array(items)) => auth_array(items),
        Some(_) => None,
    }
}

/// The configuration that the top of a TOML document spells out, or `None`
/// when a key is unknown or a value is not of its key's kind.
pub open spec fn configured(entries: Seq<(Seq<char>, ValueView)>) -> Option<ConfigView> {
    let initial = ConfigView::initial();
    let base_url = text_setting(entries, "base_url"@, initial.base_url);
    let model = text_setting(entries, "model"@, initial.model);
    let file = text_setting(entries, "system_prompt_file"@, initial.system_prompt_file);
    let auth = auth_setting(entries);
    if only_keys(entries, |key: Seq<char>| is_setting(key)) && base_url is Some && model is Some
        && file is Some && auth is Some {
        Some(
            ConfigView {
                base_url: base_url->0,
                model: model->0,
                system_prompt_file: file->0,
                auth: auth->0,
            },
        )
    } else {
        None
    }
}

fn equals(key: &String, name: &str) -> (r: bool)
    ensures
        r == (key@ == name@),
{
    *key == name.to_owned()
}

fn find_setting<'a>(entries: &'a Vec<(String, Value)>, key: &str) -> (r: Option<&'a Value>)
    ensures
        match r {
            Some(value) => lookup(document_view(entries@), key@) == Some(value@),
            None => lookup(document_view(entries@), key@) is None,
        },
{
    let ghost all = document_view(entries@);
    assert(all.skip(0) == all);
    for i in 0..entries.len()
        invariant
            all == document_view(entries@),
            lookup(all, key@) == lookup(all.skip(i as int), key@),
    {
        if equals(&entries[i].0, key) {
            return Some(&entries[i].1);
        }
        assert(all.skip(i as int).drop_first() == all.skip(i + 1));
    }
    None
}

fn find_item<'a>(entries: &'a Vec<(String, Option<String>)>, key: &str) -> (r: Option<
    &'a Option<String>,
>)
    ensures
        match r {
            Some(item) => lookup(table_view(entries@), key@) == Some(chars::optional(*item)),
            None => lookup(table_view(entries@), key@) is None,
        },
{
    let ghost all = table_view(entries@);
    assert(all.skip(0) == all);
    for i in 0..entries.len()
        invariant
            all == table_view(entries@),
            lookup(all, key@) == lookup(all.skip(i as int), key@),
    {
        if equals(&entries[i].0, key) {
            return Some(&entries[i].1);
        }
        assert(all.skip(i as int).drop_first() == all.skip(i + 1));
    }
    None
}

fn read_text(entries: &Vec<(String, Value)>, key: &str, initial: String) -> (r: Option<String>)
    ensures
        chars::optional(r) == text_setting(document_view(entries@), key@, initial@),
{
    match find_setting(entries, key) {
        None => Some(initial),
        Some(Value::Text(content)) => Some(content.clone()),
        Some(_) => None,
    }
}

fn has_only_settings(entries: &Vec<(String, Value)>) -> (r: bool)
    ensures
        r == only_keys(document_view(entries@), |key: Seq<char>| is_setting(key)),
{
    let ghost all = document_view(entries@);
    for i in 0..entries.len()
        invariant
            all == document_view(entries@),
            forall|j: int| 0 <= j < i ==> is_setting((#[trigger] all[j]).0),
    {
        let key = &entries[i].0;
        if !equals(key, "base_url") && !equals(key, "model") && !equals(key, "system_prompt_file") && !equals(
            key,
            "auth",
        ) {
            assert(!is_setting(all[i as int].0));
            return false;
        }
        assert(is_setting(all[i as int].0));
    }
    true
}

fn has_only_bearer_keys(entries: &Vec<(String, Option<String>)>) -> (r: bool)
    ensures
        r == only_keys(table_view(entries@), |key: Seq<char>| is_bearer_key(key)),
{
    let ghost all = table_view(entries@);
    for i in 0..entries.len()
        invariant
            all == table_view(entries@),
            forall|j: int| 0 <= j < i ==> is_bearer_key((#[trigger] all[j]).0),
    {
        let key = &entries[i].0;
        if !equals(key, "mode") && !equals(key, "env") && !equals(key, "command") {
            assert(!is_bearer_key(all[i as int].0));
            return false;
        }
        assert(is_bearer_key(all[i as int].0));
    }
    true
}

fn has_only_mode(entries: &Vec<(String, Option<String>)>) -> (r: bool)
    ensures
        r == only_keys(table_view(entries@), |key: Seq<char>| key == "mode"@),
{
    let ghost all = table_view(entries@);
    for i in 0..entries.len()
        invariant
            all == table_view(entries@),
            forall|j: int| 0 <= j < i ==> (#[trigger] all[j]).0 == "mode"@,
    {
        if !equals(&entries[i].0, "mode") {
            assert(all[i as int].0 != "mode"@);
            return false;
        }
        assert(all[i as int].0 == "mode"@);
    }
    true
}

fn read_auth_table(entries: &Vec<(String, Option<String>)>) -> (r: Option<AuthConfig>)
    ensures
        match r {
            Some(policy) => auth_table(table_view(entries@)) == Some(policy@),
            None => auth_table(table_view(entries@)) is None,
        },
{
    let mode = match find_item(entries, "mode") {
        Some(Some(mode)) => mode,
        _ => {
            return None;
        },
    };
    if equals(mode, "none") {
        if has_only_mode(entries) {
            Some(AuthConfig::NoAuth)
        } else {
            None
        }
    } else if equals(mode, "bearer") {
        if !has_only_bearer_keys(entries) {
            return None;
        }
        let env = match find_item(entries, "env") {
            None => default_env(),
            Some(Some(name)) => name.clone(),
            Some(None) => {
                return None;
            },
        };
        let command = match find_item(entries, "command") {
            None => None,
            Some(Some(line)) => Some(line.clone()),
            Some(None) => {
                return None;
            },
        };
        Some(AuthConfig::Bearer { env, command })
    } else {
        None
    }
}

fn read_auth_array(items: &Vec<Option<String>>) -> (r: Option<AuthConfig>)
    ensures
        match r {
            Some(policy) => auth_array(array_view(items@)) == Some(policy@),
            None => auth_array(array_view(items@)) is None,
        },
{
    let ghost all = array_view(items@);
    if items.len() == 0 || items.len() > 3 {
        return None;
    }
    assert(all[0] == chars::optional(items@[0]));
    let mode = match &items[0] {
        Some(mode) => mode,
        None => {
            return None;
        },
    };
    proof {
        reveal_strlit("none");
        reveal_strlit("bearer");
        assert("none"@.len() != "bearer"@.len());
    }
    if equals(mode, "none") {
        if items.len() == 1 {
            assert(all == seq![Some("none"@)]);
            return Some(AuthConfig::NoAuth);
        }
        return None;
    }
    if !equals(mode, "bearer") {
        return None;
    }
    let env = if items.len() > 1 {
        assert(all[1] == chars::optional(items@[1]));
        match &items[1] {
            Some(name) => name.clone(),
            None => {
                return None;
            },
        }
    } else {
        default_env()
    };
    let command = if items.len() > 2 {
        assert(all[2] == chars::optional(items@[2]));
        match &items[2] {
            Some(line) => Some(line.clone()),
            None => {
                return None;
            },
        }
    } else {
        None
    };
    Some(AuthConfig::Bearer { env, command })
}

fn read_auth(entries: &Vec<(String, Value)>) -> (r: Option<AuthConfig>)
    ensures
        match r {
            Some(policy) => auth_setting(document_view(entries@)) == Some(policy@),
            None => auth_setting(document_view(entries@)) is None,
        },
{
    match find_setting(entries, "auth") {
        None => Some(AuthConfig::default()),
        Some(Value::Table(inner)) => read_auth_table(inner),
        Some(Value::Array(items)) => read_auth_array(items),
        Some(_) => None,
    }
}

/// Read the configuration from the top of a TOML document. A key that is left
/// out keeps its initial value; an unknown key, or a value of the wrong kind,
/// makes the whole document no configuration.
pub fn configure(entries: &Vec<(String, Value)>) -> (r: Option<Config>)
    ensures
        match r {
            Some(config) => configured(document_view(entries@)) == Some(config@),
            None => configured(document_view(entries@)) is None,
        },
{
    let initial = Config::default();
    if !has_only_settings(entries) {
        return None;
    }
    match (
        read_text(entries, "base_url", initial.base_url),
        read_text(entries, "model", initial.model),
        read_text(entries, "system_prompt_file", initial.system_prompt_file),
        read_auth(entries),
    ) {
        (Some(base_url), Some(model), Some(system_prompt_file), Some(auth)) => Some(
            Config { base_url, model, system_prompt_file, auth },
        ),
        _ => None,
    }
}

/// Why a text is no configuration.
#[derive(Debug)]
pub enum ConfigError {
    /// It is no TOML document.
    Syntax,
    /// It is a TOML document, but a key is unknown, or a value is not of its
    /// key's kind.
    Schema,
}

/// The configuration that a text spells out.
pub open spec fn parsed(source: Seq<char>) -> Result<ConfigView, ConfigError> {
    match toml_document(source) {
        None => Err(ConfigError::Syntax),
        Some(entries) => match configured(entries) {
            None => Err(ConfigError::Schema),
            Some(config) => Ok(config),
        },
    }
}

/// Read the configuration that a text spells out.
pub fn parse(source: &str) -> (r: Result<Config, ConfigError>)
    ensures
        match r {
            Ok(config) => parsed(source@) == Ok::<ConfigView, ConfigError>(config@),
            Err(error) => parsed(source@) == Err::<ConfigView, ConfigError>(error),
        },
{
    match read_toml(source) {
        Err(_) => Err(ConfigError::Syntax),
        Ok(entries) => match configure(&entries) {
            None => Err(ConfigError::Schema),
            Some(config) => Ok(config),
        },
    }
}

/// The directory that holds the configuration: `lede` below an XDG config
/// home, `.config/lede` below a home directory otherwise.
pub open spec fn dir_of(xdg: Option<PathBuf>, home: Option<PathBuf>) -> Option<PathBuf> {
    match (xdg, home) {
        (Some(xdg), _) => Some(paths::joined(xdg, "lede"@)),
        (None, Some(home)) => Some(paths::joined(home, ".config/lede"@)),
        (None, None) => None,
    }
}

/// An XDG config home that counts: a relative one must be ignored.
pub open spec fn xdg_of(xdg: Option<PathBuf>) -> Option<PathBuf> {
    match xdg {
        Some(path) => if paths::absolute(path) {
            Some(path)
        } else {
            None
        },
        None => None,
    }
}

/// There is neither a usable XDG config home nor a home directory.
#[derive(Debug)]
pub struct NoHome;

/// The config directory below `xdg`, a usable XDG config home, or else below
/// `home`.
pub fn config_dir(xdg: Option<PathBuf>, home: Option<PathBuf>) -> (r: Result<PathBuf, NoHome>)
    ensures
        match r {
            Ok(dir) => dir_of(xdg, home) == Some(dir),
            Err(_) => dir_of(xdg, home) is None,
        },
{
    match xdg {
        Some(xdg) => Ok(paths::join(&xdg, "lede")),
        None => match home {
            Some(home) => Ok(paths::join(&home, ".config/lede")),
            None => Err(NoHome),
        },
    }
}

/// The config directory of an environment whose `XDG_CONFIG_HOME` is `xdg`.
/// A relative `XDG_CONFIG_HOME` is ignored.
pub fn config_dir_from_env(xdg: Option<PathBuf>, home: Option<PathBuf>) -> (r: Result<
    PathBuf,
    NoHome,
>)
    ensures
        match r {
            Ok(dir) => dir_of(xdg_of(xdg), home) == Some(dir),
            Err(_) => dir_of(xdg_of(xdg), home) is None,
        },
{
    let xdg = match xdg {
        Some(path) => if paths::is_absolute(&path) {
            Some(path)
        } else {
            None
        },
        None => None,
    };
    config_dir(xdg, home)
}

} // verus!
