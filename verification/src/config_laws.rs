//! What holds of every configuration and of every load.

use std::path::PathBuf;
use vstd::prelude::*;

use crate::auth::AuthConfigView;
use crate::config;
use crate::config::{ConfigError, ConfigView, ValueView, DEFAULT_CONFIG, DEFAULT_PROMPT};
use crate::loading;
use crate::loading::{GoalView, LoadErrorView, LoadStepView, LoadedView, LoadingView};
use crate::paths;

verus! {

/// A document that sets nothing is the initial configuration.
pub proof fn law_an_empty_document_is_the_initial_configuration()
    ensures
        config::configured(Seq::empty()) == Some(ConfigView::initial()),
{
}

/// A document with an unknown key is no configuration, whatever else it sets.
pub proof fn law_an_unknown_key_is_rejected(entries: Seq<(Seq<char>, ValueView)>, at: int)
    requires
        0 <= at < entries.len(),
        !config::is_setting(entries[at].0),
    ensures
        config::configured(entries) is None,
{
}

proof fn lemma_lookup_absent<V>(entries: Seq<(Seq<char>, V)>, key: Seq<char>)
    requires
        forall|i: int| 0 <= i < entries.len() ==> (#[trigger] entries[i]).0 != key,
    ensures
        config::lookup(entries, key) is None,
    decreases entries.len(),
{
    if entries.len() > 0 {
        let rest = entries.drop_first();
        assert forall|i: int| 0 <= i < rest.len() implies (#[trigger] rest[i]).0 != key by {
            assert(rest[i] == entries[i + 1]);
        }
        lemma_lookup_absent(rest, key);
    }
}

/// A setting that is left out keeps its initial value, whatever the others
/// are.
pub proof fn law_a_setting_left_out_keeps_its_initial_value(
    entries: Seq<(Seq<char>, ValueView)>,
    key: Seq<char>,
    config: ConfigView,
)
    requires
        config::configured(entries) == Some(config),
        forall|i: int| 0 <= i < entries.len() ==> (#[trigger] entries[i]).0 != key,
    ensures
        key == "base_url"@ ==> config.base_url == ConfigView::initial().base_url,
        key == "model"@ ==> config.model == ConfigView::initial().model,
        key == "system_prompt_file"@ ==> config.system_prompt_file
            == ConfigView::initial().system_prompt_file,
        key == "auth"@ ==> config.auth == ConfigView::initial().auth,
{
    lemma_lookup_absent(entries, key);
}

/// Under `mode = "none"` no key but the mode is accepted.
pub proof fn law_no_authentication_rejects_other_keys(
    entries: Seq<(Seq<char>, Option<Seq<char>>)>,
    at: int,
)
    requires
        config::lookup(entries, "mode"@) == Some(Some("none"@)),
        0 <= at < entries.len(),
        entries[at].0 != "mode"@,
    ensures
        config::auth_table(entries) is None,
{
}

/// An absolute `XDG_CONFIG_HOME` wins over the home directory, and a relative
/// one counts as none.
pub proof fn law_only_an_absolute_xdg_config_home_counts(xdg: PathBuf, home: Option<PathBuf>)
    ensures
        paths::absolute(xdg) ==> config::dir_of(config::xdg_of(Some(xdg)), home) == Some(
            paths::joined(xdg, "lede"@),
        ),
        !paths::absolute(xdg) ==> config::dir_of(config::xdg_of(Some(xdg)), home)
            == config::dir_of(None, home),
{
}

/// A disk on which every write succeeds: the files with their contents, what
/// reading a missing file says, and what the TOML reader says of a text.
pub struct Disk {
    pub files: Map<PathBuf, Seq<char>>,
    pub missing: Seq<char>,
    pub complaint: Seq<char>,
}

impl Disk {
    pub open spec fn has(self, file: PathBuf) -> bool {
        self.files.dom().contains(file)
    }

    pub open spec fn content(self, file: PathBuf) -> Result<Seq<char>, Seq<char>> {
        if self.has(file) {
            Ok(self.files[file])
        } else {
            Err(self.missing)
        }
    }

    pub open spec fn with(self, file: PathBuf, content: Seq<char>) -> Disk {
        Disk { files: self.files.insert(file, content), ..self }
    }

    pub open spec fn without(self, file: PathBuf) -> Disk {
        Disk { files: self.files.remove(file), ..self }
    }

    /// The disk once `file` is there.
    pub open spec fn having(self, file: PathBuf, content: Seq<char>) -> Disk {
        if self.has(file) {
            self
        } else {
            self.with(file, content)
        }
    }
}

/// One step of a load on a disk.
pub open spec fn walk(step: LoadStepView, disk: Disk) -> (LoadStepView, Disk) {
    match step {
        LoadStepView::Check(loading) => (loading.checked(disk.has(loading.file())), disk),
        LoadStepView::CreateDir(loading) => (loading.dir_created(Ok(())), disk),
        LoadStepView::Write(loading) => (
            loading.written(Ok(())),
            disk.with(loading.file(), loading.contents()),
        ),
        LoadStepView::Read(loading) => (loading.read(disk.content(loading.file())), disk),
        LoadStepView::Explain(loading, _) => (loading.explained(disk.complaint), disk),
        ended => (ended, disk),
    }
}

/// Where a load on a disk is after some steps.
pub open spec fn walked(step: LoadStepView, disk: Disk, steps: nat) -> (LoadStepView, Disk)
    decreases steps,
{
    if steps == 0 {
        (step, disk)
    } else {
        let (next, after) = walk(step, disk);
        walked(next, after, (steps - 1) as nat)
    }
}

/// More steps than any load takes.
pub open spec fn enough() -> nat {
    10
}

/// How a load from `dir` ends on a disk, and what it leaves there.
pub open spec fn load_on(dir: PathBuf, prompt_override: Option<PathBuf>, disk: Disk) -> (
    LoadStepView,
    Disk,
) {
    walked(loading::load_from_spec(dir, prompt_override), disk, enough())
}

/// The files that a load writes: the configuration where it is missing, and
/// the prompt where it is missing from the config directory and no override
/// takes its place.
pub open spec fn written_by(
    dir: PathBuf,
    prompt_override: Option<PathBuf>,
    prompt: PathBuf,
    disk: Disk,
) -> Seq<PathBuf> {
    let config_file = loading::config_file(dir);
    let after = disk.having(config_file, DEFAULT_CONFIG@);
    let first = if disk.has(config_file) {
        Seq::empty()
    } else {
        seq![config_file]
    };
    if prompt_override is None && paths::within(prompt, dir) && !after.has(prompt) {
        first.push(prompt)
    } else {
        first
    }
}

/// The disk after a load whose prompt is `prompt`.
pub open spec fn disk_after(
    dir: PathBuf,
    prompt_override: Option<PathBuf>,
    prompt: PathBuf,
    disk: Disk,
) -> Disk {
    let after = disk.having(loading::config_file(dir), DEFAULT_CONFIG@);
    if prompt_override is None && paths::within(prompt, dir) {
        after.having(prompt, DEFAULT_PROMPT@)
    } else {
        after
    }
}

/// What a load comes to: it bootstraps the missing defaults, reads the
/// configuration, and reads the prompt that the configuration or the override
/// names. A prompt that is missing all the same is an error, and so is a text
/// that is no configuration.
pub proof fn law_what_a_load_comes_to(dir: PathBuf, prompt_override: Option<PathBuf>, disk: Disk)
    ensures
        ({
            let config_file = loading::config_file(dir);
            let (end, left) = load_on(dir, prompt_override, disk);
            match config::parsed(disk.having(config_file, DEFAULT_CONFIG@).files[config_file]) {
                Err(_) => end == LoadStepView::Failed(
                    LoadErrorView::InvalidConfig { file: config_file, cause: disk.complaint },
                ) && left == disk.having(config_file, DEFAULT_CONFIG@),
                Ok(config) => {
                    let prompt = loading::prompt_file(
                        dir,
                        prompt_override,
                        config.system_prompt_file,
                    );
                    &&& left == disk_after(dir, prompt_override, prompt, disk)
                    &&& left.has(prompt) ==> end == LoadStepView::Loaded(
                        LoadedView {
                            config,
                            system_prompt: left.files[prompt],
                            config_file,
                            prompt_file: prompt,
                            created: written_by(dir, prompt_override, prompt, disk),
                        },
                    )
                    &&& !left.has(prompt) ==> end == LoadStepView::Failed(
                        LoadErrorView::ReadPrompt { file: prompt, cause: disk.missing },
                    )
                },
            }
        }),
{
    reveal_with_fuel(walked, 11);
    let config_file = loading::config_file(dir);
    let none = Seq::<PathBuf>::empty();
    assert(none.push(config_file) == seq![config_file]);
}

/// A load never changes a file that is there, however far it got.
pub proof fn law_a_load_keeps_existing_files(
    dir: PathBuf,
    prompt_override: Option<PathBuf>,
    disk: Disk,
    steps: nat,
    file: PathBuf,
)
    requires
        disk.has(file),
    ensures
        ({
            let left = walked(loading::load_from_spec(dir, prompt_override), disk, steps).1;
            left.has(file) && left.files[file] == disk.files[file]
        }),
{
    lemma_walk_keeps(loading::load_from_spec(dir, prompt_override), disk, steps, file);
}

/// A load is about to write only what is missing.
spec fn writes_missing(step: LoadStepView, disk: Disk) -> bool {
    match step {
        LoadStepView::CreateDir(loading) => !disk.has(loading.file()),
        LoadStepView::Write(loading) => !disk.has(loading.file()),
        _ => true,
    }
}

proof fn lemma_walk_keeps(step: LoadStepView, disk: Disk, steps: nat, file: PathBuf)
    requires
        disk.has(file),
        writes_missing(step, disk),
    ensures
        ({
            let left = walked(step, disk, steps).1;
            left.has(file) && left.files[file] == disk.files[file]
        }),
    decreases steps,
{
    if steps > 0 {
        let (next, after) = walk(step, disk);
        lemma_walk_keeps(next, after, (steps - 1) as nat, file);
    }
}

/// A second load finds what the first one left: it creates nothing, changes
/// nothing, and gives the same configuration and prompt.
pub proof fn law_a_second_load_creates_nothing(
    dir: PathBuf,
    prompt_override: Option<PathBuf>,
    disk: Disk,
    loaded: LoadedView,
)
    requires
        load_on(dir, prompt_override, disk).0 == LoadStepView::Loaded(loaded),
    ensures
        load_on(dir, prompt_override, load_on(dir, prompt_override, disk).1) == (
            LoadStepView::Loaded(LoadedView { created: Seq::empty(), ..loaded }),
            load_on(dir, prompt_override, disk).1,
        ),
{
    let left = load_on(dir, prompt_override, disk).1;
    law_what_a_load_comes_to(dir, prompt_override, disk);
    law_what_a_load_comes_to(dir, prompt_override, left);
}

/// A prompt of the config directory that was deleted since the last load is
/// written again, with the default text, and nothing else is. The prompt is
/// another file than the configuration.
pub proof fn law_a_deleted_prompt_is_written_again(dir: PathBuf, disk: Disk, loaded: LoadedView)
    requires
        load_on(dir, None, disk).0 == LoadStepView::Loaded(loaded),
        paths::within(loaded.prompt_file, dir),
        loaded.prompt_file != loaded.config_file,
    ensures
        ({
            let left = load_on(dir, None, disk).1.without(loaded.prompt_file);
            load_on(dir, None, left) == (
                LoadStepView::Loaded(
                    LoadedView {
                        system_prompt: DEFAULT_PROMPT@,
                        created: seq![loaded.prompt_file],
                        ..loaded
                    },
                ),
                left.with(loaded.prompt_file, DEFAULT_PROMPT@),
            )
        }),
{
    let left = load_on(dir, None, disk).1.without(loaded.prompt_file);
    law_what_a_load_comes_to(dir, None, disk);
    law_what_a_load_comes_to(dir, None, left);
    let none = Seq::<PathBuf>::empty();
    assert(none.push(loaded.prompt_file) == seq![loaded.prompt_file]);
}

/// A load on a disk that has both files takes them as they are: it creates
/// nothing and changes nothing.
pub proof fn law_files_that_are_there_are_taken_as_they_are(
    dir: PathBuf,
    prompt_override: Option<PathBuf>,
    disk: Disk,
    config: ConfigView,
)
    requires
        disk.has(loading::config_file(dir)),
        config::parsed(disk.files[loading::config_file(dir)]) matches Ok(found) && found == config,
        disk.has(loading::prompt_file(dir, prompt_override, config.system_prompt_file)),
    ensures
        ({
            let prompt_file = loading::prompt_file(dir, prompt_override, config.system_prompt_file);
            load_on(dir, prompt_override, disk) == (
                LoadStepView::Loaded(
                    LoadedView {
                        config,
                        system_prompt: disk.files[prompt_file],
                        config_file: loading::config_file(dir),
                        prompt_file,
                        created: Seq::empty(),
                    },
                ),
                disk,
            )
        }),
{
    law_what_a_load_comes_to(dir, prompt_override, disk);
}

/// An override is read as given and never created, and while it is in use the
/// configured prompt is not created either.
pub proof fn law_an_override_is_never_created(dir: PathBuf, prompt_override: PathBuf, disk: Disk)
    ensures
        load_on(dir, Some(prompt_override), disk).1 == disk.having(
            loading::config_file(dir),
            DEFAULT_CONFIG@,
        ),
{
    law_what_a_load_comes_to(dir, Some(prompt_override), disk);
}

/// A configured prompt outside the config directory is never created.
pub proof fn law_a_prompt_elsewhere_is_never_created(dir: PathBuf, disk: Disk, config: ConfigView)
    requires
        config::parsed(
            disk.having(loading::config_file(dir), DEFAULT_CONFIG@).files[loading::config_file(dir)],
        ) matches Ok(found) && found == config,
        !paths::within(loading::prompt_file(dir, None, config.system_prompt_file), dir),
    ensures
        load_on(dir, None, disk).1 == disk.having(loading::config_file(dir), DEFAULT_CONFIG@),
{
    law_what_a_load_comes_to(dir, None, disk);
}

/// Whether no key stands twice, as in every TOML document.
pub open spec fn has_distinct_keys<V>(entries: Seq<(Seq<char>, V)>) -> bool {
    forall|i: int, j: int|
        0 <= i < j < entries.len() ==> (#[trigger] entries[i]).0 != (#[trigger] entries[j]).0
}

proof fn lemma_lookup_present<V>(entries: Seq<(Seq<char>, V)>, at: int)
    requires
        has_distinct_keys(entries),
        0 <= at < entries.len(),
    ensures
        config::lookup(entries, entries[at].0) == Some(entries[at].1),
    decreases entries.len(),
{
    if at > 0 {
        let rest = entries.drop_first();
        assert forall|i: int, j: int| 0 <= i < j < rest.len() implies (#[trigger] rest[i]).0 != (
        #[trigger] rest[j]).0 by {
            assert(rest[i] == entries[i + 1] && rest[j] == entries[j + 1]);
        }
        lemma_lookup_present(rest, at - 1);
        assert(rest[at - 1] == entries[at]);
        assert(entries[0].0 != entries[at].0);
    }
}

proof fn lemma_lookup_found<V>(entries: Seq<(Seq<char>, V)>, key: Seq<char>)
    ensures
        config::lookup(entries, key) matches Some(value) ==> exists|i: int|
            0 <= i < entries.len() && #[trigger] entries[i] == (key, value),
    decreases entries.len(),
{
    if entries.len() > 0 {
        if entries[0].0 == key {
            assert(entries[0] == (key, entries[0].1));
        } else {
            let rest = entries.drop_first();
            lemma_lookup_found(rest, key);
            if let Some(value) = config::lookup(rest, key) {
                let i = choose|i: int| 0 <= i < rest.len() && #[trigger] rest[i] == (key, value);
                assert(entries[i + 1] == rest[i]);
            }
        }
    }
}

/// A setting of a document is what the configuration says.
pub proof fn law_a_setting_is_honored(
    entries: Seq<(Seq<char>, ValueView)>,
    at: int,
    config: ConfigView,
)
    requires
        has_distinct_keys(entries),
        0 <= at < entries.len(),
        config::configured(entries) == Some(config),
    ensures
        entries[at].0 == "base_url"@ ==> entries[at].1 == ValueView::Text(config.base_url),
        entries[at].0 == "model"@ ==> entries[at].1 == ValueView::Text(config.model),
        entries[at].0 == "system_prompt_file"@ ==> entries[at].1 == ValueView::Text(
            config.system_prompt_file,
        ),
        entries[at].0 == "auth"@ ==> match entries[at].1 {
            ValueView::Table(inner) => config::auth_table(inner) == Some(config.auth),
            ValueView::Array(items) => config::auth_array(items) == Some(config.auth),
            _ => false,
        },
{
    lemma_lookup_present(entries, at);
}

/// Whether an entry is a setting with a value of its kind.
pub open spec fn is_good_entry(entry: (Seq<char>, ValueView)) -> bool {
    if entry.0 == "auth"@ {
        match entry.1 {
            ValueView::Table(inner) => config::auth_table(inner) is Some,
            ValueView::Array(items) => config::auth_array(items) is Some,
            _ => false,
        }
    } else {
        (entry.0 == "base_url"@ || entry.0 == "model"@ || entry.0 == "system_prompt_file"@)
            && entry.1 is Text
    }
}

/// A document is a configuration exactly when every entry of it is a known
/// setting with a value of its kind. No setting has to be there.
pub proof fn law_a_document_of_good_entries_is_a_configuration(
    entries: Seq<(Seq<char>, ValueView)>,
)
    requires
        has_distinct_keys(entries),
    ensures
        config::configured(entries) is Some <==> forall|i: int|
            0 <= i < entries.len() ==> is_good_entry(#[trigger] entries[i]),
{
    reveal_strlit("auth");
    reveal_strlit("base_url");
    reveal_strlit("model");
    reveal_strlit("system_prompt_file");
    if config::configured(entries) is Some {
        assert forall|i: int| 0 <= i < entries.len() implies is_good_entry(
            #[trigger] entries[i],
        ) by {
            law_a_setting_is_honored(entries, i, config::configured(entries)->0);
            assert(config::is_setting(entries[i].0));
        }
    }
    if forall|i: int| 0 <= i < entries.len() ==> is_good_entry(#[trigger] entries[i]) {
        assert forall|i: int| 0 <= i < entries.len() implies config::is_setting(
            (#[trigger] entries[i]).0,
        ) by {
            assert(is_good_entry(entries[i]));
        }
        lemma_lookup_found(entries, "auth"@);
        lemma_lookup_found(entries, "base_url"@);
        lemma_lookup_found(entries, "model"@);
        lemma_lookup_found(entries, "system_prompt_file"@);
        assert("auth"@.len() == 4 && "base_url"@.len() == 8 && "model"@.len() == 5
            && "system_prompt_file"@.len() == 18);
    }
}

/// An `[auth]` table means no authentication exactly when it says `mode =
/// "none"` and nothing else.
pub proof fn law_a_table_without_authentication(entries: Seq<(Seq<char>, Option<Seq<char>>)>)
    requires
        has_distinct_keys(entries),
    ensures
        config::auth_table(entries) == Some(AuthConfigView::NoAuth) <==> entries.len() == 1
            && entries[0] == ("mode"@, Some("none"@)),
{
    reveal_strlit("none");
    reveal_strlit("bearer");
    assert("none"@.len() != "bearer"@.len());
    lemma_lookup_found(entries, "mode"@);
    if entries.len() == 1 && entries[0] == ("mode"@, Some("none"@)) {
        lemma_lookup_present(entries, 0);
    }
    if config::auth_table(entries) == Some(AuthConfigView::NoAuth) {
        assert(config::lookup(entries, "mode"@) == Some(Some("none"@)));
        let i = choose|i: int|
            0 <= i < entries.len() && #[trigger] entries[i] == ("mode"@, Some("none"@));
        if entries.len() > 1 {
            assert(entries[0].0 == "mode"@);
            assert(entries[1].0 == "mode"@);
        }
    }
}

/// Whether an entry of an `[auth]` table belongs to a bearer policy.
pub open spec fn is_bearer_entry(entry: (Seq<char>, Option<Seq<char>>)) -> bool {
    (entry.0 == "mode"@ && entry.1 == Some("bearer"@)) || ((entry.0 == "env"@ || entry.0
        == "command"@) && entry.1 is Some)
}

/// An `[auth]` table is a bearer policy exactly when it says `mode = "bearer"`
/// and beside that at most names a variable and a command. The policy then
/// takes the variable and the command as they are written, `OPENAI_API_KEY`
/// where no variable is named, and no command where none is.
pub proof fn law_a_table_with_a_bearer_policy(entries: Seq<(Seq<char>, Option<Seq<char>>)>)
    requires
        has_distinct_keys(entries),
    ensures
        config::auth_table(entries) matches Some(AuthConfigView::Bearer { .. }) <==> {
            &&& forall|i: int|
                0 <= i < entries.len() ==> is_bearer_entry(#[trigger] entries[i])
            &&& exists|i: int| 0 <= i < entries.len() && (#[trigger] entries[i]).0 == "mode"@
        },
        config::auth_table(entries) matches Some(AuthConfigView::Bearer { env, command }) ==> {
            &&& forall|i: int|
                0 <= i < entries.len() && (#[trigger] entries[i]).0 == "env"@ ==> entries[i].1
                    == Some(env)
            &&& (forall|i: int| 0 <= i < entries.len() ==> (#[trigger] entries[i]).0 != "env"@)
                ==> env == "OPENAI_API_KEY"@
            &&& forall|i: int|
                0 <= i < entries.len() && (#[trigger] entries[i]).0 == "command"@ ==> entries[i].1
                    == command
            &&& (forall|i: int| 0 <= i < entries.len() ==> (#[trigger] entries[i]).0 != "command"@)
                ==> command is None
        },
{
    reveal_strlit("none");
    reveal_strlit("bearer");
    reveal_strlit("mode");
    reveal_strlit("env");
    reveal_strlit("command");
    assert("none"@.len() == 4 && "bearer"@.len() == 6 && "mode"@.len() == 4 && "env"@.len() == 3
        && "command"@.len() == 7);
    lemma_lookup_found(entries, "mode"@);
    lemma_lookup_found(entries, "env"@);
    lemma_lookup_found(entries, "command"@);
    assert forall|i: int| 0 <= i < entries.len() implies config::lookup(
        entries,
        (#[trigger] entries[i]).0,
    ) == Some(entries[i].1) by {
        lemma_lookup_present(entries, i);
    }
    if let Some(AuthConfigView::Bearer { env, command }) = config::auth_table(entries) {
        assert(config::lookup(entries, "mode"@) == Some(Some("bearer"@)));
        assert forall|i: int| 0 <= i < entries.len() implies is_bearer_entry(
            #[trigger] entries[i],
        ) by {
            assert(config::is_bearer_key(entries[i].0));
            assert(config::lookup(entries, entries[i].0) == Some(entries[i].1));
        }
        if forall|i: int| 0 <= i < entries.len() ==> (#[trigger] entries[i]).0 != "env"@ {
            lemma_lookup_absent(entries, "env"@);
        }
        if forall|i: int| 0 <= i < entries.len() ==> (#[trigger] entries[i]).0 != "command"@ {
            lemma_lookup_absent(entries, "command"@);
        }
    }
    if (forall|i: int| 0 <= i < entries.len() ==> is_bearer_entry(#[trigger] entries[i])) && (
    exists|i: int| 0 <= i < entries.len() && (#[trigger] entries[i]).0 == "mode"@) {
        let m = choose|i: int| 0 <= i < entries.len() && (#[trigger] entries[i]).0 == "mode"@;
        assert(is_bearer_entry(entries[m]));
        assert(config::lookup(entries, "mode"@) == Some(Some("bearer"@)));
        assert forall|i: int| 0 <= i < entries.len() implies config::is_bearer_key(
            (#[trigger] entries[i]).0,
        ) by {
            assert(is_bearer_entry(entries[i]));
        }
    }
}

/// An `auth` array lists the mode, then the variable, then the command, as far
/// as they are given; every other array is rejected.
pub proof fn law_what_an_auth_array_says(
    items: Seq<Option<Seq<char>>>,
    env: Seq<char>,
    command: Seq<char>,
)
    ensures
        config::auth_array(seq![Some("none"@)]) == Some(AuthConfigView::NoAuth),
        config::auth_array(seq![Some("bearer"@)]) == Some(
            AuthConfigView::Bearer { env: "OPENAI_API_KEY"@, command: None },
        ),
        config::auth_array(seq![Some("bearer"@), Some(env)]) == Some(
            AuthConfigView::Bearer { env, command: None },
        ),
        config::auth_array(seq![Some("bearer"@), Some(env), Some(command)]) == Some(
            AuthConfigView::Bearer { env, command: Some(command) },
        ),
        config::auth_array(items) is Some ==> {
            &&& 1 <= items.len() <= 3
            &&& items[0] == Some("bearer"@) || (items.len() == 1 && items[0] == Some("none"@))
            &&& forall|i: int| 0 <= i < items.len() ==> (#[trigger] items[i]) is Some
        },
{
    reveal_strlit("none");
    reveal_strlit("bearer");
    assert("none"@.len() != "bearer"@.len());
    let one = seq![Some("bearer"@)];
    let two = seq![Some("bearer"@), Some(env)];
    let three = seq![Some("bearer"@), Some(env), Some(command)];
    assert(one[0] == Some("bearer"@));
    assert(two[0] == Some("bearer"@) && two[1] == Some(env));
    assert(three[0] == Some("bearer"@) && three[1] == Some(env) && three[2] == Some(command));
    let bare = seq![Some("none"@)];
    assert(bare[0] == Some("none"@));
}

/// A text is read as a TOML document, and what that document sets is the
/// configuration. A text that is no document is told apart from a document
/// that is no configuration.
pub proof fn law_a_text_means_what_its_document_sets(source: Seq<char>, config: ConfigView)
    ensures
        config::parsed(source) == Ok::<ConfigView, ConfigError>(config) <==> (
        config::toml_document(source) matches Some(entries) && config::configured(entries) == Some(
            config,
        )),
        config::parsed(source) == Err::<ConfigView, ConfigError>(ConfigError::Syntax)
            <==> config::toml_document(source) is None,
        config::parsed(source) == Err::<ConfigView, ConfigError>(ConfigError::Schema) <==> (
        config::toml_document(source) matches Some(entries) && config::configured(entries) is None),
{
}

/// The config directory is `.config/lede` of the home directory where no XDG
/// config home counts, and there is none without either.
pub proof fn law_the_config_directory_is_below_home(xdg: PathBuf, home: PathBuf)
    ensures
        config::dir_of(None, Some(home)) == Some(paths::joined(home, ".config/lede"@)),
        config::dir_of(config::xdg_of(None), None) is None,
        !paths::absolute(xdg) ==> config::dir_of(config::xdg_of(Some(xdg)), None) is None,
        !paths::absolute(xdg) ==> config::dir_of(config::xdg_of(Some(xdg)), Some(home)) == Some(
            paths::joined(home, ".config/lede"@),
        ),
{
}

/// The configuration is config.toml in the config directory. The prompt is the
/// override as given; without one, a configured absolute path as given, and any
/// other counted from the config directory.
pub proof fn law_where_the_files_are(
    dir: PathBuf,
    prompt_override: PathBuf,
    configured: Seq<char>,
)
    ensures
        loading::config_file(dir) == paths::joined(dir, "config.toml"@),
        loading::prompt_file(dir, Some(prompt_override), configured) == prompt_override,
        paths::absolute(paths::path_of(configured)) ==> loading::prompt_file(dir, None, configured)
            == paths::path_of(configured),
        !paths::absolute(paths::path_of(configured)) ==> loading::prompt_file(dir, None, configured)
            == paths::joined(dir, configured),
{
}

/// A load begins by looking for the configuration in the directory of the
/// environment, with nothing created yet, and keeps the override for later.
pub proof fn law_how_a_load_begins(
    xdg: Option<PathBuf>,
    home: Option<PathBuf>,
    prompt_override: Option<PathBuf>,
)
    ensures
        match config::dir_of(config::xdg_of(xdg), home) {
            Some(dir) => loading::load_spec(xdg, home, prompt_override) matches LoadStepView::Check(
                first,
            ) && first.dir == dir && first.prompt_override == prompt_override && first.created.len()
                == 0 && first.file() == loading::config_file(dir),
            None => loading::load_spec(xdg, home, prompt_override) == LoadStepView::Failed(
                LoadErrorView::NoHome,
            ),
        },
{
}

/// A load ends at the first thing that fails, and the error says which file or
/// directory it was and why.
pub proof fn law_a_failing_step_ends_the_load(loading: LoadingView, cause: Seq<char>)
    ensures
        loading.dir_created(Err(cause)) == LoadStepView::Failed(
            LoadErrorView::CreateDir { dir: loading.dir, cause },
        ),
        loading.written(Err(cause)) == LoadStepView::Failed(
            LoadErrorView::Write { file: loading.file(), cause },
        ),
        loading.goal is Config ==> loading.read(Err(cause)) == LoadStepView::Failed(
            LoadErrorView::ReadConfig { file: loading.file(), cause },
        ),
        loading.goal is Prompt ==> loading.read(Err(cause)) == LoadStepView::Failed(
            LoadErrorView::ReadPrompt { file: loading.file(), cause },
        ),
        loading.explained(cause) == LoadStepView::Failed(
            LoadErrorView::InvalidConfig { file: loading.file(), cause },
        ),
{
}

/// The text that is no configuration is the one that is explained, and nothing
/// is read or written after it.
pub proof fn law_a_text_that_is_no_configuration_is_explained(
    loading: LoadingView,
    source: Seq<char>,
)
    requires
        loading.goal is Config,
        config::parsed(source) is Err,
    ensures
        loading.read(Ok(source)) == LoadStepView::Explain(loading, source),
{
}

/// An error of a load names the file or directory, and passes on whole what
/// the system or the TOML reader said.
pub proof fn law_a_load_error_says_what_is_wrong(path: PathBuf, cause: Seq<char>)
    ensures
        LoadErrorView::NoHome.message() == "cannot determine the home directory"@,
        (LoadErrorView::CreateDir { dir: path, cause }).message() == "failed to create "@
            + paths::shown(path) + ": "@ + cause,
        (LoadErrorView::Write { file: path, cause }).message() == "failed to write "@ + paths::shown(
            path,
        ) + ": "@ + cause,
        (LoadErrorView::ReadConfig { file: path, cause }).message() == "failed to read "@
            + paths::shown(path) + ": "@ + cause,
        (LoadErrorView::InvalidConfig { file: path, cause }).message() == "invalid config "@
            + paths::shown(path) + ": "@ + cause,
        (LoadErrorView::ReadPrompt { file: path, cause }).message()
            == "failed to read system prompt "@ + paths::shown(path) + ": "@ + cause,
{
}

/// A missing file is written in three steps that all speak of the same load:
/// the config directory is created, the file is written, and then it is read.
pub proof fn law_a_missing_file_is_written_step_by_step(loading: LoadingView)
    requires
        loading.goal is Config || paths::within(loading.file(), loading.dir),
    ensures
        loading.checked(true) == LoadStepView::Read(loading),
        loading.checked(false) == LoadStepView::CreateDir(loading),
        loading.dir_created(Ok(())) == LoadStepView::Write(loading),
        loading.written(Ok(())) matches LoadStepView::Read(next) && next.file() == loading.file()
            && next.created == loading.created + seq![loading.file()] && next.goal == loading.goal
            && next.dir == loading.dir && next.prompt_override == loading.prompt_override,
{
    assert(loading.created.push(loading.file()) == loading.created + seq![loading.file()]);
}

/// What stands under a key is the value of the first entry with that key.
pub proof fn law_the_first_entry_with_a_key_counts<V>(
    before: Seq<(Seq<char>, V)>,
    key: Seq<char>,
    value: V,
    after: Seq<(Seq<char>, V)>,
)
    requires
        forall|i: int| 0 <= i < before.len() ==> (#[trigger] before[i]).0 != key,
    ensures
        config::lookup(before + seq![(key, value)] + after, key) == Some(value),
        config::lookup(before, key) is None,
    decreases before.len(),
{
    let all = before + seq![(key, value)] + after;
    lemma_lookup_absent(before, key);
    if before.len() > 0 {
        let fewer = before.drop_first();
        assert forall|i: int| 0 <= i < fewer.len() implies (#[trigger] fewer[i]).0 != key by {
            assert(before[i + 1].0 != key);
        }
        law_the_first_entry_with_a_key_counts(fewer, key, value, after);
        assert(all.drop_first() == fewer + seq![(key, value)] + after);
        assert(all[0] == before[0]);
    } else {
        assert(all[0] == (key, value));
    }
}

/// An XDG config home that is to be used wins over any home directory.
pub proof fn law_an_xdg_config_home_wins(xdg: PathBuf, home: Option<PathBuf>)
    ensures
        config::dir_of(Some(xdg), home) == Some(paths::joined(xdg, "lede"@)),
{
}

/// A configuration that was read leads to its prompt: an override is read at
/// once, and any other prompt is looked for first. Nothing else of the load
/// changes.
pub proof fn law_the_configuration_leads_to_the_prompt(
    loading: LoadingView,
    source: Seq<char>,
    config: ConfigView,
)
    requires
        loading.goal is Config,
        config::parsed(source) matches Ok(found) && found == config,
    ensures
        ({
            let next = LoadingView {
                dir: loading.dir,
                prompt_override: loading.prompt_override,
                created: loading.created,
                goal: GoalView::Prompt(config),
            };
            &&& loading.prompt_override is Some ==> loading.read(Ok(source)) == LoadStepView::Read(
                next,
            )
            &&& loading.prompt_override is None ==> loading.read(Ok(source)) == LoadStepView::Check(
                next,
            )
            &&& next.file() == loading::prompt_file(
                loading.dir,
                loading.prompt_override,
                config.system_prompt_file,
            )
        }),
{
}

/// The prompt that was read ends the load, which gives the configuration, the
/// prompt as it was read, the two files and all that was created.
pub proof fn law_the_prompt_ends_the_load(
    loading: LoadingView,
    config: ConfigView,
    prompt: Seq<char>,
)
    requires
        loading.goal == GoalView::Prompt(config),
    ensures
        loading.read(Ok(prompt)) == LoadStepView::Loaded(
            LoadedView {
                config,
                system_prompt: prompt,
                config_file: paths::joined(loading.dir, "config.toml"@),
                prompt_file: loading.file(),
                created: loading.created,
            },
        ),
{
}

/// A prompt that is missing outside the config directory is not written but
/// read, so that the user sees that it is missing.
pub proof fn law_a_missing_prompt_elsewhere_is_read_all_the_same(
    loading: LoadingView,
    there: bool,
)
    requires
        loading.goal is Prompt,
        !paths::within(loading.file(), loading.dir),
    ensures
        loading.checked(there) == LoadStepView::Read(loading),
{
}

} // verus!
