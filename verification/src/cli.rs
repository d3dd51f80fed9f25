//! The command line: its configuration file, and what each command does.

use std::collections::HashMap;
use vstd::prelude::*;
use vstd::string::*;

use crate::config::{Config, RestartBehavior};
use crate::error::{Error, ErrorView};
use crate::pipeline::{
    is_excluded, law_excluded_are_dropped, law_excluded_are_never_installed, not_excluded,
    update_stage_after, UpdateProgress, UpdateStageView,
};
use crate::results::{nothing_attempted, CheckResult, UpdateResult};
use crate::text::{
    join_lines, joined, law_joined_lines_read_back, lines_of, same_text, texts, within_a_line,
    without_return, without_returns,
};
use crate::types::AvailableUpdate;

verus! {

// --- Configuration file ---

/// What a configuration file says.
#[derive(Debug)]
pub struct TomlConfig {
    pub excluded_packages: Vec<String>,
    pub update_all_by_default: bool,
    pub assume_yes: bool,
    pub prompt_restart: bool,
    pub max_threads: Option<usize>,
}

/// Whether a configuration file says nothing.
pub open spec fn says_nothing(file: TomlConfig) -> bool {
    &&& file.excluded_packages@ == Seq::<String>::empty()
    &&& !file.update_all_by_default
    &&& !file.assume_yes
    &&& !file.prompt_restart
    &&& file.max_threads is None
}

impl Default for TomlConfig {
    fn default() -> (file: TomlConfig)
        ensures
            says_nothing(file),
    {
        TomlConfig {
            excluded_packages: Vec::new(),
            update_all_by_default: false,
            assume_yes: false,
            prompt_restart: false,
            max_threads: None,
        }
    }
}

/// What came of the attempt to read the configuration file.
#[derive(Debug)]
pub enum ConfigFile {
    /// There is no directory for it.
    NoDirectory,
    Missing,
    Unreadable { path: String, cause: String },
    Malformed { path: String, cause: String },
    Read(TomlConfig),
}

/// A printable ASCII character or a tab.
pub open spec fn is_plain(c: char) -> bool {
    c == '\t' || ' ' <= c <= '~'
}

/// A line that is a comment of plain characters and nothing else.
pub open spec fn is_comment(line: Seq<char>) -> bool {
    &&& line.len() > 0
    &&& line[0] == '#'
    &&& forall|i: int| 0 <= i < line.len() ==> is_plain(#[trigger] line[i])
}

/// A text whose lines are all comments.
pub open spec fn only_comments(text: Seq<char>) -> bool {
    forall|i: int| 0 <= i < lines_of(text).len() ==> is_comment(#[trigger] lines_of(text)[i])
}

/// How many keys `toml::from_str` finds at the top of a text that it reads as a table.
pub uninterp spec fn toml_keys(text: Seq<char>) -> Option<usize>;

/// Reads a text with `toml::from_str` as a table and counts its keys. The contract names the count,
/// claims that it depends on the text alone, and claims that a text of comments is read and has
/// none.
#[verifier::external_body]
fn count_keys(text: &str) -> (keys: Option<usize>)
    ensures
        keys == toml_keys(text@),
        only_comments(text@) ==> keys == Some(0usize),
{
    toml::from_str::<toml::Table>(text).ok().map(|table| table.len())
}

/// What a configuration file with so many keys says, by what its text was decoded to: one without
/// any says nothing.
pub open spec fn is_said(
    file: ConfigFile,
    keys: Option<usize>,
    path: Seq<char>,
    decoded: Result<TomlConfig, String>,
) -> bool {
    if keys == Some(0usize) {
        file matches ConfigFile::Read(said) && says_nothing(said)
    } else {
        match decoded {
            Ok(said) => file == ConfigFile::Read(said),
            Err(cause) => file matches ConfigFile::Malformed { path: p, cause: c } && p@ == path
                && c@ == cause@,
        }
    }
}

/// What a configuration file says, by the number of its keys and by what its text was decoded to,
/// or the message with which it was refused.
pub fn decoded_config(
    keys: Option<usize>,
    path: String,
    decoded: Result<TomlConfig, String>,
) -> (file: ConfigFile)
    ensures
        is_said(file, keys, path@, decoded),
{
    let is_empty = match keys {
        Some(count) => count == 0,
        None => false,
    };
    if is_empty {
        ConfigFile::Read(TomlConfig::default())
    } else {
        match decoded {
            Ok(said) => ConfigFile::Read(said),
            Err(cause) => ConfigFile::Malformed { path, cause },
        }
    }
}

/// What a configuration file with this text says. One with comments only says nothing.
pub fn read_config(path: String, text: &str, decoded: Result<TomlConfig, String>) -> (file:
    ConfigFile)
    ensures
        is_said(file, toml_keys(text@), path@, decoded),
        only_comments(text@) ==> (file matches ConfigFile::Read(said) && says_nothing(said)),
        text@ == default_config_text() ==> (file matches ConfigFile::Read(said) && says_nothing(
            said,
        )),
{
    proof {
        law_default_config_is_all_comments();
    }
    decoded_config(count_keys(text), path, decoded)
}

/// What came of the attempt to read a table of store entries.
#[derive(Debug)]
pub enum WidgetsFile {
    Missing,
    Unreadable { path: String, cause: String },
    Read(HashMap<String, u64>),
}

fn message(what: &str, path: &str, cause: &str) -> (text: String)
    ensures
        text@ == what@ + path@ + ": "@ + cause@,
{
    what.to_owned().concat(path).concat(": ").concat(cause)
}

/// The error of a configuration file, if it has one.
pub open spec fn config_file_error(file: ConfigFile) -> Option<ErrorView> {
    match file {
        ConfigFile::Unreadable { path, cause } => Some(
            ErrorView::Other("failed to read config file "@ + path@ + ": "@ + cause@),
        ),
        ConfigFile::Malformed { path, cause } => Some(
            ErrorView::Other("failed to parse config file "@ + path@ + ": "@ + cause@),
        ),
        _ => None,
    }
}

/// What the configuration file says. One that is not there says nothing.
pub fn load_toml_config(file: ConfigFile) -> (r: Result<TomlConfig, Error>)
    ensures
        match config_file_error(file) {
            Some(e) => r is Err && r->Err_0@ == e,
            None => r is Ok && match file {
                ConfigFile::Read(config) => r->Ok_0 == config,
                _ => says_nothing(r->Ok_0),
            },
        },
{
    match file {
        ConfigFile::NoDirectory => Ok(TomlConfig::default()),
        ConfigFile::Missing => Ok(TomlConfig::default()),
        ConfigFile::Unreadable { path, cause } => Err(
            Error::other(message("failed to read config file ", path.as_str(), cause.as_str())),
        ),
        ConfigFile::Malformed { path, cause } => Err(
            Error::other(message("failed to parse config file ", path.as_str(), cause.as_str())),
        ),
        ConfigFile::Read(config) => Ok(config),
    }
}

/// The table of store entries that a file gives. One that is not there gives an empty table.
pub fn load_widgets_id_table_from(file: WidgetsFile) -> (r: Result<HashMap<String, u64>, Error>)
    ensures
        match file {
            WidgetsFile::Missing => r is Ok && r->Ok_0@ == Map::<String, u64>::empty(),
            WidgetsFile::Unreadable { path, cause } => r is Err && r->Err_0@ == ErrorView::Other(
                "failed to read file "@ + path@ + ": "@ + cause@,
            ),
            WidgetsFile::Read(table) => r == Ok::<HashMap<String, u64>, Error>(table),
        },
{
    match file {
        WidgetsFile::Missing => Ok(HashMap::new()),
        WidgetsFile::Unreadable { path, cause } => Err(
            Error::other(message("failed to read file ", path.as_str(), cause.as_str())),
        ),
        WidgetsFile::Read(table) => Ok(table),
    }
}

/// The configuration of the command line.
#[derive(Debug, Clone)]
pub struct CliConfig {
    pub inner: Config,
    pub update_all_by_default: bool,
    pub assume_yes: bool,
}

impl std::ops::Deref for CliConfig {
    type Target = Config;

    fn deref(&self) -> (inner: &Config)
        ensures
            *inner == self.inner,
    {
        &self.inner
    }
}

/// Whether a configuration has these settings, and otherwise what holds where nothing is set, apart
/// from the table of store entries.
pub open spec fn has_settings(
    config: CliConfig,
    excluded_packages: Seq<String>,
    update_all_by_default: bool,
    assume_yes: bool,
    prompt_restart: bool,
    max_threads: Option<usize>,
) -> bool {
    &&& config.inner.excluded_packages@ == excluded_packages
    &&& config.update_all_by_default == update_all_by_default
    &&& config.assume_yes == assume_yes
    &&& config.inner.restart == if prompt_restart {
        RestartBehavior::Prompt
    } else {
        RestartBehavior::Never
    }
    &&& config.inner.threads == max_threads
    &&& !config.inner.system
    &&& !config.inner.skip_plasma_detection
    &&& !config.inner.auto_confirm
}

/// Whether a configuration is the one that the configuration file leads to, apart from the table
/// of store entries.
pub open spec fn follows(config: CliConfig, file: ConfigFile) -> bool {
    match file {
        ConfigFile::Read(said) => has_settings(
            config,
            said.excluded_packages@,
            said.update_all_by_default,
            said.assume_yes,
            said.prompt_restart,
            said.max_threads,
        ),
        _ => has_settings(config, Seq::empty(), false, false, false, None),
    }
}

impl CliConfig {
    /// The configuration that the file gives, with the built-in table of store entries.
    pub fn load(file: ConfigFile) -> (r: Result<CliConfig, Error>)
        ensures
            match config_file_error(file) {
                Some(e) => r is Err && r->Err_0@ == e,
                None => r is Ok && follows(r->Ok_0, file) && r->Ok_0.inner.widgets_id_table is None,
            },
    {
        CliConfig::load_with_widgets_id(file, None)
    }

    /// The configuration that the file gives, with the table of store entries of another file in
    /// place of the built-in one, where such a file is named.
    pub fn load_with_widgets_id(file: ConfigFile, widgets: Option<WidgetsFile>) -> (r: Result<
        CliConfig,
        Error,
    >)
        ensures
            match config_file_error(file) {
                Some(e) => r is Err && r->Err_0@ == e,
                None => match widgets {
                    None => r is Ok && follows(r->Ok_0, file)
                        && r->Ok_0.inner.widgets_id_table is None,
                    Some(WidgetsFile::Missing) => r is Ok && follows(r->Ok_0, file)
                        && r->Ok_0.inner.widgets_id_table is Some
                        && r->Ok_0.inner.widgets_id_table->0@ == Map::<String, u64>::empty(),
                    Some(WidgetsFile::Read(table)) => r is Ok && follows(r->Ok_0, file)
                        && r->Ok_0.inner.widgets_id_table == Some(table),
                    Some(WidgetsFile::Unreadable { path, cause }) => r is Err && r->Err_0@
                        == ErrorView::Other("failed to read file "@ + path@ + ": "@ + cause@),
                },
            },
    {
        let said = match load_toml_config(file) {
            Ok(said) => said,
            Err(e) => {
                return Err(e);
            },
        };
        let mut inner = Config::new().with_excluded_packages(said.excluded_packages).with_restart(
            if said.prompt_restart {
                RestartBehavior::Prompt
            } else {
                RestartBehavior::Never
            },
        );
        if let Some(n) = said.max_threads {
            inner = inner.with_threads(n);
        }
        if let Some(widgets_file) = widgets {
            match load_widgets_id_table_from(widgets_file) {
                Ok(table) => {
                    inner = inner.with_widgets_id_table(table);
                },
                Err(e) => {
                    return Err(e);
                },
            }
        }
        Ok(
            CliConfig {
                inner,
                update_all_by_default: said.update_all_by_default,
                assume_yes: said.assume_yes,
            },
        )
    }
}

// --- Editing the configuration file ---

/// The lines that a new configuration file holds.
pub open spec fn default_config_lines() -> Seq<Seq<char>> {
    seq![
        "# plasmoid-updater configuration"@,
        "# excluded_packages = [\"widget-name\", \"another.widget\"]"@,
        "# update_all_by_default = false"@,
        "# assume_yes = false  # automatically confirm all updates without prompting"@,
        "# prompt_restart = true"@,
        "# max_threads = 4  # maximum number of concurrent downloads (reduce to 1-2 if you hit HTTP 429)"@,
    ]
}

/// What a new configuration file holds.
pub open spec fn default_config_text() -> Seq<char> {
    joined(default_config_lines()).push('\n')
}

/// The text to write to a new configuration file.
pub fn default_config() -> (text: String)
    ensures
        text@ == default_config_text(),
{
    let mut lines: Vec<String> = Vec::new();
    lines.push("# plasmoid-updater configuration".to_owned());
    lines.push("# excluded_packages = [\"widget-name\", \"another.widget\"]".to_owned());
    lines.push("# update_all_by_default = false".to_owned());
    lines.push("# assume_yes = false  # automatically confirm all updates without prompting".to_owned());
    lines.push("# prompt_restart = true".to_owned());
    lines.push("# max_threads = 4  # maximum number of concurrent downloads (reduce to 1-2 if you hit HTTP 429)".to_owned());
    assert(texts(lines@) =~= default_config_lines());
    let body = join_lines(&lines);
    proof {
        reveal_strlit("\n");
        assert("\n"@ == seq!['\n']);
        assert(body@ + "\n"@ == body@.push('\n'));
    }
    body.concat("\n")
}

/// Whether all characters from this position on are plain ones.
spec fn plain_from(s: Seq<char>, at: int) -> bool
    decreases s.len() - at,
{
    at >= s.len() || (is_plain(s[at]) && plain_from(s, at + 1))
}

proof fn lemma_plain(s: Seq<char>, at: int)
    requires
        0 <= at,
        plain_from(s, at),
    ensures
        forall|i: int| at <= i < s.len() ==> is_plain(s[i]),
    decreases s.len() - at,
{
    if at < s.len() {
        lemma_plain(s, at + 1);
    }
}

/// A new configuration file holds comment lines only.
pub proof fn law_default_config_is_all_comments()
    ensures
        only_comments(default_config_text()),
{
    let lines = default_config_lines();
    reveal_strlit("# plasmoid-updater configuration");
    reveal_strlit("# excluded_packages = [\"widget-name\", \"another.widget\"]");
    reveal_strlit("# update_all_by_default = false");
    reveal_strlit("# assume_yes = false  # automatically confirm all updates without prompting");
    reveal_strlit("# prompt_restart = true");
    reveal_strlit("# max_threads = 4  # maximum number of concurrent downloads (reduce to 1-2 if you hit HTTP 429)");
    reveal_with_fuel(plain_from, 22);
    assert(plain_from(lines[0], 20));
    assert(plain_from(lines[0], 0));
    assert(plain_from(lines[1], 40));
    assert(plain_from(lines[1], 20));
    assert(plain_from(lines[1], 0));
    assert(plain_from(lines[2], 20));
    assert(plain_from(lines[2], 0));
    assert(plain_from(lines[3], 60));
    assert(plain_from(lines[3], 40));
    assert(plain_from(lines[3], 20));
    assert(plain_from(lines[3], 0));
    assert(plain_from(lines[4], 20));
    assert(plain_from(lines[4], 0));
    assert(plain_from(lines[5], 80));
    assert(plain_from(lines[5], 60));
    assert(plain_from(lines[5], 40));
    assert(plain_from(lines[5], 20));
    assert(plain_from(lines[5], 0));
    assert forall|k: int| 0 <= k < lines.len() implies within_a_line(#[trigger] lines[k])
        && is_comment(lines[k]) && without_return(lines[k]) == lines[k] by {
        lemma_plain(lines[k], 0);
    }
    law_joined_lines_read_back(lines);
    assert(without_returns(lines) =~= lines);
}

/// A configuration file that says nothing leads to the same configuration as none.
pub proof fn law_file_that_says_nothing_is_like_none(config: CliConfig, said: TomlConfig)
    requires
        says_nothing(said),
    ensures
        config_file_error(ConfigFile::Read(said)) is None,
        config_file_error(ConfigFile::Missing) is None,
        follows(config, ConfigFile::Read(said)) <==> follows(config, ConfigFile::Missing),
{
}

/// The program to edit with: the one that the environment names, or else `nano`.
pub fn choose_editor(named: Option<String>) -> (editor: String)
    ensures
        editor@ == match named {
            Some(name) => name@,
            None => "nano"@,
        },
{
    match named {
        Some(name) => name,
        None => "nano".to_owned(),
    }
}

/// Where the editing of the configuration file stands.
#[derive(Debug)]
pub enum EditStage {
    /// Whether the file exists is to be looked up.
    Looking,
    /// The directory that the file belongs in is to be created.
    CreatingDirectory,
    /// The default text is to be written to the file.
    Writing,
    /// The file is to be opened in the editor.
    Opening,
    Finished(Result<(), Error>),
}

/// What came of the last stage. A failure names what it is about: the directory, the file or the
/// editor.
#[derive(Debug)]
pub enum EditEvent {
    Looked { exists: bool, has_parent: bool },
    Done,
    /// The editor was closed, with or without success.
    Closed { success: bool },
    Failed { subject: String, cause: String },
}

/// Where the editing of the configuration file stands, with what the text of an error holds.
pub enum EditStageView {
    Looking,
    CreatingDirectory,
    Writing,
    Opening,
    Finished(Result<(), ErrorView>),
}

impl View for EditStage {
    type V = EditStageView;

    open spec fn view(&self) -> EditStageView {
        match self {
            EditStage::Looking => EditStageView::Looking,
            EditStage::CreatingDirectory => EditStageView::CreatingDirectory,
            EditStage::Writing => EditStageView::Writing,
            EditStage::Opening => EditStageView::Opening,
            EditStage::Finished(Ok(_)) => EditStageView::Finished(Ok(())),
            EditStage::Finished(Err(e)) => EditStageView::Finished(Err(e@)),
        }
    }
}

/// The end of an edit that failed.
pub open spec fn edit_failed(what: Seq<char>, subject: Seq<char>, cause: Seq<char>) -> EditStageView {
    EditStageView::Finished(Err(ErrorView::Other(what + subject + ": "@ + cause)))
}

/// The stage that follows. With what status the editor is closed makes no difference. A stage that
/// awaits something else stays.
pub open spec fn next_edit_stage(stage: EditStageView, event: EditEvent) -> EditStageView {
    match (stage, event) {
        (EditStageView::Looking, EditEvent::Looked { exists, has_parent }) => if exists {
            EditStageView::Opening
        } else if has_parent {
            EditStageView::CreatingDirectory
        } else {
            EditStageView::Writing
        },
        (EditStageView::CreatingDirectory, EditEvent::Done) => EditStageView::Writing,
        (EditStageView::CreatingDirectory, EditEvent::Failed { subject, cause }) => edit_failed(
            "failed to create config directory "@,
            subject@,
            cause@,
        ),
        (EditStageView::Writing, EditEvent::Done) => EditStageView::Opening,
        (EditStageView::Writing, EditEvent::Failed { subject, cause }) => edit_failed(
            "failed to create config file "@,
            subject@,
            cause@,
        ),
        (EditStageView::Opening, EditEvent::Closed { .. }) => EditStageView::Finished(Ok(())),
        (EditStageView::Opening, EditEvent::Failed { subject, cause }) => edit_failed(
            "failed to open editor "@,
            subject@,
            cause@,
        ),
        (stage, _) => stage,
    }
}

fn edit_failure(what: &str, subject: String, cause: String) -> (stage: EditStage)
    ensures
        stage@ == edit_failed(what@, subject@, cause@),
{
    EditStage::Finished(Err(Error::other(message(what, subject.as_str(), cause.as_str()))))
}

impl CliConfig {
    /// Begins to edit the configuration file, if there is a place for it.
    pub fn edit_config(has_path: bool) -> (stage: EditStage)
        ensures
            stage@ == if has_path {
                EditStageView::Looking
            } else {
                EditStageView::Finished(
                    Err(ErrorView::Other("could not determine config directory"@)),
                )
            },
    {
        if has_path {
            EditStage::Looking
        } else {
            EditStage::Finished(
                Err(Error::other("could not determine config directory".to_owned())),
            )
        }
    }
}

impl EditStage {
    /// Goes on with what came of this stage.
    pub fn step(self, event: EditEvent) -> (next: EditStage)
        ensures
            next@ == next_edit_stage(self@, event),
    {
        match self {
            EditStage::Looking => match event {
                EditEvent::Looked { exists, has_parent } => {
                    if exists {
                        EditStage::Opening
                    } else if has_parent {
                        EditStage::CreatingDirectory
                    } else {
                        EditStage::Writing
                    }
                },
                _ => EditStage::Looking,
            },
            EditStage::CreatingDirectory => match event {
                EditEvent::Done => EditStage::Writing,
                EditEvent::Failed { subject, cause } => edit_failure(
                    "failed to create config directory ",
                    subject,
                    cause,
                ),
                _ => EditStage::CreatingDirectory,
            },
            EditStage::Writing => match event {
                EditEvent::Done => EditStage::Opening,
                EditEvent::Failed { subject, cause } => edit_failure(
                    "failed to create config file ",
                    subject,
                    cause,
                ),
                _ => EditStage::Writing,
            },
            EditStage::Opening => match event {
                EditEvent::Closed { .. } => EditStage::Finished(Ok(())),
                EditEvent::Failed { subject, cause } => edit_failure(
                    "failed to open editor ",
                    subject,
                    cause,
                ),
                _ => EditStage::Opening,
            },
            stage => stage,
        }
    }
}

/// The stage after all of these.
pub open spec fn edit_stage_after(events: Seq<EditEvent>) -> EditStageView
    decreases events.len(),
{
    if events.len() == 0 {
        EditStageView::Looking
    } else {
        next_edit_stage(edit_stage_after(events.drop_last()), events.last())
    }
}

/// What the configuration file holds after these events, before the editor changes it.
pub open spec fn config_text_after(file: Option<Seq<char>>, events: Seq<EditEvent>) -> Option<
    Seq<char>,
>
    decreases events.len(),
{
    if events.len() == 0 {
        file
    } else if edit_stage_after(events.drop_last()) is Writing && events.last() is Done {
        Some(default_config_text())
    } else {
        config_text_after(file, events.drop_last())
    }
}

/// A configuration file that exists is never written to, and is opened with its text unchanged. One
/// that is missing holds the default text when it is opened.
pub proof fn law_config_is_kept_or_created(file: Option<Seq<char>>, events: Seq<EditEvent>)
    requires
        forall|i: int|
            0 <= i < events.len() ==> (#[trigger] events[i] matches EditEvent::Looked { exists, .. }
                ==> exists == (file is Some)),
    ensures
        match edit_stage_after(events) {
            EditStageView::Looking => config_text_after(file, events) == file,
            EditStageView::CreatingDirectory => file is None && config_text_after(file, events)
                is None,
            EditStageView::Writing => file is None && config_text_after(file, events) is None,
            EditStageView::Finished(Err(_)) => file is Some ==> config_text_after(file, events)
                == file,
            _ => config_text_after(file, events) == Some(
                match file {
                    Some(text) => text,
                    None => default_config_text(),
                },
            ),
        },
    decreases events.len(),
{
    if events.len() > 0 {
        let before = events.drop_last();
        assert forall|i: int| 0 <= i < before.len() implies (
        #[trigger] before[i] matches EditEvent::Looked { exists, .. } ==> exists == (
        file is Some)) by {
            assert(events[i] == before[i]);
        }
        law_config_is_kept_or_created(file, before);
        assert(events[events.len() - 1] == events.last());
    }
}

// --- Commands ---

/// How the program was called.
#[derive(Debug, Clone, Copy, PartialEq, Eq, Structural)]
pub struct Options {
    pub system: bool,
    pub edit_config: bool,
    pub skip_plasma_detection: bool,
    pub max_threads: Option<usize>,
}

#[derive(Debug)]
pub struct UpdateArgs {
    pub component: Option<String>,
    pub restart_plasma: bool,
    pub no_restart_plasma: bool,
    pub yes: bool,
}

impl Default for UpdateArgs {
    fn default() -> (args: UpdateArgs)
        ensures
            args.component is None,
            !args.restart_plasma,
            !args.no_restart_plasma,
            !args.yes,
    {
        UpdateArgs { component: None, restart_plasma: false, no_restart_plasma: false, yes: false }
    }
}

#[derive(Debug)]
pub enum Command {
    Check,
    ListInstalled,
    /// Add missing package structures. Nothing else does so.
    Repair,
    Update(UpdateArgs),
}

/// How the program ends.
#[derive(Debug, Clone, Copy, PartialEq, Eq, Structural)]
pub enum ExitCode {
    Success,
    PartialFailure,
    FatalError,
}

/// What the program does first.
#[derive(Debug, Clone, Copy, PartialEq, Eq, Structural)]
pub enum RunStage {
    /// The configuration file is to be edited, and nothing else.
    EditConfig,
    /// The configuration is to be loaded, and a command executed with it.
    LoadConfig,
}

/// Begins a run of the program.
pub fn run(options: Options) -> (start: RunStage)
    ensures
        start == if options.edit_config {
            RunStage::EditConfig
        } else {
            RunStage::LoadConfig
        },
{
    if options.edit_config {
        RunStage::EditConfig
    } else {
        RunStage::LoadConfig
    }
}

/// The configuration with what the call of the program sets.
pub open spec fn with_call(config: CliConfig, options: Options) -> CliConfig {
    CliConfig {
        inner: Config {
            system: options.system,
            skip_plasma_detection: options.skip_plasma_detection,
            threads: if options.max_threads is Some {
                options.max_threads
            } else {
                config.inner.threads
            },
            ..config.inner
        },
        ..config
    }
}

/// Goes on with a run when the configuration file was looked for: a file that cannot be used is its
/// end; else the command is executed with what the file and the call of the program say.
pub fn run_configured(
    options: Options,
    file: ConfigFile,
    is_root: bool,
    command: Option<Command>,
) -> (r: Result<(CliConfig, CommandStage), Error>)
    ensures
        match config_file_error(file) {
            Some(e) => r is Err && r->Err_0@ == e,
            None => {
                &&& r matches Ok((config, stage))
                &&& stage@ == command_start(options.system, is_root, command)
                &&& exists|loaded: CliConfig|
                    {
                        &&& #[trigger] follows(loaded, file)
                        &&& loaded.inner.widgets_id_table is None
                        &&& config == with_call(loaded, options)
                    }
            },
        },
{
    match CliConfig::load(file) {
        Ok(loaded) => {
            let ghost before = loaded;
            let config = loaded.with_options(options);
            assert(follows(before, file));
            Ok((config, execute_command(options.system, is_root, command)))
        },
        Err(e) => Err(e),
    }
}

impl CliConfig {
    /// The configuration with what the call of the program sets: a number of threads that is given
    /// there overrides that of the configuration file.
    pub fn with_options(self, options: Options) -> (config: CliConfig)
        ensures
            config == with_call(self, options),
    {
        let mut config = self;
        config.inner.system = options.system;
        config.inner.skip_plasma_detection = options.skip_plasma_detection;
        if let Some(n) = options.max_threads {
            config.inner.threads = Some(n);
        }
        config
    }
}

/// Whether the user has to authenticate first: for the components of the whole system, unless the
/// program runs as root.
pub fn needs_sudo(system: bool, is_root: bool) -> (b: bool)
    ensures
        b == (system && !is_root),
{
    system && !is_root
}

/// What came of the attempt to authenticate.
#[derive(Debug)]
pub enum SudoOutcome {
    NotRun { cause: String },
    Exited { success: bool },
}

/// The error of an attempt to authenticate, if it failed.
pub open spec fn sudo_error(outcome: SudoOutcome) -> Option<ErrorView> {
    match outcome {
        SudoOutcome::NotRun { cause } => Some(
            ErrorView::Other("failed to run sudo: "@ + cause@),
        ),
        SudoOutcome::Exited { success } => if success {
            None
        } else {
            Some(ErrorView::Other("sudo authentication failed"@))
        },
    }
}

pub fn validate_sudo(outcome: SudoOutcome) -> (r: Result<(), Error>)
    ensures
        match sudo_error(outcome) {
            Some(e) => r is Err && r->Err_0@ == e,
            None => r is Ok,
        },
{
    match outcome {
        SudoOutcome::NotRun { cause } => Err(
            Error::other("failed to run sudo: ".to_owned().concat(cause.as_str())),
        ),
        SudoOutcome::Exited { success } => {
            if success {
                Ok(())
            } else {
                Err(Error::other("sudo authentication failed".to_owned()))
            }
        },
    }
}

/// Where the execution of a command stands.
#[derive(Debug)]
pub enum CommandStage {
    /// The user has to authenticate first.
    Authenticating(Command),
    /// The command is to be run.
    Running(Command),
    /// No command is run.
    Failed(Error),
}

/// Where the execution of a command stands, with what the text of its error holds.
pub enum CommandStageView {
    Authenticating(Command),
    Running(Command),
    Failed(ErrorView),
}

impl View for CommandStage {
    type V = CommandStageView;

    open spec fn view(&self) -> CommandStageView {
        match *self {
            CommandStage::Authenticating(command) => CommandStageView::Authenticating(command),
            CommandStage::Running(command) => CommandStageView::Running(command),
            CommandStage::Failed(e) => CommandStageView::Failed(e@),
        }
    }
}

/// The command that is meant: without one, all components are updated.
pub open spec fn meant_command(command: Option<Command>) -> Command {
    match command {
        Some(given) => given,
        None => Command::Update(
            UpdateArgs {
                component: None,
                restart_plasma: false,
                no_restart_plasma: false,
                yes: false,
            },
        ),
    }
}

/// How the execution of a command begins.
pub open spec fn command_start(
    system: bool,
    is_root: bool,
    command: Option<Command>,
) -> CommandStageView {
    if system && !is_root {
        CommandStageView::Authenticating(meant_command(command))
    } else {
        CommandStageView::Running(meant_command(command))
    }
}

/// The stage that follows an attempt to authenticate. A stage that does not await one stays.
pub open spec fn after_authentication(
    stage: CommandStageView,
    outcome: SudoOutcome,
) -> CommandStageView {
    match stage {
        CommandStageView::Authenticating(command) => match sudo_error(outcome) {
            Some(e) => CommandStageView::Failed(e),
            None => CommandStageView::Running(command),
        },
        _ => stage,
    }
}

/// Begins to execute a command. One for the components of the whole system waits until the user has
/// authenticated, unless the program runs as root.
pub fn execute_command(system: bool, is_root: bool, command: Option<Command>) -> (stage:
    CommandStage)
    ensures
        stage@ == command_start(system, is_root, command),
{
    let chosen = match command {
        Some(given) => given,
        None => Command::Update(UpdateArgs::default()),
    };
    if needs_sudo(system, is_root) {
        CommandStage::Authenticating(chosen)
    } else {
        CommandStage::Running(chosen)
    }
}

impl CommandStage {
    /// Goes on with what came of the attempt to authenticate.
    pub fn authenticated(self, outcome: SudoOutcome) -> (next: CommandStage)
        ensures
            next@ == after_authentication(self@, outcome),
    {
        match self {
            CommandStage::Authenticating(command) => match validate_sudo(outcome) {
                Ok(_) => CommandStage::Running(command),
                Err(e) => CommandStage::Failed(e),
            },
            stage => stage,
        }
    }
}

/// The stage after these attempts to authenticate.
pub open spec fn command_stage_after(
    start: CommandStageView,
    outcomes: Seq<SudoOutcome>,
) -> CommandStageView
    decreases outcomes.len(),
{
    if outcomes.len() == 0 {
        start
    } else {
        after_authentication(command_stage_after(start, outcomes.drop_last()), outcomes.last())
    }
}

/// No command runs for the whole system unless the user is root or has authenticated: a first
/// attempt that fails is the end, whatever the command. Where there is no need to authenticate, the
/// command runs at once.
pub proof fn law_no_command_runs_unauthenticated(
    system: bool,
    is_root: bool,
    command: Option<Command>,
    outcomes: Seq<SudoOutcome>,
)
    ensures
        command_stage_after(command_start(system, is_root, command), outcomes) == (if !system
            || is_root {
            CommandStageView::Running(meant_command(command))
        } else if outcomes.len() == 0 {
            CommandStageView::Authenticating(meant_command(command))
        } else {
            match sudo_error(outcomes[0]) {
                Some(e) => CommandStageView::Failed(e),
                None => CommandStageView::Running(meant_command(command)),
            }
        }),
    decreases outcomes.len(),
{
    if outcomes.len() > 0 {
        law_no_command_runs_unauthenticated(system, is_root, command, outcomes.drop_last());
        if outcomes.len() > 1 {
            assert(outcomes.drop_last()[0] == outcomes[0]);
        }
    }
}

/// Which of the components are updated.
#[derive(Debug)]
pub enum UpdateRoute {
    /// The one that goes by this name.
    Single(String),
    All,
}

/// The way of an update: to a single component if one is named, else to all.
pub fn update_route(args: &UpdateArgs) -> (route: UpdateRoute)
    ensures
        match args.component {
            Some(name) => route matches UpdateRoute::Single(meant) && meant@ == name@,
            None => route is All,
        },
{
    match &args.component {
        Some(name) => UpdateRoute::Single(name.clone()),
        None => UpdateRoute::All,
    }
}

/// An update that was called for.
#[derive(Debug)]
pub struct UpdateCall {
    pub route: UpdateRoute,
    pub settings: Config,
}

/// The way and the settings of an update: what the call of the program says goes before what is
/// configured, and that the shell be restarted before that it be not.
pub fn do_update(config: CliConfig, args: &UpdateArgs) -> (call: UpdateCall)
    ensures
        match args.component {
            Some(name) => call.route matches UpdateRoute::Single(meant) && meant@ == name@,
            None => call.route is All,
        },
        call.settings == (Config {
            auto_confirm: config.inner.auto_confirm || args.yes || config.assume_yes
                || config.update_all_by_default,
            restart: if args.restart_plasma {
                RestartBehavior::Always
            } else if args.no_restart_plasma {
                RestartBehavior::Never
            } else {
                config.inner.restart
            },
            ..config.inner
        }),
{
    let mut settings = config.inner;
    if args.yes || config.assume_yes || config.update_all_by_default {
        settings.auto_confirm = true;
    }
    if args.restart_plasma {
        settings.restart = RestartBehavior::Always;
    } else if args.no_restart_plasma {
        settings.restart = RestartBehavior::Never;
    }
    UpdateCall { route: update_route(args), settings }
}

/// Whether an update is of the component that goes by this name or stands in this directory.
pub open spec fn is_meant(update: AvailableUpdate, name: Seq<char>) -> bool {
    update.installed.name@ == name || update.installed.directory_name@ == name
}

/// The directories of the components that are not meant.
pub open spec fn others(updates: Seq<AvailableUpdate>, name: Seq<char>) -> Seq<Seq<char>>
    decreases updates.len(),
{
    if updates.len() == 0 {
        Seq::empty()
    } else if is_meant(updates.last(), name) {
        others(updates.drop_last(), name)
    } else {
        others(updates.drop_last(), name).push(updates.last().installed.directory_name@)
    }
}

/// Whether one of these updates is of the component that is meant.
pub open spec fn has_meant(updates: Seq<AvailableUpdate>, name: Seq<char>) -> bool {
    exists|i: int| 0 <= i < updates.len() && is_meant(#[trigger] updates[i], name)
}

/// The settings to update a single component with: all others are excluded, and nothing is asked.
/// `None` if there is no update of it.
pub fn do_update_single(name: &str, config: Config, found: &CheckResult) -> (r: Option<Config>)
    ensures
        if has_meant(found.available_updates@, name@) {
            &&& r matches Some(narrowed)
            &&& texts(narrowed.excluded_packages@) == texts(config.excluded_packages@) + others(
                found.available_updates@,
                name@,
            )
            &&& narrowed == (Config {
                auto_confirm: true,
                excluded_packages: narrowed.excluded_packages,
                ..config
            })
        } else {
            r is None
        },
{
    let mut narrowed = config;
    let mut excluded: Vec<String> = Vec::new();
    let mut matched = false;
    let mut i: usize = 0;
    assert(texts(excluded@) =~= others(found.available_updates@.take(0), name@));
    while i < found.available_updates.len()
        invariant
            i <= found.available_updates@.len(),
            matched == has_meant(found.available_updates@.take(i as int), name@),
            texts(excluded@) == others(found.available_updates@.take(i as int), name@),
        decreases found.available_updates@.len() - i,
    {
        let ghost seen = found.available_updates@.take(i as int);
        let ghost next = found.available_updates@.take(i + 1);
        let ghost excluded_before = excluded@;
        let update = &found.available_updates[i];
        assert(next.drop_last() == seen);
        assert(next.last() == *update);
        assert forall|j: int| 0 <= j < i implies next[j] == #[trigger] seen[j] by {}
        if same_text(update.installed.name.as_str(), name) || same_text(
            update.installed.directory_name.as_str(),
            name,
        ) {
            matched = true;
            assert(is_meant(next[i as int], name@));
        } else {
            excluded.push(update.installed.directory_name.clone());
            assert(texts(excluded@) =~= texts(excluded_before).push(
                update.installed.directory_name@,
            ));
            if matched {
                assert(has_meant(next, name@)) by {
                    let j = choose|j: int| 0 <= j < seen.len() && is_meant(#[trigger] seen[j], name@);
                    assert(is_meant(next[j], name@));
                }
            } else {
                assert forall|j: int| 0 <= j < next.len() implies !is_meant(
                    #[trigger] next[j],
                    name@,
                ) by {
                    if j < i {
                        assert(!is_meant(seen[j], name@));
                    }
                }
            }
        }
        i = i + 1;
    }
    assert(found.available_updates@.take(i as int) == found.available_updates@);
    if !matched {
        return None;
    }
    let ghost before = narrowed.excluded_packages@;
    let ghost added = excluded@;
    narrowed.excluded_packages.append(&mut excluded);
    assert(texts(before + added) =~= texts(before) + texts(added));
    narrowed.auto_confirm = true;
    Some(narrowed)
}

/// What is told where there is no update of the component that was asked for.
pub fn no_update_message(name: &str) -> (text: String)
    ensures
        text@ == "no update available for '"@ + name@ + "'"@,
{
    "no update available for '".to_owned().concat(name).concat("'")
}

proof fn lemma_others(updates: Seq<AvailableUpdate>, name: Seq<char>, directory: Seq<char>)
    ensures
        others(updates, name).contains(directory) <==> exists|i: int|
            0 <= i < updates.len() && !is_meant(#[trigger] updates[i], name)
                && updates[i].installed.directory_name@ == directory,
    decreases updates.len(),
{
    if updates.len() > 0 {
        let fewer = updates.drop_last();
        let rest = others(fewer, name);
        lemma_others(fewer, name, directory);
        let last = updates.last();
        if rest.contains(directory) {
            let i = choose|i: int|
                0 <= i < fewer.len() && !is_meant(#[trigger] fewer[i], name)
                    && fewer[i].installed.directory_name@ == directory;
            assert(updates[i] == fewer[i]);
            let at = choose|at: int| 0 <= at < rest.len() && rest[at] == directory;
            assert(rest.push(last.installed.directory_name@)[at] == directory);
        } else {
            assert forall|i: int|
                0 <= i < updates.len() && !is_meant(#[trigger] updates[i], name)
                    && updates[i].installed.directory_name@ == directory implies i
                == updates.len() - 1 by {
                if i < fewer.len() {
                    assert(fewer[i] == updates[i]);
                }
            }
            if !is_meant(last, name) && last.installed.directory_name@ == directory {
                assert(updates[updates.len() - 1] == last);
                assert(rest.push(directory)[rest.len() as int] == directory);
            }
        }
    }
}

/// With all others excluded, only updates of the component that is meant are kept; and they are,
/// unless it was excluded before or shares its directory's name with another one.
pub proof fn law_only_the_meant_component_is_kept(
    updates: Seq<AvailableUpdate>,
    name: Seq<char>,
    before: Seq<Seq<char>>,
    update: AvailableUpdate,
)
    requires
        updates.contains(update),
    ensures
        not_excluded(updates, before + others(updates, name)).contains(update) ==> is_meant(
            update,
            name,
        ),
        is_meant(update, name) && !is_excluded(update, before) && (forall|i: int|
            0 <= i < updates.len() && #[trigger] updates[i].installed.directory_name@
                == update.installed.directory_name@ ==> is_meant(updates[i], name))
            ==> not_excluded(updates, before + others(updates, name)).contains(update),
{
    let directory = update.installed.directory_name@;
    let rest = others(updates, name);
    let after = before + rest;
    law_excluded_are_dropped(updates, after, update);
    lemma_others(updates, name, directory);
    let at = choose|at: int| 0 <= at < updates.len() && updates[at] == update;
    if !is_meant(update, name) {
        assert(!is_meant(updates[at], name));
        let k = choose|k: int| 0 <= k < rest.len() && rest[k] == directory;
        assert(after[before.len() + k] == directory);
    }
    if is_excluded(update, after) && !is_excluded(update, before) {
        let k = choose|k: int| 0 <= k < after.len() && after[k] == directory;
        if k < before.len() {
            assert(before[k] == directory);
        } else {
            assert(rest[k - before.len()] == directory);
        }
        assert(rest.contains(directory));
    }
}

/// An update of a single component installs no update that the check before it saw, but those of
/// the component that is meant.
pub proof fn law_only_the_meant_component_is_installed(
    checked: Seq<AvailableUpdate>,
    name: Seq<char>,
    before: Seq<Seq<char>>,
    progress: Seq<UpdateProgress>,
    at: int,
)
    requires
        update_stage_after(
            UpdateStageView::Fetching {
                excluded: before + others(checked, name),
                auto_confirm: true,
            },
            progress,
        ) matches UpdateStageView::Installing { selected, .. } && 0 <= at < selected.len(),
    ensures
        update_stage_after(
            UpdateStageView::Fetching {
                excluded: before + others(checked, name),
                auto_confirm: true,
            },
            progress,
        ) matches UpdateStageView::Installing { updates, selected } && (checked.contains(
            updates[selected[at] as int],
        ) ==> is_meant(updates[selected[at] as int], name)),
{
    let after = before + others(checked, name);
    let start = UpdateStageView::Fetching { excluded: after, auto_confirm: true };
    law_excluded_are_never_installed(after, true, progress, at);
    if let UpdateStageView::Installing { updates, selected } = update_stage_after(start, progress) {
        let update = updates[selected[at] as int];
        if checked.contains(update) {
            law_only_the_meant_component_is_kept(checked, name, before, update);
            law_excluded_are_dropped(checked, after, update);
        }
    }
}

/// What is shown of an update that came to its end, and how the program ends.
#[derive(Debug, Clone, Copy, PartialEq, Eq, Structural)]
pub struct UpdateReport {
    pub print_summary: bool,
    pub print_error_table: bool,
    pub exit_code: ExitCode,
}

/// What to show of a full update: nothing if nothing was attempted, else a summary, and the failures
/// if there are any.
pub fn do_full_update(result: &UpdateResult) -> (report: UpdateReport)
    ensures
        report.print_summary == !nothing_attempted(*result),
        report.print_summary <==> result.succeeded@.len() + result.failed@.len()
            + result.skipped@.len() > 0,
        report.print_error_table == (result.failed@.len() > 0),
        report.exit_code == if result.failed@.len() > 0 {
            ExitCode::PartialFailure
        } else {
            ExitCode::Success
        },
{
    if result.is_empty() {
        return UpdateReport {
            print_summary: false,
            print_error_table: false,
            exit_code: ExitCode::Success,
        };
    }
    if result.has_failures() {
        UpdateReport {
            print_summary: true,
            print_error_table: true,
            exit_code: ExitCode::PartialFailure,
        }
    } else {
        UpdateReport { print_summary: true, print_error_table: false, exit_code: ExitCode::Success }
    }
}

// --- What the command line does ---

/// A configuration file is an error exactly if it is there and cannot be read or understood; the
/// message says which, and holds the path and the cause.
pub proof fn law_which_config_files_are_errors(file: ConfigFile)
    ensures
        config_file_error(file) is Some <==> file is Unreadable || file is Malformed,
        file matches ConfigFile::Unreadable { path, cause } ==> config_file_error(file) == Some(
            ErrorView::Other("failed to read config file "@ + path@ + ": "@ + cause@),
        ),
        file matches ConfigFile::Malformed { path, cause } ==> config_file_error(file) == Some(
            ErrorView::Other("failed to parse config file "@ + path@ + ": "@ + cause@),
        ),
{
}

/// Each setting of a configuration file is taken over as what it is. The shell is restarted on
/// demand or never. What a file cannot say is not set.
pub proof fn law_each_setting_is_taken_over(config: CliConfig, said: TomlConfig)
    requires
        follows(config, ConfigFile::Read(said)),
    ensures
        config.inner.excluded_packages@ == said.excluded_packages@,
        config.update_all_by_default == said.update_all_by_default,
        config.assume_yes == said.assume_yes,
        config.inner.restart is Prompt <==> said.prompt_restart,
        config.inner.restart is Never <==> !said.prompt_restart,
        config.inner.threads == said.max_threads,
        !config.inner.system,
        !config.inner.skip_plasma_detection,
        !config.inner.auto_confirm,
{
}

/// Without a configuration file nothing is excluded, nothing is assumed, the shell is not
/// restarted, and the number of threads is left open.
pub proof fn law_settings_without_a_file(config: CliConfig, file: ConfigFile)
    requires
        follows(config, file),
        file is NoDirectory || file is Missing,
    ensures
        config.inner.excluded_packages@.len() == 0,
        !config.update_all_by_default,
        !config.assume_yes,
        config.inner.restart is Never,
        config.inner.threads is None,
        !config.inner.system,
        !config.inner.skip_plasma_detection,
        !config.inner.auto_confirm,
{
}

/// A configuration file that has keys says what it was decoded to, and is malformed exactly if it
/// could not be decoded, with the message of that. One without keys is never malformed.
pub proof fn law_what_a_config_file_says(
    file: ConfigFile,
    keys: Option<usize>,
    path: Seq<char>,
    decoded: Result<TomlConfig, String>,
)
    requires
        is_said(file, keys, path, decoded),
    ensures
        file is Read || file is Malformed,
        file is Malformed <==> keys != Some(0usize) && decoded is Err,
        file matches ConfigFile::Malformed { path: p, cause } ==> p@ == path && cause@
            == decoded->Err_0@,
        file matches ConfigFile::Read(said) ==> (keys != Some(0usize) ==> said == decoded->Ok_0),
        file matches ConfigFile::Read(said) ==> (keys == Some(0usize)
            ==> said.excluded_packages@.len() == 0 && !said.update_all_by_default
            && !said.assume_yes && !said.prompt_restart && said.max_threads is None),
{
}

/// A failure ends the editing with an error that says what failed, on what, and why; whatever else
/// comes of a stage, there is no error.
pub proof fn law_editing_fails_with_its_cause(stage: EditStageView, event: EditEvent)
    ensures
        ({
            let next = next_edit_stage(stage, event);
            &&& event matches EditEvent::Failed { subject, cause } ==> {
                &&& stage is CreatingDirectory ==> next == EditStageView::Finished(
                    Err(
                        ErrorView::Other(
                            "failed to create config directory "@ + subject@ + ": "@ + cause@,
                        ),
                    ),
                )
                &&& stage is Writing ==> next == EditStageView::Finished(
                    Err(
                        ErrorView::Other(
                            "failed to create config file "@ + subject@ + ": "@ + cause@,
                        ),
                    ),
                )
                &&& stage is Opening ==> next == EditStageView::Finished(
                    Err(ErrorView::Other("failed to open editor "@ + subject@ + ": "@ + cause@)),
                )
            }
            &&& !(event is Failed) && !(stage is Finished) ==> !(next matches
                EditStageView::Finished(result) && result is Err)
            &&& stage is Finished ==> next == stage
        }),
{
}

/// The editing comes to a good end only when the editor was opened and closed.
pub proof fn law_editing_ends_with_the_editor(events: Seq<EditEvent>)
    ensures
        edit_stage_after(events) == EditStageView::Finished(Ok(())) ==> exists|i: int|
            0 <= i < events.len() && (#[trigger] events[i]) is Closed,
    decreases events.len(),
{
    if events.len() > 0 {
        let before = events.drop_last();
        law_editing_ends_with_the_editor(before);
        if edit_stage_after(before) == EditStageView::Finished(Ok(())) {
            let i = choose|i: int| 0 <= i < before.len() && (#[trigger] before[i]) is Closed;
            assert(events[i] is Closed);
        } else if edit_stage_after(events) == EditStageView::Finished(Ok(())) {
            assert(events[events.len() - 1] is Closed);
        }
    }
}

/// A file that exists is opened at once. One that is missing is written first, and its directory is
/// created before that, if it has one. When all goes well, the editor is closed in the end, with
/// whatever status.
pub proof fn law_course_of_editing(exists: bool, has_parent: bool, success: bool)
    ensures
        ({
            let looked = EditEvent::Looked { exists, has_parent };
            let closed = EditEvent::Closed { success };
            let done = EditEvent::Done;
            let end = EditStageView::Finished(Ok(()));
            &&& exists ==> edit_stage_after(seq![looked]) is Opening && edit_stage_after(
                seq![looked, closed],
            ) == end
            &&& !exists && has_parent ==> edit_stage_after(seq![looked]) is CreatingDirectory
                && edit_stage_after(seq![looked, done]) is Writing && edit_stage_after(
                seq![looked, done, done],
            ) is Opening && edit_stage_after(seq![looked, done, done, closed]) == end
            &&& !exists && !has_parent ==> edit_stage_after(seq![looked]) is Writing
                && edit_stage_after(seq![looked, done]) is Opening && edit_stage_after(
                seq![looked, done, closed],
            ) == end
        }),
{
    reveal_with_fuel(edit_stage_after, 5);
    let looked = EditEvent::Looked { exists, has_parent };
    let closed = EditEvent::Closed { success };
    let done = EditEvent::Done;
    assert(seq![looked].drop_last() =~= Seq::empty());
    assert(seq![looked, closed].drop_last() =~= seq![looked]);
    assert(seq![looked, done].drop_last() =~= seq![looked]);
    assert(seq![looked, done, done].drop_last() =~= seq![looked, done]);
    assert(seq![looked, done, closed].drop_last() =~= seq![looked, done]);
    assert(seq![looked, done, done, closed].drop_last() =~= seq![looked, done, done]);
}

/// What the call of the program says goes before the configuration file: the number of threads only
/// if it is given there. Every other setting stays.
pub proof fn law_call_goes_before_the_file(config: CliConfig, options: Options)
    ensures
        ({
            let called = with_call(config, options);
            &&& called.inner.system == options.system
            &&& called.inner.skip_plasma_detection == options.skip_plasma_detection
            &&& options.max_threads is Some ==> called.inner.threads == options.max_threads
            &&& options.max_threads is None ==> called.inner.threads == config.inner.threads
            &&& called.inner.excluded_packages == config.inner.excluded_packages
            &&& called.inner.restart == config.inner.restart
            &&& called.inner.widgets_id_table == config.inner.widgets_id_table
            &&& called.inner.auto_confirm == config.inner.auto_confirm
            &&& called.update_all_by_default == config.update_all_by_default
            &&& called.assume_yes == config.assume_yes
        }),
{
}

/// The user is authenticated exactly if the program that asks for the password was run and said so.
/// Otherwise the error says whether it could not be run, and why, or did not say so.
pub proof fn law_who_is_authenticated(outcome: SudoOutcome)
    ensures
        sudo_error(outcome) is None <==> (outcome matches SudoOutcome::Exited { success }
            && success),
        outcome matches SudoOutcome::NotRun { cause } ==> sudo_error(outcome) == Some(
            ErrorView::Other("failed to run sudo: "@ + cause@),
        ),
        outcome matches SudoOutcome::Exited { success } ==> (!success ==> sudo_error(outcome)
            == Some(ErrorView::Other("sudo authentication failed"@))),
{
}

/// A command runs as it was given. Without one, all components are updated, with nothing said of a
/// restart and nothing confirmed.
pub proof fn law_which_command_runs(system: bool, is_root: bool, command: Option<Command>)
    ensures
        ({
            let start = command_start(system, is_root, command);
            let meant = match start {
                CommandStageView::Authenticating(c) => Some(c),
                CommandStageView::Running(c) => Some(c),
                CommandStageView::Failed(_) => None,
            };
            &&& start is Authenticating <==> system && !is_root
            &&& start is Running <==> !system || is_root
            &&& command is Some ==> meant == command
            &&& command is None ==> (meant matches Some(Command::Update(args))
                && args.component is None && !args.restart_plasma && !args.no_restart_plasma
                && !args.yes)
        }),
{
}

/// The directories that a single update excludes are those of all updates of other components, by
/// name and by directory, in order.
pub proof fn law_all_others_are_excluded(updates: Seq<AvailableUpdate>, name: Seq<char>)
    ensures
        others(updates, name) == updates.filter(
            |u: AvailableUpdate|
                u.installed.name@ != name && u.installed.directory_name@ != name,
        ).map_values(|u: AvailableUpdate| u.installed.directory_name@),
        has_meant(updates, name) <==> exists|i: int|
            0 <= i < updates.len() && ((#[trigger] updates[i]).installed.name@ == name
                || updates[i].installed.directory_name@ == name),
    decreases updates.len(),
{
    reveal(Seq::filter);
    let other = |u: AvailableUpdate|
        u.installed.name@ != name && u.installed.directory_name@ != name;
    let directory = |u: AvailableUpdate| u.installed.directory_name@;
    if updates.len() > 0 {
        let fewer = updates.drop_last();
        let last = updates.last();
        law_all_others_are_excluded(fewer, name);
        assert(fewer.filter(other).push(last).map_values(directory) =~= fewer.filter(
            other,
        ).map_values(directory).push(directory(last)));
    } else {
        assert(updates.filter(other).map_values(directory) =~= Seq::empty());
    }
    if exists|i: int|
        0 <= i < updates.len() && ((#[trigger] updates[i]).installed.name@ == name
            || updates[i].installed.directory_name@ == name) {
        let i = choose|i: int|
            0 <= i < updates.len() && ((#[trigger] updates[i]).installed.name@ == name
                || updates[i].installed.directory_name@ == name);
        assert(is_meant(updates[i], name));
    }
    if has_meant(updates, name) {
        let i = choose|i: int| 0 <= i < updates.len() && is_meant(#[trigger] updates[i], name);
        assert(updates[i].installed.name@ == name || updates[i].installed.directory_name@ == name);
    }
}

} // verus!
