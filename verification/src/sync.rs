//! What the client stores between runs: the API token, kept in the OS
//! keychain, and the task list of the last listing, kept as a text file
//! with one task identifier per line.

use vstd::prelude::*;
use crate::text::{join, join_strings, lemma_line_of_join, lemma_lines_of_join, lemma_trim_idempotent, lines, no_newline, split_lines, strip_cr, trim, trim_str, views};

verus! {

/// The keychain service under which the token is kept.
pub open spec fn keychain_service() -> Seq<char> {
    "todo-cli"@
}

/// The keychain account under which the token is kept.
pub open spec fn keychain_account() -> Seq<char> {
    "todoist-api-token"@
}

/// The keychain entry that holds the API token.
#[derive(Clone, Debug)]
pub struct KeychainEntry {
    pub service: String,
    pub account: String,
}

/// A password to store in a keychain entry.
#[derive(Clone, Debug)]
pub struct KeychainWrite {
    pub entry: KeychainEntry,
    pub password: String,
}

/// Why the keychain could not be used; each cause as the keychain gave it.
#[derive(Clone, Debug)]
pub enum KeychainError {
    /// The keychain entry could not be opened.
    EntryUnavailable { cause: String },
    /// The token could not be read from the entry.
    ReadFailed { cause: String },
    /// The token could not be written to the entry.
    WriteFailed { cause: String },
}

/// The keychain entry that holds the API token.
pub fn keychain_entry() -> (r: KeychainEntry)
    ensures
        r.service@ == keychain_service(),
        r.account@ == keychain_account(),
{
    KeychainEntry { service: String::from_str("todo-cli"), account: String::from_str("todoist-api-token") }
}

/// What saving the API token writes: the token, as given, to the token's
/// keychain entry.
pub fn save_token(token: &str) -> (r: KeychainWrite)
    ensures
        r.entry.service@ == keychain_service(),
        r.entry.account@ == keychain_account(),
        r.password@ == token@,
{
    KeychainWrite { entry: keychain_entry(), password: String::from_str(token) }
}

/// The token read from the keychain as a plain value.
pub open spec fn token_outcome(r: Result<String, KeychainError>) -> Result<Seq<char>, KeychainError> {
    match r {
        Ok(t) => Ok(t@),
        Err(e) => Err(e),
    }
}

/// The API token given what the keychain entry held: the stored password
/// with surrounding white space removed, or the keychain's error.
pub open spec fn spec_get_token(stored: Result<Seq<char>, KeychainError>) -> Result<Seq<char>, KeychainError> {
    match stored {
        Ok(p) => Ok(trim(p)),
        Err(e) => Err(e),
    }
}

/// The API token given what reading the keychain entry gave.
pub fn get_token(stored: Result<String, KeychainError>) -> (r: Result<String, KeychainError>)
    ensures
        token_outcome(r) == spec_get_token(token_outcome(stored)),
{
    match stored {
        Ok(p) => Ok(trim_str(p.as_str())),
        Err(e) => Err(e),
    }
}

/// Reading the token back after saving `token` gives `token` without its
/// surrounding white space, when the keychain gives back what was written;
/// saving the token so read and reading it again gives the same token.
pub proof fn lemma_token_round_trip(token: Seq<char>)
    ensures
        spec_get_token(Ok(token)) == Ok::<Seq<char>, KeychainError>(trim(token)),
        spec_get_token(Ok(trim(token))) == Ok::<Seq<char>, KeychainError>(trim(token)),
{
    lemma_trim_idempotent(token);
}

/// The name of the file that keeps the task list.
pub open spec fn task_ids_file() -> Seq<char> {
    "task_ids.txt"@
}

/// The name of the file that keeps the task list.
pub fn task_ids_file_name() -> (r: &'static str)
    ensures
        r@ == task_ids_file(),
{
    "task_ids.txt"
}

/// The text of the task list file: the identifiers joined with newlines.
pub open spec fn task_ids_text(ids: Seq<Seq<char>>) -> Seq<char> {
    join(ids, seq!['\n'])
}

/// The text written to the task list file for the given identifiers.
pub fn task_ids_content(task_ids: &Vec<String>) -> (r: String)
    ensures
        r@ == task_ids_text(views(task_ids@)),
{
    let r = join_strings(task_ids, "\n");
    proof {
        reveal_strlit("\n");
        assert("\n"@ =~= seq!['\n']);
    }
    r
}

/// The identifiers kept in the text of the task list file: its lines.
pub fn parse_task_ids(content: &str) -> (r: Vec<String>)
    ensures
        views(r@) == lines(content@),
{
    split_lines(content)
}

/// Identifiers that survive a round trip through the task list file: none
/// holds a newline, none but the last ends in a carriage return, and the
/// last is not empty.
pub open spec fn storable_ids(ids: Seq<Seq<char>>) -> bool {
    &&& forall|i: int| 0 <= i < ids.len() ==> no_newline(#[trigger] ids[i])
    &&& forall|i: int| 0 <= i < ids.len() - 1 ==> strip_cr(#[trigger] ids[i]) == ids[i]
    &&& ids.len() > 0 ==> ids.last().len() > 0
}

/// Reading the task list file gives back the identifiers that were written
/// to it, for identifiers that the file can hold.
pub proof fn lemma_task_ids_round_trip(ids: Seq<Seq<char>>)
    requires
        storable_ids(ids),
    ensures
        lines(task_ids_text(ids)) == ids,
{
    lemma_lines_of_join(ids);
}


/// The identifier at index `i` of a stored task list reads back as the one
/// written there, whatever the identifiers after it are: it suffices that
/// no identifier up to it holds a newline, and that it does not end in a
/// carriage return unless it is the last, nor is empty if it is the last.
pub proof fn lemma_listed_index_resolves(ids: Seq<Seq<char>>, i: int)
    requires
        0 <= i < ids.len(),
        forall|j: int| 0 <= j <= i ==> no_newline(#[trigger] ids[j]),
        i < ids.len() - 1 ==> strip_cr(ids[i]) == ids[i],
        i == ids.len() - 1 ==> ids[i].len() > 0,
    ensures
        lines(task_ids_text(ids)).len() > i,
        lines(task_ids_text(ids))[i] == ids[i],
{
    lemma_line_of_join(ids, i);
}

/// Where the file-based configuration directory is based.
#[derive(Clone, Copy, Debug, PartialEq, Eq, Structural)]
pub enum ConfigBase {
    /// The directory that `XDG_CONFIG_HOME` names.
    XdgConfigHome,
    /// The `.config` directory under the directory that `HOME` names.
    HomeDotConfig,
}

/// Why the configuration directory could not be found.
#[derive(Clone, Copy, Debug, PartialEq, Eq, Structural)]
pub enum ConfigError {
    /// Neither `XDG_CONFIG_HOME` nor `HOME` is set.
    HomeNotSet,
}

/// The base of the configuration directory, given which of the
/// environment variables `XDG_CONFIG_HOME` and `HOME` are set: the first
/// one that is set, else an error.
pub fn config_base(xdg_config_home_set: bool, home_set: bool) -> (r: Result<ConfigBase, ConfigError>)
    ensures
        xdg_config_home_set ==> r == Ok::<ConfigBase, ConfigError>(ConfigBase::XdgConfigHome),
        !xdg_config_home_set && home_set ==> r == Ok::<ConfigBase, ConfigError>(ConfigBase::HomeDotConfig),
        !xdg_config_home_set && !home_set ==> r == Err::<ConfigBase, ConfigError>(ConfigError::HomeNotSet),
{
    if xdg_config_home_set {
        Ok(ConfigBase::XdgConfigHome)
    } else if home_set {
        Ok(ConfigBase::HomeDotConfig)
    } else {
        Err(ConfigError::HomeNotSet)
    }
}

/// The directory under `HOME` that holds configuration.
pub fn home_config_subdir() -> (r: &'static str)
    ensures
        r@ == ".config"@,
{
    ".config"
}

/// The directory of the client within the configuration directory.
pub fn config_dir_name() -> (r: &'static str)
    ensures
        r@ == "todoist"@,
{
    "todoist"
}

/// The file of the token within the client's configuration directory.
pub fn token_file_name() -> (r: &'static str)
    ensures
        r@ == "auth.txt"@,
{
    "auth.txt"
}

/// The message of a keychain error, as the command reports it: the
/// keychain's own words when the entry cannot be opened, otherwise what
/// failed.
pub open spec fn keychain_message(e: KeychainError) -> Seq<char> {
    match e {
        KeychainError::EntryUnavailable { cause } => cause@,
        KeychainError::ReadFailed { .. } => "failed to read token from OS keychain"@,
        KeychainError::WriteFailed { .. } => "failed to save token in OS keychain"@,
    }
}

impl KeychainError {
    /// The message that the command reports for this error.
    pub fn message(&self) -> (r: String)
        ensures
            r@ == keychain_message(*self),
    {
        match self {
            KeychainError::EntryUnavailable { cause } => cause.clone(),
            KeychainError::ReadFailed { .. } => String::from_str("failed to read token from OS keychain"),
            KeychainError::WriteFailed { .. } => String::from_str("failed to save token in OS keychain"),
        }
    }
}

/// What the `auth` command prints once the token is saved.
pub fn token_saved_message() -> (r: &'static str)
    ensures
        r@ == "Successfully saved token."@,
{
    "Successfully saved token."
}

impl ConfigError {
    /// The message of the error.
    pub fn message(&self) -> (r: String)
        ensures
            r@ == "HOME is not set"@,
    {
        String::from_str("HOME is not set")
    }
}

} // verus!
