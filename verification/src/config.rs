//! Settings: the command line's, and those that the user's global
//! version-control configuration holds for this tool.

use crate::engine::{config_string, find_global_config, open_config};
use vstd::prelude::*;

verus! {

/// What the command line says about where to search.
#[derive(Debug)]
pub struct Arguments {
    /// The directory to search in.
    pub directory: String,
    /// Whether to search in the configured default folder instead.
    pub default: bool,
}

/// The settings of this tool in the user's configuration.
#[derive(Debug)]
pub struct GitLeaveConfig {
    /// The folder to search in by default. It is never the empty string.
    pub default_folder: Option<String>,
}

impl GitLeaveConfig {
    /// A setting that is present is not empty.
    pub open spec fn wf(&self) -> bool {
        self.default_folder matches Some(folder) ==> folder@.len() > 0
    }
}

/// The configuration key of the default folder.
pub const CONFIG_KEY_DEFAULT_FOLDER: &'static str = "leaveTool.defaultFolder";

/// A value as a setting: an empty value is as good as none.
pub open spec fn setting_of(value: Option<String>) -> Option<String> {
    match value {
        Some(text) => if text@.len() == 0 {
            None
        } else {
            Some(text)
        },
        None => None,
    }
}

/// Turns a value into a setting: an empty value is as good as none.
pub fn as_setting(value: Option<String>) -> (setting: Option<String>)
    ensures
        setting == setting_of(value),
{
    match value {
        Some(text) => {
            if text.as_str().is_empty() {
                None
            } else {
                Some(text)
            }
        },
        None => None,
    }
}

/// The setting that `config` holds under `key`, if it holds one that is not
/// empty.
pub fn get_key_string_value(config: &git2::Config, key: &str) -> (setting: Option<String>)
    ensures
        setting matches Some(text) ==> text@.len() > 0,
{
    as_setting(config_string(config, key))
}

/// What looking for the user's settings gave.
#[derive(Debug)]
pub enum ConfigLookup {
    /// The user has no global configuration file.
    NoFile,
    /// There is one, and it cannot be opened; `message` is the engine's word
    /// on why.
    Unreadable { message: String },
    /// The settings.
    Found(GitLeaveConfig),
}

impl ConfigLookup {
    /// The settings, where they were found.
    pub open spec fn config(self) -> Option<GitLeaveConfig> {
        match self {
            ConfigLookup::Found(found) => Some(found),
            _ => None,
        }
    }

    /// The settings, where they were found. A file that is missing and one
    /// that cannot be opened both give none.
    pub fn into_config(self) -> (config: Option<GitLeaveConfig>)
        ensures
            config == self.config(),
    {
        match self {
            ConfigLookup::Found(found) => Some(found),
            _ => None,
        }
    }
}

/// What a lookup amounts to: `read` is `None` where there is no file, else
/// what reading the file gave.
pub open spec fn lookup_of(read: Option<Result<GitLeaveConfig, String>>) -> ConfigLookup {
    match read {
        None => ConfigLookup::NoFile,
        Some(Err(message)) => ConfigLookup::Unreadable { message },
        Some(Ok(found)) => ConfigLookup::Found(found),
    }
}

/// Tells the three ends of a lookup apart.
pub fn classify_lookup(read: Option<Result<GitLeaveConfig, String>>) -> (lookup: ConfigLookup)
    ensures
        lookup == lookup_of(read),
{
    match read {
        None => ConfigLookup::NoFile,
        Some(Err(message)) => ConfigLookup::Unreadable { message },
        Some(Ok(found)) => ConfigLookup::Found(found),
    }
}

/// The settings of this tool in the configuration file at `path`, or the
/// engine's message where the file cannot be opened.
pub fn read_config(path: &std::path::PathBuf) -> (config: Result<GitLeaveConfig, String>)
    ensures
        config matches Ok(found) ==> found.wf(),
{
    match open_config(path) {
        Ok(config) => Ok(
            GitLeaveConfig {
                default_folder: get_key_string_value(&config, CONFIG_KEY_DEFAULT_FOLDER),
            },
        ),
        Err(message) => Err(message),
    }
}

/// Looks for the settings of this tool in the user's global configuration
/// file, and says which of three things holds: there is no such file, it
/// cannot be opened, or here are the settings.
pub fn find_related_config() -> (lookup: ConfigLookup)
    ensures
        lookup matches ConfigLookup::Found(found) ==> found.wf(),
{
    let read = match find_global_config() {
        Some(path) => Some(read_config(&path)),
        None => None,
    };
    classify_lookup(read)
}

/// The settings of this tool in the user's global configuration file; `None`
/// where there is no such file or it cannot be opened. `find_related_config`
/// tells the two apart.
pub fn get_related_config() -> (config: Option<GitLeaveConfig>)
    ensures
        config matches Some(found) ==> found.wf(),
{
    find_related_config().into_config()
}

/// Where to search: the configured default folder where the command line
/// asks for it and the configuration names one, else the directory that the
/// command line names.
pub open spec fn search_directory_of(args: Arguments, config: Option<GitLeaveConfig>) -> String {
    match config {
        Some(found) if args.default && found.default_folder is Some => {
            found.default_folder.unwrap()
        },
        _ => args.directory,
    }
}

/// Picks the directory to search in.
pub fn search_directory(args: &Arguments, config: &Option<GitLeaveConfig>) -> (directory: String)
    ensures
        directory == search_directory_of(*args, *config),
{
    if args.default {
        match config {
            Some(found) => match &found.default_folder {
                Some(folder) => { return folder.clone(); },
                None => {},
            },
            None => {},
        }
    }
    args.directory.clone()
}

} // verus!
