//! The configuration of the daemon.

use vstd::prelude::*;

use crate::paths::{config_path, copy_bytes, get_default_config_path, path_result};
use crate::text::copy_text;

verus! {

/// The settings of the daemon.
#[derive(Debug)]
pub struct Config {
    /// Sort tray items alphabetically by title.
    pub sorting: bool,
}

/// Whether tray items are sorted where the configuration does not say.
pub fn sorting_default() -> (r: bool)
    ensures
        r == false,
{
    false
}

impl Default for Config {
    fn default() -> (r: Self)
        ensures
            r.sorting == false,
    {
        Config { sorting: sorting_default() }
    }
}

/// What was found at the path of the configuration file.
#[derive(Debug)]
pub enum ConfigFile {
    /// There is no file; its path, as text.
    Absent(String),
    /// The file cannot be read or is no configuration; why.
    Unreadable(String),
    /// The file is a configuration, which may say whether to sort.
    Parsed(Option<bool>),
}

/// The configuration, or the message for there being none, given whether the
/// user asked for a file and what was found. A file that the user asked for has
/// to be there; the default one need not.
pub open spec fn configuration(asked_for: bool, file: ConfigFile) -> Result<
    Config,
    Seq<char>,
> {
    match file {
        ConfigFile::Parsed(Some(sorting)) => Ok(Config { sorting }),
        ConfigFile::Parsed(None) => Ok(Config { sorting: false }),
        ConfigFile::Unreadable(message) => Err(message@),
        ConfigFile::Absent(p) => if asked_for {
            Err("configuration file \""@ + p@ + "\" not found"@)
        } else {
            Ok(Config { sorting: false })
        },
    }
}

impl Config {
    /// The path of the file to load: the one that the user asks for, else the
    /// default one.
    pub fn file_to_load(path: &Option<Vec<u8>>) -> (r: Result<Vec<u8>, String>)
        ensures
            match *path {
                Some(p) => path_result(r) == Ok::<Seq<u8>, Seq<char>>(p@),
                None => exists|config: Option<Seq<u8>>|
                    path_result(r) == #[trigger] config_path(config),
            },
    {
        match path {
            Some(p) => Ok(copy_bytes(p)),
            None => get_default_config_path(),
        }
    }

    /// The configuration, given the path that the user asks for and what was
    /// found at the path of the file to load.
    pub fn new(path: &Option<Vec<u8>>, file: &ConfigFile) -> (r: Result<Config, String>)
        ensures
            match r {
                Ok(config) => configuration(*path is Some, *file) == Ok::<
                    Config,
                    Seq<char>,
                >(config),
                Err(message) => configuration(*path is Some, *file) == Err::<
                    Config,
                    Seq<char>,
                >(message@),
            },
    {
        match file {
            ConfigFile::Parsed(Some(sorting)) => Ok(Config { sorting: *sorting }),
            ConfigFile::Parsed(None) => Ok(Config::default()),
            ConfigFile::Unreadable(message) => Err(message.clone()),
            ConfigFile::Absent(p) => match path {
                None => Ok(Config::default()),
                Some(_) => {
                    let mut message = copy_text("configuration file \"");
                    message.append(p.as_str());
                    message.append("\" not found");
                    Err(message)
                },
            },
        }
    }
}

} // verus!
