//! The engine's configuration and how it is arrived at.

use vstd::prelude::*;
use crate::defs::DEFAULT_MOUNT_SOURCE;
use crate::error::EngineError;

verus! {

#[derive(Debug, Clone, PartialEq, Eq)]
pub struct Config {
    /// The source name of the mounts.
    pub mountsource: String,
    /// Partitions to overlay beside the built-in ones.
    pub partitions: Vec<String>,
    /// Whether mounts are registered for hiding.
    pub umount: bool,
}

/// The mount source of a configuration that names none.
pub fn default_mountsource() -> (s: String)
    ensures
        s@ == DEFAULT_MOUNT_SOURCE@,
{
    String::from_str(DEFAULT_MOUNT_SOURCE)
}

impl Default for Config {
    /// The default mount source, no extra partitions, no hiding.
    fn default() -> (c: Config)
        ensures
            c.mountsource@ == DEFAULT_MOUNT_SOURCE@,
            c.partitions@.len() == 0,
            !c.umount,
    {
        Config { mountsource: default_mountsource(), partitions: Vec::new(), umount: false }
    }
}

/// What became of the configuration file.
#[derive(Debug, Clone, PartialEq, Eq)]
pub enum ConfigSource {
    /// The file could not be read.
    Unreadable,
    /// The file was read, but is no valid configuration.
    Malformed,
    /// The file was read and holds this configuration.
    Parsed(Config),
}

impl Config {
    /// The configuration to run with, given what became of the file: the one
    /// it holds; the default one where its content is malformed; a failure
    /// where it could not be read.
    pub fn load(source: ConfigSource) -> (r: Result<Config, EngineError>)
        ensures
            match source {
                ConfigSource::Unreadable => r matches Err(EngineError::ConfigUnreadable),
                ConfigSource::Malformed => r matches Ok(c) && c.mountsource@
                    == DEFAULT_MOUNT_SOURCE@ && c.partitions@.len() == 0 && !c.umount,
                ConfigSource::Parsed(parsed) => r matches Ok(c) && c == parsed,
            },
    {
        match source {
            ConfigSource::Unreadable => Err(EngineError::ConfigUnreadable),
            ConfigSource::Malformed => Ok(Config::default()),
            ConfigSource::Parsed(parsed) => Ok(parsed),
        }
    }
}

/// The configuration to run with, whatever became of the file: where
/// `Config::load` fails, the default one.
pub fn load_config(source: ConfigSource) -> (c: Config)
    ensures
        match source {
            ConfigSource::Parsed(parsed) => c == parsed,
            _ => c.mountsource@ == DEFAULT_MOUNT_SOURCE@ && c.partitions@.len() == 0 && !c.umount,
        },
{
    match Config::load(source) {
        Ok(config) => config,
        Err(_) => Config::default(),
    }
}

} // verus!
