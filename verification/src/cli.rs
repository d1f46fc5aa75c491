//! What the command line asks for.

use crate::config::Config;
use crate::config_file::EXAMPLE_TOML;
use crate::text::{self, join2};
use vstd::prelude::*;

verus! {

/// What the command line asks for.
#[derive(Debug, Clone, PartialEq, Eq)]
pub struct Cli {
    /// Where the file of settings is, if it is not where it usually is.
    pub config: Option<String>,
    pub command: Option<Command>,
}

/// Something to do other than to open the player.
#[derive(Debug, Clone, Copy, PartialEq, Eq, Structural)]
pub enum Command {
    /// Print the playlists and exit.
    Playlists,
    /// Write the file of settings and open it.
    Config {
        /// Write it and print where it is, without opening it.
        no_edit: bool,
    },
    /// Look after what is kept.
    Cache { action: CacheAction },
}

/// What to do with what is kept.
#[derive(Debug, Clone, Copy, PartialEq, Eq, Structural)]
pub enum CacheAction {
    /// Forget all of it.
    Clear,
}

impl Cli {
    /// The settings have to be read first. Only the command that repairs them does
    /// without: it must run where they cannot be read.
    pub open spec fn needs_settings(self) -> bool {
        !(self.command matches Some(Command::Config { .. }))
    }

    /// Whether the settings have to be read first.
    pub fn reads_settings(&self) -> (r: bool)
        ensures
            r == self.needs_settings(),
    {
        match self.command {
            Some(Command::Config { .. }) => false,
            _ => true,
        }
    }

    /// Where the settings are: where the command line says, whatever else it asks for, and
    /// else below the directory for them.
    pub fn settings_path(&self, config_dir: &str) -> (r: String)
        ensures
            r@ == match self.config {
                Some(p) => p@,
                None => text::path_joined(config_dir@, "config.toml"@),
            },
    {
        match &self.config {
            Some(p) => p.clone(),
            None => Config::default_path(config_dir),
        }
    }
}

/// How the file of settings at a path is opened: what is said of it, and what is written
/// there first. One that is there is never overwritten.
pub fn open_settings(path: &str, existed: bool) -> (r: (String, Option<&'static str>))
    ensures
        r.0@ == (if existed {
            "config: "@
        } else {
            "config written: "@
        }) + path@,
        match r.1 {
            Some(text) => !existed && text@ == EXAMPLE_TOML@,
            None => existed,
        },
{
    if existed {
        (join2("config: ", path), None)
    } else {
        (join2("config written: ", path), Some(EXAMPLE_TOML))
    }
}

} // verus!
