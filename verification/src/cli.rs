//! The command line: which configuration file to read and what to do with it.

use vstd::prelude::*;

use crate::text::to_string;

verus! {

/// What to do with the configuration.
#[derive(Debug, Clone, Copy, PartialEq, Eq, Structural)]
pub enum Command {
    /// Apply the configuration to this router, or only print the commands (`dry_run`).
    Apply { dry_run: bool },
    /// Validate the configuration and report every error and warning.
    Check,
}

/// The parsed command line.
#[derive(Debug)]
pub struct Cli {
    pub config: Option<String>,
    pub command: Option<Command>,
}

/// The configuration file read when none is given.
pub open spec fn default_config_path() -> Seq<char> {
    "splot.yml"@
}

impl Cli {
    /// The configuration file: the one given, else `splot.yml`.
    pub fn config_path(&self) -> (r: String)
        ensures
            r@ == match self.config {
                Some(c) => c@,
                None => default_config_path(),
            },
    {
        match &self.config {
            Some(c) => c.clone(),
            None => to_string("splot.yml"),
        }
    }

    /// The command, if one was given.
    pub fn command(&self) -> (r: Option<&Command>)
        ensures
            match self.command {
                Some(c) => r == Some(&c),
                None => r is None,
            },
    {
        match &self.command {
            Some(c) => Some(c),
            None => None,
        }
    }
}

} // verus!
