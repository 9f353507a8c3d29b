use vstd::prelude::*;

use crate::config::{Config, ConfigView};
use crate::error::{Error, ErrorView};
use crate::render::rounded_table;

verus! {

/// How much is logged.
#[derive(Debug, Clone, Copy, PartialEq, Eq, Structural)]
pub enum LogLevel {
    Info,
    Debug,
    Trace,
}

/// How often the flags for more and for no logging were given.
#[derive(Debug)]
pub struct Verbosity {
    /// Increases the verbosity level: once for INFO (the default), twice for
    /// DEBUG, three times for TRACE.
    pub verbose: u8,
    /// Silences all logging.
    pub quiet: u8,
}

impl Verbosity {
    /// The level that is logged at, or nothing where logging is silenced.
    /// Silence wins over verbosity.
    pub open spec fn level(self) -> Option<LogLevel> {
        if self.quiet > 0 {
            None
        } else if self.verbose >= 3 {
            Some(LogLevel::Trace)
        } else if self.verbose == 2 {
            Some(LogLevel::Debug)
        } else {
            Some(LogLevel::Info)
        }
    }

    /// Converts the verbosity settings into a log level.
    pub fn as_level_filter(&self) -> (level: Option<LogLevel>)
        ensures
            level == self.level(),
    {
        if self.quiet > 0 {
            return None;
        }
        Some(
            if self.verbose >= 3 {
                LogLevel::Trace
            } else if self.verbose == 2 {
                LogLevel::Debug
            } else {
                LogLevel::Info
            },
        )
    }
}

/// What the user asks for.
#[derive(Debug)]
pub enum Commands {
    /// Looks at the link files again and schedules the creation of the
    /// missing ones.
    Refresh,
    /// Lists all aliases and their descriptions.
    Display,
    /// Adds an alias to the table.
    Add {
        /// The alias.
        alias: String,
        /// An optional description for the alias.
        description: Option<String>,
        /// The command to run in place of the alias.
        cmd: String,
        /// Replaces the alias if it is already there.
        force: bool,
    },
    /// Removes an alias from the table.
    Remove { alias: String },
}

/// A parsed command line.
#[derive(Debug)]
pub struct Cli {
    pub verbose: Verbosity,
    pub subcommand: Commands,
}

impl Cli {
    /// The table after the command, where the link files of the aliases in
    /// `present` were found on disk.
    pub open spec fn outcome(self, table: ConfigView, present: Seq<Seq<char>>) -> ConfigView {
        match self.subcommand {
            Commands::Refresh => table.refreshed(present),
            Commands::Display => table,
            Commands::Add { alias, description, cmd, force } => table.created(
                alias@,
                cmd@,
                description.deep_view(),
                force,
                present,
            ),
            Commands::Remove { alias } => table.removed(alias@),
        }
    }

    /// The error of the command: only adding an alias that is already there,
    /// without force, is one.
    pub open spec fn failure(self, table: ConfigView) -> Option<ErrorView> {
        match self.subcommand {
            Commands::Add { alias, description, cmd, force } => if !force && table.contains(
                alias@,
            ) {
                Some(ErrorView::AliasExists(alias@))
            } else {
                None
            },
            _ => None,
        }
    }

    /// Whether the command prints a listing of `table`.
    pub open spec fn lists(self, table: ConfigView) -> bool {
        self.subcommand is Display && table.records.len() > 0
    }

    /// Carries out the command on `table`, where the link files of the
    /// aliases in `present` were found on disk, and returns the listing to
    /// print, if the command gives one.
    pub fn run(&self, table: &mut Config, present: &Vec<String>) -> (result: Result<
        Option<String>,
        Error,
    >)
        ensures
            final(table)@ == self.outcome(old(table)@, present.deep_view()),
            old(table)@.wf() ==> final(table)@.wf(),
            match result {
                Ok(listing) => {
                    &&& self.failure(old(table)@) is None
                    &&& listing is Some <==> self.lists(old(table)@)
                    &&& listing matches Some(text) ==> text@ == rounded_table(old(table)@.rows())
                },
                Err(error) => self.failure(old(table)@) == Some(error@),
            },
    {
        match &self.subcommand {
            Commands::Refresh => {
                table.refresh_links(present)?;
                Ok(None)
            },
            Commands::Add { alias, description, cmd, force } => {
                let description = match description {
                    Some(text) => Some(text.clone()),
                    None => None,
                };
                table.create_alias(alias.clone(), cmd.clone(), description, *force, present)?;
                Ok(None)
            },
            Commands::Remove { alias } => {
                table.remove_alias(alias.as_str())?;
                Ok(None)
            },
            Commands::Display => Ok(table.display_aliases()),
        }
    }
}

} // verus!
