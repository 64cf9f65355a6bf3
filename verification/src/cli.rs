//! Command-line model: what the arguments select and the derived settings.
//! (Argument parsing itself belongs to the program around the library.)

use vstd::prelude::*;
use vstd::string::*;

verus! {

/// Configuration sub-actions.
#[derive(Debug, Clone)]
pub enum ConfigAction {
    /// Show current configuration
    Show,
    /// Set configuration value
    SetValue { key: String, value: String },
    /// Reset configuration to defaults
    Reset,
}

/// Sub-commands.
#[derive(Debug, Clone)]
pub enum Commands {
    /// Start interactive terminal session
    Interactive { simple: bool },
    /// Interactive session for a market ("spot" or "perp")
    Ui { simple: bool, market: String },
    /// Configuration management
    Config { action: Option<ConfigAction> },
    /// Demo WebSocket functionality
    Demo,
}

/// Parsed command line.
#[derive(Debug, Clone)]
pub struct Cli {
    pub command: Option<Commands>,
    pub config_file: String,
    pub log_level: String,
    pub verbose: bool,
    pub dry_run: bool,
}

/// The command run when none is given.
pub open spec fn default_command() -> Commands {
    Commands::Interactive { simple: false }
}

pub fn copy_config_action(a: &ConfigAction) -> (r: ConfigAction)
    ensures
        r == *a,
{
    match a {
        ConfigAction::Show => ConfigAction::Show,
        ConfigAction::SetValue { key, value } => ConfigAction::SetValue { key: key.clone(), value: value.clone() },
        ConfigAction::Reset => ConfigAction::Reset,
    }
}

pub fn copy_command(c: &Commands) -> (r: Commands)
    ensures
        r == *c,
{
    match c {
        Commands::Interactive { simple } => Commands::Interactive { simple: *simple },
        Commands::Ui { simple, market } => Commands::Ui { simple: *simple, market: market.clone() },
        Commands::Config { action } => Commands::Config {
            action: match action {
                Some(a) => Some(copy_config_action(a)),
                None => None,
            },
        },
        Commands::Demo => Commands::Demo,
    }
}

impl Commands {
    /// The default command: an interactive session.
    pub fn default_command() -> (r: Commands)
        ensures
            r == default_command(),
    {
        Commands::Interactive { simple: false }
    }
}

impl Cli {
    /// The command given, or the default one.
    pub fn command(&self) -> (r: Commands)
        ensures
            r == (match self.command {
                Some(c) => c,
                None => default_command(),
            }),
    {
        match &self.command {
            Some(c) => copy_command(c),
            None => Commands::default_command(),
        }
    }

    /// Whether the command given, or the default one, is `Interactive`.
    pub fn is_interactive_mode(&self) -> (r: bool)
        ensures
            r == (self.command is None || self.command matches Some(Commands::Interactive { .. })),
    {
        match &self.command {
            Some(Commands::Interactive { .. }) | None => true,
            _ => false,
        }
    }

    /// "debug" when verbose, else the requested level.
    pub fn effective_log_level(&self) -> (r: String)
        ensures
            r@ == (if self.verbose {
                "debug"@
            } else {
                self.log_level@
            }),
    {
        if self.verbose {
            String::from_str("debug")
        } else {
            self.log_level.clone()
        }
    }

    /// Whether only the welcome page and configuration are shown.
    pub fn is_dry_run_mode(&self) -> (r: bool)
        ensures
            r == self.dry_run,
    {
        self.dry_run
    }
}

} // verus!
