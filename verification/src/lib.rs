//! The rules of the LeftWM theme manager: registries of themes, their reconciliation
//! with what is installed, and what each command decides.

pub mod errors;
pub mod models;
pub mod operations;
pub mod utils;

use crate::operations::{
    Apply, Current, Install, List, Migrate, New, Search, Status, Support, Uninstall, Update,
    Upgrade,
};
use vstd::prelude::*;

verus! {

/// The arguments of the theme manager.
#[derive(Debug)]
pub struct Opt {
    /// How often `-v` was given.
    pub verbose: u8,
    /// The operation to perform.
    pub operation: Operation,
}

/// The operations of the theme manager, each with its arguments.
#[derive(Debug)]
pub enum Operation {
    /// Install a theme.
    Install(Install),
    /// Uninstall a theme.
    Uninstall(Uninstall),
    /// List the installed themes.
    List(List),
    /// Create a new theme.
    New(New),
    /// Bring the installed themes up to date.
    Upgrade(Upgrade),
    /// Fetch the list of themes.
    Update(Update),
    /// Apply an installed theme.
    Apply(Apply),
    /// Print which theme is the active one.
    Status(Status),
    /// Search for a theme by name.
    Search(Search),
    /// Print a field of the active theme's own file.
    Current(Current),
    /// Open the page that offers help with a theme.
    Support(Support),
    /// Migrate a theme file from TOML to RON.
    Migrate(Migrate),
}

/// The log level that a number of `-v` asks for.
pub open spec fn log_level_of(verbose: u8) -> Seq<char> {
    if verbose == 0 {
        "warn"@
    } else if verbose == 1 {
        "info"@
    } else if verbose == 2 {
        "debug"@
    } else {
        "trace"@
    }
}

impl Opt {
    /// The log level that the arguments ask for: warnings only, and one level more for
    /// each `-v`, up to everything.
    pub fn log_level(&self) -> (r: &'static str)
        ensures
            r@ == log_level_of(self.verbose),
    {
        match self.verbose {
            0 => "warn",
            1 => "info",
            2 => "debug",
            _ => "trace",
        }
    }
}

} // verus!
