//! What the command line asks for.

use vstd::prelude::*;

verus! {

/// Options that every subcommand takes.
#[derive(Debug, Clone, Copy, PartialEq, Eq, Structural)]
pub struct GlobalOpts {
    /// How many times `--verbose` was given.
    pub verbose: u8,
}

/// The parsed command line.
#[derive(Debug)]
pub struct App {
    pub global_opts: GlobalOpts,
    pub command: Command,
}

/// The subcommand.
#[derive(Debug)]
pub enum Command {
    /// Bring the machine in line with the description at `config_path`:
    /// its packages where `system` is set, its users where `home` is set.
    Sync { config_path: String, system: bool, home: bool },
}

} // verus!
