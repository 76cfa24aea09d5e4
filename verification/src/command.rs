//! The closed set of operations that a command line can ask for.

use crate::schema::{ADD, ADD_REPO, HELP, LIST, UPGRADE, VERSION};
use vstd::prelude::*;

verus! {

/// What the user asked the program to do.
#[derive(Debug, Clone, PartialEq, Eq)]
pub enum SubCommand {
    /// Check and add `mod_id` to the configured mods.
    Add {
        /// ID of the mod to add.
        mod_id: String,
    },
    /// Check and add the repository `owner`/`name` to the configured repositories.
    AddRepo {
        /// Username of the owner of the repository to add.
        owner: String,
        /// Name of the repository to add.
        name: String,
    },
    /// Display the help page. `implied` is true where no subcommand was given,
    /// in which case the caller exits with an error status after showing it.
    Help { implied: bool },
    /// List the mods and repositories in the configuration.
    List,
    /// Download and install the latest version of everything configured.
    Upgrade,
    /// Print the program's version.
    Version,
}

/// The mathematical value of a [`SubCommand`]: the same variants, with each
/// string as the sequence of its characters.
pub enum Command {
    Add { mod_id: Seq<char> },
    AddRepo { owner: Seq<char>, name: Seq<char> },
    Help { implied: bool },
    List,
    Upgrade,
    Version,
}

impl View for SubCommand {
    type V = Command;

    open spec fn view(&self) -> Command {
        match self {
            SubCommand::Add { mod_id } => Command::Add { mod_id: mod_id@ },
            SubCommand::AddRepo { owner, name } => Command::AddRepo { owner: owner@, name: name@ },
            SubCommand::Help { implied } => Command::Help { implied: *implied },
            SubCommand::List => Command::List,
            SubCommand::Upgrade => Command::Upgrade,
            SubCommand::Version => Command::Version,
        }
    }
}

impl Command {
    /// The subcommand that asks for this command; none asks for the help that
    /// is shown for want of one.
    pub open spec fn asked_by(self) -> Option<Seq<char>> {
        match self {
            Command::Add { .. } => Some(ADD@),
            Command::AddRepo { .. } => Some(ADD_REPO@),
            Command::Help { implied } => if implied {
                None
            } else {
                Some(HELP@)
            },
            Command::List => Some(LIST@),
            Command::Upgrade => Some(UPGRADE@),
            Command::Version => Some(VERSION@),
        }
    }

    /// The strings that the command carries, in the order of its fields.
    pub open spec fn payload(self) -> Seq<Seq<char>> {
        match self {
            Command::Add { mod_id } => seq![mod_id],
            Command::AddRepo { owner, name } => seq![owner, name],
            _ => seq![],
        }
    }

    /// Every payload string is non-empty.
    pub open spec fn well_formed(self) -> bool {
        match self {
            Command::Add { mod_id } => mod_id.len() > 0,
            Command::AddRepo { owner, name } => owner.len() > 0 && name.len() > 0,
            _ => true,
        }
    }
}

} // verus!
