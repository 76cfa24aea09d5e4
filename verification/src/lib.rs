//! The command-line front end of the mod manager.
//!
//! The [`schema`] says which subcommands there are and what each requires.
//! [`parse`] matches the arguments of the process against it and gives a
//! [`Matches`]; [`dispatch`] maps that to exactly one [`SubCommand`].
//! [`get_subcommand`] does both.

pub mod cli;
pub mod command;
pub mod dispatch;
pub mod failure;
pub mod matches;
pub mod parser;
pub mod schema;
pub mod text;

pub use cli::{get_subcommand, parse};
pub use command::SubCommand;
pub use dispatch::{dispatch, try_dispatch};
pub use failure::ParseFailure;
pub use matches::{Binding, Matches};
