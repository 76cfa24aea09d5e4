//! The dispatcher: from a structured match result to exactly one command.

use crate::command::{Command, SubCommand};
use crate::failure::{outcome, Failure, ParseFailure, INCOMPLETE};
use crate::matches::{Matched, Matches};
use crate::schema::{
    entries, entry_of, lemma_entry_of_index, lemma_schema_unambiguous, ADD, ADD_REPO, HELP, LIST,
    MOD_ID, OWNER, REPO, UPGRADE, VERSION,
};
use crate::text::str_eq;
use vstd::prelude::*;

verus! {

/// The command that a match result stands for. The subcommands are tested in
/// the order of the schema, and the values bound to the parameters go into
/// the payload as they are. Without a subcommand that the schema knows, the
/// command is the implied help.
pub open spec fn dispatched(matched: Matched) -> Command {
    match matched.subcommand {
        Some(name) => if name == LIST@ {
            Command::List
        } else if name == UPGRADE@ {
            Command::Upgrade
        } else if name == HELP@ {
            Command::Help { implied: false }
        } else if name == ADD@ {
            Command::Add { mod_id: matched.values[MOD_ID@] }
        } else if name == ADD_REPO@ {
            Command::AddRepo { owner: matched.values[OWNER@], name: matched.values[REPO@] }
        } else if name == VERSION@ {
            Command::Version
        } else {
            Command::Help { implied: true }
        },
        None => Command::Help { implied: true },
    }
}

/// What a match result gives once it is checked against the schema: its
/// command where it is complete, a usage failure where it is not.
pub open spec fn try_dispatched(matched: Matched) -> Result<Command, Failure> {
    if matched.complete() {
        Ok(dispatched(matched))
    } else {
        Err(Failure::Usage)
    }
}

/// A complete match result binds what `add` and `add-repo` read.
proof fn lemma_complete_binds_payload(matched: Matched)
    requires
        matched.complete(),
    ensures
        matched.subcommand == Some(ADD@) ==> matched.has_value(MOD_ID@),
        matched.subcommand == Some(ADD_REPO@) ==> matched.has_value(OWNER@) && matched.has_value(
            REPO@,
        ),
{
    lemma_schema_unambiguous();
    lemma_entry_of_index(entries(), 3);
    lemma_entry_of_index(entries(), 4);
    assert(entries()[3].args[0] == MOD_ID@);
    assert(entries()[4].args[0] == OWNER@);
    assert(entries()[4].args[1] == REPO@);
}

/// Maps a match result to its command: tests the subcommand against the names
/// of the schema, in the schema's order, and copies the values bound to the
/// parameters of the first that fits into its payload.
pub fn dispatch(matches: &Matches) -> (command: SubCommand)
    requires
        matches@.complete(),
    ensures
        command@ == dispatched(matches@),
        command@.well_formed(),
{
    proof {
        lemma_complete_binds_payload(matches@);
    }
    let name = match &matches.subcommand {
        Some(name) => name.as_str(),
        None => {
            return SubCommand::Help { implied: true };
        },
    };
    if str_eq(name, LIST) {
        SubCommand::List
    } else if str_eq(name, UPGRADE) {
        SubCommand::Upgrade
    } else if str_eq(name, HELP) {
        SubCommand::Help { implied: false }
    } else if str_eq(name, ADD) {
        SubCommand::Add { mod_id: matches.value_of(MOD_ID).unwrap().clone() }
    } else if str_eq(name, ADD_REPO) {
        SubCommand::AddRepo {
            owner: matches.value_of(OWNER).unwrap().clone(),
            name: matches.value_of(REPO).unwrap().clone(),
        }
    } else if str_eq(name, VERSION) {
        SubCommand::Version
    } else {
        SubCommand::Help { implied: true }
    }
}

/// Checks a match result against the schema and maps it to its command. A
/// result that lacks a required value, or binds an empty one, is a usage
/// failure with the message [`INCOMPLETE`].
pub fn try_dispatch(matches: &Matches) -> (result: Result<SubCommand, ParseFailure>)
    ensures
        outcome(result) == try_dispatched(matches@),
        result matches Ok(command) ==> command@.well_formed(),
        result matches Err(failure) ==> failure.text() == INCOMPLETE@,
{
    if matches.is_complete() {
        Ok(dispatch(matches))
    } else {
        Err(ParseFailure::Usage { message: INCOMPLETE.to_owned() })
    }
}

/// A complete match result that names an entry of the schema gives the
/// command of that entry, and the payload of the command is the values bound
/// to the entry's parameters, in the entry's order and unchanged.
pub proof fn lemma_dispatch_follows_schema(matched: Matched, i: int)
    requires
        0 <= i < entries().len(),
        matched.subcommand == Some(entries()[i].name),
        matched.complete(),
    ensures
        dispatched(matched).asked_by() == Some(entries()[i].name),
        dispatched(matched).payload() == entries()[i].args.map_values(
            |arg: Seq<char>| matched.values[arg],
        ),
        dispatched(matched).well_formed(),
{
    lemma_schema_unambiguous();
    lemma_complete_binds_payload(matched);
    let table = entries();
    assert(table[0].name == LIST@ && table[1].name == UPGRADE@ && table[2].name == HELP@);
    assert(table[3].name == ADD@ && table[4].name == ADD_REPO@ && table[5].name == VERSION@);
    assert(dispatched(matched).payload() =~= table[i].args.map_values(
        |arg: Seq<char>| matched.values[arg],
    ));
}

/// The help is implied exactly where no subcommand of the schema was named,
/// and asked for exactly where `help` was.
pub proof fn lemma_help_implied(matched: Matched)
    ensures
        dispatched(matched) == (Command::Help { implied: true }) <==> !matched.names_entry(),
        dispatched(matched) == (Command::Help { implied: false }) <==> matched.subcommand == Some(
            HELP@,
        ),
{
    lemma_schema_unambiguous();
    let table = entries();
    assert(table[0].name == LIST@ && table[1].name == UPGRADE@ && table[2].name == HELP@);
    assert(table[3].name == ADD@ && table[4].name == ADD_REPO@ && table[5].name == VERSION@);
    match matched.subcommand {
        Some(name) => {
            if !matched.names_entry() {
                assert(table[0].name != name && table[1].name != name && table[2].name != name);
                assert(table[3].name != name && table[4].name != name && table[5].name != name);
            }
        },
        None => {},
    }
}

/// The owner and the name of a repository are not interchangeable: where the
/// two values differ, the match result that binds them the other way round
/// gives another command.
pub proof fn lemma_add_repo_order(first: Matched, second: Matched)
    requires
        first.subcommand == Some(ADD_REPO@),
        second.subcommand == Some(ADD_REPO@),
        first.values[OWNER@] == second.values[REPO@],
        first.values[REPO@] == second.values[OWNER@],
    ensures
        dispatched(first) == (Command::AddRepo {
            owner: first.values[OWNER@],
            name: first.values[REPO@],
        }),
        dispatched(second) == (Command::AddRepo {
            owner: first.values[REPO@],
            name: first.values[OWNER@],
        }),
        dispatched(first) == dispatched(second) <==> first.values[OWNER@] == first.values[REPO@],
{
    lemma_schema_unambiguous();
    let table = entries();
    assert(table[0].name == LIST@ && table[1].name == UPGRADE@ && table[2].name == HELP@);
    assert(table[3].name == ADD@ && table[4].name == ADD_REPO@);
}

} // verus!
