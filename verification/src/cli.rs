//! From the arguments of the process to the command to run.

use crate::command::{Command, SubCommand};
use crate::dispatch::{dispatch, dispatched, lemma_dispatch_follows_schema};
use crate::failure::{matched_outcome, outcome, Failure, ParseFailure, INCOMPLETE};
use crate::matches::{bound, Binding, Matched, Matches};
use crate::parser::{
    app_arg, app_decl, app_disable_version, app_new, app_subcommand, arg_decl, arg_required,
    arg_with_name, error_message, found, get_matches_from_safe, on_stderr, parseable, parsed,
    subcommand_matches, use_stderr, value_of, AppDecl, ArgDecl, Found, Parsed,
};
use crate::schema::{
    entries, entry_of, lemma_entry_of_index, lemma_schema_unambiguous, schema, unambiguous,
    CommandSpec, Entry, PROGRAM,
};
use vstd::prelude::*;

verus! {

/// A required positional argument of the name `name`.
pub open spec fn required_arg(name: Seq<char>) -> ArgDecl {
    ArgDecl { name, required: true }
}

/// The subcommand that the parser is given for an entry of the schema: the
/// entry's parameters are its positional arguments, each of them required.
/// It takes no version flag.
pub open spec fn sub_declaration(entry: Entry) -> AppDecl {
    AppDecl {
        name: entry.name,
        args: entry.args.map_values(|arg: Seq<char>| required_arg(arg)),
        subcommands: Seq::empty(),
        version_flag: false,
    }
}

/// What the parser is given to parse against: the program, with one
/// subcommand for each entry of the schema. It takes no version flag: the
/// version is asked for by the subcommand `version`.
pub open spec fn declaration() -> AppDecl {
    AppDecl {
        name: PROGRAM@,
        args: Seq::empty(),
        subcommands: entries().map_values(|entry: Entry| sub_declaration(entry)),
        version_flag: false,
    }
}

/// The command line that the parser is given for the arguments `args`: the
/// name of the program goes first.
pub open spec fn command_line(args: Seq<Seq<char>>) -> Seq<Seq<char>> {
    seq![PROGRAM@] + args
}

/// The match result that is read from what the parser found: the subcommand
/// where the schema knows it, with the values of that entry's parameters.
pub open spec fn matched_in(found: Found) -> Matched {
    match found.subcommand {
        Some(sub) => match entry_of(entries(), sub.name) {
            Some(entry) => Matched {
                subcommand: Some(sub.name),
                values: sub.matches.values.restrict(entry.args.to_set()),
            },
            None => Matched { subcommand: None, values: Map::empty() },
        },
        None => Matched { subcommand: None, values: Map::empty() },
    }
}

/// The failure that a refusal of the parser stands for.
pub open spec fn refused(to_stderr: bool) -> Failure {
    if to_stderr {
        Failure::Usage
    } else {
        Failure::Display
    }
}

/// The match result that the outcome of the parser gives: what was read from
/// it, where the parser accepted the command line and every value that the
/// schema requires is there and not empty.
pub open spec fn accepted(parsed: Parsed) -> Result<Matched, Failure> {
    match parsed {
        Parsed::Accepted(found) => if matched_in(found).complete() {
            Ok(matched_in(found))
        } else {
            Err(Failure::Usage)
        },
        Parsed::Refused { to_stderr } => Err(refused(to_stderr)),
    }
}

/// The command that the outcome of the parser gives: that of its match
/// result.
pub open spec fn decided(parsed: Parsed) -> Result<Command, Failure> {
    match accepted(parsed) {
        Ok(matched) => Ok(dispatched(matched)),
        Err(failure) => Err(failure),
    }
}

/// Where the parser found no subcommand, the command is the implied help.
pub proof fn lemma_no_subcommand_implies_help(found: Found)
    requires
        found.subcommand is None,
    ensures
        decided(Parsed::Accepted(found)) == Ok::<Command, Failure>(Command::Help { implied: true }),
{
}

/// Where the parser found the subcommand of an entry of the schema, with a
/// value that is not empty for each of the entry's parameters, the command is
/// that of the entry, and its payload is those values, in the entry's order
/// and unchanged.
pub proof fn lemma_decided_follows_schema(found: Found, i: int)
    requires
        0 <= i < entries().len(),
        found.subcommand matches Some(sub) && sub.name == entries()[i].name && forall|j: int|
            0 <= j < entries()[i].args.len() ==> sub.matches.values.contains_key(
                #[trigger] entries()[i].args[j],
            ) && sub.matches.values[entries()[i].args[j]].len() > 0,
    ensures
        decided(Parsed::Accepted(found)) matches Ok(command) && command.asked_by() == Some(
            entries()[i].name,
        ) && command.payload() == entries()[i].args.map_values(
            |arg: Seq<char>| found.subcommand->0.matches.values[arg],
        ) && command.well_formed(),
{
    lemma_schema_unambiguous();
    lemma_entry_of_index(entries(), i);
    let entry = entries()[i];
    let matched = matched_in(found);
    let held = found.subcommand->0.matches.values;
    assert forall|j: int| 0 <= j < entry.args.len() implies matched.has_value(
        #[trigger] entry.args[j],
    ) by {
        assert(entry.args.contains(entry.args[j]));
    }
    assert(matched.complete());
    lemma_dispatch_follows_schema(matched, i);
    assert forall|j: int| 0 <= j < entry.args.len() implies matched.values[entry.args[j]]
        == held[entry.args[j]] by {
        assert(entry.args.contains(entry.args[j]));
    }
    assert(entry.args.map_values(|arg: Seq<char>| matched.values[arg]) =~= entry.args.map_values(
        |arg: Seq<char>| held[arg],
    ));
}

/// A refusal of the parser is a failure, and never a command.
pub proof fn lemma_refusal_fails(to_stderr: bool)
    ensures
        decided(Parsed::Refused { to_stderr }) == Err::<Command, Failure>(refused(to_stderr)),
        refused(to_stderr).exit_status() == 0 <==> !to_stderr,
{
}

/// The same arguments give the same outcome: two results that both meet what
/// [`get_subcommand`] promises for `args` are the same command, or failures
/// of the same kind.
pub proof fn lemma_same_arguments_same_outcome(
    args: Seq<Seq<char>>,
    first: Result<SubCommand, ParseFailure>,
    second: Result<SubCommand, ParseFailure>,
)
    requires
        outcome(first) == decided(parsed(declaration(), command_line(args))),
        outcome(second) == decided(parsed(declaration(), command_line(args))),
    ensures
        outcome(first) == outcome(second),
        first matches Ok(command) ==> second matches Ok(again) && command@ == again@,
        first matches Err(failure) ==> second matches Err(again) && failure@ == again@,
{
}

/// The elements of `names` up to and including the one at `j` are those
/// before it and that one.
proof fn lemma_take_next(names: Seq<Seq<char>>, j: int)
    requires
        0 <= j < names.len(),
    ensures
        names.take(j + 1).to_set() == names.take(j).to_set().insert(names[j]),
{
    let longer = names.take(j + 1);
    let shorter = names.take(j);
    assert forall|name: Seq<char>|
        longer.to_set().contains(name) <==> shorter.to_set().insert(names[j]).contains(
            name,
        ) by {
        if longer.contains(name) {
            let k = choose|k: int| 0 <= k < longer.len() && longer[k] == name;
            if k < j {
                assert(shorter[k] == name);
            }
        }
        if shorter.contains(name) {
            let k = choose|k: int| 0 <= k < shorter.len() && shorter[k] == name;
            assert(longer[k] == name);
        }
        if name == names[j] {
            assert(longer[j] == name);
        }
    }
    assert(longer.to_set() =~= shorter.to_set().insert(names[j]));
}

/// Declares the subcommand of one entry of the schema.
fn declare_sub(spec: &CommandSpec) -> (sub: clap::App<'static, 'static>)
    requires
        forall|j: int, k: int| 0 <= j < k < spec@.args.len() ==> spec@.args[j] != spec@.args[k],
    ensures
        app_decl(sub) == Some(sub_declaration(spec@)),
{
    let mut sub = app_disable_version(app_new(spec.name));
    let mut j: usize = 0;
    assert(spec@.args.take(0).map_values(|arg: Seq<char>| required_arg(arg)) =~= Seq::empty());
    while j < spec.args.len()
        invariant
            j <= spec.args.len(),
            forall|j: int, k: int|
                0 <= j < k < spec@.args.len() ==> spec@.args[j] != spec@.args[k],
            app_decl(sub) == Some(
                AppDecl {
                    name: spec@.name,
                    args: spec@.args.take(j as int).map_values(|arg: Seq<char>| required_arg(arg)),
                    subcommands: Seq::empty(),
                    version_flag: false,
                },
            ),
        decreases spec.args.len() - j,
    {
        let arg = arg_required(arg_with_name(spec.args[j]), true);
        assert(arg_decl(arg) == Some(required_arg(spec@.args[j as int])));
        sub = app_arg(sub, arg);
        assert(spec@.args.take(j + 1).map_values(|arg: Seq<char>| required_arg(arg))
            =~= spec@.args.take(j as int).map_values(|arg: Seq<char>| required_arg(arg)).push(
            required_arg(spec@.args[j as int]),
        ));
        j += 1;
    }
    assert(spec@.args.take(j as int) =~= spec@.args);
    sub
}

/// Declares the schema to the parser.
fn declare() -> (app: clap::App<'static, 'static>)
    ensures
        app_decl(app) == Some(declaration()),
        parseable(declaration()),
{
    let table = schema();
    proof {
        lemma_schema_unambiguous();
    }
    let mut app = app_disable_version(app_new(PROGRAM));
    let mut i: usize = 0;
    assert(entries().take(0).map_values(|entry: Entry| sub_declaration(entry)) =~= Seq::empty());
    while i < table.len()
        invariant
            i <= table.len(),
            table@.map_values(|spec: CommandSpec| spec@) == entries(),
            unambiguous(entries()),
            app_decl(app) == Some(
                AppDecl {
                    name: PROGRAM@,
                    args: Seq::empty(),
                    subcommands: entries().take(i as int).map_values(
                        |entry: Entry| sub_declaration(entry),
                    ),
                    version_flag: false,
                },
            ),
        decreases table.len() - i,
    {
        assert(entries()[i as int] == table@[i as int]@);
        let sub = declare_sub(&table[i]);
        app = app_subcommand(app, sub);
        assert(entries().take(i + 1).map_values(|entry: Entry| sub_declaration(entry))
            =~= entries().take(i as int).map_values(|entry: Entry| sub_declaration(entry)).push(
            sub_declaration(entries()[i as int]),
        ));
        i += 1;
    }
    assert(entries().take(i as int) =~= entries());
    app
}

/// Reads the values of an entry's parameters from what the parser found
/// below the entry's subcommand.
fn read_values(below: &clap::ArgMatches<'static>, spec: &CommandSpec) -> (values: Vec<Binding>)
    requires
        found(*below) is Some,
    ensures
        bound(values@.map_values(|binding: Binding| binding@)) == found(
            *below,
        )->0.values.restrict(spec@.args.to_set()),
{
    let ghost held = found(*below)->0.values;
    let mut values: Vec<Binding> = Vec::new();
    let mut j: usize = 0;
    assert(bound(values@.map_values(|binding: Binding| binding@)) =~= held.restrict(
        spec@.args.take(0).to_set(),
    ));
    while j < spec.args.len()
        invariant
            j <= spec.args.len(),
            found(*below) is Some,
            held == found(*below)->0.values,
            bound(values@.map_values(|binding: Binding| binding@)) == held.restrict(
                spec@.args.take(j as int).to_set(),
            ),
        decreases spec.args.len() - j,
    {
        let ghost before = values@.map_values(|binding: Binding| binding@);
        let ghost name = spec@.args[j as int];
        proof {
            lemma_take_next(spec@.args, j as int);
        }
        match value_of(below, spec.args[j]) {
            Some(value) => {
                values.push(Binding { name: spec.args[j].to_owned(), value: value.to_owned() });
                let ghost after = values@.map_values(|binding: Binding| binding@);
                assert(after.drop_last() =~= before);
                assert(after.last() == (name, value@));
                assert(bound(after) =~= held.restrict(spec@.args.take(j + 1).to_set()));
            },
            None => {
                assert(bound(before) =~= held.restrict(spec@.args.take(j + 1).to_set()));
            },
        }
        j += 1;
    }
    assert(spec@.args.take(j as int) =~= spec@.args);
    values
}

/// Reads the match result from what the parser found, testing the
/// subcommands in the order of the schema.
fn read(matches: &clap::ArgMatches<'static>) -> (matched: Matches)
    requires
        found(*matches) is Some,
    ensures
        matched@ == matched_in(found(*matches)->0),
{
    let table = schema();
    proof {
        lemma_schema_unambiguous();
    }
    let ghost named = found(*matches)->0.subcommand;
    let mut i: usize = 0;
    while i < table.len()
        invariant
            i <= table.len(),
            found(*matches) is Some,
            named == found(*matches)->0.subcommand,
            table@.map_values(|spec: CommandSpec| spec@) == entries(),
            unambiguous(entries()),
            forall|k: int|
                0 <= k < i ==> !(named matches Some(sub) && sub.name == (
                #[trigger] entries()[k]).name),
        decreases table.len() - i,
    {
        assert(entries()[i as int] == table@[i as int]@);
        match subcommand_matches(matches, table[i].name) {
            Some(below) => {
                let values = read_values(below, &table[i]);
                proof {
                    lemma_entry_of_index(entries(), i as int);
                }
                return Matches { subcommand: Some(table[i].name.to_owned()), values };
            },
            None => {},
        }
        i += 1;
    }
    let matched = Matches { subcommand: None, values: Vec::new() };
    assert(matched.values@.map_values(|binding: Binding| binding@) =~= Seq::empty());
    matched
}

/// Turns a refusal of the parser into a failure of the library.
fn refusal(error: clap::Error) -> (failure: ParseFailure)
    ensures
        failure@ == refused(on_stderr(error)),
{
    let to_stderr = use_stderr(&error);
    let message = error_message(error);
    if to_stderr {
        ParseFailure::Usage { message }
    } else {
        ParseFailure::Display { message }
    }
}

/// The command line for the parser: the name of the program, then `args`.
fn with_program(args: &Vec<String>) -> (argv: Vec<String>)
    ensures
        argv.deep_view() == command_line(args.deep_view()),
{
    let mut argv: Vec<String> = Vec::new();
    argv.push(PROGRAM.to_owned());
    let mut i: usize = 0;
    while i < args.len()
        invariant
            i <= args.len(),
            argv.len() == i + 1,
            argv@[0]@ == PROGRAM@,
            forall|k: int| 0 <= k < i ==> (#[trigger] argv@[k + 1])@ == args@[k]@,
        decreases args.len() - i,
    {
        argv.push(args[i].clone());
        i += 1;
    }
    assert forall|k: int| 0 <= k < argv.len() implies argv.deep_view()[k] == command_line(
        args.deep_view(),
    )[k] by {
        if k > 0 {
            assert(argv@[(k - 1) + 1]@ == args@[k - 1]@);
        }
    }
    assert(argv.deep_view() =~= command_line(args.deep_view()));
    argv
}

/// Matches the arguments of the process against the schema. `args` are the
/// arguments without the name of the program.
///
/// The matching is done by `clap`; what it finds is read into a match result
/// and checked. Where `clap` refuses the arguments, the result is the failure
/// with its message; where the match result lacks a required value, or binds
/// an empty one, it is a usage failure with the message [`INCOMPLETE`].
pub fn parse(args: &Vec<String>) -> (result: Result<Matches, ParseFailure>)
    ensures
        matched_outcome(result) == accepted(parsed(declaration(), command_line(args.deep_view()))),
        result matches Ok(matches) ==> matches@.complete(),
        parsed(declaration(), command_line(args.deep_view())) is Accepted ==> (result matches Err(
            failure,
        ) ==> failure.text() == INCOMPLETE@),
{
    let app = declare();
    let argv = with_program(args);
    match get_matches_from_safe(app, &argv) {
        Ok(matches) => {
            let matched = read(&matches);
            if matched.is_complete() {
                Ok(matched)
            } else {
                Err(ParseFailure::Usage { message: INCOMPLETE.to_owned() })
            }
        },
        Err(error) => Err(refusal(error)),
    }
}

/// Returns the subcommand, with its arguments, that the arguments of the
/// process ask for: matches them against the schema, and dispatches the match
/// result. `args` are the arguments without the name of the program.
pub fn get_subcommand(args: &Vec<String>) -> (result: Result<SubCommand, ParseFailure>)
    ensures
        outcome(result) == decided(parsed(declaration(), command_line(args.deep_view()))),
        result matches Ok(command) ==> command@.well_formed(),
        parsed(declaration(), command_line(args.deep_view())) is Accepted ==> (result matches Err(
            failure,
        ) ==> failure.text() == INCOMPLETE@),
{
    match parse(args) {
        Ok(matches) => Ok(dispatch(&matches)),
        Err(failure) => Err(failure),
    }
}

} // verus!
