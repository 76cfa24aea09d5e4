//! The argument parser that does the matching: `clap`.
//!
//! Nothing in this file is proved. It declares the four `clap` types that the
//! library holds, gives what a value of each holds a name, and states what each
//! `clap` function called by the library does in terms of those names.
//!
//! The library uses a small part of `clap`: commands that have a name,
//! positional arguments and subcommands, with or without the version flag,
//! and nothing else. `arg_decl` and `app_decl` are `Some` exactly for values
//! of that kind, and every function here that takes one asks for that.

use vstd::prelude::*;

verus! {

/// `clap::App`: a command, with what it declares.
#[verifier::external_type_specification]
#[verifier::external_body]
pub struct ExApp<'a, 'b>(clap::App<'a, 'b>) where 'a: 'b;

/// `clap::Arg`: an argument of a command.
#[verifier::external_type_specification]
#[verifier::external_body]
pub struct ExArg<'a, 'b>(clap::Arg<'a, 'b>) where 'a: 'b;

/// `clap::ArgMatches`: what a parse found.
#[verifier::external_type_specification]
#[verifier::external_body]
pub struct ExArgMatches<'a>(clap::ArgMatches<'a>);

/// `clap::Error`: why a parse gave no matches.
#[verifier::external_type_specification]
#[verifier::external_body]
pub struct ExError(clap::Error);

/// A positional argument as a command declares it.
pub struct ArgDecl {
    pub name: Seq<char>,
    pub required: bool,
}

/// A command as it is declared: its name, its positional arguments in the
/// order of their indices, its subcommands in the order they were added, and
/// whether it takes the flags `-V` and `--version`.
pub struct AppDecl {
    pub name: Seq<char>,
    pub args: Seq<ArgDecl>,
    pub subcommands: Seq<AppDecl>,
    pub version_flag: bool,
}

/// What a successful parse found: the first value of each argument that has
/// one, by the argument's name, and the subcommand that was named, if any.
pub struct Found {
    pub values: Map<Seq<char>, Seq<char>>,
    pub subcommand: Option<Box<FoundSub>>,
}

/// The subcommand that a parse found, with what was found below it.
pub struct FoundSub {
    pub name: Seq<char>,
    pub matches: Found,
}

/// How a parse ended.
pub enum Parsed {
    /// The command line matched the declaration.
    Accepted(Found),
    /// It did not, or it asked for the help or version text. `to_stderr` tells
    /// the two apart: an error goes to stderr, a text that was asked for does not.
    Refused { to_stderr: bool },
}

/// What `arg` declares, where it was made by `Arg::with_name` and changed by
/// `Arg::required` alone; `None` for any other argument.
pub uninterp spec fn arg_decl(arg: clap::Arg) -> Option<ArgDecl>;

/// What `app` declares, where it was made by `App::new` and changed by
/// `App::arg`, `App::subcommand` and `App::setting` with
/// `AppSettings::DisableVersion` alone, with arguments and subcommands of the
/// same kind; `None` for any other command.
pub uninterp spec fn app_decl(app: clap::App) -> Option<AppDecl>;

/// What `matches` holds, where every value in it is valid UTF-8; `None` otherwise.
pub uninterp spec fn found(matches: clap::ArgMatches) -> Option<Found>;

/// Whether `error` is one that `clap` writes to stderr.
pub uninterp spec fn on_stderr(error: clap::Error) -> bool;

/// How `clap` parses the command line `argv`, whose first element is the name
/// of the binary, against the declaration `decl`.
pub uninterp spec fn parsed(decl: AppDecl, argv: Seq<Seq<char>>) -> Parsed;

/// No optional argument stands before a required one.
pub open spec fn required_first(args: Seq<ArgDecl>) -> bool {
    forall|i: int, j: int| 0 <= i < j < args.len() && args[j].required ==> args[i].required
}

/// A declaration that `clap` parses against without a panic and without
/// writing anything: one level of subcommands, and on both levels the
/// required arguments first and no version flag.
pub open spec fn parseable(decl: AppDecl) -> bool {
    &&& required_first(decl.args)
    &&& !decl.version_flag
    &&& forall|i: int|
        0 <= i < decl.subcommands.len() ==> {
            &&& required_first(#[trigger] decl.subcommands[i].args)
            &&& !decl.subcommands[i].version_flag
            &&& decl.subcommands[i].subcommands.len() == 0
        }
}

/// `clap::Arg::with_name`: a new optional argument of that name.
#[verifier::external_body]
pub(crate) fn arg_with_name(name: &'static str) -> (arg: clap::Arg<'static, 'static>)
    ensures
        arg_decl(arg) == Some(ArgDecl { name: name@, required: false }),
{
    clap::Arg::with_name(name)
}

/// `clap::Arg::required`: the same argument, required or not as `required` says.
#[verifier::external_body]
pub(crate) fn arg_required(arg: clap::Arg<'static, 'static>, required: bool) -> (out: clap::Arg<
    'static,
    'static,
>)
    requires
        arg_decl(arg) is Some,
    ensures
        arg_decl(out) == Some(ArgDecl { name: arg_decl(arg)->0.name, required }),
{
    arg.required(required)
}

/// `clap::App::new`: a new command of that name, with no arguments and no
/// subcommands, that takes the version flag.
#[verifier::external_body]
pub(crate) fn app_new(name: &str) -> (app: clap::App<'static, 'static>)
    ensures
        app_decl(app) == Some(
            AppDecl {
                name: name@,
                args: Seq::empty(),
                subcommands: Seq::empty(),
                version_flag: true,
            },
        ),
{
    clap::App::new(name)
}

/// `clap::App::setting` with `clap::AppSettings::DisableVersion`: the same
/// command without the version flag. Its subcommands keep theirs.
#[verifier::external_body]
pub(crate) fn app_disable_version(app: clap::App<'static, 'static>) -> (out: clap::App<
    'static,
    'static,
>)
    requires
        app_decl(app) is Some,
    ensures
        app_decl(out) == Some(AppDecl { version_flag: false, ..app_decl(app)->0 }),
{
    app.setting(clap::AppSettings::DisableVersion)
}

/// `clap::App::arg`: the same command with `arg` as its next positional
/// argument. `clap` panics on a name that the command already has.
#[verifier::external_body]
pub(crate) fn app_arg(app: clap::App<'static, 'static>, arg: clap::Arg<'static, 'static>) -> (out:
    clap::App<'static, 'static>)
    requires
        app_decl(app) is Some,
        arg_decl(arg) is Some,
        forall|i: int|
            0 <= i < app_decl(app)->0.args.len() ==> (#[trigger] app_decl(app)->0.args[i]).name
                != arg_decl(arg)->0.name,
    ensures
        app_decl(out) == Some(
            AppDecl { args: app_decl(app)->0.args.push(arg_decl(arg)->0), ..app_decl(app)->0 },
        ),
{
    app.arg(arg)
}

/// `clap::App::subcommand`: the same command with `sub` as its next subcommand.
#[verifier::external_body]
pub(crate) fn app_subcommand(
    app: clap::App<'static, 'static>,
    sub: clap::App<'static, 'static>,
) -> (out: clap::App<'static, 'static>)
    requires
        app_decl(app) is Some,
        app_decl(sub) is Some,
    ensures
        app_decl(out) == Some(
            AppDecl {
                subcommands: app_decl(app)->0.subcommands.push(app_decl(sub)->0),
                ..app_decl(app)->0
            },
        ),
{
    app.subcommand(sub)
}

/// `clap::App::get_matches_from_safe`: parses `argv`, whose first element is
/// taken as the name of the binary. The outcome depends on the declaration and
/// on `argv` alone; what it is, is `clap`'s to say. In a debug build `clap`
/// panics on a declaration with an optional argument before a required one,
/// and for the version flag it writes to stdout while it parses.
#[verifier::external_body]
pub(crate) fn get_matches_from_safe(app: clap::App<'static, 'static>, argv: &Vec<String>) -> (out:
    Result<clap::ArgMatches<'static>, clap::Error>)
    requires
        app_decl(app) is Some,
        parseable(app_decl(app)->0),
    ensures
        match out {
            Ok(matches) => found(matches) is Some && parsed(app_decl(app)->0, argv.deep_view())
                == Parsed::Accepted(found(matches)->0),
            Err(error) => parsed(app_decl(app)->0, argv.deep_view()) == (Parsed::Refused {
                to_stderr: on_stderr(error),
            }),
        },
{
    app.get_matches_from_safe(argv)
}

/// `clap::ArgMatches::subcommand_matches`: what was found below the subcommand
/// `name`, where that is the subcommand that was named.
#[verifier::external_body]
pub(crate) fn subcommand_matches<'m>(matches: &'m clap::ArgMatches<'static>, name: &str) -> (out:
    Option<&'m clap::ArgMatches<'static>>)
    requires
        found(*matches) is Some,
    ensures
        match out {
            Some(below) => found(*matches)->0.subcommand == Some(
                Box::new(FoundSub { name: name@, matches: found(*below)->0 }),
            ) && found(*below) is Some,
            None => !(found(*matches)->0.subcommand matches Some(sub) && sub.name == name@),
        },
{
    matches.subcommand_matches(name)
}

/// `clap::ArgMatches::value_of`: the first value of the argument `name`, where
/// it has one. `clap` panics on a value that is not valid UTF-8.
#[verifier::external_body]
pub(crate) fn value_of<'m>(matches: &'m clap::ArgMatches<'static>, name: &str) -> (out: Option<
    &'m str,
>)
    requires
        found(*matches) is Some,
    ensures
        match out {
            Some(value) => found(*matches)->0.values.contains_key(name@) && found(
                *matches,
            )->0.values[name@] == value@,
            None => !found(*matches)->0.values.contains_key(name@),
        },
{
    matches.value_of(name)
}

/// `clap::Error::use_stderr`: whether the message belongs on stderr.
#[verifier::external_body]
pub(crate) fn use_stderr(error: &clap::Error) -> (out: bool)
    ensures
        out == on_stderr(*error),
{
    error.use_stderr()
}

/// The field `message` of `clap::Error`: the text to show. It depends on the
/// terminal, so nothing is said of it.
#[verifier::external_body]
pub(crate) fn error_message(error: clap::Error) -> String {
    error.message
}

} // verus!
