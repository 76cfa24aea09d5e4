//! The command-line surface, one invocation at a time.

use ferium::failure::INCOMPLETE;
use ferium::{dispatch, get_subcommand, parse, Binding, Matches, ParseFailure, SubCommand};

fn args(words: &[&str]) -> Vec<String> {
    words.iter().map(|word| word.to_string()).collect()
}

fn usage_message(words: &[&str]) -> String {
    match get_subcommand(&args(words)) {
        Err(ParseFailure::Usage { message }) => message,
        other => panic!("expected a usage failure, got {:?}", other),
    }
}

fn display_message(words: &[&str]) -> String {
    match get_subcommand(&args(words)) {
        Err(ParseFailure::Display { message }) => message,
        other => panic!("expected a text to display, got {:?}", other),
    }
}

#[test]
fn no_arguments_imply_help() {
    assert_eq!(get_subcommand(&args(&[])), Ok(SubCommand::Help { implied: true }));
}

#[test]
fn help_is_explicit() {
    assert_eq!(get_subcommand(&args(&["help"])), Ok(SubCommand::Help { implied: false }));
}

#[test]
fn add_without_a_value_is_a_usage_failure() {
    let message = usage_message(&["add"]);
    assert!(message.contains("MOD_ID"), "{}", message);
    assert_ne!(message, INCOMPLETE);
}

#[test]
fn add_takes_the_mod_id() {
    assert_eq!(
        get_subcommand(&args(&["add", "sodium"])),
        Ok(SubCommand::Add { mod_id: "sodium".to_string() })
    );
}

#[test]
fn add_repo_takes_owner_then_name() {
    assert_eq!(
        get_subcommand(&args(&["add-repo", "octo-org", "octo-repo"])),
        Ok(SubCommand::AddRepo { owner: "octo-org".to_string(), name: "octo-repo".to_string() })
    );
}

#[test]
fn add_repo_is_order_sensitive() {
    let straight = get_subcommand(&args(&["add-repo", "octo-org", "octo-repo"]));
    let swapped = get_subcommand(&args(&["add-repo", "octo-repo", "octo-org"]));
    assert_eq!(
        swapped,
        Ok(SubCommand::AddRepo { owner: "octo-repo".to_string(), name: "octo-org".to_string() })
    );
    assert_ne!(straight, swapped);
}

#[test]
fn add_repo_with_equal_arguments() {
    assert_eq!(
        get_subcommand(&args(&["add-repo", "same", "same"])),
        Ok(SubCommand::AddRepo { owner: "same".to_string(), name: "same".to_string() })
    );
}

#[test]
fn list_upgrade_and_version_carry_nothing() {
    assert_eq!(get_subcommand(&args(&["list"])), Ok(SubCommand::List));
    assert_eq!(get_subcommand(&args(&["upgrade"])), Ok(SubCommand::Upgrade));
    assert_eq!(get_subcommand(&args(&["version"])), Ok(SubCommand::Version));
}

#[test]
fn the_same_arguments_give_the_same_command() {
    for words in [
        &["list"][..],
        &["upgrade"][..],
        &["version"][..],
        &["help"][..],
        &[][..],
        &["add", "sodium"][..],
        &["add-repo", "octo-org", "octo-repo"][..],
    ] {
        let first = get_subcommand(&args(words));
        let second = get_subcommand(&args(words));
        assert!(first.is_ok());
        assert_eq!(first, second);
    }
}

#[test]
fn an_unknown_subcommand_is_a_usage_failure() {
    let message = usage_message(&["frobnicate"]);
    assert!(message.contains("frobnicate"), "{}", message);
}

#[test]
fn a_misspelt_subcommand_is_a_usage_failure() {
    let message = usage_message(&["lst"]);
    assert!(!message.is_empty());
}

#[test]
fn subcommand_names_are_case_sensitive() {
    usage_message(&["LIST"]);
    usage_message(&["Add", "sodium"]);
}

#[test]
fn payload_is_taken_literally() {
    assert_eq!(
        get_subcommand(&args(&["add", "  SoDiUm\t"])),
        Ok(SubCommand::Add { mod_id: "  SoDiUm\t".to_string() })
    );
    assert_eq!(
        get_subcommand(&args(&["add-repo", "Octo Org", "r\u{e9}po/\u{1f980}"])),
        Ok(SubCommand::AddRepo {
            owner: "Octo Org".to_string(),
            name: "r\u{e9}po/\u{1f980}".to_string(),
        })
    );
}

#[test]
fn a_subcommand_name_can_be_a_value() {
    assert_eq!(
        get_subcommand(&args(&["add", "list"])),
        Ok(SubCommand::Add { mod_id: "list".to_string() })
    );
    assert_eq!(
        get_subcommand(&args(&["add-repo", "help", "version"])),
        Ok(SubCommand::AddRepo { owner: "help".to_string(), name: "version".to_string() })
    );
}

#[test]
fn add_repo_without_values_is_a_usage_failure() {
    let message = usage_message(&["add-repo"]);
    assert!(message.contains("OWNER"), "{}", message);
    assert!(message.contains("REPO"), "{}", message);
}

#[test]
fn add_repo_with_one_value_is_a_usage_failure() {
    let message = usage_message(&["add-repo", "octo-org"]);
    assert!(message.contains("REPO"), "{}", message);
    assert_ne!(message, INCOMPLETE);
}

#[test]
fn an_empty_mod_id_is_a_usage_failure() {
    assert_eq!(usage_message(&["add", ""]), INCOMPLETE);
}

#[test]
fn an_empty_owner_or_name_is_a_usage_failure() {
    assert_eq!(usage_message(&["add-repo", "", "octo-repo"]), INCOMPLETE);
    assert_eq!(usage_message(&["add-repo", "octo-org", ""]), INCOMPLETE);
}

#[test]
fn surplus_arguments_are_a_usage_failure() {
    usage_message(&["list", "extra"]);
    usage_message(&["upgrade", "extra"]);
    usage_message(&["version", "extra"]);
    usage_message(&["help", "extra"]);
    usage_message(&["add", "sodium", "lithium"]);
    usage_message(&["add-repo", "octo-org", "octo-repo", "more"]);
}

#[test]
fn an_unknown_flag_is_a_usage_failure() {
    usage_message(&["--frobnicate"]);
    usage_message(&["list", "-x"]);
}

#[test]
fn a_value_after_two_hyphens_is_taken() {
    assert_eq!(
        get_subcommand(&args(&["add", "--", "-sodium"])),
        Ok(SubCommand::Add { mod_id: "-sodium".to_string() })
    );
}

#[test]
fn the_help_flag_asks_for_a_text() {
    let long = display_message(&["--help"]);
    assert!(long.contains("add-repo"), "{}", long);
    assert!(long.contains("upgrade"), "{}", long);
    let short = display_message(&["-h"]);
    assert!(short.contains("USAGE"), "{}", short);
    let below = display_message(&["add", "--help"]);
    assert!(below.contains("MOD_ID"), "{}", below);
}

#[test]
fn the_version_flag_is_not_taken() {
    for words in [&["--version"][..], &["-V"][..], &["list", "-V"][..], &["add", "--version"][..]] {
        let message = usage_message(words);
        assert!(!message.is_empty());
    }
}

#[test]
fn the_program_name_is_not_an_argument() {
    assert!(get_subcommand(&args(&["ferium"])).is_err());
    assert!(get_subcommand(&args(&["ferium", "list"])).is_err());
}

fn binding(name: &str, value: &str) -> Binding {
    Binding { name: name.to_string(), value: value.to_string() }
}

#[test]
fn parse_without_arguments_names_no_subcommand() {
    assert_eq!(parse(&args(&[])), Ok(Matches { subcommand: None, values: vec![] }));
}

#[test]
fn parse_binds_the_mod_id() {
    assert_eq!(
        parse(&args(&["add", "sodium"])),
        Ok(Matches {
            subcommand: Some("add".to_string()),
            values: vec![binding("MOD_ID", "sodium")],
        })
    );
}

#[test]
fn parse_binds_owner_and_repo_in_order() {
    assert_eq!(
        parse(&args(&["add-repo", "octo-org", "octo-repo"])),
        Ok(Matches {
            subcommand: Some("add-repo".to_string()),
            values: vec![binding("OWNER", "octo-org"), binding("REPO", "octo-repo")],
        })
    );
}

#[test]
fn parse_names_the_subcommands_without_arguments() {
    for name in ["list", "upgrade", "help", "version"] {
        assert_eq!(
            parse(&args(&[name])),
            Ok(Matches { subcommand: Some(name.to_string()), values: vec![] })
        );
    }
}

#[test]
fn parse_gives_only_complete_results() {
    for words in [
        &[][..],
        &["list"][..],
        &["add", "sodium"][..],
        &["add", ""][..],
        &["add"][..],
        &["add-repo", "octo-org", "octo-repo"][..],
        &["add-repo", "", ""][..],
        &["add-repo", "octo-org"][..],
        &["frobnicate"][..],
    ] {
        if let Ok(matched) = parse(&args(words)) {
            assert!(matched.is_complete(), "{:?}", words);
            assert_eq!(Ok(dispatch(&matched)), get_subcommand(&args(words)));
        } else {
            assert!(get_subcommand(&args(words)).is_err(), "{:?}", words);
        }
    }
}

#[test]
fn parse_refuses_what_the_schema_does_not_know() {
    assert!(matches!(parse(&args(&["frobnicate"])), Err(ParseFailure::Usage { .. })));
    assert!(matches!(parse(&args(&["add"])), Err(ParseFailure::Usage { .. })));
    assert!(matches!(parse(&args(&["--help"])), Err(ParseFailure::Display { .. })));
    assert_eq!(
        parse(&args(&["add", ""])),
        Err(ParseFailure::Usage { message: INCOMPLETE.to_string() })
    );
}

#[test]
fn failures_carry_their_exit_status_and_message() {
    let usage = get_subcommand(&args(&["frobnicate"])).unwrap_err();
    assert_eq!(usage.exit_status(), 1);
    assert!(usage.message().contains("frobnicate"));
    let display = get_subcommand(&args(&["--help"])).unwrap_err();
    assert_eq!(display.exit_status(), 0);
    assert!(display.message().contains("USAGE"));
    let incomplete = get_subcommand(&args(&["add", ""])).unwrap_err();
    assert_eq!(incomplete.exit_status(), 1);
    assert_eq!(incomplete.message(), INCOMPLETE);
}

#[test]
fn two_hyphens_alone_name_no_subcommand() {
    assert_eq!(get_subcommand(&args(&["--"])), Ok(SubCommand::Help { implied: true }));
}

#[test]
fn after_two_hyphens_nothing_is_a_subcommand() {
    usage_message(&["--", "list"]);
}

#[test]
fn a_single_hyphen_is_a_value() {
    assert_eq!(
        get_subcommand(&args(&["add", "-"])),
        Ok(SubCommand::Add { mod_id: "-".to_string() })
    );
    usage_message(&["-"]);
}

#[test]
fn an_empty_argument_is_no_subcommand() {
    usage_message(&[""]);
}

#[test]
fn a_value_that_starts_with_a_hyphen_is_taken_for_a_flag() {
    usage_message(&["add", "-sodium"]);
    usage_message(&["add", "--sodium"]);
}
