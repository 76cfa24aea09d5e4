//! The schema as a value, and the comparison of names.

use ferium::schema::{
    schema, CommandSpec, ADD, ADD_REPO, HELP, LIST, MOD_ID, OWNER, PROGRAM, REPO, UPGRADE, VERSION,
};
use ferium::text::str_eq;
use ferium::{get_subcommand, try_dispatch, Binding, Matches};

#[test]
fn schema_lists_the_subcommands_in_priority_order() {
    let names: Vec<&str> = schema().iter().map(|spec| spec.name).collect();
    assert_eq!(names, vec!["list", "upgrade", "help", "add", "add-repo", "version"]);
    assert_eq!(names, vec![LIST, UPGRADE, HELP, ADD, ADD_REPO, VERSION]);
}

#[test]
fn schema_gives_each_subcommand_its_arguments() {
    let table = schema();
    assert_eq!(table.len(), 6);
    assert_eq!(table[0], CommandSpec { name: "list", args: vec![] });
    assert_eq!(table[1], CommandSpec { name: "upgrade", args: vec![] });
    assert_eq!(table[2], CommandSpec { name: "help", args: vec![] });
    assert_eq!(table[3], CommandSpec { name: "add", args: vec!["MOD_ID"] });
    assert_eq!(table[4], CommandSpec { name: "add-repo", args: vec!["OWNER", "REPO"] });
    assert_eq!(table[5], CommandSpec { name: "version", args: vec![] });
    assert_eq!((MOD_ID, OWNER, REPO, PROGRAM), ("MOD_ID", "OWNER", "REPO", "ferium"));
}

#[test]
fn every_entry_parses_and_dispatches() {
    for spec in schema() {
        let mut words = vec![spec.name.to_string()];
        let mut values = Vec::new();
        for (position, arg) in spec.args.iter().enumerate() {
            let value = format!("value-{}", position);
            words.push(value.clone());
            values.push(Binding { name: arg.to_string(), value });
        }
        let parsed = get_subcommand(&words);
        assert!(parsed.is_ok(), "{:?}", parsed);
        let matched = Matches { subcommand: Some(spec.name.to_string()), values };
        assert!(matched.is_complete());
        assert_eq!(parsed, try_dispatch(&matched));
    }
}

#[test]
fn every_entry_needs_all_its_arguments() {
    for spec in schema() {
        for given in 0..spec.args.len() {
            let mut words = vec![spec.name.to_string()];
            let mut values = Vec::new();
            for arg in spec.args.iter().take(given) {
                words.push("value".to_string());
                values.push(Binding { name: arg.to_string(), value: "value".to_string() });
            }
            assert!(get_subcommand(&words).is_err());
            let matched = Matches { subcommand: Some(spec.name.to_string()), values };
            assert!(!matched.is_complete());
        }
    }
}

#[test]
fn str_eq_compares_by_characters() {
    assert!(str_eq("", ""));
    assert!(str_eq("add-repo", "add-repo"));
    assert!(!str_eq("add", "add-repo"));
    assert!(!str_eq("add-repo", "add"));
    assert!(!str_eq("list", "lisp"));
    assert!(!str_eq("list", "List"));
    assert!(!str_eq("", "a"));
    assert!(str_eq("r\u{e9}po", "r\u{e9}po"));
    assert!(!str_eq("r\u{e9}po", "repo"));
    assert!(!str_eq("\u{e9}", "\u{e8}"));
}
