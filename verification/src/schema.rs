//! The argument schema: which subcommands there are, and which positional
//! arguments each of them requires.

use vstd::prelude::*;

verus! {

/// The name of the program, as usage messages show it.
pub const PROGRAM: &'static str = "ferium";

/// The subcommand that lists what is configured.
pub const LIST: &'static str = "list";

/// The subcommand that installs the latest version of what is configured.
pub const UPGRADE: &'static str = "upgrade";

/// The subcommand that shows the help page.
pub const HELP: &'static str = "help";

/// The subcommand that adds a mod.
pub const ADD: &'static str = "add";

/// The subcommand that adds a repository.
pub const ADD_REPO: &'static str = "add-repo";

/// The subcommand that prints the version.
pub const VERSION: &'static str = "version";

/// The argument of `add`: the ID of the mod.
pub const MOD_ID: &'static str = "MOD_ID";

/// The first argument of `add-repo`: the owner of the repository.
pub const OWNER: &'static str = "OWNER";

/// The second argument of `add-repo`: the name of the repository.
pub const REPO: &'static str = "REPO";

/// One entry of the schema: a subcommand and the positional arguments that it
/// requires, in the order in which they are given.
#[derive(Debug, Clone, PartialEq, Eq)]
pub struct CommandSpec {
    pub name: &'static str,
    pub args: Vec<&'static str>,
}

/// The mathematical value of a [`CommandSpec`].
pub struct Entry {
    pub name: Seq<char>,
    pub args: Seq<Seq<char>>,
}

impl View for CommandSpec {
    type V = Entry;

    open spec fn view(&self) -> Entry {
        Entry { name: self.name@, args: self.args@.map_values(|arg: &'static str| arg@) }
    }
}

/// The schema, in the order in which the subcommands are tested.
pub open spec fn entries() -> Seq<Entry> {
    seq![
        Entry { name: LIST@, args: seq![] },
        Entry { name: UPGRADE@, args: seq![] },
        Entry { name: HELP@, args: seq![] },
        Entry { name: ADD@, args: seq![MOD_ID@] },
        Entry { name: ADD_REPO@, args: seq![OWNER@, REPO@] },
        Entry { name: VERSION@, args: seq![] },
    ]
}

/// No two entries of `table` have the same name, and no entry names an
/// argument twice.
pub open spec fn unambiguous(table: Seq<Entry>) -> bool {
    &&& forall|i: int, j: int|
        0 <= i < j < table.len() ==> (#[trigger] table[i]).name != (#[trigger] table[j]).name
    &&& forall|i: int, j: int, k: int|
        0 <= i < table.len() && 0 <= j < k < table[i].args.len() ==> table[i].args[j]
            != table[i].args[k]
}

/// The entry of `table` for the subcommand `name`, if it has one.
pub open spec fn entry_of(table: Seq<Entry>, name: Seq<char>) -> Option<Entry> {
    if exists|i: int| 0 <= i < table.len() && table[i].name == name {
        Some(table[choose|i: int| 0 <= i < table.len() && table[i].name == name])
    } else {
        None
    }
}

/// In a table without repeated names, the entry for a name is the one that
/// carries it.
pub proof fn lemma_entry_of_index(table: Seq<Entry>, i: int)
    requires
        unambiguous(table),
        0 <= i < table.len(),
    ensures
        entry_of(table, table[i].name) == Some(table[i]),
{
    let j = choose|j: int| 0 <= j < table.len() && table[j].name == table[i].name;
    if j < i {
        assert(table[j].name != table[i].name);
    } else if i < j {
        assert(table[i].name != table[j].name);
    }
}

/// The six names of the schema differ from each other, and so do the two
/// arguments of `add-repo`.
pub proof fn lemma_schema_unambiguous()
    ensures
        unambiguous(entries()),
        entries().len() == 6,
{
    reveal_strlit("list");
    reveal_strlit("upgrade");
    reveal_strlit("help");
    reveal_strlit("add");
    reveal_strlit("add-repo");
    reveal_strlit("version");
    reveal_strlit("OWNER");
    reveal_strlit("REPO");
    assert(LIST@.len() == 4 && LIST@[0] == 'l');
    assert(UPGRADE@.len() == 7);
    assert(HELP@.len() == 4 && HELP@[0] == 'h');
    assert(ADD@.len() == 3);
    assert(ADD_REPO@.len() == 8);
    assert(VERSION@.len() == 7 && VERSION@[0] == 'v' && UPGRADE@[0] == 'u');
    assert(OWNER@.len() == 5 && REPO@.len() == 4);
    let table = entries();
    assert forall|i: int, j: int| 0 <= i < j < table.len() implies (#[trigger] table[i]).name
        != (#[trigger] table[j]).name by {}
    assert forall|i: int, j: int, k: int|
        0 <= i < table.len() && 0 <= j < k < table[i].args.len() implies table[i].args[j]
        != table[i].args[k] by {}
}

/// The schema as a value.
pub fn schema() -> (table: Vec<CommandSpec>)
    ensures
        table@.map_values(|spec: CommandSpec| spec@) == entries(),
{
    let mut add: Vec<&'static str> = Vec::new();
    add.push(MOD_ID);
    let mut add_repo: Vec<&'static str> = Vec::new();
    add_repo.push(OWNER);
    add_repo.push(REPO);
    let mut table: Vec<CommandSpec> = Vec::new();
    table.push(CommandSpec { name: LIST, args: Vec::new() });
    table.push(CommandSpec { name: UPGRADE, args: Vec::new() });
    table.push(CommandSpec { name: HELP, args: Vec::new() });
    table.push(CommandSpec { name: ADD, args: add });
    table.push(CommandSpec { name: ADD_REPO, args: add_repo });
    table.push(CommandSpec { name: VERSION, args: Vec::new() });
    proof {
        let got = table@.map_values(|spec: CommandSpec| spec@);
        assert(got.len() == 6);
        assert(got[0].args =~= seq![]);
        assert(got[1].args =~= seq![]);
        assert(got[2].args =~= seq![]);
        assert(got[3].args =~= seq![MOD_ID@]);
        assert(got[4].args =~= seq![OWNER@, REPO@]);
        assert(got[5].args =~= seq![]);
        assert(got =~= entries());
    }
    table
}

} // verus!
