//! The structured result of matching a command line against the schema: which
//! subcommand was named, and the values bound to its parameters.

use crate::schema::{
    entries, entry_of, lemma_entry_of_index, lemma_schema_unambiguous, schema, unambiguous,
    CommandSpec,
};
use crate::text::str_eq;
use vstd::prelude::*;

verus! {

/// A value bound to a parameter of the subcommand.
#[derive(Debug, Clone, PartialEq, Eq)]
pub struct Binding {
    pub name: String,
    pub value: String,
}

impl View for Binding {
    type V = (Seq<char>, Seq<char>);

    open spec fn view(&self) -> (Seq<char>, Seq<char>) {
        (self.name@, self.value@)
    }
}

/// What a command line was matched to. Where `values` binds a parameter more
/// than once, the first binding counts.
#[derive(Debug, Clone, PartialEq, Eq)]
pub struct Matches {
    /// The subcommand that was named, if any.
    pub subcommand: Option<String>,
    /// The values bound to the parameters of that subcommand.
    pub values: Vec<Binding>,
}

/// The mathematical value of a [`Matches`]: the values as a map from the
/// parameter's name.
pub struct Matched {
    pub subcommand: Option<Seq<char>>,
    pub values: Map<Seq<char>, Seq<char>>,
}

/// The map that a list of bindings stands for: each name with the value of
/// its first binding.
pub open spec fn bound(bindings: Seq<(Seq<char>, Seq<char>)>) -> Map<Seq<char>, Seq<char>>
    decreases bindings.len(),
{
    if bindings.len() == 0 {
        Map::empty()
    } else {
        let earlier = bound(bindings.drop_last());
        let (name, value) = bindings.last();
        if earlier.contains_key(name) {
            earlier
        } else {
            earlier.insert(name, value)
        }
    }
}

/// A name that no binding carries is not bound.
pub proof fn lemma_bound_absent(bindings: Seq<(Seq<char>, Seq<char>)>, name: Seq<char>)
    requires
        forall|k: int| 0 <= k < bindings.len() ==> (#[trigger] bindings[k]).0 != name,
    ensures
        !bound(bindings).contains_key(name),
    decreases bindings.len(),
{
    if bindings.len() > 0 {
        lemma_bound_absent(bindings.drop_last(), name);
    }
}

/// A name is bound to the value of the first binding that carries it.
pub proof fn lemma_bound_first(bindings: Seq<(Seq<char>, Seq<char>)>, i: int)
    requires
        0 <= i < bindings.len(),
        forall|k: int| 0 <= k < i ==> (#[trigger] bindings[k]).0 != bindings[i].0,
    ensures
        bound(bindings).contains_key(bindings[i].0),
        bound(bindings)[bindings[i].0] == bindings[i].1,
    decreases bindings.len(),
{
    if i == bindings.len() - 1 {
        lemma_bound_absent(bindings.drop_last(), bindings[i].0);
    } else {
        lemma_bound_first(bindings.drop_last(), i);
    }
}

impl View for Matches {
    type V = Matched;

    open spec fn view(&self) -> Matched {
        Matched {
            subcommand: match self.subcommand {
                Some(name) => Some(name@),
                None => None,
            },
            values: bound(self.values@.map_values(|binding: Binding| binding@)),
        }
    }
}

impl Matched {
    /// A subcommand was named, and the schema has an entry for it.
    pub open spec fn names_entry(self) -> bool {
        self.subcommand matches Some(name) && entry_of(entries(), name) is Some
    }

    /// The parameter `name` is bound to a value that is not empty.
    pub open spec fn has_value(self, name: Seq<char>) -> bool {
        self.values.contains_key(name) && self.values[name].len() > 0
    }

    /// Each of the parameters `names` is bound to a value that is not empty.
    pub open spec fn has_values(self, names: Seq<Seq<char>>) -> bool {
        forall|j: int| 0 <= j < names.len() ==> self.has_value(#[trigger] names[j])
    }

    /// Every parameter that the schema requires of the named subcommand is
    /// bound to a value that is not empty. Of a name that the schema does not
    /// know, and where no subcommand was named, nothing is required.
    pub open spec fn complete(self) -> bool {
        match self.subcommand {
            Some(name) => match entry_of(entries(), name) {
                Some(entry) => self.has_values(entry.args),
                None => true,
            },
            None => true,
        }
    }
}

impl Matches {
    /// The value bound to the parameter `name`, if there is one.
    pub fn value_of(&self, name: &str) -> (value: Option<&String>)
        ensures
            match value {
                Some(v) => self@.values.contains_key(name@) && self@.values[name@] == v@,
                None => !self@.values.contains_key(name@),
            },
    {
        let ghost bindings = self.values@.map_values(|binding: Binding| binding@);
        let mut i: usize = 0;
        while i < self.values.len()
            invariant
                i <= self.values.len(),
                bindings == self.values@.map_values(|binding: Binding| binding@),
                forall|k: int| 0 <= k < i ==> (#[trigger] bindings[k]).0 != name@,
            decreases self.values.len() - i,
        {
            if str_eq(self.values[i].name.as_str(), name) {
                proof {
                    lemma_bound_first(bindings, i as int);
                }
                return Some(&self.values[i].value);
            }
            i += 1;
        }
        proof {
            lemma_bound_absent(bindings, name@);
        }
        None
    }

    /// Whether every parameter that the schema requires of the named
    /// subcommand is bound to a value that is not empty.
    pub fn is_complete(&self) -> (complete: bool)
        ensures
            complete == self@.complete(),
    {
        let name = match &self.subcommand {
            Some(name) => name,
            None => {
                return true;
            },
        };
        let table = schema();
        proof {
            lemma_schema_unambiguous();
        }
        let mut i: usize = 0;
        while i < table.len()
            invariant
                i <= table.len(),
                self@.subcommand == Some(name@),
                table@.map_values(|spec: CommandSpec| spec@) == entries(),
                unambiguous(entries()),
                forall|k: int| 0 <= k < i ==> (#[trigger] entries()[k]).name != name@,
            decreases table.len() - i,
        {
            let ghost entry = entries()[i as int];
            assert(entry == table@[i as int]@);
            if str_eq(table[i].name, name.as_str()) {
                proof {
                    lemma_entry_of_index(entries(), i as int);
                }
                let mut j: usize = 0;
                while j < table[i].args.len()
                    invariant
                        i < table.len(),
                        j <= table[i as int].args.len(),
                        entry == table@[i as int]@,
                        self@.subcommand == Some(name@),
                        entry_of(entries(), name@) == Some(entry),
                        entry.args.len() == table[i as int].args.len(),
                        forall|k: int| 0 <= k < j ==> self@.has_value(#[trigger] entry.args[k]),
                    decreases table[i as int].args.len() - j,
                {
                    assert(entry.args[j as int] == table@[i as int].args@[j as int]@);
                    match self.value_of(table[i].args[j]) {
                        Some(value) => {
                            if value.as_str().is_empty() {
                                return false;
                            }
                        },
                        None => {
                            return false;
                        },
                    }
                    j += 1;
                }
                return true;
            }
            i += 1;
        }
        true
    }
}

} // verus!
