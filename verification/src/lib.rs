//! The language front end and the execution engine of an interactive command
//! shell. A line of text is scanned into tokens, parsed into commands, and
//! the commands are run one after the other. Whatever touches the operating
//! system is asked of the caller, who answers with what happened.

use vstd::prelude::*;

pub mod builtin;
pub mod command;
pub mod host;
pub mod lang;
pub mod laws;
pub mod shell;
pub mod table;
pub mod text;

pub use command::Command;
pub use shell::Shell;
use table::{map_of, Entries, Table};

verus! {

/// File below the home directory that keeps the lines entered so far.
pub const RSHISTORY: &'static str = ".rshistory";

/// File below the home directory whose lines are run when the shell starts.
pub const RSHELL_RC: &'static str = ".rshellrc";

/// Exit status of a line whose command was interrupted.
pub const SIGINT_EXIT_CODE: i32 = 130;

/// Exit status of a command that names no program to be found.
pub const NOT_FOUND_EXIT_CODE: i32 = 127;

/// Exit status of a command whose program could not be started for another
/// reason than that it was not found.
pub const SPAWN_ERROR_EXIT_CODE: i32 = 126;

/// Exit status of a command whose program was started but could not be
/// waited for.
pub const WAIT_ERROR_EXIT_CODE: i32 = 1;

/// The registry of aliases: each name stands for one replacement text.
pub struct Aliases {
    aliases: Table,
}

impl View for Aliases {
    type V = Map<Seq<char>, Seq<char>>;

    /// The mapping from alias name to replacement text.
    open spec fn view(&self) -> Map<Seq<char>, Seq<char>> {
        map_of(self.entries())
    }
}

impl Aliases {
    /// Names and replacement texts in the order in which the names were first
    /// set.
    pub closed spec fn entries(&self) -> Entries {
        self.aliases.entries()
    }

    /// The replacement text of `key`, if `key` is an alias.
    #[must_use]
    pub fn get(&self, key: &str) -> (value: Option<&String>)
        ensures
            match value {
                Some(text) => self@.contains_key(key@) && self@[key@] == text@,
                None => !self@.contains_key(key@),
            },
    {
        self.aliases.get(key)
    }

    /// A registry without aliases.
    pub fn new() -> (registry: Self)
        ensures
            registry.entries() == Entries::empty(),
            registry@ == Map::<Seq<char>, Seq<char>>::empty(),
    {
        Self { aliases: Table::new() }
    }

    /// Makes `key` an alias of `value` and returns the text it stood for
    /// before, if it was an alias already.
    pub fn set(&mut self, key: String, value: String) -> (previous: Option<String>)
        ensures
            final(self)@ == old(self)@.insert(key@, value@),
            final(self).entries() == table::entries_with(old(self).entries(), key@, value@),
            match previous {
                Some(text) => old(self)@.contains_key(key@) && old(self)@[key@] == text@,
                None => !old(self)@.contains_key(key@),
            },
    {
        self.aliases.set(key, value)
    }

    /// The number of aliases.
    pub fn len(&self) -> (n: usize)
        ensures
            n == self.entries().len(),
    {
        self.aliases.len()
    }

    /// The name of the alias at `index`, counted in the order of `entries`.
    pub fn key_at(&self, index: usize) -> (key: &String)
        requires
            index < self.entries().len(),
        ensures
            key@ == self.entries()[index as int].0,
    {
        self.aliases.key_at(index)
    }

    /// The replacement text of the alias at `index`.
    pub fn value_at(&self, index: usize) -> (value: &String)
        requires
            index < self.entries().len(),
        ensures
            value@ == self.entries()[index as int].1,
    {
        self.aliases.value_at(index)
    }
}

impl Default for Aliases {
    fn default() -> (registry: Self)
        ensures
            registry.entries() == Entries::empty(),
    {
        Aliases::new()
    }
}

} // verus!
