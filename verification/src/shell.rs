//! The state that one shell carries from line to line.

use crate::table::{Entries, Table};
use crate::Aliases;
use vstd::prelude::*;

verus! {

/// The environment variables that expansion reads, as of the moment the
/// caller filled them in.
pub struct Environment {
    variables: Table,
}

impl View for Environment {
    type V = Map<Seq<char>, Seq<char>>;

    /// The mapping from variable name to value.
    closed spec fn view(&self) -> Map<Seq<char>, Seq<char>> {
        self.variables@
    }
}

impl Environment {
    /// An environment without variables.
    pub fn new() -> (environment: Self)
        ensures
            environment@ == Map::<Seq<char>, Seq<char>>::empty(),
    {
        Self { variables: Table::new() }
    }

    /// The value of the variable `name`, if it is set.
    #[must_use]
    pub fn get(&self, name: &str) -> (value: Option<&String>)
        ensures
            match value {
                Some(text) => self@.contains_key(name@) && self@[name@] == text@,
                None => !self@.contains_key(name@),
            },
    {
        self.variables.get(name)
    }

    /// Sets the variable `name` to `value` and returns its earlier value.
    pub fn set(&mut self, name: String, value: String) -> (previous: Option<String>)
        ensures
            final(self)@ == old(self)@.insert(name@, value@),
            match previous {
                Some(text) => old(self)@.contains_key(name@) && old(self)@[name@] == text@,
                None => !old(self)@.contains_key(name@),
            },
    {
        self.variables.set(name, value)
    }
}

impl Default for Environment {
    fn default() -> (environment: Self)
        ensures
            environment@ == Map::<Seq<char>, Seq<char>>::empty(),
    {
        Environment::new()
    }
}

/// The value of `name` in `environment`, or the empty text where it is not set.
pub open spec fn value_or_empty(environment: Map<Seq<char>, Seq<char>>, name: Seq<char>) -> Seq<
    char,
> {
    if environment.contains_key(name) {
        environment[name]
    } else {
        Seq::empty()
    }
}

/// What a shell knows while it works on a line: its aliases, the exit status
/// of the line before, and the environment.
pub struct Shell {
    pub aliases: Aliases,
    pub previous_exit_code: i32,
    pub environment: Environment,
}

/// A shell as contracts see it.
pub ghost struct ShellView {
    pub aliases: Entries,
    pub previous_exit_code: i32,
    pub environment: Map<Seq<char>, Seq<char>>,
}

impl View for Shell {
    type V = ShellView;

    open spec fn view(&self) -> ShellView {
        ShellView {
            aliases: self.aliases.entries(),
            previous_exit_code: self.previous_exit_code,
            environment: self.environment@,
        }
    }
}

impl ShellView {
    /// The home directory, or the empty text where none is set.
    pub open spec fn home(self) -> Seq<char> {
        value_or_empty(self.environment, "HOME"@)
    }
}

impl Shell {
    /// A shell without aliases whose previous exit status is zero.
    pub fn new(environment: Environment) -> (shell: Self)
        ensures
            shell@ == (ShellView {
                aliases: Entries::empty(),
                previous_exit_code: 0,
                environment: environment@,
            }),
    {
        Shell { aliases: Aliases::new(), previous_exit_code: 0, environment }
    }
}

} // verus!
