//! Definitions of console variables.
//!
//! A console variable ("cvar") is a named value the console and the engine
//! share. Only the definition step lives here: a builder collects the name,
//! the initial value and the flags, and the registry that interprets the
//! values keeps them elsewhere.

use vstd::prelude::*;
use vstd::string::StringExecFns;

verus! {

/// Represents the definition of a new console variable.
///
/// The definition does not become active until a registry accepts it.
pub struct CvarBuilder {
    /// The variable's name.
    pub name: String,
    /// The variable's initial value, as text.
    pub string_val: String,
    /// Save the variable to the configuration file on shutdown?
    pub archive: bool,
    /// Broadcast changes of the variable to connected clients?
    pub server: bool,
}

impl CvarBuilder {
    /// Define a new console variable with the given name and initial
    /// value. Both flags start clear.
    pub fn new(name: &str, string_val: &str) -> (r: CvarBuilder)
        ensures
            r.name@ == name@,
            r.string_val@ == string_val@,
            r.archive == false,
            r.server == false,
    {
        CvarBuilder {
            name: String::from_str(name),
            string_val: String::from_str(string_val),
            archive: false,
            server: false,
        }
    }

    /// Mark this variable as "needs archiving": it will be saved to disk
    /// on shutdown.
    pub fn archive(self) -> (r: CvarBuilder)
        ensures
            r.name == self.name,
            r.string_val == self.string_val,
            r.archive == true,
            r.server == self.server,
    {
        let mut b = self;
        b.archive = true;
        b
    }

    /// Mark this variable as a server variable: changes are broadcast to
    /// all connected clients.
    pub fn server(self) -> (r: CvarBuilder)
        ensures
            r.name == self.name,
            r.string_val == self.string_val,
            r.archive == self.archive,
            r.server == true,
    {
        let mut b = self;
        b.server = true;
        b
    }
}

} // verus!
