//! The command line of the virtual machine, as plain values.
use vstd::prelude::*;

verus! {

/// What the command line asks for: the classes whose `main` methods to run, whether to
/// log in the plainer test format (and print through the test printers), and extra
/// class path entries. The command line has no subcommands.
#[derive(Debug, Clone)]
pub struct Cli {
    pub classes: Vec<String>,
    pub test: bool,
    pub classpath: Vec<String>,
}

impl Cli {
    /// Whether the command line names no class to run.
    pub fn nothing_to_run(&self) -> (r: bool)
        ensures
            r == (self.classes@.len() == 0),
    {
        self.classes.len() == 0
    }
}

} // verus!
