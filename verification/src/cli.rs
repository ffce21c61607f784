use vstd::prelude::*;

verus! {

/// The command line: a prefix for both output streams, whether to lead each
/// line with the date and time, and the command to run (empty: decorate
/// standard input instead).
pub struct Cli {
    /// Added in front of every line of standard output and standard error.
    pub prefix: String,
    /// Adds the date and time in front of every line.
    pub date: bool,
    /// The command to run and its arguments; standard input is decorated
    /// when it is empty.
    pub command: Vec<String>,
}

impl Cli {
    /// True when no command is given, so that standard input is decorated
    /// (pipe mode) instead of the output of a command.
    pub fn pipe_mode(&self) -> (r: bool)
        ensures
            r == (self.command@.len() == 0),
    {
        self.command.len() == 0
    }
}

} // verus!
