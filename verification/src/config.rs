//! The configuration values the core reads: the grid dimensions and the
//! scrollback bound for the terminal, and the startup parameters for the
//! shell session. Loading and persisting a configuration file is the
//! surrounding application's business.
use vstd::prelude::*;

verus! {

/// The terminal dimensions and scrollback bound supplied at construction.
#[derive(Debug, Clone)]
pub struct TerminalConfig {
    pub rows: u32,
    pub cols: u32,
    pub scrollback_limit: usize,
}

impl Default for TerminalConfig {
    /// The standard 24-by-80 grid with a ten-thousand-line scrollback.
    fn default() -> (c: TerminalConfig)
        ensures
            c.rows == 24,
            c.cols == 80,
            c.scrollback_limit == 10000,
    {
        TerminalConfig { rows: 24, cols: 80, scrollback_limit: 10000 }
    }
}

/// The startup parameters for a shell session: an explicit shell override,
/// an explicit working directory, and caller-supplied environment variables
/// (later entries override earlier ones of the same name).
#[derive(Debug, Clone)]
pub struct ShellConfig {
    pub shell_command: Option<String>,
    pub working_directory: Option<String>,
    pub environment_variables: Vec<(String, String)>,
}

impl Default for ShellConfig {
    /// No override, no explicit directory, no extra variables: the shell is
    /// detected and the current directory is used.
    fn default() -> (c: ShellConfig)
        ensures
            c.shell_command is None,
            c.working_directory is None,
            c.environment_variables@ =~= Seq::<(String, String)>::empty(),
    {
        ShellConfig {
            shell_command: None,
            working_directory: None,
            environment_variables: Vec::new(),
        }
    }
}

} // verus!
