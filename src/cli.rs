//! The command-line surface, as plain values.
use vstd::prelude::*;

verus! {

/// A subcommand.
#[derive(Debug, Clone, PartialEq, Eq)]
pub enum Commands {
    /// Download a transcript and optionally generate its report.
    Get { video_id: String, languages: String, preserve_formatting: bool, report: bool },
    /// Generate a report from a stored transcript.
    Report { video_id: String },
    /// List stored transcripts and reports.
    List,
    /// Open the terminal interface.
    Tui,
}

/// Parsed command-line arguments.
#[derive(Debug, Clone, PartialEq, Eq)]
pub struct Cli {
    pub command: Option<Commands>,
    /// Stay in command-line mode: never open the terminal interface.
    pub cli: bool,
}

impl Cli {
    /// Whether the terminal interface opens: no subcommand or `tui`, and not
    /// forced into command-line mode.
    pub fn wants_tui(&self) -> (r: bool)
        ensures
            r == (!self.cli && match self.command {
                None => true,
                Some(Commands::Tui) => true,
                _ => false,
            }),
    {
        if self.cli {
            return false;
        }
        match &self.command {
            None => true,
            Some(Commands::Tui) => true,
            _ => false,
        }
    }
}

} // verus!
