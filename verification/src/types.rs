//! Shared value types and the error taxonomy of the terminal library.

use vstd::prelude::*;

verus! {

/// Terminal dimensions in character cells.
#[derive(Debug, Clone, Copy, PartialEq, Eq, Structural)]
pub struct Dimensions {
    pub rows: u16,
    pub cols: u16,
}

impl Default for Dimensions {
    /// The conventional 24x80 terminal.
    fn default() -> (d: Dimensions)
        ensures
            d.rows == 24,
            d.cols == 80,
    {
        Dimensions { rows: 24, cols: 80 }
    }
}

/// Cursor position in the terminal, 0-indexed.
#[derive(Debug, Clone, Copy, PartialEq, Eq, Structural)]
pub struct CursorPosition {
    pub row: u16,
    pub col: u16,
}

impl Default for CursorPosition {
    fn default() -> (p: CursorPosition)
        ensures
            p.row == 0,
            p.col == 0,
    {
        CursorPosition { row: 0, col: 0 }
    }
}

/// Output format for terminal content.
#[derive(Debug, Clone, Copy, PartialEq, Eq, Structural)]
pub enum OutputFormat {
    /// Strip ANSI codes, return plain text.
    Plain,
    /// Preserve ANSI codes.
    Raw,
}

impl Default for OutputFormat {
    fn default() -> (f: OutputFormat)
        ensures
            f == OutputFormat::Plain,
    {
        OutputFormat::Plain
    }
}

/// View mode for reading terminal content.
#[derive(Debug, Clone, Copy, PartialEq, Eq, Structural)]
pub enum ViewMode {
    /// Current visible buffer (rows x cols).
    Screen,
    /// All output since last read.
    New,
    /// Historical output with pagination.
    Scrollback,
}

impl Default for ViewMode {
    fn default() -> (v: ViewMode)
        ensures
            v == ViewMode::New,
    {
        ViewMode::New
    }
}

/// Terminal server error kinds. Each carries a stable short code.
#[derive(Debug, Clone, PartialEq, Eq)]
pub enum TerminalError {
    /// PTY or system error.
    Pty(String),
    /// IO error.
    Io(String),
    /// No session under the given id.
    SessionNotFound(String),
    /// The session limit was reached; carries the limit.
    MaxSessionsReached(usize),
    /// The session was already destroyed.
    SessionDestroyed(String),
    /// The session recorded a sticky error.
    SessionError(String),
    /// Neither text nor key was provided.
    NoInput,
    /// An unknown key name.
    InvalidKey(String),
    /// The prompt pattern did not compile.
    InvalidPattern(String),
    /// The child process has exited.
    ProcessExited(Option<i32>),
    /// The program could not be found.
    ProgramNotFound(String),
    /// A wait ran out of time; carries the timeout in milliseconds.
    WaitTimeout(u64),
    /// The reader channel was closed.
    ChannelClosed,
}

impl TerminalError {
    /// The stable short code of this error kind.
    pub fn code(&self) -> (r: &'static str)
        ensures
            r@ == self.code_spec(),
    {
        match self {
            TerminalError::Pty(_) => "PTY_ERROR",
            TerminalError::Io(_) => "IO_ERROR",
            TerminalError::SessionNotFound(_) => "SESSION_NOT_FOUND",
            TerminalError::MaxSessionsReached(_) => "MAX_SESSIONS",
            TerminalError::SessionDestroyed(_) => "SESSION_DESTROYED",
            TerminalError::SessionError(_) => "SESSION_ERROR",
            TerminalError::NoInput => "NO_INPUT",
            TerminalError::InvalidKey(_) => "INVALID_KEY",
            TerminalError::InvalidPattern(_) => "INVALID_PATTERN",
            TerminalError::ProcessExited(_) => "PROCESS_EXITED",
            TerminalError::ProgramNotFound(_) => "PROGRAM_NOT_FOUND",
            TerminalError::WaitTimeout(_) => "WAIT_TIMEOUT",
            TerminalError::ChannelClosed => "CHANNEL_CLOSED",
        }
    }

    /// What `code` returns for each variant.
    pub open spec fn code_spec(&self) -> Seq<char> {
        match self {
            TerminalError::Pty(_) => "PTY_ERROR"@,
            TerminalError::Io(_) => "IO_ERROR"@,
            TerminalError::SessionNotFound(_) => "SESSION_NOT_FOUND"@,
            TerminalError::MaxSessionsReached(_) => "MAX_SESSIONS"@,
            TerminalError::SessionDestroyed(_) => "SESSION_DESTROYED"@,
            TerminalError::SessionError(_) => "SESSION_ERROR"@,
            TerminalError::NoInput => "NO_INPUT"@,
            TerminalError::InvalidKey(_) => "INVALID_KEY"@,
            TerminalError::InvalidPattern(_) => "INVALID_PATTERN"@,
            TerminalError::ProcessExited(_) => "PROCESS_EXITED"@,
            TerminalError::ProgramNotFound(_) => "PROGRAM_NOT_FOUND"@,
            TerminalError::WaitTimeout(_) => "WAIT_TIMEOUT"@,
            TerminalError::ChannelClosed => "CHANNEL_CLOSED"@,
        }
    }
}

} // verus!
