//! Per-session terminal state and session identity.

use vstd::prelude::*;

use crate::emulator::ScreenPerformer;
use crate::prompt::PromptDetector;
use crate::prompt::detect_spec;
use crate::prompt::regex_valid;
use crate::screen::ScreenBuffer;
use crate::scrollback::ScrollbackBuffer;
use crate::strutil::chars_to_string;
use crate::strutil::str_to_chars;
use crate::strutil::chars_eq_str;
use crate::tracker::OutputTracker;
use crate::types::CursorPosition;
use crate::types::Dimensions;
use crate::types::OutputFormat;
use crate::types::TerminalError;
use crate::types::ViewMode;

verus! {

/// What `uuid::Uuid::new_v4().to_string()` yields: 36 characters, hyphens
/// at positions 8, 13, 18 and 23, lowercase hex digits everywhere else.
pub open spec fn uuid_shaped(s: Seq<char>) -> bool {
    &&& s.len() == 36
    &&& forall|i: int|
        0 <= i < 36 ==> if i == 8 || i == 13 || i == 18 || i == 23 {
            #[trigger] s[i] == '-'
        } else {
            ('0' <= s[i] && s[i] <= '9') || ('a' <= s[i] && s[i] <= 'f')
        }
}

/// Relies on uuid::Uuid::new_v4 and its Display impl: a fresh random UUID,
/// rendered hyphenated in lowercase hex. Nothing is promised of which
/// digits come out, only the shape.
#[verifier::external_body]
fn fresh_uuid_string() -> (r: String)
    ensures
        uuid_shaped(r@),
{
    uuid::Uuid::new_v4().to_string()
}

/// Whether `c` is an ASCII letter or digit.
pub open spec fn is_alnum_spec(c: char) -> bool {
    ||| ('0' <= c && c <= '9')
    ||| ('a' <= c && c <= 'z')
    ||| ('A' <= c && c <= 'Z')
}

/// Generate a session id: the prefix `sess_` followed by the first 8
/// alphanumeric characters of a fresh UUID.
pub fn generate_session_id() -> (r: String)
    ensures
        r@.len() == 13,
        r@.subrange(0, 5) == "sess_"@,
        forall|i: int| 5 <= i < 13 ==> is_alnum_spec(#[trigger] r@[i]),
{
    let u = fresh_uuid_string();
    let cs = str_to_chars(u.as_str());
    let mut out: Vec<char> = Vec::new();
    let prefix = str_to_chars("sess_");
    let mut p: usize = 0;
    while p < prefix.len()
        invariant
            p <= prefix.len(),
            prefix@ == "sess_"@,
            out@ =~= prefix@.subrange(0, p as int),
        decreases prefix.len() - p,
    {
        out.push(prefix[p]);
        proof {
            assert(prefix@.subrange(0, p + 1) =~= prefix@.subrange(0, p as int).push(
                prefix@[p as int],
            ));
        }
        p = p + 1;
    }
    proof {
        reveal_strlit("sess_");
        assert(prefix@.subrange(0, prefix@.len() as int) =~= prefix@);
        assert(out@.len() == 5);
    }
    let mut i: usize = 0;
    let mut taken: usize = 0;
    while i < cs.len() && taken < 8
        invariant
            i <= cs.len(),
            cs@.len() == 36,
            uuid_shaped(cs@),
            taken <= 8,
            out@.len() == 5 + taken,
            taken <= i,
            taken as int >= vstd::math::min(i as int, 8),
            out@.subrange(0, 5) =~= "sess_"@,
            forall|k: int| 5 <= k < out@.len() ==> is_alnum_spec(#[trigger] out@[k]),
        decreases cs.len() - i,
    {
        let c = cs[i];
        let is_alnum = ('0' <= c && c <= '9') || ('a' <= c && c <= 'z') || ('A' <= c && c <= 'Z');
        if is_alnum {
            let ghost prev = out@;
            out.push(c);
            proof {
                assert(out@.subrange(0, 5) =~= prev.subrange(0, 5));
            }
            taken = taken + 1;
        }
        i = i + 1;
    }
    chars_to_string(&out)
}

/// Whether a program path names a known shell, compared on the name after
/// the last slash.
pub open spec fn shell_name(s: Seq<char>) -> bool {
    ||| s == "bash"@
    ||| s == "zsh"@
    ||| s == "sh"@
    ||| s == "fish"@
    ||| s == "dash"@
    ||| s == "ksh"@
    ||| s == "tcsh"@
    ||| s == "csh"@
    ||| s == "ash"@
    ||| s == "pwsh"@
}

/// The part of `s` after its last slash, or `s` when it has none.
pub open spec fn basename_spec(s: Seq<char>) -> Seq<char> {
    if exists|i: int| 0 <= i < s.len() && s[i] == '/' {
        let last = choose|last: int|
            0 <= last < s.len() && s[last] == '/' && forall|j: int|
                last < j < s.len() ==> s[j] != '/';
        s.skip(last + 1)
    } else {
        s
    }
}

/// Whether a program is a shell: its basename is one of the known shell
/// names.
pub fn is_shell_program(program: &str) -> (r: bool)
    ensures
        r == shell_name(basename_spec(program@)),
{
    let cs = str_to_chars(program);
    let mut start: usize = 0;
    let mut i: usize = 0;
    while i < cs.len()
        invariant
            i <= cs.len(),
            cs@ == program@,
            start <= i,
            start == 0 || (start >= 1 && cs@[start - 1] == '/'),
            forall|j: int| start <= j < i ==> cs@[j] != '/',
            start >= 1 ==> exists|k: int| 0 <= k < cs@.len() && cs@[k] == '/',
        decreases cs.len() - i,
    {
        if cs[i] == '/' {
            start = i + 1;
        }
        i = i + 1;
    }
    let mut name: Vec<char> = Vec::new();
    let mut k = start;
    while k < cs.len()
        invariant
            start <= k <= cs.len(),
            cs@ == program@,
            name@ =~= cs@.subrange(start as int, k as int),
        decreases cs.len() - k,
    {
        name.push(cs[k]);
        proof {
            assert(cs@.subrange(start as int, k + 1) =~= cs@.subrange(start as int, k as int).push(
                cs@[k as int],
            ));
        }
        k = k + 1;
    }
    proof {
        if start == 0 {
            if exists|i0: int| 0 <= i0 < cs@.len() && cs@[i0] == '/' {
                let w = choose|w: int| 0 <= w < cs@.len() && cs@[w] == '/';
                assert(false);
            }
            assert(name@ =~= basename_spec(program@));
        } else {
            let last = choose|last: int|
                0 <= last < cs@.len() && cs@[last] == '/' && forall|j: int|
                    last < j < cs@.len() ==> cs@[j] != '/';
            assert(cs@[start - 1] == '/');
            assert(forall|j: int| start <= j < cs@.len() ==> cs@[j] != '/');
            if last < start - 1 {
                assert(cs@[start - 1] != '/');
            }
            if last > start - 1 {
                assert(cs@[last] != '/');
            }
            assert(last == start - 1);
            assert(name@ =~= cs@.skip(last + 1));
            assert(name@ =~= basename_spec(program@));
        }
    }
    chars_eq_str(&name, "bash") || chars_eq_str(&name, "zsh") || chars_eq_str(&name, "sh")
        || chars_eq_str(&name, "fish") || chars_eq_str(&name, "dash") || chars_eq_str(&name, "ksh")
        || chars_eq_str(&name, "tcsh") || chars_eq_str(&name, "csh") || chars_eq_str(&name, "ash")
        || chars_eq_str(&name, "pwsh")
}

/// Options for creating a new session.
#[derive(Debug, Clone)]
pub struct CreateSessionOptions {
    /// Program to run; the configured shell when absent.
    pub program: Option<String>,
    /// Program arguments.
    pub args: Vec<String>,
    /// Terminal rows; the configured default when absent.
    pub rows: Option<u16>,
    /// Terminal columns; the configured default when absent.
    pub cols: Option<u16>,
    /// Additional environment variables.
    pub env: Vec<(String, String)>,
    /// Working directory.
    pub cwd: Option<String>,
    /// Wait for the shell to be ready before returning.
    pub wait_ready: Option<bool>,
    /// Timeout for the ready wait, in milliseconds.
    pub ready_timeout_ms: Option<u64>,
}

impl Default for CreateSessionOptions {
    fn default() -> (o: CreateSessionOptions)
        ensures
            o.program is None,
            o.args@.len() == 0,
            o.rows is None,
            o.cols is None,
            o.env@.len() == 0,
            o.cwd is None,
            o.wait_ready is None,
            o.ready_timeout_ms is None,
    {
        CreateSessionOptions {
            program: None,
            args: Vec::new(),
            rows: None,
            cols: None,
            env: Vec::new(),
            cwd: None,
            wait_ready: None,
            ready_timeout_ms: None,
        }
    }
}

/// Messages arriving from the background PTY reader.
#[derive(Debug)]
pub enum ReaderMessage {
    /// Raw PTY output data.
    Data(Vec<u8>),
    /// The process exited, with an optional exit code.
    Exited(Option<i32>),
    /// A fatal read error occurred.
    Error(String),
    /// End of file: the PTY closed.
    Eof,
}

/// Per-session terminal state: the screen, scrollback, output tracker,
/// prompt detector and VT parser, with the exit bookkeeping. All
/// emulator-driven mutation happens through it.
#[derive(Debug)]
pub struct TerminalState {
    /// The visible screen.
    pub screen: ScreenBuffer,
    /// Lines that scrolled off the screen.
    pub scrollback: ScrollbackBuffer,
    /// Raw output since the last read.
    pub tracker: OutputTracker,
    /// The prompt detector.
    pub prompt_detector: PromptDetector,
    /// The VT parser.
    pub performer: ScreenPerformer,
    /// Terminal rows.
    pub rows: u16,
    /// Terminal columns.
    pub cols: u16,
    /// Whether the process has exited.
    pub exited: bool,
    /// Exit code, when exited.
    pub exit_code: Option<i32>,
}

impl TerminalState {
    /// Well-formed: the screen has the stated dimensions and every
    /// component keeps its own invariant.
    pub open spec fn wf(&self) -> bool {
        &&& self.screen.wf()
        &&& self.screen.wide_wf()
        &&& self.screen.rows == self.rows
        &&& self.screen.cols == self.cols
        &&& self.scrollback.wf()
        &&& self.performer.wf()
    }

    /// Create the terminal state for a fresh session. Fails with
    /// `InvalidPattern` exactly when the prompt pattern does not compile.
    pub fn new(rows: u16, cols: u16, scrollback_limit: usize, prompt_pattern: &str) -> (r: Result<
        TerminalState,
        TerminalError,
    >)
        requires
            rows >= 1,
            cols >= 1,
        ensures
            match r {
                Ok(t) => {
                    &&& regex_valid(prompt_pattern@)
                    &&& t.wf()
                    &&& t.rows == rows
                    &&& t.cols == cols
                    &&& !t.exited
                    &&& t.exit_code is None
                    &&& t.tracker.bytes().len() == 0
                    &&& t.scrollback.lines_spec().len() == 0
                    &&& t.scrollback.max_spec() == scrollback_limit
                    &&& t.prompt_detector.source_spec() == prompt_pattern@
                },
                Err(e) => !regex_valid(prompt_pattern@) && e matches TerminalError::InvalidPattern(
                    _,
                ),
            },
    {
        let prompt_detector = match PromptDetector::new(prompt_pattern) {
            Ok(d) => d,
            Err(e) => {
                return Err(e);
            },
        };
        Ok(
            TerminalState {
                screen: ScreenBuffer::new(rows, cols),
                scrollback: ScrollbackBuffer::new(scrollback_limit),
                tracker: OutputTracker::new(),
                prompt_detector,
                performer: ScreenPerformer::new(),
                rows,
                cols,
                exited: false,
                exit_code: None,
            },
        )
    }

    /// Feed raw PTY output: record it for the "new" view and run every byte
    /// through the VT parser. The screen keeps its dimensions for any
    /// bytes.
    pub fn process_output(&mut self, data: &[u8])
        requires
            old(self).wf(),
        ensures
            final(self).wf(),
            final(self).rows == old(self).rows,
            final(self).cols == old(self).cols,
            final(self).exited == old(self).exited,
            final(self).exit_code == old(self).exit_code,
            final(self).tracker.bytes() == old(self).tracker.bytes() + data@,
            final(self).scrollback.max_spec() == old(self).scrollback.max_spec(),
            final(self).prompt_detector == old(self).prompt_detector,
            crate::emulator::advances_to(
                old(self).performer,
                old(self).screen,
                old(self).scrollback,
                final(self).performer,
                final(self).screen,
                final(self).scrollback,
                data@,
            ),
    {
        self.tracker.append(data);
        let mut i: usize = 0;
        proof {
            assert(data@.take(0) =~= Seq::<u8>::empty());
        }
        while i < data.len()
            invariant
                i <= data@.len(),
                self.wf(),
                self.rows == old(self).rows,
                self.cols == old(self).cols,
                self.exited == old(self).exited,
                self.exit_code == old(self).exit_code,
                self.tracker.bytes() == old(self).tracker.bytes() + data@,
                self.scrollback.max_spec() == old(self).scrollback.max_spec(),
                self.prompt_detector == old(self).prompt_detector,
                crate::emulator::advances_to(
                    old(self).performer,
                    old(self).screen,
                    old(self).scrollback,
                    self.performer,
                    self.screen,
                    self.scrollback,
                    data@.take(i as int),
                ),
            decreases data.len() - i,
        {
            let byte = data[i];
            let ghost pm = self.performer;
            let ghost sm = self.screen;
            let ghost bm = self.scrollback;
            self.performer.advance(byte, &mut self.screen, &mut self.scrollback);
            proof {
                crate::emulator::lemma_advances_snoc(
                    old(self).performer,
                    old(self).screen,
                    old(self).scrollback,
                    pm,
                    sm,
                    bm,
                    self.performer,
                    self.screen,
                    self.scrollback,
                    data@.take(i as int),
                    byte,
                );
                assert(data@.take(i as int).push(data@[i as int]) =~= data@.take(i + 1));
            }
            i = i + 1;
        }
        proof {
            assert(data@.take(data@.len() as int) =~= data@);
        }
    }

    /// Apply one reader message: data feeds the emulator; an exit, an EOF
    /// or the polled exit code after EOF marks the session exited; a read
    /// error leaves the state untouched for the caller to record.
    pub fn apply_message(&mut self, msg: ReaderMessage, polled_exit: Option<i32>) -> (had_data:
        bool)
        requires
            old(self).wf(),
        ensures
            final(self).wf(),
            final(self).rows == old(self).rows,
            final(self).cols == old(self).cols,
            match msg {
                ReaderMessage::Data(d) => final(self).exited == old(self).exited
                    && final(self).exit_code == old(self).exit_code && had_data && final(self).tracker.bytes() == old(self).tracker.bytes() + d@ && crate::emulator::advances_to(
                    old(self).performer,
                    old(self).screen,
                    old(self).scrollback,
                    final(self).performer,
                    final(self).screen,
                    final(self).scrollback,
                    d@,
                ),
                ReaderMessage::Exited(code) => final(self).exited && final(self).exit_code == code
                    && !had_data,
                ReaderMessage::Eof => final(self).exited && final(self).exit_code == polled_exit
                    && !had_data,
                ReaderMessage::Error(_) => *final(self) == *old(self) && !had_data,
            },
    {
        match msg {
            ReaderMessage::Data(data) => {
                self.process_output(data.as_slice());
                true
            },
            ReaderMessage::Exited(code) => {
                self.set_exited(code);
                false
            },
            ReaderMessage::Eof => {
                self.set_exited(polled_exit);
                false
            },
            ReaderMessage::Error(_) => false,
        }
    }

    /// Mark the session exited with the given code.
    pub fn set_exited(&mut self, code: Option<i32>)
        requires
            old(self).wf(),
        ensures
            final(self).wf(),
            final(self).exited,
            final(self).exit_code == code,
            final(self).rows == old(self).rows,
            final(self).cols == old(self).cols,
            final(self).screen == old(self).screen,
            final(self).scrollback == old(self).scrollback,
            final(self).tracker == old(self).tracker,
            final(self).prompt_detector == old(self).prompt_detector,
    {
        self.exited = true;
        self.exit_code = code;
    }

    /// Whether the process has exited.
    pub fn exited(&self) -> (r: bool)
        ensures
            r == self.exited,
    {
        self.exited
    }

    /// The exit code, when exited.
    pub fn exit_code(&self) -> (r: Option<i32>)
        ensures
            r == self.exit_code,
    {
        self.exit_code
    }

    /// The terminal dimensions.
    pub fn dimensions(&self) -> (d: Dimensions)
        ensures
            d.rows == self.rows,
            d.cols == self.cols,
    {
        Dimensions { rows: self.rows, cols: self.cols }
    }

    /// The screen.
    pub fn screen(&self) -> (r: &ScreenBuffer)
        ensures
            r == self.screen,
    {
        &self.screen
    }

    /// The output tracker.
    pub fn tracker(&self) -> (r: &OutputTracker)
        ensures
            r == self.tracker,
    {
        &self.tracker
    }

    /// The prompt detector.
    pub fn prompt_detector(&self) -> (r: &PromptDetector)
        ensures
            r == self.prompt_detector,
    {
        &self.prompt_detector
    }

    /// The cursor position.
    pub fn cursor(&self) -> (p: CursorPosition)
        ensures
            p.row == self.screen.cursor.row,
            p.col == self.screen.cursor.col,
    {
        self.screen.cursor()
    }

    /// Whether the new output since the last read ends in a shell prompt.
    pub fn is_prompt_detected(&self) -> (r: bool)
        ensures
            regex_valid(self.prompt_detector.source_spec()) ==> r == detect_spec(
                self.prompt_detector.source_spec(),
                self.tracker.rendered(OutputFormat::Plain),
            ),
    {
        let content = self.tracker.peek(OutputFormat::Plain);
        self.prompt_detector.detect(content.as_str())
    }

    /// Read content for a view mode: the rendered screen, the new output
    /// (consumed), or the whole scrollback.
    pub fn read(&mut self, view: ViewMode, format: OutputFormat) -> (r: String)
        requires
            old(self).wf(),
        ensures
            final(self).wf(),
            final(self).rows == old(self).rows,
            final(self).cols == old(self).cols,
            final(self).screen == old(self).screen,
            final(self).scrollback == old(self).scrollback,
            final(self).exited == old(self).exited,
            final(self).exit_code == old(self).exit_code,
            match view {
                ViewMode::Screen => r@ == crate::screen::render_spec(old(self).screen.grid())
                    && final(self).tracker == old(self).tracker,
                ViewMode::New => r@ == old(self).tracker.rendered(format)
                    && final(self).tracker.bytes().len() == 0,
                ViewMode::Scrollback => r@ == old(self).scrollback.window_text(
                    0,
                    old(self).scrollback.lines_spec().len() as int,
                    format,
                ) && final(self).tracker == old(self).tracker,
            },
    {
        match view {
            ViewMode::Screen => self.screen.render(format),
            ViewMode::New => self.tracker.take(format),
            ViewMode::Scrollback => self.scrollback.get_all(format),
        }
    }

    /// Read scrollback with pagination.
    pub fn read_scrollback(&self, offset: usize, limit: usize, format: OutputFormat) -> (r: String)
        ensures
            r@ == self.scrollback.window_text(offset as int, limit as int, format),
    {
        self.scrollback.get(offset, limit, format)
    }

    /// The new output since the last read, without consuming it.
    pub fn peek_new(&self, format: OutputFormat) -> (r: String)
        ensures
            r@ == self.tracker.rendered(format),
    {
        self.tracker.peek(format)
    }

    /// Whether there is new output since the last read.
    pub fn has_new_content(&self) -> (r: bool)
        ensures
            r == (self.tracker.bytes().len() != 0),
    {
        self.tracker.has_content()
    }

    /// Clear the new-output tracker.
    pub fn mark_read(&mut self)
        requires
            old(self).wf(),
        ensures
            final(self).wf(),
            final(self).tracker.bytes().len() == 0,
            final(self).screen == old(self).screen,
            final(self).scrollback == old(self).scrollback,
            final(self).rows == old(self).rows,
            final(self).cols == old(self).cols,
            final(self).exited == old(self).exited,
            final(self).exit_code == old(self).exit_code,
    {
        self.tracker.clear();
    }

    /// How many lines the scrollback holds.
    pub fn scrollback_lines(&self) -> (r: usize)
        ensures
            r == self.scrollback.lines_spec().len(),
    {
        self.scrollback.len()
    }
}

} // verus!
