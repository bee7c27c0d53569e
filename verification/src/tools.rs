//! The tool surface: typed inputs and outputs of the six operations, the
//! decisions they make, and the content they assemble from a session's
//! terminal state.

use vstd::prelude::*;

use crate::keys::KeyInput;
use crate::keys::SpecialKey;
use crate::keys::encode_spec;
use crate::paste::BracketedPasteMode;
use crate::paste::encode_text;
use crate::paste::paste_end_spec;
use crate::paste::paste_start_spec;
use crate::paste::should_wrap_spec;
use crate::prompt::default_prompt_pattern;
use crate::prompt::split_lines_spec;
use crate::prompt::split_lines_from;
use crate::session::TerminalState;
use crate::session::is_shell_program;
use crate::session::shell_name;
use crate::strutil::chars_to_string;
use crate::strutil::str_to_chars;
use crate::types::CursorPosition;
use crate::types::Dimensions;
use crate::types::OutputFormat;
use crate::types::TerminalError;
use crate::types::ViewMode;

verus! {

/// Global configuration of the terminal server.
#[derive(Debug, Clone)]
pub struct GlobalConfig {
    /// Default number of rows for new sessions.
    pub default_rows: u16,
    /// Default number of columns for new sessions.
    pub default_cols: u16,
    /// Default shell for new sessions.
    pub default_shell: String,
    /// Terminal type for the TERM environment variable.
    pub term: String,
    /// Maximum lines kept in scrollback per session.
    pub scrollback_limit: usize,
    /// Regex source used to detect the shell prompt.
    pub prompt_pattern: String,
    /// Maximum number of concurrent sessions.
    pub max_sessions: usize,
}

impl Default for GlobalConfig {
    /// The stock configuration: a 24x80 terminal, `/bin/bash`,
    /// `xterm-256color`, 10000 lines of scrollback, the stock prompt
    /// pattern, at most 10 sessions. A launcher may override the shell
    /// from its environment.
    fn default() -> (c: GlobalConfig)
        ensures
            c.default_rows == 24,
            c.default_cols == 80,
            c.default_shell@ == "/bin/bash"@,
            c.term@ == "xterm-256color"@,
            c.scrollback_limit == 10000,
            c.prompt_pattern@ == "\\$\\s*$|#\\s*$|>\\s*$"@,
            c.max_sessions == 10,
    {
        GlobalConfig {
            default_rows: 24,
            default_cols: 80,
            default_shell: "/bin/bash".to_owned(),
            term: "xterm-256color".to_owned(),
            scrollback_limit: 10000,
            prompt_pattern: default_prompt_pattern(),
            max_sessions: 10,
        }
    }
}

/// Options for opening a PTY and spawning its child.
#[derive(Debug, Clone)]
pub struct PtyOptions {
    /// Program to run.
    pub program: String,
    /// Program arguments.
    pub args: Vec<String>,
    /// Terminal rows.
    pub rows: u16,
    /// Terminal columns.
    pub cols: u16,
    /// Additional environment variables.
    pub env: Vec<(String, String)>,
    /// Working directory.
    pub cwd: Option<String>,
    /// Terminal type, for the TERM variable.
    pub term: String,
}

impl Default for PtyOptions {
    /// A 24x80 terminal running `/bin/bash` as `xterm-256color`; a launcher
    /// may override the shell from its environment.
    fn default() -> (o: PtyOptions)
        ensures
            o.program@ == "/bin/bash"@,
            o.args@.len() == 0,
            o.rows == 24,
            o.cols == 80,
            o.env@.len() == 0,
            o.cwd is None,
            o.term@ == "xterm-256color"@,
    {
        PtyOptions {
            program: "/bin/bash".to_owned(),
            args: Vec::new(),
            rows: 24,
            cols: 80,
            env: Vec::new(),
            cwd: None,
            term: "xterm-256color".to_owned(),
        }
    }
}

/// Input arriving from a socket client.
#[derive(Debug, Clone)]
pub enum SocketInput {
    /// Raw input bytes bound for the PTY.
    Data(Vec<u8>),
    /// A resize request.
    Resize { rows: u16, cols: u16 },
}

/// The socket path of a session: `/tmp/terminal/<id>.sock`.
pub fn socket_path_for(session_id: &str) -> (r: String)
    ensures
        r@ == "/tmp/terminal/"@ + session_id@ + ".sock"@,
{
    let mut out: Vec<char> = Vec::new();
    let dir = str_to_chars("/tmp/terminal/");
    let idc = str_to_chars(session_id);
    let tail = str_to_chars(".sock");
    let mut out2 = push_all(out, &dir);
    let mut out3 = push_all(out2, &idc);
    let out4 = push_all(out3, &tail);
    proof {
        assert(out4@ =~= "/tmp/terminal/"@ + session_id@ + ".sock"@);
    }
    chars_to_string(&out4)
}

/// Append all of `src` to `v`.
fn push_all(v: Vec<char>, src: &Vec<char>) -> (r: Vec<char>)
    ensures
        r@ == v@ + src@,
{
    let ghost v0 = v@;
    let mut out = v;
    let mut i: usize = 0;
    while i < src.len()
        invariant
            i <= src.len(),
            out@ =~= v0 + src@.subrange(0, i as int),
        decreases src.len() - i,
    {
        out.push(src[i]);
        proof {
            assert(src@.subrange(0, i + 1) =~= src@.subrange(0, i as int).push(src@[i as int]));
        }
        i = i + 1;
    }
    proof {
        assert(src@.subrange(0, src@.len() as int) =~= src@);
        assert(out@ =~= v0 + src@);
    }
    out
}

/// Input for the create operation.
#[derive(Debug, Clone)]
pub struct CreateSessionInput {
    /// Program to run; the configured shell when absent.
    pub program: Option<String>,
    /// Program arguments.
    pub args: Vec<String>,
    /// Terminal height in rows; the configured default when absent.
    pub rows: Option<u16>,
    /// Terminal width in columns; the configured default when absent.
    pub cols: Option<u16>,
    /// Additional environment variables.
    pub env: Vec<(String, String)>,
    /// Working directory.
    pub cwd: Option<String>,
    /// Wait for a shell prompt before returning; defaults to whether the
    /// program is a known shell.
    pub wait_ready: Option<bool>,
    /// Timeout for the ready wait in milliseconds; 5000 when absent.
    pub ready_timeout_ms: Option<u64>,
}

/// Output of the create operation.
#[derive(Debug, Clone)]
pub struct CreateSessionOutput {
    /// Unique session identifier.
    pub session_id: String,
    /// Process id of the spawned program.
    pub pid: Option<u32>,
    /// Resolved program path.
    pub program: String,
    /// Terminal dimensions.
    pub dimensions: Dimensions,
}

/// Input for the destroy operation.
#[derive(Debug, Clone)]
pub struct DestroySessionInput {
    /// Session to destroy.
    pub session_id: String,
    /// Force kill instead of graceful termination.
    pub force: bool,
}

/// Output of the destroy operation.
#[derive(Debug, Clone)]
pub struct DestroySessionOutput {
    /// Whether the session was destroyed.
    pub destroyed: bool,
    /// Exit code, when the process terminated gracefully.
    pub exit_code: Option<i32>,
}

/// Input for the info operation.
#[derive(Debug, Clone)]
pub struct GetInfoInput {
    /// Session to describe.
    pub session_id: String,
}

/// Input for the read operation.
#[derive(Debug, Clone)]
pub struct ReadInput {
    /// Session to read from.
    pub session_id: String,
    /// View mode name: screen, new or scrollback.
    pub view: Option<String>,
    /// Output format name: plain or raw.
    pub format: Option<String>,
    /// Maximum wait time in milliseconds; 0 reads immediately.
    pub timeout_ms: Option<u64>,
    /// Wait until no output arrived for this many milliseconds.
    pub wait_idle_ms: Option<u64>,
    /// Wait for a shell prompt.
    pub wait_for_prompt: Option<bool>,
    /// Scrollback pagination offset, 0 being the most recent.
    pub offset: Option<usize>,
    /// Scrollback pagination limit.
    pub limit: Option<usize>,
}

impl Default for ReadInput {
    fn default() -> (r: ReadInput)
        ensures
            r.session_id@.len() == 0,
            r.view is None,
            r.format is None,
            r.timeout_ms is None,
            r.wait_idle_ms is None,
            r.wait_for_prompt is None,
            r.offset is None,
            r.limit is None,
    {
        ReadInput {
            session_id: String::new(),
            view: None,
            format: None,
            timeout_ms: None,
            wait_idle_ms: None,
            wait_for_prompt: None,
            offset: None,
            limit: None,
        }
    }
}

/// Output of the read operation.
#[derive(Debug, Clone)]
pub struct ReadOutput {
    /// Terminal content.
    pub content: String,
    /// Number of lines in the content.
    pub lines: usize,
    /// Cursor position; reported for the screen view only.
    pub cursor: Option<CursorPosition>,
    /// Terminal dimensions.
    pub dimensions: Dimensions,
    /// Whether there is new content since the last read.
    pub has_new_content: bool,
    /// Whether a shell prompt was detected.
    pub prompt_detected: bool,
    /// Whether output stayed idle for the requested time.
    pub idle: bool,
    /// Whether the process has exited.
    pub exited: bool,
    /// Exit code, when exited.
    pub exit_code: Option<i32>,
}

/// Options for reading right after a send.
#[derive(Debug, Clone)]
pub struct ReadOptions {
    /// View mode name: screen, new or scrollback.
    pub view: Option<String>,
    /// Output format name: plain or raw.
    pub format: Option<String>,
    /// Maximum wait time in milliseconds.
    pub timeout_ms: Option<u64>,
    /// Wait until no output arrived for this many milliseconds.
    pub wait_idle_ms: Option<u64>,
    /// Wait for a shell prompt.
    pub wait_for_prompt: Option<bool>,
    /// Scrollback pagination offset.
    pub offset: Option<usize>,
    /// Scrollback pagination limit.
    pub limit: Option<usize>,
}

/// Input for the send operation.
#[derive(Debug, Clone)]
pub struct SendInput {
    /// Session to send input to.
    pub session_id: String,
    /// Text to send.
    pub text: Option<String>,
    /// Special key to send.
    pub key: Option<SpecialKey>,
    /// Ctrl modifier.
    pub ctrl: bool,
    /// Alt modifier.
    pub alt: bool,
    /// Shift modifier.
    pub shift: bool,
    /// Bracketed paste mode.
    pub bracketed_paste: BracketedPasteMode,
    /// Read options, to read output right after sending.
    pub read: Option<ReadOptions>,
}

/// Output of the send operation.
#[derive(Debug, Clone)]
pub struct SendOutput {
    /// Whether the input was sent.
    pub sent: bool,
    /// The nested read result, when read options were given.
    pub read_result: Option<ReadOutput>,
}

/// Parse a view mode name: `screen` and `scrollback` select their views,
/// anything else reads new output.
pub fn parse_view_mode(s: Option<&str>) -> (r: ViewMode)
    ensures
        r == match s {
            Some(v) => if v@ == "screen"@ {
                ViewMode::Screen
            } else if v@ == "scrollback"@ {
                ViewMode::Scrollback
            } else {
                ViewMode::New
            },
            None => ViewMode::New,
        },
{
    match s {
        Some(v) => {
            if crate::strutil::str_eq(v, "screen") {
                ViewMode::Screen
            } else if crate::strutil::str_eq(v, "scrollback") {
                ViewMode::Scrollback
            } else {
                ViewMode::New
            }
        },
        None => ViewMode::New,
    }
}

/// Parse an output format name: `raw` keeps ANSI codes, anything else
/// strips them.
pub fn parse_output_format(s: Option<&str>) -> (r: OutputFormat)
    ensures
        r == match s {
            Some(v) => if v@ == "raw"@ {
                OutputFormat::Raw
            } else {
                OutputFormat::Plain
            },
            None => OutputFormat::Plain,
        },
{
    match s {
        Some(v) => {
            if crate::strutil::str_eq(v, "raw") {
                OutputFormat::Raw
            } else {
                OutputFormat::Plain
            }
        },
        None => OutputFormat::Plain,
    }
}

/// Whether a create should wait for the prompt: as requested, or by
/// whether the program is a known shell.
pub fn should_wait_ready(wait_ready: Option<bool>, program: &str) -> (r: bool)
    ensures
        r == match wait_ready {
            Some(w) => w,
            None => shell_name(crate::session::basename_spec(program@)),
        },
{
    match wait_ready {
        Some(w) => w,
        None => is_shell_program(program),
    }
}

/// Encode the input of a send: a special key takes precedence and is
/// encoded with its modifiers; text with ctrl or alt goes through the key
/// encoder; plain text goes through bracketed-paste encoding; with neither
/// text nor key the input is rejected with `NoInput`.
pub fn encode_send_input(input: &SendInput) -> (r: Result<Vec<u8>, TerminalError>)
    ensures
        match r {
            Ok(v) => {
                &&& input.key is Some ==> encode_spec(
                    input.key,
                    None,
                    input.ctrl,
                    input.alt,
                    input.shift,
                ) == Some(v@)
                &&& (input.key is None && input.text is Some && (input.ctrl || input.alt))
                    ==> encode_spec(
                    None,
                    Some(input.text.unwrap()@),
                    input.ctrl,
                    input.alt,
                    input.shift,
                ) == Some(v@)
                &&& (input.key is None && input.text is Some && !input.ctrl && !input.alt) ==> (
                if should_wrap_spec(input.text.unwrap()@, input.bracketed_paste) {
                    v@ == paste_start_spec() + vstd::utf8::encode_utf8(input.text.unwrap()@)
                        + paste_end_spec()
                } else {
                    v@ == vstd::utf8::encode_utf8(input.text.unwrap()@)
                })
                &&& (input.key is Some || input.text is Some)
            },
            Err(e) => {
                &&& input.key is None
                &&& input.text is None
                &&& e == TerminalError::NoInput
            },
        },
{
    if let Some(key) = input.key {
        let key_input = KeyInput {
            key: Some(key),
            text: None,
            ctrl: input.ctrl,
            alt: input.alt,
            shift: input.shift,
        };
        return key_input.encode();
    }
    if let Some(ref text) = input.text {
        if input.ctrl || input.alt {
            let key_input = KeyInput {
                key: None,
                text: Some(text.clone()),
                ctrl: input.ctrl,
                alt: input.alt,
                shift: input.shift,
            };
            return key_input.encode();
        }
        return Ok(encode_text(text.as_str(), input.bracketed_paste));
    }
    Err(TerminalError::NoInput)
}

/// One step of the read wait loop: whether to stop now, and whether the
/// stop counts as going idle. The wait stops on exit, on a detected prompt
/// when one is awaited, when output stayed idle long enough, at the
/// deadline, and immediately when no wait was requested at all.
pub fn read_wait_step(
    exited: bool,
    prompt_detected: bool,
    wait_for_prompt: bool,
    wait_idle_ms: u64,
    idle_elapsed_ms: u64,
    timeout_ms: u64,
    deadline_passed: bool,
) -> (r: (bool, bool))
    ensures
        ({
            let (stop, is_idle) = r;
            &&& is_idle == (!exited && !(wait_for_prompt && prompt_detected) && wait_idle_ms > 0
                && idle_elapsed_ms >= wait_idle_ms)
            &&& stop == (exited || (wait_for_prompt && prompt_detected) || is_idle
                || deadline_passed || (timeout_ms == 0 && wait_idle_ms == 0 && !wait_for_prompt))
        }),
{
    if exited {
        return (true, false);
    }
    if wait_for_prompt && prompt_detected {
        return (true, false);
    }
    if wait_idle_ms > 0 && idle_elapsed_ms >= wait_idle_ms {
        return (true, true);
    }
    if deadline_passed {
        return (true, false);
    }
    if timeout_ms == 0 && wait_idle_ms == 0 && !wait_for_prompt {
        return (true, false);
    }
    (false, false)
}

/// How many lines a content string has, as line splitting counts them.
pub fn count_lines(content: &str) -> (r: usize)
    ensures
        r == split_lines_spec(content@).len(),
{
    let cs = str_to_chars(content);
    let mut count: usize = 0;
    let mut cur_len: usize = 0;
    let ghost mut gcur: Seq<char> = Seq::empty();
    let ghost mut gacc: Seq<Seq<char>> = Seq::empty();
    let mut i: usize = 0;
    while i < cs.len()
        invariant
            i <= cs.len(),
            cs@ == content@,
            count == gacc.len(),
            cur_len == gcur.len(),
            count + cur_len <= i,
            split_lines_from(cs@, i as int, gcur, gacc) == split_lines_spec(content@),
        decreases cs.len() - i,
    {
        let c = cs[i];
        if c == '\n' {
            count = count + 1;
            cur_len = 0;
            proof {
                gacc = gacc.push(crate::prompt::strip_cr(gcur));
                gcur = Seq::empty();
            }
        } else {
            cur_len = cur_len + 1;
            proof {
                gcur = gcur.push(cs@[i as int]);
            }
        }
        i = i + 1;
    }
    if cur_len > 0 {
        count = count + 1;
    }
    proof {
        if gcur.len() > 0 {
            assert(split_lines_spec(content@) == gacc.push(crate::prompt::strip_cr(gcur)));
        } else {
            assert(split_lines_spec(content@) == gacc);
        }
    }
    count
}

/// Assemble the read result from a session's state: the requested view's
/// content (consuming the new-output tracker for the new view), the line
/// count, the cursor for the screen view, and the state flags.
pub fn build_read_output(
    state: &mut TerminalState,
    view: ViewMode,
    format: OutputFormat,
    offset: usize,
    limit: usize,
    is_idle: bool,
) -> (r: ReadOutput)
    requires
        old(state).wf(),
    ensures
        final(state).wf(),
        final(state).rows == old(state).rows,
        final(state).cols == old(state).cols,
        r.dimensions.rows == old(state).rows,
        r.dimensions.cols == old(state).cols,
        r.exited == old(state).exited,
        r.exit_code == old(state).exit_code,
        r.idle == is_idle,
        r.lines == split_lines_spec(r.content@).len(),
        match view {
            ViewMode::Screen => r.content@ == crate::screen::render_spec(old(state).screen.grid())
                && (r.cursor matches Some(p) && p.row == old(state).screen.cursor.row && p.col
                == old(state).screen.cursor.col) && final(state).tracker == old(state).tracker,
            ViewMode::New => r.content@ == old(state).tracker.rendered(format) && r.cursor is None
                && final(state).tracker.bytes().len() == 0,
            ViewMode::Scrollback => r.content@ == old(state).scrollback.window_text(
                offset as int,
                limit as int,
                format,
            ) && r.cursor is None && final(state).tracker == old(state).tracker,
        },
{
    let content = match view {
        ViewMode::Screen => state.screen.render(format),
        ViewMode::New => state.tracker.take(format),
        ViewMode::Scrollback => state.read_scrollback(offset, limit, format),
    };
    let lines = count_lines(content.as_str());
    let cursor = if matches!(view, ViewMode::Screen) {
        Some(state.cursor())
    } else {
        None
    };
    let dimensions = state.dimensions();
    let has_new_content = state.has_new_content();
    let prompt_detected = state.is_prompt_detected();
    let exited = state.exited();
    let exit_code = state.exit_code();
    ReadOutput {
        content,
        lines,
        cursor,
        dimensions,
        has_new_content,
        prompt_detected,
        idle: is_idle,
        exited,
        exit_code,
    }
}

} // verus!
