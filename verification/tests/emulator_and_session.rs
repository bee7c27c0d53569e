//! The VT emulator, session state, environment filtering, the session
//! directory, the socket protocol and the tool-layer helpers.

use termmux::emulator::ScreenPerformer;
use termmux::env::build_environment;
use termmux::env::is_sensitive_var;
use termmux::manager::SessionDirectory;
use termmux::protocol::Message;
use termmux::protocol::MSG_CLOSE;
use termmux::protocol::MSG_INPUT;
use termmux::protocol::MSG_OUTPUT;
use termmux::protocol::MSG_RESIZE;
use termmux::screen::ScreenBuffer;
use termmux::scrollback::ScrollbackBuffer;
use termmux::session::generate_session_id;
use termmux::session::is_shell_program;
use termmux::session::ReaderMessage;
use termmux::session::TerminalState;
use termmux::tools::build_read_output;
use termmux::tools::encode_send_input;
use termmux::tools::parse_output_format;
use termmux::tools::parse_view_mode;
use termmux::tools::read_wait_step;
use termmux::tools::socket_path_for;
use termmux::paste::BracketedPasteMode;
use termmux::tools::SendInput;
use termmux::types::OutputFormat;
use termmux::types::TerminalError;
use termmux::types::ViewMode;
use std::collections::HashSet;

fn feed(state: &mut TerminalState, bytes: &[u8]) {
    state.process_output(bytes);
}

fn new_state(rows: u16, cols: u16) -> TerminalState {
    TerminalState::new(rows, cols, 1000, "\\$\\s*$|#\\s*$|>\\s*$").unwrap()
}

#[test]
fn test_emulator_simple_text() {
    let mut state = new_state(24, 80);
    feed(&mut state, b"Hello, World!");
    let content = state.screen.render(OutputFormat::Plain);
    assert!(content.contains("Hello, World!"));
}

#[test]
fn test_emulator_cursor_movement() {
    let mut state = new_state(24, 80);
    feed(&mut state, b"ABC\x1b[2D*");
    let content = state.screen.render(OutputFormat::Plain);
    assert!(content.contains("A*C"));
}

#[test]
fn test_emulator_newlines() {
    let mut state = new_state(24, 80);
    feed(&mut state, b"Line1\r\nLine2");
    let content = state.screen.render(OutputFormat::Plain);
    let lines: Vec<&str> = content.lines().collect();
    assert!(lines.len() >= 2);
    assert_eq!(lines[0], "Line1");
    assert_eq!(lines[1], "Line2");
}

#[test]
fn test_emulator_erase_display() {
    let mut state = new_state(24, 80);
    feed(&mut state, b"Hello\x1b[2J");
    let content = state.screen.render(OutputFormat::Plain);
    assert!(content.trim().is_empty());
}

#[test]
fn test_emulator_color_codes() {
    let mut state = new_state(24, 80);
    feed(&mut state, b"\x1b[31mRed\x1b[0m Normal");
    let content = state.screen.render(OutputFormat::Plain);
    assert!(content.contains("Red Normal"));
}

#[test]
fn test_emulator_dimensions_stable() {
    // The grid keeps its shape after arbitrary bytes, and the cursor
    // stays inside it.
    let mut state = new_state(5, 12);
    let mut junk: Vec<u8> = Vec::new();
    for i in 0..2048u32 {
        junk.push((i % 251) as u8);
    }
    feed(&mut state, &junk);
    assert_eq!(state.screen.rows, 5);
    assert_eq!(state.screen.cols, 12);
    let cursor = state.cursor();
    assert!(cursor.row < 5);
    assert!(cursor.col < 12);
}

#[test]
fn test_emulator_wide_char_continuation() {
    // The cell right after a wide character is a width-0 continuation.
    let mut state = new_state(4, 10);
    feed(&mut state, "你".as_bytes());
    let content = state.screen.render(OutputFormat::Plain);
    assert!(content.starts_with("你"));
    assert_eq!(state.cursor().col, 2);
}

#[test]
fn test_emulator_alternate_buffer_isolation() {
    // Enter the alternate buffer, scroll inside it, exit: the prior
    // content returns and the scrollback is unchanged.
    let mut state = new_state(3, 20);
    feed(&mut state, b"main1\r\nmain2");
    let before = state.screen.render(OutputFormat::Plain);
    let scrollback_before = state.scrollback_lines();
    feed(&mut state, b"\x1b[?1049h");
    feed(&mut state, b"alt1\r\nalt2\r\nalt3\r\nalt4\r\nalt5");
    feed(&mut state, b"\x1b[?1049l");
    let after = state.screen.render(OutputFormat::Plain);
    assert_eq!(before, after);
    assert_eq!(state.scrollback_lines(), scrollback_before);
}

#[test]
fn test_cursor_stays_on_bottom_row_when_scrolling() {
    // A line feed on the last row scrolls the content; the cursor keeps
    // its row.
    let mut state = new_state(2, 10);
    feed(&mut state, b"a\r\nb\r\nc");
    assert_eq!(state.cursor().row, 1);
    assert_eq!(state.cursor().col, 1);
    let content = state.screen.render(termmux::types::OutputFormat::Plain);
    assert_eq!(content, "b\nc");
}

#[test]
fn test_scroll_clamps_to_screen_height() {
    // Scrolling by more than the height blanks the whole screen and queues
    // every row.
    let mut state = new_state(2, 10);
    feed(&mut state, b"x\r\ny");
    feed(&mut state, b"\x1b[99S");
    let content = state.screen.render(termmux::types::OutputFormat::Plain);
    assert_eq!(content, "");
    assert_eq!(state.scrollback_lines(), 2);
}

#[test]
fn test_overwriting_continuation_repairs_wide_pair() {
    // Writing a narrow character over a wide character's continuation cell
    // blanks the orphaned head: no width-2 cell is left with a non-zero
    // successor.
    let mut state = new_state(4, 10);
    feed(&mut state, "你".as_bytes());
    feed(&mut state, b"\x1b[1;2Hx");
    for row in &state.screen.cells {
        for (i, cell) in row.iter().enumerate() {
            if cell.width == 2 && i + 1 < row.len() {
                assert_eq!(row[i + 1].width, 0);
            }
        }
    }
    let content = state.screen.render(termmux::types::OutputFormat::Plain);
    assert_eq!(content, " x");
}

#[test]
fn test_prompt_detection_is_tail_only() {
    let detector = termmux::prompt::PromptDetector::default_pattern();
    // a prompt one line above the tail is not a prompt
    assert!(!detector.detect("$\nx"));
    // the last non-blank line is the tail, past trailing blank lines
    assert!(detector.detect("output\n$ \n"));
    assert!(detector.detect("$ echo hello\nhello\n$ "));
    assert!(!detector.detect("$ echo hello\nhello"));
}

#[test]
fn test_emulator_title() {
    let mut state = new_state(4, 20);
    feed(&mut state, b"\x1b]0;my title\x07");
    assert_eq!(state.screen.title(), Some("my title"));
}

#[test]
fn test_emulator_scrolls_into_scrollback() {
    let mut state = new_state(3, 10);
    feed(&mut state, b"a\r\nb\r\nc\r\nd\r\ne");
    assert!(state.scrollback_lines() > 0);
}

#[test]
fn test_performer_flush() {
    let mut screen = ScreenBuffer::new(3, 10);
    let mut scrollback = ScrollbackBuffer::new(100);
    let mut performer = ScreenPerformer::new();
    for byte in b"1\r\n2\r\n3\r\n4\r\n5" {
        performer.advance(*byte, &mut screen, &mut scrollback);
    }
    ScreenPerformer::flush_scrollback(&mut screen, &mut scrollback);
    assert!(scrollback.len() > 0);
    assert!(screen.take_scrolled_lines().is_empty());
}

#[test]
fn test_emulator_tab_stops() {
    let mut state = new_state(4, 20);
    feed(&mut state, b"a\tb");
    let content = state.screen.render(OutputFormat::Plain);
    assert_eq!(content, "a       b");
    assert_eq!(state.cursor().col, 9);
}

#[test]
fn test_emulator_insert_and_delete_lines() {
    let mut state = new_state(4, 10);
    feed(&mut state, b"one\r\ntwo\r\nthree");
    feed(&mut state, b"\x1b[2;1H");
    feed(&mut state, b"\x1b[1L");
    let content = state.screen.render(OutputFormat::Plain);
    assert_eq!(content, "one\n\ntwo\nthree");
    feed(&mut state, b"\x1b[1M");
    let content = state.screen.render(OutputFormat::Plain);
    assert_eq!(content, "one\ntwo\nthree");
}

#[test]
fn test_emulator_delete_chars() {
    let mut state = new_state(4, 10);
    feed(&mut state, b"abcdef\x1b[3G\x1b[2P");
    let content = state.screen.render(OutputFormat::Plain);
    assert_eq!(content, "abef");
}

#[test]
fn test_emulator_cursor_save_restore() {
    let mut state = new_state(4, 20);
    feed(&mut state, b"ab\x1b7cd\x1b8*");
    let content = state.screen.render(OutputFormat::Plain);
    assert_eq!(content, "ab*d");
}

#[test]
fn test_emulator_extended_colors_leave_text() {
    let mut state = new_state(4, 40);
    feed(&mut state, b"\x1b[38;5;196mX\x1b[48;2;10;20;30mY\x1b[0mZ");
    let content = state.screen.render(OutputFormat::Plain);
    assert_eq!(content, "XYZ");
}

#[test]
fn test_sensitive_vars_filtered() {
    assert!(is_sensitive_var("AWS_SECRET_ACCESS_KEY"));
    assert!(is_sensitive_var("GITHUB_TOKEN"));
    assert!(is_sensitive_var("MY_SECRET_VALUE"));
    assert!(is_sensitive_var("DATABASE_PASSWORD"));
    assert!(is_sensitive_var("PRIVATE_KEY_PATH"));
    assert!(is_sensitive_var("MY_API_KEY"));
}

#[test]
fn test_safe_vars_allowed() {
    assert!(!is_sensitive_var("HOME"));
    assert!(!is_sensitive_var("PATH"));
    assert!(!is_sensitive_var("USER"));
    assert!(!is_sensitive_var("SHELL"));
    assert!(!is_sensitive_var("TERM"));
    assert!(!is_sensitive_var("LANG"));
}

#[test]
fn test_build_environment_filters_and_sets_term() {
    let inherited = vec![
        ("HOME".to_string(), "/root".to_string()),
        ("MY_SECRET_VALUE".to_string(), "x".to_string()),
        ("TERM".to_string(), "dumb".to_string()),
    ];
    let extra = vec![("MY_VAR".to_string(), "my_value".to_string())];
    let env = build_environment(&inherited, &extra, "xterm-256color");
    let keys: Vec<&str> = env.iter().map(|(k, _)| k.as_str()).collect();
    assert!(keys.contains(&"HOME"));
    assert!(!keys.contains(&"MY_SECRET_VALUE"));
    assert!(env.iter().any(|(k, v)| k == "TERM" && v == "xterm-256color"));
    assert!(env.iter().any(|(k, v)| k == "MY_VAR" && v == "my_value"));
}

#[test]
fn test_is_shell_program() {
    assert!(is_shell_program("/bin/bash"));
    assert!(is_shell_program("/usr/bin/zsh"));
    assert!(is_shell_program("bash"));
    assert!(is_shell_program("zsh"));
    assert!(is_shell_program("fish"));
    assert!(is_shell_program("sh"));

    assert!(!is_shell_program("/bin/cat"));
    assert!(!is_shell_program("vim"));
    assert!(!is_shell_program("python"));
}

#[test]
fn test_session_id_format() {
    let id = generate_session_id();
    assert!(id.starts_with("sess_"));
    assert_eq!(id.len(), 13); // "sess_" (5) + 8 chars
    assert!(id[5..].chars().all(|c| c.is_alphanumeric()));
}

#[test]
fn test_session_id_uniqueness() {
    let mut ids = HashSet::new();
    for _ in 0..1000 {
        let id = generate_session_id();
        assert!(ids.insert(id), "Duplicate session ID generated");
    }
}

#[test]
fn test_max_sessions_reached() {
    // The (N+1)-th create fails with the session limit.
    let mut directory = SessionDirectory::new(3);
    for k in 0..3 {
        directory.insert(format!("sess_aaaaaaa{}", k)).unwrap();
    }
    let err = directory.insert("sess_overflow".to_string()).unwrap_err();
    assert!(matches!(err, TerminalError::MaxSessionsReached(3)));
    assert_eq!(directory.count(), 3);
    assert!(directory.remove("sess_aaaaaaa0"));
    directory.insert("sess_another1".to_string()).unwrap();
}

#[test]
fn test_exit_propagation() {
    // An exit message flips the state to exited with its code.
    let mut state = new_state(24, 80);
    assert!(!state.exited());
    let had_data = state.apply_message(ReaderMessage::Exited(Some(42)), None);
    assert!(!had_data);
    assert!(state.exited());
    assert_eq!(state.exit_code(), Some(42));
}

#[test]
fn test_eof_takes_polled_exit_code() {
    let mut state = new_state(24, 80);
    state.apply_message(ReaderMessage::Eof, Some(7));
    assert!(state.exited());
    assert_eq!(state.exit_code(), Some(7));
}

#[test]
fn test_protocol_round_trip() {
    let msg = Message::Output(b"hello".to_vec());
    let frame = msg.encode().unwrap();
    assert_eq!(frame[0], MSG_OUTPUT);
    assert_eq!(frame.len(), 5 + 5);
    let decoded = Message::decode(frame[0], frame[5..].to_vec()).unwrap();
    assert!(matches!(decoded, Message::Output(d) if d == b"hello"));

    let msg = Message::Resize { rows: 40, cols: 120 };
    let frame = msg.encode().unwrap();
    assert_eq!(frame[0], MSG_RESIZE);
    let decoded = Message::decode(frame[0], frame[5..].to_vec()).unwrap();
    assert!(matches!(decoded, Message::Resize { rows: 40, cols: 120 }));
}

#[test]
fn test_protocol_rejects_bad_frames() {
    assert!(Message::decode(0x77, Vec::new()).is_err());
    assert!(Message::decode(MSG_RESIZE, vec![0, 1, 2]).is_err());
    let closed = Message::decode(MSG_CLOSE, Vec::new()).unwrap();
    assert!(matches!(closed, Message::Close(None)));
    let with_reason = Message::decode(MSG_CLOSE, b"bye".to_vec()).unwrap();
    assert!(matches!(with_reason, Message::Close(Some(r)) if r == "bye"));
    let input = Message::decode(MSG_INPUT, b"x".to_vec()).unwrap();
    assert!(matches!(input, Message::Input(d) if d == b"x"));
}

#[test]
fn test_socket_path() {
    assert_eq!(socket_path_for("sess_abc12345"), "/tmp/terminal/sess_abc12345.sock");
}

#[test]
fn test_send_encoding_ctrl_c() {
    // key=None, text="c", ctrl=true writes the single ETX byte.
    let input = SendInput {
        session_id: "sess_x".to_string(),
        text: Some("c".to_string()),
        key: None,
        ctrl: true,
        alt: false,
        shift: false,
        bracketed_paste: BracketedPasteMode::Auto,
        read: None,
    };
    assert_eq!(encode_send_input(&input).unwrap(), vec![0x03]);
}

#[test]
fn test_send_encoding_requires_input() {
    let input = SendInput {
        session_id: "sess_x".to_string(),
        text: None,
        key: None,
        ctrl: false,
        alt: false,
        shift: false,
        bracketed_paste: BracketedPasteMode::Auto,
        read: None,
    };
    assert!(matches!(encode_send_input(&input), Err(TerminalError::NoInput)));
}

#[test]
fn test_parse_view_and_format() {
    assert_eq!(parse_view_mode(Some("screen")), ViewMode::Screen);
    assert_eq!(parse_view_mode(Some("scrollback")), ViewMode::Scrollback);
    assert_eq!(parse_view_mode(Some("anything")), ViewMode::New);
    assert_eq!(parse_view_mode(None), ViewMode::New);
    assert_eq!(parse_output_format(Some("raw")), OutputFormat::Raw);
    assert_eq!(parse_output_format(Some("plain")), OutputFormat::Plain);
    assert_eq!(parse_output_format(None), OutputFormat::Plain);
}

#[test]
fn test_read_wait_decisions() {
    // Exit stops, a prompt stops when awaited, idleness stops and is
    // reported, a deadline stops, and no wait conditions stop at once.
    assert_eq!(read_wait_step(true, false, false, 0, 0, 1000, false), (true, false));
    assert_eq!(read_wait_step(false, true, true, 0, 0, 1000, false), (true, false));
    assert_eq!(read_wait_step(false, false, false, 100, 150, 1000, false), (true, true));
    assert_eq!(read_wait_step(false, false, false, 0, 0, 1000, true), (true, false));
    assert_eq!(read_wait_step(false, false, false, 0, 0, 0, false), (true, false));
    assert_eq!(read_wait_step(false, false, false, 100, 50, 1000, false), (false, false));
}

#[test]
fn test_build_read_output_screen_view() {
    let mut state = new_state(24, 80);
    feed(&mut state, b"hello");
    let out = build_read_output(&mut state, ViewMode::Screen, OutputFormat::Plain, 0, 1000, false);
    assert!(out.content.contains("hello"));
    assert_eq!(out.lines, 1);
    assert!(out.cursor.is_some());
    assert!(!out.exited);
    assert!(out.has_new_content);
}

#[test]
fn test_build_read_output_new_view_consumes() {
    let mut state = new_state(24, 80);
    feed(&mut state, b"fresh output");
    let out = build_read_output(&mut state, ViewMode::New, OutputFormat::Plain, 0, 1000, false);
    assert_eq!(out.content, "fresh output");
    let again = build_read_output(&mut state, ViewMode::New, OutputFormat::Plain, 0, 1000, false);
    assert_eq!(again.content, "");
    assert!(!again.has_new_content);
}

#[test]
fn test_invalid_prompt_pattern() {
    let err = TerminalState::new(24, 80, 100, "[unclosed").unwrap_err();
    assert!(matches!(err, TerminalError::InvalidPattern(_)));
    assert_eq!(err.code(), "INVALID_PATTERN");
}

#[test]
fn test_error_code_strings() {
    assert_eq!(TerminalError::Pty(String::new()).code(), "PTY_ERROR");
    assert_eq!(TerminalError::Io(String::new()).code(), "IO_ERROR");
    assert_eq!(TerminalError::SessionNotFound(String::new()).code(), "SESSION_NOT_FOUND");
    assert_eq!(TerminalError::MaxSessionsReached(10).code(), "MAX_SESSIONS");
    assert_eq!(TerminalError::SessionDestroyed(String::new()).code(), "SESSION_DESTROYED");
    assert_eq!(TerminalError::NoInput.code(), "NO_INPUT");
    assert_eq!(TerminalError::InvalidKey(String::new()).code(), "INVALID_KEY");
    assert_eq!(TerminalError::ProcessExited(None).code(), "PROCESS_EXITED");
    assert_eq!(TerminalError::ProgramNotFound(String::new()).code(), "PROGRAM_NOT_FOUND");
    assert_eq!(TerminalError::WaitTimeout(5).code(), "WAIT_TIMEOUT");
    assert_eq!(TerminalError::ChannelClosed.code(), "CHANNEL_CLOSED");
}

#[test]
fn test_tracker_lossy_replacement() {
    // Invalid UTF-8 renders as the replacement character, not as the raw
    // byte.
    let mut state = new_state(24, 80);
    state.tracker.append(b"ok\xffok");
    let rendered = state.tracker.take(termmux::types::OutputFormat::Raw);
    assert_eq!(rendered, "ok\u{FFFD}ok");
}

#[test]
fn test_prompt_detection_in_state() {
    let mut state = new_state(24, 80);
    feed(&mut state, b"user@host:~$ ");
    assert!(state.is_prompt_detected());
    state.mark_read();
    feed(&mut state, b"still running...");
    assert!(!state.is_prompt_detected());
}
