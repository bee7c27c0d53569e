//! Scenarios against a real pseudo-terminal: echoed input appears on the
//! screen, and a child's exit code reaches the session state.

use std::io::{Read, Write};

use portable_pty::{native_pty_system, CommandBuilder, PtySize};

use termmux::session::{ReaderMessage, TerminalState};
use termmux::types::OutputFormat;

fn fresh_state() -> TerminalState {
    TerminalState::new(24, 80, 1000, "\\$\\s*$|#\\s*$|>\\s*$").unwrap()
}

#[test]
fn test_echo_screen_view() {
    let pty = native_pty_system();
    let pair = pty
        .openpty(PtySize {
            rows: 24,
            cols: 80,
            pixel_width: 0,
            pixel_height: 0,
        })
        .unwrap();
    let cmd = CommandBuilder::new("/bin/cat");
    let mut child = pair.slave.spawn_command(cmd).unwrap();
    drop(pair.slave);
    let mut reader = pair.master.try_clone_reader().unwrap();
    let mut writer = pair.master.take_writer().unwrap();

    writer.write_all(b"hello\n").unwrap();
    writer.flush().unwrap();

    let mut state = fresh_state();
    let mut buf = [0u8; 4096];
    for _ in 0..20 {
        let n = reader.read(&mut buf).unwrap_or(0);
        if n == 0 {
            break;
        }
        state.process_output(&buf[..n]);
        if state
            .screen
            .render(OutputFormat::Plain)
            .contains("hello")
        {
            break;
        }
    }

    let content = state.screen.render(OutputFormat::Plain);
    assert!(content.contains("hello"));
    assert!(!state.exited());

    let _ = child.kill();
    let _ = child.wait();
}

#[test]
fn test_exit_code_reaches_state() {
    let pty = native_pty_system();
    let pair = pty
        .openpty(PtySize {
            rows: 24,
            cols: 80,
            pixel_width: 0,
            pixel_height: 0,
        })
        .unwrap();
    let mut cmd = CommandBuilder::new("/bin/sh");
    cmd.args(["-c", "exit 42"]);
    let mut child = pair.slave.spawn_command(cmd).unwrap();
    drop(pair.slave);
    let mut reader = pair.master.try_clone_reader().unwrap();

    let mut state = fresh_state();
    let mut buf = [0u8; 4096];
    loop {
        match reader.read(&mut buf) {
            Ok(0) | Err(_) => break,
            Ok(n) => state.process_output(&buf[..n]),
        }
    }
    let status = child.wait().unwrap();
    let code = status.exit_code() as i32;
    state.apply_message(ReaderMessage::Eof, Some(code));

    assert!(state.exited());
    assert_eq!(state.exit_code(), Some(42));
}
