//! Screen buffer, ANSI stripping, scrollback and the output tracker.

use termmux::ansi::strip_ansi;
use termmux::screen::ScreenBuffer;
use termmux::screen::ScrollbackLine;
use termmux::scrollback::ScrollbackBuffer;
use termmux::tracker::OutputTracker;
use termmux::types::OutputFormat;

#[test]
fn test_new_screen() {
    let screen = ScreenBuffer::new(24, 80);
    assert_eq!(screen.rows, 24);
    assert_eq!(screen.cols, 80);
    assert_eq!(screen.cursor().row, 0);
    assert_eq!(screen.cursor().col, 0);
}

#[test]
fn test_put_char() {
    let mut screen = ScreenBuffer::new(24, 80);
    screen.put_char('H');
    screen.put_char('i');

    let content = screen.render(OutputFormat::Plain);
    assert!(content.starts_with("Hi"));
}

#[test]
fn test_wide_char() {
    let mut screen = ScreenBuffer::new(24, 80);
    screen.put_char('你');
    screen.put_char('好');

    let content = screen.render(OutputFormat::Plain);
    assert!(content.starts_with("你好"));
}

#[test]
fn test_newline() {
    let mut screen = ScreenBuffer::new(24, 80);
    screen.put_char('A');
    screen.newline();
    screen.put_char('B');

    let content = screen.render(OutputFormat::Plain);
    let lines: Vec<&str> = content.lines().collect();
    assert_eq!(lines.len(), 2);
    assert_eq!(lines[0], "A");
    assert_eq!(lines[1], "B");
}

#[test]
fn test_scroll() {
    let mut screen = ScreenBuffer::new(3, 10);
    for i in 0..5 {
        screen.put_char((b'A' + i) as char);
        screen.newline();
    }

    // Should have scrolled, keeping last 3 lines
    let scrolled = screen.take_scrolled_lines();
    assert!(!scrolled.is_empty());
}

#[test]
fn test_erase_line() {
    let mut screen = ScreenBuffer::new(24, 80);
    screen.put_char('A');
    screen.put_char('B');
    screen.put_char('C');
    screen.cursor_mut().col = 1;
    screen.erase_line_right();

    let content = screen.render(OutputFormat::Plain);
    assert_eq!(content.trim(), "A");
}

#[test]
fn test_wide_char_wraps_at_edge() {
    // A wide character that would not fit on the line is placed at the
    // start of the next line, with a width-0 continuation after it.
    let mut screen = ScreenBuffer::new(4, 4);
    screen.put_char('a');
    screen.put_char('b');
    screen.put_char('c');
    screen.put_char('你');
    let content = screen.render(OutputFormat::Plain);
    let lines: Vec<&str> = content.lines().collect();
    assert_eq!(lines[0], "abc");
    assert_eq!(lines[1], "你");
    assert_eq!(screen.cursor().row, 1);
    assert_eq!(screen.cursor().col, 2);
}

#[test]
fn test_no_ansi() {
    assert_eq!(strip_ansi("hello world"), "hello world");
}

#[test]
fn test_strip_colors() {
    assert_eq!(strip_ansi("\x1b[31mred\x1b[0m"), "red");
    assert_eq!(strip_ansi("\x1b[1;32mgreen\x1b[0m"), "green");
}

#[test]
fn test_strip_cursor() {
    assert_eq!(strip_ansi("\x1b[Hstart"), "start");
    assert_eq!(strip_ansi("\x1b[2Jclear"), "clear");
    assert_eq!(strip_ansi("\x1b[10;20Hpos"), "pos");
}

#[test]
fn test_strip_osc_bel() {
    assert_eq!(strip_ansi("\x1b]0;title\x07content"), "content");
}

#[test]
fn test_strip_osc_st() {
    assert_eq!(strip_ansi("\x1b]0;title\x1b\\content"), "content");
}

#[test]
fn test_mixed() {
    let input = "\x1b[32mHello\x1b[0m \x1b[1mWorld\x1b[0m!";
    assert_eq!(strip_ansi(input), "Hello World!");
}

#[test]
fn test_preserve_newlines() {
    let input = "line1\n\x1b[32mline2\x1b[0m\nline3";
    assert_eq!(strip_ansi(input), "line1\nline2\nline3");
}

#[test]
fn test_strip_charset_designators() {
    // A character-set designation is consumed whole, final byte included.
    assert_eq!(strip_ansi("\x1b(Bhello"), "hello");
    assert_eq!(strip_ansi("\x1b)0x"), "x");
    assert_eq!(strip_ansi("a\x1b(Ab"), "ab");
}

#[test]
fn test_strip_idempotent() {
    // A second pass changes nothing, and no escape byte survives.
    let inputs = [
        "\x1b[31mred\x1b[0m and \x1b]0;t\x07plain",
        "no codes at all",
        "\x1b[1;32m\x1b[2Jmixed\x1b\\",
    ];
    for input in inputs {
        let once = strip_ansi(input);
        let twice = strip_ansi(&once);
        assert_eq!(once, twice);
        assert!(!once.contains('\x1b'));
    }
}

#[test]
fn test_push_and_get() {
    let mut buffer = ScrollbackBuffer::new(100);

    buffer.push_line(ScrollbackLine {
        plain: "line1".into(),
        raw: "line1".into(),
    });
    buffer.push_line(ScrollbackLine {
        plain: "line2".into(),
        raw: "line2".into(),
    });

    assert_eq!(buffer.len(), 2);
    let content = buffer.get_all(OutputFormat::Plain);
    assert!(content.contains("line1"));
    assert!(content.contains("line2"));
}

#[test]
fn test_max_lines() {
    let mut buffer = ScrollbackBuffer::new(3);

    for i in 0..5 {
        buffer.push_line(ScrollbackLine {
            plain: format!("line{}", i),
            raw: format!("line{}", i),
        });
    }

    assert_eq!(buffer.len(), 3);
    let content = buffer.get_all(OutputFormat::Plain);
    assert!(!content.contains("line0"));
    assert!(!content.contains("line1"));
    assert!(content.contains("line2"));
    assert!(content.contains("line3"));
    assert!(content.contains("line4"));
}

#[test]
fn test_pagination() {
    let mut buffer = ScrollbackBuffer::new(100);

    for i in 0..10 {
        buffer.push_line(ScrollbackLine {
            plain: format!("line{}", i),
            raw: format!("line{}", i),
        });
    }

    // Get last 3 lines
    let content = buffer.get(0, 3, OutputFormat::Plain);
    assert!(content.contains("line7"));
    assert!(content.contains("line8"));
    assert!(content.contains("line9"));
    assert!(!content.contains("line6"));

    // Get 3 lines with offset of 3
    let content = buffer.get(3, 3, OutputFormat::Plain);
    assert!(content.contains("line4"));
    assert!(content.contains("line5"));
    assert!(content.contains("line6"));
}

#[test]
fn test_scrollback_bound() {
    // After K pushes into capacity M, len is min(K, M) and the most
    // recent lines remain, in order.
    let mut buffer = ScrollbackBuffer::new(4);
    for k in 1..=10usize {
        buffer.push_line(ScrollbackLine {
            plain: format!("entry{}", k),
            raw: format!("entry{}", k),
        });
        assert_eq!(buffer.len(), k.min(4));
    }
    let content = buffer.get_all(OutputFormat::Plain);
    assert_eq!(content, "entry7\nentry8\nentry9\nentry10");
}

#[test]
fn test_append_and_take() {
    let mut tracker = OutputTracker::new();

    tracker.append(b"hello ");
    tracker.append(b"world");

    let content = tracker.take(OutputFormat::Raw);
    assert_eq!(content, "hello world");
    assert!(!tracker.has_content());
}

#[test]
fn test_peek() {
    let mut tracker = OutputTracker::new();

    tracker.append(b"test");

    let content = tracker.peek(OutputFormat::Raw);
    assert_eq!(content, "test");
    assert!(tracker.has_content()); // Not cleared

    let content = tracker.take(OutputFormat::Raw);
    assert_eq!(content, "test");
    assert!(!tracker.has_content()); // Now cleared
}

#[test]
fn test_clear() {
    let mut tracker = OutputTracker::new();

    tracker.append(b"data");
    assert!(tracker.has_content());

    tracker.clear();
    assert!(!tracker.has_content());
}

#[test]
fn test_tracker_strips_ansi_for_plain() {
    let mut tracker = OutputTracker::new();
    tracker.append(b"\x1b[31mred\x1b[0m");
    assert_eq!(tracker.peek(OutputFormat::Plain), "red");
    assert_eq!(tracker.take(OutputFormat::Raw), "\x1b[31mred\x1b[0m");
}
