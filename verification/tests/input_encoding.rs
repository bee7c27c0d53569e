//! Key and paste encoding.

use termmux::keys::KeyInput;
use termmux::keys::SpecialKey;
use termmux::paste::encode_text;
use termmux::paste::paste_end;
use termmux::paste::paste_start;
use termmux::paste::should_use_bracketed_paste;
use termmux::paste::wrap_bracketed_paste;
use termmux::paste::BracketedPasteMode;

#[test]
fn test_arrow_keys() {
    let input = KeyInput {
        key: Some(SpecialKey::Up),
        ..Default::default()
    };
    assert_eq!(input.encode().unwrap(), b"\x1b[A");

    let input = KeyInput {
        key: Some(SpecialKey::Down),
        ..Default::default()
    };
    assert_eq!(input.encode().unwrap(), b"\x1b[B");
}

#[test]
fn test_ctrl_c() {
    let input = KeyInput {
        text: Some("c".into()),
        ctrl: true,
        ..Default::default()
    };
    assert_eq!(input.encode().unwrap(), vec![0x03]); // ETX
}

#[test]
fn test_ctrl_d() {
    let input = KeyInput {
        text: Some("d".into()),
        ctrl: true,
        ..Default::default()
    };
    assert_eq!(input.encode().unwrap(), vec![0x04]); // EOT
}

#[test]
fn test_ctrl_z() {
    let input = KeyInput {
        text: Some("z".into()),
        ctrl: true,
        ..Default::default()
    };
    assert_eq!(input.encode().unwrap(), vec![0x1a]); // SUB
}

#[test]
fn test_shift_up() {
    let input = KeyInput {
        key: Some(SpecialKey::Up),
        shift: true,
        ..Default::default()
    };
    assert_eq!(input.encode().unwrap(), b"\x1b[1;2A");
}

#[test]
fn test_ctrl_up() {
    let input = KeyInput {
        key: Some(SpecialKey::Up),
        ctrl: true,
        ..Default::default()
    };
    assert_eq!(input.encode().unwrap(), b"\x1b[1;5A");
}

#[test]
fn test_alt_up() {
    let input = KeyInput {
        key: Some(SpecialKey::Up),
        alt: true,
        ..Default::default()
    };
    assert_eq!(input.encode().unwrap(), b"\x1b[1;3A");
}

#[test]
fn test_function_keys() {
    let input = KeyInput {
        key: Some(SpecialKey::F1),
        ..Default::default()
    };
    assert_eq!(input.encode().unwrap(), b"\x1bOP");

    let input = KeyInput {
        key: Some(SpecialKey::F5),
        ..Default::default()
    };
    assert_eq!(input.encode().unwrap(), b"\x1b[15~");
}

#[test]
fn test_text() {
    let input = KeyInput {
        text: Some("hello".into()),
        ..Default::default()
    };
    assert_eq!(input.encode().unwrap(), b"hello");
}

#[test]
fn test_alt_text() {
    let input = KeyInput {
        text: Some("x".into()),
        alt: true,
        ..Default::default()
    };
    assert_eq!(input.encode().unwrap(), b"\x1bx");
}

#[test]
fn test_wrap_bracketed_paste() {
    let wrapped = wrap_bracketed_paste("hello");
    assert!(wrapped.starts_with(&paste_start()));
    assert!(wrapped.ends_with(&paste_end()));
    assert!(wrapped.windows(5).any(|w| w == b"hello"));
}

#[test]
fn test_should_use_auto_single_line() {
    assert!(!should_use_bracketed_paste("hello", BracketedPasteMode::Auto));
}

#[test]
fn test_should_use_auto_multi_line() {
    assert!(should_use_bracketed_paste("hello\nworld", BracketedPasteMode::Auto));
}

#[test]
fn test_should_use_always() {
    assert!(should_use_bracketed_paste("hello", BracketedPasteMode::Always));
}

#[test]
fn test_should_use_never() {
    assert!(!should_use_bracketed_paste("hello\nworld", BracketedPasteMode::Never));
}

#[test]
fn test_encode_text_single_line() {
    let encoded = encode_text("hello", BracketedPasteMode::Auto);
    assert_eq!(encoded, b"hello");
}

#[test]
fn test_encode_text_multi_line() {
    let encoded = encode_text("hello\nworld", BracketedPasteMode::Auto);
    assert!(encoded.starts_with(&paste_start()));
}

#[test]
fn test_modifier_encoding_up() {
    // Shift+Up and Ctrl+Up take the parameterized xterm forms.
    let shifted = KeyInput {
        key: Some(SpecialKey::Up),
        shift: true,
        ..Default::default()
    };
    assert_eq!(shifted.encode().unwrap(), b"\x1b[1;2A");
    let ctrled = KeyInput {
        key: Some(SpecialKey::Up),
        ctrl: true,
        ..Default::default()
    };
    assert_eq!(ctrled.encode().unwrap(), b"\x1b[1;5A");
}

#[test]
fn test_modifier_code_formula() {
    // The `;m` parameter is 1 + shift + 2*alt + 4*ctrl.
    for shift in [false, true] {
        for alt in [false, true] {
            for ctrl in [false, true] {
                if !(shift || alt || ctrl) {
                    continue;
                }
                let input = KeyInput {
                    key: Some(SpecialKey::Delete),
                    ctrl,
                    alt,
                    shift,
                    ..Default::default()
                };
                let code = 1 + shift as u8 + 2 * alt as u8 + 4 * ctrl as u8;
                let expected = format!("\x1b[3;{}~", code).into_bytes();
                assert_eq!(input.encode().unwrap(), expected);
            }
        }
    }
}

#[test]
fn test_auto_paste_wraps_newline_text() {
    // Auto mode wraps `a\nb`, and leaves `ab` untouched.
    let wrapped = encode_text("a\nb", BracketedPasteMode::Auto);
    assert!(wrapped.starts_with(b"\x1b[200~"));
    assert!(wrapped.ends_with(b"\x1b[201~"));
    assert!(wrapped.windows(3).any(|w| w == b"a\nb"));
    let plain = encode_text("ab", BracketedPasteMode::Auto);
    assert_eq!(plain, b"ab");
}

#[test]
fn test_no_input_rejected() {
    let input = KeyInput::default();
    assert!(input.encode().is_err());
}

#[test]
fn test_from_name_aliases() {
    assert_eq!(SpecialKey::from_name("Up"), Some(SpecialKey::Up));
    assert_eq!(SpecialKey::from_name("page_down"), Some(SpecialKey::PageDown));
    assert_eq!(SpecialKey::from_name("ESC"), Some(SpecialKey::Escape));
    assert_eq!(SpecialKey::from_name("return"), Some(SpecialKey::Enter));
    assert_eq!(SpecialKey::from_name("f11"), Some(SpecialKey::F11));
    assert_eq!(SpecialKey::from_name("bogus"), None);
}

#[test]
fn test_alt_non_ascii_text() {
    // Alt prefixes each character's UTF-8 bytes with an escape.
    let input = KeyInput {
        text: Some("é".into()),
        alt: true,
        ..Default::default()
    };
    let mut expected = vec![0x1b];
    expected.extend_from_slice("é".as_bytes());
    assert_eq!(input.encode().unwrap(), expected);
}

#[test]
fn test_enter_ignores_modifiers() {
    // Keys without a modifier variant fall back to their base sequence.
    let input = KeyInput {
        key: Some(SpecialKey::Enter),
        ctrl: true,
        ..Default::default()
    };
    assert_eq!(input.encode().unwrap(), b"\r");
}
