//! Encoding key events into the byte sequences a terminal expects.

use vstd::prelude::*;

use crate::strutil::ascii_upper_spec;
use crate::strutil::is_ascii_letter;
use crate::strutil::is_ascii_letter_spec;
use crate::strutil::str_to_chars;
use crate::types::TerminalError;

verus! {

/// Special keys that can be sent to the terminal.
#[derive(Debug, Clone, Copy, PartialEq, Eq, Structural)]
pub enum SpecialKey {
    Up,
    Down,
    Left,
    Right,
    Home,
    End,
    PageUp,
    PageDown,
    Backspace,
    Delete,
    Insert,
    Tab,
    Enter,
    Escape,
    F1,
    F2,
    F3,
    F4,
    F5,
    F6,
    F7,
    F8,
    F9,
    F10,
    F11,
    F12,
}

/// A key event: an optional special key, optional text, and modifiers.
#[derive(Debug, Clone)]
pub struct KeyInput {
    /// Special key, if any.
    pub key: Option<SpecialKey>,
    /// Text to send, if any.
    pub text: Option<String>,
    /// Ctrl modifier.
    pub ctrl: bool,
    /// Alt modifier.
    pub alt: bool,
    /// Shift modifier.
    pub shift: bool,
}

impl Default for KeyInput {
    fn default() -> (k: KeyInput)
        ensures
            k.key is None,
            k.text is None,
            !k.ctrl,
            !k.alt,
            !k.shift,
    {
        KeyInput { key: None, text: None, ctrl: false, alt: false, shift: false }
    }
}

/// The xterm modifier code: `1 + shift + 2*alt + 4*ctrl`.
pub open spec fn modifier_code_spec(shift: bool, alt: bool, ctrl: bool) -> int {
    1 + (if shift {
        1int
    } else {
        0int
    }) + (if alt {
        2int
    } else {
        0int
    }) + (if ctrl {
        4int
    } else {
        0int
    })
}

/// The base escape sequence of a special key, xterm style.
pub open spec fn base_sequence_spec(key: SpecialKey) -> Seq<u8> {
    match key {
        SpecialKey::Up => seq![27u8, 91u8, 65u8],
        SpecialKey::Down => seq![27u8, 91u8, 66u8],
        SpecialKey::Right => seq![27u8, 91u8, 67u8],
        SpecialKey::Left => seq![27u8, 91u8, 68u8],
        SpecialKey::Home => seq![27u8, 91u8, 72u8],
        SpecialKey::End => seq![27u8, 91u8, 70u8],
        SpecialKey::PageUp => seq![27u8, 91u8, 53u8, 126u8],
        SpecialKey::PageDown => seq![27u8, 91u8, 54u8, 126u8],
        SpecialKey::Insert => seq![27u8, 91u8, 50u8, 126u8],
        SpecialKey::Delete => seq![27u8, 91u8, 51u8, 126u8],
        SpecialKey::Backspace => seq![127u8],
        SpecialKey::Tab => seq![9u8],
        SpecialKey::Enter => seq![13u8],
        SpecialKey::Escape => seq![27u8],
        SpecialKey::F1 => seq![27u8, 79u8, 80u8],
        SpecialKey::F2 => seq![27u8, 79u8, 81u8],
        SpecialKey::F3 => seq![27u8, 79u8, 82u8],
        SpecialKey::F4 => seq![27u8, 79u8, 83u8],
        SpecialKey::F5 => seq![27u8, 91u8, 49u8, 53u8, 126u8],
        SpecialKey::F6 => seq![27u8, 91u8, 49u8, 55u8, 126u8],
        SpecialKey::F7 => seq![27u8, 91u8, 49u8, 56u8, 126u8],
        SpecialKey::F8 => seq![27u8, 91u8, 49u8, 57u8, 126u8],
        SpecialKey::F9 => seq![27u8, 91u8, 50u8, 48u8, 126u8],
        SpecialKey::F10 => seq![27u8, 91u8, 50u8, 49u8, 126u8],
        SpecialKey::F11 => seq![27u8, 91u8, 50u8, 51u8, 126u8],
        SpecialKey::F12 => seq![27u8, 91u8, 50u8, 52u8, 126u8],
    }
}

/// Whether the key has a parameterized form that carries a modifier code.
pub open spec fn supports_modifiers_spec(key: SpecialKey) -> bool {
    !(key == SpecialKey::Backspace || key == SpecialKey::Tab || key == SpecialKey::Enter
        || key == SpecialKey::Escape)
}

/// The final byte of the `CSI 1;m X` form, for keys that use it.
pub open spec fn csi_final_byte(key: SpecialKey) -> u8 {
    match key {
        SpecialKey::Up => 65u8,
        SpecialKey::Down => 66u8,
        SpecialKey::Right => 67u8,
        SpecialKey::Left => 68u8,
        SpecialKey::Home => 72u8,
        SpecialKey::End => 70u8,
        SpecialKey::F1 => 80u8,
        SpecialKey::F2 => 81u8,
        SpecialKey::F3 => 82u8,
        SpecialKey::F4 => 83u8,
        _ => 0u8,
    }
}

/// The decimal digits of the number in the `CSI N;m~` form, for keys that
/// use it.
pub open spec fn tilde_code_digits(key: SpecialKey) -> Seq<u8> {
    match key {
        SpecialKey::PageUp => seq![53u8],
        SpecialKey::PageDown => seq![54u8],
        SpecialKey::Insert => seq![50u8],
        SpecialKey::Delete => seq![51u8],
        SpecialKey::F5 => seq![49u8, 53u8],
        SpecialKey::F6 => seq![49u8, 55u8],
        SpecialKey::F7 => seq![49u8, 56u8],
        SpecialKey::F8 => seq![49u8, 57u8],
        SpecialKey::F9 => seq![50u8, 48u8],
        SpecialKey::F10 => seq![50u8, 49u8],
        SpecialKey::F11 => seq![50u8, 51u8],
        SpecialKey::F12 => seq![50u8, 52u8],
        _ => Seq::empty(),
    }
}

/// Whether the key takes the `CSI N;m~` form when modified.
pub open spec fn is_tilde_key(key: SpecialKey) -> bool {
    tilde_code_digits(key).len() > 0
}

/// The bytes emitted for a special key under modifier code `m`: the base
/// sequence when `m` is 1 or the key has no modifier variant, otherwise the
/// parameterized xterm form whose `;m` parameter is the single digit of `m`.
pub open spec fn special_key_bytes(key: SpecialKey, m: int) -> Seq<u8> {
    if m == 1 || !supports_modifiers_spec(key) {
        base_sequence_spec(key)
    } else if is_tilde_key(key) {
        seq![27u8, 91u8] + tilde_code_digits(key) + seq![59u8, (48 + m) as u8, 126u8]
    } else {
        seq![27u8, 91u8, 49u8, 59u8, (48 + m) as u8, csi_final_byte(key)]
    }
}

/// The control code of an ASCII letter: Ctrl+A is 1 through Ctrl+Z is 26.
pub open spec fn ctrl_code_spec(c: char) -> u8 {
    (ascii_upper_spec(c) as u32 - 64) as u8
}

/// The bytes emitted for plain text under the ctrl and alt modifiers: each
/// character in order, an ESC before each when alt is set, ASCII letters
/// replaced by their control code when ctrl is set, all else UTF-8.
pub open spec fn text_bytes_spec(t: Seq<char>, ctrl: bool, alt: bool) -> Seq<u8>
    decreases t.len(),
{
    if t.len() == 0 {
        Seq::empty()
    } else {
        (if alt {
            seq![27u8]
        } else {
            Seq::empty()
        }) + (if ctrl && is_ascii_letter_spec(t[0]) {
            seq![ctrl_code_spec(t[0])]
        } else {
            vstd::utf8::encode_scalar(t[0] as u32)
        }) + text_bytes_spec(t.drop_first(), ctrl, alt)
    }
}

/// What `KeyInput::encode` returns. Ctrl with a single ASCII letter and no
/// key or alt yields the bare control code; otherwise a special key takes
/// precedence, then text; with neither the input is rejected.
pub open spec fn encode_spec(
    key: Option<SpecialKey>,
    text: Option<Seq<char>>,
    ctrl: bool,
    alt: bool,
    shift: bool,
) -> Option<Seq<u8>> {
    if ctrl && !alt && key is None && text is Some && text.unwrap().len() == 1
        && is_ascii_letter_spec(text.unwrap()[0]) {
        Some(seq![ctrl_code_spec(text.unwrap()[0])])
    } else if key is Some {
        Some(special_key_bytes(key.unwrap(), modifier_code_spec(shift, alt, ctrl)))
    } else if text is Some {
        Some(text_bytes_spec(text.unwrap(), ctrl, alt))
    } else {
        None
    }
}

impl SpecialKey {
    /// The base escape sequence for this key, xterm style.
    pub fn base_sequence(&self) -> (r: Vec<u8>)
        ensures
            r@ == base_sequence_spec(*self),
    {
        let r: Vec<u8> = match self {
            SpecialKey::Up => vec![27u8, 91u8, 65u8],
            SpecialKey::Down => vec![27u8, 91u8, 66u8],
            SpecialKey::Right => vec![27u8, 91u8, 67u8],
            SpecialKey::Left => vec![27u8, 91u8, 68u8],
            SpecialKey::Home => vec![27u8, 91u8, 72u8],
            SpecialKey::End => vec![27u8, 91u8, 70u8],
            SpecialKey::PageUp => vec![27u8, 91u8, 53u8, 126u8],
            SpecialKey::PageDown => vec![27u8, 91u8, 54u8, 126u8],
            SpecialKey::Insert => vec![27u8, 91u8, 50u8, 126u8],
            SpecialKey::Delete => vec![27u8, 91u8, 51u8, 126u8],
            SpecialKey::Backspace => vec![127u8],
            SpecialKey::Tab => vec![9u8],
            SpecialKey::Enter => vec![13u8],
            SpecialKey::Escape => vec![27u8],
            SpecialKey::F1 => vec![27u8, 79u8, 80u8],
            SpecialKey::F2 => vec![27u8, 79u8, 81u8],
            SpecialKey::F3 => vec![27u8, 79u8, 82u8],
            SpecialKey::F4 => vec![27u8, 79u8, 83u8],
            SpecialKey::F5 => vec![27u8, 91u8, 49u8, 53u8, 126u8],
            SpecialKey::F6 => vec![27u8, 91u8, 49u8, 55u8, 126u8],
            SpecialKey::F7 => vec![27u8, 91u8, 49u8, 56u8, 126u8],
            SpecialKey::F8 => vec![27u8, 91u8, 49u8, 57u8, 126u8],
            SpecialKey::F9 => vec![27u8, 91u8, 50u8, 48u8, 126u8],
            SpecialKey::F10 => vec![27u8, 91u8, 50u8, 49u8, 126u8],
            SpecialKey::F11 => vec![27u8, 91u8, 50u8, 51u8, 126u8],
            SpecialKey::F12 => vec![27u8, 91u8, 50u8, 52u8, 126u8],
        };
        proof {
            assert(r@ =~= base_sequence_spec(*self));
        }
        r
    }

    /// Whether this key has a parameterized form carrying a modifier code.
    pub fn supports_modifiers(&self) -> (r: bool)
        ensures
            r == supports_modifiers_spec(*self),
    {
        !matches!(
            self,
            SpecialKey::Backspace | SpecialKey::Tab | SpecialKey::Enter | SpecialKey::Escape
        )
    }

    /// Parse a key name, case-insensitively.
    pub fn from_name(name: &str) -> (r: Option<SpecialKey>)
        ensures
            r == from_name_spec(name@),
    {
        let cs = str_to_chars(name);
        let mut lowered: Vec<char> = Vec::new();
        let mut i: usize = 0;
        while i < cs.len()
            invariant
                i <= cs.len(),
                lowered@ =~= cs@.subrange(0, i as int).map_values(|c: char| ascii_lower_spec(c)),
            decreases cs.len() - i,
        {
            lowered.push(ascii_lower(cs[i]));
            proof {
                assert(cs@.subrange(0, i + 1).map_values(|c: char| ascii_lower_spec(c)) =~= cs@
                    .subrange(0, i as int).map_values(|c: char| ascii_lower_spec(c)).push(
                    ascii_lower_spec(cs@[i as int]),
                ));
            }
            i = i + 1;
        }
        proof {
            assert(cs@.subrange(0, cs@.len() as int) =~= cs@);
        }
        let r = if chars_eq_lit(&lowered, "up") {
            Some(SpecialKey::Up)
        } else if chars_eq_lit(&lowered, "down") {
            Some(SpecialKey::Down)
        } else if chars_eq_lit(&lowered, "left") {
            Some(SpecialKey::Left)
        } else if chars_eq_lit(&lowered, "right") {
            Some(SpecialKey::Right)
        } else if chars_eq_lit(&lowered, "home") {
            Some(SpecialKey::Home)
        } else if chars_eq_lit(&lowered, "end") {
            Some(SpecialKey::End)
        } else if chars_eq_lit(&lowered, "pageup") || chars_eq_lit(&lowered, "page_up") {
            Some(SpecialKey::PageUp)
        } else if chars_eq_lit(&lowered, "pagedown") || chars_eq_lit(&lowered, "page_down") {
            Some(SpecialKey::PageDown)
        } else if chars_eq_lit(&lowered, "backspace") {
            Some(SpecialKey::Backspace)
        } else if chars_eq_lit(&lowered, "delete") || chars_eq_lit(&lowered, "del") {
            Some(SpecialKey::Delete)
        } else if chars_eq_lit(&lowered, "insert") || chars_eq_lit(&lowered, "ins") {
            Some(SpecialKey::Insert)
        } else if chars_eq_lit(&lowered, "tab") {
            Some(SpecialKey::Tab)
        } else if chars_eq_lit(&lowered, "enter") || chars_eq_lit(&lowered, "return") {
            Some(SpecialKey::Enter)
        } else if chars_eq_lit(&lowered, "escape") || chars_eq_lit(&lowered, "esc") {
            Some(SpecialKey::Escape)
        } else if chars_eq_lit(&lowered, "f1") {
            Some(SpecialKey::F1)
        } else if chars_eq_lit(&lowered, "f2") {
            Some(SpecialKey::F2)
        } else if chars_eq_lit(&lowered, "f3") {
            Some(SpecialKey::F3)
        } else if chars_eq_lit(&lowered, "f4") {
            Some(SpecialKey::F4)
        } else if chars_eq_lit(&lowered, "f5") {
            Some(SpecialKey::F5)
        } else if chars_eq_lit(&lowered, "f6") {
            Some(SpecialKey::F6)
        } else if chars_eq_lit(&lowered, "f7") {
            Some(SpecialKey::F7)
        } else if chars_eq_lit(&lowered, "f8") {
            Some(SpecialKey::F8)
        } else if chars_eq_lit(&lowered, "f9") {
            Some(SpecialKey::F9)
        } else if chars_eq_lit(&lowered, "f10") {
            Some(SpecialKey::F10)
        } else if chars_eq_lit(&lowered, "f11") {
            Some(SpecialKey::F11)
        } else if chars_eq_lit(&lowered, "f12") {
            Some(SpecialKey::F12)
        } else {
            None
        };
        r
    }
}

/// The ASCII lower-case counterpart of `c`: A-Z map to a-z, all else stays.
pub open spec fn ascii_lower_spec(c: char) -> char {
    if 65 <= c as u32 && c as u32 <= 90 {
        ((c as u32) + 32) as char
    } else {
        c
    }
}

/// Lower-cases one ASCII character.
fn ascii_lower(c: char) -> (r: char)
    ensures
        r == ascii_lower_spec(c),
{
    let u = c as u32;
    if 65 <= u && u <= 90 {
        let b = (u + 32) as u8;
        b as char
    } else {
        c
    }
}

/// Whether the characters of `v` spell exactly the literal `s`.
fn chars_eq_lit(v: &Vec<char>, s: &str) -> (r: bool)
    ensures
        r == (v@ == s@),
{
    let cs = str_to_chars(s);
    if v.len() != cs.len() {
        proof {
            assert(v@.len() != s@.len());
        }
        return false;
    }
    let mut i: usize = 0;
    while i < v.len()
        invariant
            i <= v.len(),
            v@.len() == cs@.len(),
            cs@ == s@,
            forall|j: int| 0 <= j < i ==> v@[j] == cs@[j],
        decreases v.len() - i,
    {
        if v[i] != cs[i] {
            return false;
        }
        i = i + 1;
    }
    proof {
        assert(v@ =~= s@);
    }
    true
}

/// What `SpecialKey::from_name` returns for a name: the key whose
/// lower-cased name (or accepted alias) it spells, if any.
pub open spec fn from_name_spec(name: Seq<char>) -> Option<SpecialKey> {
    let low = name.map_values(|c: char| ascii_lower_spec(c));
    if low == "up"@ {
        Some(SpecialKey::Up)
    } else if low == "down"@ {
        Some(SpecialKey::Down)
    } else if low == "left"@ {
        Some(SpecialKey::Left)
    } else if low == "right"@ {
        Some(SpecialKey::Right)
    } else if low == "home"@ {
        Some(SpecialKey::Home)
    } else if low == "end"@ {
        Some(SpecialKey::End)
    } else if low == "pageup"@ || low == "page_up"@ {
        Some(SpecialKey::PageUp)
    } else if low == "pagedown"@ || low == "page_down"@ {
        Some(SpecialKey::PageDown)
    } else if low == "backspace"@ {
        Some(SpecialKey::Backspace)
    } else if low == "delete"@ || low == "del"@ {
        Some(SpecialKey::Delete)
    } else if low == "insert"@ || low == "ins"@ {
        Some(SpecialKey::Insert)
    } else if low == "tab"@ {
        Some(SpecialKey::Tab)
    } else if low == "enter"@ || low == "return"@ {
        Some(SpecialKey::Enter)
    } else if low == "escape"@ || low == "esc"@ {
        Some(SpecialKey::Escape)
    } else if low == "f1"@ {
        Some(SpecialKey::F1)
    } else if low == "f2"@ {
        Some(SpecialKey::F2)
    } else if low == "f3"@ {
        Some(SpecialKey::F3)
    } else if low == "f4"@ {
        Some(SpecialKey::F4)
    } else if low == "f5"@ {
        Some(SpecialKey::F5)
    } else if low == "f6"@ {
        Some(SpecialKey::F6)
    } else if low == "f7"@ {
        Some(SpecialKey::F7)
    } else if low == "f8"@ {
        Some(SpecialKey::F8)
    } else if low == "f9"@ {
        Some(SpecialKey::F9)
    } else if low == "f10"@ {
        Some(SpecialKey::F10)
    } else if low == "f11"@ {
        Some(SpecialKey::F11)
    } else if low == "f12"@ {
        Some(SpecialKey::F12)
    } else {
        None
    }
}

impl KeyInput {
    /// The text's characters, if text is present; for contracts.
    pub open spec fn text_view(&self) -> Option<Seq<char>> {
        match self.text {
            Some(ref t) => Some(t@),
            None => None,
        }
    }

    /// Encode this key event to the bytes the PTY expects. Fails with
    /// `NoInput` exactly when neither text nor key is given.
    pub fn encode(&self) -> (r: Result<Vec<u8>, TerminalError>)
        ensures
            match r {
                Ok(v) => encode_spec(self.key, self.text_view(), self.ctrl, self.alt, self.shift)
                    == Some(v@),
                Err(e) => {
                    &&& encode_spec(self.key, self.text_view(), self.ctrl, self.alt, self.shift)
                        is None
                    &&& e == TerminalError::NoInput
                },
            },
    {
        if self.ctrl && !self.alt && self.key.is_none() {
            if let Some(ref text) = self.text {
                let cs = str_to_chars(text.as_str());
                if cs.len() == 1 && is_ascii_letter(cs[0]) {
                    let code = ctrl_code(cs[0]);
                    return Ok(vec![code]);
                }
            }
        }
        if let Some(key) = self.key {
            let m = self.modifier_code();
            return Ok(encode_special_key(key, m));
        }
        if let Some(ref text) = self.text {
            let cs = str_to_chars(text.as_str());
            let mut out: Vec<u8> = Vec::new();
            let mut i: usize = 0;
            proof {
                assert(cs@.skip(0) =~= cs@);
                assert(out@ + text_bytes_spec(cs@.skip(0), self.ctrl, self.alt) =~= text_bytes_spec(
                    cs@,
                    self.ctrl,
                    self.alt,
                ));
            }
            while i < cs.len()
                invariant
                    i <= cs.len(),
                    out@ + text_bytes_spec(cs@.skip(i as int), self.ctrl, self.alt)
                        == text_bytes_spec(cs@, self.ctrl, self.alt),
                decreases cs.len() - i,
            {
                let c = cs[i];
                proof {
                    assert(cs@.skip(i as int)[0] == cs@[i as int]);
                    assert(cs@.skip(i as int).drop_first() =~= cs@.skip(i + 1));
                }
                let ghost out_entry = out@;
                if self.alt {
                    out.push(27u8);
                }
                if self.ctrl && is_ascii_letter(c) {
                    let code = ctrl_code(c);
                    out.push(code);
                } else {
                    let mut eb = crate::strutil::char_utf8(c);
                    out.append(&mut eb);
                }
                proof {
                    assert(out@ =~= out_entry + (if self.alt {
                        seq![27u8]
                    } else {
                        Seq::<u8>::empty()
                    }) + (if self.ctrl && is_ascii_letter_spec(c) {
                        seq![ctrl_code_spec(c)]
                    } else {
                        vstd::utf8::encode_scalar(c as u32)
                    }));
                    assert(out@ + text_bytes_spec(cs@.skip(i + 1), self.ctrl, self.alt)
                        =~= out_entry + text_bytes_spec(cs@.skip(i as int), self.ctrl, self.alt));
                }
                i = i + 1;
            }
            proof {
                assert(cs@.skip(cs@.len() as int) =~= Seq::<char>::empty());
                assert(out@ =~= text_bytes_spec(cs@, self.ctrl, self.alt));
            }
            return Ok(out);
        }
        Err(TerminalError::NoInput)
    }

    /// The xterm modifier code of this event: `1 + shift + 2*alt + 4*ctrl`.
    pub fn modifier_code(&self) -> (m: u8)
        ensures
            m == modifier_code_spec(self.shift, self.alt, self.ctrl),
            1 <= m <= 8,
    {
        1 + (if self.shift {
            1u8
        } else {
            0u8
        }) + (if self.alt {
            2u8
        } else {
            0u8
        }) + (if self.ctrl {
            4u8
        } else {
            0u8
        })
    }
}

/// The control code of an ASCII letter.
fn ctrl_code(c: char) -> (r: u8)
    requires
        is_ascii_letter_spec(c),
    ensures
        r == ctrl_code_spec(c),
        1 <= r <= 26,
{
    let u = c as u32;
    let upper = if 97 <= u && u <= 122 {
        u - 32
    } else {
        u
    };
    (upper - 64) as u8
}

/// Encode a special key under a modifier code.
fn encode_special_key(key: SpecialKey, m: u8) -> (r: Vec<u8>)
    requires
        1 <= m <= 8,
    ensures
        r@ == special_key_bytes(key, m as int),
{
    if m == 1 || !key.supports_modifiers() {
        return key.base_sequence();
    }
    let digit = 48 + m;
    let r: Vec<u8> = match key {
        SpecialKey::Up => vec![27u8, 91u8, 49u8, 59u8, digit, 65u8],
        SpecialKey::Down => vec![27u8, 91u8, 49u8, 59u8, digit, 66u8],
        SpecialKey::Right => vec![27u8, 91u8, 49u8, 59u8, digit, 67u8],
        SpecialKey::Left => vec![27u8, 91u8, 49u8, 59u8, digit, 68u8],
        SpecialKey::Home => vec![27u8, 91u8, 49u8, 59u8, digit, 72u8],
        SpecialKey::End => vec![27u8, 91u8, 49u8, 59u8, digit, 70u8],
        SpecialKey::PageUp => vec![27u8, 91u8, 53u8, 59u8, digit, 126u8],
        SpecialKey::PageDown => vec![27u8, 91u8, 54u8, 59u8, digit, 126u8],
        SpecialKey::Insert => vec![27u8, 91u8, 50u8, 59u8, digit, 126u8],
        SpecialKey::Delete => vec![27u8, 91u8, 51u8, 59u8, digit, 126u8],
        SpecialKey::F1 => vec![27u8, 91u8, 49u8, 59u8, digit, 80u8],
        SpecialKey::F2 => vec![27u8, 91u8, 49u8, 59u8, digit, 81u8],
        SpecialKey::F3 => vec![27u8, 91u8, 49u8, 59u8, digit, 82u8],
        SpecialKey::F4 => vec![27u8, 91u8, 49u8, 59u8, digit, 83u8],
        SpecialKey::F5 => vec![27u8, 91u8, 49u8, 53u8, 59u8, digit, 126u8],
        SpecialKey::F6 => vec![27u8, 91u8, 49u8, 55u8, 59u8, digit, 126u8],
        SpecialKey::F7 => vec![27u8, 91u8, 49u8, 56u8, 59u8, digit, 126u8],
        SpecialKey::F8 => vec![27u8, 91u8, 49u8, 57u8, 59u8, digit, 126u8],
        SpecialKey::F9 => vec![27u8, 91u8, 50u8, 48u8, 59u8, digit, 126u8],
        SpecialKey::F10 => vec![27u8, 91u8, 50u8, 49u8, 59u8, digit, 126u8],
        SpecialKey::F11 => vec![27u8, 91u8, 50u8, 51u8, 59u8, digit, 126u8],
        SpecialKey::F12 => vec![27u8, 91u8, 50u8, 52u8, 59u8, digit, 126u8],
        _ => key.base_sequence(),
    };
    proof {
        assert(r@ =~= special_key_bytes(key, m as int));
    }
    r
}

/// The modifier-code law: for every special key that supports modifiers and
/// every modifier combination beyond the bare key, the encoded sequence
/// carries a `;` followed by the digit of `1 + shift + 2*alt + 4*ctrl`.
pub proof fn lemma_modifier_code(key: SpecialKey, shift: bool, alt: bool, ctrl: bool)
    requires
        supports_modifiers_spec(key),
        shift || alt || ctrl,
    ensures
        ({
            let m = modifier_code_spec(shift, alt, ctrl);
            let bytes = special_key_bytes(key, m);
            exists|i: int|
                0 <= i && i + 1 < bytes.len() && #[trigger] bytes[i] == 59 && bytes[i + 1] == 48
                    + m
        }),
{
    let m = modifier_code_spec(shift, alt, ctrl);
    let bytes = special_key_bytes(key, m);
    if is_tilde_key(key) {
        let i = 2 + tilde_code_digits(key).len() as int;
        assert(bytes[i] == 59 && bytes[i + 1] == 48 + m);
    } else {
        assert(bytes[3] == 59 && bytes[4] == 48 + m);
    }
}

} // verus!
