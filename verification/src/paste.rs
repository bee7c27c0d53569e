//! Bracketed paste: wrapping pasted text in the marker sequences that let
//! the receiving program tell pasted input from typed input.

use vstd::prelude::*;

use crate::strutil::chars_contain_char;
use crate::strutil::str_to_chars;
use vstd::string::StrSliceExecFns;
use vstd::string::StringSliceAdditionalSpecFns;

verus! {

/// Bracketed paste mode options.
#[derive(Debug, Clone, Copy, PartialEq, Eq, Structural)]
pub enum BracketedPasteMode {
    /// Always use bracketed paste.
    Always,
    /// Never use bracketed paste.
    Never,
    /// Use bracketed paste only for multi-line text.
    Auto,
}

impl Default for BracketedPasteMode {
    fn default() -> (m: BracketedPasteMode)
        ensures
            m == BracketedPasteMode::Auto,
    {
        BracketedPasteMode::Auto
    }
}

/// The bytes of the paste start marker, `ESC [ 2 0 0 ~`.
pub open spec fn paste_start_spec() -> Seq<u8> {
    seq![27u8, 91u8, 50u8, 48u8, 48u8, 126u8]
}

/// The bytes of the paste end marker, `ESC [ 2 0 1 ~`.
pub open spec fn paste_end_spec() -> Seq<u8> {
    seq![27u8, 91u8, 50u8, 48u8, 49u8, 126u8]
}

/// The start marker for bracketed paste.
pub fn paste_start() -> (r: Vec<u8>)
    ensures
        r@ == paste_start_spec(),
{
    let r: Vec<u8> = vec![27u8, 91u8, 50u8, 48u8, 48u8, 126u8];
    proof {
        assert(r@ =~= paste_start_spec());
    }
    r
}

/// The end marker for bracketed paste.
pub fn paste_end() -> (r: Vec<u8>)
    ensures
        r@ == paste_end_spec(),
{
    let r: Vec<u8> = vec![27u8, 91u8, 50u8, 48u8, 49u8, 126u8];
    proof {
        assert(r@ =~= paste_end_spec());
    }
    r
}

/// Whether the given text and mode call for bracketed paste: always for
/// Always, never for Never, and only multi-line text for Auto.
pub open spec fn should_wrap_spec(text: Seq<char>, mode: BracketedPasteMode) -> bool {
    match mode {
        BracketedPasteMode::Always => true,
        BracketedPasteMode::Never => false,
        BracketedPasteMode::Auto => text.contains('\n'),
    }
}

/// Whether bracketed paste should be used for the given text.
pub fn should_use_bracketed_paste(text: &str, mode: BracketedPasteMode) -> (r: bool)
    ensures
        r == should_wrap_spec(text@, mode),
{
    match mode {
        BracketedPasteMode::Always => true,
        BracketedPasteMode::Never => false,
        BracketedPasteMode::Auto => {
            let cs = str_to_chars(text);
            chars_contain_char(&cs, '\n')
        },
    }
}

/// Wrap text in the bracketed paste markers.
pub fn wrap_bracketed_paste(text: &str) -> (r: Vec<u8>)
    ensures
        r@ == paste_start_spec() + text.spec_bytes() + paste_end_spec(),
{
    let mut r = paste_start();
    let mut body = text.as_bytes_vec();
    r.append(&mut body);
    let mut tail = paste_end();
    r.append(&mut tail);
    r
}

/// Encode text for sending: the UTF-8 bytes, wrapped in the paste markers
/// exactly when the text and mode call for it.
pub fn encode_text(text: &str, mode: BracketedPasteMode) -> (r: Vec<u8>)
    ensures
        should_wrap_spec(text@, mode) ==> r@ == paste_start_spec() + text.spec_bytes()
            + paste_end_spec(),
        !should_wrap_spec(text@, mode) ==> r@ == text.spec_bytes(),
{
    if should_use_bracketed_paste(text, mode) {
        wrap_bracketed_paste(text)
    } else {
        text.as_bytes_vec()
    }
}

} // verus!
