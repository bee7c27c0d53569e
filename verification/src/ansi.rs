//! Stripping ANSI escape sequences from text.
//!
//! A single pass over the characters, driven by a small state machine with
//! states Normal, Escape, CSI, OSC and OSC-Escape. Only characters seen in
//! the Normal state are emitted, so the output never contains an escape
//! character.

use vstd::prelude::*;

use crate::strutil::chars_to_string;
use crate::strutil::str_to_chars;

verus! {

/// The escape character that introduces ANSI sequences.
pub open spec fn esc_char() -> char {
    '\x1b'
}

/// States of the stripping state machine.
#[derive(Debug, Clone, Copy, PartialEq, Eq, Structural)]
pub enum StripState {
    /// Ordinary text; characters are emitted.
    Normal,
    /// An escape character was just read.
    Escape,
    /// A character-set designator was read after the escape; its final
    /// byte is consumed without emitting.
    Designator,
    /// Inside a control sequence, until its final byte.
    Csi,
    /// Inside an operating-system command, until BEL or ESC backslash.
    Osc,
    /// An escape character was read inside an OSC.
    OscEscape,
}

/// Whether `c` introduces a character-set designation after an escape:
/// one of `(`, `)`, `*`, `+`, `-`, `.`, `/`. The byte after it is the
/// designator's final byte and is consumed.
pub open spec fn is_designator_spec(c: char) -> bool {
    c == '(' || c == ')' || c == '*' || c == '+' || c == '-' || c == '.' || c == '/'
}

/// Whether `c` terminates a CSI sequence: an ASCII letter or one of
/// `@`, `` ` ``, `{`, `|`, `}`, `~`.
pub open spec fn is_csi_final_spec(c: char) -> bool {
    ||| (65 <= c as u32 && c as u32 <= 90)
    ||| (97 <= c as u32 && c as u32 <= 122)
    ||| c == '@'
    ||| c == '`'
    ||| c == '{'
    ||| c == '|'
    ||| c == '}'
    ||| c == '~'
}

/// The state after reading `c` in state `st`.
pub open spec fn strip_step(st: StripState, c: char) -> StripState {
    match st {
        StripState::Normal => if c == esc_char() {
            StripState::Escape
        } else {
            StripState::Normal
        },
        StripState::Escape => if c == '[' {
            StripState::Csi
        } else if c == ']' {
            StripState::Osc
        } else if is_designator_spec(c) {
            StripState::Designator
        } else {
            StripState::Normal
        },
        StripState::Designator => StripState::Normal,
        StripState::Csi => if is_csi_final_spec(c) {
            StripState::Normal
        } else {
            StripState::Csi
        },
        StripState::Osc => if c == '\x07' {
            StripState::Normal
        } else if c == esc_char() {
            StripState::OscEscape
        } else {
            StripState::Osc
        },
        StripState::OscEscape => if c == '\\' {
            StripState::Normal
        } else {
            StripState::Osc
        },
    }
}

/// Whether reading `c` in state `st` emits `c` to the output.
pub open spec fn strip_emits(st: StripState, c: char) -> bool {
    st == StripState::Normal && c != esc_char()
}

/// What stripping emits from `s` when started in state `st`.
pub open spec fn strip_from(st: StripState, s: Seq<char>) -> Seq<char>
    decreases s.len(),
{
    if s.len() == 0 {
        Seq::empty()
    } else {
        let rest = strip_from(strip_step(st, s[0]), s.drop_first());
        if strip_emits(st, s[0]) {
            seq![s[0]] + rest
        } else {
            rest
        }
    }
}

/// What `strip_ansi` returns: the text with ANSI sequences removed.
pub open spec fn strip_spec(s: Seq<char>) -> Seq<char> {
    strip_from(StripState::Normal, s)
}

/// Strip ANSI escape codes from a string.
pub fn strip_ansi(input: &str) -> (r: String)
    ensures
        r@ == strip_spec(input@),
{
    let cs = str_to_chars(input);
    let mut out: Vec<char> = Vec::new();
    let mut st = StripState::Normal;
    let mut i: usize = 0;
    proof {
        assert(cs@.skip(0) =~= cs@);
        assert(out@ + strip_from(st, cs@.skip(0)) =~= strip_spec(cs@));
    }
    while i < cs.len()
        invariant
            i <= cs.len(),
            out@ + strip_from(st, cs@.skip(i as int)) == strip_spec(cs@),
        decreases cs.len() - i,
    {
        let c = cs[i];
        proof {
            assert(cs@.skip(i as int)[0] == cs@[i as int]);
            assert(cs@.skip(i as int).drop_first() =~= cs@.skip(i + 1));
        }
        let emit = matches!(st, StripState::Normal) && c != '\x1b';
        st = match st {
            StripState::Normal => if c == '\x1b' {
                StripState::Escape
            } else {
                StripState::Normal
            },
            StripState::Escape => if c == '[' {
                StripState::Csi
            } else if c == ']' {
                StripState::Osc
            } else if c == '(' || c == ')' || c == '*' || c == '+' || c == '-' || c == '.'
                || c == '/' {
                StripState::Designator
            } else {
                StripState::Normal
            },
            StripState::Designator => StripState::Normal,
            StripState::Csi => {
                if is_csi_final_exec(c) {
                    StripState::Normal
                } else {
                    StripState::Csi
                }
            },
            StripState::Osc => if c == '\x07' {
                StripState::Normal
            } else if c == '\x1b' {
                StripState::OscEscape
            } else {
                StripState::Osc
            },
            StripState::OscEscape => if c == '\\' {
                StripState::Normal
            } else {
                StripState::Osc
            },
        };
        if emit {
            out.push(c);
            proof {
                assert(out@ + strip_from(st, cs@.skip(i + 1)) =~= strip_spec(cs@));
            }
        }
        i = i + 1;
    }
    proof {
        assert(cs@.skip(cs@.len() as int) =~= Seq::<char>::empty());
        assert(out@ =~= strip_spec(cs@));
    }
    chars_to_string(&out)
}

/// Whether `c` terminates a CSI sequence.
fn is_csi_final_exec(c: char) -> (r: bool)
    ensures
        r == is_csi_final_spec(c),
{
    let u = c as u32;
    (65 <= u && u <= 90) || (97 <= u && u <= 122) || c == '@' || c == '`' || c == '{' || c == '|'
        || c == '}' || c == '~'
}

/// Stripped output never contains the escape character, whatever the
/// starting state.
pub proof fn lemma_strip_from_no_escape(st: StripState, s: Seq<char>)
    ensures
        forall|i: int| 0 <= i < strip_from(st, s).len() ==> strip_from(st, s)[i] != esc_char(),
    decreases s.len(),
{
    if s.len() == 0 {
    } else {
        lemma_strip_from_no_escape(strip_step(st, s[0]), s.drop_first());
        let rest = strip_from(strip_step(st, s[0]), s.drop_first());
        if strip_emits(st, s[0]) {
            assert(strip_from(st, s) == seq![s[0]] + rest);
            assert forall|i: int| 0 <= i < strip_from(st, s).len() implies strip_from(st, s)[i]
                != esc_char() by {
                if i == 0 {
                    assert(strip_from(st, s)[0] == s[0]);
                } else {
                    assert(strip_from(st, s)[i] == rest[i - 1]);
                }
            }
        } else {
            assert(strip_from(st, s) == rest);
        }
    }
}

/// Stripping leaves a string without escape characters unchanged.
pub proof fn lemma_strip_no_escape_identity(s: Seq<char>)
    requires
        forall|i: int| 0 <= i < s.len() ==> s[i] != esc_char(),
    ensures
        strip_spec(s) == s,
    decreases s.len(),
{
    if s.len() == 0 {
        assert(strip_spec(s) =~= s);
    } else {
        assert(s[0] != esc_char());
        assert(forall|i: int| 0 <= i < s.drop_first().len() ==> s.drop_first()[i] != esc_char());
        lemma_strip_no_escape_identity(s.drop_first());
        assert(strip_spec(s) =~= seq![s[0]] + s.drop_first());
        assert(seq![s[0]] + s.drop_first() =~= s);
    }
}

/// Stripping is idempotent: a second pass changes nothing, and one pass
/// already removes every escape character.
pub proof fn lemma_strip_idempotent(s: Seq<char>)
    ensures
        strip_spec(strip_spec(s)) == strip_spec(s),
        forall|i: int| 0 <= i < strip_spec(s).len() ==> strip_spec(s)[i] != esc_char(),
{
    lemma_strip_from_no_escape(StripState::Normal, s);
    lemma_strip_no_escape_identity(strip_spec(s));
}

} // verus!
