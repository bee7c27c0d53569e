//! The VT emulator: a byte-level state machine that recognizes the usual
//! escape-sequence envelopes and drives the screen buffer.
//!
//! Recognized envelopes: ground printable text (UTF-8), C0 controls,
//! ESC-then-final, CSI with parameters, intermediates and a final byte,
//! OSC until BEL or `ESC \`, and DCS, which is consumed without effect.

use vstd::prelude::*;

use crate::screen::Cell;
use crate::screen::CellAttributes;
use crate::screen::Color;
use crate::screen::ScreenBuffer;
use crate::scrollback::ScrollbackBuffer;
use crate::strutil::bytes_to_string;

verus! {

/// States of the escape-sequence parser.
#[derive(Debug, Clone, Copy, PartialEq, Eq, Structural)]
enum VtState {
    /// Plain text and C0 controls.
    Ground,
    /// An ESC was read.
    Escape,
    /// Inside a control sequence.
    Csi,
    /// Inside an operating-system command.
    Osc,
    /// An ESC was read inside an OSC.
    OscEscape,
    /// Inside a device control string, which is ignored.
    Dcs,
    /// An ESC was read inside a DCS.
    DcsEscape,
}

/// VT sequence performer: parses bytes and applies their effect to a screen
/// and its scrollback.
#[derive(Debug)]
pub struct ScreenPerformer {
    /// Parser state.
    state: VtState,
    /// Completed numeric parameters of the current CSI sequence.
    params: Vec<u16>,
    /// The parameter currently being read.
    cur_param: u16,
    /// Intermediate and private-marker bytes of the current sequence.
    intermediates: Vec<u8>,
    /// Collected payload of the current OSC.
    osc_buf: Vec<u8>,
    /// Continuation bytes still expected of the current UTF-8 character.
    utf8_remaining: u8,
    /// Accumulated code point of the current UTF-8 character.
    utf8_acc: u32,
}


/// One graphic-rendition code applied to a set of attributes: reset, a
/// style flag on or off, a base color, a color reset; unknown codes change
/// nothing. The extended color introducers are handled separately.
pub open spec fn sgr_apply_one(code: u16, a: CellAttributes) -> CellAttributes {
    if code == 0 {
        CellAttributes::default_spec()
    } else if code == 1 {
        CellAttributes { bold: true, ..a }
    } else if code == 2 {
        CellAttributes { dim: true, ..a }
    } else if code == 3 {
        CellAttributes { italic: true, ..a }
    } else if code == 4 {
        CellAttributes { underline: true, ..a }
    } else if code == 5 || code == 6 {
        CellAttributes { blink: true, ..a }
    } else if code == 7 {
        CellAttributes { reverse: true, ..a }
    } else if code == 8 {
        CellAttributes { hidden: true, ..a }
    } else if code == 9 {
        CellAttributes { strikethrough: true, ..a }
    } else if code == 21 {
        CellAttributes { bold: false, ..a }
    } else if code == 22 {
        CellAttributes { bold: false, dim: false, ..a }
    } else if code == 23 {
        CellAttributes { italic: false, ..a }
    } else if code == 24 {
        CellAttributes { underline: false, ..a }
    } else if code == 25 {
        CellAttributes { blink: false, ..a }
    } else if code == 27 {
        CellAttributes { reverse: false, ..a }
    } else if code == 28 {
        CellAttributes { hidden: false, ..a }
    } else if code == 29 {
        CellAttributes { strikethrough: false, ..a }
    } else if 30 <= code && code <= 37 {
        CellAttributes { foreground: Some(Color::Indexed((code - 30) as u8)), ..a }
    } else if code == 39 {
        CellAttributes { foreground: None, ..a }
    } else if 40 <= code && code <= 47 {
        CellAttributes { background: Some(Color::Indexed((code - 40) as u8)), ..a }
    } else if code == 49 {
        CellAttributes { background: None, ..a }
    } else if 90 <= code && code <= 97 {
        CellAttributes { foreground: Some(Color::Indexed((code - 90 + 8) as u8)), ..a }
    } else if 100 <= code && code <= 107 {
        CellAttributes { background: Some(Color::Indexed((code - 100 + 8) as u8)), ..a }
    } else {
        a
    }
}

/// What an extended color introducer at `at` (code 38 or 48) sets: `5;N`
/// a 256-color palette entry, `2;R;G;B` a 24-bit color, with missing
/// components read as 0; anything else changes nothing.
pub open spec fn sgr_ext_color(params: Seq<u16>, at: int, fg: bool, a: CellAttributes) -> CellAttributes {
    if at + 1 >= params.len() {
        a
    } else if params[at + 1] == 5 {
        if at + 2 < params.len() {
            let color = Some(Color::Indexed((params[at + 2] % 256) as u8));
            if fg {
                CellAttributes { foreground: color, ..a }
            } else {
                CellAttributes { background: color, ..a }
            }
        } else {
            a
        }
    } else if params[at + 1] == 2 {
        let red = if at + 2 < params.len() {
            params[at + 2]
        } else {
            0
        };
        let green = if at + 3 < params.len() {
            params[at + 3]
        } else {
            0
        };
        let blue = if at + 4 < params.len() {
            params[at + 4]
        } else {
            0
        };
        let color = Some(Color::Rgb((red % 256) as u8, (green % 256) as u8, (blue % 256) as u8));
        if fg {
            CellAttributes { foreground: color, ..a }
        } else {
            CellAttributes { background: color, ..a }
        }
    } else {
        a
    }
}

/// The index of the parameter after an extended color introducer's
/// consumption.
pub open spec fn sgr_ext_next(params: Seq<u16>, at: int) -> int {
    if at + 1 >= params.len() {
        at + 1
    } else if params[at + 1] == 5 {
        if at + 2 < params.len() {
            at + 3
        } else {
            at + 2
        }
    } else if params[at + 1] == 2 {
        let consumed = at + 4;
        let last = params.len() - 1;
        (if consumed < last {
            consumed
        } else {
            last
        }) + 1
    } else {
        at + 2
    }
}

/// A cursor with the given position restored from its saved slot, when
/// one was saved.
pub open spec fn cursor_restored(c: crate::cursor::CursorState) -> crate::cursor::CursorState {
    match c.saved {
        Some((r, cl)) => crate::cursor::CursorState { row: r, col: cl, ..c },
        None => c,
    }
}

/// What one private set/reset mode does to the screen: 25 toggles cursor
/// visibility, 47 and 1047 switch the alternate buffer, 1049 switches it
/// with a cursor save on enter and restore on exit; other modes change
/// nothing.
pub open spec fn private_step_rel(
    pre: ScreenBuffer,
    post: ScreenBuffer,
    mode: u16,
    enable: bool,
) -> bool {
    if mode == 25 {
        post == ScreenBuffer {
            cursor: crate::cursor::CursorState { visible: enable, ..pre.cursor },
            ..pre
        }
    } else if mode == 47 || mode == 1047 {
        if enable {
            ScreenBuffer::enter_alt_effect(pre, post)
        } else {
            ScreenBuffer::exit_alt_effect(pre, post)
        }
    } else if mode == 1049 {
        if enable {
            ScreenBuffer::enter_alt_effect(
                ScreenBuffer {
                    cursor: crate::cursor::CursorState {
                        saved: Some((pre.cursor.row, pre.cursor.col)),
                        ..pre.cursor
                    },
                    ..pre
                },
                post,
            )
        } else {
            exists|mid: ScreenBuffer|
                {
                    &&& #[trigger] ScreenBuffer::exit_alt_effect(pre, mid)
                    &&& post == ScreenBuffer { cursor: cursor_restored(mid.cursor), ..mid }
                }
        }
    } else {
        post == pre
    }
}

/// The private modes of one sequence applied left to right.
pub open spec fn private_modes_rel(
    pre: ScreenBuffer,
    post: ScreenBuffer,
    modes: Seq<u16>,
    enable: bool,
) -> bool
    decreases modes.len(),
{
    if modes.len() == 0 {
        post == pre
    } else {
        exists|mid: ScreenBuffer|
            {
                &&& #[trigger] private_step_rel(pre, mid, modes[0], enable)
                &&& private_modes_rel(mid, post, modes.drop_first(), enable)
            }
    }
}

/// Appending one mode to a private-mode chain.
pub proof fn lemma_private_modes_snoc(
    pre: ScreenBuffer,
    mid: ScreenBuffer,
    post: ScreenBuffer,
    modes: Seq<u16>,
    mode: u16,
    enable: bool,
)
    requires
        private_modes_rel(pre, mid, modes, enable),
        private_step_rel(mid, post, mode, enable),
    ensures
        private_modes_rel(pre, post, modes.push(mode), enable),
    decreases modes.len(),
{
    let whole = modes.push(mode);
    if modes.len() == 0 {
        assert(whole.drop_first() =~= Seq::<u16>::empty());
        assert(private_step_rel(pre, post, whole[0], enable));
        assert(private_modes_rel(post, post, whole.drop_first(), enable));
    } else {
        let m0 = choose|m0: ScreenBuffer|
            {
                &&& #[trigger] private_step_rel(pre, m0, modes[0], enable)
                &&& private_modes_rel(m0, mid, modes.drop_first(), enable)
            };
        lemma_private_modes_snoc(m0, mid, post, modes.drop_first(), mode, enable);
        assert(whole.drop_first() =~= modes.drop_first().push(mode));
        assert(private_step_rel(pre, m0, whole[0], enable));
    }
}

/// What one C0 control does to the screen: backspace, tab, line feeds and
/// carriage return move the cursor (line feeds may scroll); every other
/// control changes nothing.
pub open spec fn control_effect(pre: ScreenBuffer, post: ScreenBuffer, byte: u8) -> bool {
    &&& post.wf()
    &&& post.rows == pre.rows
    &&& post.cols == pre.cols
    &&& (pre.wide_wf() ==> post.wide_wf())
    &&& (byte == 0x08 ==> post.grid() == pre.grid() && post.scrolled_lines@ == pre.scrolled_lines@
        && post.cursor.col == vstd::math::max(pre.cursor.col - 1, 0) && post.cursor.row
        == pre.cursor.row)
    &&& (byte == 0x09 ==> post.grid() == pre.grid() && post.scrolled_lines@ == pre.scrolled_lines@
        && post.cursor.col == vstd::math::min((pre.cursor.col / 8 + 1) * 8, pre.cols - 1)
        && post.cursor.row == pre.cursor.row)
    &&& ((byte == 0x0a || byte == 0x0b || byte == 0x0c) ==> ScreenBuffer::line_feed_effect(
        pre,
        post,
    ))
    &&& (byte == 0x0d ==> post.grid() == pre.grid() && post.scrolled_lines@ == pre.scrolled_lines@
        && post.cursor.col == 0 && post.cursor.row == pre.cursor.row)
    &&& (!(byte == 0x08 || byte == 0x09 || byte == 0x0a || byte == 0x0b || byte == 0x0c || byte
        == 0x0d) ==> post == pre)
}

/// What one byte through the parser does, as a relation between the
/// (parser, screen, scrollback) triples before and after: shape and the
/// continuation invariant are preserved, the scrolled queue is drained
/// into the scrollback, and in the ground state a printable byte prints,
/// a C0 control executes, and ESC or DEL leave the screen alone.
pub open spec fn advance_rel(
    p0: ScreenPerformer,
    s0: ScreenBuffer,
    b0: ScrollbackBuffer,
    p1: ScreenPerformer,
    s1: ScreenBuffer,
    b1: ScrollbackBuffer,
    byte: u8,
) -> bool {
    &&& p1.wf()
    &&& s1.wf()
    &&& s1.rows == s0.rows
    &&& s1.cols == s0.cols
    &&& (s0.wide_wf() ==> s1.wide_wf())
    &&& b1.wf()
    &&& b1.max_spec() == b0.max_spec()
    &&& s1.scrolled_lines@.len() == 0
    &&& (p0.in_ground() && byte != 0x1b ==> p1.in_ground())
    &&& (p0.in_ground() && 0x20 <= byte && byte <= 0x7e ==> exists|mid: ScreenBuffer|
        {
            &&& #[trigger] ScreenBuffer::put_char_effect(s0, mid, byte as char)
            &&& s1.grid() == mid.grid()
            &&& s1.cursor == mid.cursor
            &&& s1.same_config(&mid)
            &&& b1.lines_spec() == ScrollbackBuffer::pushed_all(
                b0.lines_spec(),
                b0.max_spec(),
                mid.scrolled_lines@,
            )
        })
    &&& (p0.in_ground() && byte < 0x20 && byte != 0x1b ==> exists|mid: ScreenBuffer|
        {
            &&& #[trigger] control_effect(s0, mid, byte)
            &&& s1.grid() == mid.grid()
            &&& s1.cursor == mid.cursor
            &&& s1.same_config(&mid)
            &&& b1.lines_spec() == ScrollbackBuffer::pushed_all(
                b0.lines_spec(),
                b0.max_spec(),
                mid.scrolled_lines@,
            )
        })
    &&& (p0.in_ground() && (byte == 0x1b || byte == 0x7f) ==> s1.grid() == s0.grid() && s1.cursor
        == s0.cursor && s1.same_config(&s0) && b1.lines_spec() == ScrollbackBuffer::pushed_all(
        b0.lines_spec(),
        b0.max_spec(),
        s0.scrolled_lines@,
    ))
}

/// One advance step followed by a chain of further steps.
pub open spec fn advances_to(
    p0: ScreenPerformer,
    s0: ScreenBuffer,
    b0: ScrollbackBuffer,
    p1: ScreenPerformer,
    s1: ScreenBuffer,
    b1: ScrollbackBuffer,
    bytes: Seq<u8>,
) -> bool
    decreases bytes.len(),
{
    if bytes.len() == 0 {
        p1 == p0 && s1 == s0 && b1 == b0
    } else {
        exists|pm: ScreenPerformer, sm: ScreenBuffer, bm: ScrollbackBuffer|
            {
                &&& #[trigger] advance_rel(p0, s0, b0, pm, sm, bm, bytes[0])
                &&& advances_to(pm, sm, bm, p1, s1, b1, bytes.drop_first())
            }
    }
}

/// Appending one step to a chain.
pub proof fn lemma_advances_snoc(
    p0: ScreenPerformer,
    s0: ScreenBuffer,
    b0: ScrollbackBuffer,
    p1: ScreenPerformer,
    s1: ScreenBuffer,
    b1: ScrollbackBuffer,
    p2: ScreenPerformer,
    s2: ScreenBuffer,
    b2: ScrollbackBuffer,
    bytes: Seq<u8>,
    byte: u8,
)
    requires
        advances_to(p0, s0, b0, p1, s1, b1, bytes),
        advance_rel(p1, s1, b1, p2, s2, b2, byte),
    ensures
        advances_to(p0, s0, b0, p2, s2, b2, bytes.push(byte)),
    decreases bytes.len(),
{
    let whole = bytes.push(byte);
    assert(whole[0] == if bytes.len() == 0 {
        byte
    } else {
        bytes[0]
    });
    if bytes.len() == 0 {
        assert(whole.drop_first() =~= Seq::<u8>::empty());
        assert(advance_rel(p0, s0, b0, p2, s2, b2, byte));
        assert(advances_to(p2, s2, b2, p2, s2, b2, whole.drop_first()));
    } else {
        let (pm, sm, bm) = choose|pm: ScreenPerformer, sm: ScreenBuffer, bm: ScrollbackBuffer|
            {
                &&& #[trigger] advance_rel(p0, s0, b0, pm, sm, bm, bytes[0])
                &&& advances_to(pm, sm, bm, p1, s1, b1, bytes.drop_first())
            };
        lemma_advances_snoc(pm, sm, bm, p1, s1, b1, p2, s2, b2, bytes.drop_first(), byte);
        assert(whole.drop_first() =~= bytes.drop_first().push(byte));
        assert(advance_rel(p0, s0, b0, pm, sm, bm, whole[0]));
        assert(advances_to(pm, sm, bm, p2, s2, b2, whole.drop_first()));
    }
}

/// The index of the first semicolon in `b` at or after `from`, or the
/// length when there is none.
pub open spec fn first_semi(b: Seq<u8>, from: int) -> int
    decreases b.len() - from,
{
    if from < 0 || from >= b.len() {
        b.len() as int
    } else if b[from] == 0x3b {
        from
    } else {
        first_semi(b, from + 1)
    }
}

/// Whether an OSC payload is a title command: command `0` or `2` followed
/// by a semicolon.
pub open spec fn osc_is_title(b: Seq<u8>) -> bool {
    first_semi(b, 0) == 1 && b.len() >= 2 && (b[0] == 0x30 || b[0] == 0x32)
}

/// The title segment of a title OSC: the bytes between the first and the
/// second semicolon (or the end).
pub open spec fn osc_title_seg(b: Seq<u8>) -> Seq<u8> {
    b.subrange(2, first_semi(b, 2))
}

/// The attributes after applying the graphic-rendition parameters from
/// index `i` on.
pub open spec fn sgr_from(params: Seq<u16>, i: int, a: CellAttributes) -> CellAttributes
    decreases params.len() - i,
{
    if i < 0 || i >= params.len() {
        a
    } else {
        let code = params[i];
        if code == 38 || code == 48 {
            sgr_from(params, sgr_ext_next(params, i), sgr_ext_color(params, i, code == 38, a))
        } else {
            sgr_from(params, i + 1, sgr_apply_one(code, a))
        }
    }
}

impl ScreenPerformer {
    /// A fresh performer in the ground state.
    pub fn new() -> (p: ScreenPerformer)
        ensures
            p.wf(),
            p.in_ground(),
    {
        ScreenPerformer {
            state: VtState::Ground,
            params: Vec::new(),
            cur_param: 0,
            intermediates: Vec::new(),
            osc_buf: Vec::new(),
            utf8_remaining: 0,
            utf8_acc: 0,
        }
    }

    /// Whether the parser sits in the ground state, where printable bytes
    /// print and C0 controls execute; for contracts.
    pub closed spec fn in_ground(&self) -> bool {
        self.state == VtState::Ground
    }

    /// Well-formed: the parser never expects more than 3 more continuation
    /// bytes and never holds more than 32 parameters.
    pub closed spec fn wf(&self) -> bool {
        &&& self.utf8_remaining <= 3
        &&& self.params@.len() <= 32
    }

    /// Drain the lines that scrolled off the screen into the scrollback
    /// buffer.
    pub fn flush_scrollback(screen: &mut ScreenBuffer, scrollback: &mut ScrollbackBuffer)
        requires
            old(scrollback).wf(),
        ensures
            final(scrollback).wf(),
            final(scrollback).max_spec() == old(scrollback).max_spec(),
            final(scrollback).lines_spec() == ScrollbackBuffer::pushed_all(
                old(scrollback).lines_spec(),
                old(scrollback).max_spec(),
                old(screen).scrolled_lines@,
            ),
            final(screen).scrolled_lines@.len() == 0,
            final(screen).grid() == old(screen).grid(),
            final(screen).cursor == old(screen).cursor,
            final(screen).same_config(old(screen)),
    {
        let lines = screen.take_scrolled_lines();
        scrollback.push(lines);
    }

    /// Feed one byte of PTY output: parse it and apply its effect to the
    /// screen, then drain anything that scrolled off into the scrollback.
    /// The screen keeps its dimensions and stays well-formed for every byte
    /// sequence.
    pub fn advance(&mut self, byte: u8, screen: &mut ScreenBuffer, scrollback: &mut ScrollbackBuffer)
        requires
            old(self).wf(),
            old(screen).wf(),
            old(scrollback).wf(),
        ensures
            final(self).wf(),
            final(screen).wf(),
            final(screen).rows == old(screen).rows,
            final(screen).cols == old(screen).cols,
            old(screen).wide_wf() ==> final(screen).wide_wf(),
            final(scrollback).wf(),
            final(scrollback).max_spec() == old(scrollback).max_spec(),
            final(screen).scrolled_lines@.len() == 0,
            old(self).in_ground() && byte != 0x1b ==> final(self).in_ground(),
            // a printable byte in the ground state prints: the screen takes
            // put_char's stated effect and the scrolled-off lines land in
            // the scrollback
            old(self).in_ground() && 0x20 <= byte && byte <= 0x7e ==> exists|mid: ScreenBuffer|
                {
                    &&& #[trigger] ScreenBuffer::put_char_effect(*old(screen), mid, byte as char)
                    &&& final(screen).grid() == mid.grid()
                    &&& final(screen).cursor == mid.cursor
                    &&& final(screen).same_config(&mid)
                    &&& final(scrollback).lines_spec() == ScrollbackBuffer::pushed_all(
                        old(scrollback).lines_spec(),
                        old(scrollback).max_spec(),
                        mid.scrolled_lines@,
                    )
                },
            // a C0 control in the ground state takes its stated effect
            old(self).in_ground() && byte < 0x20 && byte != 0x1b ==> exists|mid: ScreenBuffer|
                {
                    &&& #[trigger] control_effect(*old(screen), mid, byte)
                    &&& final(screen).grid() == mid.grid()
                    &&& final(screen).cursor == mid.cursor
                    &&& final(screen).same_config(&mid)
                    &&& final(scrollback).lines_spec() == ScrollbackBuffer::pushed_all(
                        old(scrollback).lines_spec(),
                        old(scrollback).max_spec(),
                        mid.scrolled_lines@,
                    )
                },
            // an escape or DEL in the ground state leaves the screen alone
            old(self).in_ground() && (byte == 0x1b || byte == 0x7f) ==> final(screen).grid()
                == old(screen).grid() && final(screen).cursor == old(screen).cursor && final(screen).same_config(old(screen)) && final(scrollback).lines_spec()
                == ScrollbackBuffer::pushed_all(
                old(scrollback).lines_spec(),
                old(scrollback).max_spec(),
                old(screen).scrolled_lines@,
            ),
            advance_rel(
                *old(self),
                *old(screen),
                *old(scrollback),
                *final(self),
                *final(screen),
                *final(scrollback),
                byte,
            ),
    {
        let ghost mut mid_screen: ScreenBuffer = *screen;
        match self.state {
            VtState::Ground => {
                if byte == 0x1b {
                    self.utf8_remaining = 0;
                    self.state = VtState::Escape;
                } else if byte < 0x20 {
                    self.utf8_remaining = 0;
                    self.execute_control(byte, screen);
                } else if byte == 0x7f {
                    // DEL is ignored
                    self.utf8_remaining = 0;
                } else if byte < 0x80 {
                    self.utf8_remaining = 0;
                    screen.put_char(byte as char);
                } else {
                    self.accumulate_utf8(byte, screen);
                }
            },
            VtState::Escape => {
                if byte == 0x5b {
                    self.params = Vec::new();
                    self.cur_param = 0;
                    self.intermediates = Vec::new();
                    self.state = VtState::Csi;
                } else if byte == 0x5d {
                    self.osc_buf = Vec::new();
                    self.state = VtState::Osc;
                } else if byte == 0x50 {
                    self.state = VtState::Dcs;
                } else if 0x20 <= byte && byte <= 0x2f {
                    // an intermediate of an ESC sequence; none of the
                    // dispatched sequences carries one, so nothing is kept
                } else {
                    self.state = VtState::Ground;
                    Self::esc_dispatch(byte, screen);
                }
            },
            VtState::Csi => {
                if 0x30 <= byte && byte <= 0x39 {
                    let d = (byte - 0x30) as u16;
                    let widened: u32 = self.cur_param as u32 * 10 + d as u32;
                    self.cur_param = if widened > 0xFFFF {
                        0xFFFF
                    } else {
                        widened as u16
                    };
                } else if byte == 0x3b {
                    if self.params.len() < 32 {
                        self.params.push(self.cur_param);
                    }
                    self.cur_param = 0;
                } else if (0x20 <= byte && byte <= 0x2f) || (0x3c <= byte && byte <= 0x3f) {
                    if self.intermediates.len() < 4 {
                        self.intermediates.push(byte);
                    }
                } else if byte == 0x1b {
                    self.state = VtState::Escape;
                } else if 0x40 <= byte && byte <= 0x7e {
                    if self.params.len() < 32 {
                        self.params.push(self.cur_param);
                    }
                    self.cur_param = 0;
                    self.state = VtState::Ground;
                    self.csi_dispatch(byte, screen);
                }
                // other bytes inside a CSI are consumed without effect
            },
            VtState::Osc => {
                if byte == 0x07 {
                    self.state = VtState::Ground;
                    self.osc_dispatch(screen);
                } else if byte == 0x1b {
                    self.state = VtState::OscEscape;
                } else {
                    if self.osc_buf.len() < 4096 {
                        self.osc_buf.push(byte);
                    }
                }
            },
            VtState::OscEscape => {
                if byte == 0x5c {
                    self.state = VtState::Ground;
                    self.osc_dispatch(screen);
                } else {
                    self.state = VtState::Osc;
                    if self.osc_buf.len() < 4096 {
                        self.osc_buf.push(byte);
                    }
                }
            },
            VtState::Dcs => {
                if byte == 0x1b {
                    self.state = VtState::DcsEscape;
                }
            },
            VtState::DcsEscape => {
                if byte == 0x5c {
                    self.state = VtState::Ground;
                } else {
                    self.state = VtState::Dcs;
                }
            },
        }
        proof {
            mid_screen = *screen;
        }
        Self::flush_scrollback(screen, scrollback);
        proof {
            if old(self).in_ground() && 0x20 <= byte && byte <= 0x7e {
                assert(ScreenBuffer::put_char_effect(*old(screen), mid_screen, byte as char));
            }
            if old(self).in_ground() && byte < 0x20 && byte != 0x1b {
                assert(control_effect(*old(screen), mid_screen, byte));
            }
        }
    }

    /// Accumulate one byte of a UTF-8 encoded character, emitting the
    /// character when complete and a replacement character on malformed
    /// input.
    fn accumulate_utf8(&mut self, byte: u8, screen: &mut ScreenBuffer)
        requires
            old(self).wf(),
            old(screen).wf(),
            byte >= 0x80,
        ensures
            final(self).wf(),
            final(screen).wf(),
            final(screen).rows == old(screen).rows,
            final(screen).cols == old(screen).cols,
            old(screen).wide_wf() ==> final(screen).wide_wf(),
            final(self).state == old(self).state,
            final(self).params == old(self).params,
            final(self).cur_param == old(self).cur_param,
            final(self).intermediates == old(self).intermediates,
            final(self).osc_buf == old(self).osc_buf,
    {
        if self.utf8_remaining == 0 {
            if 0xc0 <= byte && byte <= 0xdf {
                self.utf8_acc = (byte - 0xc0) as u32;
                self.utf8_remaining = 1;
            } else if 0xe0 <= byte && byte <= 0xef {
                self.utf8_acc = (byte - 0xe0) as u32;
                self.utf8_remaining = 2;
            } else if 0xf0 <= byte && byte <= 0xf7 {
                self.utf8_acc = (byte - 0xf0) as u32;
                self.utf8_remaining = 3;
            } else {
                screen.put_char('\u{FFFD}');
            }
        } else if 0x80 <= byte && byte <= 0xbf {
            self.utf8_acc = if self.utf8_acc >= 0x110000 {
                self.utf8_acc
            } else {
                self.utf8_acc * 64 + (byte - 0x80) as u32
            };
            self.utf8_remaining = self.utf8_remaining - 1;
            if self.utf8_remaining == 0 {
                let c = match crate::strutil::char_from_u32(self.utf8_acc) {
                    Some(c) => c,
                    None => '\u{FFFD}',
                };
                screen.put_char(c);
            }
        } else {
            self.utf8_remaining = 0;
            screen.put_char('\u{FFFD}');
        }
    }

    /// Apply a C0 control: backspace, tab, line feeds, carriage return;
    /// BEL and the rest are ignored.
    fn execute_control(&mut self, byte: u8, screen: &mut ScreenBuffer)
        requires
            old(self).wf(),
            old(screen).wf(),
        ensures
            final(self).wf(),
            final(screen).wf(),
            final(screen).rows == old(screen).rows,
            final(screen).cols == old(screen).cols,
            old(screen).wide_wf() ==> final(screen).wide_wf(),
            *final(self) == *old(self),
            byte == 0x08 ==> final(screen).grid() == old(screen).grid() && final(screen).scrolled_lines@ == old(screen).scrolled_lines@ && final(screen).cursor.col
                == vstd::math::max(old(screen).cursor.col - 1, 0) && final(screen).cursor.row
                == old(screen).cursor.row,
            byte == 0x09 ==> final(screen).grid() == old(screen).grid() && final(screen).scrolled_lines@ == old(screen).scrolled_lines@ && final(screen).cursor.col
                == vstd::math::min(
                (old(screen).cursor.col / 8 + 1) * 8,
                old(screen).cols - 1,
            ) && final(screen).cursor.row == old(screen).cursor.row,
            (byte == 0x0a || byte == 0x0b || byte == 0x0c) ==> ScreenBuffer::line_feed_effect(
                *old(screen),
                *final(screen),
            ),
            byte == 0x0d ==> final(screen).grid() == old(screen).grid() && final(screen).scrolled_lines@ == old(screen).scrolled_lines@ && final(screen).cursor.col == 0
                && final(screen).cursor.row == old(screen).cursor.row,
            !(byte == 0x08 || byte == 0x09 || byte == 0x0a || byte == 0x0b || byte == 0x0c || byte
                == 0x0d) ==> *final(screen) == *old(screen),
            control_effect(*old(screen), *final(screen), byte),
    {
        if byte == 0x08 {
            screen.backspace();
        } else if byte == 0x09 {
            screen.tab();
        } else if byte == 0x0a || byte == 0x0b || byte == 0x0c {
            screen.line_feed();
        } else if byte == 0x0d {
            screen.carriage_return();
        }
    }

    /// Apply an ESC-final dispatch: cursor save/restore, index, next line,
    /// reverse index, and hard reset. Unknown finals are ignored.
    fn esc_dispatch(byte: u8, screen: &mut ScreenBuffer)
        requires
            old(screen).wf(),
        ensures
            final(screen).wf(),
            final(screen).rows == old(screen).rows,
            final(screen).cols == old(screen).cols,
            old(screen).wide_wf() ==> final(screen).wide_wf(),
            byte == 0x37 ==> final(screen).cursor.saved == Some(
                (old(screen).cursor.row, old(screen).cursor.col),
            ) && final(screen).grid() == old(screen).grid(),
            byte == 0x38 ==> final(screen).grid() == old(screen).grid() && (match old(screen).cursor.saved {
                Some((r, c)) => final(screen).cursor.row == r && final(screen).cursor.col == c,
                None => final(screen).cursor == old(screen).cursor,
            }),
            byte == 0x4d && old(screen).cursor.row > 0 ==> final(screen).grid() == old(screen).grid() && final(screen).cursor.row == old(screen).cursor.row - 1,
            byte == 0x63 ==> final(screen).cursor.row == 0 && final(screen).cursor.col == 0
                && forall|i: int, j: int|
                0 <= i < old(screen).rows && 0 <= j < old(screen).cols
                    ==> #[trigger] final(screen).grid()[i][j] == Cell::default_spec(),
    {
        if byte == 0x37 {
            screen.cursor.save();
        } else if byte == 0x38 {
            screen.cursor.restore();
        } else if byte == 0x44 {
            screen.line_feed();
        } else if byte == 0x45 {
            screen.newline();
        } else if byte == 0x4d {
            if screen.cursor.row == 0 {
                screen.scroll_down(1);
            } else {
                screen.cursor.move_up(1);
            }
        } else if byte == 0x63 {
            let rows = screen.rows;
            let cols = screen.cols;
            *screen = ScreenBuffer::new(rows, cols);
        }
    }

    /// The value of parameter `idx`, or the default when it is missing or
    /// zero; for contracts.
    pub closed spec fn param_or(&self, idx: int, default: u16) -> u16 {
        if 0 <= idx < self.params@.len() && self.params@[idx] != 0 {
            self.params@[idx]
        } else {
            default
        }
    }

    /// Whether the sequence carried the private-mode marker; for contracts.
    pub closed spec fn private_marked(&self) -> bool {
        self.intermediates@.len() > 0 && self.intermediates@[0] == 0x3f
    }

    /// The value of parameter `idx`, with a default for missing or zero
    /// parameters.
    fn param(&self, idx: usize, default: u16) -> (r: u16)
        ensures
            r == self.param_or(idx as int, default),
    {
        if idx < self.params.len() && self.params[idx] != 0 {
            self.params[idx]
        } else {
            default
        }
    }

    /// Whether the sequence carried the private-mode marker `?`.
    fn is_private(&self) -> (r: bool)
        ensures
            r == self.private_marked(),
    {
        self.intermediates.len() > 0 && self.intermediates[0] == 0x3f
    }

    /// Apply a CSI dispatch: cursor motion, erasing, editing, scrolling,
    /// graphic rendition, private modes, and cursor save/restore. Unknown
    /// finals are ignored.
    fn csi_dispatch(&mut self, action: u8, screen: &mut ScreenBuffer)
        requires
            old(self).wf(),
            old(screen).wf(),
        ensures
            final(self).wf(),
            final(screen).wf(),
            final(screen).rows == old(screen).rows,
            final(screen).cols == old(screen).cols,
            old(screen).wide_wf() ==> final(screen).wide_wf(),
            // private set/reset applies each mode in order
            old(self).private_marked() && (action == 0x68 || action == 0x6c)
                ==> private_modes_rel(
                *old(screen),
                *final(screen),
                old(self).params@,
                action == 0x68,
            ),
            old(self).private_marked() && !(action == 0x68 || action == 0x6c) ==> *final(screen)
                == *old(screen),
            !old(self).private_marked() ==> {
                let n = old(self).param_or(0, 1);
                // cursor motion: up, down, forward, back, column absolute,
                // position, row absolute; the grid stays as it is
                &&& (action == 0x41 || action == 0x42 || action == 0x43 || action == 0x44
                    || action == 0x45 || action == 0x46 || action == 0x47 || action == 0x48
                    || action == 0x66 || action == 0x64 || action == 0x6d || action == 0x73
                    || action == 0x75) ==> final(screen).grid() == old(screen).grid()
                    && final(screen).scrolled_lines@ == old(screen).scrolled_lines@
                &&& action == 0x41 ==> final(screen).cursor.row == vstd::math::max(
                    old(screen).cursor.row - n,
                    0,
                ) && final(screen).cursor.col == old(screen).cursor.col
                &&& action == 0x42 ==> final(screen).cursor.row == vstd::math::min(
                    old(screen).cursor.row + n,
                    old(screen).rows - 1,
                ) && final(screen).cursor.col == old(screen).cursor.col
                &&& action == 0x43 ==> final(screen).cursor.col == vstd::math::min(
                    old(screen).cursor.col + n,
                    old(screen).cols - 1,
                ) && final(screen).cursor.row == old(screen).cursor.row
                &&& action == 0x44 ==> final(screen).cursor.col == vstd::math::max(
                    old(screen).cursor.col - n,
                    0,
                ) && final(screen).cursor.row == old(screen).cursor.row
                &&& action == 0x47 ==> final(screen).cursor.col == vstd::math::min(
                    vstd::math::max(n - 1, 0),
                    old(screen).cols - 1,
                ) && final(screen).cursor.row == old(screen).cursor.row
                &&& (action == 0x48 || action == 0x66) ==> final(screen).cursor.row
                    == vstd::math::min(
                    vstd::math::max(old(self).param_or(0, 1) - 1, 0),
                    old(screen).rows - 1,
                ) && final(screen).cursor.col == vstd::math::min(
                    vstd::math::max(old(self).param_or(1, 1) - 1, 0),
                    old(screen).cols - 1,
                )
                &&& action == 0x64 ==> final(screen).cursor.row == vstd::math::min(
                    vstd::math::max(n - 1, 0),
                    old(screen).rows - 1,
                ) && final(screen).cursor.col == old(screen).cursor.col
                // graphic rendition changes only the current attributes
                &&& action == 0x6d ==> final(screen).cursor == old(screen).cursor
                // erase in line: right of, left of, or the whole line
                &&& action == 0x4b ==> final(screen).cursor == old(screen).cursor
                    && final(screen).scrolled_lines@ == old(screen).scrolled_lines@
                    && final(screen).grid() == (
                if old(self).param_or(0, 0) == 0 {
                    old(screen).grid().update(
                        old(screen).cursor.row as int,
                        ScreenBuffer::row_blanked(
                            old(screen).grid()[old(screen).cursor.row as int],
                            ScreenBuffer::blank_start(
                                old(screen).grid()[old(screen).cursor.row as int],
                                old(screen).cursor.col as int,
                                old(screen).cols as int,
                            ),
                            old(screen).cols as int,
                        ),
                    )
                } else if old(self).param_or(0, 0) == 1 {
                    old(screen).grid().update(
                        old(screen).cursor.row as int,
                        ScreenBuffer::row_blanked(
                            old(screen).grid()[old(screen).cursor.row as int],
                            0,
                            old(screen).cursor.col + 1,
                        ),
                    )
                } else if old(self).param_or(0, 0) == 2 {
                    old(screen).grid().update(
                        old(screen).cursor.row as int,
                        crate::screen::blank_row(old(screen).cols as int),
                    )
                } else {
                    old(screen).grid()
                })
                // erase the whole display, below the cursor, or above it
                &&& (action == 0x4a && (old(self).param_or(0, 0) == 2 || old(self).param_or(0, 0)
                    == 3)) ==> final(screen).cursor == old(screen).cursor
                    && final(screen).grid() == ScreenBuffer::rows_blanked(
                    old(screen).grid(),
                    0,
                    old(screen).grid().len() as int,
                    old(screen).cols,
                )
                &&& (action == 0x4a && old(self).param_or(0, 0) == 0) ==> final(screen).cursor
                    == old(screen).cursor && final(screen).scrolled_lines@ == old(screen).scrolled_lines@ && final(screen).grid() == ScreenBuffer::rows_blanked(
                    old(screen).grid(),
                    old(screen).cursor.row + 1,
                    old(screen).grid().len() as int,
                    old(screen).cols,
                ).update(
                    old(screen).cursor.row as int,
                    ScreenBuffer::row_blanked(
                        old(screen).grid()[old(screen).cursor.row as int],
                        ScreenBuffer::blank_start(
                            old(screen).grid()[old(screen).cursor.row as int],
                            old(screen).cursor.col as int,
                            old(screen).cols as int,
                        ),
                        old(screen).cols as int,
                    ),
                )
                &&& (action == 0x4a && old(self).param_or(0, 0) == 1) ==> final(screen).cursor
                    == old(screen).cursor && final(screen).scrolled_lines@ == old(screen).scrolled_lines@ && final(screen).grid() == ScreenBuffer::rows_blanked(
                    old(screen).grid(),
                    0,
                    old(screen).cursor.row as int,
                    old(screen).cols,
                ).update(
                    old(screen).cursor.row as int,
                    ScreenBuffer::row_blanked(
                        old(screen).grid()[old(screen).cursor.row as int],
                        0,
                        old(screen).cursor.col + 1,
                    ),
                )
                // cursor next and previous line
                &&& action == 0x45 ==> final(screen).cursor.row == vstd::math::min(
                    old(screen).cursor.row + n,
                    old(screen).rows - 1,
                ) && final(screen).cursor.col == 0
                &&& action == 0x46 ==> final(screen).cursor.row == vstd::math::max(
                    old(screen).cursor.row - n,
                    0,
                ) && final(screen).cursor.col == 0
                // insert and delete lines at the cursor row
                &&& action == 0x4c ==> final(screen).cursor == old(screen).cursor && final(screen).scrolled_lines@ == old(screen).scrolled_lines@ && final(screen).grid()
                    == ScreenBuffer::lines_inserted(
                    old(screen).grid(),
                    old(screen).cursor.row as int,
                    vstd::math::min(n as int, old(screen).grid().len() - old(screen).cursor.row),
                    old(screen).cols,
                )
                &&& action == 0x4d ==> final(screen).cursor == old(screen).cursor && final(screen).scrolled_lines@ == old(screen).scrolled_lines@ && final(screen).grid()
                    == ScreenBuffer::lines_deleted(
                    old(screen).grid(),
                    old(screen).cursor.row as int,
                    vstd::math::min(n as int, old(screen).grid().len() - old(screen).cursor.row),
                    old(screen).cols,
                )
                // insert and delete characters at the cursor
                &&& action == 0x40 ==> final(screen).cursor == old(screen).cursor && final(screen).scrolled_lines@ == old(screen).scrolled_lines@ && final(screen).grid() == old(screen).grid().update(
                    old(screen).cursor.row as int,
                    crate::screen::wide_repaired(
                        ScreenBuffer::chars_inserted(
                            old(screen).grid()[old(screen).cursor.row as int],
                            old(screen).cursor.col as int,
                            vstd::math::min(n as int, old(screen).cols - old(screen).cursor.col),
                        ),
                    ),
                )
                &&& action == 0x50 ==> final(screen).cursor == old(screen).cursor && final(screen).scrolled_lines@ == old(screen).scrolled_lines@ && final(screen).grid() == old(screen).grid().update(
                    old(screen).cursor.row as int,
                    crate::screen::wide_repaired(
                        ScreenBuffer::chars_deleted(
                            old(screen).grid()[old(screen).cursor.row as int],
                            old(screen).cursor.col as int,
                            vstd::math::min(n as int, old(screen).cols - old(screen).cursor.col),
                        ),
                    ),
                )
                // scroll up and down
                &&& action == 0x53 ==> final(screen).cursor == old(screen).cursor && final(screen).grid() == ScreenBuffer::scrolled_up_grid(
                    old(screen).grid(),
                    vstd::math::min(n as int, old(screen).rows as int),
                    old(screen).cols,
                ) && (old(screen).alternate_active ==> final(screen).scrolled_lines@ == old(screen).scrolled_lines@) && (!old(screen).alternate_active ==> ScreenBuffer::queued_rows(
                    old(screen).scrolled_lines@,
                    final(screen).scrolled_lines@,
                    old(screen).grid(),
                    vstd::math::min(n as int, old(screen).rows as int),
                ))
                &&& action == 0x54 ==> final(screen).cursor == old(screen).cursor && final(screen).scrolled_lines@ == old(screen).scrolled_lines@ && final(screen).grid()
                    == ScreenBuffer::scrolled_down_grid(
                    old(screen).grid(),
                    vstd::math::min(n as int, old(screen).rows as int),
                    old(screen).cols,
                )
                // cursor save and restore
                &&& action == 0x73 ==> final(screen).cursor.saved == Some(
                    (old(screen).cursor.row, old(screen).cursor.col),
                ) && final(screen).cursor.row == old(screen).cursor.row && final(screen).cursor.col == old(screen).cursor.col
                &&& action == 0x75 ==> final(screen).cursor.saved == old(screen).cursor.saved
                    && (match old(screen).cursor.saved {
                    Some((sr, sc)) => final(screen).cursor.row == sr && final(screen).cursor.col
                        == sc,
                    None => final(screen).cursor.row == old(screen).cursor.row && final(screen).cursor.col == old(screen).cursor.col,
                })
            },
    {
        let rows = screen.rows;
        let cols = screen.cols;
        let private = self.is_private();
        if private {
            if action == 0x68 || action == 0x6c {
                self.private_mode(action == 0x68, screen);
            }
            return ;
        }
        if action == 0x41 {
            let n = self.param(0, 1);
            screen.cursor.move_up(n);
        } else if action == 0x42 {
            let n = self.param(0, 1);
            screen.cursor.move_down(n, rows);
        } else if action == 0x43 {
            let n = self.param(0, 1);
            screen.cursor.move_right(n, cols);
        } else if action == 0x44 {
            let n = self.param(0, 1);
            screen.cursor.move_left(n);
        } else if action == 0x45 {
            let n = self.param(0, 1);
            screen.cursor.move_down(n, rows);
            screen.cursor.carriage_return();
        } else if action == 0x46 {
            let n = self.param(0, 1);
            screen.cursor.move_up(n);
            screen.cursor.carriage_return();
        } else if action == 0x47 {
            let col = self.param(0, 1);
            screen.cursor.move_to_column(col, cols);
        } else if action == 0x48 || action == 0x66 {
            let row = self.param(0, 1);
            let col = self.param(1, 1);
            let r1 = if row > 0 {
                row - 1
            } else {
                0
            };
            let c1 = if col > 0 {
                col - 1
            } else {
                0
            };
            screen.cursor.move_to(r1, c1, rows, cols);
        } else if action == 0x64 {
            let row = self.param(0, 1);
            screen.cursor.move_to_row(row, rows);
        } else if action == 0x4a {
            let mode = self.param(0, 0);
            if mode == 0 {
                screen.erase_below();
            } else if mode == 1 {
                screen.erase_above();
            } else if mode == 2 || mode == 3 {
                screen.erase_all();
            }
        } else if action == 0x4b {
            let mode = self.param(0, 0);
            if mode == 0 {
                screen.erase_line_right();
            } else if mode == 1 {
                screen.erase_line_left();
            } else if mode == 2 {
                screen.erase_line();
            }
        } else if action == 0x4c {
            let n = self.param(0, 1);
            screen.insert_lines(n);
        } else if action == 0x4d {
            let n = self.param(0, 1);
            screen.delete_lines(n);
        } else if action == 0x40 {
            let n = self.param(0, 1);
            screen.insert_chars(n);
        } else if action == 0x50 {
            let n = self.param(0, 1);
            screen.delete_chars(n);
        } else if action == 0x53 {
            let n = self.param(0, 1);
            screen.scroll_up(n);
        } else if action == 0x54 {
            let n = self.param(0, 1);
            screen.scroll_down(n);
        } else if action == 0x6d {
            self.handle_sgr(screen);
        } else if action == 0x73 {
            screen.cursor.save();
        } else if action == 0x75 {
            screen.cursor.restore();
        }
    }

    /// Apply private set/reset modes: cursor visibility and the alternate
    /// screen buffer, with or without cursor save/restore.
    fn private_mode(&self, enable: bool, screen: &mut ScreenBuffer)
        requires
            self.wf(),
            old(screen).wf(),
        ensures
            final(screen).wf(),
            final(screen).rows == old(screen).rows,
            final(screen).cols == old(screen).cols,
            old(screen).wide_wf() ==> final(screen).wide_wf(),
            private_modes_rel(*old(screen), *final(screen), self.params@, enable),
    {
        let mut i: usize = 0;
        proof {
            assert(self.params@.take(0) =~= Seq::<u16>::empty());
        }
        while i < self.params.len()
            invariant
                i <= self.params@.len(),
                self.wf(),
                screen.wf(),
                screen.rows == old(screen).rows,
                screen.cols == old(screen).cols,
                old(screen).wide_wf() ==> screen.wide_wf(),
                private_modes_rel(*old(screen), *screen, self.params@.take(i as int), enable),
            decreases self.params@.len() - i,
        {
            let mode = self.params[i];
            let ghost before = *screen;
            if mode == 25 {
                screen.cursor.visible = enable;
            } else if mode == 47 || mode == 1047 {
                if enable {
                    screen.enter_alternate_buffer();
                } else {
                    screen.exit_alternate_buffer();
                }
            } else if mode == 1049 {
                if enable {
                    screen.cursor.save();
                    screen.enter_alternate_buffer();
                } else {
                    let ghost exited = *screen;
                    screen.exit_alternate_buffer();
                    let ghost mid = *screen;
                    screen.cursor.restore();
                    proof {
                        assert(ScreenBuffer::exit_alt_effect(before, mid));
                        assert(*screen == ScreenBuffer {
                            cursor: cursor_restored(mid.cursor),
                            ..mid
                        });
                    }
                }
            }
            proof {
                assert(private_step_rel(before, *screen, mode, enable));
                lemma_private_modes_snoc(
                    *old(screen),
                    before,
                    *screen,
                    self.params@.take(i as int),
                    mode,
                    enable,
                );
                assert(self.params@.take(i as int).push(self.params@[i as int]) =~= self.params@
                    .take(i + 1));
            }
            i = i + 1;
        }
        proof {
            assert(self.params@.take(self.params@.len() as int) =~= self.params@);
        }
    }

    /// Apply graphic-rendition parameters: reset, style flags on and off,
    /// the base colors, and the extended 256-color and 24-bit color forms.
    /// Unknown codes are skipped.
    #[verifier::rlimit(80)]
    fn handle_sgr(&self, screen: &mut ScreenBuffer)
        requires
            self.wf(),
            old(screen).wf(),
        ensures
            final(screen).wf(),
            final(screen).rows == old(screen).rows,
            final(screen).cols == old(screen).cols,
            final(screen).grid() == old(screen).grid(),
            final(screen).cursor == old(screen).cursor,
            final(screen).scrolled_lines@ == old(screen).scrolled_lines@,
            final(screen).alternate_active == old(screen).alternate_active,
            final(screen).main_buffer == old(screen).main_buffer,
            final(screen).current_attrs == (if self.params@.len() == 0 {
                CellAttributes::default_spec()
            } else {
                sgr_from(self.params@, 0, old(screen).current_attrs)
            }),
    {
        if self.params.len() == 0 {
            screen.reset_attrs();
            return ;
        }
        let mut i: usize = 0;
        while i < self.params.len()
            invariant
                self.wf(),
                screen.wf(),
                screen.rows == old(screen).rows,
                screen.cols == old(screen).cols,
                screen.grid() == old(screen).grid(),
                screen.cursor == old(screen).cursor,
                screen.scrolled_lines@ == old(screen).scrolled_lines@,
                screen.alternate_active == old(screen).alternate_active,
                screen.main_buffer == old(screen).main_buffer,
                i <= self.params@.len(),
                sgr_from(self.params@, i as int, screen.current_attrs) == sgr_from(
                    self.params@,
                    0,
                    old(screen).current_attrs,
                ),
            decreases self.params@.len() - i,
        {
            let ghost a0 = screen.current_attrs;
            let ghost i0 = i as int;
            let code = self.params[i];
            if code == 0 {
                screen.reset_attrs();
            } else if code == 1 {
                screen.current_attrs.bold = true;
            } else if code == 2 {
                screen.current_attrs.dim = true;
            } else if code == 3 {
                screen.current_attrs.italic = true;
            } else if code == 4 {
                screen.current_attrs.underline = true;
            } else if code == 5 || code == 6 {
                screen.current_attrs.blink = true;
            } else if code == 7 {
                screen.current_attrs.reverse = true;
            } else if code == 8 {
                screen.current_attrs.hidden = true;
            } else if code == 9 {
                screen.current_attrs.strikethrough = true;
            } else if code == 21 {
                screen.current_attrs.bold = false;
            } else if code == 22 {
                screen.current_attrs.bold = false;
                screen.current_attrs.dim = false;
            } else if code == 23 {
                screen.current_attrs.italic = false;
            } else if code == 24 {
                screen.current_attrs.underline = false;
            } else if code == 25 {
                screen.current_attrs.blink = false;
            } else if code == 27 {
                screen.current_attrs.reverse = false;
            } else if code == 28 {
                screen.current_attrs.hidden = false;
            } else if code == 29 {
                screen.current_attrs.strikethrough = false;
            } else if 30 <= code && code <= 37 {
                screen.current_attrs.foreground = Some(Color::Indexed((code - 30) as u8));
            } else if code == 38 {
                i = self.extended_color(i, true, screen);
            } else if code == 39 {
                screen.current_attrs.foreground = None;
            } else if 40 <= code && code <= 47 {
                screen.current_attrs.background = Some(Color::Indexed((code - 40) as u8));
            } else if code == 48 {
                i = self.extended_color(i, false, screen);
            } else if code == 49 {
                screen.current_attrs.background = None;
            } else if 90 <= code && code <= 97 {
                screen.current_attrs.foreground = Some(Color::Indexed((code - 90 + 8) as u8));
            } else if 100 <= code && code <= 107 {
                screen.current_attrs.background = Some(Color::Indexed((code - 100 + 8) as u8));
            }
            proof {
                if code != 38 && code != 48 {
                    assert(screen.current_attrs == sgr_apply_one(code, a0));
                    assert(sgr_from(self.params@, i0, a0) == sgr_from(
                        self.params@,
                        i0 + 1,
                        sgr_apply_one(code, a0),
                    ));
                } else {
                    assert(screen.current_attrs == sgr_ext_color(
                        self.params@,
                        i0,
                        code == 38,
                        a0,
                    ));
                    assert(i + 1 == sgr_ext_next(self.params@, i0));
                    assert(sgr_from(self.params@, i0, a0) == sgr_from(
                        self.params@,
                        sgr_ext_next(self.params@, i0),
                        sgr_ext_color(self.params@, i0, code == 38, a0),
                    ));
                }
            }
            i = i + 1;
        }
    }

    /// Consume the parameters of an extended color introducer (`38` or
    /// `48`): `5;N` selects a 256-color palette entry, `2;R;G;B` a 24-bit
    /// color. Returns the index of the last consumed parameter.
    fn extended_color(&self, at: usize, foreground: bool, screen: &mut ScreenBuffer) -> (r: usize)
        requires
            self.wf(),
            at < self.params@.len(),
            old(screen).wf(),
        ensures
            final(screen).wf(),
            final(screen).rows == old(screen).rows,
            final(screen).cols == old(screen).cols,
            final(screen).grid() == old(screen).grid(),
            final(screen).cursor == old(screen).cursor,
            final(screen).scrolled_lines@ == old(screen).scrolled_lines@,
            final(screen).alternate_active == old(screen).alternate_active,
            final(screen).main_buffer == old(screen).main_buffer,
            at <= r < self.params@.len(),
            final(screen).current_attrs == sgr_ext_color(
                self.params@,
                at as int,
                foreground,
                old(screen).current_attrs,
            ),
            r + 1 == sgr_ext_next(self.params@, at as int),
    {
        if at + 1 >= self.params.len() {
            return at;
        }
        let subcode = self.params[at + 1];
        if subcode == 5 {
            if at + 2 < self.params.len() {
                let idx = self.params[at + 2];
                let color = Some(Color::Indexed((idx % 256) as u8));
                if foreground {
                    screen.current_attrs.foreground = color;
                } else {
                    screen.current_attrs.background = color;
                }
                return at + 2;
            }
            return at + 1;
        }
        if subcode == 2 {
            let red = if at + 2 < self.params.len() {
                self.params[at + 2]
            } else {
                0
            };
            let green = if at + 3 < self.params.len() {
                self.params[at + 3]
            } else {
                0
            };
            let blue = if at + 4 < self.params.len() {
                self.params[at + 4]
            } else {
                0
            };
            let color = Some(Color::Rgb((red % 256) as u8, (green % 256) as u8, (blue % 256) as u8));
            if foreground {
                screen.current_attrs.foreground = color;
            } else {
                screen.current_attrs.background = color;
            }
            let consumed = at + 4;
            let last = self.params.len() - 1;
            return if consumed < last {
                consumed
            } else {
                last
            };
        }
        at + 1
    }

    /// Find the first semicolon of the OSC payload at or after `from`.
    fn find_semi(&self, from: usize) -> (r: usize)
        requires
            from <= self.osc_buf@.len(),
        ensures
            r == first_semi(self.osc_buf@, from as int),
            from <= r <= self.osc_buf@.len(),
    {
        let n = self.osc_buf.len();
        let mut i = from;
        while i < n
            invariant
                from <= i <= n,
                n == self.osc_buf@.len(),
                first_semi(self.osc_buf@, from as int) == first_semi(self.osc_buf@, i as int),
            decreases n - i,
        {
            if self.osc_buf[i] == 0x3b {
                return i;
            }
            i = i + 1;
        }
        n
    }

    /// Apply a completed OSC: commands 0 and 2 set the window title.
    fn osc_dispatch(&mut self, screen: &mut ScreenBuffer)
        requires
            old(screen).wf(),
        ensures
            final(screen).wf(),
            final(screen).rows == old(screen).rows,
            final(screen).cols == old(screen).cols,
            final(screen).grid() == old(screen).grid(),
            final(screen).cursor == old(screen).cursor,
            final(screen).scrolled_lines@ == old(screen).scrolled_lines@,
            final(screen).alternate_active == old(screen).alternate_active,
            final(screen).main_buffer == old(screen).main_buffer,
            *final(self) == *old(self),
            (osc_is_title(old(self).osc_buf@) && vstd::utf8::valid_utf8(
                osc_title_seg(old(self).osc_buf@),
            )) ==> (final(screen).title matches Some(t) && t@ == vstd::utf8::decode_utf8(
                osc_title_seg(old(self).osc_buf@),
            )),
            !(osc_is_title(old(self).osc_buf@) && vstd::utf8::valid_utf8(
                osc_title_seg(old(self).osc_buf@),
            )) ==> final(screen).title == old(screen).title,
    {
        let n = self.osc_buf.len();
        let first_sep = self.find_semi(0);
        if first_sep >= n {
            return ;
        }
        let is_title = (first_sep == 1 && (self.osc_buf[0] == 0x30 || self.osc_buf[0] == 0x32));
        if !is_title {
            return ;
        }
        let second_sep = self.find_semi(2);
        let mut title_bytes: Vec<u8> = Vec::new();
        let mut k: usize = 2;
        proof {
            assert(title_bytes@ =~= self.osc_buf@.subrange(2, 2));
        }
        while k < second_sep
            invariant
                n == self.osc_buf@.len(),
                2 <= k <= second_sep,
                second_sep <= n,
                title_bytes@ =~= self.osc_buf@.subrange(2, k as int),
            decreases second_sep - k,
        {
            title_bytes.push(self.osc_buf[k]);
            proof {
                assert(self.osc_buf@.subrange(2, k + 1) =~= self.osc_buf@.subrange(2, k as int).push(
                    self.osc_buf@[k as int],
                ));
            }
            k = k + 1;
        }
        proof {
            assert(title_bytes@ =~= osc_title_seg(self.osc_buf@));
        }
        if let Some(title) = bytes_to_string(title_bytes) {
            screen.set_title(title);
        }
    }
}

impl Default for ScreenPerformer {
    fn default() -> (p: ScreenPerformer)
        ensures
            p.wf(),
    {
        ScreenPerformer::new()
    }
}

} // verus!
