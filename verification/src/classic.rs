//! The single-pass front end: a lenient command line (unknown options are
//! skipped, a value that is not a number counts as 0), terminal types as
//! the numeric codes 1 to 8, and the telnet negotiation loop that answers
//! NOP and ends on IAC IAC.
pub mod negotiation;
pub mod options;

use vstd::prelude::*;
use crate::render::frame_buffer::{newline_bytes, repeat_bytes};
use crate::render::palette::{option_bytes, palette_color, palette_output, Palette};
use crate::terminal::{ascii_lower, detect_terminal_type as detect_type, terminal_type_of, TerminalSize, TerminalType};

verus! {

/// The numeric code of a terminal type, in the order the types are listed.
pub open spec fn code_of(t: TerminalType) -> u8 {
    match t {
        TerminalType::Xterm256 => 1,
        TerminalType::Ansi16 => 2,
        TerminalType::Linux => 3,
        TerminalType::Fallback => 4,
        TerminalType::Vtnt => 5,
        TerminalType::Vt220 => 6,
        TerminalType::Vt100Ascii => 7,
        TerminalType::TrueColor => 8,
    }
}

/// The terminal type a code names; codes outside 1 to 8 name none.
pub open spec fn type_of_code(code: u8) -> Option<TerminalType> {
    if code == 1 {
        Some(TerminalType::Xterm256)
    } else if code == 2 {
        Some(TerminalType::Ansi16)
    } else if code == 3 {
        Some(TerminalType::Linux)
    } else if code == 4 {
        Some(TerminalType::Fallback)
    } else if code == 5 {
        Some(TerminalType::Vtnt)
    } else if code == 6 {
        Some(TerminalType::Vt220)
    } else if code == 7 {
        Some(TerminalType::Vt100Ascii)
    } else if code == 8 {
        Some(TerminalType::TrueColor)
    } else {
        None
    }
}

/// Every terminal type has a code, and the code names it back.
pub proof fn lemma_code_round_trip(t: TerminalType)
    ensures
        1 <= code_of(t) <= 8,
        type_of_code(code_of(t)) == Some(t),
{
}

pub fn terminal_code(t: TerminalType) -> (r: u8)
    ensures
        r == code_of(t),
{
    match t {
        TerminalType::Xterm256 => 1,
        TerminalType::Ansi16 => 2,
        TerminalType::Linux => 3,
        TerminalType::Fallback => 4,
        TerminalType::Vtnt => 5,
        TerminalType::Vt220 => 6,
        TerminalType::Vt100Ascii => 7,
        TerminalType::TrueColor => 8,
    }
}

pub fn terminal_type_for_code(code: u8) -> (r: Option<TerminalType>)
    ensures
        r == type_of_code(code),
{
    match code {
        1 => Some(TerminalType::Xterm256),
        2 => Some(TerminalType::Ansi16),
        3 => Some(TerminalType::Linux),
        4 => Some(TerminalType::Fallback),
        5 => Some(TerminalType::Vtnt),
        6 => Some(TerminalType::Vt220),
        7 => Some(TerminalType::Vt100Ascii),
        8 => Some(TerminalType::TrueColor),
        _ => None,
    }
}

/// The code of the terminal type for the `TERM` value `term` on a terminal
/// `terminal_width` columns wide (2, plain ANSI colours, without one).
pub fn detect_terminal_type(term: Option<&str>, terminal_width: i32) -> (r: u8)
    ensures
        r == code_of(
            match term {
                None => TerminalType::Ansi16,
                Some(t) => terminal_type_of(ascii_lower(t@), terminal_width),
            },
        ),
{
    terminal_code(detect_type(term, TerminalSize::new(terminal_width, 24)))
}

/// The palette for a terminal code: that of the type it names, or, for a
/// code naming none, a palette with no colours that draws two spaces.
pub fn palette_for_code(code: u8) -> (r: Palette)
    ensures
        r.wf(),
        forall|s: u8|
            #[trigger] r.color_of(s) == match type_of_code(code) {
                Some(t) => palette_color(t, s),
                None => Seq::<u8>::empty(),
            },
        r.output_of() == match type_of_code(code) {
            Some(t) => palette_output(t),
            None => Some(seq![0x20u8, 0x20u8]),
        },
{
    match terminal_type_for_code(code) {
        Some(t) => Palette::new(t),
        None => {
            let spaces: &'static [u8] = &[0x20, 0x20];
            let r = Palette::from_entries(&[], Some(spaces));
            proof {
                assert(option_bytes(Some(spaces)) == Some(seq![0x20u8, 0x20u8]));
            }
            r
        },
    }
}

/// Appends `count` line terminators: `\r\0\n` in telnet mode, `\n` otherwise.
pub fn push_newline(out: &mut Vec<u8>, telnet: bool, count: usize)
    ensures
        final(out)@ == old(out)@ + repeat_bytes(newline_bytes(telnet), count as nat),
{
    let mut k: usize = 0;
    while k < count
        invariant
            k <= count,
            out@ == old(out)@ + repeat_bytes(newline_bytes(telnet), k as nat),
        decreases count - k,
    {
        if telnet {
            out.push(0x0d);
            out.push(0x00);
            out.push(0x0a);
        } else {
            out.push(0x0a);
        }
        proof {
            assert(repeat_bytes(newline_bytes(telnet), (k + 1) as nat) == repeat_bytes(
                newline_bytes(telnet),
                k as nat,
            ) + newline_bytes(telnet));
        }
        assert(out@ =~= old(out)@ + repeat_bytes(newline_bytes(telnet), (k + 1) as nat));
        k = k + 1;
    }
}

} // verus!
