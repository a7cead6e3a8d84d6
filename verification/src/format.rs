//! ANSI coloring of the selected quote: a fixed seven-way color choice,
//! rendered by wrapping the text in the color's escape prefix and the reset
//! suffix. `None` leaves the text untouched.

use vstd::prelude::*;

use crate::bytes::clone_bytes;

verus! {

/// The terminal color applied to the rendered quote.
#[derive(Clone, Copy, Debug, PartialEq, Eq, Structural)]
pub enum ColorChoice {
    /// No coloring: the text is printed as stored.
    NoColor,
    Red,
    Green,
    Yellow,
    Blue,
    Magenta,
    Cyan,
}

/// The final byte of the ANSI code selecting `c`: the digit after `3` in
/// `ESC [ 3 d m`. `NoColor` has no code; its value here is unused.
pub open spec fn color_digit(c: ColorChoice) -> u8 {
    match c {
        ColorChoice::NoColor => 48u8,
        ColorChoice::Red => 49u8,
        ColorChoice::Green => 50u8,
        ColorChoice::Yellow => 51u8,
        ColorChoice::Blue => 52u8,
        ColorChoice::Magenta => 53u8,
        ColorChoice::Cyan => 54u8,
    }
}

/// The ANSI escape prefix selecting color `c`: `ESC [ 3 d m`.
pub open spec fn color_code(c: ColorChoice) -> Seq<u8> {
    seq![27u8, 91u8, 51u8, color_digit(c), 109u8]
}

/// The ANSI reset suffix: `ESC [ 0 m`.
pub open spec fn reset_code() -> Seq<u8> {
    seq![27u8, 91u8, 48u8, 109u8]
}

/// The rendering of `text` under color `c`: unchanged for `NoColor`, otherwise
/// wrapped in the color's escape prefix and the reset suffix.
pub open spec fn spec_render(text: Seq<u8>, c: ColorChoice) -> Seq<u8> {
    if c == ColorChoice::NoColor {
        text
    } else {
        color_code(c) + text + reset_code()
    }
}

/// Render `text` under color `c`.
pub fn render(text: &Vec<u8>, c: ColorChoice) -> (out: Vec<u8>)
    ensures
        out@ == spec_render(text@, c),
{
    match c {
        ColorChoice::NoColor => clone_bytes(text),
        _ => {
            let digit: u8 = match c {
                ColorChoice::NoColor => 48,
                ColorChoice::Red => 49,
                ColorChoice::Green => 50,
                ColorChoice::Yellow => 51,
                ColorChoice::Blue => 52,
                ColorChoice::Magenta => 53,
                ColorChoice::Cyan => 54,
            };
            let mut out: Vec<u8> = Vec::new();
            out.push(27);
            out.push(91);
            out.push(51);
            out.push(digit);
            out.push(109);
            proof {
                assert(out@ =~= color_code(c));
            }
            let mut i: usize = 0;
            while i < text.len()
                invariant
                    i <= text@.len(),
                    out@ == color_code(c) + text@.take(i as int),
                decreases text@.len() - i,
            {
                out.push(text[i]);
                proof {
                    assert(out@ =~= color_code(c) + text@.take(i as int + 1));
                }
                i += 1;
            }
            out.push(27);
            out.push(91);
            out.push(48);
            out.push(109);
            proof {
                assert(text@.take(text@.len() as int) =~= text@);
                assert(out@ =~= color_code(c) + text@ + reset_code());
            }
            out
        },
    }
}

} // verus!
