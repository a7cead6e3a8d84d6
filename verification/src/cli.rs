//! The command-line driver's decision: parse the argument vector into one
//! of the four actions — print usage, append a quote, reject an unknown
//! command, or select and print a quote with a size filter and a color.
//!
//! Argument slots are position-sensitive: slot 1 is the primary command,
//! slot 2 its value, slot 3 the color command, slot 4 the color name.
//! Command and value names are matched case-insensitively; an unrecognized
//! size or color name falls back to the default with a notice rather than
//! an error.

use vstd::prelude::*;

use crate::bytes::{bytes_eq, spec_lower, to_lower};
use crate::filter::SizeFilter;
use crate::format::ColorChoice;

verus! {

/// `help`
pub const NAME_HELP: [u8; 4] = [104, 101, 108, 112];

/// `-help`
pub const NAME_DASH_HELP: [u8; 5] = [45, 104, 101, 108, 112];

/// `-h`
pub const NAME_DASH_H: [u8; 2] = [45, 104];

/// `size`
pub const NAME_SIZE: [u8; 4] = [115, 105, 122, 101];

/// `-size`
pub const NAME_DASH_SIZE: [u8; 5] = [45, 115, 105, 122, 101];

/// `-o`
pub const NAME_DASH_O: [u8; 2] = [45, 111];

/// `write`
pub const NAME_WRITE: [u8; 5] = [119, 114, 105, 116, 101];

/// `-write`
pub const NAME_DASH_WRITE: [u8; 6] = [45, 119, 114, 105, 116, 101];

/// `color`
pub const NAME_COLOR: [u8; 5] = [99, 111, 108, 111, 114];

/// `-color`
pub const NAME_DASH_COLOR: [u8; 6] = [45, 99, 111, 108, 111, 114];

/// `-c`
pub const NAME_DASH_C: [u8; 2] = [45, 99];

/// `short`
pub const NAME_SHORT: [u8; 5] = [115, 104, 111, 114, 116];

/// `medium`
pub const NAME_MEDIUM: [u8; 6] = [109, 101, 100, 105, 117, 109];

/// `long`
pub const NAME_LONG: [u8; 4] = [108, 111, 110, 103];

/// `red`
pub const NAME_RED: [u8; 3] = [114, 101, 100];

/// `green`
pub const NAME_GREEN: [u8; 5] = [103, 114, 101, 101, 110];

/// `yellow`
pub const NAME_YELLOW: [u8; 6] = [121, 101, 108, 108, 111, 119];

/// `blue`
pub const NAME_BLUE: [u8; 4] = [98, 108, 117, 101];

/// `magenta`
pub const NAME_MAGENTA: [u8; 7] = [109, 97, 103, 101, 110, 116, 97];

/// `cyan`
pub const NAME_CYAN: [u8; 4] = [99, 121, 97, 110];

/// Whether the lowered slot-1 argument `s` asks for the usage text.
pub open spec fn is_help_name(s: Seq<u8>) -> bool {
    s == NAME_HELP@ || s == NAME_DASH_HELP@ || s == NAME_DASH_H@
}

/// Whether the lowered slot-1 argument `s` is the size command.
pub open spec fn is_size_name(s: Seq<u8>) -> bool {
    s == NAME_SIZE@ || s == NAME_DASH_SIZE@ || s == NAME_DASH_O@
}

/// Whether the lowered slot-1 argument `s` is the write command.
pub open spec fn is_write_name(s: Seq<u8>) -> bool {
    s == NAME_WRITE@ || s == NAME_DASH_WRITE@
}

/// Whether the lowered slot-3 argument `s` is the color command.
pub open spec fn is_color_name(s: Seq<u8>) -> bool {
    s == NAME_COLOR@ || s == NAME_DASH_COLOR@ || s == NAME_DASH_C@
}

/// The size filter named by the slot-2 argument `v`, case-insensitively;
/// an unrecognized name selects nothing.
pub open spec fn spec_parse_size(v: Seq<u8>) -> Option<SizeFilter> {
    let l = spec_lower(v);
    if l == NAME_SHORT@ {
        Some(SizeFilter::Short)
    } else if l == NAME_MEDIUM@ {
        Some(SizeFilter::Medium)
    } else if l == NAME_LONG@ {
        Some(SizeFilter::Long)
    } else {
        None
    }
}

/// The color named by the slot-4 argument `v`, case-insensitively; an
/// unrecognized name falls back to no color.
pub open spec fn spec_parse_color(v: Seq<u8>) -> ColorChoice {
    let l = spec_lower(v);
    if l == NAME_RED@ {
        ColorChoice::Red
    } else if l == NAME_GREEN@ {
        ColorChoice::Green
    } else if l == NAME_YELLOW@ {
        ColorChoice::Yellow
    } else if l == NAME_BLUE@ {
        ColorChoice::Blue
    } else if l == NAME_MAGENTA@ {
        ColorChoice::Magenta
    } else if l == NAME_CYAN@ {
        ColorChoice::Cyan
    } else {
        ColorChoice::NoColor
    }
}

/// The settings of a quote-printing run.
#[derive(Clone, Copy, Debug, PartialEq, Eq, Structural)]
pub struct SelectOptions {
    /// The size filter to apply before the draw.
    pub size: SizeFilter,
    /// The color to render the chosen quote with.
    pub color: ColorChoice,
    /// A size value was given but was not `short`, `medium` or `long`: the
    /// driver prints a hint and keeps the default filter.
    pub size_notice: bool,
    /// A slot-3 argument was given but was not the color command: the
    /// driver prints a notice and applies no color.
    pub third_slot_notice: bool,
}

/// What the driver does for a given argument vector.
#[derive(Clone, Copy, Debug, PartialEq, Eq, Structural)]
pub enum CliAction {
    /// Print the usage text and stop.
    Help,
    /// Prompt for a quote and append it to the database.
    Write,
    /// Report an unknown primary command and stop.
    Unknown,
    /// Select and print one quote with these settings.
    Select(SelectOptions),
}

/// The default settings: every record eligible, no color, no notices.
pub open spec fn spec_default_options() -> SelectOptions {
    SelectOptions {
        size: SizeFilter::Any,
        color: ColorChoice::NoColor,
        size_notice: false,
        third_slot_notice: false,
    }
}

/// The action for argument vector `args` (slot 0 is the program name).
pub open spec fn spec_parse_args(args: Seq<Seq<u8>>) -> CliAction {
    if args.len() <= 1 {
        CliAction::Select(spec_default_options())
    } else {
        let a1 = spec_lower(args[1]);
        if is_help_name(a1) {
            CliAction::Help
        } else if is_write_name(a1) {
            CliAction::Write
        } else if is_size_name(a1) {
            let size = if args.len() > 2 {
                match spec_parse_size(args[2]) {
                    Some(f) => f,
                    None => SizeFilter::Any,
                }
            } else {
                SizeFilter::Any
            };
            let size_notice = args.len() > 2 && spec_parse_size(args[2]) is None;
            let third_slot_notice = args.len() > 3 && !is_color_name(spec_lower(args[3]));
            let color = if args.len() > 4 && is_color_name(spec_lower(args[3])) {
                spec_parse_color(args[4])
            } else {
                ColorChoice::NoColor
            };
            CliAction::Select(SelectOptions { size, color, size_notice, third_slot_notice })
        } else {
            CliAction::Unknown
        }
    }
}

/// Parse the argument vector into the driver's action.
pub fn parse_args(args: &Vec<Vec<u8>>) -> (act: CliAction)
    ensures
        act == spec_parse_args(args.deep_view()),
{
    let ghost dv = args.deep_view();
    if args.len() <= 1 {
        return CliAction::Select(
            SelectOptions {
                size: SizeFilter::Any,
                color: ColorChoice::NoColor,
                size_notice: false,
                third_slot_notice: false,
            },
        );
    }
    let a1 = to_lower(&args[1]);
    proof {
        assert(dv[1] =~= args@[1]@);
        assert(a1@ == spec_lower(dv[1]));
    }
    if bytes_eq(a1.as_slice(), NAME_HELP.as_slice()) || bytes_eq(
        a1.as_slice(),
        NAME_DASH_HELP.as_slice(),
    ) || bytes_eq(a1.as_slice(), NAME_DASH_H.as_slice()) {
        return CliAction::Help;
    }
    if bytes_eq(a1.as_slice(), NAME_WRITE.as_slice()) || bytes_eq(
        a1.as_slice(),
        NAME_DASH_WRITE.as_slice(),
    ) {
        return CliAction::Write;
    }
    if !(bytes_eq(a1.as_slice(), NAME_SIZE.as_slice()) || bytes_eq(
        a1.as_slice(),
        NAME_DASH_SIZE.as_slice(),
    ) || bytes_eq(a1.as_slice(), NAME_DASH_O.as_slice())) {
        return CliAction::Unknown;
    }
    let mut size = SizeFilter::Any;
    let mut size_notice = false;
    if args.len() > 2 {
        let a2 = to_lower(&args[2]);
        proof {
            assert(dv[2] =~= args@[2]@);
            assert(a2@ == spec_lower(dv[2]));
        }
        if bytes_eq(a2.as_slice(), NAME_SHORT.as_slice()) {
            size = SizeFilter::Short;
        } else if bytes_eq(a2.as_slice(), NAME_MEDIUM.as_slice()) {
            size = SizeFilter::Medium;
        } else if bytes_eq(a2.as_slice(), NAME_LONG.as_slice()) {
            size = SizeFilter::Long;
        } else {
            size_notice = true;
        }
    }
    let mut color = ColorChoice::NoColor;
    let mut third_slot_notice = false;
    if args.len() > 3 {
        let a3 = to_lower(&args[3]);
        proof {
            assert(dv[3] =~= args@[3]@);
            assert(a3@ == spec_lower(dv[3]));
        }
        let is_color_cmd = bytes_eq(a3.as_slice(), NAME_COLOR.as_slice()) || bytes_eq(
            a3.as_slice(),
            NAME_DASH_COLOR.as_slice(),
        ) || bytes_eq(a3.as_slice(), NAME_DASH_C.as_slice());
        if !is_color_cmd {
            third_slot_notice = true;
        } else if args.len() > 4 {
            let a4 = to_lower(&args[4]);
            proof {
                assert(dv[4] =~= args@[4]@);
                assert(a4@ == spec_lower(dv[4]));
            }
            if bytes_eq(a4.as_slice(), NAME_RED.as_slice()) {
                color = ColorChoice::Red;
            } else if bytes_eq(a4.as_slice(), NAME_GREEN.as_slice()) {
                color = ColorChoice::Green;
            } else if bytes_eq(a4.as_slice(), NAME_YELLOW.as_slice()) {
                color = ColorChoice::Yellow;
            } else if bytes_eq(a4.as_slice(), NAME_BLUE.as_slice()) {
                color = ColorChoice::Blue;
            } else if bytes_eq(a4.as_slice(), NAME_MAGENTA.as_slice()) {
                color = ColorChoice::Magenta;
            } else if bytes_eq(a4.as_slice(), NAME_CYAN.as_slice()) {
                color = ColorChoice::Cyan;
            }
        }
    }
    CliAction::Select(SelectOptions { size, color, size_notice, third_slot_notice })
}

} // verus!
