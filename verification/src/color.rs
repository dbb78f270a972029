//! The escape sequences that colour the text of the menu.

use vstd::prelude::*;

verus! {

/// Switches the text to bright blue.
pub const BLUE: &'static str = "\x1b[94m";

/// Switches the text to bright red.
pub const RED: &'static str = "\x1b[91m";

/// Switches the text back to the terminal's own colour.
pub const RESET: &'static str = "\x1b[0m";

/// The sequences to write before and after coloured text; all empty where the
/// terminal shows no colours.
#[derive(Clone, Copy, Debug)]
pub struct Colors {
    pub blue: &'static str,
    pub red: &'static str,
    pub reset: &'static str,
}

/// Whether the standard output shows the basic colours, if it shows any. Wraps
/// `supports_color::on` for `Stream::Stdout`, which looks at the environment and
/// at the terminal; nothing is claimed of what it finds.
#[verifier::external_body]
fn stdout_has_basic() -> Option<bool> {
    supports_color::on(supports_color::Stream::Stdout).map(|level| level.has_basic)
}

impl Colors {
    /// The sequences for a terminal of which `has_basic` was found: colours where
    /// the basic ones are shown, and empty sequences where they are not or
    /// nothing was found.
    pub fn for_support(has_basic: Option<bool>) -> (c: Colors)
        ensures
            has_basic == Some(true) ==> c.blue@ == BLUE@ && c.red@ == RED@ && c.reset@ == RESET@,
            has_basic != Some(true) ==> c.blue@ == ""@ && c.red@ == ""@ && c.reset@ == ""@,
    {
        match has_basic {
            Some(true) => Colors { blue: BLUE, red: RED, reset: RESET },
            _ => Colors { blue: "", red: "", reset: "" },
        }
    }

    /// The sequences for the terminal that the standard output writes to.
    pub fn detect_set_colors() -> (c: Colors)
        ensures
            (c.blue@ == BLUE@ && c.red@ == RED@ && c.reset@ == RESET@) || (c.blue@ == ""@ && c.red@
                == ""@ && c.reset@ == ""@),
    {
        Colors::for_support(stdout_has_basic())
    }
}

} // verus!
