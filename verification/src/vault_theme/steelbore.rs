//! The palette of the terminal interface.
use vstd::prelude::*;

verus! {

/// Background.
pub const VOID_NAVY: &'static str = "#000027";

/// Primary accent.
pub const MOLTEN_AMBER: &'static str = "#D98E32";

/// Secondary accent.
pub const STEEL_BLUE: &'static str = "#4B7EB0";

/// Success.
pub const SUCCESS: &'static str = "#50FA7B";

/// Error.
pub const ERROR: &'static str = "#FF5C5C";

/// Information.
pub const INFO: &'static str = "#8BE9FD";

} // verus!
