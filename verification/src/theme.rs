//! The color theme: the escape-code fragments that decorate display lines.
//! The theme is an explicit value handed to the formatting functions, so the
//! contracts speak of whatever codes the caller chose.

use vstd::prelude::*;

verus! {

/// Styling fragments placed around rendered text.
pub struct Theme {
    pub green: String,
    pub yellow: String,
    pub bold: String,
    pub reset: String,
}

impl Theme {
    /// The standard ANSI escape codes for this display: green, yellow, bold
    /// and reset.
    pub fn ansi() -> (t: Theme)
        ensures
            t.green@ == "\u{1b}[0;32m"@,
            t.yellow@ == "\u{1b}[0;33m"@,
            t.bold@ == "\u{1b}[1m"@,
            t.reset@ == "\u{1b}[0m"@,
    {
        Theme {
            green: String::from_str("\u{1b}[0;32m"),
            yellow: String::from_str("\u{1b}[0;33m"),
            bold: String::from_str("\u{1b}[1m"),
            reset: String::from_str("\u{1b}[0m"),
        }
    }
}

} // verus!
