//! Prompt theme: colors for each prompt segment, parsed from a
//! configuration file's color names.

use vstd::prelude::*;
use vstd::string::StringExecFns;
use crate::util::{lower_of, lowercase};

verus! {

/// The colors a prompt segment can take.
#[derive(Clone, Copy, PartialEq, Eq, Structural, Debug)]
pub enum PromptColor {
    Black,
    Red,
    Green,
    Yellow,
    Blue,
    Magenta,
    Cyan,
    White,
    BrightGreen,
    BrightBlue,
    BrightYellow,
    BrightMagenta,
    BrightCyan,
}

/// One section of the theme configuration: a color name.
pub struct ColorSection {
    pub color: String,
}

/// The theme configuration, one section per prompt segment.
pub struct ThemeConfig {
    pub shell: ColorSection,
    pub path: ColorSection,
    pub time: ColorSection,
    pub symbol: ColorSection,
}

/// The prompt theme: a color for each segment.
#[derive(Clone, Copy, PartialEq, Eq, Structural, Debug)]
pub struct Theme {
    pub shell_color: PromptColor,
    pub path_color: PromptColor,
    pub time_color: PromptColor,
    pub symbol_color: PromptColor,
}

/// The color a case-folded name denotes; unknown names fall back to white.
pub open spec fn spec_parse_color(lower: Seq<char>) -> PromptColor {
    if lower == "black"@ {
        PromptColor::Black
    } else if lower == "red"@ {
        PromptColor::Red
    } else if lower == "green"@ {
        PromptColor::Green
    } else if lower == "yellow"@ {
        PromptColor::Yellow
    } else if lower == "blue"@ {
        PromptColor::Blue
    } else if lower == "magenta"@ {
        PromptColor::Magenta
    } else if lower == "cyan"@ {
        PromptColor::Cyan
    } else if lower == "white"@ {
        PromptColor::White
    } else if lower == "brightgreen"@ {
        PromptColor::BrightGreen
    } else if lower == "brightblue"@ {
        PromptColor::BrightBlue
    } else if lower == "brightyellow"@ {
        PromptColor::BrightYellow
    } else if lower == "brightmagenta"@ {
        PromptColor::BrightMagenta
    } else if lower == "brightcyan"@ {
        PromptColor::BrightCyan
    } else {
        PromptColor::White
    }
}

impl Theme {
    /// The stock theme: bright variants of the standard colors.
    pub fn default() -> (t: Theme)
        ensures
            t.shell_color == PromptColor::BrightGreen,
            t.path_color == PromptColor::BrightBlue,
            t.time_color == PromptColor::BrightYellow,
            t.symbol_color == PromptColor::BrightMagenta,
    {
        Theme {
            shell_color: PromptColor::BrightGreen,
            path_color: PromptColor::BrightBlue,
            time_color: PromptColor::BrightYellow,
            symbol_color: PromptColor::BrightMagenta,
        }
    }

    /// Parse one color name, case-insensitively.
    pub fn parse_color(name: &str) -> (c: PromptColor)
        ensures
            c == spec_parse_color(lower_of(name@)),
    {
        let low = lowercase(name);
        if low == String::from_str("black") {
            PromptColor::Black
        } else if low == String::from_str("red") {
            PromptColor::Red
        } else if low == String::from_str("green") {
            PromptColor::Green
        } else if low == String::from_str("yellow") {
            PromptColor::Yellow
        } else if low == String::from_str("blue") {
            PromptColor::Blue
        } else if low == String::from_str("magenta") {
            PromptColor::Magenta
        } else if low == String::from_str("cyan") {
            PromptColor::Cyan
        } else if low == String::from_str("white") {
            PromptColor::White
        } else if low == String::from_str("brightgreen") {
            PromptColor::BrightGreen
        } else if low == String::from_str("brightblue") {
            PromptColor::BrightBlue
        } else if low == String::from_str("brightyellow") {
            PromptColor::BrightYellow
        } else if low == String::from_str("brightmagenta") {
            PromptColor::BrightMagenta
        } else if low == String::from_str("brightcyan") {
            PromptColor::BrightCyan
        } else {
            PromptColor::White
        }
    }

    /// Build a theme from a parsed configuration.
    pub fn from_config(cfg: &ThemeConfig) -> (t: Theme)
        ensures
            t.shell_color == spec_parse_color(lower_of(cfg.shell.color@)),
            t.path_color == spec_parse_color(lower_of(cfg.path.color@)),
            t.time_color == spec_parse_color(lower_of(cfg.time.color@)),
            t.symbol_color == spec_parse_color(lower_of(cfg.symbol.color@)),
    {
        Theme {
            shell_color: Self::parse_color(cfg.shell.color.as_str()),
            path_color: Self::parse_color(cfg.path.color.as_str()),
            time_color: Self::parse_color(cfg.time.color.as_str()),
            symbol_color: Self::parse_color(cfg.symbol.color.as_str()),
        }
    }
}

} // verus!
