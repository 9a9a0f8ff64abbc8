//! How the help text of the command line looks.

use crate::color::AnsiColor;
use vstd::prelude::*;

verus! {

/// How one kind of text looks.
#[derive(Debug, Clone, Copy, PartialEq, Eq, Structural)]
pub struct TextStyle {
    pub bold: bool,
    pub fg_color: AnsiColor,
}

/// How each kind of text in the help looks.
#[derive(Debug, Clone, Copy, PartialEq, Eq, Structural)]
pub struct Styles {
    pub usage: TextStyle,
    pub header: TextStyle,
    pub literal: TextStyle,
    pub invalid: TextStyle,
    pub error: TextStyle,
    pub valid: TextStyle,
    pub placeholder: TextStyle,
}

/// The styles of the help text: headings in bold yellow, what can be typed in green, mistakes
/// in bold red, corrections in bold green and placeholders in white.
#[must_use]
pub fn get_styles() -> (res: Styles)
    ensures
        res.usage == (TextStyle { bold: true, fg_color: AnsiColor::Yellow }),
        res.header == (TextStyle { bold: true, fg_color: AnsiColor::Yellow }),
        res.literal == (TextStyle { bold: false, fg_color: AnsiColor::Green }),
        res.invalid == (TextStyle { bold: true, fg_color: AnsiColor::Red }),
        res.error == (TextStyle { bold: true, fg_color: AnsiColor::Red }),
        res.valid == (TextStyle { bold: true, fg_color: AnsiColor::Green }),
        res.placeholder == (TextStyle { bold: false, fg_color: AnsiColor::White }),
{
    Styles {
        usage: TextStyle { bold: true, fg_color: AnsiColor::Yellow },
        header: TextStyle { bold: true, fg_color: AnsiColor::Yellow },
        literal: TextStyle { bold: false, fg_color: AnsiColor::Green },
        invalid: TextStyle { bold: true, fg_color: AnsiColor::Red },
        error: TextStyle { bold: true, fg_color: AnsiColor::Red },
        valid: TextStyle { bold: true, fg_color: AnsiColor::Green },
        placeholder: TextStyle { bold: false, fg_color: AnsiColor::White },
    }
}

} // verus!
