//! Colours and the terminal codes that switch them on and off.

use vstd::prelude::*;

verus! {

/// The colours of the terminal's palette.
#[derive(Debug, Clone, Copy, PartialEq, Eq, Structural)]
pub enum AnsiColor {
    Black,
    Red,
    Green,
    Yellow,
    Blue,
    Magenta,
    Cyan,
    White,
    BrightBlack,
    BrightRed,
    BrightGreen,
    BrightYellow,
    BrightBlue,
    BrightMagenta,
    BrightCyan,
    BrightWhite,
}

/// A colour of text.
#[derive(Debug, Clone, Copy, PartialEq, Eq, Structural)]
pub enum Color {
    /// One of the terminal's palette.
    Ansi(AnsiColor),
    /// One of 256, by its number.
    Ansi256(u8),
    /// Red, green and blue.
    Rgb(u8, u8, u8),
}

impl AnsiColor {
    /// The place in the palette: the eight basic colours first, then the bright ones.
    pub open spec fn spec_index(self) -> u8 {
        match self {
            AnsiColor::Black => 0,
            AnsiColor::Red => 1,
            AnsiColor::Green => 2,
            AnsiColor::Yellow => 3,
            AnsiColor::Blue => 4,
            AnsiColor::Magenta => 5,
            AnsiColor::Cyan => 6,
            AnsiColor::White => 7,
            AnsiColor::BrightBlack => 8,
            AnsiColor::BrightRed => 9,
            AnsiColor::BrightGreen => 10,
            AnsiColor::BrightYellow => 11,
            AnsiColor::BrightBlue => 12,
            AnsiColor::BrightMagenta => 13,
            AnsiColor::BrightCyan => 14,
            AnsiColor::BrightWhite => 15,
        }
    }

    /// The place in the palette: the eight basic colours first, then the bright ones.
    pub fn index(self) -> (res: u8)
        ensures
            res == self.spec_index(),
            res < 16,
    {
        match self {
            AnsiColor::Black => 0,
            AnsiColor::Red => 1,
            AnsiColor::Green => 2,
            AnsiColor::Yellow => 3,
            AnsiColor::Blue => 4,
            AnsiColor::Magenta => 5,
            AnsiColor::Cyan => 6,
            AnsiColor::White => 7,
            AnsiColor::BrightBlack => 8,
            AnsiColor::BrightRed => 9,
            AnsiColor::BrightGreen => 10,
            AnsiColor::BrightYellow => 11,
            AnsiColor::BrightBlue => 12,
            AnsiColor::BrightMagenta => 13,
            AnsiColor::BrightCyan => 14,
            AnsiColor::BrightWhite => 15,
        }
    }
}

/// A foreground colour in numbers alone.
pub enum Foreground {
    /// The colour of that place in the palette.
    Palette(u8),
    /// One of 256.
    Indexed(u8),
    /// Red, green and blue.
    Rgb(u8, u8, u8),
}

impl Color {
    /// The colour in numbers alone.
    pub open spec fn spec_foreground(self) -> Foreground {
        match self {
            Color::Ansi(color) => Foreground::Palette(color.spec_index()),
            Color::Ansi256(n) => Foreground::Indexed(n),
            Color::Rgb(r, g, b) => Foreground::Rgb(r, g, b),
        }
    }

    /// The colour in numbers alone.
    pub fn foreground(self) -> (res: Foreground)
        ensures
            res == self.spec_foreground(),
            res matches Foreground::Palette(place) ==> place < 16,
    {
        match self {
            Color::Ansi(color) => Foreground::Palette(color.index()),
            Color::Ansi256(n) => Foreground::Indexed(n),
            Color::Rgb(r, g, b) => Foreground::Rgb(r, g, b),
        }
    }
}

/// The escape sequence of a terminal with these parameters that selects how text is shown.
pub open spec fn select_graphic(parameters: Seq<char>) -> Seq<char> {
    seq!['\u{1b}', '['] + parameters + seq!['m']
}

/// The code that switches the colour on.
pub open spec fn opening(fg: Foreground) -> Seq<char> {
    match fg {
        Foreground::Palette(place) => select_graphic(
            if place < 8 {
                seq!['3'] + crate::text::decimal(place as nat)
            } else {
                seq!['9'] + crate::text::decimal((place - 8) as nat)
            },
        ),
        Foreground::Indexed(n) => select_graphic(
            seq!['3', '8', ';', '5', ';'] + crate::text::decimal(n as nat),
        ),
        Foreground::Rgb(r, g, b) => select_graphic(
            seq!['3', '8', ';', '2', ';'] + crate::text::decimal(r as nat) + seq![';'] + crate::text::decimal(g as nat)
                + seq![';'] + crate::text::decimal(b as nat),
        ),
    }
}

/// The code that switches every style off again.
pub open spec fn closing() -> Seq<char> {
    select_graphic(seq!['0'])
}

/// The code that a foreground colour opens with; nothing where there is no colour.
pub open spec fn style_start(fg: Option<Foreground>) -> Seq<char> {
    match fg {
        Some(fg) => opening(fg),
        None => Seq::empty(),
    }
}

/// The code that resets the terminal after a foreground colour; nothing where there is none.
pub open spec fn style_end(fg: Option<Foreground>) -> Seq<char> {
    match fg {
        Some(_) => closing(),
        None => Seq::empty(),
    }
}

/// Prints an `anstyle::Style` whose only setting is this foreground colour. What is printed is
/// the terminal's code for the colour: for a place in the palette `3` or, in the bright half,
/// `9` and the number, otherwise the numbers after `38;5;` or `38;2;`. A plain style prints as
/// nothing. `anstyle::Ansi256Color::into_ansi` finds the colour of a place below sixteen.
#[verifier::external_body]
pub(crate) fn style_on(fg: Option<Foreground>) -> (code: String)
    requires
        fg matches Some(Foreground::Palette(place)) ==> place < 16,
    ensures
        code@ == style_start(fg),
{
    let color = match fg {
        Some(Foreground::Palette(place)) => {
            anstyle::Ansi256Color(place).into_ansi().map(anstyle::Color::Ansi)
        },
        Some(Foreground::Indexed(n)) => Some(anstyle::Color::Ansi256(anstyle::Ansi256Color(n))),
        Some(Foreground::Rgb(r, g, b)) => Some(anstyle::Color::Rgb(anstyle::RgbColor(r, g, b))),
        None => None,
    };
    format!("{}", anstyle::Style::new().fg_color(color))
}

/// Prints the same `anstyle::Style` with the alternate flag, which stands for its reset code:
/// the code that resets the terminal, or nothing for a plain style.
#[verifier::external_body]
pub(crate) fn style_off(fg: Option<Foreground>) -> (code: String)
    requires
        fg matches Some(Foreground::Palette(place)) ==> place < 16,
    ensures
        code@ == style_end(fg),
{
    let color = match fg {
        Some(Foreground::Palette(place)) => {
            anstyle::Ansi256Color(place).into_ansi().map(anstyle::Color::Ansi)
        },
        Some(Foreground::Indexed(n)) => Some(anstyle::Color::Ansi256(anstyle::Ansi256Color(n))),
        Some(Foreground::Rgb(r, g, b)) => Some(anstyle::Color::Rgb(anstyle::RgbColor(r, g, b))),
        None => None,
    };
    format!("{:#}", anstyle::Style::new().fg_color(color))
}

} // verus!
