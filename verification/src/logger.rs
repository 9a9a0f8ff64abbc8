//! The lines that are written for messages, and how many of them are shown.

use crate::color::{style_off, style_on, AnsiColor, Color};
use crate::text::joined;
use crate::verbosity::{set_max_level, LevelFilter, MaxLevel};
use vstd::prelude::*;

verus! {

/// `text` between the codes that switch the colour on and everything off again; `text` alone
/// where there is no colour.
pub open spec fn painted(color: Option<Color>, text: Seq<char>) -> Seq<char> {
    match color {
        Some(color) => crate::color::opening(color.spec_foreground()) + text + crate::color::closing(),
        None => text,
    }
}

/// `text` in that colour, for a terminal.
pub fn paint(color: Option<Color>, text: &str) -> (res: String)
    ensures
        res@ == painted(color, text@),
{
    let on: String = match color {
        Some(color) => style_on(Some(color.foreground())),
        None => style_on(None),
    };
    let off: String = match color {
        Some(color) => style_off(Some(color.foreground())),
        None => style_off(None),
    };
    let res: String = joined(joined(on.as_str(), text).as_str(), off.as_str());
    assert(res@ == painted(color, text@));
    res
}

/// The text is found again in what is painted, between the code of the colour and the reset.
pub proof fn law_paint_keeps_text(color: Color, text: Seq<char>)
    ensures
        ({
            let start = crate::color::opening(color.spec_foreground()).len() as int;
            let res = painted(Some(color), text);
            &&& res.subrange(start, start + text.len()) == text
            &&& res.take(start) == crate::color::opening(color.spec_foreground())
            &&& res.skip(start + text.len()) == crate::color::closing()
        }),
        painted(None, text) == text,
{
}

/// How serious a message is.
#[derive(Debug, Clone, Copy, PartialEq, Eq, Structural)]
pub enum Level {
    Error,
    Warn,
    Info,
    Debug,
    Trace,
}

/// A message on its way to the user.
#[derive(Debug, Clone, Copy, PartialEq, Eq)]
pub struct Record<'a> {
    pub level: Level,
    /// The module that the message comes from, if known.
    pub module: Option<&'a str>,
    /// The text of the message.
    pub args: &'a str,
}

/// The label and the colour of it that messages of a level start with; the lowest level has
/// none.
pub open spec fn label(level: Level) -> Option<(AnsiColor, Seq<char>)> {
    match level {
        Level::Error => Some((AnsiColor::Red, "Error:"@)),
        Level::Warn => Some((AnsiColor::Yellow, "Warning:"@)),
        Level::Info => Some((AnsiColor::Green, "Info:"@)),
        Level::Debug => Some((AnsiColor::Blue, "Debug:"@)),
        Level::Trace => None,
    }
}

/// The line of a message: its painted label, or else its module in brackets, then the text.
pub open spec fn log_line(level: Level, module: Option<Seq<char>>, args: Seq<char>) -> Seq<
    char,
> {
    match label(level) {
        Some((color, name)) => painted(Some(Color::Ansi(color)), name) + " "@ + args,
        None => match module {
            Some(path) => "["@ + path + "] "@ + args,
            None => "["@ + "] "@ + args,
        },
    }
}

/// Turns messages into lines.
pub struct Logger;

impl Logger {
    /// The line that is written for a message.
    pub fn log(&self, record: &Record) -> (res: String)
        ensures
            res@ == log_line(record.level, record.module.deep_view(), record.args@),
    {
        let start: String = match record.level {
            Level::Error => paint(Some(Color::Ansi(AnsiColor::Red)), "Error:"),
            Level::Warn => paint(Some(Color::Ansi(AnsiColor::Yellow)), "Warning:"),
            Level::Info => paint(Some(Color::Ansi(AnsiColor::Green)), "Info:"),
            Level::Debug => paint(Some(Color::Ansi(AnsiColor::Blue)), "Debug:"),
            Level::Trace => {
                let open: String = match record.module {
                    Some(path) => joined("[", path),
                    None => "[".to_owned(),
                };
                return joined(joined(open.as_str(), "] ").as_str(), record.args);
            },
        };
        joined(joined(start.as_str(), " ").as_str(), record.args)
    }
}

/// Shows messages from `Info` up.
pub fn init() -> (res: MaxLevel)
    ensures
        res@ == LevelFilter::Info,
{
    set_max_level(LevelFilter::Info)
}

/// Shows messages from `Debug` up.
pub fn enable_debug() -> (res: MaxLevel)
    ensures
        res@ == LevelFilter::Debug,
{
    set_max_level(LevelFilter::Debug)
}

/// A message that some step of the program has for the user.
#[derive(Debug, PartialEq, Eq)]
pub struct Notice {
    pub level: Level,
    pub text: String,
}

/// What a [`Notice`] says.
pub struct NoticeView {
    pub level: Level,
    pub text: Seq<char>,
}

impl View for Notice {
    type V = NoticeView;

    open spec fn view(&self) -> NoticeView {
        NoticeView { level: self.level, text: self.text@ }
    }
}

impl DeepView for Notice {
    type V = NoticeView;

    open spec fn deep_view(&self) -> NoticeView {
        self@
    }
}

/// The codes that colours are switched on and off with.
pub proof fn law_codes_of_colors(n: u8, r: u8, g: u8, b: u8, text: Seq<char>)
    ensures
        ({
            let reset = seq!['\u{1b}', '[', '0', 'm'];
            &&& painted(Some(Color::Ansi256(n)), text) == seq![
                '\u{1b}',
                '[',
                '3',
                '8',
                ';',
                '5',
                ';',
            ] + crate::text::decimal(n as nat) + seq!['m'] + text + reset
            &&& painted(Some(Color::Rgb(r, g, b)), text) == seq![
                '\u{1b}',
                '[',
                '3',
                '8',
                ';',
                '2',
                ';',
            ] + crate::text::decimal(r as nat) + seq![';'] + crate::text::decimal(g as nat)
                + seq![';'] + crate::text::decimal(b as nat) + seq!['m'] + text + reset
            &&& painted(None, text) == text
        }),
{
}

/// The line of a message ends with its text, whatever that is. Before it stands the label of the
/// level in its colour and a space, or for the lowest level the module in brackets.
pub proof fn law_line_ends_with_the_message(module: Option<Seq<char>>, path: Seq<char>, args: Seq<char>)
    ensures
        ({
            let on = |code: char| seq!['\u{1b}', '[', '3', code, 'm'];
            let off = seq!['\u{1b}', '[', '0', 'm'];
            &&& log_line(Level::Error, module, args) == on('1') + "Error:"@ + off + " "@ + args
            &&& log_line(Level::Warn, module, args) == on('3') + "Warning:"@ + off + " "@ + args
            &&& log_line(Level::Info, module, args) == on('2') + "Info:"@ + off + " "@ + args
            &&& log_line(Level::Debug, module, args) == on('4') + "Debug:"@ + off + " "@ + args
            &&& log_line(Level::Trace, Some(path), args) == "["@ + path + "] "@ + args
            &&& log_line(Level::Trace, None, args) == "["@ + "] "@ + args
        }),
{
    let on = |code: char| seq!['\u{1b}', '[', '3', code, 'm'];
    assert(crate::color::opening(Color::Ansi(AnsiColor::Red).spec_foreground()) == on('1'));
    assert(crate::color::opening(Color::Ansi(AnsiColor::Yellow).spec_foreground()) == on('3'));
    assert(crate::color::opening(Color::Ansi(AnsiColor::Green).spec_foreground()) == on('2'));
    assert(crate::color::opening(Color::Ansi(AnsiColor::Blue).spec_foreground()) == on('4'));
    assert(crate::color::closing() == seq!['\u{1b}', '[', '0', 'm']);
}

/// The view of a message holds its level and its text.
pub proof fn law_notice_is_shown_whole(notice: Notice)
    ensures
        notice@.level == notice.level,
        notice@.text == notice.text@,
        notice.deep_view() == notice@,
{
}

} // verus!
