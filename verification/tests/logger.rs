use nirinit::color::{AnsiColor, Color};
use nirinit::logger::{enable_debug, init, paint, Level, Logger, Record};
use nirinit::styles::{get_styles, TextStyle};
use nirinit::verbosity::LevelFilter;

#[test]
fn paint_wraps_text_in_codes() {
    assert_eq!(paint(Some(Color::Ansi(AnsiColor::Red)), "Error:"), "\u{1b}[31mError:\u{1b}[0m");
    assert_eq!(paint(Some(Color::Ansi(AnsiColor::White)), ""), "\u{1b}[37m\u{1b}[0m");
    assert_eq!(paint(Some(Color::Ansi(AnsiColor::BrightBlack)), "x"), "\u{1b}[90mx\u{1b}[0m");
    assert_eq!(paint(Some(Color::Ansi(AnsiColor::BrightCyan)), "x"), "\u{1b}[96mx\u{1b}[0m");
    assert_eq!(paint(Some(Color::Ansi256(0)), "x"), "\u{1b}[38;5;0mx\u{1b}[0m");
    assert_eq!(paint(Some(Color::Ansi256(203)), "x"), "\u{1b}[38;5;203mx\u{1b}[0m");
    assert_eq!(paint(Some(Color::Rgb(1, 20, 255)), "x"), "\u{1b}[38;2;1;20;255mx\u{1b}[0m");
}

#[test]
fn paint_without_a_color_changes_nothing() {
    assert_eq!(paint(None, "plain"), "plain");
    assert_eq!(paint(None, ""), "");
}

#[test]
fn every_palette_color_is_painted_as_anstyle_does() {
    let all = [
        (AnsiColor::Black, anstyle::AnsiColor::Black),
        (AnsiColor::Red, anstyle::AnsiColor::Red),
        (AnsiColor::Green, anstyle::AnsiColor::Green),
        (AnsiColor::Yellow, anstyle::AnsiColor::Yellow),
        (AnsiColor::Blue, anstyle::AnsiColor::Blue),
        (AnsiColor::Magenta, anstyle::AnsiColor::Magenta),
        (AnsiColor::Cyan, anstyle::AnsiColor::Cyan),
        (AnsiColor::White, anstyle::AnsiColor::White),
        (AnsiColor::BrightBlack, anstyle::AnsiColor::BrightBlack),
        (AnsiColor::BrightRed, anstyle::AnsiColor::BrightRed),
        (AnsiColor::BrightGreen, anstyle::AnsiColor::BrightGreen),
        (AnsiColor::BrightYellow, anstyle::AnsiColor::BrightYellow),
        (AnsiColor::BrightBlue, anstyle::AnsiColor::BrightBlue),
        (AnsiColor::BrightMagenta, anstyle::AnsiColor::BrightMagenta),
        (AnsiColor::BrightCyan, anstyle::AnsiColor::BrightCyan),
        (AnsiColor::BrightWhite, anstyle::AnsiColor::BrightWhite),
    ];
    for (ours, theirs) in all {
        let style = anstyle::Style::new().fg_color(Some(anstyle::Color::Ansi(theirs)));
        assert_eq!(paint(Some(Color::Ansi(ours)), "text"), format!("{style}text{style:#}"));
    }
}

#[test]
fn log_lines_start_with_their_label() {
    let line = |level| Logger.log(&Record { level, module: Some("app::main"), args: "hello" });
    assert_eq!(line(Level::Error), "\u{1b}[31mError:\u{1b}[0m hello");
    assert_eq!(line(Level::Warn), "\u{1b}[33mWarning:\u{1b}[0m hello");
    assert_eq!(line(Level::Info), "\u{1b}[32mInfo:\u{1b}[0m hello");
    assert_eq!(line(Level::Debug), "\u{1b}[34mDebug:\u{1b}[0m hello");
    assert_eq!(line(Level::Trace), "[app::main] hello");
}

#[test]
fn trace_line_without_a_module_has_empty_brackets() {
    let record = Record { level: Level::Trace, module: None, args: "hello" };
    assert_eq!(Logger.log(&record), "[] hello");
}

#[test]
fn levels_reach_the_log_crate() {
    assert_eq!(log::max_level(), log::LevelFilter::Off);
    assert_eq!(init().level(), LevelFilter::Info);
    assert_eq!(log::max_level(), log::LevelFilter::Info);
    assert_eq!(enable_debug().level(), LevelFilter::Debug);
    assert_eq!(log::max_level(), log::LevelFilter::Debug);
}

#[test]
fn help_is_styled() {
    let styles = get_styles();
    assert_eq!(styles.usage, TextStyle { bold: true, fg_color: AnsiColor::Yellow });
    assert_eq!(styles.header, TextStyle { bold: true, fg_color: AnsiColor::Yellow });
    assert_eq!(styles.literal, TextStyle { bold: false, fg_color: AnsiColor::Green });
    assert_eq!(styles.invalid, TextStyle { bold: true, fg_color: AnsiColor::Red });
    assert_eq!(styles.error, TextStyle { bold: true, fg_color: AnsiColor::Red });
    assert_eq!(styles.valid, TextStyle { bold: true, fg_color: AnsiColor::Green });
    assert_eq!(styles.placeholder, TextStyle { bold: false, fg_color: AnsiColor::White });
}
