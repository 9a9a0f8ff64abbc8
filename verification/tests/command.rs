use nirinit::command::LaunchCommand;
use nirinit::text::{chars_of, holds, is_text_le, is_white_space, join_spaced, joined, split_words, to_decimal};

fn strings(list: &[&str]) -> Vec<String> {
    list.iter().map(|s| s.to_string()).collect()
}

#[test]
fn white_space_is_that_of_the_standard_library() {
    for code in 0..=0x10ffffu32 {
        if let Some(c) = char::from_u32(code) {
            assert_eq!(is_white_space(c), c.is_whitespace(), "{code:x}");
        }
    }
}

#[test]
fn words_are_those_of_the_standard_library() {
    for s in [
        "",
        " ",
        "a",
        "  a",
        "a  ",
        "ghostty -e tmux",
        "\tone\n two\u{3000}three\u{a0}",
        "größe \u{1f600}\u{2003}x",
        "no\u{200b}break",
    ] {
        assert_eq!(split_words(s), s.split_whitespace().collect::<Vec<_>>(), "{s:?}");
        assert_eq!(chars_of(s), s.chars().collect::<Vec<_>>());
    }
}

#[test]
fn strings_are_ordered_as_by_the_standard_library() {
    let list = ["", "A", "DP-1", "DP-10", "DP-2", "HDMI-A-1", "eDP-1", "é", "\u{ffff}", "\u{1f600}"];
    for a in list {
        for b in list {
            assert_eq!(is_text_le(a, b), a <= b, "{a:?} {b:?}");
        }
    }
}

#[test]
fn joining_puts_single_spaces() {
    assert_eq!(join_spaced(&[]), "");
    assert_eq!(join_spaced(&strings(&["one"])), "one");
    assert_eq!(join_spaced(&strings(&["ghostty", "-e", "tmux"])), "ghostty -e tmux");
    assert_eq!(join_spaced(&strings(&["", ""])), " ");
    assert_eq!(joined("ab", "cd"), "abcd");
}

#[test]
fn numbers_are_written_in_decimal() {
    for n in [0, 7, 9, 10, 99, 100, 300, 1_000_000, u64::MAX] {
        assert_eq!(to_decimal(n), n.to_string());
    }
}

#[test]
fn a_list_holds_whole_strings() {
    let list = strings(&["firefox", "kitty"]);
    assert!(holds(&list, "kitty"));
    assert!(!holds(&list, "kit"));
    assert!(!holds(&[], ""));
}

#[test]
fn shell_command_is_split() {
    let command = LaunchCommand::Shell("  ghostty -e\ttmux ".to_string());
    assert_eq!(command.argv(), strings(&["ghostty", "-e", "tmux"]));
    assert_eq!(command.display(), "  ghostty -e\ttmux ");
    assert_eq!(command.first(), Some("ghostty"));
}

#[test]
fn args_command_is_kept() {
    let command = LaunchCommand::Args(strings(&["sh", "-c", "echo hi there"]));
    assert_eq!(command.argv(), strings(&["sh", "-c", "echo hi there"]));
    assert_eq!(command.display(), "sh -c echo hi there");
    assert_eq!(command.first(), Some("sh"));
    assert_eq!(command.clone(), command);
}

#[test]
fn empty_commands_have_no_program() {
    assert_eq!(LaunchCommand::Shell(" \n".to_string()).first(), None);
    assert_eq!(LaunchCommand::Shell(" \n".to_string()).argv(), Vec::<String>::new());
    assert_eq!(LaunchCommand::Args(Vec::new()).first(), None);
    assert_eq!(LaunchCommand::Args(Vec::new()).display(), "");
}

#[test]
fn display_reads_back() {
    let args = strings(&["foot", "--server", "-T", "größe"]);
    let shown = LaunchCommand::Args(args.clone()).display();
    assert_eq!(LaunchCommand::Shell(shown).argv(), args);
}
