//! The command that starts an application.

use crate::text::{join_spaced, split_words};
use vstd::prelude::*;

verus! {

/// Launch command that can be specified as either an array of arguments or a single string.
#[derive(Debug, PartialEq, Eq)]
pub enum LaunchCommand {
    /// Array of arguments (preferred for commands with arguments).
    Args(Vec<String>),
    /// Single string command (for simple commands).
    /// If the string contains spaces, it will be split on whitespace.
    Shell(String),
}

/// What a [`LaunchCommand`] says, as text.
pub enum LaunchCommandView {
    Args(Seq<Seq<char>>),
    Shell(Seq<char>),
}

impl LaunchCommandView {
    /// The arguments to spawn the command with: those given, or the words of the string.
    pub open spec fn argv(self) -> Seq<Seq<char>> {
        match self {
            LaunchCommandView::Args(args) => args,
            LaunchCommandView::Shell(line) => crate::text::words(line),
        }
    }

    /// The command in one line: the string itself, or the arguments with spaces between them.
    pub open spec fn display(self) -> Seq<char> {
        match self {
            LaunchCommandView::Args(args) => crate::text::spaced(args),
            LaunchCommandView::Shell(line) => line,
        }
    }

    /// The program name: the first argument, if there is one.
    pub open spec fn first(self) -> Option<Seq<char>> {
        if self.argv().len() > 0 {
            Some(self.argv()[0])
        } else {
            None
        }
    }
}

impl View for LaunchCommand {
    type V = LaunchCommandView;

    open spec fn view(&self) -> LaunchCommandView {
        match self {
            LaunchCommand::Args(args) => LaunchCommandView::Args(args.deep_view()),
            LaunchCommand::Shell(line) => LaunchCommandView::Shell(line@),
        }
    }
}

impl DeepView for LaunchCommand {
    type V = LaunchCommandView;

    open spec fn deep_view(&self) -> LaunchCommandView {
        self@
    }
}

/// A copy of a list of strings.
pub fn copy_strings(list: &Vec<String>) -> (res: Vec<String>)
    ensures
        res.deep_view() == list.deep_view(),
{
    let mut res: Vec<String> = Vec::new();
    let mut i: usize = 0;
    while i < list.len()
        invariant
            i <= list.len(),
            res.deep_view() == list.deep_view().take(i as int),
        decreases list.len() - i,
    {
        let ghost before = res.deep_view();
        res.push(list[i].clone());
        assert(res.deep_view() == before.push(list.deep_view()[i as int]));
        assert(list.deep_view().take(i + 1) == list.deep_view().take(i as int).push(
            list.deep_view()[i as int],
        ));
        i = i + 1;
    }
    assert(list.deep_view().take(i as int) == list.deep_view());
    res
}

impl Clone for LaunchCommand {
    fn clone(&self) -> (res: Self)
        ensures
            res@ == self@,
    {
        match self {
            LaunchCommand::Args(args) => LaunchCommand::Args(copy_strings(args)),
            LaunchCommand::Shell(line) => LaunchCommand::Shell(line.clone()),
        }
    }
}

impl LaunchCommand {
    /// Returns the command as a vector of arguments for spawning.
    pub fn argv(&self) -> (res: Vec<String>)
        ensures
            res.deep_view() == self@.argv(),
    {
        match self {
            LaunchCommand::Args(args) => copy_strings(args),
            LaunchCommand::Shell(line) => {
                let parts: Vec<&str> = split_words(line.as_str());
                let mut res: Vec<String> = Vec::new();
                let mut i: usize = 0;
                while i < parts.len()
                    invariant
                        i <= parts.len(),
                        res.deep_view() == parts.deep_view().take(i as int),
                    decreases parts.len() - i,
                {
                    let ghost before = res.deep_view();
                    res.push(parts[i].to_owned());
                    assert(res.deep_view() == before.push(parts.deep_view()[i as int]));
                    assert(parts.deep_view().take(i + 1) == parts.deep_view().take(i as int).push(
                        parts.deep_view()[i as int],
                    ));
                    i = i + 1;
                }
                assert(parts.deep_view().take(i as int) == parts.deep_view());
                res
            },
        }
    }

    /// Returns a display string for logging/error messages.
    pub fn display(&self) -> (res: String)
        ensures
            res@ == self@.display(),
    {
        match self {
            LaunchCommand::Args(args) => join_spaced(args.as_slice()),
            LaunchCommand::Shell(line) => line.clone(),
        }
    }

    /// Returns the first argument (program name) if available.
    pub fn first(&self) -> (res: Option<&str>)
        ensures
            res.deep_view() == self@.first(),
    {
        match self {
            LaunchCommand::Args(args) => {
                if args.len() > 0 {
                    Some(args[0].as_str())
                } else {
                    None
                }
            },
            LaunchCommand::Shell(line) => {
                let parts: Vec<&str> = split_words(line.as_str());
                if parts.len() > 0 {
                    assert(parts.deep_view()[0] == parts[0]@);
                    Some(parts[0])
                } else {
                    None
                }
            },
        }
    }
}

/// A command of plain words, shown in one line and read back as a string, starts the same
/// program with the same arguments.
pub proof fn law_display_reads_back(args: Seq<Seq<char>>)
    requires
        forall|i: int| 0 <= i < args.len() ==> (#[trigger] args[i]).len() > 0,
        forall|i: int, j: int|
            0 <= i < args.len() && 0 <= j < args[i].len() ==> !crate::text::white_space(
                #[trigger] args[i][j],
            ),
    ensures
        LaunchCommandView::Shell(LaunchCommandView::Args(args).display()).argv() == args,
{
    crate::text::law_words_of_spaced(args);
}

/// The arguments that a string is split into have no white space in them and are not empty, and
/// together they hold every other character of the string in its order.
pub proof fn law_shell_splits_on_white_space(line: Seq<char>)
    ensures
        ({
            let argv = LaunchCommandView::Shell(line).argv();
            &&& argv.flatten() == line.filter(|c: char| !crate::text::white_space(c))
            &&& forall|i: int| 0 <= i < argv.len() ==> (#[trigger] argv[i]).len() > 0
            &&& forall|i: int, j: int|
                0 <= i < argv.len() && 0 <= j < argv[i].len() ==> !crate::text::white_space(
                    #[trigger] argv[i][j],
                )
        }),
{
    crate::text::law_words_are_solid(line);
    crate::text::law_words_keep_the_rest(line);
}

/// Arguments that are given are the ones that the program is started with, as they are, and a
/// string is shown as it is.
pub proof fn law_commands_are_kept(args: Seq<Seq<char>>, line: Seq<char>)
    ensures
        LaunchCommandView::Args(args).argv() == args,
        LaunchCommandView::Shell(line).display() == line,
{
}

/// White space in a string parts its arguments, and a string without any is one argument.
pub proof fn law_string_is_parted_at_white_space(a: Seq<char>, c: char, b: Seq<char>)
    requires
        crate::text::white_space(c),
    ensures
        LaunchCommandView::Shell(a + seq![c] + b).argv() == LaunchCommandView::Shell(a).argv()
            + LaunchCommandView::Shell(b).argv(),
        a.len() > 0 && (forall|i: int|
            0 <= i < a.len() ==> !crate::text::white_space(#[trigger] a[i]))
            ==> LaunchCommandView::Shell(a).argv() == seq![a],
{
    crate::text::law_words_part_at_white_space(a, c, b);
    if a.len() > 0 && (forall|i: int|
        0 <= i < a.len() ==> !crate::text::white_space(#[trigger] a[i])) {
        crate::text::law_solid_text_is_one_word(a);
    }
}

/// Arguments are shown with one space between each two, and nothing else is added.
pub proof fn law_arguments_are_shown_with_spaces(
    a: Seq<Seq<char>>,
    b: Seq<Seq<char>>,
    part: Seq<char>,
)
    requires
        a.len() > 0,
        b.len() > 0,
    ensures
        LaunchCommandView::Args(a + b).display() == LaunchCommandView::Args(a).display() + seq![' ']
            + LaunchCommandView::Args(b).display(),
        LaunchCommandView::Args(seq![part]).display() == part,
        LaunchCommandView::Args(Seq::empty()).display() == Seq::<char>::empty(),
{
    crate::text::law_spaced_joins(a, b, part);
}

/// The program name is the first of the arguments that the program is started with, whichever
/// way the command is given.
pub proof fn law_program_is_the_first_argument(command: LaunchCommandView)
    ensures
        command.argv().len() > 0 ==> command.first() == Some(command.argv()[0]),
        command.argv().len() == 0 ==> command.first() is None,
{
}

/// The view of a command holds every argument, or the whole string.
pub proof fn law_command_is_shown_whole(command: LaunchCommand)
    ensures
        command matches LaunchCommand::Args(args) ==> command@ == LaunchCommandView::Args(
            args@.map_values(|arg: String| arg@),
        ),
        command matches LaunchCommand::Shell(line) ==> command@ == LaunchCommandView::Shell(line@),
        command.deep_view() == command@,
{
    if let LaunchCommand::Args(args) = command {
        assert(args.deep_view() =~= args@.map_values(|arg: String| arg@));
    }
}

} // verus!
