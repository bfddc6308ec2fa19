//! The command line: what the program is asked to do, and its usage text.
use vstd::prelude::*;
use vstd::string::*;
use crate::text::same_text;

verus! {

/// What the program is asked to do.
#[derive(Clone, Debug, PartialEq, Eq)]
pub enum Command {
    /// Run both synchronisation loops until the process is stopped.
    Daemon,
    /// Upload the one file at this path, then exit.
    Upload(String),
    /// Run one download cycle, then exit.
    Download,
    /// Print the usage text.
    Help,
}

/// A command as a mathematical value.
pub enum CommandView {
    Daemon,
    Upload(Seq<char>),
    Download,
    Help,
}

impl View for Command {
    type V = CommandView;

    open spec fn view(&self) -> CommandView {
        match self {
            Command::Daemon => CommandView::Daemon,
            Command::Upload(path) => CommandView::Upload(path@),
            Command::Download => CommandView::Download,
            Command::Help => CommandView::Help,
        }
    }
}

/// The usage text, as a specification-level string.
pub open spec fn help_text() -> Seq<char> {
    "pika is a file uploader\n\n-u|--upload [path]\n-d|--download\n-h|--help"@
}

/// Whether `word` is the short or the long form of the upload flag.
pub open spec fn is_upload_flag(word: Seq<char>) -> bool {
    word == "-u"@ || word == "--upload"@
}

/// Whether `word` is the short or the long form of the download flag.
pub open spec fn is_download_flag(word: Seq<char>) -> bool {
    word == "-d"@ || word == "--download"@
}

/// The command that the arguments ask for. The first argument is the name of
/// the program. Without further arguments the program runs as a daemon; the
/// upload flag takes exactly one path; the download flag stands alone;
/// everything else asks for the usage text.
pub open spec fn command_of(args: Seq<Seq<char>>) -> CommandView {
    if args.len() <= 1 {
        CommandView::Daemon
    } else if args.len() == 3 && is_upload_flag(args[1]) {
        CommandView::Upload(args[2])
    } else if args.len() == 2 && is_download_flag(args[1]) {
        CommandView::Download
    } else {
        CommandView::Help
    }
}

/// The arguments of a vector as sequences of characters.
pub open spec fn arg_views(args: Seq<String>) -> Seq<Seq<char>> {
    args.map_values(|a: String| a@)
}

/// Returns the usage text.
pub fn help() -> (text: String)
    ensures
        text@ == help_text(),
{
    String::from_str("pika is a file uploader\n\n-u|--upload [path]\n-d|--download\n-h|--help")
}

/// Reads the command line, program name first.
pub fn parse_command(args: &Vec<String>) -> (command: Command)
    ensures
        command@ == command_of(arg_views(args@)),
{
    if args.len() <= 1 {
        return Command::Daemon;
    }
    let flag = args[1].as_str();
    if args.len() == 3 && (same_text(flag, "-u") || same_text(flag, "--upload")) {
        return Command::Upload(args[2].clone());
    }
    if args.len() == 2 && (same_text(flag, "-d") || same_text(flag, "--download")) {
        return Command::Download;
    }
    Command::Help
}

} // verus!
