use vstd::prelude::*;
use vstd::string::*;

use crate::text::{
    contains_space, has_space, lower_of, lowercase, parse_usize_spec, parse_usize_str, str_eq,
    trim_spec, trim_str,
};

verus! {

/// One line of input, interpreted.  Commands are matched on the trimmed,
/// lowercased line; a line that matches none of them is a candidate
/// annotation and carries its trimmed text.
#[derive(PartialEq, Eq, Debug)]
pub enum Command {
    Start,
    Pause,
    Resume,
    Stop,
    Manual,
    Exit,
    /// `show` with a well-formed count.
    Show(usize),
    /// `show` with one argument that is no usable number: a hint is due.
    ShowBadNumber,
    /// `show` with a missing argument or too many: silently ignored.
    ShowMalformed,
    /// No command: a candidate detail annotation.
    Note(String),
}

/// The mathematical value of a `Command`.
pub enum CommandView {
    Start,
    Pause,
    Resume,
    Stop,
    Manual,
    Exit,
    Show(int),
    ShowBadNumber,
    ShowMalformed,
    Note(Seq<char>),
}

impl View for Command {
    type V = CommandView;

    open spec fn view(&self) -> CommandView {
        match self {
            Command::Start => CommandView::Start,
            Command::Pause => CommandView::Pause,
            Command::Resume => CommandView::Resume,
            Command::Stop => CommandView::Stop,
            Command::Manual => CommandView::Manual,
            Command::Exit => CommandView::Exit,
            Command::Show(n) => CommandView::Show(*n as int),
            Command::ShowBadNumber => CommandView::ShowBadNumber,
            Command::ShowMalformed => CommandView::ShowMalformed,
            Command::Note(s) => CommandView::Note(s@),
        }
    }
}

/// How a trimmed line with lowercased form `low` reads: an exact command
/// word; or a `show` request, whose single argument after the keyword
/// must be a usable count; or, failing all of those, an annotation
/// carrying the trimmed text.
pub open spec fn spec_command_of(trimmed: Seq<char>, low: Seq<char>) -> CommandView {
    if low == "start"@ {
        CommandView::Start
    } else if low == "pause"@ {
        CommandView::Pause
    } else if low == "resume"@ {
        CommandView::Resume
    } else if low == "stop"@ {
        CommandView::Stop
    } else if low == "manual"@ {
        CommandView::Manual
    } else if low == "exit"@ {
        CommandView::Exit
    } else if low.len() >= 4 && low.take(4) == "show"@ {
        let rest = low.skip(4);
        if rest.len() == 0 || !is_space_first(rest) {
            CommandView::ShowMalformed
        } else {
            let arg = trim_spec(rest);
            if arg.len() == 0 || has_space(arg) {
                CommandView::ShowMalformed
            } else {
                match parse_usize_spec(arg) {
                    Some(v) => CommandView::Show(v),
                    None => CommandView::ShowBadNumber,
                }
            }
        }
    } else {
        CommandView::Note(trimmed)
    }
}

pub open spec fn is_space_first(s: Seq<char>) -> bool {
    s.len() > 0 && crate::text::is_space_char(s[0])
}

/// Interpret one raw input line: trim it, lowercase the result for
/// case-insensitive matching, and read it as a command.
pub fn interpret_line(line: &str) -> (r: Command)
    ensures
        r@ == spec_command_of(trim_spec(line@), lower_of(trim_spec(line@))),
{
    let trimmed = trim_str(line);
    let low_string = lowercase(trimmed);
    let low = low_string.as_str();
    if str_eq(low, "start") {
        return Command::Start;
    }
    if str_eq(low, "pause") {
        return Command::Pause;
    }
    if str_eq(low, "resume") {
        return Command::Resume;
    }
    if str_eq(low, "stop") {
        return Command::Stop;
    }
    if str_eq(low, "manual") {
        return Command::Manual;
    }
    if str_eq(low, "exit") {
        return Command::Exit;
    }
    let n = low.unicode_len();
    if n >= 4 {
        let head = low.substring_char(0, 4);
        proof {
            assert(head@ =~= low@.take(4));
        }
        if str_eq(head, "show") {
            if n == 4 {
                proof {
                    assert(low@.skip(4).len() == 0);
                }
                return Command::ShowMalformed;
            }
            let rest = low.substring_char(4, n);
            proof {
                assert(rest@ =~= low@.skip(4));
            }
            if !crate::text::is_space(rest.get_char(0)) {
                return Command::ShowMalformed;
            }
            let arg = trim_str(rest);
            if arg.unicode_len() == 0 {
                return Command::ShowMalformed;
            }
            if contains_space(arg) {
                return Command::ShowMalformed;
            }
            return match parse_usize_str(arg) {
                Some(v) => Command::Show(v),
                None => Command::ShowBadNumber,
            };
        }
    }
    proof {
        if n < 4 {
            assert(low@.len() < 4);
        } else {
            assert(low@.take(4) != "show"@);
        }
    }
    Command::Note(trimmed.to_owned())
}

} // verus!
