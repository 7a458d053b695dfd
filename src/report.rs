use vstd::prelude::*;
use vstd::string::StringExecFns;
use crate::browser::App;
use crate::effect::{Message, PasteMode};
use crate::mode::mode_text;

verus! {

pub open spec fn digit(d: nat) -> char {
        if d == 0 {
            '0'
        } else if d == 1 {
            '1'
        } else if d == 2 {
            '2'
        } else if d == 3 {
            '3'
        } else if d == 4 {
            '4'
        } else if d == 5 {
            '5'
        } else if d == 6 {
            '6'
        } else if d == 7 {
            '7'
        } else if d == 8 {
            '8'
    } else {
        '9'
    }
}

/// The decimal numeral of `n`, without leading zeros.
pub open spec fn decimal(n: nat) -> Seq<char>
    decreases n,
{
    if n < 10 {
        seq![digit(n)]
    } else {
        decimal(n / 10).push(digit(n % 10))
    }
}

/// The status line for message `m`, with `echo` the text being typed.
pub open spec fn message_text_of(m: Message, echo: Seq<char>) -> Seq<char> {
    match m {
        Message::Empty => Seq::empty(),
        Message::NothingSelected => "nothing is selected"@,
        Message::CannotOpenText => "opening these messes up the terminal for now"@,
        Message::CannotOpen => "yeah i cant open this so far"@,
        Message::NothingToDo => "nothing to do"@,
        Message::Renamed => "renamed file"@,
        Message::RenameFailed => "something went wrong while renaming"@,
        Message::FileCreated => "file created"@,
        Message::FileCreateFailed => "error creating file"@,
        Message::DirCreated => "directory created"@,
        Message::DirCreateFailed => "error creating directory"@,
        Message::AlreadyExists => "path already exists"@,
        Message::CommandNotFound => "i traveled the earth to find your command and couldnt find it"@,
        Message::CommandNotRecognized => "i have never seen this man in my entire life"@,
        Message::QuitHint => "press q to quit i have not implemented the command yet..."@,
        Message::TreeDeleted => "deleted!"@,
        Message::TreeDeleteFailed => "cant delete"@,
        Message::Aborted => "aborted"@,
        Message::Canceled => "canceled"@,
        Message::EmptyDirDeleted => "deleted empty dir"@,
        Message::FileDeleted => "deleted file"@,
        Message::DeleteFailed => "wont delete"@,
        Message::ConfirmDeleteFolder => "are you sure you want to delete this folder and all of its contents? [y/n]"@,
        Message::ConfirmDeleteSelection => "are you sure you want to delete all selected items? [Y/n]"@,
        Message::NotHandled => "this type of files hasn't been handled yet"@,
        Message::InRegister => "file in register, type p to paste"@,
        Message::SelectionInRegister => "files in register, type p to paste"@,
        Message::DeleteHint => "type D to delete or d to move"@,
        Message::YankHint => "type y to yank"@,
        Message::SortHint => "sort by name [N/n], modified date [M/m], created date [C/c], dirs first [d], files first [f]"@,
        Message::UnknownCommand => "command not found"@,
        Message::Echo => echo,
        Message::Pasted { count, total, mode } => decimal(count as nat) + "/"@ + decimal(total as nat)
            + " items "@ + if mode == PasteMode::Move {
            "moved"@
        } else {
            "copied"@
        },
        Message::DeletedSelection { count, total } => "deleted "@ + decimal(count as nat) + " of "@
            + decimal(total as nat),
    }
}

fn digit_char(d: usize) -> (r: char)
    requires
        d < 10,
    ensures
        r == digit(d as nat),
{
    if d == 0 {
        '0'
    } else if d == 1 {
        '1'
    } else if d == 2 {
        '2'
    } else if d == 3 {
        '3'
    } else if d == 4 {
        '4'
    } else if d == 5 {
        '5'
    } else if d == 6 {
        '6'
    } else if d == 7 {
        '7'
    } else if d == 8 {
        '8'
    } else {
        '9'
    }
}

/// Appends the decimal numeral of `n`.
pub fn push_decimal(s: &mut String, n: usize)
    ensures
        final(s)@ == old(s)@ + decimal(n as nat),
    decreases n,
{
    if n >= 10 {
        push_decimal(s, n / 10);
    }
    s.push(digit_char(n % 10));
    proof {
        if n < 10 {
            assert(n % 10 == n);
            assert(old(s)@ + decimal(n as nat) =~= old(s)@.push(digit(n as nat)));
        } else {
            assert(old(s)@ + decimal(n as nat) =~= (old(s)@ + decimal((n / 10) as nat)).push(digit((n % 10) as nat)));
        }
    }
}

impl App {
    /// The text of the status line.
    pub fn message_text(&self) -> (r: String)
        ensures
            r@ == message_text_of(self.message, mode_text(self.input_mode)),
    {
        match self.message {
            Message::Empty => String::new(),
            Message::NothingSelected => String::from_str("nothing is selected"),
            Message::CannotOpenText => String::from_str("opening these messes up the terminal for now"),
            Message::CannotOpen => String::from_str("yeah i cant open this so far"),
            Message::NothingToDo => String::from_str("nothing to do"),
            Message::Renamed => String::from_str("renamed file"),
            Message::RenameFailed => String::from_str("something went wrong while renaming"),
            Message::FileCreated => String::from_str("file created"),
            Message::FileCreateFailed => String::from_str("error creating file"),
            Message::DirCreated => String::from_str("directory created"),
            Message::DirCreateFailed => String::from_str("error creating directory"),
            Message::AlreadyExists => String::from_str("path already exists"),
            Message::CommandNotFound => String::from_str("i traveled the earth to find your command and couldnt find it"),
            Message::CommandNotRecognized => String::from_str("i have never seen this man in my entire life"),
            Message::QuitHint => String::from_str("press q to quit i have not implemented the command yet..."),
            Message::TreeDeleted => String::from_str("deleted!"),
            Message::TreeDeleteFailed => String::from_str("cant delete"),
            Message::Aborted => String::from_str("aborted"),
            Message::Canceled => String::from_str("canceled"),
            Message::EmptyDirDeleted => String::from_str("deleted empty dir"),
            Message::FileDeleted => String::from_str("deleted file"),
            Message::DeleteFailed => String::from_str("wont delete"),
            Message::ConfirmDeleteFolder => String::from_str("are you sure you want to delete this folder and all of its contents? [y/n]"),
            Message::ConfirmDeleteSelection => String::from_str("are you sure you want to delete all selected items? [Y/n]"),
            Message::NotHandled => String::from_str("this type of files hasn't been handled yet"),
            Message::InRegister => String::from_str("file in register, type p to paste"),
            Message::SelectionInRegister => String::from_str("files in register, type p to paste"),
            Message::DeleteHint => String::from_str("type D to delete or d to move"),
            Message::YankHint => String::from_str("type y to yank"),
            Message::SortHint => String::from_str("sort by name [N/n], modified date [M/m], created date [C/c], dirs first [d], files first [f]"),
            Message::UnknownCommand => String::from_str("command not found"),
            Message::Echo => self.input_mode.get_str(),
            Message::Pasted { count, total, mode } => {
                let mut s = String::new();
                push_decimal(&mut s, count);
                s.append("/");
                push_decimal(&mut s, total);
                s.append(" items ");
                s.append(if mode == PasteMode::Move { "moved" } else { "copied" });
                proof {
                    assert(s@ =~= message_text_of(self.message, mode_text(self.input_mode)));
                }
                s
            },
            Message::DeletedSelection { count, total } => {
                let mut s = String::from_str("deleted ");
                push_decimal(&mut s, count);
                s.append(" of ");
                push_decimal(&mut s, total);
                proof {
                    assert(s@ =~= message_text_of(self.message, mode_text(self.input_mode)));
                }
                s
            },
        }
    }
}

} // verus!
