//! The yes/no confirmation: how lines of input are read as an answer.
//!
//! A line is taken as it was read, with the line feed that ends it. `Y` and
//! `y` mean yes, `N` and `n` mean no, and a line that holds nothing else but
//! the line feed stands for the default. Every other line is no answer, and
//! the question is put again.

use vstd::prelude::*;
use vstd::string::*;

verus! {

/// What an empty line stands for.
#[derive(Clone, Copy, Debug, PartialEq, Eq, Structural)]
pub enum AskDefault {
    /// An empty line means yes.
    AssumeYes,
    /// An empty line means no.
    AssumeNo,
    /// An empty line is no answer.
    RequireExplicit,
}

impl AskDefault {
    /// The answer that an empty line gives.
    pub open spec fn on_empty(self) -> Option<bool> {
        match self {
            AskDefault::AssumeYes => Some(true),
            AskDefault::AssumeNo => Some(false),
            AskDefault::RequireExplicit => None,
        }
    }

    /// The choices as the question shows them, the default in upper case.
    pub open spec fn hint_text(self) -> Seq<char> {
        match self {
            AskDefault::AssumeYes => "[Y/n]"@,
            AskDefault::AssumeNo => "[y/N]"@,
            AskDefault::RequireExplicit => "[y/n]"@,
        }
    }

    /// The choices as the question shows them, the default in upper case.
    pub fn hint(self) -> (text: &'static str)
        ensures
            text@ == self.hint_text(),
    {
        match self {
            AskDefault::AssumeYes => "[Y/n]",
            AskDefault::AssumeNo => "[y/N]",
            AskDefault::RequireExplicit => "[y/n]",
        }
    }
}

/// What one line of input answers; `None` where it answers nothing.
pub open spec fn answer_of(line: Seq<char>, default: AskDefault) -> Option<bool> {
    if line == "Y\n"@ || line == "y\n"@ {
        Some(true)
    } else if line == "N\n"@ || line == "n\n"@ {
        Some(false)
    } else if line == "\n"@ {
        default.on_empty()
    } else {
        None
    }
}

/// What the first line that answers anything answers; `None` where no line
/// does.
pub open spec fn first_answer(lines: Seq<Seq<char>>, default: AskDefault) -> Option<bool>
    decreases lines.len(),
{
    if lines.len() == 0 {
        None
    } else {
        match answer_of(lines.first(), default) {
            Some(answer) => Some(answer),
            None => first_answer(lines.drop_first(), default),
        }
    }
}

/// Reads one line of input as an answer; `None` where the question has to be
/// put again.
pub fn interpret_answer(line: &str, default: AskDefault) -> (answer: Option<bool>)
    ensures
        answer == answer_of(line@, default),
{
    let given = String::from_str(line);
    if given == String::from_str("Y\n") || given == String::from_str("y\n") {
        Some(true)
    } else if given == String::from_str("N\n") || given == String::from_str("n\n") {
        Some(false)
    } else if given == String::from_str("\n") {
        match default {
            AskDefault::AssumeYes => Some(true),
            AskDefault::AssumeNo => Some(false),
            AskDefault::RequireExplicit => None,
        }
    } else {
        None
    }
}

/// Puts the question to each line in turn until one answers. `None` where
/// the lines run out before that.
pub fn ask(lines: &Vec<String>, default: AskDefault) -> (answer: Option<bool>)
    ensures
        answer == first_answer(lines.deep_view(), default),
{
    let mut i: usize = 0;
    assert(lines.deep_view().skip(0) == lines.deep_view());
    while i < lines.len()
        invariant
            i <= lines.len(),
            first_answer(lines.deep_view(), default) == first_answer(
                lines.deep_view().skip(i as int),
                default,
            ),
        decreases lines.len() - i,
    {
        let ghost rest = lines.deep_view().skip(i as int);
        assert(rest.first() == lines[i as int]@);
        assert(rest.drop_first() == lines.deep_view().skip(i + 1));
        match interpret_answer(lines[i].as_str(), default) {
            Some(answer) => {
                return Some(answer);
            },
            None => {},
        }
        i = i + 1;
    }
    None
}

/// A line that answers settles the question at once, whatever follows it;
/// a line that does not is as good as absent.
pub proof fn lemma_first_line_decides(line: Seq<char>, rest: Seq<Seq<char>>, default: AskDefault)
    ensures
        first_answer(seq![line] + rest, default) == match answer_of(line, default) {
            Some(answer) => Some(answer),
            None => first_answer(rest, default),
        },
{
    let lines = seq![line] + rest;
    assert(lines.first() == line);
    assert(lines.drop_first() == rest);
}

} // verus!
