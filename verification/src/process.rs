//! Programs that a run starts, and what they leave behind.

use crate::text::{find_byte, index_of, lemma_index_of, utf8_text};
use vstd::prelude::*;
use vstd::string::{StringExecFns, StringSliceAdditionalSpecFns};
use vstd::utf8::{encode_utf8, valid_utf8};

verus! {

/// A program to start, with its arguments and with variables to set for it.
#[derive(Debug)]
pub struct Command {
    pub program: String,
    pub args: Vec<String>,
    pub envs: Vec<(String, String)>,
}

/// The program, the arguments and the variables of a command.
pub struct CommandView {
    pub program: Seq<char>,
    pub args: Seq<Seq<char>>,
    pub envs: Seq<(Seq<char>, Seq<char>)>,
}

impl View for Command {
    type V = CommandView;

    open spec fn view(&self) -> CommandView {
        CommandView {
            program: self.program@,
            args: crate::text::strings_view(self.args@),
            envs: crate::env::pairs_view(self.envs@),
        }
    }
}

/// What a run of a program left behind.
#[derive(Debug)]
pub struct ProcessOutput {
    /// Whether the process ended with the exit status zero.
    pub success: bool,
    /// What the process wrote to its standard output.
    pub stdout: Vec<u8>,
    /// What the process wrote to its standard error.
    pub stderr: Vec<u8>,
}

/// Why the answer of a program could not be used.
#[derive(Debug)]
pub enum CommandError {
    /// The program did not end with the exit status zero. `diagnostic` is
    /// what it wrote to its standard error.
    Failed { diagnostic: Vec<u8> },
    /// A line of the answer is not valid UTF-8.
    Unreadable,
    /// A line of the answer is no target triple.
    InvalidTarget,
}

/// The first line of `bytes`, without its line feed and without a carriage
/// return before the line feed.
pub open spec fn first_line(bytes: Seq<u8>) -> Seq<u8> {
    let end = index_of(bytes, 0x0a);
    let raw = bytes.take(end);
    if end < bytes.len() && raw.len() > 0 && raw.last() == 0x0d {
        raw.drop_last()
    } else {
        raw
    }
}

/// What follows the first line of `bytes`.
pub open spec fn after_first_line(bytes: Seq<u8>) -> Seq<u8> {
    let end = index_of(bytes, 0x0a);
    if 0 <= end < bytes.len() {
        bytes.skip(end + 1)
    } else {
        Seq::empty()
    }
}

/// The lines of `bytes`, or `None` if one of them is not valid UTF-8. A line
/// ends with a line feed or with the text; its line feed, and a carriage
/// return before that, are no part of it.
pub open spec fn lines_of(bytes: Seq<u8>) -> Option<Seq<Seq<u8>>>
    decreases bytes.len(),
{
    if bytes.len() == 0 {
        Some(Seq::empty())
    } else if !valid_utf8(first_line(bytes)) {
        None
    } else if 0 <= index_of(bytes, 0x0a) < bytes.len() {
        match lines_of(bytes.skip(index_of(bytes, 0x0a) + 1)) {
            Some(rest) => Some(seq![first_line(bytes)] + rest),
            None => None,
        }
    } else {
        Some(seq![first_line(bytes)])
    }
}

/// The UTF-8 bytes of each string of a list.
pub open spec fn lines_view(list: Seq<String>) -> Seq<Seq<u8>> {
    Seq::new(list.len(), |i: int| encode_utf8(list[i]@))
}

/// Whether `read` holds the lines `rest` gives after the lines `done`.
pub open spec fn lines_after(done: Seq<Seq<u8>>, rest: Seq<u8>) -> Option<Seq<Seq<u8>>> {
    match lines_of(rest) {
        Some(more) => Some(done + more),
        None => None,
    }
}

/// Splits an answer into its lines.
pub fn read_lines(bytes: &[u8]) -> (lines: Option<Vec<String>>)
    ensures
        match lines {
            Some(list) => lines_of(bytes@) == Some(lines_view(list@)),
            None => lines_of(bytes@) is None,
        },
{
    let mut list: Vec<String> = Vec::new();
    let mut from: usize = 0;
    assert(bytes@.skip(0) =~= bytes@);
    assert(lines_view(list@) + lines_of(bytes@)->0 =~= lines_of(bytes@)->0);
    while from < bytes.len()
        invariant
            0 <= from <= bytes@.len(),
            lines_of(bytes@) == lines_after(lines_view(list@), bytes@.skip(from as int)),
        decreases bytes@.len() - from,
    {
        let rest = vstd::slice::slice_subrange(bytes, from, bytes.len());
        assert(rest@ =~= bytes@.skip(from as int));
        let end = find_byte(rest, 0x0a);
        proof {
            lemma_index_of(rest@, 0x0a);
        }
        let cut = if end < rest.len() && end > 0 && rest[end - 1] == 0x0d {
            end - 1
        } else {
            end
        };
        let line = vstd::slice::slice_subrange(rest, 0, cut);
        assert(line@ =~= first_line(rest@));
        let text = match utf8_text(line) {
            Some(text) => text,
            None => {
                return None;
            },
        };
        let ghost before = list@;
        list.push(String::from_str(text));
        assert(lines_view(list@) =~= lines_view(before).push(line@));
        if end >= rest.len() {
            assert(lines_view(list@) =~= lines_view(before) + seq![first_line(rest@)]);
            return Some(list);
        }
        proof {
            let tail = rest@.skip(end as int + 1);
            assert(tail =~= bytes@.skip(from as int + end as int + 1));
            if lines_of(tail) is Some {
                assert(lines_view(list@) + lines_of(tail)->0 =~= lines_view(before) + (seq![
                    first_line(rest@),
                ] + lines_of(tail)->0));
            }
        }
        from = from + end + 1;
    }
    assert(bytes@.skip(from as int).len() == 0);
    assert(lines_view(list@) + Seq::<Seq<u8>>::empty() =~= lines_view(list@));
    Some(list)
}

/// Whether one of the strings of `list` holds the text `text`.
pub open spec fn holds(list: Seq<String>, text: Seq<char>) -> bool {
    exists|i: int| 0 <= i < list.len() && (#[trigger] list[i])@ == text
}

/// Whether one of the strings of `list` holds the text `text`.
pub fn contains(list: &Vec<String>, text: &str) -> (yes: bool)
    ensures
        yes == holds(list@, text@),
{
    let mut i: usize = 0;
    while i < list.len()
        invariant
            0 <= i <= list@.len(),
            forall|j: int| 0 <= j < i ==> (#[trigger] list@[j])@ != text@,
        decreases list@.len() - i,
    {
        if crate::text::str_eq(list[i].as_str(), text) {
            return true;
        }
        i += 1;
    }
    false
}

} // verus!
