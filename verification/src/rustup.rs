//! Installing toolchains and targets with rustup.
//!
//! Each step is a command for the caller to run and a function that reads
//! what the command left behind.

use crate::apt::completion;
use crate::process::{
    lines_of, lines_view, read_lines, Command, CommandError, CommandView, ProcessOutput,
};
use crate::text::{lemma_str_decodes, push_text, strings_view};
use crate::toolchain::Toolchain;
use crate::triple::{parse_triple, triple_from, triple_text, triple_to_string};
use target_lexicon::Triple;
use vstd::prelude::*;
use vstd::string::{StringExecFns, StringSliceAdditionalSpecFns};
use vstd::utf8::decode_utf8;

verus! {

/// The first word of `line`, as `split_whitespace` of the standard library
/// finds it, or `None` if the line holds nothing but white space.
pub uninterp spec fn first_word(line: Seq<char>) -> Option<Seq<char>>;

/// Calls `split_whitespace` on the line and `next` on what it gives.
#[verifier::external_body]
fn leading_word(line: &str) -> (word: Option<&str>)
    ensures
        match word {
            Some(text) => first_word(line@) == Some(text@),
            None => first_word(line@) is None,
        },
{
    line.split_whitespace().next()
}

/// The command that lists the installed toolchains.
pub fn list_toolchains_command() -> (command: Command)
    ensures
        command@ == (CommandView {
            program: "rustup"@,
            args: seq!["toolchain"@, "list"@],
            envs: Seq::empty(),
        }),
{
    let mut args: Vec<String> = Vec::new();
    push_text(&mut args, "toolchain");
    push_text(&mut args, "list");
    let command = Command { program: String::from_str("rustup"), args, envs: Vec::new() };
    assert(command@.args =~= seq!["toolchain"@, "list"@]);
    assert(command@.envs =~= Seq::empty());
    command
}

/// The name that a line of the list of toolchains gives: its first word, or
/// the line itself if it has no word.
pub open spec fn toolchain_name(line: Seq<char>) -> Seq<char> {
    match first_word(line) {
        Some(word) => word,
        None => line,
    }
}

/// Whether `names` are the names that the lines `lines` give, each for each.
pub open spec fn names_of(lines: Seq<Seq<u8>>, names: Seq<String>) -> bool {
    &&& names.len() == lines.len()
    &&& forall|i: int|
        0 <= i < lines.len() ==> (#[trigger] names[i])@ == toolchain_name(decode_utf8(lines[i]))
}

/// Whether `read` is what the answer `output` of [`list_toolchains_command`]
/// gives: the first word of each line.
pub open spec fn toolchains_listing(
    output: ProcessOutput,
    read: Result<Vec<String>, CommandError>,
) -> bool {
    match read {
        Ok(names) => {
            &&& output.success
            &&& lines_of(output.stdout@) matches Some(lines)
            &&& names_of(lines, names@)
        },
        Err(CommandError::Failed { diagnostic }) => !output.success && diagnostic@
            == output.stderr@,
        Err(CommandError::Unreadable) => output.success && lines_of(output.stdout@) is None,
        Err(_) => false,
    }
}

/// Reads the names of the installed toolchains from the answer of
/// [`list_toolchains_command`].
pub fn list_toolchains(output: ProcessOutput) -> (read: Result<Vec<String>, CommandError>)
    ensures
        toolchains_listing(output, read),
{
    if !output.success {
        return Err(CommandError::Failed { diagnostic: output.stderr });
    }
    let lines = match read_lines(output.stdout.as_slice()) {
        Some(lines) => lines,
        None => {
            return Err(CommandError::Unreadable);
        },
    };
    let mut names: Vec<String> = Vec::new();
    let mut i: usize = 0;
    while i < lines.len()
        invariant
            0 <= i <= lines@.len(),
            names@.len() == i,
            forall|j: int|
                0 <= j < i ==> (#[trigger] names@[j])@ == toolchain_name(
                    decode_utf8(lines_view(lines@)[j]),
                ),
        decreases lines@.len() - i,
    {
        let line = lines[i].as_str();
        proof {
            lemma_str_decodes(line);
        }
        let name = match leading_word(line) {
            Some(word) => String::from_str(word),
            None => String::from_str(line),
        };
        names.push(name);
        i += 1;
    }
    Ok(names)
}

/// The arguments that ask for the components `components`.
pub open spec fn component_args(components: Seq<&str>) -> Seq<Seq<char>>
    decreases components.len(),
{
    if components.len() == 0 {
        Seq::empty()
    } else {
        component_args(components.drop_last()) + seq!["--component"@, components.last()@]
    }
}

/// The command that installs a toolchain with the minimal profile, the
/// standard library for `target` and the given components.
pub fn install_toolchain_command(toolchain: &Toolchain, target: &Triple, components: &[&str]) -> (command:
    Command)
    ensures
        command@ == (CommandView {
            program: "rustup"@,
            args: seq!["toolchain"@, "install"@, toolchain.text(), "--profile"@, "minimal"@]
                + seq!["--target"@, triple_text(*target)] + component_args(components@),
            envs: Seq::empty(),
        }),
{
    let mut args: Vec<String> = Vec::new();
    push_text(&mut args, "toolchain");
    push_text(&mut args, "install");
    push_text(&mut args, toolchain.to_string().as_str());
    push_text(&mut args, "--profile");
    push_text(&mut args, "minimal");
    push_text(&mut args, "--target");
    push_text(&mut args, triple_to_string(target).as_str());
    let ghost fixed = strings_view(args@);
    let mut i: usize = 0;
    while i < components.len()
        invariant
            0 <= i <= components@.len(),
            strings_view(args@) == fixed + component_args(components@.take(i as int)),
        decreases components@.len() - i,
    {
        proof {
            let next = components@.take(i as int + 1);
            assert(next.drop_last() =~= components@.take(i as int));
            assert(next.last() == components@[i as int]);
        }
        let ghost before = strings_view(args@);
        push_text(&mut args, "--component");
        push_text(&mut args, components[i]);
        assert(strings_view(args@) =~= before + seq!["--component"@, components@[i as int]@]);
        assert(strings_view(args@) =~= fixed + component_args(components@.take(i as int + 1)));
        i += 1;
    }
    assert(components@.take(i as int) =~= components@);
    let command = Command { program: String::from_str("rustup"), args, envs: Vec::new() };
    assert(command@.envs =~= Seq::empty());
    assert(fixed =~= seq!["toolchain"@, "install"@, toolchain.text(), "--profile"@, "minimal"@]
        + seq!["--target"@, triple_text(*target)]);
    command
}

/// Reads how [`install_toolchain_command`] ended.
pub fn install_toolchain(output: ProcessOutput) -> (done: Result<(), CommandError>)
    ensures
        completion(output, done),
{
    if output.success {
        Ok(())
    } else {
        Err(CommandError::Failed { diagnostic: output.stderr })
    }
}

/// The command that lists the installed targets.
pub fn list_targets_command() -> (command: Command)
    ensures
        command@ == (CommandView {
            program: "rustup"@,
            args: seq!["target"@, "list"@, "--installed"@],
            envs: Seq::empty(),
        }),
{
    let mut args: Vec<String> = Vec::new();
    push_text(&mut args, "target");
    push_text(&mut args, "list");
    push_text(&mut args, "--installed");
    let command = Command { program: String::from_str("rustup"), args, envs: Vec::new() };
    assert(command@.args =~= seq!["target"@, "list"@, "--installed"@]);
    assert(command@.envs =~= Seq::empty());
    command
}

/// Whether every one of the first `n` lines names a target triple.
pub open spec fn all_targets(lines: Seq<Seq<u8>>, n: int) -> bool {
    forall|i: int| 0 <= i < n ==> triple_from(decode_utf8(#[trigger] lines[i])) is Some
}

/// Whether `read` is what the answer `output` of [`list_targets_command`]
/// gives: the target that each line names.
pub open spec fn targets_listing(output: ProcessOutput, read: Result<Vec<Triple>, CommandError>) -> bool {
    match read {
        Ok(targets) => {
            &&& output.success
            &&& lines_of(output.stdout@) matches Some(lines)
            &&& targets@.len() == lines.len()
            &&& forall|i: int|
                0 <= i < lines.len() ==> triple_from(decode_utf8(lines[i])) == Some(
                    #[trigger] targets@[i],
                )
        },
        Err(CommandError::Failed { diagnostic }) => !output.success && diagnostic@
            == output.stderr@,
        Err(CommandError::Unreadable) => output.success && lines_of(output.stdout@) is None,
        Err(CommandError::InvalidTarget) => {
            &&& output.success
            &&& lines_of(output.stdout@) matches Some(lines)
            &&& !all_targets(lines, lines.len() as int)
        },
    }
}

/// Reads the installed targets, one per line, from the answer of
/// [`list_targets_command`].
pub fn list_targets(output: ProcessOutput) -> (read: Result<Vec<Triple>, CommandError>)
    ensures
        targets_listing(output, read),
{
    if !output.success {
        return Err(CommandError::Failed { diagnostic: output.stderr });
    }
    let lines = match read_lines(output.stdout.as_slice()) {
        Some(lines) => lines,
        None => {
            return Err(CommandError::Unreadable);
        },
    };
    let mut targets: Vec<Triple> = Vec::new();
    let mut i: usize = 0;
    while i < lines.len()
        invariant
            0 <= i <= lines@.len(),
            output.success,
            lines_of(output.stdout@) == Some(lines_view(lines@)),
            targets@.len() == i,
            forall|j: int|
                0 <= j < i ==> triple_from(decode_utf8(lines_view(lines@)[j])) == Some(
                    #[trigger] targets@[j],
                ),
        decreases lines@.len() - i,
    {
        let line = lines[i].as_str();
        proof {
            lemma_str_decodes(line);
        }
        match parse_triple(line) {
            Some(triple) => {
                targets.push(triple);
            },
            None => {
                assert(triple_from(decode_utf8(lines_view(lines@)[i as int])) is None);
                assert(!all_targets(lines_view(lines@), lines@.len() as int));
                return Err(CommandError::InvalidTarget);
            },
        }
        i += 1;
    }
    Ok(targets)
}

/// The command that installs the standard library for `target`.
pub fn install_target_command(target: &Triple) -> (command: Command)
    ensures
        command@ == (CommandView {
            program: "rustup"@,
            args: seq!["target"@, "add"@, triple_text(*target)],
            envs: Seq::empty(),
        }),
{
    let mut args: Vec<String> = Vec::new();
    push_text(&mut args, "target");
    push_text(&mut args, "add");
    push_text(&mut args, triple_to_string(target).as_str());
    let command = Command { program: String::from_str("rustup"), args, envs: Vec::new() };
    assert(command@.args =~= seq!["target"@, "add"@, triple_text(*target)]);
    assert(command@.envs =~= Seq::empty());
    command
}

/// Reads how [`install_target_command`] ended.
pub fn install_target(output: ProcessOutput) -> (done: Result<(), CommandError>)
    ensures
        completion(output, done),
{
    if output.success {
        Ok(())
    } else {
        Err(CommandError::Failed { diagnostic: output.stderr })
    }
}

} // verus!
