//! Installing packages with APT.
//!
//! Each step is a command for the caller to run and a function that reads
//! what the command left behind.

use crate::process::{
    contains, holds, lines_of, lines_view, read_lines, Command, CommandError, CommandView,
    ProcessOutput,
};
use crate::text::push_text;
use vstd::prelude::*;
use vstd::string::StringExecFns;

verus! {

/// The command that lists the names of all known packages.
pub fn list_packages_command() -> (command: Command)
    ensures
        command@ == (CommandView {
            program: "sudo"@,
            args: seq!["apt-cache"@, "pkgnames"@],
            envs: Seq::empty(),
        }),
{
    let mut args: Vec<String> = Vec::new();
    push_text(&mut args, "apt-cache");
    push_text(&mut args, "pkgnames");
    let command = Command { program: String::from_str("sudo"), args, envs: Vec::new() };
    assert(command@.args =~= seq!["apt-cache"@, "pkgnames"@]);
    assert(command@.envs =~= Seq::empty());
    command
}

/// The command that refreshes the package lists.
pub fn update_command() -> (command: Command)
    ensures
        command@ == (CommandView {
            program: "sudo"@,
            args: seq!["apt-get"@, "update"@],
            envs: Seq::empty(),
        }),
{
    let mut args: Vec<String> = Vec::new();
    push_text(&mut args, "apt-get");
    push_text(&mut args, "update");
    let command = Command { program: String::from_str("sudo"), args, envs: Vec::new() };
    assert(command@.args =~= seq!["apt-get"@, "update"@]);
    assert(command@.envs =~= Seq::empty());
    command
}

/// The command that installs the package `pkg` without asking anything.
pub fn install_package_command(pkg: &str) -> (command: Command)
    ensures
        command@ == (CommandView {
            program: "sudo"@,
            args: seq!["apt-get"@, "install"@, "--yes"@, pkg@],
            envs: seq![("DEBIAN_FRONTEND"@, "noninteractive"@)],
        }),
{
    let mut args: Vec<String> = Vec::new();
    push_text(&mut args, "apt-get");
    push_text(&mut args, "install");
    push_text(&mut args, "--yes");
    push_text(&mut args, pkg);
    let mut envs: Vec<(String, String)> = Vec::new();
    envs.push((String::from_str("DEBIAN_FRONTEND"), String::from_str("noninteractive")));
    let command = Command { program: String::from_str("sudo"), args, envs };
    assert(command@.args =~= seq!["apt-get"@, "install"@, "--yes"@, pkg@]);
    assert(command@.envs =~= seq![("DEBIAN_FRONTEND"@, "noninteractive"@)]);
    command
}

/// Whether `read` is what a run that ended with `output` gives when its
/// answer is a list of lines.
pub open spec fn listing(output: ProcessOutput, read: Result<Vec<String>, CommandError>) -> bool {
    match read {
        Ok(list) => output.success && lines_of(output.stdout@) == Some(lines_view(list@)),
        Err(CommandError::Failed { diagnostic }) => !output.success && diagnostic@
            == output.stderr@,
        Err(CommandError::Unreadable) => output.success && lines_of(output.stdout@) is None,
        Err(_) => false,
    }
}

/// Whether `done` is what a run that ended with `output` gives when it has
/// nothing to answer.
pub open spec fn completion(output: ProcessOutput, done: Result<(), CommandError>) -> bool {
    match done {
        Ok(()) => output.success,
        Err(CommandError::Failed { diagnostic }) => !output.success && diagnostic@
            == output.stderr@,
        Err(_) => false,
    }
}

/// Reads the names of the known packages, one per line, from the answer of
/// [`list_packages_command`].
pub fn list_packages(output: ProcessOutput) -> (read: Result<Vec<String>, CommandError>)
    ensures
        listing(output, read),
{
    if !output.success {
        return Err(CommandError::Failed { diagnostic: output.stderr });
    }
    match read_lines(output.stdout.as_slice()) {
        Some(list) => Ok(list),
        None => Err(CommandError::Unreadable),
    }
}

/// Reads how [`update_command`] ended.
pub fn update(output: ProcessOutput) -> (done: Result<(), CommandError>)
    ensures
        completion(output, done),
{
    if output.success {
        Ok(())
    } else {
        Err(CommandError::Failed { diagnostic: output.stderr })
    }
}

/// Reads how [`install_package_command`] ended.
pub fn install_package(output: ProcessOutput) -> (done: Result<(), CommandError>)
    ensures
        completion(output, done),
{
    if output.success {
        Ok(())
    } else {
        Err(CommandError::Failed { diagnostic: output.stderr })
    }
}

/// Whether the package `pkg` has to be installed: whether it is not among the
/// known packages `installed`.
pub fn needs_install(installed: &Vec<String>, pkg: &str) -> (yes: bool)
    ensures
        yes == !holds(installed@, pkg@),
{
    !contains(installed, pkg)
}

} // verus!
