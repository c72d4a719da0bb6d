//! Building a binary with Cargo for a target.
//!
//! This module says how Cargo is to be run, and reads the messages that Cargo
//! writes while it builds: which file is the binary, which lines are to be
//! shown, and whether the build failed. Running Cargo is left to the caller.

use crate::env::pairs_view;
use crate::text::{push_text, str_eq, strings_view};
use crate::triple::{triple_text, triple_to_string};
use target_lexicon::Triple;
use vstd::prelude::*;
use vstd::string::StringExecFns;

verus! {

/// The text in snake case, as the `heck` crate writes it.
pub uninterp spec fn snake_case(text: Seq<char>) -> Seq<char>;

/// The text in upper-case snake case, as the `heck` crate writes it.
pub uninterp spec fn shouty_snake_case(text: Seq<char>) -> Seq<char>;

/// Calls `ToSnakeCase::to_snake_case`.
#[verifier::external_body]
fn to_snake_case(text: &str) -> (converted: String)
    ensures
        converted@ == snake_case(text@),
{
    heck::ToSnakeCase::to_snake_case(text)
}

/// Calls `ToShoutySnakeCase::to_shouty_snake_case`.
#[verifier::external_body]
fn to_shouty_snake_case(text: &str) -> (converted: String)
    ensures
        converted@ == shouty_snake_case(text@),
{
    heck::ToShoutySnakeCase::to_shouty_snake_case(text)
}

/// The compiler flags of a build: those already set, if any, and the flag that
/// strips symbols.
pub open spec fn rustflags_spec(given: Option<&str>) -> Seq<char> {
    match given {
        Some(flags) => flags@ + " -C strip=symbols"@,
        None => "-C strip=symbols"@,
    }
}

/// The arguments of a release build of the binary `bin` for `target`, with
/// messages in JSON.
pub open spec fn build_args(bin: Seq<char>, target: Seq<char>) -> Seq<Seq<char>> {
    seq![
        "build"@,
        "--release"@,
        "--message-format"@,
        "json-render-diagnostics"@,
        "--bin"@,
        bin,
        "--target"@,
        target,
    ]
}

/// The variables that make builds for `target` compile C code and link with
/// `compiler`.
pub open spec fn compiler_envs(target: Seq<char>, compiler: Seq<char>) -> Seq<
    (Seq<char>, Seq<char>),
> {
    seq![
        ("CC_"@ + snake_case(target), compiler),
        ("CARGO_TARGET_"@ + shouty_snake_case(target) + "_LINKER"@, compiler),
    ]
}

/// The texts of `items` with `separator` between them.
pub open spec fn joined(items: Seq<String>, separator: Seq<char>) -> Seq<char>
    decreases items.len(),
{
    if items.len() == 0 {
        Seq::empty()
    } else if items.len() == 1 {
        items[0]@
    } else {
        joined(items.drop_last(), separator) + separator + items.last()@
    }
}

/// The texts of `items` with `separator` between them.
pub fn join(items: &[String], separator: &str) -> (text: String)
    ensures
        text@ == joined(items@, separator@),
{
    let mut text = String::new();
    let mut i: usize = 0;
    while i < items.len()
        invariant
            0 <= i <= items@.len(),
            text@ == joined(items@.take(i as int), separator@),
        decreases items@.len() - i,
    {
        proof {
            let next = items@.take(i as int + 1);
            assert(next.drop_last() =~= items@.take(i as int));
            assert(next.last() == items@[i as int]);
            if i == 0 {
                assert(next[0] == items@[0]);
            }
        }
        if i > 0 {
            text.append(separator);
        }
        text.append(items[i].as_str());
        i += 1;
    }
    assert(items@.take(i as int) =~= items@);
    text
}

/// How Cargo is to be run for a build.
#[derive(Debug)]
pub struct CargoBuilder {
    args: Vec<String>,
    envs: Vec<(String, String)>,
    bin: String,
    target: String,
}

impl CargoBuilder {
    /// The arguments of the run, after the name of the program.
    pub closed spec fn args_spec(&self) -> Seq<Seq<char>> {
        strings_view(self.args@)
    }

    /// The variables to set for the run, in the order they are set.
    pub closed spec fn envs_spec(&self) -> Seq<(Seq<char>, Seq<char>)> {
        pairs_view(self.envs@)
    }

    /// The name of the binary that is built.
    pub closed spec fn bin_spec(&self) -> Seq<char> {
        self.bin@
    }

    /// The text of the target that is built for.
    pub closed spec fn target_spec(&self) -> Seq<char> {
        self.target@
    }

    /// A release build of the binary `bin` for `target`. `rustflags` are the
    /// compiler flags that are already set in the environment.
    #[must_use]
    pub fn new(bin: &str, target: &Triple, rustflags: Option<&str>) -> (builder: CargoBuilder)
        ensures
            builder.bin_spec() == bin@,
            builder.target_spec() == triple_text(*target),
            builder.args_spec() == build_args(bin@, triple_text(*target)),
            builder.envs_spec() == seq![("RUSTFLAGS"@, rustflags_spec(rustflags))],
    {
        let target = triple_to_string(target);
        let flags = match rustflags {
            Some(given) => {
                let mut flags = String::from_str(given);
                flags.append(" -C strip=symbols");
                flags
            },
            None => String::from_str("-C strip=symbols"),
        };
        let mut args: Vec<String> = Vec::new();
        push_text(&mut args, "build");
        push_text(&mut args, "--release");
        push_text(&mut args, "--message-format");
        push_text(&mut args, "json-render-diagnostics");
        push_text(&mut args, "--bin");
        push_text(&mut args, bin);
        push_text(&mut args, "--target");
        push_text(&mut args, target.as_str());
        assert(strings_view(args@) =~= build_args(bin@, target@));
        let mut envs: Vec<(String, String)> = Vec::new();
        envs.push((String::from_str("RUSTFLAGS"), flags));
        assert(pairs_view(envs@) =~= seq![("RUSTFLAGS"@, rustflags_spec(rustflags))]);
        CargoBuilder { args, envs, bin: String::from_str(bin), target }
    }

    /// Builds C code and links with `compiler`, if one is given.
    #[must_use]
    pub fn with_compiler(self, compiler: Option<&str>) -> (builder: CargoBuilder)
        ensures
            builder.bin_spec() == self.bin_spec(),
            builder.target_spec() == self.target_spec(),
            builder.args_spec() == self.args_spec(),
            builder.envs_spec() == self.envs_spec() + match compiler {
                Some(name) => compiler_envs(self.target_spec(), name@),
                None => Seq::empty(),
            },
    {
        let mut builder = self;
        if let Some(name) = compiler {
            let mut cc = String::from_str("CC_");
            cc.append(to_snake_case(builder.target.as_str()).as_str());
            let mut linker = String::from_str("CARGO_TARGET_");
            linker.append(to_shouty_snake_case(builder.target.as_str()).as_str());
            linker.append("_LINKER");
            builder.envs.push((cc, String::from_str(name)));
            builder.envs.push((linker, String::from_str(name)));
            assert(pairs_view(builder.envs@) =~= pairs_view(self.envs@) + compiler_envs(
                self.target@,
                name@,
            ));
        } else {
            assert(pairs_view(builder.envs@) =~= pairs_view(self.envs@) + Seq::<
                (Seq<char>, Seq<char>),
            >::empty());
        }
        builder
    }

    /// Builds with the given features, if there are any.
    #[must_use]
    pub fn with_features(self, features: &[String]) -> (builder: CargoBuilder)
        ensures
            builder.bin_spec() == self.bin_spec(),
            builder.target_spec() == self.target_spec(),
            builder.envs_spec() == self.envs_spec(),
            builder.args_spec() == self.args_spec() + if features@.len() > 0 {
                seq!["--features"@, joined(features@, ","@)]
            } else {
                Seq::empty()
            },
    {
        let mut builder = self;
        if features.len() > 0 {
            let list = join(features, ",");
            push_text(&mut builder.args, "--features");
            push_text(&mut builder.args, list.as_str());
            assert(strings_view(builder.args@) =~= strings_view(self.args@) + seq![
                "--features"@,
                joined(features@, ","@),
            ]);
        } else {
            assert(strings_view(builder.args@) =~= strings_view(self.args@) + Seq::<
                Seq<char>,
            >::empty());
        }
        builder
    }

    /// The arguments of the run, after the name of the program.
    pub fn args(&self) -> (args: &Vec<String>)
        ensures
            strings_view(args@) == self.args_spec(),
    {
        &self.args
    }

    /// The variables to set for the run.
    pub fn envs(&self) -> (envs: &Vec<(String, String)>)
        ensures
            pairs_view(envs@) == self.envs_spec(),
    {
        &self.envs
    }

    /// Reads the messages of a run that has ended, and finds the binary.
    pub fn run(&self, messages: &Vec<BuildMessage>) -> (built: Result<String, BuildError>)
        ensures
            match built {
                Ok(path) => binary_of(messages@, self.bin_spec()) == Ok::<Seq<char>, BuildError>(
                    path@,
                ),
                Err(error) => binary_of(messages@, self.bin_spec()) == Err::<
                    Seq<char>,
                    BuildError,
                >(error),
            },
    {
        let mut watch = BuildWatch::new(self.bin.as_str());
        let mut i: usize = 0;
        while i < messages.len()
            invariant
                0 <= i <= messages@.len(),
                watch.name() == self.bin_spec(),
                !watch.failed(),
                watch.found() == first_binary(messages@.take(i as int), self.bin_spec()),
                forall|j: int| 0 <= j < i ==> !is_failure(#[trigger] messages@[j]),
            decreases messages@.len() - i,
        {
            proof {
                let next = messages@.take(i as int + 1);
                assert(next.drop_last() =~= messages@.take(i as int));
                assert(next.last() == messages@[i as int]);
            }
            let _ = watch.observe(&messages[i]);
            if watch.has_failed() {
                proof {
                    lemma_build_failed(messages@, i as int);
                }
                return Err(BuildError::BuildFailed);
            }
            i += 1;
        }
        proof {
            assert(messages@.take(i as int) =~= messages@);
            lemma_build_passed(messages@);
        }
        watch.finish()
    }
}

/// A message that Cargo writes while it builds.
#[derive(Debug)]
pub enum BuildMessage {
    /// The compiler has produced an artifact.
    Artifact {
        /// The executable file, if the artifact is one.
        executable: Option<String>,
        /// The name of the target that was compiled.
        name: String,
        /// The kinds of that target.
        kind: Vec<String>,
    },
    /// The compiler has said something, given as it is to be shown.
    Diagnostic(String),
    /// The build has ended.
    Finished { success: bool },
    /// A line that is no message.
    Text(String),
    /// Anything else.
    Other,
}

/// Why a build gave no binary.
#[derive(Clone, Copy, Debug, PartialEq, Eq, Structural)]
pub enum BuildError {
    /// Cargo has reported that the build failed.
    BuildFailed,
    /// The build ended without an executable of the wanted name.
    NoBinary,
}

/// Whether the message reports that the build failed.
pub open spec fn is_failure(message: BuildMessage) -> bool {
    message matches BuildMessage::Finished { success } && !success
}

/// The executable that the message announces for the binary `bin`: that of an
/// artifact whose target is named `bin` and is of the one kind `bin`.
pub open spec fn binary_in(message: BuildMessage, bin: Seq<char>) -> Option<Seq<char>> {
    match message {
        BuildMessage::Artifact { executable: Some(path), name, kind } => if name@ == bin
            && kind@.len() == 1 && kind@[0]@ == "bin"@ {
            Some(path@)
        } else {
            None
        },
        _ => None,
    }
}

/// The first executable that the messages announce for the binary `bin`.
pub open spec fn first_binary(messages: Seq<BuildMessage>, bin: Seq<char>) -> Option<Seq<char>>
    decreases messages.len(),
{
    if messages.len() == 0 {
        None
    } else {
        match first_binary(messages.drop_last(), bin) {
            Some(path) => Some(path),
            None => binary_in(messages.last(), bin),
        }
    }
}

/// Whether one of the messages reports that the build failed.
pub open spec fn any_failure(messages: Seq<BuildMessage>) -> bool {
    exists|j: int| 0 <= j < messages.len() && is_failure(#[trigger] messages[j])
}

/// What a finished run gives: the first executable announced for the binary
/// `bin`, unless a message reports that the build failed.
pub open spec fn binary_of(messages: Seq<BuildMessage>, bin: Seq<char>) -> Result<
    Seq<char>,
    BuildError,
> {
    if any_failure(messages) {
        Err(BuildError::BuildFailed)
    } else {
        match first_binary(messages, bin) {
            Some(path) => Ok(path),
            None => Err(BuildError::NoBinary),
        }
    }
}

proof fn lemma_build_failed(messages: Seq<BuildMessage>, at: int)
    requires
        0 <= at < messages.len(),
        is_failure(messages[at]),
    ensures
        any_failure(messages),
{
}

proof fn lemma_build_passed(messages: Seq<BuildMessage>)
    requires
        forall|j: int| 0 <= j < messages.len() ==> !is_failure(#[trigger] messages[j]),
    ensures
        !any_failure(messages),
{
}

/// What a message gives to show, if anything.
pub open spec fn shown(message: BuildMessage) -> Option<Seq<char>> {
    match message {
        BuildMessage::Diagnostic(text) => Some(text@),
        BuildMessage::Text(text) => Some(text@),
        _ => None,
    }
}

/// A reader of the messages of a running build.
pub struct BuildWatch {
    bin: String,
    binary: Option<String>,
    failure: bool,
}

impl BuildWatch {
    /// The name of the binary that is looked for.
    pub closed spec fn name(&self) -> Seq<char> {
        self.bin@
    }

    /// The executable found so far.
    pub closed spec fn found(&self) -> Option<Seq<char>> {
        match self.binary {
            Some(path) => Some(path@),
            None => None,
        }
    }

    /// Whether a message has reported that the build failed.
    pub closed spec fn failed(&self) -> bool {
        self.failure
    }

    /// A reader that looks for the binary `bin` and has seen nothing yet.
    pub fn new(bin: &str) -> (watch: BuildWatch)
        ensures
            watch.name() == bin@,
            watch.found() is None,
            !watch.failed(),
    {
        BuildWatch { bin: String::from_str(bin), binary: None, failure: false }
    }

    /// Whether a message has reported that the build failed.
    pub fn has_failed(&self) -> (yes: bool)
        ensures
            yes == self.failed(),
    {
        self.failure
    }

    /// Takes note of a message and hands back the line to show for it, if
    /// there is one. The first executable announced for the binary is kept.
    pub fn observe<'a>(&mut self, message: &'a BuildMessage) -> (line: Option<&'a str>)
        ensures
            final(self).name() == old(self).name(),
            final(self).failed() == (old(self).failed() || is_failure(*message)),
            final(self).found() == match old(self).found() {
                Some(path) => Some(path),
                None => binary_in(*message, old(self).name()),
            },
            match line {
                Some(text) => shown(*message) == Some(text@),
                None => shown(*message) is None,
            },
    {
        match message {
            BuildMessage::Artifact { executable, name, kind } => {
                if let Some(path) = executable {
                    if self.binary.is_none() && str_eq(name.as_str(), self.bin.as_str())
                        && kind.len() == 1 && str_eq(kind[0].as_str(), "bin") {
                        self.binary = Some(path.clone());
                    }
                }
                None
            },
            BuildMessage::Diagnostic(text) => Some(text.as_str()),
            BuildMessage::Finished { success } => {
                if !*success {
                    self.failure = true;
                }
                None
            },
            BuildMessage::Text(text) => Some(text.as_str()),
            BuildMessage::Other => None,
        }
    }

    /// Ends the reading: the executable that was found, unless the build
    /// failed or none was found.
    pub fn finish(self) -> (built: Result<String, BuildError>)
        ensures
            match built {
                Ok(path) => !self.failed() && self.found() == Some(path@),
                Err(BuildError::BuildFailed) => self.failed(),
                Err(BuildError::NoBinary) => !self.failed() && self.found() is None,
            },
    {
        if self.failure {
            return Err(BuildError::BuildFailed);
        }
        match self.binary {
            Some(path) => Ok(path),
            None => Err(BuildError::NoBinary),
        }
    }
}

} // verus!
